use binbook_x4::display::error::DisplayError;
use binbook_x4::display::stream::{
    chunk_len, start_stream, CompressionMethod, PackBitsStream, StreamPlan, StreamStep,
};

/// A resumable run-length decoder of the book format: a header with the top
/// bit set repeats the next byte `(header & 0x7f) + 1` times, any other
/// header copies `header + 1` literal bytes.
#[derive(Default)]
struct Decoder {
    literal: usize,
    repeat: usize,
    repeat_byte: Option<u8>,
}

impl Decoder {
    fn decode(&mut self, input: &[u8], output: &mut [u8]) -> (usize, usize) {
        let (mut i, mut o) = (0, 0);
        loop {
            if self.literal > 0 {
                if i == input.len() || o == output.len() {
                    break;
                }
                output[o] = input[i];
                i += 1;
                o += 1;
                self.literal -= 1;
            } else if self.repeat > 0 {
                match self.repeat_byte {
                    None => {
                        if i == input.len() {
                            break;
                        }
                        self.repeat_byte = Some(input[i]);
                        i += 1;
                    }
                    Some(b) => {
                        if o == output.len() {
                            break;
                        }
                        output[o] = b;
                        o += 1;
                        self.repeat -= 1;
                        if self.repeat == 0 {
                            self.repeat_byte = None;
                        }
                    }
                }
            } else {
                if i == input.len() || o == output.len() {
                    break;
                }
                let header = input[i];
                i += 1;
                if header & 0x80 != 0 {
                    self.repeat = (header & 0x7f) as usize + 1;
                } else {
                    self.literal = header as usize + 1;
                }
            }
        }
        (i, o)
    }

    fn idle(&self) -> bool {
        self.literal == 0 && self.repeat == 0
    }
}

/// Streams `source` through buffers of the given sizes; the output handed
/// on, or the error.
fn run(source: &[u8], decoded_len: usize, input_cap: usize, output_cap: usize) -> Result<Vec<u8>, DisplayError> {
    let mut stream = PackBitsStream::new(0, source.len(), decoded_len, input_cap, output_cap);
    let mut decoder = Decoder::default();
    let mut input = vec![0u8; input_cap];
    let mut output = vec![0u8; output_cap];
    let mut emitted = Vec::new();
    for _ in 0..100_000 {
        match stream.next() {
            StreamStep::Read { offset, len } => {
                let start = offset as usize;
                input[..len].copy_from_slice(&source[start..start + len]);
                stream.read_done();
            }
            StreamStep::Decode { input_start, input_end, output_start, output_end } => {
                let (consumed, produced) =
                    decoder.decode(&input[input_start..input_end], &mut output[output_start..output_end]);
                stream.decoded(consumed, produced);
            }
            StreamStep::Emit { len } => {
                emitted.extend_from_slice(&output[..len]);
                stream.emitted();
            }
            StreamStep::Finish => {
                return if decoder.idle() { Ok(emitted) } else { Err(DisplayError::Decode) };
            }
            StreamStep::Fail(e) => return Err(e),
        }
    }
    panic!("the stream did not end");
}

#[test]
fn packbits_streams_through_small_buffers() {
    // "ab", then 5 x 'z', then "q".
    let source = [1, b'a', b'b', 0x84, b'z', 0, b'q'];
    let expected = b"abzzzzzq".to_vec();
    for input_cap in 1..=8 {
        for output_cap in 1..=9 {
            assert_eq!(run(&source, 8, input_cap, output_cap), Ok(expected.clone()), "{input_cap} {output_cap}");
        }
    }
}

#[test]
fn truncated_or_padded_streams_are_decode_errors() {
    let source = [1, b'a', b'b', 0x84, b'z'];
    // Asking for more output than the source holds.
    assert_eq!(run(&source, 9, 3, 4), Err(DisplayError::Decode));
    // Compressed bytes left over after the output is complete.
    assert_eq!(run(&source, 4, 2, 2), Err(DisplayError::Decode));
    // An empty plane from an empty source.
    assert_eq!(run(&[], 0, 2, 2), Ok(vec![]));
    assert_eq!(run(&[0x80], 0, 2, 2), Err(DisplayError::Decode));
}

#[test]
fn first_step_reads_as_much_as_fits() {
    let mut stream = PackBitsStream::new(100, 10, 4, 4, 4);
    assert_eq!(
        stream.next(),
        StreamStep::Decode { input_start: 0, input_end: 0, output_start: 0, output_end: 4 }
    );
    stream.decoded(0, 0);
    assert_eq!(stream.next(), StreamStep::Read { offset: 100, len: 4 });
    stream.read_done();
    stream.decoded(4, 3);
    assert_eq!(
        stream.next(),
        StreamStep::Decode { input_start: 4, input_end: 4, output_start: 3, output_end: 4 }
    );
    stream.decoded(0, 0);
    assert_eq!(stream.next(), StreamStep::Read { offset: 104, len: 4 });
}

#[test]
fn chunks_cover_the_output() {
    assert_eq!(chunk_len(10, 4, 0), 4);
    assert_eq!(chunk_len(10, 4, 8), 2);
    assert_eq!(chunk_len(10, 4, 10), 0);
    assert_eq!(chunk_len(10, 40, 3), 7);
}

#[test]
fn streams_start_by_method() {
    assert!(matches!(
        start_stream(CompressionMethod::RlePackBits, 0, 10, 20, 0, 4),
        Err(DisplayError::BufferTooSmall { required: 1, provided: 0 })
    ));
    assert!(matches!(
        start_stream(CompressionMethod::RlePackBits, 0, 10, 20, 4, 0),
        Err(DisplayError::BufferTooSmall { required: 1, provided: 0 })
    ));
    assert!(matches!(
        start_stream(CompressionMethod::Uncompressed, 0, 10, 20, 4, 4),
        Err(DisplayError::Decode)
    ));
    assert!(matches!(
        start_stream(CompressionMethod::Uncompressed, 0, 10, 10, 4, 4),
        Ok(StreamPlan::Uncompressed)
    ));
    assert!(matches!(
        start_stream(CompressionMethod::Lz4, 0, 10, 20, 8, 40),
        Err(DisplayError::BufferTooSmall { required: 10, provided: 8 })
    ));
    assert!(matches!(
        start_stream(CompressionMethod::Lz4, 0, 10, 20, 10, 19),
        Err(DisplayError::BufferTooSmall { required: 20, provided: 19 })
    ));
    assert!(matches!(
        start_stream(CompressionMethod::Lz4, 0, 10, 20, 10, 20),
        Ok(StreamPlan::Whole { compressed_len: 10, decoded_len: 20 })
    ));
    match start_stream(CompressionMethod::RlePackBits, 7, 10, 20, 4, 4) {
        Ok(StreamPlan::PackBits(stream)) => assert_eq!(
            stream.next(),
            StreamStep::Decode { input_start: 0, input_end: 0, output_start: 0, output_end: 4 }
        ),
        _ => panic!("expected a PackBits stream"),
    }
}

use binbook_x4::display::page_source::{PlaneDecoder, PlaneStep};

/// Fills one row from `plane`; the decoder's state carries over.
fn fill_row(
    plane_decoder: &mut PlaneDecoder,
    decoder: &mut Decoder,
    plane: &[u8],
    input: &mut [u8],
    row: &mut [u8],
) -> Result<(), DisplayError> {
    plane_decoder.begin_fill(input.len(), row.len());
    loop {
        match plane_decoder.next() {
            PlaneStep::ReadRow { offset, len } => {
                let start = offset as usize;
                row[..len].copy_from_slice(&plane[start..start + len]);
                plane_decoder.read_done();
            }
            PlaneStep::ReadInput { offset, len } => {
                let start = offset as usize;
                input[..len].copy_from_slice(&plane[start..start + len]);
                plane_decoder.read_done();
            }
            PlaneStep::Decode { input_start, input_end, output_start, output_end } => {
                let (consumed, produced) =
                    decoder.decode(&input[input_start..input_end], &mut row[output_start..output_end]);
                plane_decoder.decoded(consumed, produced);
            }
            PlaneStep::Done => return Ok(()),
            PlaneStep::Fail(e) => return Err(e),
        }
    }
}

#[test]
fn plane_rows_decode_one_after_another() {
    // Two rows of four bytes: "abcd" and "zzzz".
    let plane = [3, b'a', b'b', b'c', b'd', 0x83, b'z'];
    for input_cap in 1..=8 {
        let mut plane_decoder = PlaneDecoder::new(plane.len() as u32, CompressionMethod::RlePackBits);
        let mut decoder = Decoder::default();
        let mut input = vec![0u8; input_cap];
        let mut row = [0u8; 4];
        fill_row(&mut plane_decoder, &mut decoder, &plane, &mut input, &mut row).unwrap();
        assert_eq!(&row, b"abcd");
        fill_row(&mut plane_decoder, &mut decoder, &plane, &mut input, &mut row).unwrap();
        assert_eq!(&row, b"zzzz");
        assert_eq!(plane_decoder.finish(decoder.idle()), Ok(()));
        // A third row runs past the plane.
        assert_eq!(
            fill_row(&mut plane_decoder, &mut decoder, &plane, &mut input, &mut row),
            Err(DisplayError::Decode)
        );
    }
}

#[test]
fn plane_finish_needs_every_byte_consumed() {
    let plane = [3, b'a', b'b', b'c', b'd', 0x83, b'z'];
    let mut plane_decoder = PlaneDecoder::new(plane.len() as u32, CompressionMethod::RlePackBits);
    let mut decoder = Decoder::default();
    let mut input = vec![0u8; 16];
    let mut row = [0u8; 4];
    fill_row(&mut plane_decoder, &mut decoder, &plane, &mut input, &mut row).unwrap();
    assert_eq!(plane_decoder.finish(decoder.idle()), Err(DisplayError::Decode));
}

#[test]
fn stored_planes_read_rows_directly() {
    let plane: Vec<u8> = (0..8).collect();
    let mut plane_decoder = PlaneDecoder::new(8, CompressionMethod::Uncompressed);
    let mut decoder = Decoder::default();
    let mut input = [0u8; 1];
    let mut row = [0u8; 4];
    fill_row(&mut plane_decoder, &mut decoder, &plane, &mut input, &mut row).unwrap();
    assert_eq!(row, [0, 1, 2, 3]);
    fill_row(&mut plane_decoder, &mut decoder, &plane, &mut input, &mut row).unwrap();
    assert_eq!(row, [4, 5, 6, 7]);
    assert_eq!(plane_decoder.finish(true), Ok(()));
}

#[test]
fn plane_fills_refuse_empty_input_and_lz4() {
    let mut decoder = Decoder::default();
    let mut row = [0u8; 4];
    let mut plane_decoder = PlaneDecoder::new(8, CompressionMethod::RlePackBits);
    assert_eq!(
        fill_row(&mut plane_decoder, &mut decoder, &[0; 8], &mut [], &mut row),
        Err(DisplayError::BufferTooSmall { required: 1, provided: 0 })
    );
    let mut plane_decoder = PlaneDecoder::new(8, CompressionMethod::Lz4);
    assert_eq!(
        fill_row(&mut plane_decoder, &mut decoder, &[0; 8], &mut [0u8; 4], &mut row),
        Err(DisplayError::Decode)
    );
}

#[test]
fn packbits_stream_accepts_buffers_smaller_than_input_and_output() {
    let encoded = [0x82, 0xaa, 0x02, 1, 2, 3, 0x81, 0xbb];
    let mut compressed = [0_u8; 2];
    let mut decoded = [0_u8; 3];
    let mut output = [0_u8; 8];
    let mut offset = 0;
    let mut decoder = Decoder::default();
    let Ok(StreamPlan::PackBits(mut stream)) = start_stream(
        CompressionMethod::RlePackBits,
        0,
        encoded.len(),
        output.len(),
        compressed.len(),
        decoded.len(),
    ) else {
        panic!("expected a PackBits stream");
    };
    loop {
        match stream.next() {
            StreamStep::Read { offset: at, len } => {
                compressed[..len].copy_from_slice(&encoded[at as usize..at as usize + len]);
                stream.read_done();
            }
            StreamStep::Decode { input_start, input_end, output_start, output_end } => {
                let (consumed, produced) = decoder
                    .decode(&compressed[input_start..input_end], &mut decoded[output_start..output_end]);
                stream.decoded(consumed, produced);
            }
            StreamStep::Emit { len } => {
                output[offset..offset + len].copy_from_slice(&decoded[..len]);
                offset += len;
                stream.emitted();
            }
            StreamStep::Finish => {
                assert!(decoder.idle());
                break;
            }
            StreamStep::Fail(e) => panic!("{e:?}"),
        }
    }
    assert_eq!(output, [0xaa, 0xaa, 0xaa, 1, 2, 3, 0xbb, 0xbb]);
}

#[test]
fn empty_caller_buffers_are_rejected_with_sizes() {
    let empty: [u8; 0] = [];
    let decoded = [0_u8; 1];
    assert!(start_stream(CompressionMethod::Uncompressed, 0, 1, 1, empty.len(), decoded.len()).is_err());
}

//! CRC-16, COBS byte stuffing and the frame layout that combines them.
//!
//! A raw frame is `"BB"`, the protocol version, kind, opcode, status, the
//! sequence number and payload length (little-endian `u16`s), the payload, and
//! the CRC-16/CCITT-FALSE of everything before it. On the wire the raw frame is
//! COBS-encoded and followed by a single zero delimiter.

use vstd::prelude::*;
use vstd::slice::*;
use crate::protocol::bytes::{
    copy_at, copy_prefix, from_le16, group_le, le16, push_slice, push_u16, read_u16,
};
use crate::protocol::{
    FrameHeader, FrameKind, Opcode, ProtocolError, RawFrameHeader, Status, FRAME_DELIMITER, MAGIC,
    MAX_FRAME_BYTES, MAX_PAYLOAD_BYTES, PROTOCOL_VERSION,
};

verus! {

broadcast use group_le, vstd::slice::group_slice_axioms;

// ---------------------------------------------------------------------------
// CRC-16/CCITT-FALSE
// ---------------------------------------------------------------------------

/// One bit step of the CRC register (polynomial 0x1021, MSB first).
pub open spec fn crc16_shift(crc: u16) -> u16 {
    if crc & 0x8000 != 0 {
        ((crc << 1u16) ^ 0x1021u16) as u16
    } else {
        (crc << 1u16) as u16
    }
}

/// `n` bit steps of the CRC register.
pub open spec fn crc16_bits(crc: u16, n: nat) -> u16
    decreases n,
{
    if n == 0 {
        crc
    } else {
        crc16_bits(crc16_shift(crc), (n - 1) as nat)
    }
}

/// The register after one more data byte.
pub open spec fn crc16_byte(crc: u16, byte: u8) -> u16 {
    crc16_bits(crc ^ ((byte as u16) << 8u16), 8)
}

/// The register after feeding `data`, starting from `init`.
pub open spec fn crc16_update(init: u16, data: Seq<u8>) -> u16
    decreases data.len(),
{
    if data.len() == 0 {
        init
    } else {
        crc16_byte(crc16_update(init, data.drop_last()), data.last())
    }
}

/// CRC-16/CCITT-FALSE: initial value 0xFFFF, no reflection, no final XOR.
pub open spec fn crc16(data: Seq<u8>) -> u16 {
    crc16_update(0xFFFF, data)
}

pub fn crc16_ccitt_false(data: &[u8]) -> (r: u16)
    ensures
        r == crc16(data@),
{
    let mut crc: u16 = 0xFFFF;
    let mut i: usize = 0;
    while i < data.len()
        invariant
            i <= data@.len(),
            crc == crc16_update(0xFFFF, data@.take(i as int)),
        decreases data@.len() - i,
    {
        let ghost prev = crc;
        crc = crc ^ ((data[i] as u16) << 8u16);
        let ghost start = crc;
        let mut k: u32 = 0;
        while k < 8
            invariant
                k <= 8,
                crc16_bits(start, 8) == crc16_bits(crc, (8 - k) as nat),
            decreases 8 - k,
        {
            assert(crc16_bits(crc, (8 - k) as nat) == crc16_bits(
                crc16_shift(crc),
                (8 - k - 1) as nat,
            ));
            if crc & 0x8000 != 0 {
                crc = (crc << 1u16) ^ 0x1021;
            } else {
                crc = crc << 1u16;
            }
            k = k + 1;
        }
        assert(data@.take(i + 1).drop_last() =~= data@.take(i as int));
        i = i + 1;
    }
    assert(data@.take(data@.len() as int) =~= data@);
    crc
}

// ---------------------------------------------------------------------------
// COBS
// ---------------------------------------------------------------------------

/// The encoder's progress after reading `input`: the finished blocks, and the
/// data bytes of the block still open. A zero byte closes the open block with
/// a code one larger than its length; a block is closed with code 255 as soon
/// as it holds 254 data bytes, so a zero after it opens a block of its own.
pub open spec fn cobs_state(input: Seq<u8>) -> (Seq<u8>, Seq<u8>)
    decreases input.len(),
{
    if input.len() == 0 {
        (Seq::empty(), Seq::empty())
    } else {
        let (done, block) = cobs_state(input.drop_last());
        let b = input.last();
        if b == 0 {
            (done + seq![(block.len() + 1) as u8] + block, Seq::empty())
        } else if block.len() == 253 {
            (done + seq![255u8] + block.push(b), Seq::empty())
        } else {
            (done, block.push(b))
        }
    }
}

/// The COBS encoding of `input`, including the trailing frame delimiter.
pub open spec fn cobs_encoding(input: Seq<u8>) -> Seq<u8> {
    let (done, block) = cobs_state(input);
    done + seq![(block.len() + 1) as u8] + block + seq![0u8]
}

/// Decoding of a COBS body (the bytes before the delimiter) into a buffer that
/// holds `cap` bytes: each block is a code `c`, then `c - 1` data bytes, and a
/// zero byte after them when `c < 255` and more blocks follow.
pub open spec fn cobs_decode_body(body: Seq<u8>, cap: int) -> Result<Seq<u8>, ProtocolError>
    decreases body.len(),
{
    if body.len() == 0 {
        Ok(Seq::empty())
    } else {
        let code = body[0] as int;
        if code == 0 || code > body.len() {
            Err(ProtocolError::BadCobs)
        } else {
            let data = body.subrange(1, code);
            let rest = body.subrange(code, body.len() as int);
            let zero = code < 255 && rest.len() > 0;
            if data.len() > cap {
                Err(ProtocolError::OutputTooSmall)
            } else if zero && data.len() + 1 > cap {
                Err(ProtocolError::OutputTooSmall)
            } else {
                let used = if zero {
                    data.len() + 1int
                } else {
                    data.len() as int
                };
                match cobs_decode_body(rest, cap - used) {
                    Ok(r) => Ok(
                        data + (if zero {
                            seq![0u8]
                        } else {
                            Seq::empty()
                        }) + r,
                    ),
                    Err(e) => Err(e),
                }
            }
        }
    }
}

/// Decoding of a complete COBS frame (body and delimiter) into `cap` bytes.
pub open spec fn cobs_decoding(input: Seq<u8>, cap: int) -> Result<Seq<u8>, ProtocolError> {
    if input.len() == 0 || input.last() != FRAME_DELIMITER {
        Err(ProtocolError::BadCobs)
    } else {
        cobs_decode_body(input.drop_last(), cap)
    }
}

/// The number of bytes the encoding of `input` takes.
pub open spec fn cobs_len(input: Seq<u8>) -> int {
    (cobs_state(input).0.len() + cobs_state(input).1.len() + 2) as int
}

/// Shape of the encoder state: the open block holds at most 253 non-zero bytes,
/// and each 255-code block adds one byte of overhead per 254 input bytes.
pub proof fn lemma_cobs_state_shape(input: Seq<u8>)
    ensures
        cobs_state(input).1.len() <= 253,
        cobs_state(input).1.len() <= input.len(),
        forall|i: int| 0 <= i < cobs_state(input).1.len() ==> #[trigger] cobs_state(input).1[i] != 0,
        cobs_state(input).0.len() + cobs_state(input).1.len() >= input.len(),
        (cobs_state(input).0.len() + cobs_state(input).1.len() - input.len()) * 254 + cobs_state(
            input,
        ).1.len() <= input.len(),
    decreases input.len(),
{
    if input.len() > 0 {
        lemma_cobs_state_shape(input.drop_last());
    }
}

/// Each further input byte makes the encoding at least one byte longer.
pub proof fn lemma_cobs_len_monotone(input: Seq<u8>, i: int, j: int)
    requires
        0 <= i <= j <= input.len(),
    ensures
        cobs_len(input.take(i)) + (j - i) <= cobs_len(input.take(j)),
    decreases j - i,
{
    if i < j {
        lemma_cobs_len_monotone(input, i, j - 1);
        assert(input.take(j).drop_last() =~= input.take(j - 1));
        lemma_cobs_state_shape(input.take(j - 1));
    }
}

/// Equal tails stay equal when more of them is dropped.
pub proof fn lemma_skip_more(a: Seq<u8>, b: Seq<u8>, k: int, m: int)
    requires
        0 <= k <= m <= a.len(),
        a.len() == b.len(),
        a.skip(k) == b.skip(k),
    ensures
        a.skip(m) == b.skip(m),
{
    assert forall|i: int| 0 <= i < a.len() - m implies a.skip(m)[i] == b.skip(m)[i] by {
        assert(a.skip(m)[i] == a.skip(k)[i + m - k]);
        assert(b.skip(m)[i] == b.skip(k)[i + m - k]);
    }
    assert(a.skip(m) =~= b.skip(m));
}

/// How reading one more byte changes the encoder state.
pub proof fn lemma_cobs_state_step(input: Seq<u8>, i: int)
    requires
        0 <= i < input.len(),
    ensures
        ({
            let (done, block) = cobs_state(input.take(i));
            let b = input[i];
            cobs_state(input.take(i + 1)) == if b == 0 {
                (done + seq![(block.len() + 1) as u8] + block, Seq::<u8>::empty())
            } else if block.len() == 253 {
                (done + seq![255u8] + block.push(b), Seq::<u8>::empty())
            } else {
                (done, block.push(b))
            }
        }),
{
    assert(input.take(i + 1).drop_last() =~= input.take(i));
}

pub fn cobs_encode(input: &[u8], output: &mut [u8]) -> (r: Result<usize, ProtocolError>)
    ensures
        r is Ok <==> old(output)@.len() >= cobs_len(input@),
        r is Err ==> r == Err::<usize, ProtocolError>(ProtocolError::OutputTooSmall),
        r matches Ok(n) ==> n == cobs_encoding(input@).len() && final(output)@ == cobs_encoding(
            input@,
        ) + old(output)@.skip(n as int),
        final(output)@.len() == old(output)@.len(),
        old(output)@.len() < input@.len() + 2 ==> final(output)@ == old(output)@,
{
    proof {
        lemma_cobs_state_shape(input@);
        assert(input@.take(input@.len() as int) =~= input@);
    }
    if output.len() < 2 || output.len() - 2 < input.len() {
        return Err(ProtocolError::OutputTooSmall);
    }
    let ghost out0 = output@;
    let ghost mut done: Seq<u8> = Seq::empty();
    let ghost mut block: Seq<u8> = Seq::empty();
    let mut read_pos: usize = 0;
    let mut write_pos: usize = 1;
    let mut code_pos: usize = 0;
    let mut code: u8 = 1;
    assert(input@.take(0) =~= Seq::<u8>::empty());
    assert(output@.take(0) =~= done);
    assert(output@.subrange(1, 1) =~= block);
    while read_pos < input.len()
        invariant
            read_pos <= input@.len(),
            output@.len() == out0.len(),
            out0.len() >= input@.len() + 2,
            out0 == old(output)@,
            cobs_state(input@.take(read_pos as int)) == (done, block),
            code_pos == done.len(),
            write_pos == code_pos + 1 + block.len(),
            code == block.len() + 1,
            block.len() <= 253,
            write_pos <= output@.len(),
            output@.take(code_pos as int) == done,
            output@.subrange(code_pos + 1, write_pos as int) == block,
            output@.skip(write_pos as int) == out0.skip(write_pos as int),
            input@.take(input@.len() as int) == input@,
        decreases input@.len() - read_pos,
    {
        proof {
            lemma_cobs_state_step(input@, read_pos as int);
            lemma_cobs_state_shape(input@.take(read_pos as int));
            lemma_cobs_len_monotone(input@, read_pos + 1, input@.len() as int);
        }
        if input[read_pos] == 0 {
            if write_pos >= output.len() {
                return Err(ProtocolError::OutputTooSmall);
            }
            let ghost before = output@;
            output[code_pos] = code;
            assert(output@.take(write_pos as int) =~= done + seq![code] + block) by {
                assert(before.take(code_pos as int) == done);
                assert(before.subrange(code_pos + 1, write_pos as int) == block);
            }
            assert(output@.skip(write_pos as int) =~= before.skip(write_pos as int));
            proof {
                lemma_skip_more(output@, out0, write_pos as int, write_pos + 1);
                done = done + seq![code] + block;
                block = Seq::empty();
            }
            code_pos = write_pos;
            write_pos = write_pos + 1;
            code = 1;
            assert(output@.subrange(code_pos + 1, write_pos as int) =~= block);
        } else {
            if write_pos >= output.len() {
                return Err(ProtocolError::OutputTooSmall);
            }
            let ghost before = output@;
            output[write_pos] = input[read_pos];
            assert(output@.take(code_pos as int) =~= before.take(code_pos as int));
            assert(output@.subrange(code_pos + 1, write_pos + 1) =~= block.push(
                input@[read_pos as int],
            )) by {
                assert(before.subrange(code_pos + 1, write_pos as int) == block);
            }
            assert(output@.skip(write_pos + 1) =~= before.skip(write_pos + 1));
            proof {
                lemma_skip_more(before, out0, write_pos as int, write_pos + 1);
                block = block.push(input@[read_pos as int]);
            }
            write_pos = write_pos + 1;
            code = code + 1;
            if code == 0xFF {
                if write_pos >= output.len() {
                    return Err(ProtocolError::OutputTooSmall);
                }
                let ghost before2 = output@;
                output[code_pos] = code;
                assert(output@.take(write_pos as int) =~= done + seq![code] + block) by {
                    assert(before2.take(code_pos as int) == done);
                    assert(before2.subrange(code_pos + 1, write_pos as int) == block);
                }
                assert(output@.skip(write_pos as int) =~= before2.skip(write_pos as int));
                proof {
                    lemma_skip_more(output@, out0, write_pos as int, write_pos + 1);
                    done = done + seq![code] + block;
                    block = Seq::empty();
                }
                code_pos = write_pos;
                write_pos = write_pos + 1;
                code = 1;
                assert(output@.subrange(code_pos + 1, write_pos as int) =~= block);
            }
        }
        read_pos = read_pos + 1;
    }
    if write_pos >= output.len() {
        return Err(ProtocolError::OutputTooSmall);
    }
    assert(cobs_state(input@) == (done, block));
    let ghost before = output@;
    output[code_pos] = code;
    output[write_pos] = FRAME_DELIMITER;
    write_pos = write_pos + 1;
    assert(output@.take(write_pos as int) =~= cobs_encoding(input@)) by {
        assert(before.take(code_pos as int) == done);
        assert(before.subrange(code_pos + 1, write_pos - 1) == block);
    }
    proof {
        lemma_skip_more(before, out0, write_pos - 1, write_pos as int);
    }
    assert(output@.skip(write_pos as int) =~= before.skip(write_pos as int));
    assert(output@ =~= output@.take(write_pos as int) + output@.skip(write_pos as int));
    Ok(write_pos)
}

/// `Ok(prefix + d)` for `Ok(d)`; the same error otherwise.
pub open spec fn prepend(prefix: Seq<u8>, r: Result<Seq<u8>, ProtocolError>) -> Result<
    Seq<u8>,
    ProtocolError,
> {
    match r {
        Ok(d) => Ok(prefix + d),
        Err(e) => Err(e),
    }
}

/// Prepending twice is prepending the concatenation.
pub proof fn lemma_prepend_twice(a: Seq<u8>, b: Seq<u8>, r: Result<Seq<u8>, ProtocolError>)
    ensures
        prepend(a, prepend(b, r)) == prepend(a + b, r),
{
    match r {
        Ok(d) => {
            assert(a + (b + d) =~= (a + b) + d);
        },
        Err(_) => {},
    }
}

/// One block of the decoding, read from the front of `body`.
pub proof fn lemma_cobs_decode_block(body: Seq<u8>, pos: int, cap: int)
    requires
        0 <= pos < body.len(),
        body[pos] != 0,
        pos + body[pos] <= body.len(),
    ensures
        ({
            let code = body[pos] as int;
            let data = body.subrange(pos + 1, pos + code);
            let rest = body.skip(pos + code);
            let zero = code < 255 && pos + code < body.len();
            cobs_decode_body(body.skip(pos), cap) == if data.len() > cap {
                Err(ProtocolError::OutputTooSmall)
            } else if zero && data.len() + 1 > cap {
                Err(ProtocolError::OutputTooSmall)
            } else {
                let used = if zero {
                    data.len() + 1int
                } else {
                    data.len() as int
                };
                prepend(
                    data + (if zero {
                        seq![0u8]
                    } else {
                        Seq::empty()
                    }),
                    cobs_decode_body(rest, cap - used),
                )
            }
        }),
{
    let b = body.skip(pos);
    let code = body[pos] as int;
    assert(b[0] == body[pos]);
    assert(b.subrange(1, code) =~= body.subrange(pos + 1, pos + code));
    assert(b.subrange(code, b.len() as int) =~= body.skip(pos + code));
    let zero = code < 255 && pos + code < body.len();
    let data = body.subrange(pos + 1, pos + code);
    match cobs_decode_body(body.skip(pos + code), cap - (if zero { data.len() + 1int } else { data.len() as int })) {
        Ok(r) => {
            assert(data + (if zero { seq![0u8] } else { Seq::<u8>::empty() }) + r =~= data + ((
            if zero {
                seq![0u8]
            } else {
                Seq::<u8>::empty()
            }) + r));
        },
        Err(_) => {},
    }
}

pub fn cobs_decode(input: &[u8], output: &mut [u8]) -> (r: Result<usize, ProtocolError>)
    ensures
        final(output)@.len() == old(output)@.len(),
        match cobs_decoding(input@, old(output)@.len() as int) {
            Ok(d) => r == Ok::<usize, ProtocolError>(d.len() as usize) && final(output)@ == d + old(output)@.skip(d.len() as int),
            Err(e) => r == Err::<usize, ProtocolError>(e),
        },
{
    if input.len() == 0 || input[input.len() - 1] != FRAME_DELIMITER {
        return Err(ProtocolError::BadCobs);
    }
    let ghost body = input@.drop_last();
    let ghost out0 = output@;
    let ghost cap = out0.len() as int;
    let end_pos = input.len() - 1;
    assert(input@.last() == FRAME_DELIMITER);
    assert(cobs_decoding(input@, cap) == cobs_decode_body(body, cap));
    let mut read_pos: usize = 0;
    let mut write_pos: usize = 0;
    assert(body.skip(0) =~= body);
    assert(output@.take(0) + body =~= body);
    while read_pos < end_pos
        invariant
            end_pos == body.len(),
            input@.len() == end_pos + 1,
            body == input@.drop_last(),
            read_pos <= end_pos,
            write_pos <= output@.len(),
            output@.len() == out0.len(),
            cap == out0.len(),
            out0 == old(output)@,
            cobs_decoding(input@, cap) == cobs_decode_body(body, cap),
            cobs_decode_body(body, cap) == prepend(
                output@.take(write_pos as int),
                cobs_decode_body(body.skip(read_pos as int), cap - write_pos),
            ),
            output@.skip(write_pos as int) == out0.skip(write_pos as int),
        decreases end_pos - read_pos,
    {
        let code = input[read_pos] as usize;
        assert(body[read_pos as int] == input@[read_pos as int]);
        assert(body.skip(read_pos as int)[0] == body[read_pos as int]);
        if code == 0 {
            return Err(ProtocolError::BadCobs);
        }
        if code > end_pos - read_pos {
            return Err(ProtocolError::BadCobs);
        }
        proof {
            lemma_cobs_decode_block(body, read_pos as int, cap - write_pos);
        }
        let start = read_pos + 1;
        let end = read_pos + code;
        let n = code - 1;
        let ghost rem = cap - write_pos;
        let ghost zero = code < 255 && end < end_pos;
        assert(body.subrange(start as int, end as int).len() == n);
        if n > output.len() - write_pos {
            assert(cobs_decode_body(body.skip(read_pos as int), rem) == Err::<Seq<u8>, ProtocolError>(
                ProtocolError::OutputTooSmall));
            assert(cobs_decode_body(body, cap) == Err::<Seq<u8>, ProtocolError>(
                ProtocolError::OutputTooSmall));
            return Err(ProtocolError::OutputTooSmall);
        }
        let ghost before = output@;
        let data = slice_subrange(input, start, end);
        assert(data@ =~= body.subrange(start as int, end as int));
        copy_at(output, write_pos, data);
        assert(output@.take(write_pos + n) =~= before.take(write_pos as int) + data@);
        assert(output@.skip(write_pos + n) =~= before.skip(write_pos + n));
        proof {
            lemma_skip_more(before, out0, write_pos as int, write_pos + n);
        }
        write_pos = write_pos + n;
        read_pos = end;
        if code < 0xFF && read_pos < end_pos {
            if write_pos >= output.len() {
                assert(cobs_decode_body(body.skip(read_pos - code), rem) == Err::<
                    Seq<u8>,
                    ProtocolError,
                >(ProtocolError::OutputTooSmall));
                assert(cobs_decode_body(body, cap) == Err::<Seq<u8>, ProtocolError>(
                    ProtocolError::OutputTooSmall));
                return Err(ProtocolError::OutputTooSmall);
            }
            let ghost before2 = output@;
            output[write_pos] = 0;
            assert(output@.take(write_pos + 1) =~= before2.take(write_pos as int) + seq![0u8]);
            assert(output@.skip(write_pos + 1) =~= before2.skip(write_pos + 1));
            proof {
                lemma_skip_more(before2, out0, write_pos as int, write_pos + 1);
            }
            write_pos = write_pos + 1;
            assert(output@.take(write_pos as int) =~= before.take(write_pos - n - 1) + (data@
                + seq![0u8]));
            proof {
                lemma_prepend_twice(
                    before.take(write_pos - n - 1),
                    data@ + seq![0u8],
                    cobs_decode_body(body.skip(read_pos as int), rem - n - 1),
                );
            }
        } else {
            assert(data@ + Seq::<u8>::empty() =~= data@);
            proof {
                lemma_prepend_twice(
                    before.take(write_pos - n),
                    data@,
                    cobs_decode_body(body.skip(read_pos as int), rem - n),
                );
            }
        }
    }
    assert(body.skip(end_pos as int) =~= Seq::<u8>::empty());
    assert(output@ =~= output@.take(write_pos as int) + out0.skip(write_pos as int));
    Ok(write_pos)
}

// ---------------------------------------------------------------------------
// Frames
// ---------------------------------------------------------------------------

/// Header fields and payload of a raw frame, before its CRC.
pub open spec fn raw_frame_prefix(h: RawFrameHeader, payload: Seq<u8>) -> Seq<u8> {
    MAGIC@ + seq![PROTOCOL_VERSION, h.kind, h.opcode, h.status] + le16(h.sequence) + le16(
        h.payload_len,
    ) + payload
}

/// A complete raw frame: header, payload and the CRC of both.
pub open spec fn raw_frame_bytes(h: RawFrameHeader, payload: Seq<u8>) -> Seq<u8> {
    raw_frame_prefix(h, payload) + le16(crc16(raw_frame_prefix(h, payload)))
}

/// The header a raw frame carries, or the first rule it breaks.
pub open spec fn parse_raw_frame(raw: Seq<u8>) -> Result<RawFrameHeader, ProtocolError> {
    if raw.len() < 12 {
        Err(ProtocolError::BadMagic)
    } else if raw.subrange(0, 2) != MAGIC@ {
        Err(ProtocolError::BadMagic)
    } else if raw[2] != PROTOCOL_VERSION {
        Err(ProtocolError::BadVersion)
    } else if raw.len() != 12 + from_le16(raw.subrange(8, 10)) {
        Err(ProtocolError::BadPayloadLength)
    } else if from_le16(raw.subrange(raw.len() - 2, raw.len() as int)) != crc16(
        raw.take(raw.len() - 2),
    ) {
        Err(ProtocolError::BadCrc)
    } else {
        Ok(
            RawFrameHeader {
                kind: raw[3],
                opcode: raw[4],
                status: raw[5],
                sequence: from_le16(raw.subrange(6, 8)),
                payload_len: from_le16(raw.subrange(8, 10)),
            },
        )
    }
}

/// The raw frame a wire frame unstuffs to, within the frame size limit.
pub open spec fn unframe(input: Seq<u8>) -> Result<Seq<u8>, ProtocolError> {
    if input.len() > MAX_FRAME_BYTES {
        Err(ProtocolError::FrameTooLarge)
    } else {
        cobs_decoding(input, MAX_FRAME_BYTES as int)
    }
}

/// Header and payload of a wire frame whose payload must fit `out_len` bytes.
pub open spec fn decode_raw_spec(input: Seq<u8>, out_len: int) -> Result<
    (RawFrameHeader, Seq<u8>),
    ProtocolError,
> {
    match unframe(input) {
        Err(e) => Err(e),
        Ok(raw) => match parse_raw_frame(raw) {
            Err(e) => Err(e),
            Ok(h) => if out_len < h.payload_len {
                Err(ProtocolError::OutputTooSmall)
            } else {
                Ok((h, raw.subrange(10, 10 + h.payload_len)))
            },
        },
    }
}

/// The frame header whose codes the raw bytes name, or the first unknown code.
pub open spec fn known_header(h: RawFrameHeader) -> Result<FrameHeader, ProtocolError> {
    if !(1 <= h.kind <= 3) {
        Err(ProtocolError::BadMagic)
    } else if !(1 <= h.opcode <= 16) {
        Err(ProtocolError::UnknownOpcode)
    } else if h.status > 5 {
        Err(ProtocolError::BadStatus)
    } else {
        Ok(
            FrameHeader {
                kind: choose|k: FrameKind| k.to_u8() == h.kind,
                opcode: choose|o: Opcode| o.to_u8() == h.opcode,
                status: choose|s: Status| s.to_u8() == h.status,
                sequence: h.sequence,
                payload_len: h.payload_len,
            },
        )
    }
}

pub fn encode_raw_frame(header: &RawFrameHeader, payload: &[u8], output: &mut [u8]) -> (r: Result<
    usize,
    ProtocolError,
>)
    ensures
        payload@.len() > MAX_PAYLOAD_BYTES ==> r == Err::<usize, ProtocolError>(
            ProtocolError::PayloadTooLarge,
        ) && final(output)@ == old(output)@,
        payload@.len() <= MAX_PAYLOAD_BYTES && header.payload_len != payload@.len() ==> r == Err::<
            usize,
            ProtocolError,
        >(ProtocolError::BadPayloadLength) && final(output)@ == old(output)@,
        payload@.len() <= MAX_PAYLOAD_BYTES && header.payload_len == payload@.len() ==> {
            let raw = raw_frame_bytes(*header, payload@);
            &&& r is Ok <==> old(output)@.len() >= cobs_len(raw)
            &&& r is Err ==> r == Err::<usize, ProtocolError>(ProtocolError::OutputTooSmall)
            &&& r matches Ok(n) ==> n == cobs_encoding(raw).len() && final(output)@
                == cobs_encoding(raw) + old(output)@.skip(n as int)
        },
        final(output)@.len() == old(output)@.len(),
{
    if payload.len() > MAX_PAYLOAD_BYTES {
        return Err(ProtocolError::PayloadTooLarge);
    }
    if header.payload_len as usize != payload.len() {
        return Err(ProtocolError::BadPayloadLength);
    }
    let mut raw: Vec<u8> = Vec::new();
    raw.push(MAGIC[0]);
    raw.push(MAGIC[1]);
    raw.push(PROTOCOL_VERSION);
    raw.push(header.kind);
    raw.push(header.opcode);
    raw.push(header.status);
    push_u16(&mut raw, header.sequence);
    push_u16(&mut raw, header.payload_len);
    push_slice(&mut raw, payload);
    assert(raw@ =~= raw_frame_prefix(*header, payload@));
    let crc = crc16_ccitt_false(raw.as_slice());
    push_u16(&mut raw, crc);
    cobs_encode(raw.as_slice(), output)
}

pub fn encode_frame(header: &FrameHeader, payload: &[u8], output: &mut [u8]) -> (r: Result<
    usize,
    ProtocolError,
>)
    ensures
        payload@.len() > MAX_PAYLOAD_BYTES ==> r == Err::<usize, ProtocolError>(
            ProtocolError::PayloadTooLarge,
        ) && final(output)@ == old(output)@,
        payload@.len() <= MAX_PAYLOAD_BYTES && header.payload_len != payload@.len() ==> r == Err::<
            usize,
            ProtocolError,
        >(ProtocolError::BadPayloadLength) && final(output)@ == old(output)@,
        payload@.len() <= MAX_PAYLOAD_BYTES && header.payload_len == payload@.len() ==> {
            let raw = raw_frame_bytes(header.raw(), payload@);
            &&& r is Ok <==> old(output)@.len() >= cobs_len(raw)
            &&& r is Err ==> r == Err::<usize, ProtocolError>(ProtocolError::OutputTooSmall)
            &&& r matches Ok(n) ==> n == cobs_encoding(raw).len() && final(output)@
                == cobs_encoding(raw) + old(output)@.skip(n as int)
        },
        final(output)@.len() == old(output)@.len(),
{
    encode_raw_frame(
        &RawFrameHeader {
            kind: header.kind.to_u8(),
            opcode: header.opcode.to_u8(),
            status: header.status.to_u8(),
            sequence: header.sequence,
            payload_len: header.payload_len,
        },
        payload,
        output,
    )
}

pub fn decode_raw_frame(input: &[u8], payload_out: &mut [u8]) -> (r: Result<
    (RawFrameHeader, usize),
    ProtocolError,
>)
    ensures
        final(payload_out)@.len() == old(payload_out)@.len(),
        match decode_raw_spec(input@, old(payload_out)@.len() as int) {
            Ok((h, p)) => r == Ok::<(RawFrameHeader, usize), ProtocolError>((h, p.len() as usize))
                && final(payload_out)@ == p + old(payload_out)@.skip(p.len() as int),
            Err(e) => r == Err::<(RawFrameHeader, usize), ProtocolError>(e) && final(payload_out)@
                == old(payload_out)@,
        },
{
    if input.len() > MAX_FRAME_BYTES {
        return Err(ProtocolError::FrameTooLarge);
    }
    let mut raw: Vec<u8> = vec![0u8; MAX_FRAME_BYTES];
    let ghost raw0 = raw@;
    assert(raw0.len() == MAX_FRAME_BYTES);
    let raw_len = match cobs_decode(input, raw.as_mut_slice()) {
        Ok(n) => n,
        Err(e) => return Err(e),
    };
    let ghost decoded = raw@.take(raw_len as int);
    proof {
        match cobs_decoding(input@, MAX_FRAME_BYTES as int) {
            Ok(d) => {
                assert(decoded =~= d);
            },
            Err(_) => {},
        }
    }
    assert(unframe(input@) == Ok::<Seq<u8>, ProtocolError>(decoded));
    if raw_len < 12 {
        return Err(ProtocolError::BadMagic);
    }
    if raw[0] != MAGIC[0] || raw[1] != MAGIC[1] {
        assert(decoded.subrange(0, 2) != MAGIC@) by {
            assert(decoded.subrange(0, 2)[0] == raw@[0]);
            assert(decoded.subrange(0, 2)[1] == raw@[1]);
        }
        return Err(ProtocolError::BadMagic);
    }
    assert(decoded.subrange(0, 2) =~= MAGIC@);
    if raw[2] != PROTOCOL_VERSION {
        return Err(ProtocolError::BadVersion);
    }
    let sequence = read_u16(raw.as_slice(), 6);
    let payload_len16 = read_u16(raw.as_slice(), 8);
    let payload_len = payload_len16 as usize;
    assert(decoded.subrange(6, 8) =~= raw@.subrange(6, 8));
    assert(decoded.subrange(8, 10) =~= raw@.subrange(8, 10));
    if raw_len != 10 + payload_len + 2 {
        return Err(ProtocolError::BadPayloadLength);
    }
    let expected_crc = read_u16(raw.as_slice(), raw_len - 2);
    let actual_crc = crc16_ccitt_false(slice_subrange(raw.as_slice(), 0, raw_len - 2));
    assert(decoded.subrange(raw_len - 2, raw_len as int) =~= raw@.subrange(
        raw_len - 2,
        raw_len as int,
    ));
    assert(decoded.take(raw_len - 2) =~= raw@.subrange(0, raw_len - 2));
    if expected_crc != actual_crc {
        return Err(ProtocolError::BadCrc);
    }
    if payload_out.len() < payload_len {
        return Err(ProtocolError::OutputTooSmall);
    }
    let payload = slice_subrange(raw.as_slice(), 10, 10 + payload_len);
    assert(payload@ =~= decoded.subrange(10, 10 + payload_len));
    copy_prefix(payload_out, payload);
    let header = RawFrameHeader {
        kind: raw[3],
        opcode: raw[4],
        status: raw[5],
        sequence,
        payload_len: payload_len16,
    };
    Ok((header, payload_len))
}

pub fn decode_frame(input: &[u8], payload_out: &mut [u8]) -> (r: Result<
    (FrameHeader, usize),
    ProtocolError,
>)
    ensures
        final(payload_out)@.len() == old(payload_out)@.len(),
        match decode_raw_spec(input@, old(payload_out)@.len() as int) {
            Ok((h, p)) => final(payload_out)@ == p + old(payload_out)@.skip(p.len() as int)
                && match known_header(h) {
                Ok(fh) => r == Ok::<(FrameHeader, usize), ProtocolError>((fh, p.len() as usize)),
                Err(e) => r == Err::<(FrameHeader, usize), ProtocolError>(e),
            },
            Err(e) => r == Err::<(FrameHeader, usize), ProtocolError>(e) && final(payload_out)@
                == old(payload_out)@,
        },
{
    let (raw, payload_len) = match decode_raw_frame(input, payload_out) {
        Ok(v) => v,
        Err(e) => return Err(e),
    };
    let kind = match FrameKind::from_u8(raw.kind) {
        Some(k) => k,
        None => return Err(ProtocolError::BadMagic),
    };
    let opcode = match Opcode::from_u8(raw.opcode) {
        Some(o) => o,
        None => return Err(ProtocolError::UnknownOpcode),
    };
    let status = match Status::from_u8(raw.status) {
        Some(s) => s,
        None => return Err(ProtocolError::BadStatus),
    };
    let header = FrameHeader { kind, opcode, status, sequence: raw.sequence, payload_len: raw.payload_len };
    proof {
        let fh = known_header(raw)->Ok_0;
        crate::protocol::lemma_frame_kind_code_injective(kind, fh.kind);
        crate::protocol::lemma_opcode_code_injective(opcode, fh.opcode);
        crate::protocol::lemma_status_code_injective(status, fh.status);
    }
    Ok((header, payload_len))
}

// ---------------------------------------------------------------------------
// Laws
// ---------------------------------------------------------------------------

/// Decoding of a COBS body into an unbounded buffer.
pub open spec fn cobs_unstuff(body: Seq<u8>) -> Option<Seq<u8>>
    decreases body.len(),
{
    if body.len() == 0 {
        Some(Seq::empty())
    } else {
        let code = body[0] as int;
        if code == 0 || code > body.len() {
            None
        } else {
            let data = body.subrange(1, code);
            let rest = body.subrange(code, body.len() as int);
            let zero = code < 255 && rest.len() > 0;
            match cobs_unstuff(rest) {
                Some(r) => Some(
                    data + (if zero {
                        seq![0u8]
                    } else {
                        Seq::empty()
                    }) + r,
                ),
                None => None,
            }
        }
    }
}

pub open spec fn opt_prepend(a: Seq<u8>, o: Option<Seq<u8>>) -> Option<Seq<u8>> {
    match o {
        Some(r) => Some(a + r),
        None => None,
    }
}

/// A body that unstuffs to `d` decodes to `d` into any buffer that holds it.
pub proof fn lemma_unstuff_fits(body: Seq<u8>, cap: int)
    requires
        cobs_unstuff(body) is Some,
        cobs_unstuff(body)->0.len() <= cap,
    ensures
        cobs_decode_body(body, cap) == Ok::<Seq<u8>, ProtocolError>(cobs_unstuff(body)->0),
    decreases body.len(),
{
    if body.len() > 0 {
        let code = body[0] as int;
        let rest = body.subrange(code, body.len() as int);
        let zero = code < 255 && rest.len() > 0;
        let data = body.subrange(1, code);
        let used = if zero {
            data.len() + 1int
        } else {
            data.len() as int
        };
        lemma_unstuff_fits(rest, cap - used);
    }
}

/// Unstuffing `[c] + block + t` reads `block` as one block and goes on with `t`.
proof fn lemma_unstuff_block(block: Seq<u8>, code: u8, t: Seq<u8>)
    requires
        1 <= code,
        code == block.len() + 1,
    ensures
        cobs_unstuff(seq![code] + block + t) == opt_prepend(
            block + (if code < 255 && t.len() > 0 {
                seq![0u8]
            } else {
                Seq::empty()
            }),
            cobs_unstuff(t),
        ),
{
    let t2 = seq![code] + block + t;
    assert(t2[0] == code);
    assert(t2.subrange(1, code as int) =~= block);
    assert(t2.subrange(code as int, t2.len() as int) =~= t);
    match cobs_unstuff(t) {
        Some(r) => {
            let z = if code < 255 && t.len() > 0 {
                seq![0u8]
            } else {
                Seq::<u8>::empty()
            };
            assert(block + z + r =~= (block + z) + r);
        },
        None => {},
    }
}

proof fn lemma_opt_prepend_twice(a: Seq<u8>, b: Seq<u8>, o: Option<Seq<u8>>)
    ensures
        opt_prepend(a, opt_prepend(b, o)) == opt_prepend(a + b, o),
{
    match o {
        Some(r) => {
            assert(a + (b + r) =~= (a + b) + r);
        },
        None => {},
    }
}

/// What the finished blocks of the encoder state decode to: `zd`, with the open
/// block completing the input.
proof fn lemma_cobs_state_unstuff(x: Seq<u8>) -> (zd: Seq<u8>)
    ensures
        x == zd + cobs_state(x).1,
        forall|t: Seq<u8>|
            t.len() > 0 ==> #[trigger] cobs_unstuff(cobs_state(x).0 + t) == opt_prepend(
                zd,
                cobs_unstuff(t),
            ),
    decreases x.len(),
{
    lemma_cobs_state_shape(x);
    if x.len() == 0 {
        assert forall|t: Seq<u8>| t.len() > 0 implies #[trigger] cobs_unstuff(cobs_state(x).0 + t)
            == opt_prepend(Seq::empty(), cobs_unstuff(t)) by {
            assert(cobs_state(x).0 + t =~= t);
            match cobs_unstuff(t) {
                Some(r) => {
                    assert(Seq::<u8>::empty() + r =~= r);
                },
                None => {},
            }
        }
        assert(x =~= Seq::<u8>::empty() + cobs_state(x).1);
        Seq::empty()
    } else {
        let prev = x.drop_last();
        let zd0 = lemma_cobs_state_unstuff(prev);
        lemma_cobs_state_shape(prev);
        let (done, block) = cobs_state(prev);
        let b = x.last();
        assert(x =~= prev.push(b));
        if b == 0 {
            let code = (block.len() + 1) as u8;
            let zd = zd0 + block + seq![0u8];
            assert forall|t: Seq<u8>| t.len() > 0 implies #[trigger] cobs_unstuff(
                cobs_state(x).0 + t,
            ) == opt_prepend(zd, cobs_unstuff(t)) by {
                let t2 = seq![code] + block + t;
                assert(cobs_state(x).0 + t =~= done + t2);
                lemma_unstuff_block(block, code, t);
                lemma_opt_prepend_twice(zd0, block + seq![0u8], cobs_unstuff(t));
                assert(zd0 + (block + seq![0u8]) =~= zd);
            }
            assert(x =~= zd + cobs_state(x).1);
            zd
        } else if block.len() == 253 {
            let full = block.push(b);
            let zd = zd0 + full;
            assert forall|t: Seq<u8>| t.len() > 0 implies #[trigger] cobs_unstuff(
                cobs_state(x).0 + t,
            ) == opt_prepend(zd, cobs_unstuff(t)) by {
                let t2 = seq![255u8] + full + t;
                assert(cobs_state(x).0 + t =~= done + t2);
                lemma_unstuff_block(full, 255u8, t);
                assert(full + Seq::<u8>::empty() =~= full);
                lemma_opt_prepend_twice(zd0, full, cobs_unstuff(t));
            }
            assert(x =~= zd + cobs_state(x).1);
            zd
        } else {
            assert(x =~= zd0 + cobs_state(x).1);
            zd0
        }
    }
}

/// The encoding is as long as `cobs_len` says and ends with the delimiter.
pub proof fn lemma_cobs_encoding_len(x: Seq<u8>)
    ensures
        cobs_encoding(x).len() == cobs_len(x),
        cobs_encoding(x).last() == FRAME_DELIMITER,
{
}

/// COBS decoding gives back what was encoded, into any buffer that holds it.
pub proof fn lemma_cobs_roundtrip(x: Seq<u8>, cap: int)
    requires
        x.len() <= cap,
    ensures
        cobs_decoding(cobs_encoding(x), cap) == Ok::<Seq<u8>, ProtocolError>(x),
{
    let zd = lemma_cobs_state_unstuff(x);
    lemma_cobs_state_shape(x);
    let (done, block) = cobs_state(x);
    let code = (block.len() + 1) as u8;
    let t = seq![code] + block;
    let enc = cobs_encoding(x);
    assert(enc.drop_last() =~= done + t);
    lemma_unstuff_block(block, code, Seq::empty());
    assert(seq![code] + block + Seq::<u8>::empty() =~= t);
    assert(block + Seq::<u8>::empty() + Seq::<u8>::empty() =~= block);
    assert(cobs_unstuff(t) == Some(block));
    assert(zd + block == x);
    lemma_unstuff_fits(enc.drop_last(), cap);
}

/// COBS adds one byte per 254 input bytes, plus the first code and the delimiter.
pub proof fn lemma_cobs_len_bound(x: Seq<u8>)
    ensures
        cobs_len(x) * 254 <= x.len() * 255 + 2 * 254,
        x.len() <= MAX_PAYLOAD_BYTES + 12 ==> cobs_len(x) <= MAX_FRAME_BYTES,
{
    lemma_cobs_state_shape(x);
}

/// A raw frame carries the header and payload it was built from.
pub proof fn lemma_parse_raw_frame_bytes(h: RawFrameHeader, p: Seq<u8>)
    requires
        h.payload_len == p.len(),
    ensures
        raw_frame_bytes(h, p).len() == 12 + p.len(),
        parse_raw_frame(raw_frame_bytes(h, p)) == Ok::<RawFrameHeader, ProtocolError>(h),
        raw_frame_bytes(h, p).subrange(10, 10 + p.len() as int) == p,
{
    let pre = raw_frame_prefix(h, p);
    let raw = raw_frame_bytes(h, p);
    assert(raw.subrange(0, 2) =~= MAGIC@);
    assert(raw.subrange(6, 8) =~= le16(h.sequence));
    assert(raw.subrange(8, 10) =~= le16(h.payload_len));
    assert(raw.subrange(raw.len() - 2, raw.len() as int) =~= le16(crc16(pre)));
    assert(raw.take(raw.len() - 2) =~= pre);
    assert(raw.subrange(10, 10 + p.len() as int) =~= p);
}

/// Decoding a frame gives back the header and payload it was encoded from,
/// for every payload within the limits the encoder accepts.
pub proof fn lemma_frame_roundtrip(h: RawFrameHeader, p: Seq<u8>, out_len: int)
    requires
        p.len() <= MAX_PAYLOAD_BYTES,
        h.payload_len == p.len(),
        out_len >= p.len(),
    ensures
        cobs_len(raw_frame_bytes(h, p)) <= MAX_FRAME_BYTES,
        decode_raw_spec(cobs_encoding(raw_frame_bytes(h, p)), out_len) == Ok::<
            (RawFrameHeader, Seq<u8>),
            ProtocolError,
        >((h, p)),
{
    let raw = raw_frame_bytes(h, p);
    lemma_parse_raw_frame_bytes(h, p);
    lemma_cobs_len_bound(raw);
    lemma_cobs_encoding_len(raw);
    lemma_cobs_roundtrip(raw, MAX_FRAME_BYTES as int);
}

/// A typed frame decodes to the header and payload it was encoded from.
pub proof fn lemma_typed_frame_roundtrip(h: FrameHeader, p: Seq<u8>, out_len: int)
    requires
        p.len() <= MAX_PAYLOAD_BYTES,
        h.payload_len == p.len(),
        out_len >= p.len(),
    ensures
        decode_raw_spec(cobs_encoding(raw_frame_bytes(h.raw(), p)), out_len) == Ok::<
            (RawFrameHeader, Seq<u8>),
            ProtocolError,
        >((h.raw(), p)),
        known_header(h.raw()) == Ok::<FrameHeader, ProtocolError>(h),
{
    lemma_frame_roundtrip(h.raw(), p, out_len);
    let fh = known_header(h.raw())->Ok_0;
    crate::protocol::lemma_frame_kind_code_injective(h.kind, fh.kind);
    crate::protocol::lemma_opcode_code_injective(h.opcode, fh.opcode);
    crate::protocol::lemma_status_code_injective(h.status, fh.status);
}

} // verus!

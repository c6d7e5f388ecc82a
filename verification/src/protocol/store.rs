//! Payload codecs of the storage requests and responses.
//!
//! A path-carrying request is the backend byte, the path length as a
//! little-endian `u16`, and the UTF-8 path. A directory listing is an entry
//! count followed by entries, each the entry type, the size as a
//! little-endian `u32`, the name length and the name.

use vstd::prelude::*;
use vstd::slice::*;
use vstd::string::*;
use vstd::utf8::valid_utf8;
use crate::protocol::bytes::{
    copy_at, group_le, le16, le32, push_slice, push_u16, push_u32, read_u16, read_u32,
};
use crate::protocol::{emit, encoded, ProtocolError, StorageBackend};

verus! {

broadcast use group_le, vstd::seq_lib::group_seq_properties, vstd::slice::group_slice_axioms;

pub const STORE_LIST_ENTRY_HEADER_BYTES: usize = 6;
pub const STORE_NAME_MAX_BYTES: usize = 128;

#[derive(Debug, Clone, Copy, PartialEq, Eq)]
pub struct StoreListRequest<'a> {
    pub backend: StorageBackend,
    pub path: &'a str,
}

#[derive(Debug, Clone, Copy, PartialEq, Eq)]
pub struct StoreReadRequest<'a> {
    pub backend: StorageBackend,
    pub path: &'a str,
}

#[derive(Debug, Clone, Copy, PartialEq, Eq)]
pub struct StoreDeleteRequest<'a> {
    pub backend: StorageBackend,
    pub path: &'a str,
}

#[derive(Debug, Clone, Copy, PartialEq, Eq)]
pub struct StoreUploadBeginRequest<'a> {
    pub backend: StorageBackend,
    pub path: &'a str,
    pub file_size: u32,
    pub expected_crc32: u32,
}

#[derive(Debug, Clone, Copy, PartialEq, Eq)]
pub struct StoreUploadWriteRequest<'a> {
    pub upload_id: u32,
    pub offset: u32,
    pub data: &'a [u8],
}

/// `core::str::from_utf8`: the bytes as a string slice exactly when they are
/// valid UTF-8; the slice then holds those very bytes.
#[verifier::external_body]
pub(crate) fn utf8_str(bytes: &[u8]) -> (r: Option<&str>)
    ensures
        r is Some <==> valid_utf8(bytes@),
        r matches Some(s) ==> s.spec_bytes() == bytes@,
{
    core::str::from_utf8(bytes).ok()
}

/// Backend byte, path length and path.
pub open spec fn path_bytes(backend: StorageBackend, path: Seq<u8>) -> Seq<u8> {
    seq![backend.to_u8()] + le16(path.len() as u16) + path
}

pub open spec fn upload_begin_bytes(
    backend: StorageBackend,
    path: Seq<u8>,
    file_size: u32,
    expected_crc32: u32,
) -> Seq<u8> {
    path_bytes(backend, path) + le32(file_size) + le32(expected_crc32)
}

pub open spec fn upload_write_bytes(upload_id: u32, offset: u32, data: Seq<u8>) -> Seq<u8> {
    le32(upload_id) + le32(offset) + data
}

pub open spec fn read_response_bytes(data: Seq<u8>) -> Seq<u8> {
    le32(data.len() as u32) + data
}

pub open spec fn entry_bytes(entry_type: u8, name: Seq<u8>, size: u32) -> Seq<u8> {
    seq![entry_type] + le32(size) + seq![name.len() as u8] + name
}

/// Which rule, if any, a path-carrying payload breaks; `extra` is the number of
/// bytes the request carries after the path.
pub open spec fn path_check(p: Seq<u8>, extra: int) -> Result<(), ProtocolError> {
    if p.len() < 3 {
        Err(ProtocolError::BadPayloadLength)
    } else if p[0] > 1 {
        Err(ProtocolError::InvalidValue)
    } else if p.len() != 3 + crate::protocol::bytes::from_le16(p.subrange(1, 3)) + extra {
        Err(ProtocolError::BadPayloadLength)
    } else if !valid_utf8(p.subrange(3, p.len() - extra)) {
        Err(ProtocolError::InvalidValue)
    } else {
        Ok(())
    }
}

fn encode_path(backend: StorageBackend, path: &str, v: &mut Vec<u8>) -> (r: Result<
    (),
    ProtocolError,
>)
    ensures
        path.spec_bytes().len() > u16::MAX ==> r == Err::<(), ProtocolError>(
            ProtocolError::InvalidValue,
        ),
        path.spec_bytes().len() <= u16::MAX ==> r is Ok && final(v)@ == old(v)@ + path_bytes(
            backend,
            path.spec_bytes(),
        ),
{
    let bytes = path.as_bytes();
    if bytes.len() > 0xFFFF {
        return Err(ProtocolError::InvalidValue);
    }
    v.push(backend.to_u8());
    push_u16(v, bytes.len() as u16);
    push_slice(v, bytes);
    assert(final(v)@ =~= old(v)@ + path_bytes(backend, bytes@));
    Ok(())
}

fn decode_path(p: &[u8], extra: usize) -> (r: Result<(StorageBackend, &str), ProtocolError>)
    ensures
        path_check(p@, extra as int) matches Err(e) ==> r == Err::<
            (StorageBackend, &str),
            ProtocolError,
        >(e),
        r is Ok <==> path_check(p@, extra as int) is Ok,
        r matches Ok((b, s)) ==> p@ == path_bytes(b, s.spec_bytes()) + p@.skip(p@.len() - extra),
{
    if p.len() < 3 {
        return Err(ProtocolError::BadPayloadLength);
    }
    let backend = match StorageBackend::from_u8(p[0]) {
        Some(b) => b,
        None => return Err(ProtocolError::InvalidValue),
    };
    let path_len = read_u16(p, 1) as usize;
    if p.len() - 3 < extra || p.len() - 3 - extra != path_len {
        return Err(ProtocolError::BadPayloadLength);
    }
    let path_slice = slice_subrange(p, 3, p.len() - extra);
    let path = match utf8_str(path_slice) {
        Some(s) => s,
        None => return Err(ProtocolError::InvalidValue),
    };
    assert(p@ =~= seq![p@[0]] + p@.subrange(1, 3) + path_slice@ + p@.skip(p@.len() - extra));
    Ok((backend, path))
}

pub fn encode_store_list_request(req: &StoreListRequest<'_>, out: &mut [u8]) -> (r: Result<
    usize,
    ProtocolError,
>)
    ensures
        req.path.spec_bytes().len() > u16::MAX ==> r == Err::<usize, ProtocolError>(
            ProtocolError::InvalidValue,
        ) && final(out)@ == old(out)@,
        req.path.spec_bytes().len() <= u16::MAX ==> encoded(
            old(out)@,
            final(out)@,
            path_bytes(req.backend, req.path.spec_bytes()),
            r,
        ),
{
    let mut v: Vec<u8> = Vec::new();
    match encode_path(req.backend, req.path, &mut v) {
        Ok(()) => {},
        Err(e) => return Err(e),
    }
    emit(&v, out)
}

pub fn decode_store_list_request(payload: &[u8]) -> (r: Result<StoreListRequest<'_>, ProtocolError>)
    ensures
        path_check(payload@, 0) matches Err(e) ==> r == Err::<StoreListRequest<'_>, ProtocolError>(
            e,
        ),
        r is Ok <==> path_check(payload@, 0) is Ok,
        r matches Ok(v) ==> payload@ == path_bytes(v.backend, v.path.spec_bytes()),
{
    match decode_path(payload, 0) {
        Ok((backend, path)) => {
            assert(payload@.skip(payload@.len() as int) =~= Seq::<u8>::empty());
            assert(path_bytes(backend, path.spec_bytes()) + Seq::<u8>::empty() =~= path_bytes(
                backend,
                path.spec_bytes(),
            ));
            Ok(StoreListRequest { backend, path })
        },
        Err(e) => Err(e),
    }
}

pub fn encode_store_read_request(req: &StoreReadRequest<'_>, out: &mut [u8]) -> (r: Result<
    usize,
    ProtocolError,
>)
    ensures
        req.path.spec_bytes().len() > u16::MAX ==> r == Err::<usize, ProtocolError>(
            ProtocolError::InvalidValue,
        ) && final(out)@ == old(out)@,
        req.path.spec_bytes().len() <= u16::MAX ==> encoded(
            old(out)@,
            final(out)@,
            path_bytes(req.backend, req.path.spec_bytes()),
            r,
        ),
{
    let mut v: Vec<u8> = Vec::new();
    match encode_path(req.backend, req.path, &mut v) {
        Ok(()) => {},
        Err(e) => return Err(e),
    }
    emit(&v, out)
}

pub fn decode_store_read_request(payload: &[u8]) -> (r: Result<StoreReadRequest<'_>, ProtocolError>)
    ensures
        path_check(payload@, 0) matches Err(e) ==> r == Err::<StoreReadRequest<'_>, ProtocolError>(
            e,
        ),
        r is Ok <==> path_check(payload@, 0) is Ok,
        r matches Ok(v) ==> payload@ == path_bytes(v.backend, v.path.spec_bytes()),
{
    match decode_path(payload, 0) {
        Ok((backend, path)) => {
            assert(payload@.skip(payload@.len() as int) =~= Seq::<u8>::empty());
            assert(path_bytes(backend, path.spec_bytes()) + Seq::<u8>::empty() =~= path_bytes(
                backend,
                path.spec_bytes(),
            ));
            Ok(StoreReadRequest { backend, path })
        },
        Err(e) => Err(e),
    }
}

pub fn encode_store_delete_request(req: &StoreDeleteRequest<'_>, out: &mut [u8]) -> (r: Result<
    usize,
    ProtocolError,
>)
    ensures
        req.path.spec_bytes().len() > u16::MAX ==> r == Err::<usize, ProtocolError>(
            ProtocolError::InvalidValue,
        ) && final(out)@ == old(out)@,
        req.path.spec_bytes().len() <= u16::MAX ==> encoded(
            old(out)@,
            final(out)@,
            path_bytes(req.backend, req.path.spec_bytes()),
            r,
        ),
{
    let mut v: Vec<u8> = Vec::new();
    match encode_path(req.backend, req.path, &mut v) {
        Ok(()) => {},
        Err(e) => return Err(e),
    }
    emit(&v, out)
}

pub fn decode_store_delete_request(payload: &[u8]) -> (r: Result<
    StoreDeleteRequest<'_>,
    ProtocolError,
>)
    ensures
        path_check(payload@, 0) matches Err(e) ==> r == Err::<
            StoreDeleteRequest<'_>,
            ProtocolError,
        >(e),
        r is Ok <==> path_check(payload@, 0) is Ok,
        r matches Ok(v) ==> payload@ == path_bytes(v.backend, v.path.spec_bytes()),
{
    match decode_path(payload, 0) {
        Ok((backend, path)) => {
            assert(payload@.skip(payload@.len() as int) =~= Seq::<u8>::empty());
            assert(path_bytes(backend, path.spec_bytes()) + Seq::<u8>::empty() =~= path_bytes(
                backend,
                path.spec_bytes(),
            ));
            Ok(StoreDeleteRequest { backend, path })
        },
        Err(e) => Err(e),
    }
}

pub fn encode_store_upload_begin_request(
    req: &StoreUploadBeginRequest<'_>,
    out: &mut [u8],
) -> (r: Result<usize, ProtocolError>)
    ensures
        req.path.spec_bytes().len() > u16::MAX ==> r == Err::<usize, ProtocolError>(
            ProtocolError::InvalidValue,
        ) && final(out)@ == old(out)@,
        req.path.spec_bytes().len() <= u16::MAX ==> encoded(
            old(out)@,
            final(out)@,
            upload_begin_bytes(
                req.backend,
                req.path.spec_bytes(),
                req.file_size,
                req.expected_crc32,
            ),
            r,
        ),
{
    let mut v: Vec<u8> = Vec::new();
    match encode_path(req.backend, req.path, &mut v) {
        Ok(()) => {},
        Err(e) => return Err(e),
    }
    push_u32(&mut v, req.file_size);
    push_u32(&mut v, req.expected_crc32);
    assert(v@ =~= upload_begin_bytes(
        req.backend,
        req.path.spec_bytes(),
        req.file_size,
        req.expected_crc32,
    ));
    emit(&v, out)
}

pub fn decode_store_upload_begin_request(payload: &[u8]) -> (r: Result<
    StoreUploadBeginRequest<'_>,
    ProtocolError,
>)
    ensures
        path_check(payload@, 8) matches Err(e) ==> r == Err::<
            StoreUploadBeginRequest<'_>,
            ProtocolError,
        >(e),
        r is Ok <==> path_check(payload@, 8) is Ok,
        r matches Ok(v) ==> payload@ == upload_begin_bytes(
            v.backend,
            v.path.spec_bytes(),
            v.file_size,
            v.expected_crc32,
        ),
{
    match decode_path(payload, 8) {
        Ok((backend, path)) => {
            let n = payload.len();
            let file_size = read_u32(payload, n - 8);
            let expected_crc32 = read_u32(payload, n - 4);
            assert(payload@.skip(n - 8) =~= payload@.subrange(n - 8, n - 4) + payload@.subrange(
                n - 4,
                n as int,
            ));
            assert(payload@ =~= upload_begin_bytes(
                backend,
                path.spec_bytes(),
                file_size,
                expected_crc32,
            ));
            Ok(StoreUploadBeginRequest { backend, path, file_size, expected_crc32 })
        },
        Err(e) => Err(e),
    }
}

/// A payload that is a single little-endian `u32`.
fn decode_u32_payload(payload: &[u8]) -> (r: Result<u32, ProtocolError>)
    ensures
        r is Ok <==> payload@.len() == 4,
        r is Err ==> r == Err::<u32, ProtocolError>(ProtocolError::BadPayloadLength),
        r matches Ok(v) ==> payload@ == le32(v),
{
    if payload.len() != 4 {
        return Err(ProtocolError::BadPayloadLength);
    }
    let v = read_u32(payload, 0);
    assert(payload@ =~= payload@.subrange(0, 4));
    Ok(v)
}

fn encode_u32_payload(value: u32, out: &mut [u8]) -> (r: Result<usize, ProtocolError>)
    ensures
        encoded(old(out)@, final(out)@, le32(value), r),
{
    let mut v: Vec<u8> = Vec::new();
    push_u32(&mut v, value);
    assert(v@ =~= le32(value));
    emit(&v, out)
}

pub fn encode_store_upload_begin_response(upload_id: u32, out: &mut [u8]) -> (r: Result<
    usize,
    ProtocolError,
>)
    ensures
        encoded(old(out)@, final(out)@, le32(upload_id), r),
{
    encode_u32_payload(upload_id, out)
}

pub fn decode_store_upload_begin_response(payload: &[u8]) -> (r: Result<u32, ProtocolError>)
    ensures
        r is Ok <==> payload@.len() == 4,
        r is Err ==> r == Err::<u32, ProtocolError>(ProtocolError::BadPayloadLength),
        r matches Ok(v) ==> payload@ == le32(v),
{
    decode_u32_payload(payload)
}

pub fn encode_store_upload_write_request(
    req: &StoreUploadWriteRequest<'_>,
    out: &mut [u8],
) -> (r: Result<usize, ProtocolError>)
    ensures
        encoded(old(out)@, final(out)@, upload_write_bytes(req.upload_id, req.offset, req.data@), r),
{
    let mut v: Vec<u8> = Vec::new();
    push_u32(&mut v, req.upload_id);
    push_u32(&mut v, req.offset);
    push_slice(&mut v, req.data);
    assert(v@ =~= upload_write_bytes(req.upload_id, req.offset, req.data@));
    emit(&v, out)
}

pub fn decode_store_upload_write_request(payload: &[u8]) -> (r: Result<
    StoreUploadWriteRequest<'_>,
    ProtocolError,
>)
    ensures
        r is Ok <==> payload@.len() >= 8,
        r is Err ==> r == Err::<StoreUploadWriteRequest<'_>, ProtocolError>(
            ProtocolError::BadPayloadLength,
        ),
        r matches Ok(v) ==> payload@ == upload_write_bytes(v.upload_id, v.offset, v.data@),
{
    if payload.len() < 8 {
        return Err(ProtocolError::BadPayloadLength);
    }
    let upload_id = read_u32(payload, 0);
    let offset = read_u32(payload, 4);
    let data = slice_subrange(payload, 8, payload.len());
    assert(payload@ =~= payload@.subrange(0, 4) + payload@.subrange(4, 8) + data@);
    Ok(StoreUploadWriteRequest { upload_id, offset, data })
}

pub fn encode_store_upload_write_response(bytes_written: u32, out: &mut [u8]) -> (r: Result<
    usize,
    ProtocolError,
>)
    ensures
        encoded(old(out)@, final(out)@, le32(bytes_written), r),
{
    encode_u32_payload(bytes_written, out)
}

pub fn decode_store_upload_write_response(payload: &[u8]) -> (r: Result<u32, ProtocolError>)
    ensures
        r is Ok <==> payload@.len() == 4,
        r is Err ==> r == Err::<u32, ProtocolError>(ProtocolError::BadPayloadLength),
        r matches Ok(v) ==> payload@ == le32(v),
{
    decode_u32_payload(payload)
}

pub fn encode_store_upload_commit_request(upload_id: u32, out: &mut [u8]) -> (r: Result<
    usize,
    ProtocolError,
>)
    ensures
        encoded(old(out)@, final(out)@, le32(upload_id), r),
{
    encode_u32_payload(upload_id, out)
}

pub fn decode_store_upload_commit_request(payload: &[u8]) -> (r: Result<u32, ProtocolError>)
    ensures
        r is Ok <==> payload@.len() == 4,
        r is Err ==> r == Err::<u32, ProtocolError>(ProtocolError::BadPayloadLength),
        r matches Ok(v) ==> payload@ == le32(v),
{
    decode_u32_payload(payload)
}

pub fn encode_store_abort_request(upload_id: u32, out: &mut [u8]) -> (r: Result<
    usize,
    ProtocolError,
>)
    ensures
        encoded(old(out)@, final(out)@, le32(upload_id), r),
{
    encode_u32_payload(upload_id, out)
}

pub fn decode_store_abort_request(payload: &[u8]) -> (r: Result<u32, ProtocolError>)
    ensures
        r is Ok <==> payload@.len() == 4,
        r is Err ==> r == Err::<u32, ProtocolError>(ProtocolError::BadPayloadLength),
        r matches Ok(v) ==> payload@ == le32(v),
{
    decode_u32_payload(payload)
}

pub fn encode_store_read_response(data: &[u8], out: &mut [u8]) -> (r: Result<
    usize,
    ProtocolError,
>)
    ensures
        data@.len() > u32::MAX ==> r == Err::<usize, ProtocolError>(ProtocolError::InvalidValue)
            && final(out)@ == old(out)@,
        data@.len() <= u32::MAX ==> encoded(old(out)@, final(out)@, read_response_bytes(data@), r),
{
    if data.len() > 0xFFFF_FFFF {
        return Err(ProtocolError::InvalidValue);
    }
    let mut v: Vec<u8> = Vec::new();
    push_u32(&mut v, data.len() as u32);
    push_slice(&mut v, data);
    assert(v@ =~= read_response_bytes(data@));
    emit(&v, out)
}

pub fn decode_store_read_response(payload: &[u8]) -> (r: Result<&[u8], ProtocolError>)
    ensures
        r is Ok <==> payload@.len() >= 4 && crate::protocol::bytes::from_le32(
            payload@.subrange(0, 4),
        ) == payload@.len() - 4,
        r is Err ==> r == Err::<&[u8], ProtocolError>(ProtocolError::BadPayloadLength),
        r matches Ok(d) ==> payload@ == read_response_bytes(d@),
{
    if payload.len() < 4 {
        return Err(ProtocolError::BadPayloadLength);
    }
    let declared = read_u32(payload, 0) as usize;
    if declared != payload.len() - 4 {
        return Err(ProtocolError::BadPayloadLength);
    }
    let data = slice_subrange(payload, 4, payload.len());
    assert(payload@ =~= payload@.subrange(0, 4) + data@);
    Ok(data)
}

pub fn encode_store_entry(entry_type: u8, name: &[u8], size: u32, out: &mut [u8]) -> (r: Result<
    usize,
    ProtocolError,
>)
    ensures
        name@.len() > u8::MAX ==> r == Err::<usize, ProtocolError>(ProtocolError::InvalidValue)
            && final(out)@ == old(out)@,
        name@.len() <= u8::MAX ==> encoded(
            old(out)@,
            final(out)@,
            entry_bytes(entry_type, name@, size),
            r,
        ),
{
    if name.len() > 0xFF {
        return Err(ProtocolError::InvalidValue);
    }
    let mut v: Vec<u8> = Vec::new();
    v.push(entry_type);
    push_u32(&mut v, size);
    v.push(name.len() as u8);
    push_slice(&mut v, name);
    assert(v@ =~= entry_bytes(entry_type, name@, size));
    emit(&v, out)
}

/// Reads the entry at the start of `payload`: type, name and size; bytes after
/// the entry are not read.
pub fn decode_store_list_entry(payload: &[u8]) -> (r: Result<(u8, &[u8], u32), ProtocolError>)
    ensures
        payload@.len() < STORE_LIST_ENTRY_HEADER_BYTES ==> r == Err::<
            (u8, &[u8], u32),
            ProtocolError,
        >(ProtocolError::BadPayloadLength),
        payload@.len() >= STORE_LIST_ENTRY_HEADER_BYTES && payload@[5] > STORE_NAME_MAX_BYTES ==> r
            == Err::<(u8, &[u8], u32), ProtocolError>(ProtocolError::InvalidValue),
        payload@.len() >= STORE_LIST_ENTRY_HEADER_BYTES && payload@[5] <= STORE_NAME_MAX_BYTES
            && payload@.len() < STORE_LIST_ENTRY_HEADER_BYTES + payload@[5] ==> r == Err::<
            (u8, &[u8], u32),
            ProtocolError,
        >(ProtocolError::BadPayloadLength),
        r is Ok <==> payload@.len() >= STORE_LIST_ENTRY_HEADER_BYTES && payload@[5]
            <= STORE_NAME_MAX_BYTES && payload@.len() >= STORE_LIST_ENTRY_HEADER_BYTES
            + payload@[5],
        r matches Ok((t, name, size)) ==> entry_bytes(t, name@, size) == payload@.take(
            STORE_LIST_ENTRY_HEADER_BYTES + name@.len(),
        ),
{
    if payload.len() < STORE_LIST_ENTRY_HEADER_BYTES {
        return Err(ProtocolError::BadPayloadLength);
    }
    let entry_type = payload[0];
    let size = read_u32(payload, 1);
    let name_len = payload[5] as usize;
    if name_len > STORE_NAME_MAX_BYTES {
        return Err(ProtocolError::InvalidValue);
    }
    if payload.len() < STORE_LIST_ENTRY_HEADER_BYTES + name_len {
        return Err(ProtocolError::BadPayloadLength);
    }
    let name = slice_subrange(payload, 6, 6 + name_len);
    assert(payload@.take(6 + name_len) =~= seq![payload@[0]] + payload@.subrange(1, 5) + seq![
        payload@[5],
    ] + name@);
    Ok((entry_type, name, size))
}

/// The entry count at the start of a listing.
pub fn decode_store_list_count(payload: &[u8]) -> (r: Result<u16, ProtocolError>)
    ensures
        r is Ok <==> payload@.len() >= 2,
        r is Err ==> r == Err::<u16, ProtocolError>(ProtocolError::BadPayloadLength),
        r matches Ok(c) ==> payload@.take(2) == le16(c),
{
    if payload.len() < 2 {
        return Err(ProtocolError::BadPayloadLength);
    }
    let c = read_u16(payload, 0);
    assert(payload@.take(2) =~= payload@.subrange(0, 2));
    Ok(c)
}

/// Writes a listing: the entry count, then `count` entries that `write_entry`
/// writes, each into the space left after the ones before.
pub fn encode_store_list_entries<F>(out: &mut [u8], mut write_entry: F, count: u16) -> (r: Result<
    usize,
    ProtocolError,
>) where F: FnMut(&mut [u8]) -> Result<usize, ProtocolError>
    requires
        forall|f: F, buf: &mut [u8]| #[trigger] call_requires(f, (buf,)),
    ensures
        old(out)@.len() < 2 ==> r == Err::<usize, ProtocolError>(ProtocolError::OutputTooSmall),
        final(out)@.len() == old(out)@.len(),
        r matches Ok(n) ==> 2 <= n <= old(out)@.len() && final(out)@.take(2) == le16(count),
{
    if out.len() < 2 {
        return Err(ProtocolError::OutputTooSmall);
    }
    let mut head: Vec<u8> = Vec::new();
    push_u16(&mut head, count);
    copy_at(out, 0, head.as_slice());
    let mut pos: usize = 2;
    let mut i: u16 = 0;
    while i < count
        invariant
            2 <= pos <= out@.len(),
            out@.len() == old(out)@.len(),
            out@.take(2) == le16(count),
            forall|f: F, buf: &mut [u8]| #[trigger] call_requires(f, (buf,)),
        decreases count - i,
    {
        let room = out.len() - pos;
        let mut scratch: Vec<u8> = vec![0u8; room];
        let n = match write_entry(scratch.as_mut_slice()) {
            Ok(n) => n,
            Err(e) => return Err(e),
        };
        if n > room || n > scratch.len() {
            return Err(ProtocolError::OutputTooSmall);
        }
        let ghost before = out@;
        copy_at(out, pos, slice_subrange(scratch.as_slice(), 0, n));
        assert(out@.take(2) =~= before.take(2));
        pos = pos + n;
        i = i + 1;
    }
    Ok(pos)
}

/// Path requests decode to the request they were encoded from.
pub proof fn lemma_path_roundtrip(b1: StorageBackend, p1: Seq<u8>, b2: StorageBackend, p2: Seq<u8>)
    requires
        p1.len() <= u16::MAX,
        p2.len() <= u16::MAX,
        path_bytes(b1, p1) == path_bytes(b2, p2),
    ensures
        b1 == b2,
        p1 == p2,
{
    let x = path_bytes(b1, p1);
    assert(x[0] == b1.to_u8() && path_bytes(b2, p2)[0] == b2.to_u8());
    assert(x.subrange(1, 3) == le16(p1.len() as u16));
    assert(path_bytes(b2, p2).subrange(1, 3) == le16(p2.len() as u16));
    assert(p1 =~= x.skip(3));
    assert(p2 =~= path_bytes(b2, p2).skip(3));
}

} // verus!

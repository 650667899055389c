//! The stable binary encoding of snapshot records: the value side of the
//! snapshot store. A record is a tag byte followed by its fields, integers in
//! little-endian order, the symlink target as length-prefixed UTF-8 bytes.
//! Decoding rejects corrupt bytes instead of truncating them.
use vstd::prelude::*;
use vstd::bytes::{
    spec_u32_to_le_bytes, spec_u32_from_le_bytes, spec_u64_to_le_bytes, spec_u64_from_le_bytes,
    u32_from_le_bytes, u32_to_le_bytes, u64_from_le_bytes, u64_to_le_bytes,
    lemma_auto_spec_u32_to_from_le_bytes, lemma_auto_spec_u64_to_from_le_bytes,
};
use vstd::utf8::{valid_utf8, decode_utf8, encode_utf8, encode_utf8_valid_utf8,
    encode_utf8_decode_utf8, decode_utf8_encode_utf8};
use vstd::slice::{slice_subrange, slice_to_vec};
use crate::types::{FileMetadataExt, FileMetadata, SymlinkMetadata, DirMetadata, RecordV,
    SymlinkMetadataV, FileMetadataV, DirMetadataV};

verus! {

pub const TAG_SYMLINK: u8 = 0;

pub const TAG_FILE: u8 = 1;

pub const TAG_DIR: u8 = 2;

/// The attribute triple every variant carries, encoded as 20 bytes.
pub open spec fn enc_attrs(permissions: u32, modified: u64, size: u64) -> Seq<u8> {
    spec_u32_to_le_bytes(permissions) + spec_u64_to_le_bytes(modified) + spec_u64_to_le_bytes(size)
}

/// A record that arose from real values: its digest is 32 bytes and its
/// target's byte encoding is storable behind a 64-bit length.
pub open spec fn wf_record(v: RecordV) -> bool {
    match v {
        RecordV::File(f) => f.hash.len() == 32,
        RecordV::Symlink(s) => encode_utf8(s.data).len() <= u64::MAX,
        RecordV::Dir(_) => true,
    }
}

/// The encoding of a snapshot record.
pub open spec fn encode_record_spec(v: RecordV) -> Seq<u8> {
    match v {
        RecordV::Symlink(s) => seq![TAG_SYMLINK] + spec_u64_to_le_bytes(
            encode_utf8(s.data).len() as u64,
        ) + encode_utf8(s.data) + enc_attrs(s.permissions, s.modified, s.size),
        RecordV::File(f) => seq![TAG_FILE] + f.hash + enc_attrs(f.permissions, f.modified, f.size),
        RecordV::Dir(d) => seq![TAG_DIR] + enc_attrs(d.permissions, d.modified, d.size),
    }
}

/// The attribute triple read back from its 20-byte encoding.
pub open spec fn dec_attrs(b: Seq<u8>) -> (u32, u64, u64)
    recommends
        b.len() == 20,
{
    (
        spec_u32_from_le_bytes(b.subrange(0, 4)),
        spec_u64_from_le_bytes(b.subrange(4, 12)),
        spec_u64_from_le_bytes(b.subrange(12, 20)),
    )
}

/// The decoding of a snapshot record; `None` on bytes no record encodes to.
pub open spec fn decode_record_spec(b: Seq<u8>) -> Option<RecordV> {
    if b.len() < 1 {
        None
    } else {
        let rest = b.skip(1);
        if b[0] == TAG_FILE {
            if rest.len() == 52 {
                let (permissions, modified, size) = dec_attrs(rest.skip(32));
                Some(
                    RecordV::File(
                        FileMetadataV { hash: rest.subrange(0, 32), permissions, modified, size },
                    ),
                )
            } else {
                None
            }
        } else if b[0] == TAG_DIR {
            if rest.len() == 20 {
                let (permissions, modified, size) = dec_attrs(rest);
                Some(RecordV::Dir(DirMetadataV { permissions, modified, size }))
            } else {
                None
            }
        } else if b[0] == TAG_SYMLINK {
            if rest.len() < 28 {
                None
            } else {
                let n = spec_u64_from_le_bytes(rest.subrange(0, 8));
                if rest.len() == 28 + n && valid_utf8(rest.subrange(8, 8 + n as int)) {
                    let (permissions, modified, size) = dec_attrs(rest.skip(rest.len() - 20));
                    Some(
                        RecordV::Symlink(
                            SymlinkMetadataV {
                                data: decode_utf8(rest.subrange(8, 8 + n as int)),
                                permissions,
                                modified,
                                size,
                            },
                        ),
                    )
                } else {
                    None
                }
            }
        } else {
            None
        }
    }
}

/// Reading the 20-byte attribute encoding back gives the attributes: the
/// round trip on the shared triple.
proof fn lemma_attrs_round_trip(permissions: u32, modified: u64, size: u64)
    ensures
        enc_attrs(permissions, modified, size).len() == 20,
        dec_attrs(enc_attrs(permissions, modified, size)) == (permissions, modified, size),
{
    lemma_auto_spec_u32_to_from_le_bytes();
    lemma_auto_spec_u64_to_from_le_bytes();
    let b = enc_attrs(permissions, modified, size);
    assert(b.subrange(0, 4) =~= spec_u32_to_le_bytes(permissions));
    assert(b.subrange(4, 12) =~= spec_u64_to_le_bytes(modified));
    assert(b.subrange(12, 20) =~= spec_u64_to_le_bytes(size));
}

/// Decoding an encoded record yields the record again: the round trip that
/// makes the store's value side faithful, for all three variants.
pub proof fn lemma_record_round_trip(v: RecordV)
    requires
        wf_record(v),
    ensures
        decode_record_spec(encode_record_spec(v)) == Some(v),
{
    lemma_auto_spec_u64_to_from_le_bytes();
    let b = encode_record_spec(v);
    match v {
        RecordV::File(f) => {
            lemma_attrs_round_trip(f.permissions, f.modified, f.size);
            let rest = b.skip(1);
            assert(rest.subrange(0, 32) =~= f.hash);
            assert(rest.skip(32) =~= enc_attrs(f.permissions, f.modified, f.size));
        },
        RecordV::Dir(d) => {
            lemma_attrs_round_trip(d.permissions, d.modified, d.size);
            assert(b.skip(1) =~= enc_attrs(d.permissions, d.modified, d.size));
        },
        RecordV::Symlink(s) => {
            lemma_attrs_round_trip(s.permissions, s.modified, s.size);
            broadcast use encode_utf8_valid_utf8, encode_utf8_decode_utf8;

            let data = encode_utf8(s.data);
            let n = data.len() as int;
            let rest = b.skip(1);
            assert(rest.subrange(0, 8) =~= spec_u64_to_le_bytes(data.len() as u64));
            assert(rest.len() == 28 + n);
            assert(rest.subrange(8, 8 + n) =~= data);
            assert(rest.skip(rest.len() - 20) =~= enc_attrs(s.permissions, s.modified, s.size));
            assert(decode_utf8(data) == s.data);
        },
    }
}

/// Bytes that decode to a record are that record's own encoding: the
/// encoding is canonical, so the store holds one byte form per record.
pub proof fn lemma_decode_encode(b: Seq<u8>, v: RecordV)
    requires
        decode_record_spec(b) == Some(v),
    ensures
        wf_record(v),
        encode_record_spec(v) == b,
{
    lemma_auto_spec_u32_to_from_le_bytes();
    lemma_auto_spec_u64_to_from_le_bytes();
    let rest = b.skip(1);
    if b[0] == TAG_FILE {
        let attrs = rest.skip(32);
        assert(attrs.subrange(0, 4) =~= rest.subrange(32, 36));
        assert(attrs.subrange(4, 12) =~= rest.subrange(36, 44));
        assert(attrs.subrange(12, 20) =~= rest.subrange(44, 52));
        assert(encode_record_spec(v) =~= b);
    } else if b[0] == TAG_DIR {
        assert(rest.subrange(4, 12) =~= rest.skip(4).subrange(0, 8));
        assert(encode_record_spec(v) =~= b);
    } else {
        let n = spec_u64_from_le_bytes(rest.subrange(0, 8)) as int;
        let seg = rest.subrange(8, 8 + n);
        broadcast use decode_utf8_encode_utf8;

        assert(encode_utf8(decode_utf8(seg)) == seg);
        let attrs = rest.skip(rest.len() - 20);
        assert(attrs.subrange(0, 4) =~= rest.subrange(8 + n, 12 + n));
        assert(attrs.subrange(4, 12) =~= rest.subrange(12 + n, 20 + n));
        assert(attrs.subrange(12, 20) =~= rest.subrange(20 + n, 28 + n));
        assert(encode_record_spec(v) =~= b);
    }
}

/// Relies on String::from_utf8: it succeeds exactly on valid UTF-8 input and
/// decodes it to the characters that vstd's decode_utf8 gives for the bytes.
#[verifier::external_body]
fn bytes_to_string(v: Vec<u8>) -> (r: Option<String>)
    ensures
        match r {
            Some(s) => valid_utf8(v@) && s@ == decode_utf8(v@),
            None => !valid_utf8(v@),
        },
{
    match String::from_utf8(v) {
        Ok(s) => Some(s),
        Err(_) => None,
    }
}

/// Encodes one snapshot record to the bytes the store holds for it.
pub fn encode_record(rec: &FileMetadataExt) -> (out: Vec<u8>)
    ensures
        out@ == encode_record_spec(rec@),
{
    let mut out: Vec<u8> = Vec::new();
    match rec {
        FileMetadataExt::Symlink(s) => {
            out.push(TAG_SYMLINK);
            let data_bytes = s.data.as_str().as_bytes();
            let mut len_bytes = u64_to_le_bytes(data_bytes.len() as u64);
            out.append(&mut len_bytes);
            let mut data_vec = slice_to_vec(data_bytes);
            out.append(&mut data_vec);
            push_attrs(&mut out, s.permissions, s.modified, s.size);
            assert(out@ =~= encode_record_spec(rec@));
        },
        FileMetadataExt::File(f) => {
            out.push(TAG_FILE);
            let mut hash_vec = slice_to_vec(vstd::array::array_as_slice(&f.hash.hash));
            out.append(&mut hash_vec);
            push_attrs(&mut out, f.permissions, f.modified, f.size);
            assert(out@ =~= encode_record_spec(rec@));
        },
        FileMetadataExt::Dir(d) => {
            out.push(TAG_DIR);
            push_attrs(&mut out, d.permissions, d.modified, d.size);
            assert(out@ =~= encode_record_spec(rec@));
        },
    }
    out
}

/// Appends the 20-byte attribute encoding.
fn push_attrs(out: &mut Vec<u8>, permissions: u32, modified: u64, size: u64)
    ensures
        final(out)@ == old(out)@ + enc_attrs(permissions, modified, size),
{
    let mut p = u32_to_le_bytes(permissions);
    out.append(&mut p);
    let mut m = u64_to_le_bytes(modified);
    out.append(&mut m);
    let mut s = u64_to_le_bytes(size);
    out.append(&mut s);
    assert(final(out)@ =~= old(out)@ + enc_attrs(permissions, modified, size));
}

/// Reads the 20-byte attribute encoding that ends at `b`'s end.
fn read_attrs(b: &[u8]) -> (r: (u32, u64, u64))
    requires
        b@.len() == 20,
    ensures
        r == dec_attrs(b@),
{
    let p = u32_from_le_bytes(slice_subrange(b, 0, 4));
    let m = u64_from_le_bytes(slice_subrange(b, 4, 12));
    let s = u64_from_le_bytes(slice_subrange(b, 12, 20));
    (p, m, s)
}

/// Decodes the bytes of one stored record; `None` reports a corrupt record,
/// which callers treat as fatal for their operation.
pub fn decode_record(b: &[u8]) -> (r: Option<FileMetadataExt>)
    ensures
        match r {
            Some(rec) => decode_record_spec(b@) == Some(rec@),
            None => decode_record_spec(b@) is None,
        },
{
    if b.len() < 1 {
        return None;
    }
    let tag = *vstd::slice::slice_index_get(b, 0);
    let rest = slice_subrange(b, 1, b.len());
    assert(rest@ =~= b@.skip(1));
    if tag == TAG_FILE {
        if rest.len() != 52 {
            return None;
        }
        let hash_slice = slice_subrange(rest, 0, 32);
        let mut hash: [u8; 32] = [0; 32];
        let mut i: usize = 0;
        while i < 32
            invariant
                i <= 32,
                hash_slice@.len() == 32,
                hash@.len() == 32,
                forall|j: int| 0 <= j < i ==> hash@[j] == hash_slice@[j],
            decreases 32 - i,
        {
            hash.set(i, *vstd::slice::slice_index_get(hash_slice, i));
            i += 1;
        }
        assert(hash@ =~= rest@.subrange(0, 32));
        let (permissions, modified, size) = read_attrs(slice_subrange(rest, 32, 52));
        assert(rest@.subrange(32, 52) =~= rest@.skip(32));
        Some(FileMetadataExt::File(FileMetadata::new(hash, permissions, Some(modified), size)))
    } else if tag == TAG_DIR {
        if rest.len() != 20 {
            return None;
        }
        let (permissions, modified, size) = read_attrs(rest);
        Some(FileMetadataExt::Dir(DirMetadata::new(permissions, Some(modified), size)))
    } else if tag == TAG_SYMLINK {
        if rest.len() < 28 {
            return None;
        }
        let n64 = u64_from_le_bytes(slice_subrange(rest, 0, 8));
        if n64 != (rest.len() - 28) as u64 {
            return None;
        }
        let n = rest.len() - 28;
        let data_bytes = slice_to_vec(slice_subrange(rest, 8, 8 + n));
        assert(data_bytes@ =~= rest@.subrange(8, 8 + n as int));
        let data = match bytes_to_string(data_bytes) {
            Some(s) => s,
            None => {
                return None;
            },
        };
        let (permissions, modified, size) = read_attrs(slice_subrange(rest, 8 + n, 28 + n));
        assert(rest@.subrange(8 + n as int, 28 + n as int) =~= rest@.skip(rest@.len() - 20));
        Some(
            FileMetadataExt::Symlink(SymlinkMetadata::new(data, permissions, Some(modified), size)),
        )
    } else {
        None
    }
}

} // verus!

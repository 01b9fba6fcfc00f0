//! Wire codec. Every structured message travels as one frame: an 8-byte
//! little-endian length, then that many bytes of a self-describing encoding.
//! Inside a frame, a request or response is a tag byte followed by its
//! fields; a string field is an 8-byte little-endian byte count followed by
//! the string's UTF-8 bytes. Raw file payloads are not framed: their length
//! rides inside the preceding structured message.
use vstd::bytes::*;
use vstd::prelude::*;
use vstd::string::StrSliceExecFns;
use vstd::string::StringSliceAdditionalSpecFns;
use vstd::slice::slice_subrange;
use vstd::slice::slice_to_vec;
use vstd::utf8::*;

use crate::protocol::DirEnum;
use crate::protocol::FileRead;
use crate::protocol::ReqView;
use crate::protocol::Request;

verus! {

broadcast use vstd::seq_lib::group_seq_lib_default, vstd::seq::group_seq_axioms;

/// Tag byte of a `Write` request.
pub const TAG_WRITE: u8 = 1;

/// Tag byte of a `MkDir` request.
pub const TAG_MKDIR: u8 = 2;

/// Tag byte of a `Read` request.
pub const TAG_READ: u8 = 3;

/// Tag byte of an `EnumDir` request.
pub const TAG_ENUM_DIR: u8 = 4;

/// Tag byte of a `Delete` request.
pub const TAG_DELETE: u8 = 5;

/// A string's length prefix must fit in the 8-byte count.
pub open spec fn str_encodable(s: Seq<char>) -> bool {
    encode_utf8(s).len() <= u64::MAX
}

/// Encoding of one string field: an 8-byte little-endian count of the
/// string's UTF-8 bytes, then those bytes.
pub open spec fn spec_encode_str(s: Seq<char>) -> Seq<u8> {
    spec_u64_to_le_bytes(encode_utf8(s).len() as u64) + encode_utf8(s)
}

/// Reads one string field off the front of `b`: the decoded string and the
/// bytes that follow it, or nothing when `b` does not begin with a
/// well-formed string field.
pub open spec fn spec_take_str(b: Seq<u8>) -> Option<(Seq<char>, Seq<u8>)> {
    if b.len() < 8 {
        None
    } else {
        let n = spec_u64_from_le_bytes(b.take(8)) as int;
        let rest = b.skip(8);
        if rest.len() < n {
            None
        } else if valid_utf8(rest.take(n)) {
            Some((decode_utf8(rest.take(n)), rest.skip(n)))
        } else {
            None
        }
    }
}

/// A string field read back from its own encoding yields the string and
/// leaves exactly the trailing bytes.
pub proof fn lemma_take_str_round_trip(s: Seq<char>, rest: Seq<u8>)
    requires
        str_encodable(s),
    ensures
        spec_take_str(spec_encode_str(s) + rest) is Some,
        (spec_take_str(spec_encode_str(s) + rest)->0).0 == s,
        (spec_take_str(spec_encode_str(s) + rest)->0).1 == rest,
{
    broadcast use encode_utf8_valid_utf8, encode_utf8_decode_utf8;

    lemma_auto_spec_u64_to_from_le_bytes();
    let sb = encode_utf8(s);
    let le = spec_u64_to_le_bytes(sb.len() as u64);
    let whole = spec_encode_str(s) + rest;
    assert(whole.take(8) =~= le);
    assert(spec_u64_from_le_bytes(whole.take(8)) == sb.len() as u64);
    let tail = whole.skip(8);
    assert(tail =~= sb + rest);
    assert(tail.take(sb.len() as int) =~= sb);
    assert(tail.skip(sb.len() as int) =~= rest);
}

/// Appends the 8-byte little-endian encoding of `x` to `out`.
pub fn push_u64(out: &mut Vec<u8>, x: u64)
    ensures
        final(out)@ == old(out)@ + spec_u64_to_le_bytes(x),
{
    let mut b = u64_to_le_bytes(x);
    out.append(&mut b);
}

/// Appends the string-field encoding of `s` to `out`.
pub fn push_str(out: &mut Vec<u8>, s: &str)
    ensures
        final(out)@ == old(out)@ + spec_encode_str(s@),
{
    let ghost start = out@;
    let mut bytes = s.as_bytes_vec();
    push_u64(out, bytes.len() as u64);
    out.append(&mut bytes);
    assert(out@ =~= start + spec_encode_str(s@));
}

/// Relies on String::from_utf8: it returns the decoded string exactly when
/// the bytes are valid UTF-8, as its documentation states.
#[verifier::external_body]
fn bytes_to_string(v: Vec<u8>) -> (r: Option<String>)
    ensures
        r is Some <==> valid_utf8(v@),
        r is Some ==> r->0@ == decode_utf8(v@),
{
    String::from_utf8(v).ok()
}

/// Reads one string field out of `b` starting at byte `off`, mirroring
/// `spec_take_str` on `b[off..]`; on success also returns the offset of the
/// first byte after the field.
fn parse_str_at(b: &[u8], off: usize) -> (r: Option<(String, usize)>)
    requires
        off <= b@.len(),
    ensures
        r is Some <==> spec_take_str(b@.skip(off as int)) is Some,
        r is Some ==> {
            &&& off + 8 <= (r->0).1 <= b@.len()
            &&& (r->0).0@ == (spec_take_str(b@.skip(off as int))->0).0
            &&& b@.skip((r->0).1 as int) == (spec_take_str(b@.skip(off as int))->0).1
        },
{
    let ghost tail = b@.skip(off as int);
    if b.len() - off < 8 {
        return None;
    }
    let lenb = slice_subrange(b, off, off + 8);
    assert(lenb@ =~= tail.take(8));
    let m = u64_from_le_bytes(lenb);
    let rem = b.len() - (off + 8);
    assert(tail.skip(8).len() == rem);
    if m > rem as u64 {
        return None;
    }
    let m_us = m as usize;
    let sb = slice_subrange(b, off + 8, off + 8 + m_us);
    assert(sb@ =~= tail.skip(8).take(m as int));
    let v = slice_to_vec(sb);
    match bytes_to_string(v) {
        None => None,
        Some(s) => {
            let end = off + 8 + m_us;
            assert(b@.skip(end as int) =~= tail.skip(8).skip(m as int));
            Some((s, end))
        },
    }
}

/// Every string field of the request fits its 8-byte length prefix. True of
/// any request that exists in memory; needed so that the encoding is exact.
pub open spec fn req_encodable(r: ReqView) -> bool {
    match r {
        ReqView::Write { path, .. } => str_encodable(path),
        ReqView::MkDir { path } => str_encodable(path),
        ReqView::Read { path } => str_encodable(path),
        ReqView::EnumDir { path } => str_encodable(path),
        ReqView::Delete { path } => str_encodable(path),
    }
}

/// Encoding of a request: its tag byte, its path, and for `Write` the
/// payload byte count.
pub open spec fn spec_encode_request(r: ReqView) -> Seq<u8> {
    match r {
        ReqView::Write { path, len } => seq![TAG_WRITE] + spec_encode_str(path)
            + spec_u64_to_le_bytes(len),
        ReqView::MkDir { path } => seq![TAG_MKDIR] + spec_encode_str(path),
        ReqView::Read { path } => seq![TAG_READ] + spec_encode_str(path),
        ReqView::EnumDir { path } => seq![TAG_ENUM_DIR] + spec_encode_str(path),
        ReqView::Delete { path } => seq![TAG_DELETE] + spec_encode_str(path),
    }
}

/// The unique request a byte sequence encodes, if any: the tag must be
/// known, every field well-formed, and the bytes consumed exactly.
pub open spec fn spec_decode_request(b: Seq<u8>) -> Option<ReqView> {
    if b.len() < 1 {
        None
    } else {
        let tag = b[0];
        let rest = b.skip(1);
        match spec_take_str(rest) {
            Some((path, after)) => {
                if tag == TAG_WRITE {
                    if after.len() == 8 {
                        Some(ReqView::Write { path, len: spec_u64_from_le_bytes(after) })
                    } else {
                        None
                    }
                } else if after.len() != 0 {
                    None
                } else if tag == TAG_MKDIR {
                    Some(ReqView::MkDir { path })
                } else if tag == TAG_READ {
                    Some(ReqView::Read { path })
                } else if tag == TAG_ENUM_DIR {
                    Some(ReqView::EnumDir { path })
                } else if tag == TAG_DELETE {
                    Some(ReqView::Delete { path })
                } else {
                    None
                }
            },
            None => None,
        }
    }
}

/// Decoding inverts encoding: every well-formed request comes back from its
/// own bytes unchanged.
pub proof fn lemma_request_round_trip(r: ReqView)
    requires
        req_encodable(r),
    ensures
        spec_decode_request(spec_encode_request(r)) == Some(r),
{
    lemma_auto_spec_u64_to_from_le_bytes();
    let b = spec_encode_request(r);
    match r {
        ReqView::Write { path, len } => {
            lemma_take_str_round_trip(path, spec_u64_to_le_bytes(len));
            assert(b.skip(1) =~= spec_encode_str(path) + spec_u64_to_le_bytes(len));
        },
        ReqView::MkDir { path } => {
            lemma_take_str_round_trip(path, Seq::<u8>::empty());
            assert(b.skip(1) =~= spec_encode_str(path) + Seq::<u8>::empty());
        },
        ReqView::Read { path } => {
            lemma_take_str_round_trip(path, Seq::<u8>::empty());
            assert(b.skip(1) =~= spec_encode_str(path) + Seq::<u8>::empty());
        },
        ReqView::EnumDir { path } => {
            lemma_take_str_round_trip(path, Seq::<u8>::empty());
            assert(b.skip(1) =~= spec_encode_str(path) + Seq::<u8>::empty());
        },
        ReqView::Delete { path } => {
            lemma_take_str_round_trip(path, Seq::<u8>::empty());
            assert(b.skip(1) =~= spec_encode_str(path) + Seq::<u8>::empty());
        },
    }
}

/// Serializes a request, exactly as `spec_encode_request` describes.
pub fn encode_request(r: &Request) -> (out: Vec<u8>)
    ensures
        out@ == spec_encode_request(r@),
{
    let mut out: Vec<u8> = Vec::new();
    match r {
        Request::Write { path, len } => {
            out.push(TAG_WRITE);
            push_str(&mut out, path.as_str());
            push_u64(&mut out, *len);
        },
        Request::MkDir { path } => {
            out.push(TAG_MKDIR);
            push_str(&mut out, path.as_str());
        },
        Request::Read { path } => {
            out.push(TAG_READ);
            push_str(&mut out, path.as_str());
        },
        Request::EnumDir { path } => {
            out.push(TAG_ENUM_DIR);
            push_str(&mut out, path.as_str());
        },
        Request::Delete { path } => {
            out.push(TAG_DELETE);
            push_str(&mut out, path.as_str());
        },
    }
    assert(out@ =~= spec_encode_request(r@));
    out
}

/// Parses a request frame, mirroring `spec_decode_request`: the unique
/// request the bytes encode, or nothing when they encode none.
pub fn decode_request(b: &[u8]) -> (r: Option<Request>)
    ensures
        r is Some <==> spec_decode_request(b@) is Some,
        r is Some ==> (r->0)@ == spec_decode_request(b@)->0,
{
    if b.len() < 1 {
        return None;
    }
    let tag = b[0];
    if !(tag == TAG_WRITE || tag == TAG_MKDIR || tag == TAG_READ || tag == TAG_ENUM_DIR || tag
        == TAG_DELETE) {
        return None;
    }
    match parse_str_at(b, 1) {
        None => None,
        Some((path, off)) => {
            let ghost after = (spec_take_str(b@.skip(1))->0).1;
            if tag == TAG_WRITE {
                if b.len() - off == 8 {
                    let lenb = slice_subrange(b, off, off + 8);
                    assert(lenb@ =~= after);
                    let len = u64_from_le_bytes(lenb);
                    Some(Request::Write { path, len })
                } else {
                    None
                }
            } else if b.len() - off != 0 {
                None
            } else if tag == TAG_MKDIR {
                Some(Request::MkDir { path })
            } else if tag == TAG_READ {
                Some(Request::Read { path })
            } else if tag == TAG_ENUM_DIR {
                Some(Request::EnumDir { path })
            } else {
                Some(Request::Delete { path })
            }
        },
    }
}

/// A byte run that yields a string field is exactly that field's encoding
/// followed by what was left over.
pub proof fn lemma_take_str_canonical(b: Seq<u8>)
    requires
        spec_take_str(b) is Some,
    ensures
        str_encodable((spec_take_str(b)->0).0),
        spec_encode_str((spec_take_str(b)->0).0) + (spec_take_str(b)->0).1 == b,
{
    broadcast use decode_utf8_encode_utf8;

    lemma_auto_spec_u64_to_from_le_bytes();
    let n = spec_u64_from_le_bytes(b.take(8)) as int;
    let sb = b.skip(8).take(n);
    assert(encode_utf8(decode_utf8(sb)) == sb);
    assert(spec_u64_to_le_bytes(spec_u64_from_le_bytes(b.take(8))) == b.take(8));
    assert(spec_encode_str(decode_utf8(sb)) + b.skip(8).skip(n) =~= b);
}

/// A byte sequence that decodes at all is exactly the encoding of the
/// request it decodes to: no two distinct requests share an encoding, and
/// decoding loses nothing.
pub proof fn lemma_request_canonical(b: Seq<u8>)
    requires
        spec_decode_request(b) is Some,
    ensures
        req_encodable(spec_decode_request(b)->0),
        spec_encode_request(spec_decode_request(b)->0) == b,
{
    lemma_auto_spec_u64_to_from_le_bytes();
    let rest = b.skip(1);
    lemma_take_str_canonical(rest);
    let path = (spec_take_str(rest)->0).0;
    let after = (spec_take_str(rest)->0).1;
    assert(seq![b[0]] + (spec_encode_str(path) + after) =~= b);
    if b[0] == TAG_WRITE {
        assert(spec_u64_to_le_bytes(spec_u64_from_le_bytes(after)) == after);
        assert(seq![TAG_WRITE] + spec_encode_str(path) + spec_u64_to_le_bytes(
            spec_u64_from_le_bytes(after),
        ) =~= b);
    } else {
        assert(after =~= Seq::<u8>::empty());
        assert(seq![b[0]] + spec_encode_str(path) =~= b);
    }
}

/// Encoding of a `FileRead` response: the payload byte count alone.
pub open spec fn spec_encode_file_read(len: u64) -> Seq<u8> {
    spec_u64_to_le_bytes(len)
}

/// The `FileRead` a byte sequence encodes: exactly 8 bytes of count.
pub open spec fn spec_decode_file_read(b: Seq<u8>) -> Option<u64> {
    if b.len() == 8 {
        Some(spec_u64_from_le_bytes(b))
    } else {
        None
    }
}

/// A `FileRead` comes back from its own bytes unchanged.
pub proof fn lemma_file_read_round_trip(len: u64)
    ensures
        spec_decode_file_read(spec_encode_file_read(len)) == Some(len),
{
    lemma_auto_spec_u64_to_from_le_bytes();
}

/// Serializes a `FileRead` response.
pub fn encode_file_read(f: &FileRead) -> (out: Vec<u8>)
    ensures
        out@ == spec_encode_file_read(f@),
{
    let mut out: Vec<u8> = Vec::new();
    push_u64(&mut out, f.len);
    assert(out@ =~= spec_encode_file_read(f@));
    out
}

/// Parses a `FileRead` frame, mirroring `spec_decode_file_read`.
pub fn decode_file_read(b: &[u8]) -> (r: Option<FileRead>)
    ensures
        r is Some <==> spec_decode_file_read(b@) is Some,
        r is Some ==> (r->0)@ == spec_decode_file_read(b@)->0,
{
    if b.len() == 8 {
        let len = u64_from_le_bytes(b);
        Some(FileRead { len })
    } else {
        None
    }
}

/// Encoding of one directory entry: the name as a string field, then one
/// byte that is 1 for a directory and 0 for anything else.
pub open spec fn spec_encode_entry(e: (Seq<char>, bool)) -> Seq<u8> {
    spec_encode_str(e.0) + seq![
        if e.1 {
            1u8
        } else {
            0u8
        },
    ]
}

/// Encoding of a run of directory entries, one after the other.
pub open spec fn spec_encode_entries(es: Seq<(Seq<char>, bool)>) -> Seq<u8>
    decreases es.len(),
{
    if es.len() == 0 {
        Seq::empty()
    } else {
        spec_encode_entry(es[0]) + spec_encode_entries(es.drop_first())
    }
}

/// Encoding of a `DirEnum` response: an 8-byte little-endian entry count,
/// then the entries.
pub open spec fn spec_encode_dir_enum(es: Seq<(Seq<char>, bool)>) -> Seq<u8> {
    spec_u64_to_le_bytes(es.len() as u64) + spec_encode_entries(es)
}

/// The listing's count and every name length fit their 8-byte prefixes.
pub open spec fn dir_enum_encodable(es: Seq<(Seq<char>, bool)>) -> bool {
    &&& es.len() <= u64::MAX
    &&& forall|i: int| 0 <= i < es.len() ==> str_encodable(#[trigger] es[i].0)
}

/// Reads `n` directory entries off the front of `b`: the entries and the
/// bytes that follow them, or nothing when `b` does not begin with `n`
/// well-formed entries.
pub open spec fn spec_take_entries(b: Seq<u8>, n: nat) -> Option<
    (Seq<(Seq<char>, bool)>, Seq<u8>),
>
    decreases n,
{
    if n == 0 {
        Some((Seq::empty(), b))
    } else {
        match spec_take_str(b) {
            Some((name, r1)) => {
                if r1.len() < 1 {
                    None
                } else if r1[0] == 0 || r1[0] == 1 {
                    match spec_take_entries(r1.skip(1), (n - 1) as nat) {
                        Some((es, r2)) => Some((seq![(name, r1[0] == 1u8)] + es, r2)),
                        None => None,
                    }
                } else {
                    None
                }
            },
            None => None,
        }
    }
}

/// The listing a byte sequence encodes: the count, then exactly that many
/// entries, with nothing left over.
pub open spec fn spec_decode_dir_enum(b: Seq<u8>) -> Option<Seq<(Seq<char>, bool)>> {
    if b.len() < 8 {
        None
    } else {
        let n = spec_u64_from_le_bytes(b.take(8));
        match spec_take_entries(b.skip(8), n as nat) {
            Some((es, rest)) => if rest.len() == 0 {
                Some(es)
            } else {
                None
            },
            None => None,
        }
    }
}

/// Encoding one more entry at the back extends the byte run at the back.
pub proof fn lemma_encode_entries_push(es: Seq<(Seq<char>, bool)>, e: (Seq<char>, bool))
    ensures
        spec_encode_entries(es.push(e)) == spec_encode_entries(es) + spec_encode_entry(e),
    decreases es.len(),
{
    if es.len() == 0 {
        assert(es.push(e)[0] == e);
        assert(es.push(e).drop_first() =~= Seq::<(Seq<char>, bool)>::empty());
        assert(spec_encode_entries(es.push(e)) == spec_encode_entry(es.push(e)[0])
            + spec_encode_entries(es.push(e).drop_first()));
        assert(spec_encode_entries(es.push(e)) =~= spec_encode_entry(e));
        assert(spec_encode_entries(es) + spec_encode_entry(e) =~= spec_encode_entry(e));
    } else {
        assert(es.push(e).drop_first() =~= es.drop_first().push(e));
        lemma_encode_entries_push(es.drop_first(), e);
        assert(spec_encode_entries(es.push(e)) =~= spec_encode_entries(es) + spec_encode_entry(e));
    }
}

/// A run of entries read back from its own encoding yields the entries and
/// leaves exactly the trailing bytes.
pub proof fn lemma_take_entries_round_trip(es: Seq<(Seq<char>, bool)>, rest: Seq<u8>)
    requires
        forall|i: int| 0 <= i < es.len() ==> str_encodable(#[trigger] es[i].0),
        es.len() <= u64::MAX,
    ensures
        spec_take_entries(spec_encode_entries(es) + rest, es.len() as nat) is Some,
        (spec_take_entries(spec_encode_entries(es) + rest, es.len() as nat)->0).0 == es,
        (spec_take_entries(spec_encode_entries(es) + rest, es.len() as nat)->0).1 == rest,
    decreases es.len(),
{
    if es.len() == 0 {
        assert(spec_encode_entries(es) + rest =~= rest);
    } else {
        let e = es[0];
        let flag = seq![
            if e.1 {
                1u8
            } else {
                0u8
            },
        ];
        let tail = spec_encode_entries(es.drop_first());
        let after_name = flag + tail + rest;
        assert(spec_encode_entries(es) + rest =~= spec_encode_str(e.0) + after_name);
        lemma_take_str_round_trip(e.0, after_name);
        assert(after_name[0] == flag[0]);
        assert(after_name.skip(1) =~= tail + rest);
        lemma_take_entries_round_trip(es.drop_first(), rest);
        assert((after_name[0] == 1u8) == e.1);
        assert(seq![(e.0, e.1)] + es.drop_first() =~= es);
    }
}

/// A listing comes back from its own bytes unchanged.
pub proof fn lemma_dir_enum_round_trip(es: Seq<(Seq<char>, bool)>)
    requires
        dir_enum_encodable(es),
    ensures
        spec_decode_dir_enum(spec_encode_dir_enum(es)) == Some(es),
{
    lemma_auto_spec_u64_to_from_le_bytes();
    let b = spec_encode_dir_enum(es);
    assert(b.take(8) =~= spec_u64_to_le_bytes(es.len() as u64));
    assert(b.skip(8) =~= spec_encode_entries(es) + Seq::<u8>::empty());
    lemma_take_entries_round_trip(es, Seq::<u8>::empty());
}

/// Serializes a `DirEnum` response, exactly as `spec_encode_dir_enum`
/// describes.
pub fn encode_dir_enum(d: &DirEnum) -> (out: Vec<u8>)
    ensures
        out@ == spec_encode_dir_enum(d@),
{
    let mut out: Vec<u8> = Vec::new();
    let n = d.files.len();
    push_u64(&mut out, n as u64);
    let mut i: usize = 0;
    while i < n
        invariant
            n == d.files.len(),
            i <= n,
            d@ == d.files.deep_view(),
            out@ == spec_u64_to_le_bytes(n as u64) + spec_encode_entries(d@.take(i as int)),
        decreases n - i,
    {
        let ghost pre = d@.take(i as int);
        let name = &d.files[i].0;
        let is_dir = d.files[i].1;
        push_str(&mut out, name.as_str());
        out.push(if is_dir { 1u8 } else { 0u8 });
        proof {
            assert(d@[i as int] == (name@, is_dir));
            assert(d@.take(i + 1 as int) =~= pre.push(d@[i as int]));
            lemma_encode_entries_push(pre, d@[i as int]);
            assert(out@ =~= spec_u64_to_le_bytes(n as u64) + spec_encode_entries(
                d@.take(i + 1 as int),
            ));
        }
        i = i + 1;
    }
    assert(d@.take(n as int) =~= d@);
    out
}

/// Joins a run of already-parsed entries onto the outcome of parsing the
/// entries that follow them.
pub open spec fn entries_result_with(
    acc: Seq<(Seq<char>, bool)>,
    r: Option<(Seq<(Seq<char>, bool)>, Seq<u8>)>,
) -> Option<(Seq<(Seq<char>, bool)>, Seq<u8>)> {
    match r {
        Some(p) => Some((acc + p.0, p.1)),
        None => None,
    }
}

/// Parses a `DirEnum` frame, mirroring `spec_decode_dir_enum`: the unique
/// listing the bytes encode, or nothing when they encode none.
pub fn decode_dir_enum(b: &[u8]) -> (r: Option<DirEnum>)
    ensures
        r is Some <==> spec_decode_dir_enum(b@) is Some,
        r is Some ==> (r->0)@ == spec_decode_dir_enum(b@)->0,
{
    if b.len() < 8 {
        return None;
    }
    let cb = slice_subrange(b, 0, 8);
    assert(cb@ =~= b@.take(8));
    let n = u64_from_le_bytes(cb);
    let mut files: Vec<(String, bool)> = Vec::new();
    let mut off: usize = 8;
    let mut k: u64 = 0;
    proof {
        assert(Seq::<(Seq<char>, bool)>::empty() + (spec_take_entries(b@.skip(8), n as nat)->0).0
            =~= (spec_take_entries(b@.skip(8), n as nat)->0).0);
        assert(files.deep_view() =~= Seq::<(Seq<char>, bool)>::empty());
    }
    while k < n
        invariant
            8 <= off <= b@.len(),
            k <= n,
            n == spec_u64_from_le_bytes(b@.take(8)),
            files.deep_view().len() == k,
            spec_take_entries(b@.skip(8), n as nat) == entries_result_with(
                files.deep_view(),
                spec_take_entries(b@.skip(off as int), (n - k) as nat),
            ),
        decreases n - k,
    {
        let ghost acc = files.deep_view();
        let ghost suffix = b@.skip(off as int);
        let parsed = parse_str_at(b, off);
        match parsed {
            None => {
                proof {
                    assert(spec_take_entries(suffix, (n - k) as nat) is None);
                    assert(spec_take_entries(b@.skip(8), n as nat) is None);
                }
                return None;
            },
            Some((name, off2)) => {
                if off2 == b.len() {
                    proof {
                        assert(b@.skip(off2 as int).len() == 0);
                        assert(spec_take_entries(suffix, (n - k) as nat) is None);
                        assert(spec_take_entries(b@.skip(8), n as nat) is None);
                    }
                    return None;
                }
                let flag = b[off2];
                if !(flag == 0 || flag == 1) {
                    proof {
                        assert(b@.skip(off2 as int)[0] == flag);
                        assert(spec_take_entries(suffix, (n - k) as nat) is None);
                        assert(spec_take_entries(b@.skip(8), n as nat) is None);
                    }
                    return None;
                }
                proof {
                    assert(b@.skip(off2 as int)[0] == flag);
                    assert(b@.skip(off2 as int).skip(1) =~= b@.skip(off2 + 1 as int));
                }
                let ghost entry = (name@, flag == 1u8);
                files.push((name, flag == 1));
                off = off2 + 1;
                k = k + 1;
                proof {
                    assert(files.deep_view() =~= acc.push(entry));
                    assert(acc.push(entry) =~= acc + seq![entry]);
                    let next = spec_take_entries(b@.skip(off as int), (n - k) as nat);
                    match next {
                        Some(p) => {
                            assert(acc + (seq![entry] + p.0) =~= (acc + seq![entry]) + p.0);
                        },
                        None => {},
                    }
                }
            },
        }
    }
    if off != b.len() {
        assert(b@.skip(off as int).len() != 0);
        return None;
    }
    proof {
        assert(b@.skip(off as int).len() == 0);
        assert(files.deep_view() + Seq::<(Seq<char>, bool)>::empty() =~= files.deep_view());
    }
    Some(DirEnum { files })
}

/// The one frame that carries `payload`: an 8-byte little-endian byte count,
/// then the payload itself.
pub open spec fn spec_frame(payload: Seq<u8>) -> Seq<u8> {
    spec_u64_to_le_bytes(payload.len() as u64) + payload
}

/// Wraps a serialized message in its frame.
pub fn frame_message(payload: &[u8]) -> (out: Vec<u8>)
    ensures
        out@ == spec_frame(payload@),
{
    let mut out: Vec<u8> = Vec::new();
    push_u64(&mut out, payload.len() as u64);
    let mut body = slice_to_vec(payload);
    out.append(&mut body);
    assert(out@ =~= spec_frame(payload@));
    out
}

/// Ceiling on any client-declared frame or payload length: a receiver
/// checks a declared length against it before allocating a buffer.
pub const MAX_FRAME_LEN: u64 = 16777216;

/// Whether a declared length is small enough to allocate a buffer for.
pub fn frame_len_admitted(len: u64) -> (r: bool)
    ensures
        r == (len <= MAX_FRAME_LEN),
{
    len <= MAX_FRAME_LEN
}

} // verus!

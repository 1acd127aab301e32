//! Binary encoding of requests and responses.
//!
//! The payload of a frame is a self-describing binary rendering of one
//! message: a one-byte variant tag followed by the fields.  Integers
//! are big-endian and fixed-width; a string is its UTF-8 byte length
//! (as a `u32`) followed by its UTF-8 bytes; an option is a one-byte
//! presence tag followed by the payload; a list is its element count
//! (as a `u32`) followed by the elements.
//!
//! Each encoder is specified against a total spec-level encoding
//! function, each decoder against a spec-level decoding function, and
//! the two are related by round-trip lemmas: decoding an encoding
//! yields the encoded value.

use vstd::prelude::*;
use vstd::utf8::{
    decode_utf8, encode_utf8, encode_utf8_decode_utf8, encode_utf8_valid_utf8, valid_utf8,
};

use crate::protocol::{
    EnvEntry, EnvEntryV, EnvRequest, EnvRequestV, LoginRequest, LoginRequestV, PodSummary,
    PodSummaryV, PodsRequest, PodsRequestV, Request, RequestV, Response, ResponseV, VersionInfo,
    VersionInfoV,
};
use crate::wire::WireError;

verus! {

// ---------------------------------------------------------------------
// Spec-level encodings of the primitives.
// ---------------------------------------------------------------------
/// Big-endian four-byte encoding of a `u32`.
pub open spec fn enc_u32(x: u32) -> Seq<u8> {
    seq![(x >> 24) as u8, (x >> 16) as u8, (x >> 8) as u8, x as u8]
}

/// Big-endian eight-byte encoding of a `u64`.
pub open spec fn enc_u64(x: u64) -> Seq<u8> {
    seq![
        (x >> 56) as u8,
        (x >> 48) as u8,
        (x >> 40) as u8,
        (x >> 32) as u8,
        (x >> 24) as u8,
        (x >> 16) as u8,
        (x >> 8) as u8,
        x as u8,
    ]
}

/// An `i64` is carried as its two's-complement bit pattern.
pub open spec fn enc_i64(x: i64) -> Seq<u8> {
    enc_u64(x as u64)
}

/// An `i32` is carried as its two's-complement bit pattern.
pub open spec fn enc_i32(x: i32) -> Seq<u8> {
    enc_u32(x as u32)
}

/// A `bool` is one byte: one for true, zero for false.
pub open spec fn enc_bool(x: bool) -> Seq<u8> {
    seq![if x { 1u8 } else { 0u8 }]
}

// ---------------------------------------------------------------------
// Spec-level decoders.  Each reads at a position and yields the value
// together with the position after it, or nothing when the bytes do
// not hold a valid encoding there.
// ---------------------------------------------------------------------
pub open spec fn dec_u32_at(b: Seq<u8>, i: int) -> Option<(u32, int)> {
    if 0 <= i && i + 4 <= b.len() {
        Some(
            (
                ((b[i] as u32) << 24 | (b[i + 1] as u32) << 16 | (b[i + 2] as u32) << 8 | (b[i + 3]
                    as u32)),
                i + 4,
            ),
        )
    } else {
        None
    }
}

pub open spec fn dec_u64_at(b: Seq<u8>, i: int) -> Option<(u64, int)> {
    if 0 <= i && i + 8 <= b.len() {
        Some(
            (
                ((b[i] as u64) << 56 | (b[i + 1] as u64) << 48 | (b[i + 2] as u64) << 40 | (b[i + 3]
                    as u64) << 32 | (b[i + 4] as u64) << 24 | (b[i + 5] as u64) << 16 | (b[i + 6]
                    as u64) << 8 | (b[i + 7] as u64)),
                i + 8,
            ),
        )
    } else {
        None
    }
}

pub open spec fn dec_i64_at(b: Seq<u8>, i: int) -> Option<(i64, int)> {
    match dec_u64_at(b, i) {
        Some((x, j)) => Some(((x as i64), j)),
        None => None,
    }
}

pub open spec fn dec_i32_at(b: Seq<u8>, i: int) -> Option<(i32, int)> {
    match dec_u32_at(b, i) {
        Some((x, j)) => Some(((x as i32), j)),
        None => None,
    }
}

pub open spec fn dec_bool_at(b: Seq<u8>, i: int) -> Option<(bool, int)> {
    if 0 <= i && i + 1 <= b.len() {
        if b[i] == 1u8 {
            Some((true, i + 1))
        } else if b[i] == 0u8 {
            Some((false, i + 1))
        } else {
            None
        }
    } else {
        None
    }
}

// ---------------------------------------------------------------------
// Round-trip lemmas for the primitives: if the bytes at `i` hold the
// encoding of a value, decoding at `i` yields that value and stops
// right after it.
// ---------------------------------------------------------------------
pub proof fn lemma_dec_enc_u32(b: Seq<u8>, i: int, x: u32)
    requires
        0 <= i,
        i + 4 <= b.len(),
        b.subrange(i, i + 4) =~= enc_u32(x),
    ensures
        dec_u32_at(b, i) == Some((x, i + 4)),
{
    assert(b[i] == (x >> 24) as u8);
    assert(b[i + 1] == (x >> 16) as u8);
    assert(b[i + 2] == (x >> 8) as u8);
    assert(b[i + 3] == x as u8);
    assert((((x >> 24) as u8) as u32) << 24 | (((x >> 16) as u8) as u32) << 16 | (((x >> 8) as u8)
        as u32) << 8 | ((x as u8) as u32) == x) by (bit_vector);
}

pub proof fn lemma_dec_enc_u64(b: Seq<u8>, i: int, x: u64)
    requires
        0 <= i,
        i + 8 <= b.len(),
        b.subrange(i, i + 8) =~= enc_u64(x),
    ensures
        dec_u64_at(b, i) == Some((x, i + 8)),
{
    assert(b[i] == (x >> 56) as u8);
    assert(b[i + 1] == (x >> 48) as u8);
    assert(b[i + 2] == (x >> 40) as u8);
    assert(b[i + 3] == (x >> 32) as u8);
    assert(b[i + 4] == (x >> 24) as u8);
    assert(b[i + 5] == (x >> 16) as u8);
    assert(b[i + 6] == (x >> 8) as u8);
    assert(b[i + 7] == x as u8);
    assert((((x >> 56) as u8) as u64) << 56 | (((x >> 48) as u8) as u64) << 48 | (((x >> 40) as u8)
        as u64) << 40 | (((x >> 32) as u8) as u64) << 32 | (((x >> 24) as u8) as u64) << 24 | (((x
        >> 16) as u8) as u64) << 16 | (((x >> 8) as u8) as u64) << 8 | ((x as u8) as u64) == x)
        by (bit_vector);
}

pub proof fn lemma_dec_enc_i64(b: Seq<u8>, i: int, x: i64)
    requires
        0 <= i,
        i + 8 <= b.len(),
        b.subrange(i, i + 8) =~= enc_i64(x),
    ensures
        dec_i64_at(b, i) == Some((x, i + 8)),
{
    lemma_dec_enc_u64(b, i, x as u64);
    assert((x as u64) as i64 == x) by (bit_vector);
}

pub proof fn lemma_dec_enc_i32(b: Seq<u8>, i: int, x: i32)
    requires
        0 <= i,
        i + 4 <= b.len(),
        b.subrange(i, i + 4) =~= enc_i32(x),
    ensures
        dec_i32_at(b, i) == Some((x, i + 4)),
{
    lemma_dec_enc_u32(b, i, x as u32);
    assert((x as u32) as i32 == x) by (bit_vector);
}

pub proof fn lemma_dec_enc_bool(b: Seq<u8>, i: int, x: bool)
    requires
        0 <= i,
        i + 1 <= b.len(),
        b.subrange(i, i + 1) =~= enc_bool(x),
    ensures
        dec_bool_at(b, i) == Some((x, i + 1)),
{
    assert(b[i] == enc_bool(x)[0]);
}

// ---------------------------------------------------------------------
// Executable writers.  Each appends exactly the spec encoding.
// ---------------------------------------------------------------------
/// Appends the bytes of a slice to the output buffer.
fn w_bytes(out: &mut Vec<u8>, b: &[u8])
    ensures
        final(out)@ == old(out)@ + b@,
{
    let mut k: usize = 0;
    while k < b.len()
        invariant
            k <= b@.len(),
            out@ == old(out)@ + b@.subrange(0, k as int),
        decreases b@.len() - k,
    {
        out.push(b[k]);
        k = k + 1;
        assert(out@ =~= old(out)@ + b@.subrange(0, k as int));
    }
    assert(out@ =~= old(out)@ + b@);
}

fn w_u32(out: &mut Vec<u8>, x: u32)
    ensures
        final(out)@ == old(out)@ + enc_u32(x),
{
    out.push((x >> 24) as u8);
    out.push(#[verifier::truncate] ((x >> 16) as u8));
    out.push(#[verifier::truncate] ((x >> 8) as u8));
    out.push(#[verifier::truncate] (x as u8));
    assert(out@ =~= old(out)@ + enc_u32(x));
}

fn w_u64(out: &mut Vec<u8>, x: u64)
    ensures
        final(out)@ == old(out)@ + enc_u64(x),
{
    out.push((x >> 56) as u8);
    out.push(#[verifier::truncate] ((x >> 48) as u8));
    out.push(#[verifier::truncate] ((x >> 40) as u8));
    out.push(#[verifier::truncate] ((x >> 32) as u8));
    out.push(#[verifier::truncate] ((x >> 24) as u8));
    out.push(#[verifier::truncate] ((x >> 16) as u8));
    out.push(#[verifier::truncate] ((x >> 8) as u8));
    out.push(#[verifier::truncate] (x as u8));
    assert(out@ =~= old(out)@ + enc_u64(x));
}

fn w_i64(out: &mut Vec<u8>, x: i64)
    ensures
        final(out)@ == old(out)@ + enc_i64(x),
{
    w_u64(out, #[verifier::truncate] (x as u64));
}

fn w_i32(out: &mut Vec<u8>, x: i32)
    ensures
        final(out)@ == old(out)@ + enc_i32(x),
{
    w_u32(out, #[verifier::truncate] (x as u32));
}

fn w_bool(out: &mut Vec<u8>, x: bool)
    ensures
        final(out)@ == old(out)@ + enc_bool(x),
{
    out.push(if x { 1u8 } else { 0u8 });
    assert(out@ =~= old(out)@ + enc_bool(x));
}

// ---------------------------------------------------------------------
// Executable readers.  Each either returns the spec decoder's result
// at the given position and advances it, or reports the failure the
// spec decoder predicts.
// ---------------------------------------------------------------------
fn r_u32(b: &[u8], pos: &mut usize) -> (r: Result<u32, WireError>)
    requires
        *old(pos) <= b@.len(),
    ensures
        match r {
            Ok(x) => {
                &&& dec_u32_at(b@, *old(pos) as int) == Some((x, *final(pos) as int))
                &&& *final(pos) <= b@.len()
            },
            Err(_) => dec_u32_at(b@, *old(pos) as int) is None && *final(pos) == *old(pos),
        },
{
    let i = *pos;
    if b.len() - i < 4 {
        return Err(WireError::decode_truncated());
    }
    let x = (b[i] as u32) << 24 | (b[i + 1] as u32) << 16 | (b[i + 2] as u32) << 8 | (b[i + 3]
        as u32);
    *pos = i + 4;
    Ok(x)
}

fn r_u64(b: &[u8], pos: &mut usize) -> (r: Result<u64, WireError>)
    requires
        *old(pos) <= b@.len(),
    ensures
        match r {
            Ok(x) => {
                &&& dec_u64_at(b@, *old(pos) as int) == Some((x, *final(pos) as int))
                &&& *final(pos) <= b@.len()
            },
            Err(_) => dec_u64_at(b@, *old(pos) as int) is None && *final(pos) == *old(pos),
        },
{
    let i = *pos;
    if b.len() - i < 8 {
        return Err(WireError::decode_truncated());
    }
    let x = (b[i] as u64) << 56 | (b[i + 1] as u64) << 48 | (b[i + 2] as u64) << 40 | (b[i + 3]
        as u64) << 32 | (b[i + 4] as u64) << 24 | (b[i + 5] as u64) << 16 | (b[i + 6] as u64) << 8
        | (b[i + 7] as u64);
    *pos = i + 8;
    Ok(x)
}

fn r_i64(b: &[u8], pos: &mut usize) -> (r: Result<i64, WireError>)
    requires
        *old(pos) <= b@.len(),
    ensures
        match r {
            Ok(x) => {
                &&& dec_i64_at(b@, *old(pos) as int) == Some((x, *final(pos) as int))
                &&& *final(pos) <= b@.len()
            },
            Err(_) => dec_i64_at(b@, *old(pos) as int) is None && *final(pos) == *old(pos),
        },
{
    match r_u64(b, pos) {
        Ok(x) => Ok(#[verifier::truncate] (x as i64)),
        Err(e) => Err(e),
    }
}

fn r_i32(b: &[u8], pos: &mut usize) -> (r: Result<i32, WireError>)
    requires
        *old(pos) <= b@.len(),
    ensures
        match r {
            Ok(x) => {
                &&& dec_i32_at(b@, *old(pos) as int) == Some((x, *final(pos) as int))
                &&& *final(pos) <= b@.len()
            },
            Err(_) => dec_i32_at(b@, *old(pos) as int) is None && *final(pos) == *old(pos),
        },
{
    match r_u32(b, pos) {
        Ok(x) => Ok(#[verifier::truncate] (x as i32)),
        Err(e) => Err(e),
    }
}

fn r_bool(b: &[u8], pos: &mut usize) -> (r: Result<bool, WireError>)
    requires
        *old(pos) <= b@.len(),
    ensures
        match r {
            Ok(x) => {
                &&& dec_bool_at(b@, *old(pos) as int) == Some((x, *final(pos) as int))
                &&& *final(pos) <= b@.len()
            },
            Err(_) => dec_bool_at(b@, *old(pos) as int) is None && *final(pos) == *old(pos),
        },
{
    let i = *pos;
    if b.len() - i < 1 {
        return Err(WireError::decode_truncated());
    }
    let t = b[i];
    if t == 1 {
        *pos = i + 1;
        Ok(true)
    } else if t == 0 {
        *pos = i + 1;
        Ok(false)
    } else {
        Err(WireError::decode_malformed())
    }
}

// ---------------------------------------------------------------------
// Strings and optional strings.
// ---------------------------------------------------------------------
/// A string fits on the wire when its UTF-8 byte length fits the
/// length field.
pub open spec fn wf_str(s: Seq<char>) -> bool {
    encode_utf8(s).len() <= 0xFFFF_FFFF
}

pub open spec fn wf_opt_str(o: Option<Seq<char>>) -> bool {
    match o {
        Some(s) => wf_str(s),
        None => true,
    }
}

/// A string is its UTF-8 byte length, then its UTF-8 bytes.
pub open spec fn enc_str(s: Seq<char>) -> Seq<u8> {
    enc_u32(encode_utf8(s).len() as u32) + encode_utf8(s)
}

/// An option is a presence byte, then the payload if present.
pub open spec fn enc_opt_str(o: Option<Seq<char>>) -> Seq<u8> {
    match o {
        Some(s) => seq![1u8] + enc_str(s),
        None => seq![0u8],
    }
}

pub open spec fn dec_str_at(b: Seq<u8>, i: int) -> Option<(Seq<char>, int)> {
    match dec_u32_at(b, i) {
        Some((n, j)) => if j + n <= b.len() && valid_utf8(b.subrange(j, j + n)) {
            Some((decode_utf8(b.subrange(j, j + n)), j + n))
        } else {
            None
        },
        None => None,
    }
}

pub open spec fn dec_opt_str_at(b: Seq<u8>, i: int) -> Option<(Option<Seq<char>>, int)> {
    if 0 <= i && i + 1 <= b.len() {
        if b[i] == 0u8 {
            Some((None, i + 1))
        } else if b[i] == 1u8 {
            match dec_str_at(b, i + 1) {
                Some((s, j)) => Some((Some(s), j)),
                None => None,
            }
        } else {
            None
        }
    } else {
        None
    }
}

/// Carves one piece out of a concatenation: when the bytes at `i` hold
/// `pre + mid + post`, the bytes right after `pre` hold `mid`.
pub proof fn lemma_chunk(b: Seq<u8>, i: int, pre: Seq<u8>, mid: Seq<u8>, post: Seq<u8>)
    requires
        0 <= i,
        i + pre.len() + mid.len() + post.len() <= b.len(),
        b.subrange(i, i + pre.len() + mid.len() + post.len()) == pre + mid + post,
    ensures
        b.subrange(i + pre.len(), i + pre.len() + mid.len()) =~= mid,
{
    let whole = b.subrange(i, i + pre.len() + mid.len() + post.len());
    assert forall|j: int| 0 <= j < mid.len() implies b.subrange(
        i + pre.len(),
        i + pre.len() + mid.len(),
    )[j] == mid[j] by {
        assert(whole[pre.len() + j] == b[i + pre.len() + j]);
        assert((pre + mid + post)[pre.len() + j] == mid[j]);
        assert(b.subrange(i + pre.len(), i + pre.len() + mid.len())[j] == b[i + pre.len() + j]);
    }
}

pub proof fn lemma_dec_enc_str(b: Seq<u8>, i: int, s: Seq<char>)
    requires
        wf_str(s),
        0 <= i,
        i + enc_str(s).len() <= b.len(),
        b.subrange(i, i + enc_str(s).len()) =~= enc_str(s),
    ensures
        dec_str_at(b, i) == Some((s, i + enc_str(s).len())),
{
    let u = encode_utf8(s);
    let n = u.len() as u32;
    assert(Seq::<u8>::empty() + enc_u32(n) + u =~= enc_str(s));
    lemma_chunk(b, i, Seq::<u8>::empty(), enc_u32(n), u);
    lemma_dec_enc_u32(b, i, n);
    assert(enc_u32(n) + u + Seq::<u8>::empty() =~= enc_str(s));
    lemma_chunk(b, i, enc_u32(n), u, Seq::<u8>::empty());
    encode_utf8_valid_utf8(s);
    encode_utf8_decode_utf8(s);
}

pub proof fn lemma_dec_enc_opt_str(b: Seq<u8>, i: int, o: Option<Seq<char>>)
    requires
        wf_opt_str(o),
        0 <= i,
        i + enc_opt_str(o).len() <= b.len(),
        b.subrange(i, i + enc_opt_str(o).len()) =~= enc_opt_str(o),
    ensures
        dec_opt_str_at(b, i) == Some((o, i + enc_opt_str(o).len())),
{
    match o {
        None => {
            assert(b[i] == enc_opt_str(o)[0]);
        },
        Some(s) => {
            assert(b[i] == enc_opt_str(o)[0]);
            assert(seq![1u8] + enc_str(s) + Seq::<u8>::empty() =~= enc_opt_str(o));
            lemma_chunk(b, i, seq![1u8], enc_str(s), Seq::<u8>::empty());
            lemma_dec_enc_str(b, i + 1, s);
        },
    }
}

/// Relies on `String::from_utf8`: it succeeds exactly on valid UTF-8
/// bytes and returns the characters they encode.
#[verifier::external_body]
fn string_from_utf8(v: Vec<u8>) -> (r: Option<String>)
    ensures
        match r {
            Some(s) => valid_utf8(v@) && s@ == decode_utf8(v@),
            None => !valid_utf8(v@),
        },
{
    String::from_utf8(v).ok()
}

fn w_str(out: &mut Vec<u8>, s: &str) -> (r: Result<(), WireError>)
    ensures
        match r {
            Ok(_) => wf_str(s@) && final(out)@ == old(out)@ + enc_str(s@),
            Err(e) => !wf_str(s@) && e matches WireError::Encode { .. },
        },
{
    let bs = s.as_bytes();
    let n = bs.len();
    if n > u32::MAX as usize {
        return Err(WireError::encode_too_long());
    }
    w_u32(out, n as u32);
    w_bytes(out, bs);
    assert(out@ =~= old(out)@ + enc_str(s@));
    Ok(())
}

fn w_opt_str(out: &mut Vec<u8>, o: &Option<String>) -> (r: Result<(), WireError>)
    ensures
        match r {
            Ok(_) => wf_opt_str(crate::protocol::opt_string_view(*o)) && final(out)@ == old(out)@
                + enc_opt_str(crate::protocol::opt_string_view(*o)),
            Err(e) => !wf_opt_str(crate::protocol::opt_string_view(*o)) && e matches
                WireError::Encode { .. },
        },
{
    match o {
        None => {
            out.push(0u8);
            assert(out@ =~= old(out)@ + enc_opt_str(crate::protocol::opt_string_view(*o)));
            Ok(())
        },
        Some(s) => {
            out.push(1u8);
            match w_str(out, s.as_str()) {
                Ok(_) => {
                    assert(out@ =~= old(out)@ + enc_opt_str(crate::protocol::opt_string_view(*o)));
                    Ok(())
                },
                Err(e) => Err(e),
            }
        },
    }
}

fn r_str(b: &[u8], pos: &mut usize) -> (r: Result<String, WireError>)
    requires
        *old(pos) <= b@.len(),
    ensures
        match r {
            Ok(s) => {
                &&& dec_str_at(b@, *old(pos) as int) == Some((s@, *final(pos) as int))
                &&& *final(pos) <= b@.len()
            },
            Err(_) => dec_str_at(b@, *old(pos) as int) is None,
        },
{
    let n32 = match r_u32(b, pos) {
        Ok(x) => x,
        Err(e) => {
            return Err(e);
        },
    };
    let n = n32 as usize;
    if b.len() - *pos < n {
        return Err(WireError::decode_truncated());
    }
    let sub = vstd::slice::slice_subrange(b, *pos, *pos + n);
    let v = vstd::slice::slice_to_vec(sub);
    match string_from_utf8(v) {
        Some(s) => {
            *pos = *pos + n;
            Ok(s)
        },
        None => Err(WireError::decode_malformed()),
    }
}

fn r_opt_str(b: &[u8], pos: &mut usize) -> (r: Result<Option<String>, WireError>)
    requires
        *old(pos) <= b@.len(),
    ensures
        match r {
            Ok(o) => {
                &&& dec_opt_str_at(b@, *old(pos) as int) == Some(
                    (crate::protocol::opt_string_view(o), *final(pos) as int),
                )
                &&& *final(pos) <= b@.len()
            },
            Err(_) => dec_opt_str_at(b@, *old(pos) as int) is None,
        },
{
    let i = *pos;
    if b.len() - i < 1 {
        return Err(WireError::decode_truncated());
    }
    let t = b[i];
    if t == 0 {
        *pos = i + 1;
        Ok(None)
    } else if t == 1 {
        *pos = i + 1;
        match r_str(b, pos) {
            Ok(s) => Ok(Some(s)),
            Err(e) => Err(e),
        }
    } else {
        Err(WireError::decode_malformed())
    }
}

// ---------------------------------------------------------------------
// Lists: an element count, then the elements one after another.
// The element codec is a spec-function parameter, so the same
// machinery serves every element type.
// ---------------------------------------------------------------------
pub open spec fn enc_items<T>(s: Seq<T>, enc1: spec_fn(T) -> Seq<u8>) -> Seq<u8>
    decreases s.len(),
{
    if s.len() == 0 {
        Seq::empty()
    } else {
        enc1(s[0]) + enc_items(s.drop_first(), enc1)
    }
}

pub open spec fn enc_list<T>(s: Seq<T>, enc1: spec_fn(T) -> Seq<u8>) -> Seq<u8> {
    enc_u32(s.len() as u32) + enc_items(s, enc1)
}

pub open spec fn wf_list<T>(s: Seq<T>, wf1: spec_fn(T) -> bool) -> bool {
    &&& s.len() <= 0xFFFF_FFFF
    &&& forall|k: int| 0 <= k < s.len() ==> #[trigger] wf1(s[k])
}

pub open spec fn dec_items_at<T>(
    b: Seq<u8>,
    i: int,
    n: nat,
    dec1: spec_fn(Seq<u8>, int) -> Option<(T, int)>,
) -> Option<(Seq<T>, int)>
    decreases n,
{
    if n == 0 {
        Some((Seq::empty(), i))
    } else {
        match dec1(b, i) {
            Some((v, j)) => match dec_items_at(b, j, (n - 1) as nat, dec1) {
                Some((s, k)) => Some((seq![v] + s, k)),
                None => None,
            },
            None => None,
        }
    }
}

pub open spec fn dec_list_at<T>(
    b: Seq<u8>,
    i: int,
    dec1: spec_fn(Seq<u8>, int) -> Option<(T, int)>,
) -> Option<(Seq<T>, int)> {
    match dec_u32_at(b, i) {
        Some((n, j)) => dec_items_at(b, j, n as nat, dec1),
        None => None,
    }
}

/// The element decoder undoes the element encoder: wherever the bytes
/// hold the encoding of a well-formed element, decoding yields that
/// element and stops right after it.
pub open spec fn dec_inverts_enc<T>(
    enc1: spec_fn(T) -> Seq<u8>,
    dec1: spec_fn(Seq<u8>, int) -> Option<(T, int)>,
    wf1: spec_fn(T) -> bool,
) -> bool {
    forall|b: Seq<u8>, i: int, v: T|
        #![trigger dec1(b, i), enc1(v)]
        (wf1(v) && 0 <= i && i + enc1(v).len() <= b.len() && b.subrange(i, i + enc1(v).len())
            == enc1(v)) ==> dec1(b, i) == Some::<(T, int)>((v, i + enc1(v).len()))
}

pub proof fn lemma_enc_items_snoc<T>(s: Seq<T>, x: T, enc1: spec_fn(T) -> Seq<u8>)
    ensures
        enc_items(s.push(x), enc1) =~= enc_items(s, enc1) + enc1(x),
    decreases s.len(),
{
    if s.len() == 0 {
        assert(s.push(x).drop_first() =~= Seq::<T>::empty());
        assert(enc_items(s.push(x), enc1) == enc1(s.push(x)[0]) + enc_items(
            s.push(x).drop_first(),
            enc1,
        ));
        assert(enc_items(s.push(x).drop_first(), enc1) == Seq::<u8>::empty());
        assert(enc1(s.push(x)[0]) + Seq::<u8>::empty() =~= enc1(x));
        assert(enc_items(s, enc1) + enc1(x) =~= enc1(x));
    } else {
        assert(s.push(x).drop_first() =~= s.drop_first().push(x));
        lemma_enc_items_snoc(s.drop_first(), x, enc1);
    }
}

pub proof fn lemma_dec_enc_items<T>(
    b: Seq<u8>,
    i: int,
    s: Seq<T>,
    enc1: spec_fn(T) -> Seq<u8>,
    dec1: spec_fn(Seq<u8>, int) -> Option<(T, int)>,
    wf1: spec_fn(T) -> bool,
)
    requires
        dec_inverts_enc(enc1, dec1, wf1),
        forall|k: int| 0 <= k < s.len() ==> #[trigger] wf1(s[k]),
        0 <= i,
        i + enc_items(s, enc1).len() <= b.len(),
        b.subrange(i, i + enc_items(s, enc1).len()) == enc_items(s, enc1),
    ensures
        dec_items_at(b, i, s.len() as nat, dec1) == Some((s, i + enc_items(s, enc1).len())),
    decreases s.len(),
{
    if s.len() == 0 {
        assert(dec_items_at(b, i, 0, dec1) == Some((Seq::<T>::empty(), i)));
        assert(s =~= Seq::<T>::empty());
    } else {
        let e0 = enc1(s[0]);
        let rest = enc_items(s.drop_first(), enc1);
        assert(Seq::<u8>::empty() + e0 + rest =~= enc_items(s, enc1));
        lemma_chunk(b, i, Seq::<u8>::empty(), e0, rest);
        assert(wf1(s[0]));
        assert(dec1(b, i) == Some::<(T, int)>((s[0], i + e0.len())));
        assert(e0 + rest + Seq::<u8>::empty() =~= enc_items(s, enc1));
        lemma_chunk(b, i, e0, rest, Seq::<u8>::empty());
        lemma_dec_enc_items(b, i + e0.len(), s.drop_first(), enc1, dec1, wf1);
        assert(seq![s[0]] + s.drop_first() =~= s);
    }
}

pub proof fn lemma_dec_enc_list<T>(
    b: Seq<u8>,
    i: int,
    s: Seq<T>,
    enc1: spec_fn(T) -> Seq<u8>,
    dec1: spec_fn(Seq<u8>, int) -> Option<(T, int)>,
    wf1: spec_fn(T) -> bool,
)
    requires
        dec_inverts_enc(enc1, dec1, wf1),
        wf_list(s, wf1),
        0 <= i,
        i + enc_list(s, enc1).len() <= b.len(),
        b.subrange(i, i + enc_list(s, enc1).len()) == enc_list(s, enc1),
    ensures
        dec_list_at(b, i, dec1) == Some((s, i + enc_list(s, enc1).len())),
{
    let n = s.len() as u32;
    let items = enc_items(s, enc1);
    assert(Seq::<u8>::empty() + enc_u32(n) + items =~= enc_list(s, enc1));
    lemma_chunk(b, i, Seq::<u8>::empty(), enc_u32(n), items);
    lemma_dec_enc_u32(b, i, n);
    assert(enc_u32(n) + items + Seq::<u8>::empty() =~= enc_list(s, enc1));
    lemma_chunk(b, i, enc_u32(n), items, Seq::<u8>::empty());
    lemma_dec_enc_items(b, i + 4, s, enc1, dec1, wf1);
}

// ---------------------------------------------------------------------
// Structured values: each is the concatenation of its fields'
// encodings, in declaration order.
// ---------------------------------------------------------------------
pub open spec fn wf_env_entry(e: EnvEntryV) -> bool {
    wf_str(e.name) && wf_opt_str(e.value)
}

pub open spec fn enc_env_entry(e: EnvEntryV) -> Seq<u8> {
    enc_str(e.name) + enc_opt_str(e.value)
}

pub open spec fn dec_env_entry_at(b: Seq<u8>, i: int) -> Option<(EnvEntryV, int)> {
    match dec_str_at(b, i) {
        Some((name, j)) => match dec_opt_str_at(b, j) {
            Some((value, k)) => Some((EnvEntryV { name, value }, k)),
            None => None,
        },
        None => None,
    }
}

pub proof fn lemma_dec_enc_env_entry(b: Seq<u8>, i: int, e: EnvEntryV)
    requires
        wf_env_entry(e),
        0 <= i,
        i + enc_env_entry(e).len() <= b.len(),
        b.subrange(i, i + enc_env_entry(e).len()) == enc_env_entry(e),
    ensures
        dec_env_entry_at(b, i) == Some((e, i + enc_env_entry(e).len())),
{
    let e1 = enc_str(e.name);
    let e2 = enc_opt_str(e.value);
    assert(Seq::<u8>::empty() + e1 + e2 =~= enc_env_entry(e));
    lemma_chunk(b, i, Seq::<u8>::empty(), e1, e2);
    lemma_dec_enc_str(b, i, e.name);
    assert(e1 + e2 + Seq::<u8>::empty() =~= enc_env_entry(e));
    lemma_chunk(b, i, e1, e2, Seq::<u8>::empty());
    lemma_dec_enc_opt_str(b, i + e1.len(), e.value);
}

pub open spec fn wf_pod_summary(p: PodSummaryV) -> bool {
    &&& wf_str(p.cluster)
    &&& wf_str(p.namespace)
    &&& wf_str(p.name)
    &&& wf_opt_str(p.phase)
    &&& wf_opt_str(p.reason)
    &&& wf_opt_str(p.message)
}

pub open spec fn enc_pod_summary(p: PodSummaryV) -> Seq<u8> {
    enc_str(p.cluster) + enc_str(p.namespace) + enc_str(p.name) + enc_opt_str(p.phase)
        + enc_opt_str(p.reason) + enc_opt_str(p.message) + enc_bool(p.ready) + enc_i32(
        p.restart_count,
    )
}

pub open spec fn dec_pod_summary_at(b: Seq<u8>, i: int) -> Option<(PodSummaryV, int)> {
    match dec_str_at(b, i) {
        Some((cluster, i1)) => match dec_str_at(b, i1) {
            Some((namespace, i2)) => match dec_str_at(b, i2) {
                Some((name, i3)) => match dec_opt_str_at(b, i3) {
                    Some((phase, i4)) => match dec_opt_str_at(b, i4) {
                        Some((reason, i5)) => match dec_opt_str_at(b, i5) {
                            Some((message, i6)) => match dec_bool_at(b, i6) {
                                Some((ready, i7)) => match dec_i32_at(b, i7) {
                                    Some((restart_count, i8)) => Some(
                                        (
                                            PodSummaryV {
                                                cluster,
                                                namespace,
                                                name,
                                                phase,
                                                reason,
                                                message,
                                                ready,
                                                restart_count,
                                            },
                                            i8,
                                        ),
                                    ),
                                    None => None,
                                },
                                None => None,
                            },
                            None => None,
                        },
                        None => None,
                    },
                    None => None,
                },
                None => None,
            },
            None => None,
        },
        None => None,
    }
}

#[verifier::rlimit(100)]
pub proof fn lemma_dec_enc_pod_summary(b: Seq<u8>, i: int, p: PodSummaryV)
    requires
        wf_pod_summary(p),
        0 <= i,
        i + enc_pod_summary(p).len() <= b.len(),
        b.subrange(i, i + enc_pod_summary(p).len()) == enc_pod_summary(p),
    ensures
        dec_pod_summary_at(b, i) == Some((p, i + enc_pod_summary(p).len())),
{
    let e1 = enc_str(p.cluster);
    let e2 = enc_str(p.namespace);
    let e3 = enc_str(p.name);
    let e4 = enc_opt_str(p.phase);
    let e5 = enc_opt_str(p.reason);
    let e6 = enc_opt_str(p.message);
    let e7 = enc_bool(p.ready);
    let e8 = enc_i32(p.restart_count);
    let all = enc_pod_summary(p);
    assert(Seq::<u8>::empty() + e1 + (e2 + e3 + e4 + e5 + e6 + e7 + e8) =~= all);
    lemma_chunk(b, i, Seq::<u8>::empty(), e1, e2 + e3 + e4 + e5 + e6 + e7 + e8);
    lemma_dec_enc_str(b, i, p.cluster);
    assert(e1 + e2 + (e3 + e4 + e5 + e6 + e7 + e8) =~= all);
    lemma_chunk(b, i, e1, e2, e3 + e4 + e5 + e6 + e7 + e8);
    lemma_dec_enc_str(b, i + e1.len(), p.namespace);
    assert((e1 + e2) + e3 + (e4 + e5 + e6 + e7 + e8) =~= all);
    lemma_chunk(b, i, e1 + e2, e3, e4 + e5 + e6 + e7 + e8);
    lemma_dec_enc_str(b, i + e1.len() + e2.len(), p.name);
    assert((e1 + e2 + e3) + e4 + (e5 + e6 + e7 + e8) =~= all);
    lemma_chunk(b, i, e1 + e2 + e3, e4, e5 + e6 + e7 + e8);
    lemma_dec_enc_opt_str(b, i + e1.len() + e2.len() + e3.len(), p.phase);
    assert((e1 + e2 + e3 + e4) + e5 + (e6 + e7 + e8) =~= all);
    lemma_chunk(b, i, e1 + e2 + e3 + e4, e5, e6 + e7 + e8);
    lemma_dec_enc_opt_str(b, i + e1.len() + e2.len() + e3.len() + e4.len(), p.reason);
    assert((e1 + e2 + e3 + e4 + e5) + e6 + (e7 + e8) =~= all);
    lemma_chunk(b, i, e1 + e2 + e3 + e4 + e5, e6, e7 + e8);
    lemma_dec_enc_opt_str(b, i + e1.len() + e2.len() + e3.len() + e4.len() + e5.len(), p.message);
    assert((e1 + e2 + e3 + e4 + e5 + e6) + e7 + e8 =~= all);
    lemma_chunk(b, i, e1 + e2 + e3 + e4 + e5 + e6, e7, e8);
    lemma_dec_enc_bool(
        b,
        i + e1.len() + e2.len() + e3.len() + e4.len() + e5.len() + e6.len(),
        p.ready,
    );
    assert((e1 + e2 + e3 + e4 + e5 + e6 + e7) + e8 + Seq::<u8>::empty() =~= all);
    lemma_chunk(b, i, e1 + e2 + e3 + e4 + e5 + e6 + e7, e8, Seq::<u8>::empty());
    lemma_dec_enc_i32(
        b,
        i + e1.len() + e2.len() + e3.len() + e4.len() + e5.len() + e6.len() + e7.len(),
        p.restart_count,
    );
}

pub open spec fn wf_version_info(v: VersionInfoV) -> bool {
    &&& wf_str(v.daemon_version)
    &&& wf_str(v.protocol_version)
    &&& wf_opt_str(v.git_sha)
    &&& wf_opt_str(v.build_date)
}

pub open spec fn enc_version_info(v: VersionInfoV) -> Seq<u8> {
    enc_str(v.daemon_version) + enc_str(v.protocol_version) + enc_opt_str(v.git_sha) + enc_opt_str(
        v.build_date,
    )
}

pub open spec fn dec_version_info_at(b: Seq<u8>, i: int) -> Option<(VersionInfoV, int)> {
    match dec_str_at(b, i) {
        Some((daemon_version, i1)) => match dec_str_at(b, i1) {
            Some((protocol_version, i2)) => match dec_opt_str_at(b, i2) {
                Some((git_sha, i3)) => match dec_opt_str_at(b, i3) {
                    Some((build_date, i4)) => Some(
                        (VersionInfoV { daemon_version, protocol_version, git_sha, build_date }, i4),
                    ),
                    None => None,
                },
                None => None,
            },
            None => None,
        },
        None => None,
    }
}

pub proof fn lemma_dec_enc_version_info(b: Seq<u8>, i: int, v: VersionInfoV)
    requires
        wf_version_info(v),
        0 <= i,
        i + enc_version_info(v).len() <= b.len(),
        b.subrange(i, i + enc_version_info(v).len()) == enc_version_info(v),
    ensures
        dec_version_info_at(b, i) == Some((v, i + enc_version_info(v).len())),
{
    let e1 = enc_str(v.daemon_version);
    let e2 = enc_str(v.protocol_version);
    let e3 = enc_opt_str(v.git_sha);
    let e4 = enc_opt_str(v.build_date);
    let all = enc_version_info(v);
    assert(Seq::<u8>::empty() + e1 + (e2 + e3 + e4) =~= all);
    lemma_chunk(b, i, Seq::<u8>::empty(), e1, e2 + e3 + e4);
    lemma_dec_enc_str(b, i, v.daemon_version);
    assert(e1 + e2 + (e3 + e4) =~= all);
    lemma_chunk(b, i, e1, e2, e3 + e4);
    lemma_dec_enc_str(b, i + e1.len(), v.protocol_version);
    assert((e1 + e2) + e3 + e4 =~= all);
    lemma_chunk(b, i, e1 + e2, e3, e4);
    lemma_dec_enc_opt_str(b, i + e1.len() + e2.len(), v.git_sha);
    assert((e1 + e2 + e3) + e4 + Seq::<u8>::empty() =~= all);
    lemma_chunk(b, i, e1 + e2 + e3, e4, Seq::<u8>::empty());
    lemma_dec_enc_opt_str(b, i + e1.len() + e2.len() + e3.len(), v.build_date);
}

pub open spec fn wf_pods_request(p: PodsRequestV) -> bool {
    wf_opt_str(p.cluster) && wf_opt_str(p.namespace)
}

pub open spec fn enc_pods_request(p: PodsRequestV) -> Seq<u8> {
    enc_opt_str(p.cluster) + enc_opt_str(p.namespace) + enc_bool(p.failed_only)
}

pub open spec fn dec_pods_request_at(b: Seq<u8>, i: int) -> Option<(PodsRequestV, int)> {
    match dec_opt_str_at(b, i) {
        Some((cluster, i1)) => match dec_opt_str_at(b, i1) {
            Some((namespace, i2)) => match dec_bool_at(b, i2) {
                Some((failed_only, i3)) => Some(
                    (PodsRequestV { cluster, namespace, failed_only }, i3),
                ),
                None => None,
            },
            None => None,
        },
        None => None,
    }
}

pub proof fn lemma_dec_enc_pods_request(b: Seq<u8>, i: int, p: PodsRequestV)
    requires
        wf_pods_request(p),
        0 <= i,
        i + enc_pods_request(p).len() <= b.len(),
        b.subrange(i, i + enc_pods_request(p).len()) == enc_pods_request(p),
    ensures
        dec_pods_request_at(b, i) == Some((p, i + enc_pods_request(p).len())),
{
    let e1 = enc_opt_str(p.cluster);
    let e2 = enc_opt_str(p.namespace);
    let e3 = enc_bool(p.failed_only);
    let all = enc_pods_request(p);
    assert(Seq::<u8>::empty() + e1 + (e2 + e3) =~= all);
    lemma_chunk(b, i, Seq::<u8>::empty(), e1, e2 + e3);
    lemma_dec_enc_opt_str(b, i, p.cluster);
    assert(e1 + e2 + e3 =~= all);
    lemma_chunk(b, i, e1, e2, e3);
    lemma_dec_enc_opt_str(b, i + e1.len(), p.namespace);
    assert((e1 + e2) + e3 + Seq::<u8>::empty() =~= all);
    lemma_chunk(b, i, e1 + e2, e3, Seq::<u8>::empty());
    lemma_dec_enc_bool(b, i + e1.len() + e2.len(), p.failed_only);
}

pub open spec fn wf_env_request(e: EnvRequestV) -> bool {
    &&& wf_opt_str(e.cluster)
    &&& wf_str(e.namespace)
    &&& wf_str(e.pod)
    &&& wf_opt_str(e.container)
    &&& wf_opt_str(e.filter_regex)
}

pub open spec fn enc_env_request(e: EnvRequestV) -> Seq<u8> {
    enc_opt_str(e.cluster) + enc_str(e.namespace) + enc_str(e.pod) + enc_opt_str(e.container)
        + enc_opt_str(e.filter_regex)
}

pub open spec fn dec_env_request_at(b: Seq<u8>, i: int) -> Option<(EnvRequestV, int)> {
    match dec_opt_str_at(b, i) {
        Some((cluster, i1)) => match dec_str_at(b, i1) {
            Some((namespace, i2)) => match dec_str_at(b, i2) {
                Some((pod, i3)) => match dec_opt_str_at(b, i3) {
                    Some((container, i4)) => match dec_opt_str_at(b, i4) {
                        Some((filter_regex, i5)) => Some(
                            (EnvRequestV { cluster, namespace, pod, container, filter_regex }, i5),
                        ),
                        None => None,
                    },
                    None => None,
                },
                None => None,
            },
            None => None,
        },
        None => None,
    }
}

#[verifier::rlimit(100)]
pub proof fn lemma_dec_enc_env_request(b: Seq<u8>, i: int, e: EnvRequestV)
    requires
        wf_env_request(e),
        0 <= i,
        i + enc_env_request(e).len() <= b.len(),
        b.subrange(i, i + enc_env_request(e).len()) == enc_env_request(e),
    ensures
        dec_env_request_at(b, i) == Some((e, i + enc_env_request(e).len())),
{
    let e1 = enc_opt_str(e.cluster);
    let e2 = enc_str(e.namespace);
    let e3 = enc_str(e.pod);
    let e4 = enc_opt_str(e.container);
    let e5 = enc_opt_str(e.filter_regex);
    let all = enc_env_request(e);
    assert(Seq::<u8>::empty() + e1 + (e2 + e3 + e4 + e5) =~= all);
    lemma_chunk(b, i, Seq::<u8>::empty(), e1, e2 + e3 + e4 + e5);
    lemma_dec_enc_opt_str(b, i, e.cluster);
    assert(e1 + e2 + (e3 + e4 + e5) =~= all);
    lemma_chunk(b, i, e1, e2, e3 + e4 + e5);
    lemma_dec_enc_str(b, i + e1.len(), e.namespace);
    assert((e1 + e2) + e3 + (e4 + e5) =~= all);
    lemma_chunk(b, i, e1 + e2, e3, e4 + e5);
    lemma_dec_enc_str(b, i + e1.len() + e2.len(), e.pod);
    assert((e1 + e2 + e3) + e4 + e5 =~= all);
    lemma_chunk(b, i, e1 + e2 + e3, e4, e5);
    lemma_dec_enc_opt_str(b, i + e1.len() + e2.len() + e3.len(), e.container);
    assert((e1 + e2 + e3 + e4) + e5 + Seq::<u8>::empty() =~= all);
    lemma_chunk(b, i, e1 + e2 + e3 + e4, e5, Seq::<u8>::empty());
    lemma_dec_enc_opt_str(b, i + e1.len() + e2.len() + e3.len() + e4.len(), e.filter_regex);
}

pub open spec fn wf_login_request(l: LoginRequestV) -> bool {
    &&& wf_str(l.name)
    &&& wf_opt_str(l.region)
    &&& wf_str(l.account_id)
    &&& wf_str(l.role_name)
    &&& wf_str(l.access_key_id)
    &&& wf_str(l.secret_access_key)
    &&& wf_str(l.session_token)
}

pub open spec fn enc_login_request(l: LoginRequestV) -> Seq<u8> {
    enc_str(l.name) + enc_opt_str(l.region) + enc_str(l.account_id) + enc_str(l.role_name)
        + enc_str(l.access_key_id) + enc_str(l.secret_access_key) + enc_str(l.session_token)
        + enc_i64(l.expires_at_epoch_ms)
}

pub open spec fn dec_login_request_at(b: Seq<u8>, i: int) -> Option<(LoginRequestV, int)> {
    match dec_str_at(b, i) {
        Some((name, i1)) => match dec_opt_str_at(b, i1) {
            Some((region, i2)) => match dec_str_at(b, i2) {
                Some((account_id, i3)) => match dec_str_at(b, i3) {
                    Some((role_name, i4)) => match dec_str_at(b, i4) {
                        Some((access_key_id, i5)) => match dec_str_at(b, i5) {
                            Some((secret_access_key, i6)) => match dec_str_at(b, i6) {
                                Some((session_token, i7)) => match dec_i64_at(b, i7) {
                                    Some((expires_at_epoch_ms, i8)) => Some(
                                        (
                                            LoginRequestV {
                                                name,
                                                region,
                                                account_id,
                                                role_name,
                                                access_key_id,
                                                secret_access_key,
                                                session_token,
                                                expires_at_epoch_ms,
                                            },
                                            i8,
                                        ),
                                    ),
                                    None => None,
                                },
                                None => None,
                            },
                            None => None,
                        },
                        None => None,
                    },
                    None => None,
                },
                None => None,
            },
            None => None,
        },
        None => None,
    }
}

#[verifier::rlimit(100)]
pub proof fn lemma_dec_enc_login_request(b: Seq<u8>, i: int, l: LoginRequestV)
    requires
        wf_login_request(l),
        0 <= i,
        i + enc_login_request(l).len() <= b.len(),
        b.subrange(i, i + enc_login_request(l).len()) == enc_login_request(l),
    ensures
        dec_login_request_at(b, i) == Some((l, i + enc_login_request(l).len())),
{
    let e1 = enc_str(l.name);
    let e2 = enc_opt_str(l.region);
    let e3 = enc_str(l.account_id);
    let e4 = enc_str(l.role_name);
    let e5 = enc_str(l.access_key_id);
    let e6 = enc_str(l.secret_access_key);
    let e7 = enc_str(l.session_token);
    let e8 = enc_i64(l.expires_at_epoch_ms);
    let all = enc_login_request(l);
    assert(Seq::<u8>::empty() + e1 + (e2 + e3 + e4 + e5 + e6 + e7 + e8) =~= all);
    lemma_chunk(b, i, Seq::<u8>::empty(), e1, e2 + e3 + e4 + e5 + e6 + e7 + e8);
    lemma_dec_enc_str(b, i, l.name);
    assert(e1 + e2 + (e3 + e4 + e5 + e6 + e7 + e8) =~= all);
    lemma_chunk(b, i, e1, e2, e3 + e4 + e5 + e6 + e7 + e8);
    lemma_dec_enc_opt_str(b, i + e1.len(), l.region);
    assert((e1 + e2) + e3 + (e4 + e5 + e6 + e7 + e8) =~= all);
    lemma_chunk(b, i, e1 + e2, e3, e4 + e5 + e6 + e7 + e8);
    lemma_dec_enc_str(b, i + e1.len() + e2.len(), l.account_id);
    assert((e1 + e2 + e3) + e4 + (e5 + e6 + e7 + e8) =~= all);
    lemma_chunk(b, i, e1 + e2 + e3, e4, e5 + e6 + e7 + e8);
    lemma_dec_enc_str(b, i + e1.len() + e2.len() + e3.len(), l.role_name);
    assert((e1 + e2 + e3 + e4) + e5 + (e6 + e7 + e8) =~= all);
    lemma_chunk(b, i, e1 + e2 + e3 + e4, e5, e6 + e7 + e8);
    lemma_dec_enc_str(b, i + e1.len() + e2.len() + e3.len() + e4.len(), l.access_key_id);
    assert((e1 + e2 + e3 + e4 + e5) + e6 + (e7 + e8) =~= all);
    lemma_chunk(b, i, e1 + e2 + e3 + e4 + e5, e6, e7 + e8);
    lemma_dec_enc_str(
        b,
        i + e1.len() + e2.len() + e3.len() + e4.len() + e5.len(),
        l.secret_access_key,
    );
    assert((e1 + e2 + e3 + e4 + e5 + e6) + e7 + e8 =~= all);
    lemma_chunk(b, i, e1 + e2 + e3 + e4 + e5 + e6, e7, e8);
    lemma_dec_enc_str(
        b,
        i + e1.len() + e2.len() + e3.len() + e4.len() + e5.len() + e6.len(),
        l.session_token,
    );
    assert((e1 + e2 + e3 + e4 + e5 + e6 + e7) + e8 + Seq::<u8>::empty() =~= all);
    lemma_chunk(b, i, e1 + e2 + e3 + e4 + e5 + e6 + e7, e8, Seq::<u8>::empty());
    lemma_dec_enc_i64(
        b,
        i + e1.len() + e2.len() + e3.len() + e4.len() + e5.len() + e6.len() + e7.len(),
        l.expires_at_epoch_ms,
    );
}


// ---------------------------------------------------------------------
// The element codecs as spec-function values, for the list machinery.
// ---------------------------------------------------------------------
pub open spec fn pod_summary_enc1() -> spec_fn(PodSummaryV) -> Seq<u8> {
    |p: PodSummaryV| enc_pod_summary(p)
}

pub open spec fn pod_summary_dec1() -> spec_fn(Seq<u8>, int) -> Option<(PodSummaryV, int)> {
    |b: Seq<u8>, i: int| dec_pod_summary_at(b, i)
}

pub open spec fn pod_summary_wf1() -> spec_fn(PodSummaryV) -> bool {
    |p: PodSummaryV| wf_pod_summary(p)
}

pub open spec fn env_entry_enc1() -> spec_fn(EnvEntryV) -> Seq<u8> {
    |e: EnvEntryV| enc_env_entry(e)
}

pub open spec fn env_entry_dec1() -> spec_fn(Seq<u8>, int) -> Option<(EnvEntryV, int)> {
    |b: Seq<u8>, i: int| dec_env_entry_at(b, i)
}

pub open spec fn env_entry_wf1() -> spec_fn(EnvEntryV) -> bool {
    |e: EnvEntryV| wf_env_entry(e)
}

pub proof fn lemma_pod_summary_inverts()
    ensures
        dec_inverts_enc(pod_summary_enc1(), pod_summary_dec1(), pod_summary_wf1()),
{
    assert forall|b: Seq<u8>, i: int, v: PodSummaryV|
        #![trigger pod_summary_dec1()(b, i), pod_summary_enc1()(v)]
        (pod_summary_wf1()(v) && 0 <= i && i + pod_summary_enc1()(v).len() <= b.len()
            && b.subrange(i, i + pod_summary_enc1()(v).len()) == pod_summary_enc1()(v))
        implies pod_summary_dec1()(b, i) == Some::<(PodSummaryV, int)>(
        (v, i + pod_summary_enc1()(v).len()),
    ) by {
        lemma_dec_enc_pod_summary(b, i, v);
    }
}

pub proof fn lemma_env_entry_inverts()
    ensures
        dec_inverts_enc(env_entry_enc1(), env_entry_dec1(), env_entry_wf1()),
{
    assert forall|b: Seq<u8>, i: int, v: EnvEntryV|
        #![trigger env_entry_dec1()(b, i), env_entry_enc1()(v)]
        (env_entry_wf1()(v) && 0 <= i && i + env_entry_enc1()(v).len() <= b.len()
            && b.subrange(i, i + env_entry_enc1()(v).len()) == env_entry_enc1()(v))
        implies env_entry_dec1()(b, i) == Some::<(EnvEntryV, int)>(
        (v, i + env_entry_enc1()(v).len()),
    ) by {
        lemma_dec_enc_env_entry(b, i, v);
    }
}

// ---------------------------------------------------------------------
// Whole messages: a one-byte variant tag, then the payload.
// ---------------------------------------------------------------------
pub open spec fn wf_request(v: RequestV) -> bool {
    match v {
        RequestV::Ping => true,
        RequestV::Pods(p) => wf_pods_request(p),
        RequestV::Env(e) => wf_env_request(e),
        RequestV::Version => true,
        RequestV::Login(l) => wf_login_request(l),
    }
}

pub open spec fn enc_request(v: RequestV) -> Seq<u8> {
    match v {
        RequestV::Ping => seq![0u8],
        RequestV::Pods(p) => seq![1u8] + enc_pods_request(p),
        RequestV::Env(e) => seq![2u8] + enc_env_request(e),
        RequestV::Version => seq![3u8],
        RequestV::Login(l) => seq![4u8] + enc_login_request(l),
    }
}

pub open spec fn dec_request_at(b: Seq<u8>, i: int) -> Option<(RequestV, int)> {
    if 0 <= i && i + 1 <= b.len() {
        let t = b[i];
        if t == 0u8 {
            Some((RequestV::Ping, i + 1))
        } else if t == 1u8 {
            match dec_pods_request_at(b, i + 1) {
                Some((p, j)) => Some((RequestV::Pods(p), j)),
                None => None,
            }
        } else if t == 2u8 {
            match dec_env_request_at(b, i + 1) {
                Some((e, j)) => Some((RequestV::Env(e), j)),
                None => None,
            }
        } else if t == 3u8 {
            Some((RequestV::Version, i + 1))
        } else if t == 4u8 {
            match dec_login_request_at(b, i + 1) {
                Some((l, j)) => Some((RequestV::Login(l), j)),
                None => None,
            }
        } else {
            None
        }
    } else {
        None
    }
}

/// The request a payload holds, if any.  Trailing bytes after the
/// message are tolerated and ignored.
pub open spec fn dec_request(b: Seq<u8>) -> Option<RequestV> {
    match dec_request_at(b, 0) {
        Some((v, _)) => Some(v),
        None => None,
    }
}

pub open spec fn wf_response(v: ResponseV) -> bool {
    match v {
        ResponseV::Pong => true,
        ResponseV::Version(info) => wf_version_info(info),
        ResponseV::Pods { pods } => wf_list(pods, pod_summary_wf1()),
        ResponseV::EnvVars { vars } => wf_list(vars, env_entry_wf1()),
        ResponseV::Error { message } => wf_str(message),
        ResponseV::LoginOk => true,
    }
}

pub open spec fn enc_response(v: ResponseV) -> Seq<u8> {
    match v {
        ResponseV::Pong => seq![0u8],
        ResponseV::Version(info) => seq![1u8] + enc_version_info(info),
        ResponseV::Pods { pods } => seq![2u8] + enc_list(pods, pod_summary_enc1()),
        ResponseV::EnvVars { vars } => seq![3u8] + enc_list(vars, env_entry_enc1()),
        ResponseV::Error { message } => seq![4u8] + enc_str(message),
        ResponseV::LoginOk => seq![5u8],
    }
}

pub open spec fn dec_response_at(b: Seq<u8>, i: int) -> Option<(ResponseV, int)> {
    if 0 <= i && i + 1 <= b.len() {
        let t = b[i];
        if t == 0u8 {
            Some((ResponseV::Pong, i + 1))
        } else if t == 1u8 {
            match dec_version_info_at(b, i + 1) {
                Some((info, j)) => Some((ResponseV::Version(info), j)),
                None => None,
            }
        } else if t == 2u8 {
            match dec_list_at(b, i + 1, pod_summary_dec1()) {
                Some((pods, j)) => Some((ResponseV::Pods { pods }, j)),
                None => None,
            }
        } else if t == 3u8 {
            match dec_list_at(b, i + 1, env_entry_dec1()) {
                Some((vars, j)) => Some((ResponseV::EnvVars { vars }, j)),
                None => None,
            }
        } else if t == 4u8 {
            match dec_str_at(b, i + 1) {
                Some((message, j)) => Some((ResponseV::Error { message }, j)),
                None => None,
            }
        } else if t == 5u8 {
            Some((ResponseV::LoginOk, i + 1))
        } else {
            None
        }
    } else {
        None
    }
}

/// The response a payload holds, if any.
pub open spec fn dec_response(b: Seq<u8>) -> Option<ResponseV> {
    match dec_response_at(b, 0) {
        Some((v, _)) => Some(v),
        None => None,
    }
}

// ---------------------------------------------------------------------
// Round trip: decoding an encoding yields the encoded message, for
// every variant.
// ---------------------------------------------------------------------
/// Encoding a request and decoding the bytes gives the request back.
pub proof fn lemma_request_round_trip(v: RequestV)
    requires
        wf_request(v),
    ensures
        dec_request_at(enc_request(v), 0) == Some((v, enc_request(v).len() as int)),
        dec_request(enc_request(v)) == Some(v),
{
    let b = enc_request(v);
    match v {
        RequestV::Ping => {
            assert(b[0] == 0u8);
        },
        RequestV::Pods(p) => {
            assert(b[0] == 1u8);
            assert(b.subrange(0, b.len() as int) =~= b);
            assert(seq![1u8] + enc_pods_request(p) + Seq::<u8>::empty() =~= b);
            lemma_chunk(b, 0, seq![1u8], enc_pods_request(p), Seq::<u8>::empty());
            lemma_dec_enc_pods_request(b, 1, p);
        },
        RequestV::Env(e) => {
            assert(b[0] == 2u8);
            assert(b.subrange(0, b.len() as int) =~= b);
            assert(seq![2u8] + enc_env_request(e) + Seq::<u8>::empty() =~= b);
            lemma_chunk(b, 0, seq![2u8], enc_env_request(e), Seq::<u8>::empty());
            lemma_dec_enc_env_request(b, 1, e);
        },
        RequestV::Version => {
            assert(b[0] == 3u8);
        },
        RequestV::Login(l) => {
            assert(b[0] == 4u8);
            assert(b.subrange(0, b.len() as int) =~= b);
            assert(seq![4u8] + enc_login_request(l) + Seq::<u8>::empty() =~= b);
            lemma_chunk(b, 0, seq![4u8], enc_login_request(l), Seq::<u8>::empty());
            lemma_dec_enc_login_request(b, 1, l);
        },
    }
}

/// Encoding a response and decoding the bytes gives the response back.
pub proof fn lemma_response_round_trip(v: ResponseV)
    requires
        wf_response(v),
    ensures
        dec_response_at(enc_response(v), 0) == Some((v, enc_response(v).len() as int)),
        dec_response(enc_response(v)) == Some(v),
{
    let b = enc_response(v);
    match v {
        ResponseV::Pong => {
            assert(b[0] == 0u8);
        },
        ResponseV::Version(info) => {
            assert(b[0] == 1u8);
            assert(b.subrange(0, b.len() as int) =~= b);
            assert(seq![1u8] + enc_version_info(info) + Seq::<u8>::empty() =~= b);
            lemma_chunk(b, 0, seq![1u8], enc_version_info(info), Seq::<u8>::empty());
            lemma_dec_enc_version_info(b, 1, info);
        },
        ResponseV::Pods { pods } => {
            assert(b[0] == 2u8);
            assert(b.subrange(0, b.len() as int) =~= b);
            let body = enc_list(pods, pod_summary_enc1());
            assert(seq![2u8] + body + Seq::<u8>::empty() =~= b);
            lemma_chunk(b, 0, seq![2u8], body, Seq::<u8>::empty());
            lemma_pod_summary_inverts();
            lemma_dec_enc_list(b, 1, pods, pod_summary_enc1(), pod_summary_dec1(), pod_summary_wf1());
        },
        ResponseV::EnvVars { vars } => {
            assert(b[0] == 3u8);
            assert(b.subrange(0, b.len() as int) =~= b);
            let body = enc_list(vars, env_entry_enc1());
            assert(seq![3u8] + body + Seq::<u8>::empty() =~= b);
            lemma_chunk(b, 0, seq![3u8], body, Seq::<u8>::empty());
            lemma_env_entry_inverts();
            lemma_dec_enc_list(b, 1, vars, env_entry_enc1(), env_entry_dec1(), env_entry_wf1());
        },
        ResponseV::Error { message } => {
            assert(b[0] == 4u8);
            assert(b.subrange(0, b.len() as int) =~= b);
            assert(seq![4u8] + enc_str(message) + Seq::<u8>::empty() =~= b);
            lemma_chunk(b, 0, seq![4u8], enc_str(message), Seq::<u8>::empty());
            lemma_dec_enc_str(b, 1, message);
        },
        ResponseV::LoginOk => {
            assert(b[0] == 5u8);
        },
    }
}


// ---------------------------------------------------------------------
// Executable encoders for structured values and whole messages.
// ---------------------------------------------------------------------
fn w_env_entry(out: &mut Vec<u8>, e: &EnvEntry) -> (r: Result<(), WireError>)
    ensures
        match r {
            Ok(_) => wf_env_entry(e@) && final(out)@ == old(out)@ + enc_env_entry(e@),
            Err(er) => !wf_env_entry(e@) && er matches WireError::Encode { .. },
        },
{
    match w_str(out, e.name.as_str()) {
        Ok(_) => {},
        Err(er) => {
            return Err(er);
        },
    }
    match w_opt_str(out, &e.value) {
        Ok(_) => {},
        Err(er) => {
            return Err(er);
        },
    }
    assert(out@ =~= old(out)@ + enc_env_entry(e@));
    Ok(())
}

#[verifier::rlimit(100)]
fn w_pod_summary(out: &mut Vec<u8>, p: &PodSummary) -> (r: Result<(), WireError>)
    ensures
        match r {
            Ok(_) => wf_pod_summary(p@) && final(out)@ == old(out)@ + enc_pod_summary(p@),
            Err(er) => !wf_pod_summary(p@) && er matches WireError::Encode { .. },
        },
{
    match w_str(out, p.cluster.as_str()) {
        Ok(_) => {},
        Err(er) => {
            return Err(er);
        },
    }
    match w_str(out, p.namespace.as_str()) {
        Ok(_) => {},
        Err(er) => {
            return Err(er);
        },
    }
    match w_str(out, p.name.as_str()) {
        Ok(_) => {},
        Err(er) => {
            return Err(er);
        },
    }
    match w_opt_str(out, &p.phase) {
        Ok(_) => {},
        Err(er) => {
            return Err(er);
        },
    }
    match w_opt_str(out, &p.reason) {
        Ok(_) => {},
        Err(er) => {
            return Err(er);
        },
    }
    match w_opt_str(out, &p.message) {
        Ok(_) => {},
        Err(er) => {
            return Err(er);
        },
    }
    w_bool(out, p.ready);
    w_i32(out, p.restart_count);
    assert(out@ =~= old(out)@ + enc_pod_summary(p@));
    Ok(())
}

fn w_version_info(out: &mut Vec<u8>, v: &VersionInfo) -> (r: Result<(), WireError>)
    ensures
        match r {
            Ok(_) => wf_version_info(v@) && final(out)@ == old(out)@ + enc_version_info(v@),
            Err(er) => !wf_version_info(v@) && er matches WireError::Encode { .. },
        },
{
    match w_str(out, v.daemon_version.as_str()) {
        Ok(_) => {},
        Err(er) => {
            return Err(er);
        },
    }
    match w_str(out, v.protocol_version.as_str()) {
        Ok(_) => {},
        Err(er) => {
            return Err(er);
        },
    }
    match w_opt_str(out, &v.git_sha) {
        Ok(_) => {},
        Err(er) => {
            return Err(er);
        },
    }
    match w_opt_str(out, &v.build_date) {
        Ok(_) => {},
        Err(er) => {
            return Err(er);
        },
    }
    assert(out@ =~= old(out)@ + enc_version_info(v@));
    Ok(())
}

fn w_pods_request(out: &mut Vec<u8>, p: &PodsRequest) -> (r: Result<(), WireError>)
    ensures
        match r {
            Ok(_) => wf_pods_request(p@) && final(out)@ == old(out)@ + enc_pods_request(p@),
            Err(er) => !wf_pods_request(p@) && er matches WireError::Encode { .. },
        },
{
    match w_opt_str(out, &p.cluster) {
        Ok(_) => {},
        Err(er) => {
            return Err(er);
        },
    }
    match w_opt_str(out, &p.namespace) {
        Ok(_) => {},
        Err(er) => {
            return Err(er);
        },
    }
    w_bool(out, p.failed_only);
    assert(out@ =~= old(out)@ + enc_pods_request(p@));
    Ok(())
}

fn w_env_request(out: &mut Vec<u8>, e: &EnvRequest) -> (r: Result<(), WireError>)
    ensures
        match r {
            Ok(_) => wf_env_request(e@) && final(out)@ == old(out)@ + enc_env_request(e@),
            Err(er) => !wf_env_request(e@) && er matches WireError::Encode { .. },
        },
{
    match w_opt_str(out, &e.cluster) {
        Ok(_) => {},
        Err(er) => {
            return Err(er);
        },
    }
    match w_str(out, e.namespace.as_str()) {
        Ok(_) => {},
        Err(er) => {
            return Err(er);
        },
    }
    match w_str(out, e.pod.as_str()) {
        Ok(_) => {},
        Err(er) => {
            return Err(er);
        },
    }
    match w_opt_str(out, &e.container) {
        Ok(_) => {},
        Err(er) => {
            return Err(er);
        },
    }
    match w_opt_str(out, &e.filter_regex) {
        Ok(_) => {},
        Err(er) => {
            return Err(er);
        },
    }
    assert(out@ =~= old(out)@ + enc_env_request(e@));
    Ok(())
}

#[verifier::rlimit(100)]
fn w_login_request(out: &mut Vec<u8>, l: &LoginRequest) -> (r: Result<(), WireError>)
    ensures
        match r {
            Ok(_) => wf_login_request(l@) && final(out)@ == old(out)@ + enc_login_request(l@),
            Err(er) => !wf_login_request(l@) && er matches WireError::Encode { .. },
        },
{
    match w_str(out, l.name.as_str()) {
        Ok(_) => {},
        Err(er) => {
            return Err(er);
        },
    }
    match w_opt_str(out, &l.region) {
        Ok(_) => {},
        Err(er) => {
            return Err(er);
        },
    }
    match w_str(out, l.account_id.as_str()) {
        Ok(_) => {},
        Err(er) => {
            return Err(er);
        },
    }
    match w_str(out, l.role_name.as_str()) {
        Ok(_) => {},
        Err(er) => {
            return Err(er);
        },
    }
    match w_str(out, l.access_key_id.as_str()) {
        Ok(_) => {},
        Err(er) => {
            return Err(er);
        },
    }
    match w_str(out, l.secret_access_key.as_str()) {
        Ok(_) => {},
        Err(er) => {
            return Err(er);
        },
    }
    match w_str(out, l.session_token.as_str()) {
        Ok(_) => {},
        Err(er) => {
            return Err(er);
        },
    }
    w_i64(out, l.expires_at_epoch_ms);
    assert(out@ =~= old(out)@ + enc_login_request(l@));
    Ok(())
}

fn w_pod_list(out: &mut Vec<u8>, pods: &Vec<PodSummary>) -> (r: Result<(), WireError>)
    ensures
        match r {
            Ok(_) => {
                &&& wf_list(pods@.map_values(|p: PodSummary| p@), pod_summary_wf1())
                &&& final(out)@ == old(out)@ + enc_list(
                    pods@.map_values(|p: PodSummary| p@),
                    pod_summary_enc1(),
                )
            },
            Err(er) => {
                &&& !wf_list(pods@.map_values(|p: PodSummary| p@), pod_summary_wf1())
                &&& er matches WireError::Encode { .. }
            },
        },
{
    let ghost views = pods@.map_values(|p: PodSummary| p@);
    if pods.len() > u32::MAX as usize {
        return Err(WireError::encode_too_long());
    }
    w_u32(out, pods.len() as u32);
    let mut k: usize = 0;
    while k < pods.len()
        invariant
            k <= pods@.len(),
            pods@.len() <= 0xFFFF_FFFF,
            views == pods@.map_values(|p: PodSummary| p@),
            out@ == old(out)@ + enc_u32(pods@.len() as u32) + enc_items(
                views.take(k as int),
                pod_summary_enc1(),
            ),
            forall|t: int| 0 <= t < k ==> pod_summary_wf1()(#[trigger] views[t]),
        decreases pods@.len() - k,
    {
        match w_pod_summary(out, &pods[k]) {
            Ok(_) => {
                proof {
                    lemma_enc_items_snoc(views.take(k as int), views[k as int], pod_summary_enc1());
                    assert(views.take(k as int).push(views[k as int]) =~= views.take(k as int + 1));
                }
                k = k + 1;
            },
            Err(er) => {
                assert(!pod_summary_wf1()(views[k as int]));
                return Err(er);
            },
        }
    }
    proof {
        assert(views.take(k as int) =~= views);
        assert(out@ =~= old(out)@ + enc_list(views, pod_summary_enc1()));
    }
    Ok(())
}

fn w_env_list(out: &mut Vec<u8>, vars: &Vec<EnvEntry>) -> (r: Result<(), WireError>)
    ensures
        match r {
            Ok(_) => {
                &&& wf_list(vars@.map_values(|e: EnvEntry| e@), env_entry_wf1())
                &&& final(out)@ == old(out)@ + enc_list(
                    vars@.map_values(|e: EnvEntry| e@),
                    env_entry_enc1(),
                )
            },
            Err(er) => {
                &&& !wf_list(vars@.map_values(|e: EnvEntry| e@), env_entry_wf1())
                &&& er matches WireError::Encode { .. }
            },
        },
{
    let ghost views = vars@.map_values(|e: EnvEntry| e@);
    if vars.len() > u32::MAX as usize {
        return Err(WireError::encode_too_long());
    }
    w_u32(out, vars.len() as u32);
    let mut k: usize = 0;
    while k < vars.len()
        invariant
            k <= vars@.len(),
            vars@.len() <= 0xFFFF_FFFF,
            views == vars@.map_values(|e: EnvEntry| e@),
            out@ == old(out)@ + enc_u32(vars@.len() as u32) + enc_items(
                views.take(k as int),
                env_entry_enc1(),
            ),
            forall|t: int| 0 <= t < k ==> env_entry_wf1()(#[trigger] views[t]),
        decreases vars@.len() - k,
    {
        match w_env_entry(out, &vars[k]) {
            Ok(_) => {
                proof {
                    lemma_enc_items_snoc(views.take(k as int), views[k as int], env_entry_enc1());
                    assert(views.take(k as int).push(views[k as int]) =~= views.take(k as int + 1));
                }
                k = k + 1;
            },
            Err(er) => {
                assert(!env_entry_wf1()(views[k as int]));
                return Err(er);
            },
        }
    }
    proof {
        assert(views.take(k as int) =~= views);
        assert(out@ =~= old(out)@ + enc_list(views, env_entry_enc1()));
    }
    Ok(())
}

/// Encodes a request into its wire payload.  Fails exactly when some
/// string in the request is too long for the format.
pub fn encode_request(req: &Request) -> (r: Result<Vec<u8>, WireError>)
    ensures
        match r {
            Ok(buf) => wf_request(req@) && buf@ == enc_request(req@),
            Err(er) => !wf_request(req@) && er matches WireError::Encode { .. },
        },
{
    let mut out: Vec<u8> = Vec::new();
    match req {
        Request::Ping => {
            out.push(0u8);
            assert(out@ =~= enc_request(req@));
            Ok(out)
        },
        Request::Pods(p) => {
            out.push(1u8);
            match w_pods_request(&mut out, p) {
                Ok(_) => {
                    assert(out@ =~= enc_request(req@));
                    Ok(out)
                },
                Err(er) => Err(er),
            }
        },
        Request::Env(e) => {
            out.push(2u8);
            match w_env_request(&mut out, e) {
                Ok(_) => {
                    assert(out@ =~= enc_request(req@));
                    Ok(out)
                },
                Err(er) => Err(er),
            }
        },
        Request::Version => {
            out.push(3u8);
            assert(out@ =~= enc_request(req@));
            Ok(out)
        },
        Request::Login(l) => {
            out.push(4u8);
            match w_login_request(&mut out, l) {
                Ok(_) => {
                    assert(out@ =~= enc_request(req@));
                    Ok(out)
                },
                Err(er) => Err(er),
            }
        },
    }
}

/// Encodes a response into its wire payload.  Fails exactly when some
/// string or list in the response is too long for the format.
pub fn encode_response(resp: &Response) -> (r: Result<Vec<u8>, WireError>)
    ensures
        match r {
            Ok(buf) => wf_response(resp@) && buf@ == enc_response(resp@),
            Err(er) => !wf_response(resp@) && er matches WireError::Encode { .. },
        },
{
    let mut out: Vec<u8> = Vec::new();
    match resp {
        Response::Pong => {
            out.push(0u8);
            assert(out@ =~= enc_response(resp@));
            Ok(out)
        },
        Response::Version(info) => {
            out.push(1u8);
            match w_version_info(&mut out, info) {
                Ok(_) => {
                    assert(out@ =~= enc_response(resp@));
                    Ok(out)
                },
                Err(er) => Err(er),
            }
        },
        Response::Pods { pods } => {
            out.push(2u8);
            match w_pod_list(&mut out, pods) {
                Ok(_) => {
                    assert(out@ =~= enc_response(resp@));
                    Ok(out)
                },
                Err(er) => Err(er),
            }
        },
        Response::EnvVars { vars } => {
            out.push(3u8);
            match w_env_list(&mut out, vars) {
                Ok(_) => {
                    assert(out@ =~= enc_response(resp@));
                    Ok(out)
                },
                Err(er) => Err(er),
            }
        },
        Response::Error { message } => {
            out.push(4u8);
            match w_str(&mut out, message.as_str()) {
                Ok(_) => {
                    assert(out@ =~= enc_response(resp@));
                    Ok(out)
                },
                Err(er) => Err(er),
            }
        },
        Response::LoginOk => {
            out.push(5u8);
            assert(out@ =~= enc_response(resp@));
            Ok(out)
        },
    }
}


// ---------------------------------------------------------------------
// Executable decoders for structured values and whole messages.
// ---------------------------------------------------------------------
fn r_env_entry(b: &[u8], pos: &mut usize) -> (r: Result<EnvEntry, WireError>)
    requires
        *old(pos) <= b@.len(),
    ensures
        match r {
            Ok(e) => {
                &&& dec_env_entry_at(b@, *old(pos) as int) == Some((e@, *final(pos) as int))
                &&& *final(pos) <= b@.len()
            },
            Err(_) => dec_env_entry_at(b@, *old(pos) as int) is None,
        },
{
    let name = match r_str(b, pos) {
        Ok(s) => s,
        Err(er) => {
            return Err(er);
        },
    };
    let value = match r_opt_str(b, pos) {
        Ok(o) => o,
        Err(er) => {
            return Err(er);
        },
    };
    Ok(EnvEntry { name, value })
}

#[verifier::rlimit(100)]
fn r_pod_summary(b: &[u8], pos: &mut usize) -> (r: Result<PodSummary, WireError>)
    requires
        *old(pos) <= b@.len(),
    ensures
        match r {
            Ok(p) => {
                &&& dec_pod_summary_at(b@, *old(pos) as int) == Some((p@, *final(pos) as int))
                &&& *final(pos) <= b@.len()
            },
            Err(_) => dec_pod_summary_at(b@, *old(pos) as int) is None,
        },
{
    let cluster = match r_str(b, pos) {
        Ok(s) => s,
        Err(er) => {
            return Err(er);
        },
    };
    let namespace = match r_str(b, pos) {
        Ok(s) => s,
        Err(er) => {
            return Err(er);
        },
    };
    let name = match r_str(b, pos) {
        Ok(s) => s,
        Err(er) => {
            return Err(er);
        },
    };
    let phase = match r_opt_str(b, pos) {
        Ok(o) => o,
        Err(er) => {
            return Err(er);
        },
    };
    let reason = match r_opt_str(b, pos) {
        Ok(o) => o,
        Err(er) => {
            return Err(er);
        },
    };
    let message = match r_opt_str(b, pos) {
        Ok(o) => o,
        Err(er) => {
            return Err(er);
        },
    };
    let ready = match r_bool(b, pos) {
        Ok(x) => x,
        Err(er) => {
            return Err(er);
        },
    };
    let restart_count = match r_i32(b, pos) {
        Ok(x) => x,
        Err(er) => {
            return Err(er);
        },
    };
    Ok(PodSummary { cluster, namespace, name, phase, reason, message, ready, restart_count })
}

fn r_version_info(b: &[u8], pos: &mut usize) -> (r: Result<VersionInfo, WireError>)
    requires
        *old(pos) <= b@.len(),
    ensures
        match r {
            Ok(v) => {
                &&& dec_version_info_at(b@, *old(pos) as int) == Some((v@, *final(pos) as int))
                &&& *final(pos) <= b@.len()
            },
            Err(_) => dec_version_info_at(b@, *old(pos) as int) is None,
        },
{
    let daemon_version = match r_str(b, pos) {
        Ok(s) => s,
        Err(er) => {
            return Err(er);
        },
    };
    let protocol_version = match r_str(b, pos) {
        Ok(s) => s,
        Err(er) => {
            return Err(er);
        },
    };
    let git_sha = match r_opt_str(b, pos) {
        Ok(o) => o,
        Err(er) => {
            return Err(er);
        },
    };
    let build_date = match r_opt_str(b, pos) {
        Ok(o) => o,
        Err(er) => {
            return Err(er);
        },
    };
    Ok(VersionInfo { daemon_version, protocol_version, git_sha, build_date })
}

fn r_pods_request(b: &[u8], pos: &mut usize) -> (r: Result<PodsRequest, WireError>)
    requires
        *old(pos) <= b@.len(),
    ensures
        match r {
            Ok(p) => {
                &&& dec_pods_request_at(b@, *old(pos) as int) == Some((p@, *final(pos) as int))
                &&& *final(pos) <= b@.len()
            },
            Err(_) => dec_pods_request_at(b@, *old(pos) as int) is None,
        },
{
    let cluster = match r_opt_str(b, pos) {
        Ok(o) => o,
        Err(er) => {
            return Err(er);
        },
    };
    let namespace = match r_opt_str(b, pos) {
        Ok(o) => o,
        Err(er) => {
            return Err(er);
        },
    };
    let failed_only = match r_bool(b, pos) {
        Ok(x) => x,
        Err(er) => {
            return Err(er);
        },
    };
    Ok(PodsRequest { cluster, namespace, failed_only })
}

fn r_env_request(b: &[u8], pos: &mut usize) -> (r: Result<EnvRequest, WireError>)
    requires
        *old(pos) <= b@.len(),
    ensures
        match r {
            Ok(e) => {
                &&& dec_env_request_at(b@, *old(pos) as int) == Some((e@, *final(pos) as int))
                &&& *final(pos) <= b@.len()
            },
            Err(_) => dec_env_request_at(b@, *old(pos) as int) is None,
        },
{
    let cluster = match r_opt_str(b, pos) {
        Ok(o) => o,
        Err(er) => {
            return Err(er);
        },
    };
    let namespace = match r_str(b, pos) {
        Ok(s) => s,
        Err(er) => {
            return Err(er);
        },
    };
    let pod = match r_str(b, pos) {
        Ok(s) => s,
        Err(er) => {
            return Err(er);
        },
    };
    let container = match r_opt_str(b, pos) {
        Ok(o) => o,
        Err(er) => {
            return Err(er);
        },
    };
    let filter_regex = match r_opt_str(b, pos) {
        Ok(o) => o,
        Err(er) => {
            return Err(er);
        },
    };
    Ok(EnvRequest { cluster, namespace, pod, container, filter_regex })
}

#[verifier::rlimit(100)]
fn r_login_request(b: &[u8], pos: &mut usize) -> (r: Result<LoginRequest, WireError>)
    requires
        *old(pos) <= b@.len(),
    ensures
        match r {
            Ok(l) => {
                &&& dec_login_request_at(b@, *old(pos) as int) == Some((l@, *final(pos) as int))
                &&& *final(pos) <= b@.len()
            },
            Err(_) => dec_login_request_at(b@, *old(pos) as int) is None,
        },
{
    let name = match r_str(b, pos) {
        Ok(s) => s,
        Err(er) => {
            return Err(er);
        },
    };
    let region = match r_opt_str(b, pos) {
        Ok(o) => o,
        Err(er) => {
            return Err(er);
        },
    };
    let account_id = match r_str(b, pos) {
        Ok(s) => s,
        Err(er) => {
            return Err(er);
        },
    };
    let role_name = match r_str(b, pos) {
        Ok(s) => s,
        Err(er) => {
            return Err(er);
        },
    };
    let access_key_id = match r_str(b, pos) {
        Ok(s) => s,
        Err(er) => {
            return Err(er);
        },
    };
    let secret_access_key = match r_str(b, pos) {
        Ok(s) => s,
        Err(er) => {
            return Err(er);
        },
    };
    let session_token = match r_str(b, pos) {
        Ok(s) => s,
        Err(er) => {
            return Err(er);
        },
    };
    let expires_at_epoch_ms = match r_i64(b, pos) {
        Ok(x) => x,
        Err(er) => {
            return Err(er);
        },
    };
    Ok(
        LoginRequest {
            name,
            region,
            account_id,
            role_name,
            access_key_id,
            secret_access_key,
            session_token,
            expires_at_epoch_ms,
        },
    )
}

fn r_pod_list(b: &[u8], pos: &mut usize) -> (r: Result<Vec<PodSummary>, WireError>)
    requires
        *old(pos) <= b@.len(),
    ensures
        match r {
            Ok(v) => {
                &&& dec_list_at(b@, *old(pos) as int, pod_summary_dec1()) == Some(
                    (v@.map_values(|p: PodSummary| p@), *final(pos) as int),
                )
                &&& *final(pos) <= b@.len()
            },
            Err(_) => dec_list_at(b@, *old(pos) as int, pod_summary_dec1()) is None,
        },
{
    let n = match r_u32(b, pos) {
        Ok(x) => x,
        Err(er) => {
            return Err(er);
        },
    };
    let ghost p1: int = *pos as int;
    let mut acc: Vec<PodSummary> = Vec::new();
    let mut k: u32 = 0;
    assert(acc@.map_values(|p: PodSummary| p@) =~= Seq::<PodSummaryV>::empty());
    while k < n
        invariant
            *pos <= b@.len(),
            k <= n,
            acc@.len() == k,
            dec_u32_at(b@, *old(pos) as int) == Some((n, p1)),
            dec_items_at(b@, p1, n as nat, pod_summary_dec1()) == (match dec_items_at(
                b@,
                *pos as int,
                (n - k) as nat,
                pod_summary_dec1(),
            ) {
                Some((s, j)) => Some((acc@.map_values(|p: PodSummary| p@) + s, j)),
                None => None::<(Seq<PodSummaryV>, int)>,
            }),
        decreases n - k,
    {
        let ghost views = acc@.map_values(|p: PodSummary| p@);
        let ghost p_before: int = *pos as int;
        let ghost m: nat = (n - k) as nat;
        match r_pod_summary(b, pos) {
            Ok(p) => {
                proof {
                    assert(pod_summary_dec1()(b@, p_before) == dec_pod_summary_at(b@, p_before));
                    assert(dec_items_at(b@, p_before, m, pod_summary_dec1()) == (match dec_items_at(
                        b@,
                        *pos as int,
                        (m - 1) as nat,
                        pod_summary_dec1(),
                    ) {
                        Some((s, j)) => Some::<(Seq<PodSummaryV>, int)>((seq![p@] + s, j)),
                        None => None::<(Seq<PodSummaryV>, int)>,
                    }));
                }
                acc.push(p);
                k = k + 1;
                proof {
                    assert(acc@.map_values(|q: PodSummary| q@) =~= views.push(p@));
                    match dec_items_at(b@, *pos as int, (n - k) as nat, pod_summary_dec1()) {
                        Some((s, j)) => {
                            assert(views + (seq![p@] + s) =~= views.push(p@) + s);
                        },
                        None => {},
                    }
                }
            },
            Err(er) => {
                proof {
                    assert(pod_summary_dec1()(b@, p_before) == dec_pod_summary_at(b@, p_before));
                    assert(dec_items_at(b@, p_before, m, pod_summary_dec1()) is None);
                }
                return Err(er);
            },
        }
    }
    proof {
        assert(dec_items_at(b@, *pos as int, 0, pod_summary_dec1()) == Some(
            (Seq::<PodSummaryV>::empty(), *pos as int),
        ));
        assert(acc@.map_values(|p: PodSummary| p@) + Seq::<PodSummaryV>::empty()
            =~= acc@.map_values(|p: PodSummary| p@));
    }
    Ok(acc)
}

fn r_env_list(b: &[u8], pos: &mut usize) -> (r: Result<Vec<EnvEntry>, WireError>)
    requires
        *old(pos) <= b@.len(),
    ensures
        match r {
            Ok(v) => {
                &&& dec_list_at(b@, *old(pos) as int, env_entry_dec1()) == Some(
                    (v@.map_values(|e: EnvEntry| e@), *final(pos) as int),
                )
                &&& *final(pos) <= b@.len()
            },
            Err(_) => dec_list_at(b@, *old(pos) as int, env_entry_dec1()) is None,
        },
{
    let n = match r_u32(b, pos) {
        Ok(x) => x,
        Err(er) => {
            return Err(er);
        },
    };
    let ghost p1: int = *pos as int;
    let mut acc: Vec<EnvEntry> = Vec::new();
    let mut k: u32 = 0;
    assert(acc@.map_values(|e: EnvEntry| e@) =~= Seq::<EnvEntryV>::empty());
    while k < n
        invariant
            *pos <= b@.len(),
            k <= n,
            acc@.len() == k,
            dec_u32_at(b@, *old(pos) as int) == Some((n, p1)),
            dec_items_at(b@, p1, n as nat, env_entry_dec1()) == (match dec_items_at(
                b@,
                *pos as int,
                (n - k) as nat,
                env_entry_dec1(),
            ) {
                Some((s, j)) => Some((acc@.map_values(|e: EnvEntry| e@) + s, j)),
                None => None::<(Seq<EnvEntryV>, int)>,
            }),
        decreases n - k,
    {
        let ghost views = acc@.map_values(|e: EnvEntry| e@);
        let ghost p_before: int = *pos as int;
        let ghost m: nat = (n - k) as nat;
        match r_env_entry(b, pos) {
            Ok(e) => {
                proof {
                    assert(env_entry_dec1()(b@, p_before) == dec_env_entry_at(b@, p_before));
                    assert(dec_items_at(b@, p_before, m, env_entry_dec1()) == (match dec_items_at(
                        b@,
                        *pos as int,
                        (m - 1) as nat,
                        env_entry_dec1(),
                    ) {
                        Some((s, j)) => Some::<(Seq<EnvEntryV>, int)>((seq![e@] + s, j)),
                        None => None::<(Seq<EnvEntryV>, int)>,
                    }));
                }
                acc.push(e);
                k = k + 1;
                proof {
                    assert(acc@.map_values(|q: EnvEntry| q@) =~= views.push(e@));
                    match dec_items_at(b@, *pos as int, (n - k) as nat, env_entry_dec1()) {
                        Some((s, j)) => {
                            assert(views + (seq![e@] + s) =~= views.push(e@) + s);
                        },
                        None => {},
                    }
                }
            },
            Err(er) => {
                proof {
                    assert(env_entry_dec1()(b@, p_before) == dec_env_entry_at(b@, p_before));
                    assert(dec_items_at(b@, p_before, m, env_entry_dec1()) is None);
                }
                return Err(er);
            },
        }
    }
    proof {
        assert(dec_items_at(b@, *pos as int, 0, env_entry_dec1()) == Some(
            (Seq::<EnvEntryV>::empty(), *pos as int),
        ));
        assert(acc@.map_values(|e: EnvEntry| e@) + Seq::<EnvEntryV>::empty() =~= acc@.map_values(
            |e: EnvEntry| e@,
        ));
    }
    Ok(acc)
}

/// Decodes a request out of a frame payload.  Fails exactly when the
/// payload does not hold a request.
pub fn decode_request(b: &[u8]) -> (r: Result<Request, WireError>)
    ensures
        match r {
            Ok(m) => dec_request(b@) == Some(m@),
            Err(_) => dec_request(b@) is None,
        },
{
    if b.len() < 1 {
        return Err(WireError::decode_truncated());
    }
    let t = b[0];
    let mut pos: usize = 1;
    if t == 0 {
        Ok(Request::Ping)
    } else if t == 1 {
        match r_pods_request(b, &mut pos) {
            Ok(p) => Ok(Request::Pods(p)),
            Err(er) => Err(er),
        }
    } else if t == 2 {
        match r_env_request(b, &mut pos) {
            Ok(e) => Ok(Request::Env(e)),
            Err(er) => Err(er),
        }
    } else if t == 3 {
        Ok(Request::Version)
    } else if t == 4 {
        match r_login_request(b, &mut pos) {
            Ok(l) => Ok(Request::Login(l)),
            Err(er) => Err(er),
        }
    } else {
        Err(WireError::decode_malformed())
    }
}

/// Decodes a response out of a frame payload.  Fails exactly when the
/// payload does not hold a response.
pub fn decode_response(b: &[u8]) -> (r: Result<Response, WireError>)
    ensures
        match r {
            Ok(m) => dec_response(b@) == Some(m@),
            Err(_) => dec_response(b@) is None,
        },
{
    if b.len() < 1 {
        return Err(WireError::decode_truncated());
    }
    let t = b[0];
    let mut pos: usize = 1;
    if t == 0 {
        Ok(Response::Pong)
    } else if t == 1 {
        match r_version_info(b, &mut pos) {
            Ok(info) => Ok(Response::Version(info)),
            Err(er) => Err(er),
        }
    } else if t == 2 {
        match r_pod_list(b, &mut pos) {
            Ok(pods) => Ok(Response::Pods { pods }),
            Err(er) => Err(er),
        }
    } else if t == 3 {
        match r_env_list(b, &mut pos) {
            Ok(vars) => Ok(Response::EnvVars { vars }),
            Err(er) => Err(er),
        }
    } else if t == 4 {
        match r_str(b, &mut pos) {
            Ok(message) => Ok(Response::Error { message }),
            Err(er) => Err(er),
        }
    } else if t == 5 {
        Ok(Response::LoginOk)
    } else {
        Err(WireError::decode_malformed())
    }
}

} // verus!

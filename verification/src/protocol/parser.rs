//! Incremental RESP parsing: a specification-level parser over byte
//! sequences, the verified executable parser, and the laws that tie parsing
//! to encoding (round trip, prefix stability, exact consumption).

use crate::numbers::{
    dec_int, lemma_digits_val_nonneg, parse_i64, signed_val, valid_i64,
};
use crate::protocol::redis_serialization_protocol::{
    crlf, crlf_free, frame_model, frame_models, spec_encode, spec_encode_seq, wf_frame, FrameModel,
    RedisType,
};
use vstd::prelude::*;
use vstd::slice::{slice_subrange, slice_to_vec};
use vstd::string::*;

verus! {

/// Position of the first carriage-return/line-feed pair at or after `from`.
pub open spec fn find_crlf(s: Seq<u8>, from: int) -> Option<int>
    decreases s.len() - from,
{
    if from + 1 >= s.len() {
        None
    } else if s[from] == 13 && s[from + 1] == 10 {
        Some(from)
    } else {
        find_crlf(s, from + 1)
    }
}

pub proof fn lemma_find_crlf_some(s: Seq<u8>, from: int)
    requires
        0 <= from,
        find_crlf(s, from) is Some,
    ensures
        from <= find_crlf(s, from)->0,
        find_crlf(s, from)->0 + 1 < s.len(),
        s[find_crlf(s, from)->0] == 13,
        s[find_crlf(s, from)->0 + 1] == 10,
        forall|q: int|
            from <= q < find_crlf(s, from)->0 ==> !(#[trigger] s[q] == 13 && s[q + 1] == 10),
    decreases s.len() - from,
{
    if from + 1 >= s.len() {
    } else if s[from] == 13 && s[from + 1] == 10 {
    } else {
        lemma_find_crlf_some(s, from + 1);
    }
}

/// The message produced when an integer frame has no complete line yet.
pub open spec fn msg_cant_read_integer() -> Seq<u8> {
    "Can't read integer".spec_bytes()
}

pub open spec fn msg_invalid_integer(c: Seq<u8>) -> Seq<u8> {
    "Invalid integer ".spec_bytes() + c
}

pub open spec fn msg_bulk_len_nan(c: Seq<u8>) -> Seq<u8> {
    "Bulk string length not a number ".spec_bytes() + c
}

pub open spec fn msg_bulk_len_neg(len: int) -> Seq<u8> {
    "Invalid bulk string length ".spec_bytes() + dec_int(len)
}

pub open spec fn msg_arr_len_nan(c: Seq<u8>) -> Seq<u8> {
    "Array length not a number ".spec_bytes() + c
}

pub open spec fn msg_arr_len_neg(len: int) -> Seq<u8> {
    "Invalid array length ".spec_bytes() + dec_int(len)
}

pub open spec fn msg_unsupported_marker() -> Seq<u8> {
    "Unsupported type marker".spec_bytes()
}

/// The specification parser: one frame from the front of `s`. `None` means
/// the bytes so far are a prefix of some frame and more input is needed; a
/// result carries the frame and exactly how many bytes it occupies.
pub open spec fn spec_parse(s: Seq<u8>) -> Option<(FrameModel, int)>
    decreases s.len(), 0int, 0int,
    via spec_parse_dec
{
    if s.len() == 0 {
        None
    } else if s[0] == 43 || s[0] == 45 {
        match find_crlf(s, 1) {
            None => None,
            Some(p) => {
                let c = s.subrange(1, p);
                if s[0] == 43 {
                    Some((FrameModel::Simple(c), p + 2))
                } else {
                    Some((FrameModel::Error(c), p + 2))
                }
            },
        }
    } else if s[0] == 58 {
        match find_crlf(s, 1) {
            None => Some((FrameModel::Invalid(msg_cant_read_integer()), 1)),
            Some(p) => {
                let c = s.subrange(1, p);
                if valid_i64(c, true) {
                    Some((FrameModel::Int(signed_val(c)), p + 2))
                } else {
                    Some((FrameModel::Invalid(msg_invalid_integer(c)), p + 2))
                }
            },
        }
    } else if s[0] == 36 {
        match find_crlf(s, 1) {
            None => None,
            Some(p) => {
                let c = s.subrange(1, p);
                if !valid_i64(c, false) {
                    Some((FrameModel::Invalid(msg_bulk_len_nan(c)), p + 2))
                } else {
                    let len = signed_val(c);
                    if len == -1 {
                        Some((FrameModel::NullBulk, p + 2))
                    } else if len < 0 {
                        Some((FrameModel::Invalid(msg_bulk_len_neg(len)), p + 2))
                    } else if s.len() < p + 2 + len + 2 {
                        None
                    } else if s[p + 2 + len] == 13 && s[p + 3 + len] == 10 {
                        Some((FrameModel::Bulk(s.subrange(p + 2, p + 2 + len)), p + 4 + len))
                    } else {
                        None
                    }
                }
            },
        }
    } else if s[0] == 42 {
        match find_crlf(s, 1) {
            None => None,
            Some(p) => {
                let c = s.subrange(1, p);
                if !valid_i64(c, false) {
                    Some((FrameModel::Invalid(msg_arr_len_nan(c)), p + 2))
                } else {
                    let len = signed_val(c);
                    if len == -1 {
                        Some((FrameModel::NullArr, p + 2))
                    } else if len < 0 {
                        Some((FrameModel::Invalid(msg_arr_len_neg(len)), p + 2))
                    } else {
                        match spec_parse_elems(s.subrange(p + 2, s.len() as int), len) {
                            None => None,
                            Some((fs, c2)) => Some((FrameModel::Arr(fs), p + 2 + c2)),
                        }
                    }
                }
            },
        }
    } else {
        Some((FrameModel::Invalid(msg_unsupported_marker()), 1))
    }
}

#[via_fn]
proof fn spec_parse_dec(s: Seq<u8>) {
    if s.len() > 0 && find_crlf(s, 1) is Some {
        lemma_find_crlf_some(s, 1);
    }
}

/// `n` frames in order from the front of `s`, with their total length.
pub open spec fn spec_parse_elems(s: Seq<u8>, n: int) -> Option<(Seq<FrameModel>, int)>
    decreases s.len(), 1int, n,
{
    if n <= 0 {
        Some((Seq::empty(), 0))
    } else {
        match spec_parse(s) {
            None => None,
            Some((f, c)) => if 1 <= c <= s.len() {
                match spec_parse_elems(s.subrange(c, s.len() as int), n - 1) {
                    None => None,
                    Some((fs, c2)) => Some((seq![f] + fs, c + c2)),
                }
            } else {
                None
            },
        }
    }
}

/// A parsed frame occupies at least one byte and at most the whole input.
pub proof fn lemma_parse_consumed_bounds(s: Seq<u8>)
    ensures
        spec_parse(s) matches Some((f, c)) ==> 1 <= c <= s.len(),
    decreases s.len(), 0int, 0int,
{
    if s.len() > 0 && find_crlf(s, 1) is Some {
        lemma_find_crlf_some(s, 1);
        let p = find_crlf(s, 1)->0;
        if s[0] == 42 {
            let c = s.subrange(1, p);
            if valid_i64(c, false) && signed_val(c) >= 0 {
                lemma_parse_elems_consumed_bounds(
                    s.subrange(p + 2, s.len() as int),
                    signed_val(c),
                );
            }
        }
    }
}

pub proof fn lemma_parse_elems_consumed_bounds(s: Seq<u8>, n: int)
    ensures
        spec_parse_elems(s, n) matches Some((fs, c)) ==> 0 <= c <= s.len() && fs.len() == n || n
            <= 0,
    decreases s.len(), 1int, n,
{
    if n > 0 {
        lemma_parse_consumed_bounds(s);
        match spec_parse(s) {
            None => {},
            Some((f, c)) => {
                if 1 <= c <= s.len() {
                    lemma_parse_elems_consumed_bounds(s.subrange(c, s.len() as int), n - 1);
                }
            },
        }
    }
}

/// The first terminator is exactly at `p` when a pair stands there and no
/// pair stands earlier.
pub proof fn lemma_find_crlf_char(u: Seq<u8>, from: int, p: int)
    requires
        0 <= from <= p,
        p + 1 < u.len(),
        u[p] == 13,
        u[p + 1] == 10,
        forall|q: int| from <= q < p ==> !(#[trigger] u[q] == 13 && u[q + 1] == 10),
    ensures
        find_crlf(u, from) == Some(p),
    decreases p - from,
{
    if from < p {
        lemma_find_crlf_char(u, from + 1, p);
    }
}

/// Decimal text never contains terminator bytes.
pub proof fn lemma_dec_int_bytes(i: int)
    ensures
        forall|q: int|
            0 <= q < dec_int(i).len() ==> #[trigger] dec_int(i)[q] != 13 && dec_int(i)[q] != 10,
{
    if i < 0 {
        crate::numbers::lemma_dec_digits_val(-i);
        assert(forall|q: int|
            1 <= q < dec_int(i).len() ==> dec_int(i)[q] == crate::numbers::dec_digits(-i)[q - 1]);
    } else {
        crate::numbers::lemma_dec_digits_val(i);
    }
}

/// A well-formed frame parses back from its own encoding, whatever bytes
/// follow it, and occupies exactly its encoding.
#[verifier::rlimit(100)]
#[verifier::spinoff_prover]
pub proof fn lemma_parse_encode(f: FrameModel, t: Seq<u8>)
    requires
        wf_frame(f),
    ensures
        spec_parse(spec_encode(f) + t) == Some((f, spec_encode(f).len() as int)),
    decreases f, 0int,
{
    let e = spec_encode(f);
    let u = e + t;
    match f {
        FrameModel::Simple(s) => {
            lemma_line_frame(43u8, s, t);
            assert(u.subrange(1, 1 + s.len() as int) =~= s);
        },
        FrameModel::Error(s) => {
            lemma_line_frame(45u8, s, t);
            assert(u.subrange(1, 1 + s.len() as int) =~= s);
        },
        FrameModel::Int(i) => {
            let d = dec_int(i);
            lemma_dec_int_bytes(i);
            assert(crlf_free(d));
            lemma_line_frame(58u8, d, t);
            assert(u.subrange(1, 1 + d.len() as int) =~= d);
            lemma_dec_int_value(i);
        },
        FrameModel::Bulk(s) => {
            let d = crate::numbers::dec_digits(s.len() as int);
            lemma_dec_int_bytes(s.len() as int);
            assert(d == dec_int(s.len() as int));
            assert(crlf_free(d));
            assert(e =~= (seq![36u8] + d + crlf()) + (s + crlf()));
            lemma_line_frame_with(36u8, d, s + crlf() + t);
            assert(u =~= (seq![36u8] + d + crlf()) + (s + crlf() + t));
            let p = 1 + d.len() as int;
            assert(find_crlf(u, 1) == Some(p));
            assert(u.subrange(1, p) =~= d);
            lemma_dec_int_value(s.len() as int);
            assert(valid_i64(d, false) && signed_val(d) == s.len());
            let len = s.len() as int;
            assert(u.len() >= p + 2 + len + 2);
            assert(u.subrange(p + 2, p + 2 + len) =~= s);
            assert(u[p + 2 + len] == 13 && u[p + 3 + len] == 10);
            assert(spec_parse(u) == Some((FrameModel::Bulk(s), p + 4 + len)));
            assert(e.len() == p + 4 + len);
        },
        FrameModel::NullBulk => {
            assert(u[0] == 36 && u[1] == 45 && u[2] == 49 && u[3] == 13 && u[4] == 10);
            lemma_find_crlf_char(u, 1, 3);
            let c = u.subrange(1, 3);
            assert(c =~= seq![45u8, 49u8]);
            lemma_null_content(c);
        },
        FrameModel::Arr(els) => {
            let d = crate::numbers::dec_digits(els.len() as int);
            lemma_dec_int_bytes(els.len() as int);
            assert(d == dec_int(els.len() as int));
            assert(crlf_free(d));
            lemma_line_frame_with(42u8, d, spec_encode_seq(els) + t);
            assert(u =~= (seq![42u8] + d + crlf()) + (spec_encode_seq(els) + t));
            let p = 1 + d.len() as int;
            assert(find_crlf(u, 1) == Some(p));
            assert(u.subrange(1, p) =~= d);
            lemma_dec_int_value(els.len() as int);
            let n = els.len() as int;
            assert(u.subrange(p + 2, u.len() as int) =~= spec_encode_seq(els) + t);
            lemma_parse_encode_seq(els, t);
            assert(spec_parse(u) == Some((FrameModel::Arr(els), p + 2 + spec_encode_seq(els).len())));
            assert(e.len() == p + 2 + spec_encode_seq(els).len());
        },
        FrameModel::NullArr => {
            assert(u[0] == 42 && u[1] == 45 && u[2] == 49 && u[3] == 13 && u[4] == 10);
            lemma_find_crlf_char(u, 1, 3);
            let c = u.subrange(1, 3);
            assert(c =~= seq![45u8, 49u8]);
            lemma_null_content(c);
        },
        FrameModel::Invalid(s) => {
        },
    }
}

/// Well-formed frames in sequence parse back from their concatenated
/// encodings, whatever bytes follow.
pub proof fn lemma_parse_encode_seq(els: Seq<FrameModel>, t: Seq<u8>)
    requires
        forall|i: int| 0 <= i < els.len() ==> wf_frame(#[trigger] els[i]),
    ensures
        spec_parse_elems(spec_encode_seq(els) + t, els.len() as int) == Some(
            (els, spec_encode_seq(els).len() as int),
        ),
    decreases els, 1int,
{
    let u = spec_encode_seq(els) + t;
    if els.len() == 0 {
        assert(spec_parse_elems(u, 0) == Some((Seq::<FrameModel>::empty(), 0int)));
        assert(els =~= Seq::<FrameModel>::empty());
        assert(spec_encode_seq(els).len() == 0);
    } else {
        let head = els[0];
        let tail = els.subrange(1, els.len() as int);
        let e0 = spec_encode(head);
        lemma_parse_encode(head, spec_encode_seq(tail) + t);
        assert(u =~= e0 + (spec_encode_seq(tail) + t));
        assert(spec_parse(u) == Some((head, e0.len() as int)));
        lemma_parse_consumed_bounds(u);
        assert(1 <= e0.len() <= u.len());
        assert(u.subrange(e0.len() as int, u.len() as int) =~= spec_encode_seq(tail) + t);
        lemma_parse_encode_seq(tail, t);
        assert(seq![head] + tail =~= els);
        assert(spec_encode_seq(els).len() == e0.len() + spec_encode_seq(tail).len());
    }
}

/// Round trip: parsing the encoding of a well-formed frame gives the frame
/// back and consumes exactly its bytes.
pub proof fn lemma_round_trip(f: FrameModel)
    requires
        wf_frame(f),
    ensures
        spec_parse(spec_encode(f)) == Some((f, spec_encode(f).len() as int)),
{
    lemma_parse_encode(f, Seq::empty());
    assert(spec_encode(f) + Seq::<u8>::empty() =~= spec_encode(f));
}

/// The terminator scan over `[marker] + content + crlf + rest` stops exactly
/// after the content when the content holds no pair.
proof fn lemma_line_frame_with(m: u8, s: Seq<u8>, rest: Seq<u8>)
    requires
        crlf_free(s),
    ensures
        find_crlf((seq![m] + s + crlf()) + rest, 1) == Some(1 + s.len() as int),
{
    let u = (seq![m] + s + crlf()) + rest;
    let p = 1 + s.len() as int;
    assert(u[p] == 13 && u[p + 1] == 10);
    assert forall|q: int| 1 <= q < p implies !(#[trigger] u[q] == 13 && u[q + 1] == 10) by {
        if q + 1 < p {
            assert(u[q] == s[q - 1] && u[q + 1] == s[q]);
        } else {
            assert(u[q + 1] == 13);
        }
    }
    lemma_find_crlf_char(u, 1, p);
}

/// The scan over a whole line frame followed by arbitrary bytes.
proof fn lemma_line_frame(m: u8, s: Seq<u8>, t: Seq<u8>)
    requires
        crlf_free(s),
    ensures
        find_crlf((seq![m] + s + crlf()) + t, 1) == Some(1 + s.len() as int),
{
    lemma_line_frame_with(m, s, t);
}

/// Decimal text of an in-range integer is valid signed digit text denoting
/// that integer.
proof fn lemma_dec_int_value(i: int)
    requires
        i64::MIN <= i <= i64::MAX,
    ensures
        valid_i64(dec_int(i), true),
        valid_i64(dec_int(i), false) || i < 0,
        i < 0 ==> valid_i64(dec_int(i), false),
        signed_val(dec_int(i)) == i,
{
    if i < 0 {
        crate::numbers::lemma_dec_digits_val(-i);
        let d = dec_int(i);
        assert(d[0] == 45);
        assert(d.drop_first() =~= crate::numbers::dec_digits(-i));
    } else {
        crate::numbers::lemma_dec_digits_val(i);
        let d = dec_int(i);
        assert(crate::numbers::is_digit(d[0]));
        assert(d[0] != 45 && d[0] != 43);
        assert(crate::numbers::signed_body(d) == d);
    }
}

/// The two-byte content `-1` denotes minus one.
proof fn lemma_null_content(c: Seq<u8>)
    requires
        c =~= seq![45u8, 49u8],
    ensures
        valid_i64(c, false),
        signed_val(c) == -1,
{
    assert(c[0] == 45);
    let d = c.drop_first();
    assert(d =~= seq![49u8]);
    assert(d.drop_last() =~= Seq::<u8>::empty());
    assert(crate::numbers::digits_val(d) == crate::numbers::digits_val(d.drop_last()) * 10 + (
    d.last() - 48));
    assert(crate::numbers::digits_val(d) == 1);
    assert(crate::numbers::all_digits(d));
}

/// Appends a byte slice to a vector.
pub fn append_slice(out: &mut Vec<u8>, s: &[u8])
    ensures
        final(out)@ == old(out)@ + s@,
{
    let mut k: usize = 0;
    while k < s.len()
        invariant
            k <= s@.len(),
            out@ == old(out)@ + s@.subrange(0, k as int),
        decreases s@.len() - k,
    {
        let b = s[k];
        out.push(b);
        assert(out@ =~= old(out)@ + s@.subrange(0, k + 1));
        k = k + 1;
    }
    assert(s@.subrange(0, s@.len() as int) =~= s@);
}

/// A fixed message followed by offending content bytes.
pub fn msg_with_content(prefix: &str, content: &[u8]) -> (r: Vec<u8>)
    ensures
        r@ == prefix.spec_bytes() + content@,
{
    let mut v = prefix.as_bytes_vec();
    append_slice(&mut v, content);
    v
}

/// Finds the first frame terminator at or after `from`, reporting with it
/// that two more bytes fit before the end of the slice.
fn find_crlf_from(s: &[u8], from: usize) -> (r: Option<usize>)
    requires
        1 <= from,
    ensures
        match r {
            None => find_crlf(s@, from as int) is None,
            Some(p) => find_crlf(s@, from as int) == Some(p as int) && from <= p && p + 2 <= s@.len(),
        },
{
    let n = s.len();
    if from >= n {
        return None;
    }
    let mut i: usize = from;
    while i + 1 < n
        invariant
            from <= i < n,
            n == s@.len(),
            find_crlf(s@, from as int) == find_crlf(s@, i as int),
        decreases n - i,
    {
        if s[i] == 13 && s[i + 1] == 10 {
            proof {
                lemma_find_crlf_some(s@, i as int);
            }
            return Some(i);
        }
        i = i + 1;
    }
    None
}

/// Parses one frame from the front of the byte slice. `None` means the bytes
/// present are an incomplete prefix: the caller must read more and must not
/// discard anything. A result reports the exact number of bytes the frame
/// occupied.
pub fn try_parse_frame(buf: &[u8]) -> (r: Option<(RedisType, usize)>)
    ensures
        r is None <==> spec_parse(buf@) is None,
        r matches Some((f, c)) ==> spec_parse(buf@) == Some((f@, c as int)) && 1 <= c <= buf@.len(),
{
    parse_frame_rec(buf)
}

fn parse_frame_rec(s: &[u8]) -> (r: Option<(RedisType, usize)>)
    ensures
        r is None <==> spec_parse(s@) is None,
        r matches Some((f, c)) ==> spec_parse(s@) == Some((f@, c as int)) && 1 <= c <= s@.len(),
    decreases s@.len(), 0int, 0int,
{
    let n = s.len();
    if n == 0 {
        return None;
    }
    let m = s[0];
    if m == 43 || m == 45 {
        match find_crlf_from(s, 1) {
            None => None,
            Some(p) => {
                let content = slice_to_vec(slice_subrange(s, 1, p));
                if m == 43 {
                    Some((RedisType::SimpleString(content), p + 2))
                } else {
                    Some((RedisType::SimpleError(content), p + 2))
                }
            },
        }
    } else if m == 58 {
        match find_crlf_from(s, 1) {
            None => {
                let msg = "Can't read integer".as_bytes_vec();
                Some((RedisType::InvalidType(msg), 1))
            },
            Some(p) => {
                let content = slice_subrange(s, 1, p);
                match parse_i64(content, true) {
                    Some(v) => Some((RedisType::Integer(v), p + 2)),
                    None => {
                        let msg = msg_with_content("Invalid integer ", content);
                        Some((RedisType::InvalidType(msg), p + 2))
                    },
                }
            },
        }
    } else if m == 36 {
        match find_crlf_from(s, 1) {
            None => None,
            Some(p) => {
                let content = slice_subrange(s, 1, p);
                match parse_i64(content, false) {
                    None => {
                        let msg = msg_with_content("Bulk string length not a number ", content);
                        Some((RedisType::InvalidType(msg), p + 2))
                    },
                    Some(len) => {
                        if len == -1 {
                            Some((RedisType::NullBulkString, p + 2))
                        } else if len < 0 {
                            let mut msg = "Invalid bulk string length ".as_bytes_vec();
                            let digits = crate::numbers::i64_dec(len);
                            append_slice(&mut msg, digits.as_slice());
                            Some((RedisType::InvalidType(msg), p + 2))
                        } else {
                            let avail: usize = n - p - 2;
                            if (len as u64) + 2 > (avail as u64) {
                                assert(s@.len() < p + 2 + len + 2);
                                None
                            } else {
                                let l = len as usize;
                                if s[p + 2 + l] == 13 && s[p + 3 + l] == 10 {
                                    let payload = slice_to_vec(slice_subrange(s, p + 2, p + 2 + l));
                                    Some((RedisType::BulkString(payload), p + 4 + l))
                                } else {
                                    None
                                }
                            }
                        }
                    },
                }
            },
        }
    } else if m == 42 {
        match find_crlf_from(s, 1) {
            None => None,
            Some(p) => {
                let content = slice_subrange(s, 1, p);
                match parse_i64(content, false) {
                    None => {
                        let msg = msg_with_content("Array length not a number ", content);
                        Some((RedisType::InvalidType(msg), p + 2))
                    },
                    Some(len) => {
                        if len == -1 {
                            Some((RedisType::NullArray, p + 2))
                        } else if len < 0 {
                            let mut msg = "Invalid array length ".as_bytes_vec();
                            let digits = crate::numbers::i64_dec(len);
                            append_slice(&mut msg, digits.as_slice());
                            Some((RedisType::InvalidType(msg), p + 2))
                        } else {
                            let rest = slice_subrange(s, p + 2, n);
                            match parse_elems_rec(rest, len) {
                                None => None,
                                Some((els, c2)) => Some((RedisType::Array(els), p + 2 + c2)),
                            }
                        }
                    },
                }
            },
        }
    } else {
        let msg = "Unsupported type marker".as_bytes_vec();
        Some((RedisType::InvalidType(msg), 1))
    }
}

fn parse_elems_rec(s: &[u8], n: i64) -> (r: Option<(Vec<RedisType>, usize)>)
    requires
        n >= 0,
    ensures
        r is None <==> spec_parse_elems(s@, n as int) is None,
        r matches Some((fs, c)) ==> spec_parse_elems(s@, n as int) == Some(
            (frame_models(fs@), c as int),
        ) && c <= s@.len(),
    decreases s@.len(), 1int, n as int,
{
    if n == 0 {
        let fs: Vec<RedisType> = Vec::new();
        assert(frame_models(fs@) =~= Seq::<FrameModel>::empty());
        return Some((fs, 0));
    }
    match parse_frame_rec(s) {
        None => None,
        Some((f, c)) => {
            let rest = slice_subrange(s, c, s.len());
            match parse_elems_rec(rest, n - 1) {
                None => None,
                Some((fs, c2)) => {
                    let mut out = fs;
                    out.insert(0, f);
                    proof {
                        assert(out@.subrange(1, out@.len() as int) =~= fs@);
                        assert(frame_models(out@) =~= seq![frame_model(f)] + frame_models(fs@));
                    }
                    Some((out, c + c2))
                },
            }
        },
    }
}

} // verus!

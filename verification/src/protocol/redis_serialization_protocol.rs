//! The RESP wire codec: the frame datatype, its mathematical model, and the
//! verified encoder. The incremental parser lives beside it in the
//! `parser` module.

use crate::numbers::{dec_digits, dec_int, i64_dec, usize_dec};
use vstd::prelude::*;

verus! {

/// Mathematical model of one RESP frame.
pub enum FrameModel {
    Simple(Seq<u8>),
    Error(Seq<u8>),
    Int(int),
    Bulk(Seq<u8>),
    NullBulk,
    Arr(Seq<FrameModel>),
    NullArr,
    Invalid(Seq<u8>),
}

/// One RESP frame as read from or written to the wire. Payloads are byte
/// strings; bulk strings carry arbitrary bytes. `InvalidType` is produced by
/// the decoder for syntactically complete but semantically bad frames and is
/// written to the wire as a simple error.
#[derive(Debug, PartialEq)]
pub enum RedisType {
    SimpleString(Vec<u8>),
    SimpleError(Vec<u8>),
    Integer(i64),
    BulkString(Vec<u8>),
    NullBulkString,
    Array(Vec<RedisType>),
    NullArray,
    InvalidType(Vec<u8>),
}

/// The model of a frame value.
pub open spec fn frame_model(f: RedisType) -> FrameModel
    decreases f, 0int,
{
    match f {
        RedisType::SimpleString(s) => FrameModel::Simple(s@),
        RedisType::SimpleError(s) => FrameModel::Error(s@),
        RedisType::Integer(i) => FrameModel::Int(i as int),
        RedisType::BulkString(s) => FrameModel::Bulk(s@),
        RedisType::NullBulkString => FrameModel::NullBulk,
        RedisType::Array(els) => FrameModel::Arr(frame_models(els@)),
        RedisType::NullArray => FrameModel::NullArr,
        RedisType::InvalidType(s) => FrameModel::Invalid(s@),
    }
}

/// The models of a sequence of frame values.
pub open spec fn frame_models(els: Seq<RedisType>) -> Seq<FrameModel>
    decreases els, 1int,
{
    if els.len() == 0 {
        Seq::empty()
    } else {
        seq![frame_model(els[0])] + frame_models(els.subrange(1, els.len() as int))
    }
}

/// The model sequence is the element-wise model.
pub proof fn lemma_frame_models_index(els: Seq<RedisType>)
    ensures
        frame_models(els).len() == els.len(),
        forall|i: int| 0 <= i < els.len() ==> frame_models(els)[i] == frame_model(#[trigger] els[i]),
    decreases els.len(),
{
    if els.len() > 0 {
        let tail = els.subrange(1, els.len() as int);
        lemma_frame_models_index(tail);
        assert(forall|i: int| 1 <= i < els.len() ==> tail[i - 1] == #[trigger] els[i]);
        assert(forall|i: int|
            1 <= i < els.len() ==> frame_models(els)[i] == frame_models(tail)[i - 1]);
    }
}

impl View for RedisType {
    type V = FrameModel;

    open spec fn view(&self) -> FrameModel {
        frame_model(*self)
    }
}

pub open spec fn crlf() -> Seq<u8> {
    seq![13u8, 10u8]
}

/// No carriage-return/line-feed pair occurs inside the byte string, so a
/// scan for the terminator cannot stop early inside it.
pub open spec fn crlf_free(s: Seq<u8>) -> bool {
    forall|i: int| 0 <= i && i + 1 < s.len() ==> !(#[trigger] s[i] == 13 && s[i + 1] == 10)
}

/// Frames that encode to wire bytes that parse back to the same frame:
/// line-oriented payloads contain no terminator pair, lengths fit a signed
/// 64-bit integer, and every array element is itself well formed.
pub open spec fn wf_frame(f: FrameModel) -> bool
    decreases f,
{
    match f {
        FrameModel::Simple(s) => crlf_free(s),
        FrameModel::Error(s) => crlf_free(s),
        FrameModel::Int(i) => i64::MIN <= i <= i64::MAX,
        FrameModel::Bulk(s) => s.len() <= i64::MAX,
        FrameModel::NullBulk => true,
        FrameModel::Arr(els) => els.len() <= i64::MAX && (forall|i: int|
            0 <= i < els.len() ==> wf_frame(#[trigger] els[i])),
        FrameModel::NullArr => true,
        FrameModel::Invalid(s) => false,
    }
}

/// The RESP bytes of a frame.
pub open spec fn spec_encode(f: FrameModel) -> Seq<u8>
    decreases f, 0int,
{
    match f {
        FrameModel::Simple(s) => seq![43u8] + s + crlf(),
        FrameModel::Error(s) => seq![45u8] + s + crlf(),
        FrameModel::Int(i) => seq![58u8] + dec_int(i) + crlf(),
        FrameModel::Bulk(s) => seq![36u8] + dec_digits(s.len() as int) + crlf() + s + crlf(),
        FrameModel::NullBulk => seq![36u8, 45u8, 49u8, 13u8, 10u8],
        FrameModel::Arr(els) => seq![42u8] + dec_digits(els.len() as int) + crlf()
            + spec_encode_seq(els),
        FrameModel::NullArr => seq![42u8, 45u8, 49u8, 13u8, 10u8],
        FrameModel::Invalid(s) => seq![45u8] + s + crlf(),
    }
}

/// The concatenated RESP bytes of a sequence of frames.
pub open spec fn spec_encode_seq(els: Seq<FrameModel>) -> Seq<u8>
    decreases els, 1int,
{
    if els.len() == 0 {
        Seq::empty()
    } else {
        spec_encode(els[0]) + spec_encode_seq(els.subrange(1, els.len() as int))
    }
}

/// Encoding of a value into RESP wire bytes.
pub trait ToRespBytes {
    /// Encode the value into a newly allocated byte vector holding its RESP
    /// bytes.
    fn to_resp_bytes(&self) -> Vec<u8>;
}

impl RedisType {
    /// Appends the RESP bytes of this frame to `out`.
    pub fn encode_into(&self, out: &mut Vec<u8>)
        ensures
            final(out)@ == old(out)@ + spec_encode(self@),
        decreases *self, 0int,
    {
        match self {
            RedisType::SimpleString(s) => {
                out.push(43u8);
                append_bytes(out, s);
                push_crlf(out);
                assert(final(out)@ =~= old(out)@ + spec_encode(self@));
            },
            RedisType::SimpleError(s) => {
                out.push(45u8);
                append_bytes(out, s);
                push_crlf(out);
                assert(final(out)@ =~= old(out)@ + spec_encode(self@));
            },
            RedisType::Integer(i) => {
                out.push(58u8);
                let digits = i64_dec(*i);
                append_bytes(out, &digits);
                push_crlf(out);
                assert(final(out)@ =~= old(out)@ + spec_encode(self@));
            },
            RedisType::BulkString(s) => {
                out.push(36u8);
                let len_digits = usize_dec(s.len());
                append_bytes(out, &len_digits);
                push_crlf(out);
                append_bytes(out, s);
                push_crlf(out);
                assert(final(out)@ =~= old(out)@ + spec_encode(self@));
            },
            RedisType::NullBulkString => {
                out.push(36u8);
                out.push(45u8);
                out.push(49u8);
                push_crlf(out);
                assert(final(out)@ =~= old(out)@ + spec_encode(self@));
            },
            RedisType::Array(els) => {
                out.push(42u8);
                let len_digits = usize_dec(els.len());
                append_bytes(out, &len_digits);
                push_crlf(out);
                let ghost mid = out@;
                let ghost models = frame_models(els@);
                proof {
                    lemma_frame_models_index(els@);
                }
                let mut k: usize = 0;
                while k < els.len()
                    invariant
                        k <= els@.len(),
                        *self == RedisType::Array(*els),
                        models == frame_models(els@),
                        models.len() == els@.len(),
                        forall|i: int|
                            0 <= i < els@.len() ==> models[i] == frame_model(#[trigger] els@[i]),
                        out@ == mid + spec_encode_seq(models.subrange(0, k as int)),
                    decreases els@.len() - k,
                {
                    let ghost pre = out@;
                    proof {
                        assert(decreases_to!(*self => els@[k as int])) by {
                            assert(decreases_to!(*self => self->Array_0));
                            assert(self->Array_0 == *els);
                            assert(decreases_to!(*els => els@));
                            assert(decreases_to!(els@ => els@[k as int]));
                        }
                    }
                    els[k].encode_into(out);
                    proof {
                        lemma_encode_seq_snoc(models.subrange(0, k as int), models[k as int]);
                        assert(models.subrange(0, k as int).push(models[k as int]) =~= models
                            .subrange(0, k + 1));
                        assert(out@ =~= mid + spec_encode_seq(models.subrange(0, k + 1)));
                    }
                    k = k + 1;
                }
                proof {
                    assert(models.subrange(0, models.len() as int) =~= models);
                    assert(out@ =~= old(out)@ + spec_encode(self@));
                }
            },
            RedisType::NullArray => {
                out.push(42u8);
                out.push(45u8);
                out.push(49u8);
                push_crlf(out);
                assert(final(out)@ =~= old(out)@ + spec_encode(self@));
            },
            RedisType::InvalidType(s) => {
                out.push(45u8);
                append_bytes(out, s);
                push_crlf(out);
                assert(final(out)@ =~= old(out)@ + spec_encode(self@));
            },
        }
    }
}

impl ToRespBytes for RedisType {
    fn to_resp_bytes(&self) -> (r: Vec<u8>)
        ensures
            r@ == spec_encode(self@),
    {
        let mut out: Vec<u8> = Vec::new();
        self.encode_into(&mut out);
        assert(out@ =~= spec_encode(self@));
        out
    }
}

/// Encoding a sequence of frames one more frame at a time.
pub proof fn lemma_encode_seq_snoc(els: Seq<FrameModel>, f: FrameModel)
    ensures
        spec_encode_seq(els.push(f)) == spec_encode_seq(els) + spec_encode(f),
    decreases els.len(),
{
    if els.len() == 0 {
        assert(els.push(f)[0] == f);
        assert(els.push(f).subrange(1, els.push(f).len() as int) =~= Seq::<FrameModel>::empty());
        assert(spec_encode_seq(Seq::<FrameModel>::empty()) =~= Seq::<u8>::empty());
        assert(spec_encode_seq(els.push(f)) =~= spec_encode(f) + spec_encode_seq(
            Seq::<FrameModel>::empty(),
        ));
        assert(spec_encode_seq(els.push(f)) =~= spec_encode_seq(els) + spec_encode(f));
    } else {
        let tail = els.subrange(1, els.len() as int);
        assert(els.push(f).subrange(1, els.push(f).len() as int) =~= tail.push(f));
        lemma_encode_seq_snoc(tail, f);
        assert(els.push(f)[0] == els[0]);
        assert(spec_encode_seq(els.push(f)) =~= spec_encode(els[0]) + spec_encode_seq(
            tail.push(f),
        ));
        assert(spec_encode_seq(els) =~= spec_encode(els[0]) + spec_encode_seq(tail));
        assert(spec_encode_seq(els.push(f)) =~= spec_encode_seq(els) + spec_encode(f));
    }
}

fn append_bytes(out: &mut Vec<u8>, s: &Vec<u8>)
    ensures
        final(out)@ == old(out)@ + s@,
{
    let mut k: usize = 0;
    while k < s.len()
        invariant
            k <= s@.len(),
            out@ == old(out)@ + s@.subrange(0, k as int),
        decreases s@.len() - k,
    {
        let b = s[k];
        out.push(b);
        assert(out@ =~= old(out)@ + s@.subrange(0, k + 1));
        k = k + 1;
    }
    assert(s@.subrange(0, s@.len() as int) =~= s@);
}

fn push_crlf(out: &mut Vec<u8>)
    ensures
        final(out)@ == old(out)@ + crlf(),
{
    out.push(13u8);
    out.push(10u8);
    assert(final(out)@ =~= old(out)@ + crlf());
}

} // verus!

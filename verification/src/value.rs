//! Row values and the codec between them and the host environment's values.
//!
//! A `RowValue` is the tagged in-memory representation of one database value.
//! A `HostValue` is the native value representation of the calling host
//! environment. `encode_value` turns a row value into a host value and
//! `decode_value` turns a host value back; the conversion is total and
//! lossless on everything the query layer produces, and rejects unsupported
//! host shapes instead of coercing them.

use vstd::prelude::*;

use crate::error::DataError;

verus! {

/// Mathematical model of a row value: the same tree with sequences in
/// place of vectors and character sequences in place of strings.
pub enum Val {
    Null,
    Bool(bool),
    Int(i64),
    Text(Seq<char>),
    Bytes(Seq<u8>),
    DateTime(i64),
    List(Seq<Val>),
    Record(Seq<(Seq<char>, Val)>),
}

/// Mathematical model of a host value. `Undefined` stands for every host
/// shape that carries no data the store could hold; the codec rejects it.
pub enum HostVal {
    Null,
    Undefined,
    Bool(bool),
    Int(i64),
    Text(Seq<char>),
    Blob(Seq<u8>),
    Time(i64),
    Array(Seq<HostVal>),
    Object(Seq<(Seq<char>, HostVal)>),
}

/// What encoding a row value yields, variant by variant.
pub open spec fn encode_model(v: Val) -> HostVal
    decreases v,
{
    match v {
        Val::Null => HostVal::Null,
        Val::Bool(b) => HostVal::Bool(b),
        Val::Int(n) => HostVal::Int(n),
        Val::Text(s) => HostVal::Text(s),
        Val::Bytes(b) => HostVal::Blob(b),
        Val::DateTime(t) => HostVal::Time(t),
        Val::List(xs) => HostVal::Array(encode_model_seq(xs)),
        Val::Record(fs) => HostVal::Object(encode_model_fields(fs)),
    }
}

pub open spec fn encode_model_seq(xs: Seq<Val>) -> Seq<HostVal>
    decreases xs,
{
    if xs.len() == 0 {
        Seq::empty()
    } else {
        seq![encode_model(xs[0])] + encode_model_seq(xs.drop_first())
    }
}

pub open spec fn encode_model_fields(fs: Seq<(Seq<char>, Val)>) -> Seq<(Seq<char>, HostVal)>
    decreases fs,
{
    if fs.len() == 0 {
        Seq::empty()
    } else {
        seq![(fs[0].0, encode_model(fs[0].1))] + encode_model_fields(fs.drop_first())
    }
}

/// What decoding a host value yields: `None` exactly on the shapes the
/// codec does not support.
pub open spec fn decode_model(h: HostVal) -> Option<Val>
    decreases h,
{
    match h {
        HostVal::Null => Some(Val::Null),
        HostVal::Undefined => None,
        HostVal::Bool(b) => Some(Val::Bool(b)),
        HostVal::Int(n) => Some(Val::Int(n)),
        HostVal::Text(s) => Some(Val::Text(s)),
        HostVal::Blob(b) => Some(Val::Bytes(b)),
        HostVal::Time(t) => Some(Val::DateTime(t)),
        HostVal::Array(hs) => match decode_model_seq(hs) {
            Some(xs) => Some(Val::List(xs)),
            None => None,
        },
        HostVal::Object(gs) => match decode_model_fields(gs) {
            Some(fs) => Some(Val::Record(fs)),
            None => None,
        },
    }
}

pub open spec fn decode_model_seq(hs: Seq<HostVal>) -> Option<Seq<Val>>
    decreases hs,
{
    if hs.len() == 0 {
        Some(Seq::empty())
    } else {
        match (decode_model(hs[0]), decode_model_seq(hs.drop_first())) {
            (Some(v), Some(rest)) => Some(seq![v] + rest),
            _ => None,
        }
    }
}

pub open spec fn decode_model_fields(gs: Seq<(Seq<char>, HostVal)>) -> Option<
    Seq<(Seq<char>, Val)>,
>
    decreases gs,
{
    if gs.len() == 0 {
        Some(Seq::empty())
    } else {
        match (decode_model(gs[0].1), decode_model_fields(gs.drop_first())) {
            (Some(v), Some(rest)) => Some(seq![(gs[0].0, v)] + rest),
            _ => None,
        }
    }
}

/// Round trip: decoding the encoding of any row value gives the value back,
/// for every variant the query layer can produce.
pub proof fn lemma_codec_round_trip(v: Val)
    ensures
        decode_model(encode_model(v)) == Some(v),
    decreases v,
{
    match v {
        Val::List(xs) => {
            lemma_codec_round_trip_seq(xs);
        },
        Val::Record(fs) => {
            lemma_codec_round_trip_fields(fs);
        },
        _ => {},
    }
}

proof fn lemma_codec_round_trip_seq(xs: Seq<Val>)
    ensures
        decode_model_seq(encode_model_seq(xs)) == Some(xs),
    decreases xs,
{
    if xs.len() == 0 {
        assert(decode_model_seq(encode_model_seq(xs)) == Some(xs));
    } else {
        lemma_codec_round_trip(xs[0]);
        lemma_codec_round_trip_seq(xs.drop_first());
        let hs = encode_model_seq(xs);
        assert(hs[0] == encode_model(xs[0]));
        assert(hs.drop_first() =~= encode_model_seq(xs.drop_first()));
        assert(seq![xs[0]] + xs.drop_first() =~= xs);
    }
}

proof fn lemma_codec_round_trip_fields(fs: Seq<(Seq<char>, Val)>)
    ensures
        decode_model_fields(encode_model_fields(fs)) == Some(fs),
    decreases fs,
{
    if fs.len() == 0 {
        assert(decode_model_fields(encode_model_fields(fs)) == Some(fs));
    } else {
        lemma_codec_round_trip(fs[0].1);
        lemma_codec_round_trip_fields(fs.drop_first());
        let gs = encode_model_fields(fs);
        assert(gs[0] == (fs[0].0, encode_model(fs[0].1)));
        assert(gs.drop_first() =~= encode_model_fields(fs.drop_first()));
        assert(seq![fs[0]] + fs.drop_first() =~= fs);
    }
}

/// One database value: a record of named fields, a scalar, a list, or null.
#[derive(Debug, PartialEq, Eq)]
pub enum RowValue {
    Null,
    Bool(bool),
    Int(i64),
    Text(String),
    Bytes(Vec<u8>),
    DateTime(i64),
    List(Vec<RowValue>),
    Record(Vec<(String, RowValue)>),
}

impl RowValue {
    pub open spec fn model(self) -> Val
        decreases self,
    {
        match self {
            RowValue::Null => Val::Null,
            RowValue::Bool(b) => Val::Bool(b),
            RowValue::Int(n) => Val::Int(n),
            RowValue::Text(s) => Val::Text(s@),
            RowValue::Bytes(b) => Val::Bytes(b@),
            RowValue::DateTime(t) => Val::DateTime(t),
            RowValue::List(xs) => Val::List(Self::model_seq(xs@)),
            RowValue::Record(fs) => Val::Record(Self::model_fields(fs@)),
        }
    }

    pub open spec fn model_seq(xs: Seq<RowValue>) -> Seq<Val>
        decreases xs,
    {
        if xs.len() == 0 {
            Seq::empty()
        } else {
            seq![xs[0].model()] + Self::model_seq(xs.drop_first())
        }
    }

    pub open spec fn model_fields(fs: Seq<(String, RowValue)>) -> Seq<(Seq<char>, Val)>
        decreases fs,
    {
        if fs.len() == 0 {
            Seq::empty()
        } else {
            seq![(fs[0].0@, fs[0].1.model())] + Self::model_fields(fs.drop_first())
        }
    }
}

/// One value in the host environment's native representation. `Undefined`
/// is the shape the store cannot hold; decoding rejects it.
#[derive(Debug, PartialEq, Eq)]
pub enum HostValue {
    Null,
    Undefined,
    Bool(bool),
    Int(i64),
    Text(String),
    Blob(Vec<u8>),
    Time(i64),
    Array(Vec<HostValue>),
    Object(Vec<(String, HostValue)>),
}

impl HostValue {
    pub open spec fn model(self) -> HostVal
        decreases self,
    {
        match self {
            HostValue::Null => HostVal::Null,
            HostValue::Undefined => HostVal::Undefined,
            HostValue::Bool(b) => HostVal::Bool(b),
            HostValue::Int(n) => HostVal::Int(n),
            HostValue::Text(s) => HostVal::Text(s@),
            HostValue::Blob(b) => HostVal::Blob(b@),
            HostValue::Time(t) => HostVal::Time(t),
            HostValue::Array(hs) => HostVal::Array(Self::model_seq(hs@)),
            HostValue::Object(gs) => HostVal::Object(Self::model_fields(gs@)),
        }
    }

    pub open spec fn model_seq(hs: Seq<HostValue>) -> Seq<HostVal>
        decreases hs,
    {
        if hs.len() == 0 {
            Seq::empty()
        } else {
            seq![hs[0].model()] + Self::model_seq(hs.drop_first())
        }
    }

    pub open spec fn model_fields(gs: Seq<(String, HostValue)>) -> Seq<(Seq<char>, HostVal)>
        decreases gs,
    {
        if gs.len() == 0 {
            Seq::empty()
        } else {
            seq![(gs[0].0@, gs[0].1.model())] + Self::model_fields(gs.drop_first())
        }
    }
}

proof fn lemma_row_model_seq(xs: Seq<RowValue>)
    ensures
        RowValue::model_seq(xs).len() == xs.len(),
        forall|i: int| 0 <= i < xs.len() ==> RowValue::model_seq(xs)[i] == xs[i].model(),
    decreases xs,
{
    if xs.len() > 0 {
        lemma_row_model_seq(xs.drop_first());
        assert forall|i: int| 0 <= i < xs.len() implies RowValue::model_seq(xs)[i]
            == xs[i].model() by {
            if i > 0 {
                assert(RowValue::model_seq(xs)[i] == RowValue::model_seq(xs.drop_first())[i - 1]);
                assert(xs.drop_first()[i - 1] == xs[i]);
            }
        }
    }
}

proof fn lemma_row_model_fields(fs: Seq<(String, RowValue)>)
    ensures
        RowValue::model_fields(fs).len() == fs.len(),
        forall|i: int| 0 <= i < fs.len() ==> RowValue::model_fields(fs)[i] == (
        fs[i].0@,
        fs[i].1.model(),
        ),
    decreases fs,
{
    if fs.len() > 0 {
        lemma_row_model_fields(fs.drop_first());
        assert forall|i: int| 0 <= i < fs.len() implies RowValue::model_fields(fs)[i] == (
        fs[i].0@,
        fs[i].1.model(),
        ) by {
            if i > 0 {
                assert(RowValue::model_fields(fs)[i] == RowValue::model_fields(
                    fs.drop_first(),
                )[i - 1]);
                assert(fs.drop_first()[i - 1] == fs[i]);
            }
        }
    }
}

proof fn lemma_host_model_seq(hs: Seq<HostValue>)
    ensures
        HostValue::model_seq(hs).len() == hs.len(),
        forall|i: int| 0 <= i < hs.len() ==> HostValue::model_seq(hs)[i] == hs[i].model(),
    decreases hs,
{
    if hs.len() > 0 {
        lemma_host_model_seq(hs.drop_first());
        assert forall|i: int| 0 <= i < hs.len() implies HostValue::model_seq(hs)[i]
            == hs[i].model() by {
            if i > 0 {
                assert(HostValue::model_seq(hs)[i] == HostValue::model_seq(hs.drop_first())[i - 1]);
                assert(hs.drop_first()[i - 1] == hs[i]);
            }
        }
    }
}

proof fn lemma_host_model_fields(gs: Seq<(String, HostValue)>)
    ensures
        HostValue::model_fields(gs).len() == gs.len(),
        forall|i: int| 0 <= i < gs.len() ==> HostValue::model_fields(gs)[i] == (
        gs[i].0@,
        gs[i].1.model(),
        ),
    decreases gs,
{
    if gs.len() > 0 {
        lemma_host_model_fields(gs.drop_first());
        assert forall|i: int| 0 <= i < gs.len() implies HostValue::model_fields(gs)[i] == (
        gs[i].0@,
        gs[i].1.model(),
        ) by {
            if i > 0 {
                assert(HostValue::model_fields(gs)[i] == HostValue::model_fields(
                    gs.drop_first(),
                )[i - 1]);
                assert(gs.drop_first()[i - 1] == gs[i]);
            }
        }
    }
}

proof fn lemma_encode_model_seq_pointwise(xs: Seq<Val>)
    ensures
        encode_model_seq(xs).len() == xs.len(),
        forall|i: int| 0 <= i < xs.len() ==> encode_model_seq(xs)[i] == encode_model(xs[i]),
    decreases xs,
{
    if xs.len() > 0 {
        lemma_encode_model_seq_pointwise(xs.drop_first());
        assert forall|i: int| 0 <= i < xs.len() implies encode_model_seq(xs)[i] == encode_model(
            xs[i],
        ) by {
            if i > 0 {
                assert(encode_model_seq(xs)[i] == encode_model_seq(xs.drop_first())[i - 1]);
                assert(xs.drop_first()[i - 1] == xs[i]);
            }
        }
    }
}

proof fn lemma_encode_model_fields_pointwise(fs: Seq<(Seq<char>, Val)>)
    ensures
        encode_model_fields(fs).len() == fs.len(),
        forall|i: int| 0 <= i < fs.len() ==> encode_model_fields(fs)[i] == (
        fs[i].0,
        encode_model(fs[i].1),
        ),
    decreases fs,
{
    if fs.len() > 0 {
        lemma_encode_model_fields_pointwise(fs.drop_first());
        assert forall|i: int| 0 <= i < fs.len() implies encode_model_fields(fs)[i] == (
        fs[i].0,
        encode_model(fs[i].1),
        ) by {
            if i > 0 {
                assert(encode_model_fields(fs)[i] == encode_model_fields(fs.drop_first())[i - 1]);
                assert(fs.drop_first()[i - 1] == fs[i]);
            }
        }
    }
}

proof fn lemma_decode_model_seq_pointwise(hs: Seq<HostVal>)
    ensures
        decode_model_seq(hs) is Some <==> (forall|i: int|
            0 <= i < hs.len() ==> decode_model(hs[i]) is Some),
        decode_model_seq(hs) matches Some(xs) ==> xs.len() == hs.len() && (forall|i: int|
            0 <= i < hs.len() ==> decode_model(hs[i]) == Some(xs[i])),
    decreases hs,
{
    if hs.len() > 0 {
        lemma_decode_model_seq_pointwise(hs.drop_first());
        if decode_model_seq(hs) is Some {
            let xs = decode_model_seq(hs)->Some_0;
            assert forall|i: int| 0 <= i < hs.len() implies decode_model(hs[i]) == Some(
                xs[i],
            ) by {
                if i > 0 {
                    assert(hs.drop_first()[i - 1] == hs[i]);
                    assert(xs[i] == decode_model_seq(hs.drop_first())->Some_0[i - 1]);
                }
            }
        } else {
            if forall|i: int| 0 <= i < hs.len() ==> decode_model(hs[i]) is Some {
                assert(decode_model(hs[0]) is Some);
                assert forall|i: int| 0 <= i < hs.drop_first().len() implies decode_model(
                    hs.drop_first()[i],
                ) is Some by {
                    assert(hs.drop_first()[i] == hs[i + 1]);
                }
                assert(decode_model_seq(hs.drop_first()) is Some);
                assert(false);
            }
        }
    }
}

proof fn lemma_decode_model_fields_pointwise(gs: Seq<(Seq<char>, HostVal)>)
    ensures
        decode_model_fields(gs) is Some <==> (forall|i: int|
            0 <= i < gs.len() ==> decode_model(gs[i].1) is Some),
        decode_model_fields(gs) matches Some(fs) ==> fs.len() == gs.len() && (forall|i: int|
            0 <= i < gs.len() ==> fs[i].0 == gs[i].0 && decode_model(gs[i].1) == Some(fs[i].1)),
    decreases gs,
{
    if gs.len() > 0 {
        lemma_decode_model_fields_pointwise(gs.drop_first());
        if decode_model_fields(gs) is Some {
            let fs = decode_model_fields(gs)->Some_0;
            assert forall|i: int| 0 <= i < gs.len() implies fs[i].0 == gs[i].0 && decode_model(
                gs[i].1,
            ) == Some(fs[i].1) by {
                if i > 0 {
                    assert(gs.drop_first()[i - 1] == gs[i]);
                    assert(fs[i] == decode_model_fields(gs.drop_first())->Some_0[i - 1]);
                }
            }
        } else {
            if forall|i: int| 0 <= i < gs.len() ==> decode_model(gs[i].1) is Some {
                assert(decode_model(gs[0].1) is Some);
                assert forall|i: int| 0 <= i < gs.drop_first().len() implies decode_model(
                    gs.drop_first()[i].1,
                ) is Some by {
                    assert(gs.drop_first()[i] == gs[i + 1]);
                }
                assert(decode_model_fields(gs.drop_first()) is Some);
                assert(false);
            }
        }
    }
}

/// Byte-for-byte copy of a byte vector.
fn copy_bytes(b: &Vec<u8>) -> (r: Vec<u8>)
    ensures
        r@ == b@,
{
    let mut r: Vec<u8> = Vec::new();
    let mut i: usize = 0;
    while i < b.len()
        invariant
            i <= b.len(),
            r@ =~= b@.take(i as int),
        decreases b.len() - i,
    {
        r.push(b[i]);
        i += 1;
    }
    proof {
        assert(r@ =~= b@);
    }
    r
}

/// Convert one row value to the host representation. Total: every row
/// value the query layer produces has a host form.
#[verifier::loop_isolation(false)]
pub fn encode_value(v: &RowValue) -> (h: HostValue)
    ensures
        h.model() == encode_model(v.model()),
    decreases *v,
{
    match v {
        RowValue::Null => HostValue::Null,
        RowValue::Bool(b) => HostValue::Bool(*b),
        RowValue::Int(n) => HostValue::Int(*n),
        RowValue::Text(s) => HostValue::Text(s.clone()),
        RowValue::Bytes(b) => HostValue::Blob(copy_bytes(b)),
        RowValue::DateTime(t) => HostValue::Time(*t),
        RowValue::List(xs) => {
            let mut out: Vec<HostValue> = Vec::new();
            let mut i: usize = 0;
            while i < xs.len()
                invariant
                    i <= xs.len(),
                    out@.len() == i as int,
                    forall|j: int| 0 <= j < i ==> out@[j].model() == encode_model(xs@[j].model()),
                decreases xs.len() - i,
            {
                let hv = encode_value(&xs[i]);
                out.push(hv);
                i += 1;
            }
            proof {
                lemma_row_model_seq(xs@);
                lemma_host_model_seq(out@);
                lemma_encode_model_seq_pointwise(RowValue::model_seq(xs@));
                assert(HostValue::model_seq(out@) =~= encode_model_seq(RowValue::model_seq(xs@)));
            }
            HostValue::Array(out)
        },
        RowValue::Record(fs) => {
            let mut out: Vec<(String, HostValue)> = Vec::new();
            let mut i: usize = 0;
            while i < fs.len()
                invariant
                    i <= fs.len(),
                    out@.len() == i as int,
                    forall|j: int|
                        0 <= j < i ==> out@[j].0@ == fs@[j].0@ && out@[j].1.model() == encode_model(
                            fs@[j].1.model(),
                        ),
                decreases fs.len() - i,
            {
                let name = fs[i].0.clone();
                let hv = encode_value(&fs[i].1);
                out.push((name, hv));
                i += 1;
            }
            proof {
                lemma_row_model_fields(fs@);
                lemma_host_model_fields(out@);
                lemma_encode_model_fields_pointwise(RowValue::model_fields(fs@));
                assert(HostValue::model_fields(out@) =~= encode_model_fields(
                    RowValue::model_fields(fs@),
                ));
            }
            HostValue::Object(out)
        },
    }
}

/// Convert one host value into a row value. Fails with `ConversionError`
/// exactly on the host shapes the store cannot hold; never coerces.
#[verifier::loop_isolation(false)]
pub fn decode_value(h: &HostValue) -> (r: Result<RowValue, DataError>)
    ensures
        r matches Ok(v) ==> decode_model(h.model()) == Some(v.model()),
        r is Err ==> decode_model(h.model()) is None,
        r matches Err(e) ==> e is ConversionError,
    decreases *h,
{
    match h {
        HostValue::Null => Ok(RowValue::Null),
        HostValue::Undefined => Err(DataError::ConversionError),
        HostValue::Bool(b) => Ok(RowValue::Bool(*b)),
        HostValue::Int(n) => Ok(RowValue::Int(*n)),
        HostValue::Text(s) => Ok(RowValue::Text(s.clone())),
        HostValue::Blob(b) => Ok(RowValue::Bytes(copy_bytes(b))),
        HostValue::Time(t) => Ok(RowValue::DateTime(*t)),
        HostValue::Array(hs) => {
            let mut out: Vec<RowValue> = Vec::new();
            let mut i: usize = 0;
            while i < hs.len()
                invariant
                    i <= hs.len(),
                    out@.len() == i as int,
                    forall|j: int|
                        0 <= j < i ==> decode_model(hs@[j].model()) == Some(out@[j].model()),
                decreases hs.len() - i,
            {
                match decode_value(&hs[i]) {
                    Ok(v) => {
                        out.push(v);
                    },
                    Err(_) => {
                        proof {
                            lemma_host_model_seq(hs@);
                            lemma_decode_model_seq_pointwise(HostValue::model_seq(hs@));
                            assert(decode_model(HostValue::model_seq(hs@)[i as int]) is None);
                        }
                        return Err(DataError::ConversionError);
                    },
                }
                i += 1;
            }
            proof {
                lemma_host_model_seq(hs@);
                lemma_row_model_seq(out@);
                lemma_decode_model_seq_pointwise(HostValue::model_seq(hs@));
                assert(decode_model_seq(HostValue::model_seq(hs@)) is Some);
                assert(decode_model_seq(HostValue::model_seq(hs@))->Some_0 =~= RowValue::model_seq(
                    out@,
                ));
            }
            Ok(RowValue::List(out))
        },
        HostValue::Object(gs) => {
            let mut out: Vec<(String, RowValue)> = Vec::new();
            let mut i: usize = 0;
            while i < gs.len()
                invariant
                    i <= gs.len(),
                    out@.len() == i as int,
                    forall|j: int|
                        0 <= j < i ==> out@[j].0@ == gs@[j].0@ && decode_model(gs@[j].1.model())
                            == Some(out@[j].1.model()),
                decreases gs.len() - i,
            {
                let name = gs[i].0.clone();
                match decode_value(&gs[i].1) {
                    Ok(v) => {
                        out.push((name, v));
                    },
                    Err(_) => {
                        proof {
                            lemma_host_model_fields(gs@);
                            lemma_decode_model_fields_pointwise(HostValue::model_fields(gs@));
                            assert(decode_model(HostValue::model_fields(gs@)[i as int].1) is None);
                        }
                        return Err(DataError::ConversionError);
                    },
                }
                i += 1;
            }
            proof {
                lemma_host_model_fields(gs@);
                lemma_row_model_fields(out@);
                lemma_decode_model_fields_pointwise(HostValue::model_fields(gs@));
                assert(decode_model_fields(HostValue::model_fields(gs@)) is Some);
                assert(decode_model_fields(HostValue::model_fields(gs@))->Some_0
                    =~= RowValue::model_fields(out@));
            }
            Ok(RowValue::Record(out))
        },
    }
}

} // verus!

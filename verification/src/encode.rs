//! Flattening a JSON document into a query string.
//!
//! The scheme is pinned down exactly, so that the encoding of a document is
//! a function of the document alone:
//! - the top level must be an object; its fields become `name=value` pairs
//!   joined by `&`, in insertion order;
//! - a nested object field appends `[key]` to the name, a nested array
//!   element appends `[index]` with a decimal index, as in `a[b]=1`,
//!   `c[0]=2`, `c[1]=3`;
//! - scalar values are written as their text: `null` as the empty value,
//!   booleans as `true`/`false`, numbers as their canonical text, strings
//!   as their content;
//! - every key segment and every scalar text is percent-encoded; brackets,
//!   `=` and `&` written by the scheme itself stay bare;
//! - an object or array with nothing in it contributes no pairs.

use vstd::prelude::*;

use crate::bytes::append_bytes;
use crate::json::Json;
use crate::json::JsonModel;
use crate::json::lemma_model_fields;
use crate::json::lemma_model_items;
use crate::percent::lemma_pct_round_trip;
use crate::percent::pct_decode_spec;
use crate::percent::pct_encode;
use crate::percent::pct_encode_spec;

verus! {

pub const AMP: u8 = 0x26;  // '&'

pub const EQUALS: u8 = 0x3d;  // '='

pub const LBRACKET: u8 = 0x5b;  // '['

pub const RBRACKET: u8 = 0x5d;  // ']'

/// The decimal text of a number, most significant digit first.
pub open spec fn dec_digits(n: nat) -> Seq<u8>
    decreases n,
{
    if n < 10 {
        seq![(0x30 + n) as u8]
    } else {
        dec_digits(n / 10).push((0x30 + n % 10) as u8)
    }
}

/// The text a scalar value is written as (before percent-encoding).
pub open spec fn scalar_text(v: JsonModel) -> Seq<u8>
    recommends
        !(v is Arr),
        !(v is Obj),
{
    match v {
        JsonModel::Null => Seq::empty(),
        JsonModel::Bool(b) => if b {
            seq![0x74u8, 0x72, 0x75, 0x65]  // "true"
        } else {
            seq![0x66u8, 0x61, 0x6c, 0x73, 0x65]  // "false"
        },
        JsonModel::Num(t) => t,
        JsonModel::Str(t) => t,
        _ => Seq::empty(),
    }
}

/// The `name=value` pairs a value contributes under the (already encoded)
/// name `key`.
pub open spec fn qs_pairs(key: Seq<u8>, v: JsonModel) -> Seq<Seq<u8>>
    decreases v,
{
    match v {
        JsonModel::Arr(items) => qs_pairs_arr(key, items),
        JsonModel::Obj(fields) => qs_pairs_obj(key, fields),
        _ => seq![key + seq![EQUALS] + pct_encode_spec(scalar_text(v))],
    }
}

/// The pairs of an array: element `i` is written under `key[i]`.
pub open spec fn qs_pairs_arr(key: Seq<u8>, items: Seq<JsonModel>) -> Seq<Seq<u8>>
    decreases items,
    via qs_pairs_arr_decreases
{
    if items.len() == 0 {
        Seq::empty()
    } else {
        qs_pairs_arr(key, items.subrange(0, items.len() - 1)) + qs_pairs(
            key + seq![LBRACKET] + dec_digits((items.len() - 1) as nat) + seq![RBRACKET],
            items[items.len() - 1],
        )
    }
}

/// The pairs of an object: a field `k` is written under `key[k]` with the
/// key segment percent-encoded.
pub open spec fn qs_pairs_obj(key: Seq<u8>, fields: Seq<(Seq<u8>, JsonModel)>) -> Seq<Seq<u8>>
    decreases fields,
    via qs_pairs_obj_decreases
{
    if fields.len() == 0 {
        Seq::empty()
    } else {
        qs_pairs_obj(key, fields.subrange(0, fields.len() - 1)) + qs_pairs(
            key + seq![LBRACKET] + pct_encode_spec(fields[fields.len() - 1].0) + seq![RBRACKET],
            fields[fields.len() - 1].1,
        )
    }
}

#[via_fn]
proof fn qs_pairs_arr_decreases(key: Seq<u8>, items: Seq<JsonModel>) {
    if items.len() > 0 {
        assert(decreases_to!(items => items.subrange(0, items.len() - 1)));
        assert(decreases_to!(items => items[items.len() - 1]));
    }
}

#[via_fn]
proof fn qs_pairs_obj_decreases(key: Seq<u8>, fields: Seq<(Seq<u8>, JsonModel)>) {
    if fields.len() > 0 {
        assert(decreases_to!(fields => fields.subrange(0, fields.len() - 1)));
        assert(decreases_to!(fields => fields[fields.len() - 1]));
    }
}

/// The pairs of the whole document: a top-level field `k` is written under
/// the bare (percent-encoded) name `k`.
pub open spec fn top_pairs(fields: Seq<(Seq<u8>, JsonModel)>) -> Seq<Seq<u8>>
    decreases fields,
    via top_pairs_decreases
{
    if fields.len() == 0 {
        Seq::empty()
    } else {
        top_pairs(fields.subrange(0, fields.len() - 1)) + qs_pairs(
            pct_encode_spec(fields[fields.len() - 1].0),
            fields[fields.len() - 1].1,
        )
    }
}

#[via_fn]
proof fn top_pairs_decreases(fields: Seq<(Seq<u8>, JsonModel)>) {
    if fields.len() > 0 {
        assert(decreases_to!(fields => fields.subrange(0, fields.len() - 1)));
        assert(decreases_to!(fields => fields[fields.len() - 1]));
    }
}

/// Pairs joined by `&`.
pub open spec fn join_amp(chunks: Seq<Seq<u8>>) -> Seq<u8>
    decreases chunks.len(),
{
    if chunks.len() == 0 {
        Seq::empty()
    } else if chunks.len() == 1 {
        chunks[0]
    } else {
        join_amp(chunks.subrange(0, chunks.len() - 1)) + seq![AMP] + chunks[chunks.len() - 1]
    }
}

/// The query string of a document: defined exactly when the top level is an
/// object. This function of the document alone is what `encode` returns, so
/// encoding is deterministic.
pub open spec fn encode_spec(v: JsonModel) -> Option<Seq<u8>> {
    match v {
        JsonModel::Obj(fields) => Some(join_amp(top_pairs(fields))),
        _ => None,
    }
}

pub open spec fn all_nonempty(chunks: Seq<Seq<u8>>) -> bool {
    forall|i: int| 0 <= i < chunks.len() ==> #[trigger] chunks[i].len() > 0
}

/// A join of nonempty pairs is empty exactly when there are no pairs.
proof fn lemma_join_amp_empty(chunks: Seq<Seq<u8>>)
    requires
        all_nonempty(chunks),
    ensures
        join_amp(chunks).len() > 0 <==> chunks.len() > 0,
    decreases chunks.len(),
{
    if chunks.len() > 1 {
        assert(all_nonempty(chunks.subrange(0, chunks.len() - 1)));
        lemma_join_amp_empty(chunks.subrange(0, chunks.len() - 1));
    }
}

proof fn lemma_all_nonempty_concat(a: Seq<Seq<u8>>, b: Seq<Seq<u8>>)
    requires
        all_nonempty(a),
        all_nonempty(b),
    ensures
        all_nonempty(a + b),
{
    assert forall|i: int| 0 <= i < (a + b).len() implies #[trigger] (a + b)[i].len() > 0 by {
        if i < a.len() {
            assert((a + b)[i] == a[i]);
        } else {
            assert((a + b)[i] == b[i - a.len()]);
        }
    }
}

/// The decimal text of a number.
fn dec_render(n: usize) -> (r: Vec<u8>)
    ensures
        r@ == dec_digits(n as nat),
    decreases n,
{
    if n < 10 {
        let mut r: Vec<u8> = Vec::new();
        r.push(0x30 + (n as u8));
        proof {
            assert(r@ =~= seq![(0x30 + n) as u8]);
        }
        r
    } else {
        let mut r = dec_render(n / 10);
        r.push(0x30 + ((n % 10) as u8));
        r
    }
}

/// Write one `name=value` pair for a scalar, with a `&` before it when pairs
/// are already in the buffer.
fn emit_scalar(
    key: &Vec<u8>,
    text: &[u8],
    out: &mut Vec<u8>,
    pairs: Ghost<Seq<Seq<u8>>>,
    model: Ghost<JsonModel>,
)
    requires
        old(out)@ == join_amp(pairs@),
        all_nonempty(pairs@),
        !(model@ is Arr),
        !(model@ is Obj),
        text@ == scalar_text(model@),
    ensures
        final(out)@ == join_amp(pairs@ + qs_pairs(key@, model@)),
        all_nonempty(pairs@ + qs_pairs(key@, model@)),
{
    proof {
        lemma_join_amp_empty(pairs@);
    }
    if out.len() > 0 {
        out.push(AMP);
    }
    append_bytes(out, key.as_slice());
    out.push(EQUALS);
    let enc = pct_encode(text);
    append_bytes(out, enc.as_slice());
    proof {
        let c = key@ + seq![EQUALS] + pct_encode_spec(scalar_text(model@));
        let all = pairs@.push(c);
        assert(qs_pairs(key@, model@) =~= seq![c]);
        assert(pairs@ + qs_pairs(key@, model@) =~= all);
        assert(all.subrange(0, pairs@.len() as int) =~= pairs@);
        if pairs@.len() == 0 {
            assert(out@ =~= c);
            assert(join_amp(all) == all[0]);
        } else {
            assert(out@ =~= join_amp(pairs@) + seq![AMP] + c);
            assert(join_amp(all) == join_amp(all.subrange(0, all.len() - 1)) + seq![AMP] + all[all.len() - 1]);
        }
        assert(c.len() > 0);
        lemma_all_nonempty_concat(pairs@, seq![c]);
    }
}

/// Write every pair a value contributes under `key` into the buffer,
/// after the pairs already there.
fn emit(key: &Vec<u8>, v: &Json, out: &mut Vec<u8>, pairs: Ghost<Seq<Seq<u8>>>)
    requires
        old(out)@ == join_amp(pairs@),
        all_nonempty(pairs@),
    ensures
        final(out)@ == join_amp(pairs@ + qs_pairs(key@, v@)),
        all_nonempty(pairs@ + qs_pairs(key@, v@)),
    decreases *v,
{
    match v {
        Json::Null => {
            let tv: Vec<u8> = Vec::new();
            emit_scalar(key, tv.as_slice(), out, pairs, Ghost(v@));
        },
        Json::Bool(b) => {
            let mut tv: Vec<u8> = Vec::new();
            if *b {
                tv.push(0x74);
                tv.push(0x72);
                tv.push(0x75);
                tv.push(0x65);
                proof {
                    assert(tv@ =~= seq![0x74u8, 0x72, 0x75, 0x65]);
                }
            } else {
                tv.push(0x66);
                tv.push(0x61);
                tv.push(0x6c);
                tv.push(0x73);
                tv.push(0x65);
                proof {
                    assert(tv@ =~= seq![0x66u8, 0x61, 0x6c, 0x73, 0x65]);
                }
            }
            emit_scalar(key, tv.as_slice(), out, pairs, Ghost(v@));
        },
        Json::Num(t) => {
            emit_scalar(key, t.as_slice(), out, pairs, Ghost(v@));
        },
        Json::Str(t) => {
            emit_scalar(key, t.as_slice(), out, pairs, Ghost(v@));
        },
        Json::Arr(items) => {
            let ghost m = Json::model_items(items@);
            proof {
                lemma_model_items(items@);
                assert(m.take(0) =~= Seq::<JsonModel>::empty());
            }
            let mut i: usize = 0;
            while i < items.len()
                invariant
                    i <= items@.len(),
                    m == Json::model_items(items@),
                    m.len() == items@.len(),
                    forall|j: int| 0 <= j < items@.len() ==> m[j] == #[trigger] items@[j].model(),
                    v@ == JsonModel::Arr(m),
                    *v == Json::Arr(*items),
                    out@ == join_amp(pairs@ + qs_pairs_arr(key@, m.take(i as int))),
                    all_nonempty(pairs@ + qs_pairs_arr(key@, m.take(i as int))),
                decreases items@.len() - i,
            {
                let mut ck: Vec<u8> = Vec::new();
                append_bytes(&mut ck, key.as_slice());
                ck.push(LBRACKET);
                let d = dec_render(i);
                append_bytes(&mut ck, d.as_slice());
                ck.push(RBRACKET);
                proof {
                    assert(ck@ =~= key@ + seq![LBRACKET] + dec_digits(i as nat) + seq![RBRACKET]);
                    assert(decreases_to!(*items => items@[i as int]));
                }
                emit(&ck, &items[i], out, Ghost(pairs@ + qs_pairs_arr(key@, m.take(i as int))));
                proof {
                    let prev = qs_pairs_arr(key@, m.take(i as int));
                    let step = qs_pairs(ck@, m[i as int]);
                    assert(m.take(i as int + 1).subrange(0, i as int) =~= m.take(i as int));
                    assert(m.take(i as int + 1)[i as int] == m[i as int]);
                    assert(qs_pairs_arr(key@, m.take(i as int + 1)) =~= prev + step);
                    assert((pairs@ + prev) + step =~= pairs@ + (prev + step));
                }
                i += 1;
            }
            proof {
                assert(m.take(m.len() as int) =~= m);
            }
        },
        Json::Obj(fields) => {
            let ghost m = Json::model_fields(fields@);
            proof {
                lemma_model_fields(fields@);
                assert(m.take(0) =~= Seq::<(Seq<u8>, JsonModel)>::empty());
            }
            let mut i: usize = 0;
            while i < fields.len()
                invariant
                    i <= fields@.len(),
                    m == Json::model_fields(fields@),
                    m.len() == fields@.len(),
                    forall|j: int|
                        0 <= j < fields@.len() ==> m[j] == (
                        #[trigger] fields@[j].0@,
                        fields@[j].1.model(),
                        ),
                    v@ == JsonModel::Obj(m),
                    *v == Json::Obj(*fields),
                    out@ == join_amp(pairs@ + qs_pairs_obj(key@, m.take(i as int))),
                    all_nonempty(pairs@ + qs_pairs_obj(key@, m.take(i as int))),
                decreases fields@.len() - i,
            {
                let mut ck: Vec<u8> = Vec::new();
                append_bytes(&mut ck, key.as_slice());
                ck.push(LBRACKET);
                let ek = pct_encode(fields[i].0.as_slice());
                append_bytes(&mut ck, ek.as_slice());
                ck.push(RBRACKET);
                proof {
                    assert(ck@ =~= key@ + seq![LBRACKET] + pct_encode_spec(fields@[i as int].0@)
                        + seq![RBRACKET]);
                    assert(decreases_to!(*fields => fields@[i as int]));
                }
                emit(&ck, &fields[i].1, out, Ghost(pairs@ + qs_pairs_obj(key@, m.take(i as int))));
                proof {
                    let prev = qs_pairs_obj(key@, m.take(i as int));
                    let step = qs_pairs(ck@, m[i as int].1);
                    assert(m.take(i as int + 1).subrange(0, i as int) =~= m.take(i as int));
                    assert(m.take(i as int + 1)[i as int] == m[i as int]);
                    assert(qs_pairs_obj(key@, m.take(i as int + 1)) =~= prev + step);
                    assert((pairs@ + prev) + step =~= pairs@ + (prev + step));
                }
                i += 1;
            }
            proof {
                assert(m.take(m.len() as int) =~= m);
            }
        },
    }
}

/// A scalar's pair carries the percent-encoding of its text, and decoding
/// that value part restores the text exactly.
pub proof fn lemma_scalar_value_round_trip(key: Seq<u8>, v: JsonModel)
    requires
        !(v is Arr),
        !(v is Obj),
    ensures
        qs_pairs(key, v) == seq![key + seq![EQUALS] + pct_encode_spec(scalar_text(v))],
        pct_decode_spec(pct_encode_spec(scalar_text(v))) == Some(scalar_text(v)),
{
    lemma_pct_round_trip(scalar_text(v));
}

/// Flattening is deterministic: any two query strings obtained for the
/// same document are the same bytes.
pub proof fn lemma_encode_deterministic(v: JsonModel, q1: Seq<u8>, q2: Seq<u8>)
    requires
        encode_spec(v) == Some(q1),
        encode_spec(v) == Some(q2),
    ensures
        q1 == q2,
{
}

/// Why a document cannot be flattened into a query string.
#[derive(Clone, Copy, Debug, PartialEq, Eq, Structural)]
pub enum EncodeError {
    /// Only an object can stand at the top level of a query string.
    TopLevelNotObject,
}

/// Flatten a JSON document into a query string.
///
/// The result is `encode_spec` of the document's model: a function of the
/// document alone, so two calls on the same document give the same bytes.
/// It is `Ok` exactly when the top level is an object.
pub fn encode(v: &Json) -> (r: Result<Vec<u8>, EncodeError>)
    ensures
        match r {
            Ok(q) => encode_spec(v@) == Some(q@),
            Err(_) => encode_spec(v@) is None,
        },
        r is Ok <==> v@ is Obj,
{
    match v {
        Json::Obj(fields) => {
            let ghost m = Json::model_fields(fields@);
            proof {
                lemma_model_fields(fields@);
                assert(m.take(0) =~= Seq::<(Seq<u8>, JsonModel)>::empty());
            }
            let mut out: Vec<u8> = Vec::new();
            let mut i: usize = 0;
            while i < fields.len()
                invariant
                    i <= fields@.len(),
                    m == Json::model_fields(fields@),
                    m.len() == fields@.len(),
                    forall|j: int|
                        0 <= j < fields@.len() ==> m[j] == (
                        #[trigger] fields@[j].0@,
                        fields@[j].1.model(),
                        ),
                    out@ == join_amp(top_pairs(m.take(i as int))),
                    all_nonempty(top_pairs(m.take(i as int))),
                decreases fields@.len() - i,
            {
                let ek = pct_encode(fields[i].0.as_slice());
                emit(&ek, &fields[i].1, &mut out, Ghost(top_pairs(m.take(i as int))));
                proof {
                    let prev = top_pairs(m.take(i as int));
                    let step = qs_pairs(ek@, m[i as int].1);
                    assert(m.take(i as int + 1).subrange(0, i as int) =~= m.take(i as int));
                    assert(m.take(i as int + 1)[i as int] == m[i as int]);
                    assert(top_pairs(m.take(i as int + 1)) =~= prev + step);
                }
                i += 1;
            }
            proof {
                assert(m.take(m.len() as int) =~= m);
                assert(v@ == JsonModel::Obj(m));
            }
            Ok(out)
        },
        _ => Err(EncodeError::TopLevelNotObject),
    }
}

} // verus!

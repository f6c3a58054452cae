//! The library's own JSON document type and its mathematical model.
//!
//! Numbers and strings are carried as the UTF-8 bytes of their text: a
//! number keeps the canonical text it was parsed to (`1`, `-2`, `1.5`), a
//! string keeps its decoded content. Object fields keep their insertion
//! order, which makes every traversal of a document deterministic.

use vstd::prelude::*;

verus! {

/// The model of a JSON document, used by every contract of the library.
pub enum JsonModel {
    Null,
    Bool(bool),
    /// The canonical text of the number, as bytes.
    Num(Seq<u8>),
    /// The decoded content of the string, as UTF-8 bytes.
    Str(Seq<u8>),
    Arr(Seq<JsonModel>),
    /// Fields in insertion order; duplicate keys are kept as given.
    Obj(Seq<(Seq<u8>, JsonModel)>),
}

/// A JSON document as executable data.
pub enum Json {
    Null,
    Bool(bool),
    /// The canonical text of the number, as bytes.
    Num(Vec<u8>),
    /// The decoded content of the string, as UTF-8 bytes.
    Str(Vec<u8>),
    Arr(Vec<Json>),
    /// Fields in insertion order.
    Obj(Vec<(Vec<u8>, Json)>),
}

impl Json {
    pub open spec fn model(self) -> JsonModel
        decreases self,
        via Self::model_decreases
    {
        match self {
            Json::Null => JsonModel::Null,
            Json::Bool(b) => JsonModel::Bool(b),
            Json::Num(t) => JsonModel::Num(t@),
            Json::Str(t) => JsonModel::Str(t@),
            Json::Arr(items) => JsonModel::Arr(Json::model_items(items@)),
            Json::Obj(fields) => JsonModel::Obj(Json::model_fields(fields@)),
        }
    }

    pub open spec fn model_items(s: Seq<Json>) -> Seq<JsonModel>
        decreases s,
        via Self::model_items_decreases
    {
        if s.len() == 0 {
            Seq::empty()
        } else {
            Json::model_items(s.subrange(0, s.len() - 1)).push(s[s.len() - 1].model())
        }
    }

    pub open spec fn model_fields(s: Seq<(Vec<u8>, Json)>) -> Seq<(Seq<u8>, JsonModel)>
        decreases s,
        via Self::model_fields_decreases
    {
        if s.len() == 0 {
            Seq::empty()
        } else {
            Json::model_fields(s.subrange(0, s.len() - 1)).push(
                (s[s.len() - 1].0@, s[s.len() - 1].1.model()),
            )
        }
    }

    #[via_fn]
    proof fn model_decreases(self) {
        match self {
            Json::Arr(items) => {
                assert(decreases_to!(items => items@));
            },
            Json::Obj(fields) => {
                assert(decreases_to!(fields => fields@));
            },
            _ => {},
        }
    }

    #[via_fn]
    proof fn model_items_decreases(s: Seq<Json>) {
        if s.len() > 0 {
            assert(decreases_to!(s => s.subrange(0, s.len() - 1)));
            assert(decreases_to!(s => s[s.len() - 1]));
        }
    }

    #[via_fn]
    proof fn model_fields_decreases(s: Seq<(Vec<u8>, Json)>) {
        if s.len() > 0 {
            assert(decreases_to!(s => s.subrange(0, s.len() - 1)));
            assert(decreases_to!(s => s[s.len() - 1]));
        }
    }
}

impl View for Json {
    type V = JsonModel;

    open spec fn view(&self) -> JsonModel {
        self.model()
    }
}

/// What `model_items` holds of each position: the model of an array's
/// element list is the element-wise model, in order.
pub proof fn lemma_model_items(s: Seq<Json>)
    ensures
        Json::model_items(s).len() == s.len(),
        forall|i: int| 0 <= i < s.len() ==> Json::model_items(s)[i] == #[trigger] s[i].model(),
    decreases s.len(),
{
    if s.len() > 0 {
        lemma_model_items(s.subrange(0, s.len() - 1));
        assert forall|i: int| 0 <= i < s.len() implies Json::model_items(s)[i] == #[trigger] s[i]
            .model() by {
            if i < s.len() - 1 {
                assert(s.subrange(0, s.len() - 1)[i] == s[i]);
            }
        }
    }
}

/// What `model_fields` holds of each position: the model of an object's
/// field list is the field-wise model, in insertion order.
pub proof fn lemma_model_fields(s: Seq<(Vec<u8>, Json)>)
    ensures
        Json::model_fields(s).len() == s.len(),
        forall|i: int|
            0 <= i < s.len() ==> Json::model_fields(s)[i] == (
            #[trigger] s[i].0@,
            s[i].1.model(),
            ),
    decreases s.len(),
{
    if s.len() > 0 {
        lemma_model_fields(s.subrange(0, s.len() - 1));
        assert forall|i: int| 0 <= i < s.len() implies Json::model_fields(s)[i] == (
        #[trigger] s[i].0@,
        s[i].1.model(),
        ) by {
            if i < s.len() - 1 {
                assert(s.subrange(0, s.len() - 1)[i] == s[i]);
            }
        }
    }
}

} // verus!

//! The document type: a schema-free JSON value, and its mathematical model.

use vstd::prelude::*;

verus! {

/// A JSON value. Strings (and object keys) are held as their characters;
/// a number is held as the characters of its literal, so that any JSON
/// number can be carried without loss.
#[derive(Debug, PartialEq, Eq)]
pub enum Json {
    Null,
    Bool(bool),
    Number(Vec<char>),
    Text(Vec<char>),
    Array(Vec<Json>),
    Object(Vec<(Vec<char>, Json)>),
}

/// The mathematical model of a JSON value: the same tree over `Seq`.
/// Two documents are deep-equal exactly when their models are equal.
#[verifier::ext_equal]
pub enum Model {
    Null,
    Bool(bool),
    Number(Seq<char>),
    Text(Seq<char>),
    Array(Seq<Model>),
    Object(Seq<(Seq<char>, Model)>),
}

/// The model of a concrete document.
pub open spec fn json_model(j: Json) -> Model
    decreases j, 1int, 0int,
    via json_model_decreases
{
    match j {
        Json::Null => Model::Null,
        Json::Bool(b) => Model::Bool(b),
        Json::Number(digits) => Model::Number(digits@),
        Json::Text(chars) => Model::Text(chars@),
        Json::Array(items) => Model::Array(models_from(items@, 0)),
        Json::Object(members) => Model::Object(members_from(members@, 0)),
    }
}

/// The models of the items of `s` from index `i` on.
pub open spec fn models_from(s: Seq<Json>, i: int) -> Seq<Model>
    decreases s, 0int, s.len() - i,
    via models_from_decreases
{
    if i < 0 || i >= s.len() {
        Seq::empty()
    } else {
        seq![json_model(s[i])] + models_from(s, i + 1)
    }
}

/// The models of the members of `s` from index `i` on, keys kept in place.
pub open spec fn members_from(s: Seq<(Vec<char>, Json)>, i: int) -> Seq<(Seq<char>, Model)>
    decreases s, 0int, s.len() - i,
    via members_from_decreases
{
    if i < 0 || i >= s.len() {
        Seq::empty()
    } else {
        seq![(s[i].0@, json_model(s[i].1))] + members_from(s, i + 1)
    }
}

#[via_fn]
proof fn json_model_decreases(j: Json) {
    match j {
        Json::Array(items) => {
            assert(decreases_to!(j => items));
            assert(decreases_to!(items => items@));
        }
        Json::Object(members) => {
            assert(decreases_to!(j => members));
            assert(decreases_to!(members => members@));
        }
        _ => {}
    }
}

#[via_fn]
proof fn models_from_decreases(s: Seq<Json>, i: int) {
    if 0 <= i < s.len() {
        vstd::seq::axiom_seq_index_decreases(s, i);
    }
}

#[via_fn]
proof fn members_from_decreases(s: Seq<(Vec<char>, Json)>, i: int) {
    if 0 <= i < s.len() {
        vstd::seq::axiom_seq_index_decreases(s, i);
        assert(decreases_to!(s[i] => s[i].1));
    }
}

impl View for Json {
    type V = Model;

    open spec fn view(&self) -> Model {
        json_model(*self)
    }
}

/// `models_from(s, i)` holds one model per item of `s` from `i` on.
pub proof fn lemma_models_from(s: Seq<Json>, i: int)
    requires
        0 <= i <= s.len(),
    ensures
        models_from(s, i).len() == s.len() - i,
        forall|k: int| i <= k < s.len() ==> models_from(s, i)[k - i] == json_model(s[k]),
    decreases s.len() - i,
{
    if i < s.len() {
        lemma_models_from(s, i + 1);
    }
}

/// `members_from(s, i)` holds one keyed model per member of `s` from `i` on.
pub proof fn lemma_members_from(s: Seq<(Vec<char>, Json)>, i: int)
    requires
        0 <= i <= s.len(),
    ensures
        members_from(s, i).len() == s.len() - i,
        forall|k: int|
            i <= k < s.len() ==> members_from(s, i)[k - i] == (s[k].0@, json_model(s[k].1)),
    decreases s.len() - i,
{
    if i < s.len() {
        lemma_members_from(s, i + 1);
    }
}

} // verus!

//! The derived metric and the output document.
//!
//! The metric is the number of direct elements of a top-level array, zero
//! for every other kind of value; the output document wraps the input,
//! unchanged, beside that count.

use vstd::prelude::*;

use crate::text::chars_of;
use crate::value::{json_model, lemma_models_from, members_from, Json, Model};

verus! {

/// The source count of a document: the number of direct elements if it is
/// an array, zero for every other kind of value. The count is shallow:
/// nested arrays are not traversed.
pub open spec fn count_spec(m: Model) -> int {
    match m {
        Model::Array(items) => items.len() as int,
        _ => 0,
    }
}

/// The character for one decimal digit.
pub open spec fn dec_digit(d: nat) -> char {
    if d == 0 {
        '0'
    } else if d == 1 {
        '1'
    } else if d == 2 {
        '2'
    } else if d == 3 {
        '3'
    } else if d == 4 {
        '4'
    } else if d == 5 {
        '5'
    } else if d == 6 {
        '6'
    } else if d == 7 {
        '7'
    } else if d == 8 {
        '8'
    } else {
        '9'
    }
}

/// The decimal literal of a natural number, most significant digit first,
/// with no leading zero except for the number zero itself.
pub open spec fn dec_digits(n: nat) -> Seq<char>
    decreases n,
{
    if n < 10 {
        seq![dec_digit(n)]
    } else {
        dec_digits(n / 10) + seq![dec_digit(n % 10)]
    }
}

/// The output document for input `m`: an object with exactly two members,
/// `source_count` and `processed_data`, in that order, the second holding
/// the input unchanged.
pub open spec fn annotate_spec(m: Model) -> Model {
    Model::Object(
        seq![
            ("source_count"@, Model::Number(dec_digits(count_spec(m) as nat))),
            ("processed_data"@, m),
        ],
    )
}

/// The number of direct elements of a top-level array; zero for any other
/// kind of value.
pub fn source_count(v: &Json) -> (n: usize)
    ensures
        n as int == count_spec(v@),
{
    match v {
        Json::Array(items) => {
            proof {
                lemma_models_from(items@, 0);
            }
            items.len()
        },
        _ => 0,
    }
}

/// The character for one decimal digit.
fn digit_char(d: usize) -> (c: char)
    requires
        d < 10,
    ensures
        c == dec_digit(d as nat),
{
    if d == 0 {
        '0'
    } else if d == 1 {
        '1'
    } else if d == 2 {
        '2'
    } else if d == 3 {
        '3'
    } else if d == 4 {
        '4'
    } else if d == 5 {
        '5'
    } else if d == 6 {
        '6'
    } else if d == 7 {
        '7'
    } else if d == 8 {
        '8'
    } else {
        '9'
    }
}

/// The decimal literal of `n`.
fn dec_chars(n: usize) -> (v: Vec<char>)
    ensures
        v@ == dec_digits(n as nat),
    decreases n,
{
    if n < 10 {
        let mut v: Vec<char> = Vec::new();
        v.push(digit_char(n));
        proof {
            assert(v@ =~= dec_digits(n as nat));
        }
        v
    } else {
        let mut v = dec_chars(n / 10);
        v.push(digit_char(n % 10));
        proof {
            assert(v@ =~= dec_digits(n as nat));
        }
        v
    }
}

/// For an input whose top level is an array of N elements, the output
/// object carries `source_count` N (as its decimal literal) and
/// `processed_data` equal to the input.
pub proof fn lemma_annotate_array(items: Seq<Model>)
    ensures
        count_spec(Model::Array(items)) == items.len(),
        annotate_spec(Model::Array(items))->Object_0[0] == (
            "source_count"@,
            Model::Number(dec_digits(items.len())),
        ),
        annotate_spec(Model::Array(items))->Object_0[1] == (
            "processed_data"@,
            Model::Array(items),
        ),
{
}

/// For an input whose top level is not an array — object, string, number,
/// boolean or null — the source count is zero.
pub proof fn lemma_count_not_array(m: Model)
    requires
        !(m is Array),
    ensures
        count_spec(m) == 0,
        annotate_spec(m)->Object_0[0] == ("source_count"@, Model::Number(dec_digits(0))),
{
}

/// The output always wraps the input unchanged: it is an object of
/// exactly two members, and its `processed_data` member is deep-equal to
/// the input document, whatever the input is.
pub proof fn lemma_annotate_preserves(m: Model)
    ensures
        annotate_spec(m) is Object,
        annotate_spec(m)->Object_0.len() == 2,
        annotate_spec(m)->Object_0[0].0 == "source_count"@,
        annotate_spec(m)->Object_0[1].0 == "processed_data"@,
        annotate_spec(m)->Object_0[1].1 == m,
{
}

/// Wrap a document with its source count: the result is an object with
/// exactly the members `source_count` (the count's decimal literal) and
/// `processed_data` (the input, unchanged).
pub fn annotate(v: Json) -> (out: Json)
    ensures
        out@ == annotate_spec(v@),
{
    let ghost m = v@;
    let n = source_count(&v);
    let digits = dec_chars(n);
    let mut members: Vec<(Vec<char>, Json)> = Vec::new();
    members.push((chars_of("source_count"), Json::Number(digits)));
    members.push((chars_of("processed_data"), v));
    let out = Json::Object(members);
    proof {
        reveal_with_fuel(members_from, 3);
        let ms = members_from(members@, 0);
        assert(members@.len() == 2);
        assert(ms =~= seq![
            (members@[0].0@, json_model(members@[0].1)),
            (members@[1].0@, json_model(members@[1].1)),
        ]);
        assert(out@ =~= annotate_spec(m));
    }
    out
}

} // verus!

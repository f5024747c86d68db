//! The one path of the program: parse, count, wrap, render.

use vstd::prelude::*;

use crate::annotate::{annotate, annotate_spec};
use crate::parse::{doc_of, parse_input, ParseError};
use crate::render::{render, to_pretty};

verus! {

/// Process one input text: parse it as JSON, wrap the document beside its
/// source count, and yield the pretty text of the output document. Err
/// comes exactly on text that is not one well-formed JSON document, and
/// carries the parser's reason.
pub fn process_document(input: &str) -> (r: Result<String, ParseError>)
    ensures
        r is Ok <==> doc_of(input@) is Some,
        r matches Ok(text) ==> doc_of(input@) matches Some(m) && text@ == render(
            annotate_spec(m),
            Seq::empty(),
        ),
{
    match parse_input(input) {
        Ok(doc) => {
            let wrapped = annotate(doc);
            Ok(to_pretty(&wrapped))
        },
        Err(e) => Err(e),
    }
}

} // verus!

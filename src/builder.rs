//! Wraps a converted body in a minimal HTML document.
use vstd::prelude::*;
use crate::text::{append, chars_of, string_of};

verus! {

/// The fixed text before the body.
pub open spec fn doc_head() -> Seq<char> {
    "<!DOCTYPE html><html><head><meta charset=\"utf-8\"><title>Markdown</title></head><body>"@
}

/// The fixed text after the body.
pub open spec fn doc_tail() -> Seq<char> {
    "</body></html>"@
}

/// Builds the HTML document around a body.
pub struct Builder {
    html: String,
}

impl View for Builder {
    type V = Seq<char>;

    closed spec fn view(&self) -> Seq<char> {
        self.html@
    }
}

impl Builder {
    pub fn new(html: String) -> (r: Builder)
        ensures
            r@ == html@,
    {
        Builder { html }
    }

    /// The complete document: the fixed head, the body, the fixed tail.
    pub fn build(&self) -> (r: String)
        ensures
            r@ == doc_head() + self@ + doc_tail(),
    {
        let mut out = chars_of(
            "<!DOCTYPE html><html><head><meta charset=\"utf-8\"><title>Markdown</title></head><body>",
        );
        append(&mut out, &chars_of(self.html.as_str()));
        append(&mut out, &chars_of("</body></html>"));
        string_of(&out)
    }
}

} // verus!

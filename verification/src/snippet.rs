//! One discovered code region: its identifier, its cleaned code and its tags.

use vstd::prelude::*;
use vstd::string::StringExecFns;
use crate::tags::ExampleTags;
use crate::tags::TagsView;

verus! {

/// One code region discovered by the scanner; immutable after creation.
#[derive(Clone, Debug)]
pub struct ExampleSnippet {
    /// The unique identifier derived from the document path and the span.
    pub ident: String,
    /// The literal text of the region, hidden-line markers removed.
    pub code: String,
    /// The flag set parsed from the region's info string.
    pub tags: ExampleTags,
}

/// The mathematical value of a snippet.
pub struct SnippetView {
    pub ident: Seq<char>,
    pub code: Seq<char>,
    pub tags: TagsView,
}

impl View for ExampleSnippet {
    type V = SnippetView;

    open spec fn view(&self) -> SnippetView {
        SnippetView { ident: self.ident@, code: self.code@, tags: self.tags@ }
    }
}

impl PartialEq for ExampleSnippet {
    fn eq(&self, other: &Self) -> (r: bool) {
        self.ident.eq(&other.ident) && self.code.eq(&other.code) && self.tags == other.tags
    }
}

impl vstd::std_specs::cmp::PartialEqSpecImpl for ExampleSnippet {
    open spec fn obeys_eq_spec() -> bool {
        true
    }

    open spec fn eq_spec(&self, other: &Self) -> bool {
        self@ == other@
    }
}

impl ExampleSnippet {
    /// The name of the artifact file that this snippet's harness writes.
    pub fn output_filename(&self) -> (r: String)
        ensures
            r@ == self.ident@ + ".png"@,
    {
        self.ident.clone().concat(".png")
    }
}

} // verus!

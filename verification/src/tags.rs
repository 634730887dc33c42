//! The tag grammar: parsing a code block's info string into a flag set.

use vstd::prelude::*;
use vstd::string::StrSliceExecFns;
use vstd::string::StringExecFns;
use crate::text::split_chars;
use crate::text::split_str;

verus! {

/// The flag set attached to one eligible code region.
#[derive(Clone, Debug)]
pub struct ExampleTags {
    /// The region is excluded from generation entirely.
    pub ignore: bool,
    /// The region is generated but its execution step is skipped.
    pub no_run: bool,
    /// Execution is expected to fail; failure is not an error.
    pub should_panic: bool,
    /// Suppress re-emission of the code text during weaving.
    pub hide_code: bool,
    /// Suppress embedding of the produced artifact during weaving.
    pub hide_output: bool,
    /// An optional user-chosen display label.
    pub name: Option<String>,
}

/// The mathematical value of a flag set.
pub struct TagsView {
    pub ignore: bool,
    pub no_run: bool,
    pub should_panic: bool,
    pub hide_code: bool,
    pub hide_output: bool,
    pub name: Option<Seq<char>>,
}

impl View for ExampleTags {
    type V = TagsView;

    open spec fn view(&self) -> TagsView {
        TagsView {
            ignore: self.ignore,
            no_run: self.no_run,
            should_panic: self.should_panic,
            hide_code: self.hide_code,
            hide_output: self.hide_output,
            name: match self.name {
                Some(s) => Some(s@),
                None => None,
            },
        }
    }
}

impl PartialEq for ExampleTags {
    fn eq(&self, other: &Self) -> (r: bool) {
        self.ignore == other.ignore && self.no_run == other.no_run && self.should_panic
            == other.should_panic && self.hide_code == other.hide_code && self.hide_output
            == other.hide_output && match (&self.name, &other.name) {
            (Some(a), Some(b)) => a.eq(b),
            (None, None) => true,
            _ => false,
        }
    }
}

impl vstd::std_specs::cmp::PartialEqSpecImpl for ExampleTags {
    open spec fn obeys_eq_spec() -> bool {
        true
    }

    open spec fn eq_spec(&self, other: &Self) -> bool {
        self@ == other@
    }
}

/// The errors of the extraction and weaving pipeline.
#[derive(Clone, Debug)]
pub enum ExampleError {
    /// A token of an eligible region's info string is not in the vocabulary.
    UnknownTag { token: String },
    /// A code block carried more than one text payload.
    ExtraText,
    /// A code block ended before any text payload was seen.
    MissingText,
}

/// The reserved marker token that the first info-string token must equal for
/// a region to be eligible.
pub open spec fn marker() -> Seq<char> {
    "imgui-example"@
}

/// The flag set before any token is applied.
pub open spec fn default_tags() -> TagsView {
    TagsView {
        ignore: false,
        no_run: false,
        should_panic: false,
        hide_code: false,
        hide_output: false,
        name: None,
    }
}

/// Whether a token chooses a display name.
pub open spec fn is_name_token(tok: Seq<char>) -> bool {
    tok.len() >= 5 && tok.take(5) == "name="@
}

/// One token applied to a flag set; an unknown token yields nothing.
pub open spec fn apply_token(t: TagsView, tok: Seq<char>) -> Option<TagsView> {
    if tok == "ignore"@ {
        Some(TagsView { ignore: true, ..t })
    } else if tok == "no_run"@ {
        Some(TagsView { no_run: true, ..t })
    } else if tok == "should_panic"@ {
        Some(TagsView { should_panic: true, ..t })
    } else if tok == "hide_code"@ {
        Some(TagsView { hide_code: true, ..t })
    } else if tok == "hide_output"@ {
        Some(TagsView { hide_output: true, ..t })
    } else if tok == "hide"@ {
        Some(TagsView { hide_code: true, hide_output: true, ..t })
    } else if is_name_token(tok) {
        Some(TagsView { name: Some(tok.skip(5)), ..t })
    } else {
        None
    }
}

/// All tokens applied in order, or nothing on the first unknown token.
pub open spec fn apply_tokens(t: TagsView, toks: Seq<Seq<char>>) -> Option<TagsView>
    decreases toks.len(),
{
    if toks.len() == 0 {
        Some(t)
    } else {
        match apply_token(t, toks[0]) {
            None => None,
            Some(t2) => apply_tokens(t2, toks.drop_first()),
        }
    }
}

/// The first token that no rule of the vocabulary accepts.
pub open spec fn first_unknown(t: TagsView, toks: Seq<Seq<char>>) -> Seq<char>
    decreases toks.len(),
{
    if toks.len() == 0 {
        Seq::empty()
    } else {
        match apply_token(t, toks[0]) {
            None => toks[0],
            Some(t2) => first_unknown(t2, toks.drop_first()),
        }
    }
}

/// What the tag grammar yields for an info string: `Err` for an unknown
/// token, `Ok(None)` for a string whose first token is not the marker, and
/// `Ok(Some(flags))` otherwise.
pub open spec fn parse_tags_spec(raw: Seq<char>) -> Result<Option<TagsView>, ()> {
    let toks = split_chars(raw, ',');
    if toks[0] != marker() {
        Ok(None)
    } else {
        match apply_tokens(default_tags(), toks.skip(1)) {
            None => Err(()),
            Some(t) => Ok(Some(t)),
        }
    }
}

/// The token on which `parse_tags_spec` fails.
pub open spec fn first_unknown_token(raw: Seq<char>) -> Seq<char> {
    first_unknown(default_tags(), split_chars(raw, ',').skip(1))
}

/// Whether a token equals a given literal.
fn is_tok(tok: &String, lit: &str) -> (r: bool)
    ensures
        r == (tok@ == lit@),
{
    tok.eq(&String::from_str(lit))
}

/// Parses an info string into a flag set.
///
/// The string is split on commas. A first token other than the reserved
/// marker means the region is not eligible, which is no error. Every further
/// token must be one of the boolean flags, the shorthand `hide` (both hide
/// flags at once), or `name=` followed by the display name; the first token
/// outside that vocabulary is returned as the unknown-tag error.
pub fn tags_from_string(raw: String) -> (r: Result<Option<ExampleTags>, ExampleError>)
    ensures
        match r {
            Ok(Some(t)) => parse_tags_spec(raw@) == Ok::<Option<TagsView>, ()>(Some(t@)),
            Ok(None) => parse_tags_spec(raw@) == Ok::<Option<TagsView>, ()>(None),
            Err(e) => parse_tags_spec(raw@) == Err::<Option<TagsView>, ()>(()) && (e matches
                ExampleError::UnknownTag { token } && token@ == first_unknown_token(raw@)),
        },
{
    let toks = split_str(raw.as_str(), ',');
    let ghost tokviews = toks@.map_values(|t: String| t@);
    if !is_tok(&toks[0], "imgui-example") {
        proof {
            assert(tokviews[0] == toks@[0]@);
        }
        return Ok(None);
    }
    proof {
        assert(tokviews[0] == toks@[0]@);
    }
    let mut tags = ExampleTags {
        ignore: false,
        no_run: false,
        should_panic: false,
        hide_code: false,
        hide_output: false,
        name: None,
    };
    let mut k: usize = 1;
    proof {
        assert(tags@ == default_tags());
        assert(tokviews.skip(1).skip(0) =~= tokviews.skip(1));
    }
    while k < toks.len()
        invariant
            1 <= k <= toks@.len(),
            tokviews == toks@.map_values(|t: String| t@),
            tokviews == split_chars(raw@, ','),
            tokviews[0] == marker(),
            apply_tokens(tags@, tokviews.skip(k as int)) == apply_tokens(
                default_tags(),
                tokviews.skip(1),
            ),
            first_unknown(tags@, tokviews.skip(k as int)) == first_unknown(
                default_tags(),
                tokviews.skip(1),
            ),
        decreases toks@.len() - k,
    {
        let ghost rem = tokviews.skip(k as int);
        proof {
            assert(rem[0] == toks@[k as int]@);
            assert(rem.drop_first() =~= tokviews.skip(k + 1));
        }
        let tok = &toks[k];
        if is_tok(tok, "ignore") {
            tags.ignore = true;
        } else if is_tok(tok, "no_run") {
            tags.no_run = true;
        } else if is_tok(tok, "should_panic") {
            tags.should_panic = true;
        } else if is_tok(tok, "hide_code") {
            tags.hide_code = true;
        } else if is_tok(tok, "hide_output") {
            tags.hide_output = true;
        } else if is_tok(tok, "hide") {
            tags.hide_code = true;
            tags.hide_output = true;
        } else {
            let tok_len = tok.as_str().unicode_len();
            if tok_len >= 5 && is_tok(&String::from_str(tok.as_str().substring_char(0, 5)), "name=")
                {
                proof {
                    assert(rem[0].take(5) =~= tok@.subrange(0, 5));
                }
                tags.name = Some(String::from_str(tok.as_str().substring_char(5, tok_len)));
                proof {
                    assert(tok@.subrange(5, tok@.len() as int) =~= rem[0].skip(5));
                }
            } else {
                proof {
                    if tok@.len() >= 5 {
                        assert(rem[0].take(5) =~= tok@.subrange(0, 5));
                    }
                    assert(!is_name_token(rem[0]));
                    assert(apply_token(tags@, rem[0]) is None);
                    assert(apply_tokens(default_tags(), tokviews.skip(1)) is None);
                }
                return Err(ExampleError::UnknownTag { token: tok.clone() });
            }
        }
        k = k + 1;
    }
    proof {
        assert(tokviews.skip(toks@.len() as int) =~= Seq::<Seq<char>>::empty());
        assert(apply_tokens(tags@, Seq::<Seq<char>>::empty()) == Some(tags@));
    }
    Ok(Some(tags))
}

} // verus!

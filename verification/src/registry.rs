//! The snippet registry's transport format.
//!
//! The registry discovered at generation time is read back by a later,
//! separate process, so `save` and `load` are exact duals over a
//! self-describing text: fixed field-name markers, fixed-width decimal
//! length fields, then the raw characters of each string field.

use vstd::prelude::*;
use vstd::string::StrSliceExecFns;
use vstd::string::StringExecFns;
use crate::digits::all_dec_digits;
use crate::digits::le_digits;
use crate::digits::le_value;
use crate::digits::lemma_le_digits_digits;
use crate::digits::lemma_le_digits_len;
use crate::digits::lemma_le_digits_value;
use crate::digits::lemma_pow10_len_width;
use crate::digits::pow10;
use crate::digits::push_le_digits;
use crate::digits::read_le_value;
use crate::digits::LEN_WIDTH;
use crate::snippet::ExampleSnippet;
use crate::snippet::SnippetView;
use crate::tags::ExampleTags;
use crate::tags::TagsView;

verus! {

/// The views of a sequence of snippets.
pub open spec fn views(l: Seq<ExampleSnippet>) -> Seq<SnippetView> {
    l.map_values(|s: ExampleSnippet| s@)
}

/// A string short enough for its length field.
pub open spec fn bounded_str(t: Seq<char>) -> bool {
    t.len() < pow10(20)
}

pub open spec fn bounded_tags(t: TagsView) -> bool {
    match t.name {
        None => true,
        Some(n) => bounded_str(n),
    }
}

pub open spec fn bounded_snippet(s: SnippetView) -> bool {
    bounded_str(s.ident) && bounded_str(s.code) && bounded_tags(s.tags)
}

/// Every count and string of the registry fits its length field; true of
/// every registry a machine can hold.
pub open spec fn bounded_registry(l: Seq<SnippetView>) -> bool {
    l.len() < pow10(20) && forall|i: int| 0 <= i < l.len() ==> bounded_snippet(#[trigger] l[i])
}

pub open spec fn enc_len(n: nat) -> Seq<char> {
    le_digits(n, 20)
}

pub open spec fn enc_str(t: Seq<char>) -> Seq<char> {
    enc_len(t.len()) + t
}

pub open spec fn enc_bool(b: bool) -> Seq<char> {
    if b {
        seq!['1']
    } else {
        seq!['0']
    }
}

pub open spec fn enc_opt_str(o: Option<Seq<char>>) -> Seq<char> {
    match o {
        None => seq!['0'],
        Some(t) => seq!['1'] + enc_str(t),
    }
}

pub open spec fn enc_tags(t: TagsView) -> Seq<char> {
    "tags:"@ + (enc_bool(t.ignore) + (enc_bool(t.no_run) + (enc_bool(t.should_panic) + (enc_bool(
        t.hide_code,
    ) + (enc_bool(t.hide_output) + enc_opt_str(t.name))))))
}

pub open spec fn enc_snippet(s: SnippetView) -> Seq<char> {
    "snippet:"@ + ("ident:"@ + (enc_str(s.ident) + ("code:"@ + (enc_str(s.code) + enc_tags(
        s.tags,
    )))))
}

pub open spec fn enc_list(l: Seq<SnippetView>) -> Seq<char>
    decreases l.len(),
{
    if l.len() == 0 {
        Seq::empty()
    } else {
        enc_snippet(l[0]) + enc_list(l.drop_first())
    }
}

/// The whole transport text of a registry.
pub open spec fn save_spec(l: Seq<SnippetView>) -> Seq<char> {
    "registry:"@ + (enc_len(l.len()) + enc_list(l))
}

// Decoding, as a function from the text and a position to the decoded value
// and the next position.
pub open spec fn dec_lit(s: Seq<char>, i: int, lit: Seq<char>) -> Option<int> {
    if 0 <= i && i + lit.len() <= s.len() && s.subrange(i, i + lit.len()) == lit {
        Some(i + lit.len())
    } else {
        None
    }
}

pub open spec fn dec_len(s: Seq<char>, i: int) -> Option<(nat, int)> {
    if 0 <= i && i + 20 <= s.len() && all_dec_digits(s.subrange(i, i + 20)) {
        Some((le_value(s.subrange(i, i + 20)), i + 20))
    } else {
        None
    }
}

pub open spec fn dec_str(s: Seq<char>, i: int) -> Option<(Seq<char>, int)> {
    match dec_len(s, i) {
        None => None,
        Some((n, j)) => if j + n <= s.len() {
            Some((s.subrange(j, j + n), j + n))
        } else {
            None
        },
    }
}

pub open spec fn dec_bool(s: Seq<char>, i: int) -> Option<(bool, int)> {
    if 0 <= i && i < s.len() && (s[i] == '0' || s[i] == '1') {
        Some((s[i] == '1', i + 1))
    } else {
        None
    }
}

pub open spec fn dec_opt_str(s: Seq<char>, i: int) -> Option<(Option<Seq<char>>, int)> {
    match dec_bool(s, i) {
        None => None,
        Some((false, j)) => Some((None, j)),
        Some((true, j)) => match dec_str(s, j) {
            None => None,
            Some((t, k)) => Some((Some(t), k)),
        },
    }
}

pub open spec fn dec_tags(s: Seq<char>, i: int) -> Option<(TagsView, int)> {
    match dec_lit(s, i, "tags:"@) {
        None => None,
        Some(j0) => match dec_bool(s, j0) {
            None => None,
            Some((ignore, j1)) => match dec_bool(s, j1) {
                None => None,
                Some((no_run, j2)) => match dec_bool(s, j2) {
                    None => None,
                    Some((should_panic, j3)) => match dec_bool(s, j3) {
                        None => None,
                        Some((hide_code, j4)) => match dec_bool(s, j4) {
                            None => None,
                            Some((hide_output, j5)) => match dec_opt_str(s, j5) {
                                None => None,
                                Some((name, j6)) => Some(
                                    (
                                        TagsView {
                                            ignore,
                                            no_run,
                                            should_panic,
                                            hide_code,
                                            hide_output,
                                            name,
                                        },
                                        j6,
                                    ),
                                ),
                            },
                        },
                    },
                },
            },
        },
    }
}

pub open spec fn dec_snippet(s: Seq<char>, i: int) -> Option<(SnippetView, int)> {
    match dec_lit(s, i, "snippet:"@) {
        None => None,
        Some(j0) => match dec_lit(s, j0, "ident:"@) {
            None => None,
            Some(j1) => match dec_str(s, j1) {
                None => None,
                Some((ident, j2)) => match dec_lit(s, j2, "code:"@) {
                    None => None,
                    Some(j3) => match dec_str(s, j3) {
                        None => None,
                        Some((code, j4)) => match dec_tags(s, j4) {
                            None => None,
                            Some((tags, j5)) => Some((SnippetView { ident, code, tags }, j5)),
                        },
                    },
                },
            },
        },
    }
}

pub open spec fn dec_list(s: Seq<char>, i: int, count: nat) -> Option<(Seq<SnippetView>, int)>
    decreases count,
{
    if count == 0 {
        Some((Seq::empty(), i))
    } else {
        match dec_snippet(s, i) {
            None => None,
            Some((sn, j)) => match dec_list(s, j, (count - 1) as nat) {
                None => None,
                Some((l, k)) => Some((seq![sn] + l, k)),
            },
        }
    }
}

/// What `load` recovers from a transport text: the registry, or nothing if
/// the text is not exactly a saved registry.
pub open spec fn load_spec(s: Seq<char>) -> Option<Seq<SnippetView>> {
    match dec_lit(s, 0, "registry:"@) {
        None => None,
        Some(i) => match dec_len(s, i) {
            None => None,
            Some((count, j)) => match dec_list(s, j, count) {
                None => None,
                Some((l, k)) => if k == s.len() {
                    Some(l)
                } else {
                    None
                },
            },
        },
    }
}

// What a decoder yields at a position where the text holds an encoding.
proof fn lemma_dec_lit_at(s: Seq<char>, i: int, lit: Seq<char>, rest: Seq<char>)
    requires
        0 <= i <= s.len(),
        s.skip(i) == lit + rest,
    ensures
        dec_lit(s, i, lit) == Some(i + lit.len()),
{
    assert(s.skip(i).len() == s.len() - i);
    assert(s.skip(i).len() == lit.len() + rest.len());
    assert(s.subrange(i, i + lit.len()) =~= lit) by {
        assert forall|k: int| 0 <= k < lit.len() implies s.subrange(i, i + lit.len())[k] == lit[k]
        by {
            assert(s.skip(i)[k] == s[i + k]);
            assert((lit + rest)[k] == lit[k]);
        };
    };
}

proof fn lemma_dec_len_at(s: Seq<char>, i: int, n: nat, rest: Seq<char>)
    requires
        0 <= i <= s.len(),
        s.skip(i) == enc_len(n) + rest,
        n < pow10(20),
    ensures
        dec_len(s, i) == Some((n, i + 20)),
{
    lemma_le_digits_len(n, 20);
    lemma_le_digits_digits(n, 20);
    lemma_le_digits_value(n, 20);
    assert(s.skip(i).len() == s.len() - i);
    assert(s.skip(i).len() == enc_len(n).len() + rest.len());
    assert(s.subrange(i, i + 20) =~= enc_len(n)) by {
        assert forall|k: int| 0 <= k < 20 implies s.subrange(i, i + 20)[k] == enc_len(n)[k] by {
            assert(s.skip(i)[k] == s[i + k]);
            assert((enc_len(n) + rest)[k] == enc_len(n)[k]);
        };
    };
}

proof fn lemma_dec_str_at(s: Seq<char>, i: int, t: Seq<char>, rest: Seq<char>)
    requires
        0 <= i <= s.len(),
        s.skip(i) == enc_str(t) + rest,
        bounded_str(t),
    ensures
        dec_str(s, i) == Some((t, i + 20 + t.len())),
        i + 20 + t.len() <= s.len(),
{
    lemma_le_digits_len(t.len(), 20);
    assert(s.skip(i).len() == s.len() - i);
    assert(s.skip(i).len() == enc_str(t).len() + rest.len());
    assert(enc_str(t).len() == 20 + t.len());
    assert(s.skip(i) =~= enc_len(t.len()) + (t + rest)) by {
        assert(enc_str(t) + rest =~= enc_len(t.len()) + (t + rest));
    };
    lemma_dec_len_at(s, i, t.len(), t + rest);
    let j = i + 20;
    assert(j + t.len() <= s.len());
    assert(s.subrange(j, j + t.len()) =~= t) by {
        assert forall|k: int| 0 <= k < t.len() implies s.subrange(j, j + t.len())[k] == t[k] by {
            assert(s.skip(i)[20 + k] == s[i + 20 + k]);
            assert((enc_len(t.len()) + (t + rest))[20 + k] == (t + rest)[k]);
        };
    };
}

proof fn lemma_dec_bool_at(s: Seq<char>, i: int, b: bool, rest: Seq<char>)
    requires
        0 <= i <= s.len(),
        s.skip(i) == enc_bool(b) + rest,
    ensures
        dec_bool(s, i) == Some((b, i + 1)),
{
    assert(s.skip(i).len() == s.len() - i);
    assert(s.skip(i).len() == enc_bool(b).len() + rest.len());
    assert(enc_bool(b).len() == 1);
    assert(s.skip(i)[0] == s[i]);
    assert((enc_bool(b) + rest)[0] == enc_bool(b)[0]);
}

#[verifier::rlimit(60)]
proof fn lemma_dec_opt_str_at(s: Seq<char>, i: int, o: Option<Seq<char>>, rest: Seq<char>)
    requires
        0 <= i <= s.len(),
        s.skip(i) == enc_opt_str(o) + rest,
        o matches Some(t) ==> bounded_str(t),
    ensures
        dec_opt_str(s, i) == Some((o, i + enc_opt_str(o).len())),
        i + enc_opt_str(o).len() <= s.len(),
{
    match o {
        None => {
            assert(s.skip(i) =~= enc_bool(false) + rest);
            lemma_dec_bool_at(s, i, false, rest);
        },
        Some(t) => {
            assert(enc_opt_str(o) == seq!['1'] + enc_str(t));
            assert(enc_bool(true) == seq!['1']);
            lemma_add_assoc(enc_bool(true), enc_str(t), rest);
            lemma_dec_bool_at(s, i, true, enc_str(t) + rest);
            lemma_skip_part(s, i, enc_bool(true), enc_str(t) + rest);
            assert(enc_bool(true).len() == 1);
            lemma_dec_str_at(s, i + 1, t, rest);
            lemma_le_digits_len(t.len(), 20);
        },
    }
}

proof fn lemma_add_assoc(a: Seq<char>, b: Seq<char>, c: Seq<char>)
    ensures
        (a + b) + c == a + (b + c),
{
    assert((a + b) + c =~= a + (b + c));
}

/// Stepping past one already-decoded part: the suffix at the next position.
proof fn lemma_skip_part(s: Seq<char>, i: int, part: Seq<char>, rest: Seq<char>)
    requires
        0 <= i <= s.len(),
        s.skip(i) == part + rest,
    ensures
        i + part.len() <= s.len(),
        s.skip(i + part.len()) == rest,
{
    assert(s.skip(i).len() == s.len() - i);
    assert(s.skip(i).len() == part.len() + rest.len());
    assert(s.skip(i + part.len()) =~= rest) by {
        assert forall|k: int| 0 <= k < rest.len() implies s.skip(i + part.len())[k] == rest[k] by {
            assert(s.skip(i)[part.len() + k] == s[i + part.len() + k]);
            assert((part + rest)[part.len() + k] == rest[k]);
        };
    };
}

#[verifier::rlimit(100)]
proof fn lemma_dec_tags_at(s: Seq<char>, i: int, t: TagsView, rest: Seq<char>)
    requires
        0 <= i <= s.len(),
        s.skip(i) == enc_tags(t) + rest,
        bounded_tags(t),
    ensures
        dec_tags(s, i) == Some((t, i + enc_tags(t).len())),
        i + enc_tags(t).len() <= s.len(),
{
    let p0 = "tags:"@;
    let p1 = enc_bool(t.ignore);
    let p2 = enc_bool(t.no_run);
    let p3 = enc_bool(t.should_panic);
    let p4 = enc_bool(t.hide_code);
    let p5 = enc_bool(t.hide_output);
    let p6 = enc_opt_str(t.name);
    let n5 = p5 + p6;
    let n4 = p4 + n5;
    let n3 = p3 + n4;
    let n2 = p2 + n3;
    let n1 = p1 + n2;
    lemma_add_assoc(p0, n1, rest);
    lemma_dec_lit_at(s, i, p0, n1 + rest);
    lemma_skip_part(s, i, p0, n1 + rest);
    let i0 = i + p0.len();
    lemma_add_assoc(p1, n2, rest);
    lemma_dec_bool_at(s, i0, t.ignore, n2 + rest);
    lemma_skip_part(s, i0, p1, n2 + rest);
    let i1 = i0 + 1;
    lemma_add_assoc(p2, n3, rest);
    lemma_dec_bool_at(s, i1, t.no_run, n3 + rest);
    lemma_skip_part(s, i1, p2, n3 + rest);
    let i2 = i1 + 1;
    lemma_add_assoc(p3, n4, rest);
    lemma_dec_bool_at(s, i2, t.should_panic, n4 + rest);
    lemma_skip_part(s, i2, p3, n4 + rest);
    let i3 = i2 + 1;
    lemma_add_assoc(p4, n5, rest);
    lemma_dec_bool_at(s, i3, t.hide_code, n5 + rest);
    lemma_skip_part(s, i3, p4, n5 + rest);
    let i4 = i3 + 1;
    lemma_add_assoc(p5, p6, rest);
    lemma_dec_bool_at(s, i4, t.hide_output, p6 + rest);
    lemma_skip_part(s, i4, p5, p6 + rest);
    let i5 = i4 + 1;
    lemma_dec_opt_str_at(s, i5, t.name, rest);
    assert(i5 + p6.len() == i + enc_tags(t).len());
}

#[verifier::rlimit(100)]
proof fn lemma_dec_snippet_at(s: Seq<char>, i: int, sn: SnippetView, rest: Seq<char>)
    requires
        0 <= i <= s.len(),
        s.skip(i) == enc_snippet(sn) + rest,
        bounded_snippet(sn),
    ensures
        dec_snippet(s, i) == Some((sn, i + enc_snippet(sn).len())),
        i + enc_snippet(sn).len() <= s.len(),
{
    let p0 = "snippet:"@;
    let p1 = "ident:"@;
    let p2 = enc_str(sn.ident);
    let p3 = "code:"@;
    let p4 = enc_str(sn.code);
    let p5 = enc_tags(sn.tags);
    let n4 = p4 + p5;
    let n3 = p3 + n4;
    let n2 = p2 + n3;
    let n1 = p1 + n2;
    lemma_add_assoc(p0, n1, rest);
    lemma_dec_lit_at(s, i, p0, n1 + rest);
    lemma_skip_part(s, i, p0, n1 + rest);
    let i0 = i + p0.len();
    lemma_add_assoc(p1, n2, rest);
    lemma_dec_lit_at(s, i0, p1, n2 + rest);
    lemma_skip_part(s, i0, p1, n2 + rest);
    let i1 = i0 + p1.len();
    lemma_add_assoc(p2, n3, rest);
    lemma_dec_str_at(s, i1, sn.ident, n3 + rest);
    lemma_skip_part(s, i1, p2, n3 + rest);
    lemma_le_digits_len(sn.ident.len(), 20);
    let i2 = i1 + p2.len();
    assert(i2 == i1 + 20 + sn.ident.len());
    lemma_add_assoc(p3, n4, rest);
    lemma_dec_lit_at(s, i2, p3, n4 + rest);
    lemma_skip_part(s, i2, p3, n4 + rest);
    let i3 = i2 + p3.len();
    lemma_add_assoc(p4, p5, rest);
    lemma_dec_str_at(s, i3, sn.code, p5 + rest);
    lemma_skip_part(s, i3, p4, p5 + rest);
    lemma_le_digits_len(sn.code.len(), 20);
    let i4 = i3 + p4.len();
    assert(i4 == i3 + 20 + sn.code.len());
    lemma_dec_tags_at(s, i4, sn.tags, rest);
    assert(i4 + p5.len() == i + enc_snippet(sn).len());
}

proof fn lemma_dec_list_at(s: Seq<char>, i: int, l: Seq<SnippetView>, rest: Seq<char>)
    requires
        0 <= i <= s.len(),
        s.skip(i) == enc_list(l) + rest,
        forall|k: int| 0 <= k < l.len() ==> bounded_snippet(#[trigger] l[k]),
    ensures
        dec_list(s, i, l.len()) == Some((l, i + enc_list(l).len())),
        i + enc_list(l).len() <= s.len(),
    decreases l.len(),
{
    if l.len() == 0 {
        assert(enc_list(l).len() == 0);
        assert(dec_list(s, i, 0) == Some((Seq::<SnippetView>::empty(), i)));
        assert(l =~= Seq::<SnippetView>::empty());
    } else {
        let tail = l.drop_first();
        assert(enc_list(l) == enc_snippet(l[0]) + enc_list(tail));
        lemma_add_assoc(enc_snippet(l[0]), enc_list(tail), rest);
        lemma_dec_snippet_at(s, i, l[0], enc_list(tail) + rest);
        lemma_skip_part(s, i, enc_snippet(l[0]), enc_list(tail) + rest);
        let j = i + enc_snippet(l[0]).len();
        assert(forall|k: int| 0 <= k < tail.len() ==> bounded_snippet(#[trigger] tail[k])) by {
            assert forall|k: int| 0 <= k < tail.len() implies bounded_snippet(#[trigger] tail[k])
            by {
                assert(tail[k] == l[k + 1]);
            };
        };
        lemma_dec_list_at(s, j, tail, rest);
        assert(seq![l[0]] + tail =~= l);
        assert(j + enc_list(tail).len() == i + enc_list(l).len());
    }
}

/// Appends one fixed-width length field.
fn push_len_field(out: &mut String, n: usize)
    ensures
        final(out)@ == old(out)@ + enc_len(n as nat),
{
    push_le_digits(out, n as u64, LEN_WIDTH);
}

/// Appends one length-prefixed string field.
fn push_str_field(out: &mut String, t: &String)
    ensures
        final(out)@ == old(out)@ + enc_str(t@),
{
    let n = t.as_str().unicode_len();
    push_len_field(out, n);
    out.append(t.as_str());
    proof {
        assert(out@ =~= old(out)@ + enc_str(t@));
    }
}

/// Appends one flag character.
fn push_bool_field(out: &mut String, b: bool)
    ensures
        final(out)@ == old(out)@ + enc_bool(b),
{
    proof {
        reveal_strlit("0");
        reveal_strlit("1");
    }
    if b {
        out.append("1");
    } else {
        out.append("0");
    }
    proof {
        assert(out@ =~= old(out)@ + enc_bool(b));
    }
}

/// Appends one flag set.
fn push_tags_field(out: &mut String, t: &ExampleTags)
    ensures
        final(out)@ == old(out)@ + enc_tags(t@),
{
    out.append("tags:");
    push_bool_field(out, t.ignore);
    push_bool_field(out, t.no_run);
    push_bool_field(out, t.should_panic);
    push_bool_field(out, t.hide_code);
    push_bool_field(out, t.hide_output);
    match &t.name {
        None => {
            proof {
                reveal_strlit("0");
            }
            out.append("0");
        },
        Some(nm) => {
            proof {
                reveal_strlit("1");
            }
            out.append("1");
            push_str_field(out, nm);
        },
    }
    proof {
        assert(out@ =~= old(out)@ + enc_tags(t@));
    }
}

/// Appends one snippet.
fn push_snippet_field(out: &mut String, s: &ExampleSnippet)
    ensures
        final(out)@ == old(out)@ + enc_snippet(s@),
{
    out.append("snippet:");
    out.append("ident:");
    push_str_field(out, &s.ident);
    out.append("code:");
    push_str_field(out, &s.code);
    push_tags_field(out, &s.tags);
    proof {
        assert(out@ =~= old(out)@ + enc_snippet(s@));
    }
}

/// Appends every snippet from the given index on.
fn push_snippets(out: &mut String, reg: &Vec<ExampleSnippet>, k: usize)
    requires
        k <= reg@.len(),
    ensures
        final(out)@ == old(out)@ + enc_list(views(reg@).skip(k as int)),
    decreases reg@.len() - k,
{
    let ghost rem = views(reg@).skip(k as int);
    if k < reg.len() {
        proof {
            assert(views(reg@).len() == reg@.len());
            assert(rem[0] == reg@[k as int]@);
            assert(rem.drop_first() =~= views(reg@).skip(k + 1));
        }
        push_snippet_field(out, &reg[k]);
        push_snippets(out, reg, k + 1);
        proof {
            assert(enc_list(rem) == enc_snippet(rem[0]) + enc_list(rem.drop_first()));
            assert(out@ =~= old(out)@ + enc_list(rem));
        }
    } else {
        proof {
            assert(rem =~= Seq::<SnippetView>::empty());
            assert(out@ =~= old(out)@ + enc_list(Seq::<SnippetView>::empty()));
        }
    }
}

/// Serializes a registry into its transport text.
pub fn save(reg: &Vec<ExampleSnippet>) -> (r: String)
    ensures
        r@ == save_spec(views(reg@)),
{
    let mut out = String::from_str("registry:");
    push_len_field(&mut out, reg.len());
    push_snippets(&mut out, reg, 0);
    proof {
        assert(views(reg@).skip(0) =~= views(reg@));
        assert(views(reg@).len() == reg@.len());
        assert(out@ =~= save_spec(views(reg@)));
    }
    out
}

/// Reads a fixed marker at a position.
fn read_lit(s: &str, i: usize, lit: &str) -> (r: Option<usize>)
    requires
        i <= s@.len(),
        s@.len() <= usize::MAX,
    ensures
        match r {
            Some(j) => dec_lit(s@, i as int, lit@) == Some(j as int) && j <= s@.len(),
            None => dec_lit(s@, i as int, lit@) is None,
        },
{
    let n = s.unicode_len();
    let ll = lit.unicode_len();
    if n - i < ll {
        return None;
    }
    let sub = s.substring_char(i, i + ll);
    if String::from_str(sub).eq(&String::from_str(lit)) {
        Some(i + ll)
    } else {
        None
    }
}

/// Reads one flag character at a position.
fn read_bool(s: &str, i: usize) -> (r: Option<(bool, usize)>)
    requires
        i <= s@.len(),
        s@.len() <= usize::MAX,
    ensures
        match r {
            Some((b, j)) => dec_bool(s@, i as int) == Some((b, j as int)) && j <= s@.len(),
            None => dec_bool(s@, i as int) is None,
        },
{
    let n = s.unicode_len();
    if i >= n {
        return None;
    }
    let c = s.get_char(i);
    if c == '1' {
        Some((true, i + 1))
    } else if c == '0' {
        Some((false, i + 1))
    } else {
        None
    }
}

/// Reads one length-prefixed string field at a position.
fn read_str(s: &str, i: usize) -> (r: Option<(String, usize)>)
    requires
        i <= s@.len(),
        s@.len() <= usize::MAX,
    ensures
        match r {
            Some((t, j)) => dec_str(s@, i as int) == Some((t@, j as int)) && j <= s@.len(),
            None => dec_str(s@, i as int) is None,
        },
{
    let n = s.unicode_len();
    if n - i < 20 {
        return None;
    }
    match read_le_value(s, i, 20) {
        None => None,
        Some(v) => {
            let j = i + 20;
            if v <= (n - j) as u128 {
                let m = v as usize;
                let t = String::from_str(s.substring_char(j, j + m));
                Some((t, j + m))
            } else {
                None
            }
        },
    }
}

/// The view of an optional display name.
pub open spec fn opt_str_view(o: Option<String>) -> Option<Seq<char>> {
    match o {
        None => None,
        Some(t) => Some(t@),
    }
}

/// Reads one optional string field at a position.
fn read_opt_str(s: &str, i: usize) -> (r: Option<(Option<String>, usize)>)
    requires
        i <= s@.len(),
        s@.len() <= usize::MAX,
    ensures
        match r {
            Some((o, j)) => dec_opt_str(s@, i as int) == Some((opt_str_view(o), j as int)) && j
                <= s@.len(),
            None => dec_opt_str(s@, i as int) is None,
        },
{
    match read_bool(s, i) {
        None => None,
        Some((false, j)) => Some((None, j)),
        Some((true, j)) => match read_str(s, j) {
            None => None,
            Some((t, k)) => Some((Some(t), k)),
        },
    }
}

/// Reads one flag set at a position.
fn read_tags(s: &str, i: usize) -> (r: Option<(ExampleTags, usize)>)
    requires
        i <= s@.len(),
        s@.len() <= usize::MAX,
    ensures
        match r {
            Some((t, j)) => dec_tags(s@, i as int) == Some((t@, j as int)) && j <= s@.len(),
            None => dec_tags(s@, i as int) is None,
        },
{
    let j0 = match read_lit(s, i, "tags:") {
        None => {
            return None;
        },
        Some(j) => j,
    };
    let (ignore, j1) = match read_bool(s, j0) {
        None => {
            return None;
        },
        Some(x) => x,
    };
    let (no_run, j2) = match read_bool(s, j1) {
        None => {
            return None;
        },
        Some(x) => x,
    };
    let (should_panic, j3) = match read_bool(s, j2) {
        None => {
            return None;
        },
        Some(x) => x,
    };
    let (hide_code, j4) = match read_bool(s, j3) {
        None => {
            return None;
        },
        Some(x) => x,
    };
    let (hide_output, j5) = match read_bool(s, j4) {
        None => {
            return None;
        },
        Some(x) => x,
    };
    let (name, j6) = match read_opt_str(s, j5) {
        None => {
            return None;
        },
        Some(x) => x,
    };
    Some((ExampleTags { ignore, no_run, should_panic, hide_code, hide_output, name }, j6))
}

/// Reads one snippet at a position.
fn read_snippet(s: &str, i: usize) -> (r: Option<(ExampleSnippet, usize)>)
    requires
        i <= s@.len(),
        s@.len() <= usize::MAX,
    ensures
        match r {
            Some((sn, j)) => dec_snippet(s@, i as int) == Some((sn@, j as int)) && j <= s@.len(),
            None => dec_snippet(s@, i as int) is None,
        },
{
    let j0 = match read_lit(s, i, "snippet:") {
        None => {
            return None;
        },
        Some(j) => j,
    };
    let j1 = match read_lit(s, j0, "ident:") {
        None => {
            return None;
        },
        Some(j) => j,
    };
    let (ident, j2) = match read_str(s, j1) {
        None => {
            return None;
        },
        Some(x) => x,
    };
    let j3 = match read_lit(s, j2, "code:") {
        None => {
            return None;
        },
        Some(j) => j,
    };
    let (code, j4) = match read_str(s, j3) {
        None => {
            return None;
        },
        Some(x) => x,
    };
    let (tags, j5) = match read_tags(s, j4) {
        None => {
            return None;
        },
        Some(x) => x,
    };
    Some((ExampleSnippet { ident, code, tags }, j5))
}

/// Reads the given number of snippets from a position on.
fn read_snippets(s: &str, i: usize, count: u128) -> (r: Option<(Vec<ExampleSnippet>, usize)>)
    requires
        i <= s@.len(),
        s@.len() <= usize::MAX,
    ensures
        match r {
            Some((v, j)) => dec_list(s@, i as int, count as nat) == Some((views(v@), j as int))
                && j <= s@.len(),
            None => dec_list(s@, i as int, count as nat) is None,
        },
    decreases count,
{
    if count == 0 {
        let v: Vec<ExampleSnippet> = Vec::new();
        proof {
            assert(views(v@) =~= Seq::<SnippetView>::empty());
        }
        return Some((v, i));
    }
    match read_snippet(s, i) {
        None => None,
        Some((sn, j)) => match read_snippets(s, j, count - 1) {
            None => None,
            Some((v, k)) => {
                let ghost v0 = v@;
                let mut v = v;
                v.insert(0, sn);
                proof {
                    assert(views(v@) =~= seq![sn@] + views(v0)) by {
                        assert forall|x: int| 0 <= x < v@.len() implies views(v@)[x] == (seq![sn@]
                            + views(v0))[x] by {
                            if x == 0 {
                                assert(v@[0] == sn);
                            } else {
                                assert(v@[x] == v0[x - 1]);
                            }
                        };
                    };
                }
                Some((v, k))
            },
        },
    }
}

/// Recovers a registry from its transport text; nothing unless the whole
/// text is exactly a saved registry.
pub fn load(s: &str) -> (r: Option<Vec<ExampleSnippet>>)
    ensures
        match r {
            Some(v) => load_spec(s@) == Some(views(v@)),
            None => load_spec(s@) is None,
        },
{
    let n = s.unicode_len();
    let i = match read_lit(s, 0, "registry:") {
        None => {
            return None;
        },
        Some(i) => i,
    };
    if n - i < 20 {
        return None;
    }
    let count = match read_le_value(s, i, 20) {
        None => {
            return None;
        },
        Some(c) => c,
    };
    match read_snippets(s, i + 20, count) {
        None => None,
        Some((v, j)) => if j == n {
            Some(v)
        } else {
            None
        },
    }
}

/// The round-trip law: loading a saved registry recovers it, field for
/// field, for every registry whose counts fit their length fields (every
/// registry a machine can hold does).
pub proof fn lemma_save_load_round_trip(l: Seq<SnippetView>)
    requires
        bounded_registry(l),
    ensures
        load_spec(save_spec(l)) == Some(l),
{
    let s = save_spec(l);
    let p0 = "registry:"@;
    let p1 = enc_len(l.len());
    let p2 = enc_list(l);
    assert(s.skip(0) =~= p0 + (p1 + p2));
    lemma_dec_lit_at(s, 0, p0, p1 + p2);
    lemma_skip_part(s, 0, p0, p1 + p2);
    let i0 = p0.len() as int;
    assert(s.skip(i0) =~= p1 + (p2 + Seq::<char>::empty())) by {
        assert(p1 + p2 =~= p1 + (p2 + Seq::<char>::empty()));
    };
    lemma_dec_len_at(s, i0, l.len(), p2 + Seq::<char>::empty());
    lemma_skip_part(s, i0, p1, p2 + Seq::<char>::empty());
    lemma_le_digits_len(l.len(), 20);
    let i1 = i0 + 20;
    assert(s.skip(i1) == p2 + Seq::<char>::empty());
    lemma_dec_list_at(s, i1, l, Seq::<char>::empty());
    assert(i1 + enc_list(l).len() == s.len());
}

} // verus!

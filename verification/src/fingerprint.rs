//! The fingerprint function: a stable identifier for a code region, derived
//! from its document's path and its byte span.

use vstd::prelude::*;
use vstd::string::StrSliceExecFns;
use vstd::string::StringExecFns;
use crate::digits::all_dec_digits;
use crate::digits::dec_chars;
use crate::digits::is_dec_digit;
use crate::digits::lemma_dec_chars_digits;
use crate::digits::lemma_dec_chars_injective;
use crate::digits::push_dec_u64;
use crate::text::char_is_alphabetic;
use crate::text::path_char_kept;

verus! {

/// The filler character that path sanitization substitutes for every
/// character that is not alphabetic.
pub open spec fn filler_char() -> char {
    '_'
}

/// A path with every character that is not alphabetic replaced by the
/// filler, so the result is usable as part of a programmatic name.
pub open spec fn sanitize_spec(p: Seq<char>) -> Seq<char> {
    p.map_values(|c: char| if path_char_kept(c) { c } else { filler_char() })
}

/// Replaces every non-alphabetic character of a path with the filler.
pub fn sanitize_path(p: &str) -> (r: String)
    ensures
        r@ == sanitize_spec(p@),
{
    let n = p.unicode_len();
    let mut out = String::new();
    let mut i: usize = 0;
    proof {
        reveal_strlit("_");
        assert(out@ =~= sanitize_spec(p@).take(0));
    }
    while i < n
        invariant
            i <= n,
            n == p@.len(),
            "_"@ == seq![filler_char()],
            out@ == sanitize_spec(p@).take(i as int),
        decreases n - i,
    {
        let ghost out0 = out@;
        let c = p.get_char(i);
        if char_is_alphabetic(c) {
            let piece = p.substring_char(i, i + 1);
            proof {
                assert(piece@ =~= seq![c]);
            }
            out.append(piece);
        } else {
            out.append("_");
        }
        proof {
            assert(sanitize_spec(p@)[i as int] == (if path_char_kept(c) {
                c
            } else {
                filler_char()
            }));
            assert(out@ =~= sanitize_spec(p@).take(i + 1));
        }
        i = i + 1;
    }
    proof {
        assert(sanitize_spec(p@).take(n as int) =~= sanitize_spec(p@));
    }
    out
}

/// The fingerprint: the sanitized path and the two offsets in decimal, the
/// three parts joined by the filler character.
pub open spec fn fingerprint_spec(path: Seq<char>, start: nat, end: nat) -> Seq<char> {
    sanitize_spec(path) + seq![filler_char()] + dec_chars(start) + seq![
        filler_char(),
    ] + dec_chars(end)
}

/// Derives the stable identifier of a code region from its document's path
/// and its byte offsets within that document.
pub fn fingerprint(doc_path: &str, start: usize, end: usize) -> (r: String)
    ensures
        r@ == fingerprint_spec(doc_path@, start as nat, end as nat),
{
    let mut out = sanitize_path(doc_path);
    proof {
        reveal_strlit("_");
    }
    out.append("_");
    push_dec_u64(&mut out, start as u64);
    out.append("_");
    push_dec_u64(&mut out, end as u64);
    proof {
        assert(out@ =~= fingerprint_spec(doc_path@, start as nat, end as nat));
    }
    out
}

/// The fingerprint is a pure function: identical inputs give the identical
/// identifier, in any process invocation.
pub proof fn lemma_fingerprint_deterministic(
    p1: Seq<char>,
    s1: nat,
    e1: nat,
    p2: Seq<char>,
    s2: nat,
    e2: nat,
)
    requires
        p1 == p2,
        s1 == s2,
        e1 == e2,
    ensures
        fingerprint_spec(p1, s1, e1) == fingerprint_spec(p2, s2, e2),
{
}

/// In a string of the shape `front + '_' + digits`, the final filler is the
/// last one, so the decomposition is unique.
proof fn lemma_split_at_last_filler(a1: Seq<char>, d1: Seq<char>, a2: Seq<char>, d2: Seq<char>)
    requires
        a1 + seq!['_'] + d1 == a2 + seq!['_'] + d2,
        all_dec_digits(d1),
        all_dec_digits(d2),
    ensures
        a1 == a2,
        d1 == d2,
{
    let x = a1 + seq!['_'] + d1;
    assert(x.len() == a1.len() + 1 + d1.len());
    assert(x.len() == a2.len() + 1 + d2.len());
    assert(!is_dec_digit('_'));
    if a1.len() < a2.len() {
        let j = a2.len() as int;
        assert(x[j] == '_');
        assert(x[j] == d1[j - a1.len() - 1]);
        assert(is_dec_digit(d1[j - a1.len() - 1]));
        assert(false);
    }
    if a2.len() < a1.len() {
        let j = a1.len() as int;
        assert(x[j] == '_');
        assert(x[j] == d2[j - a2.len() - 1]);
        assert(is_dec_digit(d2[j - a2.len() - 1]));
        assert(false);
    }
    assert(a1 =~= a2) by {
        assert forall|i: int| 0 <= i < a1.len() implies a1[i] == a2[i] by {
            assert(x[i] == a1[i]);
            assert(x[i] == a2[i]);
        };
    };
    assert(d1 =~= d2) by {
        assert forall|i: int| 0 <= i < d1.len() implies d1[i] == d2[i] by {
            assert(x[a1.len() + 1 + i] == d1[i]);
            assert(x[a2.len() + 1 + i] == d2[i]);
        };
    };
}

/// Two equal fingerprints come from the same sanitized path and the same
/// offsets: within one corpus of documents with distinct sanitized paths,
/// distinct regions never collide.
pub proof fn lemma_fingerprint_injective(
    p1: Seq<char>,
    s1: nat,
    e1: nat,
    p2: Seq<char>,
    s2: nat,
    e2: nat,
)
    requires
        fingerprint_spec(p1, s1, e1) == fingerprint_spec(p2, s2, e2),
    ensures
        sanitize_spec(p1) == sanitize_spec(p2),
        s1 == s2,
        e1 == e2,
{
    lemma_dec_chars_digits(s1);
    lemma_dec_chars_digits(s2);
    lemma_dec_chars_digits(e1);
    lemma_dec_chars_digits(e2);
    let f1 = sanitize_spec(p1) + seq!['_'] + dec_chars(s1);
    let f2 = sanitize_spec(p2) + seq!['_'] + dec_chars(s2);
    assert(f1 + seq!['_'] + dec_chars(e1) =~= fingerprint_spec(p1, s1, e1));
    assert(f2 + seq!['_'] + dec_chars(e2) =~= fingerprint_spec(p2, s2, e2));
    lemma_split_at_last_filler(f1, dec_chars(e1), f2, dec_chars(e2));
    lemma_dec_chars_injective(e1, e2);
    lemma_split_at_last_filler(sanitize_spec(p1), dec_chars(s1), sanitize_spec(p2), dec_chars(s2));
    lemma_dec_chars_injective(s1, s2);
}

} // verus!

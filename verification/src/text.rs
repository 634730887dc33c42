//! Character classification, separator splitting and hidden-line cleaning.

use vstd::prelude::*;
use vstd::string::StrSliceExecFns;
use vstd::string::StringExecFns;
use crate::digits::is_dec_digit;

verus! {

/// Whether a character has the Unicode Alphabetic property.
pub uninterp spec fn unicode_alphabetic(c: char) -> bool;

/// Whether a character has the Unicode White_Space property.
pub uninterp spec fn unicode_whitespace(c: char) -> bool;

/// Whether path sanitization keeps a character as it is.
pub open spec fn path_char_kept(c: char) -> bool {
    unicode_alphabetic(c) && c != '_' && !is_dec_digit(c)
}

/// Relies on char::is_alphabetic: true exactly for the characters with the
/// Unicode Alphabetic property; '_' (connector punctuation) and the ASCII
/// digits (decimal numbers) do not have that property.
#[verifier::external_body]
pub(crate) fn char_is_alphabetic(c: char) -> (r: bool)
    ensures
        r == (unicode_alphabetic(c) && c != '_' && !is_dec_digit(c)),
{
    c.is_alphabetic()
}

/// Relies on char::is_whitespace: true exactly for the characters with the
/// Unicode White_Space property.
#[verifier::external_body]
pub(crate) fn char_is_whitespace(c: char) -> (r: bool)
    ensures
        r == unicode_whitespace(c),
{
    c.is_whitespace()
}

/// Splitting on a separator, carrying the token read so far.
pub open spec fn split_rec(s: Seq<char>, sep: char, cur: Seq<char>) -> Seq<Seq<char>>
    decreases s.len(),
{
    if s.len() == 0 {
        seq![cur]
    } else if s[0] == sep {
        seq![cur] + split_rec(s.drop_first(), sep, Seq::empty())
    } else {
        split_rec(s.drop_first(), sep, cur.push(s[0]))
    }
}

/// The tokens of a string split on a separator character; there is always at
/// least one token, and an empty string yields one empty token.
pub open spec fn split_chars(s: Seq<char>, sep: char) -> Seq<Seq<char>> {
    split_rec(s, sep, Seq::empty())
}

pub proof fn lemma_split_rec_len(s: Seq<char>, sep: char, cur: Seq<char>)
    ensures
        split_rec(s, sep, cur).len() >= 1,
    decreases s.len(),
{
    if s.len() != 0 {
        if s[0] == sep {
            lemma_split_rec_len(s.drop_first(), sep, Seq::empty());
        } else {
            lemma_split_rec_len(s.drop_first(), sep, cur.push(s[0]));
        }
    }
}

/// Splits a string on a separator character.
pub fn split_str(s: &str, sep: char) -> (r: Vec<String>)
    ensures
        r@.map_values(|t: String| t@) == split_chars(s@, sep),
        r@.len() >= 1,
{
    let n = s.unicode_len();
    let mut done: Vec<String> = Vec::new();
    let mut cur: String = String::new();
    let mut i: usize = 0;
    proof {
        assert(s@.skip(0) =~= s@);
        assert(done@.map_values(|t: String| t@) =~= Seq::<Seq<char>>::empty());
        assert(Seq::<Seq<char>>::empty() + split_chars(s@, sep) =~= split_chars(s@, sep));
    }
    while i < n
        invariant
            i <= n,
            n == s@.len(),
            done@.map_values(|t: String| t@) + split_rec(s@.skip(i as int), sep, cur@)
                == split_chars(s@, sep),
        decreases n - i,
    {
        let ghost done0 = done@.map_values(|t: String| t@);
        let ghost cur0 = cur@;
        let ghost rem = s@.skip(i as int);
        let c = s.get_char(i);
        proof {
            assert(rem[0] == c);
            assert(rem.drop_first() =~= s@.skip(i + 1));
        }
        if c == sep {
            done.push(cur);
            cur = String::new();
            proof {
                assert(done@.map_values(|t: String| t@) =~= done0.push(cur0));
                assert(split_rec(rem, sep, cur0) == seq![cur0] + split_rec(
                    s@.skip(i + 1),
                    sep,
                    Seq::empty(),
                ));
                assert(done0.push(cur0) + split_rec(s@.skip(i + 1), sep, Seq::empty()) =~= done0
                    + (seq![cur0] + split_rec(s@.skip(i + 1), sep, Seq::empty())));
            }
        } else {
            let piece = s.substring_char(i, i + 1);
            proof {
                assert(piece@ =~= seq![c]);
            }
            cur.append(piece);
            proof {
                assert(cur@ =~= cur0.push(c));
                assert(split_rec(rem, sep, cur0) == split_rec(s@.skip(i + 1), sep, cur0.push(c)));
            }
        }
        i = i + 1;
    }
    proof {
        assert(s@.skip(n as int) =~= Seq::<char>::empty());
        assert(split_rec(Seq::<char>::empty(), sep, cur@) == seq![cur@]);
    }
    let ghost done1 = done@.map_values(|t: String| t@);
    let ghost cur1 = cur@;
    done.push(cur);
    proof {
        assert(done@.map_values(|t: String| t@) =~= done1.push(cur1));
        assert(done1.push(cur1) =~= done1 + seq![cur1]);
    }
    done
}

/// How many of the tokens are not empty.
pub open spec fn count_nonempty(parts: Seq<Seq<char>>) -> nat
    decreases parts.len(),
{
    if parts.len() == 0 {
        0
    } else {
        (if parts[0].len() > 0 {
            1nat
        } else {
            0nat
        }) + count_nonempty(parts.drop_first())
    }
}

/// A final carriage return, removed when a text is split into lines.
pub open spec fn strip_cr(l: Seq<char>) -> Seq<char> {
    if l.len() > 0 && l.last() == '\r' {
        l.drop_last()
    } else {
        l
    }
}

/// Leading whitespace removed.
pub open spec fn trim_start_rec(l: Seq<char>) -> Seq<char>
    decreases l.len(),
{
    if l.len() > 0 && unicode_whitespace(l[0]) {
        trim_start_rec(l.drop_first())
    } else {
        l
    }
}

/// One line cleaned: a single leading hidden-line marker `'#'` is removed
/// together with the whitespace that follows it; any other line is kept.
pub open spec fn clean_line(l: Seq<char>) -> Seq<char> {
    let t = strip_cr(l);
    if t.len() > 0 && t[0] == '#' {
        trim_start_rec(t.skip(1))
    } else {
        t
    }
}

/// The lines of a string: the pieces between newline characters, with one
/// final empty piece after a trailing newline not counted as a line.
pub open spec fn line_seqs(s: Seq<char>) -> Seq<Seq<char>> {
    let parts = split_chars(s, '\n');
    if s.len() == 0 {
        Seq::empty()
    } else if parts.last().len() == 0 {
        parts.drop_last()
    } else {
        parts
    }
}

/// The cleaned lines joined back, each with exactly one trailing newline.
pub open spec fn join_cleaned(lines: Seq<Seq<char>>) -> Seq<char>
    decreases lines.len(),
{
    if lines.len() == 0 {
        Seq::empty()
    } else {
        clean_line(lines[0]) + seq!['\n'] + join_cleaned(lines.drop_first())
    }
}

/// The hidden-line cleaning applied to a whole code region.
pub open spec fn clean_code_spec(code: Seq<char>) -> Seq<char> {
    join_cleaned(line_seqs(code))
}

/// One line cleaned: a removed trailing carriage return, then a removed
/// single leading `'#'` together with the whitespace that follows it.
fn clean_line_str(l: &str) -> (r: String)
    ensures
        r@ == clean_line(l@),
{
    let n = l.unicode_len();
    let end: usize = if n > 0 && l.get_char(n - 1) == '\r' {
        n - 1
    } else {
        n
    };
    let ghost t = strip_cr(l@);
    proof {
        assert(t =~= l@.subrange(0, end as int));
    }
    let mut j: usize = 0;
    if end > 0 && l.get_char(0) == '#' {
        j = 1;
        proof {
            assert(t.skip(1) =~= l@.subrange(1, end as int));
        }
        while j < end && char_is_whitespace(l.get_char(j))
            invariant
                1 <= j <= end <= l@.len(),
                t == l@.subrange(0, end as int),
                t.len() > 0 && t[0] == '#',
                trim_start_rec(t.skip(1)) == trim_start_rec(l@.subrange(j as int, end as int)),
            decreases end - j,
        {
            let ghost seg = l@.subrange(j as int, end as int);
            proof {
                assert(seg[0] == l@[j as int]);
                assert(seg.drop_first() =~= l@.subrange(j + 1, end as int));
            }
            j = j + 1;
        }
        proof {
            let seg = l@.subrange(j as int, end as int);
            if j < end {
                assert(seg[0] == l@[j as int]);
                assert(!unicode_whitespace(seg[0]));
            }
            assert(trim_start_rec(seg) == seg);
        }
    }
    let r = String::from_str(l.substring_char(j, end));
    proof {
        if t.len() > 0 && t[0] == '#' {
            assert(r@ == trim_start_rec(t.skip(1)));
        } else {
            assert(j == 0 && r@ =~= t);
        }
    }
    r
}

/// The per-line removal of a single leading hidden-line marker and its
/// following whitespace, with every line given exactly one trailing newline.
pub fn clean_code(code: &str) -> (r: String)
    ensures
        r@ == clean_code_spec(code@),
{
    let mut parts = split_str(code, '\n');
    let ghost all_parts = parts@.map_values(|t: String| t@);
    if code.unicode_len() == 0 {
        proof {
            assert(line_seqs(code@) =~= Seq::<Seq<char>>::empty());
            assert(join_cleaned(Seq::<Seq<char>>::empty()) =~= Seq::<char>::empty());
        }
        return String::new();
    }
    if parts[parts.len() - 1].as_str().unicode_len() == 0 {
        parts.pop();
        proof {
            assert(parts@.map_values(|t: String| t@) =~= all_parts.drop_last());
        }
    }
    let ghost lines = line_seqs(code@);
    proof {
        assert(parts@.map_values(|t: String| t@) == lines);
    }
    let mut out = String::new();
    let mut k: usize = 0;
    proof {
        reveal_strlit("\n");
        assert(lines.skip(0) =~= lines);
        assert(out@ =~= Seq::<char>::empty());
        assert(Seq::<char>::empty() + join_cleaned(lines) =~= join_cleaned(lines));
    }
    while k < parts.len()
        invariant
            k <= parts.len(),
            parts@.map_values(|t: String| t@) == lines,
            out@ + join_cleaned(lines.skip(k as int)) == clean_code_spec(code@),
            "\n"@ == seq!['\n'],
        decreases parts.len() - k,
    {
        let ghost out0 = out@;
        let ghost rem = lines.skip(k as int);
        proof {
            assert(rem[0] == lines[k as int]);
            assert(lines[k as int] == parts@.map_values(|t: String| t@)[k as int]);
            assert(rem.drop_first() =~= lines.skip(k + 1));
        }
        let cleaned = clean_line_str(parts[k].as_str());
        out.append(cleaned.as_str());
        out.append("\n");
        proof {
            assert(out@ =~= out0 + (clean_line(rem[0]) + seq!['\n']));
            assert(out0 + (clean_line(rem[0]) + seq!['\n']) + join_cleaned(lines.skip(k + 1))
                =~= out0 + (clean_line(rem[0]) + seq!['\n'] + join_cleaned(lines.skip(k + 1))));
        }
        k = k + 1;
    }
    proof {
        assert(lines.skip(parts@.len() as int) =~= Seq::<Seq<char>>::empty());
        assert(out@ + join_cleaned(Seq::<Seq<char>>::empty()) =~= out@);
    }
    out
}

} // verus!

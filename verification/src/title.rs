//! Resolving the issue title from user-supplied text.
//!
//! A candidate title is the user's description tokens joined with
//! single spaces. If the candidate is non-empty after trimming,
//! the trimmed form is the title and no interaction is needed;
//! otherwise a single interactive prompt must supply the title, and
//! its reply is used as entered. The decision is made here; the
//! prompt itself is interactive input and lives outside the library.

use vstd::prelude::*;

verus! {

/// The whitespace characters trimmed from a candidate title: the
/// characters with Unicode's White_Space property, the set that
/// `char::is_whitespace` accepts.
pub open spec fn is_space(c: char) -> bool {
    ||| c == ' ' || c == '\t' || c == '\n' || c == '\u{b}' || c == '\u{c}' || c == '\r'
    ||| c == '\u{85}'  // next line
    ||| c == '\u{a0}'  // no-break space
    ||| c == '\u{1680}'  // ogham space mark
    ||| '\u{2000}' <= c <= '\u{200a}'  // en quad .. hair space
    ||| c == '\u{2028}'  // line separator
    ||| c == '\u{2029}'  // paragraph separator
    ||| c == '\u{202f}'  // narrow no-break space
    ||| c == '\u{205f}'  // medium mathematical space
    ||| c == '\u{3000}'  // ideographic space
}

/// The sequence without its leading whitespace.
pub open spec fn drop_leading_spaces(s: Seq<char>) -> Seq<char>
    decreases s.len(),
{
    if s.len() > 0 && is_space(s[0]) {
        drop_leading_spaces(s.drop_first())
    } else {
        s
    }
}

/// The sequence without its trailing whitespace.
pub open spec fn drop_trailing_spaces(s: Seq<char>) -> Seq<char>
    decreases s.len(),
{
    if s.len() > 0 && is_space(s.last()) {
        drop_trailing_spaces(s.drop_last())
    } else {
        s
    }
}

/// The sequence without leading and trailing whitespace.
pub open spec fn trimmed(s: Seq<char>) -> Seq<char> {
    drop_trailing_spaces(drop_leading_spaces(s))
}

/// The parts joined with single spaces, in order.
pub open spec fn joined(parts: Seq<Seq<char>>) -> Seq<char>
    decreases parts.len(),
{
    if parts.len() == 0 {
        Seq::empty()
    } else if parts.len() == 1 {
        parts[0]
    } else {
        joined(parts.drop_last()) + seq![' '] + parts.last()
    }
}

proof fn lemma_drop_leading_spaces_at(s: Seq<char>, k: int)
    requires
        0 <= k <= s.len(),
        forall|j: int| 0 <= j < k ==> is_space(#[trigger] s[j]),
        k < s.len() ==> !is_space(s[k]),
    ensures
        drop_leading_spaces(s) == s.subrange(k, s.len() as int),
    decreases k,
{
    if k == 0 {
        assert(s.subrange(0, s.len() as int) =~= s);
    } else {
        assert(is_space(s[0]));
        lemma_drop_leading_spaces_at(s.drop_first(), k - 1);
        assert(s.drop_first().subrange(k - 1, s.drop_first().len() as int) =~= s.subrange(
            k,
            s.len() as int,
        ));
    }
}

proof fn lemma_drop_trailing_spaces_at(s: Seq<char>, k: int)
    requires
        0 <= k <= s.len(),
        forall|j: int| k <= j < s.len() ==> is_space(#[trigger] s[j]),
        k > 0 ==> !is_space(s[k - 1]),
    ensures
        drop_trailing_spaces(s) == s.subrange(0, k),
    decreases s.len() - k,
{
    if k == s.len() {
        if s.len() == 0 || !is_space(s.last()) {
            assert(s.subrange(0, s.len() as int) =~= s);
        } else {
            assert(!is_space(s[k - 1]));
            assert(false);
        }
    } else {
        assert(is_space(s.last()));
        lemma_drop_trailing_spaces_at(s.drop_last(), k);
        assert(s.drop_last().subrange(0, k) =~= s.subrange(0, k));
    }
}

/// True exactly on the characters that trimming removes.
pub fn is_space_char(c: char) -> (r: bool)
    ensures
        r == is_space(c),
{
    c == ' ' || c == '\t' || c == '\n' || c == '\u{b}' || c == '\u{c}' || c == '\r'
        || c == '\u{85}' || c == '\u{a0}' || c == '\u{1680}' || ('\u{2000}' <= c && c
        <= '\u{200a}') || c == '\u{2028}' || c == '\u{2029}' || c == '\u{202f}' || c == '\u{205f}'
        || c == '\u{3000}'
}

/// The candidate without leading and trailing whitespace.
pub fn trim(s: &str) -> (r: &str)
    ensures
        r@ == trimmed(s@),
{
    let n = s.unicode_len();
    let mut start: usize = 0;
    while start < n && is_space_char(s.get_char(start))
        invariant
            n == s@.len(),
            start <= n,
            forall|j: int| 0 <= j < start ==> is_space(#[trigger] s@[j]),
        decreases n - start,
    {
        start = start + 1;
    }
    let mut end: usize = n;
    while end > start && is_space_char(s.get_char(end - 1))
        invariant
            n == s@.len(),
            start <= end <= n,
            forall|j: int| end <= j < n ==> is_space(#[trigger] s@[j]),
        decreases end,
    {
        end = end - 1;
    }
    proof {
        lemma_drop_leading_spaces_at(s@, start as int);
        let m = s@.subrange(start as int, n as int);
        lemma_drop_trailing_spaces_at(m, end - start as int);
        assert(m.subrange(0, end - start as int) =~= s@.subrange(start as int, end as int));
    }
    s.substring_char(start, end)
}

/// The description tokens joined with single spaces.
pub fn join_description(parts: &Vec<String>) -> (r: String)
    ensures
        r@ == joined(parts.deep_view()),
{
    let ghost dv = parts.deep_view();
    let mut r = String::new();
    let n = parts.len();
    let mut i: usize = 0;
    while i < n
        invariant
            i <= n,
            n == parts@.len(),
            dv == parts.deep_view(),
            dv.len() == n,
            r@ == joined(dv.take(i as int)),
        decreases n - i,
    {
        if i > 0 {
            r.append(" ");
        }
        r.append(parts[i].as_str());
        proof {
            reveal_strlit(" ");
            assert(dv.take(i + 1 as int).drop_last() =~= dv.take(i as int));
            assert(dv.take(i + 1 as int).last() == dv[i as int]);
            assert(dv[i as int] == parts@[i as int]@);
            assert(r@ =~= joined(dv.take(i + 1 as int)));
        }
        i = i + 1;
    }
    proof {
        assert(dv.take(n as int) =~= dv);
    }
    r
}

/// Decides the issue title from a candidate string. When the trimmed
/// candidate is non-empty it is the title and no prompt is needed;
/// when the candidate is empty or all whitespace, the result is
/// `None` and exactly one interactive prompt must supply the title.
pub fn resolve(candidate: &str) -> (r: Option<String>)
    ensures
        trimmed(candidate@).len() > 0 ==> (r matches Some(t) && t@ == trimmed(candidate@)),
        trimmed(candidate@).len() == 0 ==> r is None,
{
    let t = trim(candidate);
    if t.unicode_len() > 0 {
        Some(t.to_owned())
    } else {
        None
    }
}

} // verus!

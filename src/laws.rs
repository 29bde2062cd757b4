use vstd::prelude::*;
use crate::classify::is_space;
use crate::scan::{after, consumed, lemma_run_len_bound, lemma_scan_consumes, scan, space_len};
use crate::token::TokenView;

verus! {

/// Scanning an exhausted text gives the end and consumes nothing.
pub proof fn lemma_scan_empty(s: Seq<char>)
    requires
        s.len() == 0,
    ensures
        scan(s) == (TokenView::EndOfInput, 0nat),
{
    assert(s.skip(0) =~= s);
}

/// Each step shortens the unconsumed text by at least one character until it
/// is empty, so after `k` steps at most `len - k` characters are left.
pub proof fn lemma_after_shrinks(s: Seq<char>, k: nat)
    ensures
        after(s, k).len() == 0 || after(s, k).len() + k <= s.len(),
    decreases k,
{
    if k > 0 {
        let r = after(s, (k - 1) as nat);
        lemma_after_shrinks(s, (k - 1) as nat);
        lemma_scan_consumes(r);
    }
}

/// Scanning ends: once as many steps as the text has characters have been
/// taken, nothing is left, and every further step yields `EndOfInput` and
/// consumes nothing.
pub proof fn lemma_scanning_ends(s: Seq<char>, k: nat)
    requires
        k >= s.len(),
    ensures
        after(s, k).len() == 0,
        scan(after(s, k)) == (TokenView::EndOfInput, 0nat),
{
    lemma_after_shrinks(s, k);
    lemma_scan_empty(after(s, k));
}

/// What the first `k` steps consumed, followed by what is left, is the input.
pub proof fn lemma_consumed_then_rest(s: Seq<char>, k: nat)
    ensures
        consumed(s, k) + after(s, k) == s,
    decreases k,
{
    if k == 0 {
        assert(Seq::<char>::empty() + s =~= s);
    } else {
        let r = after(s, (k - 1) as nat);
        lemma_consumed_then_rest(s, (k - 1) as nat);
        lemma_scan_consumes(r);
        assert(r.take(scan(r).1 as int) + r.skip(scan(r).1 as int) =~= r);
        assert(consumed(s, k) + after(s, k) =~= consumed(s, (k - 1) as nat) + r);
    }
}

/// Coverage: the spans consumed by the steps up to the end, whitespace and
/// illegal characters included, put together give back the input exactly.
pub proof fn lemma_spans_rebuild_input(s: Seq<char>)
    ensures
        consumed(s, s.len()) == s,
{
    lemma_consumed_then_rest(s, s.len());
    lemma_scanning_ends(s, s.len());
    assert(consumed(s, s.len()) + after(s, s.len()) =~= consumed(s, s.len()));
}

/// Maximal munch: `=`, `<` and `>` take a following `=` into one operator, and
/// otherwise stand alone and consume nothing more.
pub proof fn lemma_two_char_operators(s: Seq<char>)
    requires
        s.len() > 0,
    ensures
        s[0] == '=' ==> scan(s) == (if s.len() > 1 && s[1] == '=' {
            (TokenView::Equality, 2nat)
        } else {
            (TokenView::Assignment, 1nat)
        }),
        s[0] == '<' ==> scan(s) == (if s.len() > 1 && s[1] == '=' {
            (TokenView::LessOrEqual, 2nat)
        } else {
            (TokenView::LessThan, 1nat)
        }),
        s[0] == '>' ==> scan(s) == (if s.len() > 1 && s[1] == '=' {
            (TokenView::GreaterOrEqual, 2nat)
        } else {
            (TokenView::GreaterThan, 1nat)
        }),
{
    assert(s.skip(0) =~= s);
}

proof fn lemma_space_len_prefix(w: Seq<char>, s: Seq<char>)
    requires
        forall|i: int| 0 <= i < w.len() ==> is_space(#[trigger] w[i]),
    ensures
        space_len(w + s) == w.len() + space_len(s),
    decreases w.len(),
{
    if w.len() > 0 {
        assert(is_space(w[0]));
        assert((w + s)[0] == w[0]);
        assert((w + s).drop_first() =~= w.drop_first() + s);
        lemma_space_len_prefix(w.drop_first(), s);
    } else {
        assert(w + s =~= s);
    }
}

/// Whitespace before the text is consumed by the same step and changes
/// nothing else: the token is the one the text alone gives.
pub proof fn lemma_leading_whitespace(w: Seq<char>, s: Seq<char>)
    requires
        forall|i: int| 0 <= i < w.len() ==> is_space(#[trigger] w[i]),
    ensures
        scan(w + s) == (scan(s).0, w.len() + scan(s).1),
{
    lemma_space_len_prefix(w, s);
    lemma_run_len_bound(s, |c: char| is_space(c));
    assert((w + s).skip(w.len() + space_len(s) as int) =~= s.skip(space_len(s) as int));
}

} // verus!

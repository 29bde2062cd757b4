use vstd::prelude::*;
use crate::classify::{is_digit, is_letter, is_space};
use crate::token::TokenView;

verus! {

/// Length of the longest prefix of `s` whose characters all satisfy `p`.
pub open spec fn run_len(s: Seq<char>, p: spec_fn(char) -> bool) -> nat
    decreases s.len(),
{
    if s.len() > 0 && p(s[0]) {
        1 + run_len(s.drop_first(), p)
    } else {
        0
    }
}

/// Number of leading whitespace characters.
pub open spec fn space_len(s: Seq<char>) -> nat {
    run_len(s, |c: char| is_space(c))
}

/// Number of leading numeric characters.
pub open spec fn digit_len(s: Seq<char>) -> nat {
    run_len(s, |c: char| is_digit(c))
}

/// Number of leading alphabetic characters.
pub open spec fn letter_len(s: Seq<char>) -> nat {
    run_len(s, |c: char| is_letter(c))
}

/// A scanned word is a keyword when it matches one exactly, else an identifier.
pub open spec fn word_token(w: Seq<char>) -> TokenView {
    if w == seq!['l', 'e', 't'] {
        TokenView::Let
    } else if w == seq!['f', 'n'] {
        TokenView::Function
    } else {
        TokenView::Identifier(w)
    }
}

/// An operator that becomes a two-character operator when `=` follows it.
pub open spec fn with_equals(t: Seq<char>, single: TokenView, double: TokenView) -> (TokenView, nat) {
    if t.len() > 1 && t[1] == '=' {
        (double, 2)
    } else {
        (single, 1)
    }
}

/// The token at the front of `t`, which starts with a character that is not
/// whitespace, and how many characters it takes.
pub open spec fn lexeme(t: Seq<char>) -> (TokenView, nat)
    recommends
        t.len() > 0,
{
    let c = t[0];
    if c == '(' {
        (TokenView::LeftParen, 1)
    } else if c == ')' {
        (TokenView::RightParen, 1)
    } else if c == '{' {
        (TokenView::LeftBrace, 1)
    } else if c == '}' {
        (TokenView::RightBrace, 1)
    } else if c == ',' {
        (TokenView::Comma, 1)
    } else if c == '+' {
        (TokenView::Plus, 1)
    } else if c == '-' {
        (TokenView::Minus, 1)
    } else if c == ';' {
        (TokenView::Semicolon, 1)
    } else if c == '=' {
        with_equals(t, TokenView::Assignment, TokenView::Equality)
    } else if c == '<' {
        with_equals(t, TokenView::LessThan, TokenView::LessOrEqual)
    } else if c == '>' {
        with_equals(t, TokenView::GreaterThan, TokenView::GreaterOrEqual)
    } else if is_digit(c) {
        let n = 1 + digit_len(t.drop_first());
        (TokenView::Number(t.take(n as int)), n)
    } else if is_letter(c) {
        let n = 1 + letter_len(t.drop_first());
        (word_token(t.take(n as int)), n)
    } else {
        (TokenView::Illegal, 1)
    }
}

/// One scanning step on the unconsumed text `s`: the token produced and how
/// many characters it consumes, leading whitespace included.
pub open spec fn scan(s: Seq<char>) -> (TokenView, nat) {
    let w = space_len(s);
    let t = s.skip(w as int);
    if t.len() == 0 {
        (TokenView::EndOfInput, w)
    } else {
        (lexeme(t).0, w + lexeme(t).1)
    }
}

/// The unconsumed text after `k` scanning steps on `s`.
pub open spec fn after(s: Seq<char>, k: nat) -> Seq<char>
    decreases k,
{
    if k == 0 {
        s
    } else {
        let r = after(s, (k - 1) as nat);
        r.skip(scan(r).1 as int)
    }
}

/// The characters consumed by the first `k` scanning steps on `s`, span after
/// span, whitespace included.
pub open spec fn consumed(s: Seq<char>, k: nat) -> Seq<char>
    decreases k,
{
    if k == 0 {
        Seq::empty()
    } else {
        let r = after(s, (k - 1) as nat);
        consumed(s, (k - 1) as nat) + r.take(scan(r).1 as int)
    }
}

/// A run never extends past the end of the text.
pub proof fn lemma_run_len_bound(s: Seq<char>, p: spec_fn(char) -> bool)
    ensures
        run_len(s, p) <= s.len(),
    decreases s.len(),
{
    if s.len() > 0 && p(s[0]) {
        lemma_run_len_bound(s.drop_first(), p);
    }
}

/// A scanning step consumes at most what is left; it consumes at least one
/// character unless it reports the end, and the end is reported only once
/// everything has been consumed.
pub proof fn lemma_scan_consumes(s: Seq<char>)
    ensures
        scan(s).1 <= s.len(),
        scan(s).0 is EndOfInput <==> scan(s).1 == s.len() && s.skip(
            space_len(s) as int,
        ).len() == 0,
        !(scan(s).0 is EndOfInput) ==> 0 < scan(s).1,
{
    let w = space_len(s);
    lemma_run_len_bound(s, |c: char| is_space(c));
    let t = s.skip(w as int);
    if t.len() > 0 {
        lemma_run_len_bound(t.drop_first(), |c: char| is_digit(c));
        lemma_run_len_bound(t.drop_first(), |c: char| is_letter(c));
    }
}

} // verus!

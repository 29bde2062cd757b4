use vstd::prelude::*;
use crate::classify::{char_is_digit, char_is_letter, char_is_space, push_char};
use crate::classify::{is_digit, is_letter, is_space};
use crate::scan::{
    after, digit_len, lemma_run_len_bound, lemma_scan_consumes, letter_len, scan, space_len, word_token,
};
use crate::token::Token;

verus! {

/// A cursor over one line of text that hands out one token per call.
pub struct Lexer {
    chars: Vec<char>,
    pos: usize,
}

impl View for Lexer {
    /// The text not yet consumed.
    type V = Seq<char>;

    closed spec fn view(&self) -> Seq<char> {
        self.chars@.skip(self.pos as int)
    }
}

impl Lexer {
    #[verifier::type_invariant]
    spec fn inv(&self) -> bool {
        self.pos <= self.chars.len()
    }

    /// A lexer over the whole of `input`.
    pub fn new(input: &str) -> (l: Lexer)
        ensures
            l@ == input@,
    {
        let mut chars: Vec<char> = Vec::new();
        for c in it: input.chars()
            invariant
                chars@ == it.seq().take(it.index() as int),
        {
            chars.push(c);
        }
        let l = Lexer { chars, pos: 0 };
        assert(l@ =~= input@);
        l
    }

    /// Consumes the whitespace at the front of the unconsumed text.
    pub fn skip_whitespace(&mut self)
        ensures
            final(self)@ == old(self)@.skip(space_len(old(self)@) as int),
    {
        proof {
            use_type_invariant(&*self);
        }
        let ghost start = self.pos as int;
        while self.pos < self.chars.len() && char_is_space(self.chars[self.pos])
            invariant
                start <= self.pos <= self.chars.len(),
                self.chars@ == old(self).chars@,
                start == old(self).pos,
                space_len(old(self)@) == (self.pos - start) + space_len(self@),
            decreases self.chars.len() - self.pos,
        {
            assert(self@.drop_first() =~= self.chars@.skip(self.pos + 1));
            self.pos = self.pos + 1;
        }
        assert(old(self)@.skip(space_len(old(self)@) as int) =~= self@);
    }

    /// Scans a run of numeric characters that follows the already consumed
    /// `initial`, and returns the whole literal text.
    pub fn read_number(&mut self, initial: char) -> (r: String)
        ensures
            r@ == seq![initial] + old(self)@.take(digit_len(old(self)@) as int),
            final(self)@ == old(self)@.skip(digit_len(old(self)@) as int),
    {
        proof {
            use_type_invariant(&*self);
        }
        let mut num = String::new();
        push_char(&mut num, initial);
        let ghost start = self.pos as int;
        while self.pos < self.chars.len() && char_is_digit(self.chars[self.pos])
            invariant
                start <= self.pos <= self.chars.len(),
                self.chars@ == old(self).chars@,
                start == old(self).pos,
                digit_len(old(self)@) == (self.pos - start) + digit_len(self@),
                num@ == seq![initial] + old(self)@.take(self.pos - start),
            decreases self.chars.len() - self.pos,
        {
            assert(self@.drop_first() =~= self.chars@.skip(self.pos + 1));
            push_char(&mut num, self.chars[self.pos]);
            self.pos = self.pos + 1;
            assert(num@ =~= seq![initial] + old(self)@.take(self.pos - start));
        }
        assert(old(self)@.skip(digit_len(old(self)@) as int) =~= self@);
        num
    }

    /// Scans a run of alphabetic characters that follows the already consumed
    /// `initial`, and returns the keyword it spells, else an identifier.
    pub fn read_symbol(&mut self, initial: char) -> (r: Token)
        ensures
            r@ == word_token(seq![initial] + old(self)@.take(letter_len(old(self)@) as int)),
            final(self)@ == old(self)@.skip(letter_len(old(self)@) as int),
    {
        proof {
            use_type_invariant(&*self);
        }
        let mut sym = String::new();
        push_char(&mut sym, initial);
        let start = self.pos;
        while self.pos < self.chars.len() && char_is_letter(self.chars[self.pos])
            invariant
                start <= self.pos <= self.chars.len(),
                self.chars@ == old(self).chars@,
                start == old(self).pos,
                letter_len(old(self)@) == (self.pos - start) + letter_len(self@),
                sym@ == seq![initial] + old(self)@.take(self.pos - start),
            decreases self.chars.len() - self.pos,
        {
            assert(self@.drop_first() =~= self.chars@.skip(self.pos + 1));
            push_char(&mut sym, self.chars[self.pos]);
            self.pos = self.pos + 1;
            assert(sym@ =~= seq![initial] + old(self)@.take(self.pos - start));
        }
        assert(old(self)@.skip(letter_len(old(self)@) as int) =~= self@);
        let len = self.pos - start;
        if len == 2 && initial == 'l' && self.chars[start] == 'e' && self.chars[start + 1] == 't' {
            assert(sym@ =~= seq!['l', 'e', 't']);
            Token::Let
        } else if len == 1 && initial == 'f' && self.chars[start] == 'n' {
            assert(sym@ =~= seq!['f', 'n']);
            Token::Function
        } else {
            assert(sym@ != seq!['l', 'e', 't']) by {
                if sym@ == seq!['l', 'e', 't'] {
                    assert(sym@[1] == self.chars@[start as int]);
                }
            }
            assert(sym@ != seq!['f', 'n']) by {
                if sym@ == seq!['f', 'n'] {
                    assert(sym@[1] == self.chars@[start as int]);
                }
            }
            Token::Identifier(sym)
        }
    }

    /// Consumes a `=` at the front of the unconsumed text, if there is one, to
    /// give `double`; else gives `single` and consumes nothing.
    fn with_equals(&mut self, single: Token, double: Token) -> (r: Token)
        ensures
            old(self)@.len() > 0 && old(self)@[0] == '=' ==> r == double && final(self)@
                == old(self)@.drop_first(),
            !(old(self)@.len() > 0 && old(self)@[0] == '=') ==> r == single && final(self)@
                == old(self)@,
    {
        proof {
            use_type_invariant(&*self);
        }
        if self.pos < self.chars.len() && self.chars[self.pos] == '=' {
            self.pos = self.pos + 1;
            assert(self@ =~= old(self)@.drop_first());
            double
        } else {
            single
        }
    }

    /// Skips whitespace, then consumes and returns the next token; once the
    /// text is used up it returns `EndOfInput`, on every call.
    pub fn next_token(&mut self) -> (r: Token)
        ensures
            r@ == scan(old(self)@).0,
            final(self)@ == old(self)@.skip(scan(old(self)@).1 as int),
    {
        self.skip_whitespace();
        proof {
            use_type_invariant(&*self);
        }
        let ghost t = self@;
        assert(t == old(self)@.skip(space_len(old(self)@) as int));
        proof {
            lemma_run_len_bound(old(self)@, |c: char| is_space(c));
        }
        if self.pos >= self.chars.len() {
            assert(self@ =~= old(self)@.skip(scan(old(self)@).1 as int));
            return Token::EndOfInput;
        }
        let c = self.chars[self.pos];
        self.pos = self.pos + 1;
        assert(self@ =~= t.drop_first());
        let r = match c {
            '(' => Token::LeftParen,
            ')' => Token::RightParen,
            '{' => Token::LeftBrace,
            '}' => Token::RightBrace,
            ',' => Token::Comma,
            '+' => Token::Plus,
            '-' => Token::Minus,
            ';' => Token::Semicolon,
            '=' => self.with_equals(Token::Assignment, Token::Equality),
            '<' => self.with_equals(Token::LessThan, Token::LessOrEqual),
            '>' => self.with_equals(Token::GreaterThan, Token::GreaterOrEqual),
            _ => {
                if char_is_digit(c) {
                    let ghost u = self@;
                    proof {
                        lemma_run_len_bound(u, |c: char| is_digit(c));
                    }
                    let num = self.read_number(c);
                    assert(num@ =~= t.take(1 + digit_len(u) as int));
                    assert(self@ =~= t.skip(1 + digit_len(u) as int));
                    Token::Number(num)
                } else if char_is_letter(c) {
                    let ghost u = self@;
                    proof {
                        lemma_run_len_bound(u, |c: char| is_letter(c));
                    }
                    let tok = self.read_symbol(c);
                    assert(seq![c] + u.take(letter_len(u) as int) =~= t.take(1 + letter_len(u) as int));
                    assert(self@ =~= t.skip(1 + letter_len(u) as int));
                    tok
                } else {
                    Token::Illegal
                }
            },
        };
        assert(self@ =~= t.skip(scan(old(self)@).1 - space_len(old(self)@)));
        assert(self@ =~= old(self)@.skip(scan(old(self)@).1 as int));
        r
    }
}

/// Scans a whole line: the tokens of the successive scanning steps, up to and
/// including the first `EndOfInput`.
pub fn tokenize(line: &str) -> (r: Vec<Token>)
    ensures
        r.len() > 0,
        forall|i: int| 0 <= i < r.len() ==> #[trigger] r[i]@ == scan(after(line@, i as nat)).0,
        forall|i: int| 0 <= i < r.len() - 1 ==> !(#[trigger] r[i]@ is EndOfInput),
        r[r.len() - 1]@ is EndOfInput,
{
    let mut lexer = Lexer::new(line);
    let mut out: Vec<Token> = Vec::new();
    loop
        invariant
            lexer@ == after(line@, out.len() as nat),
            forall|i: int| 0 <= i < out.len() ==> #[trigger] out[i]@ == scan(after(line@, i as nat)).0,
            forall|i: int| 0 <= i < out.len() ==> !(#[trigger] out[i]@ is EndOfInput),
        decreases lexer@.len(),
    {
        let ghost before = lexer@;
        proof {
            lemma_scan_consumes(before);
        }
        let tok = lexer.next_token();
        let end = tok.is_end();
        out.push(tok);
        if end {
            return out;
        }
    }
}

} // verus!

//! The tokenizer: one pass over the source text, left to right, that yields
//! the token sequence or fails on the first thing that is no token.

use vstd::prelude::*;
use crate::chars::{alphabetic, digit, is_alphabetic, is_digit, is_quote, is_whitespace, whitespace};
use crate::error::LexicalError;
use crate::text::{chars_of, same_text, string_of};
use crate::token::{token_views, Token, TokenType, TokenView};

verus! {

/// The kind of the one-character token that `c` is, if it is one.
pub open spec fn symbol_kind(c: char) -> Option<TokenType> {
    if c == '=' {
        Some(TokenType::Assign)
    } else if c == '{' {
        Some(TokenType::ScopeDrop)
    } else if c == '}' {
        Some(TokenType::ScopeJump)
    } else if c == '(' {
        Some(TokenType::ExpressionStart)
    } else if c == ')' {
        Some(TokenType::ExpressionClose)
    } else {
        None
    }
}

/// The kind of the alphabetic run `word`: that of the keyword or boolean
/// literal that it spells exactly, and an identifier otherwise.
pub open spec fn word_kind(word: Seq<char>) -> TokenType {
    if word == "let"@ {
        TokenType::Let
    } else if word == "print"@ {
        TokenType::PrintCall
    } else if word == "if"@ {
        TokenType::Conditional
    } else if word == "else"@ {
        TokenType::ConditionalElse
    } else if word == "true"@ {
        TokenType::BooleanLiteral
    } else if word == "false"@ {
        TokenType::BooleanLiteral
    } else if word == "goto"@ {
        TokenType::Goto
    } else {
        TokenType::Identifier
    }
}

/// A run of characters that the tokenizer takes as far as it goes.
#[derive(Clone, Copy, Debug, PartialEq, Eq, Structural)]
pub enum Run {
    /// Every character but the one given: the inside of a string literal.
    Until(char),
    /// Alphabetic characters.
    Letters,
    /// Decimal digits.
    Digits,
}

/// The character `c` carries the run `run` on.
pub open spec fn continues(run: Run, c: char) -> bool {
    match run {
        Run::Until(stop) => c != stop,
        Run::Letters => is_alphabetic(c),
        Run::Digits => is_digit(c),
    }
}

/// Where the run `run` that is read from `i` on ends: the first position from
/// `i` on whose character does not carry it on, and the end of `s` if there is
/// none.
pub open spec fn run_end(s: Seq<char>, i: int, run: Run) -> int
    decreases s.len() - i,
{
    if 0 <= i < s.len() && continues(run, s[i]) {
        run_end(s, i + 1, run)
    } else {
        i
    }
}

/// The token sequence that begins with `first` and goes on as `rest` does.
pub open spec fn token_then(first: TokenView, rest: Result<Seq<TokenView>, LexicalError>) -> Result<
    Seq<TokenView>,
    LexicalError,
> {
    match rest {
        Ok(tokens) => Ok(seq![first] + tokens),
        Err(e) => Err(e),
    }
}

/// The token sequence that begins with every token of `first` and goes on as
/// `rest` does.
pub open spec fn tokens_then(first: Seq<TokenView>, rest: Result<Seq<TokenView>, LexicalError>) -> Result<
    Seq<TokenView>,
    LexicalError,
> {
    match rest {
        Ok(tokens) => Ok(first + tokens),
        Err(e) => Err(e),
    }
}

/// The tokens of `s` from position `i` on. At each position the first rule
/// that fits is taken, and takes as much as it can: a quote opens a string
/// literal that runs to the next quote of the same kind; `=`, `{`, `}`, `(`,
/// `)` are tokens of one character; an alphabetic character starts a word, a
/// digit a number; whitespace is passed over; anything else is an error, and
/// so is a string literal that is never closed.
pub open spec fn lex_from(s: Seq<char>, i: int) -> Result<Seq<TokenView>, LexicalError>
    decreases s.len() - i,
    via lex_from_terminates
{
    if i < 0 || i >= s.len() {
        Ok(Seq::empty())
    } else if is_quote(s[i]) {
        let close = run_end(s, i + 1, Run::Until(s[i]));
        if close >= s.len() {
            Err(LexicalError::UnterminatedString)
        } else {
            token_then(
                TokenView { kind: TokenType::StringLiteral, text: s.subrange(i + 1, close) },
                lex_from(s, close + 1),
            )
        }
    } else if symbol_kind(s[i]) is Some {
        token_then(
            TokenView { kind: symbol_kind(s[i])->0, text: s.subrange(i, i + 1) },
            lex_from(s, i + 1),
        )
    } else if is_alphabetic(s[i]) {
        let end = run_end(s, i, Run::Letters);
        token_then(
            TokenView { kind: word_kind(s.subrange(i, end)), text: s.subrange(i, end) },
            lex_from(s, end),
        )
    } else if is_digit(s[i]) {
        let end = run_end(s, i, Run::Digits);
        token_then(
            TokenView { kind: TokenType::NumberLiteral, text: s.subrange(i, end) },
            lex_from(s, end),
        )
    } else if is_whitespace(s[i]) {
        lex_from(s, i + 1)
    } else {
        Err(LexicalError::UnexpectedCharacter)
    }
}

#[via_fn]
proof fn lex_from_terminates(s: Seq<char>, i: int) {
    if 0 <= i < s.len() {
        lemma_run_end(s, i + 1, Run::Until(s[i]));
        lemma_run_end(s, i + 1, Run::Letters);
        lemma_run_end(s, i + 1, Run::Digits);
    }
}

/// The tokens of the whole of `s`.
pub open spec fn tokens_of(s: Seq<char>) -> Result<Seq<TokenView>, LexicalError> {
    lex_from(s, 0)
}

/// A run ends at or after its start and within the text; every character
/// before its end carries it on, and the character at its end does not.
pub proof fn lemma_run_end(s: Seq<char>, i: int, run: Run)
    requires
        0 <= i <= s.len(),
    ensures
        i <= run_end(s, i, run) <= s.len(),
        forall|k: int| i <= k < run_end(s, i, run) ==> continues(run, #[trigger] s[k]),
        run_end(s, i, run) < s.len() ==> !continues(run, s[run_end(s, i, run)]),
    decreases s.len() - i,
{
    if i < s.len() && continues(run, s[i]) {
        lemma_run_end(s, i + 1, run);
    }
}

/// A run that is carried on up to `end`, and not at `end`, ends at `end`.
pub proof fn lemma_run_end_is(s: Seq<char>, i: int, run: Run, end: int)
    requires
        0 <= i <= end <= s.len(),
        forall|k: int| i <= k < end ==> continues(run, #[trigger] s[k]),
        end < s.len() ==> !continues(run, s[end]),
    ensures
        run_end(s, i, run) == end,
    decreases end - i,
{
    if i < end {
        lemma_run_end_is(s, i + 1, run, end);
    }
}

/// Each of the seven reserved words has its own kind, whatever the order in
/// which they are tried, and a word is an identifier exactly when it is none
/// of them.
pub proof fn lemma_reserved_words(word: Seq<char>)
    ensures
        word == "let"@ ==> word_kind(word) == TokenType::Let,
        word == "print"@ ==> word_kind(word) == TokenType::PrintCall,
        word == "if"@ ==> word_kind(word) == TokenType::Conditional,
        word == "else"@ ==> word_kind(word) == TokenType::ConditionalElse,
        word == "true"@ ==> word_kind(word) == TokenType::BooleanLiteral,
        word == "false"@ ==> word_kind(word) == TokenType::BooleanLiteral,
        word == "goto"@ ==> word_kind(word) == TokenType::Goto,
        word_kind(word) == TokenType::Identifier <==> !(word == "let"@ || word == "print"@ || word
            == "if"@ || word == "else"@ || word == "true"@ || word == "false"@ || word == "goto"@),
{
    reveal_strlit("let");
    reveal_strlit("print");
    reveal_strlit("if");
    reveal_strlit("else");
    reveal_strlit("true");
    reveal_strlit("false");
    reveal_strlit("goto");
    if word.len() == 4 {
        assert("else"@[0] != "true"@[0]);
        assert("else"@[0] != "goto"@[0]);
        assert("true"@[0] != "goto"@[0]);
    }
    if word.len() == 5 {
        assert("print"@[0] != "false"@[0]);
    }
}

/// A source that is one alphabetic run is one token: the run as its text,
/// with the kind of the reserved word that it spells, or an identifier. The
/// run's first character is to start a word, so it is none of the characters
/// that the tokenizer tries before it looks for a word: of those none is
/// alphabetic, which [`is_alphabetic`], a name without a table, does not say.
pub proof fn lemma_word_is_one_token(word: Seq<char>)
    requires
        word.len() > 0,
        forall|k: int| 0 <= k < word.len() ==> is_alphabetic(#[trigger] word[k]),
        !is_quote(word[0]),
        symbol_kind(word[0]) is None,
    ensures
        tokens_of(word) == Ok::<Seq<TokenView>, LexicalError>(
            seq![TokenView { kind: word_kind(word), text: word }],
        ),
{
    let end = word.len() as int;
    lemma_run_end_is(word, 0, Run::Letters, end);
    let token = TokenView { kind: word_kind(word), text: word };
    assert(word.subrange(0, end) == word);
    assert(lex_from(word, end) == Ok::<Seq<TokenView>, LexicalError>(Seq::empty()));
    assert(lex_from(word, 0) == token_then(token, lex_from(word, end)));
    assert(seq![token] + Seq::<TokenView>::empty() == seq![token]);
}

/// A string between two quotes of one kind, with no quote of that kind
/// inside, is one string literal whose text is the string exactly.
pub proof fn lemma_string_literal_round_trip(quote: char, body: Seq<char>)
    requires
        is_quote(quote),
        forall|k: int| 0 <= k < body.len() ==> #[trigger] body[k] != quote,
    ensures
        tokens_of(seq![quote] + body + seq![quote]) == Ok::<Seq<TokenView>, LexicalError>(
            seq![TokenView { kind: TokenType::StringLiteral, text: body }],
        ),
{
    let s = seq![quote] + body + seq![quote];
    let close = body.len() as int + 1;
    assert forall|k: int| 1 <= k < close implies continues(Run::Until(quote), #[trigger] s[k]) by {
        assert(s[k] == body[k - 1]);
    }
    lemma_run_end_is(s, 1, Run::Until(quote), close);
    let token = TokenView { kind: TokenType::StringLiteral, text: body };
    assert(s.subrange(1, close) == body);
    assert(s[0] == quote && s[close] == quote);
    assert(lex_from(s, close + 1) == Ok::<Seq<TokenView>, LexicalError>(Seq::empty()));
    assert(lex_from(s, 0) == token_then(token, lex_from(s, close + 1)));
    assert(seq![token] + Seq::<TokenView>::empty() == seq![token]);
}

/// Decides [`continues`].
fn carries_on(run: Run, c: char) -> (r: bool)
    ensures
        r == continues(run, c),
{
    match run {
        Run::Until(stop) => c != stop,
        Run::Letters => alphabetic(c),
        Run::Digits => digit(c),
    }
}

/// The end of the run `run` that is read from `from` on.
fn scan(chars: &Vec<char>, from: usize, run: Run) -> (end: usize)
    requires
        from <= chars.len(),
    ensures
        from <= end <= chars.len(),
        end == run_end(chars@, from as int, run),
{
    let mut end: usize = from;
    while end < chars.len() && carries_on(run, chars[end])
        invariant
            from <= end <= chars.len(),
            forall|k: int| from <= k < end ==> continues(run, #[trigger] chars@[k]),
        decreases chars.len() - end,
    {
        end = end + 1;
    }
    proof {
        lemma_run_end_is(chars@, from as int, run, end as int);
    }
    end
}

/// The kind of the word `word`.
pub fn classify(word: &str) -> (kind: TokenType)
    ensures
        kind == word_kind(word@),
{
    if same_text(word, "let") {
        TokenType::Let
    } else if same_text(word, "print") {
        TokenType::PrintCall
    } else if same_text(word, "if") {
        TokenType::Conditional
    } else if same_text(word, "else") {
        TokenType::ConditionalElse
    } else if same_text(word, "true") {
        TokenType::BooleanLiteral
    } else if same_text(word, "false") {
        TokenType::BooleanLiteral
    } else if same_text(word, "goto") {
        TokenType::Goto
    } else {
        TokenType::Identifier
    }
}

/// The one-character token kind of `c`, if it has one.
fn symbol(c: char) -> (kind: Option<TokenType>)
    ensures
        kind == symbol_kind(c),
{
    if c == '=' {
        Some(TokenType::Assign)
    } else if c == '{' {
        Some(TokenType::ScopeDrop)
    } else if c == '}' {
        Some(TokenType::ScopeJump)
    } else if c == '(' {
        Some(TokenType::ExpressionStart)
    } else if c == ')' {
        Some(TokenType::ExpressionClose)
    } else {
        None
    }
}

/// The tokenizer: the source text and the position that scanning has
/// reached in it, counted in characters.
pub struct Lexer {
    contents: String,
    index: usize,
}

impl Lexer {
    #[verifier::type_invariant]
    spec fn within(&self) -> bool {
        self.index <= self.contents@.len()
    }

    /// The source text.
    pub closed spec fn source(&self) -> Seq<char> {
        self.contents@
    }

    /// The position that scanning has reached.
    pub closed spec fn position(&self) -> int {
        self.index as int
    }

    /// A tokenizer at the start of `contents`.
    pub fn create(contents: String) -> (lexer: Lexer)
        ensures
            lexer.source() == contents@,
            lexer.position() == 0,
    {
        Lexer { contents, index: 0 }
    }

    /// Scans the source from the position reached to its end and gives the
    /// tokens found, in order. After that the position is the end of the
    /// source, and scanning again finds nothing. Where the text is no token
    /// sequence the first fault is the error, and the position stays.
    pub fn tokenize(&mut self) -> (result: Result<Vec<Token>, LexicalError>)
        ensures
            final(self).source() == old(self).source(),
            match lex_from(old(self).source(), old(self).position()) {
                Ok(tokens) => {
                    &&& result matches Ok(found)
                    &&& token_views(found@) == tokens
                    &&& final(self).position() == old(self).source().len()
                },
                Err(e) => {
                    &&& result == Err::<Vec<Token>, LexicalError>(e)
                    &&& final(self).position() == old(self).position()
                },
            },
    {
        proof {
            use_type_invariant(&*self);
        }
        let chars = chars_of(self.contents.as_str());
        let len = chars.len();
        let start = self.index;
        let ghost s = chars@;
        let mut tokens: Vec<Token> = Vec::new();
        let mut at: usize = start;
        assert(token_views(tokens@) + lex_from(s, at as int)->Ok_0 == lex_from(s, at as int)->Ok_0);
        while at < len
            invariant
                len == chars.len(),
                s == chars@,
                s == old(self).source(),
                start == old(self).position(),
                *self == *old(self),
                start <= at <= len,
                lex_from(s, start as int) == tokens_then(token_views(tokens@), lex_from(s, at as int)),
            decreases len - at,
        {
            let c = chars[at];
            let ghost before = token_views(tokens@);
            let next: usize;
            let found: Option<Token>;
            if c == '\'' || c == '"' {
                let close = scan(&chars, at + 1, Run::Until(c));
                if close >= len {
                    return Err(LexicalError::UnterminatedString);
                }
                found = Some(Token::create(TokenType::StringLiteral, string_of(&chars, at + 1, close)));
                next = close + 1;
            } else if let Some(kind) = symbol(c) {
                found = Some(Token::create(kind, string_of(&chars, at, at + 1)));
                next = at + 1;
            } else if alphabetic(c) {
                let end = scan(&chars, at, Run::Letters);
                let word = string_of(&chars, at, end);
                let kind = classify(word.as_str());
                found = Some(Token::create(kind, word));
                next = end;
            } else if digit(c) {
                let end = scan(&chars, at, Run::Digits);
                found = Some(Token::create(TokenType::NumberLiteral, string_of(&chars, at, end)));
                next = end;
            } else if whitespace(c) {
                found = None;
                next = at + 1;
            } else {
                return Err(LexicalError::UnexpectedCharacter);
            }
            proof {
                lemma_run_end(s, at as int + 1, Run::Letters);
                lemma_run_end(s, at as int + 1, Run::Digits);
            }
            match found {
                Some(token) => {
                    assert(lex_from(s, at as int) == token_then(token@, lex_from(s, next as int)));
                    tokens.push(token);
                    proof {
                        let after = token_views(tokens@);
                        assert(after == before.push(token@));
                        if let Ok(rest) = lex_from(s, next as int) {
                            assert(before + (seq![token@] + rest) == after + rest);
                        }
                    }
                },
                None => {},
            }
            at = next;
        }
        proof {
            let all = token_views(tokens@);
            assert(all + Seq::<TokenView>::empty() == all);
        }
        self.index = len;
        Ok(tokens)
    }
}

} // verus!

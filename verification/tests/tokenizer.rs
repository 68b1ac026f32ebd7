use tinyscript::error::LexicalError;
use tinyscript::lexer::{classify, Lexer};
use tinyscript::token::{Token, TokenType};

fn tokens_of(source: &str) -> Result<Vec<Token>, LexicalError> {
    Lexer::create(source.to_string()).tokenize()
}

fn token(kind: TokenType, text: &str) -> Token {
    Token::create(kind, text.to_string())
}

fn kinds_of(source: &str) -> Vec<TokenType> {
    tokens_of(source).unwrap().iter().map(|t| t.token_type).collect()
}

#[test]
fn create_keeps_kind_and_text() {
    let t = Token::create(TokenType::Identifier, "name".to_string());
    assert_eq!(t.token_type, TokenType::Identifier);
    assert_eq!(t.literal, "name");
    assert_eq!(t.duplicate(), t);
}

#[test]
fn empty_source_has_no_tokens() {
    assert_eq!(tokens_of(""), Ok(vec![]));
    assert_eq!(tokens_of(" \t\r\n "), Ok(vec![]));
}

#[test]
fn single_quoted_string_loses_its_quotes() {
    assert_eq!(tokens_of("'hello world'"), Ok(vec![token(TokenType::StringLiteral, "hello world")]));
}

#[test]
fn double_quoted_string_loses_its_quotes() {
    assert_eq!(tokens_of("\"hello world\""), Ok(vec![token(TokenType::StringLiteral, "hello world")]));
}

#[test]
fn string_keeps_the_other_kind_of_quote() {
    assert_eq!(tokens_of("'say \"hi\"'"), Ok(vec![token(TokenType::StringLiteral, "say \"hi\"")]));
    assert_eq!(tokens_of("\"it's\""), Ok(vec![token(TokenType::StringLiteral, "it's")]));
}

#[test]
fn string_is_taken_verbatim() {
    assert_eq!(
        tokens_of("'let x = 1 { } \\n é ½'"),
        Ok(vec![token(TokenType::StringLiteral, "let x = 1 { } \\n é ½")])
    );
}

#[test]
fn empty_string_literal() {
    assert_eq!(tokens_of("''"), Ok(vec![token(TokenType::StringLiteral, "")]));
    assert_eq!(tokens_of("\"\"\"\""), Ok(vec![
        token(TokenType::StringLiteral, ""),
        token(TokenType::StringLiteral, ""),
    ]));
}

#[test]
fn unterminated_string_is_an_error() {
    assert_eq!(tokens_of("'abc"), Err(LexicalError::UnterminatedString));
    assert_eq!(tokens_of("print \"abc'"), Err(LexicalError::UnterminatedString));
    assert_eq!(tokens_of("'"), Err(LexicalError::UnterminatedString));
}

#[test]
fn one_character_tokens() {
    assert_eq!(
        tokens_of("={}()"),
        Ok(vec![
            token(TokenType::Assign, "="),
            token(TokenType::ScopeDrop, "{"),
            token(TokenType::ScopeJump, "}"),
            token(TokenType::ExpressionStart, "("),
            token(TokenType::ExpressionClose, ")"),
        ])
    );
}

#[test]
fn each_reserved_word_has_its_kind() {
    assert_eq!(tokens_of("let"), Ok(vec![token(TokenType::Let, "let")]));
    assert_eq!(tokens_of("print"), Ok(vec![token(TokenType::PrintCall, "print")]));
    assert_eq!(tokens_of("if"), Ok(vec![token(TokenType::Conditional, "if")]));
    assert_eq!(tokens_of("else"), Ok(vec![token(TokenType::ConditionalElse, "else")]));
    assert_eq!(tokens_of("true"), Ok(vec![token(TokenType::BooleanLiteral, "true")]));
    assert_eq!(tokens_of("false"), Ok(vec![token(TokenType::BooleanLiteral, "false")]));
    assert_eq!(tokens_of("goto"), Ok(vec![token(TokenType::Goto, "goto")]));
}

#[test]
fn other_words_are_identifiers() {
    for word in ["x", "lets", "le", "Let", "PRINT", "iff", "elsee", "True", "gotoo", "printlet", "été"] {
        assert_eq!(tokens_of(word), Ok(vec![token(TokenType::Identifier, word)]), "{}", word);
    }
}

#[test]
fn classify_knows_the_reserved_words() {
    assert_eq!(classify("let"), TokenType::Let);
    assert_eq!(classify("print"), TokenType::PrintCall);
    assert_eq!(classify("if"), TokenType::Conditional);
    assert_eq!(classify("else"), TokenType::ConditionalElse);
    assert_eq!(classify("true"), TokenType::BooleanLiteral);
    assert_eq!(classify("false"), TokenType::BooleanLiteral);
    assert_eq!(classify("goto"), TokenType::Goto);
    assert_eq!(classify("tru"), TokenType::Identifier);
    assert_eq!(classify(""), TokenType::Identifier);
}

#[test]
fn a_word_is_a_maximal_alphabetic_run() {
    assert_eq!(
        tokens_of("letx=y"),
        Ok(vec![
            token(TokenType::Identifier, "letx"),
            token(TokenType::Assign, "="),
            token(TokenType::Identifier, "y"),
        ])
    );
}

#[test]
fn a_number_is_a_maximal_run_of_digits() {
    assert_eq!(tokens_of("0123456789"), Ok(vec![token(TokenType::NumberLiteral, "0123456789")]));
    assert_eq!(
        tokens_of("12ab34"),
        Ok(vec![
            token(TokenType::NumberLiteral, "12"),
            token(TokenType::Identifier, "ab"),
            token(TokenType::NumberLiteral, "34"),
        ])
    );
}

#[test]
fn a_number_has_no_sign_and_no_fraction() {
    assert_eq!(tokens_of("1.5"), Err(LexicalError::UnexpectedCharacter));
    assert_eq!(tokens_of("-1"), Err(LexicalError::UnexpectedCharacter));
    assert_eq!(tokens_of("+1"), Err(LexicalError::UnexpectedCharacter));
}

#[test]
fn only_decimal_digits_make_a_number() {
    assert_eq!(tokens_of("½"), Err(LexicalError::UnexpectedCharacter));
    assert_eq!(tokens_of("٣"), Err(LexicalError::UnexpectedCharacter));
}

#[test]
fn whitespace_separates_and_is_dropped() {
    assert_eq!(
        tokens_of("  let\tx\n=\r\n5\u{a0}\u{3000}"),
        Ok(vec![
            token(TokenType::Let, "let"),
            token(TokenType::Identifier, "x"),
            token(TokenType::Assign, "="),
            token(TokenType::NumberLiteral, "5"),
        ])
    );
}

#[test]
fn unexpected_character_is_an_error() {
    for source in ["#", "let x = 5;", "a_b", "x + y", "print 'a' !", "\u{0}"] {
        assert_eq!(tokens_of(source), Err(LexicalError::UnexpectedCharacter), "{}", source);
    }
}

#[test]
fn the_first_fault_is_the_error() {
    assert_eq!(tokens_of("# 'abc"), Err(LexicalError::UnexpectedCharacter));
    assert_eq!(tokens_of("'abc #"), Err(LexicalError::UnterminatedString));
}

#[test]
fn a_whole_program() {
    assert_eq!(
        kinds_of("let x = true\nif x { print \"yes\" } else { print \"no\" }\ngoto 0"),
        vec![
            TokenType::Let,
            TokenType::Identifier,
            TokenType::Assign,
            TokenType::BooleanLiteral,
            TokenType::Conditional,
            TokenType::Identifier,
            TokenType::ScopeDrop,
            TokenType::PrintCall,
            TokenType::StringLiteral,
            TokenType::ScopeJump,
            TokenType::ConditionalElse,
            TokenType::ScopeDrop,
            TokenType::PrintCall,
            TokenType::StringLiteral,
            TokenType::ScopeJump,
            TokenType::Goto,
            TokenType::NumberLiteral,
        ]
    );
}

#[test]
fn scanning_is_not_restartable() {
    let mut lexer = Lexer::create("let x = 1".to_string());
    assert_eq!(lexer.tokenize().map(|t| t.len()), Ok(4));
    assert_eq!(lexer.tokenize(), Ok(vec![]));
}

#[test]
fn a_failed_scan_fails_again() {
    let mut lexer = Lexer::create("let x = #".to_string());
    assert_eq!(lexer.tokenize(), Err(LexicalError::UnexpectedCharacter));
    assert_eq!(lexer.tokenize(), Err(LexicalError::UnexpectedCharacter));
}

#[test]
fn positions_count_characters_not_bytes() {
    assert_eq!(
        tokens_of("'é' été = 'ü'"),
        Ok(vec![
            token(TokenType::StringLiteral, "é"),
            token(TokenType::Identifier, "été"),
            token(TokenType::Assign, "="),
            token(TokenType::StringLiteral, "ü"),
        ])
    );
}

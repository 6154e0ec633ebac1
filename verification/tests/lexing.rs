use rapid_lang::lexer::{parse, LexError};
use rapid_lang::token::TokenType;

fn id(s: &str) -> TokenType {
    TokenType::Id(String::from(s))
}

fn number(s: &str) -> TokenType {
    TokenType::NumValue(String::from(s))
}

fn string(s: &str) -> TokenType {
    TokenType::StringValue(String::from(s))
}

#[test]
fn my_test() {
    let tokens = parse(
        "MOD Testmodule \n    PROC rTest() \n        VAR num nTest1:=0; \n        nTest1:= 2 + 2 * 3 *4 + 1;\n        TpWrite nTest1;\n    ENDPROC \nENDMOD",
    )
    .unwrap();
    assert_eq!(
        tokens,
        vec![
            TokenType::Mod,
            id("Testmodule"),
            TokenType::Proc,
            id("rTest"),
            TokenType::LeftPar,
            TokenType::RightPar,
            TokenType::Var,
            TokenType::NumType,
            id("nTest1"),
            TokenType::Assign,
            number("0"),
            TokenType::Semicolon,
            id("nTest1"),
            TokenType::Assign,
            number("2"),
            TokenType::Add,
            number("2"),
            TokenType::Multiply,
            number("3"),
            TokenType::Multiply,
            number("4"),
            TokenType::Add,
            number("1"),
            TokenType::Semicolon,
            TokenType::TpWrite,
            id("nTest1"),
            TokenType::Semicolon,
            TokenType::EndProc,
            TokenType::EndMod,
        ]
    );
}

#[test]
fn empty_text_has_no_tokens() {
    assert_eq!(parse(""), Ok(vec![]));
    assert_eq!(parse(" \n\t \n"), Ok(vec![]));
}

#[test]
fn longest_spelling_wins() {
    assert_eq!(parse("<"), Ok(vec![TokenType::Less]));
    assert_eq!(parse("<="), Ok(vec![TokenType::LessEqual]));
    assert_eq!(parse("<>"), Ok(vec![TokenType::NotEqual]));
    assert_eq!(parse(">"), Ok(vec![TokenType::Greater]));
    assert_eq!(parse(">="), Ok(vec![TokenType::GreaterEqual]));
    assert_eq!(parse("="), Ok(vec![TokenType::Equal]));
    assert_eq!(parse(":="), Ok(vec![TokenType::Assign]));
    assert_eq!(
        parse("<<=<><"),
        Ok(vec![TokenType::Less, TokenType::LessEqual, TokenType::NotEqual, TokenType::Less])
    );
    assert_eq!(
        parse("a<=b<>c<d>=e>f "),
        Ok(vec![
            id("a"),
            TokenType::LessEqual,
            id("b"),
            TokenType::NotEqual,
            id("c"),
            TokenType::Less,
            id("d"),
            TokenType::GreaterEqual,
            id("e"),
            TokenType::Greater,
            id("f"),
        ])
    );
    assert_eq!(parse("ENDFOR ENDFUNC ENDIF"), Ok(vec![TokenType::EndFor, TokenType::EndFunc, TokenType::EndIf]));
    assert_eq!(parse("ELSEIF IF"), Ok(vec![TokenType::ElseIf, TokenType::If]));
}

#[test]
fn keywords_ignore_case() {
    for text in ["proc", "PROC", "Proc", "pRoC"] {
        assert_eq!(parse(text), Ok(vec![TokenType::Proc]), "{}", text);
    }
    assert_eq!(
        parse("mod Mod MOD endmod EndMod"),
        Ok(vec![TokenType::Mod, TokenType::Mod, TokenType::Mod, TokenType::EndMod, TokenType::EndMod])
    );
    assert_eq!(
        parse("NUM num String BOOL tpwrite True false"),
        Ok(vec![
            TokenType::NumType,
            TokenType::NumType,
            TokenType::StringType,
            TokenType::BoolType,
            TokenType::TpWrite,
            TokenType::True,
            TokenType::False,
        ])
    );
}

#[test]
fn identifiers_and_literals_keep_their_case() {
    assert_eq!(parse("abc ABC \"Proc\" "), Ok(vec![id("abc"), id("ABC"), string("Proc")]));
}

#[test]
fn every_spelling_gives_its_token() {
    assert_eq!(
        parse("; , ( ) { } [ ] + - * /"),
        Ok(vec![
            TokenType::Semicolon,
            TokenType::Comma,
            TokenType::LeftPar,
            TokenType::RightPar,
            TokenType::LeftBrace,
            TokenType::RightBrace,
            TokenType::LeftBrack,
            TokenType::RightBrack,
            TokenType::Add,
            TokenType::Minus,
            TokenType::Multiply,
            TokenType::Divide,
        ])
    );
    assert_eq!(
        parse("PROC ENDPROC FUNC ENDFUNC LOCAL VAR PERS INOUT IF THEN ELSEIF ENDIF WHILE ENDWHILE FOR ENDFOR RETURN"),
        Ok(vec![
            TokenType::Proc,
            TokenType::EndProc,
            TokenType::Func,
            TokenType::EndFunc,
            TokenType::Local,
            TokenType::Var,
            TokenType::Pers,
            TokenType::Inout,
            TokenType::If,
            TokenType::Then,
            TokenType::ElseIf,
            TokenType::EndIf,
            TokenType::While,
            TokenType::EndWhile,
            TokenType::For,
            TokenType::EndFor,
            TokenType::Return,
        ])
    );
}

#[test]
fn spelling_at_the_start_of_a_word_is_a_token() {
    assert_eq!(parse("format "), Ok(vec![TokenType::For, id("mat")]));
    assert_eq!(parse("numbers "), Ok(vec![TokenType::NumType, id("bers")]));
    assert_eq!(parse("ENDMODULE "), Ok(vec![TokenType::EndMod, id("ULE")]));
}

#[test]
fn words_of_the_grammar_without_a_spelling_are_identifiers() {
    assert_eq!(parse("DO TO FROM ELSE "), Ok(vec![id("DO"), id("TO"), id("FROM"), id("ELSE")]));
}

#[test]
fn string_literal_holds_what_is_between_the_quotes() {
    assert_eq!(parse("\"the banana\""), Ok(vec![string("the banana")]));
    assert_eq!(parse("\"\""), Ok(vec![string("")]));
    assert_eq!(parse("\"a\"\"b\""), Ok(vec![string("a"), string("b")]));
    assert_eq!(parse("\"a\\\";"), Ok(vec![string("a\\"), TokenType::Semicolon]));
    assert_eq!(parse("x:=\"IF 1 \u{e9}\n\";"), Ok(vec![id("x"), TokenType::Assign, string("IF 1 \u{e9}\n"), TokenType::Semicolon]));
}

#[test]
fn unterminated_string_is_an_error() {
    assert_eq!(parse("\"abc"), Err(LexError::UnterminatedString { at: 0 }));
    assert_eq!(parse("x := \""), Err(LexError::UnterminatedString { at: 5 }));
    assert_eq!(parse("\"a\" \"b"), Err(LexError::UnterminatedString { at: 4 }));
}

#[test]
fn numeric_literal_is_kept_as_text() {
    assert_eq!(parse("12;"), Ok(vec![number("12"), TokenType::Semicolon]));
    assert_eq!(parse("3.25 "), Ok(vec![number("3.25")]));
    assert_eq!(parse("1.2.3 "), Ok(vec![number("1.2.3")]));
    assert_eq!(parse("7. "), Ok(vec![number("7.")]));
    assert_eq!(parse("1e5 "), Ok(vec![number("1"), id("e5")]));
    assert_eq!(parse("4x "), Ok(vec![number("4"), id("x")]));
    assert_eq!(parse("1\u{b2};"), Ok(vec![number("1\u{b2}"), TokenType::Semicolon]));
}

#[test]
fn number_at_the_end_of_the_text_is_an_error() {
    assert_eq!(parse("12"), Err(LexError::MalformedNumber { at: 0 }));
    assert_eq!(parse("x := 3.5"), Err(LexError::MalformedNumber { at: 5 }));
}

#[test]
fn identifier_runs_over_letters_digits_and_underscores() {
    assert_eq!(parse("a_1b2 "), Ok(vec![id("a_1b2")]));
    assert_eq!(parse("x1+y_;"), Ok(vec![id("x1"), TokenType::Add, id("y_"), TokenType::Semicolon]));
    assert_eq!(parse("caf\u{e9} "), Ok(vec![id("caf\u{e9}")]));
}

#[test]
fn identifier_at_the_end_of_the_text_is_an_error() {
    assert_eq!(parse("abc"), Err(LexError::UndefinedSymbol { at: 0 }));
    assert_eq!(parse("MOD x"), Err(LexError::UndefinedSymbol { at: 4 }));
}

#[test]
fn other_characters_are_undefined_symbols() {
    assert_eq!(parse("?"), Err(LexError::UndefinedSymbol { at: 0 }));
    assert_eq!(parse("a := _b;"), Err(LexError::UndefinedSymbol { at: 5 }));
    assert_eq!(parse("x \u{e9} "), Err(LexError::UndefinedSymbol { at: 2 }));
    assert_eq!(parse("a\r\nb "), Err(LexError::UndefinedSymbol { at: 1 }));
    assert_eq!(parse(": "), Err(LexError::UndefinedSymbol { at: 0 }));
}

#[test]
fn error_position_counts_characters() {
    assert_eq!(parse("\"\u{e9}\u{e9}\" ?"), Err(LexError::UndefinedSymbol { at: 5 }));
}

#[test]
fn first_error_ends_the_scan() {
    assert_eq!(parse("? \"open"), Err(LexError::UndefinedSymbol { at: 0 }));
}

#[test]
fn errors_have_positions_and_words() {
    assert_eq!(LexError::UnterminatedString { at: 3 }.position(), 3);
    assert_eq!(LexError::MalformedNumber { at: 4 }.position(), 4);
    assert_eq!(LexError::UndefinedSymbol { at: 5 }.position(), 5);
    assert_eq!(LexError::UnterminatedString { at: 3 }.message(), "Unterminated string");
    assert_eq!(LexError::MalformedNumber { at: 4 }.message(), "Malformed number");
    assert_eq!(LexError::UndefinedSymbol { at: 5 }.message(), "Undefined symbol");
}

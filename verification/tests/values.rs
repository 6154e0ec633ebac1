use rapid_lang::lexer::{chars_of, find_end, find_entry, text_of, to_upper, word_at, Scan};
use rapid_lang::parser::{is_word, Reason};
use rapid_lang::program::{Scope, Slot};
use rapid_lang::token::{table_entry, TokenType, TABLE_LEN};
use rapid_lang::value::{combine, render, Op, Outcome, Variable, ONE, ZERO};

fn num(x: f64) -> Variable {
    Variable::Num(x.to_bits())
}

fn text(s: &str) -> Variable {
    Variable::Str(String::from(s))
}

#[test]
fn bit_patterns_of_zero_and_one() {
    assert_eq!(ZERO, 0.0f64.to_bits());
    assert_eq!(ONE, 1.0f64.to_bits());
}

#[test]
fn set_takes_a_value_of_the_same_kind() {
    let mut v = num(1.0);
    assert!(v.set(num(2.5)));
    assert_eq!(v, num(2.5));
    let mut v = Variable::Bool(false);
    assert!(v.set(Variable::Bool(true)));
    assert_eq!(v, Variable::Bool(true));
    let mut v = text("a");
    assert!(v.set(text("b")));
    assert_eq!(v, text("b"));
}

#[test]
fn set_refuses_a_value_of_another_kind() {
    for (target, value) in [
        (num(1.0), Variable::Bool(true)),
        (num(1.0), text("x")),
        (num(1.0), Variable::Void),
        (Variable::Bool(true), num(1.0)),
        (text("x"), Variable::Bool(true)),
        (Variable::Void, Variable::Void),
        (Variable::Void, num(1.0)),
    ] {
        let mut v = target.clone();
        assert!(!v.set(value));
        assert_eq!(v, target);
    }
}

#[test]
fn initial_values_by_type() {
    assert_eq!(Variable::initial(&TokenType::NumType), Some(num(0.0)));
    assert_eq!(Variable::initial(&TokenType::BoolType), Some(Variable::Bool(false)));
    assert_eq!(Variable::initial(&TokenType::StringType), Some(text("")));
    assert_eq!(Variable::initial(&TokenType::Var), None);
    assert_eq!(Variable::initial(&TokenType::Id(String::from("num"))), None);
}

#[test]
fn literal_values_by_type() {
    let lit = |s: &str| TokenType::NumValue(String::from(s));
    let string = TokenType::StringValue(String::from("hi"));
    assert_eq!(Variable::from_value(&TokenType::BoolType, &TokenType::True, None), Some(Variable::Bool(true)));
    assert_eq!(Variable::from_value(&TokenType::BoolType, &TokenType::False, None), Some(Variable::Bool(false)));
    assert_eq!(Variable::from_value(&TokenType::NumType, &lit("2.5"), Some(2.5f64.to_bits())), Some(num(2.5)));
    assert_eq!(Variable::from_value(&TokenType::NumType, &lit("2.5.1"), None), None);
    assert_eq!(Variable::from_value(&TokenType::StringType, &string, None), Some(text("hi")));
    assert_eq!(Variable::from_value(&TokenType::NumType, &TokenType::True, Some(1)), None);
    assert_eq!(Variable::from_value(&TokenType::BoolType, &lit("1"), Some(1)), None);
    assert_eq!(Variable::from_value(&TokenType::StringType, &lit("1"), Some(1)), None);
    assert_eq!(Variable::from_value(&TokenType::Var, &TokenType::True, None), None);
}

#[test]
fn combine_by_kind() {
    assert_eq!(combine(Op::Add, Variable::Bool(false), Variable::Bool(true)), Outcome::Value(Variable::Bool(true)));
    assert_eq!(combine(Op::Add, Variable::Bool(false), Variable::Bool(false)), Outcome::Value(Variable::Bool(false)));
    assert_eq!(combine(Op::Add, text("test"), text("the banana")), Outcome::Value(text("testthe banana")));
    for op in [Op::Add, Op::Sub, Op::Mul, Op::Div] {
        assert_eq!(combine(op, Variable::Num(7), Variable::Num(9)), Outcome::Ask { op, lhs: 7, rhs: 9 });
        assert_eq!(combine(op, Variable::Void, Variable::Void), Outcome::Mismatch);
        assert_eq!(combine(op, num(1.0), Variable::Bool(true)), Outcome::Mismatch);
        assert_eq!(combine(op, text("a"), num(1.0)), Outcome::Mismatch);
    }
    for op in [Op::Sub, Op::Mul, Op::Div] {
        assert_eq!(combine(op, Variable::Bool(true), Variable::Bool(true)), Outcome::Mismatch);
        assert_eq!(combine(op, text("a"), text("b")), Outcome::Mismatch);
    }
}

#[test]
fn render_by_kind() {
    assert_eq!(render(&Variable::Bool(true), ""), "true");
    assert_eq!(render(&Variable::Bool(false), "x"), "false");
    assert_eq!(render(&text("as it is"), "x"), "as it is");
    assert_eq!(render(&num(27.0), "27"), "27");
    assert_eq!(render(&Variable::Void, "x"), "");
}

#[test]
fn table_has_its_entries_in_order() {
    assert_eq!(TABLE_LEN, 47);
    assert_eq!(table_entry(0), (";", TokenType::Semicolon));
    assert_eq!(table_entry(2), ("\n", TokenType::Newline));
    assert_eq!(table_entry(3), (" ", TokenType::Whitespace));
    assert_eq!(table_entry(4), ("\t", TokenType::Whitespace));
    assert_eq!(table_entry(16), ("<>", TokenType::NotEqual));
    assert_eq!(table_entry(17), ("<=", TokenType::LessEqual));
    assert_eq!(table_entry(18), ("<", TokenType::Less));
    assert_eq!(table_entry(37), ("ENDWHILE", TokenType::EndWhile));
    assert_eq!(table_entry(46), ("bool", TokenType::BoolType));
    for i in 0..TABLE_LEN {
        let (word, _) = table_entry(i);
        for j in (i + 1)..TABLE_LEN {
            let (later, _) = table_entry(j);
            assert!(
                !(later.len() > word.len() && later[..word.len()].eq_ignore_ascii_case(word)),
                "{:?} hides {:?}",
                word,
                later
            );
        }
    }
}

#[test]
fn tokens_clone_to_equal_tokens() {
    for token in [TokenType::Mod, TokenType::Id(String::from("a")), TokenType::NumValue(String::from("1")), TokenType::StringValue(String::from("s"))] {
        assert_eq!(token.clone(), token);
    }
    for value in [Variable::Void, Variable::Bool(true), num(1.5), text("s")] {
        assert_eq!(value.clone(), value);
    }
}

#[test]
fn scanning_helpers() {
    assert_eq!(to_upper('a'), 'A');
    assert_eq!(to_upper('z'), 'Z');
    assert_eq!(to_upper('A'), 'A');
    assert_eq!(to_upper('1'), '1');
    assert_eq!(to_upper('\u{e9}'), '\u{e9}');
    let src = chars_of("x <= caf\u{e9}_1; ");
    assert_eq!(src.len(), 13);
    assert_eq!(text_of(&src, 5, 11), "caf\u{e9}_1");
    assert_eq!(text_of(&src, 3, 3), "");
    assert!(word_at(&src, 2, "<="));
    assert!(word_at(&src, 2, "<"));
    assert!(!word_at(&src, 2, "<>"));
    assert!(word_at(&src, 5, "CAF"));
    assert!(!word_at(&src, 11, "; ;"));
    assert!(word_at(&src, 13, ""));
    assert_eq!(find_entry(&src, 2), 17);
    assert_eq!(find_entry(&src, 0), TABLE_LEN);
    assert_eq!(find_entry(&src, 13), TABLE_LEN);
    assert_eq!(find_end(&src, 5, Scan::Word), 11);
    assert_eq!(find_end(&src, 0, Scan::Text), 13);
    assert_eq!(find_end(&chars_of("12.5.x"), 0, Scan::Number), 5);
    assert_eq!(find_end(&chars_of("a\"b"), 0, Scan::Text), 1);
}

#[test]
fn words_of_the_grammar_ignore_case() {
    let id = |s: &str| TokenType::Id(String::from(s));
    assert!(is_word(&id("DO"), "DO"));
    assert!(is_word(&id("do"), "DO"));
    assert!(is_word(&id("Else"), "ELSE"));
    assert!(!is_word(&id("DOT"), "DO"));
    assert!(!is_word(&id("D"), "DO"));
    assert!(!is_word(&TokenType::StringValue(String::from("DO")), "DO"));
    assert!(!is_word(&TokenType::Then, "THEN"));
}

#[test]
fn scope_gives_slots_in_order() {
    let mut scope = Scope::new();
    assert_eq!(scope.len(), 0);
    assert_eq!(scope.lookup(&String::from("a")), None);
    assert_eq!(scope.declare(String::from("a"), num(1.0)), 0);
    assert_eq!(scope.declare(String::from("b"), text("x")), 1);
    assert_eq!(scope.declare(String::from("a"), Variable::Bool(true)), 2);
    assert_eq!(scope.len(), 3);
    assert_eq!(scope.lookup(&String::from("a")), Some(2));
    assert_eq!(scope.lookup(&String::from("b")), Some(1));
    assert_eq!(scope.lookup(&String::from("A")), None);
    assert_eq!(scope.slots[0], Slot { name: String::from("a"), value: num(1.0) });
}

#[test]
fn every_reason_has_its_words() {
    assert_eq!(Reason::UnexpectedEndOfModule.message(), "Unexpected end of module");
    assert_eq!(Reason::UnexpectedEndOfRoutine.message(), "Unexpected end of routine");
    assert_eq!(Reason::UnknownId.message(), "Unknown id");
    assert_eq!(Reason::ExpectedLeftPar.message(), "Expected '('");
}

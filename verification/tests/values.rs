use tinyscript::decimal::{decimal_string, parse_index};
use tinyscript::environment::Environment;
use tinyscript::text::{chars_of, same_text, string_of};
use tinyscript::value::{Number, VariableValue};

fn text(s: &str) -> VariableValue {
    VariableValue::Text(s.to_string())
}

#[test]
fn a_new_environment_binds_nothing() {
    let env = Environment::new();
    assert_eq!(env.get(&"x".to_string()), None);
    assert_eq!(env.get(&"".to_string()), None);
}

#[test]
fn insert_then_get() {
    let mut env = Environment::new();
    env.insert("x".to_string(), text("a"));
    env.insert("y".to_string(), VariableValue::Boolean(true));
    assert_eq!(env.get(&"x".to_string()), Some(&text("a")));
    assert_eq!(env.get(&"y".to_string()), Some(&VariableValue::Boolean(true)));
    assert_eq!(env.get(&"z".to_string()), None);
}

#[test]
fn insert_replaces_and_leaves_the_others() {
    let mut env = Environment::new();
    env.insert("x".to_string(), text("a"));
    env.insert("y".to_string(), text("b"));
    env.insert("x".to_string(), text("c"));
    assert_eq!(env.get(&"x".to_string()), Some(&text("c")));
    assert_eq!(env.get(&"y".to_string()), Some(&text("b")));
    env.insert("y".to_string(), VariableValue::Boolean(false));
    assert_eq!(env.get(&"x".to_string()), Some(&text("c")));
    assert_eq!(env.get(&"y".to_string()), Some(&VariableValue::Boolean(false)));
}

#[test]
fn names_are_compared_exactly() {
    let mut env = Environment::new();
    env.insert("x".to_string(), text("a"));
    assert_eq!(env.get(&"X".to_string()), None);
    assert_eq!(env.get(&"xx".to_string()), None);
    assert_eq!(env.get(&"".to_string()), None);
}

#[test]
fn render_of_each_kind() {
    assert_eq!(text("a b").render(), "a b");
    assert_eq!(text("").render(), "");
    assert_eq!(VariableValue::Boolean(true).render(), "true");
    assert_eq!(VariableValue::Boolean(false).render(), "false");
    assert_eq!(VariableValue::Number(Number { text: "1.5".to_string(), index: 1 }).render(), "1.5");
}

#[test]
fn duplicate_is_equal() {
    let values = vec![
        text("a"),
        VariableValue::Boolean(true),
        VariableValue::Number(Number { text: "7".to_string(), index: 7 }),
    ];
    for v in values.iter() {
        assert_eq!(&v.duplicate(), v);
    }
    let n = Number { text: "12".to_string(), index: 12 };
    assert_eq!(n.duplicate(), n);
}

#[test]
fn parse_index_reads_decimal_numerals() {
    assert_eq!(parse_index("0"), Some(0));
    assert_eq!(parse_index("7"), Some(7));
    assert_eq!(parse_index("42"), Some(42));
    assert_eq!(parse_index("007"), Some(7));
    assert_eq!(parse_index("1234567890"), Some(1234567890));
}

#[test]
fn parse_index_takes_one_leading_plus() {
    assert_eq!(parse_index("+5"), Some(5));
    assert_eq!(parse_index("+"), None);
    assert_eq!(parse_index("++5"), None);
    assert_eq!(parse_index("5+"), None);
}

#[test]
fn parse_index_refuses_what_is_no_numeral() {
    for s in ["", " ", "-1", "-0", "1.5", "1e3", "12a", "a12", " 1", "1 ", "٣", "½"] {
        assert_eq!(parse_index(s), None, "{:?}", s);
    }
}

#[test]
fn parse_index_is_bounded_by_usize() {
    let max = usize::MAX.to_string();
    assert_eq!(parse_index(&max), Some(usize::MAX));
    assert_eq!(parse_index(&format!("000{}", max)), Some(usize::MAX));
    assert_eq!(parse_index(&format!("{}0", max)), None);
    let mut digits: Vec<char> = max.chars().collect();
    let last = digits.len() - 1;
    assert!(digits[last] != '9');
    digits[last] = char::from_digit(digits[last].to_digit(10).unwrap() + 1, 10).unwrap();
    let above: String = digits.iter().collect();
    assert_eq!(parse_index(&above), None);
}

#[test]
fn parse_index_agrees_with_the_standard_parse() {
    for s in ["0", "00", "9", "10", "+0", "+10", "", "+", "-", "-5", "1_0", "0x10", "99999999999999999999", "18446744073709551615", "18446744073709551616"] {
        assert_eq!(parse_index(s), s.parse::<usize>().ok(), "{:?}", s);
    }
}

#[test]
fn decimal_string_writes_numerals() {
    assert_eq!(decimal_string(0), "0");
    assert_eq!(decimal_string(7), "7");
    assert_eq!(decimal_string(10), "10");
    assert_eq!(decimal_string(109), "109");
    assert_eq!(decimal_string(1234567890), "1234567890");
    assert_eq!(decimal_string(usize::MAX), usize::MAX.to_string());
}

#[test]
fn decimal_string_then_parse_index() {
    for n in [0usize, 1, 9, 10, 11, 99, 100, 101, 65535, usize::MAX - 1, usize::MAX] {
        assert_eq!(parse_index(&decimal_string(n)), Some(n));
    }
}

#[test]
fn chars_of_gives_the_characters() {
    assert_eq!(chars_of(""), Vec::<char>::new());
    assert_eq!(chars_of("aé½"), vec!['a', 'é', '½']);
}

#[test]
fn string_of_takes_a_range() {
    let v = vec!['a', 'é', 'c', 'd'];
    assert_eq!(string_of(&v, 0, 4), "aécd");
    assert_eq!(string_of(&v, 1, 3), "éc");
    assert_eq!(string_of(&v, 2, 2), "");
    assert_eq!(string_of(&v, 4, 4), "");
}

#[test]
fn same_text_compares_characters() {
    assert!(same_text("", ""));
    assert!(same_text("let", "let"));
    assert!(!same_text("let", "le"));
    assert!(!same_text("let", "lit"));
    assert!(!same_text("let", "Let"));
}

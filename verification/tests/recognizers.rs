use zjy_json::{
    ArrayContext, ArrayMode, ErrorKind, Expected, FalseMode, Json, NullMode, NumberContext,
    NumberFault, ObjectContext, ObjectMode, StringContext, StringMode, TrueMode,
};

fn test_check_false(str: &str) {
    let mut conntest = FalseMode::new();
    for c in str.chars() {
        match conntest.check_false(c) {
            Ok(isfinish) => {
                if isfinish {
                    println!("false");
                    break;
                }
            }
            Err(_) => {
                panic!("false was not recognized");
            }
        }
    }
}

#[test]
fn test_check_false_pass() {
    test_check_false("false");
}

#[test]
#[should_panic]
fn test_check_false_painc() {
    test_check_false("fAlse");
}

#[test]
fn test_check_null() {
    let json_str = "null";
    let mut connetc = NullMode::new();
    let mut finished = false;
    for c in json_str.chars() {
        match connetc.check_null(c) {
            Ok(isfinsh) => {
                if isfinsh {
                    println!("null was recognized");
                    finished = true;
                    break;
                }
            }
            Err(_err) => {
                panic!("null was not recognized");
            }
        };
    }
    assert!(finished);
}

fn test_check_true(t: &str) {
    let mut true_conntest = TrueMode::new();
    for c in t.chars() {
        match true_conntest.check_true(c) {
            Ok(isfinish) => {
                if isfinish {
                    println!("true");
                }
            }
            Err(_) => {
                panic!("true was not recognized");
            }
        }
    }
}

#[test]
fn test_check_true_pass() {
    test_check_true("\n\r\n\n true");
}

#[test]
#[should_panic]
fn test_check_true_painc() {
    test_check_true("TRUE");
}

#[test]
fn test_f64tostr() {
    let str = "3423000.01111";
    let f = str.parse::<f64>().unwrap();
    println!("str={},f={}", str, f);
    let mut context = NumberContext::new();
    assert_eq!(context.check_number(str), Ok(()));
    assert_eq!(context.get_number(), str);
    assert_eq!(context.get_number().parse::<f64>().unwrap(), f);
}

#[test]
fn keyword_reports_completion_only_at_the_last_letter() {
    let mut m = NullMode::new();
    assert_eq!(m.check_null('n'), Ok(false));
    assert_eq!(m, NullMode::u);
    assert_eq!(m.check_null('u'), Ok(false));
    assert_eq!(m, NullMode::l1);
    assert_eq!(m.check_null('l'), Ok(false));
    assert_eq!(m, NullMode::l2);
    assert_eq!(m.check_null('l'), Ok(true));
    assert_eq!(m, NullMode::n);
}

#[test]
fn keyword_resets_after_a_mismatch() {
    let mut t = TrueMode::new();
    assert_eq!(t.check_true('t'), Ok(false));
    assert_eq!(t.check_true('r'), Ok(false));
    assert_eq!(t.check_true('x'), Err(ErrorKind::InvalidLiteral));
    assert_eq!(t, TrueMode::t);
    let mut f = FalseMode::new();
    assert_eq!(f.check_false('f'), Ok(false));
    assert_eq!(f.check_false('a'), Ok(false));
    assert_eq!(f.check_false('l'), Ok(false));
    assert_eq!(f.check_false('s'), Ok(false));
    assert_eq!(f, FalseMode::e);
    assert_eq!(f.check_false('E'), Err(ErrorKind::InvalidLiteral));
    assert_eq!(f, FalseMode::f);
    let mut n = NullMode::u;
    assert_eq!(n.check_null('U'), Err(ErrorKind::InvalidLiteral));
    assert_eq!(n, NullMode::n);
}

#[test]
fn keyword_takes_whitespace_only_before_the_first_letter() {
    let mut n = NullMode::new();
    assert_eq!(n.check_null(' '), Ok(false));
    assert_eq!(n.check_null('\n'), Ok(false));
    assert_eq!(n.check_null('\r'), Ok(false));
    assert_eq!(n, NullMode::n);
    assert_eq!(n.check_null('\t'), Err(ErrorKind::InvalidLiteral));
    let mut m = NullMode::u;
    assert_eq!(m.check_null(' '), Err(ErrorKind::InvalidLiteral));
    let mut f = FalseMode::new();
    assert_eq!(f.check_false(' '), Ok(false));
    assert_eq!(f.check_false('f'), Ok(false));
    assert_eq!(f.check_false(' '), Err(ErrorKind::InvalidLiteral));
}

#[test]
fn number_literals_accepted() {
    for text in [
        "0", "-0", "12", "-2323", "1.5", "1.", ".5", "-.5", "+1", "1e5", "1E5", "-1E+10", "1e-3",
        "3423000.01111", "4324.0000242", "00012", "1.e2", ".5E-07",
    ] {
        let mut context = NumberContext::new();
        assert_eq!(context.check_number(text), Ok(()), "{}", text);
        assert_eq!(context.get_number(), text);
        assert!(text.parse::<f64>().is_ok(), "{}", text);
    }
}

#[test]
fn number_literals_refused() {
    for text in [
        ".", "-", "+", "e", "e5", "1e", "1e+", "1e-", "--1", "1-2", "1.2.3", "1e5.2", "1e5e5",
        "-.", ".e5", "1+", "1ee5", "+-1", "1.-5",
    ] {
        let mut context = NumberContext::new();
        assert_eq!(
            context.check_number(text),
            Err(ErrorKind::InvalidNumber(NumberFault::Malformed)),
            "{}",
            text
        );
        assert_eq!(context.get_number(), "0");
        assert!(text.parse::<f64>().is_err(), "{}", text);
    }
    let mut empty = NumberContext::new();
    assert_eq!(empty.check_number(""), Err(ErrorKind::InvalidNumber(NumberFault::Empty)));
}

#[test]
fn number_check_adds_to_the_buffer() {
    let mut context = NumberContext::new_from_str("-1");
    assert_eq!(context.check_number("2.5"), Ok(()));
    assert_eq!(context.get_number(), "-12.5");
    assert_eq!(context.check_number("e"), Err(ErrorKind::InvalidNumber(NumberFault::Malformed)));
    assert_eq!(context.get_number(), "-12.5");
    assert_eq!(context.check_number("3"), Ok(()));
    assert_eq!(context.get_number(), "-12.5e3");
    context.get_number_str_mut().push('0');
    assert_eq!(context.check_number(""), Ok(()));
    assert_eq!(context.get_number(), "-12.5e30");
}

#[test]
fn number_feed_hands_the_terminator_back() {
    let mut context = NumberContext::new();
    for c in "-12.5e+3".chars() {
        assert_eq!(context.feed(c), Ok(false));
    }
    assert_eq!(context.get_number(), "0");
    assert_eq!(context.feed(','), Ok(true));
    assert_eq!(context.get_number(), "-12.5e+3");
    assert_eq!(context.feed(']'), Ok(true));
    assert_eq!(context.get_number_str_mut().as_str(), "-12.5e+3");
    let mut bad = NumberContext::new_from_str("1e");
    assert_eq!(bad.feed(' '), Err(ErrorKind::InvalidNumber(NumberFault::Malformed)));
    let mut none = NumberContext::new();
    assert_eq!(none.feed(','), Err(ErrorKind::InvalidNumber(NumberFault::Empty)));
}

fn feed_string(context: &mut StringContext, text: &str) -> Result<(), ErrorKind> {
    for c in text.chars() {
        context.check_string(c)?;
    }
    Ok(())
}

#[test]
fn string_plain_body() {
    let mut context = StringContext::new();
    assert!(*context.get_mode() == StringMode::start);
    assert_eq!(feed_string(&mut context, " \n\r\"ab c"), Ok(()));
    assert!(*context.get_mode() == StringMode::str);
    assert_eq!(context.get_str(), "ab c");
    assert_eq!(context.check_string('"'), Ok(()));
    assert!(*context.get_mode() == StringMode::end);
    assert!(context.finished());
    assert_eq!(context.get_str(), "ab c");
    assert_eq!(context.check_string('x'), Err(ErrorKind::ReenteredTerminalState));
    assert_eq!(context.get_str(), "ab c");
}

#[test]
fn string_needs_its_opening_quote() {
    let mut context = StringContext::new();
    assert_eq!(
        context.check_string('a'),
        Err(ErrorKind::UnexpectedCharacter(Expected::Quote))
    );
    assert!(*context.get_mode() == StringMode::start);
}

#[test]
fn string_simple_escapes() {
    let mut context = StringContext::new();
    assert_eq!(feed_string(&mut context, "\"\\\"\\\\\\/\\b\\f\\n\\r\\t\""), Ok(()));
    assert!(context.finished());
    assert_eq!(context.get_str(), "\"\\/\u{8}\u{c}\n\r\t");
}

#[test]
fn string_refuses_raw_control_characters() {
    for c in ['\u{8}', '\u{c}', '\n', '\r', '\t'] {
        let mut context = StringContext::opened();
        assert_eq!(context.check_string('a'), Ok(()));
        assert_eq!(
            context.check_string(c),
            Err(ErrorKind::UnexpectedCharacter(Expected::StringBody))
        );
        assert!(*context.get_mode() == StringMode::end);
        assert_eq!(context.get_str(), "a");
    }
    let mut other = StringContext::opened();
    assert_eq!(other.check_string('\u{1}'), Ok(()));
    assert_eq!(other.get_str(), "\u{1}");
}

#[test]
fn string_refuses_unknown_escape() {
    let mut context = StringContext::opened();
    assert_eq!(feed_string(&mut context, "\\x"), Err(ErrorKind::InvalidEscape));
    assert!(*context.get_mode() == StringMode::end);
}

#[test]
fn string_unicode_escape_of_one_unit() {
    let mut context = StringContext::new();
    assert_eq!(feed_string(&mut context, "\"\\u0041\\u00e9\\u4E2d\\uFFFF\\ud7ff\\uE000\""), Ok(()));
    assert_eq!(context.get_str(), "A\u{e9}\u{4e2d}\u{ffff}\u{d7ff}\u{e000}");
}

#[test]
fn string_unicode_escape_counts_its_digits() {
    let mut context = StringContext::opened();
    assert_eq!(feed_string(&mut context, "\\u"), Ok(()));
    assert!(matches!(*context.get_mode(), StringMode::zhuanyi_utf(0, [0, 0])));
    assert_eq!(context.check_string('1'), Ok(()));
    assert!(matches!(*context.get_mode(), StringMode::zhuanyi_utf(1, [0x1000, 0])));
    assert_eq!(context.check_string('a'), Ok(()));
    assert!(matches!(*context.get_mode(), StringMode::zhuanyi_utf(2, [0x1a00, 0])));
    assert_eq!(context.check_string('B'), Ok(()));
    assert!(matches!(*context.get_mode(), StringMode::zhuanyi_utf(3, [0x1ab0, 0])));
    assert_eq!(context.check_string('9'), Ok(()));
    assert!(*context.get_mode() == StringMode::str);
    assert_eq!(context.get_str(), "\u{1ab9}");
}

#[test]
fn string_surrogate_pair() {
    let mut context = StringContext::new();
    assert_eq!(feed_string(&mut context, "\"\\uD83D"), Ok(()));
    assert!(matches!(*context.get_mode(), StringMode::zhuanyi_utf(4, [0xD83D, 0])));
    assert_eq!(feed_string(&mut context, "\\u"), Ok(()));
    assert!(matches!(*context.get_mode(), StringMode::zhuanyi_utf(6, [0xD83D, 0])));
    assert_eq!(feed_string(&mut context, "DE0"), Ok(()));
    assert!(matches!(*context.get_mode(), StringMode::zhuanyi_utf(9, [0xD83D, 0xDE00])));
    assert_eq!(feed_string(&mut context, "0\""), Ok(()));
    assert_eq!(context.get_str(), "\u{1F600}");
    let mut lowest = StringContext::opened();
    assert_eq!(feed_string(&mut lowest, "\\ud800\\udc00\\uDBFF\\uDFFF\""), Ok(()));
    assert_eq!(lowest.get_str(), "\u{10000}\u{10FFFF}");
}

#[test]
fn string_lone_surrogates_are_refused() {
    let mut high = StringContext::opened();
    assert_eq!(feed_string(&mut high, "\\uD83D"), Ok(()));
    assert_eq!(high.check_string('"'), Err(ErrorKind::InvalidEscape));
    assert!(*high.get_mode() == StringMode::end);
    let mut no_u = StringContext::opened();
    assert_eq!(feed_string(&mut no_u, "\\uD83D\\"), Ok(()));
    assert_eq!(no_u.check_string('n'), Err(ErrorKind::InvalidEscape));
    let mut not_low = StringContext::opened();
    assert_eq!(feed_string(&mut not_low, "\\uD83D\\u004"), Ok(()));
    assert_eq!(not_low.check_string('1'), Err(ErrorKind::InvalidEscape));
    let mut low = StringContext::opened();
    assert_eq!(feed_string(&mut low, "\\uDC0"), Ok(()));
    assert_eq!(low.check_string('0'), Err(ErrorKind::InvalidEscape));
    assert!(*low.get_mode() == StringMode::end);
}

#[test]
fn string_refuses_a_digit_that_is_not_hexadecimal() {
    let mut first = StringContext::opened();
    assert_eq!(feed_string(&mut first, "\\u00"), Ok(()));
    assert_eq!(first.check_string('g'), Err(ErrorKind::InvalidEscape));
    assert!(matches!(*first.get_mode(), StringMode::zhuanyi_utf(2, [0, 0])));
    let mut second = StringContext::opened();
    assert_eq!(feed_string(&mut second, "\\uD800\\uD"), Ok(()));
    assert_eq!(second.check_string('G'), Err(ErrorKind::InvalidEscape));
    assert!(*second.get_mode() == StringMode::end);
}

#[test]
fn string_modes_compare_by_kind() {
    assert!(StringMode::zhuanyi_utf(1, [2, 3]) == StringMode::zhuanyi_utf(4, [5, 6]));
    assert!(StringMode::start != StringMode::str);
    assert!(StringMode::zhuanyi != StringMode::zhuanyi_utf(0, [0, 0]));
    assert!(StringMode::end == StringMode::end);
}

fn feed_array(context: &mut ArrayContext, text: &str) -> Result<(), ErrorKind> {
    for c in text.chars() {
        context.check_array(c)?;
    }
    Ok(())
}

fn feed_object(context: &mut ObjectContext, text: &str) -> Result<(), ErrorKind> {
    for c in text.chars() {
        context.check_object(c)?;
    }
    Ok(())
}

#[test]
fn array_of_every_kind() {
    let mut context = ArrayContext::new_judgment_type();
    assert!(matches!(context.get_mode_ptr(), ArrayMode::JudgmentType));
    assert_eq!(
        feed_array(&mut context, " null ,true,false, -1.5e3 ,\"a\\nb\", [1,[2]] , {\"k\":[] "),
        Err(ErrorKind::UnexpectedCharacter(Expected::Value))
    );
    let mut context = ArrayContext::new_judgment_type();
    assert_eq!(
        feed_array(&mut context, " null ,true,false, -1.5e3 ,\"a\\nb\", [1,[2]] , {\"k\":2} "),
        Ok(())
    );
    assert!(matches!(context.get_mode_ptr(), ArrayMode::Douhao));
    assert!(!context.finished());
    assert_eq!(context.check_array(']'), Ok(()));
    assert!(matches!(context.get_mode_ptr(), ArrayMode::End));
    assert!(context.finished());
    let expected = vec![
        Json::Null,
        Json::Boolean(true),
        Json::Boolean(false),
        Json::Number("-1.5e3".to_string()),
        Json::String("a\nb".to_string()),
        Json::Array(vec![
            Json::Number("1".to_string()),
            Json::Array(vec![Json::Number("2".to_string())]),
        ]),
        Json::Object(vec![("k".to_string(), Json::Number("2".to_string()))]),
    ];
    assert_eq!(context.get_arr(), expected);
    assert_eq!(context.check_array(' '), Err(ErrorKind::ReenteredTerminalState));
    assert_eq!(context.into_json(), Json::Array(expected));
}

#[test]
fn array_holds_its_item_while_it_is_in_progress() {
    let mut context = ArrayContext::new_judgment_type();
    assert_eq!(context.check_array('n'), Ok(()));
    assert!(matches!(context.get_mode_ptr(), ArrayMode::Null(NullMode::u)));
    let mut context = ArrayContext::new_judgment_type();
    assert_eq!(context.check_array('t'), Ok(()));
    assert!(matches!(context.get_mode_ptr(), ArrayMode::JsonTrue(TrueMode::r)));
    let mut context = ArrayContext::new_judgment_type();
    assert_eq!(context.check_array('f'), Ok(()));
    assert!(matches!(context.get_mode_ptr(), ArrayMode::JsonFalse(FalseMode::a)));
    let mut context = ArrayContext::new_judgment_type();
    assert_eq!(context.check_array('7'), Ok(()));
    assert!(matches!(context.get_mode_ptr(), ArrayMode::NumberContext(_)));
    let mut context = ArrayContext::new_judgment_type();
    assert_eq!(context.check_array('"'), Ok(()));
    assert!(matches!(context.get_mode_ptr(), ArrayMode::String(_)));
    let mut context = ArrayContext::new_judgment_type();
    assert_eq!(context.check_array('['), Ok(()));
    assert!(matches!(context.get_mode_ptr(), ArrayMode::Array(_)));
    let mut context = ArrayContext::new_judgment_type();
    assert_eq!(context.check_array('{'), Ok(()));
    assert!(matches!(context.get_mode_ptr(), ArrayMode::Object(_)));
}

#[test]
fn array_number_is_closed_by_the_character_behind_it() {
    let mut context = ArrayContext::new_judgment_type();
    assert_eq!(feed_array(&mut context, "12"), Ok(()));
    assert!(context.get_arr().is_empty());
    assert_eq!(context.check_array(','), Ok(()));
    assert_eq!(context.get_arr(), vec![Json::Number("12".to_string())]);
    assert!(matches!(context.get_mode_ptr(), ArrayMode::JudgmentType));
    assert_eq!(feed_array(&mut context, "3]"), Ok(()));
    assert!(context.finished());
    assert_eq!(
        context.get_arr(),
        vec![Json::Number("12".to_string()), Json::Number("3".to_string())]
    );
    let mut spaced = ArrayContext::new_judgment_type();
    assert_eq!(feed_array(&mut spaced, "4 "), Ok(()));
    assert!(matches!(spaced.get_mode_ptr(), ArrayMode::Douhao));
    assert_eq!(spaced.get_arr(), vec![Json::Number("4".to_string())]);
}

#[test]
fn array_errors() {
    let mut empty = ArrayContext::new_judgment_type();
    assert_eq!(empty.check_array(']'), Err(ErrorKind::UnexpectedCharacter(Expected::Value)));
    assert!(matches!(empty.get_mode_ptr(), ArrayMode::JudgmentType));
    let mut after = ArrayContext::new_judgment_type();
    assert_eq!(
        feed_array(&mut after, "null x"),
        Err(ErrorKind::UnexpectedCharacter(Expected::CommaOrEnd))
    );
    assert!(matches!(after.get_mode_ptr(), ArrayMode::Douhao));
    let mut number = ArrayContext::new_judgment_type();
    assert_eq!(
        feed_array(&mut number, "1e,"),
        Err(ErrorKind::InvalidNumber(NumberFault::Malformed))
    );
    let mut behind = ArrayContext::new_judgment_type();
    assert_eq!(
        feed_array(&mut behind, "1x"),
        Err(ErrorKind::UnexpectedCharacter(Expected::CommaOrEnd))
    );
    assert_eq!(behind.get_arr(), vec![Json::Number("1".to_string())]);
    let mut literal = ArrayContext::new_judgment_type();
    assert_eq!(feed_array(&mut literal, "nul,"), Err(ErrorKind::InvalidLiteral));
    let mut escape = ArrayContext::new_judgment_type();
    assert_eq!(feed_array(&mut escape, "[\"\\q"), Err(ErrorKind::InvalidEscape));
    let mut nested = ArrayContext::new_judgment_type();
    assert_eq!(
        feed_array(&mut nested, "{\"a\" 1"),
        Err(ErrorKind::UnexpectedCharacter(Expected::Colon))
    );
}

#[test]
fn object_members() {
    let mut context = ObjectContext::new_key();
    assert!(matches!(context.get_mode_ptr(), ObjectMode::Key(_)));
    assert_eq!(feed_object(&mut context, " \"a\""), Ok(()));
    assert!(matches!(context.get_mode_ptr(), ObjectMode::Maohao));
    assert_eq!(feed_object(&mut context, " :"), Ok(()));
    assert!(matches!(context.get_mode_ptr(), ObjectMode::Value));
    assert_eq!(feed_object(&mut context, " 1"), Ok(()));
    assert!(matches!(context.get_mode_ptr(), ObjectMode::ValueNumber(_)));
    assert_eq!(feed_object(&mut context, " "), Ok(()));
    assert!(matches!(context.get_mode_ptr(), ObjectMode::Douhao));
    assert_eq!(
        feed_object(
            &mut context,
            ", \"b\":null,\"c\":true,\"d\":false,\"e\":\"x\",\"f\":[1,2],\"g\":{\"h\":{}"
        ),
        Err(ErrorKind::UnexpectedCharacter(Expected::Quote))
    );
    let mut context = ObjectContext::new_key();
    assert_eq!(
        feed_object(
            &mut context,
            "\"a\":1, \"b\":null,\"c\":true,\"d\":false,\"e\":\"x\",\"f\":[1,2],\"g\":{\"h\":0}}"
        ),
        Ok(())
    );
    assert!(matches!(context.get_mode_ptr(), ObjectMode::End));
    assert!(context.finished());
    let expected = Json::Object(vec![
        ("a".to_string(), Json::Number("1".to_string())),
        ("b".to_string(), Json::Null),
        ("c".to_string(), Json::Boolean(true)),
        ("d".to_string(), Json::Boolean(false)),
        ("e".to_string(), Json::String("x".to_string())),
        (
            "f".to_string(),
            Json::Array(vec![Json::Number("1".to_string()), Json::Number("2".to_string())]),
        ),
        ("g".to_string(), Json::Object(vec![("h".to_string(), Json::Number("0".to_string()))])),
    ]);
    assert_eq!(context.get_json(), expected);
    assert_eq!(context.check_object(' '), Err(ErrorKind::ReenteredTerminalState));
    assert_eq!(context.into_json(), expected);
}

#[test]
fn object_holds_its_value_while_it_is_in_progress() {
    for (first, check) in [
        ('n', 0),
        ('t', 1),
        ('f', 2),
        ('"', 3),
        ('[', 4),
        ('-', 5),
        ('{', 6),
    ] {
        let mut context = ObjectContext::new_key();
        assert_eq!(feed_object(&mut context, "\"k\":"), Ok(()));
        assert_eq!(context.check_object(first), Ok(()));
        let ok = match (check, context.get_mode_ptr()) {
            (0, ObjectMode::ValueNull(NullMode::u)) => true,
            (1, ObjectMode::ValueTrue(TrueMode::r)) => true,
            (2, ObjectMode::ValueFalse(FalseMode::a)) => true,
            (3, ObjectMode::ValueString(_)) => true,
            (4, ObjectMode::ValueArray(_)) => true,
            (5, ObjectMode::ValueNumber(_)) => true,
            (6, ObjectMode::ValueObject(_)) => true,
            _ => false,
        };
        assert!(ok, "{}", first);
    }
}

#[test]
fn object_last_value_of_a_name_stays_in_its_place() {
    let mut context = ObjectContext::new_key();
    assert_eq!(feed_object(&mut context, "\"a\":1,\"b\":2,\"a\":3,\"c\":{\"x\":1},\"c\":4}"), Ok(()));
    assert_eq!(
        context.into_json(),
        Json::Object(vec![
            ("a".to_string(), Json::Number("3".to_string())),
            ("b".to_string(), Json::Number("2".to_string())),
            ("c".to_string(), Json::Number("4".to_string())),
        ])
    );
}

#[test]
fn object_name_after_a_nested_object_is_its_own() {
    let mut context = ObjectContext::new_key();
    assert_eq!(feed_object(&mut context, "\"a\":{\"x\":1},\"b\":2}"), Ok(()));
    assert_eq!(
        context.into_json(),
        Json::Object(vec![
            ("a".to_string(), Json::Object(vec![("x".to_string(), Json::Number("1".to_string()))])),
            ("b".to_string(), Json::Number("2".to_string())),
        ])
    );
}

#[test]
fn object_errors() {
    let mut empty = ObjectContext::new_key();
    assert_eq!(empty.check_object('}'), Err(ErrorKind::UnexpectedCharacter(Expected::Quote)));
    let mut colon = ObjectContext::new_key();
    assert_eq!(
        feed_object(&mut colon, "\"a\" ,"),
        Err(ErrorKind::UnexpectedCharacter(Expected::Colon))
    );
    let mut value = ObjectContext::new_key();
    assert_eq!(
        feed_object(&mut value, "\"a\": }"),
        Err(ErrorKind::UnexpectedCharacter(Expected::Value))
    );
    let mut after = ObjectContext::new_key();
    assert_eq!(
        feed_object(&mut after, "\"a\":true ]"),
        Err(ErrorKind::UnexpectedCharacter(Expected::CommaOrEnd))
    );
    let mut key = ObjectContext::new_key();
    assert_eq!(feed_object(&mut key, "\"a\\z"), Err(ErrorKind::InvalidEscape));
    let mut number = ObjectContext::new_key();
    assert_eq!(
        feed_object(&mut number, "\"a\":-}"),
        Err(ErrorKind::InvalidNumber(NumberFault::Malformed))
    );
    let mut literal = ObjectContext::new_key();
    assert_eq!(feed_object(&mut literal, "\"a\":falsy"), Err(ErrorKind::InvalidLiteral));
}

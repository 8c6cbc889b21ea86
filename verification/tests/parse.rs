use zjy_json::machine::{judgment_json_type, judgment_json_type_option};
use zjy_json::string::char_to_u8_16hx;
use zjy_json::{ErrorKind, Expected, Json, NumberFault, ParseError};

fn number(text: &str) -> Json {
    Json::Number(text.to_string())
}

fn string(text: &str) -> Json {
    Json::String(text.to_string())
}

fn failure(at: usize, kind: ErrorKind) -> Result<Json, ParseError> {
    Err(ParseError { at, kind })
}

#[test]
fn test_str_to_json_f64_pass() {
    println!("parsed: {}", Json::str_to_json("null").unwrap().to_string());
}

#[test]
#[should_panic]
fn test_str_to_json_f64_painc() {
    println!("parsed: {}", Json::str_to_json("4324.0000242ff").unwrap().to_string());
}

#[test]
fn test_str_to_json_pass() {
    println!("{}", Json::str_to_json("null").unwrap().to_string());
}

#[test]
fn test_str_to_json_true_pass() {
    println!("parsed: {}", Json::str_to_json("true").unwrap().to_string());
}

#[test]
#[should_panic]
fn test_str_to_json_true_painc() {
    println!("parsed: {}", Json::str_to_json("tfe").unwrap().to_string());
}

#[test]
fn test_str_to_json_false_pass() {
    println!("parsed: {}", Json::str_to_json("false").unwrap().to_string());
}

#[test]
#[should_panic]
fn test_str_to_json_false_painc() {
    println!("parsed: {}", Json::str_to_json("falSE").unwrap().to_string());
}

#[test]
#[should_panic]
fn test_str_to_json_painc() {
    println!("{}", Json::str_to_json("nulL").unwrap().to_string());
}

#[test]
fn empty_text() {
    assert_eq!(Json::str_to_json(""), failure(0, ErrorKind::EmptyInput));
    assert_eq!(Json::str_to_json(" \n\r "), failure(4, ErrorKind::EmptyInput));
}

#[test]
fn keywords() {
    assert_eq!(Json::str_to_json("null"), Ok(Json::Null));
    assert_eq!(Json::str_to_json("true"), Ok(Json::Boolean(true)));
    assert_eq!(Json::str_to_json("false"), Ok(Json::Boolean(false)));
    assert_eq!(Json::str_to_json("nulL"), failure(4, ErrorKind::InvalidLiteral));
    assert_eq!(
        Json::str_to_json("TRUE"),
        failure(1, ErrorKind::UnexpectedCharacter(Expected::Value))
    );
    assert_eq!(Json::str_to_json("falSE"), failure(4, ErrorKind::InvalidLiteral));
    assert_eq!(Json::str_to_json("tfe"), failure(2, ErrorKind::InvalidLiteral));
    assert_eq!(Json::str_to_json("nu"), failure(2, ErrorKind::InvalidLiteral));
    assert_eq!(Json::str_to_json(" \n true"), Ok(Json::Boolean(true)));
    assert_eq!(Json::str_to_json("n ull"), failure(2, ErrorKind::InvalidLiteral));
}

#[test]
fn what_stands_behind_a_complete_value_is_not_read() {
    assert_eq!(Json::str_to_json("null \n"), Ok(Json::Null));
    assert_eq!(Json::str_to_json("truex"), Ok(Json::Boolean(true)));
    assert_eq!(Json::str_to_json("\"a\"b"), Ok(string("a")));
    assert_eq!(Json::str_to_json("[1]]"), Ok(Json::Array(vec![number("1")])));
}

#[test]
fn numbers() {
    assert_eq!(Json::str_to_json("-2323"), Ok(number("-2323")));
    assert_eq!(Json::str_to_json("-1E+10"), Ok(number("-1E+10")));
    assert_eq!(Json::str_to_json("  0.5"), Ok(number("0.5")));
    match Json::str_to_json("-2323") {
        Ok(Json::Number(text)) => assert_eq!(text.parse::<f64>().unwrap(), -2323.0),
        other => panic!("{:?}", other),
    }
    match Json::str_to_json("-1E+10") {
        Ok(Json::Number(text)) => assert_eq!(text.parse::<f64>().unwrap(), -1e10),
        other => panic!("{:?}", other),
    }
    assert_eq!(
        Json::str_to_json("4324.0000242ff"),
        failure(13, ErrorKind::UnexpectedCharacter(Expected::EndOfInput))
    );
    assert_eq!(
        Json::str_to_json("12 "),
        failure(3, ErrorKind::UnexpectedCharacter(Expected::EndOfInput))
    );
    assert_eq!(Json::str_to_json("1e"), failure(2, ErrorKind::InvalidNumber(NumberFault::Malformed)));
    assert_eq!(Json::str_to_json("-"), failure(1, ErrorKind::InvalidNumber(NumberFault::Malformed)));
    assert_eq!(
        Json::str_to_json("1-2x"),
        failure(4, ErrorKind::InvalidNumber(NumberFault::Malformed))
    );
    assert_eq!(
        Json::str_to_json("+1"),
        failure(1, ErrorKind::UnexpectedCharacter(Expected::Value))
    );
    assert_eq!(
        Json::str_to_json(".5"),
        failure(1, ErrorKind::UnexpectedCharacter(Expected::Value))
    );
}

#[test]
fn strings() {
    assert_eq!(Json::str_to_json("\"a\\nb\""), Ok(string("a\nb")));
    assert_eq!(Json::str_to_json("\"\\uD83D\\uDE00\""), Ok(string("\u{1F600}")));
    assert_eq!(Json::str_to_json("\"\\uD83D\""), failure(8, ErrorKind::InvalidEscape));
    assert_eq!(Json::str_to_json("\"\\uD83Dx"), failure(8, ErrorKind::InvalidEscape));
    assert_eq!(Json::str_to_json("\"\\uD83D\\u0041\""), failure(13, ErrorKind::InvalidEscape));
    assert_eq!(Json::str_to_json("\"\""), Ok(string("")));
    assert_eq!(Json::str_to_json("\"abc"), failure(4, ErrorKind::UnterminatedString));
    assert_eq!(Json::str_to_json("\"abc\\"), failure(5, ErrorKind::UnterminatedString));
    assert_eq!(
        Json::str_to_json("\"a\nb\""),
        failure(3, ErrorKind::UnexpectedCharacter(Expected::StringBody))
    );
    assert_eq!(
        Json::str_to_json("\"a\tb\""),
        failure(3, ErrorKind::UnexpectedCharacter(Expected::StringBody))
    );
    assert_eq!(Json::str_to_json("\"a b\""), Ok(string("a b")));
    assert_eq!(Json::str_to_json("\"\u{4e2d}\u{1F600}\\z"), failure(5, ErrorKind::InvalidEscape));
}

#[test]
fn arrays_and_objects() {
    let parsed = Json::str_to_json("[1, [2,3], {\"a\":true}]").unwrap();
    match &parsed {
        Json::Array(items) => {
            assert_eq!(items.len(), 3);
            assert_eq!(items[0], number("1"));
            match &items[1] {
                Json::Array(inner) => assert_eq!(inner.len(), 2),
                other => panic!("{:?}", other),
            }
            match &items[2] {
                Json::Object(members) => {
                    assert_eq!(members.len(), 1);
                    assert_eq!(members[0], ("a".to_string(), Json::Boolean(true)));
                }
                other => panic!("{:?}", other),
            }
        }
        other => panic!("{:?}", other),
    }
    assert_eq!(
        parsed,
        Json::Array(vec![
            number("1"),
            Json::Array(vec![number("2"), number("3")]),
            Json::Object(vec![("a".to_string(), Json::Boolean(true))]),
        ])
    );
    assert_eq!(Json::str_to_json("[1, [2,3]"), failure(9, ErrorKind::UnterminatedArray));
    assert_eq!(Json::str_to_json("[1, 2"), failure(5, ErrorKind::UnterminatedArray));
    assert_eq!(Json::str_to_json("{\"a\":1"), failure(6, ErrorKind::UnterminatedObject));
    assert_eq!(Json::str_to_json("{\"a\":[1]"), failure(8, ErrorKind::UnterminatedObject));
    assert_eq!(
        Json::str_to_json("{\"a\":1,\"a\":2}"),
        Ok(Json::Object(vec![("a".to_string(), number("2"))]))
    );
    assert_eq!(
        Json::str_to_json("[]"),
        failure(2, ErrorKind::UnexpectedCharacter(Expected::Value))
    );
    assert_eq!(
        Json::str_to_json("{}"),
        failure(2, ErrorKind::UnexpectedCharacter(Expected::Quote))
    );
    assert_eq!(
        Json::str_to_json("[1,]"),
        failure(4, ErrorKind::UnexpectedCharacter(Expected::Value))
    );
    assert_eq!(
        Json::str_to_json("[1 2]"),
        failure(4, ErrorKind::UnexpectedCharacter(Expected::CommaOrEnd))
    );
    assert_eq!(
        Json::str_to_json("{\"a\" 1}"),
        failure(6, ErrorKind::UnexpectedCharacter(Expected::Colon))
    );
    assert_eq!(Json::str_to_json("[1E+10]"), Ok(Json::Array(vec![number("1E+10")])));
}

#[test]
fn whitespace_between_tokens() {
    let spaced = " \n [ \r\n 1 , \"a b\" ,\n{ \"k\" \n: \r [ true , null ] , \"n\" : -2 } , false ] ";
    let dense = "[1,\"a b\",{\"k\":[true,null],\"n\":-2},false]";
    let expected = Json::Array(vec![
        number("1"),
        string("a b"),
        Json::Object(vec![
            ("k".to_string(), Json::Array(vec![Json::Boolean(true), Json::Null])),
            ("n".to_string(), number("-2")),
        ]),
        Json::Boolean(false),
    ]);
    assert_eq!(Json::str_to_json(spaced), Ok(expected.clone()));
    assert_eq!(Json::str_to_json(dense), Ok(expected));
    assert_eq!(
        Json::str_to_json("[\t1]"),
        failure(2, ErrorKind::UnexpectedCharacter(Expected::Value))
    );
}

#[test]
fn whitespace_in_front_moves_the_place_of_a_failure() {
    assert_eq!(Json::str_to_json("nulL"), failure(4, ErrorKind::InvalidLiteral));
    assert_eq!(Json::str_to_json(" \n\r nulL"), failure(8, ErrorKind::InvalidLiteral));
    assert_eq!(Json::str_to_json("[1 2]"), Json::str_to_json("[1 2] and more"));
    assert_eq!(
        Json::str_to_json("  [1 2]"),
        failure(6, ErrorKind::UnexpectedCharacter(Expected::CommaOrEnd))
    );
    assert_eq!(Json::str_to_json("  [1 , 2 ]"), Json::str_to_json("[1,2]"));
    assert_eq!(Json::str_to_json("   "), failure(3, ErrorKind::EmptyInput));
}

#[test]
fn a_parse_gives_distinct_names_and_valid_numbers() {
    let parsed = Json::str_to_json("{\"a\":1,\"b\":[2.5,{\"a\":-3e2,\"a\":4}],\"a\":5}").unwrap();
    assert_eq!(
        parsed,
        Json::Object(vec![
            ("a".to_string(), number("5")),
            (
                "b".to_string(),
                Json::Array(vec![
                    number("2.5"),
                    Json::Object(vec![("a".to_string(), number("4"))]),
                ]),
            ),
        ])
    );
}

#[test]
fn offsets_count_characters() {
    assert_eq!(
        Json::str_to_json("[\"\u{4e2d}\u{6587}\", x]"),
        failure(8, ErrorKind::UnexpectedCharacter(Expected::Value))
    );
    assert_eq!(
        Json::str_to_json(" ?"),
        failure(2, ErrorKind::UnexpectedCharacter(Expected::Value))
    );
}

#[test]
fn rendering() {
    assert_eq!(Json::Null.to_string(), "null");
    assert_eq!(Json::Boolean(true).to_string(), "true");
    assert_eq!(Json::Boolean(false).to_string(), "false");
    assert_eq!(number("-1E+10").to_string(), "-1E+10");
    assert_eq!(string("a b").to_string(), "\"a b\"");
    assert_eq!(string("a\nb").to_string(), "\"a\nb\"");
    assert_eq!(Json::Array(vec![]).to_string(), "[]");
    assert_eq!(Json::Object(vec![]).to_string(), "{}");
    assert_eq!(Json::Array(vec![Json::Null]).to_string(), "[null]");
    let value = Json::Array(vec![
        number("1"),
        Json::Array(vec![number("2"), number("3")]),
        Json::Object(vec![
            ("a".to_string(), Json::Boolean(true)),
            ("b".to_string(), string("x")),
        ]),
    ]);
    assert_eq!(value.to_string(), "[1,[2,3],{\"a\":true,\"b\":\"x\"}]");
}

#[test]
fn rendered_text_reads_back() {
    for text in [
        "null",
        "true",
        "false",
        "-2323",
        "1.5e-3",
        "\"a b\"",
        "[1,[2,3],{\"a\":true}]",
        "{\"k\":[true,null],\"n\":-2,\"s\":\"\u{1F600}\"}",
        "[[[[\"x\"]]],{\"a\":{\"b\":{\"c\":[0]}}}]",
    ] {
        let value = Json::str_to_json(text).unwrap();
        let rendered = value.to_string();
        assert_eq!(rendered, text);
        let again = Json::str_to_json(&rendered).unwrap();
        assert_eq!(again, value);
        assert_eq!(again.to_string(), rendered);
    }
    let spaced = Json::str_to_json(" [ 1 , { \"a\" : \"b\" } ] ").unwrap();
    assert_eq!(spaced.to_string(), "[1,{\"a\":\"b\"}]");
    assert_eq!(Json::str_to_json(&spaced.to_string()), Ok(spaced));
}

#[test]
fn a_string_that_needs_escapes_does_not_read_back() {
    let quote = string("a\"b");
    assert_eq!(quote.to_string(), "\"a\"b\"");
    assert_eq!(Json::str_to_json(&quote.to_string()), Ok(string("a")));
    let newline = Json::str_to_json("\"a\\nb\"").unwrap();
    assert_eq!(
        Json::str_to_json(&newline.to_string()),
        failure(3, ErrorKind::UnexpectedCharacter(Expected::StringBody))
    );
}

#[test]
fn lookup_by_name() {
    let parsed = Json::str_to_json("{\"a\":1,\"b\":[2],\"a\":3,\"\":null}").unwrap();
    assert_eq!(parsed.get("a"), Some(&number("3")));
    assert_eq!(parsed.get("b"), Some(&Json::Array(vec![number("2")])));
    assert_eq!(parsed.get(""), Some(&Json::Null));
    assert_eq!(parsed.get("c"), None);
    assert_eq!(Json::Array(vec![number("1")]).get("a"), None);
    assert_eq!(Json::Null.get(""), None);
    let twice = Json::Object(vec![("k".to_string(), number("1")), ("k".to_string(), number("2"))]);
    assert_eq!(twice.get("k"), Some(&number("1")));
}

#[test]
fn clone_copies_the_tree() {
    let value = Json::str_to_json("[1,[2,3],{\"a\":true,\"b\":\"x\"},null]").unwrap();
    let copy = value.clone();
    assert_eq!(copy, value);
    assert_eq!(copy.to_string(), value.to_string());
}

#[test]
fn kind_of_a_value_from_its_first_character() {
    assert_eq!(judgment_json_type('n'), Ok(Json::Null));
    assert_eq!(judgment_json_type('t'), Ok(Json::Boolean(true)));
    assert_eq!(judgment_json_type('f'), Ok(Json::Boolean(false)));
    assert_eq!(judgment_json_type('-'), Ok(number("-")));
    assert_eq!(judgment_json_type('7'), Ok(number("7")));
    assert_eq!(judgment_json_type('"'), Ok(string("")));
    assert_eq!(judgment_json_type('['), Ok(Json::Array(vec![])));
    assert_eq!(judgment_json_type('{'), Ok(Json::Object(vec![])));
    for c in [' ', '\n', '+', '.', 'e', ']', '}', ',', ':', 'N'] {
        assert_eq!(
            judgment_json_type(c),
            Err(ErrorKind::UnexpectedCharacter(Expected::Value))
        );
    }
    assert_eq!(judgment_json_type_option(' '), Ok(None));
    assert_eq!(judgment_json_type_option('\n'), Ok(None));
    assert_eq!(judgment_json_type_option('\r'), Ok(None));
    assert_eq!(judgment_json_type_option('['), Ok(Some(Json::Array(vec![]))));
    assert_eq!(
        judgment_json_type_option('\t'),
        Err(ErrorKind::UnexpectedCharacter(Expected::Value))
    );
}

#[test]
fn hexadecimal_digits() {
    let digits = "0123456789abcdef";
    for (i, c) in digits.chars().enumerate() {
        assert_eq!(char_to_u8_16hx(c), Ok(i as u8));
        assert_eq!(char_to_u8_16hx(c.to_ascii_uppercase()), Ok(i as u8));
    }
    for c in ['g', 'G', ' ', '/', ':', '@', '`', '\u{ff10}'] {
        assert_eq!(char_to_u8_16hx(c), Err(ErrorKind::InvalidEscape));
    }
}

use node_connectors::nodes::connector_manager::text::{
    boolean_to_text, common_prefix_length, integer_to_text, parse_boolean, parse_integer,
    same_text,
};

#[test]
fn integer_text_is_decimal() {
    let samples: Vec<i32> =
        vec![0, 1, -1, 9, 10, 11, 99, 100, -100, 12345, -12345, i32::MAX, i32::MIN, 1000000000];
    for sample in samples {
        assert_eq!(integer_to_text(sample), sample.to_string());
    }
    assert_eq!(integer_to_text(-2147483648), "-2147483648");
    assert_eq!(integer_to_text(7), "7");
}

#[test]
fn parse_integer_reads_what_the_standard_parser_reads() {
    let samples: Vec<&str> = vec![
        "",
        "0",
        "-0",
        "+0",
        "7",
        "-7",
        "+7",
        "007",
        "-007",
        "2147483647",
        "2147483648",
        "-2147483648",
        "-2147483649",
        "99999999999999999999999999",
        "-99999999999999999999999999",
        "00000000000000000000000000000000000000000000012",
        "+",
        "-",
        "+-1",
        "--1",
        "1-",
        " 1",
        "1 ",
        "1.0",
        "1e3",
        "0x10",
        "one",
        "１２",
        "1２",
        "é",
        "12a",
        "a12",
    ];
    for sample in samples {
        assert_eq!(parse_integer(sample), sample.parse::<i32>().ok(), "for {:?}", sample);
    }
    assert_eq!(parse_integer("42"), Some(42));
    assert_eq!(parse_integer("Hello"), None);
}

#[test]
fn parse_integer_reads_back_what_was_written() {
    let mut v: i64 = i32::MIN as i64;
    while v <= i32::MAX as i64 {
        assert_eq!(parse_integer(&integer_to_text(v as i32)), Some(v as i32));
        v += 7_654_321;
    }
}

#[test]
fn booleans_as_text() {
    assert_eq!(boolean_to_text(true), "true");
    assert_eq!(boolean_to_text(false), "false");
    assert_eq!(parse_boolean("true"), Some(true));
    assert_eq!(parse_boolean("false"), Some(false));
    for sample in ["", "True", "FALSE", "tru", "truee", "falsy", " true", "1", "0", "trüe"] {
        assert_eq!(parse_boolean(sample), sample.parse::<bool>().ok(), "for {:?}", sample);
    }
}

#[test]
fn texts_are_compared_by_their_bytes() {
    assert!(same_text("", ""));
    assert!(same_text("héllo", "héllo"));
    assert!(!same_text("hello", "hellp"));
    assert!(!same_text("hello", "hell"));
    assert_eq!(common_prefix_length(b"abcd", b"abxd"), 2);
    assert_eq!(common_prefix_length(b"ab", b"abxd"), 2);
    assert_eq!(common_prefix_length(b"", b"abxd"), 0);
    assert_eq!(common_prefix_length(b"same", b"same"), 4);
}

use temper::json::Json;
use temper::json_text::{parse, parse_header_pairs, parse_list, read_number, render, render_pretty};
use temper::keys::{sorted_pairs, sorted_texts};
use temper::numerals::{parse_signed, parse_unsigned};
use temper::table::Table;
use temper::text::{
    can_cut, contains, decimal_text, head_text, join, less, replace_first, signed_text,
    split_char, split_words, trim,
};

#[test]
fn json_is_read_and_written() {
    let text = "{\"b\":[1,-2,1.5,true,null,\"x\\n\"],\"a\":{}}";
    let v = match parse(text) {
        Ok(v) => v,
        Err(m) => panic!("{m}"),
    };
    assert_eq!(
        render(&v),
        "{\"a\":{},\"b\":[1,-2,1.5,true,null,\"x\\n\"]}"
    );
    assert_eq!(render_pretty(&Json::object()), "{}");
    assert_eq!(
        render_pretty(&Json::object().set("k", Json::Bool(true))),
        "{\n  \"k\": true\n}"
    );
    assert!(parse("{").is_err());
    assert_eq!(parse_list("[1,{}]").map(|v| v.len()).unwrap_or(9), 2);
    assert!(parse_list("{}").is_err());
    assert_eq!(
        parse_header_pairs(b"[[\"k\",\"v\"]]"),
        vec![("k".to_string(), "v".to_string())]
    );
    assert!(parse_header_pairs(b"[[\"k\"]]").is_empty());
}

#[test]
fn fields_are_set_and_read_back() {
    let o = Json::object()
        .set("z", Json::Unsigned(1))
        .set("a", Json::Unsigned(2))
        .set("z", Json::of_text("t"));
    assert_eq!(render(&o), "{\"a\":2,\"z\":\"t\"}");
    assert_eq!(o.text_or("z", "-"), "t");
    assert_eq!(o.text_or("a", "-"), "-");
    assert!(o.get("b").is_none());
    assert_eq!(o.get("a").unwrap().as_integer(), Some(2));
    assert_eq!(Json::Unsigned(u64::MAX).as_integer(), None);
    assert_eq!(Json::Negative(-3).as_integer(), Some(-3));
}

#[test]
fn numbers_are_read_as_they_are_written() {
    for x in [0.0, 1.0, -2.5, 1e300, 0.1] {
        let v = parse(&format!("{x:?}")).unwrap_or(Json::Null);
        assert_eq!(read_number(&v).unwrap().bits, f64::to_bits(x));
    }
    assert_eq!(
        read_number(&Json::Unsigned(3)).unwrap().bits,
        3.0f64.to_bits()
    );
    assert!(read_number(&Json::of_text("3")).is_none());
}

#[test]
fn numerals_are_read_as_the_standard_library_reads_them() {
    for t in [
        "0", "-0", "+7", "007", "", "-", "+", " 1", "1 ", "1_0", "9223372036854775807",
        "9223372036854775808", "-9223372036854775808", "-9223372036854775809",
        "18446744073709551615", "18446744073709551616", "99999999999999999999999999",
        "-1", "١", "--1", "+-1",
    ] {
        assert_eq!(parse_signed(t), t.parse::<i64>().ok(), "{t:?}");
        assert_eq!(parse_unsigned(t), t.parse::<u64>().ok(), "{t:?}");
    }
    for n in [0, 7, 10, 12345, u64::MAX] {
        assert_eq!(decimal_text(n), n.to_string());
        assert_eq!(parse_unsigned(&decimal_text(n)), Some(n));
    }
    for n in [0, -1, i64::MIN, i64::MAX] {
        assert_eq!(signed_text(n), n.to_string());
    }
}

#[test]
fn texts_are_handled_as_the_standard_library_does() {
    for t in ["", " a ", "\u{2003}b\u{00A0}", "a\tb  c\n", "é,ü,,x", "aXbXc", "\u{FEFF}z"] {
        assert_eq!(trim(t), t.trim());
        assert_eq!(
            split_words(t),
            t.split_whitespace().map(|w| w.to_string()).collect::<Vec<_>>()
        );
        assert_eq!(
            split_char(t, ','),
            t.split(',').map(|w| w.to_string()).collect::<Vec<_>>()
        );
        for p in ["", "X", "b", "ü,"] {
            assert_eq!(contains(t, p), t.contains(p));
            assert_eq!(replace_first(t, p, "-"), t.replacen(p, "-", 1));
        }
        for u in ["", "a", "é", "z", "aX"] {
            assert_eq!(less(t, u), t < u);
        }
    }
    assert_eq!(join(&vec!["a".to_string(), "b".to_string()], ", "), "a, b");
}

#[test]
fn texts_are_cut_between_characters() {
    assert_eq!(head_text("abc", 2), "ab");
    assert_eq!(head_text("abc", 9), "abc");
    assert!(can_cut("aé", 1));
    assert!(!can_cut("aé", 2));
    assert!(can_cut("aé", 3));
    assert_eq!(head_text("aéb", 3), "aé");
}

#[test]
fn keys_are_sorted_once_each() {
    let v: Vec<String> = ["b", "a", "b", "ä"].iter().map(|s| s.to_string()).collect();
    assert_eq!(sorted_texts(&v), vec!["a", "b", "ä"]);
    let p = |a: &str, b: &str| (a.to_string(), b.to_string());
    assert_eq!(
        sorted_pairs(&vec![p("b", "1"), p("a", "2"), p("a", "1"), p("b", "1")]),
        vec![p("a", "1"), p("a", "2"), p("b", "1")]
    );
}

#[test]
fn tables_keep_their_names_in_order() {
    let mut t: Table<u8> = Table::new();
    for (k, v) in [("b", 1), ("a", 2), ("c", 3), ("a", 4)] {
        t.insert(k.to_string(), v);
    }
    assert_eq!(t.len(), 3);
    assert_eq!(t.key_at(0), "a");
    assert_eq!(*t.value_at(0), 4);
    assert_eq!(t.get("b"), Some(&1));
    assert!(t.remove("b"));
    assert!(!t.remove("b"));
    assert!(!t.contains_key("b"));
    assert_eq!(t.key_at(1), "c");
}

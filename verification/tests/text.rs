use stats_ingest::text::{
    is_whitespace, parse_bool, parse_list, parse_usize, same_text, split_fields, trim,
};

#[test]
fn split_fields_matches_std_split() {
    for text in ["a,b,c", "", ",", "a,,b", ",a,", "no separator", "é,日本,x", ",,,"] {
        let expected: Vec<String> = text.split(',').map(|s| s.to_string()).collect();
        assert_eq!(split_fields(text, ','), expected, "text {:?}", text);
    }
}

#[test]
fn split_fields_of_empty_text_is_one_empty_field() {
    assert_eq!(split_fields("", '\t'), vec![String::new()]);
    assert_eq!(split_fields("a\tb", '\t'), vec!["a".to_string(), "b".to_string()]);
}

#[test]
fn whitespace_is_the_unicode_property() {
    let mut code = 0u32;
    while code <= 0x10FFFF {
        if let Some(c) = char::from_u32(code) {
            assert_eq!(is_whitespace(c), c.is_whitespace(), "code point {:#x}", code);
        }
        code += 1;
    }
}

#[test]
fn trim_matches_std_trim() {
    for text in ["  a b  ", "", "   ", "x", "\t\n x\u{3000}", "\u{a0}é \u{2003}", " a", "a "] {
        assert_eq!(trim(text), text.trim(), "text {:?}", text);
    }
}

#[test]
fn parse_list_trims_and_drops_empty_items() {
    assert_eq!(
        parse_list(" https://a.example , ,https://b.example,, ", ','),
        vec!["https://a.example".to_string(), "https://b.example".to_string()]
    );
    assert_eq!(parse_list("", ','), Vec::<String>::new());
    assert_eq!(parse_list(" , ,", ','), Vec::<String>::new());
    assert_eq!(parse_list("one", ','), vec!["one".to_string()]);
}

#[test]
fn parse_usize_matches_std_parse() {
    let max = usize::MAX.to_string();
    let over = format!("{}0", max);
    let plus_max = format!("+{}", max);
    let cases = [
        "0", "4", "007", "+12", "12345678901234567890", "", "+", "-1", "1 ", " 1", "1_000", "12a",
        "a12", "++1", "٣", "18446744073709551615", "18446744073709551616", "99999999999999999999999",
        max.as_str(), over.as_str(), plus_max.as_str(),
    ];
    for text in cases {
        assert_eq!(parse_usize(text), text.parse::<usize>().ok(), "text {:?}", text);
    }
}

#[test]
fn parse_usize_reads_exact_values() {
    assert_eq!(parse_usize("4"), Some(4));
    assert_eq!(parse_usize("+100"), Some(100));
    assert_eq!(parse_usize("abc"), None);
}

#[test]
fn parse_bool_accepts_only_true_and_false() {
    assert_eq!(parse_bool("true"), Some(true));
    assert_eq!(parse_bool("false"), Some(false));
    for text in ["True", "TRUE", "1", "0", "", " true", "yes", "falsee"] {
        assert_eq!(parse_bool(text), None, "text {:?}", text);
        assert_eq!(text.parse::<bool>().ok(), None);
    }
}

#[test]
fn same_text_compares_character_by_character() {
    assert!(same_text("Paris", "Paris"));
    assert!(!same_text("Paris", "paris"));
    assert!(!same_text("Paris", "Pari"));
    assert!(same_text("", ""));
}


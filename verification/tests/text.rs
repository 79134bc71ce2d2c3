use rwr_players::coerce::parse_count;
use rwr_players::text::{chars_of, digit_of, has_suffix, render_int, spells};

#[test]
fn integers_are_rendered_in_decimal() {
    for n in [0i128, 1, 9, 10, 11, 99, 100, 12345, 1000000007, -1, -9, -10, -12345, i128::MAX, i128::MIN] {
        assert_eq!(render_int(n), n.to_string());
    }
}

#[test]
fn rendered_counts_read_back() {
    for n in [0i128, 5, 10, 48, 100, 900, 103128, i128::MAX] {
        assert_eq!(parse_count(&render_int(n)), Ok(n));
    }
}

#[test]
fn characters_are_listed_in_order() {
    assert_eq!(chars_of(""), Vec::<char>::new());
    assert_eq!(chars_of("héllo"), vec!['h', 'é', 'l', 'l', 'o']);
}

#[test]
fn spelling_compares_whole_texts() {
    let chars = chars_of("kills");
    assert!(spells(&chars, "kills"));
    assert!(!spells(&chars, "kill"));
    assert!(!spells(&chars, "killss"));
    assert!(!spells(&chars, "kilts"));
    assert!(spells(&Vec::new(), ""));
}

#[test]
fn suffixes_are_found_at_the_end_only() {
    let chars = chars_of("12min");
    assert!(has_suffix(&chars, "min"));
    assert!(has_suffix(&chars, ""));
    assert!(has_suffix(&chars, "12min"));
    assert!(!has_suffix(&chars, "012min"));
    assert!(!has_suffix(&chars, "12"));
    assert!(!has_suffix(&chars_of("min12"), "min"));
}

#[test]
fn digits_have_their_value() {
    assert_eq!(digit_of('0'), Some(0));
    assert_eq!(digit_of('9'), Some(9));
    assert_eq!(digit_of('/'), None);
    assert_eq!(digit_of(':'), None);
    assert_eq!(digit_of('a'), None);
    assert_eq!(digit_of('٣'), None);
}

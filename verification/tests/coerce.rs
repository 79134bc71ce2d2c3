use rwr_players::coerce::{
    is_space_char, parse_count, parse_distance, parse_duration, trim_text, DecodeError, Distance,
};

#[test]
fn count_reads_plain_digits() {
    assert_eq!(parse_count("0"), Ok(0));
    assert_eq!(parse_count("7"), Ok(7));
    assert_eq!(parse_count("1234567"), Ok(1234567));
}

#[test]
fn count_allows_leading_zeros() {
    assert_eq!(parse_count("007"), Ok(7));
    assert_eq!(
        parse_count("0000000000000000000000000000000000000000000000000012"),
        Ok(12)
    );
}

#[test]
fn count_reaches_the_largest_value() {
    assert_eq!(
        parse_count("170141183460469231731687303715884105727"),
        Ok(i128::MAX)
    );
}

#[test]
fn count_rejects_what_does_not_fit() {
    assert_eq!(
        parse_count("170141183460469231731687303715884105728"),
        Err(DecodeError::MalformedCount)
    );
    assert_eq!(
        parse_count("99999999999999999999999999999999999999999999"),
        Err(DecodeError::MalformedCount)
    );
}

#[test]
fn count_rejects_non_digit_content() {
    for text in ["", " ", "12a", "a12", "1 2", " 12", "12 ", "-5", "+5", "1.5", "١٢"] {
        assert_eq!(parse_count(text), Err(DecodeError::MalformedCount), "{:?}", text);
    }
}

#[test]
fn duration_with_hours_and_minutes() {
    assert_eq!(parse_duration("1718h 48min"), Ok(1718 * 60 + 48));
    assert_eq!(parse_duration("1h 0min"), Ok(60));
    assert_eq!(parse_duration("0h 59min"), Ok(59));
    assert_eq!(parse_duration("2h 75min"), Ok(195));
}

#[test]
fn duration_with_minutes_only() {
    assert_eq!(parse_duration("48min"), Ok(48));
    assert_eq!(parse_duration("0min"), Ok(0));
}

#[test]
fn duration_rejects_non_numeric_segments() {
    for text in ["abcmin", "min", "h 5min", "1h min", "xh 5min", "1h ymin", "1h 2h 3min", "-1h 5min"] {
        assert_eq!(parse_duration(text), Err(DecodeError::MalformedDuration), "{:?}", text);
    }
}

#[test]
fn duration_needs_its_minutes_unit_and_marker() {
    for text in ["", "5", "2h 5", "1h5min", "1h  5min", "5 min", "5min ", "5minutes", "1H 5min"] {
        assert_eq!(parse_duration(text), Err(DecodeError::MalformedDuration), "{:?}", text);
    }
}

#[test]
fn duration_rejects_a_total_out_of_range() {
    assert_eq!(
        parse_duration("170141183460469231731687303715884105727min"),
        Ok(i128::MAX)
    );
    assert_eq!(
        parse_duration("170141183460469231731687303715884105727h 0min"),
        Err(DecodeError::MalformedDuration)
    );
    assert_eq!(
        parse_duration("1h 170141183460469231731687303715884105727min"),
        Err(DecodeError::MalformedDuration)
    );
    // 2835686391007820528861455061931401762 * 60 + 7 is the largest value
    assert_eq!(
        parse_duration("2835686391007820528861455061931401762h 7min"),
        Ok(i128::MAX)
    );
    assert_eq!(
        parse_duration("2835686391007820528861455061931401762h 8min"),
        Err(DecodeError::MalformedDuration)
    );
}

#[test]
fn distance_keeps_the_numeral() {
    let distance = parse_distance("2134.3km").unwrap();
    assert_eq!(distance.numeral(), "2134.3");
    assert_eq!(distance.numeral().parse::<f64>().unwrap(), 2134.3);
}

#[test]
fn distance_reads_every_plain_numeral() {
    for (text, numeral, value) in [
        ("0km", "0", 0.0),
        ("12km", "12", 12.0),
        ("0.5km", "0.5", 0.5),
        ("5.km", "5.", 5.0),
        (".5km", ".5", 0.5),
        ("007.250km", "007.250", 7.25),
    ] {
        let distance = parse_distance(text).unwrap();
        assert_eq!(distance.numeral(), numeral);
        assert_eq!(distance.numeral().parse::<f64>().unwrap(), value);
    }
}

#[test]
fn distance_rejects_malformed_values() {
    for text in [
        "", "km", ".km", "12", "12.5", "abckm", "1..2km", "1.2.3km", "-3km", "+3km", "1e5km",
        "infkm", "NaNkm", "12 km", " 12km", "12km ", "12kmkm", "km12", "12KM", "1,5km",
    ] {
        assert_eq!(
            parse_distance(text).err(),
            Some(DecodeError::MalformedDistance),
            "{:?}",
            text
        );
    }
}

#[test]
fn distance_zero_is_the_default_numeral() {
    assert_eq!(Distance::zero().numeral(), "0");
    assert_eq!(Distance::zero(), parse_distance("0km").unwrap());
    assert_eq!(Distance::zero().clone(), Distance::zero());
}

#[test]
fn free_text_is_trimmed() {
    assert_eq!(trim_text("Private"), "Private");
    assert_eq!(trim_text("  Staff Sergeant \n"), "Staff Sergeant");
    assert_eq!(trim_text("\t\u{a0}a b\u{3000}"), "a b");
    assert_eq!(trim_text(""), "");
    assert_eq!(trim_text(" \n\t "), "");
    assert_eq!(trim_text("x"), "x");
}

#[test]
fn white_space_is_what_the_standard_library_calls_so() {
    let mut code: u32 = 0;
    while code <= 0x10FFFF {
        if let Some(c) = char::from_u32(code) {
            assert_eq!(is_space_char(c), c.is_whitespace(), "{:x}", code);
        }
        code += 1;
    }
}

#[test]
fn trimming_agrees_with_the_standard_library() {
    for text in ["", " ", "a", " a", "a ", " a b ", "\u{2003}x\u{2003}", "\u{200b}x", "\r\n x \r\n"] {
        assert_eq!(trim_text(text), text.trim(), "{:?}", text);
    }
}

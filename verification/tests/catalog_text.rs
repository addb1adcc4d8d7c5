use sky_engine_core::catalog_text::{detect_format, parse_u32};

fn std_parse(s: &str) -> Option<u32> {
    s.trim().parse().ok()
}

#[test]
fn hipparcos_lines_begin_with_h_and_hold_a_bar() {
    assert_eq!(detect_format("H|           1| |00 00 00.22|+01 05 20.4| 9.10|"), "hipparcos");
    assert_eq!(detect_format("H|"), "hipparcos");
    assert_eq!(detect_format("Hx|"), "hipparcos");
    assert_eq!(detect_format("H"), "bsc");
    assert_eq!(detect_format("H 1 2 3"), "bsc");
    assert_eq!(detect_format("|H"), "bsc");
    assert_eq!(detect_format(" H|"), "bsc");
    assert_eq!(detect_format("h|"), "bsc");
    assert_eq!(detect_format(""), "bsc");
    assert_eq!(detect_format("   1          BD+44 4550      3 36042"), "bsc");
    assert_eq!(detect_format("H\u{ff5c}"), "bsc");
    assert_eq!(detect_format("H\u{e9}|"), "hipparcos");
}

#[test]
fn whole_numbers_are_parsed() {
    assert_eq!(parse_u32("0"), Some(0));
    assert_eq!(parse_u32("7"), Some(7));
    assert_eq!(parse_u32("   1"), Some(1));
    assert_eq!(parse_u32("2491"), Some(2491));
    assert_eq!(parse_u32(" 118322 "), Some(118322));
    assert_eq!(parse_u32("\t42\r\n"), Some(42));
    assert_eq!(parse_u32("+5"), Some(5));
    assert_eq!(parse_u32("007"), Some(7));
    assert_eq!(parse_u32("00000000000000000000000012"), Some(12));
    assert_eq!(parse_u32("4294967295"), Some(u32::MAX));
    assert_eq!(parse_u32("+4294967295"), Some(u32::MAX));
    assert_eq!(parse_u32("\u{3000}9\u{a0}"), Some(9));
}

#[test]
fn what_is_no_whole_number_is_refused() {
    for s in [
        "", " ", "   ", "+", "-", "-1", "+-1", "++1", "1+", "1 2", "+ 1", "1.0", "1e3", "0x10",
        "4294967296", "42949672950", "99999999999999999999", "12a", "a12", "\u{663}", "1\u{0}",
        "\u{200b}1", "١٢٣",
    ] {
        assert_eq!(parse_u32(s), None, "{:?}", s);
        assert_eq!(std_parse(s), None, "{:?}", s);
    }
}

#[test]
fn every_character_is_space_or_is_not() {
    for code in 0..=0x10ffffu32 {
        if let Some(c) = char::from_u32(code) {
            let around = format!("{}31{}", c, c);
            assert_eq!(parse_u32(&around), std_parse(&around), "U+{:04X}", code);
            let within = format!("3{}1", c);
            assert_eq!(parse_u32(&within), std_parse(&within), "U+{:04X}", code);
        }
    }
}

#[test]
fn parsing_agrees_on_many_texts() {
    let alphabet: Vec<char> = " \t\n+-0123456789a\u{a0}".chars().collect();
    let mut seed: u64 = 0x853c49e6748fea9b;
    for _ in 0..200_000 {
        seed ^= seed << 13;
        seed ^= seed >> 7;
        seed ^= seed << 17;
        let len = (seed % 13) as usize;
        let mut bits = seed >> 8;
        let mut text = String::new();
        for _ in 0..len {
            let pick = if bits % 4 == 0 { (bits / 4) % 16 } else { 5 + (bits / 4) % 10 };
            text.push(alphabet[pick as usize]);
            bits = bits.rotate_right(7) ^ 0x9e37;
        }
        assert_eq!(parse_u32(&text), std_parse(&text), "{:?}", text);
    }
}

use animation_replace_roblox::asset_id::{id_to_string, parse_id};

#[test]
fn decimal_text_of_zero() {
    assert_eq!(id_to_string(0), "0");
}

#[test]
fn decimal_text_of_small_and_large_ids() {
    assert_eq!(id_to_string(7), "7");
    assert_eq!(id_to_string(10), "10");
    assert_eq!(id_to_string(105277031944789), "105277031944789");
    assert_eq!(id_to_string(u64::MAX), "18446744073709551615");
}

#[test]
fn token_with_digits_is_an_id() {
    assert_eq!(parse_id("123"), Some(123));
    assert_eq!(parse_id("0"), Some(0));
    assert_eq!(parse_id("007"), Some(7));
}

#[test]
fn token_may_start_with_a_plus_sign() {
    assert_eq!(parse_id("+5"), Some(5));
}

#[test]
fn token_without_digits_is_no_id() {
    assert_eq!(parse_id(""), None);
    assert_eq!(parse_id("+"), None);
    assert_eq!(parse_id("-1"), None);
    assert_eq!(parse_id("12a"), None);
    assert_eq!(parse_id(" 12"), None);
    assert_eq!(parse_id("1_000"), None);
    assert_eq!(parse_id("++1"), None);
}

#[test]
fn token_with_other_digits_is_no_id() {
    assert_eq!(parse_id("\u{0663}\u{0664}"), None);
}

#[test]
fn token_must_fit_in_64_bits() {
    assert_eq!(parse_id("18446744073709551615"), Some(u64::MAX));
    assert_eq!(parse_id("18446744073709551616"), None);
    assert_eq!(parse_id("99999999999999999999999"), None);
}

#[test]
fn token_reads_as_std_does() {
    let samples = [
        "0", "42", "+42", "", "+", "-", "-0", "4 2", "18446744073709551615",
        "18446744073709551616", "000000000000000000000000001", "1e3", "0x10",
    ];
    for text in samples {
        assert_eq!(parse_id(text), text.parse::<u64>().ok(), "{}", text);
    }
}

#[test]
fn decimal_text_round_trips() {
    for id in [0u64, 1, 9, 10, 99, 100, 12345, 250, u64::MAX - 1, u64::MAX] {
        assert_eq!(parse_id(&id_to_string(id)), Some(id));
        assert_eq!(id_to_string(id), id.to_string());
    }
}

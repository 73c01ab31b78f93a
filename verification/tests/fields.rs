use maui::{
    format_u64, parse_bool, parse_i16, parse_i32, parse_player_kind, parse_u16, parse_u32,
    parse_u64, parse_usize, PlayerKind,
};

#[test]
fn unsigned_parses_exact_values() {
    assert_eq!(parse_u64("0"), Some(0));
    assert_eq!(parse_u64("12345"), Some(12345));
    assert_eq!(parse_u64("007"), Some(7));
    assert_eq!(parse_u64("18446744073709551615"), Some(u64::MAX));
    assert_eq!(parse_u32("4294967295"), Some(u32::MAX));
    assert_eq!(parse_u16("65535"), Some(u16::MAX));
    assert_eq!(parse_usize("64"), Some(64));
}

#[test]
fn unsigned_rejects_garbage_and_overflow() {
    assert_eq!(parse_u64(""), None);
    assert_eq!(parse_u64("12a"), None);
    assert_eq!(parse_u64("-5"), None);
    assert_eq!(parse_u64(" 5"), None);
    assert_eq!(parse_u64("18446744073709551616"), None);
    assert_eq!(parse_u32("4294967296"), None);
    assert_eq!(parse_u16("65536"), None);
}

#[test]
fn signed_parses_exact_values() {
    assert_eq!(parse_i32("0"), Some(0));
    assert_eq!(parse_i32("-0"), Some(0));
    assert_eq!(parse_i32("2147483647"), Some(i32::MAX));
    assert_eq!(parse_i32("-2147483648"), Some(i32::MIN));
    assert_eq!(parse_i16("-32768"), Some(i16::MIN));
    assert_eq!(parse_i16("32767"), Some(i16::MAX));
}

#[test]
fn signed_rejects_garbage_and_overflow() {
    assert_eq!(parse_i32("2147483648"), None);
    assert_eq!(parse_i32("-2147483649"), None);
    assert_eq!(parse_i32("-"), None);
    assert_eq!(parse_i32("--3"), None);
    assert_eq!(parse_i16("32768"), None);
    assert_eq!(parse_i16("-32769"), None);
}

#[test]
fn bool_fields_are_exactly_true_or_false() {
    assert_eq!(parse_bool("true"), Some(true));
    assert_eq!(parse_bool("false"), Some(false));
    assert_eq!(parse_bool("True"), None);
    assert_eq!(parse_bool("1"), None);
    assert_eq!(parse_bool(""), None);
}

#[test]
fn player_kind_digits() {
    assert_eq!(parse_player_kind("0"), Some(PlayerKind::Player));
    assert_eq!(parse_player_kind("1"), Some(PlayerKind::Spectator));
    assert_eq!(parse_player_kind("2"), Some(PlayerKind::Commander));
    assert_eq!(parse_player_kind("3"), Some(PlayerKind::MobileCommander));
    assert_eq!(parse_player_kind("4"), None);
    assert_eq!(parse_player_kind("player"), None);
}

#[test]
fn formatted_integers_parse_back() {
    assert_eq!(format_u64(0), "0");
    assert_eq!(format_u64(16384), "16384");
    for v in [1u64, 9, 10, 12345, u64::MAX] {
        assert_eq!(parse_u64(&format_u64(v)), Some(v));
    }
}

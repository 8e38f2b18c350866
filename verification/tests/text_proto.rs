use birdlobby::messages::{
    make_disconnected_msg, make_joined_msg, make_new_bird_msg, make_ready_msg,
    make_whisper_prefix, make_your_id_msg,
};
use birdlobby::text::{find_space, parse_bool, parse_u128, str_eq, str_starts_with, u128_to_dec};

#[test]
fn decimal_rendering_small() {
    assert_eq!(u128_to_dec(0), "0");
    assert_eq!(u128_to_dec(7), "7");
    assert_eq!(u128_to_dec(10), "10");
    assert_eq!(u128_to_dec(12345), "12345");
    assert_eq!(u128_to_dec(1000000), "1000000");
}

#[test]
fn decimal_rendering_largest() {
    assert_eq!(
        u128_to_dec(u128::MAX),
        "340282366920938463463374607431768211455"
    );
}

#[test]
fn parse_u128_accepts_digits_and_plus() {
    assert_eq!(parse_u128("0"), Some(0));
    assert_eq!(parse_u128("123"), Some(123));
    assert_eq!(parse_u128("+7"), Some(7));
    assert_eq!(parse_u128("0004"), Some(4));
    assert_eq!(
        parse_u128("340282366920938463463374607431768211455"),
        Some(u128::MAX)
    );
}

#[test]
fn parse_u128_rejects_junk() {
    assert_eq!(parse_u128(""), None);
    assert_eq!(parse_u128("+"), None);
    assert_eq!(parse_u128("12a"), None);
    assert_eq!(parse_u128("-4"), None);
    assert_eq!(parse_u128(" 12"), None);
    assert_eq!(parse_u128("++1"), None);
}

#[test]
fn parse_u128_rejects_overflow() {
    assert_eq!(parse_u128("340282366920938463463374607431768211456"), None);
    assert_eq!(parse_u128("999999999999999999999999999999999999999999"), None);
}

#[test]
fn parse_bool_is_exact() {
    assert_eq!(parse_bool("true"), Some(true));
    assert_eq!(parse_bool("false"), Some(false));
    assert_eq!(parse_bool("True"), None);
    assert_eq!(parse_bool("1"), None);
    assert_eq!(parse_bool(""), None);
    assert_eq!(parse_bool("truex"), None);
}

#[test]
fn string_utilities() {
    assert!(str_eq("abc", "abc"));
    assert!(!str_eq("abc", "abd"));
    assert!(!str_eq("abc", "abcd"));
    assert!(str_starts_with("ready now", "ready"));
    assert!(!str_starts_with("read", "ready"));
    assert_eq!(find_space("ab cd e", 0), Some(2));
    assert_eq!(find_space("ab cd e", 3), Some(5));
    assert_eq!(find_space("abcde", 0), None);
}

#[test]
fn outbound_message_texts() {
    assert_eq!(make_joined_msg(7), "7 just joined!");
    assert_eq!(make_disconnected_msg(12), "12 disconnected.");
    assert_eq!(make_your_id_msg(3), "your id is 3");
    assert_eq!(make_whisper_prefix(9), "Whisper[9]");
    assert_eq!(make_ready_msg(true), "ready: true");
    assert_eq!(make_ready_msg(false), "ready: false");
    assert_eq!(
        make_new_bird_msg(4, 2),
        "new Bird with id [4]; joined the game with player_id[2]!"
    );
}

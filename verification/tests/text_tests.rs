use yral_multi_service::text::{
    chars_of, header_value_text, i64_to_decimal, parse_u64_text, to_snake_case,
    trim_start_matches_text, u64_to_decimal,
};

#[test]
fn snake_case_of_pascal_case_event_name() {
    assert_eq!(to_snake_case("VideoDurationWatched"), "video_duration_watched");
}

#[test]
fn snake_case_edge_cases() {
    assert_eq!(to_snake_case(""), "");
    assert_eq!(to_snake_case("video_started"), "video_started");
    assert_eq!(to_snake_case("ABC"), "a_b_c");
    assert_eq!(to_snake_case("likeVideo"), "like_video");
    assert_eq!(to_snake_case("X"), "x");
}

#[test]
fn snake_case_leaves_non_ascii_uppercase_unlowered() {
    assert_eq!(to_snake_case("aÉb"), "a_Éb");
    assert_eq!(to_snake_case("Éa"), "Éa");
}

#[test]
fn snake_case_twice_is_once_for_ascii() {
    for s in ["VideoDurationWatched", "aBcD", "already_snake", "HTTPRequest"] {
        let once = to_snake_case(s);
        assert_eq!(to_snake_case(&once), once);
    }
}

#[test]
fn decimal_text_of_numbers() {
    assert_eq!(u64_to_decimal(0), "0");
    assert_eq!(u64_to_decimal(42), "42");
    assert_eq!(u64_to_decimal(u64::MAX), "18446744073709551615");
    assert_eq!(i64_to_decimal(-5), "-5");
    assert_eq!(i64_to_decimal(i64::MIN), "-9223372036854775808");
    assert_eq!(i64_to_decimal(1700000000), "1700000000");
}

#[test]
fn parse_u64_follows_std() {
    for s in ["0", "123", "+5", "+", "", "-1", "-0", " 1", "1 ", "18446744073709551615",
        "18446744073709551616", "007", "1a", "١"] {
        assert_eq!(parse_u64_text(s), s.parse::<u64>().ok(), "input {:?}", s);
    }
}

#[test]
fn decimal_round_trips_through_parse() {
    for n in [0u64, 9, 10, 99, 12345, u64::MAX] {
        assert_eq!(parse_u64_text(&u64_to_decimal(n)), Some(n));
    }
}

#[test]
fn trim_start_matches_repeats() {
    assert_eq!(trim_start_matches_text("Bearer Bearer abc", "Bearer "), "abc");
    assert_eq!(trim_start_matches_text("bearer abc", "Bearer "), "bearer abc");
    assert_eq!(trim_start_matches_text("Bearer ", "Bearer "), "");
    assert_eq!(trim_start_matches_text("abc", ""), "abc");
    assert_eq!(
        trim_start_matches_text("xxxy", "x"),
        "xxxy".trim_start_matches("x")
    );
}

#[test]
fn header_text_accepts_visible_ascii_and_tab() {
    assert_eq!(header_value_text(b"Bearer\tx"), Some("Bearer\tx".to_string()));
    assert_eq!(header_value_text(b"abc\x7f"), None);
    assert_eq!(header_value_text(b"\xc3\xa9"), None);
    assert_eq!(header_value_text(b""), Some(String::new()));
}

#[test]
fn chars_in_order() {
    assert_eq!(chars_of("aÉb"), vec!['a', 'É', 'b']);
}

use open_in_mpv::{parse, parse_parts, MpvOption, ParseError};

#[test]
fn scenario_fullscreen_open() {
    let r = parse("mpv:///open?url=https%3A%2F%2Fexample.com%2Fa.mp4&full_screen=1&pip=0&enqueue=0")
        .unwrap();
    assert_eq!(r.url, "https://example.com/a.mp4");
    assert!(r.fullscreen);
    assert!(!r.pip);
    assert!(!r.enqueue);
    assert_eq!(r.build_args(), vec!["--fs", "https://example.com/a.mp4"]);
}

#[test]
fn scenario_pip_with_defaults() {
    let r = parse("mpv:///open?url=https%3A%2F%2Fx.test%2Fv&pip=1").unwrap();
    assert!(!r.fullscreen);
    assert!(r.pip);
    assert!(!r.enqueue);
    assert_eq!(
        r.build_args(),
        vec![
            "--ontop",
            "--no-border",
            "--autofit=384x216",
            "--geometry=98%:98%",
            "https://x.test/v",
        ]
    );
}

#[test]
fn scenario_wrong_scheme() {
    assert_eq!(
        parse("http:///open?url=x"),
        Err(ParseError::UnsupportedScheme { found: String::from("http") })
    );
}

#[test]
fn scenario_wrong_method() {
    assert_eq!(
        parse("mpv:///close?url=x"),
        Err(ParseError::UnsupportedMethod { found: String::from("/close") })
    );
}

#[test]
fn scenario_missing_url_key() {
    assert_eq!(parse("mpv:///open?full_screen=1"), Err(ParseError::MissingTargetUrl));
}

#[test]
fn empty_url_value_is_rejected() {
    assert_eq!(parse("mpv:///open?url=&full_screen=1"), Err(ParseError::MissingTargetUrl));
    assert_eq!(parse("mpv:///open?url="), Err(ParseError::MissingTargetUrl));
}

#[test]
fn malformed_input_is_an_invalid_url() {
    assert_eq!(parse("not a url"), Err(ParseError::InvalidUrl));
    assert_eq!(parse(""), Err(ParseError::InvalidUrl));
}

#[test]
fn undecodable_url_value_is_an_encoding_error() {
    assert_eq!(parse("mpv:///open?url=%FF"), Err(ParseError::InvalidEncoding));
}

#[test]
fn no_query_at_all_misses_the_target() {
    assert_eq!(parse("mpv:///open"), Err(ParseError::MissingTargetUrl));
}

#[test]
fn target_is_decoded_exactly_once() {
    let r = parse("mpv:///open?url=a%252Fb").unwrap();
    assert_eq!(r.url, "a%2Fb");
}

#[test]
fn last_value_wins_on_duplicate_keys() {
    let r = parse("mpv:///open?url=first&url=second&full_screen=0&full_screen=1").unwrap();
    assert_eq!(r.url, "second");
    assert!(r.fullscreen);
}

#[test]
fn flag_values_other_than_one_are_false() {
    let r = parse("mpv:///open?url=x&full_screen=2&pip=yes&enqueue=").unwrap();
    assert!(!r.fullscreen);
    assert!(!r.pip);
    assert!(!r.enqueue);
}

#[test]
fn parse_parts_checks_scheme_then_method_then_url() {
    assert_eq!(
        parse_parts("https", "/open", Some("url=x")),
        Err(ParseError::UnsupportedScheme { found: String::from("https") })
    );
    assert_eq!(
        parse_parts("mpv", "/play", Some("url=x")),
        Err(ParseError::UnsupportedMethod { found: String::from("/play") })
    );
    assert_eq!(parse_parts("mpv", "/open", None), Err(ParseError::MissingTargetUrl));
    let mo: MpvOption = parse_parts("mpv", "/open", Some("url=ok&pip=1")).unwrap();
    assert_eq!(mo.url, "ok");
    assert!(!mo.fullscreen && mo.pip && !mo.enqueue);
}

#[test]
fn segment_without_equals_counts_as_empty_value() {
    let r = parse("mpv:///open?url=x&full_screen").unwrap();
    assert!(!r.fullscreen);
}

#[test]
fn reparsing_the_wire_format_round_trips() {
    let encoded = "https%3A%2F%2Fexample.com%2Fa.mp4";
    for fullscreen in [false, true] {
        for pip in [false, true] {
            for enqueue in [false, true] {
                let wire = format!(
                    "mpv:///open?url={}&full_screen={}&pip={}&enqueue={}",
                    encoded,
                    if fullscreen { "1" } else { "0" },
                    if pip { "1" } else { "0" },
                    if enqueue { "1" } else { "0" },
                );
                let r = parse(&wire).unwrap();
                assert_eq!(r.url, "https://example.com/a.mp4");
                assert_eq!(r.fullscreen, fullscreen);
                assert_eq!(r.pip, pip);
                assert_eq!(r.enqueue, enqueue);
            }
        }
    }
}

#[test]
fn parsing_twice_gives_equal_requests() {
    let wire = "mpv:///open?url=https%3A%2F%2Fx.test%2Fv&pip=1";
    let a = parse(wire).unwrap();
    let b = parse(wire).unwrap();
    assert_eq!(a.url, b.url);
    assert_eq!(a.fullscreen, b.fullscreen);
    assert_eq!(a.pip, b.pip);
    assert_eq!(a.enqueue, b.enqueue);
}

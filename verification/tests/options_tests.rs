use open_in_mpv::MpvOption;

#[test]
fn test_build_option() {
    let encoded_url: &str = "https%3A%2F%2Fst3x_plus.cdnfile.info%2Fuser592%2F5543369133e06eedecc4907bfcd0fd45%2FEP.1.360p.mp4%3Ftoken%3DZDpvjlchVpTP0yb_5AsaEw%26expires%3D1562085204%26title%3D(360P%2520-%2520mp4)%2520Terminator%2B4%253A%2BSalvation%2BHD-720p";
    let expected_url: String = String::from("https://st3x_plus.cdnfile.info/user592/5543369133e06eedecc4907bfcd0fd45/EP.1.360p.mp4?token=ZDpvjlchVpTP0yb_5AsaEw&expires=1562085204&title=(360P%20-%20mp4)%20Terminator+4%3A+Salvation+HD-720p");

    let mo: MpvOption = MpvOption::new(encoded_url, "1", "0", "1");

    assert_eq!(mo.url, expected_url);
    assert_eq!(mo.fullscreen, true);
    assert_eq!(mo.pip, false);
    assert_eq!(mo.enqueue, true);
}

#[test]
fn test_build_args() {
    let mo: MpvOption = MpvOption {
        url: String::from("invalid_url_but_who_cares"),
        fullscreen: true,
        pip: false,
        enqueue: true,
    };

    let args: Vec<String> = mo.build_args();
    assert_eq!(args[0], "--fs".to_owned());
    assert_eq!(args[1], "invalid_url_but_who_cares".to_owned());
}

#[test]
fn flag_one_is_true_and_anything_else_is_false() {
    for (value, expected) in [
        ("1", true),
        ("0", false),
        ("", false),
        ("2", false),
        ("yes", false),
        ("true", false),
    ] {
        let mo = MpvOption::new("x", value, value, value);
        assert_eq!(mo.fullscreen, expected);
        assert_eq!(mo.pip, expected);
        assert_eq!(mo.enqueue, expected);
    }
}

#[test]
fn flags_are_independent() {
    let mo = MpvOption::new("x", "1", "0", "oops");
    assert!(mo.fullscreen && !mo.pip && !mo.enqueue);
    let mo = MpvOption::new("x", "no", "1", "0");
    assert!(!mo.fullscreen && mo.pip && !mo.enqueue);
    let mo = MpvOption::new("x", "0", "", "1");
    assert!(!mo.fullscreen && !mo.pip && mo.enqueue);
}

#[test]
fn new_decodes_exactly_once() {
    // A doubly-encoded slash must come out singly encoded.
    let mo = MpvOption::new("a%252Fb", "0", "0", "0");
    assert_eq!(mo.url, "a%2Fb");
    // A malformed escape passes through unchanged.
    let mo = MpvOption::new("a%2zb", "0", "0", "0");
    assert_eq!(mo.url, "a%2zb");
}

#[test]
fn decode_matches_a_standard_single_pass() {
    for input in [
        "https%3A%2F%2Fexample.com%2Fa.mp4",
        "plain",
        "",
        "a%20b%2Bc",
        "%41%42%43",
        "50%25 off",
        "%ze%",
    ] {
        let ours = open_in_mpv::decode_component(input).unwrap();
        let theirs = percent_encoding::percent_decode(input.as_bytes())
            .decode_utf8()
            .unwrap()
            .into_owned();
        assert_eq!(ours, theirs);
    }
}

#[test]
fn decode_rejects_invalid_utf8() {
    assert_eq!(open_in_mpv::decode_component("%FF"), None);
    assert_eq!(open_in_mpv::decode_component("a%C3"), None);
}

#[test]
fn try_new_reports_what_new_assumes() {
    assert!(MpvOption::try_new("%FF", "1", "0", "0").is_none());
    let mo = MpvOption::try_new("a%20b", "1", "0", "0").unwrap();
    assert_eq!(mo.url, "a b");
    assert!(mo.fullscreen);
}

#[test]
fn url_is_always_the_last_argument() {
    for fullscreen in [false, true] {
        for pip in [false, true] {
            for enqueue in [false, true] {
                let mo = MpvOption {
                    url: String::from("u"),
                    fullscreen,
                    pip,
                    enqueue,
                };
                let args = mo.build_args();
                assert_eq!(args.last().unwrap(), "u");
            }
        }
    }
}

#[test]
fn pip_block_is_contiguous_and_ordered() {
    let mo = MpvOption {
        url: String::from("u"),
        fullscreen: true,
        pip: true,
        enqueue: false,
    };
    assert_eq!(
        mo.build_args(),
        vec![
            "--fs",
            "--ontop",
            "--no-border",
            "--autofit=384x216",
            "--geometry=98%:98%",
            "u",
        ]
    );
    let mo = MpvOption {
        url: String::from("u"),
        fullscreen: false,
        pip: true,
        enqueue: false,
    };
    assert_eq!(
        mo.build_args(),
        vec![
            "--ontop",
            "--no-border",
            "--autofit=384x216",
            "--geometry=98%:98%",
            "u",
        ]
    );
}

#[test]
fn all_flags_off_yields_just_the_url() {
    let mo = MpvOption {
        url: String::from("https://x.test/v"),
        fullscreen: false,
        pip: false,
        enqueue: false,
    };
    assert_eq!(mo.build_args(), vec!["https://x.test/v"]);
}

#[test]
fn enqueue_adds_no_flag() {
    let mo = MpvOption {
        url: String::from("u"),
        fullscreen: false,
        pip: false,
        enqueue: true,
    };
    assert_eq!(mo.build_args(), vec!["u"]);
}

//! Tests of the portal-facing helpers: date parsing, schedule corrections,
//! elective derivation, login classification, hashing, captcha decoding and
//! coloring.
use tls_xb::calendar::get_elective_class_ids;
use tls_xb::calendar::parse_portal_date;
use tls_xb::calendar::Block;
use tls_xb::calendar::Calendar;
use tls_xb::client::decode_captcha_png;
use tls_xb::client::login_result_from_state;
use tls_xb::client::trim_start_matches_str;
use tls_xb::client::LoginError;
use tls_xb::config::colorize;
use tls_xb::config::get_hashed_password;
use tls_xb::config::level_color;
use tls_xb::config::ColorScheme;
use tls_xb::config::Config;
use tls_xb::semester::get_current_semester;
use tls_xb::semester::Semester;
use tls_xb::strutil::str_contains;
use tls_xb::strutil::str_eq;
use tls_xb::strutil::u64_to_dec_string;

fn block(id: u64, name: &str, begin_ms: i64) -> Block {
    Block {
        id,
        class_name: name.to_string(),
        begin_epoch_ms: begin_ms,
        end_epoch_ms: begin_ms + 45 * 60_000,
        utc_offset_seconds: 8 * 3600,
    }
}

#[test]
fn portal_dates_parse_to_millis_and_offset() {
    assert_eq!(
        parse_portal_date("/Date(1700000000123+0800)/"),
        Some((1_700_000_000_123, 8 * 3600))
    );
    assert_eq!(
        parse_portal_date("/Date(0-0430)/"),
        Some((0, -(4 * 3600 + 30 * 60)))
    );
    assert_eq!(parse_portal_date("1700000000123+0800"), None);
    assert_eq!(parse_portal_date("/Date(+0800)/"), None);
    assert_eq!(parse_portal_date("/Date(12x3+0800)/"), None);
    assert_eq!(parse_portal_date("/Date(123*0800)/"), None);
    // More milliseconds than the machine integer holds.
    assert_eq!(parse_portal_date("/Date(99999999999999999999+0800)/"), None);
}

#[test]
fn high_school_blocks_shift_as_published() {
    // 08:25 local at UTC+8: 505 minutes into the local day.
    let b1 = block(1, "Math", 505 * 60_000 - 8 * 3_600_000);
    // 09:15 local.
    let b2 = block(2, "Physics", 555 * 60_000 - 8 * 3_600_000);
    // 12:35 local.
    let b3 = block(3, "History", 755 * 60_000 - 8 * 3_600_000);
    // 10:00 local: untouched.
    let b4 = block(4, "Art", 600 * 60_000 - 8 * 3_600_000);
    let starts: Vec<i64> = vec![
        b1.begin_epoch_ms,
        b2.begin_epoch_ms,
        b3.begin_epoch_ms,
        b4.begin_epoch_ms,
    ];
    let calendar = Calendar { blocks: vec![b1, b2, b3, b4] };
    let fixed = calendar.fix_high_school_blocks();
    assert_eq!(fixed.blocks[0].begin_epoch_ms, starts[0] - 25 * 60_000);
    assert_eq!(fixed.blocks[1].begin_epoch_ms, starts[1] - 35 * 60_000);
    assert_eq!(fixed.blocks[2].begin_epoch_ms, starts[2] - 45 * 60_000);
    assert_eq!(fixed.blocks[3].begin_epoch_ms, starts[3]);
    assert_eq!(fixed.blocks[0].end_epoch_ms, starts[0] + 45 * 60_000 - 25 * 60_000);
    assert_eq!(fixed.blocks[3].class_name, "Art");
}

#[test]
fn elective_classes_come_from_block_names() {
    let blocks = vec![
        block(5, "Ele-Painting", 0),
        block(6, "Math", 0),
        block(5, "Ele-Painting", 99),
        block(7, "Chess Ele", 0),
    ];
    let ids = get_elective_class_ids(&blocks);
    assert_eq!(ids, vec![5, 7]);
}

#[test]
fn login_states_classify() {
    assert!(login_result_from_state(0, "ok".to_string()).is_ok());
    match login_result_from_state(1180038, "captcha".to_string()) {
        Err(LoginError::IncorrectCaptcha(m)) => assert_eq!(m, "captcha"),
        _ => panic!("expected a captcha rejection"),
    }
    match login_result_from_state(13, "wrong".to_string()) {
        Err(LoginError::IncorrectLogin(m)) => assert_eq!(m, "wrong"),
        _ => panic!("expected a login rejection"),
    }
    match login_result_from_state(1010076, "wrong".to_string()) {
        Err(LoginError::IncorrectLogin(_)) => {}
        _ => panic!("expected a login rejection"),
    }
    match login_result_from_state(42, "odd".to_string()) {
        Err(LoginError::ErrorCode((m, c))) => {
            assert_eq!(m, "odd");
            assert_eq!(c, 42);
        }
        _ => panic!("expected an unknown error code"),
    }
}

#[test]
fn password_hash_matches_the_portal_scheme() {
    let hashed = get_hashed_password("password", 1_700_000_000);
    assert_eq!(hashed, "A6AD31FBDA60EDB96A75370E5091A679");
}

#[test]
fn decimal_rendering_matches() {
    assert_eq!(u64_to_dec_string(0), "0");
    assert_eq!(u64_to_dec_string(7), "7");
    assert_eq!(u64_to_dec_string(1234567890), "1234567890");
    assert_eq!(u64_to_dec_string(u64::MAX), u64::MAX.to_string());
}

#[test]
fn captcha_data_urls_decode() {
    assert_eq!(
        decode_captcha_png("data:image/png;base64,aGVsbG8="),
        Some(b"hello".to_vec())
    );
    assert_eq!(decode_captcha_png("aGVsbG8="), Some(b"hello".to_vec()));
    assert_eq!(decode_captcha_png("data:image/png;base64,!!"), None);
}

#[test]
fn prefix_trimming_is_repeated() {
    assert_eq!(trim_start_matches_str("ababX", "ab"), "X");
    assert_eq!(trim_start_matches_str("X", "ab"), "X");
    assert_eq!(trim_start_matches_str("abab", "ab"), "");
}

#[test]
fn string_helpers_compare_by_contents() {
    assert!(str_eq("C-Humanities", "C-Humanities"));
    assert!(!str_eq("C-Humanities", "C-Humanitie"));
    assert!(str_contains("AP Chemistry", "AP"));
    assert!(str_contains("Math A Level", "A Level"));
    assert!(!str_contains("Biology", "AP"));
    assert!(str_contains("anything", ""));
}

#[test]
fn current_semester_is_first_marked_now() {
    let mk = |id: u64, is_now: bool| Semester {
        id,
        year: 2024,
        semester: 1,
        is_now,
        start_epoch_ms: 0,
        end_epoch_ms: 1,
        utc_offset_seconds: 8 * 3600,
    };
    let semesters = vec![mk(1, false), mk(2, true), mk(3, true)];
    assert_eq!(get_current_semester(&semesters).unwrap().id, 2);
    let none = vec![mk(1, false)];
    assert!(get_current_semester(&none).is_none());
}

#[test]
fn level_colors_follow_the_scheme() {
    let scheme = ColorScheme::default();
    let (color, bold) = level_color("A-", &scheme);
    assert_eq!(color, "green");
    assert!(!bold);
    let (color, bold) = level_color("A+", &scheme);
    assert_eq!(color, "green");
    assert!(bold);
    let (color, bold) = level_color("F", &scheme);
    assert_eq!(color, "red");
    assert!(bold);
    let (color, _) = level_color("?", &scheme);
    assert_eq!(color, "white");
    let config = Config::default();
    assert_eq!(config.colors.b_color, "blue");
}

#[test]
fn colorized_text_keeps_its_contents() {
    let scheme = ColorScheme::default();
    let painted = colorize("Math", "A+", &scheme);
    assert!(painted.contains("Math"));
}

#[test]
fn millisecond_boundary_sits_at_the_machine_integer() {
    assert_eq!(
        parse_portal_date("/Date(9223372036854775807+0000)/"),
        Some((i64::MAX, 0))
    );
    assert_eq!(parse_portal_date("/Date(9223372036854775808+0000)/"), None);
    // Leading zeros are digits like any others.
    assert_eq!(parse_portal_date("/Date(007+0000)/"), Some((7, 0)));
}

#[test]
fn unrecognized_level_letters_fall_back_to_text_color() {
    let scheme = ColorScheme::default();
    let (color, bold) = level_color("优", &scheme);
    assert_eq!(color, "white");
    assert!(!bold);
}

use pomodoro_notifier::message_log::{read_all, record_line, MESSAGE_ID_LOG};
use pomodoro_notifier::text::{chars_of, is_space, trim_bounds};

fn lines_trimmed(content: &str) -> Vec<String> {
    content.lines().map(|line| line.trim().to_string()).filter(|line| !line.is_empty()).collect()
}

#[test]
fn the_log_has_its_fixed_path() {
    assert_eq!(MESSAGE_ID_LOG, "message-id.log");
}

#[test]
fn a_record_is_the_identifier_and_a_line_feed() {
    assert_eq!(record_line("1234567890"), "1234567890\n");
    assert_eq!(record_line(""), "\n");
}

#[test]
fn an_empty_log_holds_nothing() {
    assert_eq!(read_all(""), Vec::<String>::new());
}

#[test]
fn what_is_appended_is_read_back_in_order() {
    let ids = ["111", "222", "1866221360398467072", "222", "a b", "id-with-ünïcode"];
    let mut log = String::new();
    let mut sent: Vec<String> = Vec::new();
    assert_eq!(read_all(&log), sent);
    for id in ids {
        log.push_str(&record_line(id));
        sent.push(id.to_string());
        assert_eq!(read_all(&log), sent);
    }
}

#[test]
fn an_identifier_that_is_sent_twice_is_kept_twice() {
    let log = format!("{}{}{}", record_line("7"), record_line("7"), record_line("7"));
    assert_eq!(read_all(&log), vec!["7", "7", "7"]);
}

#[test]
fn white_space_around_an_identifier_is_dropped() {
    assert_eq!(read_all("  111 \n\t222\t\n"), vec!["111", "222"]);
    assert_eq!(read_all("\u{3000}111\u{a0}\n"), vec!["111"]);
}

#[test]
fn empty_lines_are_left_out() {
    assert_eq!(read_all("\n\n111\n\n   \n222\n\n"), vec!["111", "222"]);
    assert_eq!(read_all("\n"), Vec::<String>::new());
    assert_eq!(read_all(" \t \n \n"), Vec::<String>::new());
}

#[test]
fn a_last_line_without_a_line_feed_counts() {
    assert_eq!(read_all("111\n222"), vec!["111", "222"]);
    assert_eq!(read_all("111"), vec!["111"]);
}

#[test]
fn carriage_returns_at_the_end_of_a_line_are_dropped() {
    assert_eq!(read_all("111\r\n222\r\n"), vec!["111", "222"]);
    assert_eq!(read_all("1\r1\r\n"), vec!["1\r1"]);
}

#[test]
fn white_space_inside_an_identifier_is_kept() {
    assert_eq!(read_all(" a  b \n"), vec!["a  b"]);
}

#[test]
fn reading_is_reading_line_by_line_and_trimming() {
    let contents = [
        "", "\n", "a", "a\n", "a\nb", "a\nb\n", "\na\n\nb\n", " a \n b ", "\r\n", "a\r\nb\r\n", "a\r",
        "\u{2028}a\u{2029}\n", "a\u{85}\nb", "\u{feff}a\n", "\u{200b}a\n", "  \n  x  \n  ", "\n\n\n",
        "111\n222\n333\n", "a b c\nd e f\n", "\u{1680}x\u{205f}\n\u{202f}y\u{2000}",
    ];
    for content in contents {
        assert_eq!(read_all(content), lines_trimmed(content), "{:?}", content);
    }
}

#[test]
fn white_space_is_what_the_standard_library_calls_white_space() {
    for code in 0u32..=0x10_FFFF {
        if let Some(c) = char::from_u32(code) {
            assert_eq!(is_space(c), c.is_whitespace(), "U+{:04X}", code);
        }
    }
}

#[test]
fn the_bounds_of_a_trimmed_stretch_leave_the_white_space_out() {
    let text = chars_of("ab  cd \n  ef");
    assert_eq!(trim_bounds(&text, 0, 12), (0, 12));
    assert_eq!(trim_bounds(&text, 2, 7), (4, 6));
    assert_eq!(trim_bounds(&text, 2, 4), (4, 4));
    assert_eq!(trim_bounds(&text, 6, 10), (10, 10));
    assert_eq!(trim_bounds(&text, 5, 5), (5, 5));
    assert_eq!(trim_bounds(&text, 7, 12), (10, 12));
}

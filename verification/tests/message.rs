use pomodoro_notifier::message::{broadcast_message, substitute_time, BROADCAST_MARKER, PLACEHOLDER};
use pomodoro_notifier::text::{chars_of, matches_at};

#[test]
fn the_placeholder_and_the_marker_are_what_the_service_expects() {
    assert_eq!(PLACEHOLDER, "%time%");
    assert_eq!(BROADCAST_MARKER, "[toall]\n");
}

#[test]
fn the_placeholder_gives_way_to_the_time() {
    assert_eq!(substitute_time("Working time! ~%time%", "10:25"), "Working time! ~10:25");
}

#[test]
fn every_occurrence_is_replaced() {
    assert_eq!(substitute_time("%time% and %time%, %time%", "09:05"), "09:05 and 09:05, 09:05");
    assert_eq!(substitute_time("%time%%time%", "23:59"), "23:5923:59");
}

#[test]
fn a_template_without_the_placeholder_is_kept() {
    assert_eq!(substitute_time("Back to work", "10:25"), "Back to work");
    assert_eq!(substitute_time("", "10:25"), "");
    assert_eq!(substitute_time("%time", "10:25"), "%time");
    assert_eq!(substitute_time("time%", "10:25"), "time%");
    assert_eq!(substitute_time("%Time%", "10:25"), "%Time%");
    assert_eq!(substitute_time("% time %", "10:25"), "% time %");
}

#[test]
fn occurrences_are_taken_from_the_left_and_do_not_overlap() {
    assert_eq!(substitute_time("%time%time%", "10:25"), "10:25time%");
    assert_eq!(substitute_time("%%time%%", "10:25"), "%10:25%");
    assert_eq!(substitute_time("%time%time%time%", "10:25"), "10:25time10:25");
    assert_eq!(substitute_time("%ti%time%me%", "10:25"), "%ti10:25me%");
}

#[test]
fn text_beyond_ascii_is_carried_over() {
    assert_eq!(substitute_time("作業開始 〜%time%まで", "10:25"), "作業開始 〜10:25まで");
    assert_eq!(substitute_time("é%time%ü", "00:00"), "é00:00ü");
}

#[test]
fn substituting_twice_is_substituting_once() {
    for template in ["~%time%", "%time%%time%", "%ti%time%me%", "none", "%%time%%time%"] {
        let once = substitute_time(template, "10:25");
        assert!(!once.contains("%time%"));
        assert_eq!(substitute_time(&once, "10:25"), once);
    }
}

#[test]
fn substitution_gives_the_same_text_each_time() {
    assert_eq!(substitute_time("a %time% b", "10:25"), substitute_time("a %time% b", "10:25"));
}

#[test]
fn substitution_is_what_the_standard_library_does() {
    let templates = [
        "", "%", "%%", "%time%", "%time", "Working time! ~%time%", "%time%%time%", "%time%time%",
        "x%time%y%time%z", "%%time%%", "%t%ti%tim%time%time%", "no token", "日本語%time%日本語",
        "%time%\n%time%\r\n", "%TIME%", "%time %", "100% %time% 100%",
    ];
    for template in templates {
        for time in ["10:25", "00:00", "", "%time%", "%", "t"] {
            assert_eq!(
                substitute_time(template, time),
                template.replace("%time%", time),
                "{:?} {:?}",
                template,
                time
            );
        }
    }
}

#[test]
fn a_broadcast_begins_with_the_marker() {
    assert_eq!(broadcast_message("Working time! ~%time%", "10:25"), "[toall]\nWorking time! ~10:25");
    assert_eq!(broadcast_message("", "10:25"), "[toall]\n");
    assert!(broadcast_message("Resting time! ~%time%", "10:30").ends_with("~10:30"));
}

#[test]
fn the_characters_of_a_text_come_in_order() {
    assert_eq!(chars_of("a〜b"), vec!['a', '〜', 'b']);
    assert_eq!(chars_of(""), Vec::<char>::new());
}

#[test]
fn a_pattern_is_found_only_where_it_stands() {
    let text = chars_of("ab%time%");
    let pattern = chars_of("%time%");
    assert!(matches_at(&text, &pattern, 2));
    assert!(!matches_at(&text, &pattern, 0));
    assert!(!matches_at(&text, &pattern, 3));
    assert!(!matches_at(&text, &pattern, 8));
    assert!(matches_at(&text, &Vec::new(), 8));
    assert!(matches_at(&text, &chars_of("ab"), 0));
}

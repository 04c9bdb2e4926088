use atc::order::{reversed, sort_by_keys, sort_names, sort_positions, Name, Newest, Oldest};
use atc::paths::{
    file_name, goes_through, has_parent_part, is_absolute, is_below, is_parent_inside, is_same_way,
    is_unsafe_slug, join_path, split_path,
};
use atc::strmap::{keep_nonempty, StrMap};
use atc::tables::render_fitted_table;
use atc::text;
use atc::times::{
    format_age, is_within, parse_poll_interval, parse_since, write_minutes, write_rfc3339,
    write_seconds, Span,
};
use atc::types::{Directive, Status, Timestamp, WorkUnitStatus, WorktreePolicy};

fn s(t: &str) -> String {
    t.to_string()
}

fn list(names: &[&str]) -> Vec<String> {
    names.iter().map(|n| s(n)).collect()
}

#[test]
fn text_is_taken_apart() {
    assert_eq!(text::split("a,b,,c", ','), vec!["a", "b", "", "c"]);
    assert_eq!(text::join(&list(&["a", "b"]), "--"), "a--b");
    assert_eq!(text::split_once("a=b=c", '='), Some((s("a"), s("b=c"))));
    assert_eq!(text::split_once("abc", '='), None);
    assert_eq!(text::cut("a b c", ' '), (s("a"), Some(s("b c"))));
    assert_eq!(text::lines("a\nb\r\nc"), vec!["a", "b", "c"]);
    assert_eq!(text::strip_prefix("abc", "a"), Some(s("bc")));
    assert_eq!(text::strip_suffix("abc", "c"), Some(s("ab")));
    assert_eq!(text::take_chars("\u{e9}bc", 2), "\u{e9}b");
}

#[test]
fn text_is_changed() {
    assert_eq!(text::replace("aXbX", "X", "yy"), "ayybyy");
    assert_eq!(text::trim(" \t\u{2003}a b\n"), "a b");
    assert_eq!(text::trim_end(" a \n"), " a");
    assert_eq!(text::to_lower("AbC"), "abc");
    assert_eq!(text::pad_left("7", '0', 3), "007");
    assert_eq!(text::pad_right("ab", ' ', 4), "ab  ");
    assert_eq!(text::repeat_char('-', 3), "---");
}

#[test]
fn numbers_are_written_and_read() {
    assert_eq!(text::write_u64(0), "0");
    assert_eq!(text::write_u64(u64::MAX), u64::MAX.to_string());
    assert_eq!(text::write_i64(i64::MIN), i64::MIN.to_string());
    assert_eq!(text::write_hex(0xabc, 4), "0abc");
    assert_eq!(text::parse_u32("4294967295"), Some(u32::MAX));
    assert_eq!(text::parse_u32("4294967296"), None);
    assert_eq!(text::parse_u32(""), None);
    assert_eq!(text::parse_i32("-12"), Some(-12));
    assert_eq!(text::parse_i32("x"), None);
}

#[test]
fn text_is_searched() {
    assert!(text::contains("hello", "ell"));
    assert!(!text::contains("hello", "elo"));
    assert!(text::starts_with("hello", "he"));
    assert!(text::ends_with("hello", "lo"));
    assert!(text::comes_before("a", "b"));
    assert!(!text::comes_before("b", "a"));
    assert_eq!(text::cut_bytes("abc", 2), Some(s("ab")));
    assert_eq!(text::cut_bytes("\u{e9}", 1), None);
}

#[test]
fn maps_keep_the_last_value() {
    let mut m = StrMap::new();
    m.insert("a", "1");
    m.insert("a", "2");
    assert_eq!(m.get("a"), Some(s("2")));
    assert!(m.contains_key("a"));
    let mut other = StrMap::new();
    other.insert("a", "3");
    other.insert("b", "4");
    m.extend(&other);
    assert_eq!(m.get("a"), Some(s("3")));
    m.remove("a");
    assert_eq!(m.get("a"), None);
    assert_eq!(m.copy().get("b"), Some(s("4")));
    assert_eq!(keep_nonempty(Some(s(""))), None);
}

#[test]
fn paths_are_joined_and_judged() {
    assert_eq!(join_path("/a", "b"), "/a/b");
    assert_eq!(join_path("/a/", "b"), "/a/b");
    assert_eq!(join_path("/a", "/b"), "/b");
    assert!(is_absolute("/a"));
    assert!(has_parent_part("a/../b"));
    assert!(!has_parent_part("a..b"));
    assert!(is_below("a/b"));
    assert!(!is_below("../a"));
    assert!(is_unsafe_slug("/a"));
    assert!(!is_unsafe_slug("a/b"));
    assert_eq!(file_name("/a/b/"), Some(s("b")));
    assert_eq!(file_name("/a/.."), None);
    assert_eq!(split_path("/a//b"), vec!["a", "b"]);
    assert!(is_parent_inside("/base/x/y", "/base"));
    assert!(!is_parent_inside("/base/y", "/base"));
}

#[test]
fn items_are_ordered() {
    let at = |secs: i64| Timestamp { secs, nanos: 0 };
    assert_eq!(sort_names(list(&["b", "a"])), vec!["a", "b"]);
    assert_eq!(reversed(vec![1, 2, 3]), vec![3, 2, 1]);
    assert_eq!(sort_positions(&vec![Newest(at(1)), Newest(at(2))]), vec![1, 0]);
    assert_eq!(sort_positions(&vec![Oldest(at(2)), Oldest(at(1))]), vec![1, 0]);
    assert_eq!(
        sort_by_keys(vec![10, 20, 30], &vec![Name(s("b")), Name(s("a")), Name(s("b"))]),
        vec![20, 10, 30]
    );
}

#[test]
fn times_are_written() {
    let t = Timestamp {
        secs: 1_773_293_501,
        nanos: 0,
    };
    assert_eq!(write_rfc3339(t), "2026-03-12T05:31:41+00:00");
    assert_eq!(write_minutes(t), "2026-03-12 05:31");
    assert!(write_seconds(t).contains("05:31:41"));
}

#[test]
fn ages_are_written() {
    let at = |secs: i64| Timestamp { secs, nanos: 0 };
    assert_eq!(format_age(at(100), at(70)), "30s");
    assert_eq!(format_age(at(4_000), at(100)), "1h");
    assert_ne!(format_age(at(400_000), at(100)), format_age(at(100), at(100)));
}

#[test]
fn spans_are_read_and_measured() {
    let span = parse_since("1h 30m").unwrap();
    assert_eq!(span, Span { secs: 5_400, nanos: 0 });
    assert!(parse_since("x").is_err());
    assert!(parse_poll_interval(Some("x")).is_err());
    let at = |secs: i64| Timestamp { secs, nanos: 0 };
    assert!(is_within(at(10_000), span, at(5_000)));
    assert!(!is_within(at(10_000), span, at(4_000)));
}

#[test]
fn tables_fit_their_width() {
    let header = list(&["name", "value"]);
    let rows = vec![list(&["a", "1"]), list(&["b", &"x".repeat(60)])];
    let free = render_fitted_table(&header, &rows, None);
    assert!(free.contains(&"x".repeat(60)));
    let narrow = render_fitted_table(&header, &rows, Some(40));
    assert!(!narrow.contains(&"x".repeat(60)));
    assert!(narrow.lines().all(|l| l.chars().count() <= 40));
}

#[test]
fn names_are_read_back() {
    for x in [
        Status::Running,
        Status::Done,
        Status::Failed,
        Status::NeedsReview,
        Status::NeedsHuman,
        Status::Stopped,
        Status::Retrying,
    ] {
        assert_eq!(Status::parse(x.as_str()), Some(x));
        assert_eq!(
            x.is_terminal(),
            x != Status::Running && x != Status::Retrying
        );
    }
    for x in [
        Directive::Implement,
        Directive::Research,
        Directive::KbUpdate,
        Directive::ReviewFix,
        Directive::PrComments,
        Directive::Refine,
        Directive::CreateTask,
        Directive::Close,
    ] {
        assert_eq!(Directive::parse(x.as_str()), Some(x));
    }
    assert!(Directive::ReviewFix.requires_pr());
    assert!(!Directive::Implement.requires_pr());
    for x in [
        WorktreePolicy::Branch,
        WorktreePolicy::Document,
        WorktreePolicy::Root,
        WorktreePolicy::Current,
    ] {
        assert_eq!(WorktreePolicy::parse(x.as_str()), Some(x));
    }
    for x in [
        WorkUnitStatus::Active,
        WorkUnitStatus::Merged,
        WorkUnitStatus::Closed,
        WorkUnitStatus::Abandoned,
    ] {
        assert_eq!(WorkUnitStatus::parse(x.as_str()), Some(x));
    }
}

#[test]
fn paths_lead_the_same_way_whatever_their_slashes() {
    assert!(is_same_way("/a/b", "/a//b/"));
    assert!(is_same_way("/a/./b", "/a/b"));
    assert!(!is_same_way("a/b", "/a/b"));
    assert!(!is_same_way("/a/b", "/a/b/c"));
    assert!(!is_same_way("./a", "a"));
}

#[test]
fn places_below_are_told_by_whole_names() {
    assert!(goes_through("/w/tree/.dispatch/env", "/w/tree"));
    assert!(goes_through("/w/tree", "/w/tree/"));
    assert!(!goes_through("/w/treetop/env", "/w/tree"));
    assert!(!goes_through("/w", "/w/tree"));
    assert!(!goes_through("w/tree/env", "/w/tree"));
    assert!(goes_through("/anything", ""));
}

#[test]
fn durations_at_the_end_of_counting_are_refused() {
    let text = "18446744073709551615s 1000ms";
    assert_eq!(
        parse_since(text).unwrap_err(),
        format!("invalid --since value '{text}' (try 24h, 2d, 1w)")
    );
    assert!(parse_poll_interval(Some(text)).is_err());
    let long = parse_poll_interval(Some("18446744073709551615s")).unwrap();
    assert_eq!((long.secs, long.nanos), (u64::MAX, 0));
    let fine = parse_since("1500000000000ns").unwrap();
    assert_eq!((fine.secs, fine.nanos), (1_500, 0));
    for text in [
        "18446744073709551615s 1000ms x",
        "18446744073709551615s999.5ms 500us",
        "18446744073709551615s 999ms 1.5ms",
        "18446744073709551614s 1000ms 1000000000 ns",
    ] {
        assert!(parse_poll_interval(Some(text)).is_err(), "{text}");
    }
    let near = parse_poll_interval(Some("18446744073709551615s 1ms")).unwrap();
    assert_eq!((near.secs, near.nanos), (u64::MAX, 1_000_000));
    let carried = parse_poll_interval(Some("18446744073709551614s 1000ms")).unwrap();
    assert_eq!((carried.secs, carried.nanos), (u64::MAX, 0));
    assert_eq!(parse_since("1.000000000000h").unwrap().secs, 3_600);
    assert_eq!(parse_since("1000000000000ms 1s").unwrap().secs, 1_000_000_001);
    let mixed = parse_since("1h 30min 1.5s 250ms").unwrap();
    assert_eq!((mixed.secs, mixed.nanos), (5_401, 750_000_000));
}

use scribr::fuzzy::{fuzzy_score, rank_matches};
use scribr::note::{list_recent, search, CorruptRecord, Note};
use scribr::timestamp::Timestamp;

fn stamp(secs: i64, offset: i32) -> Timestamp {
    Timestamp::from_parts(secs, offset).unwrap()
}

fn note(body: &str, secs: i64) -> Note {
    Note::new(body.to_string(), stamp(secs, 0))
}

fn lines_newest_first(notes: &[Note]) -> Vec<String> {
    let mut lines: Vec<String> = notes.iter().map(|n| n.to_line()).collect();
    lines.reverse();
    lines
}

#[test]
fn epoch_line_has_rfc2822_form() {
    assert_eq!(note("hi", 0).to_line(), "Thu, 1 Jan 1970 00:00:00 +0000 - hi");
}

#[test]
fn line_keeps_the_offset() {
    let n = Note::new("x".to_string(), stamp(0, 3600));
    assert_eq!(n.to_line(), "Thu, 1 Jan 1970 01:00:00 +0100 - x");
    let m = Note::new("y".to_string(), stamp(1_000_000_000, -18000));
    assert_eq!(m.to_line(), "Sat, 8 Sep 2001 20:46:40 -0500 - y");
}

#[test]
fn timestamp_range_is_checked() {
    assert!(Timestamp::from_parts(0, 30).is_none());
    assert!(Timestamp::from_parts(0, 86400).is_none());
    assert!(Timestamp::from_parts(253402300799, 0).is_some());
    assert!(Timestamp::from_parts(253402300800, 0).is_none());
    assert!(Timestamp::from_parts(-62167219200, 0).is_some());
    assert!(Timestamp::from_parts(-62167219201, 0).is_none());
    assert!(Timestamp::from_parts(i64::MAX, 0).is_none());
}

#[test]
fn rfc2822_text_is_read_back() {
    let t = Timestamp::parse_rfc2822("Tue, 1 Jul 2003 10:52:37 +0200").unwrap();
    assert_eq!(t.secs, 1057049557);
    assert_eq!(t.offset, 7200);
    assert!(Timestamp::parse_rfc2822("yesterday").is_none());
}

#[test]
fn now_is_representable() {
    assert!(Timestamp::now().is_some());
    let n = Note::from_string("taken now".to_string()).unwrap();
    assert_eq!(n.note_value, "taken now");
}

#[test]
fn note_round_trips_through_its_line() {
    let written = Note::new("fix the - dashed bug".to_string(), stamp(1_700_000_000, -3600));
    let back = Note::new_from_line(&written.to_line()).unwrap();
    assert_eq!(back.note_value, written.note_value);
    assert_eq!(back.timestamp, written.timestamp);
}

#[test]
fn new_note_drops_line_breaks() {
    let n = note("first\nsecond\r\n", 0);
    assert_eq!(n.note_value, "firstsecond");
    assert_eq!(Note::new_from_line(&n.to_line()).unwrap().note_value, "firstsecond");
}

#[test]
fn lone_carriage_returns_stay() {
    let n = note("a\rb", 0);
    assert_eq!(n.note_value, "a\rb");
    assert_eq!(n.to_line(), "Thu, 1 Jan 1970 00:00:00 +0000 - a\rb");
    assert_eq!(note("x\r\ny\r", 0).note_value, "xy\r");
}

#[test]
fn corrupt_lines_are_refused() {
    assert!(Note::new_from_line("no separator here").is_none());
    assert!(Note::new_from_line("not a date - some text").is_none());
    assert!(Note::new_from_line("").is_none());
    let ok = Note::new_from_line("Thu, 1 Jan 1970 00:00:00 +0000 - ").unwrap();
    assert_eq!(ok.note_value, "");
}

#[test]
fn recent_notes_come_newest_first() {
    let written = vec![note("one", 10), note("two", 20), note("three", 30)];
    let lines = lines_newest_first(&written);
    let listed = list_recent(&lines, 3).unwrap();
    let values: Vec<&str> = listed.iter().map(|n| n.note_value.as_str()).collect();
    assert_eq!(values, vec!["three", "two", "one"]);
    assert_eq!(listed[0].timestamp, stamp(30, 0));
}

#[test]
fn listing_more_than_the_log_holds_gives_all_once() {
    let written = vec![note("a", 1), note("b", 2)];
    let lines = lines_newest_first(&written);
    let listed = list_recent(&lines, 20).unwrap();
    let values: Vec<&str> = listed.iter().map(|n| n.note_value.as_str()).collect();
    assert_eq!(values, vec!["b", "a"]);
    assert_eq!(list_recent(&Vec::new(), 5).unwrap().len(), 0);
}

#[test]
fn listing_fewer_reads_only_the_newest() {
    let written = vec![note("a", 1), note("b", 2), note("c", 3)];
    let mut lines = lines_newest_first(&written);
    lines.push("corrupt but never read".to_string());
    let listed = list_recent(&lines, 2).unwrap();
    assert_eq!(listed.len(), 2);
    assert_eq!(listed[1].note_value, "b");
    assert_eq!(list_recent(&lines, 0).unwrap().len(), 0);
}

#[test]
fn corrupt_line_fails_the_listing() {
    let mut lines = lines_newest_first(&[note("a", 1)]);
    lines.insert(0, "garbage".to_string());
    assert_eq!(list_recent(&lines, 5).err(), Some(CorruptRecord { index: 0 }));
}

#[test]
fn fuzzy_score_matches_subsequences() {
    assert_eq!(fuzzy_score("anything", ""), Some(0));
    assert_eq!(fuzzy_score("hello world", "xyz"), None);
    assert!(fuzzy_score("Hello World", "hw").is_some());
    assert!(fuzzy_score("hello", "HEL").is_none());
    assert!(fuzzy_score("abc", "abc").unwrap() > fuzzy_score("a_b_c", "abc").unwrap());
}

#[test]
fn ranking_keeps_the_best_first() {
    let scores = vec![Some(5), None, Some(9), Some(5), Some(1)];
    assert_eq!(rank_matches(&scores, 3), vec![2, 3, 0]);
    assert_eq!(rank_matches(&scores, 10), vec![2, 3, 0, 4]);
    assert_eq!(rank_matches(&scores, 0), Vec::<usize>::new());
    assert_eq!(rank_matches(&vec![None, None], 4), Vec::<usize>::new());
}

#[test]
fn search_ranks_matches_and_skips_the_rest() {
    let written = vec![note("buy milk", 1), note("call bob", 2), note("buy bread", 3), note("milk run", 4)];
    let lines = lines_newest_first(&written);
    let found = search(&lines, "milk", 10).unwrap();
    let values: Vec<&str> = found.iter().map(|(n, _)| n.note_value.as_str()).collect();
    assert_eq!(values.len(), 2);
    assert!(values.contains(&"buy milk"));
    assert!(values.contains(&"milk run"));
    for pair in found.windows(2) {
        assert!(pair[0].1 >= pair[1].1);
    }
    for (n, s) in &found {
        assert_eq!(fuzzy_score(&n.note_value, "milk"), Some(*s));
    }
}

#[test]
fn search_breaks_ties_by_log_order() {
    let written = vec![note("same", 1), note("same", 2), note("same", 3)];
    let lines = lines_newest_first(&written);
    let found = search(&lines, "same", 2).unwrap();
    assert_eq!(found.len(), 2);
    assert_eq!(found[0].0.timestamp, stamp(1, 0));
    assert_eq!(found[1].0.timestamp, stamp(2, 0));
}

#[test]
fn search_never_returns_a_non_match() {
    let written = vec![note("alpha", 1), note("BETA", 2), note("gamma", 3)];
    let lines = lines_newest_first(&written);
    let found = search(&lines, "bet", 10).unwrap();
    assert_eq!(found.len(), 1);
    assert_eq!(found[0].0.note_value, "BETA");
    assert!(search(&lines, "zzz", 10).unwrap().is_empty());
}

#[test]
fn search_fails_on_any_corrupt_line() {
    let mut lines = lines_newest_first(&[note("a", 1), note("b", 2)]);
    lines.push("broken".to_string());
    assert_eq!(search(&lines, "a", 1).err(), Some(CorruptRecord { index: 2 }));
}

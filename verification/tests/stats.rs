use dagashi::daemon::{keycode_to_name, record_key as daemon_record_key, stats_path};
use dagashi::stats::{new_day, record_key, stats_have_room, DailyStats};

fn count_of(s: &DailyStats, key: &str) -> Option<u64> {
    s.chars.iter().find(|(k, _)| k == key).map(|(_, c)| *c)
}

#[test]
fn new_day_is_empty_with_24_hours() {
    let s = new_day("2026-04-10");
    assert_eq!(s.date, "2026-04-10");
    assert_eq!(s.total, 0);
    assert!(s.chars.is_empty());
    assert_eq!(s.hourly_volume, vec![0u64; 24]);
    assert_eq!(s.categories.letter + s.categories.number + s.categories.symbol + s.categories.modifier, 0);
}

#[test]
fn letters_digits_symbols_and_regions() {
    let mut s = new_day("2026-04-10");
    assert!(record_key(&mut s, "a", "2026-04-10", 9).is_none());
    record_key(&mut s, "J", "2026-04-10", 9);
    record_key(&mut s, "5", "2026-04-10", 10);
    record_key(&mut s, ";", "2026-04-10", 10);
    record_key(&mut s, "a", "2026-04-10", 23);
    assert_eq!(s.total, 5);
    assert_eq!(count_of(&s, "a"), Some(2));
    assert_eq!(count_of(&s, "J"), Some(1));
    assert_eq!(s.chars.len(), 4);
    assert_eq!(s.categories.letter, 3);
    assert_eq!(s.categories.number, 1);
    assert_eq!(s.categories.symbol, 1);
    // a, a, 5 are left-hand keys; J and ; are right-hand.
    assert_eq!(s.regions.left_hand, 3);
    assert_eq!(s.regions.right_hand, 2);
    // a, a, j, ; are on the home row.
    assert_eq!(s.regions.home_row, 4);
    assert_eq!(s.hourly_volume[9], 2);
    assert_eq!(s.hourly_volume[10], 2);
    assert_eq!(s.hourly_volume[23], 1);
}

#[test]
fn special_keys_by_word() {
    let mut s = new_day("d");
    for k in ["backspace", "shift", "capslock", "cmd", "ctrl", "option", "tab", "escape", "return", "F5", "⌫"] {
        record_key(&mut s, k, "d", 0);
    }
    assert_eq!(s.total, 11);
    assert_eq!(s.backspace_count, 1);
    assert_eq!(s.shift_count, 1);
    assert_eq!(s.capslock_count, 1);
    assert_eq!(s.categories.modifier, 8);
    // "F5" and the symbol name "⌫" are neither single characters nor special words.
    assert_eq!(s.categories.symbol, 2);
    assert_eq!(s.categories.letter + s.categories.number + s.categories.symbol + s.categories.modifier + s.backspace_count, s.total);
    assert_eq!(s.regions.left_hand + s.regions.right_hand, 0);
}

#[test]
fn special_keys_by_symbol_in_the_daemon() {
    let mut s = new_day("d");
    for k in ["⌫", "⇧", "⇪", "⌘", "⌃", "⌥", "⇥", "⎋", "⏎", "←", "backspace"] {
        daemon_record_key(&mut s, k, "d", 3, false);
    }
    assert_eq!(s.backspace_count, 1);
    assert_eq!(s.shift_count, 1);
    assert_eq!(s.capslock_count, 1);
    assert_eq!(s.categories.modifier, 8);
    assert_eq!(s.categories.symbol, 2);
    assert_eq!(s.hourly_volume[3], 11);
}

#[test]
fn day_change_hands_back_the_old_day() {
    let mut s = new_day("2026-04-10");
    record_key(&mut s, "x", "2026-04-10", 5);
    record_key(&mut s, "y", "2026-04-10", 5);
    let old = record_key(&mut s, "z", "2026-04-11", 0).expect("previous day");
    assert_eq!(old.date, "2026-04-10");
    assert_eq!(old.total, 2);
    assert_eq!(s.date, "2026-04-11");
    assert_eq!(s.total, 1);
    assert_eq!(s.chars, vec![("z".to_string(), 1)]);
    assert_eq!(s.hourly_volume[0], 1);
    assert_eq!(s.hourly_volume.iter().sum::<u64>(), 1);
}

#[test]
fn hour_outside_the_day_is_not_counted_per_hour() {
    let mut s = new_day("d");
    record_key(&mut s, "q", "d", 24);
    assert_eq!(s.total, 1);
    assert_eq!(s.hourly_volume.iter().sum::<u64>(), 0);
}

#[test]
fn sums_agree_after_many_keys() {
    let mut s = new_day("d");
    let keys = ["a", "b", "1", "/", "shift", "cmd", "backspace", "F1", "a", " ", "Z", "'"];
    for (i, k) in keys.iter().enumerate() {
        record_key(&mut s, k, "d", (i % 24) as u32);
    }
    let per_key: u64 = s.chars.iter().map(|(_, c)| *c).sum();
    assert_eq!(per_key, s.total);
    assert_eq!(s.hourly_volume.iter().sum::<u64>(), s.total);
    assert_eq!(s.categories.letter + s.categories.number + s.categories.symbol + s.categories.modifier + s.backspace_count, s.total);
    assert!(s.regions.home_row <= s.regions.left_hand + s.regions.right_hand);
}

#[test]
fn room_check() {
    let mut s = new_day("d");
    assert!(stats_have_room(&s));
    s.hourly_volume[4] = u64::MAX;
    assert!(!stats_have_room(&s));
    let mut t = new_day("d");
    t.chars.push(("a".to_string(), u64::MAX));
    assert!(!stats_have_room(&t));
}

#[test]
fn keycodes() {
    assert_eq!(keycode_to_name(0), "a");
    assert_eq!(keycode_to_name(42), "\\");
    assert_eq!(keycode_to_name(49), "␣");
    assert_eq!(keycode_to_name(51), "⌫");
    assert_eq!(keycode_to_name(122), "F1");
    assert_eq!(keycode_to_name(126), "↑");
    assert_eq!(keycode_to_name(10), "?");
    assert_eq!(keycode_to_name(52), "?");
}

#[test]
fn stats_file_path() {
    assert_eq!(stats_path("/home/u/.dagashi", "2026-04-10"), "/home/u/.dagashi/stats/2026-04-10.json");
    assert_eq!(stats_path("/home/u/.dagashi/", "x"), "/home/u/.dagashi/stats/x.json");
}

#[test]
fn deaf_daemon_records_nothing() {
    let mut s = new_day("d");
    daemon_record_key(&mut s, "a", "d", 3, false);
    assert!(daemon_record_key(&mut s, "b", "d", 3, true).is_none());
    assert!(daemon_record_key(&mut s, "c", "e", 4, true).is_none());
    assert_eq!(s.date, "d");
    assert_eq!(s.total, 1);
    assert_eq!(s.hourly_volume[3], 1);
    assert_eq!(s.hourly_volume[4], 0);
    assert_eq!(s.chars.len(), 1);
}

#[test]
fn recording_order_does_not_matter() {
    let run = |keys: &[(&str, u32)]| {
        let mut s = new_day("d");
        for (k, h) in keys {
            record_key(&mut s, k, "d", *h);
        }
        let mut chars = s.chars.clone();
        chars.sort();
        (s.total, chars, s.hourly_volume.clone(), s.categories.letter, s.categories.symbol, s.categories.modifier,
            s.regions.left_hand, s.regions.right_hand, s.regions.home_row, s.backspace_count, s.shift_count)
    };
    assert_eq!(run(&[("a", 1), ("shift", 2), (";", 2)]), run(&[(";", 2), ("a", 1), ("shift", 2)]));
}

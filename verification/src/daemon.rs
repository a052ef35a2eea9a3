//! The key-counting daemon: macOS key codes, the stats file of a day, and
//! key presses named by their symbols.

use vstd::prelude::*;

use crate::config::{join_path, path_join};
use crate::stats::{distinct_keys, recorded, after_key, fresh_view, has_room, record_key_named, DailyStats, KeyNaming};
use crate::text::append_chars;
use crate::text::{chars_of, string_of};

verus! {

/// The name of a macOS virtual key code; `"?"` for codes without a name.
pub open spec fn keycode_name(keycode: u16) -> Seq<char> {
    match keycode {
        0 => "a"@,
        1 => "s"@,
        2 => "d"@,
        3 => "f"@,
        4 => "h"@,
        5 => "g"@,
        6 => "z"@,
        7 => "x"@,
        8 => "c"@,
        9 => "v"@,
        11 => "b"@,
        12 => "q"@,
        13 => "w"@,
        14 => "e"@,
        15 => "r"@,
        16 => "y"@,
        17 => "t"@,
        18 => "1"@,
        19 => "2"@,
        20 => "3"@,
        21 => "4"@,
        22 => "6"@,
        23 => "5"@,
        24 => "="@,
        25 => "9"@,
        26 => "7"@,
        27 => "-"@,
        28 => "8"@,
        29 => "0"@,
        30 => "]"@,
        31 => "o"@,
        32 => "u"@,
        33 => "["@,
        34 => "i"@,
        35 => "p"@,
        36 => "⏎"@,
        37 => "l"@,
        38 => "j"@,
        39 => "'"@,
        40 => "k"@,
        41 => ";"@,
        42 => "\\"@,
        43 => ","@,
        44 => "/"@,
        45 => "n"@,
        46 => "m"@,
        47 => "."@,
        48 => "⇥"@,
        49 => "␣"@,
        50 => "`"@,
        51 => "⌫"@,
        53 => "⎋"@,
        55 => "⌘"@,
        56 => "⇧"@,
        57 => "⇪"@,
        58 => "⌥"@,
        59 => "⌃"@,
        122 => "F1"@,
        120 => "F2"@,
        99 => "F3"@,
        118 => "F4"@,
        96 => "F5"@,
        97 => "F6"@,
        98 => "F7"@,
        100 => "F8"@,
        101 => "F9"@,
        109 => "F10"@,
        103 => "F11"@,
        111 => "F12"@,
        123 => "←"@,
        124 => "→"@,
        125 => "↓"@,
        126 => "↑"@,
        _ => "?"@,
    }
}

/// The name the daemon records for a key code.
pub fn keycode_to_name(keycode: u16) -> (r: &'static str)
    ensures
        r@ == keycode_name(keycode),
{
    match keycode {
        0 => "a",
        1 => "s",
        2 => "d",
        3 => "f",
        4 => "h",
        5 => "g",
        6 => "z",
        7 => "x",
        8 => "c",
        9 => "v",
        11 => "b",
        12 => "q",
        13 => "w",
        14 => "e",
        15 => "r",
        16 => "y",
        17 => "t",
        18 => "1",
        19 => "2",
        20 => "3",
        21 => "4",
        22 => "6",
        23 => "5",
        24 => "=",
        25 => "9",
        26 => "7",
        27 => "-",
        28 => "8",
        29 => "0",
        30 => "]",
        31 => "o",
        32 => "u",
        33 => "[",
        34 => "i",
        35 => "p",
        36 => "⏎",
        37 => "l",
        38 => "j",
        39 => "'",
        40 => "k",
        41 => ";",
        42 => "\\",
        43 => ",",
        44 => "/",
        45 => "n",
        46 => "m",
        47 => ".",
        48 => "⇥",
        49 => "␣",
        50 => "`",
        51 => "⌫",
        53 => "⎋",
        55 => "⌘",
        56 => "⇧",
        57 => "⇪",
        58 => "⌥",
        59 => "⌃",
        122 => "F1",
        120 => "F2",
        99 => "F3",
        118 => "F4",
        96 => "F5",
        97 => "F6",
        98 => "F7",
        100 => "F8",
        101 => "F9",
        109 => "F10",
        103 => "F11",
        111 => "F12",
        123 => "←",
        124 => "→",
        125 => "↓",
        126 => "↑",
        _ => "?",
    }
}

/// The statistics file of `date`: `<data_dir>/stats/<date>.json`.
pub fn stats_path(data_dir: &str, date: &str) -> (r: String)
    ensures
        r@ == path_join(path_join(data_dir@, "stats"@), date@ + ".json"@),
{
    let dir = join_path(data_dir, "stats");
    let mut f = chars_of(date);
    let ext = chars_of(".json");
    append_chars(&mut f, &ext);
    let name = string_of(&f);
    join_path(dir.as_str(), name.as_str())
}

/// Records one key press reported by the key-tap helper (special keys named
/// by their symbols) on the day `today` in hour `hour`; statistics of an
/// earlier day are handed back to be saved.  While deaf mode is on nothing
/// is recorded: the statistics stay exactly as they are.
pub fn record_key(stats: &mut DailyStats, key_name: &str, today: &str, hour: u32, deaf: bool) -> (rolled: Option<DailyStats>)
    requires
        !deaf && old(stats).date@ == today@ ==> has_room(old(stats)),
    ensures
        deaf ==> rolled is None && *final(stats) == *old(stats),
        !deaf && old(stats).date@ == today@ ==> rolled is None && final(stats)@ == after_key(old(stats)@, key_name@, hour as int, KeyNaming::Symbols),
        !deaf && old(stats).date@ != today@ ==> rolled == Some(*old(stats)) && final(stats)@ == after_key(fresh_view(today@), key_name@, hour as int, KeyNaming::Symbols),
        distinct_keys(old(stats)@.chars) ==> distinct_keys(final(stats)@.chars),
        !deaf ==> final(stats)@ == recorded(old(stats)@, today@, key_name@, hour as int, KeyNaming::Symbols),
{
    if deaf {
        return None;
    }
    record_key_named(stats, key_name, today, hour, KeyNaming::Symbols)
}

} // verus!

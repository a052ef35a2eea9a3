//! Settings that the library reads, their defaults, and file locations.

use vstd::prelude::*;

use crate::text::{append_chars, chars_of, string_of};

verus! {

/// Keystroke capture settings.
#[derive(Debug)]
pub struct KeystrokeConfig {
    pub enabled: bool,
    pub deaf_mode: bool,
    pub deaf_mode_shortcut: String,
}

/// When pulls happen.
#[derive(Debug)]
pub struct PullTriggerConfig {
    pub mode: String,
    pub scheduled_time: String,
}

/// Keystroke volumes at which each rarer tier gets half of its boost.
#[derive(Debug, Clone, Copy, PartialEq, Eq, Structural)]
pub struct RarityThresholds {
    pub uncommon: u64,
    pub rare: u64,
    pub epic: u64,
    pub legendary: u64,
}

/// Width of the ASCII rendering.
#[derive(Debug, Clone, Copy, PartialEq, Eq, Structural)]
pub struct AsciiConfig {
    pub columns: u32,
}

impl Default for KeystrokeConfig {
    /// Capture on, deaf mode off, toggled with Cmd+Shift+D.
    fn default() -> (r: Self)
        ensures
            r.enabled,
            !r.deaf_mode,
            r.deaf_mode_shortcut@ == "Cmd+Shift+D"@,
    {
        KeystrokeConfig { enabled: true, deaf_mode: false, deaf_mode_shortcut: "Cmd+Shift+D".to_owned() }
    }
}

impl Default for PullTriggerConfig {
    /// Manual pulls, scheduled time 18:00.
    fn default() -> (r: Self)
        ensures
            r.mode@ == "manual"@,
            r.scheduled_time@ == "18:00"@,
    {
        PullTriggerConfig { mode: "manual".to_owned(), scheduled_time: "18:00".to_owned() }
    }
}

impl Default for RarityThresholds {
    /// 10k / 30k / 60k / 100k keystrokes.
    fn default() -> (r: Self)
        ensures
            r == (RarityThresholds { uncommon: 10_000, rare: 30_000, epic: 60_000, legendary: 100_000 }),
    {
        RarityThresholds { uncommon: 10_000, rare: 30_000, epic: 60_000, legendary: 100_000 }
    }
}

impl Default for AsciiConfig {
    /// 100 columns.
    fn default() -> (r: Self)
        ensures
            r.columns == 100,
    {
        AsciiConfig { columns: 100 }
    }
}

/// `base` joined with `rel` as a Unix path: an absolute `rel` replaces
/// `base`; otherwise a `/` goes between them unless `base` is empty or
/// already ends with one.
pub open spec fn path_join(base: Seq<char>, rel: Seq<char>) -> Seq<char> {
    if rel.len() > 0 && rel[0] == '/' {
        rel
    } else if base.len() == 0 || base.last() == '/' {
        base + rel
    } else {
        base + seq!['/'] + rel
    }
}

/// Joins two path texts.
pub fn join_path(base: &str, rel: &str) -> (r: String)
    ensures
        r@ == path_join(base@, rel@),
{
    let b = chars_of(base);
    let r = chars_of(rel);
    if r.len() > 0 && r[0] == '/' {
        return string_of(&r);
    }
    let mut out = b;
    if out.len() > 0 && out[out.len() - 1] != '/' {
        out.push('/');
    }
    append_chars(&mut out, &r);
    assert(b@.len() > 0 ==> b@.last() == b@[b@.len() - 1]);
    string_of(&out)
}

/// The settings file inside the data directory.
pub fn config_path(data_dir: &str) -> (r: String)
    ensures
        r@ == path_join(data_dir@, "config.json"@),
{
    join_path(data_dir, "config.json")
}

} // verus!

//! The question put to the language model, and the environment it runs in.

use vstd::prelude::*;

use crate::gacha::{label_of, Rarity};
use crate::text::{append_chars, chars_of, copy_chars, join, slice_from, string_of, texts};

verus! {

/// The model's answer: a character, a scene, a GIF search query and a reading.
#[derive(Debug)]
pub struct CharacterSelection {
    pub character: String,
    pub scene: String,
    pub search_query: String,
    pub rarity: String,
    pub flavor_text: String,
}

/// The texts of a vector of strings.
pub open spec fn string_texts(v: Seq<String>) -> Seq<Seq<char>> {
    Seq::new(v.len(), |i: int| v[i]@)
}

/// The recent pulls as the prompt lists them: joined by ", ", or
/// "None yet." when there are none.
pub open spec fn recent_text(recent: Seq<Seq<char>>) -> Seq<char> {
    if recent.len() == 0 {
        "None yet."@
    } else {
        join(recent, ", "@)
    }
}

/// The prompt for one character pick.
pub open spec fn prompt_text(anime_title: Seq<char>, rarity: Seq<char>, stats_json: Seq<char>, recent: Seq<char>) -> Seq<char> {
    "You are the Dagashi oracle — an anime gacha fortune teller.\n\nANIME: "@ + anime_title + "\nRARITY TIER: "@ + rarity + " (more popular anime = rarer pull)\n\nBased on these keystroke stats, pick a CHARACTER from "@ + anime_title + " and a specific SCENE or POSE.\n\nKEYSTROKE STATS:\n"@ + stats_json + "\n\nRECENT PULLS (avoid repeating): "@ + recent + "\n\nRules:\n- Pick a well-known character from this specific anime\n- The scene should be iconic or funny — something fans would recognize\n- The search_query MUST start with the character's full name and the anime title, then add 1-2 descriptive words for the scene/mood — e.g. \"kaguya shinomiya kaguya-sama love is war smug\" or \"gintoki sakata gintama lazy eating\". Do NOT add generic words like \"gif\", \"anime\", \"scene\", \"moment\", or \"iconic\".\n- The flavor_text should be a fun 1-2 sentence \"reading\" connecting the user's typing personality to the character\n- Keep it playful and surprising"@
}

/// Build the prompt asking for a character of `anime_title` for the typing
/// statistics `stats_json` (the day's statistics as JSON), naming the tier
/// and the recent pulls to avoid.
pub fn build_prompt(stats_json: &str, rarity: &Rarity, anime_title: &str, recent_pulls: &Vec<String>) -> (r: String)
    ensures
        r@ == prompt_text(anime_title@, label_of(*rarity), stats_json@, recent_text(string_texts(recent_pulls@))),
{
    let recent = recent_list(recent_pulls);
    let title = chars_of(anime_title);
    let mut p = chars_of("You are the Dagashi oracle — an anime gacha fortune teller.\n\nANIME: ");
    append_chars(&mut p, &title);
    append_chars(&mut p, &chars_of("\nRARITY TIER: "));
    append_chars(&mut p, &chars_of(rarity.label()));
    append_chars(&mut p, &chars_of(" (more popular anime = rarer pull)\n\nBased on these keystroke stats, pick a CHARACTER from "));
    append_chars(&mut p, &title);
    append_chars(&mut p, &chars_of(" and a specific SCENE or POSE.\n\nKEYSTROKE STATS:\n"));
    append_chars(&mut p, &chars_of(stats_json));
    append_chars(&mut p, &chars_of("\n\nRECENT PULLS (avoid repeating): "));
    append_chars(&mut p, &recent);
    append_chars(&mut p, &chars_of("\n\nRules:\n- Pick a well-known character from this specific anime\n- The scene should be iconic or funny — something fans would recognize\n- The search_query MUST start with the character's full name and the anime title, then add 1-2 descriptive words for the scene/mood — e.g. \"kaguya shinomiya kaguya-sama love is war smug\" or \"gintoki sakata gintama lazy eating\". Do NOT add generic words like \"gif\", \"anime\", \"scene\", \"moment\", or \"iconic\".\n- The flavor_text should be a fun 1-2 sentence \"reading\" connecting the user's typing personality to the character\n- Keep it playful and surprising"));
    string_of(&p)
}

/// The recent pulls as the prompt lists them.
fn recent_list(recent_pulls: &Vec<String>) -> (r: Vec<char>)
    ensures
        r@ == recent_text(string_texts(recent_pulls@)),
{
    if recent_pulls.len() == 0 {
        return chars_of("None yet.");
    }
    let sep = chars_of(", ");
    let mut r: Vec<char> = Vec::new();
    let mut i: usize = 0;
    while i < recent_pulls.len()
        invariant
            i <= recent_pulls.len(),
            sep@ == ", "@,
            r@ == join(string_texts(recent_pulls@).take(i as int), ", "@),
        decreases recent_pulls.len() - i,
    {
        assert(string_texts(recent_pulls@).take(i + 1).drop_last() =~= string_texts(recent_pulls@).take(i as int));
        if i > 0 {
            append_chars(&mut r, &sep);
        }
        append_chars(&mut r, &chars_of(recent_pulls[i].as_str()));
        i = i + 1;
    }
    assert(string_texts(recent_pulls@).take(recent_pulls.len() as int) =~= string_texts(recent_pulls@));
    r
}

/// `s` begins with `p`.
pub open spec fn starts_with(s: Seq<char>, p: Seq<char>) -> bool {
    p.len() <= s.len() && s.take(p.len() as int) == p
}

/// Variables passed on to the model's process: names starting with
/// `CLAUDE_`, `AWS_` or `ANTHROPIC_`.
pub open spec fn forwarded_key(k: Seq<char>) -> bool {
    starts_with(k, "CLAUDE_"@) || starts_with(k, "AWS_"@) || starts_with(k, "ANTHROPIC_"@)
}

fn has_prefix(s: &Vec<char>, p: &str) -> (r: bool)
    ensures
        r == starts_with(s@, p@),
{
    let pv = chars_of(p);
    if pv.len() > s.len() {
        return false;
    }
    let mut i: usize = 0;
    while i < pv.len()
        invariant
            pv@ == p@,
            pv.len() <= s.len(),
            i <= pv.len(),
            forall|k: int| 0 <= k < i ==> s@[k] == pv@[k],
        decreases pv.len() - i,
    {
        if s[i] != pv[i] {
            assert(s@.take(pv.len() as int)[i as int] != pv@[i as int]);
            return false;
        }
        i = i + 1;
    }
    assert(s@.take(pv.len() as int) =~= pv@);
    true
}

/// Whether an environment variable is passed on to the model's process.
pub fn is_forwarded_key(k: &str) -> (r: bool)
    ensures
        r == forwarded_key(k@),
{
    let kv = chars_of(k);
    has_prefix(&kv, "CLAUDE_") || has_prefix(&kv, "AWS_") || has_prefix(&kv, "ANTHROPIC_")
}

/// The texts of (name, value) pairs.
pub open spec fn pair_texts(v: Seq<(String, String)>) -> Seq<(Seq<char>, Seq<char>)> {
    Seq::new(v.len(), |i: int| (v[i].0@, v[i].1@))
}

/// The pairs whose name is forwarded, in order.
pub open spec fn forwarded_pairs(v: Seq<(Seq<char>, Seq<char>)>) -> Seq<(Seq<char>, Seq<char>)>
    decreases v.len(),
{
    if v.len() == 0 {
        seq![]
    } else if forwarded_key(v.last().0) {
        forwarded_pairs(v.drop_last()).push(v.last())
    } else {
        forwarded_pairs(v.drop_last())
    }
}

/// The environment variables to pass on, in order.
pub fn forwarded_env(vars: Vec<(String, String)>) -> (r: Vec<(String, String)>)
    ensures
        pair_texts(r@) == forwarded_pairs(pair_texts(vars@)),
{
    let mut r: Vec<(String, String)> = Vec::new();
    let mut i: usize = 0;
    while i < vars.len()
        invariant
            i <= vars.len(),
            pair_texts(r@) == forwarded_pairs(pair_texts(vars@).take(i as int)),
        decreases vars.len() - i,
    {
        assert(pair_texts(vars@).take(i + 1).drop_last() =~= pair_texts(vars@).take(i as int));
        if is_forwarded_key(vars[i].0.as_str()) {
            let ghost before = pair_texts(r@);
            r.push((vars[i].0.clone(), vars[i].1.clone()));
            assert(pair_texts(r@) =~= before.push(pair_texts(vars@)[i as int]));
        }
        i = i + 1;
    }
    assert(pair_texts(vars@).take(vars.len() as int) =~= pair_texts(vars@));
    r
}

/// A line without its `\r` ending, if it has one.
pub open spec fn strip_cr(l: Seq<char>) -> Seq<char> {
    if l.len() > 0 && l.last() == '\r' {
        l.drop_last()
    } else {
        l
    }
}

/// Lines of a prefix of a text: the finished lines and the line being read.
pub open spec fn scan_lines(s: Seq<char>) -> (Seq<Seq<char>>, Seq<char>)
    decreases s.len(),
{
    if s.len() == 0 {
        (seq![], seq![])
    } else {
        let (done, cur) = scan_lines(s.drop_last());
        if s.last() == '\n' {
            (done.push(strip_cr(cur)), seq![])
        } else {
            (done, cur.push(s.last()))
        }
    }
}

/// The lines of a text as `str::lines` gives them: split after each `\n`,
/// without the `\n` and a `\r` just before it; a last line without `\n`
/// is kept unless empty.
pub open spec fn lines_of(s: Seq<char>) -> Seq<Seq<char>> {
    let (done, cur) = scan_lines(s);
    if cur.len() > 0 {
        done.push(cur)
    } else {
        done
    }
}

/// A line `name=value` split at its first `=`; none without `=`.
pub open spec fn split_assignment(l: Seq<char>) -> Option<(Seq<char>, Seq<char>)> {
    if exists|i: int| 0 <= i < l.len() && l[i] == '=' {
        let i = choose|i: int| 0 <= i < l.len() && l[i] == '=' && forall|j: int| 0 <= j < i ==> l[j] != '=';
        Some((l.take(i), l.skip(i + 1)))
    } else {
        None
    }
}

/// The forwarded variables of `env` output, in order.
pub open spec fn shell_env_pairs(ls: Seq<Seq<char>>) -> Seq<(Seq<char>, Seq<char>)>
    decreases ls.len(),
{
    if ls.len() == 0 {
        seq![]
    } else {
        let p = shell_env_pairs(ls.drop_last());
        match split_assignment(ls.last()) {
            Some(kv) => if forwarded_key(kv.0) { p.push(kv) } else { p },
            None => p,
        }
    }
}

/// The lines of a text.
fn lines(s: &Vec<char>) -> (r: Vec<Vec<char>>)
    ensures
        texts(r@) == lines_of(s@),
{
    let mut done: Vec<Vec<char>> = Vec::new();
    let mut cur: Vec<char> = Vec::new();
    let mut i: usize = 0;
    while i < s.len()
        invariant
            i <= s.len(),
            (texts(done@), cur@) == scan_lines(s@.take(i as int)),
        decreases s.len() - i,
    {
        assert(s@.take(i + 1).drop_last() == s@.take(i as int));
        let c = s[i];
        if c == '\n' {
            let ghost prev = texts(done@);
            let ghost cv = cur@;
            let mut line = cur;
            if line.len() > 0 && line[line.len() - 1] == '\r' {
                line.pop();
                assert(line@ =~= cv.drop_last());
            }
            assert(line@ == strip_cr(cv));
            done.push(line);
            cur = Vec::new();
            assert(texts(done@) =~= prev.push(strip_cr(cv)));
        } else {
            cur.push(c);
        }
        i = i + 1;
    }
    assert(s@.take(s.len() as int) == s@);
    if cur.len() > 0 {
        let ghost prev = texts(done@);
        let ghost cv = cur@;
        done.push(cur);
        assert(texts(done@) =~= prev.push(cv));
    }
    done
}

/// `name=value` split at the first `=`.
fn split_once_eq(l: &Vec<char>) -> (r: Option<(Vec<char>, Vec<char>)>)
    ensures
        match r {
            Some(kv) => split_assignment(l@) == Some((kv.0@, kv.1@)),
            None => split_assignment(l@) is None,
        },
{
    let mut i: usize = 0;
    while i < l.len()
        invariant
            i <= l.len(),
            forall|j: int| 0 <= j < i ==> l@[j] != '=',
        decreases l.len() - i,
    {
        if l[i] == '=' {
            let mut k: Vec<char> = Vec::new();
            let mut j: usize = 0;
            while j < i
                invariant
                    j <= i < l.len(),
                    k@ == l@.take(j as int),
                decreases i - j,
            {
                k.push(l[j]);
                j = j + 1;
                assert(k@ =~= l@.take(j as int));
            }
            let v = slice_from(l, i + 1);
            return Some((k, v));
        }
        i = i + 1;
    }
    None
}

/// The forwarded variables found in the output of a login shell's `env`.
pub fn env_from_shell_output(stdout: &str) -> (r: Vec<(String, String)>)
    ensures
        pair_texts(r@) == shell_env_pairs(lines_of(stdout@)),
{
    let ls = lines(&chars_of(stdout));
    let mut r: Vec<(String, String)> = Vec::new();
    let mut i: usize = 0;
    while i < ls.len()
        invariant
            i <= ls.len(),
            texts(ls@) == lines_of(stdout@),
            pair_texts(r@) == shell_env_pairs(texts(ls@).take(i as int)),
        decreases ls.len() - i,
    {
        assert(texts(ls@).take(i + 1).drop_last() =~= texts(ls@).take(i as int));
        assert(texts(ls@).take(i + 1).last() == ls@[i as int]@);
        match split_once_eq(&ls[i]) {
            Some(kv) => {
                let k = string_of(&kv.0);
                if is_forwarded_key(k.as_str()) {
                    let ghost before = pair_texts(r@);
                    let v = string_of(&kv.1);
                    r.push((k, v));
                    assert(pair_texts(r@) =~= before.push((kv.0@, kv.1@)));
                }
            },
            None => {},
        }
        i = i + 1;
    }
    assert(texts(ls@).take(ls.len() as int) =~= texts(ls@));
    r
}

} // verus!

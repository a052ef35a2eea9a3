use dagashi::anime_db::{cache_fresh, AnimeDb, AnimeEntry};
use dagashi::gacha::{hourly_activity, Rarity};
use dagashi::image_pipeline::{AsciiFrame, PipelineResult};
use dagashi::llm::CharacterSelection;
use dagashi::pull::{pull_key, pull_meta, PullAction, PullFound, PullSearch};

fn db() -> AnimeDb {
    AnimeDb {
        anime: vec![
            AnimeEntry { mal_id: 1, title: "Top".to_string(), members: 9, popularity_rank: 1 },
            AnimeEntry { mal_id: 2, title: "Mid".to_string(), members: 5, popularity_rank: 150 },
            AnimeEntry { mal_id: 3, title: "Low".to_string(), members: 1, popularity_rank: 700 },
        ],
        fetched_at: "2026-04-01".to_string(),
    }
}

fn selection(name: &str) -> CharacterSelection {
    CharacterSelection {
        character: name.to_string(),
        scene: "scene".to_string(),
        search_query: "q".to_string(),
        rarity: "rare".to_string(),
        flavor_text: "f".to_string(),
    }
}

fn frames(n: usize) -> PipelineResult {
    let mut p = PipelineResult::default();
    for _ in 0..n {
        p.frames.push(AsciiFrame { pixels: vec![] });
    }
    p.source = "klipy".to_string();
    p.source_url = "https://x/y.gif".to_string();
    p
}

#[test]
fn animated_result_ends_the_pull() {
    let d = db();
    let mut s = PullSearch::new();
    match s.next_action(&d, &Rarity::Rare, 100) {
        PullAction::AskModel { anime_index, total, cool_down } => {
            assert_eq!(anime_index, 1);
            assert_eq!(total, 100);
            assert!(!cool_down);
        }
        PullAction::Finished(_) => panic!("expected a question"),
    }
    s.frames_fetched(selection("A"), Ok(frames(5)), 1);
    match s.next_action(&d, &Rarity::Rare, 100) {
        PullAction::Finished(Ok(f)) => {
            assert_eq!(f.selection.character, "A");
            assert_eq!(f.anime_index, 1);
            assert_eq!(f.pipeline.frames.len(), 5);
        }
        _ => panic!("expected the animated result"),
    }
}

#[test]
fn four_questions_at_most_and_still_image_kept() {
    let d = db();
    let mut s = PullSearch::new();
    let mut asked = vec![];
    loop {
        match s.next_action(&d, &Rarity::Legendary, u64::MAX) {
            PullAction::AskModel { anime_index, total, cool_down } => {
                asked.push((anime_index, total, cool_down));
                match asked.len() {
                    1 => s.model_failed("no answer".to_string()),
                    2 => s.frames_fetched(selection("Still"), Ok(frames(1)), anime_index),
                    3 => s.frames_fetched(selection("Other still"), Ok(frames(1)), anime_index),
                    _ => s.frames_fetched(selection("Broken"), Err("no images found from any source".to_string()), anime_index),
                }
            }
            PullAction::Finished(r) => {
                let f = r.expect("still image kept");
                assert_eq!(f.selection.character, "Still");
                break;
            }
        }
    }
    // Seeds wrap: u64::MAX + 7 picks the single legendary anime again.
    assert_eq!(asked, vec![(0, u64::MAX, false), (0, 12, true), (0, u64::MAX, true), (0, 12, true)]);
}

#[test]
fn nothing_found_reports_last_error() {
    let empty = AnimeDb { anime: vec![], fetched_at: String::new() };
    let mut s = PullSearch::new();
    match s.next_action(&empty, &Rarity::Common, 0) {
        PullAction::Finished(Err(e)) => assert_eq!(e, "no pulls succeeded"),
        _ => panic!("expected failure"),
    }
    let d = db();
    let mut t = PullSearch::new();
    for _ in 0..4 {
        match t.next_action(&d, &Rarity::Epic, 3) {
            PullAction::AskModel { anime_index, .. } => {
                assert_eq!(anime_index, 2);
                t.frames_fetched(selection("x"), Err("boom".to_string()), anime_index);
            }
            PullAction::Finished(_) => panic!("expected four questions"),
        }
    }
    match t.next_action(&d, &Rarity::Epic, 3) {
        PullAction::Finished(Err(e)) => assert_eq!(e, "boom"),
        _ => panic!("expected failure"),
    }
}

#[test]
fn pull_record() {
    assert_eq!(pull_key("2026-04-10", 9, 5), "2026-04-10-0905");
    assert_eq!(pull_key("2026-04-10", 18, 30), "2026-04-10-1830");
    assert_eq!(pull_key("d", 123, 0), "d-12300");
    let d = db();
    let mut p = frames(3);
    p.matched_query = String::new();
    let found = PullFound { selection: selection("Gintoki"), pipeline: p, anime_index: 1 };
    let m = pull_meta("2026-04-10", 7, 45, &found, &d.anime[1], &Rarity::Rare, true);
    assert_eq!(m.date, "2026-04-10-0745");
    assert_eq!(m.character, "Gintoki");
    assert_eq!(m.rarity, "rare");
    assert_eq!(m.color_mode, "color");
    assert_eq!(m.frame_count, 3);
    assert_eq!(m.anime_title, "Mid");
    assert_eq!(m.anime_rank, 150);
    assert_eq!(m.source_url, Some("https://x/y.gif".to_string()));
    assert_eq!(m.search_query, None);
    let m2 = pull_meta("d", 0, 0, &found, &d.anime[1], &Rarity::Rare, false);
    assert_eq!(m2.color_mode, "mono");
}

#[test]
fn cache_freshness() {
    assert!(cache_fresh("2026-04-01", "2026-04-14"));
    assert!(!cache_fresh("2026-04-01", "2026-04-15"));
    assert!(cache_fresh("2026-02-28", "2026-03-13"));
    assert!(!cache_fresh("yesterday", "2026-04-14"));
    assert!(!cache_fresh("2026-04-01", ""));
    assert!(cache_fresh("2026-04-20", "2026-04-14"));
}

#[test]
fn hourly_summary() {
    let mut h = vec![0u64; 24];
    h[10] = 30_000;
    h[14] = 20_000;
    h[16] = 15_000;
    assert_eq!(hourly_activity(&h), (3, 65_000, 30_000));
    assert_eq!(hourly_activity(&vec![]), (0, 0, 0));
}

#[test]
fn frameless_result_is_a_failure() {
    let d = db();
    let mut s = PullSearch::new();
    loop {
        match s.next_action(&d, &Rarity::Rare, 7) {
            PullAction::AskModel { anime_index, .. } => s.frames_fetched(selection("Empty"), Ok(frames(0)), anime_index),
            PullAction::Finished(r) => {
                assert_eq!(r.err().as_deref(), Some("no frames found"));
                break;
            }
        }
    }
}

use dagashi::storage::{
    add_pull, pull_file, pulls_dir, recent_pull_names, tallies_have_room, used_urls, validate_date, Collection, PullMeta,
};

fn meta(character: &str, scene: &str, url: Option<&str>) -> PullMeta {
    PullMeta {
        date: "2026-04-10-1200".to_string(),
        character: character.to_string(),
        scene: scene.to_string(),
        rarity: "rare".to_string(),
        flavor_text: String::new(),
        source: "klipy".to_string(),
        color_mode: "mono".to_string(),
        frame_count: 3,
        anime_title: "Gintama".to_string(),
        anime_rank: 120,
        source_url: url.map(|u| u.to_string()),
        search_query: None,
    }
}

#[test]
fn recent_names_newest_first() {
    let mut c = Collection::default();
    add_pull(&mut c, meta("Gintoki", "eating", None));
    add_pull(&mut c, meta("Kagura", "sleeping", None));
    add_pull(&mut c, meta("Shinpachi", "glasses", None));
    assert_eq!(recent_pull_names(&c, 2), vec!["Shinpachi - glasses".to_string(), "Kagura - sleeping".to_string()]);
    assert_eq!(recent_pull_names(&c, 10).len(), 3);
    assert!(recent_pull_names(&c, 0).is_empty());
}

#[test]
fn character_counts_follow_pulls() {
    let mut c = Collection::default();
    add_pull(&mut c, meta("Gintoki", "a", Some("u1")));
    add_pull(&mut c, meta("Kagura", "b", None));
    add_pull(&mut c, meta("Gintoki", "c", Some("u2")));
    assert_eq!(c.pulls.len(), 3);
    assert_eq!(c.unique_characters, vec![("Gintoki".to_string(), 2), ("Kagura".to_string(), 1)]);
    assert_eq!(used_urls(&c), vec!["u1".to_string(), "u2".to_string()]);
    assert!(tallies_have_room(&c));
    c.unique_characters[1].1 = u32::MAX;
    assert!(!tallies_have_room(&c));
}

#[test]
fn date_validation() {
    assert_eq!(validate_date("2026-04-10-1200"), Ok(()));
    assert_eq!(validate_date(""), Ok(()));
    assert_eq!(validate_date("a/b"), Err("invalid date".to_string()));
    assert_eq!(validate_date("a\\b"), Err("invalid date".to_string()));
    assert_eq!(validate_date(".."), Err("invalid date".to_string()));
    assert_eq!(validate_date("2026.04.10"), Ok(()));
}

#[test]
fn pull_paths() {
    assert_eq!(pulls_dir("/h/.dagashi"), "/h/.dagashi/pulls");
    assert_eq!(pull_file("/h/.dagashi", "2026-04-10-1200", "frames.json"), "/h/.dagashi/pulls/2026-04-10-1200/frames.json");
}

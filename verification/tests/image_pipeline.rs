use dagashi::image_pipeline::{build_queries, clean_anime_title, is_relevant, sample_frame_indices};

#[test]
fn relevance_filter() {
    // Character first name in title
    assert!(is_relevant("Gintoki Gintama: Intense Gaze", "Gintoki Sakata", "Gintama"));
    // Character first name in title (different position)
    assert!(is_relevant("Lucky Star Tsukasa cooking", "Tsukasa Hiiragi", "Lucky Star"));
    // Wrong character from same anime — must reject
    assert!(!is_relevant("Pandora's Actor Overlord pose", "Albedo", "Overlord III"));
    // Anime title match but no character name — must reject
    assert!(!is_relevant("Overlord epic scene", "Albedo", "Overlord III"));
    // Completely unrelated
    assert!(!is_relevant("Nishikata's Anime Blush", "Ichiro", "Inuyashiki"));
    // Empty title = no filtering
    assert!(is_relevant("", "Anyone", "Anything"));
}

#[test]
fn relevance_full_name_needs_no_anime() {
    assert!(is_relevant("sakata GINTOKI waves", "Gintoki Sakata", "Something Else"));
    assert!(!is_relevant("Gintoki waves", "Gintoki Sakata", "Other Show"));
}

#[test]
fn clean_title_strips_season() {
    assert_eq!(clean_anime_title("Overlord III"), "Overlord");
    assert_eq!(clean_anime_title("Shingeki no Kyojin Season 2"), "Shingeki no Kyojin");
    assert_eq!(clean_anime_title("Kaguya-sama wa Kokurasetai"), "Kaguya-sama wa Kokurasetai");
    assert_eq!(clean_anime_title("Fairy Tail 2014"), "Fairy Tail");
    assert_eq!(clean_anime_title("Bleach: Sennen Kessen-hen Part 2"), "Bleach: Sennen Kessen-hen");
}

#[test]
fn clean_title_noise_words_ignore_case_and_collapse_spaces() {
    assert_eq!(clean_anime_title("  Mob   Psycho 100  season  "), "Mob Psycho");
    assert_eq!(clean_anime_title("Attack on Titan FINAL"), "Attack on Titan");
    assert_eq!(clean_anime_title("iii"), "iii");
    assert_eq!(clean_anime_title(""), "");
}

#[test]
fn queries_in_order_without_duplicates() {
    let q = build_queries(
        "Gintoki Sakata Gintama lazy eating",
        "Gintoki Sakata",
        "Gintama Season 2",
        "Lying on the couch eating",
    );
    assert_eq!(
        q,
        vec![
            "Gintoki Sakata lazy eating".to_string(),
            "Gintoki Sakata Lying couch".to_string(),
            "Gintoki Sakata".to_string(),
            "Gintoki Sakata Gintama".to_string(),
        ]
    );
}

#[test]
fn queries_drop_lowercase_duplicates() {
    // The query carries nothing beyond the name and title, the scene has no
    // long word: only the bare name and the name with the title remain.
    let q = build_queries("gintoki sakata gintama", "Gintoki Sakata", "Gintama", "a b");
    assert_eq!(q, vec!["Gintoki Sakata".to_string(), "Gintoki Sakata Gintama".to_string()]);
}

#[test]
fn frame_sampling() {
    assert_eq!(sample_frame_indices(0), Vec::<usize>::new());
    assert_eq!(sample_frame_indices(3), vec![0, 1, 2]);
    assert_eq!(sample_frame_indices(40), (0..40).collect::<Vec<_>>());
    // 81 frames: step 2, first 40 even indices.
    assert_eq!(sample_frame_indices(81), (0..40).map(|i| i * 2).collect::<Vec<_>>());
    // 200 frames: step 5.
    assert_eq!(sample_frame_indices(200), (0..40).map(|i| i * 5).collect::<Vec<_>>());
    // 59 frames: step 1, capped at 40.
    assert_eq!(sample_frame_indices(59), (0..40).collect::<Vec<_>>());
}

#[test]
fn cleaning_twice_changes_nothing() {
    for t in ["Attack on Titan Season 3 Part 2", "  Gintama°  2nd  Season ", "Mob Psycho 100 III", "OVA", ""] {
        let once = clean_anime_title(t);
        assert_eq!(clean_anime_title(&once), once);
    }
}

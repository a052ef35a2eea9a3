use dagashi::config::{config_path, join_path, AsciiConfig, KeystrokeConfig, PullTriggerConfig, RarityThresholds};

#[test]
fn defaults() {
    let k = KeystrokeConfig::default();
    assert!(k.enabled);
    assert!(!k.deaf_mode);
    assert_eq!(k.deaf_mode_shortcut, "Cmd+Shift+D");
    let p = PullTriggerConfig::default();
    assert_eq!(p.mode, "manual");
    assert_eq!(p.scheduled_time, "18:00");
    assert_eq!(
        RarityThresholds::default(),
        RarityThresholds { uncommon: 10_000, rare: 30_000, epic: 60_000, legendary: 100_000 }
    );
    assert_eq!(AsciiConfig::default().columns, 100);
}

#[test]
fn paths() {
    assert_eq!(config_path("/home/u/.dagashi"), "/home/u/.dagashi/config.json");
    assert_eq!(join_path("", "a"), "a");
    assert_eq!(join_path("/x/", "a"), "/x/a");
    assert_eq!(join_path("/x", "/abs"), "/abs");
}

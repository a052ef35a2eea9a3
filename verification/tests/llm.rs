use dagashi::gacha::Rarity;
use dagashi::llm::{build_prompt, env_from_shell_output, forwarded_env, is_forwarded_key};

#[test]
fn prompt_holds_title_tier_stats_and_recent() {
    let p = build_prompt("{\"total\":5}", &Rarity::Epic, "Gintama", &vec!["Gintoki - lazy".to_string(), "Kagura - eating".to_string()]);
    assert!(p.starts_with("You are the Dagashi oracle — an anime gacha fortune teller.\n\nANIME: Gintama\nRARITY TIER: epic (more popular anime = rarer pull)\n\nBased on these keystroke stats, pick a CHARACTER from Gintama and a specific SCENE or POSE.\n\nKEYSTROKE STATS:\n{\"total\":5}\n\nRECENT PULLS (avoid repeating): Gintoki - lazy, Kagura - eating\n\nRules:\n"));
    assert!(p.ends_with("- Keep it playful and surprising"));
}

#[test]
fn prompt_without_recent_pulls() {
    let p = build_prompt("{}", &Rarity::Common, "Monster", &vec![]);
    assert!(p.contains("RECENT PULLS (avoid repeating): None yet.\n"));
    assert!(p.contains("RARITY TIER: common "));
}

#[test]
fn forwarded_variables() {
    assert!(is_forwarded_key("CLAUDE_CODE_USE_BEDROCK"));
    assert!(is_forwarded_key("AWS_REGION"));
    assert!(is_forwarded_key("ANTHROPIC_API_KEY"));
    assert!(!is_forwarded_key("PATH"));
    assert!(!is_forwarded_key("AWS"));
    let vars = vec![
        ("PATH".to_string(), "/bin".to_string()),
        ("AWS_PROFILE".to_string(), "dev".to_string()),
        ("HOME".to_string(), "/h".to_string()),
        ("ANTHROPIC_MODEL".to_string(), "m".to_string()),
    ];
    assert_eq!(
        forwarded_env(vars),
        vec![("AWS_PROFILE".to_string(), "dev".to_string()), ("ANTHROPIC_MODEL".to_string(), "m".to_string())]
    );
}

#[test]
fn shell_env_output() {
    let out = "PATH=/bin\nAWS_REGION=us-east-1\r\nAWS_X=a=b\nANTHROPIC_NOEQ\nCLAUDE_Y=\n";
    assert_eq!(
        env_from_shell_output(out),
        vec![
            ("AWS_REGION".to_string(), "us-east-1".to_string()),
            ("AWS_X".to_string(), "a=b".to_string()),
            ("CLAUDE_Y".to_string(), String::new()),
        ]
    );
    assert!(env_from_shell_output("").is_empty());
    assert_eq!(env_from_shell_output("AWS_A=1"), vec![("AWS_A".to_string(), "1".to_string())]);
}

use sovereign_kernel::security::{hash_password, login, verify_password, LoginOutcome, OWNER_PASSWORD};
use sovereign_kernel::skills::{github_repository_lines, least_rich_skill, SelfImproveEngine};

#[test]
fn engine_paths_and_prompts() {
    let e = SelfImproveEngine::new("skills");
    assert_eq!(e.skills_dir, "skills");
    assert_eq!(e.skill_path("forge"), "skills/forge.md");
    assert_eq!(
        e.improvement_prompt("forge", "old text"),
        "Skill: forge\nCurrent content (truncated):\nold text\n\nWrite an improved version of this skill file. Be concise, practical, add 2 example commands. Max 400 words."
    );
    let long = "z".repeat(500);
    assert!(e
        .improvement_prompt("f", &long)
        .contains(&format!("(truncated):\n{}\n\nWrite", "z".repeat(400))));
    assert_eq!(
        e.creation_prompt("scan", "Scans things."),
        "Create a skill file for 'scan'. Description: Scans things.\n\nFollow this format:\n---\nname: scan\ndescription: <2-3 sentences>\ntriggers: [<keywords that trigger this skill>]\n---\n# Skill Name\n## What It Does\n## When to Activate\n## Commands/Examples\n"
    );
}

#[test]
fn least_rich_skill_takes_earliest_shortest() {
    let cs = vec![
        ("a".to_string(), 30usize),
        ("b".to_string(), 10),
        ("c".to_string(), 10),
        ("d".to_string(), 40),
    ];
    assert_eq!(least_rich_skill(&cs), Some("b".to_string()));
    assert_eq!(least_rich_skill(&vec![]), None);
    assert_eq!(least_rich_skill(&vec![("only".to_string(), 0)]), Some("only".to_string()));
}

#[test]
fn repository_lines_mention_github() {
    let out = "owner/repo\thttps://github.com/owner/repo\tdesc\nnothing here\r\nsecond github.com/x\n";
    assert_eq!(
        github_repository_lines(out),
        vec!["owner/repo\thttps://github.com/owner/repo\tdesc".to_string(), "second github.com/x".to_string()]
    );
    assert!(github_repository_lines("").is_empty());
    assert_eq!(github_repository_lines("a github.com\r\n"), vec!["a github.com".to_string()]);
}

#[test]
fn password_check() {
    assert!(verify_password(OWNER_PASSWORD));
    assert!(verify_password("Annrice222$blad"));
    assert!(!verify_password("annrice222$blad"));
    assert!(!verify_password(""));
}

#[test]
fn password_hash_is_salted_sha256_hex() {
    assert_eq!(hash_password("x"), "28e06a2eda918783c0efddc4033659f0c706b8b8d168c5565ef3d43e341f9dff");
    assert_eq!(hash_password(""), "ce6a26f06915f200f6f025b65339b6b98154ebc35cab9d005bd23f211c148659");
    assert_eq!(hash_password("anything at all").len(), 64);
}

#[test]
fn login_grants_token_only_to_owner() {
    match login("Annrice222$blad", 1_700_000_000) {
        LoginOutcome::Granted { token } => {
            assert_eq!(token, "1f2b9d10dfe7946e0fef76622fe42ff37aeedabe56056a09b12fd5b63bec3e93")
        }
        LoginOutcome::Refused => panic!("owner refused"),
    }
    assert!(matches!(login("wrong", 1), LoginOutcome::Refused));
}

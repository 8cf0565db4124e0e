use issue_url::args::IssueArgs;
use issue_url::title::{join_description, resolve, trim};

#[test]
fn nonempty_candidate_is_trimmed() {
    let r = resolve("  Crash on save  ");
    assert_eq!(r, Some(String::from("Crash on save")));
}

#[test]
fn inner_whitespace_is_kept() {
    let r = resolve("\tCrash  on\nsave\r\n");
    assert_eq!(r, Some(String::from("Crash  on\nsave")));
}

#[test]
fn empty_candidate_needs_prompt() {
    assert_eq!(resolve(""), None);
}

#[test]
fn all_whitespace_candidate_needs_prompt() {
    assert_eq!(resolve("   \t\n\r  "), None);
}

#[test]
fn trim_of_all_whitespace_is_empty() {
    assert_eq!(trim(" \t\r\n "), "");
}

#[test]
fn unicode_whitespace_is_trimmed() {
    assert_eq!(resolve("a\u{a0}"), Some(String::from("a")));
    assert_eq!(
        resolve("\u{2028}\u{3000}Crash on save\u{85}\u{205f}"),
        Some(String::from("Crash on save"))
    );
    assert_eq!(trim("\u{1680}\u{2000}x\u{200a}\u{202f}"), "x");
}

#[test]
fn all_unicode_whitespace_needs_prompt() {
    assert_eq!(resolve("\u{a0}"), None);
    assert_eq!(resolve("\u{85}\u{1680}\u{2004}\u{2029}\u{3000}"), None);
}

#[test]
fn trimmed_set_matches_std_whitespace() {
    for c in (0u32..=0x3001).filter_map(char::from_u32) {
        let candidate: String = [c, 'x', c].iter().collect();
        let resolved = resolve(&candidate).unwrap();
        if c.is_whitespace() {
            assert_eq!(resolved, "x");
        } else {
            assert_eq!(resolved, candidate);
        }
    }
}

#[test]
fn tokens_join_with_single_spaces() {
    let parts = vec![
        String::from("Bug"),
        String::from("when"),
        String::from("saving"),
    ];
    assert_eq!(join_description(&parts), String::from("Bug when saving"));
}

#[test]
fn description_tokens_resolve_without_prompt() {
    let args = IssueArgs {
        force: false,
        description: vec![
            String::from("Bug"),
            String::from("when"),
            String::from("saving"),
        ],
    };
    assert_eq!(args.title_candidate(), String::from("Bug when saving"));
    assert_eq!(args.resolve_title(), Some(String::from("Bug when saving")));
}

#[test]
fn empty_description_needs_prompt() {
    let args = IssueArgs {
        force: true,
        description: Vec::new(),
    };
    assert_eq!(args.resolve_title(), None);
}

#[test]
fn whitespace_tokens_need_prompt() {
    let args = IssueArgs {
        force: false,
        description: vec![String::from(" "), String::from("\t")],
    };
    assert_eq!(args.resolve_title(), None);
}

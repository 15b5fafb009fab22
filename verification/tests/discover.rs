use legend::discover::{
    format_language_summary, hidden_name, infer_domain, lists_dir, skips_dir, source_root, source_root_rank,
    suggest_feature,
    title_case,
};
use legend::hooks::mentions_get_state;
use legend::text::{decimal, same_text};

fn title_by_parts(s: &str) -> String {
    s.split(|c: char| c == '_' || c == '-')
        .filter(|part| !part.is_empty())
        .map(|part| {
            let mut chars = part.chars();
            match chars.next() {
                None => String::new(),
                Some(first) => {
                    let upper: String = first.to_uppercase().collect();
                    upper + chars.as_str()
                }
            }
        })
        .collect::<Vec<_>>()
        .join(" ")
}

#[test]
fn infer_domain_goes_by_the_first_list_that_hits() {
    assert_eq!(infer_domain("auth"), "security");
    assert_eq!(infer_domain("UserLogin"), "security");
    assert_eq!(infer_domain("session_store"), "security");
    assert_eq!(infer_domain("api"), "api");
    assert_eq!(infer_domain("Routes"), "api");
    assert_eq!(infer_domain("endpoints"), "api");
    assert_eq!(infer_domain("db"), "storage");
    assert_eq!(infer_domain("storage"), "storage");
    assert_eq!(infer_domain("models"), "storage");
    assert_eq!(infer_domain("schema"), "storage");
    assert_eq!(infer_domain("ui"), "ui");
    assert_eq!(infer_domain("components"), "ui");
    assert_eq!(infer_domain("views"), "ui");
    assert_eq!(infer_domain("pages"), "ui");
    assert_eq!(infer_domain("tests"), "testing");
    assert_eq!(infer_domain("spec"), "testing");
    assert_eq!(infer_domain("auth_api_db"), "security");
    assert_eq!(infer_domain("api_tests"), "api");
    assert_eq!(infer_domain("build"), "ui");
}

#[test]
fn infer_domain_falls_back_to_the_lowercase_name() {
    assert_eq!(infer_domain("Commands"), "commands");
    assert_eq!(infer_domain("CORE"), "core");
    assert_eq!(infer_domain(""), "");
    assert_eq!(infer_domain("\u{00C9}t\u{00E9}"), "\u{00E9}t\u{00E9}");
}

#[test]
fn title_case_capitalizes_and_joins_the_words() {
    assert_eq!(title_case("hello_world"), "Hello World");
    assert_eq!(title_case("auth-login_page"), "Auth Login Page");
    assert_eq!(title_case("commands"), "Commands");
    assert_eq!(title_case("a-b_c"), "A B C");
    assert_eq!(title_case("__x__y--"), "X Y");
    assert_eq!(title_case(""), "");
    assert_eq!(title_case("_-_"), "");
    assert_eq!(title_case("already Title"), "Already Title");
    assert_eq!(title_case("mixedCASE_rest"), "MixedCASE Rest");
    assert_eq!(title_case("\u{00DF}eta_\u{00E9}cole"), "SSeta \u{00C9}cole");
}

#[test]
fn title_case_agrees_with_split_and_join() {
    for name in ["", "a", "_", "ab_cd", "-a--b-", "x_y-z", "\u{01C6}x_\u{FB01}", "1_2", "A_B", "a b_c d"] {
        assert_eq!(title_case(name), title_by_parts(name), "{:?}", name);
    }
}

fn languages(list: &[(&str, usize)]) -> Vec<(String, usize)> {
    list.iter().map(|(ext, count)| (ext.to_string(), *count)).collect()
}

#[test]
fn language_summary_names_the_five_largest() {
    assert_eq!(format_language_summary(&Vec::new()), "none detected");
    assert_eq!(format_language_summary(&languages(&[("rs", 12)])), "rs (12)");
    assert_eq!(
        format_language_summary(&languages(&[("md", 2), ("rs", 10), ("toml", 2)])),
        "rs (10), md (2), toml (2)"
    );
    assert_eq!(
        format_language_summary(&languages(&[
            ("a", 1), ("b", 7), ("c", 3), ("d", 7), ("e", 100), ("f", 0), ("g", 2)
        ])),
        "e (100), b (7), d (7), c (3), g (2)"
    );
}

#[test]
fn language_summary_agrees_with_sort_and_format() {
    let entries = languages(&[("rs", 40), ("toml", 3), ("md", 3), ("json", 1005), ("lock", 1), ("sh", 3), ("c", 0)]);
    let mut sorted: Vec<_> = entries.iter().collect();
    sorted.sort_by(|a, b| b.1.cmp(&a.1));
    let expected = sorted
        .iter()
        .take(5)
        .map(|(ext, count)| format!("{} ({})", ext, count))
        .collect::<Vec<_>>()
        .join(", ");
    assert_eq!(format_language_summary(&entries), expected);
}

#[test]
fn decimal_writes_numbers_as_the_standard_does() {
    for n in [0usize, 1, 9, 10, 11, 99, 100, 101, 12345, 1_000_000, usize::MAX] {
        assert_eq!(decimal(n), n.to_string());
    }
}

#[test]
fn same_text_compares_whole_texts() {
    assert!(same_text("", ""));
    assert!(same_text("src", "src"));
    assert!(!same_text("src", "sr"));
    assert!(!same_text("src", "srC"));
    assert!(same_text("\u{00E9}t\u{00E9}", "\u{00E9}t\u{00E9}"));
    assert!(!same_text("\u{00E9}", "e"));
}

#[test]
fn walk_rules_name_the_directories() {
    for name in [".git", ".legend", "target", "node_modules", ".vscode", ".idea", "build", "bin"] {
        assert!(skips_dir(name), "{}", name);
        assert!(!lists_dir(name), "{}", name);
    }
    for name in ["src", "docs", "Target", "binaries", ""] {
        assert!(!skips_dir(name), "{}", name);
        assert!(lists_dir(name), "{}", name);
    }
    assert!(hidden_name(".github"));
    assert!(!lists_dir(".github"));
    assert!(!hidden_name("a.b"));
    assert!(!hidden_name(""));
    for name in ["src", "lib", "app", "pkg"] {
        assert!(source_root(name));
    }
    assert!(!source_root("source"));
    assert!(!source_root("Src"));
}

#[test]
fn suggestion_needs_two_files_and_a_visible_directory() {
    let two = vec!["src/auth_flow/a.rs".to_string(), "src/auth_flow/b.rs".to_string()];
    let suggested = suggest_feature("auth_flow", two.clone()).unwrap();
    assert_eq!(suggested.suggested_id, "auth_flow");
    assert_eq!(suggested.suggested_name, "Auth Flow");
    assert_eq!(suggested.suggested_domain, "security");
    assert_eq!(suggested.files, two);
    assert!(suggest_feature("auth_flow", vec!["src/auth_flow/a.rs".to_string()]).is_none());
    assert!(suggest_feature("auth_flow", Vec::new()).is_none());
    assert!(suggest_feature(".hidden", two.clone()).is_none());
    let plain = suggest_feature("Widgets", two).unwrap();
    assert_eq!(plain.suggested_name, "Widgets");
    assert_eq!(plain.suggested_domain, "widgets");
}

#[test]
fn source_roots_are_ranked_in_their_order() {
    assert_eq!(source_root_rank("src"), Some(0));
    assert_eq!(source_root_rank("lib"), Some(1));
    assert_eq!(source_root_rank("app"), Some(2));
    assert_eq!(source_root_rank("pkg"), Some(3));
    assert_eq!(source_root_rank("SRC"), None);
    assert_eq!(source_root_rank("tests"), None);
    assert_eq!(source_root_rank(""), None);
}

#[test]
fn hooks_are_known_by_the_get_state_command() {
    let commands = |list: &[&str]| list.iter().map(|c| c.to_string()).collect::<Vec<String>>();
    assert!(!mentions_get_state(&Vec::new()));
    assert!(!mentions_get_state(&commands(&["echo hello", "legend show", "legend get state"])));
    assert!(mentions_get_state(&commands(&[
        "echo hello",
        "echo '== Legend Context =='; legend get_state 2>/dev/null || echo 'Legend state not found'",
    ])));
    assert!(mentions_get_state(&commands(&["legend get_state"])));
    assert!(!mentions_get_state(&commands(&["Legend Get_State"])));
}

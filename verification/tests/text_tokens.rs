use game_catalog::text::text_match;
use game_catalog::text::tokenize;

fn token_strings(s: &str) -> Vec<String> {
    tokenize(s).iter().map(|t| t.iter().collect()).collect()
}

#[test]
fn tokenizer_splits_on_non_alphanumerics_and_folds_case() {
    assert_eq!(token_strings("Space Battle Arena"), vec!["space", "battle", "arena"]);
    assert_eq!(token_strings("Rogue-Like 2: Reckoning"), vec!["rogue", "like", "2", "reckoning"]);
    assert_eq!(token_strings("  lots   of   gaps "), vec!["lots", "of", "gaps"]);
    assert!(token_strings("!!! ... ---").is_empty());
    assert!(token_strings("").is_empty());
}

#[test]
fn match_requires_every_query_token() {
    assert!(text_match("Space Battle Arena", "space"));
    assert!(text_match("Space Battle Arena", "ARENA space"));
    assert!(!text_match("Space Battle Arena", "space station"));
    assert!(!text_match("Space Battle Arena", "spaces"));
}

#[test]
fn match_ignores_punctuation_around_tokens() {
    assert!(text_match("Space Battle Arena", "space, battle!"));
    assert!(text_match("Dungeon-Crawler", "crawler"));
}

#[test]
fn tokenless_query_matches_nothing() {
    assert!(!text_match("Space Battle Arena", ""));
    assert!(!text_match("Space Battle Arena", "!!!"));
    assert!(!text_match("", ""));
}

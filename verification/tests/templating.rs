use deck_report::template::render_template;
use deck_report::template::replace_all;
use deck_report::template::TokenMap;

#[test]
fn replace_all_rewrites_every_occurrence() {
    assert_eq!(replace_all("{x} and {x}", "{x}", "1"), "1 and 1");
    assert_eq!(replace_all("aaa", "aa", "b"), "ba");
    assert_eq!(replace_all("abc", "x", "y"), "abc");
    assert_eq!(replace_all("abc", "", "y"), "abc");
}

#[test]
fn unknown_tokens_stay_literal() {
    let mut tokens = TokenMap::new();
    tokens.insert("n_cards", "2".to_string());
    let out = render_template("{n_cards} and {unknown_token}", &tokens);
    assert_eq!(out, "2 and {unknown_token}");
}

#[test]
fn template_without_placeholders_is_unchanged() {
    let mut tokens = TokenMap::new();
    tokens.insert("n_cards", "2".to_string());
    tokens.insert("now", "today".to_string());
    let template = "<html>no tokens here</html>";
    assert_eq!(render_template(template, &tokens), template);
}

#[test]
fn empty_token_map_leaves_template_alone() {
    let tokens = TokenMap::new();
    assert_eq!(render_template("{n_cards}", &tokens), "{n_cards}");
}

#[test]
fn tokens_apply_in_entry_order() {
    let mut tokens = TokenMap::new();
    tokens.insert("a", "x".to_string());
    tokens.insert("b", "y".to_string());
    assert_eq!(render_template("{a}{b}", &tokens), "xy");
}

use deck_report::card::extract_cards;
use deck_report::card::RawRecord;
use deck_report::decimal::format_u64;
use deck_report::render::render_fragment;
use deck_report::render::render_fragments;
use deck_report::report::build_token_map;
use deck_report::report::compose_report;
use deck_report::report::generate_report;
use deck_report::state::ExtractError;
use deck_report::state::Queue;
use deck_report::stats::aggregate;
use deck_report::stats::AggregateStats;
use deck_report::template::render_template;

fn raw(flds: &str, queue_code: u8, reps: u32, lapses: u32) -> RawRecord {
    RawRecord { flds: flds.to_string(), queue_code, reps, lapses }
}

#[test]
fn two_row_scenario() {
    let rows = vec![raw("日本\x1fにほん\x1fJapan", 2, 5, 0), raw("猫\x1fねこ\x1fcat", 0, 0, 0)];
    let cards = extract_cards(&rows).unwrap();
    assert_eq!(cards.len(), 2);
    assert_eq!(cards[0].queue, Queue::Review);
    assert_eq!(cards[1].queue, Queue::New);

    let stats = aggregate(&cards);
    assert_eq!(stats.total, 2);
    assert_eq!(stats.learned, 1);
    assert_eq!(stats.percentage_pretty(), "50.00");
    assert_eq!(stats.summary_line(), "learned 1/2 (50.00%)");

    let fragments = render_fragments(&cards);
    assert_eq!(fragments.matches("card-link").count(), 2);
    let review_at = fragments.find("card-review").unwrap();
    let new_at = fragments.find("card-new").unwrap();
    assert!(review_at < new_at);

    let sp24 = " ".repeat(24);
    let sp20 = " ".repeat(20);
    let expected_first = format!(
        "<a href='https://jisho.org/search/日本' class='card-link'>\
         <div class='card card-review'>日本\
         <div class='card-hover'>\
         <div class='card-meaning'>にほん; Japan</div>\n\
         {sp24}reviews: 5<br/>\n\
         {sp24}lapses: 0<br/>\n\
         {sp20}</div></div></a>\n"
    );
    assert_eq!(render_fragment(&cards[0]), expected_first);
    assert!(fragments.starts_with(&expected_first));
}

#[test]
fn composed_document_substitutes_all_tokens() {
    let rows = vec![raw("日本\x1fにほん\x1fJapan", 2, 5, 0), raw("猫\x1fねこ\x1fcat", 0, 0, 0)];
    let cards = extract_cards(&rows).unwrap();
    let template = "<p>{n_learned}/{n_cards} = {learned_percentage_pretty}% at {now}</p>\n{cards}";
    let report = compose_report(&cards, template, "2001-02-03T04:05:06+00:00");
    assert!(report.document.starts_with(
        "<p>1/2 = 50.00% at 2001-02-03T04:05:06+00:00</p>\n<a href='https://jisho.org/search/日本'"
    ));
    assert_eq!(report.summary, "learned 1/2 (50.00%)");
}

#[test]
fn empty_row_set_scenario() {
    let rows: Vec<RawRecord> = Vec::new();
    let cards = extract_cards(&rows).unwrap();
    assert!(cards.is_empty());
    let stats = aggregate(&cards);
    assert_eq!(stats.total, 0);
    assert_eq!(stats.learned, 0);
    let report = compose_report(&cards, "{n_cards} cards, {learned_percentage_pretty}%", "t");
    assert_eq!(report.document, "0 cards, NaN%");
    assert_eq!(report.summary, "learned 0/0 (NaN%)");
}

#[test]
fn generate_report_succeeds_on_valid_rows() {
    let rows = vec![raw("a\x1fb\x1fc", 2, 1, 0)];
    let report = generate_report(&rows, "{n_learned} of {n_cards}").unwrap();
    assert_eq!(report.document, "1 of 1");
    assert_eq!(report.summary, "learned 1/1 (100.00%)");
}

#[test]
fn generate_report_propagates_the_first_error() {
    let rows = vec![raw("a\x1fb\x1fc", 0, 0, 0), raw("too\x1fshort", 0, 0, 0)];
    assert_eq!(generate_report(&rows, "{n_cards}").err(), Some(ExtractError::MalformedRecord));
}

#[test]
fn counts_are_comma_grouped() {
    let stats = AggregateStats { total: 1234567, learned: 1000 };
    let tokens = build_token_map(&stats, String::new(), String::new());
    let out = render_template("{n_cards} and {n_learned}", &tokens);
    assert_eq!(out, "1,234,567 and 1,000");
}

#[test]
fn small_counts_have_no_separator() {
    let stats = AggregateStats { total: 999, learned: 0 };
    let tokens = build_token_map(&stats, String::new(), String::new());
    assert_eq!(render_template("{n_cards}", &tokens), "999");
}

#[test]
fn plain_decimal_rendering_is_exact() {
    assert_eq!(format_u64(0), "0");
    assert_eq!(format_u64(7), "7");
    assert_eq!(format_u64(10), "10");
    assert_eq!(format_u64(1234567890), "1234567890");
}

//! Report composition: the token map built from the aggregate counts,
//! the concatenated fragments and a timestamp, and the fully rendered
//! output document with the one-line console summary.

use num_format::Locale;
use num_format::ToFormattedString;
use vstd::prelude::*;

use crate::card::models_of;
use crate::card::spec_extract_all;
use crate::card::Card;
use crate::card::CardModel;
use crate::card::RawRecord;
use crate::card::extract_cards;
use crate::decimal::dec_digits;
use crate::decimal::grouped3;
use crate::render::fragments_of;
use crate::render::render_fragments;
use crate::state::ExtractError;
use crate::stats::aggregate;
use crate::stats::count_review;
use crate::stats::percent_pretty;
use crate::stats::spec_summary;
use crate::stats::AggregateStats;
use crate::template::render_template;
use crate::template::spec_render;
use crate::template::TokenMap;

verus! {

/// Relies on num_format's `ToFormattedString` with `Locale::en`: the
/// decimal digits of the number, with a comma between each group of
/// three digits counted from the right.
#[verifier::external_body]
fn format_grouped(n: usize) -> (r: String)
    ensures
        r@ == grouped3(dec_digits(n as nat)),
{
    n.to_formatted_string(&Locale::en)
}

/// Relies on chrono's `Local::now` and `DateTime::to_rfc3339` for the
/// run's timestamp; nothing is assumed of the clock's value.
#[verifier::external_body]
fn now_rfc3339() -> String {
    chrono::Local::now().to_rfc3339()
}

/// The five tokens of a report, in application order: the grouped
/// learned count, the grouped total count, the two-decimal percentage,
/// the concatenated fragments, and the timestamp.
pub open spec fn spec_tokens(
    learned: nat,
    total: nat,
    fragments: Seq<char>,
    now: Seq<char>,
) -> Seq<(Seq<char>, Seq<char>)> {
    seq![
        ("n_learned"@, grouped3(dec_digits(learned))),
        ("n_cards"@, grouped3(dec_digits(total))),
        ("learned_percentage_pretty"@, percent_pretty(learned, total)),
        ("cards"@, fragments),
        ("now"@, now),
    ]
}

/// Build the report's token map from the aggregate counts, the
/// concatenated fragments, and the timestamp.
pub fn build_token_map(stats: &AggregateStats, fragments: String, now: String) -> (r: TokenMap)
    requires
        stats.wf(),
    ensures
        r@ == spec_tokens(stats.learned as nat, stats.total as nat, fragments@, now@),
{
    let ghost fragments_view = fragments@;
    let ghost now_view = now@;
    let mut tokens = TokenMap::new();
    tokens.insert("n_learned", format_grouped(stats.learned));
    tokens.insert("n_cards", format_grouped(stats.total));
    tokens.insert("learned_percentage_pretty", stats.percentage_pretty());
    tokens.insert("cards", fragments);
    tokens.insert("now", now);
    proof {
        assert(tokens@ =~= spec_tokens(
            stats.learned as nat,
            stats.total as nat,
            fragments_view,
            now_view,
        ));
    }
    tokens
}

/// The output document of a card sequence: the template with the five
/// tokens substituted in application order.
pub open spec fn spec_document(
    cards: Seq<CardModel>,
    template: Seq<char>,
    now: Seq<char>,
) -> Seq<char> {
    spec_render(
        template,
        spec_tokens(count_review(cards), cards.len(), fragments_of(cards), now),
    )
}

/// A finished report: the rendered output document and the one-line
/// console summary.
pub struct Report {
    pub document: String,
    pub summary: String,
}

/// Aggregate the cards, render their fragments, and substitute the
/// tokens into the template, with the given timestamp.
pub fn compose_report(cards: &Vec<Card>, template: &str, now: &str) -> (r: Report)
    requires
        forall|j: int| 0 <= j < cards@.len() ==> (#[trigger] cards@[j])@.wf(),
    ensures
        r.document@ == spec_document(models_of(cards@), template@, now@),
        r.summary@ == spec_summary(count_review(models_of(cards@)), models_of(cards@).len()),
{
    let stats = aggregate(cards);
    let fragments = render_fragments(cards);
    let summary = stats.summary_line();
    let tokens = build_token_map(&stats, fragments, String::from_str(now));
    let document = render_template(template, &tokens);
    Report { document, summary }
}

/// Extract every raw row, then compose the report with the current
/// wall-clock timestamp. Fails exactly when extraction fails, with the
/// first failing row's error; on success the document is the rendered
/// template for some timestamp value, and the summary is exact.
pub fn generate_report(rows: &Vec<RawRecord>, template: &str) -> (r: Result<Report, ExtractError>)
    ensures
        r is Ok <==> spec_extract_all(rows@.map_values(|x: RawRecord| x@)) is Ok,
        r matches Err(e) ==> spec_extract_all(rows@.map_values(|x: RawRecord| x@)) == Err::<
            Seq<CardModel>,
            ExtractError,
        >(e),
        r matches Ok(rep) ==> (spec_extract_all(rows@.map_values(|x: RawRecord| x@)) matches Ok(
            cards,
        ) && rep.summary@ == spec_summary(count_review(cards), cards.len()) && exists|now: Seq<char>|
            rep.document@ == #[trigger] spec_document(cards, template@, now)),
{
    let cards = match extract_cards(rows) {
        Ok(cards) => cards,
        Err(e) => {
            return Err(e);
        },
    };
    let now = now_rfc3339();
    let report = compose_report(&cards, template, now.as_str());
    proof {
        assert(report.document@ == spec_document(models_of(cards@), template@, now@));
    }
    Ok(report)
}

} // verus!

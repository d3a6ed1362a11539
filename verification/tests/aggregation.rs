use deck_report::card::Card;
use deck_report::state::Queue;
use deck_report::stats::aggregate;
use deck_report::stats::AggregateStats;

fn card(queue: Queue) -> Card {
    Card {
        fields: vec!["t".to_string(), "a".to_string(), "x".to_string()],
        queue,
        reps: 0,
        lapses: 0,
    }
}

#[test]
fn counts_only_review_cards_as_learned() {
    let cards = vec![
        card(Queue::Review),
        card(Queue::New),
        card(Queue::Learning),
        card(Queue::Review),
        card(Queue::Learning),
    ];
    let stats = aggregate(&cards);
    assert_eq!(stats.total, 5);
    assert_eq!(stats.learned, 2);
    assert!(stats.learned <= stats.total);
}

#[test]
fn empty_sequence_has_degenerate_percentage() {
    let cards: Vec<Card> = Vec::new();
    let stats = aggregate(&cards);
    assert_eq!(stats.total, 0);
    assert_eq!(stats.learned, 0);
    assert_eq!(stats.learned_percentage_hundredths(), None);
    assert_eq!(stats.percentage_pretty(), "NaN");
    assert_eq!(stats.summary_line(), "learned 0/0 (NaN%)");
}

#[test]
fn percentage_is_truncated_hundredths() {
    let stats = AggregateStats { total: 2, learned: 1 };
    assert_eq!(stats.learned_percentage_hundredths(), Some(5000));
    assert_eq!(stats.percentage_pretty(), "50.00");

    let stats = AggregateStats { total: 3, learned: 2 };
    assert_eq!(stats.learned_percentage_hundredths(), Some(6666));
    assert_eq!(stats.percentage_pretty(), "66.66");

    let stats = AggregateStats { total: 8, learned: 1 };
    assert_eq!(stats.percentage_pretty(), "12.50");

    let stats = AggregateStats { total: 4, learned: 4 };
    assert_eq!(stats.learned_percentage_hundredths(), Some(10000));
    assert_eq!(stats.percentage_pretty(), "100.00");
}

#[test]
fn percentage_stays_in_range() {
    for total in 0usize..30 {
        for learned in 0..=total {
            let stats = AggregateStats { total, learned };
            match stats.learned_percentage_hundredths() {
                None => assert_eq!(total, 0),
                Some(h) => assert!(h <= 10000),
            }
        }
    }
}

#[test]
fn summary_line_is_exact() {
    let stats = AggregateStats { total: 4, learned: 1 };
    assert_eq!(stats.summary_line(), "learned 1/4 (25.00%)");
}

use deck_report::card::extract_card;
use deck_report::card::extract_cards;
use deck_report::card::split_on;
use deck_report::card::RawRecord;
use deck_report::card::FIELD_SEP;
use deck_report::state::ExtractError;
use deck_report::state::Queue;

fn raw(flds: &str, queue_code: u8, reps: u32, lapses: u32) -> RawRecord {
    RawRecord { flds: flds.to_string(), queue_code, reps, lapses }
}

#[test]
fn split_keeps_fields_verbatim() {
    let fields = split_on("a\x1f b \x1fc", '\x1f');
    assert_eq!(fields, vec!["a".to_string(), " b ".to_string(), "c".to_string()]);
}

#[test]
fn split_keeps_empty_fields() {
    assert_eq!(split_on("", '\x1f'), vec!["".to_string()]);
    assert_eq!(split_on("\x1f", '\x1f'), vec!["".to_string(), "".to_string()]);
    assert_eq!(
        split_on("\x1fa\x1f", '\x1f'),
        vec!["".to_string(), "a".to_string(), "".to_string()]
    );
}

#[test]
fn split_then_join_reproduces_the_string() {
    let originals = ["", "plain", "a\x1fb\x1fc", "\x1f\x1f", "日本\x1fにほん\x1fJapan"];
    for original in originals {
        let fields = split_on(original, FIELD_SEP);
        let rejoined = fields.join(&FIELD_SEP.to_string());
        assert_eq!(rejoined, original);
    }
}

#[test]
fn extract_builds_a_card() {
    let card = extract_card(&raw("犬\x1fいぬ\x1fdog", 2, 7, 1)).unwrap();
    assert_eq!(card.fields, vec!["犬".to_string(), "いぬ".to_string(), "dog".to_string()]);
    assert_eq!(card.queue, Queue::Review);
    assert_eq!(card.reps, 7);
    assert_eq!(card.lapses, 1);
}

#[test]
fn extract_rejects_unmapped_state_code() {
    let r = extract_card(&raw("a\x1fb\x1fc", 4, 0, 0));
    assert_eq!(r.err(), Some(ExtractError::InvalidStateCode));
}

#[test]
fn extract_rejects_short_field_list() {
    let r = extract_card(&raw("a\x1fb", 0, 0, 0));
    assert_eq!(r.err(), Some(ExtractError::MalformedRecord));
}

#[test]
fn state_code_error_takes_precedence() {
    let r = extract_card(&raw("a", 9, 0, 0));
    assert_eq!(r.err(), Some(ExtractError::InvalidStateCode));
}

#[test]
fn extract_cards_keeps_order_and_stops_at_first_error() {
    let rows = vec![raw("a\x1fb\x1fc", 0, 1, 0), raw("d\x1fe\x1ff", 2, 2, 0)];
    let cards = extract_cards(&rows).unwrap();
    assert_eq!(cards.len(), 2);
    assert_eq!(cards[0].fields[0], "a");
    assert_eq!(cards[1].fields[0], "d");

    let rows = vec![raw("a\x1fb\x1fc", 0, 1, 0), raw("short", 1, 0, 0), raw("x", 9, 0, 0)];
    assert_eq!(extract_cards(&rows).err(), Some(ExtractError::MalformedRecord));
}

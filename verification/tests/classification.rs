use deck_report::state::ExtractError;
use deck_report::state::Queue;

#[test]
fn code_zero_is_new() {
    assert_eq!(Queue::try_from(0), Ok(Queue::New));
}

#[test]
fn codes_one_and_three_are_learning() {
    assert_eq!(Queue::try_from(1), Ok(Queue::Learning));
    assert_eq!(Queue::try_from(3), Ok(Queue::Learning));
}

#[test]
fn code_two_is_review() {
    assert_eq!(Queue::try_from(2), Ok(Queue::Review));
}

#[test]
fn unmapped_codes_fail_with_invalid_state_code() {
    assert_eq!(Queue::try_from(4), Err(ExtractError::InvalidStateCode));
    assert_eq!(Queue::try_from(5), Err(ExtractError::InvalidStateCode));
    assert_eq!(Queue::try_from(100), Err(ExtractError::InvalidStateCode));
    assert_eq!(Queue::try_from(255), Err(ExtractError::InvalidStateCode));
}

#[test]
fn class_tags() {
    assert_eq!(Queue::New.class(), "new");
    assert_eq!(Queue::Learning.class(), "learning");
    assert_eq!(Queue::Review.class(), "review");
}

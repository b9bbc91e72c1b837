use dispatch_client::category::Category;
use dispatch_client::reader::{report, task_reader, ReaderAction, ReaderEvent, Response};

#[test]
fn a_closed_connection_ends_the_reader() {
    assert_eq!(task_reader(&ReaderEvent::Closed), ReaderAction::Exit);
}

#[test]
fn a_failed_read_is_passed_over() {
    assert_eq!(task_reader(&ReaderEvent::ReadFailed), ReaderAction::Retry);
}

#[test]
fn an_undecodable_response_is_fatal() {
    assert_eq!(task_reader(&ReaderEvent::Undecodable), ReaderAction::Fatal);
}

#[test]
fn an_accept_is_reported_with_its_flag() {
    let accepted = Response::Accept { matches_expectation: true };
    assert_eq!(
        task_reader(&ReaderEvent::Frame(accepted)),
        ReaderAction::Report("received accept response: true".to_string())
    );
    let mismatch = Response::Accept { matches_expectation: false };
    assert_eq!(
        task_reader(&ReaderEvent::Frame(mismatch)),
        ReaderAction::Report("received accept response: false".to_string())
    );
}

#[test]
fn a_reject_is_reported_with_reason_and_category() {
    let rejected =
        Response::Reject { error_message: "queue full".to_string(), category: Category::Anger };
    assert_eq!(
        task_reader(&ReaderEvent::Frame(rejected)),
        ReaderAction::Report("received reject response: queue full for expression Anger".to_string())
    );
    let rejected =
        Response::Reject { error_message: String::new(), category: Category::Happiness };
    assert_eq!(report(&rejected), "received reject response:  for expression Happiness");
}

use crawl_trials::listeners::{intercept, record_response, PausedRequest, ReceivedResponse};
use crawl_trials::model::CapturedRequest;
use crawl_trials::table::{ResponseMeta, ResponseTable};

fn meta(status: i64, size: u64) -> ResponseMeta {
    ResponseMeta { status, size }
}

#[test]
fn new_table_finds_nothing() {
    let table = ResponseTable::new();
    assert_eq!(table.lookup(&"1000.1".to_string()), None);
    assert_eq!(table.lookup(&String::new()), None);
}

#[test]
fn record_then_lookup_returns_the_response() {
    let mut table = ResponseTable::new();
    assert!(!table.record("1000.1".to_string(), meta(200, 1024)));
    assert_eq!(table.lookup(&"1000.1".to_string()), Some(meta(200, 1024)));
    assert_eq!(table.lookup(&"1000.2".to_string()), None);
}

#[test]
fn duplicate_id_overwrites_and_reports_once() {
    let mut table = ResponseTable::new();
    assert!(!table.record("A".to_string(), meta(301, 0)));
    assert!(table.record("A".to_string(), meta(200, 77)));
    assert_eq!(table.lookup(&"A".to_string()), Some(meta(200, 77)));
    assert!(!table.record("B".to_string(), meta(404, 12)));
    assert_eq!(table.lookup(&"A".to_string()), Some(meta(200, 77)));
    assert_eq!(table.lookup(&"B".to_string()), Some(meta(404, 12)));
}

#[test]
fn sequential_records_keep_the_most_recent() {
    let mut table = ResponseTable::new();
    let mut warnings = 0;
    for status in 0..50i64 {
        if table.record("same".to_string(), meta(status, status as u64 * 2)) {
            warnings += 1;
        }
    }
    assert_eq!(warnings, 49);
    assert_eq!(table.lookup(&"same".to_string()), Some(meta(49, 98)));
}

#[test]
fn warnings_and_entries_add_up_to_recordings() {
    let ids = ["a", "b", "a", "c", "b", "a", "d"];
    let mut table = ResponseTable::new();
    let mut warnings = 0;
    for (i, id) in ids.iter().enumerate() {
        if table.record(id.to_string(), meta(i as i64, 1)) {
            warnings += 1;
        }
    }
    assert_eq!(warnings, 3);
    assert_eq!(table.lookup(&"a".to_string()), Some(meta(5, 1)));
    assert_eq!(table.lookup(&"b".to_string()), Some(meta(4, 1)));
    assert_eq!(table.lookup(&"c".to_string()), Some(meta(3, 1)));
    assert_eq!(table.lookup(&"d".to_string()), Some(meta(6, 1)));
}

#[test]
fn ids_are_told_apart_by_their_text() {
    let mut table = ResponseTable::new();
    table.record("1".to_string(), meta(1, 1));
    table.record("01".to_string(), meta(2, 2));
    table.record("1 ".to_string(), meta(3, 3));
    assert_eq!(table.lookup(&"1".to_string()), Some(meta(1, 1)));
    assert_eq!(table.lookup(&"01".to_string()), Some(meta(2, 2)));
    assert_eq!(table.lookup(&"1 ".to_string()), Some(meta(3, 3)));
}

#[test]
fn interceptor_continues_and_forwards_a_copy() {
    let step = intercept(PausedRequest {
        request_id: "interception-job-7".to_string(),
        url: "https://example.com/style.css".to_string(),
        resource_type: "Stylesheet".to_string(),
        network_id: Some("1000.7".to_string()),
    });
    assert_eq!(step.continue_id, "interception-job-7");
    assert_eq!(
        step.forward,
        CapturedRequest {
            url: "https://example.com/style.css".to_string(),
            resource_type: "Stylesheet".to_string(),
            network_id: Some("1000.7".to_string()),
        }
    );
}

#[test]
fn interceptor_forwards_requests_without_network_id() {
    let step = intercept(PausedRequest {
        request_id: "r".to_string(),
        url: "data:text/plain,x".to_string(),
        resource_type: "Other".to_string(),
        network_id: None,
    });
    assert_eq!(step.continue_id, "r");
    assert_eq!(step.forward.network_id, None);
    assert_eq!(step.forward.url, "data:text/plain,x");
}

#[test]
fn recorder_files_responses_under_their_network_id() {
    let mut table = ResponseTable::new();
    let first = ReceivedResponse { network_id: "9.1".to_string(), meta: meta(200, 10) };
    let second = ReceivedResponse { network_id: "9.1".to_string(), meta: meta(304, 0) };
    assert!(!record_response(&mut table, first));
    assert!(record_response(&mut table, second));
    assert_eq!(table.lookup(&"9.1".to_string()), Some(meta(304, 0)));
}

use packet_forge::sequence::{parse_send_request, plan_sends, SendRequest};

#[test]
fn range_request_is_read() {
    assert_eq!(parse_send_request("2-5"), Some(SendRequest::Range { first: 2, last: 5 }));
    assert_eq!(parse_send_request("5-2"), None);
    assert_eq!(parse_send_request("3-3"), None);
    assert_eq!(parse_send_request("1-2-3"), None);
    assert_eq!(parse_send_request("a-2"), None);
}

#[test]
fn repeat_request_is_read() {
    assert_eq!(parse_send_request("0*10"), Some(SendRequest::Repeat { index: 0, times: 10 }));
    assert_eq!(parse_send_request("1*x"), None);
    assert_eq!(parse_send_request("7"), None);
    assert_eq!(parse_send_request(""), None);
}

#[test]
fn range_plan_stops_at_stored_frames() {
    let plan = plan_sends(SendRequest::Range { first: 1, last: 3 }, 5);
    assert_eq!(plan.indexes, vec![1, 2, 3]);
    assert_eq!(plan.rounds, 1);
    assert!(!plan.overran);
    let short = plan_sends(SendRequest::Range { first: 1, last: 9 }, 3);
    assert_eq!(short.indexes, vec![1, 2]);
    assert!(short.overran);
    let none = plan_sends(SendRequest::Range { first: 4, last: 9 }, 3);
    assert!(none.indexes.is_empty());
    assert!(none.overran);
}

#[test]
fn repeat_plan() {
    let plan = plan_sends(SendRequest::Repeat { index: 2, times: 4 }, 3);
    assert_eq!(plan.indexes, vec![2]);
    assert_eq!(plan.rounds, 4);
    assert!(!plan.overran);
    let missing = plan_sends(SendRequest::Repeat { index: 3, times: 4 }, 3);
    assert!(missing.indexes.is_empty());
    assert_eq!(missing.rounds, 0);
    assert!(missing.overran);
}

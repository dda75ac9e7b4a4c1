use action_client::client::{
    CancelOutcome, CancelResponseOutcome, FeedbackOutcome, GoalResponseOutcome, ProtocolError,
    ResultResponseOutcome, WrappedActionClient,
};
use action_client::goal_id::{goal_id_from_bytes, GoalId};
use action_client::status::GoalStatus;
use futures::channel::{mpsc, oneshot};

type Client = WrappedActionClient<String, i32, String>;

fn goal_bytes(tag: u8) -> Vec<u8> {
    let mut b = vec![0u8; 16];
    b[15] = tag;
    b
}

fn goal(tag: u8) -> GoalId {
    goal_id_from_bytes(goal_bytes(tag)).unwrap()
}

#[test]
fn each_goal_response_resolves_exactly_one_entry() {
    let mut client = Client::new();
    let mut receivers = Vec::new();
    for seq in 0i64..5 {
        let (tx, rx) = oneshot::channel::<String>();
        client.register_goal_request(seq, tx);
        receivers.push(rx);
    }
    for seq in 0i64..5 {
        let outcome = client.handle_goal_response(seq, format!("response {}", seq));
        assert_eq!(outcome, GoalResponseOutcome::Delivered);
    }
    for (seq, rx) in receivers.iter_mut().enumerate() {
        assert_eq!(rx.try_recv().unwrap(), Some(format!("response {}", seq)));
    }
    // every entry was consumed; resolving any id again matches nothing
    assert!(client.goal_response_channels.is_empty());
    for seq in 0i64..5 {
        let outcome = client.handle_goal_response(seq, String::from("stale"));
        assert_eq!(outcome, GoalResponseOutcome::UnknownRequest);
    }
}

#[test]
fn unknown_correlation_id_leaves_entries_untouched() {
    let mut client = Client::new();
    let (tx, mut rx) = oneshot::channel::<String>();
    client.register_goal_request(7, tx);
    let outcome = client.handle_goal_response(8, String::from("stray"));
    assert_eq!(outcome, GoalResponseOutcome::UnknownRequest);
    assert_eq!(client.goal_response_channels.len(), 1);
    assert_eq!(client.goal_response_channels[0].0, 7);
    assert_eq!(rx.try_recv().unwrap(), None);

    // the untouched entry still resolves afterwards
    let outcome = client.handle_goal_response(7, String::from("real"));
    assert_eq!(outcome, GoalResponseOutcome::Delivered);
    assert_eq!(rx.try_recv().unwrap(), Some(String::from("real")));
}

#[test]
fn cancel_outcome_codes_map_to_typed_outcomes() {
    let cases = [
        (0i8, CancelOutcome::Accepted),
        (1, CancelOutcome::Rejected),
        (2, CancelOutcome::UnknownGoalId),
        (3, CancelOutcome::AlreadyTerminated),
    ];
    for (code, expected) in cases {
        let mut client = Client::new();
        let (tx, mut rx) = oneshot::channel::<CancelOutcome>();
        client.register_cancel_request(40 + code as i64, tx);
        let r = client.handle_cancel_response(40 + code as i64, code);
        assert_eq!(r, Ok(CancelResponseOutcome::Resolved(expected)));
        assert_eq!(rx.try_recv().unwrap(), Some(expected));
    }
}

#[test]
fn cancel_response_with_invalid_code_is_fatal() {
    let mut client = Client::new();
    let (tx, mut rx) = oneshot::channel::<CancelOutcome>();
    client.register_cancel_request(9, tx);
    let r = client.handle_cancel_response(9, 4);
    assert_eq!(r, Err(ProtocolError::InvalidCancelCode));
    // the matched entry was dropped unresolved
    assert!(client.cancel_response_channels.is_empty());
    assert!(rx.try_recv().is_err());
}

#[test]
fn cancel_response_for_unknown_id_ignores_the_code() {
    let mut client = Client::new();
    let r = client.handle_cancel_response(3, 99);
    assert_eq!(r, Ok(CancelResponseOutcome::UnknownRequest));
}

#[test]
fn status_broadcast_skips_goals_without_result_sink() {
    let mut client = Client::new();
    let r = client.handle_status_msg(vec![(goal_bytes(1), 2)]);
    assert_eq!(r, Ok(()));
    assert!(client.goal_status.is_empty());
    assert_eq!(client.get_goal_status(&goal(1)), GoalStatus::Unknown);
}

#[test]
fn status_broadcast_tracks_goals_with_result_sink() {
    let mut client = Client::new();
    let (tx, _rx) = oneshot::channel::<String>();
    client.register_result_sender(goal(1), tx);
    let r = client.handle_status_msg(vec![(goal_bytes(1), 2), (goal_bytes(2), 4)]);
    assert_eq!(r, Ok(()));
    assert_eq!(client.get_goal_status(&goal(1)), GoalStatus::Executing);
    // the goal without a sink produced no entry
    assert_eq!(client.goal_status.len(), 1);
    assert_eq!(client.get_goal_status(&goal(2)), GoalStatus::Unknown);
}

#[test]
fn status_broadcast_later_entry_wins() {
    let mut client = Client::new();
    let (tx, _rx) = oneshot::channel::<String>();
    client.register_result_sender(goal(1), tx);
    let r = client.handle_status_msg(vec![(goal_bytes(1), 1), (goal_bytes(1), 3)]);
    assert_eq!(r, Ok(()));
    assert_eq!(client.get_goal_status(&goal(1)), GoalStatus::Canceling);
}

#[test]
fn status_broadcast_with_bad_code_changes_nothing() {
    let mut client = Client::new();
    let (tx, _rx) = oneshot::channel::<String>();
    client.register_result_sender(goal(1), tx);
    let r = client.handle_status_msg(vec![(goal_bytes(1), 2), (goal_bytes(1), 7)]);
    assert_eq!(r, Err(ProtocolError::InvalidStatusCode));
    assert!(client.goal_status.is_empty());
}

#[test]
fn status_broadcast_with_bad_goal_id_changes_nothing() {
    let mut client = Client::new();
    let (tx, _rx) = oneshot::channel::<String>();
    client.register_result_sender(goal(1), tx);
    let r = client.handle_status_msg(vec![(vec![0u8; 3], 2)]);
    assert_eq!(r, Err(ProtocolError::InvalidGoalIdLength));
    assert!(client.goal_status.is_empty());
}

#[test]
fn feedback_with_full_sink_is_dropped_without_error() {
    let mut client = Client::new();
    // a zero-buffer channel grants the sender a single guaranteed slot
    let (tx, mut rx) = mpsc::channel::<i32>(0);
    client.register_feedback_sender(goal(5), tx);
    assert_eq!(client.handle_feedback_msg(goal_bytes(5), 10), Ok(FeedbackOutcome::Delivered));
    // the sink is now full: the payload is dropped, the dispatch path never blocks
    assert_eq!(client.handle_feedback_msg(goal_bytes(5), 11), Ok(FeedbackOutcome::Dropped));
    assert_eq!(rx.try_next().unwrap(), Some(10));
    // the sink entry survived and delivery resumes once drained
    assert_eq!(client.handle_feedback_msg(goal_bytes(5), 12), Ok(FeedbackOutcome::Delivered));
    assert_eq!(rx.try_next().unwrap(), Some(12));
}

#[test]
fn feedback_without_sink_is_discarded() {
    let mut client = Client::new();
    assert_eq!(client.handle_feedback_msg(goal_bytes(5), 10), Ok(FeedbackOutcome::NoSink));
}

#[test]
fn feedback_with_bad_goal_id_is_fatal() {
    let mut client = Client::new();
    let r = client.handle_feedback_msg(vec![1u8, 2, 3], 10);
    assert_eq!(r, Err(ProtocolError::InvalidGoalIdLength));
}

#[test]
fn aborted_result_drops_sink_and_succeeded_delivers_once() {
    // aborted: the sink is dropped unresolved
    let mut client = Client::new();
    let (tx, mut rx) = oneshot::channel::<String>();
    client.register_result_sender(goal(1), tx);
    client.register_result_request(21, goal(1));
    let r = client.handle_result_response(21, GoalStatus::Aborted.to_rcl(), String::from("P"));
    assert_eq!(r, Ok(ResultResponseOutcome::DroppedNonSuccess));
    assert!(rx.try_recv().is_err());

    // succeeded: the same response shape delivers the payload exactly once
    let mut client = Client::new();
    let (tx, mut rx) = oneshot::channel::<String>();
    client.register_result_sender(goal(1), tx);
    client.register_result_request(21, goal(1));
    let r = client.handle_result_response(21, GoalStatus::Succeeded.to_rcl(), String::from("P"));
    assert_eq!(r, Ok(ResultResponseOutcome::Delivered));
    assert_eq!(rx.try_recv().unwrap(), Some(String::from("P")));
    // both the request and the sink were consumed: a replay matches nothing
    let r = client.handle_result_response(21, GoalStatus::Succeeded.to_rcl(), String::from("P"));
    assert_eq!(r, Ok(ResultResponseOutcome::UnknownRequest));
}

#[test]
fn result_response_with_unknown_goal_sink_reports_no_sink() {
    let mut client = Client::new();
    client.register_result_request(5, goal(9));
    let r = client.handle_result_response(5, GoalStatus::Succeeded.to_rcl(), String::from("P"));
    assert_eq!(r, Ok(ResultResponseOutcome::NoSink));
    assert!(client.result_requests.is_empty());
}

#[test]
fn result_response_with_invalid_status_code_is_fatal() {
    let mut client = Client::new();
    let (tx, _rx) = oneshot::channel::<String>();
    client.register_result_sender(goal(1), tx);
    client.register_result_request(5, goal(1));
    let r = client.handle_result_response(5, 7, String::from("P"));
    assert_eq!(r, Err(ProtocolError::InvalidStatusCode));
}

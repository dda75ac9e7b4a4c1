use action_client::client::{
    CancelOutcome, CancelResponseOutcome, ResultResponseOutcome, WrappedActionClient,
};
use action_client::goal_id::{goal_id_from_bytes, GoalId};
use action_client::status::GoalStatus;
use futures::channel::oneshot;

type Client = WrappedActionClient<String, i32, String>;

fn goal_bytes(tag: u8) -> Vec<u8> {
    let mut b = vec![0u8; 16];
    b[15] = tag;
    b
}

fn goal(tag: u8) -> GoalId {
    goal_id_from_bytes(goal_bytes(tag)).unwrap()
}

#[test]
fn cancel_of_submitted_goal_resolves_to_rejected() {
    let mut client = Client::new();

    // submit goal g1: the acceptance sink is wired under the submission's id
    let (goal_tx, mut goal_rx) = oneshot::channel::<String>();
    client.register_goal_request(1, goal_tx);
    assert_eq!(
        client.handle_goal_response(1, String::from("accepted")),
        action_client::client::GoalResponseOutcome::Delivered
    );
    assert_eq!(goal_rx.try_recv().unwrap(), Some(String::from("accepted")));

    // cancel g1; the server answers with outcome code 1
    let (cancel_tx, mut cancel_rx) = oneshot::channel::<CancelOutcome>();
    client.register_cancel_request(2, cancel_tx);
    let r = client.handle_cancel_response(2, 1);
    assert_eq!(r, Ok(CancelResponseOutcome::Resolved(CancelOutcome::Rejected)));
    assert_eq!(cancel_rx.try_recv().unwrap(), Some(CancelOutcome::Rejected));
}

#[test]
fn succeeded_goal_delivers_result_payload() {
    let mut client = Client::new();
    let g2 = goal(2);

    let (result_tx, mut result_rx) = oneshot::channel::<String>();
    client.register_result_sender(g2, result_tx);
    client.register_result_request(3, g2);

    // a status broadcast marks g2 as succeeded
    assert_eq!(client.handle_status_msg(vec![(goal_bytes(2), 4)]), Ok(()));
    assert_eq!(client.get_goal_status(&g2), GoalStatus::Succeeded);

    // the result response delivers payload P
    let r = client.handle_result_response(3, GoalStatus::Succeeded.to_rcl(), String::from("P"));
    assert_eq!(r, Ok(ResultResponseOutcome::Delivered));
    assert_eq!(result_rx.try_recv().unwrap(), Some(String::from("P")));
}

#[test]
fn aborted_goal_drops_result_sink_unresolved() {
    let mut client = Client::new();
    let g3 = goal(3);

    let (result_tx, mut result_rx) = oneshot::channel::<String>();
    client.register_result_sender(g3, result_tx);
    client.register_result_request(4, g3);

    assert_eq!(client.handle_status_msg(vec![(goal_bytes(3), 6)]), Ok(()));
    assert_eq!(client.get_goal_status(&g3), GoalStatus::Aborted);

    // the result response arrives with status aborted: no payload is delivered
    let r = client.handle_result_response(4, GoalStatus::Aborted.to_rcl(), String::from("P"));
    assert_eq!(r, Ok(ResultResponseOutcome::DroppedNonSuccess));
    assert!(result_rx.try_recv().is_err());
    assert!(client.result_senders.is_empty());
}

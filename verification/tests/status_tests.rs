use action_client::goal_id::{goal_id_from_bytes, vec_to_uuid_bytes, GoalId};
use action_client::status::GoalStatus;

#[test]
fn status_codes_round_trip() {
    let all = [
        GoalStatus::Unknown,
        GoalStatus::Accepted,
        GoalStatus::Executing,
        GoalStatus::Canceling,
        GoalStatus::Succeeded,
        GoalStatus::Canceled,
        GoalStatus::Aborted,
    ];
    for (i, st) in all.iter().enumerate() {
        assert_eq!(st.to_rcl(), i as i8);
        assert_eq!(GoalStatus::from_rcl(i as i8), *st);
    }
}

#[test]
fn status_code_exact_values() {
    assert_eq!(GoalStatus::Succeeded.to_rcl(), 4);
    assert_eq!(GoalStatus::from_rcl(6), GoalStatus::Aborted);
    assert_eq!(GoalStatus::from_rcl(0), GoalStatus::Unknown);
}

#[test]
fn try_from_rcl_rejects_out_of_range() {
    assert_eq!(GoalStatus::try_from_rcl(7), None);
    assert_eq!(GoalStatus::try_from_rcl(-1), None);
    assert_eq!(GoalStatus::try_from_rcl(3), Some(GoalStatus::Canceling));
}

#[test]
fn vec_to_uuid_bytes_keeps_elements_in_order() {
    let v: Vec<u8> = (0u8..16u8).collect();
    let arr = vec_to_uuid_bytes(v);
    for i in 0..16usize {
        assert_eq!(arr[i], i as u8);
    }
}

#[test]
fn goal_id_decodes_big_endian() {
    let mut b = vec![0u8; 16];
    b[14] = 0x01;
    b[15] = 0x02;
    let g = goal_id_from_bytes(b).unwrap();
    assert_eq!(g, GoalId { val: 0x0102 });

    let top = {
        let mut b = vec![0u8; 16];
        b[0] = 0xff;
        goal_id_from_bytes(b).unwrap()
    };
    assert_eq!(top.val, 0xff << 120);
}

#[test]
fn goal_id_rejects_wrong_length() {
    assert_eq!(goal_id_from_bytes(vec![0u8; 15]), None);
    assert_eq!(goal_id_from_bytes(vec![0u8; 17]), None);
    assert_eq!(goal_id_from_bytes(Vec::new()), None);
}

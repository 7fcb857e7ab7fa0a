use dvc_zktls::fixture::{prefixed_hex, SP1ZktlsProofFixture};
use dvc_zktls::prover::{
    backend_of, select_mode, simulate_polls, Backend, PollAction, PollState, RemotePoll, RunMode,
    POLL_DEADLINE_SECS, POLL_INTERVAL_SECS,
};

#[test]
fn mode_needs_exactly_one_flag() {
    assert_eq!(select_mode(true, false), Some(RunMode::Execute));
    assert_eq!(select_mode(false, true), Some(RunMode::Prove));
    assert_eq!(select_mode(true, true), None);
    assert_eq!(select_mode(false, false), None);
}

#[test]
fn backend_is_network_only_when_set_so() {
    assert_eq!(backend_of(Some("network")), Backend::Network);
    assert_eq!(backend_of(Some("local")), Backend::Local);
    assert_eq!(backend_of(Some("networks")), Backend::Local);
    assert_eq!(backend_of(None), Backend::Local);
}

#[test]
fn never_ready_service_times_out() {
    let ready = vec![false; 100];
    assert_eq!(simulate_polls(POLL_INTERVAL_SECS, POLL_DEADLINE_SECS, &ready), None);
    assert_eq!(simulate_polls(POLL_INTERVAL_SECS, POLL_DEADLINE_SECS, &vec![]), None);
}

#[test]
fn ready_service_is_taken_at_that_poll() {
    let mut ready = vec![false; 10];
    ready[3] = true;
    assert_eq!(simulate_polls(POLL_INTERVAL_SECS, POLL_DEADLINE_SECS, &ready), Some(3));
    let mut late = vec![false; 70];
    late[60] = true;
    assert_eq!(simulate_polls(POLL_INTERVAL_SECS, POLL_DEADLINE_SECS, &late), Some(60));
    late[60] = false;
    late[61] = true;
    assert_eq!(simulate_polls(POLL_INTERVAL_SECS, POLL_DEADLINE_SECS, &late), None);
}

#[test]
fn poll_steps() {
    let mut p = RemotePoll::new(POLL_INTERVAL_SECS, POLL_DEADLINE_SECS);
    assert_eq!(p.state, PollState::Submitted);
    assert_eq!(p.before_query(0), PollAction::QueryStatus);
    assert_eq!(p.on_status(false), PollAction::Sleep(10));
    assert_eq!(p.before_query(600), PollAction::QueryStatus);
    assert_eq!(p.on_status(true), PollAction::Accept);
    assert_eq!(p.state, PollState::Fulfilled);
    let mut q = RemotePoll::new(POLL_INTERVAL_SECS, POLL_DEADLINE_SECS);
    assert_eq!(q.before_query(601), PollAction::Abort);
    assert_eq!(q.state, PollState::TimedOut);
}

#[test]
fn hex_is_prefixed_lowercase() {
    assert_eq!(prefixed_hex(&vec![0x0f, 0xa0, 0xff]), "0x0fa0ff");
    assert_eq!(prefixed_hex(&vec![]), "0x");
}

#[test]
fn fixture_holds_hex_and_request_id() {
    let id = vec![0xabu8; 32];
    let f = SP1ZktlsProofFixture::assemble(&vec![1, 2], &vec![0xde, 0xad], Some(&id), &vec![0]);
    assert_eq!(f.vk, "0x0102");
    assert_eq!(f.proof, "0xdead");
    assert_eq!(f.public_values, "0x00");
    assert_eq!(f.proof_id, format!("0x{}", "ab".repeat(32)));
    let local = SP1ZktlsProofFixture::assemble(&vec![1], &vec![2], None, &vec![]);
    assert_eq!(local.proof_id, "");
}

use hottoh::config::{AppConfig, HttpApiConfig, LogConfig, StoveConfig};
use hottoh::hottoh_const::{Command, CommandType};
use hottoh::shared_struct::SharedState;
use hottoh::tcp_client::{
    already_existing_request, clean_queues, enqueue_if_absent, frames_from_chunk,
    front_frame_to_send, ingest_chunk, link_step, manage_messages, mark_front_sent,
    next_request_id, periodic_requests, send_request, submit, LinkAction, LinkEvent, LinkOutcome,
    LinkState, TcpClient,
};
use hottoh::tcp_client_structs::{Request, Response, ResponseError};

fn strings(items: &[&str]) -> Vec<String> {
    items.iter().map(|s| s.to_string()).collect()
}

fn page1_response_text(id: u32) -> String {
    let mut f = vec!["1"];
    f.extend(vec!["215"; 10]);
    let r = Request::new(id, Command::Dat, CommandType::Read, strings(&f));
    String::from_utf8(r.build_message()).unwrap()
}

fn corrupt_checksum(frame: &str) -> String {
    let n = frame.len();
    let last = &frame[n - 2..n - 1];
    let replacement = if last == "0" { "1" } else { "0" };
    format!("{}{}\n", &frame[..n - 2], replacement)
}

fn sent_page1_request(id: u32, at_ms: u64) -> Request {
    let mut r = Request::new(id, Command::Dat, CommandType::Read, strings(&["1"]));
    r.mark_as_sent(at_ms);
    r
}

#[test]
fn identifiers_wrap_below_bound() {
    let mut c: u32 = 99998;
    assert_eq!(next_request_id(&mut c), 99998);
    assert_eq!(next_request_id(&mut c), 99999);
    assert_eq!(next_request_id(&mut c), 0);
    assert_eq!(c, 1);
}

#[test]
fn submit_queues_without_dedup() {
    let mut q = Vec::new();
    let mut c: u32 = 5;
    assert_eq!(submit(Command::Dat, CommandType::Write, strings(&["0", "1"]), &mut q, &mut c), 5);
    assert_eq!(submit(Command::Dat, CommandType::Write, strings(&["0", "1"]), &mut q, &mut c), 6);
    assert_eq!(q.len(), 2);
    assert_eq!(q[1].get_req_id(), 6);
    assert!(!q[1].is_sent());
    assert_eq!(q[1].get_sent_at(), None);
    assert_eq!(c, 7);
}

#[test]
fn request_equality_ignores_identifier() {
    let a = Request::new(1, Command::Dat, CommandType::Read, strings(&["0"]));
    let b = Request::new(2, Command::Dat, CommandType::Read, strings(&["0"]));
    let c = Request::new(1, Command::Dat, CommandType::Read, strings(&["1"]));
    assert!(a == b);
    assert!(a != c);
}

#[test]
fn existing_request_check_skips_deleted() {
    let mut q = Vec::new();
    send_request(Request::new(3, Command::Dat, CommandType::Read, strings(&["2"])), &mut q);
    assert!(already_existing_request(&Command::Dat, &CommandType::Read, &strings(&["2"]), &q));
    assert!(!already_existing_request(&Command::Dat, &CommandType::Write, &strings(&["2"]), &q));
    assert!(!already_existing_request(&Command::Dat, &CommandType::Read, &strings(&["1"]), &q));
    q[0].set_marked_as_deleted(true);
    assert!(!already_existing_request(&Command::Dat, &CommandType::Read, &strings(&["2"]), &q));
}

#[test]
fn identical_standing_request_is_not_queued_twice() {
    let mut q = Vec::new();
    let mut c: u32 = 0;
    assert!(enqueue_if_absent(Command::Inf, CommandType::Read, vec![], &mut q, &mut c));
    assert!(!enqueue_if_absent(Command::Inf, CommandType::Read, vec![], &mut q, &mut c));
    assert_eq!(q.len(), 1);
    assert_eq!(c, 1);
}

#[test]
fn poller_round_fills_and_then_holds() {
    let mut q = Vec::new();
    let mut c: u32 = 10;
    periodic_requests(&mut q, &mut c);
    assert_eq!(q.len(), 4);
    assert_eq!(*q[0].get_command(), Command::Inf);
    assert!(q[0].get_params().is_empty());
    for (k, page) in ["0", "1", "2"].iter().enumerate() {
        assert_eq!(*q[k + 1].get_command(), Command::Dat);
        assert_eq!(*q[k + 1].get_command_type(), CommandType::Read);
        assert_eq!(q[k + 1].get_params(), &strings(&[page]));
        assert_eq!(q[k + 1].get_req_id(), 11 + k as u32);
    }
    assert_eq!(c, 14);
    periodic_requests(&mut q, &mut c);
    assert_eq!(q.len(), 4);
    assert_eq!(c, 14);
    q[2].set_marked_as_deleted(true);
    periodic_requests(&mut q, &mut c);
    assert_eq!(q.len(), 5);
    assert_eq!(q[4].get_params(), &strings(&["1"]));
    assert_eq!(q[4].get_req_id(), 14);
}

#[test]
fn timed_out_request_is_evicted() {
    let mut reqs = vec![sent_page1_request(1, 1000), sent_page1_request(2, 1001)];
    let mut resps: Vec<Response> = Vec::new();
    let mut state = SharedState::new();
    assert_eq!(manage_messages(&mut reqs, &mut resps, &mut state, 6001), vec![1]);
    assert_eq!(reqs.len(), 1);
    assert_eq!(reqs[0].get_req_id(), 2);
    assert_eq!(manage_messages(&mut reqs, &mut resps, &mut state, 6002), vec![2]);
    assert!(reqs.is_empty());
}

#[test]
fn unsent_request_never_times_out() {
    let mut reqs = vec![Request::new(1, Command::Inf, CommandType::Read, vec![])];
    let mut resps: Vec<Response> = Vec::new();
    let mut state = SharedState::new();
    manage_messages(&mut reqs, &mut resps, &mut state, 1_000_000);
    assert_eq!(reqs.len(), 1);
}

#[test]
fn valid_response_updates_state_and_closes_request() {
    let mut reqs = vec![sent_page1_request(20, 1000)];
    let mut resps = vec![Response::from_message(&page1_response_text(20)).unwrap()];
    let mut state = SharedState::new();
    assert!(manage_messages(&mut reqs, &mut resps, &mut state, 2000).is_empty());
    assert!(reqs.is_empty());
    assert!(resps.is_empty());
    assert_eq!(state.get_dat1().index_page, 1);
    assert_eq!(state.get_dat1().index_temperature_1, 215);
    assert_eq!(state.get_dat0().index_page, 0);
}

#[test]
fn invalid_checksum_closes_request_without_applying() {
    let mut reqs = vec![sent_page1_request(21, 1000)];
    let bad = corrupt_checksum(&page1_response_text(21));
    let resp = Response::from_message(&bad).unwrap();
    assert!(!resp.is_crc_valid());
    let mut resps = vec![resp];
    let mut state = SharedState::new();
    manage_messages(&mut reqs, &mut resps, &mut state, 2000);
    assert!(reqs.is_empty());
    assert!(resps.is_empty());
    assert_eq!(state.get_dat1().index_page, 0);
    assert_eq!(state.get_dat1().index_temperature_1, 0);
    assert!(state.get_dat1().last_updated.is_empty());
}

#[test]
fn orphan_response_is_discarded() {
    let mut reqs = vec![sent_page1_request(30, 1000)];
    let mut resps = vec![Response::from_message(&page1_response_text(77)).unwrap()];
    let mut state = SharedState::new();
    manage_messages(&mut reqs, &mut resps, &mut state, 2000);
    assert!(resps.is_empty());
    assert_eq!(reqs.len(), 1);
    assert_eq!(state.get_dat1().index_page, 0);
}

#[test]
fn late_response_waits_one_cycle_then_goes() {
    let mut r = sent_page1_request(40, 1000);
    r.set_marked_as_deleted(true);
    let mut reqs = vec![r];
    let mut resps = vec![Response::from_message(&page1_response_text(40)).unwrap()];
    let mut state = SharedState::new();
    manage_messages(&mut reqs, &mut resps, &mut state, 2000);
    assert!(reqs.is_empty());
    assert_eq!(resps.len(), 1);
    assert_eq!(state.get_dat1().index_page, 0);
    manage_messages(&mut reqs, &mut resps, &mut state, 2200);
    assert!(resps.is_empty());
}

#[test]
fn compaction_keeps_order_of_live_entries() {
    let mut reqs = vec![
        Request::new(1, Command::Inf, CommandType::Read, vec![]),
        Request::new(2, Command::Inf, CommandType::Read, vec![]),
        Request::new(3, Command::Inf, CommandType::Read, vec![]),
    ];
    reqs[1].set_marked_as_deleted(true);
    let mut resps = vec![Response::from_message(&page1_response_text(5)).unwrap()];
    resps[0].set_marked_as_deleted(true);
    clean_queues(&mut reqs, &mut resps);
    assert_eq!(reqs.iter().map(|r| r.get_req_id()).collect::<Vec<_>>(), vec![1, 3]);
    assert!(resps.is_empty());
}

#[test]
fn chunk_splits_on_hash() {
    assert_eq!(frames_from_chunk("#abc\n#def\n"), strings(&["#abc\n", "#def\n"]));
    assert_eq!(frames_from_chunk("##x"), strings(&["#x"]));
    assert!(frames_from_chunk("").is_empty());
    assert_eq!(frames_from_chunk("lead#tail"), strings(&["#lead", "#tail"]));
}

#[test]
fn chunk_ingest_keeps_good_frames_in_order() {
    let first = page1_response_text(50);
    let second = page1_response_text(51);
    let chunk = format!("{}#garbage\n{}", first, second);
    let mut resps = Vec::new();
    let rejected = ingest_chunk(&chunk, &mut resps);
    assert_eq!(resps.len(), 2);
    assert_eq!(resps[0].get_req_id(), 50);
    assert_eq!(resps[1].get_req_id(), 51);
    assert_eq!(rejected.len(), 1);
    assert_eq!(rejected[0].0, "#garbage\n");
    assert!(matches!(rejected[0].1, ResponseError::MalformedFrame(_)));
}

#[test]
fn front_request_is_sent_once() {
    let mut q = vec![Request::new(1, Command::Inf, CommandType::Read, vec![])];
    assert_eq!(front_frame_to_send(&q), Some(b"#00001C---0001INFR;9C04\n".to_vec()));
    mark_front_sent(&mut q, 500);
    assert!(q[0].is_sent());
    assert_eq!(q[0].get_sent_at(), Some(500));
    assert_eq!(front_frame_to_send(&q), None);
    let empty: Vec<Request> = Vec::new();
    assert_eq!(front_frame_to_send(&empty), None);
}

fn ev(running: bool, now_ms: u64, outcome: LinkOutcome) -> LinkEvent {
    LinkEvent { running, now_ms, outcome }
}

#[test]
fn link_connects_sends_and_reconnects() {
    let s = LinkState::Disconnected;
    let (s, a) = link_step(s, ev(true, 0, LinkOutcome::Tick { front_unsent: true }));
    assert_eq!(a, LinkAction::Connect);
    let (s2, a) = link_step(s, ev(true, 10, LinkOutcome::ConnectFailed));
    assert_eq!((s2, a), (LinkState::Disconnected, LinkAction::Pause(5000)));
    let (s, a) = link_step(s, ev(true, 100, LinkOutcome::ConnectOk));
    assert_eq!(s, LinkState::Connected { last_sent_ms: 100 });
    assert_eq!(a, LinkAction::Receive);
    let (s, a) = link_step(s, ev(true, 1099, LinkOutcome::Tick { front_unsent: true }));
    assert_eq!(a, LinkAction::Receive);
    let (s, a) = link_step(s, ev(true, 1100, LinkOutcome::Tick { front_unsent: false }));
    assert_eq!(a, LinkAction::Receive);
    let (s, a) = link_step(s, ev(true, 1100, LinkOutcome::Tick { front_unsent: true }));
    assert_eq!(a, LinkAction::SendFront);
    let (s3, a) = link_step(s, ev(true, 1101, LinkOutcome::SendWouldBlock));
    assert_eq!((s3, a), (s, LinkAction::Continue));
    let (s, a) = link_step(s, ev(true, 1102, LinkOutcome::SendOk));
    assert_eq!(s, LinkState::Connected { last_sent_ms: 1102 });
    assert_eq!(a, LinkAction::Receive);
    let (s, a) = link_step(s, ev(true, 1103, LinkOutcome::ReceiveOk));
    assert_eq!(a, LinkAction::Pause(200));
    let (s, a) = link_step(s, ev(true, 1400, LinkOutcome::ReceiveFailed));
    assert_eq!((s, a), (LinkState::Disconnected, LinkAction::Pause(5000)));
}

#[test]
fn link_stops_on_shutdown_and_on_faults() {
    let c = LinkState::Connected { last_sent_ms: 0 };
    assert_eq!(
        link_step(c, ev(false, 9, LinkOutcome::ReceiveOk)),
        (LinkState::Stopped, LinkAction::Exit)
    );
    assert_eq!(
        link_step(LinkState::Disconnected, ev(true, 9, LinkOutcome::SendOk)),
        (LinkState::Stopped, LinkAction::Exit)
    );
    assert_eq!(
        link_step(c, ev(true, 9, LinkOutcome::SendFailed)),
        (LinkState::Disconnected, LinkAction::Pause(5000))
    );
    assert_eq!(
        link_step(LinkState::Stopped, ev(true, 9, LinkOutcome::Tick { front_unsent: true })),
        (LinkState::Stopped, LinkAction::Exit)
    );
}

#[test]
fn client_holds_its_handles() {
    let client = TcpClient::new(1u8, 2u16, true);
    assert_eq!(client.request_queue, 1);
    assert_eq!(client.response_queue, 2);
    assert!(client.running);
}

#[test]
fn shared_state_setters_replace_wholesale() {
    let mut state = SharedState::new();
    assert!(state.get_inf().hostname.is_empty());
    let inf = hottoh::hottoh_structs::INFData::from_slice(&["h", "v", "s"]).unwrap();
    state.set_inf(&inf);
    assert_eq!(state.get_inf().hostname, "h");
    let copy = state.snapshot();
    assert_eq!(copy.get_inf().version, "v");
    assert_eq!(copy.get_dat2().index_page, 0);
}

#[test]
fn config_addresses() {
    let cfg = AppConfig {
        stove: StoveConfig { ip: "192.168.1.10".to_string(), port: 5001 },
        http_api: HttpApiConfig { ip: "0.0.0.0".to_string(), port: 8080 },
        log: LogConfig { level: "info".to_string(), directory: "logs".to_string(), max_log_files: 7 },
    };
    assert_eq!(cfg.stove_address(), "192.168.1.10:5001");
    assert_eq!(cfg.http_address(), "0.0.0.0:8080");
}

#[test]
fn sent_at_is_set_once() {
    let mut r = Request::new(1, Command::Inf, CommandType::Read, vec![]);
    r.mark_as_sent(100);
    r.mark_as_sent(900);
    assert!(r.is_sent());
    assert_eq!(r.get_sent_at(), Some(100));
    let mut q = vec![r];
    mark_front_sent(&mut q, 2000);
    assert_eq!(q[0].get_sent_at(), Some(100));
}

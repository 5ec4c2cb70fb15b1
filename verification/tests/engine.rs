use relay::broadcast::{Channel, RecvOutcome};
use relay::codegen::{make_code, unique_code, CODE_LEN};
use relay::protocol::{parse_command, Command};
use relay::room::Room;
use relay::session::{
    error_line, handle_command, poll_room, session_cleanup, usize_to_string, ClientCtx,
};
use relay::state::ServerState;

const ALPHABET: &str = "ABCDEFGHJKMNPQRSTUVWXYZ23456789";

fn from_alphabet(s: &str) -> bool {
    s.chars().all(|c| ALPHABET.contains(c))
}

fn run(state: &mut ServerState, ctx: &mut ClientCtx, line: &str) -> relay::session::Reply {
    let cmd = parse_command(line).expect("line should parse");
    handle_command(state, ctx, cmd)
}

#[test]
fn generated_codes_have_the_asked_length_and_alphabet() {
    assert_eq!(make_code(0).len(), 0);
    let c8 = make_code(8);
    assert_eq!(c8.chars().count(), 8);
    assert!(from_alphabet(&c8));
    let c20 = make_code(20);
    assert_eq!(c20.chars().count(), 20);
    assert!(from_alphabet(&c20));
}

#[test]
fn unique_code_avoids_registered_codes() {
    let mut state = ServerState::new();
    for _ in 0..64 {
        let code = make_code(2);
        state.insert_room(code, Room::new(4));
    }
    for _ in 0..50 {
        let fresh = unique_code(&state, CODE_LEN);
        assert_eq!(fresh.chars().count(), CODE_LEN);
        assert!(from_alphabet(&fresh));
        assert!(!state.contains_code(&fresh));
    }
}

#[test]
fn member_counter_follows_paired_calls() {
    let mut room = Room::new(4);
    assert_eq!(room.len(), 0);
    room.inc();
    room.inc();
    assert_eq!(room.len(), 2);
    room.dec();
    assert_eq!(room.len(), 1);
    room.dec();
    assert_eq!(room.len(), 0);
}

#[test]
fn dec_member_never_drives_a_count_negative() {
    let mut state = ServerState::new();
    state.insert_room(String::from("AAAA2222"), Room::new(4));
    assert!(state.dec_member("AAAA2222"));
    assert_eq!(state.get_room("AAAA2222").unwrap().len(), 0);
    assert!(state.dec_member("AAAA2222"));
    assert_eq!(state.get_room("AAAA2222").unwrap().len(), 0);
}

#[test]
fn remove_if_empty_only_reaps_empty_rooms() {
    let mut state = ServerState::new();
    let mut busy = Room::new(4);
    busy.inc();
    state.insert_room(String::from("BUSY2222"), busy);
    state.insert_room(String::from("IDLE2222"), Room::new(4));
    state.remove_if_empty("BUSY2222");
    state.remove_if_empty("IDLE2222");
    state.remove_if_empty("GONE2222");
    assert!(state.contains_code("BUSY2222"));
    assert!(!state.contains_code("IDLE2222"));
}

#[test]
fn list_rooms_snapshots_codes_and_counts() {
    let mut state = ServerState::new();
    let mut a = Room::new(4);
    a.inc();
    a.inc();
    state.insert_room(String::from("AAAA2222"), a);
    state.insert_room(String::from("BBBB3333"), Room::new(4));
    let listed = state.list_rooms();
    assert_eq!(listed.len(), 2);
    assert_eq!(listed[0], (String::from("AAAA2222"), 2));
    assert_eq!(listed[1], (String::from("BBBB3333"), 0));
}

#[test]
fn broadcasts_arrive_in_send_order() {
    let mut chan = Channel::new(8);
    let mut rx = chan.subscribe();
    chan.send(String::from("one"));
    chan.send(String::from("two"));
    chan.send(String::from("three"));
    for expected in ["one", "two", "three"] {
        match rx.recv(&chan) {
            RecvOutcome::Msg(m) => assert_eq!(m, expected),
            other => panic!("expected {:?}, got another outcome: {:?}", expected, matches!(other, RecvOutcome::Empty)),
        }
    }
    assert!(matches!(rx.recv(&chan), RecvOutcome::Empty));
}

#[test]
fn late_subscriber_never_sees_earlier_messages() {
    let mut chan = Channel::new(8);
    chan.send(String::from("early"));
    let mut rx = chan.subscribe();
    chan.send(String::from("late"));
    match rx.recv(&chan) {
        RecvOutcome::Msg(m) => assert_eq!(m, "late"),
        _ => panic!("expected the late message"),
    }
    assert!(matches!(rx.recv(&chan), RecvOutcome::Empty));
}

#[test]
fn slow_subscriber_is_told_how_many_it_skipped() {
    let mut chan = Channel::new(2);
    let mut rx = chan.subscribe();
    for m in ["a", "b", "c", "d", "e"] {
        chan.send(String::from(m));
    }
    match rx.recv(&chan) {
        RecvOutcome::Lagged(n) => assert_eq!(n, 3),
        _ => panic!("expected a lag notification"),
    }
    match rx.recv(&chan) {
        RecvOutcome::Msg(m) => assert_eq!(m, "d"),
        _ => panic!("expected the oldest kept message"),
    }
    match rx.recv(&chan) {
        RecvOutcome::Msg(m) => assert_eq!(m, "e"),
        _ => panic!("expected the newest message"),
    }
    assert!(matches!(rx.recv(&chan), RecvOutcome::Empty));
}

fn poll_all(state: &ServerState, ctx: &mut ClientCtx) -> Vec<String> {
    let mut seen: Vec<String> = Vec::new();
    loop {
        let lines = poll_room(state, ctx);
        if lines.is_empty() {
            return seen;
        }
        seen.extend(lines);
    }
}

#[test]
fn two_clients_relay_a_conversation() {
    let mut state = ServerState::new();
    let mut alice = ClientCtx::new();
    let mut bob = ClientCtx::new();

    let r = run(&mut state, &mut alice, "NICK Alice");
    assert_eq!(r.lines, vec!["[ok] nickname set to 'Alice'"]);
    let r = run(&mut state, &mut alice, "CREATE");
    assert_eq!(r.lines.len(), 1);
    let line = &r.lines[0];
    assert!(line.starts_with("[ok] room created: "), "got {line}");
    let code = line["[ok] room created: ".len()..].to_string();
    assert_eq!(code.len(), 8);
    assert!(from_alphabet(&code));
    assert_eq!(poll_all(&state, &mut alice), vec!["[server] Alice joined"]);

    let r = run(&mut state, &mut bob, "NICK Bob");
    assert!(!r.quit);
    let r = run(&mut state, &mut bob, &format!("JOIN {code}"));
    assert_eq!(r.lines, vec![format!("[ok] joined room '{code}'")]);
    assert_eq!(poll_all(&state, &mut alice), vec!["[server] Bob joined."]);
    assert_eq!(poll_all(&state, &mut bob), vec!["[server] Bob joined."]);
    assert_eq!(state.get_room(&code).unwrap().len(), 2);

    let r = run(&mut state, &mut bob, "MSG hi");
    assert!(r.lines.is_empty());
    assert_eq!(poll_all(&state, &mut alice), vec!["Bob: hi"]);
    assert_eq!(poll_all(&state, &mut bob), vec!["Bob: hi"]);

    session_cleanup(&mut state, &mut bob);
    assert_eq!(poll_all(&state, &mut alice), vec!["[server] Bob left."]);
    assert_eq!(state.get_room(&code).unwrap().len(), 1);
    assert!(state.contains_code(&code));

    let r = run(&mut state, &mut alice, "QUIT");
    assert!(r.quit);
    assert_eq!(r.lines, vec!["Goodbye."]);
    session_cleanup(&mut state, &mut alice);
    assert!(!state.contains_code(&code));
}

#[test]
fn commands_before_their_preconditions_fail() {
    let mut state = ServerState::new();
    let mut ctx = ClientCtx::new();
    let r = run(&mut state, &mut ctx, "MSG hi");
    assert_eq!(r.lines, vec!["[error] set a nickname first: NICK <name>"]);
    let r = run(&mut state, &mut ctx, "CREATE");
    assert_eq!(r.lines, vec!["[error] set a nickname first: NICK <name>"]);
    let r = run(&mut state, &mut ctx, "JOIN AAAA2222");
    assert_eq!(r.lines, vec!["[error] set a nickname first: NICK <name>"]);
    let r = run(&mut state, &mut ctx, "NICK Zoe");
    assert!(!r.quit);
    let r = run(&mut state, &mut ctx, "MSG hi");
    assert_eq!(r.lines, vec!["[error] join a room first: JOIN <CODE>"]);
    let r = run(&mut state, &mut ctx, "JOIN AAAA2222");
    assert_eq!(r.lines, vec!["[error] no such room: AAAA2222"]);
    assert_eq!(state.list_rooms().len(), 0);
}

#[test]
fn vanished_room_fails_msg_and_closes_the_subscription() {
    let mut state = ServerState::new();
    let mut ctx = ClientCtx::new();
    run(&mut state, &mut ctx, "NICK Ann");
    let r = run(&mut state, &mut ctx, "CREATE");
    let code = r.lines[0]["[ok] room created: ".len()..].to_string();
    state.dec_member(&code);
    state.remove_if_empty(&code);
    assert!(!state.contains_code(&code));
    let r = run(&mut state, &mut ctx, "MSG hello");
    assert_eq!(r.lines, vec!["[error] room no longer exists"]);
    let lines = poll_room(&state, &mut ctx);
    assert_eq!(lines, vec!["[server] Room closed"]);
    let r = run(&mut state, &mut ctx, "MSG hello");
    assert_eq!(r.lines, vec!["[error] join a room first: JOIN <CODE>"]);
}

#[test]
fn joining_another_room_leaves_the_first() {
    let mut state = ServerState::new();
    let mut ann = ClientCtx::new();
    let mut ben = ClientCtx::new();
    run(&mut state, &mut ann, "NICK Ann");
    let code_a = run(&mut state, &mut ann, "CREATE").lines[0]
        ["[ok] room created: ".len()..]
        .to_string();
    run(&mut state, &mut ben, "NICK Ben");
    let code_b = run(&mut state, &mut ben, "CREATE").lines[0]
        ["[ok] room created: ".len()..]
        .to_string();
    let r = run(&mut state, &mut ann, &format!("JOIN {code_b}"));
    assert_eq!(r.lines, vec![format!("[ok] joined room '{code_b}'")]);
    assert!(!state.contains_code(&code_a), "emptied room is reaped on leave");
    assert_eq!(state.get_room(&code_b).unwrap().len(), 2);
    assert_eq!(poll_all(&state, &mut ben), vec!["[server] Ben joined", "[server] Ann joined."]);
}

#[test]
fn help_lists_every_command() {
    let mut state = ServerState::new();
    let mut ctx = ClientCtx::new();
    let r = run(&mut state, &mut ctx, "help");
    assert_eq!(
        r.lines,
        vec![
            "Commands:",
            "NICK <name>   - set your nickname",
            "CREATE        - create a new room",
            "JOIN <CODE>   - join an existing room",
            "MSG <text>    - send a message to your room",
            "QUIT          - disconnect",
        ],
    );
    assert!(!r.quit);
}

#[test]
fn numbers_render_in_decimal() {
    assert_eq!(usize_to_string(0), "0");
    assert_eq!(usize_to_string(7), "7");
    assert_eq!(usize_to_string(10), "10");
    assert_eq!(usize_to_string(512), "512");
    assert_eq!(usize_to_string(10203), "10203");
}

#[test]
fn error_lines_carry_the_prefix() {
    assert_eq!(error_line("usage: MSG <text>"), "[error] usage: MSG <text>");
}

#[test]
fn lag_warning_reaches_the_client() {
    let mut state = ServerState::new();
    let mut slow = ClientCtx::new();
    let mut loud = ClientCtx::new();
    run(&mut state, &mut slow, "NICK Slow");
    let code = run(&mut state, &mut slow, "CREATE").lines[0]
        ["[ok] room created: ".len()..]
        .to_string();
    run(&mut state, &mut loud, "NICK Loud");
    run(&mut state, &mut loud, &format!("JOIN {code}"));
    for i in 0..515 {
        run(&mut state, &mut loud, &format!("MSG {i}"));
    }
    let first = poll_room(&state, &mut slow);
    assert_eq!(first, vec!["[server] Warning: skipped 5 message"]);
    let next = poll_room(&state, &mut slow);
    assert_eq!(next, vec!["Loud: 3"]);
}

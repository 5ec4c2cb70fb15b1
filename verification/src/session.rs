//! The per-connection session logic: the client's identity and room
//! membership, command dispatch, reaction to room events, and the leave
//! sequence run on disconnect. Everything here is a pure state transition on
//! the registry and the session context; reading lines and writing replies
//! stays outside the library.

use vstd::prelude::*;
use vstd::string::StrSliceExecFns;
use vstd::string::StringExecFns;
use crate::broadcast::{Receiver, RecvOutcome};
use crate::codegen::{unique_code, all_from_alphabet, CODE_LEN};
use crate::protocol::Command;
use crate::room::Room;
use crate::state::{same_rooms_except, ServerState};

verus! {

/// The per-subscriber backlog of a room's broadcast channel.
pub const ROOM_CAPACITY: usize = 512;

/// The context owned by one connection: the nickname, the current room code,
/// and the receiving end of that room's channel.
pub struct ClientCtx {
    nick: Option<String>,
    room_code: Option<String>,
    room_rx: Option<Receiver>,
}

/// What one dispatched command tells the connection: lines to write to the
/// client, and whether the session is over.
pub struct Reply {
    pub lines: Vec<String>,
    pub quit: bool,
}

impl ClientCtx {
    /// The nickname, as characters.
    pub closed spec fn nick(&self) -> Option<Seq<char>> {
        match self.nick {
            Some(ref n) => Some(n@),
            None => None,
        }
    }

    /// The current room code, as characters.
    pub closed spec fn room(&self) -> Option<Seq<char>> {
        match self.room_code {
            Some(ref c) => Some(c@),
            None => None,
        }
    }

    /// The receiving end of the current room's channel.
    pub closed spec fn rx(&self) -> Option<Receiver> {
        self.room_rx
    }

    pub open spec fn wf(&self) -> bool {
        &&& (match self.rx() {
            Some(rx) => rx.wf(),
            None => true,
        })
        &&& (self.rx() is Some <==> self.room() is Some)
    }

    /// A fresh context: no nickname, no room, no subscription.
    pub fn new() -> (r: ClientCtx)
        ensures
            r.wf(),
            r.nick() is None,
            r.room() is None,
            r.rx() is None,
    {
        ClientCtx { nick: None, room_code: None, room_rx: None }
    }
}

/// The room-lifecycle announcement sent when a member enters through CREATE.
pub open spec fn created_join_line(nick: Seq<char>) -> Seq<char> {
    "[server] "@ + nick + " joined"@
}

/// The room-lifecycle announcement sent when a member enters through JOIN.
pub open spec fn joined_line(nick: Seq<char>) -> Seq<char> {
    "[server] "@ + nick + " joined."@
}

/// The room-lifecycle announcement sent when a member leaves.
pub open spec fn left_line(nick: Seq<char>) -> Seq<char> {
    "[server] "@ + nick + " left."@
}

/// The broadcast form of a chat message.
pub open spec fn chat_line(nick: Seq<char>, text: Seq<char>) -> Seq<char> {
    nick + ": "@ + text
}

/// The decimal digit character for a value below ten.
pub open spec fn dec_digit(d: nat) -> char {
    if d == 0 { '0' } else if d == 1 { '1' } else if d == 2 { '2' }
    else if d == 3 { '3' } else if d == 4 { '4' } else if d == 5 { '5' }
    else if d == 6 { '6' } else if d == 7 { '7' } else if d == 8 { '8' }
    else { '9' }
}

/// The decimal rendering of a number, most significant digit first.
pub open spec fn dec_digits(n: nat) -> Seq<char>
    decreases n,
{
    if n < 10 {
        seq![dec_digit(n)]
    } else {
        dec_digits(n / 10).push(dec_digit(n % 10))
    }
}

fn digit_str(d: usize) -> (r: &'static str)
    requires
        d < 10,
    ensures
        r@ =~= seq![dec_digit(d as nat)],
{
    let r: &'static str = if d == 0 { "0" } else if d == 1 { "1" } else if d == 2 { "2" }
    else if d == 3 { "3" } else if d == 4 { "4" } else if d == 5 { "5" }
    else if d == 6 { "6" } else if d == 7 { "7" } else if d == 8 { "8" } else { "9" };
    proof {
        reveal_strlit("0"); reveal_strlit("1"); reveal_strlit("2"); reveal_strlit("3");
        reveal_strlit("4"); reveal_strlit("5"); reveal_strlit("6"); reveal_strlit("7");
        reveal_strlit("8"); reveal_strlit("9");
    }
    r
}

/// Renders a number in decimal.
pub fn usize_to_string(n: usize) -> (r: String)
    ensures
        r@ == dec_digits(n as nat),
    decreases n,
{
    if n < 10 {
        let r = String::from_str(digit_str(n));
        proof {
            assert(r@ =~= dec_digits(n as nat));
        }
        r
    } else {
        let q = usize_to_string(n / 10);
        let r = q.concat(digit_str(n % 10));
        proof {
            assert(r@ =~= dec_digits(n as nat));
        }
        r
    }
}

/// The `[error]`-prefixed form in which a failure is reported to the client.
pub fn error_line(e: &str) -> (r: String)
    ensures
        r@ == "[error] "@ + e@,
{
    String::from_str("[error] ").concat(e)
}

/// The effect of the leave sequence on the registry: the member count of the
/// room for `code` is counted down, the departure is announced when the
/// nickname is known, and the room is reaped when the count reached zero.
/// An unknown code leaves the registry untouched.
pub open spec fn departed(
    pre: ServerState,
    post: ServerState,
    code: Seq<char>,
    nick: Option<Seq<char>>,
) -> bool {
    if !pre.has_code(code) {
        post == pre
    } else {
        let r = pre.room_of(code);
        let c2: nat = if r.member_count() > 0 {
            (r.member_count() - 1) as nat
        } else {
            0
        };
        if c2 == 0 {
            &&& !post.has_code(code)
            &&& same_rooms_except(pre, post, code)
        } else {
            &&& post.has_code(code)
            &&& same_rooms_except(pre, post, code)
            &&& post.room_of(code).member_count() == c2
            &&& post.room_of(code).channel().cap() == r.channel().cap()
            &&& (match nick {
                Some(n) => {
                    &&& (r.channel().total_sent() < usize::MAX ==> post.room_of(code).history()
                        == r.history().push(left_line(n)))
                    &&& (r.channel().total_sent() >= usize::MAX ==> post.room_of(code).channel()
                        == r.channel())
                },
                None => post.room_of(code).channel() == r.channel(),
            })
        }
    }
}

fn cmd_help() -> (r: Reply)
    ensures
        !r.quit,
        r.lines@.len() == 6,
        r.lines@[0]@ == "Commands:"@,
        r.lines@[1]@ == "NICK <name>   - set your nickname"@,
        r.lines@[2]@ == "CREATE        - create a new room"@,
        r.lines@[3]@ == "JOIN <CODE>   - join an existing room"@,
        r.lines@[4]@ == "MSG <text>    - send a message to your room"@,
        r.lines@[5]@ == "QUIT          - disconnect"@,
{
    let mut lines: Vec<String> = Vec::new();
    lines.push(String::from_str("Commands:"));
    lines.push(String::from_str("NICK <name>   - set your nickname"));
    lines.push(String::from_str("CREATE        - create a new room"));
    lines.push(String::from_str("JOIN <CODE>   - join an existing room"));
    lines.push(String::from_str("MSG <text>    - send a message to your room"));
    lines.push(String::from_str("QUIT          - disconnect"));
    Reply { lines, quit: false }
}

fn cmd_quit() -> (r: Reply)
    ensures
        r.quit,
        r.lines@.len() == 1,
        r.lines@[0]@ == "Goodbye."@,
{
    let mut lines: Vec<String> = Vec::new();
    lines.push(String::from_str("Goodbye."));
    Reply { lines, quit: true }
}

fn cmd_nick(ctx: &mut ClientCtx, name: String) -> (r: Reply)
    requires
        old(ctx).wf(),
    ensures
        final(ctx).wf(),
        !r.quit,
        final(ctx).nick() == Some(name@),
        final(ctx).room() == old(ctx).room(),
        final(ctx).rx() == old(ctx).rx(),
        r.lines@.len() == 1,
        r.lines@[0]@ == "[ok] nickname set to '"@ + name@ + "'"@,
{
    let mut lines: Vec<String> = Vec::new();
    lines.push(String::from_str("[ok] nickname set to '").concat(name.as_str()).concat("'"));
    ctx.nick = Some(name);
    Reply { lines, quit: false }
}

fn no_nick_reply() -> (r: Reply)
    ensures
        !r.quit,
        r.lines@.len() == 1,
        r.lines@[0]@ == "[error] set a nickname first: NICK <name>"@,
{
    let mut lines: Vec<String> = Vec::new();
    lines.push(String::from_str("[error] set a nickname first: NICK <name>"));
    Reply { lines, quit: false }
}

fn cmd_create(state: &mut ServerState, ctx: &mut ClientCtx) -> (r: Reply)
    requires
        old(state).wf(),
        old(ctx).wf(),
    ensures
        final(state).wf(),
        final(ctx).wf(),
        !r.quit,
        (match old(ctx).nick() {
            None => {
                &&& *final(state) == *old(state)
                &&& *final(ctx) == *old(ctx)
                &&& r.lines@.len() == 1
                &&& r.lines@[0]@ == "[error] set a nickname first: NICK <name>"@
            },
            Some(nick) => (match final(ctx).room() {
                Some(code) => {
                    &&& code.len() == CODE_LEN || code.len() == CODE_LEN + 1
                    &&& all_from_alphabet(code)
                    &&& (code.len() == CODE_LEN ==> !old(state).has_code(code))
                    &&& final(state).has_code(code)
                    &&& same_rooms_except(*old(state), *final(state), code)
                    &&& {
                        let room = final(state).room_of(code);
                        &&& room.member_count() == 1
                        &&& room.channel().cap() == ROOM_CAPACITY
                        &&& room.history() == Seq::<Seq<char>>::empty().push(
                            created_join_line(nick),
                        )
                    }
                    &&& (match final(ctx).rx() {
                        Some(rx) => {
                            &&& rx.sub_point() == 0
                            &&& rx.cursor() == 0
                            &&& rx.missed() == 0
                            &&& rx.received().len() == 0
                        },
                        None => false,
                    })
                    &&& final(ctx).nick() == old(ctx).nick()
                    &&& r.lines@.len() == 1
                    &&& r.lines@[0]@ == "[ok] room created: "@ + code
                },
                None => false,
            }),
        }),
{
    let nick = match &ctx.nick {
        Some(n) => n.clone(),
        None => {
            return no_nick_reply();
        },
    };
    let code = unique_code(state, CODE_LEN);
    let mut room = Room::new(ROOM_CAPACITY);
    room.inc();
    let rx = room.subscribe();
    room.send(String::from_str("[server] ").concat(nick.as_str()).concat(" joined"));
    state.insert_room(code.clone(), room);
    ctx.room_code = Some(code.clone());
    ctx.room_rx = Some(rx);
    let mut lines: Vec<String> = Vec::new();
    lines.push(String::from_str("[ok] room created: ").concat(code.as_str()));
    Reply { lines, quit: false }
}

/// Rooms other than the two keyed by `c1` and `c2` are the same in `post`
/// as in `pre`.
pub open spec fn same_rooms_except_two(
    pre: ServerState,
    post: ServerState,
    c1: Seq<char>,
    c2: Seq<char>,
) -> bool {
    &&& forall|c: Seq<char>|
        c != c1 && c != c2 ==> #[trigger] post.has_code(c) == pre.has_code(c)
    &&& forall|c: Seq<char>|
        c != c1 && c != c2 && pre.has_code(c) ==> #[trigger] post.room_of(c) == pre.room_of(c)
}

/// What became of the room a joining member walked out of: counted down,
/// told of the departure, and reaped when emptied.
pub open spec fn old_room_left(
    pre: ServerState,
    post: ServerState,
    oc: Seq<char>,
    nick: Seq<char>,
) -> bool {
    if !pre.has_code(oc) {
        !post.has_code(oc)
    } else {
        let r0 = pre.room_of(oc);
        let c2: nat = if r0.member_count() > 0 {
            (r0.member_count() - 1) as nat
        } else {
            0
        };
        if c2 == 0 {
            !post.has_code(oc)
        } else {
            &&& post.has_code(oc)
            &&& post.room_of(oc).member_count() == c2
            &&& post.room_of(oc).channel().cap() == r0.channel().cap()
            &&& (r0.channel().total_sent() < usize::MAX ==> post.room_of(oc).history()
                == r0.history().push(left_line(nick)))
            &&& (r0.channel().total_sent() >= usize::MAX ==> post.room_of(oc).channel()
                == r0.channel())
        }
    }
}

/// The whole observable effect of one JOIN command: the precondition errors,
/// or the leave sequence on a different old room followed by entering the
/// target room, whose receiving end is attached just before the arrival is
/// announced.
pub open spec fn join_effect(
    pre_s: ServerState,
    post_s: ServerState,
    pre_c: ClientCtx,
    post_c: ClientCtx,
    code: Seq<char>,
    r: Reply,
) -> bool {
    match pre_c.nick() {
        None => {
            &&& post_s == pre_s
            &&& post_c == pre_c
            &&& r.lines@.len() == 1
            &&& r.lines@[0]@ == "[error] set a nickname first: NICK <name>"@
        },
        Some(nick) => {
            if !pre_s.has_code(code) {
                &&& post_s == pre_s
                &&& post_c == pre_c
                &&& r.lines@.len() == 1
                &&& r.lines@[0]@ == "[error] no such room: "@ + code
            } else {
                let b = pre_s.room_of(code);
                let a = post_s.room_of(code);
                &&& post_s.has_code(code)
                &&& a.member_count() == (if b.member_count() < usize::MAX {
                    b.member_count() + 1
                } else {
                    b.member_count()
                })
                &&& a.channel().cap() == b.channel().cap()
                &&& (b.channel().total_sent() < usize::MAX ==> a.history() == b.history().push(
                    joined_line(nick),
                ))
                &&& (b.channel().total_sent() >= usize::MAX ==> a.channel() == b.channel())
                &&& (match post_c.rx() {
                    Some(rx) => {
                        &&& rx.wf()
                        &&& rx.sub_point() == b.channel().total_sent()
                        &&& rx.cursor() == rx.sub_point()
                        &&& rx.missed() == 0
                        &&& rx.received().len() == 0
                    },
                    None => false,
                })
                &&& (match pre_c.room() {
                    Some(oc) => if oc != code {
                        &&& old_room_left(pre_s, post_s, oc, nick)
                        &&& same_rooms_except_two(pre_s, post_s, oc, code)
                    } else {
                        same_rooms_except(pre_s, post_s, code)
                    },
                    None => same_rooms_except(pre_s, post_s, code),
                })
                &&& post_c.room() == Some(code)
                &&& post_c.nick() == pre_c.nick()
                &&& r.lines@.len() == 1
                &&& r.lines@[0]@ == "[ok] joined room '"@ + code + "'"@
            }
        },
    }
}

#[verifier::rlimit(100)]
#[verifier::spinoff_prover]
fn cmd_join(state: &mut ServerState, ctx: &mut ClientCtx, code: String) -> (r: Reply)
    requires
        old(state).wf(),
        old(ctx).wf(),
    ensures
        final(state).wf(),
        final(ctx).wf(),
        !r.quit,
        join_effect(*old(state), *final(state), *old(ctx), *final(ctx), code@, r),
{
    let ghost pre_ctx = *ctx;
    let nick = match &ctx.nick {
        Some(n) => n.clone(),
        None => {
            let r = no_nick_reply();
            proof {
                assert(join_effect(*old(state), *state, pre_ctx, *ctx, code@, r));
            }
            return r;
        },
    };
    let rx = match state.subscribe_to(code.as_str()) {
        Some(rx) => rx,
        None => {
            let mut lines: Vec<String> = Vec::new();
            lines.push(String::from_str("[error] no such room: ").concat(code.as_str()));
            let r = Reply { lines, quit: false };
            proof {
                assert(join_effect(*old(state), *state, pre_ctx, *ctx, code@, r));
            }
            return r;
        },
    };
    let ghost pre = *state;
    let ghost grx = rx;
    let oc_opt: Option<String> = match &ctx.room_code {
        Some(s) => Some(s.clone()),
        None => None,
    };
    match &oc_opt {
        Some(oc) => {
            if !oc.eq(&code) {
                let _left = state.dec_member(oc.as_str());
                let _told = state.broadcast(
                    oc.as_str(),
                    String::from_str("[server] ").concat(nick.as_str()).concat(" left."),
                );
                state.remove_if_empty(oc.as_str());
                proof {
                    assert(old_room_left(pre, *state, oc@, nick@));
                }
            }
        },
        None => {},
    }
    let ghost mid = *state;
    let _in = state.inc_member(code.as_str());
    let ghost after_inc = *state;
    let _sent = state.broadcast(
        code.as_str(),
        String::from_str("[server] ").concat(nick.as_str()).concat(" joined."),
    );
    proof {
        crate::state::lemma_same_rooms_trans(mid, after_inc, *state, code@);
    }
    ctx.room_code = Some(code.clone());
    ctx.room_rx = Some(rx);
    let mut lines: Vec<String> = Vec::new();
    lines.push(String::from_str("[ok] joined room '").concat(code.as_str()).concat("'"));
    let r = Reply { lines, quit: false };
    proof {
        assert(pre_ctx.nick() == Some(nick@));
        assert(pre_ctx.room() == (match oc_opt {
            Some(ref s) => Some(s@),
            None => None::<Seq<char>>,
        }));
        assert(mid.has_code(code@));
        assert(mid.room_of(code@) == pre.room_of(code@));
        assert(ctx.rx() == Some(grx));
        match &oc_opt {
            Some(oc) => {
                if oc@ != code@ {
                    assert(old_room_left(pre, mid, oc@, nick@));
                    assert(same_rooms_except(mid, *state, code@));
                    assert(state.has_code(oc@) == mid.has_code(oc@));
                    assert(mid.has_code(oc@) ==> state.room_of(oc@) == mid.room_of(oc@));
                    assert(old_room_left(pre, *state, oc@, nick@));
                    assert(same_rooms_except_two(pre, *state, oc@, code@));
                } else {
                    assert(same_rooms_except(pre, *state, code@));
                }
            },
            None => {
                assert(same_rooms_except(pre, *state, code@));
            },
        }
        assert(join_effect(*old(state), *state, pre_ctx, *ctx, code@, r));
    }
    r
}

fn cmd_msg(state: &mut ServerState, ctx: &mut ClientCtx, text: String) -> (r: Reply)
    requires
        old(state).wf(),
        old(ctx).wf(),
    ensures
        final(state).wf(),
        final(ctx).wf(),
        !r.quit,
        *final(ctx) == *old(ctx),
        (match (old(ctx).nick(), old(ctx).room()) {
            (None, _) => {
                &&& *final(state) == *old(state)
                &&& r.lines@.len() == 1
                &&& r.lines@[0]@ == "[error] set a nickname first: NICK <name>"@
            },
            (Some(nick), None) => {
                &&& *final(state) == *old(state)
                &&& r.lines@.len() == 1
                &&& r.lines@[0]@ == "[error] join a room first: JOIN <CODE>"@
            },
            (Some(nick), Some(rc)) => {
                if !old(state).has_code(rc) {
                    &&& *final(state) == *old(state)
                    &&& r.lines@.len() == 1
                    &&& r.lines@[0]@ == "[error] room no longer exists"@
                } else {
                    let b = old(state).room_of(rc);
                    let a = final(state).room_of(rc);
                    &&& r.lines@.len() == 0
                    &&& final(state).has_code(rc)
                    &&& same_rooms_except(*old(state), *final(state), rc)
                    &&& a.member_count() == b.member_count()
                    &&& (b.channel().total_sent() < usize::MAX ==> a.history() == b.history().push(
                        chat_line(nick, text@),
                    ))
                    &&& (b.channel().total_sent() >= usize::MAX ==> a.channel() == b.channel())
                }
            },
        }),
{
    let nick = match &ctx.nick {
        Some(n) => n.clone(),
        None => {
            return no_nick_reply();
        },
    };
    let rc = match &ctx.room_code {
        Some(c) => c.clone(),
        None => {
            let mut lines: Vec<String> = Vec::new();
            lines.push(String::from_str("[error] join a room first: JOIN <CODE>"));
            return Reply { lines, quit: false };
        },
    };
    let delivered = state.broadcast(rc.as_str(), nick.concat(": ").concat(text.as_str()));
    if !delivered {
        let mut lines: Vec<String> = Vec::new();
        lines.push(String::from_str("[error] room no longer exists"));
        return Reply { lines, quit: false };
    }
    Reply { lines: Vec::new(), quit: false }
}

#[verifier::rlimit(100)]
#[verifier::spinoff_prover]
pub fn handle_command(state: &mut ServerState, ctx: &mut ClientCtx, cmd: Command) -> (r: Reply)
    requires
        old(state).wf(),
        old(ctx).wf(),
    ensures
        final(state).wf(),
        final(ctx).wf(),
        (match cmd {
            Command::Help => {
                &&& !r.quit
                &&& *final(state) == *old(state)
                &&& *final(ctx) == *old(ctx)
                &&& r.lines@.len() == 6
                &&& r.lines@[0]@ == "Commands:"@
                &&& r.lines@[1]@ == "NICK <name>   - set your nickname"@
                &&& r.lines@[2]@ == "CREATE        - create a new room"@
                &&& r.lines@[3]@ == "JOIN <CODE>   - join an existing room"@
                &&& r.lines@[4]@ == "MSG <text>    - send a message to your room"@
                &&& r.lines@[5]@ == "QUIT          - disconnect"@
            },
            Command::Quit => {
                &&& r.quit
                &&& *final(state) == *old(state)
                &&& *final(ctx) == *old(ctx)
                &&& r.lines@.len() == 1
                &&& r.lines@[0]@ == "Goodbye."@
            },
            Command::Nick(name) => {
                &&& !r.quit
                &&& *final(state) == *old(state)
                &&& final(ctx).nick() == Some(name@)
                &&& final(ctx).room() == old(ctx).room()
                &&& final(ctx).rx() == old(ctx).rx()
                &&& r.lines@.len() == 1
                &&& r.lines@[0]@ == "[ok] nickname set to '"@ + name@ + "'"@
            },
            Command::Create => {
                &&& !r.quit
                &&& (match old(ctx).nick() {
                    None => {
                        &&& *final(state) == *old(state)
                        &&& *final(ctx) == *old(ctx)
                        &&& r.lines@.len() == 1
                        &&& r.lines@[0]@ == "[error] set a nickname first: NICK <name>"@
                    },
                    Some(nick) => (match final(ctx).room() {
                        Some(code) => {
                            &&& code.len() == CODE_LEN || code.len() == CODE_LEN + 1
                            &&& all_from_alphabet(code)
                            &&& (code.len() == CODE_LEN ==> !old(state).has_code(code))
                            &&& final(state).has_code(code)
                            &&& same_rooms_except(*old(state), *final(state), code)
                            &&& {
                                let room = final(state).room_of(code);
                                &&& room.member_count() == 1
                                &&& room.channel().cap() == ROOM_CAPACITY
                                &&& room.history() == Seq::<Seq<char>>::empty().push(
                                    created_join_line(nick),
                                )
                            }
                            &&& (match final(ctx).rx() {
                                Some(rx) => {
                                    &&& rx.sub_point() == 0
                                    &&& rx.cursor() == 0
                                    &&& rx.missed() == 0
                                    &&& rx.received().len() == 0
                                },
                                None => false,
                            })
                            &&& final(ctx).nick() == old(ctx).nick()
                            &&& r.lines@.len() == 1
                            &&& r.lines@[0]@ == "[ok] room created: "@ + code
                        },
                        None => false,
                    }),
                })
            },
            Command::Join(code) => {
                &&& !r.quit
                &&& join_effect(*old(state), *final(state), *old(ctx), *final(ctx), code@, r)
            },
            Command::Msg(text) => {
                &&& !r.quit
                &&& *final(ctx) == *old(ctx)
                &&& (match (old(ctx).nick(), old(ctx).room()) {
                    (None, _) => {
                        &&& *final(state) == *old(state)
                        &&& r.lines@.len() == 1
                        &&& r.lines@[0]@ == "[error] set a nickname first: NICK <name>"@
                    },
                    (Some(nick), None) => {
                        &&& *final(state) == *old(state)
                        &&& r.lines@.len() == 1
                        &&& r.lines@[0]@ == "[error] join a room first: JOIN <CODE>"@
                    },
                    (Some(nick), Some(rc)) => {
                        if !old(state).has_code(rc) {
                            &&& *final(state) == *old(state)
                            &&& r.lines@.len() == 1
                            &&& r.lines@[0]@ == "[error] room no longer exists"@
                        } else {
                            let b = old(state).room_of(rc);
                            let a = final(state).room_of(rc);
                            &&& r.lines@.len() == 0
                            &&& final(state).has_code(rc)
                            &&& same_rooms_except(*old(state), *final(state), rc)
                            &&& a.member_count() == b.member_count()
                            &&& (b.channel().total_sent() < usize::MAX ==> a.history()
                                == b.history().push(chat_line(nick, text@)))
                            &&& (b.channel().total_sent() >= usize::MAX ==> a.channel()
                                == b.channel())
                        }
                    },
                })
            },
        }),
{
    match cmd {
        Command::Help => cmd_help(),
        Command::Quit => cmd_quit(),
        Command::Nick(name) => cmd_nick(ctx, name),
        Command::Create => cmd_create(state, ctx),
        Command::Join(code) => cmd_join(state, ctx, code),
        Command::Msg(text) => cmd_msg(state, ctx, text),
    }
}

/// Reacts to the current room's channel: hands a pending broadcast line on,
/// turns a lag into a warning, and, when the room is gone from the registry,
/// clears the membership and reports the room closed. With no current room
/// there is nothing to do.
pub fn poll_room(state: &ServerState, ctx: &mut ClientCtx) -> (r: Vec<String>)
    requires
        state.wf(),
        old(ctx).wf(),
    ensures
        final(ctx).wf(),
        final(ctx).nick() == old(ctx).nick(),
        (match old(ctx).room() {
            None => r@.len() == 0 && *final(ctx) == *old(ctx),
            Some(rc) => {
                if !state.has_code(rc) {
                    &&& r@.len() == 1
                    &&& r@[0]@ == "[server] Room closed"@
                    &&& final(ctx).room() is None
                    &&& final(ctx).rx() is None
                } else {
                    let room = state.room_of(rc);
                    match (old(ctx).rx(), final(ctx).rx()) {
                        (Some(rx0), Some(rx1)) => {
                            &&& final(ctx).room() == old(ctx).room()
                            &&& rx1.sub_point() == rx0.sub_point()
                            &&& (if rx0.cursor() >= room.channel().total_sent() {
                                r@.len() == 0 && rx1 == rx0
                            } else if rx0.cursor() >= room.channel().oldest_kept() {
                                &&& r@.len() == 1
                                &&& r@[0]@ == room.history()[rx0.cursor() as int]
                                &&& rx1.cursor() == rx0.cursor() + 1
                                &&& rx1.received() == rx0.received().push(rx0.cursor())
                                &&& rx1.missed() == rx0.missed()
                            } else {
                                &&& r@.len() == 1
                                &&& r@[0]@ == "[server] Warning: skipped "@ + dec_digits(
                                    (room.channel().oldest_kept() - rx0.cursor()) as nat,
                                ) + " message"@
                                &&& rx1.cursor() == room.channel().oldest_kept()
                                &&& rx1.received() == rx0.received()
                                &&& rx1.missed() == rx0.missed() + (
                                room.channel().oldest_kept() - rx0.cursor())
                            })
                        },
                        _ => false,
                    }
                }
            },
        }),
{
    let rc = match &ctx.room_code {
        Some(c) => c.clone(),
        None => {
            return Vec::new();
        },
    };
    let outcome: Option<RecvOutcome> = match &mut ctx.room_rx {
        Some(rx) => state.recv_from(rc.as_str(), rx),
        None => {
            // A stored room code always comes with a subscription.
            proof {
                assert(false);
            }
            None
        },
    };
    match outcome {
        None => {
            ctx.room_code = None;
            ctx.room_rx = None;
            let mut lines: Vec<String> = Vec::new();
            lines.push(String::from_str("[server] Room closed"));
            lines
        },
        Some(RecvOutcome::Msg(m)) => {
            let mut lines: Vec<String> = Vec::new();
            lines.push(m);
            lines
        },
        Some(RecvOutcome::Lagged(k)) => {
            let mut lines: Vec<String> = Vec::new();
            lines.push(
                String::from_str("[server] Warning: skipped ").concat(
                    usize_to_string(k).as_str(),
                ).concat(" message"),
            );
            lines
        },
        Some(RecvOutcome::Empty) => Vec::new(),
    }
}

/// The cleanup run when a session ends, through QUIT, disconnection or a
/// transport failure: membership in the current room is released, the
/// departure announced when the nickname is known, and an emptied room
/// reaped.
pub fn session_cleanup(state: &mut ServerState, ctx: &mut ClientCtx)
    requires
        old(state).wf(),
        old(ctx).wf(),
    ensures
        final(state).wf(),
        final(ctx).wf(),
        final(ctx).nick() == old(ctx).nick(),
        final(ctx).room() is None,
        final(ctx).rx() is None,
        (match old(ctx).room() {
            None => *final(state) == *old(state),
            Some(rc) => departed(*old(state), *final(state), rc, old(ctx).nick()),
        }),
{
    let rc = match &ctx.room_code {
        Some(c) => c.clone(),
        None => {
            return ;
        },
    };
    ctx.room_code = None;
    ctx.room_rx = None;
    let _left = state.dec_member(rc.as_str());
    match &ctx.nick {
        Some(n) => {
            let _told = state.broadcast(
                rc.as_str(),
                String::from_str("[server] ").concat(n.as_str()).concat(" left."),
            );
        },
        None => {},
    }
    state.remove_if_empty(rc.as_str());
}

} // verus!

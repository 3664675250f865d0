//! The decisions of the application side of the helper connection.
use vstd::prelude::*;

use crate::models::op::{op_wants_tty, Op, OpView};
use crate::models::request::Request;
use crate::text::{
    chars_of, chars_start_with, decimal, fmt_u64, parse_i64, parse_i64_spec, push_char, push_str,
    lines, lines_state, starts_with, string_from, strip_cr, strip_cr_chars, trim, trim_chars,
};

verus! {

/// The request that carries `op`; it asks for the caller's terminal exactly
/// when the operation needs one.
pub fn request(op: Op) -> (r: Request)
    ensures
        r.op@ == op@,
        r.with_tty == op_wants_tty(op@),
{
    let with_tty = op.wants_tty();
    Request { op, with_tty }
}

/// The request that adds `name` to pacman's `IgnorePkg` (`ignored`) or
/// takes it out; it does not ask for the caller's terminal.
pub fn ignore_request(name: &str, ignored: bool) -> (r: Request)
    ensures
        r.op@ == (OpView::SetIgnorePkg { name: name@, ignored }),
        !r.with_tty,
{
    request(Op::SetIgnorePkg { name: string_from(name), ignored })
}

pub open spec fn launcher_choice(env_override: Option<Seq<char>>, configured: Option<Seq<char>>) -> Seq<
    char,
> {
    match env_override {
        Some(e) => e,
        None => match configured {
            Some(c) => c,
            None => "pkexec"@,
        },
    }
}

/// The program that starts the helper with administrator rights: the value
/// of `DAIM_HELPER_LAUNCHER` when it is set, else the launcher that the
/// application configured, else `pkexec`.
pub fn resolve_launcher(env_override: Option<String>, configured: Option<String>) -> (r: String)
    ensures
        r@ == launcher_choice(
            match env_override {
                Some(e) => Some(e@),
                None => None,
            },
            match configured {
                Some(c) => Some(c@),
                None => None,
            },
        ),
{
    match env_override {
        Some(e) => e,
        None => match configured {
            Some(c) => c,
            None => string_from("pkexec"),
        },
    }
}

/// The line of `/proc/self/status` that names the tracing process, if any:
/// the text after `TracerPid:` on the first line that starts with it.
pub open spec fn tracer_field(ls: Seq<Seq<char>>) -> Option<Seq<char>>
    decreases ls.len(),
{
    if ls.len() == 0 {
        None
    } else if starts_with(ls[0], "TracerPid:"@) {
        Some(ls[0].skip(10))
    } else {
        tracer_field(ls.drop_first())
    }
}

/// Whether the status text says that a debugger traces this process: the
/// `TracerPid:` value parses as a number other than 0.
pub open spec fn is_traced(status: Seq<char>) -> bool {
    match tracer_field(lines(status)) {
        Some(v) => match parse_i64_spec(trim(v)) {
            Some(pid) => pid != 0,
            None => false,
        },
        None => false,
    }
}

/// Refuses to go on when the process status text shows a tracer.
pub fn check_not_traced(status: &str) -> (r: Result<(), String>)
    ensures
        r is Err <==> is_traced(status@),
        r matches Err(m) ==> m@
            == "refusing to get admin rights while another process is tracing this app"@,
{
    let chars = chars_of(status);
    let key = chars_of("TracerPid:");
    let mut cur: Vec<char> = Vec::new();
    let mut i: usize = 0;
    let ghost s = status@;
    while i < chars.len()
        invariant
            chars@ == s,
            s == status@,
            key@ == "TracerPid:"@,
            i <= chars@.len(),
            lines_state(s.take(i as int)).1 == cur@,
            forall|k: int|
                0 <= k < lines_state(s.take(i as int)).0.len() ==> !starts_with(
                    #[trigger] lines_state(s.take(i as int)).0[k],
                    "TracerPid:"@,
                ),
        decreases chars@.len() - i,
    {
        let c = chars[i];
        proof {
            assert(s.take(i + 1).drop_last() =~= s.take(i as int));
            assert(s.take(i + 1).last() == c);
        }
        if c == '\n' {
            let line = strip_cr_chars(&cur);
            if chars_start_with(line.as_slice(), key.as_slice()) {
                proof {
                    lemma_tracer_field_found(s, i as int, line@);
                }
                return check_tracer_value(&line);
            }
            cur = Vec::new();
        } else {
            cur.push(c);
        }
        i += 1;
    }
    proof {
        assert(s.take(i as int) =~= s);
    }
    if cur.len() > 0 {
        let line = strip_cr_chars(&cur);
        if chars_start_with(line.as_slice(), key.as_slice()) {
            proof {
                let (done, c) = lines_state(s);
                assert(lines(s) == done.push(line@));
                lemma_tracer_field_prefix(done, line@);
            }
            return check_tracer_value(&line);
        }
        proof {
            let (done, c) = lines_state(s);
            lemma_tracer_field_prefix(done, line@);
        }
    } else {
        proof {
            let (done, c) = lines_state(s);
            lemma_tracer_field_none(done);
        }
    }
    Ok(())
}

fn check_tracer_value(line: &Vec<char>) -> (r: Result<(), String>)
    requires
        starts_with(line@, "TracerPid:"@),
    ensures
        r is Err <==> (match parse_i64_spec(trim(line@.skip(10))) {
            Some(pid) => pid != 0,
            None => false,
        }),
        r matches Err(m) ==> m@
            == "refusing to get admin rights while another process is tracing this app"@,
{
    let mut rest: Vec<char> = Vec::new();
    let mut i: usize = 10;
    proof {
        assert("TracerPid:"@.len() == 10) by {
            reveal_strlit("TracerPid:");
        }
    }
    while i < line.len()
        invariant
            10 <= i <= line@.len(),
            rest@ == line@.subrange(10, i as int),
        decreases line@.len() - i,
    {
        rest.push(line[i]);
        proof {
            assert(line@.subrange(10, i + 1) =~= line@.subrange(10, i as int).push(line@[i as int]));
        }
        i += 1;
    }
    proof {
        assert(rest@ =~= line@.skip(10));
    }
    let t = trim_chars(rest.as_slice());
    let pid: i64 = match parse_i64(t.as_slice()) {
        Some(p) => p,
        None => 0,
    };
    if pid != 0 {
        Err(string_from("refusing to get admin rights while another process is tracing this app"))
    } else {
        Ok(())
    }
}

proof fn lemma_tracer_field_none(done: Seq<Seq<char>>)
    requires
        forall|k: int| 0 <= k < done.len() ==> !starts_with(#[trigger] done[k], "TracerPid:"@),
    ensures
        tracer_field(done) is None,
    decreases done.len(),
{
    if done.len() > 0 {
        assert(!starts_with(done[0], "TracerPid:"@));
        let rest = done.drop_first();
        assert forall|k: int| 0 <= k < rest.len() implies !starts_with(
            #[trigger] rest[k],
            "TracerPid:"@,
        ) by {
            assert(rest[k] == done[k + 1]);
        }
        lemma_tracer_field_none(rest);
    }
}

proof fn lemma_tracer_field_prefix(done: Seq<Seq<char>>, line: Seq<char>)
    requires
        forall|k: int| 0 <= k < done.len() ==> !starts_with(#[trigger] done[k], "TracerPid:"@),
    ensures
        tracer_field(done.push(line)) == (if starts_with(line, "TracerPid:"@) {
            Some(line.skip(10))
        } else {
            None::<Seq<char>>
        }),
    decreases done.len(),
{
    if done.len() > 0 {
        assert(!starts_with(done[0], "TracerPid:"@));
        let rest = done.drop_first();
        assert forall|k: int| 0 <= k < rest.len() implies !starts_with(
            #[trigger] rest[k],
            "TracerPid:"@,
        ) by {
            assert(rest[k] == done[k + 1]);
        }
        lemma_tracer_field_prefix(rest, line);
        assert(done.push(line).drop_first() =~= rest.push(line));
        assert(done.push(line)[0] == done[0]);
    } else {
        let one = done.push(line);
        assert(one[0] == line);
        assert(one.drop_first() =~= Seq::<Seq<char>>::empty());
        assert(tracer_field(one.drop_first()) is None);
    }
}

proof fn lemma_tracer_field_found(s: Seq<char>, i: int, line: Seq<char>)
    requires
        0 <= i < s.len(),
        s[i] == '\n',
        line == strip_cr(lines_state(s.take(i)).1),
        starts_with(line, "TracerPid:"@),
        forall|k: int|
            0 <= k < lines_state(s.take(i)).0.len() ==> !starts_with(
                #[trigger] lines_state(s.take(i)).0[k],
                "TracerPid:"@,
            ),
    ensures
        tracer_field(lines(s)) == Some(line.skip(10)),
{
    let done = lines_state(s.take(i)).0;
    lemma_lines_state_prefix(s, i + 1);
    assert(s.take(i + 1).drop_last() =~= s.take(i));
    assert(lines_state(s.take(i + 1)).0 == done.push(line));
    lemma_tracer_field_prefix(done, line);
    let all = lines(s);
    assert(all.subrange(0, done.len() + 1 as int) == done.push(line));
    lemma_tracer_field_take(all, done.len() + 1 as int);
}

/// The completed lines of a prefix of `s` begin the lines of `s`.
proof fn lemma_lines_state_prefix(s: Seq<char>, k: int)
    requires
        0 <= k <= s.len(),
    ensures
        lines_state(s.take(k)).0.len() <= lines(s).len(),
        lines(s).subrange(0, lines_state(s.take(k)).0.len() as int) == lines_state(s.take(k)).0,
    decreases s.len() - k,
{
    if k < s.len() {
        lemma_lines_state_prefix(s, k + 1);
        let a = s.take(k + 1);
        assert(a.drop_last() =~= s.take(k));
        let (d0, c0) = lines_state(s.take(k));
        let (d1, c1) = lines_state(a);
        assert(d1.subrange(0, d0.len() as int) =~= d0);
        assert(lines(s).subrange(0, d0.len() as int) =~= lines(s).subrange(0, d1.len() as int).subrange(0, d0.len() as int));
    } else {
        assert(s.take(k) =~= s);
        let (d, c) = lines_state(s);
        assert(lines(s).subrange(0, d.len() as int) =~= d);
    }
}

proof fn lemma_tracer_field_take(ls: Seq<Seq<char>>, k: int)
    requires
        0 < k <= ls.len(),
        tracer_field(ls.subrange(0, k)) is Some,
    ensures
        tracer_field(ls) == tracer_field(ls.subrange(0, k)),
    decreases k,
{
    if starts_with(ls[0], "TracerPid:"@) {
        assert(ls.subrange(0, k)[0] == ls[0]);
    } else {
        assert(ls.subrange(0, k)[0] == ls[0]);
        assert(ls.subrange(0, k).drop_first() =~= ls.drop_first().subrange(0, k - 1));
        lemma_tracer_field_take(ls.drop_first(), k - 1);
    }
}

pub open spec fn hex_digit(d: nat) -> char {
    if d < 10 {
        (('0' as u32) + d) as char
    } else {
        (('a' as u32) + d - 10) as char
    }
}

/// Two lower-case hexadecimal digits, as `{:02x}` writes a byte.
pub open spec fn hex2(b: u8) -> Seq<char> {
    seq![hex_digit((b / 16) as nat), hex_digit((b % 16) as nat)]
}

pub open spec fn hex_string(bytes: Seq<u8>) -> Seq<char>
    decreases bytes.len(),
{
    if bytes.len() == 0 {
        seq![]
    } else {
        hex_string(bytes.drop_last()) + hex2(bytes.last())
    }
}

fn hex_char(d: u8) -> (c: char)
    requires
        d < 16,
    ensures
        c == hex_digit(d as nat),
{
    if d < 10 {
        (48u8 + d) as char
    } else {
        (87u8 + d) as char
    }
}

/// The name of a fresh control socket: the process id and the given random
/// bytes in hexadecimal, as `ctl-<pid>-<hex>.sock`.
pub fn control_socket_name(pid: u32, random: &[u8]) -> (r: String)
    ensures
        r@ == "ctl-"@ + decimal(pid as nat) + "-"@ + hex_string(random@) + ".sock"@,
{
    let mut s = string_from("ctl-");
    let d = fmt_u64(pid as u64);
    push_str(&mut s, d.as_str());
    push_str(&mut s, "-");
    let ghost base = s@;
    let mut i: usize = 0;
    while i < random.len()
        invariant
            i <= random@.len(),
            s@ == base + hex_string(random@.take(i as int)),
        decreases random@.len() - i,
    {
        let b = random[i];
        push_char(&mut s, hex_char(b / 16));
        push_char(&mut s, hex_char(b % 16));
        proof {
            assert(random@.take(i + 1).drop_last() =~= random@.take(i as int));
            assert(s@ =~= base + hex_string(random@.take(i + 1)));
        }
        i += 1;
    }
    proof {
        assert(random@.take(random@.len() as int) =~= random@);
    }
    push_str(&mut s, ".sock");
    s
}

// ---------------------------------------------------------------------
// Waiting for the helper to connect back
// ---------------------------------------------------------------------

/// What happened while the application waits for the started helper to
/// connect back.
pub enum PeerEvent {
    /// A process connected; `peer_uid` is its user, when the socket tells.
    Connected { peer_uid: Option<u32> },
    /// Nobody connected yet. `exited` is the launcher's exit status, shown
    /// as text, once it has exited; `past_deadline` says whether the wait
    /// has lasted its full time.
    Nobody { exited: Option<String>, past_deadline: bool },
}

/// What the application does next.
pub enum PeerAction {
    /// Keep this connection: it comes from root.
    Accept,
    /// Drop this connection and go on waiting.
    Reject,
    /// Wait a little and look again.
    Wait,
    /// The launcher exited without a helper connecting: authorization
    /// failed, with this message.
    Denied(String),
    /// Stop the launcher and give up, with this message.
    TimedOut(String),
}

/// Only a process that runs as root (uid 0) is taken for the helper; while
/// nobody connects, a launcher that exited means authorization failed, and
/// after the full wait the launcher is stopped.
pub fn peer_step(event: PeerEvent) -> (a: PeerAction)
    ensures
        match event {
            PeerEvent::Connected { peer_uid } => if peer_uid == Some(0u32) {
                a is Accept
            } else {
                a is Reject
            },
            PeerEvent::Nobody { exited: Some(status), .. } => a matches PeerAction::Denied(m) && m@
                == "authorization for daim-helper failed (exit "@ + status@ + ")"@,
            PeerEvent::Nobody { exited: None, past_deadline } => if past_deadline {
                a matches PeerAction::TimedOut(m) && m@ == "timed out waiting for daim-helper to start"@
            } else {
                a is Wait
            },
        },
{
    match event {
        PeerEvent::Connected { peer_uid } => match peer_uid {
            Some(u) => if u == 0 {
                PeerAction::Accept
            } else {
                PeerAction::Reject
            },
            None => PeerAction::Reject,
        },
        PeerEvent::Nobody { exited: Some(status), .. } => {
            let mut m = string_from("authorization for daim-helper failed (exit ");
            push_str(&mut m, status.as_str());
            push_str(&mut m, ")");
            PeerAction::Denied(m)
        },
        PeerEvent::Nobody { exited: None, past_deadline } => if past_deadline {
            PeerAction::TimedOut(string_from("timed out waiting for daim-helper to start"))
        } else {
            PeerAction::Wait
        },
    }
}

} // verus!

//! The decisions of the AT command transport and of the session script: how a
//! command is framed, when a reply is complete, and which commands a polling
//! cycle issues. The channel itself is driven by the caller.
use vstd::prelude::*;
use vstd::string::{StrSliceExecFns, StringExecFns, StringSliceAdditionalSpecFns};
use crate::text::chars_of;

verus! {

/// The bytes written for a command: its text followed by a carriage return.
pub fn frame_command(command: &str) -> (r: Vec<u8>)
    ensures
        r@ == command.spec_bytes().push(13u8),
{
    let mut r = command.as_bytes_vec();
    r.push(13u8);
    r
}

/// `pat` occurs in `s`.
pub open spec fn occurs(s: Seq<char>, pat: Seq<char>) -> bool {
    exists|i: int| 0 <= i && i + pat.len() <= s.len() && #[trigger] s.subrange(i, i + pat.len()) == pat
}

/// A reply is complete once it holds "OK" or "ERROR".
pub open spec fn reply_complete(s: Seq<char>) -> bool {
    occurs(s, "OK"@) || occurs(s, "ERROR"@)
}

fn occurs_in(t: &Vec<char>, pat: &Vec<char>) -> (r: bool)
    ensures
        r == occurs(t@, pat@),
{
    let n = t.len();
    let m = pat.len();
    if m > n {
        return false;
    }
    let mut i: usize = 0;
    loop
        invariant
            n == t@.len(),
            m == pat@.len(),
            m <= n,
            i <= n - m,
            forall|k: int| 0 <= k < i ==> #[trigger] t@.subrange(k, k + m) != pat@,
        decreases n - m - i,
    {
        let mut j: usize = 0;
        let mut same = true;
        assert(t@.subrange(i as int, i as int) =~= pat@.subrange(0, 0));
        while j < m
            invariant
                n == t@.len(),
                m == pat@.len(),
                i + m <= n,
                j <= m,
                same <==> t@.subrange(i as int, i + j) == pat@.subrange(0, j as int),
            decreases m - j,
        {
            let ghost before = same;
            if t[i + j] != pat[j] {
                same = false;
            }
            proof {
                if before && t@[i + j] == pat@[j as int] {
                    assert(t@.subrange(i as int, i + j + 1) =~= pat@.subrange(0, j + 1));
                }
                if !same {
                    if t@.subrange(i as int, i + j + 1) == pat@.subrange(0, j + 1) {
                        if t@[i + j] != pat@[j as int] {
                            assert(t@.subrange(i as int, i + j + 1)[j as int] == t@[i + j]);
                        } else {
                            assert(t@.subrange(i as int, i + j) =~= t@.subrange(
                                i as int,
                                i + j + 1,
                            ).drop_last());
                            assert(pat@.subrange(0, j as int) =~= pat@.subrange(
                                0,
                                j + 1,
                            ).drop_last());
                        }
                    }
                }
            }
            j = j + 1;
        }
        assert(pat@.subrange(0, m as int) =~= pat@);
        if same {
            return true;
        }
        if i == n - m {
            return false;
        }
        i = i + 1;
    }
}

/// Whether a reply received so far is complete.
pub fn is_reply_complete(response: &str) -> (r: bool)
    ensures
        r == reply_complete(response@),
{
    let t = chars_of(response);
    occurs_in(&t, &chars_of("OK")) || occurs_in(&t, &chars_of("ERROR"))
}

/// What one read of the channel produced.
pub enum ReadEvent {
    /// Bytes arrived, decoded as text.
    Received(String),
    /// The read timed out; the time since reading started, in milliseconds.
    TimedOut(u64),
    /// The read failed otherwise.
    Failed(String),
}

/// What the transport does after a read.
#[derive(PartialEq, Eq)]
pub enum ReadStep {
    /// Read again.
    Continue,
    /// The reply is complete, or the deadline passed: hand on what was collected.
    Complete,
    /// Abort the command with this error.
    Abort(String),
}

/// The reply to one command, as it accumulates.
pub struct ReplyCollector {
    pub response: String,
    /// How long reads may keep timing out before the reply is handed on as it is.
    pub deadline_ms: u64,
}

impl ReplyCollector {
    pub fn new(deadline_ms: u64) -> (r: ReplyCollector)
        ensures
            r.response@.len() == 0,
            r.deadline_ms == deadline_ms,
    {
        ReplyCollector { response: String::new(), deadline_ms }
    }

    /// Takes in the outcome of one read and decides what follows.
    pub fn step(&mut self, event: ReadEvent) -> (r: ReadStep)
        ensures
            final(self).deadline_ms == old(self).deadline_ms,
            match event {
                ReadEvent::Received(chunk) => {
                    &&& final(self).response@ == old(self).response@ + chunk@
                    &&& r == if reply_complete(final(self).response@) {
                        ReadStep::Complete
                    } else {
                        ReadStep::Continue
                    }
                },
                ReadEvent::TimedOut(elapsed) => {
                    &&& final(self).response@ == old(self).response@
                    &&& r == if elapsed > old(self).deadline_ms {
                        ReadStep::Complete
                    } else {
                        ReadStep::Continue
                    }
                },
                ReadEvent::Failed(msg) => {
                    &&& final(self).response@ == old(self).response@
                    &&& r == ReadStep::Abort(msg)
                },
            },
    {
        match event {
            ReadEvent::Received(chunk) => {
                self.response.append(chunk.as_str());
                if is_reply_complete(self.response.as_str()) {
                    ReadStep::Complete
                } else {
                    ReadStep::Continue
                }
            },
            ReadEvent::TimedOut(elapsed) => {
                if elapsed > self.deadline_ms {
                    ReadStep::Complete
                } else {
                    ReadStep::Continue
                }
            },
            ReadEvent::Failed(msg) => ReadStep::Abort(msg),
        }
    }
}

/// The commands of a full inventory, in the order they are issued.
pub open spec fn inventory_command(i: int) -> Seq<char> {
    if i == 0 { "AT+CGMI?"@ }
    else if i == 1 { "AT+FMM?"@ }
    else if i == 2 { "AT+GTPKGVER?"@ }
    else if i == 3 { "AT+CFSN?"@ }
    else if i == 4 { "AT+CGSN?"@ }
    else if i == 5 { "AT+CIMI?"@ }
    else if i == 6 { "AT+CCID?"@ }
    else if i == 7 { "AT+COPS?"@ }
    else if i == 8 { "AT+CGCONTRDP=1"@ }
    else if i == 9 { "AT+CSQ?"@ }
    else if i == 10 { "AT+XCCINFO?; +XLEC?; +XMCI=1"@ }
    else { "AT+XACT?"@ }
}

pub open spec fn inventory_len() -> nat {
    12
}

/// One polling cycle's battery of commands and the replies collected so far.
pub struct InventorySession {
    pub next: usize,
    pub buffer: String,
}

impl InventorySession {
    pub fn new() -> (r: InventorySession)
        ensures
            r.next == 0,
            r.buffer@.len() == 0,
    {
        InventorySession { next: 0, buffer: String::new() }
    }

    /// The command to issue next, or `None` once every command has been issued.
    pub fn next_command(&self) -> (r: Option<&'static str>)
        ensures
            self.next < inventory_len() ==> r is Some && r->0@ == inventory_command(
                self.next as int,
            ),
            self.next >= inventory_len() ==> r is None,
    {
        match self.next {
            0 => Some("AT+CGMI?"),
            1 => Some("AT+FMM?"),
            2 => Some("AT+GTPKGVER?"),
            3 => Some("AT+CFSN?"),
            4 => Some("AT+CGSN?"),
            5 => Some("AT+CIMI?"),
            6 => Some("AT+CCID?"),
            7 => Some("AT+COPS?"),
            8 => Some("AT+CGCONTRDP=1"),
            9 => Some("AT+CSQ?"),
            10 => Some("AT+XCCINFO?; +XLEC?; +XMCI=1"),
            11 => Some("AT+XACT?"),
            _ => None,
        }
    }

    /// Appends the reply to the command just issued and moves to the next one.
    pub fn record_reply(&mut self, reply: &str)
        requires
            old(self).next < inventory_len(),
        ensures
            final(self).next == old(self).next + 1,
            final(self).buffer@ == old(self).buffer@ + reply@,
    {
        self.buffer.append(reply);
        self.next = self.next + 1;
    }
}

} // verus!

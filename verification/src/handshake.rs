//! The handshake: two lines from a client, the shared secret and then the
//! address that its datagrams go to.

use crate::text::{decimal, decimal_text};
use vstd::prelude::*;
use vstd::string::*;

verus! {

/// Where the handshake with one client stands.
#[derive(Clone, Copy, Debug, PartialEq, Eq, Structural)]
pub enum Phase {
    /// The line with the secret is due.
    AwaitingFlag,
    /// The secret was right; the line with the address is due.
    AwaitingEndpoint,
    /// Both lines were right: the handshake is over.
    Accepted,
    /// A line was wrong: the client is turned away and another one awaited.
    Rejected,
}

/// A line without its last character, the line feed.
pub open spec fn without_last(line: Seq<char>) -> Seq<char> {
    if line.len() == 0 {
        line
    } else {
        line.drop_last()
    }
}

/// Whether a line carries the secret: without its last character it is the
/// secret in decimal.
pub open spec fn carries_flag(line: Seq<char>, init_flag: u64) -> bool {
    without_last(line) == decimal_text(init_flag as nat)
}

/// The phase that follows when a line has been read. `parses` says whether
/// the line, without its last character, is an address; it matters only while
/// the address is due.
pub open spec fn phase_after(phase: Phase, line: Seq<char>, init_flag: u64, parses: bool) -> Phase {
    match phase {
        Phase::AwaitingFlag => if carries_flag(line, init_flag) {
            Phase::AwaitingEndpoint
        } else {
            Phase::Rejected
        },
        Phase::AwaitingEndpoint => if parses {
            Phase::Accepted
        } else {
            Phase::Rejected
        },
        Phase::Accepted => Phase::Accepted,
        Phase::Rejected => Phase::Rejected,
    }
}

/// Takes the last character off a line that was read.
pub fn strip_line(line: &str) -> (text: String)
    ensures
        text@ == without_last(line@),
{
    let n = line.unicode_len();
    if n == 0 {
        String::from_str(line)
    } else {
        let kept = line.substring_char(0, n - 1);
        proof {
            assert(line@.subrange(0, n - 1) =~= line@.drop_last());
        }
        String::from_str(kept)
    }
}

/// Whether a line that was read carries the secret.
pub fn flag_matches(line: &str, init_flag: u64) -> (r: bool)
    ensures
        r == carries_flag(line@, init_flag),
{
    let text = strip_line(line);
    let secret = decimal(init_flag);
    text == secret
}

/// The handshake with one client.
#[derive(Clone, Copy, Debug, PartialEq, Eq, Structural)]
pub struct Session {
    pub phase: Phase,
}

impl Session {
    /// A client has connected and sent nothing yet.
    pub fn new() -> (session: Session)
        ensures
            session.phase == Phase::AwaitingFlag,
    {
        Session { phase: Phase::AwaitingFlag }
    }

    /// Takes the next line of the client. While the secret is due, a line
    /// that carries it leads on to the address and any other turns the client
    /// away. While the address is due, `parses` decides: a line that is an
    /// address ends the handshake, any other turns the client away. Once the
    /// client is accepted or turned away, nothing changes any more.
    pub fn advance(&mut self, line: &str, init_flag: u64, parses: bool) -> (phase: Phase)
        ensures
            phase == final(self).phase,
            phase == phase_after(old(self).phase, line@, init_flag, parses),
    {
        match self.phase {
            Phase::AwaitingFlag => {
                if flag_matches(line, init_flag) {
                    self.phase = Phase::AwaitingEndpoint;
                } else {
                    self.phase = Phase::Rejected;
                }
            },
            Phase::AwaitingEndpoint => {
                if parses {
                    self.phase = Phase::Accepted;
                } else {
                    self.phase = Phase::Rejected;
                }
            },
            Phase::Accepted => {},
            Phase::Rejected => {},
        }
        self.phase
    }
}

/// A client is accepted if and only if its first line carries the secret and
/// its second line is an address; otherwise it is turned away.
pub proof fn lemma_handshake(first: Seq<char>, second: Seq<char>, init_flag: u64, parses: bool)
    ensures
        ({
            let mid = phase_after(Phase::AwaitingFlag, first, init_flag, false);
            let end = phase_after(mid, second, init_flag, parses);
            &&& end == Phase::Accepted <==> carries_flag(first, init_flag) && parses
            &&& end != Phase::Accepted <==> end == Phase::Rejected
        }),
{
}

} // verus!

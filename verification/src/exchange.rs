//! The datagram exchange: what is sent for each exercise, how an answer is put
//! together from the datagrams that arrive, and when the final flag is owed.

use crate::tasks::Task;
use crate::text::{decimal, decimal_text, packet, packet_bytes};
use vstd::prelude::*;
use vstd::string::*;

verus! {

/// Size of the buffer that one datagram is read into.
pub const CHUNK_SIZE: usize = 1024;

/// Size beyond which an answer is given up.
pub const RECEIVE_LIMIT: usize = 10240;

/// The bytes of an answer without its last byte, the line feed.
pub open spec fn strip_last(bytes: Seq<u8>) -> Seq<u8> {
    if bytes.len() == 0 {
        bytes
    } else {
        bytes.drop_last()
    }
}

/// The answer that a sequence of datagrams amounts to, given what has been
/// gathered before them. Datagrams are appended until one is shorter than the
/// read buffer; the answer is then what was gathered, without its last byte.
/// If more than the limit has been gathered when another datagram is due, the
/// answer is empty. `None` while the answer is still open.
pub open spec fn receive_from(buffer: Seq<u8>, chunks: Seq<Seq<u8>>) -> Option<Seq<u8>>
    decreases chunks.len(),
{
    if buffer.len() > RECEIVE_LIMIT {
        Some(Seq::empty())
    } else if chunks.len() == 0 {
        None
    } else {
        let grown = buffer + chunks[0];
        if chunks[0].len() < CHUNK_SIZE {
            Some(strip_last(grown))
        } else {
            receive_from(grown, chunks.drop_first())
        }
    }
}

/// The byte strings that a vector of them holds.
pub open spec fn rows(chunks: Seq<Vec<u8>>) -> Seq<Seq<u8>> {
    Seq::new(chunks.len(), |i: int| chunks[i]@)
}

/// The bytes gathered for one answer.
pub struct Reassembly {
    pub buffer: Vec<u8>,
}

impl Reassembly {
    /// Nothing gathered yet.
    pub fn new() -> (r: Reassembly)
        ensures
            r.buffer@ == Seq::<u8>::empty(),
    {
        Reassembly { buffer: Vec::new() }
    }

    /// Whether more than the limit has been gathered, so that the answer is
    /// given up as empty.
    pub fn overflowed(&self) -> (r: bool)
        ensures
            r == (self.buffer@.len() > RECEIVE_LIMIT),
    {
        self.buffer.len() > RECEIVE_LIMIT
    }

    /// Appends one datagram, and says whether it ends the answer.
    pub fn absorb(&mut self, chunk: &[u8]) -> (done: bool)
        ensures
            final(self).buffer@ == old(self).buffer@ + chunk@,
            done == (chunk@.len() < CHUNK_SIZE),
    {
        let mut i: usize = 0;
        while i < chunk.len()
            invariant
                i <= chunk.len(),
                self.buffer@ == old(self).buffer@ + chunk@.take(i as int),
            decreases chunk.len() - i,
        {
            self.buffer.push(chunk[i]);
            proof {
                assert(chunk@.take(i + 1) =~= chunk@.take(i as int).push(chunk@[i as int]));
            }
            i += 1;
        }
        proof {
            assert(chunk@.take(i as int) =~= chunk@);
        }
        chunk.len() < CHUNK_SIZE
    }

    /// The answer: what was gathered, without its last byte.
    pub fn into_message(self) -> (message: Vec<u8>)
        ensures
            message@ == strip_last(self.buffer@),
    {
        let mut message = self.buffer;
        message.pop();
        message
    }
}

/// Puts an answer together from the datagrams that arrived, in order. `None`
/// when they end before the answer does.
pub fn reassemble(chunks: &Vec<Vec<u8>>) -> (r: Option<Vec<u8>>)
    ensures
        match receive_from(Seq::empty(), rows(chunks@)) {
            Some(message) => r matches Some(bytes) && bytes@ == message,
            None => r is None,
        },
{
    let mut gathered = Reassembly::new();
    let mut i: usize = 0;
    proof {
        assert(rows(chunks@).skip(0) =~= rows(chunks@));
    }
    while i < chunks.len()
        invariant
            i <= chunks.len(),
            receive_from(Seq::empty(), rows(chunks@)) == receive_from(
                gathered.buffer@,
                rows(chunks@).skip(i as int),
            ),
        decreases chunks.len() - i,
    {
        if gathered.overflowed() {
            return Some(Vec::new());
        }
        proof {
            let rest = rows(chunks@).skip(i as int);
            assert(rest.drop_first() =~= rows(chunks@).skip(i + 1));
            assert(rest[0] == chunks@[i as int]@);
        }
        let done = gathered.absorb(chunks[i].as_slice());
        if done {
            return Some(gathered.into_message());
        }
        i += 1;
    }
    if gathered.overflowed() {
        return Some(Vec::new());
    }
    None
}

/// A peer that only ever sends full datagrams is read until more than the
/// limit has been gathered, which takes eleven of them, and its answer is then
/// empty; before that the answer stays open.
pub proof fn lemma_full_chunks(chunks: Seq<Seq<u8>>)
    requires
        forall|i: int| 0 <= i < chunks.len() ==> (#[trigger] chunks[i]).len() == CHUNK_SIZE,
    ensures
        chunks.len() >= 11 ==> receive_from(Seq::empty(), chunks) == Some(Seq::<u8>::empty()),
        chunks.len() < 11 ==> receive_from(Seq::empty(), chunks) is None,
{
    lemma_full_chunks_from(Seq::empty(), chunks, 0);
}

/// The same, after `full` full datagrams have been gathered.
pub proof fn lemma_full_chunks_from(buffer: Seq<u8>, chunks: Seq<Seq<u8>>, full: nat)
    requires
        forall|i: int| 0 <= i < chunks.len() ==> (#[trigger] chunks[i]).len() == CHUNK_SIZE,
        buffer.len() == full * CHUNK_SIZE,
        full <= 11,
    ensures
        chunks.len() + full >= 11 ==> receive_from(buffer, chunks) == Some(Seq::<u8>::empty()),
        chunks.len() + full < 11 ==> receive_from(buffer, chunks) is None,
    decreases chunks.len(),
{
    if full < 11 && chunks.len() > 0 {
        let rest = chunks.drop_first();
        assert forall|i: int| 0 <= i < rest.len() implies (#[trigger] rest[i]).len()
            == CHUNK_SIZE by {
            assert(rest[i] == chunks[i + 1]);
        }
        lemma_full_chunks_from(buffer + chunks[0], rest, full + 1);
    }
}

/// The payloads of a sequence of texts, one datagram each.
pub open spec fn packets_of(texts: Seq<Seq<char>>) -> Seq<Seq<u8>> {
    Seq::new(texts.len(), |i: int| packet_bytes(texts[i]))
}

impl Task {
    /// The datagrams that put the exercise to the client, in the order in
    /// which they are sent: one for each number of a divisor or sum exercise,
    /// one for the number or text of the others.
    pub fn given_packets(&self) -> (packets: Vec<Vec<u8>>)
        ensures
            rows(packets@) == packets_of(self@.givens()),
    {
        let mut packets: Vec<Vec<u8>> = Vec::new();
        match self {
            Task::GCD { numbers, .. } => {
                let mut i: usize = 0;
                while i < numbers.len()
                    invariant
                        i <= numbers.len(),
                        packets@.len() == i,
                        forall|j: int|
                            0 <= j < i ==> (#[trigger] packets@[j])@ == packet_bytes(
                                decimal_text(numbers@[j] as nat),
                            ),
                    decreases numbers.len() - i,
                {
                    let text = decimal(numbers[i]);
                    packets.push(packet(text.as_str()));
                    i += 1;
                }
                assert(rows(packets@) =~= packets_of(self@.givens()));
            },
            Task::SUM { numbers, .. } => {
                let mut i: usize = 0;
                while i < 3
                    invariant
                        i <= 3,
                        packets@.len() == i,
                        forall|j: int|
                            0 <= j < i ==> (#[trigger] packets@[j])@ == packet_bytes(
                                decimal_text(numbers@[j] as nat),
                            ),
                    decreases 3 - i,
                {
                    let text = decimal(numbers[i]);
                    packets.push(packet(text.as_str()));
                    i += 1;
                }
                assert(rows(packets@) =~= packets_of(self@.givens()));
            },
            Task::XK { x, .. } => {
                let text = decimal(*x);
                packets.push(packet(text.as_str()));
                assert(rows(packets@) =~= packets_of(self@.givens()));
            },
            Task::StringDeletion { target, .. } => {
                packets.push(packet(target.as_str()));
                assert(rows(packets@) =~= packets_of(self@.givens()));
            },
            Task::StringConcat { target, .. } => {
                packets.push(packet(target.as_str()));
                assert(rows(packets@) =~= packets_of(self@.givens()));
            },
        }
        packets
    }

    /// The text of the expected answer.
    pub fn expected_text(&self) -> (text: String)
        ensures
            text@ == self@.expected(),
    {
        match self {
            Task::GCD { result, .. } => decimal(*result),
            Task::SUM { result, .. } => decimal(*result),
            Task::XK { result, .. } => decimal(*result),
            Task::StringDeletion { result, .. } => result.clone(),
            Task::StringConcat { result, .. } => result.clone(),
        }
    }

    /// Whether an answer is, byte for byte, the expected one.
    pub fn accepts(&self, answer: &Vec<u8>) -> (r: bool)
        ensures
            r == (answer@ == vstd::utf8::encode_utf8(self@.expected())),
    {
        let text = self.expected_text();
        let expected = text.as_str().as_bytes_vec();
        bytes_equal(answer, &expected)
    }
}

/// Whether two byte strings are the same.
pub fn bytes_equal(a: &Vec<u8>, b: &Vec<u8>) -> (r: bool)
    ensures
        r == (a@ == b@),
{
    if a.len() != b.len() {
        return false;
    }
    let mut i: usize = 0;
    while i < a.len()
        invariant
            i <= a.len(),
            a.len() == b.len(),
            forall|j: int| 0 <= j < i ==> a@[j] == b@[j],
        decreases a.len() - i,
    {
        if a[i] != b[i] {
            return false;
        }
        i += 1;
    }
    proof {
        assert(a@ =~= b@);
    }
    true
}

/// How far an exchange has come.
#[derive(Clone, Copy, Debug, PartialEq, Eq, Structural)]
pub struct Exchange {
    /// How many exercises were answered as expected; the next exercise has
    /// this index.
    pub passed: usize,
    /// Whether an answer was wrong, which ends the round of exercises.
    pub stopped: bool,
}

/// What the server does next.
pub enum Action {
    /// Send these datagrams, in order, and wait for the answer.
    Ask(Vec<Vec<u8>>),
    /// The round is over: send the final flag, if one is owed, and end.
    Finish(Option<Vec<u8>>),
}

impl Exchange {
    /// Whether the batch has an exercise that is still to be put.
    pub open spec fn open(self, tasks: Seq<Task>) -> bool {
        !self.stopped && self.passed < tasks.len()
    }

    /// The exchange before the first exercise.
    pub fn new() -> (r: Exchange)
        ensures
            r.passed == 0,
            !r.stopped,
    {
        Exchange { passed: 0, stopped: false }
    }

    /// What is to be done in this state. While the round is open the next
    /// exercise is put. Once it is over the final flag is owed if and only if
    /// at least `required` exercises were passed.
    pub fn next_action(&self, tasks: &Vec<Task>, required: u8, final_flag: u64) -> (action: Action)
        ensures
            self.open(tasks@) ==> (action matches Action::Ask(packets) && rows(packets@)
                == packets_of(tasks@[self.passed as int]@.givens())),
            !self.open(tasks@) && self.passed >= required ==> (action matches Action::Finish(
                Some(flag),
            ) && flag@ == packet_bytes(decimal_text(final_flag as nat))),
            !self.open(tasks@) && self.passed < required ==> (action matches Action::Finish(
                None,
            )),
    {
        if !self.stopped && self.passed < tasks.len() {
            Action::Ask(tasks[self.passed].given_packets())
        } else if self.passed >= required as usize {
            let text = decimal(final_flag);
            Action::Finish(Some(packet(text.as_str())))
        } else {
            Action::Finish(None)
        }
    }

    /// Takes the answer to the exercise that was put. The expected answer
    /// counts as passed and leads on to the next exercise; any other ends the
    /// round, so that no further exercise is put. Once the round is over an
    /// answer changes nothing.
    pub fn record(&mut self, tasks: &Vec<Task>, answer: &Vec<u8>) -> (pass: bool)
        ensures
            pass == (old(self).open(tasks@) && answer@ == vstd::utf8::encode_utf8(
                tasks@[old(self).passed as int]@.expected(),
            )),
            pass ==> final(self).passed == old(self).passed + 1 && !final(self).stopped,
            !pass && old(self).open(tasks@) ==> final(self).passed == old(self).passed
                && final(self).stopped,
            !old(self).open(tasks@) ==> *final(self) == *old(self),
            !pass ==> !final(self).open(tasks@),
    {
        if self.stopped || self.passed >= tasks.len() {
            return false;
        }
        let pass = tasks[self.passed].accepts(answer);
        if pass {
            self.passed = self.passed + 1;
        } else {
            self.stopped = true;
        }
        pass
    }
}

} // verus!

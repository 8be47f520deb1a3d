//! The streaming relay: it turns the standard output of a long-running
//! program into one event per line for a streaming client, and decides when
//! the program is terminated and the stream closed.
//!
//! The relay is a state machine. Whoever runs it spawns the program, reads
//! its output, writes to the client, and hands each thing that happens to
//! [`Relay::on_event`], which answers with the steps to take.
use vstd::prelude::*;
use vstd::utf8::decode_utf8;
use vstd::utf8::valid_utf8;
use crate::auth::utf8_text;
use crate::text::lemma_pieces_nonempty;
use crate::text::pieces;

verus! {

/// The line feed byte that ends a line.
pub const NEWLINE: u8 = 10;

/// The carriage return byte that may stand before a line feed.
pub const CARRIAGE_RETURN: u8 = 13;

#[derive(PartialEq, Eq, Structural, Clone, Copy, Debug)]
pub enum Phase {
    /// The program is not running yet.
    Idle,
    /// The program runs and its lines are forwarded.
    Streaming,
    /// The session is over; nothing more is done.
    Closed,
}

/// What the relay is told.
#[derive(Debug)]
pub enum Event {
    /// The program was spawned and its output is open.
    Started,
    /// Bytes that the program wrote to its output.
    Output(Vec<u8>),
    /// The program closed its output.
    OutputEnded,
    /// The client closed its connection.
    ClientGone,
    /// The program could not be spawned, or reading its output failed.
    Failed,
}

/// What the relay asks for.
#[derive(Debug)]
pub enum Step {
    /// Send one line to the client as one event.
    Emit(String),
    /// Terminate the program.
    Terminate,
    /// Close the stream and release the session.
    Close,
}

pub struct Relay {
    phase: Phase,
    pending: Vec<u8>,
    seen: Ghost<Seq<u8>>,
    sent: Ghost<Seq<Seq<u8>>>,
}

/// The lines of an output that a newline has ended, without their newlines.
pub open spec fn terminated_lines(s: Seq<u8>) -> Seq<Seq<u8>> {
    pieces(s, NEWLINE).drop_last()
}

/// The lines of an output, split at its newlines: every line that a newline
/// ended, then the unfinished rest if it is not empty.
pub open spec fn output_lines(s: Seq<u8>) -> Seq<Seq<u8>> {
    let p = pieces(s, NEWLINE);
    if p.last().len() == 0 {
        p.drop_last()
    } else {
        p
    }
}

/// A line without the carriage return that may end it.
pub open spec fn without_cr(line: Seq<u8>) -> Seq<u8> {
    if line.len() > 0 && line.last() == CARRIAGE_RETURN {
        line.drop_last()
    } else {
        line
    }
}

/// Whether a line is text that can be sent.
pub open spec fn line_ok(line: Seq<u8>) -> bool {
    valid_utf8(without_cr(line))
}

/// The text of the event for a line.
pub open spec fn line_event(line: Seq<u8>) -> Seq<char> {
    decode_utf8(without_cr(line))
}

/// Whether `steps` sends `lines`, one event each, in order.
pub open spec fn emits(steps: Seq<Step>, lines: Seq<Seq<u8>>) -> bool {
    &&& steps.len() == lines.len()
    &&& forall|k: int|
        0 <= k < steps.len() ==> (#[trigger] steps[k] matches Step::Emit(t) && line_ok(lines[k])
            && t@ == line_event(lines[k]))
}

/// Whether `steps` sends the first lines of `lines` up to one that is not
/// text, then terminates the program and closes the stream.
pub open spec fn emits_until_bad(steps: Seq<Step>, lines: Seq<Seq<u8>>) -> bool {
    let n = steps.len() - 2;
    &&& steps.len() >= 2
    &&& n < lines.len()
    &&& emits(steps.take(n), lines.take(n))
    &&& !line_ok(lines[n])
    &&& steps[n] is Terminate
    &&& steps[steps.len() - 1] is Close
}

pub open spec fn is_terminate_close(steps: Seq<Step>) -> bool {
    steps.len() == 2 && steps[0] is Terminate && steps[1] is Close
}

pub open spec fn is_close(steps: Seq<Step>) -> bool {
    steps.len() == 1 && steps[0] is Close
}

/// The text of the event for a line, if it is text.
fn line_text(line: Vec<u8>) -> (r: Option<String>)
    ensures
        match r {
            Some(t) => line_ok(line@) && t@ == line_event(line@),
            None => !line_ok(line@),
        },
{
    let mut line = line;
    let n = line.len();
    if n > 0 && line[n - 1] == CARRIAGE_RETURN {
        line.pop();
    }
    utf8_text(line)
}

/// Output seen before and after one more byte.
proof fn lemma_pieces_push(s: Seq<u8>, b: u8)
    ensures
        pieces(s.push(b), NEWLINE) == if b == NEWLINE {
            pieces(s, NEWLINE).push(seq![])
        } else {
            let p = pieces(s, NEWLINE);
            p.update(p.len() - 1, p.last().push(b))
        },
{
    assert(s.push(b).drop_last() =~= s);
}

impl Relay {
    pub closed spec fn phase_spec(&self) -> Phase {
        self.phase
    }

    /// All the output that the relay has been handed.
    pub closed spec fn seen(&self) -> Seq<u8> {
        self.seen@
    }

    /// The lines that the relay has sent, each as its bytes.
    pub closed spec fn sent(&self) -> Seq<Seq<u8>> {
        self.sent@
    }

    /// The bytes of the line that no newline has ended yet.
    pub closed spec fn pending(&self) -> Seq<u8> {
        self.pending@
    }

    /// Until the session closes, the output seen splits into the lines sent
    /// and the pending part of the next.
    pub closed spec fn wf(&self) -> bool {
        self.phase != Phase::Closed ==> pieces(self.seen@, NEWLINE) == self.sent@.push(
            self.pending@,
        )
    }

    /// A relay whose program has not been spawned yet.
    pub fn new() -> (r: Relay)
        ensures
            r.wf(),
            r.phase_spec() == Phase::Idle,
            r.pending() == Seq::<u8>::empty(),
            r.seen() == Seq::<u8>::empty(),
            r.sent() == Seq::<Seq<u8>>::empty(),
    {
        let r = Relay {
            phase: Phase::Idle,
            pending: Vec::new(),
            seen: Ghost(Seq::empty()),
            sent: Ghost(Seq::empty()),
        };
        assert(r.sent@.push(r.pending@) =~= seq![Seq::<u8>::empty()]);
        r
    }

    pub fn phase(&self) -> (r: Phase)
        ensures
            r == self.phase_spec(),
    {
        self.phase
    }

    /// Takes in bytes of output while streaming: sends each line that they
    /// complete, and stops at the first line that is not text.
    fn take_output(&mut self, chunk: Vec<u8>) -> (steps: Vec<Step>)
        requires
            old(self).wf(),
            old(self).phase == Phase::Streaming,
        ensures
            final(self).wf(),
            final(self).phase == Phase::Streaming ==> {
                &&& final(self).seen@ == old(self).seen@ + chunk@
                &&& final(self).sent@.len() >= old(self).sent@.len()
                &&& final(self).sent@.take(old(self).sent@.len() as int) == old(self).sent@
                &&& emits(steps@, final(self).sent@.skip(old(self).sent@.len() as int))
            },
            final(self).phase != Phase::Streaming ==> {
                &&& final(self).phase == Phase::Closed
                &&& (old(self).seen@ + chunk@).take(final(self).seen@.len() as int) == final(self).seen@
                &&& final(self).seen@.len() <= old(self).seen@.len() + chunk@.len()
                &&& final(self).seen@.len() >= old(self).seen@.len()
                &&& emits_until_bad(
                    steps@,
                    terminated_lines(final(self).seen@).skip(old(self).sent@.len() as int),
                )
            },
    {
        let ghost seen0 = self.seen@;
        let ghost sent0 = self.sent@;
        let mut steps: Vec<Step> = Vec::new();
        let mut i: usize = 0;
        while i < chunk.len()
            invariant
                seen0 == old(self).seen@,
                sent0 == old(self).sent@,
                self.phase == Phase::Streaming,
                i <= chunk.len(),
                self.seen@ == seen0 + chunk@.take(i as int),
                pieces(self.seen@, NEWLINE) == self.sent@.push(self.pending@),
                self.sent@.len() >= sent0.len(),
                self.sent@.take(sent0.len() as int) == sent0,
                emits(steps@, self.sent@.skip(sent0.len() as int)),
            decreases chunk.len() - i,
        {
            let b = chunk[i];
            proof {
                lemma_pieces_push(self.seen@, b);
                assert(seen0 + chunk@.take(i + 1) =~= (seen0 + chunk@.take(i as int)).push(b));
            }
            let ghost before_sent = self.sent@;
            let ghost before_steps = steps@;
            self.seen = Ghost(self.seen@.push(b));
            if b == NEWLINE {
                let mut line: Vec<u8> = Vec::new();
                std::mem::swap(&mut line, &mut self.pending);
                self.sent = Ghost(self.sent@.push(line@));
                assert(self.sent@.take(sent0.len() as int) =~= sent0);
                assert(self.sent@.skip(sent0.len() as int) =~= before_sent.skip(
                    sent0.len() as int,
                ).push(line@));
                assert(pieces(self.seen@, NEWLINE) =~= self.sent@.push(self.pending@));
                match line_text(line) {
                    Some(t) => {
                        steps.push(Step::Emit(t));
                        assert(steps@ =~= before_steps.push(Step::Emit(t)));
                        assert forall|k: int| 0 <= k < steps@.len() implies (#[trigger] steps@[k] matches Step::Emit(t)
                            && line_ok(self.sent@.skip(sent0.len() as int)[k]) && t@ == line_event(
                            self.sent@.skip(sent0.len() as int)[k],
                        )) by {
                            if k < before_steps.len() {
                                assert(steps@[k] == before_steps[k]);
                            }
                        }
                    },
                    None => {
                        steps.push(Step::Terminate);
                        steps.push(Step::Close);
                        self.phase = Phase::Closed;
                        proof {
                            let lines = terminated_lines(self.seen@).skip(sent0.len() as int);
                            assert(terminated_lines(self.seen@) =~= self.sent@);
                            let n = before_steps.len() as int;
                            assert(steps@.take(n) =~= before_steps);
                            assert(lines.take(n) =~= before_sent.skip(sent0.len() as int));
                            assert(lines[n] == line@);
                            assert((seen0 + chunk@).take(self.seen@.len() as int) =~= self.seen@);
                            assert(self.seen@ =~= seen0 + chunk@.take(i + 1));
                        }
                        return steps;
                    },
                }
            } else {
                self.pending.push(b);
                assert(pieces(self.seen@, NEWLINE) =~= self.sent@.push(self.pending@));
            }
            i = i + 1;
        }
        assert(chunk@.take(chunk@.len() as int) =~= chunk@);
        steps
    }

    /// Answers one event with the steps to take.
    ///
    /// While streaming, output is forwarded line by line as it arrives; when
    /// the program ends its output, a last unfinished line is sent too; when
    /// the client goes away or the program fails, the program is terminated
    /// and the stream closed at once. A closed session does nothing more.
    pub fn on_event(&mut self, ev: Event) -> (steps: Vec<Step>)
        requires
            old(self).wf(),
        ensures
            final(self).wf(),
            final(self).phase_spec() != Phase::Closed ==> pieces(final(self).seen(), NEWLINE)
                == final(self).sent().push(final(self).pending()),
            old(self).phase_spec() == Phase::Closed ==> steps@.len() == 0 && final(self).phase_spec() == Phase::Closed,
            old(self).phase_spec() == Phase::Idle ==> match ev {
                Event::Started => {
                    &&& final(self).phase_spec() == Phase::Streaming
                    &&& steps@.len() == 0
                    &&& final(self).seen() == old(self).seen()
                    &&& final(self).sent() == old(self).sent()
                },
                Event::ClientGone | Event::Failed => final(self).phase_spec() == Phase::Closed
                    && is_close(steps@),
                _ => final(self).phase_spec() == Phase::Idle && steps@.len() == 0,
            },
            old(self).phase_spec() == Phase::Streaming ==> match ev {
                Event::Started => final(self).phase_spec() == Phase::Streaming && steps@.len() == 0
                    && final(self).seen() == old(self).seen() && final(self).sent() == old(self).sent(),
                Event::Output(chunk) => {
                    &&& final(self).phase_spec() == Phase::Streaming ==> {
                        &&& final(self).seen() == old(self).seen() + chunk@
                        &&& final(self).sent().take(old(self).sent().len() as int) == old(self).sent()
                        &&& emits(steps@, final(self).sent().skip(old(self).sent().len() as int))
                    }
                    &&& final(self).phase_spec() != Phase::Streaming ==> {
                        &&& final(self).phase_spec() == Phase::Closed
                        &&& final(self).seen() == (old(self).seen() + chunk@).take(
                            final(self).seen().len() as int,
                        )
                        &&& final(self).seen().len() >= old(self).seen().len()
                        &&& emits_until_bad(
                            steps@,
                            terminated_lines(final(self).seen()).skip(old(self).sent().len() as int),
                        )
                    }
                },
                Event::OutputEnded => {
                    &&& final(self).phase_spec() == Phase::Closed
                    &&& old(self).pending().len() == 0 ==> is_close(steps@)
                    &&& (old(self).pending().len() > 0 && line_ok(old(self).pending())) ==> {
                        &&& steps@.len() == 2
                        &&& steps@[0] matches Step::Emit(t) && t@ == line_event(old(self).pending())
                        &&& steps@[1] is Close
                    }
                    &&& (old(self).pending().len() > 0 && !line_ok(old(self).pending()))
                        ==> is_close(steps@)
                },
                Event::ClientGone | Event::Failed => final(self).phase_spec() == Phase::Closed
                    && is_terminate_close(steps@),
            },
    {
        match self.phase {
            Phase::Closed => Vec::new(),
            Phase::Idle => match ev {
                Event::Started => {
                    self.phase = Phase::Streaming;
                    Vec::new()
                },
                Event::ClientGone | Event::Failed => {
                    self.phase = Phase::Closed;
                    vec![Step::Close]
                },
                _ => Vec::new(),
            },
            Phase::Streaming => match ev {
                Event::Started => Vec::new(),
                Event::Output(chunk) => self.take_output(chunk),
                Event::OutputEnded => {
                    self.phase = Phase::Closed;
                    let mut line: Vec<u8> = Vec::new();
                    std::mem::swap(&mut line, &mut self.pending);
                    if line.len() == 0 {
                        vec![Step::Close]
                    } else {
                        match line_text(line) {
                            Some(t) => vec![Step::Emit(t), Step::Close],
                            None => vec![Step::Close],
                        }
                    }
                },
                Event::ClientGone | Event::Failed => {
                    self.phase = Phase::Closed;
                    vec![Step::Terminate, Step::Close]
                },
            },
        }
    }
}

/// Until a session closes, the output seen splits at its newlines into the
/// lines sent, in order, followed by the pending part of the next line: the
/// part that is sent when the program ends its output.
pub proof fn lemma_relay_framing(r: &Relay)
    requires
        r.wf(),
        r.phase_spec() != Phase::Closed,
    ensures
        pieces(r.seen(), NEWLINE) == r.sent().push(r.pending()),
        r.pending() == pieces(r.seen(), NEWLINE).last(),
{
}

/// When the program ends its output, the lines already sent followed by the
/// pending part, if it is not empty (the line that `OutputEnded` sends), are
/// exactly the lines of the whole output: each once, in order, none left out.
pub proof fn lemma_stream_sends_every_line(r: &Relay)
    requires
        r.wf(),
        r.phase_spec() != Phase::Closed,
    ensures
        output_lines(r.seen()) == if r.pending().len() > 0 {
            r.sent().push(r.pending())
        } else {
            r.sent()
        },
{
    assert(r.sent@.push(r.pending@).drop_last() =~= r.sent@);
}

/// While a session streams, the lines sent are exactly the lines that a
/// newline has ended in the output seen so far, in the order written, none
/// left out or repeated.
pub proof fn lemma_sent_lines_are_output_lines(r: &Relay)
    requires
        r.wf(),
        r.phase_spec() != Phase::Closed,
    ensures
        r.sent() == terminated_lines(r.seen()),
{
    assert(r.sent@.push(r.pending@).drop_last() =~= r.sent@);
}

/// Output that arrives later never changes the lines already ended: the
/// ended lines of an output are a prefix of those of any continuation.
pub proof fn lemma_lines_only_grow(a: Seq<u8>, b: Seq<u8>)
    ensures
        terminated_lines(a).len() <= terminated_lines(a + b).len(),
        terminated_lines(a + b).take(terminated_lines(a).len() as int) == terminated_lines(a),
    decreases b.len(),
{
    if b.len() == 0 {
        assert(a + b =~= a);
        assert(terminated_lines(a).take(terminated_lines(a).len() as int) =~= terminated_lines(a));
    } else {
        let s = a + b.drop_last();
        let x = b.last();
        lemma_lines_only_grow(a, b.drop_last());
        assert(a + b =~= s.push(x));
        lemma_pieces_push(s, x);
        lemma_pieces_nonempty(s, NEWLINE);
        let p = pieces(s, NEWLINE);
        if x == NEWLINE {
            assert(terminated_lines(s.push(x)) =~= p);
            assert(p.drop_last() =~= p.take(p.len() - 1));
        } else {
            assert(terminated_lines(s.push(x)) =~= p.drop_last());
        }
        assert(terminated_lines(a + b).take(terminated_lines(a).len() as int) =~= terminated_lines(a));
    }
}

} // verus!

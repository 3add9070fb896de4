//! The stream multiplexer: a readiness-event state machine.
//!
//! A supervised child has two output streams, each registered with a
//! level-triggered readiness poller under its own interest key. The
//! machine consumes one readiness outcome at a time: a chunk of bytes
//! extends that stream's line buffer and emits the lines it completes, a
//! zero-byte read or a read error closes the stream for good (the closed
//! flag never reverses), and a would-block outcome changes nothing. After
//! every outcome the machine tells its driver what to do with the
//! descriptor: re-arm it (the poller is not auto-persistent) or
//! deregister it permanently. The loop is over exactly when both streams
//! are closed — or when the explicit cancellation signal arrives, so that
//! a child that never writes and never exits cannot block the supervisor
//! forever.
//!
//! Lines within one stream are emitted in stream order; the interleaving
//! between the two streams follows only the order in which readiness
//! events arrive, and no stronger guarantee is stated.

use crate::lines::{
    absorb, closing_lines, complete_lines, has_line_break, joined_lines, line_rest, line_views,
    LINE_BREAK,
};
use vstd::prelude::*;

verus! {

/// The poller interest key for the child's standard output.
pub const KEY_STDOUT: usize = 1;

/// The poller interest key for the child's standard error.
pub const KEY_STDERR: usize = 2;

/// The poller interest key for the cancellation signal.
pub const KEY_CANCEL: usize = 3;

/// Which of the supervised child's streams an event belongs to.
#[derive(Clone, Copy, PartialEq, Eq, Structural, Debug)]
pub enum StreamTag {
    Stdout,
    Stderr,
}

/// The poller interest key a stream is registered under.
pub open spec fn spec_key_for(tag: StreamTag) -> usize {
    match tag {
        StreamTag::Stdout => KEY_STDOUT,
        StreamTag::Stderr => KEY_STDERR,
    }
}

/// The poller interest key a stream is registered under.
pub fn key_for(tag: StreamTag) -> (k: usize)
    ensures
        k == spec_key_for(tag),
{
    match tag {
        StreamTag::Stdout => KEY_STDOUT,
        StreamTag::Stderr => KEY_STDERR,
    }
}

/// The stream a poller interest key stands for, if any.
pub fn tag_for_key(key: usize) -> (t: Option<StreamTag>)
    ensures
        t == if key == KEY_STDOUT {
            Some(StreamTag::Stdout)
        } else if key == KEY_STDERR {
            Some(StreamTag::Stderr)
        } else {
            None::<StreamTag>
        },
{
    if key == KEY_STDOUT {
        Some(StreamTag::Stdout)
    } else if key == KEY_STDERR {
        Some(StreamTag::Stderr)
    } else {
        None
    }
}

/// What one readiness-driven, non-blocking read produced.
pub enum ReadEvent {
    /// A positive read: this many bytes arrived.
    Chunk(Vec<u8>),
    /// A zero-byte read: the peer closed the stream.
    Eof,
    /// Nothing to read right now; the stream stays open.
    WouldBlock,
    /// A read error other than would-block: treated exactly like closure,
    /// so a broken descriptor is never polled again.
    Failed,
}

/// One event the multiplexer reacts to.
pub enum MuxEvent {
    /// A readiness outcome for one of the child's streams.
    Stream(StreamTag, ReadEvent),
    /// The explicit cancellation signal.
    Cancel,
}

/// What the driver must do with a descriptor after a step.
#[derive(Clone, Copy, PartialEq, Eq, Structural, Debug)]
pub enum MuxDirective {
    /// Re-register interest: the poller needs caller-driven re-arming
    /// after each event.
    Rearm(StreamTag),
    /// Remove the descriptor from the poller permanently.
    Deregister(StreamTag),
    /// Nothing to do.
    Ignore,
}

/// The bytes an event feeds into a stream.
pub open spec fn chunk_bytes(ev: ReadEvent) -> Seq<u8> {
    match ev {
        ReadEvent::Chunk(c) => c@,
        _ => Seq::empty(),
    }
}

/// Whether an event closes its stream.
pub open spec fn closes_stream(ev: ReadEvent) -> bool {
    ev is Eof || ev is Failed
}

/// The mathematical state of one stream: every byte it has fed into its
/// line buffer, and whether it has been observed closed.
pub ghost struct StreamModel {
    pub fed: Seq<u8>,
    pub closed: bool,
}

/// A stream that has seen nothing yet.
pub open spec fn init_stream() -> StreamModel {
    StreamModel { fed: Seq::empty(), closed: false }
}

/// Every line a stream in state `m` has emitted, in emission order: the
/// complete lines of what it was fed, plus the unterminated last line
/// once the stream is closed.
pub open spec fn emitted_total(m: StreamModel) -> Seq<Seq<u8>> {
    if m.closed {
        closing_lines(m.fed)
    } else {
        complete_lines(m.fed)
    }
}

/// How one readiness outcome moves an open stream.
pub open spec fn stream_apply(s: StreamModel, ev: ReadEvent) -> StreamModel {
    StreamModel { fed: s.fed + chunk_bytes(ev), closed: closes_stream(ev) }
}

/// One stream of the supervised child, as the multiplexer holds it: the
/// accumulation buffer for the unterminated last line, and the closed
/// flag, which moves from false to true at most once and never reverses.
pub struct StreamHandle {
    /// Which stream this is.
    pub tag: StreamTag,
    /// The bytes after the last emitted line.
    pub buf: Vec<u8>,
    /// Whether the peer was observed closed.
    pub closed: bool,
    /// Every byte the poller has delivered for this stream.
    pub fed: Ghost<Seq<u8>>,
}

impl StreamHandle {
    /// The mathematical state of this stream.
    pub open spec fn model(&self) -> StreamModel {
        StreamModel { fed: self.fed@, closed: self.closed }
    }

    /// The buffer holds exactly the unterminated rest of what was fed,
    /// until closure spends it.
    pub open spec fn wf(&self) -> bool {
        if self.closed {
            self.buf@ == Seq::<u8>::empty()
        } else {
            self.buf@ == line_rest(self.fed@) && !has_line_break(self.buf@)
        }
    }

    /// A fresh, open stream with an empty buffer.
    pub fn new(tag: StreamTag) -> (s: StreamHandle)
        ensures
            s.wf(),
            s.tag == tag,
            s.model() == init_stream(),
    {
        let s = StreamHandle { tag, buf: Vec::new(), closed: false, fed: Ghost(Seq::empty()) };
        proof {
            assert(line_rest(Seq::<u8>::empty()) =~= Seq::<u8>::empty());
        }
        s
    }

    /// Consumes one readiness outcome for this open stream: a chunk emits
    /// the lines it completes and asks for re-arming; closure (or a read
    /// error, treated the same) flushes the unterminated last line, marks
    /// the stream closed and deregisters it; would-block only re-arms.
    pub fn apply(&mut self, ev: &ReadEvent) -> (r: (Vec<Vec<u8>>, MuxDirective))
        requires
            old(self).wf(),
            !old(self).closed,
        ensures
            final(self).wf(),
            final(self).tag == old(self).tag,
            final(self).model() == stream_apply(old(self).model(), *ev),
            emitted_total(final(self).model()) == emitted_total(old(self).model())
                + line_views(r.0@),
            r.1 == if closes_stream(*ev) {
                MuxDirective::Deregister(old(self).tag)
            } else {
                MuxDirective::Rearm(old(self).tag)
            },
    {
        match ev {
            ReadEvent::Chunk(c) => {
                let lines = absorb(&mut self.buf, c);
                proof {
                    crate::lines::lemma_split_append(self.fed@, c@);
                    self.fed@ = self.fed@ + c@;
                }
                (lines, MuxDirective::Rearm(self.tag))
            },
            ReadEvent::WouldBlock => {
                let lines: Vec<Vec<u8>> = Vec::new();
                proof {
                    assert(self.fed@ + chunk_bytes(*ev) =~= self.fed@);
                    assert(line_views(lines@) =~= Seq::<Seq<u8>>::empty());
                    assert(complete_lines(self.fed@) + line_views(lines@) =~= complete_lines(
                        self.fed@,
                    ));
                }
                (lines, MuxDirective::Rearm(self.tag))
            },
            _ => {
                // Eof, or a read error other than would-block: close.
                let ghost fed = self.fed@;
                let mut lines: Vec<Vec<u8>> = Vec::new();
                if self.buf.len() > 0 {
                    let rest = self.buf.split_off(0);
                    proof {
                        assert(rest@ =~= line_rest(fed));
                    }
                    lines.push(rest);
                }
                self.closed = true;
                proof {
                    assert(fed + chunk_bytes(*ev) =~= fed);
                    assert(self.buf@ =~= Seq::<u8>::empty());
                    if line_rest(fed).len() > 0 {
                        assert(line_views(lines@) =~= seq![line_rest(fed)]);
                        assert(closing_lines(fed) =~= complete_lines(fed) + line_views(lines@));
                    } else {
                        assert(line_views(lines@) =~= Seq::<Seq<u8>>::empty());
                        assert(closing_lines(fed) =~= complete_lines(fed) + line_views(lines@));
                    }
                }
                (lines, MuxDirective::Deregister(self.tag))
            },
        }
    }
}

/// One line the multiplexer emitted, with the stream it came from.
pub struct TaggedLine {
    pub tag: StreamTag,
    pub bytes: Vec<u8>,
}

/// The views of the lines in `ls` that carry `tag`, in order.
pub open spec fn tagged_views(ls: Seq<TaggedLine>, tag: StreamTag) -> Seq<Seq<u8>>
    decreases ls.len(),
{
    if ls.len() == 0 {
        Seq::empty()
    } else {
        let rest = tagged_views(ls.drop_last(), tag);
        if ls.last().tag == tag {
            rest.push(ls.last().bytes@)
        } else {
            rest
        }
    }
}

/// Projecting tagged lines distributes over concatenation.
pub proof fn lemma_tagged_views_append(a: Seq<TaggedLine>, b: Seq<TaggedLine>, tag: StreamTag)
    ensures
        tagged_views(a + b, tag) == tagged_views(a, tag) + tagged_views(b, tag),
    decreases b.len(),
{
    if b.len() == 0 {
        assert(a + b =~= a);
        assert(tagged_views(a, tag) + tagged_views(b, tag) =~= tagged_views(a, tag));
    } else {
        lemma_tagged_views_append(a, b.drop_last(), tag);
        assert(a + b =~= (a + b.drop_last()).push(b.last()));
        assert((a + b.drop_last()).push(b.last()).drop_last() =~= a + b.drop_last());
        if b.last().tag == tag {
            assert(tagged_views(a + b, tag) =~= tagged_views(a, tag) + tagged_views(b, tag));
        } else {
            assert(tagged_views(a + b, tag) =~= tagged_views(a, tag) + tagged_views(b, tag));
        }
    }
}

/// Wraps each emitted line of one stream with its tag.
fn tag_lines(tag: StreamTag, lines: Vec<Vec<u8>>) -> (r: Vec<TaggedLine>)
    ensures
        forall|t: StreamTag|
            #[trigger] tagged_views(r@, t) == if t == tag {
                line_views(lines@)
            } else {
                Seq::<Seq<u8>>::empty()
            },
{
    let mut r: Vec<TaggedLine> = Vec::new();
    let mut i: usize = 0;
    while i < lines.len()
        invariant
            i <= lines@.len(),
            forall|t: StreamTag|
                #[trigger] tagged_views(r@, t) == if t == tag {
                    line_views(lines@.take(i as int))
                } else {
                    Seq::<Seq<u8>>::empty()
                },
        decreases lines@.len() - i,
    {
        let line = &lines[i];
        let mut bytes: Vec<u8> = Vec::new();
        let mut j: usize = 0;
        while j < line.len()
            invariant
                j <= line@.len(),
                bytes@ == line@.take(j as int),
            decreases line@.len() - j,
        {
            bytes.push(line[j]);
            j += 1;
        }
        proof {
            assert(bytes@ =~= lines@[i as int]@);
        }
        let ghost prev = r@;
        let ghost bv = bytes@;
        r.push(TaggedLine { tag, bytes });
        proof {
            assert forall|t: StreamTag| #[trigger] tagged_views(r@, t) == (if t == tag {
                line_views(lines@.take(i as int + 1))
            } else {
                Seq::<Seq<u8>>::empty()
            }) by {
                assert(r@.drop_last() =~= prev);
                assert(tagged_views(prev, t) == (if t == tag {
                    line_views(lines@.take(i as int))
                } else {
                    Seq::<Seq<u8>>::empty()
                }));
                assert(r@.last().tag == tag && r@.last().bytes@ == bv);
                if t == tag {
                    assert(line_views(lines@.take(i as int + 1)) =~= line_views(
                        lines@.take(i as int),
                    ).push(lines@[i as int]@));
                }
            }
        }
        i += 1;
    }
    proof {
        assert(lines@.take(lines@.len() as int) =~= lines@);
    }
    r
}

/// The mathematical state of the multiplexer.
pub ghost struct MuxModel {
    pub out: StreamModel,
    pub err: StreamModel,
    pub cancelled: bool,
}

/// The state before any event: both streams open and unfed.
pub open spec fn init_model() -> MuxModel {
    MuxModel { out: init_stream(), err: init_stream(), cancelled: false }
}

/// The loop is over exactly when both streams are closed, or the
/// cancellation signal has arrived.
pub open spec fn spec_done(m: MuxModel) -> bool {
    (m.out.closed && m.err.closed) || m.cancelled
}

/// How one event moves the machine: it touches only the stream it names,
/// an event for an already-closed stream changes nothing, and
/// cancellation is irreversible.
pub open spec fn model_step(m: MuxModel, ev: MuxEvent) -> MuxModel {
    match ev {
        MuxEvent::Cancel => MuxModel { cancelled: true, ..m },
        MuxEvent::Stream(tag, rev) => match tag {
            StreamTag::Stdout => if m.out.closed {
                m
            } else {
                MuxModel { out: stream_apply(m.out, rev), ..m }
            },
            StreamTag::Stderr => if m.err.closed {
                m
            } else {
                MuxModel { err: stream_apply(m.err, rev), ..m }
            },
        },
    }
}

/// The machine folded over a whole event sequence, first event first.
pub open spec fn run_all(m: MuxModel, evs: Seq<MuxEvent>) -> MuxModel
    decreases evs.len(),
{
    if evs.len() == 0 {
        m
    } else {
        run_all(model_step(m, evs[0]), evs.skip(1))
    }
}

/// Folding one more event is one more step.
pub proof fn lemma_run_all_snoc(m: MuxModel, evs: Seq<MuxEvent>, ev: MuxEvent)
    ensures
        run_all(m, evs.push(ev)) == model_step(run_all(m, evs), ev),
    decreases evs.len(),
{
    let s = evs.push(ev);
    if evs.len() == 0 {
        assert(s[0] == ev);
        assert(s.skip(1) =~= Seq::<MuxEvent>::empty());
        assert(run_all(m, s) == run_all(model_step(m, s[0]), s.skip(1)));
        assert(run_all(model_step(m, ev), Seq::<MuxEvent>::empty()) == model_step(m, ev));
        assert(run_all(m, evs) == m);
    } else {
        lemma_run_all_snoc(model_step(m, evs[0]), evs.skip(1), ev);
        assert(s[0] == evs[0]);
        assert(s.skip(1) =~= evs.skip(1).push(ev));
        assert(run_all(m, s) == run_all(model_step(m, s[0]), s.skip(1)));
        assert(run_all(m, evs) == run_all(model_step(m, evs[0]), evs.skip(1)));
    }
}

/// The multiplexer: both stream handles and the cancellation flag.
pub struct Multiplexer {
    pub stdout: StreamHandle,
    pub stderr: StreamHandle,
    pub cancelled: bool,
}

/// What one step hands back: the lines it emitted, in emission order,
/// and what the driver must do with the descriptor.
pub struct MuxStep {
    pub lines: Vec<TaggedLine>,
    pub directive: MuxDirective,
}

impl Multiplexer {
    /// Both handles are well-formed and carry their own tag.
    pub open spec fn wf(&self) -> bool {
        &&& self.stdout.wf()
        &&& self.stderr.wf()
        &&& self.stdout.tag == StreamTag::Stdout
        &&& self.stderr.tag == StreamTag::Stderr
    }

    /// The mathematical state of the machine.
    pub open spec fn model(&self) -> MuxModel {
        MuxModel {
            out: self.stdout.model(),
            err: self.stderr.model(),
            cancelled: self.cancelled,
        }
    }

    /// A fresh machine: both streams open, nothing fed, not cancelled.
    pub fn new() -> (m: Multiplexer)
        ensures
            m.wf(),
            m.model() == init_model(),
    {
        Multiplexer {
            stdout: StreamHandle::new(StreamTag::Stdout),
            stderr: StreamHandle::new(StreamTag::Stderr),
            cancelled: false,
        }
    }

    /// Whether the loop is over: both streams closed, or cancelled.
    pub fn is_done(&self) -> (r: bool)
        ensures
            r == spec_done(self.model()),
    {
        (self.stdout.closed && self.stderr.closed) || self.cancelled
    }

    /// Consumes one event: the machine moves as [`model_step`] says, and
    /// the lines handed back are exactly what the named stream emits for
    /// it — nothing for a cancelled step or an already-closed stream.
    pub fn step(&mut self, ev: &MuxEvent) -> (r: MuxStep)
        requires
            old(self).wf(),
        ensures
            final(self).wf(),
            final(self).model() == model_step(old(self).model(), *ev),
            forall|t: StreamTag|
                emitted_total(stream_of(final(self).model(), t)) == emitted_total(
                    stream_of(old(self).model(), t),
                ) + #[trigger] tagged_views(r.lines@, t),
            r.directive == spec_directive(old(self).model(), *ev),
    {
        match ev {
            MuxEvent::Cancel => {
                self.cancelled = true;
                let r = MuxStep { lines: Vec::new(), directive: MuxDirective::Ignore };
                proof {
                    assert forall|t: StreamTag| emitted_total(stream_of(self.model(), t))
                        == emitted_total(stream_of(old(self).model(), t)) + #[trigger] tagged_views(
                        r.lines@,
                        t,
                    ) by {
                        assert(tagged_views(r.lines@, t) =~= Seq::<Seq<u8>>::empty());
                        assert(emitted_total(stream_of(old(self).model(), t)) + Seq::<
                            Seq<u8>,
                        >::empty() =~= emitted_total(stream_of(old(self).model(), t)));
                    }
                }
                r
            },
            MuxEvent::Stream(tag, rev) => {
                let closed = match tag {
                    StreamTag::Stdout => self.stdout.closed,
                    StreamTag::Stderr => self.stderr.closed,
                };
                if closed {
                    let r = MuxStep { lines: Vec::new(), directive: MuxDirective::Ignore };
                    proof {
                        assert forall|t: StreamTag| emitted_total(stream_of(self.model(), t))
                            == emitted_total(stream_of(old(self).model(), t))
                            + #[trigger] tagged_views(r.lines@, t) by {
                            assert(tagged_views(r.lines@, t) =~= Seq::<Seq<u8>>::empty());
                            assert(emitted_total(stream_of(old(self).model(), t)) + Seq::<
                                Seq<u8>,
                            >::empty() =~= emitted_total(stream_of(old(self).model(), t)));
                        }
                    }
                    r
                } else {
                    let (raw, directive) = match tag {
                        StreamTag::Stdout => self.stdout.apply(rev),
                        StreamTag::Stderr => self.stderr.apply(rev),
                    };
                    let lines = tag_lines(*tag, raw);
                    proof {
                        assert forall|t: StreamTag| emitted_total(stream_of(self.model(), t))
                            == emitted_total(stream_of(old(self).model(), t))
                            + #[trigger] tagged_views(lines@, t) by {
                            if t != *tag {
                                assert(tagged_views(lines@, t) =~= Seq::<Seq<u8>>::empty());
                                assert(emitted_total(stream_of(old(self).model(), t)) + Seq::<
                                    Seq<u8>,
                                >::empty() =~= emitted_total(stream_of(old(self).model(), t)));
                            }
                        }
                    }
                    MuxStep { lines, directive }
                }
            },
        }
    }
}

/// The result of running the multiplexer loop over an event sequence.
pub struct MuxRun {
    /// The machine as the loop left it.
    pub mux: Multiplexer,
    /// Every line emitted, in emission order.
    pub lines: Vec<TaggedLine>,
    /// How many events the loop consumed before it was done.
    pub consumed: usize,
}

/// Runs the multiplexer loop over a scripted event sequence: events are
/// consumed in order until the machine is done (both streams closed, or
/// cancelled) or the script is exhausted — a script that never closes the
/// streams leaves the loop waiting for more. The collected lines are
/// exactly what each stream emitted, in stream order.
pub fn run_events(events: &Vec<MuxEvent>) -> (r: MuxRun)
    ensures
        r.mux.wf(),
        r.consumed <= events@.len(),
        r.mux.model() == run_all(init_model(), events@.take(r.consumed as int)),
        forall|k: int|
            0 <= k < r.consumed ==> !spec_done(run_all(init_model(), events@.take(k))),
        r.consumed < events@.len() ==> spec_done(r.mux.model()),
        forall|t: StreamTag|
            #[trigger] tagged_views(r.lines@, t) == emitted_total(stream_of(r.mux.model(), t)),
{
    let mut mux = Multiplexer::new();
    let mut lines: Vec<TaggedLine> = Vec::new();
    let mut i: usize = 0;
    proof {
        assert(events@.take(0) =~= Seq::<MuxEvent>::empty());
        assert forall|t: StreamTag| #[trigger] tagged_views(lines@, t) == emitted_total(
            stream_of(mux.model(), t),
        ) by {
            assert(tagged_views(lines@, t) =~= Seq::<Seq<u8>>::empty());
            assert(complete_lines(Seq::<u8>::empty()) == Seq::<Seq<u8>>::empty());
        }
    }
    let mut stop = mux.is_done();
    while i < events.len() && !stop
        invariant
            mux.wf(),
            i <= events@.len(),
            mux.model() == run_all(init_model(), events@.take(i as int)),
            stop == spec_done(mux.model()),
            forall|k: int| 0 <= k < i ==> !spec_done(run_all(init_model(), events@.take(k))),
            forall|t: StreamTag|
                #[trigger] tagged_views(lines@, t) == emitted_total(stream_of(mux.model(), t)),
        decreases events@.len() - i,
    {
        let step = mux.step(&events[i]);
        let mut step_lines = step.lines;
        proof {
            lemma_tagged_views_append(lines@, step_lines@, StreamTag::Stdout);
            lemma_tagged_views_append(lines@, step_lines@, StreamTag::Stderr);
            assert(events@.take(i as int + 1) =~= events@.take(i as int).push(
                events@[i as int],
            ));
            lemma_run_all_snoc(init_model(), events@.take(i as int), events@[i as int]);
        }
        lines.append(&mut step_lines);
        i += 1;
        stop = mux.is_done();
    }
    MuxRun { mux, lines, consumed: i }
}

/// The origin prefix a forwarded line carries: `"[STDOUT] "` or
/// `"[STDERR] "`.
pub open spec fn tag_prefix(tag: StreamTag) -> Seq<u8> {
    match tag {
        StreamTag::Stdout => seq![
            ('[' as u8), ('S' as u8), ('T' as u8), ('D' as u8), ('O' as u8), ('U' as u8), ('T' as u8), (']' as u8), (' ' as u8),
        ],
        StreamTag::Stderr => seq![
            ('[' as u8), ('S' as u8), ('T' as u8), ('D' as u8), ('E' as u8), ('R' as u8), ('R' as u8), (']' as u8), (' ' as u8),
        ],
    }
}

/// Formats one emitted line for the supervisor's own output: the origin
/// prefix, the line's bytes, and a closing line break.
pub fn format_line(line: &TaggedLine) -> (out: Vec<u8>)
    ensures
        out@ == tag_prefix(line.tag) + line.bytes@ + seq![LINE_BREAK],
{
    let mut out: Vec<u8> = Vec::new();
    match line.tag {
        StreamTag::Stdout => {
            out.push(('[' as u8));
            out.push(('S' as u8));
            out.push(('T' as u8));
            out.push(('D' as u8));
            out.push(('O' as u8));
            out.push(('U' as u8));
            out.push(('T' as u8));
            out.push((']' as u8));
            out.push((' ' as u8));
        },
        StreamTag::Stderr => {
            out.push(('[' as u8));
            out.push(('S' as u8));
            out.push(('T' as u8));
            out.push(('D' as u8));
            out.push(('E' as u8));
            out.push(('R' as u8));
            out.push(('R' as u8));
            out.push((']' as u8));
            out.push((' ' as u8));
        },
    }
    proof {
        assert(out@ =~= tag_prefix(line.tag));
    }
    let mut j: usize = 0;
    while j < line.bytes.len()
        invariant
            j <= line.bytes@.len(),
            out@ == tag_prefix(line.tag) + line.bytes@.take(j as int),
        decreases line.bytes@.len() - j,
    {
        out.push(line.bytes[j]);
        proof {
            assert(tag_prefix(line.tag) + line.bytes@.take(j as int + 1) =~= (tag_prefix(
                line.tag,
            ) + line.bytes@.take(j as int)).push(line.bytes@[j as int]));
        }
        j += 1;
    }
    out.push(LINE_BREAK);
    proof {
        assert(line.bytes@.take(line.bytes@.len() as int) =~= line.bytes@);
        assert(out@ =~= tag_prefix(line.tag) + line.bytes@ + seq![LINE_BREAK]);
    }
    out
}

/// The stream of a model that `tag` names.
pub open spec fn stream_of(m: MuxModel, tag: StreamTag) -> StreamModel {
    match tag {
        StreamTag::Stdout => m.out,
        StreamTag::Stderr => m.err,
    }
}

/// What the driver is told to do for each event in each state.
pub open spec fn spec_directive(m: MuxModel, ev: MuxEvent) -> MuxDirective {
    match ev {
        MuxEvent::Cancel => MuxDirective::Ignore,
        MuxEvent::Stream(tag, rev) => if stream_of(m, tag).closed {
            MuxDirective::Ignore
        } else if closes_stream(rev) {
            MuxDirective::Deregister(tag)
        } else {
            MuxDirective::Rearm(tag)
        },
    }
}

/// A stream's closed flag, and the cancellation flag, move from false to
/// true at most once and never reverse: no event reopens a closed stream,
/// and a machine that is done stays done.
pub proof fn lemma_closed_never_reverses(m: MuxModel, ev: MuxEvent)
    ensures
        m.out.closed ==> model_step(m, ev).out.closed,
        m.err.closed ==> model_step(m, ev).err.closed,
        m.cancelled ==> model_step(m, ev).cancelled,
        spec_done(m) ==> spec_done(model_step(m, ev)),
{
}

/// The readiness outcomes of `evs` that belong to one stream, in order.
pub open spec fn stream_events(evs: Seq<MuxEvent>, tag: StreamTag) -> Seq<ReadEvent>
    decreases evs.len(),
{
    if evs.len() == 0 {
        Seq::empty()
    } else {
        let rest = stream_events(evs.drop_last(), tag);
        match evs.last() {
            MuxEvent::Stream(t, r) => if t == tag {
                rest.push(r)
            } else {
                rest
            },
            MuxEvent::Cancel => rest,
        }
    }
}

/// Whether the cancellation signal occurs anywhere in `evs`.
pub open spec fn has_cancel(evs: Seq<MuxEvent>) -> bool {
    exists|i: int| 0 <= i < evs.len() && evs[i] is Cancel
}

/// One stream folded over its own readiness outcomes: once closed, later
/// outcomes are ignored.
pub open spec fn stream_fold(s: StreamModel, revs: Seq<ReadEvent>) -> StreamModel
    decreases revs.len(),
{
    if revs.len() == 0 {
        s
    } else {
        let prev = stream_fold(s, revs.drop_last());
        if prev.closed {
            prev
        } else {
            stream_apply(prev, revs.last())
        }
    }
}

/// Whether `ev` is a chunk carrying exactly `bytes`.
pub open spec fn is_chunk_of(ev: ReadEvent, bytes: Seq<u8>) -> bool {
    ev matches ReadEvent::Chunk(c) && c@ == bytes
}

/// Dropping the last event drops a cancel exactly when the last event is
/// one.
proof fn lemma_has_cancel_snoc(evs: Seq<MuxEvent>)
    requires
        evs.len() > 0,
    ensures
        has_cancel(evs) == (has_cancel(evs.drop_last()) || evs.last() is Cancel),
{
    if has_cancel(evs) {
        let i = choose|i: int| 0 <= i < evs.len() && evs[i] is Cancel;
        if i < evs.len() - 1 {
            assert(evs.drop_last()[i] is Cancel);
        }
    }
    if has_cancel(evs.drop_last()) {
        let i = choose|i: int| 0 <= i < evs.drop_last().len() && evs.drop_last()[i] is Cancel;
        assert(evs[i] is Cancel);
    }
}

/// Each stream of the machine is moved only by its own events: a run over
/// any interleaving factors into one fold per stream, and the machine is
/// cancelled exactly when some event was the cancellation signal.
pub proof fn lemma_run_factors(m: MuxModel, evs: Seq<MuxEvent>)
    ensures
        run_all(m, evs).out == stream_fold(m.out, stream_events(evs, StreamTag::Stdout)),
        run_all(m, evs).err == stream_fold(m.err, stream_events(evs, StreamTag::Stderr)),
        run_all(m, evs).cancelled == (m.cancelled || has_cancel(evs)),
    decreases evs.len(),
{
    if evs.len() == 0 {
        assert(run_all(m, evs) == m);
        assert(!has_cancel(evs));
    } else {
        let evs0 = evs.drop_last();
        let last = evs.last();
        lemma_run_factors(m, evs0);
        lemma_run_all_snoc(m, evs0, last);
        assert(evs0.push(last) =~= evs);
        lemma_has_cancel_snoc(evs);
        let prev = run_all(m, evs0);
        assert(run_all(m, evs) == model_step(prev, last));
        match last {
            MuxEvent::Cancel => {
                assert(stream_events(evs, StreamTag::Stdout) == stream_events(
                    evs0,
                    StreamTag::Stdout,
                ));
                assert(stream_events(evs, StreamTag::Stderr) == stream_events(
                    evs0,
                    StreamTag::Stderr,
                ));
            },
            MuxEvent::Stream(t, r) => {
                assert(!(last is Cancel));
                match t {
                    StreamTag::Stdout => {
                        let se0 = stream_events(evs0, StreamTag::Stdout);
                        assert(stream_events(evs, StreamTag::Stdout) == se0.push(r));
                        assert(se0.push(r).drop_last() =~= se0);
                        assert(se0.push(r).last() == r);
                        assert(stream_fold(m.out, se0.push(r)) == (if prev.out.closed {
                            prev.out
                        } else {
                            stream_apply(prev.out, r)
                        }));
                        assert(stream_events(evs, StreamTag::Stderr) == stream_events(
                            evs0,
                            StreamTag::Stderr,
                        ));
                    },
                    StreamTag::Stderr => {
                        let se0 = stream_events(evs0, StreamTag::Stderr);
                        assert(stream_events(evs, StreamTag::Stdout) == stream_events(
                            evs0,
                            StreamTag::Stdout,
                        ));
                        assert(stream_events(evs, StreamTag::Stderr) == se0.push(r));
                        assert(se0.push(r).drop_last() =~= se0);
                        assert(se0.push(r).last() == r);
                        assert(stream_fold(m.err, se0.push(r)) == (if prev.err.closed {
                            prev.err
                        } else {
                            stream_apply(prev.err, r)
                        }));
                    },
                }
            },
        }
    }
}

/// A stream's projection splits around any cut of the event sequence.
pub proof fn lemma_stream_events_split(evs: Seq<MuxEvent>, k: int, tag: StreamTag)
    requires
        0 <= k <= evs.len(),
    ensures
        stream_events(evs, tag) == stream_events(evs.take(k), tag) + stream_events(
            evs.skip(k),
            tag,
        ),
    decreases evs.len() - k,
{
    if k == evs.len() {
        assert(evs.take(k) =~= evs);
        assert(evs.skip(k) =~= Seq::<MuxEvent>::empty());
        assert(stream_events(evs.take(k), tag) + stream_events(evs.skip(k), tag)
            =~= stream_events(evs, tag));
    } else {
        let evs0 = evs.drop_last();
        let last = evs.last();
        lemma_stream_events_split(evs0, k, tag);
        assert(evs.take(k) =~= evs0.take(k));
        assert(evs.skip(k) =~= evs0.skip(k).push(last));
        assert(evs.skip(k).drop_last() =~= evs0.skip(k));
        assert(evs.skip(k).last() == last);
        match last {
            MuxEvent::Cancel => {
                assert(stream_events(evs, tag) == stream_events(evs0, tag));
                assert(stream_events(evs.skip(k), tag) == stream_events(evs0.skip(k), tag));
            },
            MuxEvent::Stream(t, r) => {
                if t == tag {
                    assert(stream_events(evs, tag) == stream_events(evs0, tag).push(r));
                    assert(stream_events(evs.skip(k), tag) == stream_events(
                        evs0.skip(k),
                        tag,
                    ).push(r));
                    assert(stream_events(evs.take(k), tag) + stream_events(evs.skip(k), tag)
                        =~= (stream_events(evs.take(k), tag) + stream_events(
                        evs0.skip(k),
                        tag,
                    )).push(r));
                } else {
                    assert(stream_events(evs, tag) == stream_events(evs0, tag));
                    assert(stream_events(evs.skip(k), tag) == stream_events(
                        evs0.skip(k),
                        tag,
                    ));
                }
            },
        }
    }
}

/// Without a cancellation signal, every event belongs to exactly one
/// stream, so the two projections account for the whole sequence.
pub proof fn lemma_projection_lengths(evs: Seq<MuxEvent>)
    requires
        !has_cancel(evs),
    ensures
        stream_events(evs, StreamTag::Stdout).len() + stream_events(
            evs,
            StreamTag::Stderr,
        ).len() == evs.len(),
    decreases evs.len(),
{
    if evs.len() > 0 {
        let evs0 = evs.drop_last();
        assert(!has_cancel(evs0)) by {
            if has_cancel(evs0) {
                let i = choose|i: int| 0 <= i < evs0.len() && evs0[i] is Cancel;
                assert(evs[i] is Cancel);
            }
        }
        lemma_projection_lengths(evs0);
        assert(!(evs.last() is Cancel)) by {
            if evs.last() is Cancel {
                assert(evs[evs.len() - 1] is Cancel);
            }
        }
    }
}

/// A fold starting from an open stream ends closed exactly when some
/// outcome closes the stream.
pub proof fn lemma_fold_closed(s: StreamModel, revs: Seq<ReadEvent>)
    requires
        !s.closed,
    ensures
        stream_fold(s, revs).closed == (exists|i: int|
            0 <= i < revs.len() && closes_stream(#[trigger] revs[i])),
    decreases revs.len(),
{
    if revs.len() > 0 {
        let revs0 = revs.drop_last();
        lemma_fold_closed(s, revs0);
        if stream_fold(s, revs).closed {
            if stream_fold(s, revs0).closed {
                let i = choose|i: int| 0 <= i < revs0.len() && closes_stream(#[trigger] revs0[i]);
                assert(closes_stream(revs[i]));
            } else {
                assert(closes_stream(revs.last()));
                assert(closes_stream(revs[revs.len() - 1]));
            }
        }
        if exists|i: int| 0 <= i < revs.len() && closes_stream(#[trigger] revs[i]) {
            let i = choose|i: int| 0 <= i < revs.len() && closes_stream(#[trigger] revs[i]);
            if i < revs.len() - 1 {
                assert(closes_stream(revs0[i]));
            }
        }
    }
}

/// A session in which each stream delivers one terminated line and then
/// closes — in any interleaving, with no cancellation — emits each line
/// exactly once, and the machine is done exactly at the last event: never
/// before both closures are observed, and always once they are.
pub proof fn lemma_session_each_line_once(evs: Seq<MuxEvent>, a: Seq<u8>, b: Seq<u8>)
    requires
        !has_line_break(a),
        !has_line_break(b),
        !has_cancel(evs),
        stream_events(evs, StreamTag::Stdout).len() == 2,
        is_chunk_of(stream_events(evs, StreamTag::Stdout)[0], a.push(LINE_BREAK)),
        stream_events(evs, StreamTag::Stdout)[1] is Eof,
        stream_events(evs, StreamTag::Stderr).len() == 2,
        is_chunk_of(stream_events(evs, StreamTag::Stderr)[0], b.push(LINE_BREAK)),
        stream_events(evs, StreamTag::Stderr)[1] is Eof,
    ensures
        evs.len() == 4,
        run_all(init_model(), evs).out.closed,
        run_all(init_model(), evs).err.closed,
        spec_done(run_all(init_model(), evs)),
        emitted_total(run_all(init_model(), evs).out) == seq![a],
        emitted_total(run_all(init_model(), evs).err) == seq![b],
        forall|k: int| 0 <= k < evs.len() ==> !spec_done(run_all(init_model(), evs.take(k))),
{
    lemma_projection_lengths(evs);
    lemma_run_factors(init_model(), evs);
    lemma_one_line_stream_fold(stream_events(evs, StreamTag::Stdout), a);
    lemma_one_line_stream_fold(stream_events(evs, StreamTag::Stderr), b);
    assert forall|k: int| 0 <= k < evs.len() implies !spec_done(
        run_all(init_model(), evs.take(k)),
    ) by {
        let pre = evs.take(k);
        assert(!has_cancel(pre)) by {
            if has_cancel(pre) {
                let i = choose|i: int| 0 <= i < pre.len() && pre[i] is Cancel;
                assert(evs[i] is Cancel);
            }
        }
        lemma_run_factors(init_model(), pre);
        lemma_projection_lengths(pre);
        lemma_stream_events_split(evs, k, StreamTag::Stdout);
        lemma_stream_events_split(evs, k, StreamTag::Stderr);
        let po = stream_events(pre, StreamTag::Stdout);
        let pe = stream_events(pre, StreamTag::Stderr);
        let fo = stream_events(evs, StreamTag::Stdout);
        let fe = stream_events(evs, StreamTag::Stderr);
        assert(po.len() + pe.len() == k);
        if po.len() < 2 {
            assert forall|i: int| 0 <= i < po.len() implies po[i] == fo[i] by {
                assert(fo[i] == (po + stream_events(evs.skip(k), StreamTag::Stdout))[i]);
            }
            lemma_open_short_prefix(fo, po, a);
        } else {
            assert(pe.len() < 2);
            assert forall|i: int| 0 <= i < pe.len() implies pe[i] == fe[i] by {
                assert(fe[i] == (pe + stream_events(evs.skip(k), StreamTag::Stderr))[i]);
            }
            lemma_open_short_prefix(fe, pe, b);
        }
    }
}

/// The fold of one stream over exactly one terminated chunk and a
/// closure: the stream ends closed, having emitted that one line.
proof fn lemma_one_line_stream_fold(se: Seq<ReadEvent>, a: Seq<u8>)
    requires
        !has_line_break(a),
        se.len() == 2,
        is_chunk_of(se[0], a.push(LINE_BREAK)),
        se[1] is Eof,
    ensures
        stream_fold(init_stream(), se).closed,
        emitted_total(stream_fold(init_stream(), se)) == seq![a],
{
    let s1 = stream_fold(init_stream(), se.drop_last());
    assert(se.drop_last().drop_last() =~= Seq::<ReadEvent>::empty());
    assert(se.drop_last().len() == 1);
    assert(se.drop_last().last() == se[0]);
    assert(stream_fold(init_stream(), se.drop_last().drop_last()) == init_stream());
    assert(s1 == stream_apply(init_stream(), se[0]));
    assert(se.last() == se[1]);
    assert(s1.fed =~= a.push(LINE_BREAK));
    assert(!s1.closed);
    assert(stream_fold(init_stream(), se) == stream_apply(s1, se[1]));
    let m = stream_fold(init_stream(), se);
    assert(m.closed);
    assert(m.fed =~= a.push(LINE_BREAK));
    crate::lines::lemma_partial_chunks_one_line(Seq::<u8>::empty(), a);
    assert(Seq::<u8>::empty() + a.push(LINE_BREAK) =~= a.push(LINE_BREAK));
    assert(Seq::<u8>::empty() + a =~= a);
    assert(complete_lines(a.push(LINE_BREAK)) == seq![a]);
    assert(line_rest(a.push(LINE_BREAK)) =~= Seq::<u8>::empty());
    assert(emitted_total(m) == closing_lines(a.push(LINE_BREAK)));
}

/// A proper prefix of a one-line stream projection contains no closing
/// outcome, so the folded stream is still open.
proof fn lemma_open_short_prefix(full: Seq<ReadEvent>, pre: Seq<ReadEvent>, a: Seq<u8>)
    requires
        full.len() == 2,
        is_chunk_of(full[0], a.push(LINE_BREAK)),
        full[1] is Eof,
        pre.len() < 2,
        forall|i: int| 0 <= i < pre.len() ==> pre[i] == full[i],
    ensures
        !stream_fold(init_stream(), pre).closed,
{
    lemma_fold_closed(init_stream(), pre);
    assert forall|i: int| 0 <= i < pre.len() implies !closes_stream(#[trigger] pre[i]) by {
        assert(i == 0);
        assert(pre[0] == full[0]);
        assert(!closes_stream(full[0]));
    }
}

/// What an open stream has emitted, each line closed again with its break
/// byte, plus what still sits in its buffer, accounts for every byte the
/// poller delivered for it: the multiplexer never silently drops data.
pub proof fn lemma_stream_conserves_bytes(s: StreamHandle)
    requires
        s.wf(),
        !s.closed,
    ensures
        joined_lines(emitted_total(s.model())) + s.buf@ == s.fed@,
{
    crate::lines::lemma_no_byte_lost(s.fed@);
}

/// The cancellation signal unblocks the loop within a bounded time: the
/// machine is done as soon as the signal is consumed, whatever else the
/// script holds, so a driver that stops at the first done prefix consumes
/// at most the events up to and including the signal.
pub proof fn lemma_cancel_unblocks(evs: Seq<MuxEvent>, i: int)
    requires
        0 <= i < evs.len(),
        evs[i] is Cancel,
    ensures
        spec_done(run_all(init_model(), evs.take(i + 1))),
{
    lemma_run_all_snoc(init_model(), evs.take(i), evs[i]);
    assert(evs.take(i + 1) =~= evs.take(i).push(evs[i]));
}

} // verus!


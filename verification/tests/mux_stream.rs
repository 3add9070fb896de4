//! The stream multiplexer: line accumulation, closure, event order
//! independence, cancellation, directives, and output formatting.

use enclave_init::mux::{
    format_line, key_for, run_events, tag_for_key, Multiplexer, MuxDirective, MuxEvent,
    ReadEvent, StreamTag, TaggedLine, KEY_CANCEL, KEY_STDERR, KEY_STDOUT,
};

fn chunk(tag: StreamTag, bytes: &[u8]) -> MuxEvent {
    MuxEvent::Stream(tag, ReadEvent::Chunk(bytes.to_vec()))
}

fn eof(tag: StreamTag) -> MuxEvent {
    MuxEvent::Stream(tag, ReadEvent::Eof)
}

fn lines_of(run_lines: &[TaggedLine]) -> Vec<(StreamTag, Vec<u8>)> {
    run_lines.iter().map(|l| (l.tag, l.bytes.clone())).collect()
}

#[test]
fn one_line_per_stream_either_order_first() {
    // stdout finishes first, stderr after.
    let events = vec![
        chunk(StreamTag::Stdout, b"a\n"),
        eof(StreamTag::Stdout),
        chunk(StreamTag::Stderr, b"b\n"),
        eof(StreamTag::Stderr),
    ];
    let run = run_events(&events);
    assert_eq!(run.consumed, 4);
    assert!(run.mux.stdout.closed && run.mux.stderr.closed);
    assert_eq!(
        lines_of(&run.lines),
        vec![
            (StreamTag::Stdout, b"a".to_vec()),
            (StreamTag::Stderr, b"b".to_vec()),
        ]
    );
}

#[test]
fn one_line_per_stream_either_order_second() {
    // The same session with the streams' events interleaved the other
    // way: each line still arrives exactly once and the loop still ends
    // exactly when both closures have been observed.
    let events = vec![
        chunk(StreamTag::Stderr, b"b\n"),
        chunk(StreamTag::Stdout, b"a\n"),
        eof(StreamTag::Stderr),
        eof(StreamTag::Stdout),
    ];
    let run = run_events(&events);
    assert_eq!(run.consumed, 4);
    assert!(run.mux.stdout.closed && run.mux.stderr.closed);
    assert_eq!(
        lines_of(&run.lines),
        vec![
            (StreamTag::Stderr, b"b".to_vec()),
            (StreamTag::Stdout, b"a".to_vec()),
        ]
    );
}

#[test]
fn partial_chunks_emit_one_line() {
    // "ab" then "c\n" on one stream: exactly one emitted line "abc",
    // never two partial emissions.
    let events = vec![
        chunk(StreamTag::Stdout, b"ab"),
        chunk(StreamTag::Stdout, b"c\n"),
        eof(StreamTag::Stdout),
        eof(StreamTag::Stderr),
    ];
    let run = run_events(&events);
    assert_eq!(
        lines_of(&run.lines),
        vec![(StreamTag::Stdout, b"abc".to_vec())]
    );
}

#[test]
fn one_chunk_may_complete_several_lines() {
    let events = vec![
        chunk(StreamTag::Stderr, b"x\ny\nz"),
        eof(StreamTag::Stderr),
        eof(StreamTag::Stdout),
    ];
    let run = run_events(&events);
    assert_eq!(
        lines_of(&run.lines),
        vec![
            (StreamTag::Stderr, b"x".to_vec()),
            (StreamTag::Stderr, b"y".to_vec()),
            (StreamTag::Stderr, b"z".to_vec()),
        ]
    );
}

#[test]
fn closure_flushes_unterminated_line() {
    let events = vec![
        chunk(StreamTag::Stdout, b"tail"),
        eof(StreamTag::Stdout),
    ];
    let run = run_events(&events);
    assert_eq!(
        lines_of(&run.lines),
        vec![(StreamTag::Stdout, b"tail".to_vec())]
    );
    assert!(run.mux.stdout.closed);
    assert!(!run.mux.stderr.closed);
}

#[test]
fn silent_child_leaves_loop_waiting() {
    // A child that never writes and never exits: the script runs out with
    // the machine not done — the loop would block indefinitely.
    let events: Vec<MuxEvent> = Vec::new();
    let run = run_events(&events);
    assert_eq!(run.consumed, 0);
    assert!(!run.mux.stdout.closed && !run.mux.stderr.closed && !run.mux.cancelled);
    assert!(run.lines.is_empty());
}

#[test]
fn cancellation_unblocks_silent_child() {
    // With the cancellation signal the loop exits at once, closed streams
    // or not, and consumes nothing after the signal.
    let events = vec![
        MuxEvent::Cancel,
        chunk(StreamTag::Stdout, b"late\n"),
    ];
    let run = run_events(&events);
    assert_eq!(run.consumed, 1);
    assert!(run.mux.cancelled);
    assert!(run.lines.is_empty());
}

#[test]
fn read_error_is_treated_as_closure() {
    let events = vec![
        MuxEvent::Stream(StreamTag::Stdout, ReadEvent::Failed),
        eof(StreamTag::Stderr),
    ];
    let run = run_events(&events);
    assert_eq!(run.consumed, 2);
    assert!(run.mux.stdout.closed && run.mux.stderr.closed);
}

#[test]
fn would_block_rearms_and_emits_nothing() {
    let mut mux = Multiplexer::new();
    let step = mux.step(&MuxEvent::Stream(StreamTag::Stdout, ReadEvent::WouldBlock));
    assert_eq!(step.directive, MuxDirective::Rearm(StreamTag::Stdout));
    assert!(step.lines.is_empty());
    assert!(!mux.stdout.closed);
}

#[test]
fn chunk_rearms_and_closure_deregisters() {
    let mut mux = Multiplexer::new();
    let step = mux.step(&chunk(StreamTag::Stderr, b"hi\n"));
    assert_eq!(step.directive, MuxDirective::Rearm(StreamTag::Stderr));
    assert_eq!(lines_of(&step.lines), vec![(StreamTag::Stderr, b"hi".to_vec())]);
    let step = mux.step(&eof(StreamTag::Stderr));
    assert_eq!(step.directive, MuxDirective::Deregister(StreamTag::Stderr));
}

#[test]
fn closed_stream_events_are_ignored() {
    // Closure is permanent: a late event for a deregistered stream
    // changes nothing and emits nothing.
    let mut mux = Multiplexer::new();
    mux.step(&eof(StreamTag::Stdout));
    assert!(mux.stdout.closed);
    let step = mux.step(&chunk(StreamTag::Stdout, b"late\n"));
    assert_eq!(step.directive, MuxDirective::Ignore);
    assert!(step.lines.is_empty());
    assert!(mux.stdout.closed);
}

#[test]
fn done_exactly_when_both_closed() {
    let mut mux = Multiplexer::new();
    assert!(!mux.is_done());
    mux.step(&eof(StreamTag::Stdout));
    assert!(!mux.is_done());
    mux.step(&eof(StreamTag::Stderr));
    assert!(mux.is_done());
}

#[test]
fn no_byte_is_dropped_between_lines_and_buffer() {
    // Reassembling the emitted lines (break bytes restored) and the
    // leftover buffer gives back exactly the bytes that were fed.
    let events = vec![
        chunk(StreamTag::Stdout, b"ab"),
        chunk(StreamTag::Stdout, b"c\ndef"),
    ];
    let run = run_events(&events);
    let mut reassembled: Vec<u8> = Vec::new();
    for line in &run.lines {
        reassembled.extend_from_slice(&line.bytes);
        reassembled.push(b'\n');
    }
    reassembled.extend_from_slice(&run.mux.stdout.buf);
    assert_eq!(reassembled, b"abc\ndef".to_vec());
}

#[test]
fn formatted_lines_carry_origin_prefix() {
    let out = format_line(&TaggedLine { tag: StreamTag::Stdout, bytes: b"a".to_vec() });
    assert_eq!(out, b"[STDOUT] a\n".to_vec());
    let err = format_line(&TaggedLine { tag: StreamTag::Stderr, bytes: b"b".to_vec() });
    assert_eq!(err, b"[STDERR] b\n".to_vec());
}

#[test]
fn interest_keys_are_distinct_and_invertible() {
    assert_eq!(key_for(StreamTag::Stdout), KEY_STDOUT);
    assert_eq!(key_for(StreamTag::Stderr), KEY_STDERR);
    assert_eq!(KEY_STDOUT, 1);
    assert_eq!(KEY_STDERR, 2);
    assert_ne!(KEY_CANCEL, KEY_STDOUT);
    assert_ne!(KEY_CANCEL, KEY_STDERR);
    assert_eq!(tag_for_key(KEY_STDOUT), Some(StreamTag::Stdout));
    assert_eq!(tag_for_key(KEY_STDERR), Some(StreamTag::Stderr));
    assert_eq!(tag_for_key(KEY_CANCEL), None);
}

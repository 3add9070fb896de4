//! Splitting a byte stream into lines, incrementally.
//!
//! A supervised child's output arrives as arbitrary chunks from
//! non-blocking reads. Partial chunks accumulate in a per-stream buffer;
//! a line is emitted exactly when its break byte arrives, so a chunk
//! `"ab"` followed later by `"c\n"` produces the single line `"abc"`,
//! never two partial emissions. [`complete_lines`] and [`line_rest`] say
//! what the emitted lines and the leftover buffer are for any byte
//! sequence, and [`absorb`] is the executable step that keeps them in
//! sync, one chunk at a time.

use vstd::prelude::*;

verus! {

/// The byte that ends a line.
pub const LINE_BREAK: u8 = 10;

/// Whether `b` ends a line.
pub open spec fn is_line_break(b: u8) -> bool {
    b == LINE_BREAK
}

/// Whether any byte of `s` ends a line.
pub open spec fn has_line_break(s: Seq<u8>) -> bool {
    exists|i: int| 0 <= i < s.len() && is_line_break(s[i])
}

/// The bytes of `s` after its last line break: the partial line a stream
/// buffer still holds once every complete line of `s` has been emitted.
pub open spec fn line_rest(s: Seq<u8>) -> Seq<u8>
    decreases s.len(),
{
    if s.len() == 0 {
        Seq::empty()
    } else if is_line_break(s.last()) {
        Seq::empty()
    } else {
        line_rest(s.drop_last()).push(s.last())
    }
}

/// The complete lines of `s`, in order, without their break bytes.
pub open spec fn complete_lines(s: Seq<u8>) -> Seq<Seq<u8>>
    decreases s.len(),
{
    if s.len() == 0 {
        Seq::empty()
    } else if is_line_break(s.last()) {
        complete_lines(s.drop_last()).push(line_rest(s.drop_last()))
    } else {
        complete_lines(s.drop_last())
    }
}

/// Every line a stream that received exactly `s` has emitted once it
/// closes: the complete lines, and the unterminated last line if there is
/// one.
pub open spec fn closing_lines(s: Seq<u8>) -> Seq<Seq<u8>> {
    if line_rest(s).len() > 0 {
        complete_lines(s).push(line_rest(s))
    } else {
        complete_lines(s)
    }
}

/// A sequence without a line break has no complete line and is all rest.
pub proof fn lemma_no_break(s: Seq<u8>)
    requires
        !has_line_break(s),
    ensures
        line_rest(s) == s,
        complete_lines(s) == Seq::<Seq<u8>>::empty(),
    decreases s.len(),
{
    if s.len() == 0 {
        assert(line_rest(s) =~= s);
    } else {
        assert(!is_line_break(s.last()));
        assert(!has_line_break(s.drop_last()));
        lemma_no_break(s.drop_last());
        assert(line_rest(s) =~= s);
    }
}

/// The rest after the last break never contains a break itself.
pub proof fn lemma_line_rest_has_no_break(s: Seq<u8>)
    ensures
        !has_line_break(line_rest(s)),
    decreases s.len(),
{
    if s.len() == 0 {
    } else if is_line_break(s.last()) {
    } else {
        lemma_line_rest_has_no_break(s.drop_last());
        assert forall|i: int| 0 <= i < line_rest(s).len() implies !is_line_break(
            line_rest(s)[i],
        ) by {
            if i < line_rest(s).len() - 1 {
                assert(line_rest(s)[i] == line_rest(s.drop_last())[i]);
            }
        }
    }
}

/// Splitting is incremental: feeding `c` to a stream that has already
/// seen `s` completes exactly the lines that `c` completes on top of the
/// leftover rest of `s`, and leaves the same rest as feeding `s + c` at
/// once.
pub proof fn lemma_split_append(s: Seq<u8>, c: Seq<u8>)
    ensures
        line_rest(s + c) == line_rest(line_rest(s) + c),
        complete_lines(s + c) == complete_lines(s) + complete_lines(line_rest(s) + c),
    decreases c.len(),
{
    if c.len() == 0 {
        assert(s + c =~= s);
        assert(line_rest(s) + c =~= line_rest(s));
        lemma_line_rest_has_no_break(s);
        lemma_no_break(line_rest(s));
        assert(complete_lines(s) + complete_lines(line_rest(s)) =~= complete_lines(s));
    } else {
        let c0 = c.drop_last();
        let b = c.last();
        lemma_split_append(s, c0);
        assert(s + c =~= (s + c0).push(b));
        assert(line_rest(s) + c =~= (line_rest(s) + c0).push(b));
        assert((s + c0).push(b).drop_last() =~= s + c0);
        assert((line_rest(s) + c0).push(b).drop_last() =~= line_rest(s) + c0);
        if is_line_break(b) {
            assert(complete_lines(s + c) =~= complete_lines(s) + complete_lines(
                line_rest(s) + c,
            ));
        } else {
            assert(line_rest(s + c) =~= line_rest(line_rest(s) + c));
        }
    }
}

/// Lines laid back to back, each closed again with its break byte.
pub open spec fn joined_lines(lines: Seq<Seq<u8>>) -> Seq<u8>
    decreases lines.len(),
{
    if lines.len() == 0 {
        Seq::empty()
    } else {
        joined_lines(lines.drop_last()) + lines.last() + seq![LINE_BREAK]
    }
}

/// No byte is silently dropped on the way from a stream into its lines:
/// the complete lines of `s`, each closed again with its break byte,
/// followed by the leftover rest (the one part still awaiting its break),
/// reassemble `s` exactly.
pub proof fn lemma_no_byte_lost(s: Seq<u8>)
    ensures
        joined_lines(complete_lines(s)) + line_rest(s) == s,
    decreases s.len(),
{
    if s.len() == 0 {
        assert(joined_lines(complete_lines(s)) + line_rest(s) =~= s);
    } else {
        let s0 = s.drop_last();
        let b = s.last();
        lemma_no_byte_lost(s0);
        if is_line_break(b) {
            assert(complete_lines(s0).push(line_rest(s0)).drop_last() =~= complete_lines(s0));
            assert(joined_lines(complete_lines(s)) == joined_lines(complete_lines(s0))
                + line_rest(s0) + seq![LINE_BREAK]);
            assert(joined_lines(complete_lines(s0)) + line_rest(s0) + seq![LINE_BREAK] == s0
                + seq![LINE_BREAK]);
            assert(s0 + seq![LINE_BREAK] =~= s);
            assert(joined_lines(complete_lines(s)) + line_rest(s) =~= joined_lines(
                complete_lines(s),
            ));
        } else {
            assert(line_rest(s) == line_rest(s0).push(b));
            assert(joined_lines(complete_lines(s)) + line_rest(s) =~= (joined_lines(
                complete_lines(s0),
            ) + line_rest(s0)).push(b));
            assert(s0.push(b) =~= s);
        }
    }
}

/// A partial chunk followed by the chunk that completes it yields exactly
/// one line, the concatenation of the two, and nothing before: an
/// unterminated chunk alone completes no line, so `"ab"` and a later
/// `"c\n"` emit the single line `"abc"`, never two partial emissions.
pub proof fn lemma_partial_chunks_one_line(c1: Seq<u8>, c3: Seq<u8>)
    requires
        !has_line_break(c1),
        !has_line_break(c3),
    ensures
        complete_lines(c1) == Seq::<Seq<u8>>::empty(),
        complete_lines(c1 + c3.push(LINE_BREAK)) == seq![c1 + c3],
{
    lemma_no_break(c1);
    assert(!has_line_break(c1 + c3)) by {
        assert forall|i: int| 0 <= i < (c1 + c3).len() implies !is_line_break(
            (c1 + c3)[i],
        ) by {
            if i < c1.len() {
                assert((c1 + c3)[i] == c1[i]);
            } else {
                assert((c1 + c3)[i] == c3[i - c1.len()]);
            }
        }
    }
    lemma_no_break(c1 + c3);
    assert(c1 + c3.push(LINE_BREAK) =~= (c1 + c3).push(LINE_BREAK));
    assert((c1 + c3).push(LINE_BREAK).drop_last() =~= c1 + c3);
    assert(complete_lines((c1 + c3).push(LINE_BREAK)) == complete_lines(c1 + c3).push(
        line_rest(c1 + c3),
    ));
    assert(Seq::<Seq<u8>>::empty().push(c1 + c3) =~= seq![c1 + c3]);
}

/// The views of a vector of emitted lines.
pub open spec fn line_views(lines: Seq<Vec<u8>>) -> Seq<Seq<u8>> {
    lines.map_values(|l: Vec<u8>| l@)
}

/// Feeds one chunk into a stream buffer that holds no line break, pushing
/// each byte and emitting the buffer as a line whenever a break byte
/// arrives: the emitted lines are exactly the lines that `chunk`
/// completes, and the buffer is left holding the new unterminated rest.
pub fn absorb(buf: &mut Vec<u8>, chunk: &Vec<u8>) -> (lines: Vec<Vec<u8>>)
    requires
        !has_line_break(old(buf)@),
    ensures
        line_views(lines@) == complete_lines(old(buf)@ + chunk@),
        final(buf)@ == line_rest(old(buf)@ + chunk@),
        !has_line_break(final(buf)@),
{
    proof {
        lemma_no_break(old(buf)@);
    }
    let ghost base = old(buf)@;
    let mut lines: Vec<Vec<u8>> = Vec::new();
    let mut k: usize = 0;
    while k < chunk.len()
        invariant
            k <= chunk@.len(),
            line_views(lines@) == complete_lines(base + chunk@.take(k as int)),
            buf@ == line_rest(base + chunk@.take(k as int)),
        decreases chunk@.len() - k,
    {
        let ghost t = base + chunk@.take(k as int);
        let b = chunk[k];
        proof {
            assert(base + chunk@.take(k as int + 1) =~= t.push(b));
            assert(t.push(b).drop_last() =~= t);
        }
        proof {
            assert(t.push(b).last() == b);
        }
        if b == LINE_BREAK {
            let line = buf.split_off(0);
            proof {
                assert(buf@ =~= line_rest(t.push(b)));
                assert(line@ =~= line_rest(t));
            }
            lines.push(line);
            proof {
                assert(complete_lines(t.push(b)) == complete_lines(t).push(line_rest(t)));
                assert(line_views(lines@) =~= complete_lines(t).push(line_rest(t)));
            }
        } else {
            buf.push(b);
            proof {
                assert(!is_line_break(t.push(b).last()));
                assert(complete_lines(t.push(b)) == complete_lines(t));
                assert(line_rest(t.push(b)) == line_rest(t).push(b));
                assert(buf@ == line_rest(t.push(b)));
            }
        }
        k += 1;
    }
    proof {
        assert(base + chunk@.take(chunk@.len() as int) =~= base + chunk@);
        lemma_line_rest_has_no_break(base + chunk@);
    }
    lines
}

} // verus!

//! Laws the library states of itself: size and uniqueness invariants of a
//! well-formed session, and the DATA receiver's round trip — a payload
//! encoded with dot-stuffing and closed with the `CRLF.CRLF` terminator is
//! decoded back to itself.

use vstd::prelude::*;

use crate::addr::no_dup_rcpts;
use crate::receiver::{DataReceiver, DataRun, data_run, data_step, line_run};
use crate::session::Session;
use crate::text::{CR, LF};

verus! {

/// The buffered message of a well-formed session never exceeds the
/// configured maximum message size; in particular every transaction handed
/// to the queue is within the limit, which the queue interface also demands
/// of its callers.
pub proof fn lemma_message_within_limit<H>(s: Session<H>)
    requires
        s.wf(),
    ensures
        s.data.message@.len() <= s.params.max_message_size,
{
}

/// The recipient list of a well-formed session holds no duplicates under
/// lower-cased address equality, and no more than the configured maximum.
pub proof fn lemma_recipients_unique_and_bounded<H>(s: Session<H>)
    requires
        s.wf(),
    ensures
        no_dup_rcpts(s.data.rcpt_to@),
        s.data.rcpt_to@.len() <= s.params.rcpt_max,
{
}

/// A payload line: free of carriage returns and line feeds.
pub open spec fn clean_line(l: Seq<u8>) -> bool {
    forall|i: int| 0 <= i < l.len() ==> l[i] != CR && l[i] != LF
}

/// Dot-stuffing of one line: a leading dot is doubled.
pub open spec fn stuff_line(l: Seq<u8>) -> Seq<u8> {
    if l.len() > 0 && l[0] == 46 {
        seq![46u8] + l
    } else {
        l
    }
}

pub open spec fn crlf() -> Seq<u8> {
    seq![CR, LF]
}

/// The `CRLF.CRLF` terminator, minus the leading `CRLF` that the last line
/// already carries.
pub open spec fn terminator() -> Seq<u8> {
    seq![46u8, CR, LF]
}

/// The wire form of a payload: each line stuffed and closed with `CRLF`.
pub open spec fn encode_lines(lines: Seq<Seq<u8>>) -> Seq<u8>
    decreases lines.len(),
{
    if lines.len() == 0 {
        Seq::empty()
    } else {
        stuff_line(lines[0]) + crlf() + encode_lines(lines.drop_first())
    }
}

/// The decoded form of a payload: each line as written, closed with `CRLF`.
pub open spec fn plain_lines(lines: Seq<Seq<u8>>) -> Seq<u8>
    decreases lines.len(),
{
    if lines.len() == 0 {
        Seq::empty()
    } else {
        lines[0] + crlf() + plain_lines(lines.drop_first())
    }
}

/// Receiver state right after a `CRLF` was consumed.
pub open spec fn after_crlf() -> DataReceiver {
    DataReceiver { crlf_dot: false, last_ch: LF, prev_last_ch: CR }
}

/// Chunk boundaries do not matter to the command reader: when one read ends
/// before the line does, reading the rest later finds the same line (or the
/// same overflow) that reading everything at once would have found. Commands
/// sent one at a time therefore parse exactly as the same bytes pipelined.
pub proof fn lemma_line_run_chunking(buf: Seq<u8>, a: Seq<u8>, b: Seq<u8>, cap: nat)
    requires
        line_run(buf, a, cap).line is None,
        !line_run(buf, a, cap).too_long,
    ensures
        ({
            let ra = line_run(buf, a, cap);
            let rab = line_run(buf, a + b, cap);
            let rb = line_run(ra.buf, b, cap);
            &&& rab.line == rb.line
            &&& rab.too_long == rb.too_long
            &&& rab.buf == rb.buf
            &&& rab.used == a.len() + rb.used
        }),
    decreases a.len(),
{
    if a.len() == 0 {
        assert(a + b =~= b);
    } else {
        assert((a + b)[0] == a[0]);
        assert((a + b).drop_first() =~= a.drop_first() + b);
        if a[0] == LF {
        } else if buf.len() + 1 >= cap {
        } else {
            lemma_line_run_chunking(buf.push(a[0]), a.drop_first(), b, cap);
        }
    }
}

/// A run that did not finish composes with the run over what follows.
proof fn lemma_data_run_append(st: DataReceiver, msg: Seq<u8>, a: Seq<u8>, b: Seq<u8>)
    requires
        !data_run(st, msg, a).done,
    ensures
        ({
            let ra = data_run(st, msg, a);
            let rb = data_run(ra.st, ra.msg, b);
            data_run(st, msg, a + b) == (DataRun {
                st: rb.st,
                msg: rb.msg,
                used: a.len() + rb.used,
                done: rb.done,
            })
        }),
    decreases a.len(),
{
    if a.len() == 0 {
        assert(a + b =~= b);
        let rb = data_run(st, msg, b);
        assert(data_run(st, msg, a + b) == rb);
        assert(data_run(st, msg, a) == (DataRun { st, msg, used: 0, done: false }));
    } else {
        let (st1, msg1, done) = data_step(st, msg, a[0]);
        assert(!done) by {
            if done {
                assert(data_run(st, msg, a).done);
            }
        }
        assert((a + b)[0] == a[0]);
        assert((a + b).drop_first() =~= a.drop_first() + b);
        lemma_data_run_append(st1, msg1, a.drop_first(), b);
    }
}

/// Octets free of `CR` and `LF` pass through the receiver untouched, so long
/// as a stuffing dot is not pending right at the start.
proof fn lemma_clean_passthrough(st: DataReceiver, msg: Seq<u8>, l: Seq<u8>)
    requires
        clean_line(l),
        !st.crlf_dot,
        !(st.last_ch == LF && st.prev_last_ch == CR && l.len() > 0 && l[0] == 46),
    ensures
        ({
            let r = data_run(st, msg, l);
            &&& !r.done
            &&& r.msg == msg + l
            &&& r.used == l.len()
            &&& !r.st.crlf_dot
            &&& r.st.last_ch == (if l.len() > 0 {
                l.last()
            } else {
                st.last_ch
            })
            &&& (l.len() > 0 ==> r.st.last_ch != LF && r.st.last_ch != CR)
        }),
    decreases l.len(),
{
    if l.len() == 0 {
        assert(msg + l =~= msg);
    } else {
        let ch = l[0];
        let (st1, msg1, done) = data_step(st, msg, ch);
        assert(st1 == (DataReceiver { crlf_dot: false, prev_last_ch: st.last_ch, last_ch: ch }));
        assert(msg1 == msg.push(ch));
        lemma_clean_passthrough(st1, msg1, l.drop_first());
        assert(msg.push(ch) + l.drop_first() =~= msg + l);
        assert(l.len() > 1 ==> l.drop_first().last() == l.last());
    }
}

/// A `CRLF` from a mid-line state is kept and leaves the receiver in the
/// fresh-line state.
proof fn lemma_crlf_step(st: DataReceiver, msg: Seq<u8>)
    requires
        !st.crlf_dot,
    ensures
        ({
            let r = data_run(st, msg, crlf());
            &&& !r.done
            &&& r.msg == msg + crlf()
            &&& r.used == 2
            &&& r.st == after_crlf()
        }),
{
    reveal_with_fuel(data_run, 4);
    let (st1, msg1, d1) = data_step(st, msg, CR);
    let (st2, msg2, d2) = data_step(st1, msg1, LF);
    assert(crlf()[0] == CR);
    assert(crlf().drop_first() =~= seq![LF]);
    assert(seq![LF][0] == LF);
    assert(seq![LF].drop_first() =~= Seq::<u8>::empty());
    assert(data_run(st2, msg2, Seq::<u8>::empty()) == (DataRun {
        st: st2,
        msg: msg2,
        used: 0,
        done: false,
    }));
    assert(data_run(st1, msg1, seq![LF]) == (DataRun {
        st: st2,
        msg: msg2,
        used: 1,
        done: false,
    }));
    assert(msg2 =~= msg + crlf());
}

/// One stuffed line with its `CRLF`, read from the fresh-line state, lands
/// unstuffed in the message and returns to the fresh-line state.
proof fn lemma_line_round(msg: Seq<u8>, l: Seq<u8>)
    requires
        clean_line(l),
    ensures
        ({
            let input = stuff_line(l) + crlf();
            let r = data_run(after_crlf(), msg, input);
            &&& !r.done
            &&& r.msg == msg + l + crlf()
            &&& r.used == input.len()
            &&& r.st == after_crlf()
        }),
{
    reveal_with_fuel(data_run, 3);
    let input = stuff_line(l) + crlf();
    if l.len() > 0 && l[0] == 46 {
        // The stuffing dot is consumed without being kept...
        let (st1, msg1, d1) = data_step(after_crlf(), msg, 46);
        assert(st1 == (DataReceiver { crlf_dot: true, prev_last_ch: LF, last_ch: 46 }));
        assert(msg1 == msg);
        // ... the line's own leading dot is kept and ends the pending state.
        let (st2, msg2, d2) = data_step(st1, msg1, l[0]);
        assert(st2 == (DataReceiver { crlf_dot: false, prev_last_ch: 46, last_ch: 46 }));
        assert(msg2 == msg.push(46));
        lemma_clean_passthrough(st2, msg2, l.drop_first());
        let r3 = data_run(st2, msg2, l.drop_first());
        assert(r3.msg =~= msg + l);
        lemma_crlf_step(r3.st, r3.msg);
        lemma_data_run_append(st2, msg2, l.drop_first(), crlf());
        assert(l.drop_first() + crlf() =~= input.drop_first().drop_first());
        assert(input[0] == 46 && input[1] == l[0]);
        assert(input.drop_first()[0] == l[0]);
        assert(input.drop_first().drop_first() =~= l.drop_first() + crlf());
        assert(data_run(after_crlf(), msg, input).msg =~= msg + l + crlf());
    } else {
        assert(stuff_line(l) == l);
        lemma_clean_passthrough(after_crlf(), msg, l);
        let r1 = data_run(after_crlf(), msg, l);
        lemma_crlf_step(r1.st, r1.msg);
        lemma_data_run_append(after_crlf(), msg, l, crlf());
        assert(data_run(after_crlf(), msg, input).msg =~= msg + l + crlf());
    }
}

/// The terminator, read from the fresh-line state, finishes the message
/// without adding to it.
proof fn lemma_terminator(msg: Seq<u8>)
    ensures
        ({
            let r = data_run(after_crlf(), msg, terminator());
            &&& r.done
            &&& r.msg == msg
            &&& r.used == 3
        }),
{
    reveal_with_fuel(data_run, 4);
    let (st1, msg1, d1) = data_step(after_crlf(), msg, 46);
    assert(st1 == (DataReceiver { crlf_dot: true, prev_last_ch: LF, last_ch: 46 }));
    let (st2, msg2, d2) = data_step(st1, msg1, CR);
    assert(st2 == (DataReceiver { crlf_dot: true, prev_last_ch: 46, last_ch: CR }));
    assert(msg2 == msg.push(CR));
    assert(terminator()[0] == 46);
    let (st3, msg3, d3) = data_step(st2, msg2, LF);
    assert(d3);
    assert(msg3 =~= msg);
    assert(terminator().drop_first() =~= seq![CR, LF]);
    assert(seq![CR, LF].drop_first() =~= seq![LF]);
}

/// All remaining lines plus the terminator, from the fresh-line state.
proof fn lemma_lines_round(msg: Seq<u8>, lines: Seq<Seq<u8>>)
    requires
        forall|i: int| 0 <= i < lines.len() ==> clean_line(#[trigger] lines[i]),
    ensures
        ({
            let r = data_run(after_crlf(), msg, encode_lines(lines) + terminator());
            &&& r.done
            &&& r.msg == msg + plain_lines(lines)
        }),
    decreases lines.len(),
{
    if lines.len() == 0 {
        assert(encode_lines(lines) + terminator() =~= terminator());
        lemma_terminator(msg);
        assert(msg + plain_lines(lines) =~= msg);
    } else {
        let l0 = lines[0];
        let rest = lines.drop_first();
        lemma_line_round(msg, l0);
        let r1 = data_run(after_crlf(), msg, stuff_line(l0) + crlf());
        lemma_lines_round(r1.msg, rest);
        lemma_data_run_append(
            after_crlf(),
            msg,
            stuff_line(l0) + crlf(),
            encode_lines(rest) + terminator(),
        );
        assert((stuff_line(l0) + crlf()) + (encode_lines(rest) + terminator()) =~= encode_lines(
            lines,
        ) + terminator());
        assert((msg + l0 + crlf()) + plain_lines(rest) =~= msg + plain_lines(lines));
    }
}

/// DotStuff round trip: a payload of lines free of `CR` and `LF`, whose
/// first line does not itself begin with a dot, encoded with dot-stuffing
/// and closed with the terminator, is decoded by a fresh DATA receiver into
/// exactly the payload. (The receiver recognizes the terminator and the
/// stuffing dot only after a `CRLF` it has itself consumed, so an empty
/// payload, or a first line that begins with a dot, stays on the wire as it
/// was sent.)
pub proof fn lemma_dot_stuff_round_trip(lines: Seq<Seq<u8>>)
    requires
        forall|i: int| 0 <= i < lines.len() ==> clean_line(#[trigger] lines[i]),
        lines.len() >= 1,
        lines[0].len() == 0 || lines[0][0] != 46,
    ensures
        ({
            let fresh = DataReceiver { crlf_dot: false, last_ch: 0u8, prev_last_ch: 0u8 };
            let r = data_run(fresh, Seq::empty(), encode_lines(lines) + terminator());
            &&& r.done
            &&& r.msg == plain_lines(lines)
        }),
{
    let fresh = DataReceiver { crlf_dot: false, last_ch: 0u8, prev_last_ch: 0u8 };
    let l0 = lines[0];
    let rest = lines.drop_first();
    assert(stuff_line(l0) == l0);
    lemma_clean_passthrough(fresh, Seq::empty(), l0);
    let r1 = data_run(fresh, Seq::empty(), l0);
    lemma_crlf_step(r1.st, r1.msg);
    lemma_data_run_append(fresh, Seq::empty(), l0, crlf());
    let r2 = data_run(fresh, Seq::empty(), l0 + crlf());
    assert(r2.st == after_crlf());
    assert(r2.msg =~= Seq::<u8>::empty() + l0 + crlf());
    lemma_lines_round(r2.msg, rest);
    lemma_data_run_append(
        fresh,
        Seq::empty(),
        l0 + crlf(),
        encode_lines(rest) + terminator(),
    );
    assert((l0 + crlf()) + (encode_lines(rest) + terminator()) =~= encode_lines(lines)
        + terminator());
    assert(r2.msg + plain_lines(rest) =~= plain_lines(lines));
}

} // verus!

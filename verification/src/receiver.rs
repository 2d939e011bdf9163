//! Resumable framing primitives. Each receiver consumes what it can from the
//! current input slice, starting at a caller-held cursor, and reports whether
//! its frame is complete. The receivers survive across calls: the cursor
//! position and the receiver state are the only memory between two reads from
//! the transport.

use vstd::prelude::*;

use crate::text::{CR, LF};

verus! {

/// Commands and SASL continuation lines longer than this are rejected.
pub const MAX_LINE_LENGTH: usize = 4096;

/// Accumulates one command line; between calls `buf` holds the incomplete
/// prefix of the current line.
pub struct RequestReceiver {
    pub buf: Vec<u8>,
}

/// What one scan of the input produced for the command-line receiver.
pub enum LineEvent {
    /// A complete line, carriage return and line feed not included.
    Line(Vec<u8>),
    /// The line reached [`MAX_LINE_LENGTH`] before its line feed arrived.
    TooLong,
    /// The input ended before the line did.
    More,
}

/// Functional model of one [`RequestReceiver::ingest`] call.
pub struct LineRun {
    pub buf: Seq<u8>,
    pub used: int,
    pub line: Option<Seq<u8>>,
    pub too_long: bool,
}

/// One command-line accumulation step at a time, over the whole input.
pub open spec fn line_run(buf: Seq<u8>, input: Seq<u8>, cap: nat) -> LineRun
    decreases input.len(),
{
    if input.len() == 0 {
        LineRun { buf, used: 0, line: None, too_long: false }
    } else if input[0] == LF {
        LineRun { buf: Seq::empty(), used: 1, line: Some(buf), too_long: false }
    } else if buf.len() + 1 >= cap {
        LineRun { buf: Seq::empty(), used: 1, line: None, too_long: true }
    } else {
        let rest = line_run(buf.push(input[0]), input.drop_first(), cap);
        LineRun { buf: rest.buf, used: rest.used + 1, line: rest.line, too_long: rest.too_long }
    }
}

impl RequestReceiver {
    pub fn new() -> (r: RequestReceiver)
        ensures
            r.buf@ == Seq::<u8>::empty(),
    {
        RequestReceiver { buf: Vec::new() }
    }

    /// Scans forward from `*pos`; stops after a line feed, after the line
    /// grows past the maximum, or at the end of the input.
    pub fn ingest(&mut self, bytes: &[u8], pos: &mut usize) -> (r: LineEvent)
        requires
            *old(pos) <= bytes@.len(),
            old(self).buf@.len() < MAX_LINE_LENGTH,
        ensures
            ({
                let run = line_run(
                    old(self).buf@,
                    bytes@.subrange(*old(pos) as int, bytes@.len() as int),
                    MAX_LINE_LENGTH as nat,
                );
                &&& final(self).buf@.len() < MAX_LINE_LENGTH
                &&& *final(pos) == *old(pos) + run.used
                &&& *final(pos) <= bytes@.len()
                &&& final(self).buf@ == run.buf
                &&& match r {
                    LineEvent::Line(l) => run.line == Some(l@) && !run.too_long && *final(pos)
                        > *old(pos),
                    LineEvent::TooLong => run.line is None && run.too_long && *final(pos) > *old(pos),
                    LineEvent::More => run.line is None && !run.too_long && *final(pos)
                        == bytes@.len(),
                }
            }),
    {
        let len: usize = bytes.len();
        while *pos < len
            invariant
                *old(pos) as int <= *pos as int <= len == bytes@.len(),
                self.buf@.len() < MAX_LINE_LENGTH,
                ({
                    let outer = line_run(
                        old(self).buf@,
                        bytes@.subrange(*old(pos) as int, len as int),
                        MAX_LINE_LENGTH as nat,
                    );
                    let inner = line_run(
                        self.buf@,
                        bytes@.subrange(*pos as int, len as int),
                        MAX_LINE_LENGTH as nat,
                    );
                    &&& outer.buf == inner.buf
                    &&& outer.line == inner.line
                    &&& outer.too_long == inner.too_long
                    &&& outer.used == inner.used + (*pos as int - *old(pos) as int)
                }),
            decreases len - *pos,
        {
            let ghost rest_pre = bytes@.subrange(*pos as int, len as int);
            let b: u8 = bytes[*pos];
            *pos = *pos + 1;
            proof {
                assert(rest_pre[0] == b);
                assert(rest_pre.drop_first() =~= bytes@.subrange(*pos as int, len as int));
            }
            if b == LF {
                let mut line: Vec<u8> = Vec::new();
                core::mem::swap(&mut line, &mut self.buf);
                return LineEvent::Line(line);
            }
            self.buf.push(b);
            if self.buf.len() >= MAX_LINE_LENGTH {
                self.buf.clear();
                return LineEvent::TooLong;
            }
        }
        proof {
            assert(bytes@.subrange(*pos as int, len as int).len() == 0);
        }
        LineEvent::More
    }
}

/// Dot-stuffing DATA receiver: tracks the last two octets seen and whether a
/// line currently begins with the stuffing dot, so that the `CRLF.CRLF`
/// terminator is found even when it straddles input boundaries.
#[derive(Clone, Copy)]
pub struct DataReceiver {
    pub crlf_dot: bool,
    pub last_ch: u8,
    pub prev_last_ch: u8,
}

/// Functional model of a whole DATA scan.
pub struct DataRun {
    pub st: DataReceiver,
    pub msg: Seq<u8>,
    pub used: int,
    pub done: bool,
}

/// One octet of the DATA machine: unstuffs a leading dot after a `CRLF`,
/// finishes on the `CRLF.CRLF` terminator (popping the carriage return that
/// was tentatively kept), and otherwise appends the octet.
pub open spec fn data_step(st: DataReceiver, msg: Seq<u8>, ch: u8) -> (DataReceiver, Seq<u8>, bool) {
    if !st.crlf_dot && st.last_ch == LF && st.prev_last_ch == CR && ch == 46 {
        (DataReceiver { crlf_dot: true, prev_last_ch: LF, last_ch: 46 }, msg, false)
    } else if st.crlf_dot {
        if ch == LF && st.last_ch == CR {
            (st, if msg.len() == 0 { msg } else { msg.drop_last() }, true)
        } else {
            (
                DataReceiver { crlf_dot: ch == CR, prev_last_ch: st.last_ch, last_ch: ch },
                msg.push(ch),
                false,
            )
        }
    } else {
        (
            DataReceiver { crlf_dot: false, prev_last_ch: st.last_ch, last_ch: ch },
            msg.push(ch),
            false,
        )
    }
}

/// The DATA machine run over `input` until the terminator or the end of the
/// input; `used` counts consumed octets, terminator included.
pub open spec fn data_run(st: DataReceiver, msg: Seq<u8>, input: Seq<u8>) -> DataRun
    decreases input.len(),
{
    if input.len() == 0 {
        DataRun { st, msg, used: 0, done: false }
    } else {
        let (st1, msg1, done) = data_step(st, msg, input[0]);
        if done {
            DataRun { st: st1, msg: msg1, used: 1, done: true }
        } else {
            let rest = data_run(st1, msg1, input.drop_first());
            DataRun { st: rest.st, msg: rest.msg, used: rest.used + 1, done: rest.done }
        }
    }
}

/// The message never outgrows what was fed into it.
pub proof fn lemma_data_run_growth(st: DataReceiver, msg: Seq<u8>, input: Seq<u8>)
    ensures
        data_run(st, msg, input).msg.len() <= msg.len() + input.len(),
        0 <= data_run(st, msg, input).used <= input.len(),
    decreases input.len(),
{
    if input.len() > 0 {
        let (st1, msg1, done) = data_step(st, msg, input[0]);
        if !done {
            lemma_data_run_growth(st1, msg1, input.drop_first());
        }
    }
}

impl DataReceiver {
    pub fn new() -> (r: DataReceiver)
        ensures
            r == (DataReceiver { crlf_dot: false, last_ch: 0u8, prev_last_ch: 0u8 }),
    {
        DataReceiver { crlf_dot: false, last_ch: 0, prev_last_ch: 0 }
    }

    /// Feeds input octets to the message buffer until the terminator or the
    /// end of the input; returns true when the message is complete.
    pub fn ingest(&mut self, bytes: &[u8], pos: &mut usize, msg: &mut Vec<u8>) -> (done: bool)
        requires
            *old(pos) <= bytes@.len(),
        ensures
            ({
                let run = data_run(
                    *old(self),
                    old(msg)@,
                    bytes@.subrange(*old(pos) as int, bytes@.len() as int),
                );
                &&& done == run.done
                &&& final(msg)@ == run.msg
                &&& *final(pos) == *old(pos) + run.used
                &&& *final(pos) <= bytes@.len()
                &&& *final(self) == run.st
                &&& (!done ==> *final(pos) == bytes@.len())
                &&& (done ==> *final(pos) > *old(pos))
            }),
    {
        let len: usize = bytes.len();
        while *pos < len
            invariant
                *old(pos) as int <= *pos as int <= len == bytes@.len(),
                ({
                    let outer = data_run(
                        *old(self),
                        old(msg)@,
                        bytes@.subrange(*old(pos) as int, len as int),
                    );
                    let inner = data_run(
                        *self,
                        msg@,
                        bytes@.subrange(*pos as int, len as int),
                    );
                    &&& outer.st == inner.st
                    &&& outer.msg == inner.msg
                    &&& outer.done == inner.done
                    &&& outer.used == inner.used + (*pos as int - *old(pos) as int)
                }),
            decreases len - *pos,
        {
            let ghost rest_pre = bytes@.subrange(*pos as int, len as int);
            let ch: u8 = bytes[*pos];
            *pos = *pos + 1;
            proof {
                assert(rest_pre[0] == ch);
                assert(rest_pre.drop_first() =~= bytes@.subrange(*pos as int, len as int));
            }
            if !self.crlf_dot && self.last_ch == LF && self.prev_last_ch == CR && ch == 46 {
                self.crlf_dot = true;
                self.prev_last_ch = LF;
                self.last_ch = 46;
            } else if self.crlf_dot {
                if ch == LF && self.last_ch == CR {
                    msg.pop();
                    return true;
                }
                self.crlf_dot = ch == CR;
                self.prev_last_ch = self.last_ch;
                self.last_ch = ch;
                msg.push(ch);
            } else {
                self.prev_last_ch = self.last_ch;
                self.last_ch = ch;
                msg.push(ch);
            }
        }
        proof {
            assert(bytes@.subrange(*pos as int, len as int).len() == 0);
        }
        false
    }
}

/// BDAT receiver: copies exactly the announced octet count into the message.
pub struct BdatReceiver {
    pub remaining: usize,
    pub is_last: bool,
}

impl BdatReceiver {
    pub fn new(chunk_size: usize, is_last: bool) -> (r: BdatReceiver)
        ensures
            r.remaining == chunk_size,
            r.is_last == is_last,
    {
        BdatReceiver { remaining: chunk_size, is_last }
    }

    /// Copies octets until the chunk is full or the input ends; returns true
    /// when the announced count has been consumed.
    pub fn ingest(&mut self, bytes: &[u8], pos: &mut usize, msg: &mut Vec<u8>) -> (done: bool)
        requires
            *old(pos) <= bytes@.len(),
        ensures
            ({
                let take = vstd::math::min(
                    old(self).remaining as int,
                    bytes@.len() - *old(pos) as int,
                );
                &&& *final(pos) == *old(pos) + take
                &&& final(msg)@ == old(msg)@ + bytes@.subrange(
                    *old(pos) as int,
                    *old(pos) + take,
                )
                &&& final(self).remaining == old(self).remaining - take
                &&& final(self).is_last == old(self).is_last
                &&& done == (final(self).remaining == 0)
                &&& (!done ==> *final(pos) == bytes@.len())
            }),
    {
        let len: usize = bytes.len();
        while *pos < len && self.remaining > 0
            invariant
                *old(pos) as int <= *pos as int <= len == bytes@.len(),
                self.remaining as int == old(self).remaining - (*pos as int - *old(pos) as int),
                self.is_last == old(self).is_last,
                msg@ == old(msg)@ + bytes@.subrange(*old(pos) as int, *pos as int),
            decreases self.remaining,
        {
            msg.push(bytes[*pos]);
            *pos = *pos + 1;
            self.remaining = self.remaining - 1;
            assert(msg@ =~= old(msg)@ + bytes@.subrange(*old(pos) as int, *pos as int));
        }
        self.remaining == 0
    }
}

/// Discards the remainder of an oversized DATA body or BDAT chunk without
/// keeping any of it.
pub struct DummyDataReceiver {
    pub is_bdat: bool,
    pub remaining: usize,
    pub st: DataReceiver,
}

impl DummyDataReceiver {
    pub fn new_bdat(chunk_size: usize) -> (r: DummyDataReceiver)
        ensures
            r.is_bdat,
            r.remaining == chunk_size,
    {
        DummyDataReceiver { is_bdat: true, remaining: chunk_size, st: DataReceiver::new() }
    }

    pub fn new_data(data: &DataReceiver) -> (r: DummyDataReceiver)
        ensures
            !r.is_bdat,
            r.st == *data,
    {
        DummyDataReceiver { is_bdat: false, remaining: 0, st: *data }
    }

    /// Drains input until the underlying framing completes; returns true when
    /// the oversized body has been fully absorbed.
    pub fn ingest(&mut self, bytes: &[u8], pos: &mut usize) -> (done: bool)
        requires
            *old(pos) <= bytes@.len(),
        ensures
            *old(pos) <= *final(pos) <= bytes@.len(),
            !done ==> *final(pos) == bytes@.len(),
            final(self).is_bdat == old(self).is_bdat,
            old(self).is_bdat ==> {
                let take = vstd::math::min(
                    old(self).remaining as int,
                    bytes@.len() - *old(pos) as int,
                );
                &&& *final(pos) == *old(pos) + take
                &&& final(self).remaining == old(self).remaining - take
                &&& done == (final(self).remaining == 0)
            },
            !old(self).is_bdat ==> {
                let run = data_run(
                    old(self).st,
                    Seq::<u8>::empty(),
                    bytes@.subrange(*old(pos) as int, bytes@.len() as int),
                );
                &&& done == run.done
                &&& *final(pos) == *old(pos) + run.used
                &&& (done ==> *final(pos) > *old(pos))
            },
    {
        if self.is_bdat {
            let len: usize = bytes.len();
            while *pos < len && self.remaining > 0
                invariant
                    *old(pos) as int <= *pos as int <= len == bytes@.len(),
                    self.remaining as int == old(self).remaining - (*pos as int - *old(pos) as int),
                    self.is_bdat == old(self).is_bdat,
                    self.st == old(self).st,
                decreases self.remaining,
            {
                *pos = *pos + 1;
                self.remaining = self.remaining - 1;
            }
            self.remaining == 0
        } else {
            let mut sink: Vec<u8> = Vec::new();
            let mut st = DataReceiver { crlf_dot: false, last_ch: 0, prev_last_ch: 0 };
            core::mem::swap(&mut st, &mut self.st);
            let ghost st0 = st;
            let done = st.ingest(bytes, pos, &mut sink);
            core::mem::swap(&mut st, &mut self.st);
            proof {
                lemma_data_run_growth(
                    st0,
                    Seq::<u8>::empty(),
                    bytes@.subrange(*old(pos) as int, bytes@.len() as int),
                );
            }
            done
        }
    }
}

/// Discards bytes until the end of the current line.
pub struct DummyLineReceiver {}

/// Index just past the first line feed of `input`, if one is there.
pub open spec fn after_first_lf(input: Seq<u8>) -> Option<int>
    decreases input.len(),
{
    if input.len() == 0 {
        None
    } else if input[0] == LF {
        Some(1)
    } else {
        match after_first_lf(input.drop_first()) {
            Some(i) => Some(i + 1),
            None => None,
        }
    }
}

impl DummyLineReceiver {
    pub fn new() -> (r: DummyLineReceiver) {
        DummyLineReceiver {  }
    }

    /// Skips input up to and including the next line feed; returns true when
    /// the line feed was found.
    pub fn ingest(&mut self, bytes: &[u8], pos: &mut usize) -> (done: bool)
        requires
            *old(pos) <= bytes@.len(),
        ensures
            ({
                let skip = after_first_lf(bytes@.subrange(*old(pos) as int, bytes@.len() as int));
                &&& done == (skip is Some)
                &&& (done ==> *final(pos) == *old(pos) + skip->Some_0 && *final(pos) > *old(pos))
                &&& (!done ==> *final(pos) == bytes@.len())
                &&& *old(pos) <= *final(pos) <= bytes@.len()
            }),
    {
        let len: usize = bytes.len();
        while *pos < len
            invariant
                *old(pos) as int <= *pos as int <= len == bytes@.len(),
                ({
                    let outer = after_first_lf(bytes@.subrange(*old(pos) as int, len as int));
                    let inner = after_first_lf(bytes@.subrange(*pos as int, len as int));
                    &&& (outer is Some <==> inner is Some)
                    &&& (inner is Some ==> outer->Some_0 == inner->Some_0 + (*pos as int - *old(pos) as int))
                }),
            decreases len - *pos,
        {
            let ghost rest_pre = bytes@.subrange(*pos as int, len as int);
            let b: u8 = bytes[*pos];
            *pos = *pos + 1;
            proof {
                assert(rest_pre[0] == b);
                assert(rest_pre.drop_first() =~= bytes@.subrange(*pos as int, len as int));
            }
            if b == LF {
                return true;
            }
        }
        proof {
            assert(bytes@.subrange(*pos as int, len as int).len() == 0);
        }
        false
    }
}

/// SASL continuation-line receiver: accumulates one line, dropping carriage
/// returns, capped at [`MAX_LINE_LENGTH`] octets kept.
pub struct LineReceiver {
    pub buf: Vec<u8>,
}

/// Functional model of one [`LineReceiver::ingest`] call: the kept buffer and
/// how much input was consumed, `None` while the line feed is still missing.
pub struct SaslRun {
    pub buf: Seq<u8>,
    pub used: int,
    pub done: bool,
}

/// Accumulation of a SASL line: carriage returns are skipped, octets beyond
/// the cap are dropped, the line feed completes the line.
pub open spec fn sasl_run(buf: Seq<u8>, input: Seq<u8>, cap: nat) -> SaslRun
    decreases input.len(),
{
    if input.len() == 0 {
        SaslRun { buf, used: 0, done: false }
    } else if input[0] == LF {
        SaslRun { buf, used: 1, done: true }
    } else {
        let buf1 = if input[0] == CR || buf.len() >= cap {
            buf
        } else {
            buf.push(input[0])
        };
        let rest = sasl_run(buf1, input.drop_first(), cap);
        SaslRun { buf: rest.buf, used: rest.used + 1, done: rest.done }
    }
}

impl LineReceiver {
    pub fn new() -> (r: LineReceiver)
        ensures
            r.buf@ == Seq::<u8>::empty(),
    {
        LineReceiver { buf: Vec::new() }
    }

    /// Accumulates until the next line feed; returns true when a full
    /// continuation line is buffered.
    pub fn ingest(&mut self, bytes: &[u8], pos: &mut usize) -> (done: bool)
        requires
            *old(pos) <= bytes@.len(),
        ensures
            ({
                let run = sasl_run(
                    old(self).buf@,
                    bytes@.subrange(*old(pos) as int, bytes@.len() as int),
                    MAX_LINE_LENGTH as nat,
                );
                &&& done == run.done
                &&& final(self).buf@ == run.buf
                &&& *final(pos) == *old(pos) + run.used
                &&& *final(pos) <= bytes@.len()
                &&& (!done ==> *final(pos) == bytes@.len())
                &&& (done ==> *final(pos) > *old(pos))
            }),
    {
        let len: usize = bytes.len();
        while *pos < len
            invariant
                *old(pos) as int <= *pos as int <= len == bytes@.len(),
                ({
                    let outer = sasl_run(
                        old(self).buf@,
                        bytes@.subrange(*old(pos) as int, len as int),
                        MAX_LINE_LENGTH as nat,
                    );
                    let inner = sasl_run(
                        self.buf@,
                        bytes@.subrange(*pos as int, len as int),
                        MAX_LINE_LENGTH as nat,
                    );
                    &&& outer.buf == inner.buf
                    &&& outer.done == inner.done
                    &&& outer.used == inner.used + (*pos as int - *old(pos) as int)
                }),
            decreases len - *pos,
        {
            let ghost rest_pre = bytes@.subrange(*pos as int, len as int);
            let b: u8 = bytes[*pos];
            *pos = *pos + 1;
            proof {
                assert(rest_pre[0] == b);
                assert(rest_pre.drop_first() =~= bytes@.subrange(*pos as int, len as int));
            }
            if b == LF {
                return true;
            }
            if b != CR && self.buf.len() < MAX_LINE_LENGTH {
                self.buf.push(b);
            }
        }
        proof {
            assert(bytes@.subrange(*pos as int, len as int).len() == 0);
        }
        false
    }
}

} // verus!

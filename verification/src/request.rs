//! Command parser: turns one complete command line into a typed request or a
//! categorized parse error. Keywords are what the wire grammar allows —
//! letters, digits and hyphen, case-insensitive — and are compared
//! upper-cased; `bare_command` is the specification of a line that consists
//! of one keyword alone.

use vstd::prelude::*;

use crate::text::{CR, LF, SP, all_ascii, to_lower};

verus! {

pub const MAX_ADDRESS_LEN: usize = 256;
pub const MAX_DOMAIN_LEN: usize = 255;

pub const MAIL_BODY_7BIT: u64 = 1;
pub const MAIL_BODY_8BITMIME: u64 = 2;
pub const MAIL_BODY_BINARYMIME: u64 = 4;
pub const MAIL_RET_FULL: u64 = 8;
pub const MAIL_RET_HDRS: u64 = 16;
pub const MAIL_SMTPUTF8: u64 = 32;
pub const MAIL_REQUIRETLS: u64 = 64;
pub const MAIL_CONPERM: u64 = 128;
pub const MAIL_BY_NOTIFY: u64 = 256;
pub const MAIL_BY_RETURN: u64 = 512;
pub const MAIL_BY_TRACE: u64 = 1024;

pub const RCPT_NOTIFY_SUCCESS: u64 = 1;
pub const RCPT_NOTIFY_FAILURE: u64 = 2;
pub const RCPT_NOTIFY_DELAY: u64 = 4;
pub const RCPT_NOTIFY_NEVER: u64 = 8;
pub const RCPT_CONNEG: u64 = 16;

pub const AUTH_OAUTHBEARER: u64 = 16;
pub const AUTH_XOAUTH2: u64 = 64;
pub const AUTH_LOGIN: u64 = 549755813888;
pub const AUTH_PLAIN: u64 = 1099511627776;

#[derive(Debug)]
pub struct MailFrom {
    pub address: Vec<u8>,
    pub flags: u64,
    pub size: usize,
    pub by: i64,
    pub env_id: Option<Vec<u8>>,
    pub hold_for: u64,
    pub mt_priority: i64,
}

#[derive(Debug)]
pub struct RcptTo {
    pub address: Vec<u8>,
    pub flags: u64,
    pub orcpt: Option<Vec<u8>>,
}

#[derive(Debug)]
pub enum Request {
    Ehlo { host: Vec<u8> },
    Helo { host: Vec<u8> },
    Lhlo { host: Vec<u8> },
    Mail { from: MailFrom },
    Rcpt { to: RcptTo },
    Data,
    Bdat { chunk_size: usize, is_last: bool },
    Auth { mechanism: u64, initial_response: Vec<u8> },
    Noop { value: Vec<u8> },
    Rset,
    Quit,
    Help { value: Vec<u8> },
    Vrfy { value: Vec<u8> },
    Expn { value: Vec<u8> },
    StartTls,
    Etrn { name: Vec<u8> },
    Atrn { domains: Vec<Vec<u8>> },
    Burl { uri: Vec<u8>, is_last: bool },
}

#[derive(Debug)]
pub enum ParseError {
    UnknownCommand,
    InvalidSenderAddress,
    InvalidRecipientAddress,
    SyntaxError { syntax: &'static str },
    InvalidParameter { param: &'static str },
    UnsupportedParameter { param: Vec<u8> },
}


/// `s` with every carriage return removed; the scanners treat a carriage
/// return as if it were not there.
pub open spec fn strip_cr_seq(s: Seq<u8>) -> Seq<u8>
    decreases s.len(),
{
    if s.len() == 0 {
        Seq::empty()
    } else if s[0] == CR {
        strip_cr_seq(s.drop_first())
    } else {
        seq![s[0]] + strip_cr_seq(s.drop_first())
    }
}

proof fn lemma_strip_cr_push(s: Seq<u8>, b: u8)
    ensures
        strip_cr_seq(s.push(b)) =~= strip_cr_seq(s) + (if b == CR {
            Seq::<u8>::empty()
        } else {
            seq![b]
        }),
    decreases s.len(),
{
    if s.len() == 0 {
        assert(s.push(b)[0] == b);
        assert(s.push(b).drop_first() =~= Seq::<u8>::empty());
        assert(strip_cr_seq(Seq::<u8>::empty()) == Seq::<u8>::empty());
        assert(strip_cr_seq(s) == Seq::<u8>::empty());
        assert(strip_cr_seq(s.push(b)) =~= strip_cr_seq(s) + (if b == CR {
            Seq::<u8>::empty()
        } else {
            seq![b]
        }));
    } else {
        assert(s.push(b)[0] == s[0]);
        assert(s.push(b).drop_first() =~= s.drop_first().push(b));
        lemma_strip_cr_push(s.drop_first(), b);
        if s[0] == CR {
            assert(strip_cr_seq(s.push(b)) == strip_cr_seq(s.drop_first().push(b)));
        } else {
            assert(strip_cr_seq(s.push(b)) == seq![s[0]] + strip_cr_seq(s.drop_first().push(b)));
            assert(strip_cr_seq(s) == seq![s[0]] + strip_cr_seq(s.drop_first()));
        }
        assert(strip_cr_seq(s.push(b)) =~= strip_cr_seq(s) + (if b == CR {
            Seq::<u8>::empty()
        } else {
            seq![b]
        }));
    }
}

/// `s` with its leading spaces dropped.
pub open spec fn skip_sp_seq(s: Seq<u8>) -> Seq<u8>
    decreases s.len(),
{
    if s.len() > 0 && s[0] == SP {
        skip_sp_seq(s.drop_first())
    } else {
        s
    }
}

/// A keyword octet, upper-cased.
pub open spec fn upper_kw(b: u8) -> u8 {
    if 97 <= b && b <= 122 {
        (b - 32) as u8
    } else {
        b
    }
}

/// The upper-cased keyword at the head of `s`: its maximal prefix of
/// keyword octets.
pub open spec fn token_seq(s: Seq<u8>) -> Seq<u8>
    decreases s.len(),
{
    if s.len() > 0 && is_token_byte(s[0]) {
        seq![upper_kw(s[0])] + token_seq(s.drop_first())
    } else {
        Seq::empty()
    }
}

/// The line spells the bare command `kw` and nothing that would change it:
/// optional leading spaces, the keyword (case-insensitive, carriage returns
/// ignored), then a space, a line feed or the end of the line.
pub open spec fn bare_command(line: Seq<u8>, kw: Seq<u8>) -> bool {
    let s = skip_sp_seq(strip_cr_seq(line));
    &&& token_seq(s) == kw
    &&& (s.len() == kw.len() || s[kw.len() as int] == SP || s[kw.len() as int] == LF)
}

fn kw1(t: &Vec<u8>, a: u8) -> (r: bool)
    ensures
        r == (t@ =~= seq![a]),
{
    t.len() == 1 && t[0] == a
}

fn kw2(t: &Vec<u8>, a: u8, b: u8) -> (r: bool)
    ensures
        r == (t@ =~= seq![a, b]),
{
    t.len() == 2 && t[0] == a && t[1] == b
}

fn kw3(t: &Vec<u8>, a: u8, b: u8, c: u8) -> (r: bool)
    ensures
        r == (t@ =~= seq![a, b, c]),
{
    t.len() == 3 && t[0] == a && t[1] == b && t[2] == c
}

fn kw4(t: &Vec<u8>, a: u8, b: u8, c: u8, d: u8) -> (r: bool)
    ensures
        r == (t@ =~= seq![a, b, c, d]),
{
    t.len() == 4 && t[0] == a && t[1] == b && t[2] == c && t[3] == d
}

fn kw5(t: &Vec<u8>, a: u8, b: u8, c: u8, d: u8, e: u8) -> (r: bool)
    ensures
        r == (t@ =~= seq![a, b, c, d, e]),
{
    t.len() == 5 && t[0] == a && t[1] == b && t[2] == c && t[3] == d && t[4] == e
}

fn kw6(t: &Vec<u8>, a: u8, b: u8, c: u8, d: u8, e: u8, f: u8) -> (r: bool)
    ensures
        r == (t@ =~= seq![a, b, c, d, e, f]),
{
    t.len() == 6 && t[0] == a && t[1] == b && t[2] == c && t[3] == d && t[4] == e && t[5] == f
}

fn kw7(t: &Vec<u8>, a: u8, b: u8, c: u8, d: u8, e: u8, f: u8, g: u8) -> (r: bool)
    ensures
        r == (t@ =~= seq![a, b, c, d, e, f, g]),
{
    t.len() == 7 && t[0] == a && t[1] == b && t[2] == c && t[3] == d && t[4] == e && t[5] == f
        && t[6] == g
}

fn kw8(t: &Vec<u8>, a: u8, b: u8, c: u8, d: u8, e: u8, f: u8, g: u8, h: u8) -> (r: bool)
    ensures
        r == (t@ =~= seq![a, b, c, d, e, f, g, h]),
{
    t.len() == 8 && t[0] == a && t[1] == b && t[2] == c && t[3] == d && t[4] == e && t[5] == f
        && t[6] == g && t[7] == h
}

fn kw10(
    t: &Vec<u8>,
    a: u8,
    b: u8,
    c: u8,
    d: u8,
    e: u8,
    f: u8,
    g: u8,
    h: u8,
    i: u8,
    j: u8,
) -> (r: bool)
    ensures
        r == (t@ =~= seq![a, b, c, d, e, f, g, h, i, j]),
{
    t.len() == 10 && t[0] == a && t[1] == b && t[2] == c && t[3] == d && t[4] == e && t[5] == f
        && t[6] == g && t[7] == h && t[8] == i && t[9] == j
}

fn kw11(
    t: &Vec<u8>,
    a: u8,
    b: u8,
    c: u8,
    d: u8,
    e: u8,
    f: u8,
    g: u8,
    h: u8,
    i: u8,
    j: u8,
    k: u8,
) -> (r: bool)
    ensures
        r == (t@ =~= seq![a, b, c, d, e, f, g, h, i, j, k]),
{
    t.len() == 11 && t[0] == a && t[1] == b && t[2] == c && t[3] == d && t[4] == e && t[5] == f
        && t[6] == g && t[7] == h && t[8] == i && t[9] == j && t[10] == k
}

/// The byte the scanner sees at `pos`: line feed once the line is exhausted.
pub open spec fn at_or_lf(s: Seq<u8>, pos: int) -> u8 {
    if 0 <= pos < s.len() {
        s[pos]
    } else {
        LF
    }
}

fn cur(s: &Vec<u8>, pos: usize) -> (r: u8)
    ensures
        r == at_or_lf(s@, pos as int),
{
    if pos < s.len() {
        s[pos]
    } else {
        LF
    }
}

/// Keyword octets: letters, digits and hyphen.
pub open spec fn is_token_byte(b: u8) -> bool {
    (65 <= b && b <= 90) || (97 <= b && b <= 122) || (48 <= b && b <= 57) || b == 45
}

fn token_byte(b: u8) -> (r: bool)
    ensures
        r == is_token_byte(b),
{
    (65 <= b && b <= 90) || (97 <= b && b <= 122) || (48 <= b && b <= 57) || b == 45
}

/// Skips spaces, then collects the upper-cased keyword — at most seventeen
/// octets of it, enough to tell every keyword of the grammar apart while an
/// over-long keyword can never equal one. The cursor stops at the first
/// octet not collected.
fn scan_token(s: &Vec<u8>, pos: &mut usize) -> (r: Vec<u8>)
    requires
        *old(pos) <= s@.len(),
    ensures
        *old(pos) <= *final(pos) <= s@.len(),
        ({
            let t = token_seq(skip_sp_seq(s@.subrange(*old(pos) as int, s@.len() as int)));
            &&& r@ == if t.len() <= 17 {
                t
            } else {
                t.take(17)
            }
            &&& r@.len() <= skip_sp_seq(s@.subrange(*old(pos) as int, s@.len() as int)).len()
            &&& s@.subrange(*final(pos) as int, s@.len() as int) =~= skip_sp_seq(
                s@.subrange(*old(pos) as int, s@.len() as int),
            ).skip(r@.len() as int)
        }),
        all_ascii(r@),
        r@.len() > 0 ==> *final(pos) > *old(pos),
        r@.len() == 0 ==> at_or_lf(s@, *final(pos) as int) != SP,
{
    let len: usize = s.len();
    while *pos < len && s[*pos] == SP
        invariant
            *old(pos) <= *pos <= len == s@.len(),
            skip_sp_seq(s@.subrange(*old(pos) as int, len as int)) == skip_sp_seq(
                s@.subrange(*pos as int, len as int),
            ),
        decreases len - *pos,
    {
        let ghost pre = s@.subrange(*pos as int, len as int);
        *pos = *pos + 1;
        proof {
            assert(pre[0] == SP);
            assert(pre.drop_first() =~= s@.subrange(*pos as int, len as int));
        }
    }
    proof {
        assert(skip_sp_seq(s@.subrange(*pos as int, len as int)) == s@.subrange(
            *pos as int,
            len as int,
        ));
    }
    let ghost tokstart = *pos as int;
    let mut t: Vec<u8> = Vec::new();
    while *pos < len && t.len() < 17 && token_byte(s[*pos])
        invariant
            0 <= tokstart <= *pos as int <= len == s@.len(),
            t@.len() == *pos as int - tokstart,
            t@.len() <= 17,
            all_ascii(t@),
            t@ + token_seq(s@.subrange(*pos as int, len as int)) =~= token_seq(
                s@.subrange(tokstart, len as int),
            ),
        decreases len - *pos,
    {
        let b: u8 = s[*pos];
        let up: u8 = if 97 <= b && b <= 122 {
            b - 32
        } else {
            b
        };
        let ghost pre = s@.subrange(*pos as int, len as int);
        t.push(up);
        *pos = *pos + 1;
        proof {
            assert(pre[0] == b);
            assert(pre.drop_first() =~= s@.subrange(*pos as int, len as int));
            assert(token_seq(pre) == seq![upper_kw(b)] + token_seq(pre.drop_first()));
            assert(t@ + token_seq(s@.subrange(*pos as int, len as int)) =~= token_seq(
                s@.subrange(tokstart, len as int),
            ));
        }
    }
    proof {
        let whole = token_seq(s@.subrange(tokstart, len as int));
        let rest = s@.subrange(*pos as int, len as int);
        if *pos < len && t@.len() == 17 && is_token_byte(s@[*pos as int]) {
            assert(token_seq(rest) == seq![upper_kw(rest[0])] + token_seq(rest.drop_first()));
            assert(whole.len() > 17);
            assert(t@ =~= whole.take(17));
        } else {
            assert(token_seq(rest) =~= Seq::<u8>::empty());
            assert(t@ =~= whole);
        }
        assert(rest =~= s@.subrange(tokstart, len as int).skip(t@.len() as int));
    }
    t
}

/// Skips spaces and reports the next octet without consuming it.
fn next_nonspace(s: &Vec<u8>, pos: &mut usize) -> (r: u8)
    requires
        *old(pos) <= s@.len(),
    ensures
        *old(pos) <= *final(pos) <= s@.len(),
        r == at_or_lf(s@, *final(pos) as int),
        r != SP,
{
    while *pos < s.len() && s[*pos] == SP
        invariant
            *old(pos) <= *pos <= s@.len(),
        decreases s@.len() - *pos,
    {
        *pos = *pos + 1;
    }
    cur(s, *pos)
}

/// Decimal scan with saturation; `usize::MAX` doubles as the "no digits or
/// overflow" marker, exactly as the callers expect.
fn scan_size(s: &Vec<u8>, pos: &mut usize) -> (r: usize)
    requires
        *old(pos) <= s@.len(),
    ensures
        *old(pos) <= *final(pos) <= s@.len(),
{
    let b = next_nonspace(s, pos);
    if !(48 <= b && b <= 57) {
        return usize::MAX;
    }
    let mut value: usize = 0;
    while *pos < s.len() && 48 <= s[*pos] && s[*pos] <= 57
        invariant
            *old(pos) <= *pos <= s@.len(),
        decreases s@.len() - *pos,
    {
        let d: usize = (s[*pos] - 48) as usize;
        if value > (usize::MAX - d) / 10 {
            value = usize::MAX;
        } else if value < usize::MAX {
            value = value * 10 + d;
        }
        *pos = *pos + 1;
    }
    value
}

/// Signed decimal scan with saturation; `i64::MAX` marks "no digits or
/// overflow".
fn scan_int(s: &Vec<u8>, pos: &mut usize) -> (r: i64)
    requires
        *old(pos) <= s@.len(),
    ensures
        *old(pos) <= *final(pos) <= s@.len(),
{
    let mut b = next_nonspace(s, pos);
    let mut negative = false;
    if (b == 45 || b == 43) && *pos < s.len() {
        negative = b == 45;
        *pos = *pos + 1;
        b = cur(s, *pos);
    }
    if !(48 <= b && b <= 57) {
        return i64::MAX;
    }
    let mut value: i64 = 0;
    while *pos < s.len() && 48 <= s[*pos] && s[*pos] <= 57
        invariant
            *old(pos) <= *pos <= s@.len(),
            0 <= value,
        decreases s@.len() - *pos,
    {
        let d: i64 = (s[*pos] - 48) as i64;
        if value > (i64::MAX - d) / 10 {
            value = i64::MAX;
        } else if value < i64::MAX {
            value = value * 10 + d;
        }
        *pos = *pos + 1;
    }
    if negative && value < i64::MAX {
        -value
    } else {
        value
    }
}

/// How an address scan ended: the closing `>`, a space, the end of the line,
/// or an octet the address grammar refuses.
pub struct AddrScan {
    pub address: Option<Vec<u8>>,
    pub stop: u8,
}

fn is_atext(b: u8) -> (r: bool) {
    (48 <= b && b <= 57) || (97 <= b && b <= 122) || (65 <= b && b <= 90) || b == 33 || b == 35
        || b == 36 || b == 37 || b == 38 || b == 39 || b == 42 || b == 43 || b == 45 || b == 47
        || b == 61 || b == 63 || b == 94 || b == 95 || b == 96 || b == 123 || b == 124 || b == 125
        || b == 126 || b >= 127
}

fn postmaster_lc() -> (r: Vec<u8>) {
    let mut v: Vec<u8> = Vec::new();
    v.push(112);
    v.push(111);
    v.push(115);
    v.push(116);
    v.push(109);
    v.push(97);
    v.push(115);
    v.push(116);
    v.push(101);
    v.push(114);
    v
}

/// Scans one forward/reverse path: atext with dotted labels, one `@` with a
/// non-empty local part, quoted local parts with backslash escapes, source
/// routes dropped, `<>` and `postmaster` accepted as the empty address.
fn scan_address(s: &Vec<u8>, pos: &mut usize) -> (r: AddrScan)
    requires
        *old(pos) <= s@.len(),
    ensures
        *old(pos) <= *final(pos) <= s@.len(),
{
    let n: usize = s.len();
    let mut value: Vec<u8> = Vec::new();
    let mut last_ch: u8 = 0;
    let mut in_quote = false;
    let mut at_count: usize = 0;
    let mut lp_len: usize = 0;
    loop
        invariant
            n == s@.len(),
            *old(pos) <= *pos <= s@.len(),
            value@.len() <= s@.len(),
            at_count <= *pos,
        decreases s@.len() - *pos,
    {
        let ch = cur(s, *pos);
        if *pos < s.len() {
            *pos = *pos + 1;
        }
        if ch == LF {
            let valid = value.len() == 0 || (value.len() <= MAX_ADDRESS_LEN && at_count == 1
                && lp_len > 0);
            return AddrScan { address: if valid { Some(value) } else { None }, stop: LF };
        } else if in_quote {
            if ch == 34 && last_ch != 92 {
                in_quote = false;
            } else if ch == 92 && last_ch != 92 {
                // The escape itself is dropped; the escaped octet is kept.
            } else if ch == 92 && last_ch == 92 {
                if value.len() < s.len() {
                    value.push(92);
                }
                last_ch = 0;
                continue;
            } else {
                if value.len() < s.len() {
                    value.push(ch);
                }
            }
        } else if ch == 34 {
            in_quote = true;
        } else if ch == 46 {
            if last_ch == 46 || last_ch == 64 || value.len() == 0 {
                return AddrScan { address: None, stop: ch };
            }
            if value.len() < s.len() {
                value.push(46);
            }
        } else if ch == 64 {
            at_count = at_count + 1;
            lp_len = value.len();
            if value.len() < s.len() {
                value.push(64);
            }
        } else if ch == 62 {
            let valid = (1 <= value.len() && value.len() <= MAX_ADDRESS_LEN && at_count == 1
                && lp_len > 0) || value.len() == 0;
            if valid {
                return AddrScan { address: Some(value), stop: 62 };
            }
            if value.len() == 10 && at_count == 0 {
                let lc = to_lower(&value);
                let pm = postmaster_lc();
                if crate::text::bytes_eq(&lc, pm.as_slice()) {
                    return AddrScan { address: Some(Vec::new()), stop: 62 };
                }
            }
            return AddrScan { address: None, stop: 62 };
        } else if ch == 58 {
            if value.len() > 0 && value[0] == 64 {
                // Source route: start the address over after the colon.
                value = Vec::new();
                at_count = 0;
                lp_len = 0;
            } else {
                return AddrScan { address: None, stop: 58 };
            }
        } else if ch == 44 {
            if !(value.len() > 0 && value[0] == 64) {
                return AddrScan { address: None, stop: 44 };
            }
            if value.len() < s.len() {
                value.push(44);
            }
        } else if ch == SP {
            if value.len() > 0 {
                let valid = value.len() <= MAX_ADDRESS_LEN && at_count == 1 && lp_len > 0;
                return AddrScan { address: if valid { Some(value) } else { None }, stop: SP };
            }
        } else if is_atext(ch) {
            if value.len() < s.len() {
                value.push(ch);
            }
        } else {
            return AddrScan { address: None, stop: ch };
        }
        last_ch = ch;
    }
}

/// Scans a free-form string argument: ends at a space outside quotes or at
/// the end of the line; quotes and backslash escapes as in addresses.
fn scan_string(s: &Vec<u8>, pos: &mut usize) -> (r: Vec<u8>)
    requires
        *old(pos) <= s@.len(),
    ensures
        *old(pos) <= *final(pos) <= s@.len(),
{
    let n: usize = s.len();
    let mut value: Vec<u8> = Vec::new();
    let mut last_ch: u8 = 0;
    let mut in_quote = false;
    loop
        invariant
            n == s@.len(),
            *old(pos) <= *pos <= s@.len(),
            value@.len() <= s@.len(),
        decreases s@.len() - *pos,
    {
        let ch = cur(s, *pos);
        if *pos < s.len() {
            *pos = *pos + 1;
        }
        if ch == LF {
            return value;
        } else if in_quote {
            if ch == 34 && last_ch != 92 {
                in_quote = false;
            } else if ch == 92 && last_ch != 92 {
                // Escape dropped.
            } else if ch == 92 && last_ch == 92 {
                if value.len() < s.len() {
                    value.push(92);
                }
                last_ch = 0;
                continue;
            } else {
                if value.len() < s.len() {
                    value.push(ch);
                }
            }
        } else if ch == 34 {
            in_quote = true;
        } else if ch == SP {
            if value.len() > 0 {
                return value;
            }
        } else {
            if value.len() < s.len() {
                value.push(ch);
            }
        }
        last_ch = ch;
    }
}

/// Scans one word: ends at a space or at the end of the line.
fn scan_text(s: &Vec<u8>, pos: &mut usize) -> (r: Vec<u8>)
    requires
        *old(pos) <= s@.len(),
    ensures
        *old(pos) <= *final(pos) <= s@.len(),
{
    let n: usize = s.len();
    let mut value: Vec<u8> = Vec::new();
    loop
        invariant
            n == s@.len(),
            *old(pos) <= *pos <= s@.len(),
            value@.len() <= s@.len(),
        decreases s@.len() - *pos,
    {
        let ch = cur(s, *pos);
        if ch == LF {
            return value;
        }
        *pos = *pos + 1;
        if ch == SP {
            return value;
        }
        if value.len() < s.len() {
            value.push(ch);
        }
    }
}

fn hex_val(b: u8) -> (r: Option<u8>)
    ensures
        r matches Some(v) ==> v < 16,
{
    if 48 <= b && b <= 57 {
        Some(b - 48)
    } else if 97 <= b && b <= 102 {
        Some(b - 87)
    } else if 65 <= b && b <= 70 {
        Some(b - 55)
    } else {
        None
    }
}

/// Scans an xtext argument: `+HH` escapes decode to the octet they name; the
/// scan ends at a space or at the end of the line.
fn scan_xtext(s: &Vec<u8>, pos: &mut usize) -> (r: Vec<u8>)
    requires
        *old(pos) <= s@.len(),
    ensures
        *old(pos) <= *final(pos) <= s@.len(),
{
    let n: usize = s.len();
    let mut value: Vec<u8> = Vec::new();
    loop
        invariant
            n == s@.len(),
            *old(pos) <= *pos <= s@.len(),
            value@.len() <= s@.len(),
        decreases s@.len() - *pos,
    {
        let ch = cur(s, *pos);
        if ch == LF {
            return value;
        }
        *pos = *pos + 1;
        if ch == SP {
            return value;
        }
        if ch == 43 {
            let h1 = cur(s, *pos);
            if h1 == LF {
                return value;
            }
            *pos = *pos + 1;
            if let Some(hi) = hex_val(h1) {
                let h2 = cur(s, *pos);
                if h2 == LF {
                    return value;
                }
                *pos = *pos + 1;
                if let Some(lo) = hex_val(h2) {
                    if value.len() < s.len() {
                        value.push(hi * 16 + lo);
                    }
                }
            }
        } else {
            if value.len() < s.len() {
                value.push(ch);
            }
        }
    }
}

/// Collects the spelling of an unknown parameter for the error reply: the
/// keyword as scanned, then anything up to the next space, upper-cased,
/// ASCII only.
fn unknown_param(token: Vec<u8>, s: &Vec<u8>, pos: &mut usize) -> (r: Vec<u8>)
    requires
        *old(pos) <= s@.len(),
        all_ascii(token@),
    ensures
        *old(pos) <= *final(pos) <= s@.len(),
        all_ascii(r@),
{
    let mut param = token;
    let n: usize = s.len();
    loop
        invariant
            n == s@.len(),
            *old(pos) <= *pos <= s@.len(),
            all_ascii(param@),
        decreases s@.len() - *pos,
    {
        let ch = cur(s, *pos);
        if ch == LF {
            return param;
        }
        *pos = *pos + 1;
        if ch == SP {
            return param;
        }
        if param.len() < crate::receiver::MAX_LINE_LENGTH {
            let up = if 97 <= ch && ch <= 122 {
                ch - 32
            } else {
                ch
            };
            param.push(if up < 128 {
                up
            } else {
                63
            });
        }
    }
}

fn scan_mail_params(s: &Vec<u8>, pos: &mut usize, address: Vec<u8>) -> (r: Result<
    MailFrom,
    ParseError,
>)
    requires
        *old(pos) <= s@.len(),
    ensures
        *old(pos) <= *final(pos) <= s@.len(),
        r matches Err(ParseError::UnsupportedParameter { param }) ==> crate::text::all_ascii(
            param@,
        ),
{
    let n: usize = s.len();
    let mut params = MailFrom {
        address,
        flags: 0,
        size: 0,
        by: 0,
        env_id: None,
        hold_for: 0,
        mt_priority: 0,
    };
    loop
        invariant
            n == s@.len(),
            *old(pos) <= *pos <= s@.len(),
        decreases s@.len() - *pos,
    {
        if cur(s, *pos) == LF {
            return Ok(params);
        }
        let ghost pos_at_entry = *pos as int;
        let key = scan_token(s, pos);
        if key.len() == 0 {
            if cur(s, *pos) == LF {
                return Ok(params);
            }
            return Err(ParseError::SyntaxError { syntax: "MAIL FROM:<reverse-path> [parameters]" });
        }
        let stop = cur(s, *pos);
        if kw8(&key, 83, 77, 84, 80, 85, 84, 70, 56  /* SMTPUTF8 */) && (stop == SP || stop == LF) {
            params.flags = params.flags | MAIL_SMTPUTF8;
        } else if kw10(&key, 82, 69, 81, 85, 73, 82, 69, 84, 76, 83  /* REQUIRETLS */) && (stop == SP || stop == LF) {
            params.flags = params.flags | MAIL_REQUIRETLS;
        } else if kw7(&key, 67, 79, 78, 80, 69, 82, 77  /* CONPERM */) && (stop == SP || stop == LF) {
            params.flags = params.flags | MAIL_CONPERM;
        } else if kw4(&key, 66, 79, 68, 89  /* BODY */) && stop == 61 {
            *pos = *pos + 1;
            let v = scan_token(s, pos);
            let vstop = cur(s, *pos);
            if kw4(&v, 55, 66, 73, 84  /* 7BIT */) && (vstop == SP || vstop == LF) {
                params.flags = params.flags | MAIL_BODY_7BIT;
            } else if kw8(&v, 56, 66, 73, 84, 77, 73, 77, 69  /* 8BITMIME */) && (vstop == SP || vstop == LF) {
                params.flags = params.flags | MAIL_BODY_8BITMIME;
            } else if kw10(&v, 66, 73, 78, 65, 82, 89, 77, 73, 77, 69  /* BINARYMIME */) && (vstop == SP || vstop == LF) {
                params.flags = params.flags | MAIL_BODY_BINARYMIME;
            } else {
                return Err(ParseError::InvalidParameter { param: "BODY" });
            }
        } else if kw4(&key, 83, 73, 90, 69  /* SIZE */) && stop == 61 {
            *pos = *pos + 1;
            let size = scan_size(s, pos);
            let vstop = cur(s, *pos);
            if size != usize::MAX && (vstop == SP || vstop == LF) {
                params.size = size;
            } else {
                return Err(ParseError::InvalidParameter { param: "SIZE" });
            }
        } else if kw3(&key, 82, 69, 84  /* RET */) && stop == 61 {
            *pos = *pos + 1;
            let v = scan_token(s, pos);
            let vstop = cur(s, *pos);
            if kw4(&v, 70, 85, 76, 76  /* FULL */) && (vstop == SP || vstop == LF) {
                params.flags = params.flags | MAIL_RET_FULL;
            } else if kw4(&v, 72, 68, 82, 83  /* HDRS */) && (vstop == SP || vstop == LF) {
                params.flags = params.flags | MAIL_RET_HDRS;
            } else {
                return Err(ParseError::InvalidParameter { param: "RET" });
            }
        } else if kw5(&key, 69, 78, 86, 73, 68  /* ENVID */) && stop == 61 {
            *pos = *pos + 1;
            let env_id = scan_xtext(s, pos);
            if 1 <= env_id.len() && env_id.len() <= 100 {
                params.env_id = Some(env_id);
            } else {
                return Err(ParseError::InvalidParameter { param: "ENVID" });
            }
        } else if kw2(&key, 66, 89  /* BY */) && stop == 61 {
            *pos = *pos + 1;
            let time = scan_int(s, pos);
            if time == i64::MAX || cur(s, *pos) != 59 {
                return Err(ParseError::InvalidParameter { param: "BY" });
            }
            *pos = *pos + 1;
            let mode = scan_token(s, pos);
            let vstop = cur(s, *pos);
            if !(vstop == SP || vstop == LF) {
                return Err(ParseError::InvalidParameter { param: "BY" });
            }
            if kw1(&mode, 78  /* N */) {
                params.flags = params.flags | MAIL_BY_NOTIFY;
            } else if kw2(&mode, 78, 84  /* NT */) {
                params.flags = params.flags | MAIL_BY_NOTIFY | MAIL_BY_TRACE;
            } else if kw1(&mode, 82  /* R */) {
                params.flags = params.flags | MAIL_BY_RETURN;
            } else if kw2(&mode, 82, 84  /* RT */) {
                params.flags = params.flags | MAIL_BY_RETURN | MAIL_BY_TRACE;
            } else {
                return Err(ParseError::InvalidParameter { param: "BY" });
            }
            params.by = time;
        } else if kw7(&key, 72, 79, 76, 68, 70, 79, 82  /* HOLDFOR */) && stop == 61 {
            *pos = *pos + 1;
            let hold = scan_size(s, pos);
            let vstop = cur(s, *pos);
            if 1 <= hold && hold <= 999999999 && (vstop == SP || vstop == LF) {
                params.hold_for = hold as u64;
            } else {
                return Err(ParseError::InvalidParameter { param: "HOLDFOR" });
            }
        } else if kw11(&key, 77, 84, 45, 80, 82, 73, 79, 82, 73, 84, 89  /* MT-PRIORITY */) && stop == 61 {
            *pos = *pos + 1;
            let priority = scan_int(s, pos);
            let vstop = cur(s, *pos);
            if priority != i64::MAX && (vstop == SP || vstop == LF) {
                params.mt_priority = priority;
            } else {
                return Err(ParseError::InvalidParameter { param: "MT-PRIORITY" });
            }
        } else {
            let param = unknown_param(key, s, pos);
            return Err(ParseError::UnsupportedParameter { param });
        }
        proof {
            assert(*pos as int > pos_at_entry);
        }
    }
}

fn scan_rcpt_params(s: &Vec<u8>, pos: &mut usize, address: Vec<u8>) -> (r: Result<
    RcptTo,
    ParseError,
>)
    requires
        *old(pos) <= s@.len(),
    ensures
        *old(pos) <= *final(pos) <= s@.len(),
        r matches Err(ParseError::UnsupportedParameter { param }) ==> crate::text::all_ascii(
            param@,
        ),
{
    let n: usize = s.len();
    let mut params = RcptTo { address, flags: 0, orcpt: None };
    loop
        invariant
            n == s@.len(),
            *old(pos) <= *pos <= s@.len(),
        decreases s@.len() - *pos,
    {
        if cur(s, *pos) == LF {
            return Ok(params);
        }
        let ghost pos_at_entry = *pos as int;
        let key = scan_token(s, pos);
        if key.len() == 0 {
            if cur(s, *pos) == LF {
                return Ok(params);
            }
            return Err(ParseError::SyntaxError { syntax: "RCPT TO:<forward-path> [parameters]" });
        }
        let stop = cur(s, *pos);
        if kw6(&key, 78, 79, 84, 73, 70, 89  /* NOTIFY */) && stop == 61 {
            *pos = *pos + 1;
            loop
                invariant
                    n == s@.len(),
                    *old(pos) <= *pos <= s@.len(),
                    *pos as int > pos_at_entry,
                decreases s@.len() - *pos,
            {
                let v = scan_token(s, pos);
                if kw5(&v, 78, 69, 86, 69, 82  /* NEVER */) && params.flags & (RCPT_NOTIFY_NEVER | RCPT_NOTIFY_SUCCESS
                    | RCPT_NOTIFY_FAILURE | RCPT_NOTIFY_DELAY) == 0 {
                    params.flags = params.flags | RCPT_NOTIFY_NEVER;
                } else if kw7(&v, 83, 85, 67, 67, 69, 83, 83  /* SUCCESS */) {
                    params.flags = params.flags | RCPT_NOTIFY_SUCCESS;
                } else if kw7(&v, 70, 65, 73, 76, 85, 82, 69  /* FAILURE */) {
                    params.flags = params.flags | RCPT_NOTIFY_FAILURE;
                } else if kw5(&v, 68, 69, 76, 65, 89  /* DELAY */) {
                    params.flags = params.flags | RCPT_NOTIFY_DELAY;
                } else {
                    return Err(ParseError::InvalidParameter { param: "NOTIFY" });
                }
                let vstop = cur(s, *pos);
                if vstop == SP || vstop == LF {
                    break;
                }
                if vstop != 44 {
                    return Err(ParseError::InvalidParameter { param: "NOTIFY" });
                }
                *pos = *pos + 1;
            }
        } else if kw5(&key, 79, 82, 67, 80, 84  /* ORCPT */) && stop == 61 {
            *pos = *pos + 1;
            let v = scan_token(s, pos);
            if !kw6(&v, 82, 70, 67, 56, 50, 50  /* RFC822 */) || cur(s, *pos) != 59 {
                return Err(ParseError::InvalidParameter { param: "ORCPT" });
            }
            *pos = *pos + 1;
            let addr = scan_xtext(s, pos);
            if 1 <= addr.len() && addr.len() <= MAX_ADDRESS_LEN {
                params.orcpt = Some(addr);
            } else {
                return Err(ParseError::InvalidParameter { param: "ORCPT" });
            }
        } else if kw6(&key, 67, 79, 78, 78, 69, 71  /* CONNEG */) && (stop == SP || stop == LF) {
            params.flags = params.flags | RCPT_CONNEG;
        } else {
            let param = unknown_param(key, s, pos);
            return Err(ParseError::UnsupportedParameter { param });
        }
        proof {
            assert(*pos as int > pos_at_entry);
        }
    }
}

/// Parses one complete command line (line feed not included; carriage
/// returns anywhere in the line are ignored) into a typed request or a
/// categorized error.
pub fn parse_line(line: &Vec<u8>) -> (r: Result<Request, ParseError>)
    ensures
        r matches Err(ParseError::UnsupportedParameter { param }) ==> crate::text::all_ascii(
            param@,
        ),
        (r matches Ok(Request::Quit)) <==> bare_command(line@, seq![81u8, 85u8, 73u8, 84u8]),
        (r matches Ok(Request::Rset)) <==> bare_command(line@, seq![82u8, 83u8, 69u8, 84u8]),
        (r matches Ok(Request::Data)) <==> bare_command(line@, seq![68u8, 65u8, 84u8, 65u8]),
        (r matches Ok(Request::StartTls)) <==> bare_command(
            line@,
            seq![83u8, 84u8, 65u8, 82u8, 84u8, 84u8, 76u8, 83u8],
        ),
        bare_command(line@, seq![78u8, 79u8, 79u8, 80u8]) ==> r matches Ok(
            Request::Noop { .. },
        ),
{
    let mut s: Vec<u8> = Vec::new();
    let mut i: usize = 0;
    while i < line.len()
        invariant
            i <= line@.len(),
            s@.len() <= i,
            s@ == strip_cr_seq(line@.subrange(0, i as int)),
        decreases line@.len() - i,
    {
        proof {
            lemma_strip_cr_push(line@.subrange(0, i as int), line@[i as int]);
            assert(line@.subrange(0, i as int).push(line@[i as int]) =~= line@.subrange(
                0,
                i + 1,
            ));
        }
        if line[i] != crate::text::CR {
            s.push(line[i]);
        }
        i = i + 1;
        assert(s@ =~= strip_cr_seq(line@.subrange(0, i as int)));
    }
    proof {
        assert(line@.subrange(0, line@.len() as int) =~= line@);
    }
    let n: usize = s.len();
    let mut pos: usize = 0;
    let cmd = scan_token(&s, &mut pos);
    let stop = cur(&s, pos);
    proof {
        // The whole stripped line is what the keyword scan looked at, and
        // the stop octet is what the line holds right after the keyword.
        assert(s@.subrange(0, s@.len() as int) =~= s@);
        let s2 = skip_sp_seq(strip_cr_seq(line@));
        assert(token_seq(s2) == token_seq(skip_sp_seq(s@.subrange(0, s@.len() as int))));
        assert(s@.subrange(pos as int, s@.len() as int) =~= s2.skip(cmd@.len() as int));
        if (pos as int) < s@.len() {
            assert(s@[pos as int] == s2.skip(cmd@.len() as int)[0]);
            assert(s2[cmd@.len() as int] == s2.skip(cmd@.len() as int)[0]);
        }
    }
    if stop != SP && stop != LF {
        return Err(ParseError::UnknownCommand);
    }
    let is_ehlo = kw4(&cmd, 69, 72, 76, 79  /* EHLO */);
    let is_helo = kw4(&cmd, 72, 69, 76, 79  /* HELO */);
    let is_lhlo = kw4(&cmd, 76, 72, 76, 79  /* LHLO */);
    if kw4(&cmd, 82, 67, 80, 84  /* RCPT */) {
        if stop == LF {
            return Err(ParseError::SyntaxError { syntax: "RCPT TO:<forward-path> [parameters]" });
        }
        let arg = scan_token(&s, &mut pos);
        if !kw2(&arg, 84, 79  /* TO */) || next_nonspace(&s, &mut pos) != 58 {
            return Err(ParseError::SyntaxError { syntax: "RCPT TO:<forward-path> [parameters]" });
        }
        pos = pos + 1;
        if next_nonspace(&s, &mut pos) != 60 {
            return Err(ParseError::SyntaxError { syntax: "RCPT TO:<forward-path> [parameters]" });
        }
        pos = pos + 1;
        let scan = scan_address(&s, &mut pos);
        match scan.address {
            Some(addr) => {
                if scan.stop == 62 {
                    match scan_rcpt_params(&s, &mut pos, addr) {
                        Ok(to) => Ok(Request::Rcpt { to }),
                        Err(e) => Err(e),
                    }
                } else {
                    Err(ParseError::SyntaxError { syntax: "RCPT TO:<forward-path> [parameters]" })
                }
            },
            None => Err(ParseError::InvalidRecipientAddress),
        }
    } else if kw4(&cmd, 77, 65, 73, 76  /* MAIL */) {
        if stop == LF {
            return Err(ParseError::SyntaxError { syntax: "MAIL FROM:<reverse-path> [parameters]" });
        }
        let arg = scan_token(&s, &mut pos);
        if !kw4(&arg, 70, 82, 79, 77  /* FROM */) || next_nonspace(&s, &mut pos) != 58 {
            return Err(ParseError::SyntaxError { syntax: "MAIL FROM:<reverse-path> [parameters]" });
        }
        pos = pos + 1;
        if next_nonspace(&s, &mut pos) != 60 {
            return Err(ParseError::SyntaxError { syntax: "MAIL FROM:<reverse-path> [parameters]" });
        }
        pos = pos + 1;
        let scan = scan_address(&s, &mut pos);
        match scan.address {
            Some(addr) => {
                if scan.stop == 62 {
                    match scan_mail_params(&s, &mut pos, addr) {
                        Ok(from) => Ok(Request::Mail { from }),
                        Err(e) => Err(e),
                    }
                } else {
                    Err(ParseError::SyntaxError { syntax: "MAIL FROM:<reverse-path> [parameters]" })
                }
            },
            None => Err(ParseError::InvalidSenderAddress),
        }
    } else if kw4(&cmd, 68, 65, 84, 65  /* DATA */) {
        Ok(Request::Data)
    } else if kw4(&cmd, 66, 68, 65, 84  /* BDAT */) {
        if stop == LF {
            return Err(ParseError::SyntaxError { syntax: "BDAT chunk-size [LAST]" });
        }
        let chunk_size = scan_size(&s, &mut pos);
        let vstop = cur(&s, pos);
        if chunk_size == usize::MAX || !(vstop == SP || vstop == LF) {
            return Err(ParseError::SyntaxError { syntax: "BDAT chunk-size [LAST]" });
        }
        if vstop == LF {
            return Ok(Request::Bdat { chunk_size, is_last: false });
        }
        let arg = scan_token(&s, &mut pos);
        if kw4(&arg, 76, 65, 83, 84  /* LAST */) {
            Ok(Request::Bdat { chunk_size, is_last: true })
        } else if arg.len() == 0 && cur(&s, pos) == LF {
            Ok(Request::Bdat { chunk_size, is_last: false })
        } else {
            Err(ParseError::SyntaxError { syntax: "BDAT chunk-size [LAST]" })
        }
    } else if is_ehlo || is_helo || is_lhlo {
        if stop != LF {
            pos = pos + 1;
            let host = scan_text(&s, &mut pos);
            if 1 <= host.len() && host.len() <= MAX_DOMAIN_LEN {
                return Ok(
                    if is_ehlo {
                        Request::Ehlo { host }
                    } else if is_helo {
                        Request::Helo { host }
                    } else {
                        Request::Lhlo { host }
                    },
                );
            }
        }
        Err(
            ParseError::SyntaxError {
                syntax: if is_ehlo {
                    "EHLO domain"
                } else if is_helo {
                    "HELO domain"
                } else {
                    "LHLO domain"
                },
            },
        )
    } else if kw4(&cmd, 65, 85, 84, 72  /* AUTH */) {
        if stop == LF {
            return Err(ParseError::SyntaxError { syntax: "AUTH mechanism [initial-response]" });
        }
        let mech = scan_token(&s, &mut pos);
        let vstop = cur(&s, pos);
        if mech.len() == 0 || !(vstop == SP || vstop == LF) {
            return Err(ParseError::SyntaxError { syntax: "AUTH mechanism [initial-response]" });
        }
        let mechanism: u64 = if kw5(&mech, 80, 76, 65, 73, 78  /* PLAIN */) {
            AUTH_PLAIN
        } else if kw5(&mech, 76, 79, 71, 73, 78  /* LOGIN */) {
            AUTH_LOGIN
        } else if kw11(&mech, 79, 65, 85, 84, 72, 66, 69, 65, 82, 69, 82  /* OAUTHBEARER */) {
            AUTH_OAUTHBEARER
        } else if kw7(&mech, 88, 79, 65, 85, 84, 72, 50  /* XOAUTH2 */) {
            AUTH_XOAUTH2
        } else {
            0
        };
        let initial_response = if vstop == SP {
            let _ = next_nonspace(&s, &mut pos);
            scan_text(&s, &mut pos)
        } else {
            Vec::new()
        };
        Ok(Request::Auth { mechanism, initial_response })
    } else if kw4(&cmd, 78, 79, 79, 80  /* NOOP */) {
        if stop == LF {
            Ok(Request::Noop { value: Vec::new() })
        } else {
            Ok(Request::Noop { value: scan_string(&s, &mut pos) })
        }
    } else if kw4(&cmd, 72, 69, 76, 80  /* HELP */) {
        if stop == LF {
            Ok(Request::Help { value: Vec::new() })
        } else {
            Ok(Request::Help { value: scan_string(&s, &mut pos) })
        }
    } else if kw4(&cmd, 81, 85, 73, 84  /* QUIT */) {
        Ok(Request::Quit)
    } else if kw4(&cmd, 82, 83, 69, 84  /* RSET */) {
        Ok(Request::Rset)
    } else if kw8(&cmd, 83, 84, 65, 82, 84, 84, 76, 83  /* STARTTLS */) {
        Ok(Request::StartTls)
    } else if kw4(&cmd, 86, 82, 70, 89  /* VRFY */) {
        if stop != LF {
            let value = scan_string(&s, &mut pos);
            if 1 <= value.len() && value.len() <= MAX_ADDRESS_LEN {
                return Ok(Request::Vrfy { value });
            }
        }
        Err(ParseError::SyntaxError { syntax: "VRFY string" })
    } else if kw4(&cmd, 69, 88, 80, 78  /* EXPN */) {
        if stop != LF {
            let value = scan_string(&s, &mut pos);
            if 1 <= value.len() && value.len() <= MAX_ADDRESS_LEN {
                return Ok(Request::Expn { value });
            }
        }
        Err(ParseError::SyntaxError { syntax: "EXPN string" })
    } else if kw4(&cmd, 69, 84, 82, 78  /* ETRN */) {
        if stop != LF {
            let name = scan_string(&s, &mut pos);
            if name.len() > 0 {
                return Ok(Request::Etrn { name });
            }
        }
        Err(ParseError::SyntaxError { syntax: "ETRN name" })
    } else if kw4(&cmd, 65, 84, 82, 78  /* ATRN */) {
        if stop != LF {
            let mut domains: Vec<Vec<u8>> = Vec::new();
            loop
                invariant
                    n == s@.len(),
                    pos <= s@.len(),
                    !bare_command(line@, seq![81u8, 85u8, 73u8, 84u8]),
                    !bare_command(line@, seq![82u8, 83u8, 69u8, 84u8]),
                    !bare_command(line@, seq![68u8, 65u8, 84u8, 65u8]),
                    !bare_command(line@, seq![83u8, 84u8, 65u8, 82u8, 84u8, 84u8, 76u8, 83u8]),
                    !bare_command(line@, seq![78u8, 79u8, 79u8, 80u8]),
                decreases s@.len() - pos,
            {
                let pos_at_entry: usize = pos;
                let mut domain: Vec<u8> = Vec::new();
                let mut stopped: u8 = LF;
                loop
                    invariant
                        n == s@.len(),
                        pos <= s@.len(),
                        pos >= pos_at_entry,
                    decreases s@.len() - pos,
                {
                    let ch = cur(&s, pos);
                    if ch == LF {
                        break;
                    }
                    pos = pos + 1;
                    if ch == 44 {
                        stopped = 44;
                        break;
                    }
                    if ch == SP && domain.len() > 0 {
                        break;
                    }
                    if ch != SP && domain.len() < s.len() {
                        domain.push(ch);
                    }
                }
                if domain.len() > 0 {
                    domains.push(domain);
                }
                if stopped != 44 {
                    if domains.len() > 0 {
                        return Ok(Request::Atrn { domains });
                    }
                    break;
                }
                if pos <= pos_at_entry {
                    break;
                }
            }
        }
        Err(ParseError::SyntaxError { syntax: "ATRN domain[,domain]" })
    } else if kw4(&cmd, 66, 85, 82, 76  /* BURL */) {
        if stop != LF {
            pos = pos + 1;
            let uri = scan_text(&s, &mut pos);
            let vstop = cur(&s, pos);
            if uri.len() > 0 && (vstop == SP || vstop == LF) {
                if vstop == LF {
                    return Ok(Request::Burl { uri, is_last: false });
                }
                let arg = scan_token(&s, &mut pos);
                if kw4(&arg, 76, 65, 83, 84  /* LAST */) {
                    return Ok(Request::Burl { uri, is_last: true });
                }
                if arg.len() == 0 && cur(&s, pos) == LF {
                    return Ok(Request::Burl { uri, is_last: false });
                }
            }
        }
        Err(ParseError::SyntaxError { syntax: "BURL absolute-uri [LAST]" })
    } else {
        Err(ParseError::UnknownCommand)
    }
}

} // verus!

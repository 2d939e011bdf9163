//! Byte-level text helpers shared by the parser, the envelope model and the
//! session driver: ASCII case folding, domain extraction and decimal
//! rendering.

use vstd::prelude::*;

verus! {

pub const CR: u8 = 13;
pub const LF: u8 = 10;
pub const SP: u8 = 32;

/// ASCII lower-casing of one byte; bytes outside `A..=Z` are unchanged.
pub open spec fn lower_byte(b: u8) -> u8 {
    if 65 <= b && b <= 90 {
        (b + 32) as u8
    } else {
        b
    }
}

/// ASCII lower-casing of a byte sequence.
pub open spec fn lower_bytes(s: Seq<u8>) -> Seq<u8> {
    s.map_values(|b: u8| lower_byte(b))
}

pub fn to_lower(s: &Vec<u8>) -> (r: Vec<u8>)
    ensures
        r@ == lower_bytes(s@),
{
    let mut r: Vec<u8> = Vec::new();
    let mut i: usize = 0;
    while i < s.len()
        invariant
            i <= s@.len(),
            r@ == lower_bytes(s@).subrange(0, i as int),
        decreases s@.len() - i,
    {
        let b: u8 = s[i];
        if 65 <= b && b <= 90 {
            r.push(b + 32);
        } else {
            r.push(b);
        }
        i = i + 1;
        assert(r@ =~= lower_bytes(s@).subrange(0, i as int));
    }
    assert(r@ =~= lower_bytes(s@));
    r
}

/// Position just after the last `@` in `s`, or `None` when `s` has no `@`.
pub open spec fn last_at(s: Seq<u8>) -> Option<int>
    decreases s.len(),
{
    if s.len() == 0 {
        None
    } else if s[s.len() - 1] == 64 {
        Some(s.len() - 1)
    } else {
        last_at(s.drop_last())
    }
}

/// The suffix after the last `@`, or the empty sequence when there is none.
pub open spec fn domain_of(s: Seq<u8>) -> Seq<u8> {
    match last_at(s) {
        Some(i) => s.subrange(i + 1, s.len() as int),
        None => Seq::empty(),
    }
}

proof fn lemma_last_at_range(s: Seq<u8>)
    ensures
        match last_at(s) {
            Some(i) => 0 <= i < s.len() && s[i] == 64 && (forall|j: int|
                i < j < s.len() ==> s[j] != 64),
            None => forall|j: int| 0 <= j < s.len() ==> s[j] != 64,
        },
    decreases s.len(),
{
    if s.len() > 0 && s[s.len() - 1] != 64 {
        lemma_last_at_range(s.drop_last());
        assert forall|j: int| 0 <= j < s.len() - 1 implies s.drop_last()[j] == s[j] by {}
    }
}

/// Extracts the domain part (the suffix after the last `@`) of an address.
pub fn domain_part(s: &Vec<u8>) -> (r: Vec<u8>)
    ensures
        r@ == domain_of(s@),
{
    proof {
        lemma_last_at_range(s@);
    }
    let mut i: usize = s.len();
    while i > 0
        invariant
            i <= s@.len(),
            forall|j: int| i <= j < s@.len() ==> s@[j] != 64,
        decreases i,
    {
        i = i - 1;
        if s[i] == 64 {
            let mut r: Vec<u8> = Vec::new();
            let mut k: usize = i + 1;
            proof {
                assert(last_at(s@) == Some(i as int)) by {
                    lemma_last_at_range(s@);
                    if last_at(s@) is None {
                        assert(s@[i as int] != 64);
                    }
                }
            }
            while k < s.len()
                invariant
                    i + 1 <= k <= s@.len(),
                    i < s@.len(),
                    r@ == s@.subrange(i + 1, k as int),
                decreases s@.len() - k,
            {
                r.push(s[k]);
                k = k + 1;
                assert(r@ =~= s@.subrange(i + 1, k as int));
            }
            assert(r@ =~= domain_of(s@));
            return r;
        }
    }
    let r: Vec<u8> = Vec::new();
    assert(r@ =~= domain_of(s@));
    r
}

/// Byte-sequence equality as an executable check.
pub fn bytes_eq(a: &Vec<u8>, b: &[u8]) -> (r: bool)
    ensures
        r == (a@ =~= b@),
{
    if a.len() != b.len() {
        return false;
    }
    let mut i: usize = 0;
    while i < a.len()
        invariant
            i <= a@.len(),
            a@.len() == b@.len(),
            forall|j: int| 0 <= j < i ==> a@[j] == b@[j],
        decreases a@.len() - i,
    {
        if a[i] != b[i] {
            return false;
        }
        i = i + 1;
    }
    assert(a@ =~= b@);
    true
}

/// Linear scan for one byte.
pub fn contains_byte(v: &Vec<u8>, b: u8) -> (r: bool)
    ensures
        r == exists|i: int| 0 <= i < v@.len() && v@[i] == b,
{
    let mut i: usize = 0;
    while i < v.len()
        invariant
            i <= v@.len(),
            forall|j: int| 0 <= j < i ==> v@[j] != b,
        decreases v@.len() - i,
    {
        if v[i] == b {
            return true;
        }
        i = i + 1;
    }
    false
}

/// True when every byte of `s` is ASCII.
pub open spec fn all_ascii(s: Seq<u8>) -> bool {
    forall|i: int| 0 <= i < s.len() ==> s[i] < 128
}

/// Relies on `String::from_utf8`: it succeeds exactly on valid UTF-8, and
/// the text it returns is the decoding of those octets.
#[verifier::external_body]
pub fn utf8_to_string(v: &Vec<u8>) -> (r: Option<String>)
    ensures
        r is Some <==> vstd::utf8::valid_utf8(v@),
        r matches Some(s) ==> s@ == vstd::utf8::decode_utf8(v@),
{
    match String::from_utf8(v.clone()) {
        Ok(s) => Some(s),
        Err(_) => None,
    }
}

/// Relies on `String::from_utf8`: ASCII bytes are valid UTF-8 and decode to
/// the characters with the same code points.
#[verifier::external_body]
pub fn ascii_to_string(v: &Vec<u8>) -> (r: String)
    requires
        all_ascii(v@),
    ensures
        r@.len() == v@.len(),
        forall|i: int| 0 <= i < v@.len() ==> r@[i] == v@[i] as char,
{
    String::from_utf8(v.clone()).unwrap_or_default()
}

/// Decimal representation of `n`, most significant digit first.
pub open spec fn dec_bytes(n: nat) -> Seq<u8>
    decreases n,
{
    if n < 10 {
        seq![(48 + n) as u8]
    } else {
        dec_bytes(n / 10) + seq![(48 + n % 10) as u8]
    }
}

/// Appends the decimal digits of `n` to `out`.
pub fn push_dec(n: u64, out: &mut Vec<u8>)
    ensures
        final(out)@ == old(out)@ + dec_bytes(n as nat),
    decreases n,
{
    if n >= 10 {
        push_dec(n / 10, out);
    }
    out.push((n % 10) as u8 + 48);
    assert(final(out)@ =~= old(out)@ + dec_bytes(n as nat));
}

/// Decimal digits are ASCII.
pub proof fn lemma_dec_bytes_all_ascii(n: nat)
    ensures
        all_ascii(dec_bytes(n)),
    decreases n,
{
    if n >= 10 {
        lemma_dec_bytes_all_ascii(n / 10);
    }
}

/// Renders `n` in decimal as a `String`.
pub fn dec_string(n: u64) -> (r: String)
    ensures
        r@.len() == dec_bytes(n as nat).len(),
        forall|i: int| 0 <= i < r@.len() ==> r@[i] == dec_bytes(n as nat)[i] as char,
{
    let mut v: Vec<u8> = Vec::new();
    push_dec(n, &mut v);
    proof {
        lemma_dec_bytes_all_ascii(n as nat);
    }
    ascii_to_string(&v)
}

/// Decimal digits of `n`, with a leading minus sign when `n` is negative.
pub open spec fn signed_dec_bytes(n: int) -> Seq<u8> {
    if n < 0 {
        seq![45u8] + dec_bytes((-n) as nat)
    } else {
        dec_bytes(n as nat)
    }
}

/// Appends the decimal digits of `n`, sign included, to `out`.
pub fn push_signed_dec(n: i64, out: &mut Vec<u8>)
    ensures
        final(out)@ == old(out)@ + signed_dec_bytes(n as int),
{
    if n < 0 {
        out.push(45);
        let m: u64 = if n == i64::MIN {
            9223372036854775808u64
        } else {
            (-n) as u64
        };
        push_dec(m, out);
        assert(final(out)@ =~= old(out)@ + signed_dec_bytes(n as int));
    } else {
        push_dec(n as u64, out);
    }
}

} // verus!

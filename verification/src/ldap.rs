//! Directory back-end support types: search-filter construction with RFC
//! 4515 escaping, bind credentials, attribute mappings, and a readable
//! rendering of BER structure tags as they come back from a directory
//! search.

use vstd::prelude::*;

use vstd::string::StringExecFns;

use crate::session::dec_chars;
use crate::text::dec_string;

verus! {

/// Bind credentials for a directory connection.
pub struct Bind {
    pub dn: String,
    pub password: String,
}

impl Bind {
    pub fn new(dn: String, password: String) -> (r: Bind)
        ensures
            r.dn == dn,
            r.password == password,
    {
        Bind { dn, password }
    }
}

/// How directory entries map onto principals: the search base, the filters
/// and the attribute names for each field of interest.
#[derive(Default)]
pub struct LdapMappings {
    pub base_dn: Vec<u8>,
    pub filter_name: LdapFilter,
    pub filter_email: LdapFilter,
    pub attr_name: Vec<Vec<u8>>,
    pub attr_type: Vec<Vec<u8>>,
    pub attr_groups: Vec<Vec<u8>>,
    pub attr_description: Vec<Vec<u8>>,
    pub attr_secret: Vec<Vec<u8>>,
    pub attr_email_address: Vec<Vec<u8>>,
    pub attr_email_alias: Vec<Vec<u8>>,
    pub attr_quota: Vec<Vec<u8>>,
    pub attrs_principal: Vec<Vec<u8>>,
}

/// The octets standing in for one filter octet: `(`, `)`, `*`, `\` and NUL
/// become a backslash escape with two hex digits, everything else stays.
pub open spec fn escape_byte(b: u8) -> Seq<u8> {
    if b == 42 {
        seq![92u8, 50u8, 97u8]
    } else if b == 40 {
        seq![92u8, 50u8, 56u8]
    } else if b == 41 {
        seq![92u8, 50u8, 57u8]
    } else if b == 92 {
        seq![92u8, 53u8, 99u8]
    } else if b == 0 {
        seq![92u8, 48u8, 48u8]
    } else {
        seq![b]
    }
}

/// RFC 4515 escaping of a whole value.
pub open spec fn escape_bytes(s: Seq<u8>) -> Seq<u8>
    decreases s.len(),
{
    if s.len() == 0 {
        Seq::empty()
    } else {
        escape_byte(s[0]) + escape_bytes(s.drop_first())
    }
}

proof fn lemma_escape_push(s: Seq<u8>, b: u8)
    ensures
        escape_bytes(s.push(b)) =~= escape_bytes(s) + escape_byte(b),
    decreases s.len(),
{
    if s.len() == 0 {
        assert(s.push(b).drop_first() =~= Seq::<u8>::empty());
        assert(s.push(b)[0] == b);
        assert(escape_bytes(s.push(b)) == escape_byte(b) + escape_bytes(
            s.push(b).drop_first(),
        ));
        assert(escape_bytes(s.push(b)) =~= escape_bytes(s) + escape_byte(b));
    } else {
        assert(s.push(b)[0] == s[0]);
        assert(s.push(b).drop_first() =~= s.drop_first().push(b));
        lemma_escape_push(s.drop_first(), b);
        assert(escape_bytes(s.push(b)) == escape_byte(s[0]) + escape_bytes(
            s.drop_first().push(b),
        ));
        assert(escape_bytes(s) == escape_byte(s[0]) + escape_bytes(s.drop_first()));
        assert(escape_bytes(s.push(b)) =~= escape_bytes(s) + escape_byte(b));
    }
}

/// Joins `parts` with `sep` between them, the usual way.
pub open spec fn join_with<T>(parts: Seq<Seq<T>>, sep: Seq<T>) -> Seq<T>
    decreases parts.len(),
{
    if parts.len() == 0 {
        Seq::empty()
    } else if parts.len() == 1 {
        parts[0]
    } else {
        parts[0] + sep + join_with(parts.drop_first(), sep)
    }
}

proof fn lemma_join_push<T>(parts: Seq<Seq<T>>, sep: Seq<T>, next: Seq<T>)
    requires
        parts.len() >= 1,
    ensures
        join_with(parts.push(next), sep) =~= join_with(parts, sep) + sep + next,
    decreases parts.len(),
{
    if parts.len() == 1 {
        assert(parts.push(next)[0] == parts[0]);
        assert(parts.push(next).drop_first() =~= seq![next]);
        assert(join_with(seq![next], sep) == next);
        assert(join_with(parts.push(next), sep) == parts[0] + sep + join_with(
            parts.push(next).drop_first(),
            sep,
        ));
        assert(join_with(parts.push(next), sep) =~= join_with(parts, sep) + sep + next);
    } else {
        assert(parts.push(next)[0] == parts[0]);
        assert(parts.push(next).drop_first() =~= parts.drop_first().push(next));
        lemma_join_push(parts.drop_first(), sep, next);
        assert(join_with(parts.push(next), sep) == parts[0] + sep + join_with(
            parts.drop_first().push(next),
            sep,
        ));
        assert(join_with(parts, sep) == parts[0] + sep + join_with(parts.drop_first(), sep));
        assert(join_with(parts.push(next), sep) =~= join_with(parts, sep) + sep + next);
    }
}

/// One search filter, kept as the fixed parts around the value hole.
#[derive(Default)]
pub struct LdapFilter {
    pub filter: Vec<Vec<u8>>,
}

impl LdapFilter {
    /// Fills the filter's hole with the escaped value: the fixed parts
    /// joined with the RFC 4515 escape of `value` between them.
    pub fn build(&self, value: &Vec<u8>) -> (r: Vec<u8>)
        ensures
            r@ == join_with(
                self.filter@.map_values(|p: Vec<u8>| p@),
                escape_bytes(value@),
            ),
    {
        let mut sep: Vec<u8> = Vec::new();
        let mut i: usize = 0;
        while i < value.len()
            invariant
                i <= value@.len(),
                sep@ == escape_bytes(value@.subrange(0, i as int)),
            decreases value@.len() - i,
        {
            let b: u8 = value[i];
            proof {
                lemma_escape_push(value@.subrange(0, i as int), b);
                assert(value@.subrange(0, i as int).push(b) =~= value@.subrange(0, i + 1));
            }
            if b == 42 {
                sep.push(92);
                sep.push(50);
                sep.push(97);
            } else if b == 40 {
                sep.push(92);
                sep.push(50);
                sep.push(56);
            } else if b == 41 {
                sep.push(92);
                sep.push(50);
                sep.push(57);
            } else if b == 92 {
                sep.push(92);
                sep.push(53);
                sep.push(99);
            } else if b == 0 {
                sep.push(92);
                sep.push(48);
                sep.push(48);
            } else {
                sep.push(b);
            }
            i = i + 1;
            assert(sep@ =~= escape_bytes(value@.subrange(0, i as int)));
        }
        proof {
            assert(value@.subrange(0, value@.len() as int) =~= value@);
        }
        let ghost parts = self.filter@.map_values(|p: Vec<u8>| p@);
        let mut r: Vec<u8> = Vec::new();
        if self.filter.len() == 0 {
            assert(r@ =~= join_with(parts, sep@));
            return r;
        }
        let mut j: usize = 0;
        while j < self.filter.len()
            invariant
                j <= self.filter@.len(),
                self.filter@.len() >= 1,
                parts == self.filter@.map_values(|p: Vec<u8>| p@),
                j == 0 ==> r@.len() == 0,
                j >= 1 ==> r@ == join_with(parts.subrange(0, j as int), sep@),
            decreases self.filter@.len() - j,
        {
            if j > 0 {
                let mut k: usize = 0;
                while k < sep.len()
                    invariant
                        k <= sep@.len(),
                        r@ == join_with(parts.subrange(0, j as int), sep@) + sep@.subrange(
                            0,
                            k as int,
                        ),
                    decreases sep@.len() - k,
                {
                    r.push(sep[k]);
                    k = k + 1;
                    assert(r@ =~= join_with(parts.subrange(0, j as int), sep@) + sep@.subrange(
                        0,
                        k as int,
                    ));
                }
                proof {
                    assert(sep@.subrange(0, sep@.len() as int) =~= sep@);
                }
            }
            let part = &self.filter[j];
            let mut k: usize = 0;
            while k < part.len()
                invariant
                    k <= part@.len(),
                    part@ == self.filter@[j as int]@,
                    j < self.filter@.len(),
                    parts == self.filter@.map_values(|p: Vec<u8>| p@),
                    j == 0 ==> r@ == part@.subrange(0, k as int),
                    j >= 1 ==> r@ == join_with(parts.subrange(0, j as int), sep@) + sep@
                        + part@.subrange(0, k as int),
                decreases part@.len() - k,
            {
                r.push(part[k]);
                k = k + 1;
                proof {
                    if j == 0 {
                        assert(r@ =~= part@.subrange(0, k as int));
                    } else {
                        assert(r@ =~= join_with(parts.subrange(0, j as int), sep@) + sep@
                            + part@.subrange(0, k as int));
                    }
                }
            }
            proof {
                assert(part@.subrange(0, part@.len() as int) =~= part@);
                if j == 0 {
                    assert(parts.subrange(0, 1) =~= seq![parts[0]]);
                    assert(join_with(parts.subrange(0, 1), sep@) == parts[0]);
                    assert(r@ =~= join_with(parts.subrange(0, 1), sep@));
                } else {
                    lemma_join_push(parts.subrange(0, j as int), sep@, parts[j as int]);
                    assert(parts.subrange(0, j as int).push(parts[j as int]) =~= parts.subrange(
                        0,
                        j + 1,
                    ));
                    assert(r@ =~= join_with(parts.subrange(0, j + 1), sep@));
                }
            }
            j = j + 1;
        }
        proof {
            assert(parts.subrange(0, parts.len() as int) =~= parts);
        }
        r
    }
}

/// BER tag class, as a directory search returns it.
#[derive(Clone, Copy, PartialEq, Eq, Structural)]
pub enum TagClass {
    Universal,
    Application,
    Context,
    Private,
}

/// A BER payload: raw octets, or nested tags.
pub enum TagPayload {
    Primitive(Vec<u8>),
    Constructed(Vec<StructureTag>),
}

/// One BER structure tag out of a directory search result.
pub struct StructureTag {
    pub class: TagClass,
    pub id: u64,
    pub payload: TagPayload,
}

/// One entry of a directory search result: its outermost structure tag.
pub struct ResultEntry(pub StructureTag);

impl ResultEntry {
    pub fn new(tag: StructureTag) -> (r: ResultEntry)
        ensures
            r.0 == tag,
    {
        ResultEntry(tag)
    }
}

/// The class names, spelled as the wire library debug-prints them.
pub open spec fn class_text(c: TagClass) -> Seq<char> {
    match c {
        TagClass::Universal => "Universal"@,
        TagClass::Application => "Application"@,
        TagClass::Context => "Context"@,
        TagClass::Private => "Private"@,
    }
}

/// The rendering of one structure tag: the class and id labelled, then the
/// payload, inside one braced group.
pub open spec fn tag_text(t: StructureTag) -> Seq<char>
    decreases t,
{
    "StructureTag { class: "@ + class_text(t.class) + ", id: "@ + dec_chars(t.id as nat)
        + payload_text(t.payload) + "}"@
}

/// The rendering of a payload: a primitive payload that is valid UTF-8 is
/// quoted as the text it decodes to, any other primitive payload is a
/// bracketed decimal octet list, and a constructed payload is the bracketed
/// nested renderings.
pub open spec fn payload_text(p: TagPayload) -> Seq<char>
    decreases p,
{
    match p {
        TagPayload::Primitive(data) => if vstd::utf8::valid_utf8(data@) {
            ", payload: \""@ + vstd::utf8::decode_utf8(data@) + "\""@
        } else {
            ", payload: ["@ + join_with(dec_texts(data@), ", "@) + "]"@
        },
        TagPayload::Constructed(tags) => ", payload: ["@ + join_with(tag_texts(tags@), ", "@)
            + "]"@,
    }
}

/// Each octet rendered in decimal.
pub open spec fn dec_texts(d: Seq<u8>) -> Seq<Seq<char>>
    decreases d.len(),
{
    if d.len() == 0 {
        Seq::empty()
    } else {
        seq![dec_chars(d[0] as nat)] + dec_texts(d.drop_first())
    }
}

/// Each tag rendered.
pub open spec fn tag_texts(ts: Seq<StructureTag>) -> Seq<Seq<char>>
    decreases ts,
{
    if ts.len() == 0 {
        Seq::empty()
    } else {
        seq![tag_text(ts[0])] + tag_texts(ts.drop_first())
    }
}

proof fn lemma_dec_texts_snoc(d: Seq<u8>, b: u8)
    ensures
        dec_texts(d.push(b)) =~= dec_texts(d).push(dec_chars(b as nat)),
        dec_texts(d).len() == d.len(),
    decreases d.len(),
{
    if d.len() == 0 {
        assert(d.push(b)[0] == b);
        assert(d.push(b).drop_first() =~= Seq::<u8>::empty());
        assert(d =~= Seq::<u8>::empty());
        assert(dec_texts(d) =~= Seq::<Seq<char>>::empty());
        assert(dec_texts(d.push(b)) =~= dec_texts(d).push(dec_chars(b as nat)));
    } else {
        assert(d.push(b)[0] == d[0]);
        assert(d.push(b).drop_first() =~= d.drop_first().push(b));
        lemma_dec_texts_snoc(d.drop_first(), b);
        assert(dec_texts(d.push(b)) == seq![dec_chars(d[0] as nat)] + dec_texts(
            d.drop_first().push(b),
        ));
        assert(dec_texts(d) == seq![dec_chars(d[0] as nat)] + dec_texts(d.drop_first()));
        assert(dec_texts(d.push(b)) =~= dec_texts(d).push(dec_chars(b as nat)));
    }
}

proof fn lemma_tag_texts_snoc(ts: Seq<StructureTag>, t: StructureTag)
    ensures
        tag_texts(ts.push(t)) =~= tag_texts(ts).push(tag_text(t)),
        tag_texts(ts).len() == ts.len(),
    decreases ts.len(),
{
    if ts.len() == 0 {
        assert(ts.push(t)[0] == t);
        assert(ts.push(t).drop_first() =~= Seq::<StructureTag>::empty());
        assert(ts =~= Seq::<StructureTag>::empty());
        assert(tag_texts(ts) =~= Seq::<Seq<char>>::empty());
        assert(tag_texts(ts.push(t)) =~= tag_texts(ts).push(tag_text(t)));
    } else {
        assert(ts.push(t)[0] == ts[0]);
        assert(ts.push(t).drop_first() =~= ts.drop_first().push(t));
        lemma_tag_texts_snoc(ts.drop_first(), t);
        assert(tag_texts(ts.push(t)) == seq![tag_text(ts[0])] + tag_texts(
            ts.drop_first().push(t),
        ));
        assert(tag_texts(ts) == seq![tag_text(ts[0])] + tag_texts(ts.drop_first()));
        assert(tag_texts(ts.push(t)) =~= tag_texts(ts).push(tag_text(t)));
    }
}

/// Renders one structure tag after whatever `out` already holds: exactly
/// [`tag_text`] is appended.
#[verifier::rlimit(60)]
pub fn format_structure_tag(tag: &StructureTag, out: &mut String)
    ensures
        final(out)@ == old(out)@ + tag_text(*tag),
    decreases *tag,
{
    out.append("StructureTag { class: ");
    match tag.class {
        TagClass::Universal => out.append("Universal"),
        TagClass::Application => out.append("Application"),
        TagClass::Context => out.append("Context"),
        TagClass::Private => out.append("Private"),
    }
    out.append(", id: ");
    let id_digits = dec_string(tag.id);
    proof {
        assert(id_digits@ =~= dec_chars(tag.id as nat));
    }
    out.append(id_digits.as_str());
    let ghost head = old(out)@ + "StructureTag { class: "@ + class_text(tag.class) + ", id: "@
        + dec_chars(tag.id as nat);
    assert(out@ =~= head);
    match &tag.payload {
        TagPayload::Primitive(data) => {
            match crate::text::utf8_to_string(data) {
                Some(decoded) => {
                    out.append(", payload: \"");
                    out.append(decoded.as_str());
                    out.append("\"");
                    proof {
                        assert(out@ =~= head + payload_text(tag.payload));
                    }
                },
                None => {
                    out.append(", payload: [");
                    let ghost pre = out@;
                    proof {
                        assert(dec_texts(data@.subrange(0, 0)) =~= Seq::<Seq<char>>::empty());
                        assert(out@ =~= pre + join_with(
                            dec_texts(data@.subrange(0, 0)),
                            ", "@,
                        ));
                    }
                    let mut k: usize = 0;
                    while k < data.len()
                        invariant
                            k <= data@.len(),
                            out@ == pre + join_with(dec_texts(data@.subrange(0, k as int)), ", "@),
                        decreases data@.len() - k,
                    {
                        if k > 0 {
                            out.append(", ");
                        }
                        let digits = dec_string(data[k] as u64);
                        proof {
                            assert(digits@ =~= dec_chars(data@[k as int] as nat));
                        }
                        out.append(digits.as_str());
                        proof {
                            lemma_dec_texts_snoc(data@.subrange(0, k as int), data@[k as int]);
                            assert(data@.subrange(0, k as int).push(data@[k as int])
                                =~= data@.subrange(0, k + 1));
                            if k == 0 {
                                assert(dec_texts(data@.subrange(0, 1)) =~= seq![
                                    dec_chars(data@[0] as nat),
                                ]);
                                assert(out@ =~= pre + join_with(
                                    dec_texts(data@.subrange(0, 1)),
                                    ", "@,
                                ));
                            } else {
                                lemma_join_push(
                                    dec_texts(data@.subrange(0, k as int)),
                                    ", "@,
                                    dec_chars(data@[k as int] as nat),
                                );
                                assert(out@ =~= pre + join_with(
                                    dec_texts(data@.subrange(0, k + 1)),
                                    ", "@,
                                ));
                            }
                        }
                        k = k + 1;
                    }
                    out.append("]");
                    proof {
                        assert(data@.subrange(0, data@.len() as int) =~= data@);
                        assert(out@ =~= head + payload_text(tag.payload));
                    }
                },
            }
        },
        TagPayload::Constructed(tags) => {
            out.append(", payload: [");
            let ghost pre = out@;
            proof {
                assert(tag_texts(tags@.subrange(0, 0)) =~= Seq::<Seq<char>>::empty());
                assert(out@ =~= pre + join_with(tag_texts(tags@.subrange(0, 0)), ", "@));
            }
            let mut k: usize = 0;
            while k < tags.len()
                invariant
                    k <= tags@.len(),
                    tag.payload is Constructed,
                    tag.payload->Constructed_0 == *tags,
                    out@ == pre + join_with(tag_texts(tags@.subrange(0, k as int)), ", "@),
                decreases tags@.len() - k, 0int,
            {
                if k > 0 {
                    out.append(", ");
                }
                proof {
                    assert(tag.payload is Constructed);
                    assert(tag.payload->Constructed_0 == *tags);
                    assert(decreases_to!(*tag => tag.payload));
                    assert(decreases_to!(tag.payload => tag.payload->Constructed_0));
                    assert(decreases_to!(*tags => tags[k as int]));
                }
                format_structure_tag(&tags[k], out);
                proof {
                    lemma_tag_texts_snoc(tags@.subrange(0, k as int), tags@[k as int]);
                    assert(tags@.subrange(0, k as int).push(tags@[k as int]) =~= tags@.subrange(
                        0,
                        k + 1,
                    ));
                    if k == 0 {
                        assert(tag_texts(tags@.subrange(0, 1)) =~= seq![
                            tag_text(tags@[0]),
                        ]);
                        assert(out@ =~= pre + join_with(
                            tag_texts(tags@.subrange(0, 1)),
                            ", "@,
                        ));
                    } else {
                        lemma_join_push(
                            tag_texts(tags@.subrange(0, k as int)),
                            ", "@,
                            tag_text(tags@[k as int]),
                        );
                        assert(out@ =~= pre + join_with(
                            tag_texts(tags@.subrange(0, k + 1)),
                            ", "@,
                        ));
                    }
                }
                k = k + 1;
            }
            out.append("]");
            proof {
                assert(tags@.subrange(0, tags@.len() as int) =~= tags@);
                assert(out@ =~= head + payload_text(tag.payload));
            }
        },
    }
    out.append("}");
    assert(out@ =~= old(out)@ + tag_text(*tag));
}

/// A search-result entry, rendered for a log line.
pub struct DisplayableResultEntry<'a>(pub &'a ResultEntry);

impl<'a> DisplayableResultEntry<'a> {
    /// The rendering of the entry's outermost tag: exactly [`tag_text`].
    pub fn display_string(&self) -> (r: String)
        ensures
            r@ == tag_text(self.0.0),
    {
        let mut out = String::new();
        format_structure_tag(&self.0.0, &mut out);
        out
    }
}

/// A structure tag, rendered for a log line.
pub struct DisplayableStructureTag<'a>(pub &'a StructureTag);

impl<'a> DisplayableStructureTag<'a> {
    /// The rendering of the tag, nested payloads included: exactly
    /// [`tag_text`].
    pub fn display_string(&self) -> (r: String)
        ensures
            r@ == tag_text(*self.0),
    {
        let mut out = String::new();
        format_structure_tag(self.0, &mut out);
        out
    }
}

} // verus!

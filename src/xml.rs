//! XML events as the library sees them. Reading markup is left to
//! `quick_xml`; writing and escaping belong to the document format here.
use vstd::prelude::*;
use crate::text::push_char;
use quick_xml::events::attributes::Attributes;
use quick_xml::events::Event;
use quick_xml::Reader;

verus! {

/// The kind of a markup event.
#[derive(Debug, Clone, Copy, PartialEq, Eq, Structural)]
pub enum XmlEventKind {
    Start,
    Empty,
    End,
    Text,
    CData,
    Comment,
    /// A declaration, processing instruction or doctype.
    Other,
}

/// A markup event with its raw content: for a tag, its name and attributes
/// as written; for text, the text as written (escaped).
pub struct XmlEvent {
    pub kind: XmlEventKind,
    pub raw: String,
}

pub open spec fn event_views(v: Seq<XmlEvent>) -> Seq<(XmlEventKind, Seq<char>)> {
    v.map_values(|e: XmlEvent| (e.kind, e.raw@))
}

pub open spec fn pair_views(v: Seq<(String, String)>) -> Seq<(Seq<char>, Seq<char>)> {
    v.map_values(|p: (String, String)| (p.0@, p.1@))
}

/// The events that `quick_xml` reads from a document, with surrounding
/// whitespace of text trimmed, up to the end; `None` where it reports an error.
pub uninterp spec fn xml_events_of(s: Seq<char>) -> Option<Seq<(XmlEventKind, Seq<char>)>>;

/// The attributes that `quick_xml` reads from a tag's raw content, whose
/// name is the first `name_len` characters, with values unescaped.
pub uninterp spec fn attributes_of(raw: Seq<char>, name_len: nat) -> Option<Seq<(Seq<char>, Seq<char>)>>;

/// The text that `quick_xml` unescapes from escaped text.
pub uninterp spec fn unescaped_of(s: Seq<char>) -> Option<Seq<char>>;

/// Relies on `quick_xml::Reader::read_event` with text trimming, read to the
/// end of the input, and on `Deref` of `Event` for the raw content.
#[verifier::external_body]
pub(crate) fn xml_events(s: &str) -> (r: Option<Vec<XmlEvent>>)
    ensures
        r is Some <==> xml_events_of(s@) is Some,
        r matches Some(v) ==> event_views(v@) == xml_events_of(s@)->0,
{
    let mut reader = Reader::from_str(s);
    reader.trim_text(true);
    let mut out = Vec::new();
    loop {
        let ev = reader.read_event().ok()?;
        let kind = match ev {
            Event::Start(_) => XmlEventKind::Start, Event::Empty(_) => XmlEventKind::Empty,
            Event::End(_) => XmlEventKind::End, Event::Text(_) => XmlEventKind::Text,
            Event::CData(_) => XmlEventKind::CData, Event::Comment(_) => XmlEventKind::Comment,
            Event::Eof => return Some(out), _ => XmlEventKind::Other,
        };
        out.push(XmlEvent { kind, raw: String::from_utf8_lossy(&ev).into_owned() });
    }
}

/// Relies on `quick_xml`'s `Attributes` iterator over a tag's content and on
/// `Attribute::unescape_value`.
#[verifier::external_body]
pub(crate) fn tag_attributes(raw: &str, name_len: usize) -> (r: Option<Vec<(String, String)>>)
    ensures
        r is Some <==> attributes_of(raw@, name_len as nat) is Some,
        r matches Some(v) ==> pair_views(v@) == attributes_of(raw@, name_len as nat)->0,
{
    let pos = raw.char_indices().nth(name_len).map_or(raw.len(), |(b, _)| b);
    Attributes::new(raw, pos)
        .map(|a| {
            let a = a.ok()?;
            let value = a.unescape_value().ok()?.into_owned();
            Some((String::from_utf8_lossy(a.key.as_ref()).into_owned(), value))
        })
        .collect()
}

/// Whether text holds an `&`, the start of a reference.
pub open spec fn has_ampersand(s: Seq<char>) -> bool {
    s.contains('&')
}

/// Relies on `quick_xml::escape::unescape`, which replaces each `&...;`
/// reference and leaves text without one unchanged.
#[verifier::external_body]
pub(crate) fn unescape_xml(s: &str) -> (r: Option<String>)
    ensures
        r is Some <==> unescaped_of(s@) is Some,
        r matches Some(t) ==> t@ == unescaped_of(s@)->0,
        !has_ampersand(s@) ==> r is Some,
        r matches Some(t) ==> (!has_ampersand(s@) ==> t@ == s@),
{
    quick_xml::escape::unescape(s).ok().map(|c| c.into_owned())
}

/// XML whitespace.
pub open spec fn is_xml_space(c: char) -> bool {
    c == ' ' || c == '\t' || c == '\n' || c == '\r'
}

/// Unicode whitespace (the `White_Space` property), as `char::is_whitespace`
/// and `str::trim` use it.
pub open spec fn is_unicode_space(c: char) -> bool {
    ('\u{9}' <= c && c <= '\u{d}') || c == ' ' || c == '\u{85}' || c == '\u{a0}' || c == '\u{1680}'
        || ('\u{2000}' <= c && c <= '\u{200a}') || c == '\u{2028}' || c == '\u{2029}'
        || c == '\u{202f}' || c == '\u{205f}' || c == '\u{3000}'
}

/// Whether a character is Unicode whitespace.
pub fn unicode_space(c: char) -> (r: bool)
    ensures
        r == is_unicode_space(c),
{
    ('\u{9}' <= c && c <= '\u{d}') || c == ' ' || c == '\u{85}' || c == '\u{a0}' || c == '\u{1680}'
        || ('\u{2000}' <= c && c <= '\u{200a}') || c == '\u{2028}' || c == '\u{2029}'
        || c == '\u{202f}' || c == '\u{205f}' || c == '\u{3000}'
}

/// Whether every character is whitespace: what `str::trim` leaves empty.
pub open spec fn all_space(s: Seq<char>) -> bool {
    forall|i: int| 0 <= i < s.len() ==> is_unicode_space(#[trigger] s[i])
}

/// Whether `s` holds nothing but whitespace.
pub fn is_blank(s: &str) -> (r: bool)
    ensures
        r == all_space(s@),
{
    let n = s.unicode_len();
    let mut i: usize = 0;
    while i < n
        invariant
            n == s@.len(),
            i <= n,
            forall|j: int| 0 <= j < i ==> is_unicode_space(#[trigger] s@[j]),
        decreases n - i,
    {
        if !unicode_space(s.get_char(i)) {
            return false;
        }
        i = i + 1;
    }
    true
}

/// `v` without leading whitespace.
pub open spec fn trim_start(v: Seq<char>) -> Seq<char>
    decreases v.len(),
{
    if v.len() > 0 && is_unicode_space(v[0]) {
        trim_start(v.skip(1))
    } else {
        v
    }
}

/// `v` without trailing whitespace.
pub open spec fn trim_end(v: Seq<char>) -> Seq<char>
    decreases v.len(),
{
    if v.len() > 0 && is_unicode_space(v.last()) {
        trim_end(v.drop_last())
    } else {
        v
    }
}

/// `v` without surrounding whitespace.
pub open spec fn trimmed(v: Seq<char>) -> Seq<char> {
    trim_end(trim_start(v))
}

/// `v` without surrounding whitespace.
pub fn trim_text(v: &str) -> (r: String)
    ensures
        r@ == trimmed(v@),
{
    let n = v.unicode_len();
    let mut i: usize = 0;
    assert(v@.skip(0) =~= v@);
    while i < n && unicode_space(v.get_char(i))
        invariant
            n == v@.len(),
            i <= n,
            trim_start(v@) == trim_start(v@.skip(i as int)),
        decreases n - i,
    {
        assert(v@.skip(i as int).skip(1) =~= v@.skip(i + 1));
        assert(v@.skip(i as int)[0] == v@[i as int]);
        i = i + 1;
    }
    if i < n {
        assert(v@.skip(i as int)[0] == v@[i as int]);
    }
    let t = v.substring_char(i, n);
    assert(t@ =~= v@.skip(i as int));
    assert(trim_start(v@) == t@);
    let m = t.unicode_len();
    let mut j: usize = m;
    assert(t@.subrange(0, m as int) =~= t@);
    while j > 0 && unicode_space(t.get_char(j - 1))
        invariant
            m == t@.len(),
            j <= m,
            trim_end(t@) == trim_end(t@.subrange(0, j as int)),
        decreases j,
    {
        assert(t@.subrange(0, j as int).drop_last() =~= t@.subrange(0, j - 1));
        assert(t@.subrange(0, j as int).last() == t@[j - 1]);
        j = j - 1;
    }
    if j > 0 {
        assert(t@.subrange(0, j as int).last() == t@[j - 1]);
    }
    crate::text::string_of(t.substring_char(0, j))
}

/// Whether `n` is the length of the name at the start of a tag's raw
/// content: the characters before the first whitespace.
pub open spec fn is_name_length(raw: Seq<char>, n: int) -> bool {
    &&& 0 <= n <= raw.len()
    &&& forall|j: int| 0 <= j < n ==> !is_xml_space(#[trigger] raw[j])
    &&& n < raw.len() ==> is_xml_space(raw[n])
}

/// The length of the name at the start of a tag's raw content.
pub fn name_length(raw: &str) -> (r: usize)
    ensures
        is_name_length(raw@, r as int),
{
    let n = raw.unicode_len();
    let mut i: usize = 0;
    while i < n
        invariant
            n == raw@.len(),
            i <= n,
            forall|j: int| 0 <= j < i ==> !is_xml_space(#[trigger] raw@[j]),
        decreases n - i,
    {
        let c = raw.get_char(i);
        if c == ' ' || c == '\t' || c == '\n' || c == '\r' {
            return i;
        }
        i = i + 1;
    }
    n
}

/// The escaped form of one character.
pub open spec fn escape_char(c: char) -> Seq<char> {
    if c == '&' {
        "&amp;"@
    } else if c == '<' {
        "&lt;"@
    } else if c == '>' {
        "&gt;"@
    } else if c == '"' {
        "&quot;"@
    } else if c == '\'' {
        "&apos;"@
    } else {
        seq![c]
    }
}

/// Text with the five markup characters replaced by their references.
pub open spec fn escaped(s: Seq<char>) -> Seq<char>
    decreases s.len(),
{
    if s.len() == 0 {
        Seq::empty()
    } else {
        escaped(s.drop_last()) + escape_char(s.last())
    }
}

/// Appends `t` with markup characters escaped.
pub fn push_escaped(s: &mut String, t: &str)
    ensures
        final(s)@ == old(s)@ + escaped(t@),
{
    let n = t.unicode_len();
    let mut i: usize = 0;
    while i < n
        invariant
            n == t@.len(),
            i <= n,
            s@ == old(s)@ + escaped(t@.subrange(0, i as int)),
        decreases n - i,
    {
        let c = t.get_char(i);
        let ghost before = s@;
        assert(t@.subrange(0, i + 1).drop_last() =~= t@.subrange(0, i as int));
        if c == '&' {
            crate::text::push_str(s, "&amp;");
        } else if c == '<' {
            crate::text::push_str(s, "&lt;");
        } else if c == '>' {
            crate::text::push_str(s, "&gt;");
        } else if c == '"' {
            crate::text::push_str(s, "&quot;");
        } else if c == '\'' {
            crate::text::push_str(s, "&apos;");
        } else {
            push_char(s, c);
            assert(seq![c] =~= escape_char(c));
        }
        assert(s@ =~= old(s)@ + escaped(t@.subrange(0, i + 1)));
        i = i + 1;
    }
    assert(t@.subrange(0, n as int) =~= t@);
}

/// A character at either end of element text: whitespace there is written
/// as a character reference, so that trimming of text keeps it.
pub open spec fn end_escape(c: char) -> Seq<char> {
    if c == ' ' {
        "&#32;"@
    } else if c == '\t' {
        "&#9;"@
    } else if c == '\n' {
        "&#10;"@
    } else if c == '\r' {
        "&#13;"@
    } else {
        escape_char(c)
    }
}

/// Element text as written: markup characters escaped, and whitespace at
/// either end written as a character reference.
pub open spec fn text_escaped(s: Seq<char>) -> Seq<char> {
    if s.len() == 0 {
        Seq::empty()
    } else if s.len() == 1 {
        end_escape(s[0])
    } else {
        end_escape(s[0]) + escaped(s.subrange(1, s.len() - 1)) + end_escape(s.last())
    }
}

fn push_end_escaped(s: &mut String, c: char)
    ensures
        final(s)@ == old(s)@ + end_escape(c),
{
    if c == ' ' {
        crate::text::push_str(s, "&#32;");
    } else if c == '\t' {
        crate::text::push_str(s, "&#9;");
    } else if c == '\n' {
        crate::text::push_str(s, "&#10;");
    } else if c == '\r' {
        crate::text::push_str(s, "&#13;");
    } else {
        let t = crate::text::string_of_char(c);
        push_escaped(s, t.as_str());
        assert(t@.subrange(0, 0) =~= Seq::<char>::empty());
        assert(t@.drop_last() =~= Seq::<char>::empty());
        assert(escaped(Seq::<char>::empty()) =~= Seq::<char>::empty());
        assert(escaped(t@) =~= escape_char(c));
    }
}

/// Appends element text, escaped as `text_escaped` says.
pub fn push_text_escaped(s: &mut String, t: &str)
    ensures
        final(s)@ == old(s)@ + text_escaped(t@),
{
    let n = t.unicode_len();
    if n == 0 {
        assert(old(s)@ + text_escaped(t@) =~= old(s)@);
        return;
    }
    push_end_escaped(s, t.get_char(0));
    if n > 1 {
        push_escaped(s, t.substring_char(1, n - 1));
        push_end_escaped(s, t.get_char(n - 1));
    }
    assert(s@ =~= old(s)@ + text_escaped(t@));
}

} // verus!

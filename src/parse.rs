//! Reading the metadata document: a structural pass over the markup events,
//! then a strict reading of the schema (unknown elements and attributes are
//! errors; unrecognised enumeration literals are not).
use vstd::prelude::*;
use crate::info::{ComicInfo, InfoView, ElementView, default_view, doc_text, pages_nonnegative, string_pair_views};
use crate::number::{int_in_range_of, parse_int};
use crate::page::{ComicPageInfo, PageView, Pages, pages_view, opt_view};
use crate::text::{push_str, str_eq, string_of};
use crate::types::{
    AgeRating, ComicPageType, Manga, YesNo, age_rating_of, manga_of, page_type_of, yes_no_of,
};
use crate::xml::{
    XmlEvent, XmlEventKind, all_space, attributes_of, event_views, is_blank, is_name_length,
    is_xml_space, name_length, tag_attributes, trim_text, trimmed, unescape_xml, unescaped_of, xml_events,
    xml_events_of,
};

verus! {

/// Why a document could not be read.
#[derive(Debug, Clone, Copy, PartialEq, Eq, Structural)]
pub enum ComicInfoParseError {
    /// The input holds nothing but whitespace.
    EmptyXml,
    /// Non-whitespace text follows the root element.
    TrailingContent,
    /// The root element is never closed, or there is none.
    NoRootElement,
    /// The markup is not well formed.
    Syntax,
    /// The elements or attributes do not fit the schema.
    Schema,
}

impl ComicInfoParseError {
    /// A description of the error.
    pub fn message(&self) -> (r: &'static str)
        ensures
            r@ == parse_error_text(*self),
    {
        match self {
            ComicInfoParseError::EmptyXml => "XML is empty",
            ComicInfoParseError::TrailingContent => "Trailing non-whitespace content after root element",
            ComicInfoParseError::NoRootElement => "No root element found",
            ComicInfoParseError::Syntax => "Malformed XML",
            ComicInfoParseError::Schema => "Document does not match the ComicInfo schema",
        }
    }
}

pub open spec fn parse_error_text(e: ComicInfoParseError) -> Seq<char> {
    match e {
        ComicInfoParseError::EmptyXml => "XML is empty"@,
        ComicInfoParseError::TrailingContent => "Trailing non-whitespace content after root element"@,
        ComicInfoParseError::NoRootElement => "No root element found"@,
        ComicInfoParseError::Syntax => "Malformed XML"@,
        ComicInfoParseError::Schema => "Document does not match the ComicInfo schema"@,
    }
}

/// A markup token: a tag's name split from its attributes, text unescaped.
pub enum XmlToken {
    Start { name: String, attrs: Vec<(String, String)> },
    Empty { name: String, attrs: Vec<(String, String)> },
    End { name: String },
    Text { text: String },
    Comment { text: String },
    Other,
}

/// A token as plain values.
pub enum Token {
    Start { name: Seq<char>, attrs: Seq<ElementView> },
    Empty { name: Seq<char>, attrs: Seq<ElementView> },
    End { name: Seq<char> },
    Text { text: Seq<char> },
    Comment { text: Seq<char> },
    Other,
}

impl View for XmlToken {
    type V = Token;

    open spec fn view(&self) -> Token {
        match self {
            XmlToken::Start { name, attrs } => Token::Start { name: name@, attrs: string_pair_views(attrs@) },
            XmlToken::Empty { name, attrs } => Token::Empty { name: name@, attrs: string_pair_views(attrs@) },
            XmlToken::End { name } => Token::End { name: name@ },
            XmlToken::Text { text } => Token::Text { text: text@ },
            XmlToken::Comment { text } => Token::Comment { text: text@ },
            XmlToken::Other => Token::Other,
        }
    }
}

pub open spec fn tokens_view(v: Seq<XmlToken>) -> Seq<Token> {
    v.map_values(|t: XmlToken| t@)
}

/// The length of the name at the start of a tag's raw content.
pub open spec fn tag_name_length(raw: Seq<char>) -> int {
    choose|n: int| is_name_length(raw, n)
}

proof fn lemma_tag_name_length(raw: Seq<char>, n: int)
    requires
        is_name_length(raw, n),
    ensures
        tag_name_length(raw) == n,
{
    let m = tag_name_length(raw);
    assert(is_name_length(raw, m));
    if m < n {
        assert(!is_xml_space(raw[m]));
    } else if n < m {
        assert(!is_xml_space(raw[n]));
    }
}

/// How one event decodes; `None` where `quick_xml` rejects its attributes
/// or its text.
pub open spec fn decode(kind: XmlEventKind, raw: Seq<char>) -> Option<Token> {
    match kind {
        XmlEventKind::Start => match attributes_of(raw, tag_name_length(raw) as nat) {
            Some(a) => Some(Token::Start { name: raw.subrange(0, tag_name_length(raw)), attrs: a }),
            None => None,
        },
        XmlEventKind::Empty => match attributes_of(raw, tag_name_length(raw) as nat) {
            Some(a) => Some(Token::Empty { name: raw.subrange(0, tag_name_length(raw)), attrs: a }),
            None => None,
        },
        XmlEventKind::End => Some(Token::End { name: raw }),
        XmlEventKind::Text => match unescaped_of(raw) {
            Some(t) => Some(Token::Text { text: t }),
            None => None,
        },
        XmlEventKind::CData => Some(Token::Text { text: raw }),
        XmlEventKind::Comment => Some(Token::Comment { text: raw }),
        XmlEventKind::Other => Some(Token::Other),
    }
}

pub open spec fn decode_all(evs: Seq<(XmlEventKind, Seq<char>)>) -> Option<Seq<Token>>
    decreases evs.len(),
{
    if evs.len() == 0 {
        Some(Seq::empty())
    } else {
        match (decode_all(evs.drop_last()), decode(evs.last().0, evs.last().1)) {
            (Some(ts), Some(t)) => Some(ts.push(t)),
            _ => None,
        }
    }
}

pub fn decode_event(ev: &XmlEvent) -> (r: Option<XmlToken>)
    ensures
        match decode(ev.kind, ev.raw@) {
            Some(t) => r matches Some(x) && x@ == t,
            None => r is None,
        },
{
    let raw = ev.raw.as_str();
    match ev.kind {
        XmlEventKind::Start | XmlEventKind::Empty => {
            let n = name_length(raw);
            proof { lemma_tag_name_length(raw@, n as int); }
            match tag_attributes(raw, n) {
                Some(attrs) => {
                    let name = string_of(raw.substring_char(0, n));
                    if ev.kind == XmlEventKind::Start {
                        Some(XmlToken::Start { name, attrs })
                    } else {
                        Some(XmlToken::Empty { name, attrs })
                    }
                },
                None => None,
            }
        },
        XmlEventKind::End => Some(XmlToken::End { name: string_of(raw) }),
        XmlEventKind::Text => match unescape_xml(raw) {
            Some(text) => Some(XmlToken::Text { text }),
            None => None,
        },
        XmlEventKind::CData => Some(XmlToken::Text { text: string_of(raw) }),
        XmlEventKind::Comment => Some(XmlToken::Comment { text: string_of(raw) }),
        XmlEventKind::Other => Some(XmlToken::Other),
    }
}

pub fn decode_events(evs: &Vec<XmlEvent>) -> (r: Option<Vec<XmlToken>>)
    ensures
        match decode_all(event_views(evs@)) {
            Some(ts) => r matches Some(v) && tokens_view(v@) == ts,
            None => r is None,
        },
{
    let mut out: Vec<XmlToken> = Vec::new();
    let mut i: usize = 0;
    while i < evs.len()
        invariant
            i <= evs@.len(),
            decode_all(event_views(evs@.subrange(0, i as int))) == Some(tokens_view(out@)),
        decreases evs@.len() - i,
    {
        let ghost prefix = event_views(evs@.subrange(0, i + 1));
        assert(prefix.drop_last() =~= event_views(evs@.subrange(0, i as int)));
        assert(prefix.last() == (evs@[i as int].kind, evs@[i as int].raw@));
        match decode_event(&evs[i]) {
            Some(t) => {
                out.push(t);
                assert(tokens_view(out@) =~= tokens_view(out@.drop_last()).push(out@.last()@));
            },
            None => {
                proof { lemma_decode_all_fails(event_views(evs@), i as int); }
                return None;
            },
        }
        i = i + 1;
    }
    assert(evs@.subrange(0, evs@.len() as int) =~= evs@);
    Some(out)
}

proof fn lemma_decode_all_fails(evs: Seq<(XmlEventKind, Seq<char>)>, i: int)
    requires
        0 <= i < evs.len(),
        decode(evs[i].0, evs[i].1) is None,
    ensures
        decode_all(evs) is None,
    decreases evs.len(),
{
    if i < evs.len() - 1 {
        assert(evs.drop_last()[i] == evs[i]);
        lemma_decode_all_fails(evs.drop_last(), i);
    }
}

/// What the structural pass tracks: element depth, whether the root element
/// has closed, and whether text followed it.
pub struct Structure {
    pub depth: nat,
    pub closed: bool,
    pub trailing: bool,
}

pub open spec fn structure(evs: Seq<(XmlEventKind, Seq<char>)>) -> Structure
    decreases evs.len(),
{
    if evs.len() == 0 {
        Structure { depth: 0, closed: false, trailing: false }
    } else {
        let s = structure(evs.drop_last());
        let raw = evs.last().1;
        match evs.last().0 {
            XmlEventKind::Start => Structure { depth: s.depth + 1, ..s },
            XmlEventKind::Empty => if s.depth == 0 { Structure { closed: true, ..s } } else { s },
            XmlEventKind::End => if s.depth > 0 {
                Structure { depth: (s.depth - 1) as nat, closed: s.closed || s.depth == 1, ..s }
            } else {
                s
            },
            XmlEventKind::Text | XmlEventKind::CData => if s.closed && !all_space(raw) {
                Structure { trailing: true, ..s }
            } else {
                s
            },
            _ => s,
        }
    }
}

/// The structural pass: text after the root element, or a root element
/// that never closes, is an error of its own.
pub open spec fn structure_check(evs: Seq<(XmlEventKind, Seq<char>)>) -> Result<(), ComicInfoParseError> {
    if structure(evs).trailing {
        Err(ComicInfoParseError::TrailingContent)
    } else if !structure(evs).closed {
        Err(ComicInfoParseError::NoRootElement)
    } else {
        Ok(())
    }
}

pub fn check_structure(evs: &Vec<XmlEvent>) -> (r: Result<(), ComicInfoParseError>)
    ensures
        r == structure_check(event_views(evs@)),
{
    let mut depth: usize = 0;
    let mut closed = false;
    let mut trailing = false;
    let mut i: usize = 0;
    while i < evs.len()
        invariant
            i <= evs@.len(),
            depth <= i,
            structure(event_views(evs@.subrange(0, i as int))) == (Structure { depth: depth as nat, closed, trailing }),
        decreases evs@.len() - i,
    {
        let ghost prefix = event_views(evs@.subrange(0, i + 1));
        assert(prefix.drop_last() =~= event_views(evs@.subrange(0, i as int)));
        assert(prefix.last() == (evs@[i as int].kind, evs@[i as int].raw@));
        match evs[i].kind {
            XmlEventKind::Start => {
                depth = depth + 1;
            },
            XmlEventKind::Empty => {
                if depth == 0 {
                    closed = true;
                }
            },
            XmlEventKind::End => {
                if depth > 0 {
                    closed = closed || depth == 1;
                    depth = depth - 1;
                }
            },
            XmlEventKind::Text | XmlEventKind::CData => {
                if closed && !is_blank(evs[i].raw.as_str()) {
                    trailing = true;
                }
            },
            _ => {},
        }
        i = i + 1;
    }
    assert(evs@.subrange(0, evs@.len() as int) =~= evs@);
    if trailing {
        Err(ComicInfoParseError::TrailingContent)
    } else if !closed {
        Err(ComicInfoParseError::NoRootElement)
    } else {
        Ok(())
    }
}

/// A page record before any attribute is read.
pub open spec fn default_page() -> PageView {
    PageView {
        double_page: false,
        image: 0,
        image_height: -1i32,
        image_size: 0i64,
        image_width: -1i32,
        type_: None,
        key: Seq::empty(),
        bookmark: Seq::empty(),
        filename: None,
    }
}

/// A `Type` attribute: blank is no type; otherwise the trimmed value names
/// the kind, and an unrecognised name, or more than one word, is `Other`.
pub open spec fn type_of_attribute(v: Seq<char>) -> Option<ComicPageType> {
    if all_space(v) {
        None
    } else {
        Some(page_type_of(trimmed(v)))
    }
}

/// The page with one attribute applied; `None` for an unknown attribute or
/// a value of the wrong form.
pub open spec fn set_page_attribute(p: PageView, name: Seq<char>, value: Seq<char>) -> Option<PageView> {
    if name == "Image"@ {
        match int_in_range_of(value, i32::MIN as int, i32::MAX as int) {
            Some(v) => Some(PageView { image: v as i32, ..p }),
            None => None,
        }
    } else if name == "Type"@ {
        Some(PageView { type_: type_of_attribute(value), ..p })
    } else if name == "DoublePage"@ {
        if value == "true"@ {
            Some(PageView { double_page: true, ..p })
        } else if value == "false"@ {
            Some(PageView { double_page: false, ..p })
        } else {
            None
        }
    } else if name == "ImageSize"@ {
        match int_in_range_of(value, i64::MIN as int, i64::MAX as int) {
            Some(v) => Some(PageView { image_size: v as i64, ..p }),
            None => None,
        }
    } else if name == "Key"@ {
        Some(PageView { key: value, ..p })
    } else if name == "Bookmark"@ {
        Some(PageView { bookmark: value, ..p })
    } else if name == "ImageWidth"@ {
        match int_in_range_of(value, i32::MIN as int, i32::MAX as int) {
            Some(v) => Some(PageView { image_width: v as i32, ..p }),
            None => None,
        }
    } else if name == "ImageHeight"@ {
        match int_in_range_of(value, i32::MIN as int, i32::MAX as int) {
            Some(v) => Some(PageView { image_height: v as i32, ..p }),
            None => None,
        }
    } else {
        None
    }
}

/// The page that a `Page` element's attributes describe.
pub open spec fn page_of_attributes(attrs: Seq<ElementView>) -> Option<PageView>
    decreases attrs.len(),
{
    if attrs.len() == 0 {
        Some(default_page())
    } else {
        match page_of_attributes(attrs.drop_last()) {
            Some(p) => set_page_attribute(p, attrs.last().0, attrs.last().1),
            None => None,
        }
    }
}

fn set_page_attr(p: &mut ComicPageInfo, name: &str, value: &str) -> (ok: bool)
    ensures
        ok == set_page_attribute(old(p)@, name@, value@) is Some,
        ok ==> final(p)@ == set_page_attribute(old(p)@, name@, value@)->0,
{
    if str_eq(name, "Image") {
        match parse_int(value, i32::MIN as i64, i32::MAX as i64) {
            Some(v) => {
                p.image = v as i32;
                true
            },
            None => false,
        }
    } else if str_eq(name, "Type") {
        if is_blank(value) {
            p.type_ = None;
        } else {
            let w = trim_text(value);
            p.type_ = Some(ComicPageType::from_str(w.as_str()));
        }
        true
    } else if str_eq(name, "DoublePage") {
        if str_eq(value, "true") {
            p.double_page = true;
            true
        } else if str_eq(value, "false") {
            p.double_page = false;
            true
        } else {
            false
        }
    } else if str_eq(name, "ImageSize") {
        match parse_int(value, i64::MIN, i64::MAX) {
            Some(v) => {
                p.image_size = v;
                true
            },
            None => false,
        }
    } else if str_eq(name, "Key") {
        p.key = string_of(value);
        true
    } else if str_eq(name, "Bookmark") {
        p.bookmark = string_of(value);
        true
    } else if str_eq(name, "ImageWidth") {
        match parse_int(value, i32::MIN as i64, i32::MAX as i64) {
            Some(v) => {
                p.image_width = v as i32;
                true
            },
            None => false,
        }
    } else if str_eq(name, "ImageHeight") {
        match parse_int(value, i32::MIN as i64, i32::MAX as i64) {
            Some(v) => {
                p.image_height = v as i32;
                true
            },
            None => false,
        }
    } else {
        false
    }
}

/// The page that a `Page` element's attributes describe.
pub fn page_from_attributes(attrs: &Vec<(String, String)>) -> (r: Option<ComicPageInfo>)
    ensures
        match page_of_attributes(string_pair_views(attrs@)) {
            Some(p) => r matches Some(x) && x@ == p,
            None => r is None,
        },
{
    let mut p = ComicPageInfo {
        double_page: false,
        image: 0,
        image_height: -1,
        image_size: 0,
        image_width: -1,
        type_: None,
        key: String::new(),
        bookmark: String::new(),
        filename: None,
    };
    let mut i: usize = 0;
    while i < attrs.len()
        invariant
            i <= attrs@.len(),
            page_of_attributes(string_pair_views(attrs@.subrange(0, i as int))) == Some(p@),
        decreases attrs@.len() - i,
    {
        let ghost prefix = string_pair_views(attrs@.subrange(0, i + 1));
        assert(prefix.drop_last() =~= string_pair_views(attrs@.subrange(0, i as int)));
        if !set_page_attr(&mut p, attrs[i].0.as_str(), attrs[i].1.as_str()) {
            assert(string_pair_views(attrs@).subrange(0, i as int) =~= string_pair_views(attrs@.subrange(0, i as int)));
            proof { lemma_page_of_attributes_fails(string_pair_views(attrs@), i as int); }
            return None;
        }
        i = i + 1;
    }
    assert(attrs@.subrange(0, attrs@.len() as int) =~= attrs@);
    Some(p)
}

proof fn lemma_page_of_attributes_fails(attrs: Seq<ElementView>, i: int)
    requires
        0 <= i < attrs.len(),
        page_of_attributes(attrs.subrange(0, i)) matches Some(p) && set_page_attribute(p, attrs[i].0, attrs[i].1) is None,
    ensures
        page_of_attributes(attrs) is None,
    decreases attrs.len(),
{
    if i == attrs.len() - 1 {
        assert(attrs.drop_last() =~= attrs.subrange(0, i));
    } else {
        assert(attrs.drop_last().subrange(0, i) =~= attrs.subrange(0, i));
        lemma_page_of_attributes_fails(attrs.drop_last(), i);
    }
}

/// The document with the field named `name` set from its element text;
/// `None` where the name is no scalar field or an integer field's text is no
/// 32-bit integer. Enumerations read unrecognised text as `Unknown`.
pub open spec fn set_field(d: InfoView, name: Seq<char>, text: Seq<char>) -> Option<InfoView> {
    if name == "Title"@ {
        Some(InfoView { title: Some(text), ..d })
    }
    else if name == "Series"@ {
        Some(InfoView { series: Some(text), ..d })
    }
    else if name == "Number"@ {
        Some(InfoView { number: Some(text), ..d })
    }
    else if name == "Count"@ {
        match int_in_range_of(text, i32::MIN as int, i32::MAX as int) {
            Some(v) => Some(InfoView { count: v as i32, ..d }),
            None => None,
        }
    }
    else if name == "Volume"@ {
        match int_in_range_of(text, i32::MIN as int, i32::MAX as int) {
            Some(v) => Some(InfoView { volume: v as i32, ..d }),
            None => None,
        }
    }
    else if name == "AlternateSeries"@ {
        Some(InfoView { alternate_series: Some(text), ..d })
    }
    else if name == "AlternateNumber"@ {
        Some(InfoView { alternate_number: Some(text), ..d })
    }
    else if name == "AlternateCount"@ {
        match int_in_range_of(text, i32::MIN as int, i32::MAX as int) {
            Some(v) => Some(InfoView { alternate_count: v as i32, ..d }),
            None => None,
        }
    }
    else if name == "Summary"@ {
        Some(InfoView { summary: Some(text), ..d })
    }
    else if name == "Notes"@ {
        Some(InfoView { notes: Some(text), ..d })
    }
    else if name == "Year"@ {
        match int_in_range_of(text, i32::MIN as int, i32::MAX as int) {
            Some(v) => Some(InfoView { year: v as i32, ..d }),
            None => None,
        }
    }
    else if name == "Month"@ {
        match int_in_range_of(text, i32::MIN as int, i32::MAX as int) {
            Some(v) => Some(InfoView { month: v as i32, ..d }),
            None => None,
        }
    }
    else if name == "Day"@ {
        match int_in_range_of(text, i32::MIN as int, i32::MAX as int) {
            Some(v) => Some(InfoView { day: v as i32, ..d }),
            None => None,
        }
    }
    else if name == "Writer"@ {
        Some(InfoView { writer: Some(text), ..d })
    }
    else if name == "Penciller"@ {
        Some(InfoView { penciller: Some(text), ..d })
    }
    else if name == "Inker"@ {
        Some(InfoView { inker: Some(text), ..d })
    }
    else if name == "Colorist"@ {
        Some(InfoView { colorist: Some(text), ..d })
    }
    else if name == "Letterer"@ {
        Some(InfoView { letterer: Some(text), ..d })
    }
    else if name == "CoverArtist"@ {
        Some(InfoView { cover_artist: Some(text), ..d })
    }
    else if name == "Editor"@ {
        Some(InfoView { editor: Some(text), ..d })
    }
    else if name == "Translator"@ {
        Some(InfoView { translator: Some(text), ..d })
    }
    else if name == "Publisher"@ {
        Some(InfoView { publisher: Some(text), ..d })
    }
    else if name == "Imprint"@ {
        Some(InfoView { imprint: Some(text), ..d })
    }
    else if name == "Genre"@ {
        Some(InfoView { genre: Some(text), ..d })
    }
    else if name == "Tags"@ {
        Some(InfoView { tags: Some(text), ..d })
    }
    else if name == "Web"@ {
        Some(InfoView { web: Some(text), ..d })
    }
    else if name == "PageCount"@ {
        match int_in_range_of(text, i32::MIN as int, i32::MAX as int) {
            Some(v) => Some(InfoView { page_count: v as i32, ..d }),
            None => None,
        }
    }
    else if name == "LanguageISO"@ {
        Some(InfoView { language_iso: Some(text), ..d })
    }
    else if name == "Format"@ {
        Some(InfoView { format: Some(text), ..d })
    }
    else if name == "BlackAndWhite"@ {
        Some(InfoView { black_and_white: yes_no_of(text), ..d })
    }
    else if name == "Manga"@ {
        Some(InfoView { manga: manga_of(text), ..d })
    }
    else if name == "Characters"@ {
        Some(InfoView { characters: Some(text), ..d })
    }
    else if name == "Teams"@ {
        Some(InfoView { teams: Some(text), ..d })
    }
    else if name == "Locations"@ {
        Some(InfoView { locations: Some(text), ..d })
    }
    else if name == "ScanInformation"@ {
        Some(InfoView { scan_information: Some(text), ..d })
    }
    else if name == "StoryArc"@ {
        Some(InfoView { story_arc: Some(text), ..d })
    }
    else if name == "StoryArcNumber"@ {
        Some(InfoView { story_arc_number: Some(text), ..d })
    }
    else if name == "SeriesGroup"@ {
        Some(InfoView { series_group: Some(text), ..d })
    }
    else if name == "AgeRating"@ {
        Some(InfoView { age_rating: age_rating_of(text), ..d })
    }
    else if name == "CommunityRating"@ {
        Some(InfoView { community_rating: Some(text), ..d })
    }
    else if name == "MainCharacterOrTeam"@ {
        Some(InfoView { main_character_or_team: Some(text), ..d })
    }
    else if name == "Review"@ {
        Some(InfoView { review: Some(text), ..d })
    }
    else if name == "GTIN"@ {
        Some(InfoView { gtin: Some(text), ..d })
    }
    else {
        None
    }
}

/// Sets the field named `name` from its element text.
fn set_doc_field(d: &mut ComicInfo, name: &str, text: &str) -> (ok: bool)
    ensures
        ok == set_field(old(d)@, name@, text@) is Some,
        ok ==> final(d)@ == set_field(old(d)@, name@, text@)->0,
{
    if str_eq(name, "Title") {
        d.title = Some(string_of(text));
        return true;
    }
    if str_eq(name, "Series") {
        d.series = Some(string_of(text));
        return true;
    }
    if str_eq(name, "Number") {
        d.number = Some(string_of(text));
        return true;
    }
    if str_eq(name, "Count") {
        match parse_int(text, i32::MIN as i64, i32::MAX as i64) {
            Some(v) => {
                d.count = v as i32;
                return true;
            },
            None => return false,
        }
    }
    if str_eq(name, "Volume") {
        match parse_int(text, i32::MIN as i64, i32::MAX as i64) {
            Some(v) => {
                d.volume = v as i32;
                return true;
            },
            None => return false,
        }
    }
    if str_eq(name, "AlternateSeries") {
        d.alternate_series = Some(string_of(text));
        return true;
    }
    if str_eq(name, "AlternateNumber") {
        d.alternate_number = Some(string_of(text));
        return true;
    }
    if str_eq(name, "AlternateCount") {
        match parse_int(text, i32::MIN as i64, i32::MAX as i64) {
            Some(v) => {
                d.alternate_count = v as i32;
                return true;
            },
            None => return false,
        }
    }
    if str_eq(name, "Summary") {
        d.summary = Some(string_of(text));
        return true;
    }
    if str_eq(name, "Notes") {
        d.notes = Some(string_of(text));
        return true;
    }
    if str_eq(name, "Year") {
        match parse_int(text, i32::MIN as i64, i32::MAX as i64) {
            Some(v) => {
                d.year = v as i32;
                return true;
            },
            None => return false,
        }
    }
    if str_eq(name, "Month") {
        match parse_int(text, i32::MIN as i64, i32::MAX as i64) {
            Some(v) => {
                d.month = v as i32;
                return true;
            },
            None => return false,
        }
    }
    if str_eq(name, "Day") {
        match parse_int(text, i32::MIN as i64, i32::MAX as i64) {
            Some(v) => {
                d.day = v as i32;
                return true;
            },
            None => return false,
        }
    }
    if str_eq(name, "Writer") {
        d.writer = Some(string_of(text));
        return true;
    }
    if str_eq(name, "Penciller") {
        d.penciller = Some(string_of(text));
        return true;
    }
    if str_eq(name, "Inker") {
        d.inker = Some(string_of(text));
        return true;
    }
    if str_eq(name, "Colorist") {
        d.colorist = Some(string_of(text));
        return true;
    }
    if str_eq(name, "Letterer") {
        d.letterer = Some(string_of(text));
        return true;
    }
    if str_eq(name, "CoverArtist") {
        d.cover_artist = Some(string_of(text));
        return true;
    }
    if str_eq(name, "Editor") {
        d.editor = Some(string_of(text));
        return true;
    }
    if str_eq(name, "Translator") {
        d.translator = Some(string_of(text));
        return true;
    }
    if str_eq(name, "Publisher") {
        d.publisher = Some(string_of(text));
        return true;
    }
    if str_eq(name, "Imprint") {
        d.imprint = Some(string_of(text));
        return true;
    }
    if str_eq(name, "Genre") {
        d.genre = Some(string_of(text));
        return true;
    }
    if str_eq(name, "Tags") {
        d.tags = Some(string_of(text));
        return true;
    }
    if str_eq(name, "Web") {
        d.web = Some(string_of(text));
        return true;
    }
    if str_eq(name, "PageCount") {
        match parse_int(text, i32::MIN as i64, i32::MAX as i64) {
            Some(v) => {
                d.page_count = v as i32;
                return true;
            },
            None => return false,
        }
    }
    if str_eq(name, "LanguageISO") {
        d.language_iso = Some(string_of(text));
        return true;
    }
    if str_eq(name, "Format") {
        d.format = Some(string_of(text));
        return true;
    }
    if str_eq(name, "BlackAndWhite") {
        d.black_and_white = YesNo::from_str(text);
        return true;
    }
    if str_eq(name, "Manga") {
        d.manga = Manga::from_str(text);
        return true;
    }
    if str_eq(name, "Characters") {
        d.characters = Some(string_of(text));
        return true;
    }
    if str_eq(name, "Teams") {
        d.teams = Some(string_of(text));
        return true;
    }
    if str_eq(name, "Locations") {
        d.locations = Some(string_of(text));
        return true;
    }
    if str_eq(name, "ScanInformation") {
        d.scan_information = Some(string_of(text));
        return true;
    }
    if str_eq(name, "StoryArc") {
        d.story_arc = Some(string_of(text));
        return true;
    }
    if str_eq(name, "StoryArcNumber") {
        d.story_arc_number = Some(string_of(text));
        return true;
    }
    if str_eq(name, "SeriesGroup") {
        d.series_group = Some(string_of(text));
        return true;
    }
    if str_eq(name, "AgeRating") {
        d.age_rating = AgeRating::from_str(text);
        return true;
    }
    if str_eq(name, "CommunityRating") {
        d.community_rating = Some(string_of(text));
        return true;
    }
    if str_eq(name, "MainCharacterOrTeam") {
        d.main_character_or_team = Some(string_of(text));
        return true;
    }
    if str_eq(name, "Review") {
        d.review = Some(string_of(text));
        return true;
    }
    if str_eq(name, "GTIN") {
        d.gtin = Some(string_of(text));
        return true;
    }
    false
}

/// Where the reader stands in the document.
#[derive(Debug, Clone, Copy, PartialEq, Eq, Structural)]
pub enum Phase {
    BeforeRoot,
    InRoot,
    /// Inside a scalar element, before its text.
    InField,
    /// Inside a scalar element, after some text.
    InFieldText,
    InPages,
    /// Inside a `Page` element written with a closing tag.
    InPage,
    AfterRoot,
}

/// The reader's state as plain values.
pub struct BuildView {
    pub phase: Phase,
    pub doc: InfoView,
    pub field: Seq<char>,
    pub text: Seq<char>,
    pub pages: Seq<PageView>,
    pub has_pages: bool,
    pub comment: Option<Seq<char>>,
    pub page: PageView,
}

pub open spec fn initial_build() -> BuildView {
    BuildView {
        phase: Phase::BeforeRoot,
        doc: default_view(),
        field: Seq::empty(),
        text: Seq::empty(),
        pages: Seq::empty(),
        has_pages: false,
        comment: None,
        page: default_page(),
    }
}

/// A namespace declaration, the one kind of attribute the root may carry.
pub open spec fn is_namespace_attribute(name: Seq<char>) -> bool {
    name.len() >= 5 && name.subrange(0, 5) == "xmlns"@
}

pub open spec fn namespace_only(attrs: Seq<ElementView>) -> bool {
    forall|i: int| 0 <= i < attrs.len() ==> is_namespace_attribute(#[trigger] attrs[i].0)
}

/// The file name that a ` filename: NAME ` comment carries.
pub open spec fn filename_of_comment(c: Seq<char>) -> Option<Seq<char>> {
    if c.len() >= 12 && c.subrange(0, 11) == " filename: "@ && c.last() == ' ' {
        Some(c.subrange(11, c.len() - 1))
    } else {
        None
    }
}

pub open spec fn comment_filename(c: Option<Seq<char>>) -> Option<Seq<char>> {
    match c {
        Some(t) => filename_of_comment(t),
        None => None,
    }
}

/// Whether `name` is a scalar field's element name.
pub open spec fn is_field_name(name: Seq<char>) -> bool {
    name == "Title"@
        || name == "Series"@
        || name == "Number"@
        || name == "Count"@
        || name == "Volume"@
        || name == "AlternateSeries"@
        || name == "AlternateNumber"@
        || name == "AlternateCount"@
        || name == "Summary"@
        || name == "Notes"@
        || name == "Year"@
        || name == "Month"@
        || name == "Day"@
        || name == "Writer"@
        || name == "Penciller"@
        || name == "Inker"@
        || name == "Colorist"@
        || name == "Letterer"@
        || name == "CoverArtist"@
        || name == "Editor"@
        || name == "Translator"@
        || name == "Publisher"@
        || name == "Imprint"@
        || name == "Genre"@
        || name == "Tags"@
        || name == "Web"@
        || name == "PageCount"@
        || name == "LanguageISO"@
        || name == "Format"@
        || name == "BlackAndWhite"@
        || name == "Manga"@
        || name == "Characters"@
        || name == "Teams"@
        || name == "Locations"@
        || name == "ScanInformation"@
        || name == "StoryArc"@
        || name == "StoryArcNumber"@
        || name == "SeriesGroup"@
        || name == "AgeRating"@
        || name == "CommunityRating"@
        || name == "MainCharacterOrTeam"@
        || name == "Review"@
        || name == "GTIN"@
}

fn field_name(name: &str) -> (r: bool)
    ensures
        r == is_field_name(name@),
{
    str_eq(name, "Title")
        || str_eq(name, "Series")
        || str_eq(name, "Number")
        || str_eq(name, "Count")
        || str_eq(name, "Volume")
        || str_eq(name, "AlternateSeries")
        || str_eq(name, "AlternateNumber")
        || str_eq(name, "AlternateCount")
        || str_eq(name, "Summary")
        || str_eq(name, "Notes")
        || str_eq(name, "Year")
        || str_eq(name, "Month")
        || str_eq(name, "Day")
        || str_eq(name, "Writer")
        || str_eq(name, "Penciller")
        || str_eq(name, "Inker")
        || str_eq(name, "Colorist")
        || str_eq(name, "Letterer")
        || str_eq(name, "CoverArtist")
        || str_eq(name, "Editor")
        || str_eq(name, "Translator")
        || str_eq(name, "Publisher")
        || str_eq(name, "Imprint")
        || str_eq(name, "Genre")
        || str_eq(name, "Tags")
        || str_eq(name, "Web")
        || str_eq(name, "PageCount")
        || str_eq(name, "LanguageISO")
        || str_eq(name, "Format")
        || str_eq(name, "BlackAndWhite")
        || str_eq(name, "Manga")
        || str_eq(name, "Characters")
        || str_eq(name, "Teams")
        || str_eq(name, "Locations")
        || str_eq(name, "ScanInformation")
        || str_eq(name, "StoryArc")
        || str_eq(name, "StoryArcNumber")
        || str_eq(name, "SeriesGroup")
        || str_eq(name, "AgeRating")
        || str_eq(name, "CommunityRating")
        || str_eq(name, "MainCharacterOrTeam")
        || str_eq(name, "Review")
        || str_eq(name, "GTIN")
}

/// One token read in a state; `None` where the token does not fit the schema.
/// A comment directly before a `Page` element gives that page its file name.
pub open spec fn step(st: BuildView, t: Token) -> Option<BuildView> {
    match st.phase {
        Phase::BeforeRoot => match t {
            Token::Other | Token::Comment { .. } => Some(st),
            Token::Start { attrs, .. } => if namespace_only(attrs) { Some(BuildView { phase: Phase::InRoot, ..st }) } else { None },
            Token::Empty { attrs, .. } => if namespace_only(attrs) { Some(BuildView { phase: Phase::AfterRoot, ..st }) } else { None },
            _ => None,
        },
        Phase::InRoot => match t {
            Token::Other | Token::Comment { .. } => Some(st),
            Token::Start { name, attrs } => if attrs.len() != 0 {
                None
            } else if name == "Pages"@ {
                Some(BuildView { phase: Phase::InPages, pages: Seq::empty(), has_pages: true, comment: None, ..st })
            } else if is_field_name(name) {
                Some(BuildView { phase: Phase::InField, field: name, ..st })
            } else {
                None
            },
            Token::Empty { name, attrs } => if attrs.len() != 0 {
                None
            } else if name == "Pages"@ {
                Some(BuildView { pages: Seq::empty(), has_pages: true, ..st })
            } else {
                match set_field(st.doc, name, Seq::empty()) {
                    Some(d) => Some(BuildView { doc: d, ..st }),
                    None => None,
                }
            },
            Token::End { .. } => Some(BuildView { phase: Phase::AfterRoot, ..st }),
            Token::Text { .. } => None,
        },
        Phase::InField => match t {
            Token::Other | Token::Comment { .. } => Some(st),
            Token::Text { text } => Some(BuildView { phase: Phase::InFieldText, text, ..st }),
            Token::End { .. } => match set_field(st.doc, st.field, Seq::empty()) {
                Some(d) => Some(BuildView { phase: Phase::InRoot, doc: d, ..st }),
                None => None,
            },
            _ => None,
        },
        Phase::InFieldText => match t {
            Token::Other | Token::Comment { .. } => Some(st),
            Token::Text { text } => Some(BuildView { text: st.text + text, ..st }),
            Token::End { .. } => match set_field(st.doc, st.field, st.text) {
                Some(d) => Some(BuildView { phase: Phase::InRoot, doc: d, ..st }),
                None => None,
            },
            _ => None,
        },
        Phase::InPages => match t {
            Token::Other => Some(st),
            Token::Comment { text } => Some(BuildView { comment: Some(text), ..st }),
            Token::Empty { name, attrs } => if name == "Page"@ {
                match page_of_attributes(attrs) {
                    Some(p) => Some(BuildView {
                        pages: st.pages.push(PageView { filename: comment_filename(st.comment), ..p }),
                        comment: None,
                        ..st
                    }),
                    None => None,
                }
            } else {
                None
            },
            Token::Start { name, attrs } => if name == "Page"@ {
                match page_of_attributes(attrs) {
                    Some(p) => Some(BuildView {
                        phase: Phase::InPage,
                        page: PageView { filename: comment_filename(st.comment), ..p },
                        comment: None,
                        ..st
                    }),
                    None => None,
                }
            } else {
                None
            },
            Token::End { .. } => Some(BuildView { phase: Phase::InRoot, comment: None, ..st }),
            Token::Text { .. } => None,
        },
        Phase::InPage => match t {
            Token::Other | Token::Comment { .. } => Some(st),
            Token::End { .. } => Some(BuildView { phase: Phase::InPages, pages: st.pages.push(st.page), ..st }),
            _ => None,
        },
        Phase::AfterRoot => Some(st),
    }
}

pub open spec fn build_run(toks: Seq<Token>) -> Option<BuildView>
    decreases toks.len(),
{
    if toks.len() == 0 {
        Some(initial_build())
    } else {
        match build_run(toks.drop_last()) {
            Some(st) => step(st, toks.last()),
            None => None,
        }
    }
}

/// The document that a token sequence describes, if it fits the schema and
/// closes its root element.
pub open spec fn build(toks: Seq<Token>) -> Option<InfoView> {
    match build_run(toks) {
        Some(st) => if st.phase == Phase::AfterRoot {
            Some(InfoView { pages: if st.has_pages { Some(st.pages) } else { None }, ..st.doc })
        } else {
            None
        },
        None => None,
    }
}

/// What reading a text gives: the distinct errors of the structural pass
/// first, then the schema.
pub open spec fn parse_spec(s: Seq<char>) -> Result<InfoView, ComicInfoParseError> {
    if all_space(s) {
        Err(ComicInfoParseError::EmptyXml)
    } else {
        match xml_events_of(s) {
            None => Err(ComicInfoParseError::Syntax),
            Some(evs) => match structure_check(evs) {
                Err(e) => Err(e),
                Ok(()) => match decode_all(evs) {
                    None => Err(ComicInfoParseError::Syntax),
                    Some(toks) => match build(toks) {
                        Some(d) => Ok(d),
                        None => Err(ComicInfoParseError::Schema),
                    },
                },
            },
        }
    }
}

/// The reader's state.
pub struct DocumentReader {
    pub phase: Phase,
    pub doc: ComicInfo,
    pub field: String,
    pub text: String,
    pub pages: Vec<ComicPageInfo>,
    pub has_pages: bool,
    pub comment: Option<String>,
    pub page: ComicPageInfo,
}

impl View for DocumentReader {
    type V = BuildView;

    open spec fn view(&self) -> BuildView {
        BuildView {
            phase: self.phase,
            doc: self.doc@,
            field: self.field@,
            text: self.text@,
            pages: pages_view(self.pages@),
            has_pages: self.has_pages,
            comment: opt_view(self.comment),
            page: self.page@,
        }
    }
}

fn namespace_attributes_only(attrs: &Vec<(String, String)>) -> (r: bool)
    ensures
        r == namespace_only(string_pair_views(attrs@)),
{
    let mut i: usize = 0;
    while i < attrs.len()
        invariant
            i <= attrs@.len(),
            forall|j: int| 0 <= j < i ==> is_namespace_attribute(#[trigger] string_pair_views(attrs@)[j].0),
        decreases attrs@.len() - i,
    {
        let name = attrs[i].0.as_str();
        let n = name.unicode_len();
        if n < 5 || !str_eq(name.substring_char(0, 5), "xmlns") {
            assert(!is_namespace_attribute(string_pair_views(attrs@)[i as int].0));
            return false;
        }
        i = i + 1;
    }
    true
}

fn filename_from_comment(c: &Option<String>) -> (r: Option<String>)
    ensures
        opt_view(r) == comment_filename(opt_view(*c)),
{
    match c {
        Some(t) => {
            let s = t.as_str();
            let n = s.unicode_len();
            if n >= 12 && str_eq(s.substring_char(0, 11), " filename: ") && s.get_char(n - 1) == ' ' {
                Some(string_of(s.substring_char(11, n - 1)))
            } else {
                None
            }
        },
        None => None,
    }
}

fn default_page_info() -> (r: ComicPageInfo)
    ensures
        r@ == default_page(),
{
    ComicPageInfo {
        double_page: false,
        image: 0,
        image_height: -1,
        image_size: 0,
        image_width: -1,
        type_: None,
        key: String::new(),
        bookmark: String::new(),
        filename: None,
    }
}

fn step_before_root(b: &mut DocumentReader, t: &XmlToken) -> (ok: bool)
    requires
        old(b).phase == Phase::BeforeRoot,
    ensures
        ok == step(old(b)@, t@) is Some,
        ok ==> final(b)@ == step(old(b)@, t@)->0,
{
    match t {
        XmlToken::Other | XmlToken::Comment { .. } => true,
        XmlToken::Start { attrs, .. } => {
            if namespace_attributes_only(attrs) {
                b.phase = Phase::InRoot;
                true
            } else {
                false
            }
        },
        XmlToken::Empty { attrs, .. } => {
            if namespace_attributes_only(attrs) {
                b.phase = Phase::AfterRoot;
                true
            } else {
                false
            }
        },
        _ => false,
    }
}

fn step_in_root(b: &mut DocumentReader, t: &XmlToken) -> (ok: bool)
    requires
        old(b).phase == Phase::InRoot,
    ensures
        ok == step(old(b)@, t@) is Some,
        ok ==> final(b)@ == step(old(b)@, t@)->0,
{
    match t {
        XmlToken::Other | XmlToken::Comment { .. } => true,
        XmlToken::Start { name, attrs } => {
            if attrs.len() != 0 {
                false
            } else if str_eq(name.as_str(), "Pages") {
                b.phase = Phase::InPages;
                b.pages = Vec::new();
                b.has_pages = true;
                b.comment = None;
                assert(pages_view(b.pages@) =~= Seq::<PageView>::empty());
                true
            } else if field_name(name.as_str()) {
                b.phase = Phase::InField;
                b.field = name.clone();
                true
            } else {
                false
            }
        },
        XmlToken::Empty { name, attrs } => {
            if attrs.len() != 0 {
                false
            } else if str_eq(name.as_str(), "Pages") {
                b.pages = Vec::new();
                b.has_pages = true;
                assert(pages_view(b.pages@) =~= Seq::<PageView>::empty());
                true
            } else {
                let empty = String::new();
                set_doc_field(&mut b.doc, name.as_str(), empty.as_str())
            }
        },
        XmlToken::End { .. } => {
            b.phase = Phase::AfterRoot;
            true
        },
        XmlToken::Text { .. } => false,
    }
}

fn step_in_field(b: &mut DocumentReader, t: &XmlToken) -> (ok: bool)
    requires
        old(b).phase == Phase::InField || old(b).phase == Phase::InFieldText,
    ensures
        ok == step(old(b)@, t@) is Some,
        ok ==> final(b)@ == step(old(b)@, t@)->0,
{
    let in_text = b.phase == Phase::InFieldText;
    match t {
        XmlToken::Other | XmlToken::Comment { .. } => true,
        XmlToken::Text { text } => {
            if in_text {
                push_str(&mut b.text, text.as_str());
            } else {
                b.phase = Phase::InFieldText;
                b.text = text.clone();
            }
            true
        },
        XmlToken::End { .. } => {
            let value = if in_text { b.text.clone() } else { String::new() };
            let field = b.field.clone();
            if set_doc_field(&mut b.doc, field.as_str(), value.as_str()) {
                b.phase = Phase::InRoot;
                true
            } else {
                false
            }
        },
        _ => false,
    }
}

fn step_in_pages(b: &mut DocumentReader, t: &XmlToken) -> (ok: bool)
    requires
        old(b).phase == Phase::InPages || old(b).phase == Phase::InPage,
    ensures
        ok == step(old(b)@, t@) is Some,
        ok ==> final(b)@ == step(old(b)@, t@)->0,
{
    if b.phase == Phase::InPage {
        return match t {
            XmlToken::Other | XmlToken::Comment { .. } => true,
            XmlToken::End { .. } => {
                let ghost before = b.pages@;
                b.pages.push(b.page.copy());
                assert(pages_view(b.pages@) =~= pages_view(before).push(old(b).page@));
                b.phase = Phase::InPages;
                true
            },
            _ => false,
        };
    }
    match t {
        XmlToken::Other => true,
        XmlToken::Comment { text } => {
            b.comment = Some(text.clone());
            true
        },
        XmlToken::Empty { name, attrs } => {
            if !str_eq(name.as_str(), "Page") {
                return false;
            }
            match page_from_attributes(attrs) {
                Some(p) => {
                    let mut p = p;
                    p.filename = filename_from_comment(&b.comment);
                    let ghost before = b.pages@;
                    b.pages.push(p);
                    assert(pages_view(b.pages@) =~= pages_view(before).push(b.pages@.last()@));
                    b.comment = None;
                    true
                },
                None => false,
            }
        },
        XmlToken::Start { name, attrs } => {
            if !str_eq(name.as_str(), "Page") {
                return false;
            }
            match page_from_attributes(attrs) {
                Some(p) => {
                    let mut p = p;
                    p.filename = filename_from_comment(&b.comment);
                    b.page = p;
                    b.comment = None;
                    b.phase = Phase::InPage;
                    true
                },
                None => false,
            }
        },
        XmlToken::End { .. } => {
            b.phase = Phase::InRoot;
            b.comment = None;
            true
        },
        XmlToken::Text { .. } => false,
    }
}

fn step_token(b: &mut DocumentReader, t: &XmlToken) -> (ok: bool)
    ensures
        ok == step(old(b)@, t@) is Some,
        ok ==> final(b)@ == step(old(b)@, t@)->0,
{
    match b.phase {
        Phase::BeforeRoot => step_before_root(b, t),
        Phase::InRoot => step_in_root(b, t),
        Phase::InField | Phase::InFieldText => step_in_field(b, t),
        Phase::InPages | Phase::InPage => step_in_pages(b, t),
        Phase::AfterRoot => true,
    }
}

proof fn lemma_build_run_fails(toks: Seq<Token>, i: int)
    requires
        0 <= i < toks.len(),
        build_run(toks.subrange(0, i)) matches Some(st) && step(st, toks[i]) is None,
    ensures
        build_run(toks) is None,
    decreases toks.len(),
{
    if i == toks.len() - 1 {
        assert(toks.drop_last() =~= toks.subrange(0, i));
    } else {
        assert(toks.drop_last().subrange(0, i) =~= toks.subrange(0, i));
        lemma_build_run_fails(toks.drop_last(), i);
    }
}

/// Reads a document from its tokens.
pub fn build_document(toks: &Vec<XmlToken>) -> (r: Option<ComicInfo>)
    ensures
        match build(tokens_view(toks@)) {
            Some(v) => r matches Some(d) && d@ == v,
            None => r is None,
        },
{
    let mut b = DocumentReader {
        phase: Phase::BeforeRoot,
        doc: ComicInfo::default(),
        field: String::new(),
        text: String::new(),
        pages: Vec::new(),
        has_pages: false,
        comment: None,
        page: default_page_info(),
    };
    assert(b@ =~= initial_build()) by {
        assert(pages_view(b.pages@) =~= Seq::<PageView>::empty());
    }
    let mut i: usize = 0;
    while i < toks.len()
        invariant
            i <= toks@.len(),
            build_run(tokens_view(toks@).subrange(0, i as int)) == Some(b@),
        decreases toks@.len() - i,
    {
        assert(tokens_view(toks@).subrange(0, i + 1).drop_last() =~= tokens_view(toks@).subrange(0, i as int));
        if !step_token(&mut b, &toks[i]) {
            proof { lemma_build_run_fails(tokens_view(toks@), i as int); }
            return None;
        }
        i = i + 1;
    }
    assert(tokens_view(toks@).subrange(0, toks@.len() as int) =~= tokens_view(toks@));
    if b.phase != Phase::AfterRoot {
        return None;
    }
    let mut doc = b.doc;
    doc.pages = if b.has_pages { Some(Pages { page: b.pages }) } else { None };
    Some(doc)
}

impl ComicInfo {
    /// Reads a document: see `parse_spec`.
    pub fn parse(xml: &str) -> (r: Result<ComicInfo, ComicInfoParseError>)
        ensures
            match parse_spec(xml@) {
                Ok(v) => r matches Ok(d) && d@ == v,
                Err(e) => r == Err::<ComicInfo, ComicInfoParseError>(e),
            },
    {
        if is_blank(xml) {
            return Err(ComicInfoParseError::EmptyXml);
        }
        let events = match xml_events(xml) {
            Some(evs) => evs,
            None => return Err(ComicInfoParseError::Syntax),
        };
        match check_structure(&events) {
            Ok(()) => {},
            Err(e) => return Err(e),
        }
        let tokens = match decode_events(&events) {
            Some(ts) => ts,
            None => return Err(ComicInfoParseError::Syntax),
        };
        match build_document(&tokens) {
            Some(d) => Ok(d),
            None => Err(ComicInfoParseError::Schema),
        }
    }
}

/// Reads a document and writes it back in canonical form; a read error
/// becomes `Parse error: ` and its description.
pub fn format_comicinfo_xml_str(xml: &str) -> (r: Result<String, String>)
    ensures
        match parse_spec(xml@) {
            Ok(v) => r matches Ok(t) && t@ == doc_text(v),
            Err(e) => r matches Err(m) && m@ == "Parse error: "@ + parse_error_text(e),
        },
{
    match ComicInfo::parse(xml) {
        Ok(d) => match d.to_xml() {
            Ok(t) => Ok(t),
            Err(_) => Err(String::new()),
        },
        Err(e) => {
            let mut m = string_of("Parse error: ");
            push_str(&mut m, e.message());
            Err(m)
        },
    }
}

/// The text form of a document's reformatting.
pub fn format_comicinfo_xml(xml: String) -> (r: Result<String, String>)
    ensures
        match parse_spec(xml@) {
            Ok(v) => r matches Ok(t) && t@ == doc_text(v),
            Err(e) => r matches Err(m) && m@ == "Parse error: "@ + parse_error_text(e),
        },
{
    format_comicinfo_xml_str(xml.as_str())
}

/// Reads and validates a document: `Ok` exactly when it reads and every
/// page index is non-negative.
pub fn validate_comicinfo_xml(xml: String) -> (r: Result<(), String>)
    ensures
        r is Ok <==> (parse_spec(xml@) matches Ok(v) && pages_nonnegative(v.pages)),
        parse_spec(xml@) matches Err(e) ==> (r matches Err(m) && m@ == "Parse error: "@ + parse_error_text(e)),
{
    match ComicInfo::parse(xml.as_str()) {
        Ok(d) => match d.validate() {
            Ok(()) => Ok(()),
            Err(_) => Err(string_of("Validation error: ComicInfo validation failed: Page image index must be non-negative")),
        },
        Err(e) => {
            let mut m = string_of("Parse error: ");
            push_str(&mut m, e.message());
            Err(m)
        },
    }
}

} // verus!

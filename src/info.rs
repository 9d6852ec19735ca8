//! The metadata document: its model, its defaults and its text form.
use vstd::prelude::*;
use crate::number::int_text;
use crate::page::{ComicPageInfo, PageView, Pages, pages_view};
use crate::text::push_str;
use crate::types::{
    AgeRating, Manga, YesNo, age_rating_text, manga_text, page_type_text, yes_no_text,
};
use crate::xml::{escaped, push_escaped, push_text_escaped, text_escaped};

verus! {

/// The metadata document. Absent text fields are `None`; integer fields use
/// −1 (or 0 for the page count) and enumerations `Unknown` for absent.
/// `community_rating` holds the rating as written.
#[derive(Debug, Clone, PartialEq)]
pub struct ComicInfo {
    pub title: Option<String>,
    pub series: Option<String>,
    pub number: Option<String>,
    pub count: i32,
    pub volume: i32,
    pub alternate_series: Option<String>,
    pub alternate_number: Option<String>,
    pub alternate_count: i32,
    pub summary: Option<String>,
    pub notes: Option<String>,
    pub year: i32,
    pub month: i32,
    pub day: i32,
    pub writer: Option<String>,
    pub penciller: Option<String>,
    pub inker: Option<String>,
    pub colorist: Option<String>,
    pub letterer: Option<String>,
    pub cover_artist: Option<String>,
    pub editor: Option<String>,
    pub translator: Option<String>,
    pub publisher: Option<String>,
    pub imprint: Option<String>,
    pub genre: Option<String>,
    pub tags: Option<String>,
    pub web: Option<String>,
    pub page_count: i32,
    pub language_iso: Option<String>,
    pub format: Option<String>,
    pub black_and_white: YesNo,
    pub manga: Manga,
    pub characters: Option<String>,
    pub teams: Option<String>,
    pub locations: Option<String>,
    pub scan_information: Option<String>,
    pub story_arc: Option<String>,
    pub story_arc_number: Option<String>,
    pub series_group: Option<String>,
    pub age_rating: AgeRating,
    pub pages: Option<Pages>,
    pub community_rating: Option<String>,
    pub main_character_or_team: Option<String>,
    pub review: Option<String>,
    pub gtin: Option<String>,
}

/// The document as plain values.
pub struct InfoView {
    pub title: Option<Seq<char>>,
    pub series: Option<Seq<char>>,
    pub number: Option<Seq<char>>,
    pub count: i32,
    pub volume: i32,
    pub alternate_series: Option<Seq<char>>,
    pub alternate_number: Option<Seq<char>>,
    pub alternate_count: i32,
    pub summary: Option<Seq<char>>,
    pub notes: Option<Seq<char>>,
    pub year: i32,
    pub month: i32,
    pub day: i32,
    pub writer: Option<Seq<char>>,
    pub penciller: Option<Seq<char>>,
    pub inker: Option<Seq<char>>,
    pub colorist: Option<Seq<char>>,
    pub letterer: Option<Seq<char>>,
    pub cover_artist: Option<Seq<char>>,
    pub editor: Option<Seq<char>>,
    pub translator: Option<Seq<char>>,
    pub publisher: Option<Seq<char>>,
    pub imprint: Option<Seq<char>>,
    pub genre: Option<Seq<char>>,
    pub tags: Option<Seq<char>>,
    pub web: Option<Seq<char>>,
    pub page_count: i32,
    pub language_iso: Option<Seq<char>>,
    pub format: Option<Seq<char>>,
    pub black_and_white: YesNo,
    pub manga: Manga,
    pub characters: Option<Seq<char>>,
    pub teams: Option<Seq<char>>,
    pub locations: Option<Seq<char>>,
    pub scan_information: Option<Seq<char>>,
    pub story_arc: Option<Seq<char>>,
    pub story_arc_number: Option<Seq<char>>,
    pub series_group: Option<Seq<char>>,
    pub age_rating: AgeRating,
    pub pages: Option<Seq<PageView>>,
    pub community_rating: Option<Seq<char>>,
    pub main_character_or_team: Option<Seq<char>>,
    pub review: Option<Seq<char>>,
    pub gtin: Option<Seq<char>>,
}

pub open spec fn opt_str_view(s: Option<String>) -> Option<Seq<char>> {
    match s {
        Some(t) => Some(t@),
        None => None,
    }
}

pub open spec fn opt_pages_view(p: Option<Pages>) -> Option<Seq<PageView>> {
    match p {
        Some(ps) => Some(pages_view(ps.page@)),
        None => None,
    }
}

impl View for ComicInfo {
    type V = InfoView;

    open spec fn view(&self) -> InfoView {
        InfoView {
            title: opt_str_view(self.title),
            series: opt_str_view(self.series),
            number: opt_str_view(self.number),
            count: self.count,
            volume: self.volume,
            alternate_series: opt_str_view(self.alternate_series),
            alternate_number: opt_str_view(self.alternate_number),
            alternate_count: self.alternate_count,
            summary: opt_str_view(self.summary),
            notes: opt_str_view(self.notes),
            year: self.year,
            month: self.month,
            day: self.day,
            writer: opt_str_view(self.writer),
            penciller: opt_str_view(self.penciller),
            inker: opt_str_view(self.inker),
            colorist: opt_str_view(self.colorist),
            letterer: opt_str_view(self.letterer),
            cover_artist: opt_str_view(self.cover_artist),
            editor: opt_str_view(self.editor),
            translator: opt_str_view(self.translator),
            publisher: opt_str_view(self.publisher),
            imprint: opt_str_view(self.imprint),
            genre: opt_str_view(self.genre),
            tags: opt_str_view(self.tags),
            web: opt_str_view(self.web),
            page_count: self.page_count,
            language_iso: opt_str_view(self.language_iso),
            format: opt_str_view(self.format),
            black_and_white: self.black_and_white,
            manga: self.manga,
            characters: opt_str_view(self.characters),
            teams: opt_str_view(self.teams),
            locations: opt_str_view(self.locations),
            scan_information: opt_str_view(self.scan_information),
            story_arc: opt_str_view(self.story_arc),
            story_arc_number: opt_str_view(self.story_arc_number),
            series_group: opt_str_view(self.series_group),
            age_rating: self.age_rating,
            community_rating: opt_str_view(self.community_rating),
            main_character_or_team: opt_str_view(self.main_character_or_team),
            review: opt_str_view(self.review),
            gtin: opt_str_view(self.gtin),
            pages: opt_pages_view(self.pages),
        }
    }
}

/// The document with every field absent.
pub open spec fn default_view() -> InfoView {
    InfoView {
        title: None,
        series: None,
        number: None,
        count: -1i32,
        volume: -1i32,
        alternate_series: None,
        alternate_number: None,
        alternate_count: -1i32,
        summary: None,
        notes: None,
        year: -1i32,
        month: -1i32,
        day: -1i32,
        writer: None,
        penciller: None,
        inker: None,
        colorist: None,
        letterer: None,
        cover_artist: None,
        editor: None,
        translator: None,
        publisher: None,
        imprint: None,
        genre: None,
        tags: None,
        web: None,
        page_count: 0i32,
        language_iso: None,
        format: None,
        black_and_white: YesNo::Unknown,
        manga: Manga::Unknown,
        characters: None,
        teams: None,
        locations: None,
        scan_information: None,
        story_arc: None,
        story_arc_number: None,
        series_group: None,
        age_rating: AgeRating::Unknown,
        community_rating: None,
        main_character_or_team: None,
        review: None,
        gtin: None,
        pages: None,
    }
}

impl Default for ComicInfo {
    fn default() -> (r: ComicInfo)
        ensures
            r@ == default_view(),
    {
        ComicInfo {
            title: None,
            series: None,
            number: None,
            count: -1,
            volume: -1,
            alternate_series: None,
            alternate_number: None,
            alternate_count: -1,
            summary: None,
            notes: None,
            year: -1,
            month: -1,
            day: -1,
            writer: None,
            penciller: None,
            inker: None,
            colorist: None,
            letterer: None,
            cover_artist: None,
            editor: None,
            translator: None,
            publisher: None,
            imprint: None,
            genre: None,
            tags: None,
            web: None,
            page_count: 0,
            language_iso: None,
            format: None,
            black_and_white: YesNo::Unknown,
            manga: Manga::Unknown,
            characters: None,
            teams: None,
            locations: None,
            scan_information: None,
            story_arc: None,
            story_arc_number: None,
            series_group: None,
            age_rating: AgeRating::Unknown,
            community_rating: None,
            main_character_or_team: None,
            review: None,
            gtin: None,
            pages: None,
        }
    }
}

/// An element name with its text.
pub type ElementView = (Seq<char>, Seq<char>);

/// A text field's element: present exactly when the field is.
pub open spec fn str_chunk(name: Seq<char>, v: Option<Seq<char>>) -> Seq<ElementView> {
    match v {
        Some(t) => seq![(name, t)],
        None => Seq::empty(),
    }
}

/// An integer field's element: present exactly when the value is not the
/// field's absent value.
pub open spec fn int_chunk(name: Seq<char>, v: i32, absent: i32) -> Seq<ElementView> {
    if v == absent {
        Seq::empty()
    } else {
        seq![(name, int_text(v as int))]
    }
}

/// An enumeration field's element: present exactly when the value is not
/// `Unknown`.
pub open spec fn enum_chunk(name: Seq<char>, unknown: bool, text: Seq<char>) -> Seq<ElementView> {
    if unknown {
        Seq::empty()
    } else {
        seq![(name, text)]
    }
}

pub open spec fn elements_0(v: InfoView) -> Seq<ElementView> {
    Seq::empty()
        + str_chunk("Title"@, v.title)
        + str_chunk("Series"@, v.series)
        + str_chunk("Number"@, v.number)
        + int_chunk("Count"@, v.count, -1i32)
        + int_chunk("Volume"@, v.volume, -1i32)
}

pub open spec fn elements_1(v: InfoView) -> Seq<ElementView> {
    Seq::empty()
        + str_chunk("AlternateSeries"@, v.alternate_series)
        + str_chunk("AlternateNumber"@, v.alternate_number)
        + int_chunk("AlternateCount"@, v.alternate_count, -1i32)
        + str_chunk("Summary"@, v.summary)
        + str_chunk("Notes"@, v.notes)
}

pub open spec fn elements_2(v: InfoView) -> Seq<ElementView> {
    Seq::empty()
        + int_chunk("Year"@, v.year, -1i32)
        + int_chunk("Month"@, v.month, -1i32)
        + int_chunk("Day"@, v.day, -1i32)
        + str_chunk("Writer"@, v.writer)
        + str_chunk("Penciller"@, v.penciller)
}

pub open spec fn elements_3(v: InfoView) -> Seq<ElementView> {
    Seq::empty()
        + str_chunk("Inker"@, v.inker)
        + str_chunk("Colorist"@, v.colorist)
        + str_chunk("Letterer"@, v.letterer)
        + str_chunk("CoverArtist"@, v.cover_artist)
        + str_chunk("Editor"@, v.editor)
}

pub open spec fn elements_4(v: InfoView) -> Seq<ElementView> {
    Seq::empty()
        + str_chunk("Translator"@, v.translator)
        + str_chunk("Publisher"@, v.publisher)
        + str_chunk("Imprint"@, v.imprint)
        + str_chunk("Genre"@, v.genre)
        + str_chunk("Tags"@, v.tags)
}

pub open spec fn elements_5(v: InfoView) -> Seq<ElementView> {
    Seq::empty()
        + str_chunk("Web"@, v.web)
        + int_chunk("PageCount"@, v.page_count, 0i32)
        + str_chunk("LanguageISO"@, v.language_iso)
        + str_chunk("Format"@, v.format)
        + enum_chunk("BlackAndWhite"@, v.black_and_white == YesNo::Unknown, yes_no_text(v.black_and_white))
}

pub open spec fn elements_6(v: InfoView) -> Seq<ElementView> {
    Seq::empty()
        + enum_chunk("Manga"@, v.manga == Manga::Unknown, manga_text(v.manga))
        + str_chunk("Characters"@, v.characters)
        + str_chunk("Teams"@, v.teams)
        + str_chunk("Locations"@, v.locations)
        + str_chunk("ScanInformation"@, v.scan_information)
}

pub open spec fn elements_7(v: InfoView) -> Seq<ElementView> {
    Seq::empty()
        + str_chunk("StoryArc"@, v.story_arc)
        + str_chunk("StoryArcNumber"@, v.story_arc_number)
        + str_chunk("SeriesGroup"@, v.series_group)
        + enum_chunk("AgeRating"@, v.age_rating == AgeRating::Unknown, age_rating_text(v.age_rating))
}

pub open spec fn elements_8(v: InfoView) -> Seq<ElementView> {
    Seq::empty()
        + str_chunk("CommunityRating"@, v.community_rating)
        + str_chunk("MainCharacterOrTeam"@, v.main_character_or_team)
        + str_chunk("Review"@, v.review)
        + str_chunk("GTIN"@, v.gtin)
}

/// The elements before the page list, in schema order, each omitted where
/// its field is absent.
pub open spec fn head_elements(v: InfoView) -> Seq<ElementView> {
    elements_0(v) + elements_1(v) + elements_2(v) + elements_3(v) + elements_4(v) + elements_5(v) + elements_6(v) + elements_7(v)
}

/// The elements after the page list.
pub open spec fn tail_elements(v: InfoView) -> Seq<ElementView> {
    elements_8(v)
}

pub open spec fn string_pair_views(v: Seq<(String, String)>) -> Seq<ElementView> {
    v.map_values(|p: (String, String)| (p.0@, p.1@))
}

fn push_str_element(out: &mut Vec<(String, String)>, name: &str, v: &Option<String>)
    ensures
        string_pair_views(final(out)@) == string_pair_views(old(out)@) + str_chunk(name@, opt_str_view(*v)),
{
    match v {
        Some(t) => {
            out.push((crate::text::string_of(name), t.clone()));
        },
        None => {},
    }
    assert(string_pair_views(out@) =~= string_pair_views(old(out)@) + str_chunk(name@, opt_str_view(*v)));
}

fn push_int_element(out: &mut Vec<(String, String)>, name: &str, v: i32, absent: i32)
    ensures
        string_pair_views(final(out)@) == string_pair_views(old(out)@) + int_chunk(name@, v, absent),
{
    if v != absent {
        out.push((crate::text::string_of(name), crate::number::int_to_string(v as i64)));
    }
    assert(string_pair_views(out@) =~= string_pair_views(old(out)@) + int_chunk(name@, v, absent));
}

fn push_enum_element(out: &mut Vec<(String, String)>, name: &str, unknown: bool, text: &str)
    ensures
        string_pair_views(final(out)@) == string_pair_views(old(out)@) + enum_chunk(name@, unknown, text@),
{
    if !unknown {
        out.push((crate::text::string_of(name), crate::text::string_of(text)));
    }
    assert(string_pair_views(out@) =~= string_pair_views(old(out)@) + enum_chunk(name@, unknown, text@));
}

fn push_elements_0(d: &ComicInfo, out: &mut Vec<(String, String)>)
    ensures
        string_pair_views(final(out)@) == string_pair_views(old(out)@) + elements_0(d@),
{
    let ghost start = string_pair_views(out@);
    push_str_element(out, "Title", &d.title);
    push_str_element(out, "Series", &d.series);
    push_str_element(out, "Number", &d.number);
    push_int_element(out, "Count", d.count, -1);
    push_int_element(out, "Volume", d.volume, -1);
    assert(string_pair_views(out@) =~= start + (Seq::<ElementView>::empty() + str_chunk("Title"@, d@.title) + str_chunk("Series"@, d@.series) + str_chunk("Number"@, d@.number) + int_chunk("Count"@, d@.count, -1i32) + int_chunk("Volume"@, d@.volume, -1i32)));
}

fn push_elements_1(d: &ComicInfo, out: &mut Vec<(String, String)>)
    ensures
        string_pair_views(final(out)@) == string_pair_views(old(out)@) + elements_1(d@),
{
    let ghost start = string_pair_views(out@);
    push_str_element(out, "AlternateSeries", &d.alternate_series);
    push_str_element(out, "AlternateNumber", &d.alternate_number);
    push_int_element(out, "AlternateCount", d.alternate_count, -1);
    push_str_element(out, "Summary", &d.summary);
    push_str_element(out, "Notes", &d.notes);
    assert(string_pair_views(out@) =~= start + (Seq::<ElementView>::empty() + str_chunk("AlternateSeries"@, d@.alternate_series) + str_chunk("AlternateNumber"@, d@.alternate_number) + int_chunk("AlternateCount"@, d@.alternate_count, -1i32) + str_chunk("Summary"@, d@.summary) + str_chunk("Notes"@, d@.notes)));
}

fn push_elements_2(d: &ComicInfo, out: &mut Vec<(String, String)>)
    ensures
        string_pair_views(final(out)@) == string_pair_views(old(out)@) + elements_2(d@),
{
    let ghost start = string_pair_views(out@);
    push_int_element(out, "Year", d.year, -1);
    push_int_element(out, "Month", d.month, -1);
    push_int_element(out, "Day", d.day, -1);
    push_str_element(out, "Writer", &d.writer);
    push_str_element(out, "Penciller", &d.penciller);
    assert(string_pair_views(out@) =~= start + (Seq::<ElementView>::empty() + int_chunk("Year"@, d@.year, -1i32) + int_chunk("Month"@, d@.month, -1i32) + int_chunk("Day"@, d@.day, -1i32) + str_chunk("Writer"@, d@.writer) + str_chunk("Penciller"@, d@.penciller)));
}

fn push_elements_3(d: &ComicInfo, out: &mut Vec<(String, String)>)
    ensures
        string_pair_views(final(out)@) == string_pair_views(old(out)@) + elements_3(d@),
{
    let ghost start = string_pair_views(out@);
    push_str_element(out, "Inker", &d.inker);
    push_str_element(out, "Colorist", &d.colorist);
    push_str_element(out, "Letterer", &d.letterer);
    push_str_element(out, "CoverArtist", &d.cover_artist);
    push_str_element(out, "Editor", &d.editor);
    assert(string_pair_views(out@) =~= start + (Seq::<ElementView>::empty() + str_chunk("Inker"@, d@.inker) + str_chunk("Colorist"@, d@.colorist) + str_chunk("Letterer"@, d@.letterer) + str_chunk("CoverArtist"@, d@.cover_artist) + str_chunk("Editor"@, d@.editor)));
}

fn push_elements_4(d: &ComicInfo, out: &mut Vec<(String, String)>)
    ensures
        string_pair_views(final(out)@) == string_pair_views(old(out)@) + elements_4(d@),
{
    let ghost start = string_pair_views(out@);
    push_str_element(out, "Translator", &d.translator);
    push_str_element(out, "Publisher", &d.publisher);
    push_str_element(out, "Imprint", &d.imprint);
    push_str_element(out, "Genre", &d.genre);
    push_str_element(out, "Tags", &d.tags);
    assert(string_pair_views(out@) =~= start + (Seq::<ElementView>::empty() + str_chunk("Translator"@, d@.translator) + str_chunk("Publisher"@, d@.publisher) + str_chunk("Imprint"@, d@.imprint) + str_chunk("Genre"@, d@.genre) + str_chunk("Tags"@, d@.tags)));
}

fn push_elements_5(d: &ComicInfo, out: &mut Vec<(String, String)>)
    ensures
        string_pair_views(final(out)@) == string_pair_views(old(out)@) + elements_5(d@),
{
    let ghost start = string_pair_views(out@);
    push_str_element(out, "Web", &d.web);
    push_int_element(out, "PageCount", d.page_count, 0);
    push_str_element(out, "LanguageISO", &d.language_iso);
    push_str_element(out, "Format", &d.format);
    push_enum_element(out, "BlackAndWhite", d.black_and_white == YesNo::Unknown, d.black_and_white.text());
    assert(string_pair_views(out@) =~= start + (Seq::<ElementView>::empty() + str_chunk("Web"@, d@.web) + int_chunk("PageCount"@, d@.page_count, 0i32) + str_chunk("LanguageISO"@, d@.language_iso) + str_chunk("Format"@, d@.format) + enum_chunk("BlackAndWhite"@, d@.black_and_white == YesNo::Unknown, yes_no_text(d@.black_and_white))));
}

fn push_elements_6(d: &ComicInfo, out: &mut Vec<(String, String)>)
    ensures
        string_pair_views(final(out)@) == string_pair_views(old(out)@) + elements_6(d@),
{
    let ghost start = string_pair_views(out@);
    push_enum_element(out, "Manga", d.manga == Manga::Unknown, d.manga.text());
    push_str_element(out, "Characters", &d.characters);
    push_str_element(out, "Teams", &d.teams);
    push_str_element(out, "Locations", &d.locations);
    push_str_element(out, "ScanInformation", &d.scan_information);
    assert(string_pair_views(out@) =~= start + (Seq::<ElementView>::empty() + enum_chunk("Manga"@, d@.manga == Manga::Unknown, manga_text(d@.manga)) + str_chunk("Characters"@, d@.characters) + str_chunk("Teams"@, d@.teams) + str_chunk("Locations"@, d@.locations) + str_chunk("ScanInformation"@, d@.scan_information)));
}

fn push_elements_7(d: &ComicInfo, out: &mut Vec<(String, String)>)
    ensures
        string_pair_views(final(out)@) == string_pair_views(old(out)@) + elements_7(d@),
{
    let ghost start = string_pair_views(out@);
    push_str_element(out, "StoryArc", &d.story_arc);
    push_str_element(out, "StoryArcNumber", &d.story_arc_number);
    push_str_element(out, "SeriesGroup", &d.series_group);
    push_enum_element(out, "AgeRating", d.age_rating == AgeRating::Unknown, d.age_rating.text());
    assert(string_pair_views(out@) =~= start + (Seq::<ElementView>::empty() + str_chunk("StoryArc"@, d@.story_arc) + str_chunk("StoryArcNumber"@, d@.story_arc_number) + str_chunk("SeriesGroup"@, d@.series_group) + enum_chunk("AgeRating"@, d@.age_rating == AgeRating::Unknown, age_rating_text(d@.age_rating))));
}

fn push_elements_8(d: &ComicInfo, out: &mut Vec<(String, String)>)
    ensures
        string_pair_views(final(out)@) == string_pair_views(old(out)@) + elements_8(d@),
{
    let ghost start = string_pair_views(out@);
    push_str_element(out, "CommunityRating", &d.community_rating);
    push_str_element(out, "MainCharacterOrTeam", &d.main_character_or_team);
    push_str_element(out, "Review", &d.review);
    push_str_element(out, "GTIN", &d.gtin);
    assert(string_pair_views(out@) =~= start + (Seq::<ElementView>::empty() + str_chunk("CommunityRating"@, d@.community_rating) + str_chunk("MainCharacterOrTeam"@, d@.main_character_or_team) + str_chunk("Review"@, d@.review) + str_chunk("GTIN"@, d@.gtin)));
}

/// One element on its own line, indented under the root.
pub open spec fn element_text(e: ElementView) -> Seq<char> {
    "\n  <"@ + e.0 + ">"@ + text_escaped(e.1) + "</"@ + e.0 + ">"@
}

pub open spec fn elements_text(els: Seq<ElementView>) -> Seq<char>
    decreases els.len(),
{
    if els.len() == 0 {
        Seq::empty()
    } else {
        elements_text(els.drop_last()) + element_text(els.last())
    }
}

/// A page's attributes in their fixed order: the index always, every other
/// one only where it differs from its default.
pub open spec fn page_attributes(p: PageView) -> Seq<ElementView> {
    seq![("Image"@, int_text(p.image as int))]
        + (match p.type_ {
            Some(t) => seq![("Type"@, page_type_text(t))],
            None => Seq::empty(),
        })
        + (if p.double_page { seq![("DoublePage"@, "true"@)] } else { Seq::empty() })
        + (if p.image_size != 0 { seq![("ImageSize"@, int_text(p.image_size as int))] } else { Seq::empty() })
        + (if p.key.len() != 0 { seq![("Key"@, p.key)] } else { Seq::empty() })
        + (if p.bookmark.len() != 0 { seq![("Bookmark"@, p.bookmark)] } else { Seq::empty() })
        + (if p.image_width != -1 { seq![("ImageWidth"@, int_text(p.image_width as int))] } else { Seq::empty() })
        + (if p.image_height != -1 { seq![("ImageHeight"@, int_text(p.image_height as int))] } else { Seq::empty() })
}

pub open spec fn attributes_text(attrs: Seq<ElementView>) -> Seq<char>
    decreases attrs.len(),
{
    if attrs.len() == 0 {
        Seq::empty()
    } else {
        attributes_text(attrs.drop_last()) + " "@ + attrs.last().0 + "=\""@ + escaped(attrs.last().1) + "\""@
    }
}

/// The comment that carries a page's file name.
pub open spec fn filename_comment(f: Seq<char>) -> Seq<char> {
    " filename: "@ + f + " "@
}

/// A page element, preceded by its file-name comment where it has a file name.
pub open spec fn page_text(p: PageView) -> Seq<char> {
    (match p.filename {
        Some(f) => "\n    <!--"@ + filename_comment(f) + "-->"@,
        None => Seq::empty(),
    }) + "\n    <Page"@ + attributes_text(page_attributes(p)) + "/>"@
}

pub open spec fn pages_body(ps: Seq<PageView>) -> Seq<char>
    decreases ps.len(),
{
    if ps.len() == 0 {
        Seq::empty()
    } else {
        pages_body(ps.drop_last()) + page_text(ps.last())
    }
}

pub open spec fn pages_text(pages: Option<Seq<PageView>>) -> Seq<char> {
    match pages {
        Some(ps) => "\n  <Pages>"@ + pages_body(ps) + "\n  </Pages>"@,
        None => Seq::empty(),
    }
}

/// The document's text: a declaration, then the root element with one
/// indented line per present field and page.
pub open spec fn doc_text(v: InfoView) -> Seq<char> {
    "<?xml version=\"1.0\" encoding=\"UTF-8\"?>"@ + "\n<ComicInfo>"@ + elements_text(head_elements(v))
        + pages_text(v.pages) + elements_text(tail_elements(v)) + "\n</ComicInfo>"@
}

fn push_elements(out: &mut String, els: &Vec<(String, String)>)
    ensures
        final(out)@ == old(out)@ + elements_text(string_pair_views(els@)),
{
    let mut i: usize = 0;
    while i < els.len()
        invariant
            i <= els@.len(),
            out@ == old(out)@ + elements_text(string_pair_views(els@.subrange(0, i as int))),
        decreases els@.len() - i,
    {
        let ghost before = out@;
        let name = els[i].0.as_str();
        push_str(out, "\n  <");
        push_str(out, name);
        push_str(out, ">");
        push_text_escaped(out, els[i].1.as_str());
        push_str(out, "</");
        push_str(out, name);
        push_str(out, ">");
        assert(string_pair_views(els@.subrange(0, i + 1)).drop_last() =~= string_pair_views(els@.subrange(0, i as int)));
        assert(out@ =~= before + element_text(string_pair_views(els@.subrange(0, i + 1)).last()));
        i = i + 1;
    }
    assert(els@.subrange(0, els@.len() as int) =~= els@);
}

fn push_attributes(out: &mut String, attrs: &Vec<(String, String)>)
    ensures
        final(out)@ == old(out)@ + attributes_text(string_pair_views(attrs@)),
{
    let mut i: usize = 0;
    while i < attrs.len()
        invariant
            i <= attrs@.len(),
            out@ == old(out)@ + attributes_text(string_pair_views(attrs@.subrange(0, i as int))),
        decreases attrs@.len() - i,
    {
        let ghost before = out@;
        push_str(out, " ");
        push_str(out, attrs[i].0.as_str());
        push_str(out, "=\"");
        push_escaped(out, attrs[i].1.as_str());
        push_str(out, "\"");
        let ghost now = string_pair_views(attrs@.subrange(0, i + 1));
        assert(now.drop_last() =~= string_pair_views(attrs@.subrange(0, i as int)));
        assert(out@ =~= before + " "@ + now.last().0 + "=\""@ + escaped(now.last().1) + "\""@);
        i = i + 1;
    }
    assert(attrs@.subrange(0, attrs@.len() as int) =~= attrs@);
}

fn push_attr_if(r: &mut Vec<(String, String)>, cond: bool, name: &str, value: String)
    ensures
        string_pair_views(final(r)@) == string_pair_views(old(r)@)
            + (if cond { seq![(name@, value@)] } else { Seq::<ElementView>::empty() }),
{
    if cond {
        r.push((crate::text::string_of(name), value));
    }
    assert(string_pair_views(r@) =~= string_pair_views(old(r)@)
        + (if cond { seq![(name@, value@)] } else { Seq::<ElementView>::empty() }));
}

pub open spec fn page_attributes_head(p: PageView) -> Seq<ElementView> {
    seq![("Image"@, int_text(p.image as int))]
        + (match p.type_ {
            Some(t) => seq![("Type"@, page_type_text(t))],
            None => Seq::empty(),
        })
        + (if p.double_page { seq![("DoublePage"@, "true"@)] } else { Seq::empty() })
        + (if p.image_size != 0 { seq![("ImageSize"@, int_text(p.image_size as int))] } else { Seq::empty() })
}

pub open spec fn page_attributes_tail(p: PageView) -> Seq<ElementView> {
    (if p.key.len() != 0 { seq![("Key"@, p.key)] } else { Seq::empty() })
        + (if p.bookmark.len() != 0 { seq![("Bookmark"@, p.bookmark)] } else { Seq::empty() })
        + (if p.image_width != -1 { seq![("ImageWidth"@, int_text(p.image_width as int))] } else { Seq::empty() })
        + (if p.image_height != -1 { seq![("ImageHeight"@, int_text(p.image_height as int))] } else { Seq::empty() })
}

fn page_attributes_head_list(p: &ComicPageInfo) -> (r: Vec<(String, String)>)
    ensures
        string_pair_views(r@) == page_attributes_head(p@),
{
    let mut r: Vec<(String, String)> = Vec::new();
    push_attr_if(&mut r, true, "Image", crate::number::int_to_string(p.image as i64));
    let type_text = match p.type_ {
        Some(t) => crate::text::string_of(t.text()),
        None => String::new(),
    };
    push_attr_if(&mut r, p.type_.is_some(), "Type", type_text);
    push_attr_if(&mut r, p.double_page, "DoublePage", crate::text::string_of("true"));
    push_attr_if(&mut r, p.image_size != 0, "ImageSize", crate::number::int_to_string(p.image_size));
    assert(string_pair_views(r@) =~= page_attributes_head(p@));
    r
}

fn page_attributes_tail_list(p: &ComicPageInfo) -> (r: Vec<(String, String)>)
    ensures
        string_pair_views(r@) == page_attributes_tail(p@),
{
    let mut r: Vec<(String, String)> = Vec::new();
    push_attr_if(&mut r, p.key.as_str().unicode_len() != 0, "Key", p.key.clone());
    push_attr_if(&mut r, p.bookmark.as_str().unicode_len() != 0, "Bookmark", p.bookmark.clone());
    push_attr_if(&mut r, p.image_width != -1, "ImageWidth", crate::number::int_to_string(p.image_width as i64));
    push_attr_if(&mut r, p.image_height != -1, "ImageHeight", crate::number::int_to_string(p.image_height as i64));
    assert(string_pair_views(r@) =~= page_attributes_tail(p@));
    r
}

/// The page's attributes in their fixed order, defaults left out.
pub fn page_attribute_list(p: &ComicPageInfo) -> (r: Vec<(String, String)>)
    ensures
        string_pair_views(r@) == page_attributes(p@),
{
    let mut r = page_attributes_head_list(p);
    let mut t = page_attributes_tail_list(p);
    let ghost h = r@;
    let ghost tl = t@;
    r.append(&mut t);
    assert(string_pair_views(r@) =~= string_pair_views(h) + string_pair_views(tl));
    assert(page_attributes(p@) =~= page_attributes_head(p@) + page_attributes_tail(p@));
    r
}

fn push_page(out: &mut String, p: &ComicPageInfo)
    ensures
        final(out)@ == old(out)@ + page_text(p@),
{
    match &p.filename {
        Some(f) => {
            push_str(out, "\n    <!-- filename: ");
            push_str(out, f.as_str());
            push_str(out, " -->");
            proof {
                reveal_strlit("\n    <!-- filename: ");
                reveal_strlit("\n    <!--");
                reveal_strlit(" filename: ");
                reveal_strlit(" -->");
                reveal_strlit(" ");
                reveal_strlit("-->");
            }
            assert(out@ =~= old(out)@ + ("\n    <!--"@ + filename_comment(f@) + "-->"@));
        },
        None => {},
    }
    let ghost mid = out@;
    push_str(out, "\n    <Page");
    let attrs = page_attribute_list(p);
    push_attributes(out, &attrs);
    push_str(out, "/>");
    assert(out@ =~= old(out)@ + page_text(p@));
}

fn push_pages(out: &mut String, pages: &Option<Pages>)
    ensures
        final(out)@ == old(out)@ + pages_text(opt_pages_view(*pages)),
{
    match pages {
        Some(ps) => {
            push_str(out, "\n  <Pages>");
            let ghost start = out@;
            let mut i: usize = 0;
            while i < ps.page.len()
                invariant
                    i <= ps.page@.len(),
                    out@ == start + pages_body(pages_view(ps.page@.subrange(0, i as int))),
                decreases ps.page@.len() - i,
            {
                push_page(out, &ps.page[i]);
                assert(pages_view(ps.page@.subrange(0, i + 1)).drop_last() =~= pages_view(ps.page@.subrange(0, i as int)));
                i = i + 1;
            }
            assert(ps.page@.subrange(0, ps.page@.len() as int) =~= ps.page@);
            push_str(out, "\n  </Pages>");
            assert(out@ =~= old(out)@ + pages_text(opt_pages_view(*pages)));
        },
        None => {},
    }
}

impl ComicInfo {
    /// The document's text; see `doc_text`.
    pub fn to_xml(&self) -> (r: Result<String, ComicInfoError>)
        ensures
            r is Ok,
            r matches Ok(t) ==> t@ == doc_text(self@),
    {
        let mut head: Vec<(String, String)> = Vec::new();
        push_elements_0(self, &mut head);
        push_elements_1(self, &mut head);
        push_elements_2(self, &mut head);
        push_elements_3(self, &mut head);
        push_elements_4(self, &mut head);
        push_elements_5(self, &mut head);
        push_elements_6(self, &mut head);
        push_elements_7(self, &mut head);
        assert(string_pair_views(head@) =~= head_elements(self@));
        let mut tail: Vec<(String, String)> = Vec::new();
        push_elements_8(self, &mut tail);
        assert(string_pair_views(tail@) =~= tail_elements(self@));
        let mut out = String::new();
        push_str(&mut out, "<?xml version=\"1.0\" encoding=\"UTF-8\"?>");
        push_str(&mut out, "\n<ComicInfo>");
        push_elements(&mut out, &head);
        push_pages(&mut out, &self.pages);
        push_elements(&mut out, &tail);
        push_str(&mut out, "\n</ComicInfo>");
        assert(out@ =~= doc_text(self@));
        Ok(out)
    }

    /// Checks what the schema cannot: every page index is non-negative.
    pub fn validate(&self) -> (r: Result<(), ComicInfoError>)
        ensures
            r is Ok <==> pages_nonnegative(self@.pages),
            r matches Err(e) ==> e is Validate,
    {
        match &self.pages {
            Some(pages) => {
                assert(self@.pages == Some(pages_view(pages.page@)));
                let mut i: usize = 0;
                while i < pages.page.len()
                    invariant
                        i <= pages.page@.len(),
                        self@.pages == Some(pages_view(pages.page@)),
                        forall|j: int| 0 <= j < i ==> #[trigger] pages.page@[j].image >= 0,
                    decreases pages.page@.len() - i,
                {
                    if pages.page[i].image < 0 {
                        assert(pages_view(pages.page@)[i as int].image < 0);
                        assert(!(forall|j: int| 0 <= j < pages_view(pages.page@).len() ==> #[trigger] pages_view(pages.page@)[j].image >= 0));
                        return Err(ComicInfoError::Validate(crate::text::string_of("Page image index must be non-negative")));
                    }
                    i = i + 1;
                }
                assert forall|j: int| 0 <= j < pages.page@.len() implies #[trigger] pages_view(pages.page@)[j].image >= 0 by {
                    assert(pages.page@[j].image >= 0);
                }
                Ok(())
            },
            None => Ok(()),
        }
    }
}

/// Whether every page index is non-negative.
pub open spec fn pages_nonnegative(pages: Option<Seq<PageView>>) -> bool {
    match pages {
        Some(ps) => forall|i: int| 0 <= i < ps.len() ==> #[trigger] ps[i].image >= 0,
        None => true,
    }
}

/// A failure to write or to validate a document.
#[derive(Debug)]
pub enum ComicInfoError {
    ToXml(String),
    Validate(String),
}

/// The names of the bookmarked pages, in page-record order: for each record
/// with a non-empty bookmark whose index falls within `files`, the file at
/// that index.
pub open spec fn bookmarked_names(pages: Seq<PageView>, files: Seq<String>) -> Seq<Seq<char>>
    decreases pages.len(),
{
    if pages.len() == 0 {
        Seq::empty()
    } else {
        let rest = bookmarked_names(pages.drop_last(), files);
        let p = pages.last();
        if p.bookmark.len() != 0 && 0 <= p.image < files.len() {
            rest.push(files[p.image as int]@)
        } else {
            rest
        }
    }
}

pub open spec fn string_views(v: Seq<String>) -> Seq<Seq<char>> {
    v.map_values(|s: String| s@)
}

/// The file names of the bookmarked pages; none where there is no page list.
pub fn get_bookmarked_pages(comic_info: &ComicInfo, image_files: &Vec<String>) -> (r: Vec<String>)
    ensures
        string_views(r@) == match comic_info@.pages {
            Some(ps) => bookmarked_names(ps, image_files@),
            None => Seq::empty(),
        },
{
    let mut out: Vec<String> = Vec::new();
    match &comic_info.pages {
        Some(pages) => {
            let mut i: usize = 0;
            while i < pages.page.len()
                invariant
                    i <= pages.page@.len(),
                    string_views(out@) == bookmarked_names(pages_view(pages.page@.subrange(0, i as int)), image_files@),
                decreases pages.page@.len() - i,
            {
                let ghost prefix = pages_view(pages.page@.subrange(0, i + 1));
                assert(prefix.drop_last() =~= pages_view(pages.page@.subrange(0, i as int)));
                let page = &pages.page[i];
                if page.bookmark.as_str().unicode_len() != 0 && page.image >= 0
                    && (page.image as usize) < image_files.len() {
                    out.push(image_files[page.image as usize].clone());
                    assert(string_views(out@) =~= string_views(out@.drop_last()).push(out@.last()@));
                }
                i = i + 1;
            }
            assert(pages.page@.subrange(0, pages.page@.len() as int) =~= pages.page@);
        },
        None => {
            assert(string_views(out@) =~= Seq::<Seq<char>>::empty());
        },
    }
    out
}

} // verus!

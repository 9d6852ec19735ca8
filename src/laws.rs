//! Laws of the document format, stated over the markup tokens that a
//! document's text stands for. Reading those tokens back is the verified
//! reader of `parse`; turning text into tokens is `quick_xml`'s part.
use vstd::prelude::*;
use crate::info::{
    ElementView, InfoView, default_view, enum_chunk, filename_comment, head_elements, int_chunk,
    page_attributes, str_chunk, tail_elements,
};
use crate::number::{int_in_range_of, int_text, lemma_int_text_round_trip};
use crate::page::PageView;
use crate::parse::{
    BuildView, Phase, Token, build, build_run, comment_filename, default_page, filename_of_comment,
    initial_build, is_field_name, namespace_only, page_of_attributes, set_field,
    set_page_attribute, step, type_of_attribute,
};
use crate::types::{
    AgeRating, ComicPageType, Manga, YesNo, age_rating_text, manga_text, page_type_text, yes_no_text,
};
use crate::xml::{all_space, is_unicode_space, trim_end, trim_start};

verus! {

/// Enough of each element name to tell any two apart.
proof fn lemma_field_name_keys()
    ensures
        "Title"@.len() == 5 && "Title"@[0] == 'T' && "Title"@[2] == 't' && "Title"@[4] == 'e',
        "Series"@.len() == 6 && "Series"@[0] == 'S' && "Series"@[2] == 'r' && "Series"@[5] == 's',
        "Number"@.len() == 6 && "Number"@[0] == 'N' && "Number"@[2] == 'm' && "Number"@[5] == 'r',
        "Count"@.len() == 5 && "Count"@[0] == 'C' && "Count"@[2] == 'u' && "Count"@[4] == 't',
        "Volume"@.len() == 6 && "Volume"@[0] == 'V' && "Volume"@[2] == 'l' && "Volume"@[5] == 'e',
        "AlternateSeries"@.len() == 15 && "AlternateSeries"@[0] == 'A' && "AlternateSeries"@[2] == 't' && "AlternateSeries"@[14] == 's',
        "AlternateNumber"@.len() == 15 && "AlternateNumber"@[0] == 'A' && "AlternateNumber"@[2] == 't' && "AlternateNumber"@[14] == 'r',
        "AlternateCount"@.len() == 14 && "AlternateCount"@[0] == 'A' && "AlternateCount"@[2] == 't' && "AlternateCount"@[13] == 't',
        "Summary"@.len() == 7 && "Summary"@[0] == 'S' && "Summary"@[2] == 'm' && "Summary"@[6] == 'y',
        "Notes"@.len() == 5 && "Notes"@[0] == 'N' && "Notes"@[2] == 't' && "Notes"@[4] == 's',
        "Year"@.len() == 4 && "Year"@[0] == 'Y' && "Year"@[2] == 'a' && "Year"@[3] == 'r',
        "Month"@.len() == 5 && "Month"@[0] == 'M' && "Month"@[2] == 'n' && "Month"@[4] == 'h',
        "Day"@.len() == 3 && "Day"@[0] == 'D' && "Day"@[2] == 'y' && "Day"@[2] == 'y',
        "Writer"@.len() == 6 && "Writer"@[0] == 'W' && "Writer"@[2] == 'i' && "Writer"@[5] == 'r',
        "Penciller"@.len() == 9 && "Penciller"@[0] == 'P' && "Penciller"@[2] == 'n' && "Penciller"@[8] == 'r',
        "Inker"@.len() == 5 && "Inker"@[0] == 'I' && "Inker"@[2] == 'k' && "Inker"@[4] == 'r',
        "Colorist"@.len() == 8 && "Colorist"@[0] == 'C' && "Colorist"@[2] == 'l' && "Colorist"@[7] == 't',
        "Letterer"@.len() == 8 && "Letterer"@[0] == 'L' && "Letterer"@[2] == 't' && "Letterer"@[7] == 'r',
        "CoverArtist"@.len() == 11 && "CoverArtist"@[0] == 'C' && "CoverArtist"@[2] == 'v' && "CoverArtist"@[10] == 't',
        "Editor"@.len() == 6 && "Editor"@[0] == 'E' && "Editor"@[2] == 'i' && "Editor"@[5] == 'r',
        "Translator"@.len() == 10 && "Translator"@[0] == 'T' && "Translator"@[2] == 'a' && "Translator"@[9] == 'r',
        "Publisher"@.len() == 9 && "Publisher"@[0] == 'P' && "Publisher"@[2] == 'b' && "Publisher"@[8] == 'r',
        "Imprint"@.len() == 7 && "Imprint"@[0] == 'I' && "Imprint"@[2] == 'p' && "Imprint"@[6] == 't',
        "Genre"@.len() == 5 && "Genre"@[0] == 'G' && "Genre"@[2] == 'n' && "Genre"@[4] == 'e',
        "Tags"@.len() == 4 && "Tags"@[0] == 'T' && "Tags"@[2] == 'g' && "Tags"@[3] == 's',
        "Web"@.len() == 3 && "Web"@[0] == 'W' && "Web"@[2] == 'b' && "Web"@[2] == 'b',
        "PageCount"@.len() == 9 && "PageCount"@[0] == 'P' && "PageCount"@[2] == 'g' && "PageCount"@[8] == 't',
        "LanguageISO"@.len() == 11 && "LanguageISO"@[0] == 'L' && "LanguageISO"@[2] == 'n' && "LanguageISO"@[10] == 'O',
        "Format"@.len() == 6 && "Format"@[0] == 'F' && "Format"@[2] == 'r' && "Format"@[5] == 't',
        "BlackAndWhite"@.len() == 13 && "BlackAndWhite"@[0] == 'B' && "BlackAndWhite"@[2] == 'a' && "BlackAndWhite"@[12] == 'e',
        "Manga"@.len() == 5 && "Manga"@[0] == 'M' && "Manga"@[2] == 'n' && "Manga"@[4] == 'a',
        "Characters"@.len() == 10 && "Characters"@[0] == 'C' && "Characters"@[2] == 'a' && "Characters"@[9] == 's',
        "Teams"@.len() == 5 && "Teams"@[0] == 'T' && "Teams"@[2] == 'a' && "Teams"@[4] == 's',
        "Locations"@.len() == 9 && "Locations"@[0] == 'L' && "Locations"@[2] == 'c' && "Locations"@[8] == 's',
        "ScanInformation"@.len() == 15 && "ScanInformation"@[0] == 'S' && "ScanInformation"@[2] == 'a' && "ScanInformation"@[14] == 'n',
        "StoryArc"@.len() == 8 && "StoryArc"@[0] == 'S' && "StoryArc"@[2] == 'o' && "StoryArc"@[7] == 'c',
        "StoryArcNumber"@.len() == 14 && "StoryArcNumber"@[0] == 'S' && "StoryArcNumber"@[2] == 'o' && "StoryArcNumber"@[13] == 'r',
        "SeriesGroup"@.len() == 11 && "SeriesGroup"@[0] == 'S' && "SeriesGroup"@[2] == 'r' && "SeriesGroup"@[10] == 'p',
        "AgeRating"@.len() == 9 && "AgeRating"@[0] == 'A' && "AgeRating"@[2] == 'e' && "AgeRating"@[8] == 'g',
        "CommunityRating"@.len() == 15 && "CommunityRating"@[0] == 'C' && "CommunityRating"@[2] == 'm' && "CommunityRating"@[14] == 'g',
        "MainCharacterOrTeam"@.len() == 19 && "MainCharacterOrTeam"@[0] == 'M' && "MainCharacterOrTeam"@[2] == 'i' && "MainCharacterOrTeam"@[18] == 'm',
        "Review"@.len() == 6 && "Review"@[0] == 'R' && "Review"@[2] == 'v' && "Review"@[5] == 'w',
        "GTIN"@.len() == 4 && "GTIN"@[0] == 'G' && "GTIN"@[2] == 'I' && "GTIN"@[3] == 'N',
        "Pages"@.len() == 5 && "Pages"@[0] == 'P' && "Pages"@[2] == 'g' && "Pages"@[4] == 's',
{
    reveal_strlit("Title");
    reveal_strlit("Series");
    reveal_strlit("Number");
    reveal_strlit("Count");
    reveal_strlit("Volume");
    reveal_strlit("AlternateSeries");
    reveal_strlit("AlternateNumber");
    reveal_strlit("AlternateCount");
    reveal_strlit("Summary");
    reveal_strlit("Notes");
    reveal_strlit("Year");
    reveal_strlit("Month");
    reveal_strlit("Day");
    reveal_strlit("Writer");
    reveal_strlit("Penciller");
    reveal_strlit("Inker");
    reveal_strlit("Colorist");
    reveal_strlit("Letterer");
    reveal_strlit("CoverArtist");
    reveal_strlit("Editor");
    reveal_strlit("Translator");
    reveal_strlit("Publisher");
    reveal_strlit("Imprint");
    reveal_strlit("Genre");
    reveal_strlit("Tags");
    reveal_strlit("Web");
    reveal_strlit("PageCount");
    reveal_strlit("LanguageISO");
    reveal_strlit("Format");
    reveal_strlit("BlackAndWhite");
    reveal_strlit("Manga");
    reveal_strlit("Characters");
    reveal_strlit("Teams");
    reveal_strlit("Locations");
    reveal_strlit("ScanInformation");
    reveal_strlit("StoryArc");
    reveal_strlit("StoryArcNumber");
    reveal_strlit("SeriesGroup");
    reveal_strlit("AgeRating");
    reveal_strlit("CommunityRating");
    reveal_strlit("MainCharacterOrTeam");
    reveal_strlit("Review");
    reveal_strlit("GTIN");
    reveal_strlit("Pages");
}

/// Enough of each page attribute name to tell any two apart.
proof fn lemma_attribute_name_keys()
    ensures
        "Image"@.len() == 5 && "Image"@[0] == 'I',
        "Type"@.len() == 4 && "Type"@[0] == 'T',
        "DoublePage"@.len() == 10 && "DoublePage"@[0] == 'D',
        "ImageSize"@.len() == 9 && "ImageSize"@[0] == 'I',
        "Key"@.len() == 3 && "Key"@[0] == 'K',
        "Bookmark"@.len() == 8 && "Bookmark"@[0] == 'B',
        "ImageWidth"@.len() == 10 && "ImageWidth"@[0] == 'I',
        "ImageHeight"@.len() == 11 && "ImageHeight"@[0] == 'I',
        "Page"@.len() == 4 && "Page"@[0] == 'P',
{
    reveal_strlit("Image");
    reveal_strlit("Type");
    reveal_strlit("DoublePage");
    reveal_strlit("ImageSize");
    reveal_strlit("Key");
    reveal_strlit("Bookmark");
    reveal_strlit("ImageWidth");
    reveal_strlit("ImageHeight");
    reveal_strlit("Page");
}


/// The tokens of one scalar element: its tags, with its text between them
/// where the text is not empty.
pub open spec fn element_tokens(e: ElementView) -> Seq<Token> {
    if e.1.len() == 0 {
        seq![Token::Start { name: e.0, attrs: Seq::empty() }, Token::End { name: e.0 }]
    } else {
        seq![Token::Start { name: e.0, attrs: Seq::empty() }, Token::Text { text: e.1 }, Token::End { name: e.0 }]
    }
}

pub open spec fn elements_tokens(els: Seq<ElementView>) -> Seq<Token>
    decreases els.len(),
{
    if els.len() == 0 {
        Seq::empty()
    } else {
        elements_tokens(els.drop_last()) + element_tokens(els.last())
    }
}

/// The tokens of one page: its file-name comment where it has a file name,
/// then its element.
pub open spec fn page_tokens(p: PageView) -> Seq<Token> {
    (match p.filename {
        Some(f) => seq![Token::Comment { text: filename_comment(f) }],
        None => Seq::empty(),
    }) + seq![Token::Empty { name: "Page"@, attrs: page_attributes(p) }]
}

pub open spec fn pages_tokens(ps: Seq<PageView>) -> Seq<Token>
    decreases ps.len(),
{
    if ps.len() == 0 {
        Seq::empty()
    } else {
        pages_tokens(ps.drop_last()) + page_tokens(ps.last())
    }
}

pub open spec fn pages_part_tokens(pages: Option<Seq<PageView>>) -> Seq<Token> {
    match pages {
        Some(ps) => seq![Token::Start { name: "Pages"@, attrs: Seq::empty() }] + pages_tokens(ps)
            + seq![Token::End { name: "Pages"@ }],
        None => Seq::empty(),
    }
}

/// The tokens that the text `doc_text(v)` stands for: what a reader that
/// trims text reads from it. Element text is written with whitespace at its
/// ends as character references (`text_escaped`), so trimming removes
/// nothing and the text unescapes to the value. That `quick_xml` reads
/// `doc_text(v)` as exactly these tokens is its part and is not proved here.
pub open spec fn doc_tokens(v: InfoView) -> Seq<Token> {
    seq![Token::Other, Token::Start { name: "ComicInfo"@, attrs: Seq::empty() }]
        + elements_tokens(head_elements(v)) + pages_part_tokens(v.pages)
        + elements_tokens(tail_elements(v)) + seq![Token::End { name: "ComicInfo"@ }]
}

/// The reader run from state `st` over `toks`.
pub open spec fn run_from(st: Option<BuildView>, toks: Seq<Token>) -> Option<BuildView>
    decreases toks.len(),
{
    if toks.len() == 0 {
        st
    } else {
        match run_from(st, toks.drop_last()) {
            Some(s) => step(s, toks.last()),
            None => None,
        }
    }
}

proof fn lemma_run_from_append(st: Option<BuildView>, a: Seq<Token>, b: Seq<Token>)
    ensures
        run_from(st, a + b) == run_from(run_from(st, a), b),
    decreases b.len(),
{
    if b.len() == 0 {
        assert(a + b =~= a);
    } else {
        assert((a + b).drop_last() =~= a + b.drop_last());
        assert((a + b).last() == b.last());
        lemma_run_from_append(st, a, b.drop_last());
        lemma_run_from_none(b.drop_last());
    }
}

proof fn lemma_run_from_none(toks: Seq<Token>)
    ensures
        run_from(None, toks) is None,
    decreases toks.len(),
{
    if toks.len() > 0 {
        lemma_run_from_none(toks.drop_last());
    }
}

proof fn lemma_build_run_is_run_from(toks: Seq<Token>)
    ensures
        build_run(toks) == run_from(Some(initial_build()), toks),
    decreases toks.len(),
{
    if toks.len() > 0 {
        lemma_build_run_is_run_from(toks.drop_last());
    }
}

proof fn lemma_elements_tokens_append(a: Seq<ElementView>, b: Seq<ElementView>)
    ensures
        elements_tokens(a + b) == elements_tokens(a) + elements_tokens(b),
    decreases b.len(),
{
    if b.len() == 0 {
        assert(a + b =~= a);
        assert(elements_tokens(a) + Seq::<Token>::empty() =~= elements_tokens(a));
    } else {
        assert((a + b).drop_last() =~= a + b.drop_last());
        lemma_elements_tokens_append(a, b.drop_last());
        assert(elements_tokens(a) + elements_tokens(b.drop_last()) + element_tokens(b.last())
            =~= elements_tokens(a) + (elements_tokens(b.drop_last()) + element_tokens(b.last())));
    }
}

proof fn lemma_pages_tokens_append(a: Seq<PageView>, b: Seq<PageView>)
    ensures
        pages_tokens(a + b) == pages_tokens(a) + pages_tokens(b),
    decreases b.len(),
{
    if b.len() == 0 {
        assert(a + b =~= a);
        assert(pages_tokens(a) + Seq::<Token>::empty() =~= pages_tokens(a));
    } else {
        assert((a + b).drop_last() =~= a + b.drop_last());
        lemma_pages_tokens_append(a, b.drop_last());
        assert(pages_tokens(a) + pages_tokens(b.drop_last()) + page_tokens(b.last())
            =~= pages_tokens(a) + (pages_tokens(b.drop_last()) + page_tokens(b.last())));
    }
}

/// Two reader states that agree on what the document will be built from.
pub open spec fn same_progress(s: BuildView, t: BuildView) -> bool {
    &&& s.phase == t.phase
    &&& s.doc == t.doc
    &&& s.pages == t.pages
    &&& s.has_pages == t.has_pages
    &&& s.comment == t.comment
}

/// One scalar element read at the root level sets its field.
proof fn lemma_element_step(st: BuildView, name: Seq<char>, text: Seq<char>, d: InfoView)
    requires
        st.phase == Phase::InRoot,
        is_field_name(name),
        name != "Pages"@,
        set_field(st.doc, name, text) == Some(d),
    ensures
        run_from(Some(st), element_tokens((name, text))) matches Some(t)
            && same_progress(t, BuildView { doc: d, ..st }),
{
    let toks = element_tokens((name, text));
    let start = Token::Start { name, attrs: Seq::<ElementView>::empty() };
    let s1 = BuildView { phase: Phase::InField, field: name, ..st };
    assert(run_from(Some(st), Seq::<Token>::empty()) == Some(st));
    assert(step(st, start) == Some(s1));
    if text.len() == 0 {
        assert(toks.drop_last() =~= seq![start]);
        assert(toks.drop_last().drop_last() =~= Seq::<Token>::empty());
        assert(run_from(Some(st), toks.drop_last()) == Some(s1));
        assert(text =~= Seq::<char>::empty());
    } else {
        let s2 = BuildView { phase: Phase::InFieldText, text, ..s1 };
        assert(toks.drop_last() =~= seq![start, Token::Text { text }]);
        assert(toks.drop_last().drop_last() =~= seq![start]);
        assert(toks.drop_last().drop_last().drop_last() =~= Seq::<Token>::empty());
        assert(run_from(Some(st), toks.drop_last().drop_last()) == Some(s1));
        assert(run_from(Some(st), toks.drop_last()) == Some(s2));
    }
}

proof fn lemma_chunk_title(st: BuildView, v: InfoView)
    requires
        st.phase == Phase::InRoot,
        st.doc.title == default_view().title,
    ensures
        run_from(Some(st), elements_tokens(str_chunk("Title"@, v.title))) matches Some(t)
            && same_progress(t, BuildView { doc: InfoView { title: v.title, ..st.doc }, ..st }),
{
    let c = str_chunk("Title"@, v.title);
    assert(run_from(Some(st), Seq::<Token>::empty()) == Some(st));
    if c.len() == 0 {
        assert(elements_tokens(c) =~= Seq::<Token>::empty());
        assert(InfoView { title: v.title, ..st.doc } == st.doc);
    } else {
        lemma_field_name_keys();
        assert(c.drop_last() =~= Seq::<ElementView>::empty());
        assert(elements_tokens(Seq::<ElementView>::empty()) =~= Seq::<Token>::empty());
        assert(c.last() == c[0]);
        assert(elements_tokens(c) =~= element_tokens(c[0]));
        let x = v.title->0;
        assert(set_field(st.doc, "Title"@, x) == Some(InfoView { title: Some(x), ..st.doc }));
        lemma_element_step(st, "Title"@, x, InfoView { title: Some(x), ..st.doc });
    }
}

proof fn lemma_chunk_series(st: BuildView, v: InfoView)
    requires
        st.phase == Phase::InRoot,
        st.doc.series == default_view().series,
    ensures
        run_from(Some(st), elements_tokens(str_chunk("Series"@, v.series))) matches Some(t)
            && same_progress(t, BuildView { doc: InfoView { series: v.series, ..st.doc }, ..st }),
{
    let c = str_chunk("Series"@, v.series);
    assert(run_from(Some(st), Seq::<Token>::empty()) == Some(st));
    if c.len() == 0 {
        assert(elements_tokens(c) =~= Seq::<Token>::empty());
        assert(InfoView { series: v.series, ..st.doc } == st.doc);
    } else {
        lemma_field_name_keys();
        assert(c.drop_last() =~= Seq::<ElementView>::empty());
        assert(elements_tokens(Seq::<ElementView>::empty()) =~= Seq::<Token>::empty());
        assert(c.last() == c[0]);
        assert(elements_tokens(c) =~= element_tokens(c[0]));
        let x = v.series->0;
        assert(set_field(st.doc, "Series"@, x) == Some(InfoView { series: Some(x), ..st.doc }));
        lemma_element_step(st, "Series"@, x, InfoView { series: Some(x), ..st.doc });
    }
}

proof fn lemma_chunk_number(st: BuildView, v: InfoView)
    requires
        st.phase == Phase::InRoot,
        st.doc.number == default_view().number,
    ensures
        run_from(Some(st), elements_tokens(str_chunk("Number"@, v.number))) matches Some(t)
            && same_progress(t, BuildView { doc: InfoView { number: v.number, ..st.doc }, ..st }),
{
    let c = str_chunk("Number"@, v.number);
    assert(run_from(Some(st), Seq::<Token>::empty()) == Some(st));
    if c.len() == 0 {
        assert(elements_tokens(c) =~= Seq::<Token>::empty());
        assert(InfoView { number: v.number, ..st.doc } == st.doc);
    } else {
        lemma_field_name_keys();
        assert(c.drop_last() =~= Seq::<ElementView>::empty());
        assert(elements_tokens(Seq::<ElementView>::empty()) =~= Seq::<Token>::empty());
        assert(c.last() == c[0]);
        assert(elements_tokens(c) =~= element_tokens(c[0]));
        let x = v.number->0;
        assert(set_field(st.doc, "Number"@, x) == Some(InfoView { number: Some(x), ..st.doc }));
        lemma_element_step(st, "Number"@, x, InfoView { number: Some(x), ..st.doc });
    }
}

proof fn lemma_chunk_count(st: BuildView, v: InfoView)
    requires
        st.phase == Phase::InRoot,
        st.doc.count == default_view().count,
    ensures
        run_from(Some(st), elements_tokens(int_chunk("Count"@, v.count, -1i32))) matches Some(t)
            && same_progress(t, BuildView { doc: InfoView { count: v.count, ..st.doc }, ..st }),
{
    let c = int_chunk("Count"@, v.count, -1i32);
    assert(run_from(Some(st), Seq::<Token>::empty()) == Some(st));
    if c.len() == 0 {
        assert(elements_tokens(c) =~= Seq::<Token>::empty());
        assert(InfoView { count: v.count, ..st.doc } == st.doc);
    } else {
        lemma_field_name_keys();
        assert(c.drop_last() =~= Seq::<ElementView>::empty());
        assert(elements_tokens(Seq::<ElementView>::empty()) =~= Seq::<Token>::empty());
        assert(c.last() == c[0]);
        assert(elements_tokens(c) =~= element_tokens(c[0]));
        lemma_int_text_round_trip(v.count as int);
        let x = int_text(v.count as int);
        assert(int_in_range_of(x, i32::MIN as int, i32::MAX as int) == Some(v.count as int));
        assert(set_field(st.doc, "Count"@, x) == Some(InfoView { count: v.count, ..st.doc }));
        lemma_element_step(st, "Count"@, x, InfoView { count: v.count, ..st.doc });
    }
}

proof fn lemma_chunk_volume(st: BuildView, v: InfoView)
    requires
        st.phase == Phase::InRoot,
        st.doc.volume == default_view().volume,
    ensures
        run_from(Some(st), elements_tokens(int_chunk("Volume"@, v.volume, -1i32))) matches Some(t)
            && same_progress(t, BuildView { doc: InfoView { volume: v.volume, ..st.doc }, ..st }),
{
    let c = int_chunk("Volume"@, v.volume, -1i32);
    assert(run_from(Some(st), Seq::<Token>::empty()) == Some(st));
    if c.len() == 0 {
        assert(elements_tokens(c) =~= Seq::<Token>::empty());
        assert(InfoView { volume: v.volume, ..st.doc } == st.doc);
    } else {
        lemma_field_name_keys();
        assert(c.drop_last() =~= Seq::<ElementView>::empty());
        assert(elements_tokens(Seq::<ElementView>::empty()) =~= Seq::<Token>::empty());
        assert(c.last() == c[0]);
        assert(elements_tokens(c) =~= element_tokens(c[0]));
        lemma_int_text_round_trip(v.volume as int);
        let x = int_text(v.volume as int);
        assert(int_in_range_of(x, i32::MIN as int, i32::MAX as int) == Some(v.volume as int));
        assert(set_field(st.doc, "Volume"@, x) == Some(InfoView { volume: v.volume, ..st.doc }));
        lemma_element_step(st, "Volume"@, x, InfoView { volume: v.volume, ..st.doc });
    }
}

proof fn lemma_chunk_alternate_series(st: BuildView, v: InfoView)
    requires
        st.phase == Phase::InRoot,
        st.doc.alternate_series == default_view().alternate_series,
    ensures
        run_from(Some(st), elements_tokens(str_chunk("AlternateSeries"@, v.alternate_series))) matches Some(t)
            && same_progress(t, BuildView { doc: InfoView { alternate_series: v.alternate_series, ..st.doc }, ..st }),
{
    let c = str_chunk("AlternateSeries"@, v.alternate_series);
    assert(run_from(Some(st), Seq::<Token>::empty()) == Some(st));
    if c.len() == 0 {
        assert(elements_tokens(c) =~= Seq::<Token>::empty());
        assert(InfoView { alternate_series: v.alternate_series, ..st.doc } == st.doc);
    } else {
        lemma_field_name_keys();
        assert(c.drop_last() =~= Seq::<ElementView>::empty());
        assert(elements_tokens(Seq::<ElementView>::empty()) =~= Seq::<Token>::empty());
        assert(c.last() == c[0]);
        assert(elements_tokens(c) =~= element_tokens(c[0]));
        let x = v.alternate_series->0;
        assert(set_field(st.doc, "AlternateSeries"@, x) == Some(InfoView { alternate_series: Some(x), ..st.doc }));
        lemma_element_step(st, "AlternateSeries"@, x, InfoView { alternate_series: Some(x), ..st.doc });
    }
}

proof fn lemma_chunk_alternate_number(st: BuildView, v: InfoView)
    requires
        st.phase == Phase::InRoot,
        st.doc.alternate_number == default_view().alternate_number,
    ensures
        run_from(Some(st), elements_tokens(str_chunk("AlternateNumber"@, v.alternate_number))) matches Some(t)
            && same_progress(t, BuildView { doc: InfoView { alternate_number: v.alternate_number, ..st.doc }, ..st }),
{
    let c = str_chunk("AlternateNumber"@, v.alternate_number);
    assert(run_from(Some(st), Seq::<Token>::empty()) == Some(st));
    if c.len() == 0 {
        assert(elements_tokens(c) =~= Seq::<Token>::empty());
        assert(InfoView { alternate_number: v.alternate_number, ..st.doc } == st.doc);
    } else {
        lemma_field_name_keys();
        assert(c.drop_last() =~= Seq::<ElementView>::empty());
        assert(elements_tokens(Seq::<ElementView>::empty()) =~= Seq::<Token>::empty());
        assert(c.last() == c[0]);
        assert(elements_tokens(c) =~= element_tokens(c[0]));
        let x = v.alternate_number->0;
        assert(set_field(st.doc, "AlternateNumber"@, x) == Some(InfoView { alternate_number: Some(x), ..st.doc }));
        lemma_element_step(st, "AlternateNumber"@, x, InfoView { alternate_number: Some(x), ..st.doc });
    }
}

proof fn lemma_chunk_alternate_count(st: BuildView, v: InfoView)
    requires
        st.phase == Phase::InRoot,
        st.doc.alternate_count == default_view().alternate_count,
    ensures
        run_from(Some(st), elements_tokens(int_chunk("AlternateCount"@, v.alternate_count, -1i32))) matches Some(t)
            && same_progress(t, BuildView { doc: InfoView { alternate_count: v.alternate_count, ..st.doc }, ..st }),
{
    let c = int_chunk("AlternateCount"@, v.alternate_count, -1i32);
    assert(run_from(Some(st), Seq::<Token>::empty()) == Some(st));
    if c.len() == 0 {
        assert(elements_tokens(c) =~= Seq::<Token>::empty());
        assert(InfoView { alternate_count: v.alternate_count, ..st.doc } == st.doc);
    } else {
        lemma_field_name_keys();
        assert(c.drop_last() =~= Seq::<ElementView>::empty());
        assert(elements_tokens(Seq::<ElementView>::empty()) =~= Seq::<Token>::empty());
        assert(c.last() == c[0]);
        assert(elements_tokens(c) =~= element_tokens(c[0]));
        lemma_int_text_round_trip(v.alternate_count as int);
        let x = int_text(v.alternate_count as int);
        assert(int_in_range_of(x, i32::MIN as int, i32::MAX as int) == Some(v.alternate_count as int));
        assert(set_field(st.doc, "AlternateCount"@, x) == Some(InfoView { alternate_count: v.alternate_count, ..st.doc }));
        lemma_element_step(st, "AlternateCount"@, x, InfoView { alternate_count: v.alternate_count, ..st.doc });
    }
}

proof fn lemma_chunk_summary(st: BuildView, v: InfoView)
    requires
        st.phase == Phase::InRoot,
        st.doc.summary == default_view().summary,
    ensures
        run_from(Some(st), elements_tokens(str_chunk("Summary"@, v.summary))) matches Some(t)
            && same_progress(t, BuildView { doc: InfoView { summary: v.summary, ..st.doc }, ..st }),
{
    let c = str_chunk("Summary"@, v.summary);
    assert(run_from(Some(st), Seq::<Token>::empty()) == Some(st));
    if c.len() == 0 {
        assert(elements_tokens(c) =~= Seq::<Token>::empty());
        assert(InfoView { summary: v.summary, ..st.doc } == st.doc);
    } else {
        lemma_field_name_keys();
        assert(c.drop_last() =~= Seq::<ElementView>::empty());
        assert(elements_tokens(Seq::<ElementView>::empty()) =~= Seq::<Token>::empty());
        assert(c.last() == c[0]);
        assert(elements_tokens(c) =~= element_tokens(c[0]));
        let x = v.summary->0;
        assert(set_field(st.doc, "Summary"@, x) == Some(InfoView { summary: Some(x), ..st.doc }));
        lemma_element_step(st, "Summary"@, x, InfoView { summary: Some(x), ..st.doc });
    }
}

proof fn lemma_chunk_notes(st: BuildView, v: InfoView)
    requires
        st.phase == Phase::InRoot,
        st.doc.notes == default_view().notes,
    ensures
        run_from(Some(st), elements_tokens(str_chunk("Notes"@, v.notes))) matches Some(t)
            && same_progress(t, BuildView { doc: InfoView { notes: v.notes, ..st.doc }, ..st }),
{
    let c = str_chunk("Notes"@, v.notes);
    assert(run_from(Some(st), Seq::<Token>::empty()) == Some(st));
    if c.len() == 0 {
        assert(elements_tokens(c) =~= Seq::<Token>::empty());
        assert(InfoView { notes: v.notes, ..st.doc } == st.doc);
    } else {
        lemma_field_name_keys();
        assert(c.drop_last() =~= Seq::<ElementView>::empty());
        assert(elements_tokens(Seq::<ElementView>::empty()) =~= Seq::<Token>::empty());
        assert(c.last() == c[0]);
        assert(elements_tokens(c) =~= element_tokens(c[0]));
        let x = v.notes->0;
        assert(set_field(st.doc, "Notes"@, x) == Some(InfoView { notes: Some(x), ..st.doc }));
        lemma_element_step(st, "Notes"@, x, InfoView { notes: Some(x), ..st.doc });
    }
}

proof fn lemma_chunk_year(st: BuildView, v: InfoView)
    requires
        st.phase == Phase::InRoot,
        st.doc.year == default_view().year,
    ensures
        run_from(Some(st), elements_tokens(int_chunk("Year"@, v.year, -1i32))) matches Some(t)
            && same_progress(t, BuildView { doc: InfoView { year: v.year, ..st.doc }, ..st }),
{
    let c = int_chunk("Year"@, v.year, -1i32);
    assert(run_from(Some(st), Seq::<Token>::empty()) == Some(st));
    if c.len() == 0 {
        assert(elements_tokens(c) =~= Seq::<Token>::empty());
        assert(InfoView { year: v.year, ..st.doc } == st.doc);
    } else {
        lemma_field_name_keys();
        assert(c.drop_last() =~= Seq::<ElementView>::empty());
        assert(elements_tokens(Seq::<ElementView>::empty()) =~= Seq::<Token>::empty());
        assert(c.last() == c[0]);
        assert(elements_tokens(c) =~= element_tokens(c[0]));
        lemma_int_text_round_trip(v.year as int);
        let x = int_text(v.year as int);
        assert(int_in_range_of(x, i32::MIN as int, i32::MAX as int) == Some(v.year as int));
        assert(set_field(st.doc, "Year"@, x) == Some(InfoView { year: v.year, ..st.doc }));
        lemma_element_step(st, "Year"@, x, InfoView { year: v.year, ..st.doc });
    }
}

proof fn lemma_chunk_month(st: BuildView, v: InfoView)
    requires
        st.phase == Phase::InRoot,
        st.doc.month == default_view().month,
    ensures
        run_from(Some(st), elements_tokens(int_chunk("Month"@, v.month, -1i32))) matches Some(t)
            && same_progress(t, BuildView { doc: InfoView { month: v.month, ..st.doc }, ..st }),
{
    let c = int_chunk("Month"@, v.month, -1i32);
    assert(run_from(Some(st), Seq::<Token>::empty()) == Some(st));
    if c.len() == 0 {
        assert(elements_tokens(c) =~= Seq::<Token>::empty());
        assert(InfoView { month: v.month, ..st.doc } == st.doc);
    } else {
        lemma_field_name_keys();
        assert(c.drop_last() =~= Seq::<ElementView>::empty());
        assert(elements_tokens(Seq::<ElementView>::empty()) =~= Seq::<Token>::empty());
        assert(c.last() == c[0]);
        assert(elements_tokens(c) =~= element_tokens(c[0]));
        lemma_int_text_round_trip(v.month as int);
        let x = int_text(v.month as int);
        assert(int_in_range_of(x, i32::MIN as int, i32::MAX as int) == Some(v.month as int));
        assert(set_field(st.doc, "Month"@, x) == Some(InfoView { month: v.month, ..st.doc }));
        lemma_element_step(st, "Month"@, x, InfoView { month: v.month, ..st.doc });
    }
}

proof fn lemma_chunk_day(st: BuildView, v: InfoView)
    requires
        st.phase == Phase::InRoot,
        st.doc.day == default_view().day,
    ensures
        run_from(Some(st), elements_tokens(int_chunk("Day"@, v.day, -1i32))) matches Some(t)
            && same_progress(t, BuildView { doc: InfoView { day: v.day, ..st.doc }, ..st }),
{
    let c = int_chunk("Day"@, v.day, -1i32);
    assert(run_from(Some(st), Seq::<Token>::empty()) == Some(st));
    if c.len() == 0 {
        assert(elements_tokens(c) =~= Seq::<Token>::empty());
        assert(InfoView { day: v.day, ..st.doc } == st.doc);
    } else {
        lemma_field_name_keys();
        assert(c.drop_last() =~= Seq::<ElementView>::empty());
        assert(elements_tokens(Seq::<ElementView>::empty()) =~= Seq::<Token>::empty());
        assert(c.last() == c[0]);
        assert(elements_tokens(c) =~= element_tokens(c[0]));
        lemma_int_text_round_trip(v.day as int);
        let x = int_text(v.day as int);
        assert(int_in_range_of(x, i32::MIN as int, i32::MAX as int) == Some(v.day as int));
        assert(set_field(st.doc, "Day"@, x) == Some(InfoView { day: v.day, ..st.doc }));
        lemma_element_step(st, "Day"@, x, InfoView { day: v.day, ..st.doc });
    }
}

proof fn lemma_chunk_writer(st: BuildView, v: InfoView)
    requires
        st.phase == Phase::InRoot,
        st.doc.writer == default_view().writer,
    ensures
        run_from(Some(st), elements_tokens(str_chunk("Writer"@, v.writer))) matches Some(t)
            && same_progress(t, BuildView { doc: InfoView { writer: v.writer, ..st.doc }, ..st }),
{
    let c = str_chunk("Writer"@, v.writer);
    assert(run_from(Some(st), Seq::<Token>::empty()) == Some(st));
    if c.len() == 0 {
        assert(elements_tokens(c) =~= Seq::<Token>::empty());
        assert(InfoView { writer: v.writer, ..st.doc } == st.doc);
    } else {
        lemma_field_name_keys();
        assert(c.drop_last() =~= Seq::<ElementView>::empty());
        assert(elements_tokens(Seq::<ElementView>::empty()) =~= Seq::<Token>::empty());
        assert(c.last() == c[0]);
        assert(elements_tokens(c) =~= element_tokens(c[0]));
        let x = v.writer->0;
        assert(set_field(st.doc, "Writer"@, x) == Some(InfoView { writer: Some(x), ..st.doc }));
        lemma_element_step(st, "Writer"@, x, InfoView { writer: Some(x), ..st.doc });
    }
}

proof fn lemma_chunk_penciller(st: BuildView, v: InfoView)
    requires
        st.phase == Phase::InRoot,
        st.doc.penciller == default_view().penciller,
    ensures
        run_from(Some(st), elements_tokens(str_chunk("Penciller"@, v.penciller))) matches Some(t)
            && same_progress(t, BuildView { doc: InfoView { penciller: v.penciller, ..st.doc }, ..st }),
{
    let c = str_chunk("Penciller"@, v.penciller);
    assert(run_from(Some(st), Seq::<Token>::empty()) == Some(st));
    if c.len() == 0 {
        assert(elements_tokens(c) =~= Seq::<Token>::empty());
        assert(InfoView { penciller: v.penciller, ..st.doc } == st.doc);
    } else {
        lemma_field_name_keys();
        assert(c.drop_last() =~= Seq::<ElementView>::empty());
        assert(elements_tokens(Seq::<ElementView>::empty()) =~= Seq::<Token>::empty());
        assert(c.last() == c[0]);
        assert(elements_tokens(c) =~= element_tokens(c[0]));
        let x = v.penciller->0;
        assert(set_field(st.doc, "Penciller"@, x) == Some(InfoView { penciller: Some(x), ..st.doc }));
        lemma_element_step(st, "Penciller"@, x, InfoView { penciller: Some(x), ..st.doc });
    }
}

proof fn lemma_chunk_inker(st: BuildView, v: InfoView)
    requires
        st.phase == Phase::InRoot,
        st.doc.inker == default_view().inker,
    ensures
        run_from(Some(st), elements_tokens(str_chunk("Inker"@, v.inker))) matches Some(t)
            && same_progress(t, BuildView { doc: InfoView { inker: v.inker, ..st.doc }, ..st }),
{
    let c = str_chunk("Inker"@, v.inker);
    assert(run_from(Some(st), Seq::<Token>::empty()) == Some(st));
    if c.len() == 0 {
        assert(elements_tokens(c) =~= Seq::<Token>::empty());
        assert(InfoView { inker: v.inker, ..st.doc } == st.doc);
    } else {
        lemma_field_name_keys();
        assert(c.drop_last() =~= Seq::<ElementView>::empty());
        assert(elements_tokens(Seq::<ElementView>::empty()) =~= Seq::<Token>::empty());
        assert(c.last() == c[0]);
        assert(elements_tokens(c) =~= element_tokens(c[0]));
        let x = v.inker->0;
        assert(set_field(st.doc, "Inker"@, x) == Some(InfoView { inker: Some(x), ..st.doc }));
        lemma_element_step(st, "Inker"@, x, InfoView { inker: Some(x), ..st.doc });
    }
}

proof fn lemma_chunk_colorist(st: BuildView, v: InfoView)
    requires
        st.phase == Phase::InRoot,
        st.doc.colorist == default_view().colorist,
    ensures
        run_from(Some(st), elements_tokens(str_chunk("Colorist"@, v.colorist))) matches Some(t)
            && same_progress(t, BuildView { doc: InfoView { colorist: v.colorist, ..st.doc }, ..st }),
{
    let c = str_chunk("Colorist"@, v.colorist);
    assert(run_from(Some(st), Seq::<Token>::empty()) == Some(st));
    if c.len() == 0 {
        assert(elements_tokens(c) =~= Seq::<Token>::empty());
        assert(InfoView { colorist: v.colorist, ..st.doc } == st.doc);
    } else {
        lemma_field_name_keys();
        assert(c.drop_last() =~= Seq::<ElementView>::empty());
        assert(elements_tokens(Seq::<ElementView>::empty()) =~= Seq::<Token>::empty());
        assert(c.last() == c[0]);
        assert(elements_tokens(c) =~= element_tokens(c[0]));
        let x = v.colorist->0;
        assert(set_field(st.doc, "Colorist"@, x) == Some(InfoView { colorist: Some(x), ..st.doc }));
        lemma_element_step(st, "Colorist"@, x, InfoView { colorist: Some(x), ..st.doc });
    }
}

proof fn lemma_chunk_letterer(st: BuildView, v: InfoView)
    requires
        st.phase == Phase::InRoot,
        st.doc.letterer == default_view().letterer,
    ensures
        run_from(Some(st), elements_tokens(str_chunk("Letterer"@, v.letterer))) matches Some(t)
            && same_progress(t, BuildView { doc: InfoView { letterer: v.letterer, ..st.doc }, ..st }),
{
    let c = str_chunk("Letterer"@, v.letterer);
    assert(run_from(Some(st), Seq::<Token>::empty()) == Some(st));
    if c.len() == 0 {
        assert(elements_tokens(c) =~= Seq::<Token>::empty());
        assert(InfoView { letterer: v.letterer, ..st.doc } == st.doc);
    } else {
        lemma_field_name_keys();
        assert(c.drop_last() =~= Seq::<ElementView>::empty());
        assert(elements_tokens(Seq::<ElementView>::empty()) =~= Seq::<Token>::empty());
        assert(c.last() == c[0]);
        assert(elements_tokens(c) =~= element_tokens(c[0]));
        let x = v.letterer->0;
        assert(set_field(st.doc, "Letterer"@, x) == Some(InfoView { letterer: Some(x), ..st.doc }));
        lemma_element_step(st, "Letterer"@, x, InfoView { letterer: Some(x), ..st.doc });
    }
}

proof fn lemma_chunk_cover_artist(st: BuildView, v: InfoView)
    requires
        st.phase == Phase::InRoot,
        st.doc.cover_artist == default_view().cover_artist,
    ensures
        run_from(Some(st), elements_tokens(str_chunk("CoverArtist"@, v.cover_artist))) matches Some(t)
            && same_progress(t, BuildView { doc: InfoView { cover_artist: v.cover_artist, ..st.doc }, ..st }),
{
    let c = str_chunk("CoverArtist"@, v.cover_artist);
    assert(run_from(Some(st), Seq::<Token>::empty()) == Some(st));
    if c.len() == 0 {
        assert(elements_tokens(c) =~= Seq::<Token>::empty());
        assert(InfoView { cover_artist: v.cover_artist, ..st.doc } == st.doc);
    } else {
        lemma_field_name_keys();
        assert(c.drop_last() =~= Seq::<ElementView>::empty());
        assert(elements_tokens(Seq::<ElementView>::empty()) =~= Seq::<Token>::empty());
        assert(c.last() == c[0]);
        assert(elements_tokens(c) =~= element_tokens(c[0]));
        let x = v.cover_artist->0;
        assert(set_field(st.doc, "CoverArtist"@, x) == Some(InfoView { cover_artist: Some(x), ..st.doc }));
        lemma_element_step(st, "CoverArtist"@, x, InfoView { cover_artist: Some(x), ..st.doc });
    }
}

proof fn lemma_chunk_editor(st: BuildView, v: InfoView)
    requires
        st.phase == Phase::InRoot,
        st.doc.editor == default_view().editor,
    ensures
        run_from(Some(st), elements_tokens(str_chunk("Editor"@, v.editor))) matches Some(t)
            && same_progress(t, BuildView { doc: InfoView { editor: v.editor, ..st.doc }, ..st }),
{
    let c = str_chunk("Editor"@, v.editor);
    assert(run_from(Some(st), Seq::<Token>::empty()) == Some(st));
    if c.len() == 0 {
        assert(elements_tokens(c) =~= Seq::<Token>::empty());
        assert(InfoView { editor: v.editor, ..st.doc } == st.doc);
    } else {
        lemma_field_name_keys();
        assert(c.drop_last() =~= Seq::<ElementView>::empty());
        assert(elements_tokens(Seq::<ElementView>::empty()) =~= Seq::<Token>::empty());
        assert(c.last() == c[0]);
        assert(elements_tokens(c) =~= element_tokens(c[0]));
        let x = v.editor->0;
        assert(set_field(st.doc, "Editor"@, x) == Some(InfoView { editor: Some(x), ..st.doc }));
        lemma_element_step(st, "Editor"@, x, InfoView { editor: Some(x), ..st.doc });
    }
}

proof fn lemma_chunk_translator(st: BuildView, v: InfoView)
    requires
        st.phase == Phase::InRoot,
        st.doc.translator == default_view().translator,
    ensures
        run_from(Some(st), elements_tokens(str_chunk("Translator"@, v.translator))) matches Some(t)
            && same_progress(t, BuildView { doc: InfoView { translator: v.translator, ..st.doc }, ..st }),
{
    let c = str_chunk("Translator"@, v.translator);
    assert(run_from(Some(st), Seq::<Token>::empty()) == Some(st));
    if c.len() == 0 {
        assert(elements_tokens(c) =~= Seq::<Token>::empty());
        assert(InfoView { translator: v.translator, ..st.doc } == st.doc);
    } else {
        lemma_field_name_keys();
        assert(c.drop_last() =~= Seq::<ElementView>::empty());
        assert(elements_tokens(Seq::<ElementView>::empty()) =~= Seq::<Token>::empty());
        assert(c.last() == c[0]);
        assert(elements_tokens(c) =~= element_tokens(c[0]));
        let x = v.translator->0;
        assert(set_field(st.doc, "Translator"@, x) == Some(InfoView { translator: Some(x), ..st.doc }));
        lemma_element_step(st, "Translator"@, x, InfoView { translator: Some(x), ..st.doc });
    }
}

proof fn lemma_chunk_publisher(st: BuildView, v: InfoView)
    requires
        st.phase == Phase::InRoot,
        st.doc.publisher == default_view().publisher,
    ensures
        run_from(Some(st), elements_tokens(str_chunk("Publisher"@, v.publisher))) matches Some(t)
            && same_progress(t, BuildView { doc: InfoView { publisher: v.publisher, ..st.doc }, ..st }),
{
    let c = str_chunk("Publisher"@, v.publisher);
    assert(run_from(Some(st), Seq::<Token>::empty()) == Some(st));
    if c.len() == 0 {
        assert(elements_tokens(c) =~= Seq::<Token>::empty());
        assert(InfoView { publisher: v.publisher, ..st.doc } == st.doc);
    } else {
        lemma_field_name_keys();
        assert(c.drop_last() =~= Seq::<ElementView>::empty());
        assert(elements_tokens(Seq::<ElementView>::empty()) =~= Seq::<Token>::empty());
        assert(c.last() == c[0]);
        assert(elements_tokens(c) =~= element_tokens(c[0]));
        let x = v.publisher->0;
        assert(set_field(st.doc, "Publisher"@, x) == Some(InfoView { publisher: Some(x), ..st.doc }));
        lemma_element_step(st, "Publisher"@, x, InfoView { publisher: Some(x), ..st.doc });
    }
}

proof fn lemma_chunk_imprint(st: BuildView, v: InfoView)
    requires
        st.phase == Phase::InRoot,
        st.doc.imprint == default_view().imprint,
    ensures
        run_from(Some(st), elements_tokens(str_chunk("Imprint"@, v.imprint))) matches Some(t)
            && same_progress(t, BuildView { doc: InfoView { imprint: v.imprint, ..st.doc }, ..st }),
{
    let c = str_chunk("Imprint"@, v.imprint);
    assert(run_from(Some(st), Seq::<Token>::empty()) == Some(st));
    if c.len() == 0 {
        assert(elements_tokens(c) =~= Seq::<Token>::empty());
        assert(InfoView { imprint: v.imprint, ..st.doc } == st.doc);
    } else {
        lemma_field_name_keys();
        assert(c.drop_last() =~= Seq::<ElementView>::empty());
        assert(elements_tokens(Seq::<ElementView>::empty()) =~= Seq::<Token>::empty());
        assert(c.last() == c[0]);
        assert(elements_tokens(c) =~= element_tokens(c[0]));
        let x = v.imprint->0;
        assert(set_field(st.doc, "Imprint"@, x) == Some(InfoView { imprint: Some(x), ..st.doc }));
        lemma_element_step(st, "Imprint"@, x, InfoView { imprint: Some(x), ..st.doc });
    }
}

proof fn lemma_chunk_genre(st: BuildView, v: InfoView)
    requires
        st.phase == Phase::InRoot,
        st.doc.genre == default_view().genre,
    ensures
        run_from(Some(st), elements_tokens(str_chunk("Genre"@, v.genre))) matches Some(t)
            && same_progress(t, BuildView { doc: InfoView { genre: v.genre, ..st.doc }, ..st }),
{
    let c = str_chunk("Genre"@, v.genre);
    assert(run_from(Some(st), Seq::<Token>::empty()) == Some(st));
    if c.len() == 0 {
        assert(elements_tokens(c) =~= Seq::<Token>::empty());
        assert(InfoView { genre: v.genre, ..st.doc } == st.doc);
    } else {
        lemma_field_name_keys();
        assert(c.drop_last() =~= Seq::<ElementView>::empty());
        assert(elements_tokens(Seq::<ElementView>::empty()) =~= Seq::<Token>::empty());
        assert(c.last() == c[0]);
        assert(elements_tokens(c) =~= element_tokens(c[0]));
        let x = v.genre->0;
        assert(set_field(st.doc, "Genre"@, x) == Some(InfoView { genre: Some(x), ..st.doc }));
        lemma_element_step(st, "Genre"@, x, InfoView { genre: Some(x), ..st.doc });
    }
}

proof fn lemma_chunk_tags(st: BuildView, v: InfoView)
    requires
        st.phase == Phase::InRoot,
        st.doc.tags == default_view().tags,
    ensures
        run_from(Some(st), elements_tokens(str_chunk("Tags"@, v.tags))) matches Some(t)
            && same_progress(t, BuildView { doc: InfoView { tags: v.tags, ..st.doc }, ..st }),
{
    let c = str_chunk("Tags"@, v.tags);
    assert(run_from(Some(st), Seq::<Token>::empty()) == Some(st));
    if c.len() == 0 {
        assert(elements_tokens(c) =~= Seq::<Token>::empty());
        assert(InfoView { tags: v.tags, ..st.doc } == st.doc);
    } else {
        lemma_field_name_keys();
        assert(c.drop_last() =~= Seq::<ElementView>::empty());
        assert(elements_tokens(Seq::<ElementView>::empty()) =~= Seq::<Token>::empty());
        assert(c.last() == c[0]);
        assert(elements_tokens(c) =~= element_tokens(c[0]));
        let x = v.tags->0;
        assert(set_field(st.doc, "Tags"@, x) == Some(InfoView { tags: Some(x), ..st.doc }));
        lemma_element_step(st, "Tags"@, x, InfoView { tags: Some(x), ..st.doc });
    }
}

proof fn lemma_chunk_web(st: BuildView, v: InfoView)
    requires
        st.phase == Phase::InRoot,
        st.doc.web == default_view().web,
    ensures
        run_from(Some(st), elements_tokens(str_chunk("Web"@, v.web))) matches Some(t)
            && same_progress(t, BuildView { doc: InfoView { web: v.web, ..st.doc }, ..st }),
{
    let c = str_chunk("Web"@, v.web);
    assert(run_from(Some(st), Seq::<Token>::empty()) == Some(st));
    if c.len() == 0 {
        assert(elements_tokens(c) =~= Seq::<Token>::empty());
        assert(InfoView { web: v.web, ..st.doc } == st.doc);
    } else {
        lemma_field_name_keys();
        assert(c.drop_last() =~= Seq::<ElementView>::empty());
        assert(elements_tokens(Seq::<ElementView>::empty()) =~= Seq::<Token>::empty());
        assert(c.last() == c[0]);
        assert(elements_tokens(c) =~= element_tokens(c[0]));
        let x = v.web->0;
        assert(set_field(st.doc, "Web"@, x) == Some(InfoView { web: Some(x), ..st.doc }));
        lemma_element_step(st, "Web"@, x, InfoView { web: Some(x), ..st.doc });
    }
}

proof fn lemma_chunk_page_count(st: BuildView, v: InfoView)
    requires
        st.phase == Phase::InRoot,
        st.doc.page_count == default_view().page_count,
    ensures
        run_from(Some(st), elements_tokens(int_chunk("PageCount"@, v.page_count, 0i32))) matches Some(t)
            && same_progress(t, BuildView { doc: InfoView { page_count: v.page_count, ..st.doc }, ..st }),
{
    let c = int_chunk("PageCount"@, v.page_count, 0i32);
    assert(run_from(Some(st), Seq::<Token>::empty()) == Some(st));
    if c.len() == 0 {
        assert(elements_tokens(c) =~= Seq::<Token>::empty());
        assert(InfoView { page_count: v.page_count, ..st.doc } == st.doc);
    } else {
        lemma_field_name_keys();
        assert(c.drop_last() =~= Seq::<ElementView>::empty());
        assert(elements_tokens(Seq::<ElementView>::empty()) =~= Seq::<Token>::empty());
        assert(c.last() == c[0]);
        assert(elements_tokens(c) =~= element_tokens(c[0]));
        lemma_int_text_round_trip(v.page_count as int);
        let x = int_text(v.page_count as int);
        assert(int_in_range_of(x, i32::MIN as int, i32::MAX as int) == Some(v.page_count as int));
        assert(set_field(st.doc, "PageCount"@, x) == Some(InfoView { page_count: v.page_count, ..st.doc }));
        lemma_element_step(st, "PageCount"@, x, InfoView { page_count: v.page_count, ..st.doc });
    }
}

proof fn lemma_chunk_language_iso(st: BuildView, v: InfoView)
    requires
        st.phase == Phase::InRoot,
        st.doc.language_iso == default_view().language_iso,
    ensures
        run_from(Some(st), elements_tokens(str_chunk("LanguageISO"@, v.language_iso))) matches Some(t)
            && same_progress(t, BuildView { doc: InfoView { language_iso: v.language_iso, ..st.doc }, ..st }),
{
    let c = str_chunk("LanguageISO"@, v.language_iso);
    assert(run_from(Some(st), Seq::<Token>::empty()) == Some(st));
    if c.len() == 0 {
        assert(elements_tokens(c) =~= Seq::<Token>::empty());
        assert(InfoView { language_iso: v.language_iso, ..st.doc } == st.doc);
    } else {
        lemma_field_name_keys();
        assert(c.drop_last() =~= Seq::<ElementView>::empty());
        assert(elements_tokens(Seq::<ElementView>::empty()) =~= Seq::<Token>::empty());
        assert(c.last() == c[0]);
        assert(elements_tokens(c) =~= element_tokens(c[0]));
        let x = v.language_iso->0;
        assert(set_field(st.doc, "LanguageISO"@, x) == Some(InfoView { language_iso: Some(x), ..st.doc }));
        lemma_element_step(st, "LanguageISO"@, x, InfoView { language_iso: Some(x), ..st.doc });
    }
}

proof fn lemma_chunk_format(st: BuildView, v: InfoView)
    requires
        st.phase == Phase::InRoot,
        st.doc.format == default_view().format,
    ensures
        run_from(Some(st), elements_tokens(str_chunk("Format"@, v.format))) matches Some(t)
            && same_progress(t, BuildView { doc: InfoView { format: v.format, ..st.doc }, ..st }),
{
    let c = str_chunk("Format"@, v.format);
    assert(run_from(Some(st), Seq::<Token>::empty()) == Some(st));
    if c.len() == 0 {
        assert(elements_tokens(c) =~= Seq::<Token>::empty());
        assert(InfoView { format: v.format, ..st.doc } == st.doc);
    } else {
        lemma_field_name_keys();
        assert(c.drop_last() =~= Seq::<ElementView>::empty());
        assert(elements_tokens(Seq::<ElementView>::empty()) =~= Seq::<Token>::empty());
        assert(c.last() == c[0]);
        assert(elements_tokens(c) =~= element_tokens(c[0]));
        let x = v.format->0;
        assert(set_field(st.doc, "Format"@, x) == Some(InfoView { format: Some(x), ..st.doc }));
        lemma_element_step(st, "Format"@, x, InfoView { format: Some(x), ..st.doc });
    }
}

proof fn lemma_chunk_black_and_white(st: BuildView, v: InfoView)
    requires
        st.phase == Phase::InRoot,
        st.doc.black_and_white == default_view().black_and_white,
    ensures
        run_from(Some(st), elements_tokens(enum_chunk("BlackAndWhite"@, v.black_and_white == YesNo::Unknown, yes_no_text(v.black_and_white)))) matches Some(t)
            && same_progress(t, BuildView { doc: InfoView { black_and_white: v.black_and_white, ..st.doc }, ..st }),
{
    let c = enum_chunk("BlackAndWhite"@, v.black_and_white == YesNo::Unknown, yes_no_text(v.black_and_white));
    assert(run_from(Some(st), Seq::<Token>::empty()) == Some(st));
    if c.len() == 0 {
        assert(elements_tokens(c) =~= Seq::<Token>::empty());
        assert(InfoView { black_and_white: v.black_and_white, ..st.doc } == st.doc);
    } else {
        lemma_field_name_keys();
        assert(c.drop_last() =~= Seq::<ElementView>::empty());
        assert(elements_tokens(Seq::<ElementView>::empty()) =~= Seq::<Token>::empty());
        assert(c.last() == c[0]);
        assert(elements_tokens(c) =~= element_tokens(c[0]));
        crate::types::lemma_yes_no_text_round_trip(v.black_and_white);
        let x = yes_no_text(v.black_and_white);
        assert(set_field(st.doc, "BlackAndWhite"@, x) == Some(InfoView { black_and_white: v.black_and_white, ..st.doc }));
        lemma_element_step(st, "BlackAndWhite"@, x, InfoView { black_and_white: v.black_and_white, ..st.doc });
    }
}

proof fn lemma_chunk_manga(st: BuildView, v: InfoView)
    requires
        st.phase == Phase::InRoot,
        st.doc.manga == default_view().manga,
    ensures
        run_from(Some(st), elements_tokens(enum_chunk("Manga"@, v.manga == Manga::Unknown, manga_text(v.manga)))) matches Some(t)
            && same_progress(t, BuildView { doc: InfoView { manga: v.manga, ..st.doc }, ..st }),
{
    let c = enum_chunk("Manga"@, v.manga == Manga::Unknown, manga_text(v.manga));
    assert(run_from(Some(st), Seq::<Token>::empty()) == Some(st));
    if c.len() == 0 {
        assert(elements_tokens(c) =~= Seq::<Token>::empty());
        assert(InfoView { manga: v.manga, ..st.doc } == st.doc);
    } else {
        lemma_field_name_keys();
        assert(c.drop_last() =~= Seq::<ElementView>::empty());
        assert(elements_tokens(Seq::<ElementView>::empty()) =~= Seq::<Token>::empty());
        assert(c.last() == c[0]);
        assert(elements_tokens(c) =~= element_tokens(c[0]));
        crate::types::lemma_manga_text_round_trip(v.manga);
        let x = manga_text(v.manga);
        assert(set_field(st.doc, "Manga"@, x) == Some(InfoView { manga: v.manga, ..st.doc }));
        lemma_element_step(st, "Manga"@, x, InfoView { manga: v.manga, ..st.doc });
    }
}

proof fn lemma_chunk_characters(st: BuildView, v: InfoView)
    requires
        st.phase == Phase::InRoot,
        st.doc.characters == default_view().characters,
    ensures
        run_from(Some(st), elements_tokens(str_chunk("Characters"@, v.characters))) matches Some(t)
            && same_progress(t, BuildView { doc: InfoView { characters: v.characters, ..st.doc }, ..st }),
{
    let c = str_chunk("Characters"@, v.characters);
    assert(run_from(Some(st), Seq::<Token>::empty()) == Some(st));
    if c.len() == 0 {
        assert(elements_tokens(c) =~= Seq::<Token>::empty());
        assert(InfoView { characters: v.characters, ..st.doc } == st.doc);
    } else {
        lemma_field_name_keys();
        assert(c.drop_last() =~= Seq::<ElementView>::empty());
        assert(elements_tokens(Seq::<ElementView>::empty()) =~= Seq::<Token>::empty());
        assert(c.last() == c[0]);
        assert(elements_tokens(c) =~= element_tokens(c[0]));
        let x = v.characters->0;
        assert(set_field(st.doc, "Characters"@, x) == Some(InfoView { characters: Some(x), ..st.doc }));
        lemma_element_step(st, "Characters"@, x, InfoView { characters: Some(x), ..st.doc });
    }
}

proof fn lemma_chunk_teams(st: BuildView, v: InfoView)
    requires
        st.phase == Phase::InRoot,
        st.doc.teams == default_view().teams,
    ensures
        run_from(Some(st), elements_tokens(str_chunk("Teams"@, v.teams))) matches Some(t)
            && same_progress(t, BuildView { doc: InfoView { teams: v.teams, ..st.doc }, ..st }),
{
    let c = str_chunk("Teams"@, v.teams);
    assert(run_from(Some(st), Seq::<Token>::empty()) == Some(st));
    if c.len() == 0 {
        assert(elements_tokens(c) =~= Seq::<Token>::empty());
        assert(InfoView { teams: v.teams, ..st.doc } == st.doc);
    } else {
        lemma_field_name_keys();
        assert(c.drop_last() =~= Seq::<ElementView>::empty());
        assert(elements_tokens(Seq::<ElementView>::empty()) =~= Seq::<Token>::empty());
        assert(c.last() == c[0]);
        assert(elements_tokens(c) =~= element_tokens(c[0]));
        let x = v.teams->0;
        assert(set_field(st.doc, "Teams"@, x) == Some(InfoView { teams: Some(x), ..st.doc }));
        lemma_element_step(st, "Teams"@, x, InfoView { teams: Some(x), ..st.doc });
    }
}

proof fn lemma_chunk_locations(st: BuildView, v: InfoView)
    requires
        st.phase == Phase::InRoot,
        st.doc.locations == default_view().locations,
    ensures
        run_from(Some(st), elements_tokens(str_chunk("Locations"@, v.locations))) matches Some(t)
            && same_progress(t, BuildView { doc: InfoView { locations: v.locations, ..st.doc }, ..st }),
{
    let c = str_chunk("Locations"@, v.locations);
    assert(run_from(Some(st), Seq::<Token>::empty()) == Some(st));
    if c.len() == 0 {
        assert(elements_tokens(c) =~= Seq::<Token>::empty());
        assert(InfoView { locations: v.locations, ..st.doc } == st.doc);
    } else {
        lemma_field_name_keys();
        assert(c.drop_last() =~= Seq::<ElementView>::empty());
        assert(elements_tokens(Seq::<ElementView>::empty()) =~= Seq::<Token>::empty());
        assert(c.last() == c[0]);
        assert(elements_tokens(c) =~= element_tokens(c[0]));
        let x = v.locations->0;
        assert(set_field(st.doc, "Locations"@, x) == Some(InfoView { locations: Some(x), ..st.doc }));
        lemma_element_step(st, "Locations"@, x, InfoView { locations: Some(x), ..st.doc });
    }
}

proof fn lemma_chunk_scan_information(st: BuildView, v: InfoView)
    requires
        st.phase == Phase::InRoot,
        st.doc.scan_information == default_view().scan_information,
    ensures
        run_from(Some(st), elements_tokens(str_chunk("ScanInformation"@, v.scan_information))) matches Some(t)
            && same_progress(t, BuildView { doc: InfoView { scan_information: v.scan_information, ..st.doc }, ..st }),
{
    let c = str_chunk("ScanInformation"@, v.scan_information);
    assert(run_from(Some(st), Seq::<Token>::empty()) == Some(st));
    if c.len() == 0 {
        assert(elements_tokens(c) =~= Seq::<Token>::empty());
        assert(InfoView { scan_information: v.scan_information, ..st.doc } == st.doc);
    } else {
        lemma_field_name_keys();
        assert(c.drop_last() =~= Seq::<ElementView>::empty());
        assert(elements_tokens(Seq::<ElementView>::empty()) =~= Seq::<Token>::empty());
        assert(c.last() == c[0]);
        assert(elements_tokens(c) =~= element_tokens(c[0]));
        let x = v.scan_information->0;
        assert(set_field(st.doc, "ScanInformation"@, x) == Some(InfoView { scan_information: Some(x), ..st.doc }));
        lemma_element_step(st, "ScanInformation"@, x, InfoView { scan_information: Some(x), ..st.doc });
    }
}

proof fn lemma_chunk_story_arc(st: BuildView, v: InfoView)
    requires
        st.phase == Phase::InRoot,
        st.doc.story_arc == default_view().story_arc,
    ensures
        run_from(Some(st), elements_tokens(str_chunk("StoryArc"@, v.story_arc))) matches Some(t)
            && same_progress(t, BuildView { doc: InfoView { story_arc: v.story_arc, ..st.doc }, ..st }),
{
    let c = str_chunk("StoryArc"@, v.story_arc);
    assert(run_from(Some(st), Seq::<Token>::empty()) == Some(st));
    if c.len() == 0 {
        assert(elements_tokens(c) =~= Seq::<Token>::empty());
        assert(InfoView { story_arc: v.story_arc, ..st.doc } == st.doc);
    } else {
        lemma_field_name_keys();
        assert(c.drop_last() =~= Seq::<ElementView>::empty());
        assert(elements_tokens(Seq::<ElementView>::empty()) =~= Seq::<Token>::empty());
        assert(c.last() == c[0]);
        assert(elements_tokens(c) =~= element_tokens(c[0]));
        let x = v.story_arc->0;
        assert(set_field(st.doc, "StoryArc"@, x) == Some(InfoView { story_arc: Some(x), ..st.doc }));
        lemma_element_step(st, "StoryArc"@, x, InfoView { story_arc: Some(x), ..st.doc });
    }
}

proof fn lemma_chunk_story_arc_number(st: BuildView, v: InfoView)
    requires
        st.phase == Phase::InRoot,
        st.doc.story_arc_number == default_view().story_arc_number,
    ensures
        run_from(Some(st), elements_tokens(str_chunk("StoryArcNumber"@, v.story_arc_number))) matches Some(t)
            && same_progress(t, BuildView { doc: InfoView { story_arc_number: v.story_arc_number, ..st.doc }, ..st }),
{
    let c = str_chunk("StoryArcNumber"@, v.story_arc_number);
    assert(run_from(Some(st), Seq::<Token>::empty()) == Some(st));
    if c.len() == 0 {
        assert(elements_tokens(c) =~= Seq::<Token>::empty());
        assert(InfoView { story_arc_number: v.story_arc_number, ..st.doc } == st.doc);
    } else {
        lemma_field_name_keys();
        assert(c.drop_last() =~= Seq::<ElementView>::empty());
        assert(elements_tokens(Seq::<ElementView>::empty()) =~= Seq::<Token>::empty());
        assert(c.last() == c[0]);
        assert(elements_tokens(c) =~= element_tokens(c[0]));
        let x = v.story_arc_number->0;
        assert(set_field(st.doc, "StoryArcNumber"@, x) == Some(InfoView { story_arc_number: Some(x), ..st.doc }));
        lemma_element_step(st, "StoryArcNumber"@, x, InfoView { story_arc_number: Some(x), ..st.doc });
    }
}

proof fn lemma_chunk_series_group(st: BuildView, v: InfoView)
    requires
        st.phase == Phase::InRoot,
        st.doc.series_group == default_view().series_group,
    ensures
        run_from(Some(st), elements_tokens(str_chunk("SeriesGroup"@, v.series_group))) matches Some(t)
            && same_progress(t, BuildView { doc: InfoView { series_group: v.series_group, ..st.doc }, ..st }),
{
    let c = str_chunk("SeriesGroup"@, v.series_group);
    assert(run_from(Some(st), Seq::<Token>::empty()) == Some(st));
    if c.len() == 0 {
        assert(elements_tokens(c) =~= Seq::<Token>::empty());
        assert(InfoView { series_group: v.series_group, ..st.doc } == st.doc);
    } else {
        lemma_field_name_keys();
        assert(c.drop_last() =~= Seq::<ElementView>::empty());
        assert(elements_tokens(Seq::<ElementView>::empty()) =~= Seq::<Token>::empty());
        assert(c.last() == c[0]);
        assert(elements_tokens(c) =~= element_tokens(c[0]));
        let x = v.series_group->0;
        assert(set_field(st.doc, "SeriesGroup"@, x) == Some(InfoView { series_group: Some(x), ..st.doc }));
        lemma_element_step(st, "SeriesGroup"@, x, InfoView { series_group: Some(x), ..st.doc });
    }
}

proof fn lemma_chunk_age_rating(st: BuildView, v: InfoView)
    requires
        st.phase == Phase::InRoot,
        st.doc.age_rating == default_view().age_rating,
    ensures
        run_from(Some(st), elements_tokens(enum_chunk("AgeRating"@, v.age_rating == AgeRating::Unknown, age_rating_text(v.age_rating)))) matches Some(t)
            && same_progress(t, BuildView { doc: InfoView { age_rating: v.age_rating, ..st.doc }, ..st }),
{
    let c = enum_chunk("AgeRating"@, v.age_rating == AgeRating::Unknown, age_rating_text(v.age_rating));
    assert(run_from(Some(st), Seq::<Token>::empty()) == Some(st));
    if c.len() == 0 {
        assert(elements_tokens(c) =~= Seq::<Token>::empty());
        assert(InfoView { age_rating: v.age_rating, ..st.doc } == st.doc);
    } else {
        lemma_field_name_keys();
        assert(c.drop_last() =~= Seq::<ElementView>::empty());
        assert(elements_tokens(Seq::<ElementView>::empty()) =~= Seq::<Token>::empty());
        assert(c.last() == c[0]);
        assert(elements_tokens(c) =~= element_tokens(c[0]));
        crate::types::lemma_age_rating_text_round_trip(v.age_rating);
        let x = age_rating_text(v.age_rating);
        assert(set_field(st.doc, "AgeRating"@, x) == Some(InfoView { age_rating: v.age_rating, ..st.doc }));
        lemma_element_step(st, "AgeRating"@, x, InfoView { age_rating: v.age_rating, ..st.doc });
    }
}

proof fn lemma_chunk_community_rating(st: BuildView, v: InfoView)
    requires
        st.phase == Phase::InRoot,
        st.doc.community_rating == default_view().community_rating,
    ensures
        run_from(Some(st), elements_tokens(str_chunk("CommunityRating"@, v.community_rating))) matches Some(t)
            && same_progress(t, BuildView { doc: InfoView { community_rating: v.community_rating, ..st.doc }, ..st }),
{
    let c = str_chunk("CommunityRating"@, v.community_rating);
    assert(run_from(Some(st), Seq::<Token>::empty()) == Some(st));
    if c.len() == 0 {
        assert(elements_tokens(c) =~= Seq::<Token>::empty());
        assert(InfoView { community_rating: v.community_rating, ..st.doc } == st.doc);
    } else {
        lemma_field_name_keys();
        assert(c.drop_last() =~= Seq::<ElementView>::empty());
        assert(elements_tokens(Seq::<ElementView>::empty()) =~= Seq::<Token>::empty());
        assert(c.last() == c[0]);
        assert(elements_tokens(c) =~= element_tokens(c[0]));
        let x = v.community_rating->0;
        assert(set_field(st.doc, "CommunityRating"@, x) == Some(InfoView { community_rating: Some(x), ..st.doc }));
        lemma_element_step(st, "CommunityRating"@, x, InfoView { community_rating: Some(x), ..st.doc });
    }
}

proof fn lemma_chunk_main_character_or_team(st: BuildView, v: InfoView)
    requires
        st.phase == Phase::InRoot,
        st.doc.main_character_or_team == default_view().main_character_or_team,
    ensures
        run_from(Some(st), elements_tokens(str_chunk("MainCharacterOrTeam"@, v.main_character_or_team))) matches Some(t)
            && same_progress(t, BuildView { doc: InfoView { main_character_or_team: v.main_character_or_team, ..st.doc }, ..st }),
{
    let c = str_chunk("MainCharacterOrTeam"@, v.main_character_or_team);
    assert(run_from(Some(st), Seq::<Token>::empty()) == Some(st));
    if c.len() == 0 {
        assert(elements_tokens(c) =~= Seq::<Token>::empty());
        assert(InfoView { main_character_or_team: v.main_character_or_team, ..st.doc } == st.doc);
    } else {
        lemma_field_name_keys();
        assert(c.drop_last() =~= Seq::<ElementView>::empty());
        assert(elements_tokens(Seq::<ElementView>::empty()) =~= Seq::<Token>::empty());
        assert(c.last() == c[0]);
        assert(elements_tokens(c) =~= element_tokens(c[0]));
        let x = v.main_character_or_team->0;
        assert(set_field(st.doc, "MainCharacterOrTeam"@, x) == Some(InfoView { main_character_or_team: Some(x), ..st.doc }));
        lemma_element_step(st, "MainCharacterOrTeam"@, x, InfoView { main_character_or_team: Some(x), ..st.doc });
    }
}

proof fn lemma_chunk_review(st: BuildView, v: InfoView)
    requires
        st.phase == Phase::InRoot,
        st.doc.review == default_view().review,
    ensures
        run_from(Some(st), elements_tokens(str_chunk("Review"@, v.review))) matches Some(t)
            && same_progress(t, BuildView { doc: InfoView { review: v.review, ..st.doc }, ..st }),
{
    let c = str_chunk("Review"@, v.review);
    assert(run_from(Some(st), Seq::<Token>::empty()) == Some(st));
    if c.len() == 0 {
        assert(elements_tokens(c) =~= Seq::<Token>::empty());
        assert(InfoView { review: v.review, ..st.doc } == st.doc);
    } else {
        lemma_field_name_keys();
        assert(c.drop_last() =~= Seq::<ElementView>::empty());
        assert(elements_tokens(Seq::<ElementView>::empty()) =~= Seq::<Token>::empty());
        assert(c.last() == c[0]);
        assert(elements_tokens(c) =~= element_tokens(c[0]));
        let x = v.review->0;
        assert(set_field(st.doc, "Review"@, x) == Some(InfoView { review: Some(x), ..st.doc }));
        lemma_element_step(st, "Review"@, x, InfoView { review: Some(x), ..st.doc });
    }
}

proof fn lemma_chunk_gtin(st: BuildView, v: InfoView)
    requires
        st.phase == Phase::InRoot,
        st.doc.gtin == default_view().gtin,
    ensures
        run_from(Some(st), elements_tokens(str_chunk("GTIN"@, v.gtin))) matches Some(t)
            && same_progress(t, BuildView { doc: InfoView { gtin: v.gtin, ..st.doc }, ..st }),
{
    let c = str_chunk("GTIN"@, v.gtin);
    assert(run_from(Some(st), Seq::<Token>::empty()) == Some(st));
    if c.len() == 0 {
        assert(elements_tokens(c) =~= Seq::<Token>::empty());
        assert(InfoView { gtin: v.gtin, ..st.doc } == st.doc);
    } else {
        lemma_field_name_keys();
        assert(c.drop_last() =~= Seq::<ElementView>::empty());
        assert(elements_tokens(Seq::<ElementView>::empty()) =~= Seq::<Token>::empty());
        assert(c.last() == c[0]);
        assert(elements_tokens(c) =~= element_tokens(c[0]));
        let x = v.gtin->0;
        assert(set_field(st.doc, "GTIN"@, x) == Some(InfoView { gtin: Some(x), ..st.doc }));
        lemma_element_step(st, "GTIN"@, x, InfoView { gtin: Some(x), ..st.doc });
    }
}

proof fn lemma_group_0(st: BuildView, v: InfoView)
    requires
        st.phase == Phase::InRoot,
        st.doc.title == default_view().title,
        st.doc.series == default_view().series,
        st.doc.number == default_view().number,
        st.doc.count == default_view().count,
        st.doc.volume == default_view().volume,
    ensures
        run_from(Some(st), elements_tokens(crate::info::elements_0(v))) matches Some(t)
            && same_progress(t, BuildView { doc: InfoView { title: v.title, series: v.series, number: v.number, count: v.count, volume: v.volume, ..st.doc }, ..st }),
{
    let e0 = Seq::<ElementView>::empty();
    assert(run_from(Some(st), elements_tokens(e0)) == Some(st));
    let t0 = st;
    let e1 = e0 + str_chunk("Title"@, v.title);
    lemma_elements_tokens_append(e0, str_chunk("Title"@, v.title));
    lemma_run_from_append(Some(st), elements_tokens(e0), elements_tokens(str_chunk("Title"@, v.title)));
    lemma_chunk_title(t0, v);
    let t1 = run_from(Some(t0), elements_tokens(str_chunk("Title"@, v.title)))->0;
    let e2 = e1 + str_chunk("Series"@, v.series);
    lemma_elements_tokens_append(e1, str_chunk("Series"@, v.series));
    lemma_run_from_append(Some(st), elements_tokens(e1), elements_tokens(str_chunk("Series"@, v.series)));
    lemma_chunk_series(t1, v);
    let t2 = run_from(Some(t1), elements_tokens(str_chunk("Series"@, v.series)))->0;
    let e3 = e2 + str_chunk("Number"@, v.number);
    lemma_elements_tokens_append(e2, str_chunk("Number"@, v.number));
    lemma_run_from_append(Some(st), elements_tokens(e2), elements_tokens(str_chunk("Number"@, v.number)));
    lemma_chunk_number(t2, v);
    let t3 = run_from(Some(t2), elements_tokens(str_chunk("Number"@, v.number)))->0;
    let e4 = e3 + int_chunk("Count"@, v.count, -1i32);
    lemma_elements_tokens_append(e3, int_chunk("Count"@, v.count, -1i32));
    lemma_run_from_append(Some(st), elements_tokens(e3), elements_tokens(int_chunk("Count"@, v.count, -1i32)));
    lemma_chunk_count(t3, v);
    let t4 = run_from(Some(t3), elements_tokens(int_chunk("Count"@, v.count, -1i32)))->0;
    let e5 = e4 + int_chunk("Volume"@, v.volume, -1i32);
    lemma_elements_tokens_append(e4, int_chunk("Volume"@, v.volume, -1i32));
    lemma_run_from_append(Some(st), elements_tokens(e4), elements_tokens(int_chunk("Volume"@, v.volume, -1i32)));
    lemma_chunk_volume(t4, v);
    let t5 = run_from(Some(t4), elements_tokens(int_chunk("Volume"@, v.volume, -1i32)))->0;
    assert(e5 == crate::info::elements_0(v));
}

proof fn lemma_group_1(st: BuildView, v: InfoView)
    requires
        st.phase == Phase::InRoot,
        st.doc.alternate_series == default_view().alternate_series,
        st.doc.alternate_number == default_view().alternate_number,
        st.doc.alternate_count == default_view().alternate_count,
        st.doc.summary == default_view().summary,
        st.doc.notes == default_view().notes,
    ensures
        run_from(Some(st), elements_tokens(crate::info::elements_1(v))) matches Some(t)
            && same_progress(t, BuildView { doc: InfoView { alternate_series: v.alternate_series, alternate_number: v.alternate_number, alternate_count: v.alternate_count, summary: v.summary, notes: v.notes, ..st.doc }, ..st }),
{
    let e0 = Seq::<ElementView>::empty();
    assert(run_from(Some(st), elements_tokens(e0)) == Some(st));
    let t0 = st;
    let e1 = e0 + str_chunk("AlternateSeries"@, v.alternate_series);
    lemma_elements_tokens_append(e0, str_chunk("AlternateSeries"@, v.alternate_series));
    lemma_run_from_append(Some(st), elements_tokens(e0), elements_tokens(str_chunk("AlternateSeries"@, v.alternate_series)));
    lemma_chunk_alternate_series(t0, v);
    let t1 = run_from(Some(t0), elements_tokens(str_chunk("AlternateSeries"@, v.alternate_series)))->0;
    let e2 = e1 + str_chunk("AlternateNumber"@, v.alternate_number);
    lemma_elements_tokens_append(e1, str_chunk("AlternateNumber"@, v.alternate_number));
    lemma_run_from_append(Some(st), elements_tokens(e1), elements_tokens(str_chunk("AlternateNumber"@, v.alternate_number)));
    lemma_chunk_alternate_number(t1, v);
    let t2 = run_from(Some(t1), elements_tokens(str_chunk("AlternateNumber"@, v.alternate_number)))->0;
    let e3 = e2 + int_chunk("AlternateCount"@, v.alternate_count, -1i32);
    lemma_elements_tokens_append(e2, int_chunk("AlternateCount"@, v.alternate_count, -1i32));
    lemma_run_from_append(Some(st), elements_tokens(e2), elements_tokens(int_chunk("AlternateCount"@, v.alternate_count, -1i32)));
    lemma_chunk_alternate_count(t2, v);
    let t3 = run_from(Some(t2), elements_tokens(int_chunk("AlternateCount"@, v.alternate_count, -1i32)))->0;
    let e4 = e3 + str_chunk("Summary"@, v.summary);
    lemma_elements_tokens_append(e3, str_chunk("Summary"@, v.summary));
    lemma_run_from_append(Some(st), elements_tokens(e3), elements_tokens(str_chunk("Summary"@, v.summary)));
    lemma_chunk_summary(t3, v);
    let t4 = run_from(Some(t3), elements_tokens(str_chunk("Summary"@, v.summary)))->0;
    let e5 = e4 + str_chunk("Notes"@, v.notes);
    lemma_elements_tokens_append(e4, str_chunk("Notes"@, v.notes));
    lemma_run_from_append(Some(st), elements_tokens(e4), elements_tokens(str_chunk("Notes"@, v.notes)));
    lemma_chunk_notes(t4, v);
    let t5 = run_from(Some(t4), elements_tokens(str_chunk("Notes"@, v.notes)))->0;
    assert(e5 == crate::info::elements_1(v));
}

proof fn lemma_group_2(st: BuildView, v: InfoView)
    requires
        st.phase == Phase::InRoot,
        st.doc.year == default_view().year,
        st.doc.month == default_view().month,
        st.doc.day == default_view().day,
        st.doc.writer == default_view().writer,
        st.doc.penciller == default_view().penciller,
    ensures
        run_from(Some(st), elements_tokens(crate::info::elements_2(v))) matches Some(t)
            && same_progress(t, BuildView { doc: InfoView { year: v.year, month: v.month, day: v.day, writer: v.writer, penciller: v.penciller, ..st.doc }, ..st }),
{
    let e0 = Seq::<ElementView>::empty();
    assert(run_from(Some(st), elements_tokens(e0)) == Some(st));
    let t0 = st;
    let e1 = e0 + int_chunk("Year"@, v.year, -1i32);
    lemma_elements_tokens_append(e0, int_chunk("Year"@, v.year, -1i32));
    lemma_run_from_append(Some(st), elements_tokens(e0), elements_tokens(int_chunk("Year"@, v.year, -1i32)));
    lemma_chunk_year(t0, v);
    let t1 = run_from(Some(t0), elements_tokens(int_chunk("Year"@, v.year, -1i32)))->0;
    let e2 = e1 + int_chunk("Month"@, v.month, -1i32);
    lemma_elements_tokens_append(e1, int_chunk("Month"@, v.month, -1i32));
    lemma_run_from_append(Some(st), elements_tokens(e1), elements_tokens(int_chunk("Month"@, v.month, -1i32)));
    lemma_chunk_month(t1, v);
    let t2 = run_from(Some(t1), elements_tokens(int_chunk("Month"@, v.month, -1i32)))->0;
    let e3 = e2 + int_chunk("Day"@, v.day, -1i32);
    lemma_elements_tokens_append(e2, int_chunk("Day"@, v.day, -1i32));
    lemma_run_from_append(Some(st), elements_tokens(e2), elements_tokens(int_chunk("Day"@, v.day, -1i32)));
    lemma_chunk_day(t2, v);
    let t3 = run_from(Some(t2), elements_tokens(int_chunk("Day"@, v.day, -1i32)))->0;
    let e4 = e3 + str_chunk("Writer"@, v.writer);
    lemma_elements_tokens_append(e3, str_chunk("Writer"@, v.writer));
    lemma_run_from_append(Some(st), elements_tokens(e3), elements_tokens(str_chunk("Writer"@, v.writer)));
    lemma_chunk_writer(t3, v);
    let t4 = run_from(Some(t3), elements_tokens(str_chunk("Writer"@, v.writer)))->0;
    let e5 = e4 + str_chunk("Penciller"@, v.penciller);
    lemma_elements_tokens_append(e4, str_chunk("Penciller"@, v.penciller));
    lemma_run_from_append(Some(st), elements_tokens(e4), elements_tokens(str_chunk("Penciller"@, v.penciller)));
    lemma_chunk_penciller(t4, v);
    let t5 = run_from(Some(t4), elements_tokens(str_chunk("Penciller"@, v.penciller)))->0;
    assert(e5 == crate::info::elements_2(v));
}

proof fn lemma_group_3(st: BuildView, v: InfoView)
    requires
        st.phase == Phase::InRoot,
        st.doc.inker == default_view().inker,
        st.doc.colorist == default_view().colorist,
        st.doc.letterer == default_view().letterer,
        st.doc.cover_artist == default_view().cover_artist,
        st.doc.editor == default_view().editor,
    ensures
        run_from(Some(st), elements_tokens(crate::info::elements_3(v))) matches Some(t)
            && same_progress(t, BuildView { doc: InfoView { inker: v.inker, colorist: v.colorist, letterer: v.letterer, cover_artist: v.cover_artist, editor: v.editor, ..st.doc }, ..st }),
{
    let e0 = Seq::<ElementView>::empty();
    assert(run_from(Some(st), elements_tokens(e0)) == Some(st));
    let t0 = st;
    let e1 = e0 + str_chunk("Inker"@, v.inker);
    lemma_elements_tokens_append(e0, str_chunk("Inker"@, v.inker));
    lemma_run_from_append(Some(st), elements_tokens(e0), elements_tokens(str_chunk("Inker"@, v.inker)));
    lemma_chunk_inker(t0, v);
    let t1 = run_from(Some(t0), elements_tokens(str_chunk("Inker"@, v.inker)))->0;
    let e2 = e1 + str_chunk("Colorist"@, v.colorist);
    lemma_elements_tokens_append(e1, str_chunk("Colorist"@, v.colorist));
    lemma_run_from_append(Some(st), elements_tokens(e1), elements_tokens(str_chunk("Colorist"@, v.colorist)));
    lemma_chunk_colorist(t1, v);
    let t2 = run_from(Some(t1), elements_tokens(str_chunk("Colorist"@, v.colorist)))->0;
    let e3 = e2 + str_chunk("Letterer"@, v.letterer);
    lemma_elements_tokens_append(e2, str_chunk("Letterer"@, v.letterer));
    lemma_run_from_append(Some(st), elements_tokens(e2), elements_tokens(str_chunk("Letterer"@, v.letterer)));
    lemma_chunk_letterer(t2, v);
    let t3 = run_from(Some(t2), elements_tokens(str_chunk("Letterer"@, v.letterer)))->0;
    let e4 = e3 + str_chunk("CoverArtist"@, v.cover_artist);
    lemma_elements_tokens_append(e3, str_chunk("CoverArtist"@, v.cover_artist));
    lemma_run_from_append(Some(st), elements_tokens(e3), elements_tokens(str_chunk("CoverArtist"@, v.cover_artist)));
    lemma_chunk_cover_artist(t3, v);
    let t4 = run_from(Some(t3), elements_tokens(str_chunk("CoverArtist"@, v.cover_artist)))->0;
    let e5 = e4 + str_chunk("Editor"@, v.editor);
    lemma_elements_tokens_append(e4, str_chunk("Editor"@, v.editor));
    lemma_run_from_append(Some(st), elements_tokens(e4), elements_tokens(str_chunk("Editor"@, v.editor)));
    lemma_chunk_editor(t4, v);
    let t5 = run_from(Some(t4), elements_tokens(str_chunk("Editor"@, v.editor)))->0;
    assert(e5 == crate::info::elements_3(v));
}

proof fn lemma_group_4(st: BuildView, v: InfoView)
    requires
        st.phase == Phase::InRoot,
        st.doc.translator == default_view().translator,
        st.doc.publisher == default_view().publisher,
        st.doc.imprint == default_view().imprint,
        st.doc.genre == default_view().genre,
        st.doc.tags == default_view().tags,
    ensures
        run_from(Some(st), elements_tokens(crate::info::elements_4(v))) matches Some(t)
            && same_progress(t, BuildView { doc: InfoView { translator: v.translator, publisher: v.publisher, imprint: v.imprint, genre: v.genre, tags: v.tags, ..st.doc }, ..st }),
{
    let e0 = Seq::<ElementView>::empty();
    assert(run_from(Some(st), elements_tokens(e0)) == Some(st));
    let t0 = st;
    let e1 = e0 + str_chunk("Translator"@, v.translator);
    lemma_elements_tokens_append(e0, str_chunk("Translator"@, v.translator));
    lemma_run_from_append(Some(st), elements_tokens(e0), elements_tokens(str_chunk("Translator"@, v.translator)));
    lemma_chunk_translator(t0, v);
    let t1 = run_from(Some(t0), elements_tokens(str_chunk("Translator"@, v.translator)))->0;
    let e2 = e1 + str_chunk("Publisher"@, v.publisher);
    lemma_elements_tokens_append(e1, str_chunk("Publisher"@, v.publisher));
    lemma_run_from_append(Some(st), elements_tokens(e1), elements_tokens(str_chunk("Publisher"@, v.publisher)));
    lemma_chunk_publisher(t1, v);
    let t2 = run_from(Some(t1), elements_tokens(str_chunk("Publisher"@, v.publisher)))->0;
    let e3 = e2 + str_chunk("Imprint"@, v.imprint);
    lemma_elements_tokens_append(e2, str_chunk("Imprint"@, v.imprint));
    lemma_run_from_append(Some(st), elements_tokens(e2), elements_tokens(str_chunk("Imprint"@, v.imprint)));
    lemma_chunk_imprint(t2, v);
    let t3 = run_from(Some(t2), elements_tokens(str_chunk("Imprint"@, v.imprint)))->0;
    let e4 = e3 + str_chunk("Genre"@, v.genre);
    lemma_elements_tokens_append(e3, str_chunk("Genre"@, v.genre));
    lemma_run_from_append(Some(st), elements_tokens(e3), elements_tokens(str_chunk("Genre"@, v.genre)));
    lemma_chunk_genre(t3, v);
    let t4 = run_from(Some(t3), elements_tokens(str_chunk("Genre"@, v.genre)))->0;
    let e5 = e4 + str_chunk("Tags"@, v.tags);
    lemma_elements_tokens_append(e4, str_chunk("Tags"@, v.tags));
    lemma_run_from_append(Some(st), elements_tokens(e4), elements_tokens(str_chunk("Tags"@, v.tags)));
    lemma_chunk_tags(t4, v);
    let t5 = run_from(Some(t4), elements_tokens(str_chunk("Tags"@, v.tags)))->0;
    assert(e5 == crate::info::elements_4(v));
}

proof fn lemma_group_5(st: BuildView, v: InfoView)
    requires
        st.phase == Phase::InRoot,
        st.doc.web == default_view().web,
        st.doc.page_count == default_view().page_count,
        st.doc.language_iso == default_view().language_iso,
        st.doc.format == default_view().format,
        st.doc.black_and_white == default_view().black_and_white,
    ensures
        run_from(Some(st), elements_tokens(crate::info::elements_5(v))) matches Some(t)
            && same_progress(t, BuildView { doc: InfoView { web: v.web, page_count: v.page_count, language_iso: v.language_iso, format: v.format, black_and_white: v.black_and_white, ..st.doc }, ..st }),
{
    let e0 = Seq::<ElementView>::empty();
    assert(run_from(Some(st), elements_tokens(e0)) == Some(st));
    let t0 = st;
    let e1 = e0 + str_chunk("Web"@, v.web);
    lemma_elements_tokens_append(e0, str_chunk("Web"@, v.web));
    lemma_run_from_append(Some(st), elements_tokens(e0), elements_tokens(str_chunk("Web"@, v.web)));
    lemma_chunk_web(t0, v);
    let t1 = run_from(Some(t0), elements_tokens(str_chunk("Web"@, v.web)))->0;
    let e2 = e1 + int_chunk("PageCount"@, v.page_count, 0i32);
    lemma_elements_tokens_append(e1, int_chunk("PageCount"@, v.page_count, 0i32));
    lemma_run_from_append(Some(st), elements_tokens(e1), elements_tokens(int_chunk("PageCount"@, v.page_count, 0i32)));
    lemma_chunk_page_count(t1, v);
    let t2 = run_from(Some(t1), elements_tokens(int_chunk("PageCount"@, v.page_count, 0i32)))->0;
    let e3 = e2 + str_chunk("LanguageISO"@, v.language_iso);
    lemma_elements_tokens_append(e2, str_chunk("LanguageISO"@, v.language_iso));
    lemma_run_from_append(Some(st), elements_tokens(e2), elements_tokens(str_chunk("LanguageISO"@, v.language_iso)));
    lemma_chunk_language_iso(t2, v);
    let t3 = run_from(Some(t2), elements_tokens(str_chunk("LanguageISO"@, v.language_iso)))->0;
    let e4 = e3 + str_chunk("Format"@, v.format);
    lemma_elements_tokens_append(e3, str_chunk("Format"@, v.format));
    lemma_run_from_append(Some(st), elements_tokens(e3), elements_tokens(str_chunk("Format"@, v.format)));
    lemma_chunk_format(t3, v);
    let t4 = run_from(Some(t3), elements_tokens(str_chunk("Format"@, v.format)))->0;
    let e5 = e4 + enum_chunk("BlackAndWhite"@, v.black_and_white == YesNo::Unknown, yes_no_text(v.black_and_white));
    lemma_elements_tokens_append(e4, enum_chunk("BlackAndWhite"@, v.black_and_white == YesNo::Unknown, yes_no_text(v.black_and_white)));
    lemma_run_from_append(Some(st), elements_tokens(e4), elements_tokens(enum_chunk("BlackAndWhite"@, v.black_and_white == YesNo::Unknown, yes_no_text(v.black_and_white))));
    lemma_chunk_black_and_white(t4, v);
    let t5 = run_from(Some(t4), elements_tokens(enum_chunk("BlackAndWhite"@, v.black_and_white == YesNo::Unknown, yes_no_text(v.black_and_white))))->0;
    assert(e5 == crate::info::elements_5(v));
}

proof fn lemma_group_6(st: BuildView, v: InfoView)
    requires
        st.phase == Phase::InRoot,
        st.doc.manga == default_view().manga,
        st.doc.characters == default_view().characters,
        st.doc.teams == default_view().teams,
        st.doc.locations == default_view().locations,
        st.doc.scan_information == default_view().scan_information,
    ensures
        run_from(Some(st), elements_tokens(crate::info::elements_6(v))) matches Some(t)
            && same_progress(t, BuildView { doc: InfoView { manga: v.manga, characters: v.characters, teams: v.teams, locations: v.locations, scan_information: v.scan_information, ..st.doc }, ..st }),
{
    let e0 = Seq::<ElementView>::empty();
    assert(run_from(Some(st), elements_tokens(e0)) == Some(st));
    let t0 = st;
    let e1 = e0 + enum_chunk("Manga"@, v.manga == Manga::Unknown, manga_text(v.manga));
    lemma_elements_tokens_append(e0, enum_chunk("Manga"@, v.manga == Manga::Unknown, manga_text(v.manga)));
    lemma_run_from_append(Some(st), elements_tokens(e0), elements_tokens(enum_chunk("Manga"@, v.manga == Manga::Unknown, manga_text(v.manga))));
    lemma_chunk_manga(t0, v);
    let t1 = run_from(Some(t0), elements_tokens(enum_chunk("Manga"@, v.manga == Manga::Unknown, manga_text(v.manga))))->0;
    let e2 = e1 + str_chunk("Characters"@, v.characters);
    lemma_elements_tokens_append(e1, str_chunk("Characters"@, v.characters));
    lemma_run_from_append(Some(st), elements_tokens(e1), elements_tokens(str_chunk("Characters"@, v.characters)));
    lemma_chunk_characters(t1, v);
    let t2 = run_from(Some(t1), elements_tokens(str_chunk("Characters"@, v.characters)))->0;
    let e3 = e2 + str_chunk("Teams"@, v.teams);
    lemma_elements_tokens_append(e2, str_chunk("Teams"@, v.teams));
    lemma_run_from_append(Some(st), elements_tokens(e2), elements_tokens(str_chunk("Teams"@, v.teams)));
    lemma_chunk_teams(t2, v);
    let t3 = run_from(Some(t2), elements_tokens(str_chunk("Teams"@, v.teams)))->0;
    let e4 = e3 + str_chunk("Locations"@, v.locations);
    lemma_elements_tokens_append(e3, str_chunk("Locations"@, v.locations));
    lemma_run_from_append(Some(st), elements_tokens(e3), elements_tokens(str_chunk("Locations"@, v.locations)));
    lemma_chunk_locations(t3, v);
    let t4 = run_from(Some(t3), elements_tokens(str_chunk("Locations"@, v.locations)))->0;
    let e5 = e4 + str_chunk("ScanInformation"@, v.scan_information);
    lemma_elements_tokens_append(e4, str_chunk("ScanInformation"@, v.scan_information));
    lemma_run_from_append(Some(st), elements_tokens(e4), elements_tokens(str_chunk("ScanInformation"@, v.scan_information)));
    lemma_chunk_scan_information(t4, v);
    let t5 = run_from(Some(t4), elements_tokens(str_chunk("ScanInformation"@, v.scan_information)))->0;
    assert(e5 == crate::info::elements_6(v));
}

proof fn lemma_group_7(st: BuildView, v: InfoView)
    requires
        st.phase == Phase::InRoot,
        st.doc.story_arc == default_view().story_arc,
        st.doc.story_arc_number == default_view().story_arc_number,
        st.doc.series_group == default_view().series_group,
        st.doc.age_rating == default_view().age_rating,
    ensures
        run_from(Some(st), elements_tokens(crate::info::elements_7(v))) matches Some(t)
            && same_progress(t, BuildView { doc: InfoView { story_arc: v.story_arc, story_arc_number: v.story_arc_number, series_group: v.series_group, age_rating: v.age_rating, ..st.doc }, ..st }),
{
    let e0 = Seq::<ElementView>::empty();
    assert(run_from(Some(st), elements_tokens(e0)) == Some(st));
    let t0 = st;
    let e1 = e0 + str_chunk("StoryArc"@, v.story_arc);
    lemma_elements_tokens_append(e0, str_chunk("StoryArc"@, v.story_arc));
    lemma_run_from_append(Some(st), elements_tokens(e0), elements_tokens(str_chunk("StoryArc"@, v.story_arc)));
    lemma_chunk_story_arc(t0, v);
    let t1 = run_from(Some(t0), elements_tokens(str_chunk("StoryArc"@, v.story_arc)))->0;
    let e2 = e1 + str_chunk("StoryArcNumber"@, v.story_arc_number);
    lemma_elements_tokens_append(e1, str_chunk("StoryArcNumber"@, v.story_arc_number));
    lemma_run_from_append(Some(st), elements_tokens(e1), elements_tokens(str_chunk("StoryArcNumber"@, v.story_arc_number)));
    lemma_chunk_story_arc_number(t1, v);
    let t2 = run_from(Some(t1), elements_tokens(str_chunk("StoryArcNumber"@, v.story_arc_number)))->0;
    let e3 = e2 + str_chunk("SeriesGroup"@, v.series_group);
    lemma_elements_tokens_append(e2, str_chunk("SeriesGroup"@, v.series_group));
    lemma_run_from_append(Some(st), elements_tokens(e2), elements_tokens(str_chunk("SeriesGroup"@, v.series_group)));
    lemma_chunk_series_group(t2, v);
    let t3 = run_from(Some(t2), elements_tokens(str_chunk("SeriesGroup"@, v.series_group)))->0;
    let e4 = e3 + enum_chunk("AgeRating"@, v.age_rating == AgeRating::Unknown, age_rating_text(v.age_rating));
    lemma_elements_tokens_append(e3, enum_chunk("AgeRating"@, v.age_rating == AgeRating::Unknown, age_rating_text(v.age_rating)));
    lemma_run_from_append(Some(st), elements_tokens(e3), elements_tokens(enum_chunk("AgeRating"@, v.age_rating == AgeRating::Unknown, age_rating_text(v.age_rating))));
    lemma_chunk_age_rating(t3, v);
    let t4 = run_from(Some(t3), elements_tokens(enum_chunk("AgeRating"@, v.age_rating == AgeRating::Unknown, age_rating_text(v.age_rating))))->0;
    assert(e4 == crate::info::elements_7(v));
}

proof fn lemma_group_8(st: BuildView, v: InfoView)
    requires
        st.phase == Phase::InRoot,
        st.doc.community_rating == default_view().community_rating,
        st.doc.main_character_or_team == default_view().main_character_or_team,
        st.doc.review == default_view().review,
        st.doc.gtin == default_view().gtin,
    ensures
        run_from(Some(st), elements_tokens(crate::info::elements_8(v))) matches Some(t)
            && same_progress(t, BuildView { doc: InfoView { community_rating: v.community_rating, main_character_or_team: v.main_character_or_team, review: v.review, gtin: v.gtin, ..st.doc }, ..st }),
{
    let e0 = Seq::<ElementView>::empty();
    assert(run_from(Some(st), elements_tokens(e0)) == Some(st));
    let t0 = st;
    let e1 = e0 + str_chunk("CommunityRating"@, v.community_rating);
    lemma_elements_tokens_append(e0, str_chunk("CommunityRating"@, v.community_rating));
    lemma_run_from_append(Some(st), elements_tokens(e0), elements_tokens(str_chunk("CommunityRating"@, v.community_rating)));
    lemma_chunk_community_rating(t0, v);
    let t1 = run_from(Some(t0), elements_tokens(str_chunk("CommunityRating"@, v.community_rating)))->0;
    let e2 = e1 + str_chunk("MainCharacterOrTeam"@, v.main_character_or_team);
    lemma_elements_tokens_append(e1, str_chunk("MainCharacterOrTeam"@, v.main_character_or_team));
    lemma_run_from_append(Some(st), elements_tokens(e1), elements_tokens(str_chunk("MainCharacterOrTeam"@, v.main_character_or_team)));
    lemma_chunk_main_character_or_team(t1, v);
    let t2 = run_from(Some(t1), elements_tokens(str_chunk("MainCharacterOrTeam"@, v.main_character_or_team)))->0;
    let e3 = e2 + str_chunk("Review"@, v.review);
    lemma_elements_tokens_append(e2, str_chunk("Review"@, v.review));
    lemma_run_from_append(Some(st), elements_tokens(e2), elements_tokens(str_chunk("Review"@, v.review)));
    lemma_chunk_review(t2, v);
    let t3 = run_from(Some(t2), elements_tokens(str_chunk("Review"@, v.review)))->0;
    let e4 = e3 + str_chunk("GTIN"@, v.gtin);
    lemma_elements_tokens_append(e3, str_chunk("GTIN"@, v.gtin));
    lemma_run_from_append(Some(st), elements_tokens(e3), elements_tokens(str_chunk("GTIN"@, v.gtin)));
    lemma_chunk_gtin(t3, v);
    let t4 = run_from(Some(t3), elements_tokens(str_chunk("GTIN"@, v.gtin)))->0;
    assert(e4 == crate::info::elements_8(v));
}

proof fn lemma_head(st: BuildView, v: InfoView)
    requires
        st.phase == Phase::InRoot,
        st.doc == default_view(),
    ensures
        run_from(Some(st), elements_tokens(head_elements(v))) matches Some(t)
            && same_progress(t, BuildView { doc: InfoView { title: v.title, series: v.series, number: v.number, count: v.count, volume: v.volume, alternate_series: v.alternate_series, alternate_number: v.alternate_number, alternate_count: v.alternate_count, summary: v.summary, notes: v.notes, year: v.year, month: v.month, day: v.day, writer: v.writer, penciller: v.penciller, inker: v.inker, colorist: v.colorist, letterer: v.letterer, cover_artist: v.cover_artist, editor: v.editor, translator: v.translator, publisher: v.publisher, imprint: v.imprint, genre: v.genre, tags: v.tags, web: v.web, page_count: v.page_count, language_iso: v.language_iso, format: v.format, black_and_white: v.black_and_white, manga: v.manga, characters: v.characters, teams: v.teams, locations: v.locations, scan_information: v.scan_information, story_arc: v.story_arc, story_arc_number: v.story_arc_number, series_group: v.series_group, age_rating: v.age_rating, ..default_view() }, ..st }),
{
    let h0 = crate::info::elements_0(v);
    lemma_group_0(st, v);
    let t0 = run_from(Some(st), elements_tokens(h0))->0;
    let h1 = h0 + crate::info::elements_1(v);
    lemma_elements_tokens_append(h0, crate::info::elements_1(v));
    lemma_run_from_append(Some(st), elements_tokens(h0), elements_tokens(crate::info::elements_1(v)));
    lemma_group_1(t0, v);
    let t1 = run_from(Some(t0), elements_tokens(crate::info::elements_1(v)))->0;
    let h2 = h1 + crate::info::elements_2(v);
    lemma_elements_tokens_append(h1, crate::info::elements_2(v));
    lemma_run_from_append(Some(st), elements_tokens(h1), elements_tokens(crate::info::elements_2(v)));
    lemma_group_2(t1, v);
    let t2 = run_from(Some(t1), elements_tokens(crate::info::elements_2(v)))->0;
    let h3 = h2 + crate::info::elements_3(v);
    lemma_elements_tokens_append(h2, crate::info::elements_3(v));
    lemma_run_from_append(Some(st), elements_tokens(h2), elements_tokens(crate::info::elements_3(v)));
    lemma_group_3(t2, v);
    let t3 = run_from(Some(t2), elements_tokens(crate::info::elements_3(v)))->0;
    let h4 = h3 + crate::info::elements_4(v);
    lemma_elements_tokens_append(h3, crate::info::elements_4(v));
    lemma_run_from_append(Some(st), elements_tokens(h3), elements_tokens(crate::info::elements_4(v)));
    lemma_group_4(t3, v);
    let t4 = run_from(Some(t3), elements_tokens(crate::info::elements_4(v)))->0;
    let h5 = h4 + crate::info::elements_5(v);
    lemma_elements_tokens_append(h4, crate::info::elements_5(v));
    lemma_run_from_append(Some(st), elements_tokens(h4), elements_tokens(crate::info::elements_5(v)));
    lemma_group_5(t4, v);
    let t5 = run_from(Some(t4), elements_tokens(crate::info::elements_5(v)))->0;
    let h6 = h5 + crate::info::elements_6(v);
    lemma_elements_tokens_append(h5, crate::info::elements_6(v));
    lemma_run_from_append(Some(st), elements_tokens(h5), elements_tokens(crate::info::elements_6(v)));
    lemma_group_6(t5, v);
    let t6 = run_from(Some(t5), elements_tokens(crate::info::elements_6(v)))->0;
    let h7 = h6 + crate::info::elements_7(v);
    lemma_elements_tokens_append(h6, crate::info::elements_7(v));
    lemma_run_from_append(Some(st), elements_tokens(h6), elements_tokens(crate::info::elements_7(v)));
    lemma_group_7(t6, v);
    let t7 = run_from(Some(t6), elements_tokens(crate::info::elements_7(v)))->0;
    assert(h7 == head_elements(v));
}

proof fn lemma_tail(st: BuildView, v: InfoView)
    requires
        st.phase == Phase::InRoot,
        st.doc.community_rating == default_view().community_rating,
        st.doc.main_character_or_team == default_view().main_character_or_team,
        st.doc.review == default_view().review,
        st.doc.gtin == default_view().gtin,
    ensures
        run_from(Some(st), elements_tokens(tail_elements(v))) matches Some(t)
            && same_progress(t, BuildView { doc: InfoView { community_rating: v.community_rating, main_character_or_team: v.main_character_or_team, review: v.review, gtin: v.gtin, ..st.doc }, ..st }),
{
    lemma_group_8(st, v);
}


pub open spec fn attrs_from(po: Option<PageView>, attrs: Seq<ElementView>) -> Option<PageView>
    decreases attrs.len(),
{
    if attrs.len() == 0 {
        po
    } else {
        match attrs_from(po, attrs.drop_last()) {
            Some(q) => set_page_attribute(q, attrs.last().0, attrs.last().1),
            None => None,
        }
    }
}

proof fn lemma_attrs_from_none(attrs: Seq<ElementView>)
    ensures
        attrs_from(None, attrs) is None,
    decreases attrs.len(),
{
    if attrs.len() > 0 {
        lemma_attrs_from_none(attrs.drop_last());
    }
}

proof fn lemma_attrs_from_append(po: Option<PageView>, a: Seq<ElementView>, b: Seq<ElementView>)
    ensures
        attrs_from(po, a + b) == attrs_from(attrs_from(po, a), b),
    decreases b.len(),
{
    if b.len() == 0 {
        assert(a + b =~= a);
    } else {
        assert((a + b).drop_last() =~= a + b.drop_last());
        assert((a + b).last() == b.last());
        lemma_attrs_from_append(po, a, b.drop_last());
        lemma_attrs_from_none(b.drop_last());
    }
}

proof fn lemma_page_of_attributes_is_attrs_from(attrs: Seq<ElementView>)
    ensures
        page_of_attributes(attrs) == attrs_from(Some(default_page()), attrs),
    decreases attrs.len(),
{
    if attrs.len() > 0 {
        lemma_page_of_attributes_is_attrs_from(attrs.drop_last());
    }
}

/// A page kind's literal reads back as that kind in a `Type` attribute.
proof fn lemma_type_attribute(t: ComicPageType)
    ensures
        type_of_attribute(page_type_text(t)) == Some(t),
{
    let s = page_type_text(t);
    reveal_strlit("FrontCover");
    reveal_strlit("InnerCover");
    reveal_strlit("Roundup");
    reveal_strlit("Story");
    reveal_strlit("Advertisement");
    reveal_strlit("Editorial");
    reveal_strlit("Letters");
    reveal_strlit("Preview");
    reveal_strlit("BackCover");
    reveal_strlit("Other");
    reveal_strlit("Deleted");
    assert("FrontCover"@.len() == 10 && "FrontCover"@[0] == 'F' && "FrontCover"@[9] == 'r');
    assert("InnerCover"@.len() == 10 && "InnerCover"@[0] == 'I' && "InnerCover"@[9] == 'r');
    assert("BackCover"@.len() == 9 && "BackCover"@[0] == 'B' && "BackCover"@[8] == 'r');
    assert("Story"@.len() == 5 && "Story"@[0] == 'S' && "Story"@[4] == 'y');
    assert("Preview"@.len() == 7 && "Preview"@[0] == 'P' && "Preview"@[6] == 'w');
    assert("Roundup"@.len() == 7 && "Roundup"@[0] == 'R' && "Roundup"@[6] == 'p');
    assert("Advertisement"@.len() == 13 && "Advertisement"@[0] == 'A' && "Advertisement"@[12] == 't');
    assert("Editorial"@.len() == 9 && "Editorial"@[0] == 'E' && "Editorial"@[8] == 'l');
    assert("Letters"@.len() == 7 && "Letters"@[0] == 'L' && "Letters"@[6] == 's');
    assert("Deleted"@.len() == 7 && "Deleted"@[0] == 'D' && "Deleted"@[6] == 'd');
    assert("Other"@.len() == 5 && "Other"@[0] == 'O' && "Other"@[4] == 'r');
    assert(!is_unicode_space(s[0]));
    assert(!all_space(s));
    assert(trim_start(s) == s);
    assert(trim_end(s) == s);
    crate::types::lemma_page_type_text_round_trip(t);
}

proof fn lemma_attr_image(q: PageView, p: PageView)
    requires
        q.image == default_page().image,
    ensures
        attrs_from(Some(q), seq![("Image"@, int_text(p.image as int))]) == Some(PageView { image: p.image, ..q }),
{
    let c = seq![("Image"@, int_text(p.image as int))];
    if c.len() == 0 {
        assert(PageView { image: p.image, ..q } == q);
    } else {
        lemma_attribute_name_keys();
        assert(c.drop_last() =~= Seq::<ElementView>::empty());
        assert(attrs_from(Some(q), Seq::<ElementView>::empty()) == Some(q));
        assert(c.last() == c[0]);
        lemma_int_text_round_trip(p.image as int);
    }
}

proof fn lemma_attr_type_(q: PageView, p: PageView)
    requires
        q.type_ == default_page().type_,
    ensures
        attrs_from(Some(q), (match p.type_ {
            Some(t) => seq![("Type"@, page_type_text(t))],
            None => Seq::<ElementView>::empty(),
        })) == Some(PageView { type_: p.type_, ..q }),
{
    let c = (match p.type_ {
            Some(t) => seq![("Type"@, page_type_text(t))],
            None => Seq::<ElementView>::empty(),
        });
    if c.len() == 0 {
        assert(PageView { type_: p.type_, ..q } == q);
    } else {
        lemma_attribute_name_keys();
        assert(c.drop_last() =~= Seq::<ElementView>::empty());
        assert(attrs_from(Some(q), Seq::<ElementView>::empty()) == Some(q));
        assert(c.last() == c[0]);
        lemma_type_attribute(p.type_->0);
    }
}

proof fn lemma_attr_double_page(q: PageView, p: PageView)
    requires
        q.double_page == default_page().double_page,
    ensures
        attrs_from(Some(q), (if p.double_page { seq![("DoublePage"@, "true"@)] } else { Seq::<ElementView>::empty() })) == Some(PageView { double_page: p.double_page, ..q }),
{
    let c = (if p.double_page { seq![("DoublePage"@, "true"@)] } else { Seq::<ElementView>::empty() });
    if c.len() == 0 {
        assert(PageView { double_page: p.double_page, ..q } == q);
    } else {
        lemma_attribute_name_keys();
        assert(c.drop_last() =~= Seq::<ElementView>::empty());
        assert(attrs_from(Some(q), Seq::<ElementView>::empty()) == Some(q));
        assert(c.last() == c[0]);
    }
}

proof fn lemma_attr_image_size(q: PageView, p: PageView)
    requires
        q.image_size == default_page().image_size,
    ensures
        attrs_from(Some(q), (if p.image_size != 0 { seq![("ImageSize"@, int_text(p.image_size as int))] } else { Seq::<ElementView>::empty() })) == Some(PageView { image_size: p.image_size, ..q }),
{
    let c = (if p.image_size != 0 { seq![("ImageSize"@, int_text(p.image_size as int))] } else { Seq::<ElementView>::empty() });
    if c.len() == 0 {
        assert(PageView { image_size: p.image_size, ..q } == q);
    } else {
        lemma_attribute_name_keys();
        assert(c.drop_last() =~= Seq::<ElementView>::empty());
        assert(attrs_from(Some(q), Seq::<ElementView>::empty()) == Some(q));
        assert(c.last() == c[0]);
        lemma_int_text_round_trip(p.image_size as int);
    }
}

proof fn lemma_attr_key(q: PageView, p: PageView)
    requires
        q.key == default_page().key,
    ensures
        attrs_from(Some(q), (if p.key.len() != 0 { seq![("Key"@, p.key)] } else { Seq::<ElementView>::empty() })) == Some(PageView { key: p.key, ..q }),
{
    let c = (if p.key.len() != 0 { seq![("Key"@, p.key)] } else { Seq::<ElementView>::empty() });
    if c.len() == 0 {
        assert(p.key =~= Seq::<char>::empty());
        assert(PageView { key: p.key, ..q } == q);
    } else {
        lemma_attribute_name_keys();
        assert(c.drop_last() =~= Seq::<ElementView>::empty());
        assert(attrs_from(Some(q), Seq::<ElementView>::empty()) == Some(q));
        assert(c.last() == c[0]);
    }
}

proof fn lemma_attr_bookmark(q: PageView, p: PageView)
    requires
        q.bookmark == default_page().bookmark,
    ensures
        attrs_from(Some(q), (if p.bookmark.len() != 0 { seq![("Bookmark"@, p.bookmark)] } else { Seq::<ElementView>::empty() })) == Some(PageView { bookmark: p.bookmark, ..q }),
{
    let c = (if p.bookmark.len() != 0 { seq![("Bookmark"@, p.bookmark)] } else { Seq::<ElementView>::empty() });
    if c.len() == 0 {
        assert(p.bookmark =~= Seq::<char>::empty());
        assert(PageView { bookmark: p.bookmark, ..q } == q);
    } else {
        lemma_attribute_name_keys();
        assert(c.drop_last() =~= Seq::<ElementView>::empty());
        assert(attrs_from(Some(q), Seq::<ElementView>::empty()) == Some(q));
        assert(c.last() == c[0]);
    }
}

proof fn lemma_attr_image_width(q: PageView, p: PageView)
    requires
        q.image_width == default_page().image_width,
    ensures
        attrs_from(Some(q), (if p.image_width != -1 { seq![("ImageWidth"@, int_text(p.image_width as int))] } else { Seq::<ElementView>::empty() })) == Some(PageView { image_width: p.image_width, ..q }),
{
    let c = (if p.image_width != -1 { seq![("ImageWidth"@, int_text(p.image_width as int))] } else { Seq::<ElementView>::empty() });
    if c.len() == 0 {
        assert(PageView { image_width: p.image_width, ..q } == q);
    } else {
        lemma_attribute_name_keys();
        assert(c.drop_last() =~= Seq::<ElementView>::empty());
        assert(attrs_from(Some(q), Seq::<ElementView>::empty()) == Some(q));
        assert(c.last() == c[0]);
        lemma_int_text_round_trip(p.image_width as int);
    }
}

proof fn lemma_attr_image_height(q: PageView, p: PageView)
    requires
        q.image_height == default_page().image_height,
    ensures
        attrs_from(Some(q), (if p.image_height != -1 { seq![("ImageHeight"@, int_text(p.image_height as int))] } else { Seq::<ElementView>::empty() })) == Some(PageView { image_height: p.image_height, ..q }),
{
    let c = (if p.image_height != -1 { seq![("ImageHeight"@, int_text(p.image_height as int))] } else { Seq::<ElementView>::empty() });
    if c.len() == 0 {
        assert(PageView { image_height: p.image_height, ..q } == q);
    } else {
        lemma_attribute_name_keys();
        assert(c.drop_last() =~= Seq::<ElementView>::empty());
        assert(attrs_from(Some(q), Seq::<ElementView>::empty()) == Some(q));
        assert(c.last() == c[0]);
        lemma_int_text_round_trip(p.image_height as int);
    }
}

proof fn lemma_page_attributes_read_back(p: PageView)
    ensures
        page_of_attributes(page_attributes(p)) == Some(PageView { filename: None, ..p }),
{
    lemma_page_of_attributes_is_attrs_from(page_attributes(p));
    let a0 = seq![("Image"@, int_text(p.image as int))];
    assert(attrs_from(Some(default_page()), Seq::<ElementView>::empty()) == Some(default_page()));
    assert(a0 =~= Seq::<ElementView>::empty() + a0);
    lemma_attrs_from_append(Some(default_page()), Seq::<ElementView>::empty(), a0);
    lemma_attr_image(default_page(), p);
    let q0 = PageView { image: p.image, ..default_page() };
    let c1 = (match p.type_ {
            Some(t) => seq![("Type"@, page_type_text(t))],
            None => Seq::<ElementView>::empty(),
        });
    let a1 = a0 + c1;
    lemma_attrs_from_append(Some(default_page()), a0, c1);
    lemma_attr_type_(q0, p);
    let q1 = PageView { type_: p.type_, ..q0 };
    let c2 = (if p.double_page { seq![("DoublePage"@, "true"@)] } else { Seq::<ElementView>::empty() });
    let a2 = a1 + c2;
    lemma_attrs_from_append(Some(default_page()), a1, c2);
    lemma_attr_double_page(q1, p);
    let q2 = PageView { double_page: p.double_page, ..q1 };
    let c3 = (if p.image_size != 0 { seq![("ImageSize"@, int_text(p.image_size as int))] } else { Seq::<ElementView>::empty() });
    let a3 = a2 + c3;
    lemma_attrs_from_append(Some(default_page()), a2, c3);
    lemma_attr_image_size(q2, p);
    let q3 = PageView { image_size: p.image_size, ..q2 };
    let c4 = (if p.key.len() != 0 { seq![("Key"@, p.key)] } else { Seq::<ElementView>::empty() });
    let a4 = a3 + c4;
    lemma_attrs_from_append(Some(default_page()), a3, c4);
    lemma_attr_key(q3, p);
    let q4 = PageView { key: p.key, ..q3 };
    let c5 = (if p.bookmark.len() != 0 { seq![("Bookmark"@, p.bookmark)] } else { Seq::<ElementView>::empty() });
    let a5 = a4 + c5;
    lemma_attrs_from_append(Some(default_page()), a4, c5);
    lemma_attr_bookmark(q4, p);
    let q5 = PageView { bookmark: p.bookmark, ..q4 };
    let c6 = (if p.image_width != -1 { seq![("ImageWidth"@, int_text(p.image_width as int))] } else { Seq::<ElementView>::empty() });
    let a6 = a5 + c6;
    lemma_attrs_from_append(Some(default_page()), a5, c6);
    lemma_attr_image_width(q5, p);
    let q6 = PageView { image_width: p.image_width, ..q5 };
    let c7 = (if p.image_height != -1 { seq![("ImageHeight"@, int_text(p.image_height as int))] } else { Seq::<ElementView>::empty() });
    let a7 = a6 + c7;
    lemma_attrs_from_append(Some(default_page()), a6, c7);
    lemma_attr_image_height(q6, p);
    let q7 = PageView { image_height: p.image_height, ..q6 };
    assert(a7 == page_attributes(p));
    assert(q7 == PageView { filename: None, ..p });
}


proof fn lemma_filename_comment_read_back(f: Seq<char>)
    ensures
        filename_of_comment(filename_comment(f)) == Some(f),
{
    reveal_strlit(" filename: ");
    reveal_strlit(" ");
    let c = filename_comment(f);
    assert(c.subrange(0, 11) =~= " filename: "@);
    assert(c.subrange(11, c.len() - 1) =~= f);
    assert(c.last() == ' ');
}

/// One page read inside the page list is appended to it.
proof fn lemma_page_step(st: BuildView, p: PageView)
    requires
        st.phase == Phase::InPages,
        st.comment is None,
    ensures
        run_from(Some(st), page_tokens(p)) matches Some(t) && t.phase == Phase::InPages && t.comment is None
            && t.doc == st.doc && t.has_pages == st.has_pages && t.pages == st.pages.push(p),
{
    lemma_page_attributes_read_back(p);
    let el = Token::Empty { name: "Page"@, attrs: page_attributes(p) };
    let toks = page_tokens(p);
    assert(run_from(Some(st), Seq::<Token>::empty()) == Some(st));
    match p.filename {
        Some(f) => {
            lemma_filename_comment_read_back(f);
            let ct = Token::Comment { text: filename_comment(f) };
            assert(toks =~= seq![ct, el]);
            assert(toks.drop_last() =~= seq![ct]);
            assert(toks.drop_last().drop_last() =~= Seq::<Token>::empty());
            let s1 = BuildView { comment: Some(filename_comment(f)), ..st };
            assert(run_from(Some(st), toks.drop_last()) == Some(s1));
            assert(PageView { filename: comment_filename(s1.comment), ..PageView { filename: None, ..p } } == p);
        },
        None => {
            assert(toks =~= seq![el]);
            assert(toks.drop_last() =~= Seq::<Token>::empty());
            assert(PageView { filename: comment_filename(st.comment), ..PageView { filename: None, ..p } } == p);
        },
    }
}

proof fn lemma_pages_run(st: BuildView, ps: Seq<PageView>)
    requires
        st.phase == Phase::InPages,
        st.comment is None,
    ensures
        run_from(Some(st), pages_tokens(ps)) matches Some(t) && t.phase == Phase::InPages && t.comment is None
            && t.doc == st.doc && t.has_pages == st.has_pages && t.pages == st.pages + ps,
    decreases ps.len(),
{
    if ps.len() == 0 {
        assert(st.pages + ps =~= st.pages);
    } else {
        lemma_pages_run(st, ps.drop_last());
        lemma_run_from_append(Some(st), pages_tokens(ps.drop_last()), page_tokens(ps.last()));
        let t = run_from(Some(st), pages_tokens(ps.drop_last()))->0;
        lemma_page_step(t, ps.last());
        assert(st.pages + ps.drop_last() + seq![ps.last()] =~= st.pages + ps);
        assert((st.pages + ps.drop_last()).push(ps.last()) =~= st.pages + ps);
    }
}

proof fn lemma_pages_part(st: BuildView, pages: Option<Seq<PageView>>)
    requires
        st.phase == Phase::InRoot,
    ensures
        run_from(Some(st), pages_part_tokens(pages)) matches Some(t) && t.phase == Phase::InRoot
            && t.doc == st.doc && match pages {
                Some(ps) => t.has_pages && t.pages == ps,
                None => t.has_pages == st.has_pages && t.pages == st.pages,
            },
{
    match pages {
        Some(ps) => {
            reveal_strlit("Pages");
            let open = seq![Token::Start { name: "Pages"@, attrs: Seq::<ElementView>::empty() }];
            let close = seq![Token::End { name: "Pages"@ }];
            let s1 = BuildView { phase: Phase::InPages, pages: Seq::empty(), has_pages: true, comment: None, ..st };
            assert(open.drop_last() =~= Seq::<Token>::empty());
            assert(run_from(Some(st), Seq::<Token>::empty()) == Some(st));
            assert(run_from(Some(st), open) == Some(s1));
            lemma_run_from_append(Some(st), open, pages_tokens(ps));
            lemma_pages_run(s1, ps);
            let s2 = run_from(Some(s1), pages_tokens(ps))->0;
            lemma_run_from_append(Some(st), open + pages_tokens(ps), close);
            assert(close.drop_last() =~= Seq::<Token>::empty());
            assert(run_from(Some(s2), Seq::<Token>::empty()) == Some(s2));
            assert(Seq::<PageView>::empty() + ps =~= ps);
        },
        None => {
            assert(pages_part_tokens(pages) =~= Seq::<Token>::empty());
        },
    }
}

/// Round trip at the level of markup tokens: reading the tokens that a
/// document's text stands for gives back exactly that document, every
/// absent field absent and a page without a type still without one.
pub proof fn lemma_doc_tokens_round_trip(v: InfoView)
    ensures
        build(doc_tokens(v)) == Some(v),
{
    reveal_strlit("ComicInfo");
    let a = seq![Token::Other, Token::Start { name: "ComicInfo"@, attrs: Seq::<ElementView>::empty() }];
    let h = elements_tokens(head_elements(v));
    let p = pages_part_tokens(v.pages);
    let t = elements_tokens(tail_elements(v));
    let e = seq![Token::End { name: "ComicInfo"@ }];
    let init = initial_build();
    lemma_build_run_is_run_from(doc_tokens(v));
    assert(doc_tokens(v) == a + h + p + t + e);
    lemma_run_from_append(Some(init), a + h + p + t, e);
    lemma_run_from_append(Some(init), a + h + p, t);
    lemma_run_from_append(Some(init), a + h, p);
    lemma_run_from_append(Some(init), a, h);
    let s1 = BuildView { phase: Phase::InRoot, ..init };
    assert(a.drop_last() =~= seq![Token::Other]);
    assert(a.drop_last().drop_last() =~= Seq::<Token>::empty());
    assert(run_from(Some(init), Seq::<Token>::empty()) == Some(init));
    assert(namespace_only(Seq::<ElementView>::empty()));
    assert(run_from(Some(init), a.drop_last()) == Some(init));
    assert(run_from(Some(init), a) == Some(s1));
    lemma_head(s1, v);
    let t1 = run_from(Some(s1), h)->0;
    lemma_pages_part(t1, v.pages);
    let t2 = run_from(Some(t1), p)->0;
    lemma_tail(t2, v);
    let t3 = run_from(Some(t2), t)->0;
    assert(e.drop_last() =~= Seq::<Token>::empty());
    assert(run_from(Some(t3), Seq::<Token>::empty()) == Some(t3));
    let t4 = BuildView { phase: Phase::AfterRoot, ..t3 };
    assert(run_from(Some(t3), e) == Some(t4));
    assert(build_run(doc_tokens(v)) == Some(t4));
}

/// The texts of the comment tokens, in order.
pub open spec fn comment_texts(toks: Seq<Token>) -> Seq<Seq<char>>
    decreases toks.len(),
{
    if toks.len() == 0 {
        Seq::empty()
    } else {
        let rest = comment_texts(toks.drop_last());
        match toks.last() {
            Token::Comment { text } => rest.push(text),
            _ => rest,
        }
    }
}

/// The file-name comments that the pages with a file name call for, in order.
pub open spec fn filename_comments(ps: Seq<PageView>) -> Seq<Seq<char>>
    decreases ps.len(),
{
    if ps.len() == 0 {
        Seq::empty()
    } else {
        let rest = filename_comments(ps.drop_last());
        match ps.last().filename {
            Some(f) => rest.push(filename_comment(f)),
            None => rest,
        }
    }
}

proof fn lemma_comment_texts_append(a: Seq<Token>, b: Seq<Token>)
    ensures
        comment_texts(a + b) == comment_texts(a) + comment_texts(b),
    decreases b.len(),
{
    if b.len() == 0 {
        assert(a + b =~= a);
        assert(comment_texts(a) + Seq::<Seq<char>>::empty() =~= comment_texts(a));
    } else {
        assert((a + b).drop_last() =~= a + b.drop_last());
        assert((a + b).last() == b.last());
        lemma_comment_texts_append(a, b.drop_last());
        assert((comment_texts(a) + comment_texts(b.drop_last())).push(b.last()->Comment_text)
            =~= comment_texts(a) + comment_texts(b.drop_last()).push(b.last()->Comment_text));
    }
}

/// Filename comments: each page's tokens are its element, preceded by
/// exactly one comment ` filename: NAME ` where the page has a file name and
/// by none where it has not; over a page list, the comments are exactly
/// those of the named pages, in page order.
pub proof fn lemma_filename_comments(ps: Seq<PageView>)
    ensures
        comment_texts(pages_tokens(ps)) == filename_comments(ps),
        forall|i: int| 0 <= i < ps.len() ==> {
            let toks = #[trigger] page_tokens(ps[i]);
            &&& toks.last() == Token::Empty { name: "Page"@, attrs: page_attributes(ps[i]) }
            &&& match ps[i].filename {
                Some(f) => toks.len() == 2 && toks[0] == Token::Comment { text: filename_comment(f) },
                None => toks.len() == 1,
            }
        },
    decreases ps.len(),
{
    assert forall|i: int| 0 <= i < ps.len() implies {
        let toks = #[trigger] page_tokens(ps[i]);
        &&& toks.last() == Token::Empty { name: "Page"@, attrs: page_attributes(ps[i]) }
        &&& match ps[i].filename {
            Some(f) => toks.len() == 2 && toks[0] == Token::Comment { text: filename_comment(f) },
            None => toks.len() == 1,
        }
    } by {
        let toks = page_tokens(ps[i]);
        match ps[i].filename {
            Some(f) => {
                assert(toks =~= seq![Token::Comment { text: filename_comment(f) }, Token::Empty { name: "Page"@, attrs: page_attributes(ps[i]) }]);
            },
            None => {
                assert(toks =~= seq![Token::Empty { name: "Page"@, attrs: page_attributes(ps[i]) }]);
            },
        }
    }
    if ps.len() > 0 {
        lemma_filename_comments(ps.drop_last());
        let p = ps.last();
        lemma_comment_texts_append(pages_tokens(ps.drop_last()), page_tokens(p));
        let el = Token::Empty { name: "Page"@, attrs: page_attributes(p) };
        assert(comment_texts(Seq::<Token>::empty()) == Seq::<Seq<char>>::empty());
        match p.filename {
            Some(f) => {
                let ct = Token::Comment { text: filename_comment(f) };
                assert(page_tokens(p) =~= seq![ct, el]);
                assert(seq![ct, el].drop_last() =~= seq![ct]);
                assert(seq![ct].drop_last() =~= Seq::<Token>::empty());
                assert(comment_texts(seq![ct]) =~= seq![filename_comment(f)]);
                assert(comment_texts(page_tokens(p)) =~= seq![filename_comment(f)]);
            },
            None => {
                assert(page_tokens(p) =~= seq![el]);
                assert(seq![el].drop_last() =~= Seq::<Token>::empty());
                assert(comment_texts(page_tokens(p)) =~= Seq::<Seq<char>>::empty());
            },
        }
        assert(comment_texts(pages_tokens(ps)) =~= filename_comments(ps));
    }
}

pub open spec fn element_names(els: Seq<ElementView>) -> Seq<Seq<char>> {
    els.map_values(|e: ElementView| e.0)
}

proof fn lemma_names_append(a: Seq<ElementView>, b: Seq<ElementView>)
    ensures
        element_names(a + b) == element_names(a) + element_names(b),
{
    assert(element_names(a + b) =~= element_names(a) + element_names(b));
}

/// Omission of defaults in a page element: the attribute names written are,
/// in this order, the index always, then each other attribute exactly when
/// it differs from its default (no type, not double, size 0, empty key and
/// bookmark, width and height −1).
pub proof fn lemma_page_attribute_omission(p: PageView)
    ensures
        element_names(page_attributes(p)) == seq!["Image"@]
            + (if p.type_ is Some { seq!["Type"@] } else { Seq::<Seq<char>>::empty() })
            + (if p.double_page { seq!["DoublePage"@] } else { Seq::<Seq<char>>::empty() })
            + (if p.image_size != 0 { seq!["ImageSize"@] } else { Seq::<Seq<char>>::empty() })
            + (if p.key.len() != 0 { seq!["Key"@] } else { Seq::<Seq<char>>::empty() })
            + (if p.bookmark.len() != 0 { seq!["Bookmark"@] } else { Seq::<Seq<char>>::empty() })
            + (if p.image_width != -1 { seq!["ImageWidth"@] } else { Seq::<Seq<char>>::empty() })
            + (if p.image_height != -1 { seq!["ImageHeight"@] } else { Seq::<Seq<char>>::empty() }),
{
    let c0 = seq![("Image"@, int_text(p.image as int))];
    let n0 = seq!["Image"@];
    assert(element_names(c0) =~= n0);
    let a0 = c0;
    let m0 = n0;
    let c1 = (match p.type_ {
        Some(t) => seq![("Type"@, page_type_text(t))],
        None => Seq::<ElementView>::empty(),
    });
    let n1 = (if p.type_ is Some { seq!["Type"@] } else { Seq::<Seq<char>>::empty() });
    assert(element_names(c1) =~= n1);
    let a1 = a0 + c1;
    let m1 = m0 + n1;
    lemma_names_append(a0, c1);
    let c2 = (if p.double_page { seq![("DoublePage"@, "true"@)] } else { Seq::<ElementView>::empty() });
    let n2 = (if p.double_page { seq!["DoublePage"@] } else { Seq::<Seq<char>>::empty() });
    assert(element_names(c2) =~= n2);
    let a2 = a1 + c2;
    let m2 = m1 + n2;
    lemma_names_append(a1, c2);
    let c3 = (if p.image_size != 0 { seq![("ImageSize"@, int_text(p.image_size as int))] } else { Seq::<ElementView>::empty() });
    let n3 = (if p.image_size != 0 { seq!["ImageSize"@] } else { Seq::<Seq<char>>::empty() });
    assert(element_names(c3) =~= n3);
    let a3 = a2 + c3;
    let m3 = m2 + n3;
    lemma_names_append(a2, c3);
    let c4 = (if p.key.len() != 0 { seq![("Key"@, p.key)] } else { Seq::<ElementView>::empty() });
    let n4 = (if p.key.len() != 0 { seq!["Key"@] } else { Seq::<Seq<char>>::empty() });
    assert(element_names(c4) =~= n4);
    let a4 = a3 + c4;
    let m4 = m3 + n4;
    lemma_names_append(a3, c4);
    let c5 = (if p.bookmark.len() != 0 { seq![("Bookmark"@, p.bookmark)] } else { Seq::<ElementView>::empty() });
    let n5 = (if p.bookmark.len() != 0 { seq!["Bookmark"@] } else { Seq::<Seq<char>>::empty() });
    assert(element_names(c5) =~= n5);
    let a5 = a4 + c5;
    let m5 = m4 + n5;
    lemma_names_append(a4, c5);
    let c6 = (if p.image_width != -1 { seq![("ImageWidth"@, int_text(p.image_width as int))] } else { Seq::<ElementView>::empty() });
    let n6 = (if p.image_width != -1 { seq!["ImageWidth"@] } else { Seq::<Seq<char>>::empty() });
    assert(element_names(c6) =~= n6);
    let a6 = a5 + c6;
    let m6 = m5 + n6;
    lemma_names_append(a5, c6);
    let c7 = (if p.image_height != -1 { seq![("ImageHeight"@, int_text(p.image_height as int))] } else { Seq::<ElementView>::empty() });
    let n7 = (if p.image_height != -1 { seq!["ImageHeight"@] } else { Seq::<Seq<char>>::empty() });
    assert(element_names(c7) =~= n7);
    let a7 = a6 + c7;
    let m7 = m6 + n7;
    lemma_names_append(a6, c7);
    assert(a7 == page_attributes(p));
}

proof fn lemma_contains_concat(a: Seq<Seq<char>>, b: Seq<Seq<char>>, x: Seq<char>)
    ensures
        (a + b).contains(x) <==> a.contains(x) || b.contains(x),
{
    if (a + b).contains(x) {
        let i = choose|i: int| 0 <= i < (a + b).len() && (a + b)[i] == x;
        if i < a.len() {
            assert(a[i] == x);
        } else {
            assert(b[i - a.len()] == x);
        }
    }
    if a.contains(x) {
        let i = choose|i: int| 0 <= i < a.len() && a[i] == x;
        assert((a + b)[i] == x);
    }
    if b.contains(x) {
        let i = choose|i: int| 0 <= i < b.len() && b[i] == x;
        assert((a + b)[i + a.len()] == x);
    }
}


pub open spec fn present_names_0(v: InfoView) -> Seq<Seq<char>> {
    Seq::<Seq<char>>::empty()
        + (if v.title is Some { seq!["Title"@] } else { Seq::<Seq<char>>::empty() })
        + (if v.series is Some { seq!["Series"@] } else { Seq::<Seq<char>>::empty() })
        + (if v.number is Some { seq!["Number"@] } else { Seq::<Seq<char>>::empty() })
        + (if v.count != -1i32 { seq!["Count"@] } else { Seq::<Seq<char>>::empty() })
        + (if v.volume != -1i32 { seq!["Volume"@] } else { Seq::<Seq<char>>::empty() })
}

proof fn lemma_names_group_0(v: InfoView)
    ensures
        element_names(crate::info::elements_0(v)) == present_names_0(v),
{
    let e = Seq::<ElementView>::empty();
    assert(element_names(e) =~= Seq::<Seq<char>>::empty());
    assert(element_names(str_chunk("Title"@, v.title)) =~= (if v.title is Some { seq!["Title"@] } else { Seq::<Seq<char>>::empty() }));
    lemma_names_append(e, str_chunk("Title"@, v.title));
    let e0 = e + str_chunk("Title"@, v.title);
    assert(element_names(str_chunk("Series"@, v.series)) =~= (if v.series is Some { seq!["Series"@] } else { Seq::<Seq<char>>::empty() }));
    lemma_names_append(e0, str_chunk("Series"@, v.series));
    let e1 = e0 + str_chunk("Series"@, v.series);
    assert(element_names(str_chunk("Number"@, v.number)) =~= (if v.number is Some { seq!["Number"@] } else { Seq::<Seq<char>>::empty() }));
    lemma_names_append(e1, str_chunk("Number"@, v.number));
    let e2 = e1 + str_chunk("Number"@, v.number);
    assert(element_names(int_chunk("Count"@, v.count, -1i32)) =~= (if v.count != -1i32 { seq!["Count"@] } else { Seq::<Seq<char>>::empty() }));
    lemma_names_append(e2, int_chunk("Count"@, v.count, -1i32));
    let e3 = e2 + int_chunk("Count"@, v.count, -1i32);
    assert(element_names(int_chunk("Volume"@, v.volume, -1i32)) =~= (if v.volume != -1i32 { seq!["Volume"@] } else { Seq::<Seq<char>>::empty() }));
    lemma_names_append(e3, int_chunk("Volume"@, v.volume, -1i32));
    let e4 = e3 + int_chunk("Volume"@, v.volume, -1i32);
}

proof fn lemma_contains_group_0(v: InfoView, x: Seq<char>)
    ensures
        present_names_0(v).contains(x) <==> (v.title is Some && x == "Title"@) || (v.series is Some && x == "Series"@) || (v.number is Some && x == "Number"@) || (v.count != -1i32 && x == "Count"@) || (v.volume != -1i32 && x == "Volume"@),
{
    let e = Seq::<Seq<char>>::empty();
    lemma_contains_concat(e, (if v.title is Some { seq!["Title"@] } else { Seq::<Seq<char>>::empty() }), x);
    let e0 = e + (if v.title is Some { seq!["Title"@] } else { Seq::<Seq<char>>::empty() });
    assert((if v.title is Some { seq!["Title"@] } else { Seq::<Seq<char>>::empty() }).contains(x) <==> (v.title is Some && x == "Title"@)) by {
        if v.title is Some {
            assert((if v.title is Some { seq!["Title"@] } else { Seq::<Seq<char>>::empty() })[0] == "Title"@);
        }
    }
    lemma_contains_concat(e0, (if v.series is Some { seq!["Series"@] } else { Seq::<Seq<char>>::empty() }), x);
    let e1 = e0 + (if v.series is Some { seq!["Series"@] } else { Seq::<Seq<char>>::empty() });
    assert((if v.series is Some { seq!["Series"@] } else { Seq::<Seq<char>>::empty() }).contains(x) <==> (v.series is Some && x == "Series"@)) by {
        if v.series is Some {
            assert((if v.series is Some { seq!["Series"@] } else { Seq::<Seq<char>>::empty() })[0] == "Series"@);
        }
    }
    lemma_contains_concat(e1, (if v.number is Some { seq!["Number"@] } else { Seq::<Seq<char>>::empty() }), x);
    let e2 = e1 + (if v.number is Some { seq!["Number"@] } else { Seq::<Seq<char>>::empty() });
    assert((if v.number is Some { seq!["Number"@] } else { Seq::<Seq<char>>::empty() }).contains(x) <==> (v.number is Some && x == "Number"@)) by {
        if v.number is Some {
            assert((if v.number is Some { seq!["Number"@] } else { Seq::<Seq<char>>::empty() })[0] == "Number"@);
        }
    }
    lemma_contains_concat(e2, (if v.count != -1i32 { seq!["Count"@] } else { Seq::<Seq<char>>::empty() }), x);
    let e3 = e2 + (if v.count != -1i32 { seq!["Count"@] } else { Seq::<Seq<char>>::empty() });
    assert((if v.count != -1i32 { seq!["Count"@] } else { Seq::<Seq<char>>::empty() }).contains(x) <==> (v.count != -1i32 && x == "Count"@)) by {
        if v.count != -1i32 {
            assert((if v.count != -1i32 { seq!["Count"@] } else { Seq::<Seq<char>>::empty() })[0] == "Count"@);
        }
    }
    lemma_contains_concat(e3, (if v.volume != -1i32 { seq!["Volume"@] } else { Seq::<Seq<char>>::empty() }), x);
    let e4 = e3 + (if v.volume != -1i32 { seq!["Volume"@] } else { Seq::<Seq<char>>::empty() });
    assert((if v.volume != -1i32 { seq!["Volume"@] } else { Seq::<Seq<char>>::empty() }).contains(x) <==> (v.volume != -1i32 && x == "Volume"@)) by {
        if v.volume != -1i32 {
            assert((if v.volume != -1i32 { seq!["Volume"@] } else { Seq::<Seq<char>>::empty() })[0] == "Volume"@);
        }
    }
}


pub open spec fn present_names_1(v: InfoView) -> Seq<Seq<char>> {
    Seq::<Seq<char>>::empty()
        + (if v.alternate_series is Some { seq!["AlternateSeries"@] } else { Seq::<Seq<char>>::empty() })
        + (if v.alternate_number is Some { seq!["AlternateNumber"@] } else { Seq::<Seq<char>>::empty() })
        + (if v.alternate_count != -1i32 { seq!["AlternateCount"@] } else { Seq::<Seq<char>>::empty() })
        + (if v.summary is Some { seq!["Summary"@] } else { Seq::<Seq<char>>::empty() })
        + (if v.notes is Some { seq!["Notes"@] } else { Seq::<Seq<char>>::empty() })
}

proof fn lemma_names_group_1(v: InfoView)
    ensures
        element_names(crate::info::elements_1(v)) == present_names_1(v),
{
    let e = Seq::<ElementView>::empty();
    assert(element_names(e) =~= Seq::<Seq<char>>::empty());
    assert(element_names(str_chunk("AlternateSeries"@, v.alternate_series)) =~= (if v.alternate_series is Some { seq!["AlternateSeries"@] } else { Seq::<Seq<char>>::empty() }));
    lemma_names_append(e, str_chunk("AlternateSeries"@, v.alternate_series));
    let e0 = e + str_chunk("AlternateSeries"@, v.alternate_series);
    assert(element_names(str_chunk("AlternateNumber"@, v.alternate_number)) =~= (if v.alternate_number is Some { seq!["AlternateNumber"@] } else { Seq::<Seq<char>>::empty() }));
    lemma_names_append(e0, str_chunk("AlternateNumber"@, v.alternate_number));
    let e1 = e0 + str_chunk("AlternateNumber"@, v.alternate_number);
    assert(element_names(int_chunk("AlternateCount"@, v.alternate_count, -1i32)) =~= (if v.alternate_count != -1i32 { seq!["AlternateCount"@] } else { Seq::<Seq<char>>::empty() }));
    lemma_names_append(e1, int_chunk("AlternateCount"@, v.alternate_count, -1i32));
    let e2 = e1 + int_chunk("AlternateCount"@, v.alternate_count, -1i32);
    assert(element_names(str_chunk("Summary"@, v.summary)) =~= (if v.summary is Some { seq!["Summary"@] } else { Seq::<Seq<char>>::empty() }));
    lemma_names_append(e2, str_chunk("Summary"@, v.summary));
    let e3 = e2 + str_chunk("Summary"@, v.summary);
    assert(element_names(str_chunk("Notes"@, v.notes)) =~= (if v.notes is Some { seq!["Notes"@] } else { Seq::<Seq<char>>::empty() }));
    lemma_names_append(e3, str_chunk("Notes"@, v.notes));
    let e4 = e3 + str_chunk("Notes"@, v.notes);
}

proof fn lemma_contains_group_1(v: InfoView, x: Seq<char>)
    ensures
        present_names_1(v).contains(x) <==> (v.alternate_series is Some && x == "AlternateSeries"@) || (v.alternate_number is Some && x == "AlternateNumber"@) || (v.alternate_count != -1i32 && x == "AlternateCount"@) || (v.summary is Some && x == "Summary"@) || (v.notes is Some && x == "Notes"@),
{
    let e = Seq::<Seq<char>>::empty();
    lemma_contains_concat(e, (if v.alternate_series is Some { seq!["AlternateSeries"@] } else { Seq::<Seq<char>>::empty() }), x);
    let e0 = e + (if v.alternate_series is Some { seq!["AlternateSeries"@] } else { Seq::<Seq<char>>::empty() });
    assert((if v.alternate_series is Some { seq!["AlternateSeries"@] } else { Seq::<Seq<char>>::empty() }).contains(x) <==> (v.alternate_series is Some && x == "AlternateSeries"@)) by {
        if v.alternate_series is Some {
            assert((if v.alternate_series is Some { seq!["AlternateSeries"@] } else { Seq::<Seq<char>>::empty() })[0] == "AlternateSeries"@);
        }
    }
    lemma_contains_concat(e0, (if v.alternate_number is Some { seq!["AlternateNumber"@] } else { Seq::<Seq<char>>::empty() }), x);
    let e1 = e0 + (if v.alternate_number is Some { seq!["AlternateNumber"@] } else { Seq::<Seq<char>>::empty() });
    assert((if v.alternate_number is Some { seq!["AlternateNumber"@] } else { Seq::<Seq<char>>::empty() }).contains(x) <==> (v.alternate_number is Some && x == "AlternateNumber"@)) by {
        if v.alternate_number is Some {
            assert((if v.alternate_number is Some { seq!["AlternateNumber"@] } else { Seq::<Seq<char>>::empty() })[0] == "AlternateNumber"@);
        }
    }
    lemma_contains_concat(e1, (if v.alternate_count != -1i32 { seq!["AlternateCount"@] } else { Seq::<Seq<char>>::empty() }), x);
    let e2 = e1 + (if v.alternate_count != -1i32 { seq!["AlternateCount"@] } else { Seq::<Seq<char>>::empty() });
    assert((if v.alternate_count != -1i32 { seq!["AlternateCount"@] } else { Seq::<Seq<char>>::empty() }).contains(x) <==> (v.alternate_count != -1i32 && x == "AlternateCount"@)) by {
        if v.alternate_count != -1i32 {
            assert((if v.alternate_count != -1i32 { seq!["AlternateCount"@] } else { Seq::<Seq<char>>::empty() })[0] == "AlternateCount"@);
        }
    }
    lemma_contains_concat(e2, (if v.summary is Some { seq!["Summary"@] } else { Seq::<Seq<char>>::empty() }), x);
    let e3 = e2 + (if v.summary is Some { seq!["Summary"@] } else { Seq::<Seq<char>>::empty() });
    assert((if v.summary is Some { seq!["Summary"@] } else { Seq::<Seq<char>>::empty() }).contains(x) <==> (v.summary is Some && x == "Summary"@)) by {
        if v.summary is Some {
            assert((if v.summary is Some { seq!["Summary"@] } else { Seq::<Seq<char>>::empty() })[0] == "Summary"@);
        }
    }
    lemma_contains_concat(e3, (if v.notes is Some { seq!["Notes"@] } else { Seq::<Seq<char>>::empty() }), x);
    let e4 = e3 + (if v.notes is Some { seq!["Notes"@] } else { Seq::<Seq<char>>::empty() });
    assert((if v.notes is Some { seq!["Notes"@] } else { Seq::<Seq<char>>::empty() }).contains(x) <==> (v.notes is Some && x == "Notes"@)) by {
        if v.notes is Some {
            assert((if v.notes is Some { seq!["Notes"@] } else { Seq::<Seq<char>>::empty() })[0] == "Notes"@);
        }
    }
}


pub open spec fn present_names_2(v: InfoView) -> Seq<Seq<char>> {
    Seq::<Seq<char>>::empty()
        + (if v.year != -1i32 { seq!["Year"@] } else { Seq::<Seq<char>>::empty() })
        + (if v.month != -1i32 { seq!["Month"@] } else { Seq::<Seq<char>>::empty() })
        + (if v.day != -1i32 { seq!["Day"@] } else { Seq::<Seq<char>>::empty() })
        + (if v.writer is Some { seq!["Writer"@] } else { Seq::<Seq<char>>::empty() })
        + (if v.penciller is Some { seq!["Penciller"@] } else { Seq::<Seq<char>>::empty() })
}

proof fn lemma_names_group_2(v: InfoView)
    ensures
        element_names(crate::info::elements_2(v)) == present_names_2(v),
{
    let e = Seq::<ElementView>::empty();
    assert(element_names(e) =~= Seq::<Seq<char>>::empty());
    assert(element_names(int_chunk("Year"@, v.year, -1i32)) =~= (if v.year != -1i32 { seq!["Year"@] } else { Seq::<Seq<char>>::empty() }));
    lemma_names_append(e, int_chunk("Year"@, v.year, -1i32));
    let e0 = e + int_chunk("Year"@, v.year, -1i32);
    assert(element_names(int_chunk("Month"@, v.month, -1i32)) =~= (if v.month != -1i32 { seq!["Month"@] } else { Seq::<Seq<char>>::empty() }));
    lemma_names_append(e0, int_chunk("Month"@, v.month, -1i32));
    let e1 = e0 + int_chunk("Month"@, v.month, -1i32);
    assert(element_names(int_chunk("Day"@, v.day, -1i32)) =~= (if v.day != -1i32 { seq!["Day"@] } else { Seq::<Seq<char>>::empty() }));
    lemma_names_append(e1, int_chunk("Day"@, v.day, -1i32));
    let e2 = e1 + int_chunk("Day"@, v.day, -1i32);
    assert(element_names(str_chunk("Writer"@, v.writer)) =~= (if v.writer is Some { seq!["Writer"@] } else { Seq::<Seq<char>>::empty() }));
    lemma_names_append(e2, str_chunk("Writer"@, v.writer));
    let e3 = e2 + str_chunk("Writer"@, v.writer);
    assert(element_names(str_chunk("Penciller"@, v.penciller)) =~= (if v.penciller is Some { seq!["Penciller"@] } else { Seq::<Seq<char>>::empty() }));
    lemma_names_append(e3, str_chunk("Penciller"@, v.penciller));
    let e4 = e3 + str_chunk("Penciller"@, v.penciller);
}

proof fn lemma_contains_group_2(v: InfoView, x: Seq<char>)
    ensures
        present_names_2(v).contains(x) <==> (v.year != -1i32 && x == "Year"@) || (v.month != -1i32 && x == "Month"@) || (v.day != -1i32 && x == "Day"@) || (v.writer is Some && x == "Writer"@) || (v.penciller is Some && x == "Penciller"@),
{
    let e = Seq::<Seq<char>>::empty();
    lemma_contains_concat(e, (if v.year != -1i32 { seq!["Year"@] } else { Seq::<Seq<char>>::empty() }), x);
    let e0 = e + (if v.year != -1i32 { seq!["Year"@] } else { Seq::<Seq<char>>::empty() });
    assert((if v.year != -1i32 { seq!["Year"@] } else { Seq::<Seq<char>>::empty() }).contains(x) <==> (v.year != -1i32 && x == "Year"@)) by {
        if v.year != -1i32 {
            assert((if v.year != -1i32 { seq!["Year"@] } else { Seq::<Seq<char>>::empty() })[0] == "Year"@);
        }
    }
    lemma_contains_concat(e0, (if v.month != -1i32 { seq!["Month"@] } else { Seq::<Seq<char>>::empty() }), x);
    let e1 = e0 + (if v.month != -1i32 { seq!["Month"@] } else { Seq::<Seq<char>>::empty() });
    assert((if v.month != -1i32 { seq!["Month"@] } else { Seq::<Seq<char>>::empty() }).contains(x) <==> (v.month != -1i32 && x == "Month"@)) by {
        if v.month != -1i32 {
            assert((if v.month != -1i32 { seq!["Month"@] } else { Seq::<Seq<char>>::empty() })[0] == "Month"@);
        }
    }
    lemma_contains_concat(e1, (if v.day != -1i32 { seq!["Day"@] } else { Seq::<Seq<char>>::empty() }), x);
    let e2 = e1 + (if v.day != -1i32 { seq!["Day"@] } else { Seq::<Seq<char>>::empty() });
    assert((if v.day != -1i32 { seq!["Day"@] } else { Seq::<Seq<char>>::empty() }).contains(x) <==> (v.day != -1i32 && x == "Day"@)) by {
        if v.day != -1i32 {
            assert((if v.day != -1i32 { seq!["Day"@] } else { Seq::<Seq<char>>::empty() })[0] == "Day"@);
        }
    }
    lemma_contains_concat(e2, (if v.writer is Some { seq!["Writer"@] } else { Seq::<Seq<char>>::empty() }), x);
    let e3 = e2 + (if v.writer is Some { seq!["Writer"@] } else { Seq::<Seq<char>>::empty() });
    assert((if v.writer is Some { seq!["Writer"@] } else { Seq::<Seq<char>>::empty() }).contains(x) <==> (v.writer is Some && x == "Writer"@)) by {
        if v.writer is Some {
            assert((if v.writer is Some { seq!["Writer"@] } else { Seq::<Seq<char>>::empty() })[0] == "Writer"@);
        }
    }
    lemma_contains_concat(e3, (if v.penciller is Some { seq!["Penciller"@] } else { Seq::<Seq<char>>::empty() }), x);
    let e4 = e3 + (if v.penciller is Some { seq!["Penciller"@] } else { Seq::<Seq<char>>::empty() });
    assert((if v.penciller is Some { seq!["Penciller"@] } else { Seq::<Seq<char>>::empty() }).contains(x) <==> (v.penciller is Some && x == "Penciller"@)) by {
        if v.penciller is Some {
            assert((if v.penciller is Some { seq!["Penciller"@] } else { Seq::<Seq<char>>::empty() })[0] == "Penciller"@);
        }
    }
}


pub open spec fn present_names_3(v: InfoView) -> Seq<Seq<char>> {
    Seq::<Seq<char>>::empty()
        + (if v.inker is Some { seq!["Inker"@] } else { Seq::<Seq<char>>::empty() })
        + (if v.colorist is Some { seq!["Colorist"@] } else { Seq::<Seq<char>>::empty() })
        + (if v.letterer is Some { seq!["Letterer"@] } else { Seq::<Seq<char>>::empty() })
        + (if v.cover_artist is Some { seq!["CoverArtist"@] } else { Seq::<Seq<char>>::empty() })
        + (if v.editor is Some { seq!["Editor"@] } else { Seq::<Seq<char>>::empty() })
}

proof fn lemma_names_group_3(v: InfoView)
    ensures
        element_names(crate::info::elements_3(v)) == present_names_3(v),
{
    let e = Seq::<ElementView>::empty();
    assert(element_names(e) =~= Seq::<Seq<char>>::empty());
    assert(element_names(str_chunk("Inker"@, v.inker)) =~= (if v.inker is Some { seq!["Inker"@] } else { Seq::<Seq<char>>::empty() }));
    lemma_names_append(e, str_chunk("Inker"@, v.inker));
    let e0 = e + str_chunk("Inker"@, v.inker);
    assert(element_names(str_chunk("Colorist"@, v.colorist)) =~= (if v.colorist is Some { seq!["Colorist"@] } else { Seq::<Seq<char>>::empty() }));
    lemma_names_append(e0, str_chunk("Colorist"@, v.colorist));
    let e1 = e0 + str_chunk("Colorist"@, v.colorist);
    assert(element_names(str_chunk("Letterer"@, v.letterer)) =~= (if v.letterer is Some { seq!["Letterer"@] } else { Seq::<Seq<char>>::empty() }));
    lemma_names_append(e1, str_chunk("Letterer"@, v.letterer));
    let e2 = e1 + str_chunk("Letterer"@, v.letterer);
    assert(element_names(str_chunk("CoverArtist"@, v.cover_artist)) =~= (if v.cover_artist is Some { seq!["CoverArtist"@] } else { Seq::<Seq<char>>::empty() }));
    lemma_names_append(e2, str_chunk("CoverArtist"@, v.cover_artist));
    let e3 = e2 + str_chunk("CoverArtist"@, v.cover_artist);
    assert(element_names(str_chunk("Editor"@, v.editor)) =~= (if v.editor is Some { seq!["Editor"@] } else { Seq::<Seq<char>>::empty() }));
    lemma_names_append(e3, str_chunk("Editor"@, v.editor));
    let e4 = e3 + str_chunk("Editor"@, v.editor);
}

proof fn lemma_contains_group_3(v: InfoView, x: Seq<char>)
    ensures
        present_names_3(v).contains(x) <==> (v.inker is Some && x == "Inker"@) || (v.colorist is Some && x == "Colorist"@) || (v.letterer is Some && x == "Letterer"@) || (v.cover_artist is Some && x == "CoverArtist"@) || (v.editor is Some && x == "Editor"@),
{
    let e = Seq::<Seq<char>>::empty();
    lemma_contains_concat(e, (if v.inker is Some { seq!["Inker"@] } else { Seq::<Seq<char>>::empty() }), x);
    let e0 = e + (if v.inker is Some { seq!["Inker"@] } else { Seq::<Seq<char>>::empty() });
    assert((if v.inker is Some { seq!["Inker"@] } else { Seq::<Seq<char>>::empty() }).contains(x) <==> (v.inker is Some && x == "Inker"@)) by {
        if v.inker is Some {
            assert((if v.inker is Some { seq!["Inker"@] } else { Seq::<Seq<char>>::empty() })[0] == "Inker"@);
        }
    }
    lemma_contains_concat(e0, (if v.colorist is Some { seq!["Colorist"@] } else { Seq::<Seq<char>>::empty() }), x);
    let e1 = e0 + (if v.colorist is Some { seq!["Colorist"@] } else { Seq::<Seq<char>>::empty() });
    assert((if v.colorist is Some { seq!["Colorist"@] } else { Seq::<Seq<char>>::empty() }).contains(x) <==> (v.colorist is Some && x == "Colorist"@)) by {
        if v.colorist is Some {
            assert((if v.colorist is Some { seq!["Colorist"@] } else { Seq::<Seq<char>>::empty() })[0] == "Colorist"@);
        }
    }
    lemma_contains_concat(e1, (if v.letterer is Some { seq!["Letterer"@] } else { Seq::<Seq<char>>::empty() }), x);
    let e2 = e1 + (if v.letterer is Some { seq!["Letterer"@] } else { Seq::<Seq<char>>::empty() });
    assert((if v.letterer is Some { seq!["Letterer"@] } else { Seq::<Seq<char>>::empty() }).contains(x) <==> (v.letterer is Some && x == "Letterer"@)) by {
        if v.letterer is Some {
            assert((if v.letterer is Some { seq!["Letterer"@] } else { Seq::<Seq<char>>::empty() })[0] == "Letterer"@);
        }
    }
    lemma_contains_concat(e2, (if v.cover_artist is Some { seq!["CoverArtist"@] } else { Seq::<Seq<char>>::empty() }), x);
    let e3 = e2 + (if v.cover_artist is Some { seq!["CoverArtist"@] } else { Seq::<Seq<char>>::empty() });
    assert((if v.cover_artist is Some { seq!["CoverArtist"@] } else { Seq::<Seq<char>>::empty() }).contains(x) <==> (v.cover_artist is Some && x == "CoverArtist"@)) by {
        if v.cover_artist is Some {
            assert((if v.cover_artist is Some { seq!["CoverArtist"@] } else { Seq::<Seq<char>>::empty() })[0] == "CoverArtist"@);
        }
    }
    lemma_contains_concat(e3, (if v.editor is Some { seq!["Editor"@] } else { Seq::<Seq<char>>::empty() }), x);
    let e4 = e3 + (if v.editor is Some { seq!["Editor"@] } else { Seq::<Seq<char>>::empty() });
    assert((if v.editor is Some { seq!["Editor"@] } else { Seq::<Seq<char>>::empty() }).contains(x) <==> (v.editor is Some && x == "Editor"@)) by {
        if v.editor is Some {
            assert((if v.editor is Some { seq!["Editor"@] } else { Seq::<Seq<char>>::empty() })[0] == "Editor"@);
        }
    }
}


pub open spec fn present_names_4(v: InfoView) -> Seq<Seq<char>> {
    Seq::<Seq<char>>::empty()
        + (if v.translator is Some { seq!["Translator"@] } else { Seq::<Seq<char>>::empty() })
        + (if v.publisher is Some { seq!["Publisher"@] } else { Seq::<Seq<char>>::empty() })
        + (if v.imprint is Some { seq!["Imprint"@] } else { Seq::<Seq<char>>::empty() })
        + (if v.genre is Some { seq!["Genre"@] } else { Seq::<Seq<char>>::empty() })
        + (if v.tags is Some { seq!["Tags"@] } else { Seq::<Seq<char>>::empty() })
}

proof fn lemma_names_group_4(v: InfoView)
    ensures
        element_names(crate::info::elements_4(v)) == present_names_4(v),
{
    let e = Seq::<ElementView>::empty();
    assert(element_names(e) =~= Seq::<Seq<char>>::empty());
    assert(element_names(str_chunk("Translator"@, v.translator)) =~= (if v.translator is Some { seq!["Translator"@] } else { Seq::<Seq<char>>::empty() }));
    lemma_names_append(e, str_chunk("Translator"@, v.translator));
    let e0 = e + str_chunk("Translator"@, v.translator);
    assert(element_names(str_chunk("Publisher"@, v.publisher)) =~= (if v.publisher is Some { seq!["Publisher"@] } else { Seq::<Seq<char>>::empty() }));
    lemma_names_append(e0, str_chunk("Publisher"@, v.publisher));
    let e1 = e0 + str_chunk("Publisher"@, v.publisher);
    assert(element_names(str_chunk("Imprint"@, v.imprint)) =~= (if v.imprint is Some { seq!["Imprint"@] } else { Seq::<Seq<char>>::empty() }));
    lemma_names_append(e1, str_chunk("Imprint"@, v.imprint));
    let e2 = e1 + str_chunk("Imprint"@, v.imprint);
    assert(element_names(str_chunk("Genre"@, v.genre)) =~= (if v.genre is Some { seq!["Genre"@] } else { Seq::<Seq<char>>::empty() }));
    lemma_names_append(e2, str_chunk("Genre"@, v.genre));
    let e3 = e2 + str_chunk("Genre"@, v.genre);
    assert(element_names(str_chunk("Tags"@, v.tags)) =~= (if v.tags is Some { seq!["Tags"@] } else { Seq::<Seq<char>>::empty() }));
    lemma_names_append(e3, str_chunk("Tags"@, v.tags));
    let e4 = e3 + str_chunk("Tags"@, v.tags);
}

proof fn lemma_contains_group_4(v: InfoView, x: Seq<char>)
    ensures
        present_names_4(v).contains(x) <==> (v.translator is Some && x == "Translator"@) || (v.publisher is Some && x == "Publisher"@) || (v.imprint is Some && x == "Imprint"@) || (v.genre is Some && x == "Genre"@) || (v.tags is Some && x == "Tags"@),
{
    let e = Seq::<Seq<char>>::empty();
    lemma_contains_concat(e, (if v.translator is Some { seq!["Translator"@] } else { Seq::<Seq<char>>::empty() }), x);
    let e0 = e + (if v.translator is Some { seq!["Translator"@] } else { Seq::<Seq<char>>::empty() });
    assert((if v.translator is Some { seq!["Translator"@] } else { Seq::<Seq<char>>::empty() }).contains(x) <==> (v.translator is Some && x == "Translator"@)) by {
        if v.translator is Some {
            assert((if v.translator is Some { seq!["Translator"@] } else { Seq::<Seq<char>>::empty() })[0] == "Translator"@);
        }
    }
    lemma_contains_concat(e0, (if v.publisher is Some { seq!["Publisher"@] } else { Seq::<Seq<char>>::empty() }), x);
    let e1 = e0 + (if v.publisher is Some { seq!["Publisher"@] } else { Seq::<Seq<char>>::empty() });
    assert((if v.publisher is Some { seq!["Publisher"@] } else { Seq::<Seq<char>>::empty() }).contains(x) <==> (v.publisher is Some && x == "Publisher"@)) by {
        if v.publisher is Some {
            assert((if v.publisher is Some { seq!["Publisher"@] } else { Seq::<Seq<char>>::empty() })[0] == "Publisher"@);
        }
    }
    lemma_contains_concat(e1, (if v.imprint is Some { seq!["Imprint"@] } else { Seq::<Seq<char>>::empty() }), x);
    let e2 = e1 + (if v.imprint is Some { seq!["Imprint"@] } else { Seq::<Seq<char>>::empty() });
    assert((if v.imprint is Some { seq!["Imprint"@] } else { Seq::<Seq<char>>::empty() }).contains(x) <==> (v.imprint is Some && x == "Imprint"@)) by {
        if v.imprint is Some {
            assert((if v.imprint is Some { seq!["Imprint"@] } else { Seq::<Seq<char>>::empty() })[0] == "Imprint"@);
        }
    }
    lemma_contains_concat(e2, (if v.genre is Some { seq!["Genre"@] } else { Seq::<Seq<char>>::empty() }), x);
    let e3 = e2 + (if v.genre is Some { seq!["Genre"@] } else { Seq::<Seq<char>>::empty() });
    assert((if v.genre is Some { seq!["Genre"@] } else { Seq::<Seq<char>>::empty() }).contains(x) <==> (v.genre is Some && x == "Genre"@)) by {
        if v.genre is Some {
            assert((if v.genre is Some { seq!["Genre"@] } else { Seq::<Seq<char>>::empty() })[0] == "Genre"@);
        }
    }
    lemma_contains_concat(e3, (if v.tags is Some { seq!["Tags"@] } else { Seq::<Seq<char>>::empty() }), x);
    let e4 = e3 + (if v.tags is Some { seq!["Tags"@] } else { Seq::<Seq<char>>::empty() });
    assert((if v.tags is Some { seq!["Tags"@] } else { Seq::<Seq<char>>::empty() }).contains(x) <==> (v.tags is Some && x == "Tags"@)) by {
        if v.tags is Some {
            assert((if v.tags is Some { seq!["Tags"@] } else { Seq::<Seq<char>>::empty() })[0] == "Tags"@);
        }
    }
}


pub open spec fn present_names_5(v: InfoView) -> Seq<Seq<char>> {
    Seq::<Seq<char>>::empty()
        + (if v.web is Some { seq!["Web"@] } else { Seq::<Seq<char>>::empty() })
        + (if v.page_count != 0i32 { seq!["PageCount"@] } else { Seq::<Seq<char>>::empty() })
        + (if v.language_iso is Some { seq!["LanguageISO"@] } else { Seq::<Seq<char>>::empty() })
        + (if v.format is Some { seq!["Format"@] } else { Seq::<Seq<char>>::empty() })
        + (if v.black_and_white != YesNo::Unknown { seq!["BlackAndWhite"@] } else { Seq::<Seq<char>>::empty() })
}

proof fn lemma_names_group_5(v: InfoView)
    ensures
        element_names(crate::info::elements_5(v)) == present_names_5(v),
{
    let e = Seq::<ElementView>::empty();
    assert(element_names(e) =~= Seq::<Seq<char>>::empty());
    assert(element_names(str_chunk("Web"@, v.web)) =~= (if v.web is Some { seq!["Web"@] } else { Seq::<Seq<char>>::empty() }));
    lemma_names_append(e, str_chunk("Web"@, v.web));
    let e0 = e + str_chunk("Web"@, v.web);
    assert(element_names(int_chunk("PageCount"@, v.page_count, 0i32)) =~= (if v.page_count != 0i32 { seq!["PageCount"@] } else { Seq::<Seq<char>>::empty() }));
    lemma_names_append(e0, int_chunk("PageCount"@, v.page_count, 0i32));
    let e1 = e0 + int_chunk("PageCount"@, v.page_count, 0i32);
    assert(element_names(str_chunk("LanguageISO"@, v.language_iso)) =~= (if v.language_iso is Some { seq!["LanguageISO"@] } else { Seq::<Seq<char>>::empty() }));
    lemma_names_append(e1, str_chunk("LanguageISO"@, v.language_iso));
    let e2 = e1 + str_chunk("LanguageISO"@, v.language_iso);
    assert(element_names(str_chunk("Format"@, v.format)) =~= (if v.format is Some { seq!["Format"@] } else { Seq::<Seq<char>>::empty() }));
    lemma_names_append(e2, str_chunk("Format"@, v.format));
    let e3 = e2 + str_chunk("Format"@, v.format);
    assert(element_names(enum_chunk("BlackAndWhite"@, v.black_and_white == YesNo::Unknown, yes_no_text(v.black_and_white))) =~= (if v.black_and_white != YesNo::Unknown { seq!["BlackAndWhite"@] } else { Seq::<Seq<char>>::empty() }));
    lemma_names_append(e3, enum_chunk("BlackAndWhite"@, v.black_and_white == YesNo::Unknown, yes_no_text(v.black_and_white)));
    let e4 = e3 + enum_chunk("BlackAndWhite"@, v.black_and_white == YesNo::Unknown, yes_no_text(v.black_and_white));
}

proof fn lemma_contains_group_5(v: InfoView, x: Seq<char>)
    ensures
        present_names_5(v).contains(x) <==> (v.web is Some && x == "Web"@) || (v.page_count != 0i32 && x == "PageCount"@) || (v.language_iso is Some && x == "LanguageISO"@) || (v.format is Some && x == "Format"@) || (v.black_and_white != YesNo::Unknown && x == "BlackAndWhite"@),
{
    let e = Seq::<Seq<char>>::empty();
    lemma_contains_concat(e, (if v.web is Some { seq!["Web"@] } else { Seq::<Seq<char>>::empty() }), x);
    let e0 = e + (if v.web is Some { seq!["Web"@] } else { Seq::<Seq<char>>::empty() });
    assert((if v.web is Some { seq!["Web"@] } else { Seq::<Seq<char>>::empty() }).contains(x) <==> (v.web is Some && x == "Web"@)) by {
        if v.web is Some {
            assert((if v.web is Some { seq!["Web"@] } else { Seq::<Seq<char>>::empty() })[0] == "Web"@);
        }
    }
    lemma_contains_concat(e0, (if v.page_count != 0i32 { seq!["PageCount"@] } else { Seq::<Seq<char>>::empty() }), x);
    let e1 = e0 + (if v.page_count != 0i32 { seq!["PageCount"@] } else { Seq::<Seq<char>>::empty() });
    assert((if v.page_count != 0i32 { seq!["PageCount"@] } else { Seq::<Seq<char>>::empty() }).contains(x) <==> (v.page_count != 0i32 && x == "PageCount"@)) by {
        if v.page_count != 0i32 {
            assert((if v.page_count != 0i32 { seq!["PageCount"@] } else { Seq::<Seq<char>>::empty() })[0] == "PageCount"@);
        }
    }
    lemma_contains_concat(e1, (if v.language_iso is Some { seq!["LanguageISO"@] } else { Seq::<Seq<char>>::empty() }), x);
    let e2 = e1 + (if v.language_iso is Some { seq!["LanguageISO"@] } else { Seq::<Seq<char>>::empty() });
    assert((if v.language_iso is Some { seq!["LanguageISO"@] } else { Seq::<Seq<char>>::empty() }).contains(x) <==> (v.language_iso is Some && x == "LanguageISO"@)) by {
        if v.language_iso is Some {
            assert((if v.language_iso is Some { seq!["LanguageISO"@] } else { Seq::<Seq<char>>::empty() })[0] == "LanguageISO"@);
        }
    }
    lemma_contains_concat(e2, (if v.format is Some { seq!["Format"@] } else { Seq::<Seq<char>>::empty() }), x);
    let e3 = e2 + (if v.format is Some { seq!["Format"@] } else { Seq::<Seq<char>>::empty() });
    assert((if v.format is Some { seq!["Format"@] } else { Seq::<Seq<char>>::empty() }).contains(x) <==> (v.format is Some && x == "Format"@)) by {
        if v.format is Some {
            assert((if v.format is Some { seq!["Format"@] } else { Seq::<Seq<char>>::empty() })[0] == "Format"@);
        }
    }
    lemma_contains_concat(e3, (if v.black_and_white != YesNo::Unknown { seq!["BlackAndWhite"@] } else { Seq::<Seq<char>>::empty() }), x);
    let e4 = e3 + (if v.black_and_white != YesNo::Unknown { seq!["BlackAndWhite"@] } else { Seq::<Seq<char>>::empty() });
    assert((if v.black_and_white != YesNo::Unknown { seq!["BlackAndWhite"@] } else { Seq::<Seq<char>>::empty() }).contains(x) <==> (v.black_and_white != YesNo::Unknown && x == "BlackAndWhite"@)) by {
        if v.black_and_white != YesNo::Unknown {
            assert((if v.black_and_white != YesNo::Unknown { seq!["BlackAndWhite"@] } else { Seq::<Seq<char>>::empty() })[0] == "BlackAndWhite"@);
        }
    }
}


pub open spec fn present_names_6(v: InfoView) -> Seq<Seq<char>> {
    Seq::<Seq<char>>::empty()
        + (if v.manga != Manga::Unknown { seq!["Manga"@] } else { Seq::<Seq<char>>::empty() })
        + (if v.characters is Some { seq!["Characters"@] } else { Seq::<Seq<char>>::empty() })
        + (if v.teams is Some { seq!["Teams"@] } else { Seq::<Seq<char>>::empty() })
        + (if v.locations is Some { seq!["Locations"@] } else { Seq::<Seq<char>>::empty() })
        + (if v.scan_information is Some { seq!["ScanInformation"@] } else { Seq::<Seq<char>>::empty() })
}

proof fn lemma_names_group_6(v: InfoView)
    ensures
        element_names(crate::info::elements_6(v)) == present_names_6(v),
{
    let e = Seq::<ElementView>::empty();
    assert(element_names(e) =~= Seq::<Seq<char>>::empty());
    assert(element_names(enum_chunk("Manga"@, v.manga == Manga::Unknown, manga_text(v.manga))) =~= (if v.manga != Manga::Unknown { seq!["Manga"@] } else { Seq::<Seq<char>>::empty() }));
    lemma_names_append(e, enum_chunk("Manga"@, v.manga == Manga::Unknown, manga_text(v.manga)));
    let e0 = e + enum_chunk("Manga"@, v.manga == Manga::Unknown, manga_text(v.manga));
    assert(element_names(str_chunk("Characters"@, v.characters)) =~= (if v.characters is Some { seq!["Characters"@] } else { Seq::<Seq<char>>::empty() }));
    lemma_names_append(e0, str_chunk("Characters"@, v.characters));
    let e1 = e0 + str_chunk("Characters"@, v.characters);
    assert(element_names(str_chunk("Teams"@, v.teams)) =~= (if v.teams is Some { seq!["Teams"@] } else { Seq::<Seq<char>>::empty() }));
    lemma_names_append(e1, str_chunk("Teams"@, v.teams));
    let e2 = e1 + str_chunk("Teams"@, v.teams);
    assert(element_names(str_chunk("Locations"@, v.locations)) =~= (if v.locations is Some { seq!["Locations"@] } else { Seq::<Seq<char>>::empty() }));
    lemma_names_append(e2, str_chunk("Locations"@, v.locations));
    let e3 = e2 + str_chunk("Locations"@, v.locations);
    assert(element_names(str_chunk("ScanInformation"@, v.scan_information)) =~= (if v.scan_information is Some { seq!["ScanInformation"@] } else { Seq::<Seq<char>>::empty() }));
    lemma_names_append(e3, str_chunk("ScanInformation"@, v.scan_information));
    let e4 = e3 + str_chunk("ScanInformation"@, v.scan_information);
}

proof fn lemma_contains_group_6(v: InfoView, x: Seq<char>)
    ensures
        present_names_6(v).contains(x) <==> (v.manga != Manga::Unknown && x == "Manga"@) || (v.characters is Some && x == "Characters"@) || (v.teams is Some && x == "Teams"@) || (v.locations is Some && x == "Locations"@) || (v.scan_information is Some && x == "ScanInformation"@),
{
    let e = Seq::<Seq<char>>::empty();
    lemma_contains_concat(e, (if v.manga != Manga::Unknown { seq!["Manga"@] } else { Seq::<Seq<char>>::empty() }), x);
    let e0 = e + (if v.manga != Manga::Unknown { seq!["Manga"@] } else { Seq::<Seq<char>>::empty() });
    assert((if v.manga != Manga::Unknown { seq!["Manga"@] } else { Seq::<Seq<char>>::empty() }).contains(x) <==> (v.manga != Manga::Unknown && x == "Manga"@)) by {
        if v.manga != Manga::Unknown {
            assert((if v.manga != Manga::Unknown { seq!["Manga"@] } else { Seq::<Seq<char>>::empty() })[0] == "Manga"@);
        }
    }
    lemma_contains_concat(e0, (if v.characters is Some { seq!["Characters"@] } else { Seq::<Seq<char>>::empty() }), x);
    let e1 = e0 + (if v.characters is Some { seq!["Characters"@] } else { Seq::<Seq<char>>::empty() });
    assert((if v.characters is Some { seq!["Characters"@] } else { Seq::<Seq<char>>::empty() }).contains(x) <==> (v.characters is Some && x == "Characters"@)) by {
        if v.characters is Some {
            assert((if v.characters is Some { seq!["Characters"@] } else { Seq::<Seq<char>>::empty() })[0] == "Characters"@);
        }
    }
    lemma_contains_concat(e1, (if v.teams is Some { seq!["Teams"@] } else { Seq::<Seq<char>>::empty() }), x);
    let e2 = e1 + (if v.teams is Some { seq!["Teams"@] } else { Seq::<Seq<char>>::empty() });
    assert((if v.teams is Some { seq!["Teams"@] } else { Seq::<Seq<char>>::empty() }).contains(x) <==> (v.teams is Some && x == "Teams"@)) by {
        if v.teams is Some {
            assert((if v.teams is Some { seq!["Teams"@] } else { Seq::<Seq<char>>::empty() })[0] == "Teams"@);
        }
    }
    lemma_contains_concat(e2, (if v.locations is Some { seq!["Locations"@] } else { Seq::<Seq<char>>::empty() }), x);
    let e3 = e2 + (if v.locations is Some { seq!["Locations"@] } else { Seq::<Seq<char>>::empty() });
    assert((if v.locations is Some { seq!["Locations"@] } else { Seq::<Seq<char>>::empty() }).contains(x) <==> (v.locations is Some && x == "Locations"@)) by {
        if v.locations is Some {
            assert((if v.locations is Some { seq!["Locations"@] } else { Seq::<Seq<char>>::empty() })[0] == "Locations"@);
        }
    }
    lemma_contains_concat(e3, (if v.scan_information is Some { seq!["ScanInformation"@] } else { Seq::<Seq<char>>::empty() }), x);
    let e4 = e3 + (if v.scan_information is Some { seq!["ScanInformation"@] } else { Seq::<Seq<char>>::empty() });
    assert((if v.scan_information is Some { seq!["ScanInformation"@] } else { Seq::<Seq<char>>::empty() }).contains(x) <==> (v.scan_information is Some && x == "ScanInformation"@)) by {
        if v.scan_information is Some {
            assert((if v.scan_information is Some { seq!["ScanInformation"@] } else { Seq::<Seq<char>>::empty() })[0] == "ScanInformation"@);
        }
    }
}


pub open spec fn present_names_7(v: InfoView) -> Seq<Seq<char>> {
    Seq::<Seq<char>>::empty()
        + (if v.story_arc is Some { seq!["StoryArc"@] } else { Seq::<Seq<char>>::empty() })
        + (if v.story_arc_number is Some { seq!["StoryArcNumber"@] } else { Seq::<Seq<char>>::empty() })
        + (if v.series_group is Some { seq!["SeriesGroup"@] } else { Seq::<Seq<char>>::empty() })
        + (if v.age_rating != AgeRating::Unknown { seq!["AgeRating"@] } else { Seq::<Seq<char>>::empty() })
}

proof fn lemma_names_group_7(v: InfoView)
    ensures
        element_names(crate::info::elements_7(v)) == present_names_7(v),
{
    let e = Seq::<ElementView>::empty();
    assert(element_names(e) =~= Seq::<Seq<char>>::empty());
    assert(element_names(str_chunk("StoryArc"@, v.story_arc)) =~= (if v.story_arc is Some { seq!["StoryArc"@] } else { Seq::<Seq<char>>::empty() }));
    lemma_names_append(e, str_chunk("StoryArc"@, v.story_arc));
    let e0 = e + str_chunk("StoryArc"@, v.story_arc);
    assert(element_names(str_chunk("StoryArcNumber"@, v.story_arc_number)) =~= (if v.story_arc_number is Some { seq!["StoryArcNumber"@] } else { Seq::<Seq<char>>::empty() }));
    lemma_names_append(e0, str_chunk("StoryArcNumber"@, v.story_arc_number));
    let e1 = e0 + str_chunk("StoryArcNumber"@, v.story_arc_number);
    assert(element_names(str_chunk("SeriesGroup"@, v.series_group)) =~= (if v.series_group is Some { seq!["SeriesGroup"@] } else { Seq::<Seq<char>>::empty() }));
    lemma_names_append(e1, str_chunk("SeriesGroup"@, v.series_group));
    let e2 = e1 + str_chunk("SeriesGroup"@, v.series_group);
    assert(element_names(enum_chunk("AgeRating"@, v.age_rating == AgeRating::Unknown, age_rating_text(v.age_rating))) =~= (if v.age_rating != AgeRating::Unknown { seq!["AgeRating"@] } else { Seq::<Seq<char>>::empty() }));
    lemma_names_append(e2, enum_chunk("AgeRating"@, v.age_rating == AgeRating::Unknown, age_rating_text(v.age_rating)));
    let e3 = e2 + enum_chunk("AgeRating"@, v.age_rating == AgeRating::Unknown, age_rating_text(v.age_rating));
}

proof fn lemma_contains_group_7(v: InfoView, x: Seq<char>)
    ensures
        present_names_7(v).contains(x) <==> (v.story_arc is Some && x == "StoryArc"@) || (v.story_arc_number is Some && x == "StoryArcNumber"@) || (v.series_group is Some && x == "SeriesGroup"@) || (v.age_rating != AgeRating::Unknown && x == "AgeRating"@),
{
    let e = Seq::<Seq<char>>::empty();
    lemma_contains_concat(e, (if v.story_arc is Some { seq!["StoryArc"@] } else { Seq::<Seq<char>>::empty() }), x);
    let e0 = e + (if v.story_arc is Some { seq!["StoryArc"@] } else { Seq::<Seq<char>>::empty() });
    assert((if v.story_arc is Some { seq!["StoryArc"@] } else { Seq::<Seq<char>>::empty() }).contains(x) <==> (v.story_arc is Some && x == "StoryArc"@)) by {
        if v.story_arc is Some {
            assert((if v.story_arc is Some { seq!["StoryArc"@] } else { Seq::<Seq<char>>::empty() })[0] == "StoryArc"@);
        }
    }
    lemma_contains_concat(e0, (if v.story_arc_number is Some { seq!["StoryArcNumber"@] } else { Seq::<Seq<char>>::empty() }), x);
    let e1 = e0 + (if v.story_arc_number is Some { seq!["StoryArcNumber"@] } else { Seq::<Seq<char>>::empty() });
    assert((if v.story_arc_number is Some { seq!["StoryArcNumber"@] } else { Seq::<Seq<char>>::empty() }).contains(x) <==> (v.story_arc_number is Some && x == "StoryArcNumber"@)) by {
        if v.story_arc_number is Some {
            assert((if v.story_arc_number is Some { seq!["StoryArcNumber"@] } else { Seq::<Seq<char>>::empty() })[0] == "StoryArcNumber"@);
        }
    }
    lemma_contains_concat(e1, (if v.series_group is Some { seq!["SeriesGroup"@] } else { Seq::<Seq<char>>::empty() }), x);
    let e2 = e1 + (if v.series_group is Some { seq!["SeriesGroup"@] } else { Seq::<Seq<char>>::empty() });
    assert((if v.series_group is Some { seq!["SeriesGroup"@] } else { Seq::<Seq<char>>::empty() }).contains(x) <==> (v.series_group is Some && x == "SeriesGroup"@)) by {
        if v.series_group is Some {
            assert((if v.series_group is Some { seq!["SeriesGroup"@] } else { Seq::<Seq<char>>::empty() })[0] == "SeriesGroup"@);
        }
    }
    lemma_contains_concat(e2, (if v.age_rating != AgeRating::Unknown { seq!["AgeRating"@] } else { Seq::<Seq<char>>::empty() }), x);
    let e3 = e2 + (if v.age_rating != AgeRating::Unknown { seq!["AgeRating"@] } else { Seq::<Seq<char>>::empty() });
    assert((if v.age_rating != AgeRating::Unknown { seq!["AgeRating"@] } else { Seq::<Seq<char>>::empty() }).contains(x) <==> (v.age_rating != AgeRating::Unknown && x == "AgeRating"@)) by {
        if v.age_rating != AgeRating::Unknown {
            assert((if v.age_rating != AgeRating::Unknown { seq!["AgeRating"@] } else { Seq::<Seq<char>>::empty() })[0] == "AgeRating"@);
        }
    }
}


pub open spec fn present_names_8(v: InfoView) -> Seq<Seq<char>> {
    Seq::<Seq<char>>::empty()
        + (if v.community_rating is Some { seq!["CommunityRating"@] } else { Seq::<Seq<char>>::empty() })
        + (if v.main_character_or_team is Some { seq!["MainCharacterOrTeam"@] } else { Seq::<Seq<char>>::empty() })
        + (if v.review is Some { seq!["Review"@] } else { Seq::<Seq<char>>::empty() })
        + (if v.gtin is Some { seq!["GTIN"@] } else { Seq::<Seq<char>>::empty() })
}

proof fn lemma_names_group_8(v: InfoView)
    ensures
        element_names(crate::info::elements_8(v)) == present_names_8(v),
{
    let e = Seq::<ElementView>::empty();
    assert(element_names(e) =~= Seq::<Seq<char>>::empty());
    assert(element_names(str_chunk("CommunityRating"@, v.community_rating)) =~= (if v.community_rating is Some { seq!["CommunityRating"@] } else { Seq::<Seq<char>>::empty() }));
    lemma_names_append(e, str_chunk("CommunityRating"@, v.community_rating));
    let e0 = e + str_chunk("CommunityRating"@, v.community_rating);
    assert(element_names(str_chunk("MainCharacterOrTeam"@, v.main_character_or_team)) =~= (if v.main_character_or_team is Some { seq!["MainCharacterOrTeam"@] } else { Seq::<Seq<char>>::empty() }));
    lemma_names_append(e0, str_chunk("MainCharacterOrTeam"@, v.main_character_or_team));
    let e1 = e0 + str_chunk("MainCharacterOrTeam"@, v.main_character_or_team);
    assert(element_names(str_chunk("Review"@, v.review)) =~= (if v.review is Some { seq!["Review"@] } else { Seq::<Seq<char>>::empty() }));
    lemma_names_append(e1, str_chunk("Review"@, v.review));
    let e2 = e1 + str_chunk("Review"@, v.review);
    assert(element_names(str_chunk("GTIN"@, v.gtin)) =~= (if v.gtin is Some { seq!["GTIN"@] } else { Seq::<Seq<char>>::empty() }));
    lemma_names_append(e2, str_chunk("GTIN"@, v.gtin));
    let e3 = e2 + str_chunk("GTIN"@, v.gtin);
}

proof fn lemma_contains_group_8(v: InfoView, x: Seq<char>)
    ensures
        present_names_8(v).contains(x) <==> (v.community_rating is Some && x == "CommunityRating"@) || (v.main_character_or_team is Some && x == "MainCharacterOrTeam"@) || (v.review is Some && x == "Review"@) || (v.gtin is Some && x == "GTIN"@),
{
    let e = Seq::<Seq<char>>::empty();
    lemma_contains_concat(e, (if v.community_rating is Some { seq!["CommunityRating"@] } else { Seq::<Seq<char>>::empty() }), x);
    let e0 = e + (if v.community_rating is Some { seq!["CommunityRating"@] } else { Seq::<Seq<char>>::empty() });
    assert((if v.community_rating is Some { seq!["CommunityRating"@] } else { Seq::<Seq<char>>::empty() }).contains(x) <==> (v.community_rating is Some && x == "CommunityRating"@)) by {
        if v.community_rating is Some {
            assert((if v.community_rating is Some { seq!["CommunityRating"@] } else { Seq::<Seq<char>>::empty() })[0] == "CommunityRating"@);
        }
    }
    lemma_contains_concat(e0, (if v.main_character_or_team is Some { seq!["MainCharacterOrTeam"@] } else { Seq::<Seq<char>>::empty() }), x);
    let e1 = e0 + (if v.main_character_or_team is Some { seq!["MainCharacterOrTeam"@] } else { Seq::<Seq<char>>::empty() });
    assert((if v.main_character_or_team is Some { seq!["MainCharacterOrTeam"@] } else { Seq::<Seq<char>>::empty() }).contains(x) <==> (v.main_character_or_team is Some && x == "MainCharacterOrTeam"@)) by {
        if v.main_character_or_team is Some {
            assert((if v.main_character_or_team is Some { seq!["MainCharacterOrTeam"@] } else { Seq::<Seq<char>>::empty() })[0] == "MainCharacterOrTeam"@);
        }
    }
    lemma_contains_concat(e1, (if v.review is Some { seq!["Review"@] } else { Seq::<Seq<char>>::empty() }), x);
    let e2 = e1 + (if v.review is Some { seq!["Review"@] } else { Seq::<Seq<char>>::empty() });
    assert((if v.review is Some { seq!["Review"@] } else { Seq::<Seq<char>>::empty() }).contains(x) <==> (v.review is Some && x == "Review"@)) by {
        if v.review is Some {
            assert((if v.review is Some { seq!["Review"@] } else { Seq::<Seq<char>>::empty() })[0] == "Review"@);
        }
    }
    lemma_contains_concat(e2, (if v.gtin is Some { seq!["GTIN"@] } else { Seq::<Seq<char>>::empty() }), x);
    let e3 = e2 + (if v.gtin is Some { seq!["GTIN"@] } else { Seq::<Seq<char>>::empty() });
    assert((if v.gtin is Some { seq!["GTIN"@] } else { Seq::<Seq<char>>::empty() }).contains(x) <==> (v.gtin is Some && x == "GTIN"@)) by {
        if v.gtin is Some {
            assert((if v.gtin is Some { seq!["GTIN"@] } else { Seq::<Seq<char>>::empty() })[0] == "GTIN"@);
        }
    }
}

pub open spec fn present_names(v: InfoView) -> Seq<Seq<char>> {
    present_names_0(v) + present_names_1(v) + present_names_2(v) + present_names_3(v) + present_names_4(v) + present_names_5(v) + present_names_6(v) + present_names_7(v) + present_names_8(v)
}

proof fn lemma_present_names(v: InfoView)
    ensures
        element_names(head_elements(v) + tail_elements(v)) == present_names(v),
{
    lemma_names_append(head_elements(v), tail_elements(v));
    lemma_names_group_0(v);
    lemma_names_group_1(v);
    lemma_names_append(crate::info::elements_0(v), crate::info::elements_1(v));
    lemma_names_group_2(v);
    lemma_names_append(crate::info::elements_0(v) + crate::info::elements_1(v), crate::info::elements_2(v));
    lemma_names_group_3(v);
    lemma_names_append(crate::info::elements_0(v) + crate::info::elements_1(v) + crate::info::elements_2(v), crate::info::elements_3(v));
    lemma_names_group_4(v);
    lemma_names_append(crate::info::elements_0(v) + crate::info::elements_1(v) + crate::info::elements_2(v) + crate::info::elements_3(v), crate::info::elements_4(v));
    lemma_names_group_5(v);
    lemma_names_append(crate::info::elements_0(v) + crate::info::elements_1(v) + crate::info::elements_2(v) + crate::info::elements_3(v) + crate::info::elements_4(v), crate::info::elements_5(v));
    lemma_names_group_6(v);
    lemma_names_append(crate::info::elements_0(v) + crate::info::elements_1(v) + crate::info::elements_2(v) + crate::info::elements_3(v) + crate::info::elements_4(v) + crate::info::elements_5(v), crate::info::elements_6(v));
    lemma_names_group_7(v);
    lemma_names_append(crate::info::elements_0(v) + crate::info::elements_1(v) + crate::info::elements_2(v) + crate::info::elements_3(v) + crate::info::elements_4(v) + crate::info::elements_5(v) + crate::info::elements_6(v), crate::info::elements_7(v));
    lemma_names_group_8(v);
}

/// Whether `x` names a field of `v` that differs from its absent value.
pub open spec fn names_present_field(v: InfoView, x: Seq<char>) -> bool {
    (v.title is Some && x == "Title"@)
        || (v.series is Some && x == "Series"@)
        || (v.number is Some && x == "Number"@)
        || (v.count != -1i32 && x == "Count"@)
        || (v.volume != -1i32 && x == "Volume"@)
        || (v.alternate_series is Some && x == "AlternateSeries"@)
        || (v.alternate_number is Some && x == "AlternateNumber"@)
        || (v.alternate_count != -1i32 && x == "AlternateCount"@)
        || (v.summary is Some && x == "Summary"@)
        || (v.notes is Some && x == "Notes"@)
        || (v.year != -1i32 && x == "Year"@)
        || (v.month != -1i32 && x == "Month"@)
        || (v.day != -1i32 && x == "Day"@)
        || (v.writer is Some && x == "Writer"@)
        || (v.penciller is Some && x == "Penciller"@)
        || (v.inker is Some && x == "Inker"@)
        || (v.colorist is Some && x == "Colorist"@)
        || (v.letterer is Some && x == "Letterer"@)
        || (v.cover_artist is Some && x == "CoverArtist"@)
        || (v.editor is Some && x == "Editor"@)
        || (v.translator is Some && x == "Translator"@)
        || (v.publisher is Some && x == "Publisher"@)
        || (v.imprint is Some && x == "Imprint"@)
        || (v.genre is Some && x == "Genre"@)
        || (v.tags is Some && x == "Tags"@)
        || (v.web is Some && x == "Web"@)
        || (v.page_count != 0i32 && x == "PageCount"@)
        || (v.language_iso is Some && x == "LanguageISO"@)
        || (v.format is Some && x == "Format"@)
        || (v.black_and_white != YesNo::Unknown && x == "BlackAndWhite"@)
        || (v.manga != Manga::Unknown && x == "Manga"@)
        || (v.characters is Some && x == "Characters"@)
        || (v.teams is Some && x == "Teams"@)
        || (v.locations is Some && x == "Locations"@)
        || (v.scan_information is Some && x == "ScanInformation"@)
        || (v.story_arc is Some && x == "StoryArc"@)
        || (v.story_arc_number is Some && x == "StoryArcNumber"@)
        || (v.series_group is Some && x == "SeriesGroup"@)
        || (v.age_rating != AgeRating::Unknown && x == "AgeRating"@)
        || (v.community_rating is Some && x == "CommunityRating"@)
        || (v.main_character_or_team is Some && x == "MainCharacterOrTeam"@)
        || (v.review is Some && x == "Review"@)
        || (v.gtin is Some && x == "GTIN"@)
}

proof fn lemma_present_contains(v: InfoView, x: Seq<char>)
    ensures
        present_names(v).contains(x) <==> names_present_field(v, x),
{
    lemma_contains_group_0(v, x);
    lemma_contains_group_1(v, x);
    lemma_contains_concat(present_names_0(v), present_names_1(v), x);
    lemma_contains_group_2(v, x);
    lemma_contains_concat(present_names_0(v) + present_names_1(v), present_names_2(v), x);
    lemma_contains_group_3(v, x);
    lemma_contains_concat(present_names_0(v) + present_names_1(v) + present_names_2(v), present_names_3(v), x);
    lemma_contains_group_4(v, x);
    lemma_contains_concat(present_names_0(v) + present_names_1(v) + present_names_2(v) + present_names_3(v), present_names_4(v), x);
    lemma_contains_group_5(v, x);
    lemma_contains_concat(present_names_0(v) + present_names_1(v) + present_names_2(v) + present_names_3(v) + present_names_4(v), present_names_5(v), x);
    lemma_contains_group_6(v, x);
    lemma_contains_concat(present_names_0(v) + present_names_1(v) + present_names_2(v) + present_names_3(v) + present_names_4(v) + present_names_5(v), present_names_6(v), x);
    lemma_contains_group_7(v, x);
    lemma_contains_concat(present_names_0(v) + present_names_1(v) + present_names_2(v) + present_names_3(v) + present_names_4(v) + present_names_5(v) + present_names_6(v), present_names_7(v), x);
    lemma_contains_group_8(v, x);
    lemma_contains_concat(present_names_0(v) + present_names_1(v) + present_names_2(v) + present_names_3(v) + present_names_4(v) + present_names_5(v) + present_names_6(v) + present_names_7(v), present_names_8(v), x);
}

/// Omission of defaults in the document: an element named after a field is
/// written exactly when that field differs from its absent value (no text,
/// −1, 0 for the page count, or `Unknown`), so no such value is ever written.
pub proof fn lemma_element_present_iff_not_default(v: InfoView)
    ensures
        element_names(head_elements(v) + tail_elements(v)).contains("Title"@) <==> v.title is Some,
        element_names(head_elements(v) + tail_elements(v)).contains("Series"@) <==> v.series is Some,
        element_names(head_elements(v) + tail_elements(v)).contains("Number"@) <==> v.number is Some,
        element_names(head_elements(v) + tail_elements(v)).contains("Count"@) <==> v.count != -1i32,
        element_names(head_elements(v) + tail_elements(v)).contains("Volume"@) <==> v.volume != -1i32,
        element_names(head_elements(v) + tail_elements(v)).contains("AlternateSeries"@) <==> v.alternate_series is Some,
        element_names(head_elements(v) + tail_elements(v)).contains("AlternateNumber"@) <==> v.alternate_number is Some,
        element_names(head_elements(v) + tail_elements(v)).contains("AlternateCount"@) <==> v.alternate_count != -1i32,
        element_names(head_elements(v) + tail_elements(v)).contains("Summary"@) <==> v.summary is Some,
        element_names(head_elements(v) + tail_elements(v)).contains("Notes"@) <==> v.notes is Some,
        element_names(head_elements(v) + tail_elements(v)).contains("Year"@) <==> v.year != -1i32,
        element_names(head_elements(v) + tail_elements(v)).contains("Month"@) <==> v.month != -1i32,
        element_names(head_elements(v) + tail_elements(v)).contains("Day"@) <==> v.day != -1i32,
        element_names(head_elements(v) + tail_elements(v)).contains("Writer"@) <==> v.writer is Some,
        element_names(head_elements(v) + tail_elements(v)).contains("Penciller"@) <==> v.penciller is Some,
        element_names(head_elements(v) + tail_elements(v)).contains("Inker"@) <==> v.inker is Some,
        element_names(head_elements(v) + tail_elements(v)).contains("Colorist"@) <==> v.colorist is Some,
        element_names(head_elements(v) + tail_elements(v)).contains("Letterer"@) <==> v.letterer is Some,
        element_names(head_elements(v) + tail_elements(v)).contains("CoverArtist"@) <==> v.cover_artist is Some,
        element_names(head_elements(v) + tail_elements(v)).contains("Editor"@) <==> v.editor is Some,
        element_names(head_elements(v) + tail_elements(v)).contains("Translator"@) <==> v.translator is Some,
        element_names(head_elements(v) + tail_elements(v)).contains("Publisher"@) <==> v.publisher is Some,
        element_names(head_elements(v) + tail_elements(v)).contains("Imprint"@) <==> v.imprint is Some,
        element_names(head_elements(v) + tail_elements(v)).contains("Genre"@) <==> v.genre is Some,
        element_names(head_elements(v) + tail_elements(v)).contains("Tags"@) <==> v.tags is Some,
        element_names(head_elements(v) + tail_elements(v)).contains("Web"@) <==> v.web is Some,
        element_names(head_elements(v) + tail_elements(v)).contains("PageCount"@) <==> v.page_count != 0i32,
        element_names(head_elements(v) + tail_elements(v)).contains("LanguageISO"@) <==> v.language_iso is Some,
        element_names(head_elements(v) + tail_elements(v)).contains("Format"@) <==> v.format is Some,
        element_names(head_elements(v) + tail_elements(v)).contains("BlackAndWhite"@) <==> v.black_and_white != YesNo::Unknown,
        element_names(head_elements(v) + tail_elements(v)).contains("Manga"@) <==> v.manga != Manga::Unknown,
        element_names(head_elements(v) + tail_elements(v)).contains("Characters"@) <==> v.characters is Some,
        element_names(head_elements(v) + tail_elements(v)).contains("Teams"@) <==> v.teams is Some,
        element_names(head_elements(v) + tail_elements(v)).contains("Locations"@) <==> v.locations is Some,
        element_names(head_elements(v) + tail_elements(v)).contains("ScanInformation"@) <==> v.scan_information is Some,
        element_names(head_elements(v) + tail_elements(v)).contains("StoryArc"@) <==> v.story_arc is Some,
        element_names(head_elements(v) + tail_elements(v)).contains("StoryArcNumber"@) <==> v.story_arc_number is Some,
        element_names(head_elements(v) + tail_elements(v)).contains("SeriesGroup"@) <==> v.series_group is Some,
        element_names(head_elements(v) + tail_elements(v)).contains("AgeRating"@) <==> v.age_rating != AgeRating::Unknown,
        element_names(head_elements(v) + tail_elements(v)).contains("CommunityRating"@) <==> v.community_rating is Some,
        element_names(head_elements(v) + tail_elements(v)).contains("MainCharacterOrTeam"@) <==> v.main_character_or_team is Some,
        element_names(head_elements(v) + tail_elements(v)).contains("Review"@) <==> v.review is Some,
        element_names(head_elements(v) + tail_elements(v)).contains("GTIN"@) <==> v.gtin is Some,
{
    lemma_field_name_keys();
    lemma_present_names(v);
    lemma_present_contains(v, "Title"@);
    lemma_present_contains(v, "Series"@);
    lemma_present_contains(v, "Number"@);
    lemma_present_contains(v, "Count"@);
    lemma_present_contains(v, "Volume"@);
    lemma_present_contains(v, "AlternateSeries"@);
    lemma_present_contains(v, "AlternateNumber"@);
    lemma_present_contains(v, "AlternateCount"@);
    lemma_present_contains(v, "Summary"@);
    lemma_present_contains(v, "Notes"@);
    lemma_present_contains(v, "Year"@);
    lemma_present_contains(v, "Month"@);
    lemma_present_contains(v, "Day"@);
    lemma_present_contains(v, "Writer"@);
    lemma_present_contains(v, "Penciller"@);
    lemma_present_contains(v, "Inker"@);
    lemma_present_contains(v, "Colorist"@);
    lemma_present_contains(v, "Letterer"@);
    lemma_present_contains(v, "CoverArtist"@);
    lemma_present_contains(v, "Editor"@);
    lemma_present_contains(v, "Translator"@);
    lemma_present_contains(v, "Publisher"@);
    lemma_present_contains(v, "Imprint"@);
    lemma_present_contains(v, "Genre"@);
    lemma_present_contains(v, "Tags"@);
    lemma_present_contains(v, "Web"@);
    lemma_present_contains(v, "PageCount"@);
    lemma_present_contains(v, "LanguageISO"@);
    lemma_present_contains(v, "Format"@);
    lemma_present_contains(v, "BlackAndWhite"@);
    lemma_present_contains(v, "Manga"@);
    lemma_present_contains(v, "Characters"@);
    lemma_present_contains(v, "Teams"@);
    lemma_present_contains(v, "Locations"@);
    lemma_present_contains(v, "ScanInformation"@);
    lemma_present_contains(v, "StoryArc"@);
    lemma_present_contains(v, "StoryArcNumber"@);
    lemma_present_contains(v, "SeriesGroup"@);
    lemma_present_contains(v, "AgeRating"@);
    lemma_present_contains(v, "CommunityRating"@);
    lemma_present_contains(v, "MainCharacterOrTeam"@);
    lemma_present_contains(v, "Review"@);
    lemma_present_contains(v, "GTIN"@);
}

} // verus!

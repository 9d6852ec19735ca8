//! The enumerations of the metadata schema and the defaults and sentinels of
//! its scalar fields.
use vstd::prelude::*;
use crate::text::str_eq;

verus! {

/// A three-valued flag; `Unknown` is the absent case.
#[derive(Debug, Clone, Copy, PartialEq, Eq, Structural)]
pub enum YesNo {
    Unknown,
    No,
    Yes,
}

/// Manga reading direction; `Unknown` is the absent case.
#[derive(Debug, Clone, Copy, PartialEq, Eq, Structural)]
pub enum Manga {
    Unknown,
    No,
    Yes,
    YesAndRightToLeft,
}

/// Audience rating; `Unknown` is the absent case. The first group follows
/// the North American scale, the second the Australian one.
#[derive(Debug, Clone, Copy, PartialEq, Eq, Structural)]
pub enum AgeRating {
    Unknown,
    EarlyChildhood,
    Everyone,
    Everyone10Plus,
    Teen,
    Mature17Plus,
    AdultsOnly18Plus,
    RatingPending,

    G,
    PG,
    M,
    MA15Plus,
    R18Plus,
    X18Plus,
    KidsToAdults,
}

/// The kind of a page: covers, content, extras, and the two markers.
#[derive(Debug, Clone, Copy, PartialEq, Eq, Structural)]
pub enum ComicPageType {
    FrontCover,
    InnerCover,
    BackCover,

    Story,
    Preview,
    Roundup,

    Advertisement,
    Editorial,
    Letters,

    Deleted,
    Other,
}

/// The literal that stands for a flag.
pub open spec fn yes_no_text(v: YesNo) -> Seq<char> {
    match v {
        YesNo::Yes => "Yes"@,
        YesNo::No => "No"@,
        YesNo::Unknown => "Unknown"@,
    }
}

/// Reading a flag: any text but the two literals is `Unknown`.
pub open spec fn yes_no_of(s: Seq<char>) -> YesNo {
    if s == "Yes"@ {
        YesNo::Yes
    } else if s == "No"@ {
        YesNo::No
    } else {
        YesNo::Unknown
    }
}

/// The literal that stands for a manga value.
pub open spec fn manga_text(v: Manga) -> Seq<char> {
    match v {
        Manga::Yes => "Yes"@,
        Manga::YesAndRightToLeft => "YesAndRightToLeft"@,
        Manga::No => "No"@,
        Manga::Unknown => "Unknown"@,
    }
}

/// Reading a manga value: unrecognised text is `Unknown`.
pub open spec fn manga_of(s: Seq<char>) -> Manga {
    if s == "Yes"@ {
        Manga::Yes
    } else if s == "YesAndRightToLeft"@ {
        Manga::YesAndRightToLeft
    } else if s == "No"@ {
        Manga::No
    } else {
        Manga::Unknown
    }
}

/// The literal that stands for a rating.
pub open spec fn age_rating_text(v: AgeRating) -> Seq<char> {
    match v {
        AgeRating::EarlyChildhood => "Early Childhood"@,
        AgeRating::Everyone => "Everyone"@,
        AgeRating::Everyone10Plus => "Everyone 10+"@,
        AgeRating::Teen => "Teen"@,
        AgeRating::Mature17Plus => "Mature 17+"@,
        AgeRating::AdultsOnly18Plus => "Adults Only 18+"@,
        AgeRating::RatingPending => "Rating Pending"@,
        AgeRating::G => "G"@,
        AgeRating::PG => "PG"@,
        AgeRating::M => "M"@,
        AgeRating::MA15Plus => "MA15+"@,
        AgeRating::R18Plus => "R18+"@,
        AgeRating::X18Plus => "X18+"@,
        AgeRating::KidsToAdults => "Kids to Adults"@,
        AgeRating::Unknown => "Unknown"@,
    }
}

/// Reading a rating: unrecognised text is `Unknown`.
pub open spec fn age_rating_of(s: Seq<char>) -> AgeRating {
    if s == "Early Childhood"@ {
        AgeRating::EarlyChildhood
    }
    else if s == "Everyone"@ {
        AgeRating::Everyone
    }
    else if s == "Everyone 10+"@ {
        AgeRating::Everyone10Plus
    }
    else if s == "Teen"@ {
        AgeRating::Teen
    }
    else if s == "Mature 17+"@ {
        AgeRating::Mature17Plus
    }
    else if s == "Adults Only 18+"@ {
        AgeRating::AdultsOnly18Plus
    }
    else if s == "Rating Pending"@ {
        AgeRating::RatingPending
    }
    else if s == "G"@ {
        AgeRating::G
    }
    else if s == "PG"@ {
        AgeRating::PG
    }
    else if s == "M"@ {
        AgeRating::M
    }
    else if s == "MA15+"@ {
        AgeRating::MA15Plus
    }
    else if s == "R18+"@ {
        AgeRating::R18Plus
    }
    else if s == "X18+"@ {
        AgeRating::X18Plus
    }
    else if s == "Kids to Adults"@ {
        AgeRating::KidsToAdults
    }
    else {
        AgeRating::Unknown
    }
}

/// The literal that stands for a page kind.
pub open spec fn page_type_text(t: ComicPageType) -> Seq<char> {
    match t {
        ComicPageType::FrontCover => "FrontCover"@,
        ComicPageType::InnerCover => "InnerCover"@,
        ComicPageType::BackCover => "BackCover"@,
        ComicPageType::Story => "Story"@,
        ComicPageType::Preview => "Preview"@,
        ComicPageType::Roundup => "Roundup"@,
        ComicPageType::Advertisement => "Advertisement"@,
        ComicPageType::Editorial => "Editorial"@,
        ComicPageType::Letters => "Letters"@,
        ComicPageType::Deleted => "Deleted"@,
        ComicPageType::Other => "Other"@,
    }
}

/// Reading a page kind: an unrecognised name is `Other`.
pub open spec fn page_type_of(s: Seq<char>) -> ComicPageType {
    if s == "FrontCover"@ {
        ComicPageType::FrontCover
    }
    else if s == "InnerCover"@ {
        ComicPageType::InnerCover
    }
    else if s == "BackCover"@ {
        ComicPageType::BackCover
    }
    else if s == "Story"@ {
        ComicPageType::Story
    }
    else if s == "Preview"@ {
        ComicPageType::Preview
    }
    else if s == "Roundup"@ {
        ComicPageType::Roundup
    }
    else if s == "Advertisement"@ {
        ComicPageType::Advertisement
    }
    else if s == "Editorial"@ {
        ComicPageType::Editorial
    }
    else if s == "Letters"@ {
        ComicPageType::Letters
    }
    else if s == "Deleted"@ {
        ComicPageType::Deleted
    }
    else {
        ComicPageType::Other
    }
}

impl YesNo {
    /// The literal that stands for the flag.
    pub fn text(&self) -> (r: &'static str)
        ensures
            r@ == yes_no_text(*self),
    {
        match self {
            Self::Yes => "Yes",
            Self::No => "No",
            Self::Unknown => "Unknown",
        }
    }

    /// Reads a flag; unrecognised text gives `Unknown`.
    pub fn from_str(s: &str) -> (r: YesNo)
        ensures
            r == yes_no_of(s@),
    {
        if str_eq(s, "Yes") {
            Self::Yes
        } else if str_eq(s, "No") {
            Self::No
        } else {
            Self::Unknown
        }
    }
}

impl Manga {
    /// The literal that stands for the value.
    pub fn text(&self) -> (r: &'static str)
        ensures
            r@ == manga_text(*self),
    {
        match self {
            Self::Yes => "Yes",
            Self::YesAndRightToLeft => "YesAndRightToLeft",
            Self::No => "No",
            Self::Unknown => "Unknown",
        }
    }

    /// Reads a manga value; unrecognised text gives `Unknown`.
    pub fn from_str(s: &str) -> (r: Manga)
        ensures
            r == manga_of(s@),
    {
        if str_eq(s, "Yes") {
            Self::Yes
        } else if str_eq(s, "YesAndRightToLeft") {
            Self::YesAndRightToLeft
        } else if str_eq(s, "No") {
            Self::No
        } else {
            Self::Unknown
        }
    }
}

impl AgeRating {
    /// The literal that stands for the rating.
    pub fn text(&self) -> (r: &'static str)
        ensures
            r@ == age_rating_text(*self),
    {
        match self {
            Self::EarlyChildhood => "Early Childhood",
            Self::Everyone => "Everyone",
            Self::Everyone10Plus => "Everyone 10+",
            Self::Teen => "Teen",
            Self::Mature17Plus => "Mature 17+",
            Self::AdultsOnly18Plus => "Adults Only 18+",
            Self::RatingPending => "Rating Pending",
            Self::G => "G",
            Self::PG => "PG",
            Self::M => "M",
            Self::MA15Plus => "MA15+",
            Self::R18Plus => "R18+",
            Self::X18Plus => "X18+",
            Self::KidsToAdults => "Kids to Adults",
            Self::Unknown => "Unknown",
        }
    }

    /// Reads a rating; unrecognised text gives `Unknown`.
    pub fn from_str(s: &str) -> (r: AgeRating)
        ensures
            r == age_rating_of(s@),
    {
        if str_eq(s, "Early Childhood") {
            Self::EarlyChildhood
        }
        else if str_eq(s, "Everyone") {
            Self::Everyone
        }
        else if str_eq(s, "Everyone 10+") {
            Self::Everyone10Plus
        }
        else if str_eq(s, "Teen") {
            Self::Teen
        }
        else if str_eq(s, "Mature 17+") {
            Self::Mature17Plus
        }
        else if str_eq(s, "Adults Only 18+") {
            Self::AdultsOnly18Plus
        }
        else if str_eq(s, "Rating Pending") {
            Self::RatingPending
        }
        else if str_eq(s, "G") {
            Self::G
        }
        else if str_eq(s, "PG") {
            Self::PG
        }
        else if str_eq(s, "M") {
            Self::M
        }
        else if str_eq(s, "MA15+") {
            Self::MA15Plus
        }
        else if str_eq(s, "R18+") {
            Self::R18Plus
        }
        else if str_eq(s, "X18+") {
            Self::X18Plus
        }
        else if str_eq(s, "Kids to Adults") {
            Self::KidsToAdults
        }
        else {
            Self::Unknown
        }
    }
}

impl ComicPageType {
    /// The literal that stands for the page kind.
    pub fn text(&self) -> (r: &'static str)
        ensures
            r@ == page_type_text(*self),
    {
        match self {
            Self::FrontCover => "FrontCover",
            Self::InnerCover => "InnerCover",
            Self::BackCover => "BackCover",
            Self::Story => "Story",
            Self::Preview => "Preview",
            Self::Roundup => "Roundup",
            Self::Advertisement => "Advertisement",
            Self::Editorial => "Editorial",
            Self::Letters => "Letters",
            Self::Deleted => "Deleted",
            Self::Other => "Other",
        }
    }

    /// Reads a page kind; unrecognised text gives `Other`.
    pub fn from_str(s: &str) -> (r: ComicPageType)
        ensures
            r == page_type_of(s@),
    {
        if str_eq(s, "FrontCover") {
            Self::FrontCover
        }
        else if str_eq(s, "InnerCover") {
            Self::InnerCover
        }
        else if str_eq(s, "BackCover") {
            Self::BackCover
        }
        else if str_eq(s, "Story") {
            Self::Story
        }
        else if str_eq(s, "Preview") {
            Self::Preview
        }
        else if str_eq(s, "Roundup") {
            Self::Roundup
        }
        else if str_eq(s, "Advertisement") {
            Self::Advertisement
        }
        else if str_eq(s, "Editorial") {
            Self::Editorial
        }
        else if str_eq(s, "Letters") {
            Self::Letters
        }
        else if str_eq(s, "Deleted") {
            Self::Deleted
        }
        else {
            Self::Other
        }
    }
}

/// Reading a flag's own literal gives the flag back.
pub proof fn lemma_yes_no_text_round_trip(y: YesNo)
    requires
        y != YesNo::Unknown,
    ensures
        yes_no_of(yes_no_text(y)) == y,
{
    reveal_strlit("No");
    reveal_strlit("Yes");
    assert("No"@.len() == 2 && "Yes"@.len() == 3);
}

/// Reading a manga value's own literal gives the value back.
pub proof fn lemma_manga_text_round_trip(m: Manga)
    requires
        m != Manga::Unknown,
    ensures
        manga_of(manga_text(m)) == m,
{
    reveal_strlit("No");
    reveal_strlit("Yes");
    reveal_strlit("YesAndRightToLeft");
    assert("No"@.len() == 2 && "Yes"@.len() == 3 && "YesAndRightToLeft"@.len() == 17);
}

/// Reading a rating's own literal gives the rating back. Length and first
/// character tell the literals apart.
pub proof fn lemma_age_rating_text_round_trip(a: AgeRating)
    requires
        a != AgeRating::Unknown,
    ensures
        age_rating_of(age_rating_text(a)) == a,
{
    reveal_strlit("Early Childhood");
    reveal_strlit("Everyone");
    reveal_strlit("Everyone 10+");
    reveal_strlit("Teen");
    reveal_strlit("Mature 17+");
    reveal_strlit("Adults Only 18+");
    reveal_strlit("Rating Pending");
    reveal_strlit("G");
    reveal_strlit("PG");
    reveal_strlit("M");
    reveal_strlit("MA15+");
    reveal_strlit("R18+");
    reveal_strlit("X18+");
    reveal_strlit("Kids to Adults");
    assert("Early Childhood"@.len() == 15 && "Early Childhood"@[0] == 'E');
    assert("Everyone"@.len() == 8 && "Everyone"@[0] == 'E');
    assert("Everyone 10+"@.len() == 12 && "Everyone 10+"@[0] == 'E');
    assert("Teen"@.len() == 4 && "Teen"@[0] == 'T');
    assert("Mature 17+"@.len() == 10 && "Mature 17+"@[0] == 'M');
    assert("Adults Only 18+"@.len() == 15 && "Adults Only 18+"@[0] == 'A');
    assert("Rating Pending"@.len() == 14 && "Rating Pending"@[0] == 'R');
    assert("G"@.len() == 1 && "G"@[0] == 'G');
    assert("PG"@.len() == 2 && "PG"@[0] == 'P');
    assert("M"@.len() == 1 && "M"@[0] == 'M');
    assert("MA15+"@.len() == 5 && "MA15+"@[0] == 'M');
    assert("R18+"@.len() == 4 && "R18+"@[0] == 'R');
    assert("X18+"@.len() == 4 && "X18+"@[0] == 'X');
    assert("Kids to Adults"@.len() == 14 && "Kids to Adults"@[0] == 'K');
}

/// Reading a page kind's own literal gives the kind back. The first
/// character tells the literals apart.
pub proof fn lemma_page_type_text_round_trip(t: ComicPageType)
    ensures
        page_type_of(page_type_text(t)) == t,
{
    reveal_strlit("FrontCover");
    reveal_strlit("InnerCover");
    reveal_strlit("BackCover");
    reveal_strlit("Story");
    reveal_strlit("Preview");
    reveal_strlit("Roundup");
    reveal_strlit("Advertisement");
    reveal_strlit("Editorial");
    reveal_strlit("Letters");
    reveal_strlit("Deleted");
    reveal_strlit("Other");
    assert("FrontCover"@.len() == 10 && "FrontCover"@[0] == 'F');
    assert("InnerCover"@.len() == 10 && "InnerCover"@[0] == 'I');
    assert("BackCover"@.len() == 9 && "BackCover"@[0] == 'B');
    assert("Story"@.len() == 5 && "Story"@[0] == 'S');
    assert("Preview"@.len() == 7 && "Preview"@[0] == 'P');
    assert("Roundup"@.len() == 7 && "Roundup"@[0] == 'R');
    assert("Advertisement"@.len() == 13 && "Advertisement"@[0] == 'A');
    assert("Editorial"@.len() == 9 && "Editorial"@[0] == 'E');
    assert("Letters"@.len() == 7 && "Letters"@[0] == 'L');
    assert("Deleted"@.len() == 7 && "Deleted"@[0] == 'D');
    assert("Other"@.len() == 5 && "Other"@[0] == 'O');
}

/// The value of an integer field that is absent: −1.
pub fn default_minus_one() -> (r: i32)
    ensures
        r == -1,
{
    -1i32
}

/// The absent value of a flag field.
pub fn default_yes_no() -> (r: YesNo)
    ensures
        r == YesNo::Unknown,
{
    YesNo::Unknown
}

/// The absent value of the manga field.
pub fn default_manga() -> (r: Manga)
    ensures
        r == Manga::Unknown,
{
    Manga::Unknown
}

/// The absent value of the rating field.
pub fn default_age_rating() -> (r: AgeRating)
    ensures
        r == AgeRating::Unknown,
{
    AgeRating::Unknown
}

/// Whether a double-page flag is at its default, and so left unwritten.
pub fn is_false(b: &bool) -> (r: bool)
    ensures
        r == !*b,
{
    !*b
}

/// Whether an integer field holds −1, and so is left unwritten.
pub fn is_minus_one(i: &i32) -> (r: bool)
    ensures
        r == (*i == -1),
{
    *i == default_minus_one()
}

/// Whether a byte size is 0, and so is left unwritten.
pub fn is_zero_i64(i: &i64) -> (r: bool)
    ensures
        r == (*i == 0),
{
    *i == 0i64
}

/// Whether the page count is 0, and so is left unwritten.
pub fn is_zero_i32(i: &i32) -> (r: bool)
    ensures
        r == (*i == 0),
{
    *i == 0i32
}

/// Whether a flag field is absent.
pub fn is_unknown_yes_no(y: &YesNo) -> (r: bool)
    ensures
        r == (*y == YesNo::Unknown),
{
    match y {
        YesNo::Unknown => true,
        _ => false,
    }
}

/// Whether the manga field is absent.
pub fn is_unknown_manga(m: &Manga) -> (r: bool)
    ensures
        r == (*m == Manga::Unknown),
{
    match m {
        Manga::Unknown => true,
        _ => false,
    }
}

/// Whether the rating field is absent.
pub fn is_unknown_age_rating(a: &AgeRating) -> (r: bool)
    ensures
        r == (*a == AgeRating::Unknown),
{
    match a {
        AgeRating::Unknown => true,
        _ => false,
    }
}

} // verus!

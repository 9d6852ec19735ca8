//! Page records of the metadata document.
use vstd::prelude::*;
use crate::types::ComicPageType;

verus! {

/// One page record. `filename` is not part of the schema: it is carried in a
/// comment placed before the page's element.
#[derive(Debug, Clone, PartialEq)]
pub struct ComicPageInfo {
    pub double_page: bool,
    pub image: i32,
    pub image_height: i32,
    pub image_size: i64,
    pub image_width: i32,
    pub type_: Option<ComicPageType>,
    pub key: String,
    pub bookmark: String,
    pub filename: Option<String>,
}

/// The ordered list of page records.
#[derive(Debug, Clone, PartialEq)]
pub struct Pages {
    pub page: Vec<ComicPageInfo>,
}

/// A page record as plain values.
pub struct PageView {
    pub double_page: bool,
    pub image: i32,
    pub image_height: i32,
    pub image_size: i64,
    pub image_width: i32,
    pub type_: Option<ComicPageType>,
    pub key: Seq<char>,
    pub bookmark: Seq<char>,
    pub filename: Option<Seq<char>>,
}

pub open spec fn opt_view(s: Option<String>) -> Option<Seq<char>> {
    match s {
        Some(t) => Some(t@),
        None => None,
    }
}

impl View for ComicPageInfo {
    type V = PageView;

    open spec fn view(&self) -> PageView {
        PageView {
            double_page: self.double_page,
            image: self.image,
            image_height: self.image_height,
            image_size: self.image_size,
            image_width: self.image_width,
            type_: self.type_,
            key: self.key@,
            bookmark: self.bookmark@,
            filename: opt_view(self.filename),
        }
    }
}

pub open spec fn pages_view(v: Seq<ComicPageInfo>) -> Seq<PageView> {
    v.map_values(|p: ComicPageInfo| p@)
}

/// The record that page settings describe: sentinels for everything the
/// settings do not carry, and no type where the settings say `Other`.
pub open spec fn page_from_settings(
    page_type: ComicPageType,
    double_page: bool,
    bookmark: Seq<char>,
    image: i32,
) -> PageView {
    PageView {
        double_page,
        image,
        image_height: -1i32,
        image_size: 0i64,
        image_width: -1i32,
        type_: if page_type == ComicPageType::Other { None } else { Some(page_type) },
        key: Seq::empty(),
        bookmark,
        filename: None,
    }
}

pub open spec fn page_type_or_story(t: Option<ComicPageType>) -> ComicPageType {
    match t {
        Some(t) => t,
        None => ComicPageType::Story,
    }
}

pub fn clone_opt_string(s: &Option<String>) -> (r: Option<String>)
    ensures
        r == *s,
{
    match s {
        Some(t) => Some(t.clone()),
        None => None,
    }
}

impl ComicPageInfo {
    /// The page's kind, `Story` where none is given.
    pub fn effective_type(&self) -> (r: ComicPageType)
        ensures
            r == page_type_or_story(self.type_),
    {
        match self.type_ {
            Some(t) => t,
            None => ComicPageType::Story,
        }
    }

    /// The record that page settings describe.
    pub fn from_page_settings(
        page_type: ComicPageType,
        double_page: bool,
        bookmark: String,
        image: i32,
    ) -> (r: ComicPageInfo)
        ensures
            r@ == page_from_settings(page_type, double_page, bookmark@, image),
    {
        ComicPageInfo {
            double_page,
            image,
            image_height: -1,
            image_size: 0,
            image_width: -1,
            type_: match page_type {
                ComicPageType::Other => None,
                t => Some(t),
            },
            key: String::new(),
            bookmark,
            filename: None,
        }
    }

    /// A field-by-field copy.
    pub fn copy(&self) -> (r: ComicPageInfo)
        ensures
            r == *self,
    {
        ComicPageInfo {
            double_page: self.double_page,
            image: self.image,
            image_height: self.image_height,
            image_size: self.image_size,
            image_width: self.image_width,
            type_: self.type_,
            key: self.key.clone(),
            bookmark: self.bookmark.clone(),
            filename: clone_opt_string(&self.filename),
        }
    }
}

} // verus!

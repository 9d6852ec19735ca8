//! Reconciling a caller's page settings with the stored page records.
//!
//! Pages are indexed by position: the page index of an image is its position
//! in the sorted list of the archive's image names. Renaming or inserting an
//! image therefore shifts the meaning of every later index.
use vstd::prelude::*;
use crate::page::{ComicPageInfo, PageView, page_from_settings, pages_view, clone_opt_string};
use crate::text::str_eq;
use crate::info::string_views;
use crate::types::ComicPageType;

verus! {

/// What a caller sets for one page, by file name.
#[derive(Debug, Clone)]
pub struct PageSettings {
    pub page_type: ComicPageType,
    pub double_page: bool,
    pub bookmark: String,
    pub image: i32,
}

/// Page settings keyed by image file name. A `Vec` of pairs stands for the
/// map because a `String`-keyed map has no specification to prove against;
/// no uniqueness is required: as with inserting the pairs into a map in
/// order, a later entry for a name overrides an earlier one (`last_setting`).
pub type SettingsByName = Vec<(String, PageSettings)>;

/// The position of the last entry for `name`.
pub open spec fn last_setting(settings: Seq<(String, PageSettings)>, name: Seq<char>) -> Option<int>
    decreases settings.len(),
{
    if settings.len() == 0 {
        None
    } else if settings.last().0@ == name {
        Some(settings.len() - 1)
    } else {
        last_setting(settings.drop_last(), name)
    }
}

/// The position of the last stored page record for page index `image`: the
/// record a map from index to record, filled in record order, would hold.
pub open spec fn last_page_with_image(pages: Seq<PageView>, image: int) -> Option<int>
    decreases pages.len(),
{
    if pages.len() == 0 {
        None
    } else if pages.last().image == image {
        Some(pages.len() - 1)
    } else {
        last_page_with_image(pages.drop_last(), image)
    }
}

/// The record for the image at position `i`, if its name has settings: built
/// from the settings, with the size, dimensions and key of the stored record
/// for index `i`, and the file name attached.
pub open spec fn reconciled_page(
    files: Seq<Seq<char>>,
    settings: Seq<(String, PageSettings)>,
    previous: Seq<PageView>,
    i: int,
) -> Option<PageView> {
    match last_setting(settings, files[i]) {
        None => None,
        Some(k) => {
            let s = settings[k].1;
            let base = page_from_settings(s.page_type, s.double_page, s.bookmark@, i as i32);
            let kept = match last_page_with_image(previous, i) {
                Some(j) => PageView {
                    image_height: previous[j].image_height,
                    image_size: previous[j].image_size,
                    image_width: previous[j].image_width,
                    key: previous[j].key,
                    ..base
                },
                None => base,
            };
            Some(PageView { filename: Some(files[i]), ..kept })
        },
    }
}

/// The reconciled records of the first `n` images, in image order.
pub open spec fn reconciled(
    files: Seq<Seq<char>>,
    settings: Seq<(String, PageSettings)>,
    previous: Seq<PageView>,
    n: int,
) -> Seq<PageView>
    decreases n,
{
    if n <= 0 {
        Seq::empty()
    } else {
        let rest = reconciled(files, settings, previous, n - 1);
        match reconciled_page(files, settings, previous, n - 1) {
            Some(p) => rest.push(p),
            None => rest,
        }
    }
}

proof fn lemma_last_setting_bounds(settings: Seq<(String, PageSettings)>, name: Seq<char>)
    ensures
        last_setting(settings, name) matches Some(k) ==> 0 <= k < settings.len() && settings[k].0@ == name,
    decreases settings.len(),
{
    if settings.len() > 0 && settings.last().0@ != name {
        lemma_last_setting_bounds(settings.drop_last(), name);
    }
}

proof fn lemma_last_page_bounds(pages: Seq<PageView>, image: int)
    ensures
        last_page_with_image(pages, image) matches Some(k) ==> 0 <= k < pages.len() && pages[k].image == image,
    decreases pages.len(),
{
    if pages.len() > 0 && pages.last().image != image {
        lemma_last_page_bounds(pages.drop_last(), image);
    }
}

/// Whether image name `f` has settings.
pub open spec fn has_settings(settings: Seq<(String, PageSettings)>, f: Seq<char>) -> bool {
    last_setting(settings, f) is Some
}

/// Record `p` is the one for the image at position `i`: it carries that
/// image's name and submitted settings and the stored record's size,
/// dimensions and key.
pub open spec fn record_for_image(
    files: Seq<Seq<char>>,
    settings: Seq<(String, PageSettings)>,
    previous: Seq<PageView>,
    p: PageView,
    i: int,
) -> bool {
    &&& p.image == i
    &&& p.filename == Some(files[i])
    &&& last_setting(settings, files[i]) matches Some(j) && {
        let s = settings[j].1;
        &&& p.bookmark == s.bookmark@
        &&& p.double_page == s.double_page
        &&& p.type_ == (if s.page_type == ComicPageType::Other { None } else { Some(s.page_type) })
    }
    &&& last_page_with_image(previous, i) matches Some(q) ==> {
        &&& p.image_width == previous[q].image_width
        &&& p.image_height == previous[q].image_height
        &&& p.image_size == previous[q].image_size
        &&& p.key == previous[q].key
    }
}

/// Record `p` is the one for some image among the first `n`.
pub open spec fn is_record_of_some_image(
    files: Seq<Seq<char>>,
    settings: Seq<(String, PageSettings)>,
    previous: Seq<PageView>,
    p: PageView,
    n: int,
) -> bool {
    exists|i: int| 0 <= i < n && #[trigger] record_for_image(files, settings, previous, p, i)
}

/// Deletion by omission: the reconciled list holds one record for each image
/// whose name has settings and none for the others; each record carries the
/// submitted type, double-page flag and bookmark, and the size, dimensions and
/// key of the stored record for its index, where there is one.
pub proof fn lemma_deletion_by_omission(
    files: Seq<Seq<char>>,
    settings: Seq<(String, PageSettings)>,
    previous: Seq<PageView>,
    n: int,
)
    requires
        0 <= n <= files.len(),
        files.len() <= i32::MAX,
    ensures
        reconciled(files, settings, previous, n).len()
            == files.subrange(0, n).filter(|f: Seq<char>| has_settings(settings, f)).len(),
        forall|k: int| 0 <= k < reconciled(files, settings, previous, n).len() ==>
            is_record_of_some_image(files, settings, previous, #[trigger] reconciled(files, settings, previous, n)[k], n),
    decreases n,
{
    reveal(Seq::filter);
        if n > 0 {
        lemma_deletion_by_omission(files, settings, previous, n - 1);
        assert(files.subrange(0, n).drop_last() =~= files.subrange(0, n - 1));
        assert(files.subrange(0, n).last() == files[n - 1]);
        let rest = reconciled(files, settings, previous, n - 1);
        let all = reconciled(files, settings, previous, n);
        assert forall|k: int| 0 <= k < all.len() implies
            is_record_of_some_image(files, settings, previous, #[trigger] all[k], n) by {
            if k < rest.len() {
                assert(all[k] == rest[k]);
                let i = choose|i: int| 0 <= i < n - 1 && #[trigger] record_for_image(files, settings, previous, rest[k], i);
                assert(record_for_image(files, settings, previous, all[k], i));
            } else {
                let i = n - 1;
                assert(all[k] == reconciled_page(files, settings, previous, i)->0);
                assert(record_for_image(files, settings, previous, all[k], i));
            }
        }
    }
}

/// The position of the last entry for `name`.
pub fn find_setting(settings: &SettingsByName, name: &str) -> (r: Option<usize>)
    ensures
        r is None <==> last_setting(settings@, name@) is None,
        r matches Some(k) ==> last_setting(settings@, name@) == Some(k as int),
        r matches Some(k) ==> k < settings@.len() && settings@[k as int].0@ == name@,
{
    proof { lemma_last_setting_bounds(settings@, name@); }
    let mut found: Option<usize> = None;
    let mut i: usize = 0;
    while i < settings.len()
        invariant
            i <= settings@.len(),
            match last_setting(settings@.subrange(0, i as int), name@) {
                Some(k) => found == Some(k as usize),
                None => found is None,
            },
        decreases settings@.len() - i,
    {
        assert(settings@.subrange(0, i + 1).drop_last() =~= settings@.subrange(0, i as int));
        if str_eq(settings[i].0.as_str(), name) {
            found = Some(i);
        }
        i = i + 1;
    }
    assert(settings@.subrange(0, settings@.len() as int) =~= settings@);
    found
}

/// The position of the last record for page index `image`.
pub fn find_page_with_image(pages: &Vec<ComicPageInfo>, image: i32) -> (r: Option<usize>)
    ensures
        r is None <==> last_page_with_image(pages_view(pages@), image as int) is None,
        r matches Some(k) ==> last_page_with_image(pages_view(pages@), image as int) == Some(k as int),
        r matches Some(k) ==> k < pages@.len() && pages@[k as int].image == image,
{
    proof { lemma_last_page_bounds(pages_view(pages@), image as int); }
    let mut found: Option<usize> = None;
    let mut i: usize = 0;
    while i < pages.len()
        invariant
            i <= pages@.len(),
            match last_page_with_image(pages_view(pages@.subrange(0, i as int)), image as int) {
                Some(k) => found == Some(k as usize),
                None => found is None,
            },
        decreases pages@.len() - i,
    {
        assert(pages_view(pages@.subrange(0, i + 1)).drop_last() =~= pages_view(pages@.subrange(0, i as int)));
        if pages[i].image == image {
            found = Some(i);
        }
        i = i + 1;
    }
    assert(pages@.subrange(0, pages@.len() as int) =~= pages@);
    found
}

/// Builds the new page list: one record for each image whose name has
/// settings, in image order; an image without settings gets no record.
pub fn build_page_list(
    sorted_files: &Vec<String>,
    page_settings: &SettingsByName,
    original_pages: &Vec<ComicPageInfo>,
) -> (r: Vec<ComicPageInfo>)
    requires
        sorted_files@.len() <= i32::MAX,
    ensures
        pages_view(r@) == reconciled(string_views(sorted_files@), page_settings@, pages_view(original_pages@), sorted_files@.len() as int),
        r@.len() == string_views(sorted_files@).filter(|f: Seq<char>| has_settings(page_settings@, f)).len(),
        forall|k: int| 0 <= k < r@.len() ==> is_record_of_some_image(
            string_views(sorted_files@),
            page_settings@,
            pages_view(original_pages@),
            #[trigger] pages_view(r@)[k],
            sorted_files@.len() as int,
        ),
{
    let mut out: Vec<ComicPageInfo> = Vec::new();
    let mut index: usize = 0;
    while index < sorted_files.len()
        invariant
            index <= sorted_files@.len(),
            sorted_files@.len() <= i32::MAX,
            pages_view(out@) == reconciled(string_views(sorted_files@), page_settings@, pages_view(original_pages@), index as int),
        decreases sorted_files@.len() - index,
    {
        let image_index = index as i32;
        let file_name = &sorted_files[index];
        let ghost before = out@;
        match find_setting(page_settings, file_name.as_str()) {
            Some(k) => {
                assert(string_views(sorted_files@)[index as int] == sorted_files@[index as int]@);
                assert(last_setting(page_settings@, sorted_files@[index as int]@) == Some(k as int));
                let settings = &page_settings[k].1;
                let mut page_info = ComicPageInfo::from_page_settings(
                    settings.page_type,
                    settings.double_page,
                    settings.bookmark.clone(),
                    image_index,
                );
                match find_page_with_image(original_pages, image_index) {
                    Some(j) => {
                        assert(last_page_with_image(pages_view(original_pages@), index as int) == Some(j as int));
                        let original = &original_pages[j];
                        page_info.image_height = original.image_height;
                        page_info.image_size = original.image_size;
                        page_info.image_width = original.image_width;
                        page_info.key = original.key.clone();
                    },
                    None => {
                        assert(last_page_with_image(pages_view(original_pages@), index as int) is None);
                    },
                }
                page_info.filename = Some(file_name.clone());
                assert(reconciled_page(string_views(sorted_files@), page_settings@, pages_view(original_pages@), index as int)
                    == Some(page_info@));
                out.push(page_info);
                assert(pages_view(out@) =~= pages_view(before).push(out@.last()@));
            },
            None => {},
        }
        index = index + 1;
    }
    proof {
        let files = string_views(sorted_files@);
        lemma_deletion_by_omission(files, page_settings@, pages_view(original_pages@), files.len() as int);
        assert(files.subrange(0, files.len() as int) =~= files);
    }
    out
}

} // verus!

verus! {

/// The position of the last stored record for page index `image` that
/// carries a file name.
pub open spec fn last_named_page(pages: Seq<PageView>, image: int) -> Option<int>
    decreases pages.len(),
{
    if pages.len() == 0 {
        None
    } else if pages.last().image == image && pages.last().filename is Some {
        Some(pages.len() - 1)
    } else {
        last_named_page(pages.drop_last(), image)
    }
}

proof fn lemma_last_named_page_bounds(pages: Seq<PageView>, image: int)
    ensures
        last_named_page(pages, image) matches Some(k) ==> 0 <= k < pages.len()
            && pages[k].image == image && pages[k].filename is Some,
    decreases pages.len(),
{
    if pages.len() > 0 && !(pages.last().image == image && pages.last().filename is Some) {
        lemma_last_named_page_bounds(pages.drop_last(), image);
    }
}

/// `p` with its file name replaced by `f`.
pub open spec fn with_filename(p: PageView, f: Option<Seq<char>>) -> PageView {
    PageView { filename: f, ..p }
}

/// The file name that the stored records give page `p`, by page index.
pub open spec fn restored_filename(existing: Seq<PageView>, p: PageView) -> Option<Seq<char>> {
    match last_named_page(existing, p.image as int) {
        Some(j) => existing[j].filename,
        None => p.filename,
    }
}

/// The file name that the image list gives page `p`, by position, where it
/// has none.
pub open spec fn populated_filename(files: Seq<Seq<char>>, p: PageView) -> Option<Seq<char>> {
    if p.filename is None && 0 <= p.image < files.len() {
        Some(files[p.image as int])
    } else {
        p.filename
    }
}

/// Copies file names forward from the stored records: each page whose index
/// has a named stored record takes that record's file name.
pub fn restore_filenames_from_existing_pages(pages: &mut Vec<ComicPageInfo>, existing: &Vec<ComicPageInfo>)
    ensures
        final(pages)@.len() == old(pages)@.len(),
        forall|i: int| 0 <= i < old(pages)@.len() ==> #[trigger] final(pages)@[i]@
            == with_filename(old(pages)@[i]@, restored_filename(pages_view(existing@), old(pages)@[i]@)),
{
    let mut out: Vec<ComicPageInfo> = Vec::new();
    let mut i: usize = 0;
    while i < pages.len()
        invariant
            i <= pages@.len(),
            pages@ == old(pages)@,
            out@.len() == i,
            forall|k: int| 0 <= k < i ==> #[trigger] out@[k]@
                == with_filename(pages@[k]@, restored_filename(pages_view(existing@), pages@[k]@)),
        decreases pages@.len() - i,
    {
        let mut page = pages[i].copy();
        let mut found: Option<usize> = None;
        let mut k: usize = 0;
        while k < existing.len()
            invariant
                k <= existing@.len(),
                match last_named_page(pages_view(existing@.subrange(0, k as int)), page.image as int) {
                    Some(m) => found == Some(m as usize),
                    None => found is None,
                },
            decreases existing@.len() - k,
        {
            assert(pages_view(existing@.subrange(0, k + 1)).drop_last() =~= pages_view(existing@.subrange(0, k as int)));
            if existing[k].image == page.image && existing[k].filename.is_some() {
                found = Some(k);
            }
            k = k + 1;
        }
        assert(existing@.subrange(0, existing@.len() as int) =~= existing@);
        proof { lemma_last_named_page_bounds(pages_view(existing@), page.image as int); }
        match found {
            Some(m) => {
                page.filename = clone_opt_string(&existing[m].filename);
            },
            None => {},
        }
        out.push(page);
        i = i + 1;
    }
    *pages = out;
}

/// Gives each page without a file name the name of the image at its index in
/// the sorted image list, where that index is in range.
pub fn populate_filenames_from_archive(pages: &mut Vec<ComicPageInfo>, sorted_files: &Vec<String>)
    ensures
        final(pages)@.len() == old(pages)@.len(),
        forall|i: int| 0 <= i < old(pages)@.len() ==> #[trigger] final(pages)@[i]@
            == with_filename(old(pages)@[i]@, populated_filename(string_views(sorted_files@), old(pages)@[i]@)),
{
    let mut out: Vec<ComicPageInfo> = Vec::new();
    let mut i: usize = 0;
    while i < pages.len()
        invariant
            i <= pages@.len(),
            pages@ == old(pages)@,
            out@.len() == i,
            forall|k: int| 0 <= k < i ==> #[trigger] out@[k]@
                == with_filename(pages@[k]@, populated_filename(string_views(sorted_files@), pages@[k]@)),
        decreases pages@.len() - i,
    {
        let mut page = pages[i].copy();
        if page.filename.is_none() && page.image >= 0 && (page.image as usize) < sorted_files.len() {
            page.filename = Some(sorted_files[page.image as usize].clone());
        }
        out.push(page);
        i = i + 1;
    }
    *pages = out;
}

} // verus!

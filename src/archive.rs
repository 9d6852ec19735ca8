//! Archive-level logic: which entries are images, the page order, reading
//! the listing and metadata of a container held in memory, and rewriting a
//! container with one entry replaced or removed. Files on disk are the
//! caller's business.
use vstd::prelude::*;
use vstd::string::StringSliceAdditionalSpecFns;
use crate::info::{ComicInfo, InfoView, default_view, doc_text, string_views};
use crate::reconcile::{populate_filenames_from_archive, restore_filenames_from_existing_pages, with_filename, restored_filename, populated_filename};
use crate::page::{ComicPageInfo, Pages, pages_view};
use crate::parse::{ComicInfoParseError, parse_spec};
use crate::reconcile::{SettingsByName, build_page_list, reconciled};
use crate::text::{ends_with, str_eq, string_of};
use std::io::{Cursor, Read, Write};
use zip::write::SimpleFileOptions;
use zip::{CompressionMethod, ZipArchive, ZipWriter};

verus! {

/// The name of the metadata entry.
pub const COMIC_INFO_ENTRY: &'static str = "ComicInfo.xml";

/// What `str::to_lowercase` gives for a text.
pub uninterp spec fn lower_of(s: Seq<char>) -> Seq<char>;

/// Relies on `str::to_lowercase`, whose result depends on the text alone.
#[verifier::external_body]
fn lowercase(s: &str) -> (r: String)
    ensures
        r@ == lower_of(s@),
{
    s.to_lowercase()
}

/// Whether a lower-case name ends in one of the image extensions.
pub open spec fn has_image_extension(lower: Seq<char>) -> bool {
    crate::text::seq_ends_with(lower, ".jpg"@) || crate::text::seq_ends_with(lower, ".jpeg"@)
        || crate::text::seq_ends_with(lower, ".png"@) || crate::text::seq_ends_with(lower, ".gif"@)
        || crate::text::seq_ends_with(lower, ".bmp"@) || crate::text::seq_ends_with(lower, ".webp"@)
}

/// Whether an entry name is an image's: its extension, compared without
/// regard to case, is one of jpg, jpeg, png, gif, bmp, webp.
pub open spec fn is_image_name(name: Seq<char>) -> bool {
    has_image_extension(lower_of(name))
}

/// Whether an already lower-cased name ends in an image extension.
pub fn image_extension(lower: &str) -> (r: bool)
    ensures
        r == has_image_extension(lower@),
{
    ends_with(lower, ".jpg") || ends_with(lower, ".jpeg") || ends_with(lower, ".png")
        || ends_with(lower, ".gif") || ends_with(lower, ".bmp") || ends_with(lower, ".webp")
}

/// Whether an entry name is an image's.
pub fn is_image_file(name: &str) -> (r: bool)
    ensures
        r == is_image_name(name@),
{
    let lower = lowercase(name);
    image_extension(lower.as_str())
}

/// Lexicographic order of texts by character, the order of `str`'s `Ord`.
pub open spec fn text_lt(a: Seq<char>, b: Seq<char>) -> bool
    decreases a.len(),
{
    if a.len() == 0 {
        b.len() > 0
    } else if b.len() == 0 {
        false
    } else if a[0] != b[0] {
        a[0] < b[0]
    } else {
        text_lt(a.skip(1), b.skip(1))
    }
}

/// Whether `v` is in non-decreasing order.
pub open spec fn is_sorted_texts(v: Seq<Seq<char>>) -> bool {
    forall|i: int, j: int| 0 <= i < j < v.len() ==> !text_lt(#[trigger] v[j], #[trigger] v[i])
}

/// Relies on `slice::sort` over `String`: the same names, in ascending order.
#[verifier::external_body]
fn sort_names(v: Vec<String>) -> (r: Vec<String>)
    ensures
        string_views(r@).to_multiset() == string_views(v@).to_multiset(),
        is_sorted_texts(string_views(r@)),
{
    let mut v = v;
    v.sort();
    v
}

/// The image names among `names`, in their order.
pub open spec fn image_names(names: Seq<Seq<char>>) -> Seq<Seq<char>> {
    names.filter(|n: Seq<char>| is_image_name(n))
}

/// Whether `sorted` is the canonical page order of the image entries among
/// `names`: the same image names, sorted.
pub open spec fn is_page_order(names: Seq<Seq<char>>, sorted: Seq<Seq<char>>) -> bool {
    &&& sorted.to_multiset() == image_names(names).to_multiset()
    &&& is_sorted_texts(sorted)
}

/// The image entry names, sorted: index `i` of the result is page `i`.
pub fn sorted_image_names(names: &Vec<String>) -> (r: Vec<String>)
    ensures
        is_page_order(string_views(names@), string_views(r@)),
{
    let mut images: Vec<String> = Vec::new();
    let mut i: usize = 0;
    while i < names.len()
        invariant
            i <= names@.len(),
            string_views(images@) == image_names(string_views(names@.subrange(0, i as int))),
        decreases names@.len() - i,
    {
        let ghost prefix = string_views(names@.subrange(0, i + 1));
        assert(prefix.drop_last() =~= string_views(names@.subrange(0, i as int)));
        reveal(Seq::filter);
        if is_image_file(names[i].as_str()) {
            images.push(names[i].clone());
            assert(string_views(images@) =~= string_views(images@.drop_last()).push(names@[i as int]@));
        }
        i = i + 1;
    }
    assert(names@.subrange(0, names@.len() as int) =~= names@);
    sort_names(images)
}

/// The entry names of a zip container, in directory order; `None` where
/// `zip` cannot read it as a container.
pub uninterp spec fn zip_names_of(container: Seq<u8>) -> Option<Seq<Seq<char>>>;

/// The stored (for a compressed entry, still compressed) data of entry `i`.
pub uninterp spec fn zip_stored_data_of(container: Seq<u8>, i: int) -> Seq<u8>;

/// What reading the entry `name` as text gives: `Some(None)` where there is
/// no such entry, `None` where the entry cannot be opened or read (an
/// encrypted entry, an unsupported method, text that is not UTF-8).
pub uninterp spec fn zip_entry_text_of(container: Seq<u8>, name: Seq<char>) -> Option<Option<Seq<char>>>;

/// The entry names of a container whose entries all open, in directory
/// order; `None` where `zip` cannot read it or open one of its entries.
pub uninterp spec fn zip_listing_of(container: Seq<u8>) -> Option<Seq<Seq<char>>>;

/// Relies on `zip::ZipArchive::new`, `len`, and `by_index` with
/// `ZipFile::name` (the same names as `name_for_index`).
#[verifier::external_body]
fn zip_listing(container: &Vec<u8>) -> (r: Result<Vec<String>, String>)
    ensures
        r is Ok <==> zip_listing_of(container@) is Some,
        r matches Ok(v) ==> zip_listing_of(container@) == Some(string_views(v@)),
        r matches Ok(v) ==> zip_names_of(container@) == Some(string_views(v@)),
{
    let mut archive = ZipArchive::new(Cursor::new(container.as_slice())).map_err(|e| e.to_string())?;
    (0..archive.len()).map(|i| archive.by_index(i).map(|f| f.name().to_string()).map_err(|e| e.to_string())).collect()
}

/// Relies on `zip::ZipArchive::new`, `len` and `name_for_index`.
#[verifier::external_body]
fn zip_entry_names(container: &Vec<u8>) -> (r: Result<Vec<String>, String>)
    ensures
        r is Ok <==> zip_names_of(container@) is Some,
        r matches Ok(v) ==> zip_names_of(container@) == Some(string_views(v@)),
{
    let archive = ZipArchive::new(Cursor::new(container.as_slice())).map_err(|e| e.to_string())?;
    Ok((0..archive.len()).map(|i| archive.name_for_index(i).unwrap_or_default().to_string()).collect())
}

/// Relies on `zip::ZipArchive::by_name`, whose `FileNotFound` error means no
/// such entry, and `Read::read_to_string`.
#[verifier::external_body]
fn zip_entry_text(container: &Vec<u8>, name: &str) -> (r: Result<Option<String>, String>)
    ensures
        r is Ok <==> zip_entry_text_of(container@, name@) is Some,
        r matches Ok(t) ==> zip_entry_text_of(container@, name@) == Some(crate::page::opt_view(t)),
{
    let mut archive = ZipArchive::new(Cursor::new(container.as_slice())).map_err(|e| e.to_string())?;
    let mut entry = match archive.by_name(name) {
        Ok(entry) => entry,
        Err(zip::result::ZipError::FileNotFound) => return Ok(None),
        Err(e) => return Err(e.to_string()),
    };
    let mut text = String::new();
    entry.read_to_string(&mut text).map_err(|e| e.to_string())?;
    Ok(Some(text))
}

/// The compression method code and the CRC-32 of entry `i`.
pub uninterp spec fn zip_entry_meta_of(container: Seq<u8>, i: int) -> (u16, u32);

/// Whether writing a container from the entries `keep` of `container`, in
/// that order, and then `added` (name and content) with compression method
/// code `method` succeeds.
pub uninterp spec fn zip_copy_ok(container: Seq<u8>, keep: Seq<usize>, added: Option<(Seq<char>, Seq<u8>)>, method: u16) -> bool;

/// How a newly written entry is compressed.
#[derive(Debug, Clone, Copy, PartialEq, Eq, Structural)]
pub enum EntryCompression {
    Stored,
    Deflated,
}

/// The zip method code of a compression.
pub open spec fn method_code(m: EntryCompression) -> u16 {
    match m {
        EntryCompression::Stored => 0,
        EntryCompression::Deflated => 8,
    }
}

pub open spec fn added_view(added: Option<(&str, &[u8])>) -> Option<(Seq<char>, Seq<u8>)> {
    match added {
        Some(a) => Some((a.0@, a.1@)),
        None => None,
    }
}

pub open spec fn picked_names(names: Seq<Seq<char>>, picks: Seq<usize>) -> Seq<Seq<char>> {
    picks.map_values(|i: usize| names[i as int])
}

/// Relies on `zip::ZipWriter::raw_copy_file` with `ZipArchive::by_index_raw`
/// (the entry is copied without recompression, with its method and CRC),
/// on `start_file` with the given method and `Write::write_all`, and on
/// `finish`. In memory and without timestamps, the outcome depends on the
/// arguments alone.
#[verifier::external_body]
fn zip_copy_with_entry(
    container: &Vec<u8>,
    keep: &Vec<usize>,
    added: Option<(&str, &[u8])>,
    method: EntryCompression,
) -> (r: Result<Vec<u8>, String>)
    ensures
        r matches Ok(out) ==> zip_names_of(container@) matches Some(names)
            && zip_names_of(out@) == Some(picked_names(names, keep@) + match added {
                Some(a) => seq![a.0@],
                None => Seq::<Seq<char>>::empty(),
            }),
        r matches Ok(out) ==> forall|k: int| 0 <= k < keep@.len()
            ==> #[trigger] zip_stored_data_of(out@, k) == zip_stored_data_of(container@, keep@[k] as int),
        r matches Ok(out) ==> (added matches Some(a) ==> (method == EntryCompression::Stored
            ==> zip_stored_data_of(out@, keep@.len() as int) == a.1@)),
        r is Ok <==> zip_copy_ok(container@, keep@, added_view(added), method_code(method)),
        r matches Ok(out) ==> forall|k: int| 0 <= k < keep@.len()
            ==> #[trigger] zip_entry_meta_of(out@, k) == zip_entry_meta_of(container@, keep@[k] as int),
        r matches Ok(out) ==> (added is Some ==> zip_entry_meta_of(out@, keep@.len() as int).0 == method_code(method)),
{
    let err = |e: zip::result::ZipError| e.to_string();
    let mut src = ZipArchive::new(Cursor::new(container.as_slice())).map_err(err)?;
    let mut out = ZipWriter::new(Cursor::new(Vec::new()));
    for &i in keep.iter() {
        out.raw_copy_file(src.by_index_raw(i).map_err(err)?).map_err(err)?;
    }
    if let Some((name, data)) = added {
        let method = match method {
            EntryCompression::Stored => CompressionMethod::Stored,
            EntryCompression::Deflated => CompressionMethod::Deflated,
        };
        out.start_file(name, SimpleFileOptions::default().compression_method(method)).map_err(err)?;
        out.write_all(data).map_err(|e| e.to_string())?;
    }
    Ok(out.finish().map_err(err)?.into_inner())
}

/// An entry as stored: its (for a compressed entry, still compressed) data,
/// compression method code and CRC-32.
pub struct StoredEntry {
    pub data: Vec<u8>,
    pub method: u16,
    pub crc32: u32,
}

/// Relies on `zip::ZipArchive::by_index_raw`, which reads an entry without
/// decompressing it, with `ZipFile::compression` and `ZipFile::crc32`.
#[verifier::external_body]
#[allow(deprecated)]
fn zip_stored_entry(container: &Vec<u8>, index: usize) -> (r: Result<StoredEntry, String>)
    ensures
        r matches Ok(e) ==> e.data@ == zip_stored_data_of(container@, index as int),
        r matches Ok(e) ==> (e.method, e.crc32) == zip_entry_meta_of(container@, index as int),
{
    let mut archive = ZipArchive::new(Cursor::new(container.as_slice())).map_err(|e| e.to_string())?;
    let mut entry = archive.by_index_raw(index).map_err(|e| e.to_string())?;
    let mut data = Vec::new();
    entry.read_to_end(&mut data).map_err(|e| e.to_string())?;
    Ok(StoredEntry { data, method: entry.compression().to_u16(), crc32: entry.crc32() })
}

/// Entry `index` of a container as stored, where it can be read.
pub fn stored_entry(container: &Vec<u8>, index: usize) -> (r: Result<StoredEntry, String>)
    ensures
        r matches Ok(e) ==> e.data@ == zip_stored_data_of(container@, index as int),
        r matches Ok(e) ==> (e.method, e.crc32) == zip_entry_meta_of(container@, index as int),
{
    zip_stored_entry(container, index)
}

/// The positions of the entries not named `target`, in order.
pub open spec fn kept_positions(names: Seq<Seq<char>>, target: Seq<char>) -> Seq<usize>
    decreases names.len(),
{
    if names.len() == 0 {
        Seq::empty()
    } else {
        let rest = kept_positions(names.drop_last(), target);
        if names.last() == target {
            rest
        } else {
            rest.push((names.len() - 1) as usize)
        }
    }
}

/// What a rewrite guarantees of its output `out`: the entries not named
/// `target` come first, in their order and with their stored data,
/// compression method and CRC unchanged, followed by `target` holding
/// `replacement`, stored uncompressed (method 0), where there is one.
pub open spec fn is_rewrite(container: Seq<u8>, target: Seq<char>, replacement: Option<Seq<u8>>, out: Seq<u8>) -> bool {
    zip_names_of(container) matches Some(names) && {
        let kept = kept_positions(names, target);
        &&& zip_names_of(out) == Some(picked_names(names, kept) + match replacement {
            Some(_) => seq![target],
            None => Seq::<Seq<char>>::empty(),
        })
        &&& forall|k: int| 0 <= k < kept.len()
            ==> #[trigger] zip_stored_data_of(out, k) == zip_stored_data_of(container, kept[k] as int)
        &&& forall|k: int| 0 <= k < kept.len()
            ==> #[trigger] zip_entry_meta_of(out, k) == zip_entry_meta_of(container, kept[k] as int)
        &&& replacement matches Some(b) ==> zip_stored_data_of(out, kept.len() as int) == b
        &&& replacement is Some ==> zip_entry_meta_of(out, kept.len() as int).0 == 0
    }
}

/// Whether rewriting `container` with `target` replaced by `replacement` (or
/// removed) goes through: it reads as a container and `zip` writes the copy.
pub open spec fn rewrite_succeeds(container: Seq<u8>, target: Seq<char>, replacement: Option<Seq<u8>>) -> bool {
    zip_names_of(container) matches Some(names) && zip_copy_ok(
        container,
        kept_positions(names, target),
        match replacement {
            Some(b) => Some((target, b)),
            None => None,
        },
        method_code(EntryCompression::Stored),
    )
}

/// The positions of the entries not named `entry_name`, in order.
pub fn kept_entry_positions(names: &Vec<String>, entry_name: &str) -> (r: Vec<usize>)
    ensures
        r@ == kept_positions(string_views(names@), entry_name@),
{
    let mut keep: Vec<usize> = Vec::new();
    let mut i: usize = 0;
    while i < names.len()
        invariant
            i <= names@.len(),
            keep@ == kept_positions(string_views(names@.subrange(0, i as int)), entry_name@),
        decreases names@.len() - i,
    {
        let ghost prefix = string_views(names@.subrange(0, i + 1));
        assert(prefix.drop_last() =~= string_views(names@.subrange(0, i as int)));
        if !str_eq(names[i].as_str(), entry_name) {
            keep.push(i);
        }
        i = i + 1;
    }
    assert(names@.subrange(0, names@.len() as int) =~= names@);
    keep
}

/// Writes a new container holding every entry of `container` but the one
/// named `entry_name`, copied as stored, then `entry_name` holding
/// `replacement` uncompressed where one is given.
pub fn rewrite_container(container: &Vec<u8>, entry_name: &str, replacement: Option<&[u8]>) -> (r: Result<Vec<u8>, String>)
    ensures
        r matches Ok(out) ==> is_rewrite(container@, entry_name@, match replacement {
            Some(b) => Some(b@),
            None => None,
        }, out@),
        r is Ok <==> rewrite_succeeds(container@, entry_name@, match replacement {
            Some(b) => Some(b@),
            None => None,
        }),
{
    let names = zip_entry_names(container)?;
    let keep = kept_entry_positions(&names, entry_name);
    let added = match replacement {
        Some(b) => Some((entry_name, b)),
        None => None,
    };
    zip_copy_with_entry(container, &keep, added, EntryCompression::Stored)
}

/// Replaces (or adds) the metadata entry with `xml_content`, stored
/// uncompressed; every other entry is carried over byte for byte.
pub fn update_zip_with_comicinfo(container: &Vec<u8>, xml_content: &str) -> (r: Result<Vec<u8>, String>)
    ensures
        r matches Ok(out) ==> is_rewrite(container@, COMIC_INFO_ENTRY@, Some(xml_content.spec_bytes()), out@),
        r is Ok <==> rewrite_succeeds(container@, COMIC_INFO_ENTRY@, Some(xml_content.spec_bytes())),
{
    let bytes = xml_content.as_bytes();
    rewrite_container(container, COMIC_INFO_ENTRY, Some(bytes))
}

/// Removes the metadata entry; every other entry is carried over byte for
/// byte.
pub fn delete_comicinfo_xml(container: &Vec<u8>) -> (r: Result<Vec<u8>, String>)
    ensures
        r matches Ok(out) ==> is_rewrite(container@, COMIC_INFO_ENTRY@, None, out@),
        r is Ok <==> rewrite_succeeds(container@, COMIC_INFO_ENTRY@, None),
{
    rewrite_container(container, COMIC_INFO_ENTRY, None)
}

/// One entry of a container's listing.
pub struct ArchiveFile {
    pub name: String,
}

/// A container's listing, in directory order, and its metadata document.
pub struct Archive {
    pub files: Vec<ArchiveFile>,
    pub comic_info: Option<ComicInfo>,
}

pub open spec fn file_names(files: Seq<ArchiveFile>) -> Seq<Seq<char>> {
    files.map_values(|f: ArchiveFile| f.name@)
}

/// Why a container could not be read.
#[derive(Debug)]
pub enum ReadArchiveError {
    /// The container file does not exist.
    NotFound,
    Io(String),
    Zip(String),
    FailedToParseComicInfoXml(ComicInfoParseError),
}

/// The kind of a read failure.
pub enum ReadFailure {
    Zip,
    Io,
    Parse(ComicInfoParseError),
}

/// What reading a container gives: its listing and its document, or the
/// kind of failure; a present but unreadable document is an error, distinct
/// from no document.
pub open spec fn archive_read(container: Seq<u8>) -> Result<(Seq<Seq<char>>, Option<InfoView>), ReadFailure> {
    match zip_listing_of(container) {
        None => Err(ReadFailure::Zip),
        Some(names) => match zip_entry_text_of(container, COMIC_INFO_ENTRY@) {
            None => Err(ReadFailure::Io),
            Some(None) => Ok((names, None)),
            Some(Some(t)) => match parse_spec(t) {
                Ok(v) => Ok((names, Some(v))),
                Err(e) => Err(ReadFailure::Parse(e)),
            },
        },
    }
}

/// Whether a read result agrees with `archive_read` (error messages aside).
pub open spec fn read_agrees(container: Seq<u8>, r: Result<Archive, ReadArchiveError>) -> bool {
    match archive_read(container) {
        Ok((names, doc)) => r matches Ok(a) && file_names(a.files@) == names && match a.comic_info {
            Some(d) => doc == Some(d@),
            None => doc is None,
        },
        Err(ReadFailure::Zip) => r matches Err(ReadArchiveError::Zip(_)),
        Err(ReadFailure::Io) => r matches Err(ReadArchiveError::Io(_)),
        Err(ReadFailure::Parse(e)) => r matches Err(ReadArchiveError::FailedToParseComicInfoXml(f)) && e == f,
    }
}

/// Reads a container's listing and metadata document.
pub fn read_archive(container: &Vec<u8>) -> (r: Result<Archive, ReadArchiveError>)
    ensures
        read_agrees(container@, r),
{
    let names = match zip_listing(container) {
        Ok(v) => v,
        Err(m) => return Err(ReadArchiveError::Zip(m)),
    };
    let mut files: Vec<ArchiveFile> = Vec::new();
    let mut i: usize = 0;
    while i < names.len()
        invariant
            i <= names@.len(),
            file_names(files@) == string_views(names@.subrange(0, i as int)),
        decreases names@.len() - i,
    {
        let ghost before = files@;
        files.push(ArchiveFile { name: names[i].clone() });
        assert(file_names(files@) =~= file_names(before).push(names@[i as int]@));
        assert(string_views(names@.subrange(0, i + 1)) =~= string_views(names@.subrange(0, i as int)).push(names@[i as int]@));
        i = i + 1;
    }
    assert(names@.subrange(0, names@.len() as int) =~= names@);
    let comic_info = match zip_entry_text(container, COMIC_INFO_ENTRY) {
        Err(m) => return Err(ReadArchiveError::Io(m)),
        Ok(None) => None,
        Ok(Some(text)) => match ComicInfo::parse(text.as_str()) {
            Ok(d) => Some(d),
            Err(e) => return Err(ReadArchiveError::FailedToParseComicInfoXml(e)),
        },
    };
    Ok(Archive { files, comic_info })
}

pub fn archive_file_names(archive: &Archive) -> (r: Vec<String>)
    ensures
        string_views(r@) == file_names(archive.files@),
{
    let mut out: Vec<String> = Vec::new();
    let mut i: usize = 0;
    while i < archive.files.len()
        invariant
            i <= archive.files@.len(),
            string_views(out@) == file_names(archive.files@.subrange(0, i as int)),
        decreases archive.files@.len() - i,
    {
        let ghost before = out@;
        out.push(archive.files[i].name.clone());
        assert(string_views(out@) =~= string_views(before).push(archive.files@[i as int].name@));
        assert(file_names(archive.files@.subrange(0, i + 1)) =~= file_names(archive.files@.subrange(0, i as int)).push(archive.files@[i as int].name@));
        i = i + 1;
    }
    assert(archive.files@.subrange(0, archive.files@.len() as int) =~= archive.files@);
    out
}

/// The stored page records of a document, none where it has no page list.
pub open spec fn stored_pages(doc: InfoView) -> Seq<crate::page::PageView> {
    match doc.pages {
        Some(ps) => ps,
        None => Seq::empty(),
    }
}

/// The document after a page-settings save: the stored document (or an
/// empty one) with its page list replaced by the reconciled list.
pub open spec fn document_after_settings(
    stored: Option<InfoView>,
    sorted: Seq<Seq<char>>,
    settings: Seq<(String, crate::reconcile::PageSettings)>,
) -> InfoView {
    let base = match stored {
        Some(d) => d,
        None => default_view(),
    };
    InfoView { pages: Some(reconciled(sorted, settings, stored_pages(base), sorted.len() as int)), ..base }
}

/// Saves page settings into a container held in memory: reads its listing
/// and document, reconciles the page list (deletion by omission), and
/// rewrites the metadata entry. Returns the new container.
pub fn save_page_settings_impl(container: &Vec<u8>, page_settings: &SettingsByName) -> (r: Result<Vec<u8>, String>)
    ensures
        archive_read(container@) is Err ==> r is Err,
        r matches Ok(out) ==> archive_read(container@) matches Ok((names, stored)) && exists|sorted: Seq<Seq<char>>|
            #[trigger] is_page_order(names, sorted) && is_rewrite(
                container@,
                COMIC_INFO_ENTRY@,
                Some(vstd::utf8::encode_utf8(doc_text(document_after_settings(stored, sorted, page_settings@)))),
                out@,
            ),
        archive_read(container@) matches Ok((names, _)) && image_names(names).len() > i32::MAX
            ==> (r matches Err(m) && m@ == "Too many images"@),
        (archive_read(container@) matches Ok((names, stored)) && image_names(names).len() <= i32::MAX
            && forall|sorted: Seq<Seq<char>>| #[trigger] is_page_order(names, sorted) ==> rewrite_succeeds(
                container@,
                COMIC_INFO_ENTRY@,
                Some(vstd::utf8::encode_utf8(doc_text(document_after_settings(stored, sorted, page_settings@)))),
            )) ==> r is Ok,
{
    let archive = match read_archive(container) {
        Ok(a) => a,
        Err(_) => return Err(string_of("Failed to read archive")),
    };
    let names = archive_file_names(&archive);
    let sorted = sorted_image_names(&names);
    proof {
        vstd::seq_lib::to_multiset_len(string_views(sorted@));
        vstd::seq_lib::to_multiset_len(image_names(string_views(names@)));
    }
    if sorted.len() > i32::MAX as usize {
        proof { reveal_strlit("Too many images"); }
        return Err(string_of("Too many images"));
    }
    let mut doc = match archive.comic_info {
        Some(d) => d,
        None => ComicInfo::default(),
    };
    let previous: Vec<ComicPageInfo> = match &doc.pages {
        Some(p) => copy_pages(&p.page),
        None => Vec::new(),
    };
    assert(pages_view(previous@) == stored_pages(doc@));
    let page = build_page_list(&sorted, page_settings, &previous);
    doc.pages = Some(Pages { page });
    let xml = match doc.to_xml() {
        Ok(t) => t,
        Err(_) => return Err(String::new()),
    };
    update_zip_with_comicinfo(container, xml.as_str())
}

fn copy_pages(v: &Vec<ComicPageInfo>) -> (r: Vec<ComicPageInfo>)
    ensures
        pages_view(r@) == pages_view(v@),
{
    let mut out: Vec<ComicPageInfo> = Vec::new();
    let mut i: usize = 0;
    while i < v.len()
        invariant
            i <= v@.len(),
            pages_view(out@) == pages_view(v@.subrange(0, i as int)),
        decreases v@.len() - i,
    {
        let ghost before = out@;
        out.push(v[i].copy());
        assert(pages_view(out@) =~= pages_view(before).push(v@[i as int]@));
        assert(pages_view(v@.subrange(0, i + 1)) =~= pages_view(v@.subrange(0, i as int)).push(v@[i as int]@));
        i = i + 1;
    }
    assert(v@.subrange(0, v@.len() as int) =~= v@);
    out
}

/// A page of an edited document with its file name recovered: first from
/// the stored record for its index, then from the image at its index.
pub open spec fn named_page(p: crate::page::PageView, existing: Seq<crate::page::PageView>, sorted: Seq<Seq<char>>) -> crate::page::PageView {
    let restored = with_filename(p, restored_filename(existing, p));
    with_filename(restored, populated_filename(sorted, restored))
}

/// An edited document with the file names of its pages recovered.
pub open spec fn document_after_edit(v: InfoView, stored: Option<InfoView>, sorted: Seq<Seq<char>>) -> InfoView {
    let existing = match stored {
        Some(d) => stored_pages(d),
        None => Seq::empty(),
    };
    match v.pages {
        Some(ps) => InfoView {
            pages: Some(Seq::new(ps.len(), |i: int| named_page(ps[i], existing, sorted))),
            ..v
        },
        None => v,
    }
}

/// Saves an edited document into a container held in memory: the text must
/// read and validate; file names are recovered for its pages; the metadata
/// entry is rewritten in canonical form. Returns that form and the new
/// container.
pub fn save_comicinfo_xml_impl(container: &Vec<u8>, xml: &str) -> (r: Result<(String, Vec<u8>), String>)
    ensures
        parse_spec(xml@) is Err ==> r is Err,
        (parse_spec(xml@) matches Ok(v) && !crate::info::pages_nonnegative(v.pages)) ==> r is Err,
        archive_read(container@) is Err ==> r is Err,
        r matches Ok((t, out)) ==> parse_spec(xml@) matches Ok(v) && archive_read(container@) matches Ok((names, stored))
            && exists|sorted: Seq<Seq<char>>| #[trigger] is_page_order(names, sorted)
                && t@ == doc_text(document_after_edit(v, stored, sorted))
                && is_rewrite(container@, COMIC_INFO_ENTRY@, Some(vstd::utf8::encode_utf8(t@)), out@),
        (parse_spec(xml@) matches Ok(v) && (crate::info::pages_nonnegative(v.pages)
            && (archive_read(container@) matches Ok((names, stored))
            && forall|sorted: Seq<Seq<char>>| #[trigger] is_page_order(names, sorted) ==> rewrite_succeeds(
                container@,
                COMIC_INFO_ENTRY@,
                Some(vstd::utf8::encode_utf8(doc_text(document_after_edit(v, stored, sorted)))),
            )))) ==> r is Ok,
{
    let mut doc = match ComicInfo::parse(xml) {
        Ok(d) => d,
        Err(e) => {
            let mut m = string_of("Parse error: ");
            crate::text::push_str(&mut m, e.message());
            return Err(m);
        },
    };
    match doc.validate() {
        Ok(()) => {},
        Err(_) => return Err(string_of("ComicInfo validation failed: Page image index must be non-negative")),
    }
    let archive = match read_archive(container) {
        Ok(a) => a,
        Err(_) => return Err(string_of("Failed to read archive")),
    };
    let names = archive_file_names(&archive);
    let sorted = sorted_image_names(&names);
    let existing: Vec<ComicPageInfo> = match &archive.comic_info {
        Some(ci) => match &ci.pages {
            Some(p) => copy_pages(&p.page),
            None => Vec::new(),
        },
        None => Vec::new(),
    };
    let ghost stored_existing = pages_view(existing@);
    let ghost stored = match archive.comic_info {
        Some(ci) => Some(ci@),
        None => None::<InfoView>,
    };
    assert(stored_existing == match stored {
        Some(d) => stored_pages(d),
        None => Seq::<crate::page::PageView>::empty(),
    });
    let ghost v = doc@;
    match doc.pages {
        Some(p) => {
            let mut pages = p.page;
            let ghost before = pages_view(pages@);
            assert(v.pages == Some(before));
            restore_filenames_from_existing_pages(&mut pages, &existing);
            populate_filenames_from_archive(&mut pages, &sorted);
            assert(pages_view(pages@) =~= Seq::new(before.len(), |i: int| named_page(before[i], stored_existing, string_views(sorted@))));
            doc.pages = Some(Pages { page: pages });
        },
        None => {},
    }
    assert(doc@ == document_after_edit(v, stored, string_views(sorted@)));
    let formatted = match doc.to_xml() {
        Ok(t) => t,
        Err(_) => return Err(String::new()),
    };
    let out = update_zip_with_comicinfo(container, formatted.as_str())?;
    Ok((formatted, out))
}

} // verus!

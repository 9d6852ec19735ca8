use cbz_meta::archive::{
    delete_comicinfo_xml, kept_entry_positions, read_archive, stored_entry, save_comicinfo_xml_impl, save_page_settings_impl,
    sorted_image_names, update_zip_with_comicinfo, ReadArchiveError,
};
use cbz_meta::info::ComicInfo;
use cbz_meta::page::ComicPageInfo;
use cbz_meta::reconcile::{build_page_list, PageSettings, SettingsByName};
use cbz_meta::response::{load_cbz_response, ErrorResponseType};
use cbz_meta::types::ComicPageType;
use std::io::{Read, Write};

fn make_zip(entries: &[(&str, &[u8], zip::CompressionMethod)]) -> Vec<u8> {
    let mut w = zip::ZipWriter::new(std::io::Cursor::new(Vec::new()));
    for (name, data, method) in entries {
        let options = zip::write::SimpleFileOptions::default().compression_method(*method);
        w.start_file(*name, options).expect("start file");
        w.write_all(data).expect("write data");
    }
    w.finish().expect("finish zip").into_inner()
}

fn stored(entries: &[(&str, &[u8])]) -> Vec<u8> {
    let v: Vec<(&str, &[u8], zip::CompressionMethod)> =
        entries.iter().map(|(n, d)| (*n, *d, zip::CompressionMethod::Stored)).collect();
    make_zip(&v)
}

fn entry_text(container: &[u8], name: &str) -> Option<String> {
    let mut archive = zip::ZipArchive::new(std::io::Cursor::new(container)).expect("open zip archive");
    let mut f = archive.by_name(name).ok()?;
    let mut s = String::new();
    f.read_to_string(&mut s).expect("read xml");
    Some(s)
}

fn entry_names(container: &[u8]) -> Vec<String> {
    let archive = zip::ZipArchive::new(std::io::Cursor::new(container)).expect("open zip archive");
    archive.file_names().map(|s| s.to_string()).collect()
}

fn raw_entry(container: &[u8], name: &str) -> (Vec<u8>, u32, u64, zip::CompressionMethod) {
    let mut archive = zip::ZipArchive::new(std::io::Cursor::new(container)).expect("open zip archive");
    let index = archive.index_for_name(name).expect("entry");
    let mut f = archive.by_index_raw(index).expect("raw entry");
    let mut data = Vec::new();
    f.read_to_end(&mut data).expect("read raw");
    (data, f.crc32(), f.compressed_size(), f.compression())
}

fn ps(page_type: ComicPageType, double_page: bool, bookmark: &str, image: i32) -> PageSettings {
    PageSettings { page_type, double_page, bookmark: bookmark.to_string(), image }
}

fn stored_pages(container: &[u8]) -> Vec<ComicPageInfo> {
    let xml = entry_text(container, "ComicInfo.xml").expect("comicinfo exists");
    let ci = ComicInfo::parse(&xml).expect("parse xml");
    ci.pages.map(|p| p.page).unwrap_or_default()
}

#[test]
fn test_save_page_settings_creates_comicinfo() {
    let zip = stored(&[("image1.jpg", b"fake image data"), ("image2.jpg", b"fake image data 2")]);
    let settings: SettingsByName = vec![
        ("image1.jpg".to_string(), ps(ComicPageType::FrontCover, false, "note-1", 0)),
        ("image2.jpg".to_string(), ps(ComicPageType::Story, true, "", 1)),
    ];
    let res = save_page_settings_impl(&zip, &settings);
    assert!(res.is_ok(), "save_page_settings failed: {:?}", res.as_ref().err());
    let pages = stored_pages(&res.unwrap());
    assert_eq!(pages.len(), 2);
    assert_eq!(pages[0].bookmark, "note-1");
    assert!(!pages[0].double_page);
    assert!(pages[1].double_page);
}

#[test]
fn test_save_page_settings_impl_creates_comicinfo() {
    let zip = stored(&[("image1.jpg", b"fake image data"), ("image2.jpg", b"fake image data 2")]);
    let settings: SettingsByName = vec![
        ("image1.jpg".to_string(), ps(ComicPageType::FrontCover, false, "note-1", 0)),
        ("image2.jpg".to_string(), ps(ComicPageType::Story, true, "", 1)),
    ];
    let out = save_page_settings_impl(&zip, &settings).expect("save_page_settings_impl failed");
    let pages = stored_pages(&out);
    assert_eq!(pages.len(), 2);
    assert_eq!(pages[0].bookmark, "note-1");
    assert!(!pages[0].double_page);
    assert!(pages[1].double_page);
}

#[test]
fn test_save_page_settings_impl_without_emitter() {
    let zip = stored(&[("image1.jpg", b"fake image data")]);
    let settings: SettingsByName = vec![("image1.jpg".to_string(), ps(ComicPageType::FrontCover, false, "test", 0))];
    let res = save_page_settings_impl(&zip, &settings);
    assert!(res.is_ok(), "save_page_settings_impl failed: {:?}", res.err());
}

#[test]
fn test_read_archive_existing_cbz() {
    let zip = stored(&[("image.jpg", b"data")]);
    let result = read_archive(&zip);
    assert!(result.is_ok());
    let archive = result.unwrap();
    assert!(!archive.files.is_empty());
}

#[test]
fn test_read_archive_nonexistent() {
    let result = read_archive(&Vec::new());
    assert!(result.is_err());
}

#[test]
fn test_load_cbz_failed_to_parse_comicinfo_xml() {
    let zip = stored(&[("ComicInfo.xml", b"invalid xml")]);
    let result = load_cbz_response(read_archive(&zip));
    assert!(result.error.is_some());
    let err = result.error.unwrap();
    assert_eq!(err.error_type, ErrorResponseType::FailedToParseComicInfoXml);
    assert!(err.message.contains("Failed to parse ComicInfo XML"));
}

#[test]
fn test_load_cbz_failed_to_load_archive() {
    let result = load_cbz_response(Err(ReadArchiveError::NotFound));
    assert!(result.error.is_some());
    assert!(result.image_files.is_empty());
    assert!(result.comic_info.is_none());
    assert_eq!(result.error.unwrap().error_type, ErrorResponseType::FailedToLoadArchive);
}

#[test]
fn load_lists_images_in_page_order() {
    let zip = stored(&[("b.png", b"1"), ("notes.txt", b"2"), ("A.jpg", b"3"), ("a.jpg", b"4")]);
    let result = load_cbz_response(read_archive(&zip));
    assert!(result.error.is_none());
    assert_eq!(result.image_files, vec!["A.jpg".to_string(), "a.jpg".to_string(), "b.png".to_string()]);
    assert!(result.comic_info.is_none());
}

#[test]
fn test_save_comicinfo_xml_valid_and_invalid() {
    let zip = stored(&[]);
    let valid_xml = r#"<?xml version="1.0" encoding="utf-8"?>
<ComicInfo>
  <Title>Valid Test</Title>
</ComicInfo>"#;
    assert!(save_comicinfo_xml_impl(&zip, valid_xml).is_ok());
    assert!(save_comicinfo_xml_impl(&zip, "not valid xml").is_err());
}

#[test]
fn test_save_comicinfo_xml_impl() {
    let zip = stored(&[("image1.jpg", b"fake image data")]);
    let valid_xml = r#"<?xml version="1.0" encoding="utf-8"?>
<ComicInfo>
  <Title>Valid Test</Title>
</ComicInfo>"#;
    let result = save_comicinfo_xml_impl(&zip, valid_xml);
    assert!(result.is_ok());
}

#[test]
fn test_save_comicinfo_xml_impl_invalid() {
    let zip = stored(&[("image1.jpg", b"fake image data")]);
    let result = save_comicinfo_xml_impl(&zip, "not valid xml");
    assert!(result.is_err());
}

#[test]
fn test_delete_comicinfo_xml() {
    let zip = stored(&[("ComicInfo.xml", b"<ComicInfo></ComicInfo>"), ("image1.jpg", b"fake image data")]);
    let result = delete_comicinfo_xml(&zip);
    assert!(result.is_ok());
    let names = entry_names(&result.unwrap());
    assert!(!names.contains(&"ComicInfo.xml".to_string()));
    assert!(names.contains(&"image1.jpg".to_string()));
}

#[test]
fn test_save_page_settings_updates_three_and_preserves_others() {
    let mut entries: Vec<(String, Vec<u8>)> = Vec::new();
    for i in 0..5 {
        entries.push((format!("image{}.jpg", i), format!("fake image data {}", i).into_bytes()));
    }
    let mut pages_xml = String::new();
    for i in 0..5 {
        pages_xml.push_str(&format!("    <Page Image=\"{}\" Type=\"Story\" Bookmark=\"orig-{}\" />\n", i, i));
    }
    let comicinfo = format!(
        "<?xml version=\"1.0\" encoding=\"utf-8\"?>\n<ComicInfo>\n  <Pages>\n{}  </Pages>\n</ComicInfo>",
        pages_xml
    );
    entries.push(("ComicInfo.xml".to_string(), comicinfo.into_bytes()));
    let refs: Vec<(&str, &[u8])> = entries.iter().map(|(n, d)| (n.as_str(), d.as_slice())).collect();
    let zip = stored(&refs);
    let settings: SettingsByName = vec![
        ("image0.jpg".to_string(), ps(ComicPageType::Story, false, "orig-0", 0)),
        ("image1.jpg".to_string(), ps(ComicPageType::FrontCover, true, "updated-1", 1)),
        ("image2.jpg".to_string(), ps(ComicPageType::Other, false, "updated-2", 2)),
        ("image3.jpg".to_string(), ps(ComicPageType::Story, false, "orig-3", 3)),
        ("image4.jpg".to_string(), ps(ComicPageType::BackCover, false, "updated-4", 4)),
    ];
    let out = save_page_settings_impl(&zip, &settings).expect("save_page_settings failed");
    let pages = stored_pages(&out);
    assert_eq!(pages.len(), 5, "expected 5 pages after update");
    let find_page = |img: i32| pages.iter().find(|p| p.image == img).cloned();
    let p1 = find_page(1).expect("page 1 present");
    assert_eq!(p1.bookmark, "updated-1");
    assert!(p1.double_page);
    assert_eq!(p1.type_.unwrap(), ComicPageType::FrontCover);
    let p2 = find_page(2).expect("page 2 present");
    assert_eq!(p2.bookmark, "updated-2");
    assert!(!p2.double_page);
    assert!(p2.type_.is_none());
    let p4 = find_page(4).expect("page 4 present");
    assert_eq!(p4.bookmark, "updated-4");
    assert_eq!(p4.type_.unwrap(), ComicPageType::BackCover);
    assert_eq!(find_page(0).expect("page 0 present").bookmark, "orig-0");
    assert_eq!(find_page(3).expect("page 3 present").bookmark, "orig-3");
}

#[test]
fn test_save_page_settings_skips_unset_images_without_originals() {
    let zip = stored(&[
        ("image0.jpg", b"fake image data 0"),
        ("image1.jpg", b"fake image data 1"),
        ("image2.jpg", b"fake image data 2"),
        ("image3.jpg", b"fake image data 3"),
    ]);
    let settings: SettingsByName = vec![
        ("image0.jpg".to_string(), ps(ComicPageType::FrontCover, false, "note-0", 0)),
        ("image2.jpg".to_string(), ps(ComicPageType::Story, true, "note-2", 2)),
    ];
    let out = save_page_settings_impl(&zip, &settings).expect("save_page_settings failed");
    let pages = stored_pages(&out);
    assert_eq!(pages.len(), 2, "expected only 2 pages to be created");
    let images: Vec<i32> = pages.iter().map(|p| p.image).collect();
    assert!(images.contains(&0));
    assert!(images.contains(&2));
    assert!(!images.contains(&1));
    assert!(!images.contains(&3));
}

fn three_images() -> Vec<u8> {
    stored(&[("image1.jpg", b"fake image data"), ("image2.jpg", b"fake image data 2"), ("image3.jpg", b"fake image data 3")])
}

#[test]
fn test_save_page_settings_deletes_page_when_not_in_settings() {
    let zip = three_images();
    let initial: SettingsByName = vec![
        ("image1.jpg".to_string(), ps(ComicPageType::FrontCover, false, "Cover", 0)),
        ("image2.jpg".to_string(), ps(ComicPageType::Story, false, "Chapter 1", 1)),
        ("image3.jpg".to_string(), ps(ComicPageType::BackCover, false, "", 2)),
    ];
    let first = save_page_settings_impl(&zip, &initial).expect("Initial save failed");
    assert_eq!(stored_pages(&first).len(), 3, "Initial state should have 3 pages");
    let second: SettingsByName = vec![
        ("image1.jpg".to_string(), ps(ComicPageType::FrontCover, false, "Cover", 0)),
        ("image3.jpg".to_string(), ps(ComicPageType::BackCover, false, "", 2)),
    ];
    let out = save_page_settings_impl(&first, &second).expect("Second save failed");
    let pages = stored_pages(&out);
    assert_eq!(pages.len(), 2, "After deletion should have 2 pages");
    assert_eq!(pages[0].bookmark, "Cover");
    assert_eq!(pages[1].bookmark, "");
}

#[test]
fn test_save_page_settings_clears_all_pages_when_empty_settings() {
    let zip = stored(&[("image1.jpg", b"fake image data"), ("image2.jpg", b"fake image data 2")]);
    let initial: SettingsByName = vec![
        ("image1.jpg".to_string(), ps(ComicPageType::Story, false, "Chapter", 0)),
        ("image2.jpg".to_string(), ps(ComicPageType::Story, false, "Chapter 2", 1)),
    ];
    let first = save_page_settings_impl(&zip, &initial).expect("initial save failed");
    let res = save_page_settings_impl(&first, &Vec::new());
    assert!(res.is_ok(), "Save with empty settings failed: {:?}", res.as_ref().err());
    assert_eq!(stored_pages(&res.unwrap()).len(), 0, "All pages should be deleted");
}

#[test]
fn test_save_page_settings_preserves_metadata_on_full_update() {
    let zip = stored(&[("image1.jpg", b"fake image data"), ("image2.jpg", b"fake image data 2")]);
    let initial: SettingsByName = vec![
        ("image1.jpg".to_string(), ps(ComicPageType::Story, false, "Original", 0)),
        ("image2.jpg".to_string(), ps(ComicPageType::Story, false, "", 1)),
    ];
    let first = save_page_settings_impl(&zip, &initial).expect("initial save failed");
    let updated: SettingsByName = vec![
        ("image1.jpg".to_string(), ps(ComicPageType::Story, false, "Updated", 0)),
        ("image2.jpg".to_string(), ps(ComicPageType::Story, false, "", 1)),
    ];
    let out = save_page_settings_impl(&first, &updated).expect("update failed");
    let pages = stored_pages(&out);
    assert_eq!(pages.len(), 2, "Both pages should be present");
    assert_eq!(pages[0].bookmark, "Updated");
    assert_eq!(pages[1].bookmark, "");
}

#[test]
fn test_save_page_settings_deletes_unspecified_pages_on_partial_update() {
    let zip = three_images();
    let initial: SettingsByName = vec![
        ("image1.jpg".to_string(), ps(ComicPageType::Story, false, "Page 1", 0)),
        ("image2.jpg".to_string(), ps(ComicPageType::Story, false, "Page 2", 1)),
        ("image3.jpg".to_string(), ps(ComicPageType::Story, false, "Page 3", 2)),
    ];
    let first = save_page_settings_impl(&zip, &initial).expect("initial save failed");
    let partial: SettingsByName = vec![
        ("image1.jpg".to_string(), ps(ComicPageType::Story, false, "Page 1 Updated", 0)),
        ("image3.jpg".to_string(), ps(ComicPageType::Story, false, "Page 3", 2)),
    ];
    let out = save_page_settings_impl(&first, &partial).expect("partial update failed");
    let pages = stored_pages(&out);
    assert_eq!(pages.len(), 2, "Should have only 2 pages after deleting image2");
    assert_eq!(pages[0].bookmark, "Page 1 Updated");
    assert_eq!(pages[1].bookmark, "Page 3");
}

#[test]
fn test_save_page_settings_writes_filename_comments() {
    let zip = stored(&[("cover.jpg", b"fake cover"), ("page001.jpg", b"fake page 1"), ("page002.jpg", b"fake page 2")]);
    let settings: SettingsByName = vec![
        ("cover.jpg".to_string(), ps(ComicPageType::FrontCover, false, "Cover", 0)),
        ("page001.jpg".to_string(), ps(ComicPageType::Story, false, "Chapter 1", 1)),
        ("page002.jpg".to_string(), ps(ComicPageType::Story, false, "", 2)),
    ];
    let out = save_page_settings_impl(&zip, &settings).expect("save_page_settings_impl failed");
    let xml = entry_text(&out, "ComicInfo.xml").expect("comicinfo exists");
    assert!(xml.contains("<!-- filename: cover.jpg -->"));
    assert!(xml.contains("<!-- filename: page001.jpg -->"));
    assert!(xml.contains("<!-- filename: page002.jpg -->"));
}

#[test]
fn test_save_comicinfo_xml_preserves_filename_comments() {
    let zip = stored(&[("image1.jpg", b"fake image 1"), ("image2.jpg", b"fake image 2")]);
    let initial: SettingsByName = vec![
        ("image1.jpg".to_string(), ps(ComicPageType::FrontCover, false, "Cover", 0)),
        ("image2.jpg".to_string(), ps(ComicPageType::Story, false, "", 1)),
    ];
    let first = save_page_settings_impl(&zip, &initial).expect("initial save failed");
    let edited_xml = r#"<?xml version="1.0" encoding="UTF-8"?>
<ComicInfo>
  <Title>My Edited Comic</Title>
  <Pages>
    <Page Image="0" Type="FrontCover" Bookmark="New Cover Name" />
    <Page Image="1" Type="Story" Bookmark="New Chapter" />
  </Pages>
</ComicInfo>"#;
    let result = save_comicinfo_xml_impl(&first, edited_xml);
    assert!(result.is_ok(), "save_comicinfo_xml_impl failed: {:?}", result.as_ref().err());
    let (saved_xml, _) = result.unwrap();
    assert!(saved_xml.contains("<!-- filename: image1.jpg -->"));
    assert!(saved_xml.contains("<!-- filename: image2.jpg -->"));
    assert!(saved_xml.contains("<Title>My Edited Comic</Title>"));
    assert!(saved_xml.contains("Bookmark=\"New Cover Name\""));
    assert!(saved_xml.contains("Bookmark=\"New Chapter\""));
}

#[test]
fn test_save_comicinfo_xml_adds_filename_comments_for_new_pages() {
    let zip = stored(&[("page1.jpg", b"fake page 1"), ("page2.jpg", b"fake page 2")]);
    let new_xml = r#"<?xml version="1.0" encoding="UTF-8"?>
<ComicInfo>
  <Title>New Comic</Title>
  <Pages>
    <Page Image="0" Type="FrontCover" />
    <Page Image="1" Type="Story" />
  </Pages>
</ComicInfo>"#;
    let result = save_comicinfo_xml_impl(&zip, new_xml);
    assert!(result.is_ok(), "save_comicinfo_xml_impl failed: {:?}", result.as_ref().err());
    let (saved_xml, out) = result.unwrap();
    assert!(saved_xml.contains("<!-- filename: page1.jpg -->"));
    assert!(saved_xml.contains("<!-- filename: page2.jpg -->"));
    assert_eq!(entry_text(&out, "ComicInfo.xml").unwrap(), saved_xml);
}

#[test]
fn two_image_container_gets_two_sorted_records() {
    let zip = stored(&[("b.jpg", b"bb"), ("a.jpg", b"aa")]);
    let settings: SettingsByName = vec![
        ("a.jpg".to_string(), ps(ComicPageType::Story, false, "note-1", 0)),
        ("b.jpg".to_string(), ps(ComicPageType::Story, true, "", 1)),
    ];
    let out = save_page_settings_impl(&zip, &settings).expect("save");
    let pages = stored_pages(&out);
    assert_eq!(pages.len(), 2);
    assert_eq!(pages[0].bookmark, "note-1");
    assert_eq!(pages[1].bookmark, "");
    assert!(!pages[0].double_page);
    assert!(pages[1].double_page);
    assert_eq!(pages[0].filename, Some("a.jpg".to_string()));
    assert_eq!(pages[1].filename, Some("b.jpg".to_string()));
    let second: SettingsByName = vec![("a.jpg".to_string(), ps(ComicPageType::Story, false, "note-1", 0))];
    let again = save_page_settings_impl(&out, &second).expect("second save");
    let pages = stored_pages(&again);
    assert_eq!(pages.len(), 1);
    assert_eq!(pages[0].filename, Some("a.jpg".to_string()));
}

#[test]
fn rewriting_metadata_keeps_other_entries_raw_bytes() {
    let big = vec![b'x'; 4000];
    let zip = make_zip(&[
        ("p1.jpg", b"one", zip::CompressionMethod::Stored),
        ("p2.jpg", &big, zip::CompressionMethod::Deflated),
        ("ComicInfo.xml", b"<ComicInfo/>", zip::CompressionMethod::Deflated),
        ("p3.png", &big[..100], zip::CompressionMethod::Deflated),
        ("notes.txt", b"n", zip::CompressionMethod::Stored),
    ]);
    let out = update_zip_with_comicinfo(&zip, "<ComicInfo>\n</ComicInfo>").expect("rewrite");
    for name in ["p1.jpg", "p2.jpg", "p3.png", "notes.txt"] {
        assert_eq!(raw_entry(&zip, name), raw_entry(&out, name), "entry {} changed", name);
    }
    assert_eq!(
        entry_names(&out),
        vec!["p1.jpg", "p2.jpg", "p3.png", "notes.txt", "ComicInfo.xml"]
    );
    let (_, _, _, method) = raw_entry(&out, "ComicInfo.xml");
    assert_eq!(method, zip::CompressionMethod::Stored);
    assert_eq!(entry_text(&out, "ComicInfo.xml").unwrap(), "<ComicInfo>\n</ComicInfo>");
}

#[test]
fn rewrite_of_garbage_fails() {
    assert!(update_zip_with_comicinfo(&b"not a zip".to_vec(), "<ComicInfo/>").is_err());
    assert!(delete_comicinfo_xml(&b"not a zip".to_vec()).is_err());
}

#[test]
fn sorted_image_names_filters_and_sorts() {
    let names = vec!["z.gif".to_string(), "ComicInfo.xml".to_string(), "b.JPEG".to_string(), "a.bmp".to_string()];
    assert_eq!(sorted_image_names(&names), vec!["a.bmp".to_string(), "b.JPEG".to_string(), "z.gif".to_string()]);
}

#[test]
fn reconcile_keeps_previous_dimensions() {
    let files = vec!["a.jpg".to_string(), "b.jpg".to_string(), "c.jpg".to_string()];
    let previous = vec![ComicPageInfo {
        double_page: false,
        image: 2,
        image_height: 10,
        image_size: 5,
        image_width: 7,
        type_: None,
        key: "K".to_string(),
        bookmark: "old".to_string(),
        filename: None,
    }];
    let settings: SettingsByName = vec![
        ("c.jpg".to_string(), ps(ComicPageType::Letters, true, "new", 2)),
        ("a.jpg".to_string(), ps(ComicPageType::Story, false, "", 0)),
    ];
    let pages = build_page_list(&files, &settings, &previous);
    assert_eq!(pages.len(), 2);
    assert_eq!(pages[0].image, 0);
    assert_eq!(pages[0].image_width, -1);
    assert_eq!(pages[1].image, 2);
    assert_eq!(pages[1].bookmark, "new");
    assert_eq!(pages[1].image_width, 7);
    assert_eq!(pages[1].image_height, 10);
    assert_eq!(pages[1].image_size, 5);
    assert_eq!(pages[1].key, "K");
    assert_eq!(pages[1].type_, Some(ComicPageType::Letters));
    assert_eq!(pages[1].filename, Some("c.jpg".to_string()));
}

#[test]
fn kept_positions_skip_the_target_entry() {
    let names = vec!["a.jpg".to_string(), "ComicInfo.xml".to_string(), "b.jpg".to_string(), "ComicInfo.xml".to_string()];
    assert_eq!(kept_entry_positions(&names, "ComicInfo.xml"), vec![0, 2]);
    assert_eq!(kept_entry_positions(&names, "none"), vec![0, 1, 2, 3]);
}

#[test]
fn stored_entries_survive_rewrite_through_the_library() {
    let big = vec![b'y'; 3000];
    let zip = make_zip(&[
        ("ComicInfo.xml", b"<ComicInfo/>", zip::CompressionMethod::Deflated),
        ("a.jpg", &big, zip::CompressionMethod::Deflated),
        ("b.jpg", b"bb", zip::CompressionMethod::Stored),
    ]);
    let out = update_zip_with_comicinfo(&zip, " <x> ").expect("rewrite");
    for (before, after) in [(1usize, 0usize), (2, 1)] {
        let e0 = stored_entry(&zip, before).expect("entry");
        let e1 = stored_entry(&out, after).expect("entry");
        assert_eq!(e0.data, e1.data);
        assert_eq!(e0.method, e1.method);
        assert_eq!(e0.crc32, e1.crc32);
    }
    assert_eq!(stored_entry(&zip, 1).unwrap().method, 8);
    let meta = stored_entry(&out, 2).expect("new entry");
    assert_eq!(meta.method, 0);
    assert_eq!(meta.data, b" <x> ".to_vec());
}

#[test]
fn unreadable_metadata_entry_is_an_error() {
    let zip = stored(&[("ComicInfo.xml", &[0xff, 0xfe, 0x00])]);
    assert!(read_archive(&zip).is_err());
}

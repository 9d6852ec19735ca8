use cbz_meta::archive::is_image_file;
use cbz_meta::number::{int_to_string, parse_int};
use cbz_meta::page::ComicPageInfo;
use cbz_meta::types::{AgeRating, ComicPageType, Manga, YesNo};

#[test]
fn test_is_image_file() {
    assert!(is_image_file("test.jpg"));
    assert!(is_image_file("test.jpeg"));
    assert!(is_image_file("test.png"));
    assert!(is_image_file("test.gif"));
    assert!(is_image_file("test.bmp"));
    assert!(is_image_file("test.webp"));
    assert!(is_image_file("TEST.JPG"));
    assert!(!is_image_file("test.txt"));
    assert!(!is_image_file("test.xml"));
    assert!(!is_image_file("ComicInfo.xml"));
}

#[test]
fn mixed_case_extension_is_an_image() {
    assert!(is_image_file("Cover.WebP"));
    assert!(!is_image_file("jpg"));
}

#[test]
fn enum_literals_read_back() {
    assert_eq!(YesNo::from_str("Yes"), YesNo::Yes);
    assert_eq!(YesNo::from_str("yes"), YesNo::Unknown);
    assert_eq!(Manga::from_str("YesAndRightToLeft"), Manga::YesAndRightToLeft);
    assert_eq!(AgeRating::from_str("Rating Pending"), AgeRating::RatingPending);
    assert_eq!(AgeRating::from_str(AgeRating::MA15Plus.text()), AgeRating::MA15Plus);
    assert_eq!(ComicPageType::from_str("Nope"), ComicPageType::Other);
    assert_eq!(ComicPageType::from_str(ComicPageType::Letters.text()), ComicPageType::Letters);
}

#[test]
fn settings_page_maps_other_to_no_type() {
    let p = ComicPageInfo::from_page_settings(ComicPageType::Other, true, "b".to_string(), 3);
    assert_eq!(p.type_, None);
    assert_eq!(p.image_width, -1);
    assert_eq!(p.image_height, -1);
    assert_eq!(p.image_size, 0);
    assert_eq!(p.effective_type(), ComicPageType::Story);
    let q = ComicPageInfo::from_page_settings(ComicPageType::Preview, false, "".to_string(), 0);
    assert_eq!(q.type_, Some(ComicPageType::Preview));
}

#[test]
fn integers_text_both_ways() {
    assert_eq!(int_to_string(0), "0");
    assert_eq!(int_to_string(-2147483648), "-2147483648");
    assert_eq!(int_to_string(i64::MIN), "-9223372036854775808");
    assert_eq!(parse_int("+17", -100, 100), Some(17));
    assert_eq!(parse_int("-17", -100, 100), Some(-17));
    assert_eq!(parse_int("101", -100, 100), None);
    assert_eq!(parse_int("1x", -100, 100), None);
    assert_eq!(parse_int("-", -100, 100), None);
    assert_eq!(parse_int("99999999999999999999999", i64::MIN, i64::MAX), None);
    assert_eq!(parse_int("-9223372036854775808", i64::MIN, i64::MAX), Some(i64::MIN));
}

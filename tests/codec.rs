use cbz_meta::info::{get_bookmarked_pages, page_attribute_list, ComicInfo};
use cbz_meta::page::{ComicPageInfo, Pages};
use cbz_meta::parse::{check_structure, decode_events, format_comicinfo_xml_str, validate_comicinfo_xml, ComicInfoParseError};
use cbz_meta::xml::{XmlEvent, XmlEventKind};
use cbz_meta::types::{AgeRating, ComicPageType, Manga, YesNo};

fn page(image: i32, type_: Option<ComicPageType>, bookmark: &str, filename: Option<&str>) -> ComicPageInfo {
    ComicPageInfo {
        image,
        type_,
        double_page: false,
        image_size: 0,
        key: "".to_string(),
        bookmark: bookmark.to_string(),
        image_width: -1,
        image_height: -1,
        filename: filename.map(|f| f.to_string()),
    }
}

#[test]
fn test_parse_minimal() {
    let xml = r#"<?xml version="1.0" encoding="utf-8"?>
<ComicInfo>
</ComicInfo>"#;
    let comic = ComicInfo::parse(xml).unwrap();
    assert_eq!(comic.title, None);
    assert_eq!(comic.count, -1);
    assert_eq!(comic.black_and_white, YesNo::Unknown);
}

#[test]
fn test_parse_minimal_page() {
    let xml = r#"<?xml version="1.0" encoding="utf-8"?>
<ComicInfo>
  <Pages>
    <Pagee />
  </Pages>
</ComicInfo>"#;
    let comic = ComicInfo::parse(xml);
    assert!(comic.is_err());
}

#[test]
fn test_parse_yes_no() {
    let xml = r#"<?xml version="1.0" encoding="utf-8"?>
<ComicInfo>
    <BlackAndWhite>Yes</BlackAndWhite>
    <Manga>No</Manga>
</ComicInfo>"#;
    let comic = ComicInfo::parse(xml).unwrap();
    assert_eq!(comic.black_and_white, YesNo::Yes);
    assert_eq!(comic.manga, Manga::No);
}

#[test]
fn test_parse_ligngering_bracked() {
    let xml = r#"<?xml version="1.0" encoding="utf-8"?>
<ComicInfo>
    <Manga>No</Manga>
</ComicInfo>>"#;
    let comic = ComicInfo::parse(xml);
    assert!(comic.is_err());
}

#[test]
fn test_parse_empty() {
    let xml = "";
    let comic = ComicInfo::parse(xml);
    assert!(comic.is_err());
}

#[test]
fn test_parse_full() {
    let xml = r#"<?xml version="1.0"?>
<ComicInfo xmlns:xsi="http://www.w3.org/2001/XMLSchema-instance" xmlns:xsd="http://www.w3.org/2001/XMLSchema"> 
  <Title>AKB49, Vol. 1</Title>
  <Series>AKB49: The Rules Against Love</Series>
  <Number>1.0</Number>
  <Summary>**A boy joins AKB48!?  
** One boy in a garden of girls. Heart-pounding to the limit! If he's found out—it's hell!? 
High school student **Minoru Urayama** hears that his beloved classmate, **Hiroko Yoshinaga** , is auditioning for AKB48. To support her, he disguises himself as a girl, takes the name **Minori Urakawa** , and sneaks into the audition.
Thanks to his efforts, Hiroko passes with flying colors—but incredibly, **"Minori Urakawa" is also accepted**!!
A secret double life begins—one he can't tell anyone about!
</Summary>
  <Year>2010</Year>
  <Month>12</Month>
  <Day>17</Day>
  <Writer>Reiji Miyajima, Motoazabu Factory, Hisashi Takahashi</Writer>
  <Publisher>Kodansha</Publisher>
  <Tags>Archive, Comedy, Comics &amp; Graphic Novels, Manga, Romance</Tags>
  <PageCount>195</PageCount>
  <LanguageISO>ja</LanguageISO>
  <Pages>
    <Page Image="0" Type="FrontCover" Bookmark="Cover" />
    <Page Image="1" Type="Other" DoublePage="true" />
    <Page Image="2" Type="InnerCover" />
    <Page Image="5" Type="Story" DoublePage="true" />
    <Page Image="7" Type="Story" Bookmark="Chapter 1: God's Recommendation" />
    <Page Image="14" Type="Story" DoublePage="true" />
    <Page Image="27" Type="Story" DoublePage="true" />
    <Page Image="30" Type="Story" DoublePage="true" />
    <Page Image="69" Type="Story" Bookmark="Chapter 2: The Sparkling Star is.." />
    <Page Image="75" Type="Story" DoublePage="true" />
    <Page Image="94" Type="Story" DoublePage="true" />
    <Page Image="102" Type="Story" Bookmark="Chapter 3: 100x100" />
    <Page Image="123" Type="Story" DoublePage="true" />
    <Page Image="132" Type="Story" Bookmark="Chapter 4: God's Drink" />
    <Page Image="132" Type="Story" Bookmark="Chapter 5: The Hydrangeas's Color is.." />
    <Page Image="174" Type="Story" Bookmark="Chapter 6: The Sun" />
    <Page Image="193" Type="Letters" />
    <Page Image="194" Type="BackCover" />
  </Pages>
</ComicInfo>"#;
    let comic = ComicInfo::parse(xml).unwrap();
    assert_eq!(comic.title, Some("AKB49, Vol. 1".to_string()));
    assert_eq!(comic.series, Some("AKB49: The Rules Against Love".to_string()));
    assert_eq!(comic.number, Some("1.0".to_string()));
    assert_eq!(comic.summary.as_ref().unwrap().contains("A boy joins AKB48"), true);
    assert_eq!(comic.year, 2010);
    assert_eq!(comic.month, 12);
    assert_eq!(comic.day, 17);
    assert_eq!(
        comic.writer,
        Some("Reiji Miyajima, Motoazabu Factory, Hisashi Takahashi".to_string())
    );
    assert_eq!(comic.publisher, Some("Kodansha".to_string()));
    assert_eq!(
        comic.tags,
        Some("Archive, Comedy, Comics & Graphic Novels, Manga, Romance".to_string())
    );
    assert_eq!(comic.page_count, 195);
    assert_eq!(comic.language_iso, Some("ja".to_string()));
    assert!(comic.pages.is_some());
    let pages = &comic.pages.as_ref().unwrap().page;
    assert_eq!(pages.len(), 18);
    assert_eq!(pages[0].image, 0);
    assert_eq!(pages[0].type_, Some(ComicPageType::FrontCover));
    assert_eq!(pages[0].bookmark, "Cover".to_string());
    assert_eq!(pages[1].image, 1);
    assert_eq!(pages[1].type_, Some(ComicPageType::Other));
    assert_eq!(pages[1].double_page, true);
    assert_eq!(pages[4].image, 7);
    assert_eq!(pages[4].bookmark, "Chapter 1: God's Recommendation".to_string());
}

#[test]
fn test_to_xml() {
    let mut comic = ComicInfo::default();
    comic.title = Some("Test".to_string());
    comic.count = 5;
    let xml = comic.to_xml().unwrap();
    assert!(xml.contains("<Title>Test</Title>"));
    assert!(xml.contains("<Count>5</Count>"));
    assert!(xml.starts_with("<?xml"));
}

#[test]
fn test_round_trip() {
    let original_xml = r#"<?xml version="1.0" encoding="utf-8"?>
<ComicInfo>
  <Title>Round Trip</Title>
  <Count>2</Count>
  <Pages>
    <Page Image="0" Type="FrontCover" />
  </Pages>
</ComicInfo>"#;
    let comic = ComicInfo::parse(original_xml).unwrap();
    let output_xml = comic.to_xml().unwrap();
    let reparsed = ComicInfo::parse(&output_xml).unwrap();
    assert_eq!(comic, reparsed);
}

#[test]
fn test_empty_default_type() {
    let original_xml = r#"<?xml version="1.0" encoding="utf-8"?>
<ComicInfo>
  <Title>Round Trip</Title>
  <Count>2</Count>
  <Pages>
    <Page Image="0" />
  </Pages>
</ComicInfo>"#;
    let comic = ComicInfo::parse(original_xml).unwrap();
    let output_xml = comic.to_xml().unwrap();
    let reparsed = ComicInfo::parse(&output_xml).unwrap();
    assert_eq!(comic, reparsed);
}

#[test]
fn test_parse_with_multiple_types() {
    let xml = r#"<?xml version="1.0" encoding="utf-8"?>
<ComicInfo>
  <Pages>
    <Page Image="0" Type="FrontCover Story" />
  </Pages>
</ComicInfo>"#;
    let comic = ComicInfo::parse(xml).unwrap();
    let pages = &comic.pages.as_ref().unwrap().page;
    assert_eq!(pages[0].type_, Some(ComicPageType::Other));
}

#[test]
fn test_serialize_multiple_types() {
    let mut comic = ComicInfo::default();
    comic.pages = Some(Pages {
        page: vec![ComicPageInfo {
            image: 0,
            type_: Some(ComicPageType::FrontCover),
            double_page: false,
            image_size: 0,
            key: "".to_string(),
            bookmark: "".to_string(),
            image_width: -1,
            image_height: -1,
            filename: None,
        }],
    });
    let xml = comic.to_xml().unwrap();
    assert!(xml.contains("Type=\"FrontCover\""));
}

#[test]
fn test_get_bookmarked_pages() {
    let image_files = vec!["page001.jpg".to_string(), "page002.jpg".to_string()];
    let mut comic = ComicInfo::default();
    comic.pages = Some(Pages {
        page: vec![
            page(0, Some(ComicPageType::Story), "Chapter 1", None),
            page(1, Some(ComicPageType::Story), "", None),
        ],
    });
    let bookmarked = get_bookmarked_pages(&comic, &image_files);
    assert_eq!(bookmarked.len(), 1);
    assert_eq!(bookmarked[0], "page001.jpg");
}

#[test]
fn test_format_comicinfo_xml_str() {
    let input_xml = r#"<ComicInfo><Title>Test Comic</Title></ComicInfo>"#;
    let expected_output = "<?xml version=\"1.0\" encoding=\"UTF-8\"?>\n<ComicInfo>\n  <Title>Test Comic</Title>\n</ComicInfo>";
    let result = format_comicinfo_xml_str(input_xml);
    assert!(result.is_ok());
    assert_eq!(result.unwrap(), expected_output);
}

#[test]
fn test_format_comicinfo_xml_str_empty_xml() {
    let result = format_comicinfo_xml_str("");
    let expected = ComicInfoParseError::EmptyXml.message();
    assert!(result.is_err(), "Expected error for empty XML, got: {:?}", result);
    let err_msg = result.unwrap_err();
    assert!(err_msg.contains(expected), "got: '{}'", err_msg);
}

#[test]
fn test_format_comicinfo_xml_str_malformed_xml() {
    let result = format_comicinfo_xml_str("<ComicInfo><Title>Test Comic</Title>");
    let expected = ComicInfoParseError::NoRootElement.message();
    assert!(result.is_err(), "Expected error for malformed XML, got: {:?}", result);
    let err_msg = result.unwrap_err();
    assert!(err_msg.contains(expected), "got: '{}'", err_msg);
}

#[test]
fn test_format_comicinfo_xml_str_trailing_content() {
    let result = format_comicinfo_xml_str(r#"<ComicInfo><Title>Test Comic</Title></ComicInfo> trailing"#);
    let expected = ComicInfoParseError::TrailingContent.message();
    assert!(result.is_err(), "Expected error for trailing content, got: {:?}", result);
    let err_msg = result.unwrap_err();
    assert!(err_msg.contains(expected), "got: '{}'", err_msg);
}

#[test]
fn test_to_xml_with_filename_comments() {
    let comic = ComicInfo {
        pages: Some(Pages {
            page: vec![
                page(0, Some(ComicPageType::FrontCover), "Cover", Some("cover.jpg")),
                page(1, Some(ComicPageType::Story), "Chapter 1", Some("page001.jpg")),
            ],
        }),
        ..ComicInfo::default()
    };
    let xml = comic.to_xml().unwrap();
    assert!(xml.contains("<!-- filename: cover.jpg -->"));
    assert!(xml.contains("<!-- filename: page001.jpg -->"));
    assert!(xml.contains("<Pages>"));
    assert!(xml.contains("Image=\"0\""));
    assert!(xml.contains("Image=\"1\""));
    assert!(xml.contains("Type=\"FrontCover\""));
    assert!(xml.contains("Bookmark=\"Cover\""));
}

#[test]
fn test_to_xml_without_filename_comments() {
    let comic = ComicInfo {
        pages: Some(Pages { page: vec![page(0, Some(ComicPageType::Story), "", None)] }),
        ..ComicInfo::default()
    };
    let xml = comic.to_xml().unwrap();
    assert!(!xml.contains("<!-- filename:"));
}

#[test]
fn test_to_xml_mixed_filename_comments() {
    let comic = ComicInfo {
        pages: Some(Pages {
            page: vec![
                page(0, Some(ComicPageType::FrontCover), "", Some("cover.jpg")),
                page(1, Some(ComicPageType::Story), "", None),
                page(2, Some(ComicPageType::BackCover), "", Some("back.jpg")),
            ],
        }),
        ..ComicInfo::default()
    };
    let xml = comic.to_xml().unwrap();
    assert!(xml.contains("<!-- filename: cover.jpg -->"));
    assert!(xml.contains("<!-- filename: back.jpg -->"));
    assert_eq!(xml.matches("<!-- filename:").count(), 2);
}

#[test]
fn test_page_attribute_order() {
    let p = ComicPageInfo {
        double_page: true,
        image: 42,
        image_height: 800,
        image_size: 123456,
        image_width: 600,
        type_: Some(ComicPageType::Story),
        key: "k".to_string(),
        bookmark: "b".to_string(),
        filename: None,
    };
    let attrs: Vec<String> = page_attribute_list(&p).into_iter().map(|(n, _)| n).collect();
    let expected: Vec<String> = vec![
        "Image".to_string(),
        "Type".to_string(),
        "DoublePage".to_string(),
        "ImageSize".to_string(),
        "Key".to_string(),
        "Bookmark".to_string(),
        "ImageWidth".to_string(),
        "ImageHeight".to_string(),
    ];
    assert_eq!(attrs, expected);
}

#[test]
fn test_page_attribute_order_with_missing_fields() {
    let p = ComicPageInfo {
        double_page: false,
        image: 0,
        image_height: -1,
        image_size: 1,
        image_width: 1,
        type_: Some(ComicPageType::Story),
        key: "".to_string(),
        bookmark: "book".to_string(),
        filename: None,
    };
    let attrs: Vec<String> = page_attribute_list(&p).into_iter().map(|(n, _)| n).collect();
    let expected: Vec<String> = vec![
        "Image".to_string(),
        "Type".to_string(),
        "ImageSize".to_string(),
        "Bookmark".to_string(),
        "ImageWidth".to_string(),
    ];
    assert_eq!(attrs, expected);
}

#[test]
fn test_validate_comicinfo_xml_invalid() {
    let invalid_xml = r#"<?xml version="1.0" encoding="utf-8"?>
<ComicInfo>
  <Pages>
    <Page Image="-1" />
  </Pages>
</ComicInfo>"#;
    let result = validate_comicinfo_xml(invalid_xml.to_string());
    assert!(result.is_err());
}

#[test]
fn validate_accepts_a_plain_document() {
    let xml = "<ComicInfo><Title>Test</Title></ComicInfo>";
    assert!(validate_comicinfo_xml(xml.to_string()).is_ok());
}

#[test]
fn every_field_absent_round_trips_to_bare_root() {
    let comic = ComicInfo::default();
    let xml = comic.to_xml().unwrap();
    assert_eq!(xml, "<?xml version=\"1.0\" encoding=\"UTF-8\"?>\n<ComicInfo>\n</ComicInfo>");
    assert_eq!(ComicInfo::parse(&xml).unwrap(), comic);
}

#[test]
fn sentinels_are_never_written() {
    let mut comic = ComicInfo::default();
    comic.pages = Some(Pages { page: vec![page(3, None, "", None)] });
    let xml = comic.to_xml().unwrap();
    assert!(!xml.contains("-1"));
    assert!(!xml.contains("Unknown"));
    assert!(!xml.contains("Count"));
    assert!(!xml.contains("Type="));
    assert!(xml.contains("<Page Image=\"3\"/>"));
}

#[test]
fn full_document_round_trips_with_filenames_and_escapes() {
    let mut comic = ComicInfo::default();
    comic.title = Some("Tom & Jerry <1>".to_string());
    comic.volume = 0;
    comic.year = -5;
    comic.page_count = 12;
    comic.manga = Manga::YesAndRightToLeft;
    comic.age_rating = AgeRating::Everyone10Plus;
    comic.black_and_white = YesNo::No;
    comic.community_rating = Some("4.5".to_string());
    comic.gtin = Some("123".to_string());
    comic.pages = Some(Pages {
        page: vec![
            ComicPageInfo {
                double_page: true,
                image: 0,
                image_height: 10,
                image_size: 99,
                image_width: 20,
                type_: Some(ComicPageType::Deleted),
                key: "k\"ey".to_string(),
                bookmark: "a 'quote'".to_string(),
                filename: Some("a b.jpg".to_string()),
            },
            page(1, None, "", None),
        ],
    });
    let xml = comic.to_xml().unwrap();
    assert!(xml.contains("<Title>Tom &amp; Jerry &lt;1&gt;</Title>"));
    assert!(xml.contains("<Volume>0</Volume>"));
    assert!(xml.contains("<Year>-5</Year>"));
    assert!(xml.contains("<Manga>YesAndRightToLeft</Manga>"));
    assert!(xml.contains("<AgeRating>Everyone 10+</AgeRating>"));
    assert_eq!(ComicInfo::parse(&xml).unwrap(), comic);
}

#[test]
fn unknown_element_or_attribute_is_a_schema_error() {
    assert_eq!(ComicInfo::parse("<ComicInfo><Colour>x</Colour></ComicInfo>"), Err(ComicInfoParseError::Schema));
    assert_eq!(
        ComicInfo::parse("<ComicInfo><Pages><Page Image=\"0\" Size=\"1\"/></Pages></ComicInfo>"),
        Err(ComicInfoParseError::Schema)
    );
    assert_eq!(ComicInfo::parse("<ComicInfo><Count>many</Count></ComicInfo>"), Err(ComicInfoParseError::Schema));
}

#[test]
fn unrecognised_literals_fall_back() {
    let comic = ComicInfo::parse(
        "<ComicInfo><Manga>Maybe</Manga><AgeRating>Z</AgeRating><Pages><Page Image=\"0\" Type=\"Poster\"/></Pages></ComicInfo>",
    )
    .unwrap();
    assert_eq!(comic.manga, Manga::Unknown);
    assert_eq!(comic.age_rating, AgeRating::Unknown);
    assert_eq!(comic.pages.unwrap().page[0].type_, Some(ComicPageType::Other));
}

#[test]
fn filename_comment_is_read_back() {
    let comic = ComicInfo::parse(
        "<ComicInfo><Pages><!-- filename: x.png --><Page Image=\"0\"/><Page Image=\"1\"/></Pages></ComicInfo>",
    )
    .unwrap();
    let pages = comic.pages.unwrap().page;
    assert_eq!(pages[0].filename, Some("x.png".to_string()));
    assert_eq!(pages[1].filename, None);
}

#[test]
fn error_kinds_are_distinct() {
    assert_eq!(ComicInfo::parse("  \n "), Err(ComicInfoParseError::EmptyXml));
    assert_eq!(ComicInfo::parse("<ComicInfo>"), Err(ComicInfoParseError::NoRootElement));
    assert_eq!(ComicInfo::parse("<ComicInfo/>x"), Err(ComicInfoParseError::TrailingContent));
    assert_eq!(ComicInfo::parse("<ComicInfo></Other>"), Err(ComicInfoParseError::Syntax));
}

#[test]
fn unicode_whitespace_only_is_empty() {
    assert_eq!(ComicInfo::parse("\u{2003}\u{a0} \n"), Err(ComicInfoParseError::EmptyXml));
    assert_eq!(format_comicinfo_xml_str("\u{2003}").unwrap_err(), "Parse error: XML is empty");
}

#[test]
fn page_type_is_trimmed_and_single_word() {
    let comic = ComicInfo::parse(
        "<ComicInfo><Pages><Page Image=\"0\" Type=\" Story \"/><Page Image=\"1\" Type=\"  \"/><Page Image=\"2\" Type=\"Story Letters\"/></Pages></ComicInfo>",
    )
    .unwrap();
    let pages = comic.pages.unwrap().page;
    assert_eq!(pages[0].type_, Some(ComicPageType::Story));
    assert_eq!(pages[1].type_, None);
    assert_eq!(pages[2].type_, Some(ComicPageType::Other));
}

#[test]
fn text_with_edge_whitespace_round_trips() {
    let mut comic = ComicInfo::default();
    comic.title = Some(" a".to_string());
    comic.series = Some("b\t".to_string());
    comic.notes = Some("  ".to_string());
    comic.summary = Some("\nline one\nline two\n".to_string());
    let xml = comic.to_xml().unwrap();
    assert!(xml.contains("<Title>&#32;a</Title>"));
    assert!(xml.contains("<Notes>&#32;&#32;</Notes>"));
    assert_eq!(ComicInfo::parse(&xml).unwrap(), comic);
}

fn ev(kind: XmlEventKind, raw: &str) -> XmlEvent {
    XmlEvent { kind, raw: raw.to_string() }
}

#[test]
fn structural_pass_on_given_events() {
    let closed = vec![ev(XmlEventKind::Start, "ComicInfo"), ev(XmlEventKind::End, "ComicInfo")];
    assert_eq!(check_structure(&closed), Ok(()));
    let open = vec![ev(XmlEventKind::Start, "ComicInfo"), ev(XmlEventKind::Start, "Title")];
    assert_eq!(check_structure(&open), Err(ComicInfoParseError::NoRootElement));
    let trailing = vec![ev(XmlEventKind::Empty, "ComicInfo"), ev(XmlEventKind::Text, "x")];
    assert_eq!(check_structure(&trailing), Err(ComicInfoParseError::TrailingContent));
    let blank_after = vec![ev(XmlEventKind::Empty, "ComicInfo"), ev(XmlEventKind::Text, "\u{2003}")];
    assert_eq!(check_structure(&blank_after), Ok(()));
    assert!(decode_events(&closed).is_some());
    assert!(decode_events(&vec![ev(XmlEventKind::Text, "&bogus;")]).is_none());
}

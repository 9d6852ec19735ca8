//! What the host receives: load results and typed errors.
use vstd::prelude::*;
use crate::archive::{Archive, ReadArchiveError, file_names, is_page_order, archive_file_names, sorted_image_names};
use crate::info::{ComicInfo, ComicInfoError, string_views};
use crate::parse::parse_error_text;
use crate::text::{push_str, string_of};

verus! {

/// The kinds of error that reach the host.
#[derive(Debug, Clone, Copy, PartialEq, Eq, Structural)]
pub enum ErrorResponseType {
    FailedToLoadArchive,
    FailedToParseComicInfoXml,
    ComicInfoXmlInvalid,
    Other,
}

/// A typed error with its description.
#[derive(Debug, Clone, PartialEq)]
pub struct ErrorResponse {
    pub error_type: ErrorResponseType,
    pub message: String,
}

impl ErrorResponse {
    pub fn new(error_type: ErrorResponseType, message: String) -> (r: ErrorResponse)
        ensures
            r.error_type == error_type,
            r.message@ == message@,
    {
        ErrorResponse { error_type, message }
    }
}

/// Conversion of an error into what the host receives.
pub trait ToErrorResponse {
    fn to_error_response(&self) -> ErrorResponse;
}

pub open spec fn read_error_type(e: ReadArchiveError) -> ErrorResponseType {
    match e {
        ReadArchiveError::FailedToParseComicInfoXml(_) => ErrorResponseType::FailedToParseComicInfoXml,
        _ => ErrorResponseType::FailedToLoadArchive,
    }
}

pub open spec fn read_error_text(e: ReadArchiveError) -> Seq<char> {
    match e {
        ReadArchiveError::NotFound => "Archive file not found. Please create the file or mount the disk to continue."@,
        ReadArchiveError::Io(m) => "IO error: "@ + m@,
        ReadArchiveError::Zip(m) => "Zip error: "@ + m@,
        ReadArchiveError::FailedToParseComicInfoXml(p) => "Failed to parse ComicInfo XML: "@ + parse_error_text(p),
    }
}

impl ReadArchiveError {
    /// The host-side form of the error: a failure to load the container, or
    /// an unreadable metadata document.
    pub fn error_response(&self) -> (r: ErrorResponse)
        ensures
            r.error_type == read_error_type(*self),
            r.message@ == read_error_text(*self),
    {
        match self {
            ReadArchiveError::NotFound => ErrorResponse::new(
                ErrorResponseType::FailedToLoadArchive,
                string_of("Archive file not found. Please create the file or mount the disk to continue."),
            ),
            ReadArchiveError::Io(m) => {
                let mut s = string_of("IO error: ");
                push_str(&mut s, m.as_str());
                ErrorResponse::new(ErrorResponseType::FailedToLoadArchive, s)
            },
            ReadArchiveError::Zip(m) => {
                let mut s = string_of("Zip error: ");
                push_str(&mut s, m.as_str());
                ErrorResponse::new(ErrorResponseType::FailedToLoadArchive, s)
            },
            ReadArchiveError::FailedToParseComicInfoXml(p) => {
                let mut s = string_of("Failed to parse ComicInfo XML: ");
                push_str(&mut s, p.message());
                ErrorResponse::new(ErrorResponseType::FailedToParseComicInfoXml, s)
            },
        }
    }
}

impl ToErrorResponse for ReadArchiveError {
    fn to_error_response(&self) -> ErrorResponse {
        self.error_response()
    }
}

impl ComicInfoError {
    /// The host-side form of the error.
    pub fn error_response(&self) -> (r: ErrorResponse)
        ensures
            r.error_type == match *self {
                ComicInfoError::ToXml(_) => ErrorResponseType::FailedToParseComicInfoXml,
                ComicInfoError::Validate(_) => ErrorResponseType::ComicInfoXmlInvalid,
            },
            r.message@ == match *self {
                ComicInfoError::ToXml(m) => m@,
                ComicInfoError::Validate(m) => m@,
            },
    {
        match self {
            ComicInfoError::ToXml(m) => ErrorResponse::new(ErrorResponseType::FailedToParseComicInfoXml, m.clone()),
            ComicInfoError::Validate(m) => ErrorResponse::new(ErrorResponseType::ComicInfoXmlInvalid, m.clone()),
        }
    }
}

impl ToErrorResponse for ComicInfoError {
    fn to_error_response(&self) -> ErrorResponse {
        self.error_response()
    }
}

/// The answer to a load request.
#[derive(Debug, Clone, PartialEq)]
pub struct LoadCbzResponse {
    pub image_files: Vec<String>,
    pub comic_info: Option<ComicInfo>,
    pub error: Option<ErrorResponse>,
}

/// The answer to a request for one entry's bytes.
#[derive(Debug, Clone, PartialEq)]
pub struct FileDataResponse {
    pub data: Option<Vec<u8>>,
    pub error: Option<ErrorResponse>,
}

/// Progress of a bulk extraction of entries.
#[derive(Debug, Clone, PartialEq)]
pub enum StreamProgressEvent {
    Started { total_files: usize },
    Preview { file_name: String, data_raw: Vec<u8>, data_base64: String },
    Error { file_name: String, message: String },
    Finished,
}

/// The load answer for a read result: the image names in page order and the
/// document, or nothing but the error.
pub fn load_cbz_response(read: Result<Archive, ReadArchiveError>) -> (r: LoadCbzResponse)
    ensures
        r.error is Some <==> read is Err,
        read matches Err(e) ==> r.image_files@.len() == 0 && r.comic_info is None
            && (r.error matches Some(x) && x.error_type == read_error_type(e) && x.message@ == read_error_text(e)),
        read matches Ok(a) ==> is_page_order(file_names(a.files@), string_views(r.image_files@))
            && (match a.comic_info {
                Some(d) => r.comic_info matches Some(c) && c@ == d@,
                None => r.comic_info is None,
            }),
{
    match read {
        Err(e) => LoadCbzResponse { image_files: Vec::new(), comic_info: None, error: Some(e.error_response()) },
        Ok(a) => {
            let names = archive_file_names(&a);
            let image_files = sorted_image_names(&names);
            LoadCbzResponse { image_files, comic_info: a.comic_info, error: None }
        },
    }
}

} // verus!

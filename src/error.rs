//! The error taxonomy of the library, unified under [`Error`].

use base64::DecodeError as Base64Error;
use regex::Error as RegexError;
use serde_json::Error as JsonError;
use vstd::prelude::*;
use vstd::string::to_string_from_display_ensures;
use xml::reader::Error as XmlReaderError;

verus! {

/// An integer parse error of std, carried by csv and capture errors.
#[verifier::external_type_specification]
#[verifier::external_body]
pub struct ExParseIntError(std::num::ParseIntError);

/// Relies on std's `Clone` for `ParseIntError`, which copies its kind.
pub assume_specification[ <std::num::ParseIntError as Clone>::clone ](
    e: &std::num::ParseIntError,
) -> std::num::ParseIntError;

/// An I/O error of std, carried by decompression and resource errors.
#[verifier::external_type_specification]
#[verifier::external_body]
pub struct ExIoError(std::io::Error);

/// A path of std, naming a resource that could not be loaded.
#[verifier::external_type_specification]
#[verifier::external_body]
pub struct ExPathBuf(std::path::PathBuf);

/// The base64 crate's decoding error.
#[verifier::external_type_specification]
#[verifier::external_body]
pub struct ExDecodeError(Base64Error);

/// The xml crate's reader error.
#[verifier::external_type_specification]
#[verifier::external_body]
pub struct ExXmlError(XmlReaderError);

/// serde_json's error.
#[verifier::external_type_specification]
#[verifier::external_body]
pub struct ExJsonError(JsonError);

/// The regex crate's error for a pattern that does not compile.
#[verifier::external_type_specification]
#[verifier::external_body]
pub struct ExRegexError(RegexError);

/// Errors that can occur while decoding csv data.
#[derive(Clone, Debug, PartialEq, Eq)]
#[non_exhaustive]
pub enum CsvDecodingError {
    /// An error occurred when parsing tile data from a csv encoded dataset.
    TileDataParseError(std::num::ParseIntError),
}

/// Whether `r` is the text of a csv decoding error: exactly the text of the
/// parse error it carries.
pub open spec fn csv_message_of(e: CsvDecodingError, r: String) -> bool {
    match e {
        CsvDecodingError::TileDataParseError(x) => to_string_from_display_ensures::<
            std::num::ParseIntError,
        >(&x, r),
    }
}

impl CsvDecodingError {
    /// The human-readable text of this error.
    pub fn message(&self) -> (r: String)
        ensures
            csv_message_of(*self, r),
    {
        match self {
            CsvDecodingError::TileDataParseError(e) => e.to_string(),
        }
    }
}

/// Errors that can occur parsing a Tileset.
#[derive(Clone, Copy, Debug, PartialEq, Eq, Structural)]
#[non_exhaustive]
pub enum InvalidTilesetError {
    /// An invalid width or height (0) dimension was found in the input.
    InvalidTileDimensions,
}

impl InvalidTilesetError {
    /// The human-readable text of this error.
    pub fn message(&self) -> (r: String)
        ensures
            r@ == "An invalid width or height (0) dimension was found in the input."@,
    {
        match self {
            InvalidTilesetError::InvalidTileDimensions => String::from_str(
                "An invalid width or height (0) dimension was found in the input.",
            ),
        }
    }
}

/// Errors which occurred when parsing a file.
#[derive(Debug)]
#[non_exhaustive]
pub enum Error {
    /// An attribute was missing, had the wrong type or wasn't formatted correctly.
    MalformedAttributes(String),
    /// An error occurred when decompressing zlib or gzip data.
    DecompressingError(std::io::Error),
    /// An error occurred when decoding a base64 encoded dataset.
    Base64DecodingError(base64::DecodeError),
    /// An error occurred when decoding a csv encoded dataset.
    CsvDecodingError(CsvDecodingError),
    /// An error occurred when parsing an XML file, such as a TMX or TSX file.
    XmlDecodingError(xml::reader::Error),
    /// An error occurred when attempting to deserialize a JSON file.
    JsonDecodingError(serde_json::Error),
    /// No regex captures were found.
    CapturesNotFound,
    /// A capture of a world pattern is not a base-10 integer.
    CaptureParseError(std::num::ParseIntError),
    /// The arithmetic of a world pattern overflowed; the text names the operation.
    RangeError(String),
    /// No world pattern matched the filename.
    NoMatchFound {
        /// The filename that was tested.
        filename: String,
    },
    /// The XML stream ended before the document was fully parsed.
    PrematureEnd(String),
    /// The path given is invalid because it isn't contained in any folder.
    PathIsNotFile,
    /// An error occurred while trying to read a resource.
    ResourceLoadingError {
        /// The path to the file that was unable to be opened.
        path: std::path::PathBuf,
        /// The error that occurred when trying to open the file.
        err: std::io::Error,
    },
    /// There was an invalid tile in the map parsed.
    InvalidTileFound,
    /// The number of decoded tiles differs from the extent of the layer or chunk.
    InvalidTileCount {
        /// The number of cells of the layer or chunk.
        expected: u64,
        /// The number of tiles that were decoded.
        found: u64,
    },
    /// The decoded tile bytes are not a whole number of 4-byte tile ids.
    InvalidTileDataLength {
        /// The number of decoded bytes.
        byte_len: u64,
    },
    /// Unknown encoding or compression format or invalid combination of both (for tile layers).
    InvalidEncodingFormat {
        /// The `encoding` attribute of the tile layer data, if any.
        encoding: Option<String>,
        /// The `compression` attribute of the tile layer data, if any.
        compression: Option<String>,
    },
    /// There was an error parsing the value of a property.
    InvalidPropertyValue {
        /// A description of the error that occurred.
        description: String,
    },
    /// Found an unknown property value type while parsing a property.
    UnknownPropertyType {
        /// The name of the type that isn't recognized.
        property_type: String,
    },
    /// A template was found that does not have an object element in it.
    TemplateHasNoObject,
    /// Found a WangId that was not properly formatted.
    InvalidWangIdEncoding {
        /// Stores the wrongly parsed String.
        read_string: String,
    },
    /// There was an error parsing an Object's data.
    InvalidObjectData {
        /// A description of the error that occurred.
        description: String,
    },
    /// There was an invalid tileset in the map parsed.
    InvalidTileset(InvalidTilesetError),
}

/// The text of an optional attribute in an encoding error: its value, or "no".
pub open spec fn attribute_text(a: Option<String>) -> Seq<char> {
    match a {
        Some(s) => s@,
        None => "no"@,
    }
}

/// The text of each error whose message the library composes itself; `None`
/// for those that show the text of an error they carry.
pub open spec fn own_message(e: Error) -> Option<Seq<char>> {
    match e {
        Error::MalformedAttributes(s) => Some(s@),
        Error::CapturesNotFound => Some("No captures found in pattern"@),
        Error::RangeError(s) => Some(s@),
        Error::NoMatchFound { filename } => Some(
            "No match found for filename: '"@ + filename@ + "'"@,
        ),
        Error::PrematureEnd(s) => Some(s@),
        Error::PathIsNotFile => Some(
            "The path given is invalid because it isn't contained in any folder."@,
        ),
        Error::InvalidTileFound => Some("Invalid tile found in map being parsed"@),
        Error::InvalidEncodingFormat { encoding: None, compression: None } => Some(
            "Deprecated combination of encoding and compression"@,
        ),
        Error::InvalidEncodingFormat { encoding, compression } => Some(
            "Unknown encoding or compression format or invalid combination of both (for tile layers): "@
                + attribute_text(encoding) + " encoding with "@ + attribute_text(compression)
                + " compression"@,
        ),
        Error::InvalidPropertyValue { description } => Some(
            "Invalid property value: "@ + description@,
        ),
        Error::UnknownPropertyType { property_type } => Some(
            "Unknown property value type '"@ + property_type@ + "'"@,
        ),
        Error::TemplateHasNoObject => Some("A template was found with no object element"@),
        Error::InvalidWangIdEncoding { read_string } => Some(
            "\""@ + read_string@ + "\" is not a valid WangId format"@,
        ),
        Error::InvalidObjectData { description } => Some(
            "Invalid object data: "@ + description@,
        ),
        Error::InvalidTileset(_) => Some(
            "An invalid width or height (0) dimension was found in the input."@,
        ),
        _ => None,
    }
}

/// Whether `r` is the text of `e`: the text of the error it carries where it
/// carries one, the numbers and the cause written out where the library
/// composes the text around them, else [`own_message`].
pub open spec fn message_of(e: Error, r: String) -> bool {
    match e {
        Error::DecompressingError(x) => to_string_from_display_ensures::<std::io::Error>(&x, r),
        Error::Base64DecodingError(x) => to_string_from_display_ensures::<Base64Error>(&x, r),
        Error::CsvDecodingError(x) => csv_message_of(x, r),
        Error::XmlDecodingError(x) => to_string_from_display_ensures::<XmlReaderError>(&x, r),
        Error::JsonDecodingError(x) => to_string_from_display_ensures::<JsonError>(&x, r),
        Error::CaptureParseError(x) => to_string_from_display_ensures::<std::num::ParseIntError>(
            &x,
            r,
        ),
        Error::ResourceLoadingError { path, err } => exists|p: String, c: String|
            to_string_from_display_ensures::<std::io::Error>(&err, c) && r@ == "Could not open '"@
                + p@ + "'. Error: "@ + c@,
        Error::InvalidTileCount { expected, found } => exists|f: String, x: String|
            to_string_from_display_ensures::<u64>(&found, f) && to_string_from_display_ensures::<
                u64,
            >(&expected, x) && r@ == "Tile data holds "@ + f@ + " tiles where the layer has "@ + x@
                + " cells"@,
        Error::InvalidTileDataLength { byte_len } => exists|b: String|
            to_string_from_display_ensures::<u64>(&byte_len, b) && r@ == "Tile data of "@ + b@
                + " bytes is not a whole number of 4-byte tile ids"@,
        _ => own_message(e) == Some(r@),
    }
}

fn optional_attribute_text(a: &Option<String>) -> (r: String)
    ensures
        r@ == attribute_text(*a),
{
    match a {
        Some(s) => s.clone(),
        None => String::from_str("no"),
    }
}

impl Error {
    /// The human-readable text of this error. Errors that carry an error of
    /// another kind show that error's text.
    pub fn message(&self) -> (r: String)
        ensures
            message_of(*self, r),
            own_message(*self) matches Some(m) ==> r@ == m,
    {
        match self {
            Error::MalformedAttributes(s) => s.clone(),
            Error::DecompressingError(e) => e.to_string(),
            Error::Base64DecodingError(e) => e.to_string(),
            Error::CsvDecodingError(e) => e.message(),
            Error::XmlDecodingError(e) => e.to_string(),
            Error::JsonDecodingError(e) => e.to_string(),
            Error::CapturesNotFound => String::from_str("No captures found in pattern"),
            Error::CaptureParseError(e) => e.to_string(),
            Error::RangeError(s) => s.clone(),
            Error::NoMatchFound { filename } => {
                let r = String::from_str("No match found for filename: '");
                let r = r.concat(filename.as_str());
                r.concat("'")
            },
            Error::PrematureEnd(s) => s.clone(),
            Error::PathIsNotFile => String::from_str(
                "The path given is invalid because it isn't contained in any folder.",
            ),
            Error::ResourceLoadingError { path, err } => {
                let r = String::from_str("Could not open '");
                let r = r.concat(path_text(path).as_str());
                let r = r.concat("'. Error: ");
                r.concat(err.to_string().as_str())
            },
            Error::InvalidTileFound => String::from_str("Invalid tile found in map being parsed"),
            Error::InvalidTileCount { expected, found } => {
                let r = String::from_str("Tile data holds ");
                let r = r.concat(found.to_string().as_str());
                let r = r.concat(" tiles where the layer has ");
                let r = r.concat(expected.to_string().as_str());
                r.concat(" cells")
            },
            Error::InvalidTileDataLength { byte_len } => {
                let r = String::from_str("Tile data of ");
                let r = r.concat(byte_len.to_string().as_str());
                r.concat(" bytes is not a whole number of 4-byte tile ids")
            },
            Error::InvalidEncodingFormat { encoding: None, compression: None } => String::from_str(
                "Deprecated combination of encoding and compression",
            ),
            Error::InvalidEncodingFormat { encoding, compression } => {
                let r = String::from_str(
                    "Unknown encoding or compression format or invalid combination of both (for tile layers): ",
                );
                let r = r.concat(optional_attribute_text(encoding).as_str());
                let r = r.concat(" encoding with ");
                let r = r.concat(optional_attribute_text(compression).as_str());
                r.concat(" compression")
            },
            Error::InvalidPropertyValue { description } => {
                let r = String::from_str("Invalid property value: ");
                r.concat(description.as_str())
            },
            Error::UnknownPropertyType { property_type } => {
                let r = String::from_str("Unknown property value type '");
                let r = r.concat(property_type.as_str());
                r.concat("'")
            },
            Error::TemplateHasNoObject => String::from_str(
                "A template was found with no object element",
            ),
            Error::InvalidWangIdEncoding { read_string } => {
                let r = String::from_str("\"");
                let r = r.concat(read_string.as_str());
                r.concat("\" is not a valid WangId format")
            },
            Error::InvalidObjectData { description } => {
                let r = String::from_str("Invalid object data: ");
                r.concat(description.as_str())
            },
            Error::InvalidTileset(e) => e.message(),
        }
    }
}

/// Relies on std's `Path::to_string_lossy`: the path as text, with invalid
/// unicode replaced.
#[verifier::external_body]
fn path_text(p: &std::path::PathBuf) -> String {
    p.to_string_lossy().into_owned()
}

} // verus!

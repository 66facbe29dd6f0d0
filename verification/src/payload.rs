//! What is read from and written to files: text, and binary content with
//! its media type.

use base64::engine::general_purpose::STANDARD;
use base64::Engine;
use vstd::prelude::*;
use vstd::string::{StrSliceExecFns, StringExecFns};
use vstd::utf8::{decode_utf8, encode_utf8, valid_utf8};
use crate::error::{FsError, FsErrorModel};
use crate::text::{lowercase, lowercase_of, same_text};

verus! {

/// The content of a binary file, ready for the frontend.
#[derive(Clone, Debug, PartialEq, Eq)]
pub struct FileData {
    /// The bytes in base64, standard alphabet, padded.
    pub data: String,
    pub mime_type: String,
}

/// A `FileData` with its texts as sequences of characters.
pub struct FileDataModel {
    pub data: Seq<char>,
    pub mime_type: Seq<char>,
}

impl View for FileData {
    type V = FileDataModel;

    open spec fn view(&self) -> FileDataModel {
        FileDataModel { data: self.data@, mime_type: self.mime_type@ }
    }
}

/// The media type that stands for an extension in lowercase. Whatever is not
/// one of the known image extensions is generic binary data.
pub open spec fn mime_of_lowered(ext: Seq<char>) -> Seq<char> {
    if ext == "png"@ {
        "image/png"@
    } else if ext == "jpg"@ || ext == "jpeg"@ {
        "image/jpeg"@
    } else if ext == "gif"@ {
        "image/gif"@
    } else if ext == "webp"@ {
        "image/webp"@
    } else if ext == "bmp"@ {
        "image/bmp"@
    } else if ext == "ico"@ {
        "image/x-icon"@
    } else if ext == "svg"@ {
        "image/svg+xml"@
    } else {
        "application/octet-stream"@
    }
}

/// The media type of a file with the given extension, if it has one. The
/// extension counts in lowercase.
pub open spec fn mime_of(ext: Option<Seq<char>>) -> Seq<char> {
    match ext {
        Some(e) => mime_of_lowered(lowercase_of(e)),
        None => "application/octet-stream"@,
    }
}

/// The media type that stands for an extension already in lowercase.
pub fn mime_for_lowered(ext: &str) -> (r: &'static str)
    ensures
        r@ == mime_of_lowered(ext@),
{
    if same_text(ext, "png") {
        "image/png"
    } else if same_text(ext, "jpg") || same_text(ext, "jpeg") {
        "image/jpeg"
    } else if same_text(ext, "gif") {
        "image/gif"
    } else if same_text(ext, "webp") {
        "image/webp"
    } else if same_text(ext, "bmp") {
        "image/bmp"
    } else if same_text(ext, "ico") {
        "image/x-icon"
    } else if same_text(ext, "svg") {
        "image/svg+xml"
    } else {
        "application/octet-stream"
    }
}

/// The media type of a file with the given extension, if it has one.
pub fn mime_type_for(ext: Option<&str>) -> (r: String)
    ensures
        r@ == mime_of(
            match ext {
                Some(e) => Some(e@),
                None => None,
            },
        ),
{
    match ext {
        Some(e) => {
            let lowered = lowercase(e);
            String::from_str(mime_for_lowered(lowered.as_str()))
        },
        None => String::from_str("application/octet-stream"),
    }
}

/// The base64 text of a sequence of bytes: standard alphabet, with padding.
pub uninterp spec fn base64_standard(bytes: Seq<u8>) -> Seq<char>;

/// Whether the base64 text of `len` bytes has a length that fits the machine:
/// four characters for every three bytes begun.
pub open spec fn base64_fits(len: nat) -> bool {
    4 * ((len + 2) / 3) <= usize::MAX
}

/// Whether content of `len` bytes can be encoded on this machine.
pub fn encodable(len: usize) -> (r: bool)
    ensures
        r == base64_fits(len as nat),
{
    let groups: usize = if len % 3 == 0 {
        len / 3
    } else {
        len / 3 + 1
    };
    groups <= usize::MAX / 4
}

/// Calls `Engine::encode` of the base64 crate on its `STANDARD` engine. The
/// contract only gives the result its name. The call panics where the length
/// of the result overflows, which `requires` leaves out.
#[verifier::external_body]
fn encode_standard(bytes: &Vec<u8>) -> (r: String)
    requires
        base64_fits(bytes@.len()),
    ensures
        r@ == base64_standard(bytes@),
{
    STANDARD.encode(bytes)
}

/// Calls `Path::extension` of the standard library and hands the extension
/// on as a string. Nothing is claimed of it: how a path falls into
/// components is the platform's matter.
#[verifier::external_body]
fn extension_of(path: &str) -> (r: Option<String>) {
    std::path::Path::new(path).extension().and_then(|e| e.to_str()).map(|e| e.to_owned())
}

/// Calls `String::from_utf8` of the standard library: the text that the
/// bytes encode, where they are valid UTF-8, and nothing otherwise.
#[verifier::external_body]
fn text_of_bytes(bytes: Vec<u8>) -> (r: Option<String>)
    ensures
        r is Some <==> valid_utf8(bytes@),
        r matches Some(s) ==> s@ == decode_utf8(bytes@),
{
    String::from_utf8(bytes).ok()
}

/// The payload of a binary file with the given extension and content.
pub fn file_data(ext: Option<&str>, bytes: &Vec<u8>) -> (r: FileData)
    requires
        base64_fits(bytes@.len()),
    ensures
        r@.data == base64_standard(bytes@),
        r@.mime_type == mime_of(
            match ext {
                Some(e) => Some(e@),
                None => None,
            },
        ),
{
    FileData { data: encode_standard(bytes), mime_type: mime_type_for(ext) }
}

/// The result of reading a binary file: `content` is what reading the whole
/// file at `path` gave, bytes or the system's message. The media type goes by
/// the extension of `path` alone, never by the content.
pub fn read_binary(path: &str, content: Result<Vec<u8>, String>) -> (r: Result<FileData, FsError>)
    requires
        content matches Ok(bytes) ==> base64_fits(bytes@.len()),
    ensures
        match content {
            Ok(bytes) => r matches Ok(d) && d@.data == base64_standard(bytes@) && exists|
                ext: Option<Seq<char>>,
            | d@.mime_type == #[trigger] mime_of(ext),
            Err(m) => r matches Err(e) && e@ == FsErrorModel::IOError(m@),
        },
{
    match content {
        Ok(bytes) => {
            let ext = extension_of(path);
            let data = match &ext {
                Some(e) => file_data(Some(e.as_str()), &bytes),
                None => file_data(None, &bytes),
            };
            proof {
                let found = match ext {
                    Some(e) => Some(e@),
                    None => None,
                };
                assert(data@.mime_type == mime_of(found));
            }
            Ok(data)
        },
        Err(m) => Err(FsError::IOError(m)),
    }
}

/// The text that a file's bytes hold, if they are valid UTF-8.
pub open spec fn decoded(bytes: Seq<u8>) -> Option<Seq<char>> {
    if valid_utf8(bytes) {
        Some(decode_utf8(bytes))
    } else {
        None
    }
}

/// The result of reading a text file: `content` is what reading the whole
/// file gave, bytes or the system's message.
pub fn read_text(content: Result<Vec<u8>, String>) -> (r: Result<String, FsError>)
    ensures
        match content {
            Ok(bytes) => match decoded(bytes@) {
                Some(text) => r matches Ok(s) && s@ == text,
                None => r matches Err(e) && e@ == FsErrorModel::DecodeError,
            },
            Err(m) => r matches Err(e) && e@ == FsErrorModel::IOError(m@),
        },
{
    match content {
        Ok(bytes) => match text_of_bytes(bytes) {
            Some(s) => Ok(s),
            None => Err(FsError::DecodeError),
        },
        Err(m) => Err(FsError::IOError(m)),
    }
}

/// What writing a text file takes.
#[derive(Clone, Debug, PartialEq, Eq)]
pub struct WritePlan {
    /// Whether the parent directory, with its own parents, is created first.
    pub create_parent: bool,
    /// The bytes that then replace the file's content.
    pub bytes: Vec<u8>,
}

/// Plans the writing of `contents`. `parent_exists` tells of the path's
/// parent directory whether it exists, and is `None` for a path without one.
/// A parent is created only where there is one and it is missing.
pub fn write_text(parent_exists: Option<bool>, contents: &str) -> (plan: WritePlan)
    ensures
        plan.create_parent == (parent_exists == Some(false)),
        plan.bytes@ == encode_utf8(contents@),
{
    let create_parent = match parent_exists {
        Some(exists) => !exists,
        None => false,
    };
    WritePlan { create_parent, bytes: contents.as_bytes_vec() }
}

/// Text that was written is read back as it was.
pub proof fn lemma_text_round_trip(text: Seq<char>)
    ensures
        decoded(encode_utf8(text)) == Some(text),
{
    vstd::utf8::encode_utf8_valid_utf8(text);
    vstd::utf8::encode_utf8_decode_utf8(text);
}

} // verus!

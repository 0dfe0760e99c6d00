//! Plain data of the object operations, and the two pieces of object
//! logic that are pure computation: the MIME type table used when a file
//! is uploaded, and the body of a batch-delete request.
use vstd::prelude::*;

verus! {

use vstd::string::StringExecFns;
use crate::encoding::lower_of;
use crate::encoding::lowercase;
use crate::encoding::xml_escaped;
use crate::encoding::xml_escape;
use crate::params::ParamMap;
use crate::params::opt_str_view;
use crate::params::strs_view;
use crate::strings::dec_digits;
use crate::strings::str_eq;
use crate::strings::u64_to_string;

/// What a completed upload reports back.
#[derive(Debug, Clone)]
pub struct PutObjectResponse {
    pub etag: String,
    pub version_id: Option<String>,
}

/// A downloaded object with its transport metadata.
#[derive(Debug, Clone)]
pub struct GetObjectResponse {
    pub data: Vec<u8>,
    pub content_length: u64,
    pub content_type: String,
    pub etag: String,
    pub last_modified: Option<String>,
}

/// What a deletion reports back.
#[derive(Debug, Clone)]
pub struct DeleteObjectResponse {
    pub version_id: Option<String>,
    pub delete_marker: bool,
}

/// An object's metadata, without its data.
#[derive(Debug, Clone)]
pub struct HeadObjectResponse {
    pub content_length: u64,
    pub content_type: String,
    pub etag: String,
    pub last_modified: Option<String>,
}

/// The outcome of a batch deletion.
#[derive(Debug)]
pub struct DeleteObjectsResponse {
    pub deleted: Vec<DeletedObject>,
    pub errors: Vec<DeleteError>,
}

/// One object a batch deletion removed.
#[derive(Debug)]
pub struct DeletedObject {
    pub key: String,
    pub version_id: Option<String>,
    pub delete_marker: Option<bool>,
}

/// One object a batch deletion failed on.
#[derive(Debug)]
pub struct DeleteError {
    pub key: String,
    pub code: String,
    pub message: String,
}

/// The MIME type registered for a lowercase file extension, if any.
pub open spec fn mime_of(e: Seq<char>) -> Option<Seq<char>> {
    if e == "txt"@ {
        Some("text/plain"@)
    } else
    if e == "html"@ || e == "htm"@ {
        Some("text/html"@)
    } else
    if e == "css"@ {
        Some("text/css"@)
    } else
    if e == "js"@ {
        Some("application/javascript"@)
    } else
    if e == "json"@ {
        Some("application/json"@)
    } else
    if e == "xml"@ {
        Some("application/xml"@)
    } else
    if e == "csv"@ {
        Some("text/csv"@)
    } else
    if e == "md"@ {
        Some("text/markdown"@)
    } else
    if e == "jpg"@ || e == "jpeg"@ {
        Some("image/jpeg"@)
    } else
    if e == "png"@ {
        Some("image/png"@)
    } else
    if e == "gif"@ {
        Some("image/gif"@)
    } else
    if e == "webp"@ {
        Some("image/webp"@)
    } else
    if e == "bmp"@ {
        Some("image/bmp"@)
    } else
    if e == "tiff"@ || e == "tif"@ {
        Some("image/tiff"@)
    } else
    if e == "svg"@ {
        Some("image/svg+xml"@)
    } else
    if e == "ico"@ {
        Some("image/x-icon"@)
    } else
    if e == "heic"@ {
        Some("image/heic"@)
    } else
    if e == "heif"@ {
        Some("image/heif"@)
    } else
    if e == "avif"@ {
        Some("image/avif"@)
    } else
    if e == "jxl"@ {
        Some("image/jxl"@)
    } else
    if e == "mp4"@ {
        Some("video/mp4"@)
    } else
    if e == "avi"@ {
        Some("video/x-msvideo"@)
    } else
    if e == "mov"@ {
        Some("video/quicktime"@)
    } else
    if e == "wmv"@ {
        Some("video/x-ms-wmv"@)
    } else
    if e == "flv"@ {
        Some("video/x-flv"@)
    } else
    if e == "webm"@ {
        Some("video/webm"@)
    } else
    if e == "mkv"@ {
        Some("video/x-matroska"@)
    } else
    if e == "m4v"@ {
        Some("video/x-m4v"@)
    } else
    if e == "3gp"@ {
        Some("video/3gpp"@)
    } else
    if e == "3g2"@ {
        Some("video/3gpp2"@)
    } else
    if e == "ts"@ || e == "mts"@ || e == "m2ts"@ {
        Some("video/mp2t"@)
    } else
    if e == "ogv"@ {
        Some("video/ogg"@)
    } else
    if e == "mp3"@ {
        Some("audio/mpeg"@)
    } else
    if e == "wav"@ {
        Some("audio/wav"@)
    } else
    if e == "flac"@ {
        Some("audio/flac"@)
    } else
    if e == "aac"@ {
        Some("audio/aac"@)
    } else
    if e == "ogg"@ {
        Some("audio/ogg"@)
    } else
    if e == "wma"@ {
        Some("audio/x-ms-wma"@)
    } else
    if e == "m4a"@ {
        Some("audio/mp4"@)
    } else
    if e == "opus"@ {
        Some("audio/opus"@)
    } else
    if e == "pdf"@ {
        Some("application/pdf"@)
    } else
    if e == "doc"@ {
        Some("application/msword"@)
    } else
    if e == "docx"@ {
        Some("application/vnd.openxmlformats-officedocument.wordprocessingml.document"@)
    } else
    if e == "xls"@ {
        Some("application/vnd.ms-excel"@)
    } else
    if e == "xlsx"@ {
        Some("application/vnd.openxmlformats-officedocument.spreadsheetml.sheet"@)
    } else
    if e == "ppt"@ {
        Some("application/vnd.ms-powerpoint"@)
    } else
    if e == "pptx"@ {
        Some("application/vnd.openxmlformats-officedocument.presentationml.presentation"@)
    } else
    if e == "rtf"@ {
        Some("application/rtf"@)
    } else
    if e == "zip"@ {
        Some("application/zip"@)
    } else
    if e == "rar"@ {
        Some("application/vnd.rar"@)
    } else
    if e == "7z"@ {
        Some("application/x-7z-compressed"@)
    } else
    if e == "tar"@ {
        Some("application/x-tar"@)
    } else
    if e == "gz"@ {
        Some("application/gzip"@)
    } else
    if e == "bz2"@ {
        Some("application/x-bzip2"@)
    } else
    if e == "bin"@ {
        Some("application/octet-stream"@)
    } else
    if e == "exe"@ {
        Some("application/octet-stream"@)
    } else
    if e == "dmg"@ {
        Some("application/x-apple-diskimage"@)
    } else
    if e == "iso"@ {
        Some("application/x-iso9660-image"@)
    } else {
        None
    }
}

/// Infers the MIME type of a file from its extension, case-insensitively.
#[verifier::rlimit(60)]
pub fn content_type_for_extension(ext: &str) -> (r: Option<String>)
    ensures
        match r {
            Some(m) => mime_of(lower_of(ext@)) == Some(m@),
            None => mime_of(lower_of(ext@)) is None,
        },
{
    let lowered = lowercase(ext);
    let e = lowered.as_str();
    if str_eq(e, "txt") {
        return Some("text/plain".to_owned());
    }
    if str_eq(e, "html") || str_eq(e, "htm") {
        return Some("text/html".to_owned());
    }
    if str_eq(e, "css") {
        return Some("text/css".to_owned());
    }
    if str_eq(e, "js") {
        return Some("application/javascript".to_owned());
    }
    if str_eq(e, "json") {
        return Some("application/json".to_owned());
    }
    if str_eq(e, "xml") {
        return Some("application/xml".to_owned());
    }
    if str_eq(e, "csv") {
        return Some("text/csv".to_owned());
    }
    if str_eq(e, "md") {
        return Some("text/markdown".to_owned());
    }
    if str_eq(e, "jpg") || str_eq(e, "jpeg") {
        return Some("image/jpeg".to_owned());
    }
    if str_eq(e, "png") {
        return Some("image/png".to_owned());
    }
    if str_eq(e, "gif") {
        return Some("image/gif".to_owned());
    }
    if str_eq(e, "webp") {
        return Some("image/webp".to_owned());
    }
    if str_eq(e, "bmp") {
        return Some("image/bmp".to_owned());
    }
    if str_eq(e, "tiff") || str_eq(e, "tif") {
        return Some("image/tiff".to_owned());
    }
    if str_eq(e, "svg") {
        return Some("image/svg+xml".to_owned());
    }
    if str_eq(e, "ico") {
        return Some("image/x-icon".to_owned());
    }
    if str_eq(e, "heic") {
        return Some("image/heic".to_owned());
    }
    if str_eq(e, "heif") {
        return Some("image/heif".to_owned());
    }
    if str_eq(e, "avif") {
        return Some("image/avif".to_owned());
    }
    if str_eq(e, "jxl") {
        return Some("image/jxl".to_owned());
    }
    if str_eq(e, "mp4") {
        return Some("video/mp4".to_owned());
    }
    if str_eq(e, "avi") {
        return Some("video/x-msvideo".to_owned());
    }
    if str_eq(e, "mov") {
        return Some("video/quicktime".to_owned());
    }
    if str_eq(e, "wmv") {
        return Some("video/x-ms-wmv".to_owned());
    }
    if str_eq(e, "flv") {
        return Some("video/x-flv".to_owned());
    }
    if str_eq(e, "webm") {
        return Some("video/webm".to_owned());
    }
    if str_eq(e, "mkv") {
        return Some("video/x-matroska".to_owned());
    }
    if str_eq(e, "m4v") {
        return Some("video/x-m4v".to_owned());
    }
    if str_eq(e, "3gp") {
        return Some("video/3gpp".to_owned());
    }
    if str_eq(e, "3g2") {
        return Some("video/3gpp2".to_owned());
    }
    if str_eq(e, "ts") || str_eq(e, "mts") || str_eq(e, "m2ts") {
        return Some("video/mp2t".to_owned());
    }
    if str_eq(e, "ogv") {
        return Some("video/ogg".to_owned());
    }
    if str_eq(e, "mp3") {
        return Some("audio/mpeg".to_owned());
    }
    if str_eq(e, "wav") {
        return Some("audio/wav".to_owned());
    }
    if str_eq(e, "flac") {
        return Some("audio/flac".to_owned());
    }
    if str_eq(e, "aac") {
        return Some("audio/aac".to_owned());
    }
    if str_eq(e, "ogg") {
        return Some("audio/ogg".to_owned());
    }
    if str_eq(e, "wma") {
        return Some("audio/x-ms-wma".to_owned());
    }
    if str_eq(e, "m4a") {
        return Some("audio/mp4".to_owned());
    }
    if str_eq(e, "opus") {
        return Some("audio/opus".to_owned());
    }
    if str_eq(e, "pdf") {
        return Some("application/pdf".to_owned());
    }
    if str_eq(e, "doc") {
        return Some("application/msword".to_owned());
    }
    if str_eq(e, "docx") {
        return Some("application/vnd.openxmlformats-officedocument.wordprocessingml.document".to_owned());
    }
    if str_eq(e, "xls") {
        return Some("application/vnd.ms-excel".to_owned());
    }
    if str_eq(e, "xlsx") {
        return Some("application/vnd.openxmlformats-officedocument.spreadsheetml.sheet".to_owned());
    }
    if str_eq(e, "ppt") {
        return Some("application/vnd.ms-powerpoint".to_owned());
    }
    if str_eq(e, "pptx") {
        return Some("application/vnd.openxmlformats-officedocument.presentationml.presentation".to_owned());
    }
    if str_eq(e, "rtf") {
        return Some("application/rtf".to_owned());
    }
    if str_eq(e, "zip") {
        return Some("application/zip".to_owned());
    }
    if str_eq(e, "rar") {
        return Some("application/vnd.rar".to_owned());
    }
    if str_eq(e, "7z") {
        return Some("application/x-7z-compressed".to_owned());
    }
    if str_eq(e, "tar") {
        return Some("application/x-tar".to_owned());
    }
    if str_eq(e, "gz") {
        return Some("application/gzip".to_owned());
    }
    if str_eq(e, "bz2") {
        return Some("application/x-bzip2".to_owned());
    }
    if str_eq(e, "bin") {
        return Some("application/octet-stream".to_owned());
    }
    if str_eq(e, "exe") {
        return Some("application/octet-stream".to_owned());
    }
    if str_eq(e, "dmg") {
        return Some("application/x-apple-diskimage".to_owned());
    }
    if str_eq(e, "iso") {
        return Some("application/x-iso9660-image".to_owned());
    }
    None
}

/// The request path that addresses an object by key.
pub open spec fn object_path_spec(key: Seq<char>) -> Seq<char> {
    "/"@ + key
}

/// The request path that addresses an object by key.
pub fn object_path(key: &str) -> (r: String)
    ensures
        r@ == object_path_spec(key@),
{
    let mut out = String::new();
    out.append("/");
    out.append(key);
    proof {
        assert(out@ =~= object_path_spec(key@));
    }
    out
}

/// The headers an upload carries: the declared content type when one is
/// given, and the length of the data.
pub open spec fn put_object_headers_spec(
    content_type: Option<Seq<char>>,
    content_length: nat,
) -> Seq<(Seq<char>, Seq<char>)> {
    (match content_type {
        Some(c) => seq![("Content-Type"@, c)],
        None => Seq::empty(),
    }) + seq![("Content-Length"@, dec_digits(content_length))]
}

/// Builds the headers of an upload of `content_length` bytes.
pub fn put_object_headers(content_type: Option<&str>, content_length: usize) -> (r: ParamMap)
    ensures
        r@ == put_object_headers_spec(opt_str_view(content_type), content_length as nat),
{
    let mut entries: Vec<(String, String)> = Vec::new();
    match content_type {
        Some(c) => entries.push(("Content-Type".to_owned(), c.to_owned())),
        None => {},
    }
    entries.push(("Content-Length".to_owned(), u64_to_string(content_length as u64)));
    let r = ParamMap::from_entries(entries);
    proof {
        assert(r@ =~= put_object_headers_spec(opt_str_view(content_type), content_length as nat));
    }
    r
}

/// The items of a batch-delete body, one element per key, in order.
pub open spec fn delete_items_xml(keys: Seq<Seq<char>>) -> Seq<char>
    decreases keys.len(),
{
    if keys.len() == 0 {
        Seq::empty()
    } else {
        delete_items_xml(keys.drop_last()) + "<Object><Key>"@ + xml_escaped(keys.last())
            + "</Key></Object>"@
    }
}

/// The body of a batch-delete request: the keys as escaped XML text, in
/// non-quiet mode, exactly as the transport's XML serializer writes it.
pub open spec fn delete_xml_spec(keys: Seq<Seq<char>>) -> Seq<char> {
    "<Delete>"@ + delete_items_xml(keys) + "<Quiet>false</Quiet></Delete>"@
}

/// Renders the body of a batch-delete request for the given keys.
pub fn delete_objects_xml(keys: &Vec<String>) -> (r: String)
    ensures
        r@ == delete_xml_spec(strs_view(keys@)),
{
    let ghost ks = strs_view(keys@);
    let mut out = String::new();
    out.append("<Delete>");
    let mut i: usize = 0;
    proof {
        assert(ks.take(0) =~= Seq::<Seq<char>>::empty());
        assert(out@ =~= "<Delete>"@ + delete_items_xml(ks.take(0)));
    }
    while i < keys.len()
        invariant
            i <= keys.len(),
            ks == strs_view(keys@),
            ks.len() == keys@.len(),
            out@ == "<Delete>"@ + delete_items_xml(ks.take(i as int)),
        decreases keys.len() - i,
    {
        out.append("<Object><Key>");
        let escaped = xml_escape(keys[i].as_str());
        out.append(escaped.as_str());
        out.append("</Key></Object>");
        proof {
            assert(ks.take(i as int + 1).drop_last() =~= ks.take(i as int));
            assert(ks.take(i as int + 1).last() == ks[i as int]);
            assert(ks[i as int] == keys@[i as int]@);
            assert(out@ =~= "<Delete>"@ + delete_items_xml(ks.take(i as int + 1)));
        }
        i = i + 1;
    }
    out.append("<Quiet>false</Quiet></Delete>");
    proof {
        assert(ks.take(ks.len() as int) =~= ks);
        assert(out@ =~= delete_xml_spec(strs_view(keys@)));
    }
    out
}

} // verus!

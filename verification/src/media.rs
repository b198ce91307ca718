//! Which files count as images, and the content type under which each is
//! served. Both go by the file name's extension, whatever its case.

use vstd::prelude::*;
use crate::naming::{extension_of, file_extension};
use crate::text::{chars_of, same_chars};

verus! {

/// The lowercase form of `text` under Unicode's rules, as `str::to_lowercase`
/// gives it.
pub uninterp spec fn lowercase(text: Seq<char>) -> Seq<char>;

/// `str::to_lowercase`: the lowercase equivalent of the string, as a new
/// string.
#[verifier::external_body]
pub(crate) fn to_lowercase(text: &str) -> (lower: String)
    ensures
        lower@ == lowercase(text@),
{
    text.to_lowercase()
}

/// Whether `ext`, an extension in lowercase, is one of an image file.
pub open spec fn is_image_extension(ext: Seq<char>) -> bool {
    ||| ext == "jpg"@
    ||| ext == "jpeg"@
    ||| ext == "png"@
    ||| ext == "gif"@
    ||| ext == "bmp"@
    ||| ext == "avif"@
    ||| ext == "webp"@
    ||| ext == "tiff"@
    ||| ext == "svg"@
    ||| ext == "ico"@
}

/// Whether a file called `name` is an image: it has an extension, and that
/// extension in lowercase is one of an image file.
pub open spec fn is_image_name(name: Seq<char>) -> bool {
    match extension_of(name) {
        Some(ext) => is_image_extension(lowercase(ext)),
        None => false,
    }
}

/// The content type for `ext`, the extension of a file in lowercase, or for a
/// file without extension.
pub open spec fn content_type_of(ext: Option<Seq<char>>) -> Seq<char> {
    match ext {
        Some(e) => {
            if e == "jpg"@ || e == "jpeg"@ {
                "image/jpeg"@
            } else if e == "png"@ {
                "image/png"@
            } else if e == "gif"@ {
                "image/gif"@
            } else if e == "bmp"@ {
                "image/bmp"@
            } else if e == "webp"@ {
                "image/webp"@
            } else if e == "avif"@ {
                "image/avif"@
            } else if e == "svg"@ {
                "image/svg+xml"@
            } else if e == "tiff"@ || e == "tif"@ {
                "image/tiff"@
            } else if e == "ico"@ {
                "image/x-icon"@
            } else {
                "application/octet-stream"@
            }
        },
        None => "application/octet-stream"@,
    }
}

/// The extension of a file called `name`, in lowercase.
pub open spec fn lowercase_extension(name: Seq<char>) -> Option<Seq<char>> {
    match extension_of(name) {
        Some(ext) => Some(lowercase(ext)),
        None => None,
    }
}

/// Whether `chars` spells `word`.
fn spells(chars: &Vec<char>, word: &str) -> (same: bool)
    ensures
        same == (chars@ == word@),
{
    let letters = chars_of(word);
    same_chars(chars.as_slice(), letters.as_slice())
}

/// Whether `ext`, an extension already in lowercase, is one of an image file.
pub fn is_lowercase_image_extension(ext: &str) -> (image: bool)
    ensures
        image == is_image_extension(ext@),
{
    let e = chars_of(ext);
    spells(&e, "jpg") || spells(&e, "jpeg") || spells(&e, "png") || spells(&e, "gif") || spells(
        &e,
        "bmp",
    ) || spells(&e, "avif") || spells(&e, "webp") || spells(&e, "tiff") || spells(&e, "svg")
        || spells(&e, "ico")
}

/// Whether a file called `file_name` is an image, going by its extension.
pub fn is_image_file(file_name: &str) -> (image: bool)
    ensures
        image == is_image_name(file_name@),
{
    match file_extension(file_name) {
        Some(ext) => {
            let lower = to_lowercase(ext.as_str());
            is_lowercase_image_extension(lower.as_str())
        },
        None => false,
    }
}

/// The content type for a file whose extension in lowercase is `ext`; `None`
/// stands for a file without extension. What is not a known image is served
/// as plain bytes.
pub fn content_type_for_extension(ext: Option<&str>) -> (content_type: &'static str)
    ensures
        content_type@ == content_type_of(
            match ext {
                Some(e) => Some(e@),
                None => None,
            },
        ),
{
    match ext {
        Some(text) => {
            let e = chars_of(text);
            if spells(&e, "jpg") || spells(&e, "jpeg") {
                "image/jpeg"
            } else if spells(&e, "png") {
                "image/png"
            } else if spells(&e, "gif") {
                "image/gif"
            } else if spells(&e, "bmp") {
                "image/bmp"
            } else if spells(&e, "webp") {
                "image/webp"
            } else if spells(&e, "avif") {
                "image/avif"
            } else if spells(&e, "svg") {
                "image/svg+xml"
            } else if spells(&e, "tiff") || spells(&e, "tif") {
                "image/tiff"
            } else if spells(&e, "ico") {
                "image/x-icon"
            } else {
                "application/octet-stream"
            }
        },
        None => "application/octet-stream",
    }
}

/// The content type under which a file called `file_name` is served.
pub fn content_type(file_name: &str) -> (content_type: &'static str)
    ensures
        content_type@ == content_type_of(lowercase_extension(file_name@)),
{
    match file_extension(file_name) {
        Some(ext) => {
            let lower = to_lowercase(ext.as_str());
            content_type_for_extension(Some(lower.as_str()))
        },
        None => content_type_for_extension(None),
    }
}

} // verus!

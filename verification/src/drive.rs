//! Files as the service describes them.

use vstd::prelude::*;

verus! {

/// A kind of document that has no contents of its own and is exported instead.
#[derive(Debug)]
pub struct DocType {
    /// How the kind is called in messages.
    pub label: String,
    /// The extension of the office format that it is exported to.
    pub extension: String,
    /// The media type of that format.
    pub export_mime: String,
}

/// What a shortcut says of its target.
#[derive(Debug)]
pub struct ShortcutDetails {
    /// The id of the target.
    pub target_id: Option<String>,
    /// The media type of the target.
    pub target_mime_type: Option<String>,
}

/// What the service says of a file.
#[derive(Debug)]
pub struct DriveFile {
    /// The id by which the service knows the file.
    pub id: Option<String>,
    /// The name that its owner gave it.
    pub name: Option<String>,
    /// Its media type.
    pub mime_type: Option<String>,
    /// The MD5 checksum of its contents.
    pub md5_checksum: Option<String>,
    /// The size of its contents, in bytes.
    pub size: Option<i64>,
    /// Where it leads, if it is a shortcut.
    pub shortcut_details: Option<ShortcutDetails>,
    /// Whether it is a shortcut.
    pub is_shortcut: bool,
    /// Whether it is a directory.
    pub is_directory: bool,
    /// Whether it has contents of its own.
    pub is_binary: bool,
    /// The kind of document that its media type stands for, if it is exported.
    pub doc_type: Option<DocType>,
    /// Whether its media type is one of the service's own.
    pub is_google_apps_type: bool,
}

/// The text of an optional string.
pub open spec fn text_of(value: Option<String>) -> Option<Seq<char>> {
    match value {
        Some(text) => Some(text@),
        None => None,
    }
}

/// The text of an optional string, `fallback` where it is missing.
pub open spec fn text_or(value: Option<String>, fallback: Seq<char>) -> Seq<char> {
    match value {
        Some(text) => text@,
        None => fallback,
    }
}

/// Copies an optional string.
pub(crate) fn copy_text(value: &Option<String>) -> (copy: Option<String>)
    ensures
        text_of(copy) == text_of(*value),
{
    match value {
        Some(text) => Some(text.clone()),
        None => None,
    }
}

/// The text of an optional string, `fallback` where it is missing.
pub(crate) fn copy_text_or(value: &Option<String>, fallback: &str) -> (copy: String)
    ensures
        copy@ == text_or(*value, fallback@),
{
    match value {
        Some(text) => text.clone(),
        None => fallback.to_owned(),
    }
}

/// The number of bytes that a file of this size counts for. A size that is missing counts for
/// nothing; one below zero wraps around, as unsigned numbers do.
pub open spec fn counted_size(size: Option<i64>) -> int {
    match size {
        Some(bytes) => if bytes < 0 {
            bytes + 0x1_0000_0000_0000_0000
        } else {
            bytes as int
        },
        None => 0,
    }
}

/// The number of bytes that a file of this size counts for.
pub fn count_size(size: Option<i64>) -> (count: u64)
    ensures
        count == counted_size(size),
{
    match size {
        Some(bytes) => {
            assert(bytes < 0 ==> (bytes as u64) == bytes + 0x1_0000_0000_0000_0000)
                by (bit_vector);
            bytes as u64
        },
        None => 0,
    }
}

/// A size counts for the unsigned number that has the same bits: the one number of sixty-four
/// bits that differs from it by a multiple of two to the sixty-fourth. A missing size counts for
/// nothing.
pub proof fn law_size_counts_as_unsigned(size: Option<i64>)
    ensures
        0 <= counted_size(size) < 0x1_0000_0000_0000_0000,
        size is None ==> counted_size(size) == 0,
        size matches Some(bytes) ==> (counted_size(size) - bytes) % 0x1_0000_0000_0000_0000 == 0,
        size matches Some(bytes) ==> (bytes >= 0 ==> counted_size(size) == bytes),
{
}

/// An optional text is the text where there is one, and its absence or the fallback where there
/// is none.
pub proof fn law_optional_text(value: Option<String>, fallback: Seq<char>)
    ensures
        value matches Some(text) ==> text_of(value) == Some(text@) && text_or(value, fallback)
            == text@,
        value is None ==> text_of(value) is None && text_or(value, fallback) == fallback,
{
}

} // verus!

//! The error kinds of the object store and repository locator, each with a
//! distinct human-readable message.

use crate::digits::{dec_digits, lemma_dec_digits_are_digits};
use crate::digits::render_decimal;
use crate::textutil::{ascii_chars_of, ascii_to_string};
use vstd::prelude::*;

verus! {

/// Every failure the library reports. The two "absent, not an error"
/// outcomes (a missing directory when nothing is to be created, a read of an
/// identifier with no stored object) are `Option` results, not errors.
#[derive(Debug, Clone, PartialEq, Eq)]
pub enum GirError {
    /// Non-forced construction found no metadata directory or no config file.
    NotARepository,
    /// The locator reached the file-system root without finding a repository.
    RepositoryNotFound,
    /// The config declares a repository format version other than zero.
    UnsupportedFormatVersion { found: i64 },
    /// A path that had to be a directory exists and is not one.
    NotADirectory,
    /// The bootstrap target's metadata directory already has entries.
    DirectoryNotEmpty,
    /// A stored object's frame header is inconsistent with its length.
    MalformedObject { identifier: String },
    /// A type tag that is none of commit, tree, tag, blob.
    UnknownObjectType { tag: String, identifier: Option<String> },
    /// An input/output or decompression failure, with its description.
    Io { detail: String },
}

/// The characters of `v` written in signed ASCII decimal.
pub open spec fn i64_chars(v: int) -> Seq<char> {
    if v < 0 {
        seq!['-'] + ascii_chars_of(dec_digits((-v) as nat))
    } else {
        ascii_chars_of(dec_digits(v as nat))
    }
}

/// Renders `v` in signed ASCII decimal.
pub fn render_i64(v: i64) -> (r: String)
    ensures
        r@ == i64_chars(v as int),
{
    if v >= 0 {
        let bytes = render_decimal(v as u64);
        proof {
            lemma_dec_digits_are_digits(v as nat);
        }
        ascii_to_string(bytes)
    } else {
        let mag: u64 = if v == i64::MIN {
            9223372036854775808u64
        } else {
            (-v) as u64
        };
        let mut out: Vec<u8> = Vec::new();
        out.push(45u8);
        let mut bytes = render_decimal(mag);
        proof {
            lemma_dec_digits_are_digits(mag as nat);
        }
        out.append(&mut bytes);
        assert(45u8 as char == '-');
        assert(ascii_chars_of(out@) =~= seq!['-'] + ascii_chars_of(dec_digits(mag as nat)));
        ascii_to_string(out)
    }
}

impl GirError {
    /// The message shown to a user for this error.
    pub open spec fn message_spec(&self) -> Seq<char> {
        match self {
            GirError::NotARepository => "Not a git repository"@,
            GirError::RepositoryNotFound => "No Repository found"@,
            GirError::UnsupportedFormatVersion { found } => "Unsupported repositoryformatversion: "@
                + i64_chars(*found as int),
            GirError::NotADirectory => "Not a directory"@,
            GirError::DirectoryNotEmpty => "Directory not empty"@,
            GirError::MalformedObject { identifier } => "Malformed object "@ + identifier@
                + ": bad length"@,
            GirError::UnknownObjectType { tag, identifier: Some(id) } => "Unknown type "@ + tag@
                + " for object "@ + id@,
            GirError::UnknownObjectType { tag, identifier: None } => "Unknown type "@ + tag@ + "!"@,
            GirError::Io { detail } => detail@,
        }
    }

    /// Renders the human-readable message for this error.
    pub fn message(&self) -> (r: String)
        ensures
            r@ == self.message_spec(),
    {
        match self {
            GirError::NotARepository => "Not a git repository".to_owned(),
            GirError::RepositoryNotFound => "No Repository found".to_owned(),
            GirError::UnsupportedFormatVersion { found } => {
                let r = "Unsupported repositoryformatversion: ".to_owned().concat(
                    render_i64(*found).as_str(),
                );
                r
            },
            GirError::NotADirectory => "Not a directory".to_owned(),
            GirError::DirectoryNotEmpty => "Directory not empty".to_owned(),
            GirError::MalformedObject { identifier } => {
                let r = "Malformed object ".to_owned().concat(identifier.as_str()).concat(
                    ": bad length",
                );
                r
            },
            GirError::UnknownObjectType { tag, identifier } => {
                match identifier {
                    Some(id) => {
                        let r = "Unknown type ".to_owned().concat(tag.as_str()).concat(
                            " for object ",
                        ).concat(id.as_str());
                        r
                    },
                    None => {
                        let r = "Unknown type ".to_owned().concat(tag.as_str()).concat("!");
                        r
                    },
                }
            },
            GirError::Io { detail } => detail.clone(),
        }
    }
}

} // verus!

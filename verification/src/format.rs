//! The formats of input files, and how one is chosen.
use crate::text::{chars_of, same_text};
use vstd::prelude::*;

verus! {

/// The format of an input file.
#[derive(Debug, Clone, Copy, PartialEq, Eq, Structural)]
pub enum FileFormat {
    Edifact,
    Xml,
    Json,
}

/// The code of a character, a capital letter of the alphabet counting as
/// its small letter.
pub open spec fn small(c: char) -> u32 {
    if 'A' as u32 <= c as u32 <= 'Z' as u32 {
        ((c as u32) + 32) as u32
    } else {
        c as u32
    }
}

/// Whether `s` is `word` but for the case of its letters. `word` is meant
/// to be written in small letters.
pub open spec fn reads_as(s: Seq<char>, word: Seq<char>) -> bool {
    s.len() == word.len() && forall|i: int| 0 <= i < s.len() ==> small(#[trigger] s[i]) == word[i] as u32
}

/// The format of a file: the one that is named, if one is, else the one
/// that the file's extension stands for. A name counts whatever the case of
/// its letters, an extension only as it is written; what is neither XML nor
/// JSON is taken for an interchange.
pub open spec fn format_for(extension: Option<Seq<char>>, named: Option<Seq<char>>) -> FileFormat {
    match named {
        Some(name) => if reads_as(name, "xml"@) {
            FileFormat::Xml
        } else if reads_as(name, "json"@) {
            FileFormat::Json
        } else {
            FileFormat::Edifact
        },
        None => match extension {
            Some(ext) => if ext == "xml"@ {
                FileFormat::Xml
            } else if ext == "json"@ || ext == "jsonl"@ {
                FileFormat::Json
            } else {
                FileFormat::Edifact
            },
            None => FileFormat::Edifact,
        },
    }
}

/// The code of `c`, capital letters counting as small ones.
fn to_small(c: char) -> (r: u32)
    ensures
        r == small(c),
{
    let u: u32 = c as u32;
    assert('A' as u32 == 0x41 && 'Z' as u32 == 0x5a);
    if 0x41 <= u && u <= 0x5a {
        u + 32
    } else {
        u
    }
}

/// Tells whether `s` is `word` but for the case of its letters.
fn reads(s: &str, word: &str) -> (r: bool)
    ensures
        r == reads_as(s@, word@),
{
    let a = chars_of(s);
    let b = chars_of(word);
    if a.len() != b.len() {
        return false;
    }
    let mut i: usize = 0;
    while i < a.len()
        invariant
            a@ == s@,
            b@ == word@,
            a.len() == b.len(),
            i <= a.len(),
            forall|j: int| 0 <= j < i ==> small(#[trigger] s@[j]) == word@[j] as u32,
        decreases a.len() - i,
    {
        if to_small(a[i]) != b[i] as u32 {
            return false;
        }
        i += 1;
    }
    true
}

/// Chooses the format of a file from the extension of its path and the
/// format that was named for it.
pub fn determine_format(extension: Option<&str>, format: Option<&str>) -> (r: FileFormat)
    ensures
        r == format_for(
            match extension {
                Some(ext) => Some(ext@),
                None => None,
            },
            match format {
                Some(name) => Some(name@),
                None => None,
            },
        ),
{
    match format {
        Some(name) => if reads(name, "xml") {
            FileFormat::Xml
        } else if reads(name, "json") {
            FileFormat::Json
        } else {
            FileFormat::Edifact
        },
        None => match extension {
            Some(ext) => if same_text(ext, "xml") {
                FileFormat::Xml
            } else if same_text(ext, "json") || same_text(ext, "jsonl") {
                FileFormat::Json
            } else {
                FileFormat::Edifact
            },
            None => FileFormat::Edifact,
        },
    }
}

/// Why a format is not handed to a sink, in words; `None` of the one
/// format that is: an interchange.
pub open spec fn refusal_of(format: FileFormat) -> Option<Seq<char>> {
    match format {
        FileFormat::Edifact => None,
        FileFormat::Xml => Some("XML not yet supported with async Sink"@),
        FileFormat::Json => Some("JSON not yet supported with async Sink"@),
    }
}

/// Tells why files of `format` are not handed to a sink, if they are not.
pub fn unsupported_message(format: FileFormat) -> (r: Option<&'static str>)
    ensures
        match r {
            Some(words) => refusal_of(format) == Some(words@),
            None => refusal_of(format) is None,
        },
{
    match format {
        FileFormat::Edifact => None,
        FileFormat::Xml => Some("XML not yet supported with async Sink"),
        FileFormat::Json => Some("JSON not yet supported with async Sink"),
    }
}

} // verus!

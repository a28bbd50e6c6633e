//! Which documents the server looks after.

use vstd::prelude::*;

use crate::path::extension;
use crate::path::may_find_none;
use crate::text::ascii_lowercase;
use crate::text::characters;
use crate::text::matches_ignoring_case;
use crate::uri::uri_path;
use crate::uri::Uri;

verus! {

/// Whether a language id names assembly, in whatever case it is written.
pub open spec fn is_asm_language(language_id: Seq<char>) -> bool {
    ascii_lowercase(language_id) == "asm"@ || ascii_lowercase(language_id) == "assembly"@
}

/// Whether the extension of a file, where it has one, is one of assembly: `asm` or `s`, in whatever
/// case.
pub open spec fn is_asm_extension(extension: Option<Seq<char>>) -> bool {
    match extension {
        Some(ext) => ascii_lowercase(ext) == "asm"@ || ascii_lowercase(ext) == "s"@,
        None => false,
    }
}

/// Whether a path names an assembly file.
pub open spec fn is_asm_path(path: Seq<char>) -> bool {
    is_asm_extension(extension(path))
}

/// Whether the path of a URI names an assembly file.
pub open spec fn is_asm_uri(uri: Seq<char>) -> bool {
    match uri_path(uri) {
        Some(path) => is_asm_path(path),
        None => false,
    }
}

/// Whether `asm_uri` can be what the system at hand says of a URI: that it names an assembly file
/// where its path does, unless the system finds no extension behind what it takes for a prefix.
pub open spec fn may_be_asm(uri: Seq<char>, asm_uri: bool) -> bool {
    asm_uri == is_asm_uri(uri) || !asm_uri && may_find_none(uri_path(uri)->0)
}

/// Whether a document is assembly by its language id, where it has one, or by its URI.
pub open spec fn is_asm_document(asm_uri: bool, language_id: Option<Seq<char>>) -> bool {
    ||| (language_id matches Some(id) && is_asm_language(id))
    ||| asm_uri
}

impl Uri {
    /// Whether this names an assembly file on the system at hand.
    pub open spec fn is_asm(self) -> bool {
        is_asm_extension(self.extension())
    }
}

/// Whether the server supports documents of this language.
pub fn is_supported_asm_language_id(language_id: &str) -> (r: bool)
    ensures
        r == is_asm_language(language_id@),
{
    let id = characters(language_id);
    matches_ignoring_case(&id, "asm") || matches_ignoring_case(&id, "assembly")
}

/// Whether the server supports the file that a URI names.
pub fn is_supported_asm_uri(uri: &Uri) -> (r: bool)
    ensures
        r == uri.is_asm(),
        may_be_asm(uri@, r),
{
    match uri.path_extension() {
        Some(extension) => {
            let extension = characters(extension);
            matches_ignoring_case(&extension, "asm") || matches_ignoring_case(&extension, "s")
        },
        None => false,
    }
}

/// Whether the server supports a document, given its URI and, where known, its language id.
pub fn is_supported_asm_document(uri: &Uri, language_id: Option<&str>) -> (r: bool)
    ensures
        r == is_asm_document(
            uri.is_asm(),
            match language_id {
                Some(id) => Some(id@),
                None => None,
            },
        ),
{
    let has_supported_language = match language_id {
        Some(id) => is_supported_asm_language_id(id),
        None => false,
    };
    has_supported_language || is_supported_asm_uri(uri)
}

} // verus!

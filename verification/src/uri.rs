//! Document URIs.

use std::str::FromStr;
use vstd::prelude::*;

use crate::path::host_extension;
use crate::path::host_may_find;
use crate::text::is_within_limit;
use crate::text::within_limit;

verus! {

/// The path component of the URI reference `text`, or `None` where `text` is not one.
pub uninterp spec fn uri_path(text: Seq<char>) -> Option<Seq<char>>;

/// Whether `text` is a URI that a document can have.
pub open spec fn is_uri(text: Seq<char>) -> bool {
    within_limit(text) && uri_path(text) is Some
}

/// Calls `lsp_types::Uri::from_str` and, on the URI that it returns, `path`.
///
/// `uri_path` stands for both: whether the text parses, and which stretch of it, still
/// percent-encoded, is the path. A path holds no backslash. A text of more than `i32::MAX` bytes
/// makes the parser panic.
#[verifier::external_body]
fn parse_path(text: &str) -> (r: Option<String>)
    requires
        within_limit(text@),
    ensures
        match r {
            Some(path) => uri_path(text@) == Some(path@) && !path@.contains('\\'),
            None => uri_path(text@) is None,
        },
{
    let uri = lsp_types::Uri::from_str(text).ok()?;
    Some(uri.path().as_str().to_string())
}

/// A parsed document URI, with the extension that the system at hand finds in its path.
///
/// Two URIs are the same where their texts are.
pub struct Uri {
    text: String,
    path: String,
    extension: Option<String>,
}

impl View for Uri {
    type V = Seq<char>;

    closed spec fn view(&self) -> Seq<char> {
        self.text@
    }
}

impl Clone for Uri {
    fn clone(&self) -> (r: Self)
        ensures
            r@ == self@,
            r.extension() == self.extension(),
    {
        proof {
            use_type_invariant(self);
        }
        let extension = match &self.extension {
            Some(extension) => Some(extension.clone()),
            None => None,
        };
        Uri { text: self.text.clone(), path: self.path.clone(), extension }
    }
}

impl Uri {
    #[verifier::type_invariant]
    closed spec fn is_parsed(self) -> bool {
        &&& within_limit(self.text@)
        &&& uri_path(self.text@) == Some(self.path@)
        &&& host_may_find(self.path@, self.extension())
    }

    /// The extension that the system at hand finds in the path of this URI.
    pub closed spec fn extension(self) -> Option<Seq<char>> {
        match self.extension {
            Some(extension) => Some(extension@),
            None => None,
        }
    }

    /// Parses `text`, or returns `None` where it is not a URI that a document can have.
    pub fn parse(text: &str) -> (r: Option<Self>)
        ensures
            match r {
                Some(uri) => {
                    &&& uri@ == text@
                    &&& is_uri(text@)
                    &&& host_may_find(uri_path(text@)->0, uri.extension())
                },
                None => !is_uri(text@),
            },
    {
        if !is_within_limit(text) {
            return None;
        }
        match parse_path(text) {
            Some(path) => {
                let extension = host_extension(path.as_str());
                Some(Uri { text: text.to_owned(), path, extension })
            },
            None => None,
        }
    }

    /// The text of this URI.
    pub fn as_str(&self) -> (r: &str)
        ensures
            r@ == self@,
            is_uri(r@),
    {
        proof {
            use_type_invariant(self);
        }
        self.text.as_str()
    }

    /// The path component of this URI, percent-encoded.
    pub fn path(&self) -> (r: &str)
        ensures
            is_uri(self@),
            uri_path(self@) == Some(r@),
    {
        proof {
            use_type_invariant(self);
        }
        self.path.as_str()
    }

    /// The extension that the system at hand finds in the path of this URI.
    pub fn path_extension(&self) -> (r: Option<&str>)
        ensures
            is_uri(self@),
            host_may_find(uri_path(self@)->0, self.extension()),
            match r {
                Some(extension) => self.extension() == Some(extension@),
                None => self.extension() is None,
            },
    {
        proof {
            use_type_invariant(self);
        }
        match &self.extension {
            Some(extension) => Some(extension.as_str()),
            None => None,
        }
    }
}

} // verus!

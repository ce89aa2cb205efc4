//! Sections: the parsed form of a document that declarations are read from.
//!
//! A section is its own model: contracts speak of sections as values, and
//! of the texts in them by their views.

use crate::error::{agrees, fail, failure, Error, ErrorKind, ErrorView};
use crate::kind::text_view;
use crate::text::{starts_with, trim};
use vstd::prelude::*;

verus! {

/// The headers of a section in their order: line, key and value.
#[derive(Debug, PartialEq)]
pub struct Header(pub Vec<(usize, String, String)>);

/// A section: a name, a caption, headers, a body with the line it starts
/// at, and sections below it.
#[derive(Debug, PartialEq)]
pub struct Section {
    pub name: String,
    pub caption: Option<String>,
    pub header: Header,
    pub body: Option<(usize, String)>,
    pub sub_sections: Vec<Section>,
    pub line_number: usize,
}

/// The value of the first header from index `from` on whose key is `key`.
pub open spec fn header_value(headers: Seq<(usize, String, String)>, key: Seq<char>, from: int) -> Option<
    Seq<char>,
>
    decreases headers.len() - from,
{
    if from < 0 || from >= headers.len() {
        None
    } else if headers[from].1@ == key {
        Some(headers[from].2@)
    } else {
        header_value(headers, key, from + 1)
    }
}

/// The body as it counts: none where it starts with `/`, which marks a
/// comment; where it starts with `\/`, what follows the backslash.
pub open spec fn body_text(body: Option<(usize, String)>) -> Option<(usize, Seq<char>)> {
    match body {
        None => None,
        Some((line, text)) => {
            let t = trim(text@);
            if starts_with(t, seq!['/']) {
                None
            } else if starts_with(t, seq!['\\', '/']) {
                Some((line, t.subrange(1, t.len() as int)))
            } else {
                Some((line, text@))
            }
        },
    }
}

/// What a section must have and has not.
pub open spec fn missing(what: Seq<char>, doc: Seq<char>, line_number: usize) -> ErrorView {
    failure(ErrorKind::NotFound, what, doc, line_number)
}

impl Header {
    /// The value of the first header with the key `name`.
    pub fn str(&self, doc_id: &str, line_number: usize, name: &str) -> (r: Result<String, Error>)
        ensures
            agrees(
                r,
                match header_value(self.0@, name@, 0) {
                    Some(v) => Ok(v),
                    None => Err(missing(name@, doc_id@, line_number)),
                },
            ),
    {
        let n: usize = self.0.len();
        let mut i: usize = 0;
        while i < n
            invariant
                n == self.0@.len(),
                i <= n,
                header_value(self.0@, name@, 0) == header_value(self.0@, name@, i as int),
            decreases n - i,
        {
            if crate::text::str_eq(self.0[i].1.as_str(), name) {
                return Ok(self.0[i].2.clone());
            }
            i += 1;
        }
        fail(ErrorKind::NotFound, name, doc_id, line_number)
    }
}

impl Section {
    /// The caption, which must be there.
    pub fn caption(&self, line_number: usize, doc_id: &str) -> (r: Result<String, Error>)
        ensures
            agrees(
                r,
                match text_view(self.caption) {
                    Some(c) => Ok(c),
                    None => Err(missing("caption"@, doc_id@, line_number)),
                },
            ),
    {
        match &self.caption {
            Some(c) => Ok(c.clone()),
            None => fail(ErrorKind::NotFound, "caption", doc_id, line_number),
        }
    }

    /// The body as it counts: not a comment, and without the backslash that
    /// keeps it from being one.
    pub fn body_without_comment(&self) -> (r: Option<(usize, String)>)
        ensures
            match r {
                Some((line, text)) => body_text(self.body) == Some((line, text@)),
                None => body_text(self.body) is None,
            },
    {
        match &self.body {
            None => None,
            Some((line, text)) => {
                let t = crate::text::trim_str(text.as_str());
                proof {
                    reveal_strlit("/");
                    reveal_strlit("\\/");
                    assert("/"@ =~= seq!['/']);
                    assert("\\/"@ =~= seq!['\\', '/']);
                }
                if crate::text::starts_with_str(t, "/") {
                    None
                } else if crate::text::starts_with_str(t, "\\/") {
                    let n: usize = t.unicode_len();
                    Some((*line, t.substring_char(1, n).to_owned()))
                } else {
                    Some((*line, text.clone()))
                }
            },
        }
    }
}

} // verus!

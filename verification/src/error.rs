//! The failures of resolution and compilation.

use vstd::prelude::*;

verus! {

/// What went wrong.
#[derive(Debug, Clone, Copy, PartialEq, Eq, Structural)]
pub enum ErrorKind {
    /// A symbol, an alias, a field or a record that is not declared.
    NotFound,
    /// A kind other than the expected one, or a literal that does not read as
    /// the expected kind.
    TypeMismatch,
    /// A declaration that is not put together as the language asks.
    Malformed,
    /// Declarations that refer to one another in a circle.
    Circular,
}

/// A failure: its sort, the name or text at fault, and the document and line
/// of the declaration.
#[derive(Debug, PartialEq)]
pub struct Error {
    pub kind: ErrorKind,
    pub subject: String,
    pub doc_id: String,
    pub line_number: usize,
}

pub struct ErrorView {
    pub kind: ErrorKind,
    pub subject: Seq<char>,
    pub doc_id: Seq<char>,
    pub line_number: usize,
}

impl View for Error {
    type V = ErrorView;

    open spec fn view(&self) -> ErrorView {
        ErrorView {
            kind: self.kind,
            subject: self.subject@,
            doc_id: self.doc_id@,
            line_number: self.line_number,
        }
    }
}

impl Clone for Error {
    fn clone(&self) -> (r: Self)
        ensures
            r@ == self@,
    {
        Error {
            kind: self.kind,
            subject: self.subject.clone(),
            doc_id: self.doc_id.clone(),
            line_number: self.line_number,
        }
    }
}

impl Error {
    /// The text of the failure: document, line, sort and subject.
    pub fn message(&self) -> (r: String)
        ensures
            r@ == self.doc_id@ + ":"@ + crate::number::decimal(self.line_number as nat) + " -> "@ + (
            match self.kind {
                ErrorKind::NotFound => "not found: "@,
                ErrorKind::TypeMismatch => "type mismatch: "@,
                ErrorKind::Malformed => "malformed: "@,
                ErrorKind::Circular => "circular: "@,
            }) + self.subject@,
    {
        let mut out = self.doc_id.clone();
        out.append(":");
        out.append(crate::number::index_text(self.line_number).as_str());
        out.append(" -> ");
        out.append(
            match self.kind {
                ErrorKind::NotFound => "not found: ",
                ErrorKind::TypeMismatch => "type mismatch: ",
                ErrorKind::Malformed => "malformed: ",
                ErrorKind::Circular => "circular: ",
            },
        );
        out.append(self.subject.as_str());
        out
    }
}

/// The failure of sort `kind` about `subject`, at `line_number` of `doc_id`.
pub open spec fn failure(
    kind: ErrorKind,
    subject: Seq<char>,
    doc_id: Seq<char>,
    line_number: usize,
) -> ErrorView {
    ErrorView { kind, subject, doc_id, line_number }
}

/// The failure of sort `kind` about `subject`, as a result.
pub fn fail<T>(kind: ErrorKind, subject: &str, doc_id: &str, line_number: usize) -> (r: Result<
    T,
    Error,
>)
    ensures
        r is Err,
        r->Err_0@ == failure(kind, subject@, doc_id@, line_number),
{
    Err(Error { kind, subject: subject.to_owned(), doc_id: doc_id.to_owned(), line_number })
}

/// Whether an outcome is the one that the model gives: the view of what
/// came back is what the model names.
pub open spec fn agrees<T: View>(r: Result<T, Error>, model: Result<T::V, ErrorView>) -> bool {
    match r {
        Ok(v) => model == Ok::<T::V, ErrorView>(v@),
        Err(e) => model == Err::<T::V, ErrorView>(e@),
    }
}

/// The same for a result that is its own model.
pub open spec fn agrees_plain<T>(r: Result<T, Error>, model: Result<T, ErrorView>) -> bool {
    match r {
        Ok(v) => model == Ok::<T, ErrorView>(v),
        Err(e) => model == Err::<T, ErrorView>(e@),
    }
}

/// The same for an optional result.
pub open spec fn agrees_option<T: View>(
    r: Result<Option<T>, Error>,
    model: Result<Option<T::V>, ErrorView>,
) -> bool {
    match r {
        Ok(Some(v)) => model == Ok::<Option<T::V>, ErrorView>(Some(v@)),
        Ok(None) => model == Ok::<Option<T::V>, ErrorView>(None),
        Err(e) => model == Err::<Option<T::V>, ErrorView>(e@),
    }
}

} // verus!

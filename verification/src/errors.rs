//! The errors that the library reports.

use crate::text::{decimal, u64_to_string};
use crate::uuid::{hyphenated_spec, Uuid};
use vstd::prelude::*;

verus! {

/// One rejected field of an input.
#[derive(Debug, PartialEq, Eq)]
pub struct ValidationError {
    pub field: String,
    pub error: String,
}

/// What a validation error says, as plain text.
pub struct ValidationErrorView {
    pub field: Seq<char>,
    pub error: Seq<char>,
}

impl View for ValidationError {
    type V = ValidationErrorView;

    open spec fn view(&self) -> ValidationErrorView {
        ValidationErrorView { field: self.field@, error: self.error@ }
    }
}

impl Clone for ValidationError {
    fn clone(&self) -> (r: ValidationError)
        ensures
            r@ == self@,
    {
        ValidationError { field: self.field.clone(), error: self.error.clone() }
    }
}

impl ValidationErrorView {
    /// The line that reports this error.
    pub open spec fn message(self) -> Seq<char> {
        self.field + ": "@ + self.error
    }
}

impl ValidationError {
    /// An error on the field `field` with the reason `error`.
    pub fn new(field: &str, error: &str) -> (r: ValidationError)
        ensures
            r@.field == field@,
            r@.error == error@,
    {
        ValidationError { field: String::from_str(field), error: String::from_str(error) }
    }

    /// The line that reports this error: the field, a colon and the reason.
    pub fn message(&self) -> (r: String)
        ensures
            r@ == self@.message(),
    {
        let mut s = self.field.clone();
        s.append(": ");
        s.append(self.error.as_str());
        s
    }

    /// A short name for this kind of error.
    pub fn description(&self) -> (r: &'static str)
        ensures
            r@ == "Validation Error"@,
    {
        "Validation Error"
    }
}

/// The views of a list of validation errors.
pub open spec fn validation_views(errors: Seq<ValidationError>) -> Seq<ValidationErrorView> {
    Seq::new(errors.len(), |i: int| errors[i]@)
}

/// The detail lines of a list of validation errors: for each error a line
/// break, two spaces and its message.
pub open spec fn detail_lines(errors: Seq<ValidationErrorView>) -> Seq<char>
    decreases errors.len(),
{
    if errors.len() == 0 {
        Seq::<char>::empty()
    } else {
        detail_lines(errors.drop_last()) + "\n  "@ + errors.last().message()
    }
}

/// The report of a list of validation errors: their number, then one detail
/// line for each.
pub open spec fn validation_report(errors: Seq<ValidationErrorView>) -> Seq<char> {
    decimal(errors.len()) + " validaiton errors encountered"@ + detail_lines(errors)
}

/// All the rejected fields of one input.
#[derive(Debug)]
pub struct ValidationErrors {
    pub errors: Vec<ValidationError>,
}

impl View for ValidationErrors {
    type V = Seq<ValidationErrorView>;

    open spec fn view(&self) -> Seq<ValidationErrorView> {
        validation_views(self.errors@)
    }
}

impl ValidationErrors {
    /// Gathers a list of validation errors into one error.
    pub fn new(errors: Vec<ValidationError>) -> (r: ValidationErrors)
        ensures
            r@ == validation_views(errors@),
    {
        ValidationErrors { errors }
    }

    /// Gathers a list of validation errors into a boxed error.
    pub fn bx(errors: Vec<ValidationError>) -> (r: Box<Error>)
        ensures
            r@ == ErrorView::Validation(validation_views(errors@)),
    {
        Box::new(Error::Validation(ValidationErrors::new(errors)))
    }

    /// The report: a head line with the number of errors, then one line for
    /// each of them.
    pub fn message(&self) -> (r: String)
        ensures
            r@ == validation_report(self@),
    {
        let n = self.errors.len();
        let mut s = u64_to_string(n as u64);
        s.append(" validaiton errors encountered");
        let ghost head = s@;
        let mut i: usize = 0;
        assert(self@.subrange(0, 0) =~= Seq::<ValidationErrorView>::empty());
        while i < n
            invariant
                n == self.errors@.len(),
                i <= n,
                s@ == head + detail_lines(self@.subrange(0, i as int)),
            decreases n - i,
        {
            let line = self.errors[i].message();
            s.append("\n  ");
            s.append(line.as_str());
            proof {
                let next = self@.subrange(0, i + 1);
                assert(next.drop_last() =~= self@.subrange(0, i as int));
                assert(next.last() == self.errors@[i as int]@);
                assert(s@ =~= head + detail_lines(next));
            }
            i = i + 1;
        }
        assert(self@.subrange(0, n as int) =~= self@);
        s
    }

    /// A short name for this kind of error.
    pub fn description(&self) -> (r: &'static str)
        ensures
            r@ == "Validations Error"@,
    {
        "Validations Error"
    }
}

/// An error that carries nothing but a message.
#[derive(Debug)]
pub struct GenericError {
    pub msg: String,
}

impl View for GenericError {
    type V = Seq<char>;

    open spec fn view(&self) -> Seq<char> {
        self.msg@
    }
}

impl GenericError {
    /// An error with the message `msg`.
    pub fn new(msg: &str) -> (r: GenericError)
        ensures
            r@ == msg@,
    {
        GenericError { msg: String::from_str(msg) }
    }

    /// A boxed error with the message `msg`.
    pub fn bx(msg: &str) -> (r: Box<Error>)
        ensures
            r@ == ErrorView::Generic(msg@),
    {
        Box::new(Error::Generic(GenericError::new(msg)))
    }

    /// The message.
    pub fn message(&self) -> (r: String)
        ensures
            r@ == self@,
    {
        self.msg.clone()
    }

    /// A short name for this kind of error.
    pub fn description(&self) -> (r: &'static str)
        ensures
            r@ == "Generic Error"@,
    {
        "Generic Error"
    }
}

/// The error of an insertion under an identifier that is taken.
#[derive(Debug)]
pub struct ConflictError {
    pub uuid: Uuid,
}

impl View for ConflictError {
    type V = Seq<u8>;

    open spec fn view(&self) -> Seq<u8> {
        self.uuid@
    }
}

impl ConflictError {
    /// The conflict on `uuid`.
    pub fn new(uuid: &Uuid) -> (r: ConflictError)
        ensures
            r@ == uuid@,
    {
        ConflictError { uuid: *uuid }
    }

    /// The conflict on `uuid`, boxed.
    pub fn bx(uuid: &Uuid) -> (r: Box<Error>)
        ensures
            r@ == ErrorView::Conflict(uuid@),
    {
        Box::new(Error::Conflict(ConflictError::new(uuid)))
    }

    /// The line that reports the conflict.
    pub fn message(&self) -> (r: String)
        ensures
            r@ == "Duplicated UUID: "@ + hyphenated_spec(self@),
    {
        let mut s = String::from_str("Duplicated UUID: ");
        let id = self.uuid.hyphenated();
        s.append(id.as_str());
        s
    }

    /// A short name for this kind of error.
    pub fn description(&self) -> (r: &'static str)
        ensures
            r@ == "Conflict"@,
    {
        "Conflict"
    }
}

/// The error of a lookup under an identifier that is not there.
#[derive(Debug)]
pub struct NotFoundError {
    pub uuid: Uuid,
}

impl View for NotFoundError {
    type V = Seq<u8>;

    open spec fn view(&self) -> Seq<u8> {
        self.uuid@
    }
}

impl NotFoundError {
    /// The failed lookup of `uuid`.
    pub fn new(uuid: &Uuid) -> (r: NotFoundError)
        ensures
            r@ == uuid@,
    {
        NotFoundError { uuid: *uuid }
    }

    /// The failed lookup of `uuid`, boxed.
    pub fn bx(uuid: &Uuid) -> (r: Box<Error>)
        ensures
            r@ == ErrorView::NotFound(uuid@),
    {
        Box::new(Error::NotFound(NotFoundError::new(uuid)))
    }

    /// The line that reports the failed lookup.
    pub fn message(&self) -> (r: String)
        ensures
            r@ == "UUID not found: "@ + hyphenated_spec(self@),
    {
        let mut s = String::from_str("UUID not found: ");
        let id = self.uuid.hyphenated();
        s.append(id.as_str());
        s
    }

    /// A short name for this kind of error.
    pub fn description(&self) -> (r: &'static str)
        ensures
            r@ == "Not Found"@,
    {
        "Not Found"
    }
}

/// The error of a text that should be a number and is none.
#[derive(Debug)]
pub struct NumberError {
    pub text: String,
}

impl View for NumberError {
    type V = Seq<char>;

    open spec fn view(&self) -> Seq<char> {
        self.text@
    }
}

impl NumberError {
    /// The error of reading `text` as a number.
    pub fn new(text: &str) -> (r: NumberError)
        ensures
            r@ == text@,
    {
        NumberError { text: String::from_str(text) }
    }

    /// The line that reports the error.
    pub fn message(&self) -> (r: String)
        ensures
            r@ == "invalid number: "@ + self@,
    {
        let mut s = String::from_str("invalid number: ");
        s.append(self.text.as_str());
        s
    }
}

/// Any error of the library.
#[derive(Debug)]
pub enum Error {
    Validation(ValidationErrors),
    Generic(GenericError),
    Conflict(ConflictError),
    NotFound(NotFoundError),
    Number(NumberError),
}

/// What an error says, as plain values.
pub enum ErrorView {
    Validation(Seq<ValidationErrorView>),
    Generic(Seq<char>),
    Conflict(Seq<u8>),
    NotFound(Seq<u8>),
    Number(Seq<char>),
}

impl ErrorView {
    /// The text that reports the error.
    pub open spec fn message(self) -> Seq<char> {
        match self {
            ErrorView::Validation(errors) => validation_report(errors),
            ErrorView::Generic(msg) => msg,
            ErrorView::Conflict(uuid) => "Duplicated UUID: "@ + hyphenated_spec(uuid),
            ErrorView::NotFound(uuid) => "UUID not found: "@ + hyphenated_spec(uuid),
            ErrorView::Number(text) => "invalid number: "@ + text,
        }
    }
}

impl View for Error {
    type V = ErrorView;

    open spec fn view(&self) -> ErrorView {
        match self {
            Error::Validation(e) => ErrorView::Validation(e@),
            Error::Generic(e) => ErrorView::Generic(e@),
            Error::Conflict(e) => ErrorView::Conflict(e@),
            Error::NotFound(e) => ErrorView::NotFound(e@),
            Error::Number(e) => ErrorView::Number(e@),
        }
    }
}

impl Error {
    /// The text that reports the error.
    pub fn message(&self) -> (r: String)
        ensures
            r@ == self@.message(),
    {
        match self {
            Error::Validation(e) => e.message(),
            Error::Generic(e) => e.message(),
            Error::Conflict(e) => e.message(),
            Error::NotFound(e) => e.message(),
            Error::Number(e) => e.message(),
        }
    }
}

} // verus!

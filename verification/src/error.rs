//! The ways in which assembling a novel can fail.

use vstd::prelude::*;
use vstd::string::StringExecFns;
use crate::naming::{decimal, write_decimal};
use crate::text::string_of;

verus! {

/// A failure, with the data that tells one failure of its kind from another.
#[derive(Debug, PartialEq, Eq)]
pub enum NovelError {
    /// The server answered with a status other than 200.
    HttpStatus(u16),
    /// No element of the page matches the selector path.
    SelectorNotFound(String),
    /// The element that was found lacks the attribute of this name.
    AttributeNotFound(String),
    /// A field that may not be empty came out empty.
    EmptyField,
    /// The address does not start with a scheme and a host of two labels or
    /// more.
    InvalidUrl,
    /// The address of the cover image ends in no file extension.
    ImageKindUnrecognized,
    /// The address does not belong to the one site that is supported.
    UnsupportedSource,
    /// The command line does not hold exactly one argument.
    UsageError,
    /// The book could not be made: the archive encoder refused, in its own
    /// words, or a path is too long for it.
    Encoder(String),
}

/// What a `NovelError` says, over sequences of characters.
pub enum Failure {
    HttpStatus(u16),
    SelectorNotFound(Seq<char>),
    AttributeNotFound(Seq<char>),
    EmptyField,
    InvalidUrl,
    ImageKindUnrecognized,
    UnsupportedSource,
    UsageError,
    Encoder(Seq<char>),
}

impl View for NovelError {
    type V = Failure;

    open spec fn view(&self) -> Failure {
        match self {
            NovelError::HttpStatus(code) => Failure::HttpStatus(*code),
            NovelError::SelectorNotFound(path) => Failure::SelectorNotFound(path@),
            NovelError::AttributeNotFound(name) => Failure::AttributeNotFound(name@),
            NovelError::EmptyField => Failure::EmptyField,
            NovelError::InvalidUrl => Failure::InvalidUrl,
            NovelError::ImageKindUnrecognized => Failure::ImageKindUnrecognized,
            NovelError::UnsupportedSource => Failure::UnsupportedSource,
            NovelError::UsageError => Failure::UsageError,
            NovelError::Encoder(words) => Failure::Encoder(words@),
        }
    }
}

/// What a failure is told as.
pub open spec fn message_of(failure: Failure) -> Seq<char> {
    match failure {
        Failure::HttpStatus(code) => "The server answered with status "@ + decimal(code as nat),
        Failure::SelectorNotFound(path) => "No element matches the selector "@ + path,
        Failure::AttributeNotFound(name) => "The element has no attribute "@ + name,
        Failure::EmptyField => "A field that may not be empty is empty"@,
        Failure::InvalidUrl => "The address starts with no host"@,
        Failure::ImageKindUnrecognized => "The address of the cover image names no kind of image"@,
        Failure::UnsupportedSource => "Only the lightnovelworld.com is supported"@,
        Failure::UsageError => "Please specify novel url"@,
        Failure::Encoder(words) => "The book could not be made: "@ + words,
    }
}

impl NovelError {
    /// What the failure is told as.
    pub fn message(&self) -> (text: String)
        ensures
            text@ == message_of(self@),
    {
        match self {
            NovelError::HttpStatus(code) => {
                let mut text = String::from_str("The server answered with status ");
                let digits = write_decimal(*code as u64);
                let digits = string_of(&digits);
                text.append(digits.as_str());
                text
            },
            NovelError::SelectorNotFound(path) => {
                let mut text = String::from_str("No element matches the selector ");
                text.append(path.as_str());
                text
            },
            NovelError::AttributeNotFound(name) => {
                let mut text = String::from_str("The element has no attribute ");
                text.append(name.as_str());
                text
            },
            NovelError::EmptyField => String::from_str("A field that may not be empty is empty"),
            NovelError::InvalidUrl => String::from_str("The address starts with no host"),
            NovelError::ImageKindUnrecognized => String::from_str(
                "The address of the cover image names no kind of image",
            ),
            NovelError::UnsupportedSource => String::from_str(
                "Only the lightnovelworld.com is supported",
            ),
            NovelError::UsageError => String::from_str("Please specify novel url"),
            NovelError::Encoder(words) => {
                let mut text = String::from_str("The book could not be made: ");
                text.append(words.as_str());
                text
            },
        }
    }
}

/// What a result holds, the value or the failure, by its view.
pub open spec fn outcome<T: View>(r: Result<T, NovelError>) -> Result<T::V, Failure> {
    match r {
        Ok(value) => Ok(value@),
        Err(e) => Err(e@),
    }
}

} // verus!

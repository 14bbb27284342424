//! What can go wrong while IDL is read.

use vstd::prelude::*;

verus! {

/// A message about the text at byte `pos` of the file being read.
#[derive(Debug)]
pub struct ParserError {
    pub message: String,
    pub pos: usize,
}

/// The model of a [`ParserError`].
#[verifier::ext_equal]
pub struct ParserFault {
    pub message: Seq<char>,
    pub pos: nat,
}

impl View for ParserError {
    type V = ParserFault;

    open spec fn view(&self) -> ParserFault {
        ParserFault { message: self.message@, pos: self.pos as nat }
    }
}

impl Clone for ParserError {
    fn clone(&self) -> (copy: Self)
        ensures
            copy@ == self@,
    {
        ParserError { message: self.message.clone(), pos: self.pos }
    }
}

impl ParserError {
    /// An error that says `message` of the text at `pos`.
    pub fn new(message: &str, pos: usize) -> (error: Self)
        ensures
            error@ == (ParserFault { message: message@, pos: pos as nat }),
    {
        ParserError { message: message.to_owned(), pos }
    }
}

/// Why IDL could not be turned into modules.
#[derive(Debug)]
pub enum IdlError {
    /// The text is not IDL, or a declaration in it cannot be read.
    ParserError(ParserError),
    /// The named file could not be loaded.
    FileNotFound(String),
    /// A parse tree lacks parts that reading it relies on.
    MalformedTree,
}

/// The model of an [`IdlError`].
#[verifier::ext_equal]
pub enum IdlFault {
    ParserError(ParserFault),
    FileNotFound(Seq<char>),
    MalformedTree,
}

impl View for IdlError {
    type V = IdlFault;

    open spec fn view(&self) -> IdlFault {
        match self {
            IdlError::ParserError(error) => IdlFault::ParserError(error@),
            IdlError::FileNotFound(name) => IdlFault::FileNotFound(name@),
            IdlError::MalformedTree => IdlFault::MalformedTree,
        }
    }
}

impl Clone for IdlError {
    fn clone(&self) -> (copy: Self)
        ensures
            copy@ == self@,
    {
        match self {
            IdlError::ParserError(error) => IdlError::ParserError(error.clone()),
            IdlError::FileNotFound(name) => IdlError::FileNotFound(name.clone()),
            IdlError::MalformedTree => IdlError::MalformedTree,
        }
    }
}

/// The model of what a reader returns: the model of the value, or of the error.
pub open spec fn outcome<T: View>(r: Result<T, ParserError>) -> Result<T::V, ParserFault> {
    match r {
        Ok(value) => Ok(value@),
        Err(error) => Err(error@),
    }
}

}

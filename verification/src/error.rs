//! The error types of mutation and checking, and their models.

use vstd::prelude::*;

verus! {

/// The reason why some data does not conform to a fact.
pub type Failure = String;

/// An error caused by a defect in a fact, a generator or this library, as
/// opposed to data that does not meet a constraint.
#[derive(Clone, Debug, PartialEq, Eq)]
pub enum ContrafactError {
    /// A description of what went wrong.
    Other(String),
}

/// A result whose error is a [`ContrafactError`].
pub type ContrafactResult<T> = Result<T, ContrafactError>;

/// What can go wrong during one `mutate` call.
#[derive(Debug, PartialEq)]
pub enum MutationError {
    /// In check mode: the data would have had to change. This is the expected,
    /// recoverable kind of failure.
    Check(Failure),
    /// The value source could not produce a value.
    Arbitrary(arbitrary::Error),
    /// The library met a defect of its own or of a fact's logic.
    Internal(ContrafactError),
    /// The fact was put together wrongly by its author.
    User(String),
}

/// The outcome of one `mutate` call.
pub type Mutation<T> = Result<T, MutationError>;

/// The model of a [`MutationError`]: its kind and its text.
pub enum Flaw {
    Check(Seq<char>),
    Arbitrary(Seq<char>),
    Internal(Seq<char>),
    User(Seq<char>),
}

impl Flaw {
    /// The flaw with `prefix` put before its text if it is of the check kind;
    /// every other kind is left as it is.
    pub open spec fn within(self, prefix: Seq<char>) -> Flaw {
        match self {
            Flaw::Check(text) => Flaw::Check(prefix + text),
            other => other,
        }
    }

    /// The text that this flaw carries.
    pub open spec fn text(self) -> Seq<char> {
        match self {
            Flaw::Check(text) => text,
            Flaw::Arbitrary(text) => text,
            Flaw::Internal(text) => text,
            Flaw::User(text) => text,
        }
    }
}

impl View for ContrafactError {
    type V = Seq<char>;

    open spec fn view(&self) -> Seq<char> {
        match self {
            ContrafactError::Other(text) => text@,
        }
    }
}

impl View for MutationError {
    type V = Flaw;

    open spec fn view(&self) -> Flaw {
        match self {
            MutationError::Check(text) => Flaw::Check(text@),
            MutationError::Arbitrary(e) => Flaw::Arbitrary(crate::outside::error_text(*e)),
            MutationError::Internal(e) => Flaw::Internal(e@),
            MutationError::User(text) => Flaw::User(text@),
        }
    }
}

/// Adds a way to reword check failures to [`Mutation`].
pub trait MutationExt<T>: Sized {
    /// Rewords a check failure with `f`; success and every other kind of error
    /// pass through untouched.
    fn map_check_err<F: Fn(Failure) -> Failure>(self, f: F) -> (r: Mutation<T>)
        requires
            forall|text: Failure| call_requires(f, (text,)),
    ;
}

impl<T> MutationExt<T> for Mutation<T> {
    fn map_check_err<F: Fn(Failure) -> Failure>(self, f: F) -> (r: Mutation<T>)
        ensures
            match self {
                Ok(v) => r == Ok::<T, MutationError>(v),
                Err(MutationError::Check(text)) => r matches Err(MutationError::Check(reworded))
                    && call_ensures(f, (text,), reworded),
                Err(other) => r == Err::<T, MutationError>(other),
            },
    {
        match self {
            Err(MutationError::Check(text)) => Err(MutationError::Check(f(text))),
            other => other,
        }
    }
}

/// Puts `prefix` before the text of a check failure; success and every other
/// kind of error pass through untouched.
pub fn prefix_check_err<T>(outcome: Mutation<T>, prefix: &str) -> (r: Mutation<T>)
    ensures
        match outcome {
            Ok(v) => r == Ok::<T, MutationError>(v),
            Err(e) => r matches Err(e2) && e2@ == e@.within(prefix@),
        },
{
    match outcome {
        Err(MutationError::Check(text)) => {
            let mut reworded = String::from_str(prefix);
            reworded.append(text.as_str());
            Err(MutationError::Check(reworded))
        },
        other => other,
    }
}

} // verus!

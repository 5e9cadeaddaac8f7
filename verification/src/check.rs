//! The result of checking data against a fact.

use vstd::prelude::*;
use crate::error::{ContrafactError, ContrafactResult, Failure, Flaw, Mutation, MutationError};

verus! {

/// The result of a check: the failures of the data, one message for every
/// constraint that was not met, or the report that the check itself could not
/// be carried out.
#[derive(Debug, Clone, PartialEq, Eq)]
#[must_use]
pub enum Check {
    /// The check ran, and reported these failures. An empty list means that
    /// the data is valid.
    Failures(Vec<Failure>),
    /// The check could not be carried out: there is a defect in a fact or in
    /// a generator.
    Error(String),
}

/// The model of a [`Check`].
pub enum CheckView {
    Failures(Seq<Seq<char>>),
    Error(Seq<char>),
}

impl View for Check {
    type V = CheckView;

    open spec fn view(&self) -> CheckView {
        match self {
            Check::Failures(failures) => CheckView::Failures(texts(failures@)),
            Check::Error(text) => CheckView::Error(text@),
        }
    }
}

impl CheckView {
    /// No failure and no error.
    pub open spec fn passes(self) -> bool {
        self == CheckView::Failures(Seq::<Seq<char>>::empty())
    }
}

/// `parts` laid end to end with `sep` between neighbours.
pub open spec fn joined(parts: Seq<Seq<char>>, sep: Seq<char>) -> Seq<char>
    decreases parts.len(),
{
    if parts.len() == 0 {
        Seq::<char>::empty()
    } else if parts.len() == 1 {
        parts[0]
    } else {
        joined(parts.drop_last(), sep) + sep + parts.last()
    }
}

/// The models of a vector of texts.
pub open spec fn texts(v: Seq<String>) -> Seq<Seq<char>> {
    Seq::new(v.len(), |i: int| v[i]@)
}

impl Check {
    /// Rewords every failure with `f`, in order. An error is left as it is.
    pub fn map<F>(self, f: F) -> (r: Check) where F: Fn(Failure) -> Failure
        requires
            forall|text: Failure| call_requires(f, (text,)),
        ensures
            match self {
                Check::Failures(failures) => r matches Check::Failures(reworded)
                    && reworded@.len() == failures@.len()
                    && forall|i: int|
                    0 <= i < failures@.len() ==> call_ensures(
                        f,
                        (failures@[i],),
                        #[trigger] reworded@[i],
                    ),
                Check::Error(text) => r == Check::Error(text),
            },
    {
        match self {
            Check::Failures(failures) => {
                let mut reworded: Vec<Failure> = Vec::new();
                let mut i: usize = 0;
                while i < failures.len()
                    invariant
                        i <= failures.len(),
                        reworded@.len() == i,
                        forall|text: Failure| call_requires(f, (text,)),
                        forall|k: int|
                            0 <= k < i ==> call_ensures(
                                f,
                                (failures@[k],),
                                #[trigger] reworded@[k],
                            ),
                    decreases failures.len() - i,
                {
                    reworded.push(f(failures[i].clone()));
                    i += 1;
                }
                Check::Failures(reworded)
            },
            Check::Error(text) => Check::Error(text),
        }
    }

    /// Accepts a check that passed. A check with failures or an error must
    /// not be handed in.
    pub fn unwrap(self)
        requires
            self.is_ok(),
    {
        vstd::pervasive::runtime_assert(self.is_ok());
    }

    /// Whether there are no failures and no error.
    #[verifier::when_used_as_spec(spec_is_ok)]
    pub fn is_ok(&self) -> (ok: bool)
        ensures
            ok == self.spec_is_ok(),
            ok == self@.passes(),
    {
        proof {
            self.ok_means_passes();
        }
        match self {
            Check::Failures(failures) => failures.len() == 0,
            Check::Error(_) => false,
        }
    }

    /// Whether there are no failures and no error.
    pub open spec fn spec_is_ok(&self) -> bool {
        self matches Check::Failures(failures) && failures@.len() == 0
    }

    /// A check is in order exactly if its model passes.
    pub proof fn ok_means_passes(&self)
        ensures
            self.is_ok() <==> self@.passes(),
    {
        if let Check::Failures(failures) = self {
            assert(texts(failures@).len() == failures@.len());
            if failures@.len() == 0 {
                assert(texts(failures@) =~= Seq::<Seq<char>>::empty());
            }
        }
    }

    /// Whether there is at least one failure, or an error.
    pub fn is_err(&self) -> (err: bool)
        ensures
            err == !self.is_ok(),
    {
        !self.is_ok()
    }

    /// The failures of a check that ran; the error of one that could not be
    /// carried out.
    pub fn failures(&self) -> (r: Result<&[Failure], ContrafactError>)
        ensures
            match self {
                Check::Failures(failures) => r matches Ok(slice) && slice@ == failures@,
                Check::Error(text) => r matches Err(e) && e@ == text@,
            },
    {
        match self {
            Check::Failures(failures) => Ok(failures.as_slice()),
            Check::Error(text) => Err(ContrafactError::Other(text.clone())),
        }
    }

    /// `Ok(Ok(()))` where the data is valid, `Ok(Err(failures))` where it is
    /// not, and `Err` where the check could not be carried out.
    pub fn result(self) -> (r: ContrafactResult<Result<(), Vec<Failure>>>)
        ensures
            match self {
                Check::Failures(failures) => if failures@.len() == 0 {
                    r == Ok::<Result<(), Vec<Failure>>, ContrafactError>(Ok(()))
                } else {
                    r == Ok::<Result<(), Vec<Failure>>, ContrafactError>(Err(failures))
                },
                Check::Error(text) => r == Err::<Result<(), Vec<Failure>>, ContrafactError>(
                    ContrafactError::Other(text),
                ),
            },
    {
        match self {
            Check::Failures(failures) => {
                if failures.len() == 0 {
                    Ok(Ok(()))
                } else {
                    Ok(Err(failures))
                }
            },
            Check::Error(text) => Err(ContrafactError::Other(text)),
        }
    }

    /// As [`Check::result`], with the failures joined into one text, a `;`
    /// between neighbours.
    pub fn result_joined(self) -> (r: ContrafactResult<Result<(), String>>)
        ensures
            match self {
                Check::Failures(failures) => if failures@.len() == 0 {
                    r == Ok::<Result<(), String>, ContrafactError>(Ok(()))
                } else {
                    r matches Ok(Err(text)) && text@ == joined(texts(failures@), ";"@)
                },
                Check::Error(text) => r == Err::<Result<(), String>, ContrafactError>(
                    ContrafactError::Other(text),
                ),
            },
    {
        match self {
            Check::Failures(failures) => {
                if failures.len() == 0 {
                    Ok(Ok(()))
                } else {
                    Ok(Err(join(&failures, ";")))
                }
            },
            Check::Error(text) => Err(ContrafactError::Other(text)),
        }
    }

    /// A passing check if `ok`, a check with the one failure `err` if not.
    pub fn check(ok: bool, err: &str) -> (r: Check)
        ensures
            ok ==> r@.passes(),
            !ok ==> r@ == CheckView::Failures(seq![err@]),
    {
        if ok {
            Check::pass()
        } else {
            Check::fail(err)
        }
    }

    /// The check that one `mutate` call in check mode amounts to: success is a
    /// pass, an error of the check kind is the one failure, and every other
    /// kind of error is reported as an error of the check itself.
    pub fn from_mutation<T>(res: Mutation<T>) -> (r: Check)
        ensures
            r@ == Check::of_outcome(match res {
                Ok(_) => None,
                Err(e) => Some(e@),
            }),
    {
        match res {
            Ok(_) => Check::pass(),
            Err(MutationError::Check(err)) => Check::fail(err.as_str()),
            Err(MutationError::Arbitrary(err)) => Check::Error(crate::outside::describe(&err)),
            Err(MutationError::Internal(err)) => Check::Error(debug_error(&err)),
            Err(MutationError::User(err)) => Check::Error(crate::outside::debug_text(err.as_str())),
        }
    }

    /// What [`Check::from_mutation`] makes of the flaw of a mutation, `None`
    /// standing for success.
    pub open spec fn of_outcome(outcome: Option<Flaw>) -> CheckView {
        match outcome {
            None => CheckView::Failures(Seq::<Seq<char>>::empty()),
            Some(Flaw::Check(text)) => CheckView::Failures(seq![text]),
            Some(Flaw::Arbitrary(text)) => CheckView::Error(text),
            Some(Flaw::Internal(text)) => CheckView::Error(debug_of_error(text)),
            Some(Flaw::User(text)) => CheckView::Error(crate::outside::quoted(text)),
        }
    }

    /// The check whose failures are the `Ok` of `res`, or whose error is the
    /// debug rendering of its `Err`.
    pub fn from_result(res: Result<Vec<Failure>, ContrafactError>) -> (r: Check)
        ensures
            match res {
                Ok(failures) => r == Check::Failures(failures),
                Err(e) => r matches Check::Error(text) && text@ == debug_of_error(e@),
            },
    {
        match res {
            Ok(failures) => Check::Failures(failures),
            Err(e) => Check::Error(debug_error(&e)),
        }
    }

    /// The check that passed.
    pub fn pass() -> (r: Check)
        ensures
            r@.passes(),
            r.is_ok(),
    {
        let r = Check::Failures(Vec::new());
        proof {
            r.ok_means_passes();
        }
        r
    }

    /// The check with the single failure `error`.
    pub fn fail(error: &str) -> (r: Check)
        ensures
            r@ == CheckView::Failures(seq![error@]),
            !r.is_ok(),
    {
        let mut failures: Vec<Failure> = Vec::new();
        failures.push(String::from_str(error));
        proof {
            assert(texts(failures@) =~= seq![error@]);
        }
        Check::Failures(failures)
    }
}

/// The debug rendering of a [`ContrafactError`] whose text is `text`.
pub open spec fn debug_of_error(text: Seq<char>) -> Seq<char> {
    "Other("@ + crate::outside::quoted(text) + ")"@
}

/// The debug rendering of `e`.
pub fn debug_error(e: &ContrafactError) -> (text: String)
    ensures
        text@ == debug_of_error(e@),
{
    match e {
        ContrafactError::Other(inner) => {
            let mut text = String::from_str("Other(");
            text.append(crate::outside::debug_text(inner.as_str()).as_str());
            text.append(")");
            text
        },
    }
}

/// The texts of `parts` laid end to end with `sep` between neighbours.
pub fn join(parts: &Vec<String>, sep: &str) -> (text: String)
    ensures
        text@ == joined(texts(parts@), sep@),
{
    let mut text = String::new();
    let mut i: usize = 0;
    while i < parts.len()
        invariant
            i <= parts.len(),
            text@ == joined(texts(parts@).take(i as int), sep@),
        decreases parts.len() - i,
    {
        let ghost done = texts(parts@).take(i as int);
        let ghost more = texts(parts@).take(i + 1);
        proof {
            assert(more.drop_last() =~= done);
            assert(more.last() == parts@[i as int]@);
        }
        if i > 0 {
            text.append(sep);
        }
        text.append(parts[i].as_str());
        proof {
            if i == 0 {
                assert(text@ =~= parts@[0]@);
            } else {
                assert(text@ =~= joined(done, sep@) + sep@ + parts@[i as int]@);
            }
        }
        i += 1;
    }
    proof {
        assert(texts(parts@).take(parts.len() as int) =~= texts(parts@));
    }
    text
}

} // verus!

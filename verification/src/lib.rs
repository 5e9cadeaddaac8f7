//! Composable constraints ("facts") over typed values. One mutation routine
//! per fact serves two purposes: run with a generator in check mode it
//! validates existing data, run with a generator in build mode it shapes
//! arbitrary data until the constraint is met.
//!
//! Contracts are stated over models. Every constrained type has a
//! mathematical model ([`Target::model`]). Every fact has a rule
//! ([`Fact::rule`]), and the verdict on a value, the values that a mutation
//! may produce and the rule that applies to the next item of a sequence are
//! spec functions of the rule.
//!
//! - [`generator`]: the two-mode source of data and its five primitives.
//! - [`check`]: the result of a check.
//! - [`error`]: the errors of mutation, and their models.
//! - [`target`], [`integer`]: the types that facts can constrain.
//! - [`fact`]: the constraint interface, with checking, satisfying and
//!   building derived from it, and the relations that say how a retry and a
//!   search by resampling may go.
//! - [`facts`]: the facts that come with the library.
//! - [`sequence`]: checking and building item by item.
//! - [`outside`]: what is taken from other crates without proof.

pub mod check;
pub mod error;
pub mod fact;
pub mod facts;
pub mod generator;
pub mod integer;
pub mod outside;
pub mod sequence;
pub mod target;

pub use check::{Check, CheckView};
pub use error::{
    ContrafactError, ContrafactResult, Failure, Flaw, Mutation, MutationError, MutationExt,
};
pub use fact::{Fact, Retry, BRUTE_ITERATION_LIMIT, SATISFY_ATTEMPTS};
pub use facts::and::{and, AndFact};
pub use facts::brute::{
    brute, brute_labeled, BruteFact, BruteLabeledFact, BruteLabeledRule, BruteResult, BruteRule,
};
pub use facts::consecutive_int::{
    consecutive_int, consecutive_int_, ConsecutiveIntFact, ConsecutiveRule,
};
pub use facts::constant::{always, never, BoolFact, BoolRule};
pub use facts::either::{EitherFact, EitherRule};
pub use facts::eq::{eq, eq_, ne, ne_, EqFact, EqOp, EqRule};
pub use facts::in_range::{in_range, in_range_, Bound, InRangeFact, InRangeRule};
pub use facts::in_slice::{in_slice, in_slice_, InSliceFact, InSliceRule};
pub use facts::lens::{lens2, LensFact, LensRule};
pub use facts::mapped::{mapped, mapped_fallible, MappedFact, MappedFallibleFact, MappedRule};
pub use facts::not::{not, not_, NotFact, NotRule};
pub use facts::or::{or, OrFact};
pub use facts::prism::{prism, PrismFact, PrismRule};
pub use facts::same::{different, same, SameFact, SameRule};
pub use facts::step::{stepped, StepFact, StepRule};
pub use facts::seq::{seq_len, sized_seq, SeqFact, SeqLenFact, SeqLenRule};
pub use generator::{Draw, Generator};
pub use integer::Int;
pub use sequence::{build_seq, check_seq, collect_checks};
pub use target::Target;

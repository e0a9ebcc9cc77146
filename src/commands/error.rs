use vstd::prelude::*;

use super::{ask, weigh_in};

verus! {

pub type Result<T> = core::result::Result<T, Error>;

/// Why a command produced no reply.
#[derive(Debug, PartialEq, Eq)]
pub enum Error {
    AskError(ask::Error),
    WeighInError(weigh_in::Error),
    /// No command of that name exists.
    CommandNotImplemented,
}

impl From<ask::Error> for Error {
    fn from(value: ask::Error) -> (r: Self) {
        Error::AskError(value)
    }
}

impl vstd::std_specs::convert::FromSpecImpl<ask::Error> for Error {
    open spec fn obeys_from_spec() -> bool {
        true
    }

    open spec fn from_spec(v: ask::Error) -> Self {
        Error::AskError(v)
    }
}

impl From<weigh_in::Error> for Error {
    fn from(value: weigh_in::Error) -> (r: Self) {
        Error::WeighInError(value)
    }
}

impl vstd::std_specs::convert::FromSpecImpl<weigh_in::Error> for Error {
    open spec fn obeys_from_spec() -> bool {
        true
    }

    open spec fn from_spec(v: weigh_in::Error) -> Self {
        Error::WeighInError(v)
    }
}

} // verus!

pub mod icmp;

use vstd::prelude::*;

verus! {

#[derive(Debug, Clone)]
pub enum ParseErrors {
    /// The lookup itself failed; its message.
    HostLookupErr(String),
    /// The lookup found no address.
    HostLookupEmpty,
}

/// A target that could not be turned into an address.
#[derive(Debug, Clone)]
pub struct ParseError {
    target: String,
    err: ParseErrors,
}

impl ParseError {
    pub closed spec fn spec_target(&self) -> Seq<char> {
        self.target@
    }

    pub closed spec fn spec_err(&self) -> ParseErrors {
        self.err
    }

    /// The target as given.
    pub fn target(&self) -> (r: &str)
        ensures
            r@ == self.spec_target(),
    {
        self.target.as_str()
    }

    /// Why no address came of it.
    pub fn err(&self) -> (r: &ParseErrors)
        ensures
            *r == self.spec_err(),
    {
        &self.err
    }
}

/// The address to ping for `target`, given the outcome of a host lookup of
/// it: the first address found. A lookup that found nothing and one that
/// failed are told apart.
pub fn from_lookup<A>(target: &str, lookup: Result<Vec<A>, String>) -> (r: Result<A, ParseError>)
    ensures
        match lookup {
            Ok(addrs) => if addrs@.len() > 0 {
                r == Ok::<A, ParseError>(addrs@[0])
            } else {
                r matches Err(e) && e.spec_target() == target@ && e.spec_err() is HostLookupEmpty
            },
            Err(msg) => r matches Err(e) && e.spec_target() == target@ && e.spec_err()
                == ParseErrors::HostLookupErr(msg),
        },
{
    match lookup {
        Ok(mut addrs) => {
            if addrs.len() > 0 {
                Ok(addrs.remove(0))
            } else {
                Err(ParseError { target: target.to_owned(), err: ParseErrors::HostLookupEmpty })
            }
        },
        Err(msg) => Err(ParseError { target: target.to_owned(), err: ParseErrors::HostLookupErr(msg) }),
    }
}

} // verus!

//! Errors of address and prefix handling.

use vstd::prelude::*;

use crate::text::{decimal, push_decimal, push_str};

verus! {

/// A prefix length that does not fit the address family.
#[derive(Debug, PartialEq, Eq, Structural)]
pub enum Error {
    InvalidV4Cidr(u8),
    InvalidV6Cidr(u8),
}

/// Text of an [`Error`].
pub open spec fn error_msg(e: Error) -> Seq<char> {
    match e {
        Error::InvalidV4Cidr(c) => "given cidr is invalid for Ipv4 address. must be between 1 and 32 given: "@
            + decimal(c as nat),
        Error::InvalidV6Cidr(c) => "given cidr is invalid for Ipv6 address. must be between 1 and 128 given: "@
            + decimal(c as nat),
    }
}

impl Error {
    /// A human readable description.
    pub fn get_msg(&self) -> (r: String)
        ensures
            r@ == error_msg(*self),
    {
        let mut r = String::new();
        match self {
            Error::InvalidV4Cidr(cidr) => {
                push_str(
                    &mut r,
                    "given cidr is invalid for Ipv4 address. must be between 1 and 32 given: ",
                );
                push_decimal(&mut r, *cidr as u128);
            },
            Error::InvalidV6Cidr(cidr) => {
                push_str(
                    &mut r,
                    "given cidr is invalid for Ipv6 address. must be between 1 and 128 given: ",
                );
                push_decimal(&mut r, *cidr as u128);
            },
        }
        r
    }
}

pub type Result<T> = core::result::Result<T, Error>;

} // verus!

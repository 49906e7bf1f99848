//! Errors that stop the processing of one configuration.

use vstd::prelude::*;

use crate::net::error::{error_msg, Error};
use crate::text::push_str;

verus! {

/// Why a configuration could not be turned into zones. Those from
/// `UnresolvedKey` to `NoCurrentZone` come from resolving the
/// configuration; the rest from reading it.
pub enum RuntimeError {
    Error(String),
    UnresolvedKey(String),
    InvalidIpv4(String),
    InvalidIpv6(String),
    InvalidIp(String),
    InvalidReverseV4(String),
    InvalidReverseV6(String),
    InvalidCidr(Error),
    NoCurrentZone,
    InvalidFile(String),
    FileNotFound(String),
    UnknownFileExtension,
    InvalidFileExtension(String),
    JsonError(String),
    YamlError(String),
    IoError(String),
}

/// The message of an error.
pub open spec fn runtime_error_msg(e: RuntimeError) -> Seq<char> {
    match e {
        RuntimeError::Error(m) => m@,
        RuntimeError::UnresolvedKey(k) => "failed to find requested key: "@ + k@,
        RuntimeError::InvalidIpv4(t) => "invalid ipv4 string given: "@ + t@,
        RuntimeError::InvalidIpv6(t) => "invalid ipv6 string given: "@ + t@,
        RuntimeError::InvalidIp(t) => "invalid ipv4/ipv6 string given: "@ + t@,
        RuntimeError::InvalidReverseV4(t) => "given ipv4 is invalid for reverse zone. given: "@ + t@,
        RuntimeError::InvalidReverseV6(t) => "given ipv6 is invalid for reverse zone. given: "@ + t@,
        RuntimeError::InvalidFile(p) => "configuration file is not a file: "@ + p@,
        RuntimeError::FileNotFound(f) => "file not found: "@ + f@,
        RuntimeError::InvalidFileExtension(e) => "invalid file extension given. "@ + e@,
        RuntimeError::JsonError(m) => m@,
        RuntimeError::YamlError(m) => m@,
        RuntimeError::IoError(m) => m@,
        RuntimeError::InvalidCidr(c) => error_msg(c),
        RuntimeError::NoCurrentZone => "no zone is current to add the record to"@,
        RuntimeError::UnknownFileExtension => "unknown file extension given"@,
    }
}

impl RuntimeError {
    /// A human readable description.
    pub fn get_msg(&self) -> (r: String)
        ensures
            r@ == runtime_error_msg(*self),
    {
        let mut r = String::new();
        match self {
            RuntimeError::Error(m) => {
                push_str(&mut r, m.as_str());
            },
            RuntimeError::UnresolvedKey(k) => {
                proof {
                    reveal_strlit("failed to find requested key: ");
                }
                push_str(&mut r, "failed to find requested key: ");
                push_str(&mut r, k.as_str());
            },
            RuntimeError::InvalidIpv4(t) => {
                proof {
                    reveal_strlit("invalid ipv4 string given: ");
                }
                push_str(&mut r, "invalid ipv4 string given: ");
                push_str(&mut r, t.as_str());
            },
            RuntimeError::InvalidIpv6(t) => {
                proof {
                    reveal_strlit("invalid ipv6 string given: ");
                }
                push_str(&mut r, "invalid ipv6 string given: ");
                push_str(&mut r, t.as_str());
            },
            RuntimeError::InvalidIp(t) => {
                proof {
                    reveal_strlit("invalid ipv4/ipv6 string given: ");
                }
                push_str(&mut r, "invalid ipv4/ipv6 string given: ");
                push_str(&mut r, t.as_str());
            },
            RuntimeError::InvalidReverseV4(t) => {
                proof {
                    reveal_strlit("given ipv4 is invalid for reverse zone. given: ");
                }
                push_str(&mut r, "given ipv4 is invalid for reverse zone. given: ");
                push_str(&mut r, t.as_str());
            },
            RuntimeError::InvalidReverseV6(t) => {
                proof {
                    reveal_strlit("given ipv6 is invalid for reverse zone. given: ");
                }
                push_str(&mut r, "given ipv6 is invalid for reverse zone. given: ");
                push_str(&mut r, t.as_str());
            },
            RuntimeError::InvalidFile(p) => {
                proof {
                    reveal_strlit("configuration file is not a file: ");
                }
                push_str(&mut r, "configuration file is not a file: ");
                push_str(&mut r, p.as_str());
            },
            RuntimeError::FileNotFound(f) => {
                proof {
                    reveal_strlit("file not found: ");
                }
                push_str(&mut r, "file not found: ");
                push_str(&mut r, f.as_str());
            },
            RuntimeError::InvalidFileExtension(e) => {
                proof {
                    reveal_strlit("invalid file extension given. ");
                }
                push_str(&mut r, "invalid file extension given. ");
                push_str(&mut r, e.as_str());
            },
            RuntimeError::JsonError(m) => {
                push_str(&mut r, m.as_str());
            },
            RuntimeError::YamlError(m) => {
                push_str(&mut r, m.as_str());
            },
            RuntimeError::IoError(m) => {
                push_str(&mut r, m.as_str());
            },
            RuntimeError::InvalidCidr(c) => {
                r = c.get_msg();
            },
            RuntimeError::NoCurrentZone => {
                proof {
                    reveal_strlit("no zone is current to add the record to");
                }
                push_str(&mut r, "no zone is current to add the record to");
            },
            RuntimeError::UnknownFileExtension => {
                proof {
                    reveal_strlit("unknown file extension given");
                }
                push_str(&mut r, "unknown file extension given");
            },
        }
        r
    }

    /// The exit status of a run that ends in this error.
    pub fn get_code(&self) -> (r: i32)
        ensures
            r == 1,
    {
        1
    }
}

pub type Result<T> = core::result::Result<T, RuntimeError>;

} // verus!

//! The requests and limits of a container as numbers.

use crate::error::{Error, ParseError};
use crate::manifest::Resources;
use crate::quantity::{cpu_millicores, memory_bytes, parse_cpu, parse_memory};
use vstd::prelude::*;

verus! {

/// An amount of CPU in millicores and of memory in bytes.
#[derive(Clone, Copy, Debug, PartialEq, Eq, Structural)]
pub struct Usage {
    pub cpu: u64,
    pub memory: u64,
}

/// The requests and limits of a container as numbers; `None` where the
/// container declares none.
#[derive(Clone, Copy, Debug, PartialEq, Eq, Structural)]
pub struct Declared {
    pub requests: Option<Usage>,
    pub limits: Option<Usage>,
}

/// The first of two findings: `a` where there is one, else `b`.
pub open spec fn first_of<T>(a: Option<T>, b: Option<T>) -> Option<T> {
    if a is Some {
        a
    } else {
        b
    }
}

/// Why the memory quantity `s` cannot be parsed, if it cannot.
pub open spec fn memory_error(s: Seq<char>) -> Option<ParseError> {
    match memory_bytes(s) {
        Ok(_) => None,
        Err(e) => Some(ParseError::Memory(e)),
    }
}

/// Why the CPU quantity `s` cannot be parsed, if it cannot.
pub open spec fn cpu_error(s: Seq<char>) -> Option<ParseError> {
    match cpu_millicores(s) {
        Ok(_) => None,
        Err(e) => Some(ParseError::Cpu(e)),
    }
}

/// The first quantity of `r` that cannot be parsed, looking at the requested
/// memory, the memory limit, the requested CPU and the CPU limit in this order.
pub open spec fn unreadable(r: Resources) -> Option<ParseError> {
    first_of(
        match r.requests {
            Some(q) => memory_error(q.memory@),
            None => None,
        },
        first_of(
            match r.limits {
                Some(l) => memory_error(l.memory@),
                None => None,
            },
            first_of(
                match r.requests {
                    Some(q) => cpu_error(q.cpu@),
                    None => None,
                },
                match r.limits {
                    Some(l) => cpu_error(l.cpu@),
                    None => None,
                },
            ),
        ),
    )
}

/// The requests and limits of `r` as numbers, where all of them can be parsed.
pub open spec fn declared(r: Resources) -> Declared {
    Declared {
        requests: match r.requests {
            Some(q) => Some(
                Usage { cpu: cpu_millicores(q.cpu@)->Ok_0, memory: memory_bytes(q.memory@)->Ok_0 },
            ),
            None => None,
        },
        limits: match r.limits {
            Some(l) => Some(
                Usage { cpu: cpu_millicores(l.cpu@)->Ok_0, memory: memory_bytes(l.memory@)->Ok_0 },
            ),
            None => None,
        },
    }
}

/// What parsing the quantities of `r` gives.
pub open spec fn normalised(r: Resources) -> Result<Declared, Error> {
    match unreadable(r) {
        Some(e) => Err(Error::Parse(e)),
        None => Ok(declared(r)),
    }
}

impl Resources {
    /// Parses the quantities of the requests and limits.
    pub fn normalised(&self) -> (r: Result<Declared, Error>)
        ensures
            r == normalised(*self),
    {
        let req_memory = match &self.requests {
            Some(q) => match parse_memory(q.memory.as_str()) {
                Ok(v) => Some(v),
                Err(e) => {
                    return Err(Error::Parse(ParseError::Memory(e)));
                },
            },
            None => None,
        };
        let lim_memory = match &self.limits {
            Some(l) => match parse_memory(l.memory.as_str()) {
                Ok(v) => Some(v),
                Err(e) => {
                    return Err(Error::Parse(ParseError::Memory(e)));
                },
            },
            None => None,
        };
        let requests = match &self.requests {
            Some(q) => match parse_cpu(q.cpu.as_str()) {
                Ok(v) => Some(Usage { cpu: v, memory: req_memory.unwrap() }),
                Err(e) => {
                    return Err(Error::Parse(ParseError::Cpu(e)));
                },
            },
            None => None,
        };
        let limits = match &self.limits {
            Some(l) => match parse_cpu(l.cpu.as_str()) {
                Ok(v) => Some(Usage { cpu: v, memory: lim_memory.unwrap() }),
                Err(e) => {
                    return Err(Error::Parse(ParseError::Cpu(e)));
                },
            },
            None => None,
        };
        Ok(Declared { requests, limits })
    }
}

} // verus!

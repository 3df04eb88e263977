//! What the program logs: the level a verbosity asks for, and the log
//! targets of the HTTP and I/O libraries that are kept quiet.

use vstd::prelude::*;

use crate::text::chars_of;

verus! {

/// How much the program logs, from least to most.
#[derive(Debug, Clone, Copy, PartialEq, Eq, Structural)]
pub enum LogLevel {
    Error,
    Info,
    Debug,
    Trace,
}

/// The level of a verbosity: errors alone at zero, then information, debug
/// output, and everything from three on.
pub open spec fn level_of_verbosity(verbosity: usize) -> LogLevel {
    if verbosity == 0 {
        LogLevel::Error
    } else if verbosity == 1 {
        LogLevel::Info
    } else if verbosity == 2 {
        LogLevel::Debug
    } else {
        LogLevel::Trace
    }
}

/// The level the number of `-v` flags asks for.
pub fn log_level_for(verbosity: usize) -> (l: LogLevel)
    ensures
        l == level_of_verbosity(verbosity),
{
    if verbosity == 0 {
        LogLevel::Error
    } else if verbosity == 1 {
        LogLevel::Info
    } else if verbosity == 2 {
        LogLevel::Debug
    } else {
        LogLevel::Trace
    }
}

/// `t` begins with `p`.
pub open spec fn starts_with(t: Seq<char>, p: Seq<char>) -> bool {
    p.len() <= t.len() && t.take(p.len() as int) == p
}

/// The targets whose records are dropped: those of the libraries for polling,
/// async I/O, HTTP/1 and TLS.
pub open spec fn quiet_target(target: Seq<char>) -> bool {
    ||| starts_with(target, "polling"@)
    ||| starts_with(target, "async_io"@)
    ||| starts_with(target, "async_h1"@)
    ||| starts_with(target, "rustls"@)
}

fn chars_start_with(t: &Vec<char>, p: &Vec<char>) -> (b: bool)
    ensures
        b == starts_with(t@, p@),
{
    if p.len() > t.len() {
        return false;
    }
    let mut i: usize = 0;
    while i < p.len()
        invariant
            i <= p.len() <= t.len(),
            forall|j: int| 0 <= j < i ==> t@[j] == p@[j],
        decreases p.len() - i,
    {
        if t[i] != p[i] {
            assert(t@.take(p.len() as int)[i as int] != p@[i as int]);
            return false;
        }
        i = i + 1;
    }
    assert(t@.take(p.len() as int) =~= p@);
    true
}

/// Whether a record of the log target `target` is written.
pub fn log_target_shown(target: &str) -> (b: bool)
    ensures
        b == !quiet_target(target@),
{
    let t = chars_of(target);
    let polling = chars_of("polling");
    let async_io = chars_of("async_io");
    let async_h1 = chars_of("async_h1");
    let rustls = chars_of("rustls");
    !(chars_start_with(&t, &polling) || chars_start_with(&t, &async_io) || chars_start_with(&t, &async_h1)
        || chars_start_with(&t, &rustls))
}

} // verus!

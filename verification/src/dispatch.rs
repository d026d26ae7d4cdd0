//! Dispatcher decisions.
//!
//! The surrounding program walks the requested target names, runs discovery
//! for each, and delivers signals; the decisions it takes along the way are
//! made here.  The policy for unmatched names is to continue with the
//! remaining names and report failure at the end of the batch, rather than
//! to abort on the first miss.

use vstd::prelude::*;

use crate::signals::{resolve, spec_resolve, SignalDescriptor};

verus! {

/// What the requested signal works out to: the terminate signal when none
/// was requested, the table's descriptor for the requested name otherwise.
pub open spec fn spec_signal_to_send(requested: Option<Seq<char>>) -> Option<(Seq<char>, i32)> {
    match requested {
        None => Some(("TERM"@, 15i32)),
        Some(name) => spec_resolve(name),
    }
}

/// Decide which signal the batch sends: the terminate signal by default, or
/// the descriptor the requested name resolves to; `None` exactly when a
/// requested name is unknown, which the caller surfaces as a user-facing
/// failure.
pub fn signal_to_send(requested: Option<&str>) -> (r: Option<SignalDescriptor>)
    ensures
        match r {
            Some(d) => spec_signal_to_send(
                match requested {
                    Some(n) => Some(n@),
                    None => None,
                },
            ) == Some((d.name@, d.value)),
            None => spec_signal_to_send(
                match requested {
                    Some(n) => Some(n@),
                    None => None,
                },
            ) is None,
        },
{
    match requested {
        None => Some(SignalDescriptor { name: "TERM", value: 15 }),
        Some(name) => resolve(name),
    }
}

/// Whether any target name of the batch matched no process: the batch then
/// exits with a failure status, after every name has still been processed.
pub fn any_unmatched(match_counts: &Vec<usize>) -> (r: bool)
    ensures
        r == exists|i: int| 0 <= i < match_counts@.len() && match_counts@[i] == 0,
{
    let n = match_counts.len();
    let mut i: usize = 0;
    while i < n
        invariant
            n == match_counts@.len(),
            i <= n,
            forall|j: int| 0 <= j < i ==> match_counts@[j] != 0,
        decreases n - i,
    {
        if match_counts[i] == 0 {
            return true;
        }
        i = i + 1;
    }
    false
}

} // verus!

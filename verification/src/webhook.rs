//! Webhook dispatch: mapping a trigger name to a pre-registered script and
//! interpreting the outcome of running it.
//!
//! The registry is loaded once from configuration and immutable afterwards.
//! Looking up an unknown name and a script that fails to run are reported to
//! the caller as the same not-found-class response, by design.

use vstd::prelude::*;

use crate::strutil::str_eq;

verus! {

/// An immutable mapping from webhook name to local script path.
pub struct WebhookRegistry {
    pub entries: Vec<(String, String)>,
}

/// First-match lookup in an association list.
pub open spec fn lookup_spec(entries: Seq<(Seq<char>, Seq<char>)>, name: Seq<char>) -> Option<
    Seq<char>,
>
    decreases entries.len(),
{
    if entries.len() == 0 {
        None
    } else if entries[0].0 == name {
        Some(entries[0].1)
    } else {
        lookup_spec(entries.drop_first(), name)
    }
}

impl WebhookRegistry {
    /// The registry's contents as pairs of character sequences.
    pub open spec fn entries_spec(&self) -> Seq<(Seq<char>, Seq<char>)> {
        self.entries@.map_values(|p: (String, String)| (p.0@, p.1@))
    }

    /// The script registered under `name`, if any; for a name registered
    /// more than once, the earliest entry wins.
    pub open spec fn script_for(&self, name: Seq<char>) -> Option<Seq<char>> {
        lookup_spec(self.entries_spec(), name)
    }

    /// Builds a registry from (name, script) pairs, as loaded from
    /// configuration.
    pub fn new(entries: Vec<(String, String)>) -> (r: Self)
        ensures
            r.entries_spec() == entries@.map_values(|p: (String, String)| (p.0@, p.1@)),
    {
        WebhookRegistry { entries }
    }

    /// Looks `name` up in the registry and returns the script path mapped
    /// to it, or `None` when the name is not registered.
    pub fn lookup(&self, name: &str) -> (r: Option<&String>)
        ensures
            match r {
                Some(script) => self.script_for(name@) == Some(script@),
                None => self.script_for(name@) is None,
            },
    {
        let n = self.entries.len();
        let mut i: usize = 0;
        proof {
            assert(self.entries_spec().skip(0) =~= self.entries_spec());
        }
        while i < n
            invariant
                i <= n,
                n == self.entries.len(),
                lookup_spec(self.entries_spec(), name@) == lookup_spec(
                    self.entries_spec().skip(i as int),
                    name@,
                ),
            decreases n - i,
        {
            proof {
                assert(self.entries_spec().skip(i as int)[0] == self.entries_spec()[i as int]);
                assert(self.entries_spec().skip(i as int).drop_first() =~= self.entries_spec().skip(
                    i as int + 1,
                ));
            }
            if str_eq(self.entries[i].0.as_str(), name) {
                return Some(&self.entries[i].1);
            }
            i += 1;
        }
        proof {
            assert(self.entries_spec().skip(n as int).len() == 0);
        }
        None
    }
}

/// Why a dispatch did not produce a script's output.
#[derive(Debug, PartialEq, Eq)]
pub enum DispatchError {
    /// No script is registered under the requested name.
    NotFound,
    /// The script could not be spawned, or exited with a failure status;
    /// the payload carries the underlying error text.
    ExecutionFailed(String),
}

/// What the process runner reports back after it tried to run a script.
pub enum RunOutcome {
    /// The script ran to completion: whether it exited successfully, and
    /// what it wrote to standard output.
    Completed { exit_ok: bool, stdout: String },
    /// The script could not be started; the payload carries the spawn
    /// error's text.
    SpawnFailed { message: String },
}

/// The dispatch result that a run outcome maps to.
pub open spec fn dispatch_of_outcome(outcome: RunOutcome) -> Result<String, DispatchError> {
    match outcome {
        RunOutcome::Completed { exit_ok, stdout } => {
            if exit_ok {
                Ok(stdout)
            } else {
                Err(DispatchError::ExecutionFailed(stdout))
            }
        },
        RunOutcome::SpawnFailed { message } => Err(DispatchError::ExecutionFailed(message)),
    }
}

/// Interprets what the process runner reported: a successful exit yields the
/// captured standard output, a failure exit or a spawn error yields
/// `ExecutionFailed` with the underlying text.
pub fn interpret_run(outcome: RunOutcome) -> (r: Result<String, DispatchError>)
    ensures
        r == dispatch_of_outcome(outcome),
{
    match outcome {
        RunOutcome::Completed { exit_ok, stdout } => {
            if exit_ok {
                Ok(stdout)
            } else {
                Err(DispatchError::ExecutionFailed(stdout))
            }
        },
        RunOutcome::SpawnFailed { message } => Err(DispatchError::ExecutionFailed(message)),
    }
}

/// How a dispatch result is presented to the HTTP caller.
#[derive(Clone, Copy, PartialEq, Eq, Structural, Debug)]
pub enum ResponseClass {
    /// The script's output is returned with a success status.
    Success,
    /// A not-found status: the caller cannot tell an unknown webhook from a
    /// failed one.
    NotFoundClass,
}

/// The response class of a dispatch result: every error, whatever its kind,
/// is presented as not-found.
pub open spec fn response_class_of(r: Result<String, DispatchError>) -> ResponseClass {
    match r {
        Ok(_) => ResponseClass::Success,
        Err(_) => ResponseClass::NotFoundClass,
    }
}

/// Maps a dispatch result to the response class the caller sees.
pub fn response_class(r: &Result<String, DispatchError>) -> (c: ResponseClass)
    ensures
        c == response_class_of(*r),
{
    match r {
        Ok(_) => ResponseClass::Success,
        Err(_) => ResponseClass::NotFoundClass,
    }
}

/// An unknown webhook name and a script that ran and failed surface as the
/// identical response class: the caller cannot distinguish them.
pub proof fn lemma_failures_indistinguishable(message: String, stdout: String)
    ensures
        response_class_of(Err(DispatchError::NotFound)) == response_class_of(
            Err(DispatchError::ExecutionFailed(message)),
        ),
        response_class_of(Err(DispatchError::NotFound)) == response_class_of(
            dispatch_of_outcome(RunOutcome::Completed { exit_ok: false, stdout }),
        ),
        response_class_of(Err(DispatchError::NotFound)) == response_class_of(
            dispatch_of_outcome(RunOutcome::SpawnFailed { message }),
        ),
{
}

} // verus!

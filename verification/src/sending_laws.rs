//! What holds of sending a request with several keys, each of which is tried several times.

use crate::failover::{FailoverState, KeyTry};
use crate::retry::{Outcome, RetryState};
use crate::retry_laws::Ending;
use crate::{failover, retry, retry_laws, text};
use vstd::prelude::*;

verus! {

/// A key that was picked, and what the requests sent with it met with.
pub struct KeyRun {
    pub key: usize,
    pub outcomes: Seq<Outcome>,
}

/// The first of `attempts` tries.
pub open spec fn first_try(label: Seq<char>, attempts: nat) -> RetryState {
    RetryState { label, attempts, attempt: 1 }
}

/// What came of a key: the message of its tries, or nothing for success.
pub open spec fn key_try(label: Seq<char>, attempts: nat, tries: KeyRun) -> KeyTry {
    KeyTry {
        key: tries.key,
        failure: match retry_laws::run(first_try(label, attempts), tries.outcomes).ending {
            Ending::Failed(message) => Some(message),
            _ => None,
        },
    }
}

/// What came of the keys of a row.
pub open spec fn key_tries(label: Seq<char>, attempts: nat, runs: Seq<KeyRun>) -> Seq<KeyTry> {
    Seq::new(runs.len(), |i: int| key_try(label, attempts, runs[i]))
}

/// How many requests were sent with the keys of a row.
pub open spec fn sends(label: Seq<char>, attempts: nat, runs: Seq<KeyRun>) -> nat
    decreases runs.len(),
{
    if runs.len() == 0 {
        0
    } else {
        sends(label, attempts, runs.drop_last()) + retry_laws::run(
            first_try(label, attempts),
            runs.last().outcomes,
        ).sends
    }
}

/// As many requests are sent as there are keys and tries of each, at most.
proof fn lemma_sends(label: Seq<char>, attempts: nat, runs: Seq<KeyRun>)
    requires
        attempts >= 1,
    ensures
        sends(label, attempts, runs) <= runs.len() * attempts,
    decreases runs.len(),
{
    if runs.len() > 0 {
        lemma_sends(label, attempts, runs.drop_last());
        retry_laws::law_tries_are_bounded(first_try(label, attempts), runs.last().outcomes);
        let n = runs.len();
        assert((n - 1) * attempts + attempts == n * attempts) by (nonlinear_arith)
            requires
                n >= 1,
        ;
    }
}

/// When no key is picked twice, no more requests are sent than there are keys left untried times
/// the tries of each.
pub proof fn law_sends_are_bounded(state: FailoverState, attempts: nat, runs: Seq<KeyRun>)
    requires
        state.wf(),
        attempts >= 1,
        failover::fresh_keys(state, key_tries(state.label, attempts, runs)),
    ensures
        sends(state.label, attempts, runs) <= (state.total - state.tried.len()) * attempts,
{
    failover::law_keys_are_bounded(state, key_tries(state.label, attempts, runs));
    lemma_sends(state.label, attempts, runs);
    let picked = runs.len();
    let left = state.total - state.tried.len();
    assert(picked * attempts <= left * attempts) by (nonlinear_arith)
        requires
            picked <= left,
            attempts >= 1,
    ;
}

/// Another key is asked for exactly when the last answer with this one has a status code for which
/// another key may help. This is so for every label without an ` Error:` of its own.
pub proof fn law_next_key_goes_by_the_last_status(
    label: Seq<char>,
    attempts: nat,
    outcomes: Seq<Outcome>,
    status: u16,
)
    requires
        attempts >= 1,
        !text::contains_text(label + " Error: "@.drop_last(), " Error: "@),
        retry_laws::run(first_try(label, attempts), outcomes).ending is Failed,
        100 <= status <= 999,
        ({
            let sent = retry_laws::run(first_try(label, attempts), outcomes).sends;
            outcomes[sent - 1] matches Outcome::Answer { status: code, .. } && code == status
        }),
    ensures
        retry_laws::run(first_try(label, attempts), outcomes).ending matches Ending::Failed(message)
            && retry::failover_error(message) == retry::is_key_status(status as nat),
{
    let start = first_try(label, attempts);
    let tries = retry_laws::run(start, outcomes);
    retry_laws::law_run_goes_by_its_last_try(start, outcomes);
    if let Outcome::Answer { body, .. } = outcomes[tries.sends - 1] {
        retry_laws::law_message_tells_the_status(label, status, body, tries.sends, attempts);
    }
}

}

//! What holds of the tries of a request as a whole, and of the messages they end with.

use crate::retry::{Outcome, RetryState, RETRY_BASE_DELAY_MS, RETRY_MAX_DELAY_MS};
use crate::{retry, text};
use vstd::prelude::*;
use vstd::string::*;

verus! {

// ===== The tries =====

/// How a run of tries ended.
pub enum Ending {
    /// With an answer that tells of success.
    Delivered,
    /// With a message.
    Failed(Seq<char>),
    /// Not yet: another try is due.
    Open,
}

/// A run of tries: how many requests were sent, and how it ended.
pub struct Run {
    pub sends: nat,
    pub ending: Ending,
}

/// The run of tries from a state on, when the requests sent meet with `outcomes` in turn.
pub open spec fn run(state: RetryState, outcomes: Seq<Outcome>) -> Run
    decreases outcomes.len(),
{
    if outcomes.len() == 0 {
        Run { sends: 0, ending: Ending::Open }
    } else if outcomes[0].succeeded() {
        Run { sends: 1, ending: Ending::Delivered }
    } else if retry::state_after(state, outcomes[0]) != state {
        let rest = run(retry::state_after(state, outcomes[0]), outcomes.drop_first());
        Run { sends: 1 + rest.sends, ending: rest.ending }
    } else {
        Run {
            sends: 1,
            ending: Ending::Failed(
                retry::at_attempt(outcomes[0].message(state.label), state.attempt, state.attempts),
            ),
        }
    }
}

/// No more requests are sent than there are tries left, and with that many outcomes the run has
/// ended.
pub proof fn law_tries_are_bounded(state: RetryState, outcomes: Seq<Outcome>)
    requires
        state.wf(),
    ensures
        run(state, outcomes).sends <= state.attempts - state.attempt + 1,
        run(state, outcomes).sends <= outcomes.len(),
        outcomes.len() > state.attempts - state.attempt ==> !(run(state, outcomes).ending is Open),
        run(state, outcomes).ending is Open ==> run(state, outcomes).sends == outcomes.len(),
    decreases outcomes.len(),
{
    if outcomes.len() > 0 && !outcomes[0].succeeded() && retry::state_after(state, outcomes[0])
        != state {
        law_tries_are_bounded(state.next(), outcomes.drop_first());
    }
}

/// Every try but the last one failed in a way that is worth another. A run that has ended is
/// delivered exactly when the last try was successful. Else its message is that of the last try,
/// with its number.
pub proof fn law_run_goes_by_its_last_try(state: RetryState, outcomes: Seq<Outcome>)
    requires
        state.wf(),
        !(run(state, outcomes).ending is Open),
    ensures
        ({
            let r = run(state, outcomes);
            let last = outcomes[r.sends - 1];
            &&& 1 <= r.sends <= outcomes.len()
            &&& forall|i: int|
                0 <= i < r.sends - 1 ==> (#[trigger] outcomes[i]).retryable()
                    && !outcomes[i].succeeded()
            &&& r.ending is Delivered <==> last.succeeded()
            &&& r.ending matches Ending::Failed(message) ==> message == retry::at_attempt(
                last.message(state.label),
                (state.attempt + r.sends - 1) as nat,
                state.attempts,
            ) && (last.retryable() ==> state.attempt + r.sends - 1 == state.attempts)
        }),
    decreases outcomes.len(),
{
    if outcomes.len() > 0 && !outcomes[0].succeeded() && retry::state_after(state, outcomes[0])
        != state {
        let rest = outcomes.drop_first();
        let next = state.next();
        law_run_goes_by_its_last_try(next, rest);
        let r = run(state, outcomes);
        let sub = run(next, rest);
        assert(r.sends == 1 + sub.sends);
        assert(rest[sub.sends - 1] == outcomes[r.sends - 1]);
        assert forall|i: int| 0 <= i < r.sends - 1 implies (#[trigger] outcomes[i]).retryable()
            && !outcomes[i].succeeded() by {
            if i > 0 {
                assert(rest[i - 1] == outcomes[i]);
            }
        }
        assert(next.attempt + sub.sends - 1 == state.attempt + r.sends - 1);
    }
}

// ===== The waits =====

/// A wait that the server does not ask for is between the first and the longest one, and is not
/// shorter than the one before.
pub proof fn law_waits_grow_up_to_a_limit(attempt: nat)
    requires
        1 <= attempt,
    ensures
        retry::delay(1, None) == RETRY_BASE_DELAY_MS,
        RETRY_BASE_DELAY_MS <= retry::delay(attempt, None) <= RETRY_MAX_DELAY_MS,
        retry::delay(attempt, None) <= retry::delay(attempt + 1, None),
{
    vstd::arithmetic::power2::lemma2_to64();
    vstd::arithmetic::power2::lemma_pow2_pos((attempt - 1) as nat);
    vstd::arithmetic::power2::lemma_pow2_unfold(attempt);
}

/// Where the server asks for a number of seconds, that is the wait, whatever the number of the try.
pub proof fn law_server_sets_the_wait(attempt: nat, header: Seq<char>)
    ensures
        text::parse_unsigned(header, u64::MAX as nat) matches Some(seconds)
            ==> retry::wait_before_next(attempt, retry::retry_after_ms(Some(header)))
            == retry::milliseconds(seconds),
{
}

// ===== The messages =====

/// The message of an answer other than success, with the number of its try, tells the status code
/// of the answer. It asks for another key exactly when the status code is one for which another key
/// may help. This is so whatever the body holds, and for every label without an ` Error:` of its
/// own.
pub proof fn law_message_tells_the_status(
    label: Seq<char>,
    status: u16,
    body: Seq<char>,
    attempt: nat,
    attempts: nat,
)
    requires
        100 <= status <= 999,
        !text::contains_text(label + " Error: "@.drop_last(), " Error: "@),
    ensures
        ({
            let message = retry::at_attempt(
                retry::http_error(label, status, body),
                attempt,
                attempts,
            );
            &&& retry::status_code(message) == Some(status as nat)
            &&& retry::failover_error(message) == retry::is_key_status(status as nat)
        }),
{
    let message = retry::at_attempt(retry::http_error(label, status, body), attempt, attempts);
    let digits = text::decimal(status as nat);
    let rest = digits + (" "@ + retry::status_phrase(status) + " - "@ + body + " (attempt "@
        + text::decimal(attempt) + "/"@ + text::decimal(attempts) + ")"@);
    assert(message =~= label + " Error: "@ + rest);
    reveal_strlit(" Error: ");
    text::lemma_find_behind(label, " Error: "@, rest);
    text::lemma_decimal_round_trip(status as nat);
    reveal_strlit(" ");
    assert(rest[digits.len() as int] == ' ');
    assert forall|i: int| 0 <= i < digits.len() implies text::digit()(#[trigger] rest[i]) by {
        assert(rest[i] == digits[i]);
    }
    text::lemma_trim_start(rest, text::digit(), digits.len() as int);
    assert(text::take_while(rest, text::digit()) =~= digits);
    retry::lemma_tells_attempt(retry::http_error(label, status, body), attempt, attempts);
}

/// The message of a failure to send, with the number of its try, tells no status code, and so never
/// asks for another key. This is so whatever the network says, unless that starts with a digit, and
/// for every label without an ` Error:` of its own.
pub proof fn law_network_failure_tells_no_status(
    label: Seq<char>,
    message: Seq<char>,
    attempt: nat,
    attempts: nat,
)
    requires
        !text::contains_text(label + " Error: "@.drop_last(), " Error: "@),
        message.len() > 0 ==> !text::is_digit(message[0]),
    ensures
        ({
            let whole = retry::at_attempt(
                retry::transport_error(label, message),
                attempt,
                attempts,
            );
            &&& retry::status_code(whole) is None
            &&& !retry::failover_error(whole)
        }),
{
    let whole = retry::at_attempt(retry::transport_error(label, message), attempt, attempts);
    let rest = message + (" (attempt "@ + text::decimal(attempt) + "/"@ + text::decimal(attempts)
        + ")"@);
    assert(whole =~= label + " Error: "@ + rest);
    reveal_strlit(" Error: ");
    text::lemma_find_behind(label, " Error: "@, rest);
    reveal_strlit(" (attempt ");
    assert(rest.len() > 0 && !text::is_digit(rest[0]));
    text::lemma_trim_start(rest, text::digit(), 0);
    assert(rest.skip(0) =~= rest);
    assert(text::take_while(rest, text::digit()) =~= Seq::<char>::empty());
    retry::lemma_tells_attempt(retry::transport_error(label, message), attempt, attempts);
}

}

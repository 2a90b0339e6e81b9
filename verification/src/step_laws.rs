//! What holds of the steps after a try that failed and of the status codes in messages, stated on
//! the status codes and the texts themselves.

use crate::failover::FailoverState;
use crate::retry::{Outcome, RetryState, RetryStep};
use crate::retry_laws::Ending;
use crate::{failover, retry, retry_laws, text, text_laws};
use vstd::prelude::*;
use vstd::string::*;

verus! {

// ===== One try =====

/// Whether a status code tells of too many requests or of an error of the server.
pub open spec fn is_busy(status: u16) -> bool {
    status == 429 || (500 <= status && status <= 599)
}

/// The wait in milliseconds that is due after so many tries.
pub open spec fn is_due(attempt: nat, wait: nat) -> bool {
    &&& attempt == 1 ==> wait == 500
    &&& attempt == 2 ==> wait == 1000
    &&& attempt == 3 ==> wait == 2000
    &&& attempt == 4 ==> wait == 4000
    &&& attempt == 5 ==> wait == 8000
    &&& attempt >= 6 ==> wait == 10000
}

/// The waits that are not asked for double from half a second to ten seconds.
pub proof fn law_waits_double(attempt: nat)
    requires
        attempt >= 1,
    ensures
        is_due(attempt, retry::delay(attempt, None)),
        is_due(attempt, retry::wait_before_next(attempt, None)),
{
    vstd::arithmetic::power2::lemma2_to64();
    if attempt > 6 {
        vstd::arithmetic::power2::lemma_pow2_strictly_increases(5, (attempt - 1) as nat);
    }
}

/// A number of seconds that is asked for is waited for, in milliseconds, up to the greatest number
/// there is.
pub proof fn law_asked_seconds_are_waited_for(attempt: nat, header: Seq<char>, seconds: nat)
    ensures
        retry::retry_after_ms(None) is None,
        text::parse_unsigned(header, u64::MAX as nat) is None ==> retry::retry_after_ms(
            Some(header),
        ) is None,
        text::parse_unsigned(header, u64::MAX as nat) == Some(seconds) && seconds * 1000
            <= u64::MAX ==> retry::retry_after_ms(Some(header)) == Some(seconds * 1000),
        text::parse_unsigned(header, u64::MAX as nat) == Some(seconds) && seconds * 1000
            > u64::MAX ==> retry::retry_after_ms(Some(header)) == Some(u64::MAX as nat),
        retry::wait_before_next(attempt, Some(seconds)) == seconds,
        seconds * 1000 <= u64::MAX ==> retry::delay(attempt, Some(seconds)) == seconds * 1000,
        seconds * 1000 > u64::MAX ==> retry::delay(attempt, Some(seconds)) == u64::MAX,
{
}

/// The messages of failures: the label, what failed, and the number of the try out of how many.
pub proof fn law_messages_read_so(
    label: Seq<char>,
    status: u16,
    body: Seq<char>,
    message: Seq<char>,
    attempt: nat,
    attempts: nat,
)
    ensures
        retry::http_error(label, status, body) == label + " Error: "@ + text::decimal(status as nat)
            + " "@ + retry::status_phrase(status) + " - "@ + body,
        retry::transport_error(label, message) == label + " Error: "@ + message,
        retry::at_attempt(message, attempt, attempts) == message + " (attempt "@ + text::decimal(
            attempt,
        ) + "/"@ + text::decimal(attempts) + ")"@,
{
    assert(retry::http_error(label, status, body) =~= label + " Error: "@ + text::decimal(
        status as nat,
    ) + " "@ + retry::status_phrase(status) + " - "@ + body);
}

/// After an answer there is another try exactly when its status code is 429 or one from 500 to 599
/// and a try is left; the wait is then the one that is asked for, else the one that is due. In
/// every other case the message of the answer ends the request.
pub proof fn law_step_goes_by_the_status(
    state: RetryState,
    status: u16,
    retry_after: Option<Seq<char>>,
    body: Seq<char>,
    step: RetryStep,
)
    requires
        state.wf(),
        retry::is_step_after(state, Outcome::Answer { status, retry_after, body }, step),
    ensures
        ({
            let next = retry::state_after(state, Outcome::Answer { status, retry_after, body });
            &&& step is Sleep <==> is_busy(status) && state.attempt < state.attempts
            &&& step matches RetryStep::Sleep(wait) ==> {
                &&& match retry::retry_after_ms(retry_after) {
                    Some(asked) => wait == asked,
                    None => is_due(state.attempt, wait as nat),
                }
                &&& next.label == state.label
                &&& next.attempts == state.attempts
                &&& next.attempt == state.attempt + 1
            }
            &&& step matches RetryStep::Fail(message) ==> {
                &&& message@ == label_and_status(state.label, status) + " - "@ + body + number_of(
                    state,
                )
                &&& next == state
            }
        }),
{
    law_waits_double(state.attempt);
    assert(retry::at_attempt(
        retry::http_error(state.label, status, body),
        state.attempt,
        state.attempts,
    ) =~= label_and_status(state.label, status) + " - "@ + body + number_of(state));
}

/// The beginning of the message of an answer.
pub open spec fn label_and_status(label: Seq<char>, status: u16) -> Seq<char> {
    label + " Error: "@ + text::decimal(status as nat) + " "@ + retry::status_phrase(status)
}

/// The end of the message of a try: its number.
pub open spec fn number_of(state: RetryState) -> Seq<char> {
    " (attempt "@ + text::decimal(state.attempt) + "/"@ + text::decimal(state.attempts) + ")"@
}

/// After a failure to send there is another try exactly when it timed out or found no connection
/// and a try is left; the wait is the one that is due. In every other case the message of the
/// failure ends the request.
pub proof fn law_step_goes_by_the_failure(
    state: RetryState,
    message: Seq<char>,
    is_timeout: bool,
    is_connect: bool,
    step: RetryStep,
)
    requires
        state.wf(),
        retry::is_step_after(state, Outcome::Failure { message, is_timeout, is_connect }, step),
    ensures
        ({
            let next = retry::state_after(
                state,
                Outcome::Failure { message, is_timeout, is_connect },
            );
            &&& step is Sleep <==> (is_timeout || is_connect) && state.attempt < state.attempts
            &&& step matches RetryStep::Sleep(wait) ==> {
                &&& is_due(state.attempt, wait as nat)
                &&& next.label == state.label
                &&& next.attempts == state.attempts
                &&& next.attempt == state.attempt + 1
            }
            &&& step matches RetryStep::Fail(whole) ==> {
                &&& whole@ == state.label + " Error: "@ + message + number_of(state)
                &&& next == state
            }
        }),
{
    law_waits_double(state.attempt);
    assert(retry::at_attempt(
        retry::transport_error(state.label, message),
        state.attempt,
        state.attempts,
    ) =~= state.label + " Error: "@ + message + number_of(state));
}

// ===== A run of tries =====

/// Whether a try was answered with a status code that tells of too many requests or of an error of
/// the server.
pub open spec fn is_busy_answer(outcome: Outcome) -> bool {
    outcome matches Outcome::Answer { status, .. } && is_busy(status)
}

/// Whether a try timed out or found no connection.
pub open spec fn is_lost(outcome: Outcome) -> bool {
    outcome matches Outcome::Failure { is_timeout, is_connect, .. } && (is_timeout || is_connect)
}

/// Where every answer is 429 or one from 500 to 599, or no answer comes in time, all tries that are
/// left are made, no more and no fewer, and the request ends with the message of the last one.
pub proof fn law_all_tries_are_made(state: RetryState, outcomes: Seq<Outcome>)
    requires
        state.wf(),
        outcomes.len() == state.attempts - state.attempt + 1,
        forall|i: int|
            0 <= i < outcomes.len() ==> is_busy_answer(#[trigger] outcomes[i]) || is_lost(
                outcomes[i],
            ),
    ensures
        ({
            let r = retry_laws::run(state, outcomes);
            let last = outcomes[outcomes.len() - 1];
            &&& r.sends == state.attempts - state.attempt + 1
            &&& last matches Outcome::Answer { status, body, .. } ==> r.ending == Ending::Failed(
                retry::at_attempt(
                    retry::http_error(state.label, status, body),
                    state.attempts,
                    state.attempts,
                ),
            )
            &&& last matches Outcome::Failure { message, .. } ==> r.ending == Ending::Failed(
                retry::at_attempt(
                    retry::transport_error(state.label, message),
                    state.attempts,
                    state.attempts,
                ),
            )
        }),
    decreases outcomes.len(),
{
    assert(is_busy_answer(outcomes[0]) || is_lost(outcomes[0]));
    if state.attempt < state.attempts {
        let rest = outcomes.drop_first();
        assert forall|i: int| 0 <= i < rest.len() implies is_busy_answer(#[trigger] rest[i])
            || is_lost(rest[i]) by {
            assert(rest[i] == outcomes[i + 1]);
        }
        law_all_tries_are_made(state.next(), rest);
        assert(rest[rest.len() - 1] == outcomes[outcomes.len() - 1]);
    }
}

/// A request of `attempts` tries whose answers are all errors of the server is sent exactly
/// `attempts` times.
pub proof fn law_server_errors_use_up_the_tries(
    label: Seq<char>,
    attempts: nat,
    outcomes: Seq<Outcome>,
)
    requires
        attempts >= 1,
        outcomes.len() == attempts,
        forall|i: int|
            0 <= i < outcomes.len() ==> (#[trigger] outcomes[i] matches Outcome::Answer {
                status,
                ..
            } && 500 <= status && status <= 599),
    ensures
        retry_laws::run(RetryState { label, attempts, attempt: 1 }, outcomes).sends == attempts,
{
    let state = RetryState { label, attempts, attempt: 1 };
    assert forall|i: int| 0 <= i < outcomes.len() implies is_busy_answer(#[trigger] outcomes[i])
        || is_lost(outcomes[i]) by {}
    law_all_tries_are_made(state, outcomes);
}

/// An answer with a status code from 200 to 299 delivers the request at once. One with a status
/// code that is neither of these nor 429 nor from 500 to 599, and a failure that is neither a
/// timeout nor a missing connection, end it at once.
pub proof fn law_other_outcomes_end_the_tries(state: RetryState, outcomes: Seq<Outcome>)
    requires
        state.wf(),
        outcomes.len() > 0,
        !is_lost(outcomes[0]),
        !is_busy_answer(outcomes[0]),
    ensures
        ({
            let r = retry_laws::run(state, outcomes);
            &&& r.sends == 1
            &&& match outcomes[0] {
                Outcome::Answer { status, body, .. } => if 200 <= status && status <= 299 {
                    r.ending is Delivered
                } else {
                    r.ending == Ending::Failed(
                        retry::at_attempt(
                            retry::http_error(state.label, status, body),
                            state.attempt,
                            state.attempts,
                        ),
                    )
                },
                Outcome::Failure { message, .. } => r.ending == Ending::Failed(
                    retry::at_attempt(
                        retry::transport_error(state.label, message),
                        state.attempt,
                        state.attempts,
                    ),
                ),
            }
        }),
{
}

// ===== Status codes in messages =====

/// Whether a text is digits and nothing else, or nothing at all.
pub open spec fn are_digits(s: Seq<char>) -> bool {
    forall|i: int| 0 <= i < s.len() ==> '0' <= #[trigger] s[i] && s[i] <= '9'
}

/// Whether a text does not go on with a digit.
pub open spec fn starts_otherwise(s: Seq<char>) -> bool {
    s.len() > 0 ==> !('0' <= s[0] && s[0] <= '9')
}

/// The status code that digits tell: their number, where it is at most 65535.
pub open spec fn told(digits: Seq<char>) -> Option<nat> {
    if digits.len() > 0 && text::number_value(digits) <= 65535 {
        Some(text::number_value(digits))
    } else {
        None
    }
}

/// The number that a text starts with is that of all its first digits.
pub proof fn law_leading_code_is_all_digits(digits: Seq<char>, rest: Seq<char>)
    requires
        are_digits(digits),
        starts_otherwise(rest),
    ensures
        retry::leading_code(digits + rest) == told(digits),
        retry::colon_follows(digits + rest) <==> rest.len() > 0 && rest[0] == ':',
{
    text_laws::law_leading_digits_are_all(digits, rest);
    assert(text::all_digits(digits)) by {
        assert forall|i: int| 0 <= i < digits.len() implies text::is_digit(
            #[trigger] digits[i],
        ) by {}
    }
    if rest.len() > 0 {
        assert((digits + rest)[digits.len() as int] == rest[0]);
    }
}

/// Behind the first ` HTTP ` of a text the status code stands; a colon behind it makes the text one
/// of the form `<label> HTTP <status>: <body>`. Without an ` HTTP ` there is no such code.
pub proof fn law_code_stands_behind_http(
    label: Seq<char>,
    digits: Seq<char>,
    rest: Seq<char>,
    plain: Seq<char>,
)
    requires
        !text::contains_text(label + " HTTP "@.drop_last(), " HTTP "@),
        are_digits(digits),
        starts_otherwise(rest),
        !text::contains_text(plain, " HTTP "@),
    ensures
        retry::code_behind_http(label + " HTTP "@ + (digits + rest)) == told(digits),
        retry::is_http_form(label + " HTTP "@ + (digits + rest)) <==> told(digits) is Some
            && rest.len() > 0 && rest[0] == ':',
        retry::code_behind_http(plain) is None,
        !retry::is_http_form(plain),
{
    reveal_strlit(" HTTP ");
    let whole = label + " HTTP "@ + (digits + rest);
    text::lemma_find_behind(label, " HTTP "@, digits + rest);
    assert(whole.skip(label.len() as int + " HTTP "@.len()) =~= digits + rest);
    law_leading_code_is_all_digits(digits, rest);
    text::lemma_find(plain, " HTTP "@);
}

/// The status code of a message with an ` Error: `, for which the first one counts. A message whose
/// part before it is of the form with ` HTTP `, and that does not end with the number of a try,
/// tells that code. Else the digits behind the ` Error: ` tell it; where there are none, no code is
/// told, and where they are too great a number, the code behind ` HTTP ` counts.
pub proof fn law_code_stands_behind_error(label: Seq<char>, digits: Seq<char>, rest: Seq<char>)
    requires
        !text::contains_text(label + " Error: "@.drop_last(), " Error: "@),
        are_digits(digits),
        starts_otherwise(rest),
    ensures
        ({
            let message = label + " Error: "@ + (digits + rest);
            if retry::is_http_form(label) && !retry::tells_attempt(message) {
                retry::status_code(message) == retry::code_behind_http(label)
            } else if digits.len() == 0 {
                retry::status_code(message) is None
            } else if told(digits) is Some {
                retry::status_code(message) == told(digits)
            } else {
                retry::status_code(message) == retry::code_behind_http(message)
            }
        }),
{
    reveal_strlit(" Error: ");
    let message = label + " Error: "@ + (digits + rest);
    text::lemma_find_behind(label, " Error: "@, digits + rest);
    assert(message.take(label.len() as int) =~= label);
    assert(message.skip(label.len() as int + " Error: "@.len()) =~= digits + rest);
    law_leading_code_is_all_digits(digits, rest);
    if digits.len() > 0 {
        assert((digits + rest)[0] == digits[0]);
    } else {
        assert(digits + rest =~= rest);
    }
}

/// The status code of a message without an ` Error: ` is the one behind its ` HTTP `.
pub proof fn law_code_without_error(message: Seq<char>)
    requires
        !text::contains_text(message, " Error: "@),
    ensures
        retry::status_code(message) == retry::code_behind_http(message),
{
    text::lemma_find(message, " Error: "@);
}

/// A message ends with the number of a try when a text is followed by ` (attempt `, digits, a
/// slash, digits and a closing bracket.
pub proof fn law_number_of_a_try_is_seen(start: Seq<char>, number: Seq<char>, total: Seq<char>)
    requires
        are_digits(number),
        number.len() > 0,
        are_digits(total),
        total.len() > 0,
    ensures
        retry::tells_attempt(start + " (attempt "@ + number + "/"@ + total + ")"@),
{
    reveal_strlit(" (attempt ");
    reveal_strlit("/");
    reveal_strlit(")");
    let whole = start + " (attempt "@ + number + "/"@ + total + ")"@;
    let opened = start + " (attempt "@;
    let before_slash = opened + number;
    let before_total = before_slash + "/"@;
    let inner = before_total + total;
    assert(whole.drop_last() =~= inner);
    assert forall|i: int| before_total.len() <= i < inner.len() implies text::digit()(
        #[trigger] inner[i],
    ) by {
        assert(inner[i] == total[i - before_total.len()]);
    }
    text::lemma_trim_end(inner, text::digit(), before_total.len() as int);
    assert(inner.take(before_total.len() as int) =~= before_total);
    assert(before_total.drop_last() =~= before_slash);
    assert forall|i: int| opened.len() <= i < before_slash.len() implies text::digit()(
        #[trigger] before_slash[i],
    ) by {
        assert(before_slash[i] == number[i - opened.len()]);
    }
    text::lemma_trim_end(before_slash, text::digit(), opened.len() as int);
    assert(before_slash.take(opened.len() as int) =~= opened);
    assert(opened.subrange(start.len() as int, opened.len() as int) =~= " (attempt "@);
}

/// A message that ends with the number of a try is of that form and of no other.
pub proof fn law_number_of_a_try_is_nothing_else(message: Seq<char>) -> (parts: (
    Seq<char>,
    Seq<char>,
    Seq<char>,
))
    requires
        retry::tells_attempt(message),
    ensures
        are_digits(parts.1),
        parts.1.len() > 0,
        are_digits(parts.2),
        parts.2.len() > 0,
        message == parts.0 + " (attempt "@ + parts.1 + "/"@ + parts.2 + ")"@,
{
    reveal_strlit(" (attempt ");
    reveal_strlit("/");
    reveal_strlit(")");
    let inner = message.drop_last();
    let n = text::lemma_trim_end_shape(inner, text::digit());
    let before_total = inner.take(n);
    let total = inner.skip(n);
    assert forall|i: int| 0 <= i < total.len() implies '0' <= #[trigger] total[i] && total[i]
        <= '9' by {
        assert(text::digit()(inner[i + n]));
    }
    let before_slash = before_total.drop_last();
    let m = text::lemma_trim_end_shape(before_slash, text::digit());
    let opened = before_slash.take(m);
    let number = before_slash.skip(m);
    assert forall|i: int| 0 <= i < number.len() implies '0' <= #[trigger] number[i] && number[i]
        <= '9' by {
        assert(text::digit()(before_slash[i + m]));
    }
    let width = " (attempt "@.len() as int;
    let start = opened.take(opened.len() - width);
    assert(opened =~= start + " (attempt "@) by {
        assert(opened.subrange(opened.len() - width, opened.len() as int) == " (attempt "@);
        assert forall|i: int| start.len() <= i < opened.len() implies opened[i] == (start
            + " (attempt "@)[i] by {
            assert(opened.subrange(opened.len() - width, opened.len() as int)[i - start.len()]
                == opened[i]);
        }
    }
    assert(message =~= start + " (attempt "@ + number + "/"@ + total + ")"@);
    (start, number, total)
}

// ===== Keys =====

/// Another key may help exactly where the message tells 401, 402, 403 or 429.
pub proof fn law_another_key_may_help(message: Seq<char>)
    ensures
        retry::failover_error(message) <==> retry::status_code(message) == Some(401nat)
            || retry::status_code(message) == Some(402nat) || retry::status_code(message) == Some(
            403nat,
        ) || retry::status_code(message) == Some(429nat),
{
}

/// The last message of tries that were answered with a status code leads to another key exactly
/// when the code is 401, 402, 403 or 429 and a key is left untried; it is then what is told when no
/// key can be picked any more. Every other field stays as it was.
pub proof fn law_next_key_goes_by_the_status(
    state: FailoverState,
    label: Seq<char>,
    status: u16,
    body: Seq<char>,
    attempt: nat,
    attempts: nat,
)
    requires
        100 <= status <= 999,
        !text::contains_text(label + " Error: "@.drop_last(), " Error: "@),
    ensures
        ({
            let message = label_and_status(label, status) + " - "@ + body + " (attempt "@
                + text::decimal(attempt) + "/"@ + text::decimal(attempts) + ")"@;
            let helps = status == 401 || status == 402 || status == 403 || status == 429;
            let next = state.after_failure(message);
            &&& retry::failover_error(message) <==> helps
            &&& state.goes_on_after(message) <==> helps && state.tried.len() < state.total
            &&& next.label == state.label
            &&& next.total == state.total
            &&& next.tried == state.tried
            &&& helps && state.tried.len() < state.total ==> next.last_error == Some(message)
                && next.exhausted() == message
            &&& !(helps && state.tried.len() < state.total) ==> next.last_error == state.last_error
        }),
{
    let message = label_and_status(label, status) + " - "@ + body + " (attempt "@ + text::decimal(
        attempt,
    ) + "/"@ + text::decimal(attempts) + ")"@;
    retry_laws::law_message_tells_the_status(label, status, body, attempt, attempts);
    assert(message =~= retry::at_attempt(
        retry::http_error(label, status, body),
        attempt,
        attempts,
    ));
}

/// A picked key is tried from then on, and nothing else changes. Where no key was ever refused, the
/// message when none can be picked tells how many there are.
pub proof fn law_picked_keys_are_tried(state: FailoverState, i: usize, other: usize)
    ensures
        ({
            let next = state.with_tried(i);
            &&& next.tried.contains(other) <==> other == i || state.tried.contains(other)
            &&& next.label == state.label
            &&& next.total == state.total
            &&& next.last_error == state.last_error
            &&& state.has_untried() <==> state.tried.len() < state.total
            &&& state.last_error is None ==> state.exhausted() == state.label + " Error: all "@
                + text::decimal(state.total) + " keys exhausted"@
            &&& failover::no_key_message(state.label) == state.label
                + " Error: No API key configured"@
        }),
{
}

}

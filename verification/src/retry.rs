//! Trying a request again: which failures are worth another try, how long to wait for it, and what
//! the messages of failures tell.

use crate::text;
use vstd::prelude::*;
use vstd::string::*;

verus! {

/// The wait before the second try, in milliseconds.
pub const RETRY_BASE_DELAY_MS: u64 = 500;

/// The longest wait that is not asked for by the server, in milliseconds.
pub const RETRY_MAX_DELAY_MS: u64 = 10_000;

// ===== Status codes =====

/// The status codes that tell of success.
pub open spec fn is_success(status: u16) -> bool {
    200 <= status <= 299
}

/// The status codes that are worth another try: too many requests, and errors of the server.
pub open spec fn retryable_status(status: u16) -> bool {
    status == 429 || 500 <= status <= 599
}

/// Whether a status code tells of success.
pub fn is_success_status(status: u16) -> (result: bool)
    ensures
        result == is_success(status),
{
    200 <= status && status <= 299
}

/// Whether a status code is worth another try.
pub fn is_retryable_status(status: u16) -> (result: bool)
    ensures
        result == retryable_status(status),
{
    status == 429 || (500 <= status && status <= 599)
}

/// Whether a failure to send is worth another try: it timed out, or no connection came about.
pub fn is_retryable_error(is_timeout: bool, is_connect: bool) -> (result: bool)
    ensures
        result == (is_timeout || is_connect),
{
    is_timeout || is_connect
}

/// The phrase that belongs to a status code.
pub uninterp spec fn status_phrase(status: u16) -> Seq<char>;

/// Calls `Display` of `reqwest::StatusCode`, which writes the number of a status code, a space, and
/// the phrase that belongs to it. The phrase depends on the code alone and is named
/// `status_phrase`.
#[verifier::external_body]
fn print_status(status: u16) -> (result: String)
    requires
        100 <= status <= 999,
    ensures
        result@ == text::decimal(status as nat) + " "@ + status_phrase(status),
{
    reqwest::StatusCode::from_u16(status).map(|code| code.to_string()).unwrap_or_default()
}

// ===== Waiting =====

/// A number of seconds in milliseconds, or the greatest number there is where that is exceeded.
pub open spec fn milliseconds(seconds: nat) -> nat {
    if seconds * 1000 <= u64::MAX {
        seconds * 1000
    } else {
        u64::MAX as nat
    }
}

/// The wait that the header `retry-after` asks for, in milliseconds, where it holds a number of
/// seconds.
pub open spec fn retry_after_ms(header: Option<Seq<char>>) -> Option<nat> {
    match header {
        Some(value) => match text::parse_unsigned(value, u64::MAX as nat) {
            Some(seconds) => Some(milliseconds(seconds)),
            None => None,
        },
        None => None,
    }
}

/// The wait before the try that follows the try number `attempt`, in milliseconds: the given number
/// of seconds, else twice as long as the one before, up to a limit.
pub open spec fn delay(attempt: nat, retry_after: Option<nat>) -> nat {
    match retry_after {
        Some(seconds) => milliseconds(seconds),
        None => {
            let doublings = (attempt - 1) as nat;
            if RETRY_BASE_DELAY_MS * vstd::arithmetic::power2::pow2(doublings)
                <= RETRY_MAX_DELAY_MS {
                (RETRY_BASE_DELAY_MS * vstd::arithmetic::power2::pow2(doublings)) as nat
            } else {
                RETRY_MAX_DELAY_MS as nat
            }
        },
    }
}

/// The wait before the try that follows the try number `attempt`, in milliseconds, where the server
/// may have asked for one.
pub open spec fn wait_before_next(attempt: nat, asked_ms: Option<nat>) -> nat {
    match asked_ms {
        Some(ms) => ms,
        None => delay(attempt, None),
    }
}

/// A number of seconds in milliseconds, or the greatest number there is where that is exceeded.
fn to_milliseconds(seconds: u64) -> (result: u64)
    ensures
        result == milliseconds(seconds as nat),
{
    if seconds <= u64::MAX / 1000 {
        seconds * 1000
    } else {
        u64::MAX
    }
}

/// The wait that the header `retry-after` asks for, in milliseconds, where it holds a number of
/// seconds.
pub fn parse_retry_after(header: Option<&str>) -> (result: Option<u64>)
    ensures
        match result {
            Some(ms) => retry_after_ms(text::optional(header)) == Some(ms as nat),
            None => retry_after_ms(text::optional(header)) is None,
        },
{
    match header {
        Some(value) => match text::parse_unsigned_text(value, u64::MAX) {
            Some(seconds) => Some(to_milliseconds(seconds)),
            None => None,
        },
        None => None,
    }
}

/// The optional number.
pub open spec fn optional_number(number: Option<u64>) -> Option<nat> {
    match number {
        Some(n) => Some(n as nat),
        None => None,
    }
}

/// Doubling five times or more leads beyond the longest wait.
proof fn lemma_doublings(n: nat)
    ensures
        n == 0 ==> vstd::arithmetic::power2::pow2(n) == 1,
        n == 1 ==> vstd::arithmetic::power2::pow2(n) == 2,
        n == 2 ==> vstd::arithmetic::power2::pow2(n) == 4,
        n == 3 ==> vstd::arithmetic::power2::pow2(n) == 8,
        n == 4 ==> vstd::arithmetic::power2::pow2(n) == 16,
        n >= 5 ==> vstd::arithmetic::power2::pow2(n) >= 32,
{
    vstd::arithmetic::power2::lemma2_to64();
    if n > 5 {
        vstd::arithmetic::power2::lemma_pow2_strictly_increases(5, n);
    }
}

/// The wait before the try that follows the try number `attempt`, in milliseconds.
pub fn retry_delay_ms(attempt: usize, retry_after: Option<u64>) -> (result: u64)
    requires
        attempt >= 1,
    ensures
        result == delay(attempt as nat, optional_number(retry_after)),
{
    if let Some(seconds) = retry_after {
        return to_milliseconds(seconds);
    }
    let doublings: usize = attempt - 1;
    proof {
        lemma_doublings(doublings as nat);
    }
    if doublings == 0 {
        RETRY_BASE_DELAY_MS
    } else if doublings == 1 {
        2 * RETRY_BASE_DELAY_MS
    } else if doublings == 2 {
        4 * RETRY_BASE_DELAY_MS
    } else if doublings == 3 {
        8 * RETRY_BASE_DELAY_MS
    } else if doublings == 4 {
        16 * RETRY_BASE_DELAY_MS
    } else {
        RETRY_MAX_DELAY_MS
    }
}

// ===== Messages =====

/// The message of a request that was answered with a status code other than success.
pub open spec fn http_error(label: Seq<char>, status: u16, body: Seq<char>) -> Seq<char> {
    label + " Error: "@ + (text::decimal(status as nat) + " "@ + status_phrase(status)) + " - "@
        + body
}

/// The message of a request that could not be sent.
pub open spec fn transport_error(label: Seq<char>, message: Seq<char>) -> Seq<char> {
    label + " Error: "@ + message
}

/// A message with the number of the try that it is of.
pub open spec fn at_attempt(message: Seq<char>, attempt: nat, attempts: nat) -> Seq<char> {
    message + " (attempt "@ + text::decimal(attempt) + "/"@ + text::decimal(attempts) + ")"@
}

/// The number that a text starts with, where it is at most 65535.
pub open spec fn leading_code(s: Seq<char>) -> Option<nat> {
    text::parse_digits(text::take_while(s, text::digit()), u16::MAX as nat)
}

/// The number behind the first ` HTTP ` in a text.
pub open spec fn code_behind_http(s: Seq<char>) -> Option<nat> {
    match text::find_text(s, " HTTP "@) {
        Some(i) => leading_code(s.skip(i + " HTTP "@.len())),
        None => None,
    }
}

/// Whether a text has a colon behind the digits that it starts with.
pub open spec fn colon_follows(s: Seq<char>) -> bool {
    let count = text::take_while(s, text::digit()).len();
    count < s.len() && s[count as int] == ':'
}

/// Whether a text is of the form `<label> HTTP <status>: <body>`.
pub open spec fn is_http_form(s: Seq<char>) -> bool {
    match text::find_text(s, " HTTP "@) {
        Some(i) => leading_code(s.skip(i + " HTTP "@.len())) is Some && colon_follows(
            s.skip(i + " HTTP "@.len()),
        ),
        None => false,
    }
}

/// Whether a message ends with the number of the try that it is of, as `at_attempt` writes it.
pub open spec fn tells_attempt(message: Seq<char>) -> bool {
    let inner = message.drop_last();
    let before_total = text::trim_end_by(inner, text::digit());
    let before_slash = before_total.drop_last();
    let start = text::trim_end_by(before_slash, text::digit());
    &&& message.len() > 0 && message.last() == ')'
    &&& 0 < before_total.len() < inner.len() && before_total.last() == '/'
    &&& start.len() < before_slash.len()
    &&& " (attempt "@.is_suffix_of(start)
}

/// The status code that is told behind ` Error: `. Where too great a number stands there, one behind
/// ` HTTP ` counts; where no number stands there, it is the network that speaks, and nothing is told.
pub open spec fn code_behind_error(message: Seq<char>, behind: Seq<char>) -> Option<nat> {
    if behind.len() == 0 || !text::is_digit(behind[0]) {
        None
    } else if leading_code(behind) is Some {
        leading_code(behind)
    } else {
        code_behind_http(message)
    }
}

/// The status code in the message of a failure. A message `<label> Error: <status> - <body>` tells
/// it behind its first ` Error: `, and a message `<label> HTTP <status>: <body>` behind its first
/// ` HTTP `. Where a message is of both forms, it is of the first one when it ends with the number of
/// a try, and of the second one else, whose body then holds the ` Error: `.
pub open spec fn status_code(message: Seq<char>) -> Option<nat> {
    match text::find_text(message, " Error: "@) {
        Some(i) => if is_http_form(message.take(i)) && !tells_attempt(message) {
            code_behind_http(message.take(i))
        } else {
            code_behind_error(message, message.skip(i + " Error: "@.len()))
        },
        None => code_behind_http(message),
    }
}

/// The status codes for which another key may help: unauthorized, payment required, forbidden, too
/// many requests.
pub open spec fn is_key_status(code: nat) -> bool {
    code == 401 || code == 402 || code == 403 || code == 429
}

/// Whether the message of a failure tells of one for which another key may help.
pub open spec fn failover_error(message: Seq<char>) -> bool {
    match status_code(message) {
        Some(code) => is_key_status(code),
        None => false,
    }
}

/// How many digits a text starts with.
fn count_digits(s: &str) -> (result: usize)
    ensures
        result <= s@.len(),
        text::take_while(s@, text::digit()) == s@.take(result as int),
        result == 0 <==> s@.len() == 0 || !text::is_digit(s@[0]),
{
    let chars = text::chars_of(s);
    let mut end: usize = 0;
    while end < chars.len() && '0' <= chars[end] && chars[end] <= '9'
        invariant
            end <= chars@.len(),
            forall|i: int| 0 <= i < end ==> text::is_digit(#[trigger] chars@[i]),
        decreases chars@.len() - end,
    {
        end = end + 1;
    }
    proof {
        text::lemma_trim_start(s@, text::digit(), end as int);
        assert(text::take_while(s@, text::digit()) =~= s@.take(end as int));
    }
    end
}

/// The number that a text starts with.
pub fn parse_leading_status_code(value: &str) -> (result: Option<u16>)
    ensures
        match result {
            Some(code) => leading_code(value@) == Some(code as nat),
            None => leading_code(value@) is None,
        },
{
    let end = count_digits(value);
    if end == 0 {
        return None;
    }
    assert(value@.subrange(0, end as int) =~= value@.take(end as int));
    let digits = text::slice_text(value, 0, end);
    assert(text::is_digit(digits@[0]));
    match text::parse_unsigned_text(&digits, 65535) {
        Some(code) => Some(code as u16),
        None => None,
    }
}

/// What follows the first `marker` in a text.
fn text_behind(s: &str, marker: &str) -> (result: Option<String>)
    ensures
        match result {
            Some(rest) => text::find_text(s@, marker@) matches Some(i) && rest@ == s@.skip(
                i + marker@.len(),
            ),
            None => text::find_text(s@, marker@) is None,
        },
{
    match text::find(s, marker) {
        Some(i) => {
            let length = text::chars_of(s).len();
            let start = i + text::chars_of(marker).len();
            assert(s@.subrange(start as int, length as int) =~= s@.skip(start as int));
            Some(text::slice_text(s, start, length))
        },
        None => None,
    }
}

/// Whether a text is of the form `<label> HTTP <status>: <body>`, and the number behind its first
/// ` HTTP `.
fn read_http_form(s: &str) -> (result: (bool, Option<u16>))
    ensures
        result.0 == is_http_form(s@),
        match result.1 {
            Some(code) => code_behind_http(s@) == Some(code as nat),
            None => code_behind_http(s@) is None,
        },
{
    match text_behind(s, " HTTP ") {
        Some(rest) => {
            let code = parse_leading_status_code(&rest);
            let count = count_digits(&rest);
            let chars = text::chars_of(&rest);
            (code.is_some() && count < chars.len() && chars[count] == ':', code)
        },
        None => (false, None),
    }
}

/// The position behind which the first `end` characters are digits to their end.
fn digits_start(chars: &Vec<char>, end: usize) -> (result: usize)
    requires
        end <= chars@.len(),
    ensures
        result <= end,
        text::trim_end_by(chars@.take(end as int), text::digit()) == chars@.take(result as int),
{
    let mut start: usize = end;
    while start > 0 && '0' <= chars[start - 1] && chars[start - 1] <= '9'
        invariant
            start <= end <= chars@.len(),
            forall|i: int| start <= i < end ==> text::is_digit(#[trigger] chars@[i]),
        decreases start,
    {
        start = start - 1;
    }
    proof {
        let taken = chars@.take(end as int);
        text::lemma_trim_end(taken, text::digit(), start as int);
        assert(taken.take(start as int) =~= chars@.take(start as int));
    }
    start
}

/// Whether a message ends with the number of the try that it is of.
fn ends_with_attempt(message: &str) -> (result: bool)
    ensures
        result == tells_attempt(message@),
{
    let chars = text::chars_of(message);
    if chars.len() == 0 || chars[chars.len() - 1] != ')' {
        return false;
    }
    let inner = chars.len() - 1;
    let total = digits_start(&chars, inner);
    assert(message@.drop_last() =~= chars@.take(inner as int));
    if total == 0 || total == inner || chars[total - 1] != '/' {
        return false;
    }
    let slash = total - 1;
    let start = digits_start(&chars, slash);
    assert(chars@.take(total as int).drop_last() =~= chars@.take(slash as int));
    let opening = " (attempt ";
    let width = text::chars_of(opening).len();
    if start == slash || start < width {
        return false;
    }
    assert(message@.subrange(start - width, start as int) =~= chars@.take(start as int).subrange(
        start - width,
        start as int,
    ));
    text::same_text(&text::slice_text(message, start - width, start), opening)
}

/// A message with the number of its try ends with it.
pub proof fn lemma_tells_attempt(message: Seq<char>, attempt: nat, attempts: nat)
    ensures
        tells_attempt(at_attempt(message, attempt, attempts)),
{
    reveal_strlit(" (attempt ");
    reveal_strlit("/");
    reveal_strlit(")");
    text::lemma_decimal_round_trip(attempt);
    text::lemma_decimal_round_trip(attempts);
    let number = text::decimal(attempt);
    let total = text::decimal(attempts);
    let whole = at_attempt(message, attempt, attempts);
    let start = message + " (attempt "@;
    let before_slash = start + number;
    let before_total = before_slash + "/"@;
    let inner = before_total + total;
    assert(whole.drop_last() =~= inner);
    assert forall|i: int| before_total.len() <= i < inner.len() implies text::digit()(
        #[trigger] inner[i],
    ) by {
        assert(inner[i] == total[i - before_total.len()]);
    }
    text::lemma_trim_end(inner, text::digit(), before_total.len() as int);
    assert(inner.take(before_total.len() as int) =~= before_total);
    assert(before_total.drop_last() =~= before_slash);
    assert forall|i: int| start.len() <= i < before_slash.len() implies text::digit()(
        #[trigger] before_slash[i],
    ) by {
        assert(before_slash[i] == number[i - start.len()]);
    }
    text::lemma_trim_end(before_slash, text::digit(), start.len() as int);
    assert(before_slash.take(start.len() as int) =~= start);
    assert(start.subrange(message.len() as int, start.len() as int) =~= " (attempt "@);
}

/// The status code in the message of a failure. The messages of failures to send have none.
pub fn extract_status_code(err_msg: &str) -> (result: Option<u16>)
    ensures
        match result {
            Some(code) => status_code(err_msg@) == Some(code as nat),
            None => status_code(err_msg@) is None,
        },
{
    match text::find(err_msg, " Error: ") {
        Some(i) => {
            assert(err_msg@.subrange(0, i as int) =~= err_msg@.take(i as int));
            let (is_form, code) = read_http_form(&text::slice_text(err_msg, 0, i));
            if is_form && !ends_with_attempt(err_msg) {
                return code;
            }
        },
        None => {
            return read_http_form(err_msg).1;
        },
    }
    match text_behind(err_msg, " Error: ") {
        Some(behind) => {
            if count_digits(&behind) == 0 {
                return None;
            }
            match parse_leading_status_code(&behind) {
                Some(code) => Some(code),
                None => read_http_form(err_msg).1,
            }
        },
        None => None,
    }
}

/// Whether the message of a failure tells of one for which another key may help. Other failures
/// are those of the request itself, of the server, or of the network.
pub fn is_failover_error(err_msg: &str) -> (result: bool)
    ensures
        result == failover_error(err_msg@),
{
    match extract_status_code(err_msg) {
        Some(code) => code == 401 || code == 402 || code == 403 || code == 429,
        None => false,
    }
}

/// The message of a request that was answered with a status code other than success.
pub fn http_error_message(label: &str, status: u16, body: &str) -> (result: String)
    requires
        100 <= status <= 999,
    ensures
        result@ == http_error(label@, status, body@),
{
    let printed = print_status(status);
    label.to_owned().concat(" Error: ").concat(&printed).concat(" - ").concat(body)
}

/// The message of a request that could not be sent.
pub fn transport_error_message(label: &str, message: &str) -> (result: String)
    ensures
        result@ == transport_error(label@, message@),
{
    label.to_owned().concat(" Error: ").concat(message)
}

/// A message with the number of the try that it is of.
fn message_at_attempt(message: &str, attempt: usize, attempts: usize) -> (result: String)
    ensures
        result@ == at_attempt(message@, attempt as nat, attempts as nat),
{
    let number = text::decimal_text(attempt as u64);
    let of = text::decimal_text(attempts as u64);
    message.to_owned().concat(" (attempt ").concat(&number).concat("/").concat(&of).concat(")")
}

// ===== The tries of one request =====

/// How far the tries of one request have come: the label for its messages, how many tries there
/// are, and the number of the current one.
pub struct RetryState {
    pub label: Seq<char>,
    pub attempts: nat,
    pub attempt: nat,
}

impl RetryState {
    /// Whether there is a current try.
    pub open spec fn wf(self) -> bool {
        1 <= self.attempt <= self.attempts
    }

    /// The state of the next try.
    pub open spec fn next(self) -> RetryState {
        RetryState { attempt: self.attempt + 1, ..self }
    }
}

/// What came of a try: an answer, with its status code, its header `retry-after` and its body, or a
/// failure to send, with its message and whether it timed out or found no connection.
pub enum Outcome {
    Answer { status: u16, retry_after: Option<Seq<char>>, body: Seq<char> },
    Failure { message: Seq<char>, is_timeout: bool, is_connect: bool },
}

impl Outcome {
    /// Whether the try was successful.
    pub open spec fn succeeded(self) -> bool {
        self matches Outcome::Answer { status, .. } && is_success(status)
    }

    /// Whether the try failed in a way that is worth another one.
    pub open spec fn retryable(self) -> bool {
        match self {
            Outcome::Answer { status, .. } => retryable_status(status),
            Outcome::Failure { is_timeout, is_connect, .. } => is_timeout || is_connect,
        }
    }

    /// The message of a try that failed.
    pub open spec fn message(self, label: Seq<char>) -> Seq<char> {
        match self {
            Outcome::Answer { status, body, .. } => http_error(label, status, body),
            Outcome::Failure { message, .. } => transport_error(label, message),
        }
    }

    /// The wait that the server asks for, in milliseconds.
    pub open spec fn asked_wait(self) -> Option<nat> {
        match self {
            Outcome::Answer { retry_after, .. } => retry_after_ms(retry_after),
            Outcome::Failure { .. } => None,
        }
    }
}

/// What to do after a try that failed.
#[derive(Debug, PartialEq, Eq)]
pub enum RetryStep {
    /// Wait for so many milliseconds, then try again.
    Sleep(u64),
    /// Give up with a message.
    Fail(String),
}

/// Whether a step is the one to take after a try that failed: to wait where another try is worth it
/// and there is one left, else to give up with the message and the number of the try.
pub open spec fn is_step_after(state: RetryState, outcome: Outcome, step: RetryStep) -> bool {
    if outcome.retryable() && state.attempt < state.attempts {
        step matches RetryStep::Sleep(wait) && wait == wait_before_next(
            state.attempt,
            outcome.asked_wait(),
        )
    } else {
        step matches RetryStep::Fail(message) && message@ == at_attempt(
            outcome.message(state.label),
            state.attempt,
            state.attempts,
        )
    }
}

/// The state after a try that failed: that of the next try where there is one.
pub open spec fn state_after(state: RetryState, outcome: Outcome) -> RetryState {
    if outcome.retryable() && state.attempt < state.attempts {
        state.next()
    } else {
        state
    }
}

/// The tries of one request.
pub struct RetryLoop {
    label: String,
    attempts: usize,
    attempt: usize,
}

impl View for RetryLoop {
    type V = RetryState;

    closed spec fn view(&self) -> RetryState {
        RetryState {
            label: self.label@,
            attempts: self.attempts as nat,
            attempt: self.attempt as nat,
        }
    }
}

impl RetryLoop {
    /// The first of `attempts` tries; there is at least one.
    pub fn new(label: &str, attempts: usize) -> (result: RetryLoop)
        ensures
            result@ == (RetryState {
                label: label@,
                attempts: if attempts == 0 {
                    1
                } else {
                    attempts as nat
                },
                attempt: 1,
            }),
            result@.wf(),
    {
        let attempts: usize = if attempts == 0 {
            1
        } else {
            attempts
        };
        RetryLoop { label: label.to_owned(), attempts, attempt: 1 }
    }

    /// Goes on to the next try, or gives up.
    fn step(&mut self, retryable: bool, wait: Option<u64>, message: &str) -> (step: RetryStep)
        requires
            old(self)@.wf(),
        ensures
            if retryable && old(self)@.attempt < old(self)@.attempts {
                &&& final(self)@ == old(self)@.next()
                &&& step matches RetryStep::Sleep(w) && w == wait_before_next(
                    old(self)@.attempt,
                    optional_number(wait),
                )
            } else {
                &&& final(self)@ == old(self)@
                &&& step matches RetryStep::Fail(m) && m@ == at_attempt(
                    message@,
                    old(self)@.attempt,
                    old(self)@.attempts,
                )
            },
    {
        if retryable && self.attempt < self.attempts {
            let wait = match wait {
                Some(ms) => ms,
                None => retry_delay_ms(self.attempt, None),
            };
            self.attempt = self.attempt + 1;
            RetryStep::Sleep(wait)
        } else {
            RetryStep::Fail(message_at_attempt(message, self.attempt, self.attempts))
        }
    }

    /// The current try was answered with a status code other than success.
    pub fn on_failed_answer(&mut self, status: u16, retry_after: Option<&str>, body: &str) -> (step:
        RetryStep)
        requires
            old(self)@.wf(),
            100 <= status <= 999,
        ensures
            ({
                let outcome = Outcome::Answer {
                    status,
                    retry_after: text::optional(retry_after),
                    body: body@,
                };
                &&& is_step_after(old(self)@, outcome, step)
                &&& final(self)@ == state_after(old(self)@, outcome)
            }),
            step is Sleep <==> (status == 429 || 500 <= status <= 599) && old(self)@.attempt
                < old(self)@.attempts,
            final(self)@.wf(),
    {
        let wait = parse_retry_after(retry_after);
        let message = http_error_message(&self.label, status, body);
        self.step(is_retryable_status(status), wait, &message)
    }

    /// The request could not be sent.
    pub fn on_failure(&mut self, message: &str, is_timeout: bool, is_connect: bool) -> (step:
        RetryStep)
        requires
            old(self)@.wf(),
        ensures
            ({
                let outcome = Outcome::Failure { message: message@, is_timeout, is_connect };
                &&& is_step_after(old(self)@, outcome, step)
                &&& final(self)@ == state_after(old(self)@, outcome)
            }),
            step is Sleep <==> (is_timeout || is_connect) && old(self)@.attempt
                < old(self)@.attempts,
            final(self)@.wf(),
    {
        let message = transport_error_message(&self.label, message);
        self.step(is_retryable_error(is_timeout, is_connect), None, &message)
    }

    /// The number of the current try.
    pub fn attempt(&self) -> (result: usize)
        ensures
            result == self@.attempt,
    {
        self.attempt
    }

    /// How many tries there are.
    pub fn attempts(&self) -> (result: usize)
        ensures
            result == self@.attempts,
    {
        self.attempts
    }
}

}

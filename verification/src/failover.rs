//! Trying a request with one key after the other.

use crate::{retry, text};
use std::collections::HashSet;
use vstd::prelude::*;
use vstd::string::*;

verus! {

broadcast use vstd::std_specs::hash::group_hash_axioms;

/// How far the keys have been tried: the label for the messages, how many keys there are, the
/// indices of those that were tried, and the message of the last failure that called for another
/// key.
pub struct FailoverState {
    pub label: Seq<char>,
    pub total: nat,
    pub tried: Set<usize>,
    pub last_error: Option<Seq<char>>,
}

impl FailoverState {
    /// Whether the tried indices are those of keys.
    pub open spec fn wf(self) -> bool {
        &&& self.tried.finite()
        &&& forall|i: usize| self.tried.contains(i) ==> i < self.total
    }

    /// Whether there is a key that was not tried.
    pub open spec fn has_untried(self) -> bool {
        self.tried.len() < self.total
    }

    /// The state once the key with index `i` is tried.
    pub open spec fn with_tried(self, i: usize) -> FailoverState {
        FailoverState { tried: self.tried.insert(i), ..self }
    }

    /// The state after a failure.
    pub open spec fn after_failure(self, message: Seq<char>) -> FailoverState {
        if self.goes_on_after(message) {
            FailoverState { last_error: Some(message), ..self }
        } else {
            self
        }
    }

    /// Whether a failure leads to another key: it is one for which another key may help, and there
    /// is a key that was not tried.
    pub open spec fn goes_on_after(self, message: Seq<char>) -> bool {
        retry::failover_error(message) && self.has_untried()
    }

    /// The message where no key can be picked: that of the last failure, or one that tells that the
    /// keys are exhausted.
    pub open spec fn exhausted(self) -> Seq<char> {
        match self.last_error {
            Some(message) => message,
            None => self.label + " Error: all "@ + text::decimal(self.total) + " keys exhausted"@,
        }
    }
}

/// The message where there are no keys at all.
pub open spec fn no_key_message(label: Seq<char>) -> Seq<char> {
    label + " Error: No API key configured"@
}

/// The outcome of picking a key.
#[derive(Debug, PartialEq, Eq)]
pub enum KeyChoice {
    /// Send with the key of this index.
    Send(usize),
    /// Give up with a message.
    GiveUp(String),
}

/// What follows from a failure.
#[derive(Debug, PartialEq, Eq)]
pub struct KeyVerdict {
    /// Whether the key is to be marked as failed.
    pub mark_failed: bool,
    /// The message to give up with; without one another key is to be picked.
    pub give_up: Option<String>,
}

/// The keys of a provider while a request is tried with one after the other.
pub struct FailoverLoop {
    label: String,
    total: usize,
    tried: HashSet<usize>,
    last_error: Option<String>,
}

impl View for FailoverLoop {
    type V = FailoverState;

    closed spec fn view(&self) -> FailoverState {
        FailoverState {
            label: self.label@,
            total: self.total as nat,
            tried: self.tried@,
            last_error: match self.last_error {
                Some(message) => Some(message@),
                None => None,
            },
        }
    }
}

impl FailoverLoop {
    /// No key of `total` ones is tried yet. It is an error to have none.
    pub fn new(label: &str, total: usize) -> (result: Result<FailoverLoop, String>)
        ensures
            match result {
                Ok(keys) => total > 0 && keys@ == (FailoverState {
                    label: label@,
                    total: total as nat,
                    tried: Set::empty(),
                    last_error: None,
                }) && keys@.wf() && keys@.has_untried(),
                Err(message) => total == 0 && message@ == no_key_message(label@),
            },
    {
        if total == 0 {
            return Err(label.to_owned().concat(" Error: No API key configured"));
        }
        Ok(FailoverLoop { label: label.to_owned(), total, tried: HashSet::new(), last_error: None })
    }

    /// The indices of the keys that were tried.
    pub fn tried(&self) -> (result: &HashSet<usize>)
        ensures
            result@ == self@.tried,
    {
        &self.tried
    }

    /// How many keys there are.
    pub fn total(&self) -> (result: usize)
        ensures
            result == self@.total,
    {
        self.total
    }

    /// A key was picked, or none could be.
    pub fn on_pick(&mut self, picked: Option<usize>) -> (result: KeyChoice)
        requires
            old(self)@.wf(),
            picked matches Some(i) ==> i < old(self)@.total,
        ensures
            match picked {
                Some(i) => result == KeyChoice::Send(i) && final(self)@ == old(self)@.with_tried(i),
                None => result matches KeyChoice::GiveUp(message) && message@ == old(
                    self,
                )@.exhausted() && final(self)@ == old(self)@,
            },
            final(self)@.wf(),
    {
        match picked {
            Some(i) => {
                self.tried.insert(i);
                KeyChoice::Send(i)
            },
            None => match &self.last_error {
                Some(message) => KeyChoice::GiveUp(message.clone()),
                None => {
                    let count = text::decimal_text(self.total as u64);
                    KeyChoice::GiveUp(
                        self.label.as_str().to_owned().concat(" Error: all ").concat(&count).concat(
                            " keys exhausted",
                        ),
                    )
                },
            },
        }
    }

    /// The request failed with the key that was picked last.
    pub fn on_failure(&mut self, message: &str) -> (result: KeyVerdict)
        requires
            old(self)@.wf(),
        ensures
            result.mark_failed == retry::failover_error(message@),
            match result.give_up {
                Some(error) => !old(self)@.goes_on_after(message@) && error@ == message@,
                None => old(self)@.goes_on_after(message@),
            },
            final(self)@ == old(self)@.after_failure(message@),
            final(self)@.wf(),
    {
        let key_matters = retry::is_failover_error(message);
        if key_matters && self.tried.len() < self.total {
            self.last_error = Some(message.to_owned());
            KeyVerdict { mark_failed: true, give_up: None }
        } else {
            KeyVerdict { mark_failed: key_matters, give_up: Some(message.to_owned()) }
        }
    }
}

// ===== The keys as a whole =====

/// How a request with one key after the other ended.
pub enum Ending {
    /// With an answer that tells of success.
    Delivered,
    /// With a message.
    Failed(Seq<char>),
    /// Not yet: another key is to be picked.
    Open,
}

/// A key that was picked, and the message of the failure with it, or nothing for success.
pub struct KeyTry {
    pub key: usize,
    pub failure: Option<Seq<char>>,
}

/// How the request ends from a state on, when it is tried as told by `tries` in turn.
pub open spec fn ending(state: FailoverState, tries: Seq<KeyTry>) -> Ending
    decreases tries.len(),
{
    if tries.len() == 0 {
        Ending::Open
    } else {
        let next = state.with_tried(tries[0].key);
        match tries[0].failure {
            None => Ending::Delivered,
            Some(message) => if next.goes_on_after(message) {
                ending(next.after_failure(message), tries.drop_first())
            } else {
                Ending::Failed(message)
            },
        }
    }
}

/// Whether the picked keys are keys of the provider, each picked once and none tried before.
pub open spec fn fresh_keys(state: FailoverState, tries: Seq<KeyTry>) -> bool {
    &&& forall|i: int|
        0 <= i < tries.len() ==> (#[trigger] tries[i]).key < state.total && !state.tried.contains(
            tries[i].key,
        )
    &&& forall|i: int, j: int|
        0 <= i < j < tries.len() ==> (#[trigger] tries[i]).key != (#[trigger] tries[j]).key
}

/// A set of indices below a limit has at most as many members as the limit says.
proof fn lemma_indices_bounded(s: Set<usize>, limit: nat)
    requires
        s.finite(),
        forall|i: usize| s.contains(i) ==> i < limit,
    ensures
        s.len() <= limit,
    decreases limit,
{
    if limit == 0 {
        assert(s =~= Set::<usize>::empty());
    } else if limit > usize::MAX + 1 {
        lemma_indices_bounded(s, (limit - 1) as nat);
    } else {
        lemma_indices_bounded(s.remove((limit - 1) as usize), (limit - 1) as nat);
    }
}

/// When no key is picked twice, the request ends at the latest when as many keys were picked as
/// were untried: every key has its try, and none has a second one.
pub proof fn law_keys_are_bounded(state: FailoverState, tries: Seq<KeyTry>)
    requires
        state.wf(),
        fresh_keys(state, tries),
    ensures
        state.tried.len() + tries.len() <= state.total,
        tries.len() > 0 && state.tried.len() + tries.len() == state.total ==> !(ending(
            state,
            tries,
        ) is Open),
    decreases tries.len(),
{
    lemma_indices_bounded(state.tried, state.total);
    if tries.len() > 0 {
        let next = state.with_tried(tries[0].key);
        let rest = tries.drop_first();
        assert(next.tried.len() == state.tried.len() + 1);
        assert forall|i: int| 0 <= i < rest.len() implies (#[trigger] rest[i]).key < state.total
            && !next.tried.contains(rest[i].key) by {
            assert(rest[i] == tries[i + 1]);
        }
        assert forall|i: int, j: int| 0 <= i < j < rest.len() implies (#[trigger] rest[i]).key != (
        #[trigger] rest[j]).key by {
            assert(rest[i] == tries[i + 1]);
            assert(rest[j] == tries[j + 1]);
        }
        law_keys_are_bounded(next, rest);
        match tries[0].failure {
            Some(message) => {
                let after = next.after_failure(message);
                assert(fresh_keys(after, rest));
                law_keys_are_bounded(after, rest);
            },
            None => {},
        }
    }
}

/// A failure for which another key does not help ends the request with its own message, whatever
/// keys are left.
pub proof fn law_other_failures_end_at_once(
    state: FailoverState,
    key: usize,
    message: Seq<char>,
    later: Seq<KeyTry>,
)
    requires
        !retry::failover_error(message),
    ensures
        ending(state, seq![KeyTry { key, failure: Some(message) }] + later) == Ending::Failed(
            message,
        ),
{
    let tries = seq![KeyTry { key, failure: Some(message) }] + later;
    assert(tries[0] == KeyTry { key, failure: Some(message) });
}

/// While a key is left untried, a failure for which another key may help is passed over: the
/// request ends as it does with the keys picked later, and the failure is remembered.
pub proof fn law_key_failures_lead_to_the_next_key(
    state: FailoverState,
    key: usize,
    message: Seq<char>,
    later: Seq<KeyTry>,
)
    requires
        retry::failover_error(message),
        state.with_tried(key).has_untried(),
    ensures
        ({
            let next = state.with_tried(key).after_failure(message);
            &&& ending(state, seq![KeyTry { key, failure: Some(message) }] + later) == ending(
                next,
                later,
            )
            &&& next.exhausted() == message
        }),
{
    let tries = seq![KeyTry { key, failure: Some(message) }] + later;
    assert(tries[0] == KeyTry { key, failure: Some(message) });
    assert(tries.drop_first() =~= later);
}

}

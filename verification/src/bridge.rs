//! The bridge between the program and a browser: commands wait in a queue until the browser asks for
//! them, and results wait until the one who gave the command takes them.

use crate::json::{Json, JsonView};
use crate::tabs::{BrowserTab, TabTable, TabView};
use crate::{http, json, json_text, tabs, text};
use std::collections::VecDeque;
use vstd::prelude::*;
use vstd::string::*;

verus! {

/// The host that the bridge listens on.
pub const HOST: &'static str = "127.0.0.1";

/// The port that the bridge listens on.
pub const PORT: u16 = 18765;

/// The name of the directory with the browser extension.
pub const EXTENSION_DIR_NAME: &'static str = "kivio-browser-bridge-extension";

/// How long a wait for news lasts at most, in nanoseconds.
pub const WAIT_NANOS: u64 = 250_000_000;

/// How long the browser is kept waiting for a command, in nanoseconds.
pub const POLL_NANOS: u128 = 5_000_000_000;

/// The message where the result of a command does not come in time.
pub const TIMED_OUT: &'static str =
    "Browser automation command timed out. Is the Kivio browser bridge extension loaded?";

/// What is told of the bridge.
#[derive(Debug)]
pub struct BrowserAutomationInfo {
    pub host: &'static str,
    pub port: u16,
    pub extension_dir: String,
    pub session_count: usize,
}

/// What a browser tells when it asks for a command.
#[derive(Debug)]
pub struct PollRequest {
    pub tabs: Vec<BrowserTab>,
}

/// What a browser tells of the outcome of a command.
#[derive(Debug)]
pub struct ResultRequest {
    pub id: String,
    pub ok: bool,
    pub data: Json,
    pub error: Json,
    pub new_tabs: Vec<BrowserTab>,
}

// ===== Commands =====

/// A command for a browser.
#[derive(Debug)]
pub enum BrowserCommand {
    /// To run a script in a tab, or in the active one.
    ExecuteJs { id: String, tab_id: Option<i64>, code: String },
}

/// What a command is.
pub struct CommandView {
    pub id: Seq<char>,
    pub tab_id: Option<i64>,
    pub code: Seq<char>,
}

impl View for BrowserCommand {
    type V = CommandView;

    open spec fn view(&self) -> CommandView {
        match *self {
            BrowserCommand::ExecuteJs { id, tab_id, code } => CommandView {
                id: id@,
                tab_id,
                code: code@,
            },
        }
    }
}

/// A command as the browser is told of it. A tab that is not given is left out.
pub open spec fn command_json(command: CommandView) -> JsonView {
    let named = json::empty_object().with("type"@, JsonView::Str("execute_js"@)).with(
        "id"@,
        JsonView::Str(command.id),
    );
    let placed = match command.tab_id {
        Some(tab) => named.with("tabId"@, JsonView::Number(json_text::integer_number(tab))),
        None => named,
    };
    placed.with("code"@, JsonView::Str(command.code))
}

/// What the browser is told when there is no command.
pub open spec fn noop_json() -> JsonView {
    json::empty_object().with("type"@, JsonView::Str("noop"@))
}

impl BrowserCommand {
    /// The command as the browser is told of it.
    pub fn to_json(&self) -> (result: Json)
        ensures
            result@ == command_json(self@),
    {
        match self {
            BrowserCommand::ExecuteJs { id, tab_id, code } => {
                let named = Json::object().with("type", Json::string("execute_js")).with(
                    "id",
                    Json::string(id),
                );
                let placed = match tab_id {
                    Some(tab) => named.with("tabId", json_text::integer(*tab)),
                    None => named,
                };
                placed.with("code", Json::string(code))
            },
        }
    }
}

/// Whether a character is a small hexadecimal digit.
pub open spec fn is_hex(c: char) -> bool {
    '0' <= c <= '9' || 'a' <= c <= 'f'
}

/// Whether a text has the form of a random identifier: groups of hexadecimal digits with hyphens
/// between them, and the marks of its version and variant.
pub open spec fn is_identifier(s: Seq<char>) -> bool {
    &&& s.len() == 36
    &&& forall|i: int|
        0 <= i < 36 ==> if i == 8 || i == 13 || i == 18 || i == 23 {
            #[trigger] s[i] == '-'
        } else {
            is_hex(s[i])
        }
    &&& s[14] == '4'
    &&& s[19] == '8' || s[19] == '9' || s[19] == 'a' || s[19] == 'b'
}

/// Calls `uuid::Uuid::new_v4` and writes the identifier that it draws with `Display`. Of the random
/// identifier only its form is known.
#[verifier::external_body]
fn fresh_id() -> (result: String)
    ensures
        is_identifier(result@),
{
    uuid::Uuid::new_v4().to_string()
}

// ===== Results =====

/// The outcome of a command.
#[derive(Debug)]
pub struct CommandResult {
    pub ok: bool,
    pub data: Json,
    pub error: Json,
    pub new_tabs: Vec<BrowserTab>,
}

/// What the outcome of a command is.
pub struct ResultView {
    pub ok: bool,
    pub data: JsonView,
    pub error: JsonView,
    pub new_tabs: Seq<TabView>,
}

impl View for CommandResult {
    type V = ResultView;

    open spec fn view(&self) -> ResultView {
        ResultView {
            ok: self.ok,
            data: self.data@,
            error: self.error@,
            new_tabs: tabs::tabs_view(self.new_tabs@),
        }
    }
}

/// What the one who gave a command gets: what the script returned and the tabs that it opened, or
/// the text of the error.
pub open spec fn outcome(result: ResultView) -> Result<JsonView, Seq<char>> {
    if result.ok {
        Ok(
            json::empty_object().with("data"@, result.data).with(
                "newTabs"@,
                tabs::tabs_json(result.new_tabs),
            ),
        )
    } else {
        Err(json_text::printed_json(result.error))
    }
}

/// What a result of value or message holds.
pub open spec fn outcome_view(result: Result<Json, String>) -> Result<JsonView, Seq<char>> {
    match result {
        Ok(value) => Ok(value@),
        Err(message) => Err(message@),
    }
}

impl CommandResult {
    /// What the one who gave the command gets.
    pub fn into_outcome(self) -> (result: Result<Json, String>)
        ensures
            outcome_view(result) == outcome(self@),
    {
        if self.ok {
            let opened = tabs::tabs_to_json(&self.new_tabs);
            Ok(Json::object().with("data", self.data).with("newTabs", opened))
        } else {
            Err(json_text::write_json(&self.error))
        }
    }
}

/// Whether the entry at a position is that of an identifier.
spec fn stands_at(entries: Seq<(String, CommandResult)>, id: Seq<char>, i: int) -> bool {
    0 <= i < entries.len() && entries[i].0@ == id
}

/// The results that wait to be taken, each under the identifier of its command.
pub struct ResultTable {
    entries: Vec<(String, CommandResult)>,
}

impl View for ResultTable {
    type V = Map<Seq<char>, ResultView>;

    closed spec fn view(&self) -> Map<Seq<char>, ResultView> {
        Map::new(
            |id: Seq<char>| exists|i: int| stands_at(self.entries@, id, i),
            |id: Seq<char>| self.entries@[choose|i: int| stands_at(self.entries@, id, i)].1@,
        )
    }
}

impl ResultTable {
    /// Whether no identifier stands twice in the table.
    pub closed spec fn wf(self) -> bool {
        forall|i: int, j: int|
            0 <= i < j < self.entries@.len() ==> (#[trigger] self.entries@[i]).0@ != (
            #[trigger] self.entries@[j]).0@
    }

    /// What stands at a position is what the table holds.
    proof fn lemma_entry(self, id: Seq<char>, i: int)
        requires
            self.wf(),
            stands_at(self.entries@, id, i),
        ensures
            self@.contains_key(id),
            self@[id] == self.entries@[i].1@,
    {
        let k = choose|k: int| stands_at(self.entries@, id, k);
        assert(stands_at(self.entries@, id, k));
        if k < i {
            assert(self.entries@[k].0@ != self.entries@[i].0@);
        } else if i < k {
            assert(self.entries@[i].0@ != self.entries@[k].0@);
        }
    }

    /// No result waits.
    pub fn new() -> (result: ResultTable)
        ensures
            result@ == Map::<Seq<char>, ResultView>::empty(),
            result.wf(),
    {
        let result = ResultTable { entries: Vec::new() };
        assert forall|id: Seq<char>| !#[trigger] result@.contains_key(id) by {
            assert forall|i: int| !stands_at(result.entries@, id, i) by {}
        }
        assert(result@ =~= Map::<Seq<char>, ResultView>::empty());
        result
    }

    /// Takes the result of a command out of the table.
    pub fn take(&mut self, id: &str) -> (result: Option<CommandResult>)
        requires
            old(self).wf(),
        ensures
            match result {
                Some(found) => old(self)@.contains_key(id@) && found@ == old(self)@[id@],
                None => !old(self)@.contains_key(id@),
            },
            final(self)@ == old(self)@.remove(id@),
            final(self).wf(),
    {
        let ghost before = *self;
        let mut i: usize = 0;
        while i < self.entries.len()
            invariant
                *self == before,
                *self == *old(self),
                before.wf(),
                i <= self.entries@.len(),
                forall|j: int| 0 <= j < i ==> (#[trigger] self.entries@[j]).0@ != id@,
            decreases self.entries@.len() - i,
        {
            if text::same_text(&self.entries[i].0, id) {
                let ghost at = i as int;
                let (_, found) = self.entries.remove(i);
                proof {
                    before.lemma_entry(id@, at);
                    let old_entries = before.entries@;
                    let entries = self.entries@;
                    assert(entries =~= old_entries.remove(at));
                    assert forall|j: int, k: int| 0 <= j < k < entries.len() implies (
                    #[trigger] entries[j]).0@ != (#[trigger] entries[k]).0@ by {
                        let oj = if j < at {
                            j
                        } else {
                            j + 1
                        };
                        let ok = if k < at {
                            k
                        } else {
                            k + 1
                        };
                        assert(old_entries[oj].0@ != old_entries[ok].0@);
                    }
                    assert(self.wf());
                    assert forall|key: Seq<char>| self@.contains_key(key) implies #[trigger]
                        before@.remove(id@).contains_key(key) && before@[key] == self@[key] by {
                        let k = choose|k: int| stands_at(entries, key, k);
                        assert(stands_at(entries, key, k));
                        self.lemma_entry(key, k);
                        let ok = if k < at {
                            k
                        } else {
                            k + 1
                        };
                        assert(old_entries[ok] == entries[k]);
                        before.lemma_entry(key, ok);
                        if ok < at {
                            assert(old_entries[ok].0@ != old_entries[at].0@);
                        } else {
                            assert(old_entries[at].0@ != old_entries[ok].0@);
                        }
                    }
                    assert forall|key: Seq<char>| #[trigger]
                        before@.remove(id@).contains_key(key) implies self@.contains_key(key) by {
                        let ok = choose|k: int| stands_at(old_entries, key, k);
                        assert(stands_at(old_entries, key, ok));
                        let k = if ok < at {
                            ok
                        } else {
                            ok - 1
                        };
                        assert(ok != at);
                        assert(entries[k] == old_entries[ok]);
                        self.lemma_entry(key, k);
                    }
                    assert(self@ =~= before@.remove(id@));
                }
                return Some(found);
            }
            i = i + 1;
        }
        proof {
            if self@.contains_key(id@) {
                let k = choose|k: int| stands_at(self.entries@, id@, k);
                assert(stands_at(self.entries@, id@, k));
            }
            assert(self@ =~= before@.remove(id@));
        }
        None
    }

    /// Puts the result of a command into the table, in place of the one under its identifier.
    pub fn put(&mut self, id: String, result: CommandResult)
        requires
            old(self).wf(),
        ensures
            final(self)@ == old(self)@.insert(id@, result@),
            final(self).wf(),
    {
        let ghost first = self@;
        let _ = self.take(id.as_str());
        let ghost before = *self;
        let ghost key = id@;
        let ghost value = result@;
        self.entries.push((id, result));
        proof {
            let old_entries = before.entries@;
            let entries = self.entries@;
            assert forall|j: int, k: int| 0 <= j < k < entries.len() implies (
            #[trigger] entries[j]).0@ != (#[trigger] entries[k]).0@ by {
                assert(entries[j] == old_entries[j]);
                if k < old_entries.len() {
                    assert(old_entries[j].0@ != old_entries[k].0@);
                } else {
                    before.lemma_entry(old_entries[j].0@, j);
                }
            }
            assert(self.wf());
            self.lemma_entry(key, old_entries.len() as int);
            assert forall|other: Seq<char>| self@.contains_key(other) implies #[trigger]
                before@.insert(key, value).contains_key(other) && before@.insert(key, value)[other]
                == self@[other] by {
                let k = choose|k: int| stands_at(entries, other, k);
                assert(stands_at(entries, other, k));
                self.lemma_entry(other, k);
                if k < old_entries.len() {
                    assert(entries[k] == old_entries[k]);
                    before.lemma_entry(other, k);
                }
            }
            assert forall|other: Seq<char>| #[trigger]
                before@.insert(key, value).contains_key(other) implies self@.contains_key(other) by {
                if other != key {
                    let k = choose|k: int| stands_at(old_entries, other, k);
                    assert(stands_at(old_entries, other, k));
                    assert(entries[k] == old_entries[k]);
                    self.lemma_entry(other, k);
                }
            }
            assert(self@ =~= before@.insert(key, value));
            assert(self@ =~= first.insert(key, value));
        }
    }
}

// ===== The bridge =====

/// What the bridge knows: the tabs that were told of, the commands that wait for the browser, and
/// the results that wait to be taken.
pub struct BridgeState {
    pub tabs: Map<i64, TabView>,
    pub queue: Seq<CommandView>,
    pub results: Map<Seq<char>, ResultView>,
}

impl BridgeState {
    /// The state with a further command at the end of the queue.
    pub open spec fn with_command(self, command: CommandView) -> BridgeState {
        BridgeState { queue: self.queue.push(command), ..self }
    }

    /// The state without the first command of the queue.
    pub open spec fn without_command(self) -> BridgeState {
        BridgeState { queue: self.queue.drop_first(), ..self }
    }

    /// The state once tabs are told of.
    pub open spec fn with_tabs(self, told: Seq<TabView>) -> BridgeState {
        BridgeState { tabs: tabs::with_tabs(self.tabs, told), ..self }
    }

    /// The state once the result of the command `id` is told of, and with it the tabs it opened.
    pub open spec fn with_result(self, id: Seq<char>, result: ResultView) -> BridgeState {
        BridgeState {
            tabs: tabs::with_tabs(self.tabs, result.new_tabs),
            results: self.results.insert(id, result),
            ..self
        }
    }

    /// The state once the result of the command `id` is taken.
    pub open spec fn without_result(self, id: Seq<char>) -> BridgeState {
        BridgeState { results: self.results.remove(id), ..self }
    }
}

/// What to do when the browser asks for a command.
#[derive(Debug)]
pub enum PollStep {
    /// Answer it.
    Answer(Json),
    /// Wait for news for so many nanoseconds, and look again.
    Wait(u64),
}

/// What to do when a result is waited for.
#[derive(Debug)]
pub enum ResultStep {
    /// It has come, or the time is up.
    Done(Result<Json, String>),
    /// Wait for news for so many nanoseconds, and look again.
    Wait(u64),
}

/// How long a wait is that ends at `limit` when `waited` has passed, in nanoseconds.
pub open spec fn wait_left(limit: u128, waited: u128) -> int {
    if limit - waited < WAIT_NANOS {
        limit - waited
    } else {
        WAIT_NANOS as int
    }
}

/// What the commands of a row are.
spec fn commands_view(commands: Seq<BrowserCommand>) -> Seq<CommandView> {
    Seq::new(commands.len(), |i: int| commands[i]@)
}

/// The bridge.
pub struct BrowserAutomation {
    tabs: TabTable,
    queue: VecDeque<BrowserCommand>,
    results: ResultTable,
}

impl View for BrowserAutomation {
    type V = BridgeState;

    closed spec fn view(&self) -> BridgeState {
        BridgeState {
            tabs: self.tabs@,
            queue: commands_view(self.queue@),
            results: self.results@,
        }
    }
}

impl BrowserAutomation {
    /// Whether the tables of the bridge are in order.
    pub closed spec fn wf(self) -> bool {
        tabs::is_table(self.tabs@) && self.results.wf()
    }

    /// A bridge that knows nothing.
    pub fn new() -> (result: BrowserAutomation)
        ensures
            result@ == (BridgeState {
                tabs: Map::empty(),
                queue: Seq::empty(),
                results: Map::empty(),
            }),
            result.wf(),
    {
        let result = BrowserAutomation {
            tabs: TabTable::new(),
            queue: VecDeque::new(),
            results: ResultTable::new(),
        };
        assert(commands_view(result.queue@) =~= Seq::empty());
        result
    }

    /// The tabs that were told of: active ones first, and then by number.
    pub fn tabs(&self) -> (result: Vec<BrowserTab>)
        requires
            self.wf(),
        ensures
            tabs::is_table(self@.tabs),
            tabs::is_listing(tabs::tabs_view(result@), self@.tabs),
    {
        self.tabs.list()
    }

    /// What is told of the bridge, whose extension lies in a directory.
    pub fn info(&self, extension_dir: &str) -> (result: BrowserAutomationInfo)
        requires
            self.wf(),
        ensures
            result.host@ == HOST@,
            result.port == PORT,
            result.extension_dir@ == extension_dir@,
            result.session_count == self@.tabs.dom().len(),
    {
        BrowserAutomationInfo {
            host: HOST,
            port: PORT,
            extension_dir: extension_dir.to_owned(),
            session_count: self.tabs.len(),
        }
    }

    /// Takes note of tabs.
    fn note_tabs(&mut self, told: &Vec<BrowserTab>)
        requires
            old(self).wf(),
        ensures
            final(self)@ == old(self)@.with_tabs(tabs::tabs_view(told@)),
            final(self).wf(),
    {
        let ghost views = tabs::tabs_view(told@);
        for i in 0..told.len()
            invariant
                views == tabs::tabs_view(told@),
                self.wf(),
                self.tabs@ == tabs::with_tabs(old(self).tabs@, views.take(i as int)),
                self.queue == old(self).queue,
                self.results == old(self).results,
        {
            proof {
                assert(views.take(i + 1).drop_last() =~= views.take(i as int));
                assert(views.take(i + 1).last() == told@[i as int]@);
            }
            self.tabs.insert(told[i].copy());
        }
        assert(views.take(views.len() as int) =~= views);
    }

    /// Puts a command with the identifier `id` into the queue.
    pub fn enqueue(&mut self, id: &str, tab_id: Option<i64>, code: &str)
        requires
            old(self).wf(),
        ensures
            final(self)@ == old(self)@.with_command(
                CommandView { id: id@, tab_id, code: code@ },
            ),
            final(self).wf(),
    {
        let command = BrowserCommand::ExecuteJs {
            id: id.to_owned(),
            tab_id,
            code: code.to_owned(),
        };
        let ghost before = commands_view(self.queue@);
        self.queue.push_back(command);
        assert(commands_view(self.queue@) =~= before.push(command@));
    }

    /// Puts a command with a new identifier into the queue, and tells the identifier.
    pub fn submit(&mut self, tab_id: Option<i64>, code: &str) -> (id: String)
        requires
            old(self).wf(),
        ensures
            is_identifier(id@),
            final(self)@ == old(self)@.with_command(
                CommandView { id: id@, tab_id, code: code@ },
            ),
            final(self).wf(),
    {
        let id = fresh_id();
        self.enqueue(&id, tab_id, code);
        id
    }

    /// Looks for the result of the command `id`, which is waited for since `waited` nanoseconds and
    /// for at most `limit`.
    pub fn await_result(&mut self, id: &str, waited: u128, limit: u128) -> (step: ResultStep)
        requires
            old(self).wf(),
        ensures
            if old(self)@.results.contains_key(id@) {
                &&& step matches ResultStep::Done(result) && outcome_view(result) == outcome(
                    old(self)@.results[id@],
                )
                &&& final(self)@ == old(self)@.without_result(id@)
            } else {
                &&& final(self)@ == old(self)@
                &&& if waited >= limit {
                    step matches ResultStep::Done(Err(message)) && message@ == TIMED_OUT@
                } else {
                    step matches ResultStep::Wait(nanos) && nanos == wait_left(limit, waited)
                }
            },
            final(self).wf(),
    {
        match self.results.take(id) {
            Some(result) => ResultStep::Done(result.into_outcome()),
            None => {
                assert(self@.results =~= old(self)@.results);
                if waited >= limit {
                    return ResultStep::Done(Err(TIMED_OUT.to_owned()));
                }
                let left = limit - waited;
                if left < WAIT_NANOS as u128 {
                    ResultStep::Wait(left as u64)
                } else {
                    ResultStep::Wait(WAIT_NANOS)
                }
            },
        }
    }

    /// The browser asks for a command and tells of its tabs.
    pub fn begin_poll(&mut self, request: &PollRequest)
        requires
            old(self).wf(),
        ensures
            final(self)@ == old(self)@.with_tabs(tabs::tabs_view(request.tabs@)),
            final(self).wf(),
    {
        self.note_tabs(&request.tabs);
    }

    /// Looks for a command for the browser, which is kept waiting since `waited` nanoseconds.
    pub fn handle_poll(&mut self, waited: u128) -> (step: PollStep)
        requires
            old(self).wf(),
        ensures
            if old(self)@.queue.len() > 0 {
                &&& step matches PollStep::Answer(answer) && answer@ == command_json(
                    old(self)@.queue[0],
                )
                &&& final(self)@ == old(self)@.without_command()
            } else {
                &&& final(self)@ == old(self)@
                &&& if waited >= POLL_NANOS {
                    step matches PollStep::Answer(answer) && answer@ == noop_json()
                } else {
                    step == PollStep::Wait(WAIT_NANOS)
                }
            },
            final(self).wf(),
    {
        let ghost before = self.queue@;
        match self.queue.pop_front() {
            Some(command) => {
                assert(commands_view(self.queue@) =~= commands_view(before).drop_first());
                PollStep::Answer(command.to_json())
            },
            None => {
                if waited >= POLL_NANOS {
                    PollStep::Answer(Json::object().with("type", Json::string("noop")))
                } else {
                    PollStep::Wait(WAIT_NANOS)
                }
            },
        }
    }

    /// The browser tells of the result of a command.
    pub fn handle_result(&mut self, request: ResultRequest) -> (answer: Json)
        requires
            old(self).wf(),
        ensures
            answer@ == http::ok_json(),
            final(self)@ == old(self)@.with_result(
                request.id@,
                ResultView {
                    ok: request.ok,
                    data: request.data@,
                    error: request.error@,
                    new_tabs: tabs::tabs_view(request.new_tabs@),
                },
            ),
            final(self).wf(),
    {
        self.note_tabs(&request.new_tabs);
        let result = CommandResult {
            ok: request.ok,
            data: request.data,
            error: request.error,
            new_tabs: request.new_tabs,
        };
        self.results.put(request.id, result);
        http::ok_reply()
    }
}

// ===== Around the bridge =====

/// How long the result of a command is waited for, in milliseconds: fifteen seconds where nothing is
/// said, and never less than one second or more than two minutes.
pub open spec fn timeout_ms(asked: Option<u64>) -> u64 {
    match asked {
        Some(ms) => if ms < 1_000 {
            1_000
        } else if ms > 120_000 {
            120_000
        } else {
            ms
        },
        None => 15_000,
    }
}

/// How long the result of a command is waited for, in milliseconds.
pub fn command_timeout_ms(asked: Option<u64>) -> (result: u64)
    ensures
        result == timeout_ms(asked),
{
    match asked {
        Some(ms) => if ms < 1_000 {
            1_000
        } else if ms > 120_000 {
            120_000
        } else {
            ms
        },
        None => 15_000,
    }
}

/// Whether a file is to be written: it does not hold the wanted contents.
pub fn needs_write(current: Option<&str>, contents: &str) -> (result: bool)
    ensures
        result == (text::optional(current) != Some(contents@)),
{
    match current {
        Some(found) => !text::same_text(found, contents),
        None => true,
    }
}

/// The message where the bridge cannot listen.
pub fn bind_error_message(reason: &str) -> (result: String)
    ensures
        result@ == "Failed to bind browser automation bridge on "@ + HOST@ + ":"@ + text::decimal(
            PORT as nat,
        ) + ": "@ + reason@,
{
    let port = text::decimal_text(PORT as u64);
    "Failed to bind browser automation bridge on ".to_owned().concat(HOST).concat(":").concat(
        &port,
    ).concat(": ").concat(reason)
}

// ===== What holds of the bridge =====

/// The state once the commands of a row are put into the queue, one after the other.
pub open spec fn with_commands(state: BridgeState, commands: Seq<CommandView>) -> BridgeState
    decreases commands.len(),
{
    if commands.len() == 0 {
        state
    } else {
        with_commands(state, commands.drop_last()).with_command(commands.last())
    }
}

/// The state once the browser has asked for a command `count` times, and the commands it got.
pub open spec fn polled(state: BridgeState, count: nat) -> (BridgeState, Seq<CommandView>)
    decreases count,
{
    if count == 0 {
        (state, Seq::empty())
    } else {
        let before = polled(state, (count - 1) as nat);
        if before.0.queue.len() == 0 {
            before
        } else {
            (before.0.without_command(), before.1.push(before.0.queue[0]))
        }
    }
}

/// The commands of a row stand at the end of the queue, in their order.
proof fn lemma_with_commands(state: BridgeState, commands: Seq<CommandView>)
    ensures
        with_commands(state, commands) == (BridgeState { queue: state.queue + commands, ..state }),
    decreases commands.len(),
{
    if commands.len() == 0 {
        assert(state.queue + commands =~= state.queue);
    } else {
        lemma_with_commands(state, commands.drop_last());
        assert((state.queue + commands.drop_last()).push(commands.last()) =~= state.queue
            + commands);
    }
}

/// Asking takes commands from the front of the queue.
proof fn lemma_polled(state: BridgeState, count: nat)
    requires
        count <= state.queue.len(),
    ensures
        polled(state, count) == (
            (BridgeState { queue: state.queue.skip(count as int), ..state }),
            state.queue.take(count as int),
        ),
    decreases count,
{
    if count == 0 {
        assert(state.queue.skip(0) =~= state.queue);
        assert(state.queue.take(0) =~= Seq::empty());
    } else {
        lemma_polled(state, (count - 1) as nat);
        let rest = state.queue.skip(count - 1);
        assert(rest.drop_first() =~= state.queue.skip(count as int));
        assert(state.queue.take(count - 1).push(rest[0]) =~= state.queue.take(count as int));
    }
}

/// The browser gets the commands in the order in which they were given, after those that waited
/// before, and each of them once: as many polls as there are commands empty the queue.
pub proof fn law_commands_come_in_order(state: BridgeState, commands: Seq<CommandView>)
    ensures
        ({
            let (after, got) = polled(
                with_commands(state, commands),
                state.queue.len() + commands.len(),
            );
            &&& got == state.queue + commands
            &&& after.queue.len() == 0
            &&& after.tabs == state.tabs
            &&& after.results == state.results
        }),
{
    lemma_with_commands(state, commands);
    let full = with_commands(state, commands);
    lemma_polled(full, full.queue.len());
    assert(full.queue.take(full.queue.len() as int) =~= full.queue);
}

/// What is told of a command is what the one who gave it gets, once: the result under its identifier
/// is the one told of last, and when it is taken it is gone. The results of other commands stay.
pub proof fn law_result_is_taken_once(
    state: BridgeState,
    id: Seq<char>,
    result: ResultView,
    other: Seq<char>,
)
    requires
        other != id,
    ensures
        ({
            let told = state.with_result(id, result);
            let taken = told.without_result(id);
            &&& told.results.contains_key(id) && told.results[id] == result
            &&& !taken.results.contains_key(id)
            &&& told.results.contains_key(other) == state.results.contains_key(other)
            &&& taken.results.contains_key(other) == state.results.contains_key(other)
            &&& taken.results[other] == state.results[other]
            &&& taken.queue == state.queue
        }),
{
}

/// A wait for a result ends in time: it is not longer than what is left, nor than the longest wait,
/// and it is never zero while time is left.
pub proof fn law_waits_end_in_time(limit: u128, waited: u128)
    requires
        waited < limit,
    ensures
        0 < wait_left(limit, waited) <= WAIT_NANOS,
        waited + wait_left(limit, waited) <= limit,
{
}

}

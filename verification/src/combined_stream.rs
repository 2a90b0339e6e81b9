//! The stream of a chat completion that answers with a translation, a separator, and the original
//! text. The pieces before the separator are handed on as the translation, those behind it as the
//! original.

use crate::json::{Json, JsonView};
use crate::sse::{Emission, EmissionView, LineEffect, TextEffect};
use crate::{json_text, sse, text};
use vstd::prelude::*;
use vstd::string::*;

verus! {

/// What stands between the translation and the original.
pub const COMBINED_TRANSLATE_SEPARATOR: &'static str = "<<<ORIGINAL>>>";

/// The bytes of the separator less one: as much of it as can stand at the end of a text that does
/// not hold it.
pub const HELD_BYTES: usize = 13;

/// The kind of the events that carry the translation.
pub const TRANSLATED: &'static str = "translated";

/// The kind of the events that carry the original.
pub const ORIGINAL: &'static str = "original";

/// What such a stream remembers from one line to the next: the text that is held back, since the
/// separator may have begun in it; the translation and the original so far; and whether the
/// separator has come.
pub struct CombinedState {
    pub tail: Seq<char>,
    pub translated: Seq<char>,
    pub original: Seq<char>,
    pub separated: bool,
}

/// The state at the start of a stream.
pub open spec fn start_state() -> CombinedState {
    CombinedState {
        tail: Seq::empty(),
        translated: Seq::empty(),
        original: Seq::empty(),
        separated: false,
    }
}

/// The largest number of characters, at most `n`, that leave at least `HELD_BYTES` bytes of the
/// text behind them, or zero.
pub open spec fn safe_up_to(s: Seq<char>, n: int) -> int
    decreases n,
{
    if n <= 0 {
        0
    } else if text::utf8_len(s.skip(n)) >= HELD_BYTES {
        n
    } else {
        safe_up_to(s, n - 1)
    }
}

/// How much of a text without the separator can be handed on: all of it but the shortest end of
/// whole characters that has at least `HELD_BYTES` bytes.
pub open spec fn safe_prefix(s: Seq<char>) -> int {
    safe_up_to(s, s.len() as int)
}

/// The event that carries a piece of the translation or the original, where it is not empty.
pub open spec fn piece_emitted(kind: Seq<char>, delta: Seq<char>) -> Seq<EmissionView> {
    if delta.len() == 0 {
        Seq::empty()
    } else {
        seq![EmissionView::Delta { kind, delta }]
    }
}

/// The text before the separator without the line feeds at its end.
pub open spec fn before_separator(joined: Seq<char>, i: int) -> Seq<char> {
    text::trim_end_by(joined.take(i), text::only('\n'))
}

/// The text behind the separator without the line feeds at its start.
pub open spec fn after_separator(joined: Seq<char>, i: int) -> Seq<char> {
    text::trim_start_by(
        joined.skip(i + COMBINED_TRANSLATE_SEPARATOR@.len()),
        text::only('\n'),
    )
}

/// The state after a piece of text.
pub open spec fn piece_state(state: CombinedState, piece: Seq<char>) -> CombinedState {
    let joined = state.tail + piece;
    if state.separated {
        CombinedState { original: state.original + piece, ..state }
    } else {
        match text::find_text(joined, COMBINED_TRANSLATE_SEPARATOR@) {
            Some(i) => CombinedState {
                tail: Seq::empty(),
                translated: state.translated + before_separator(joined, i),
                original: state.original + after_separator(joined, i),
                separated: true,
            },
            None => CombinedState {
                tail: joined.skip(safe_prefix(joined)),
                translated: state.translated + joined.take(safe_prefix(joined)),
                ..state
            },
        }
    }
}

/// The events that a piece of text causes.
pub open spec fn piece_emissions(state: CombinedState, piece: Seq<char>) -> Seq<EmissionView> {
    let joined = state.tail + piece;
    if state.separated {
        seq![EmissionView::Delta { kind: ORIGINAL@, delta: piece }]
    } else {
        match text::find_text(joined, COMBINED_TRANSLATE_SEPARATOR@) {
            Some(i) => piece_emitted(TRANSLATED@, before_separator(joined, i)) + piece_emitted(
                ORIGINAL@,
                after_separator(joined, i),
            ),
            None => piece_emitted(TRANSLATED@, joined.take(safe_prefix(joined))),
        }
    }
}

/// The state after a chunk.
pub open spec fn combined_value_state(state: CombinedState, value: JsonView) -> CombinedState {
    match sse::content_piece(value) {
        Some(piece) => piece_state(state, piece),
        None => state,
    }
}

/// The events that a chunk causes: its piece of reasoning, then those of its piece of text.
pub open spec fn combined_value_emitted(state: CombinedState, value: JsonView) -> Seq<
    EmissionView,
> {
    let reasoning = match sse::reasoning_piece(value) {
        Some(delta) => seq![EmissionView::Reasoning { kind: TRANSLATED@, delta }],
        None => Seq::empty(),
    };
    match sse::content_piece(value) {
        Some(piece) => reasoning + piece_emissions(state, piece),
        None => reasoning,
    }
}

/// The text that is held back when the stream ends: it belongs to the translation where no
/// separator has come.
pub open spec fn held_back(state: CombinedState) -> Seq<char> {
    if state.separated {
        Seq::empty()
    } else {
        state.tail
    }
}

/// What the stream returns: the translation with the text held back, and the original.
pub open spec fn combined_result(state: CombinedState) -> (Seq<char>, Seq<char>) {
    (state.translated + held_back(state), state.original)
}

/// The events that end the stream: the text held back, then the reason.
pub open spec fn combined_end_emitted(state: CombinedState, reason: Seq<char>) -> Seq<
    EmissionView,
> {
    piece_emitted(TRANSLATED@, held_back(state)).push(EmissionView::End { reason })
}

/// The effect of a line: one without data, or whose data is not JSON, has none; the data `[DONE]`
/// ends the stream.
pub open spec fn combined_line(state: CombinedState, line: Seq<char>) -> LineEffect<
    CombinedState,
    Result<(Seq<char>, Seq<char>), Seq<char>>,
> {
    let nothing = LineEffect { state, emitted: Seq::empty(), end: None };
    match sse::line_data(line) {
        Some(data) => if data == "[DONE]"@ {
            LineEffect {
                state,
                emitted: combined_end_emitted(state, "done"@),
                end: Some(Ok(combined_result(state))),
            }
        } else {
            match json_text::parsed_json(data) {
                Ok(value) => LineEffect {
                    state: combined_value_state(state, value),
                    emitted: combined_value_emitted(state, value),
                    end: None,
                },
                Err(_) => nothing,
            }
        },
        None => nothing,
    }
}

/// The effect of a line, as a function.
pub open spec fn combined_step() -> spec_fn(CombinedState, Seq<char>) -> LineEffect<
    CombinedState,
    Result<(Seq<char>, Seq<char>), Seq<char>>,
> {
    |state: CombinedState, line: Seq<char>| combined_line(state, line)
}

/// What a stream has to say after it was given something: the events to hand on, and the
/// translation and the original, or the message of a failure, where the stream has ended.
pub struct CombinedTurn {
    pub emitted: Vec<Emission>,
    pub end: Option<Result<(String, String), String>>,
}

/// What the result of a stream holds.
pub open spec fn combined_result_view(end: Option<Result<(String, String), String>>) -> Option<
    Result<(Seq<char>, Seq<char>), Seq<char>>,
> {
    match end {
        Some(Ok(texts)) => Some(Ok((texts.0@, texts.1@))),
        Some(Err(message)) => Some(Err(message@)),
        None => None,
    }
}

/// The stream of a chat completion that answers with a translation and the original.
pub struct CombinedStream {
    buffer: String,
    tail: String,
    translated: String,
    original: String,
    separated: bool,
}

/// How many characters of a text without the separator can be handed on.
fn safe_count(chars: &Vec<char>) -> (result: usize)
    ensures
        result == safe_prefix(chars@),
        result <= chars@.len(),
{
    let mut i: usize = chars.len();
    let mut held: usize = 0;
    assert(chars@.skip(i as int) =~= Seq::empty());
    assert(text::utf8_len(Seq::empty()) == 0);
    while i > 0 && held < HELD_BYTES
        invariant
            i <= chars@.len(),
            held == text::utf8_len(chars@.skip(i as int)),
            held < HELD_BYTES + 4,
            forall|j: int|
                i < j <= chars@.len() ==> text::utf8_len(#[trigger] chars@.skip(j)) < HELD_BYTES,
        decreases i,
    {
        let width = text::width_of_char(chars[i - 1]);
        proof {
            let c = chars@[i - 1];
            text::lemma_utf8_len_char(c);
            text::lemma_utf8_len_append(seq![c], chars@.skip(i as int));
            assert(chars@.skip(i - 1) =~= seq![c] + chars@.skip(i as int));
        }
        i = i - 1;
        held = held + width;
    }
    proof {
        lemma_safe_up_to(chars@, chars@.len() as int, i as int);
    }
    i
}

/// The position from which on less than `HELD_BYTES` bytes are left behind every position.
proof fn lemma_safe_up_to(s: Seq<char>, n: int, k: int)
    requires
        0 <= k <= n,
        forall|j: int| k < j <= n ==> text::utf8_len(#[trigger] s.skip(j)) < HELD_BYTES,
        k > 0 ==> text::utf8_len(s.skip(k)) >= HELD_BYTES,
    ensures
        safe_up_to(s, n) == k,
    decreases n,
{
    if k < n {
        assert(text::utf8_len(s.skip(n)) < HELD_BYTES);
        lemma_safe_up_to(s, n - 1, k);
    }
}

impl CombinedStream {
    /// The state of the stream.
    pub closed spec fn state(self) -> CombinedState {
        CombinedState {
            tail: self.tail@,
            translated: self.translated@,
            original: self.original@,
            separated: self.separated,
        }
    }

    /// The text after the last complete line.
    pub closed spec fn rest(self) -> Seq<char> {
        self.buffer@
    }

    /// The effect of a further text.
    pub open spec fn fed(self, more: Seq<char>) -> TextEffect<
        CombinedState,
        Result<(Seq<char>, Seq<char>), Seq<char>>,
    > {
        sse::run_lines(combined_step(), self.state(), self.rest() + more)
    }

    /// A stream at its start.
    pub fn new() -> (result: CombinedStream)
        ensures
            result.state() == start_state(),
            result.rest() == Seq::<char>::empty(),
    {
        CombinedStream {
            buffer: String::new(),
            tail: String::new(),
            translated: String::new(),
            original: String::new(),
            separated: false,
        }
    }

    /// Appends the event that carries a piece, where the piece is not empty.
    fn emit_piece(emitted: &mut Vec<Emission>, kind: &str, delta: &str)
        ensures
            sse::emissions_view(final(emitted)@) == sse::emissions_view(old(emitted)@)
                + piece_emitted(kind@, delta@),
    {
        if !delta.is_empty() {
            sse::emit(
                emitted,
                Emission::Delta { kind: kind.to_owned(), delta: delta.to_owned() },
            );
        }
        assert(sse::emissions_view(emitted@) =~= sse::emissions_view(old(emitted)@)
            + piece_emitted(kind@, delta@));
    }

    /// Takes in a piece of text and appends the events that it causes.
    pub fn on_piece(&mut self, piece: &str, emitted: &mut Vec<Emission>)
        ensures
            final(self).state() == piece_state(old(self).state(), piece@),
            final(self).rest() == old(self).rest(),
            sse::emissions_view(final(emitted)@) == sse::emissions_view(old(emitted)@)
                + piece_emissions(old(self).state(), piece@),
    {
        let ghost before = sse::emissions_view(emitted@);
        if self.separated {
            self.original.append(piece);
            sse::emit(
                emitted,
                Emission::Delta { kind: ORIGINAL.to_owned(), delta: piece.to_owned() },
            );
            assert(sse::emissions_view(emitted@) =~= before + piece_emissions(
                old(self).state(),
                piece@,
            ));
            return;
        }
        self.tail.append(piece);
        let ghost joined = self.tail@;
        let length = text::chars_of(&self.tail).len();
        match text::find(&self.tail, COMBINED_TRANSLATE_SEPARATOR) {
            Some(i) => {
                let width = text::chars_of(COMBINED_TRANSLATE_SEPARATOR).len();
                let before_text = text::trim_end_char(&text::slice_text(&self.tail, 0, i), '\n');
                let after_text = text::trim_start_char(
                    &text::slice_text(&self.tail, i + width, length),
                    '\n',
                );
                proof {
                    assert(joined.subrange(0, i as int) =~= joined.take(i as int));
                    assert(joined.subrange(i + width, length as int) =~= joined.skip(i + width));
                }
                self.translated.append(&before_text);
                self.original.append(&after_text);
                self.tail = String::new();
                self.separated = true;
                Self::emit_piece(emitted, TRANSLATED, &before_text);
                Self::emit_piece(emitted, ORIGINAL, &after_text);
                assert(sse::emissions_view(emitted@) =~= before + piece_emissions(
                    old(self).state(),
                    piece@,
                ));
            },
            None => {
                let count = safe_count(&text::chars_of(&self.tail));
                let ready = text::slice_text(&self.tail, 0, count);
                let kept = text::slice_text(&self.tail, count, length);
                proof {
                    assert(joined.subrange(0, count as int) =~= joined.take(count as int));
                    assert(joined.subrange(count as int, length as int) =~= joined.skip(
                        count as int,
                    ));
                }
                self.translated.append(&ready);
                self.tail = kept;
                Self::emit_piece(emitted, TRANSLATED, &ready);
            },
        }
    }

    /// Takes in a chunk and appends the events that it causes.
    pub fn on_value(&mut self, value: &Json, emitted: &mut Vec<Emission>)
        ensures
            final(self).state() == combined_value_state(old(self).state(), value@),
            final(self).rest() == old(self).rest(),
            sse::emissions_view(final(emitted)@) == sse::emissions_view(old(emitted)@)
                + combined_value_emitted(old(self).state(), value@),
    {
        let ghost before = sse::emissions_view(emitted@);
        if let Some(delta) = sse::reasoning_of(value) {
            sse::emit(emitted, Emission::Reasoning { kind: TRANSLATED.to_owned(), delta });
        }
        if let Some(piece) = sse::content_of(value) {
            self.on_piece(&piece, emitted);
        }
        assert(sse::emissions_view(emitted@) =~= before + combined_value_emitted(
            old(self).state(),
            value@,
        ));
    }

    /// Appends the events that end the stream, and gives what it returns.
    fn close(&self, reason: &str, emitted: &mut Vec<Emission>) -> (texts: (String, String))
        ensures
            sse::emissions_view(final(emitted)@) == sse::emissions_view(old(emitted)@)
                + combined_end_emitted(self.state(), reason@),
            (texts.0@, texts.1@) == combined_result(self.state()),
    {
        let ghost before = sse::emissions_view(emitted@);
        let mut translated = self.translated.clone();
        if self.separated {
            assert(translated@ =~= translated@ + held_back(self.state()));
        } else {
            translated.append(&self.tail);
            Self::emit_piece(emitted, TRANSLATED, &self.tail);
        }
        sse::emit(emitted, Emission::End { reason: reason.to_owned() });
        assert(sse::emissions_view(emitted@) =~= before + combined_end_emitted(
            self.state(),
            reason@,
        ));
        (translated, self.original.clone())
    }

    /// Takes in a line, appends the events that it causes, and gives the result where it ends the
    /// stream.
    pub fn on_line(&mut self, line: &str, emitted: &mut Vec<Emission>) -> (end: Option<
        Result<(String, String), String>,
    >)
        ensures
            final(self).state() == combined_line(old(self).state(), line@).state,
            final(self).rest() == old(self).rest(),
            sse::emissions_view(final(emitted)@) == sse::emissions_view(old(emitted)@)
                + combined_line(old(self).state(), line@).emitted,
            combined_result_view(end) == combined_line(old(self).state(), line@).end,
    {
        let ghost before = sse::emissions_view(emitted@);
        match sse::data_of_line(line) {
            Some(data) => {
                if text::same_text(&data, "[DONE]") {
                    let texts = self.close("done", emitted);
                    return Some(Ok(texts));
                }
                if let Ok(value) = json_text::read_json(&data) {
                    self.on_value(&value, emitted);
                } else {
                    assert(sse::emissions_view(emitted@) =~= before + Seq::empty());
                }
                None
            },
            None => {
                assert(sse::emissions_view(emitted@) =~= before + Seq::empty());
                None
            },
        }
    }

    /// Takes in a further text: its complete lines are worked off, until one of them ends the
    /// stream.
    pub fn feed_text(&mut self, more: &str) -> (turn: CombinedTurn)
        ensures
            final(self).state() == old(self).fed(more@).state,
            final(self).rest() == old(self).fed(more@).buffer,
            sse::emissions_view(turn.emitted@) == old(self).fed(more@).emitted,
            combined_result_view(turn.end) == old(self).fed(more@).end,
    {
        let ghost whole = self.fed(more@);
        self.buffer.append(more);
        let mut emitted: Vec<Emission> = Vec::new();
        assert(sse::emissions_view(emitted@) + whole.emitted =~= whole.emitted);
        loop
            invariant
                whole == old(self).fed(more@),
                ({
                    let further = sse::run_lines(combined_step(), self.state(), self.rest());
                    &&& whole.state == further.state
                    &&& whole.buffer == further.buffer
                    &&& whole.emitted == sse::emissions_view(emitted@) + further.emitted
                    &&& whole.end == further.end
                }),
            decreases self.rest().len(),
        {
            let ghost before = *self;
            let ghost sent = sse::emissions_view(emitted@);
            let ghost further = sse::run_lines(combined_step(), self.state(), self.rest());
            match sse::take_line(&mut self.buffer) {
                Some(line) => {
                    let ghost effect = combined_line(before.state(), line@);
                    let end = self.on_line(&line, &mut emitted);
                    if end.is_some() {
                        return CombinedTurn { emitted, end };
                    }
                    assert((sent + effect.emitted) + sse::run_lines(
                        combined_step(),
                        self.state(),
                        self.rest(),
                    ).emitted =~= sent + further.emitted);
                },
                None => {
                    assert(sent + further.emitted =~= sent);
                    return CombinedTurn { emitted, end: None };
                },
            }
        }
    }

    /// Takes in a further chunk of bytes.
    pub fn feed(&mut self, chunk: &[u8]) -> (turn: CombinedTurn)
        ensures
            final(self).state() == old(self).fed(text::lossy_text(chunk@)).state,
            final(self).rest() == old(self).fed(text::lossy_text(chunk@)).buffer,
            sse::emissions_view(turn.emitted@) == old(self).fed(text::lossy_text(chunk@)).emitted,
            combined_result_view(turn.end) == old(self).fed(text::lossy_text(chunk@)).end,
            vstd::utf8::valid_utf8(chunk@) ==> text::lossy_text(chunk@) == vstd::utf8::decode_utf8(
                chunk@,
            ),
    {
        let more = text::decode_lossy(chunk);
        self.feed_text(&more)
    }

    /// The stream was superseded or cancelled: it returns what has come so far.
    pub fn cancel(&self) -> (turn: CombinedTurn)
        ensures
            sse::emissions_view(turn.emitted@) == combined_end_emitted(
                self.state(),
                "cancelled"@,
            ),
            combined_result_view(turn.end) == Some(
                Ok::<(Seq<char>, Seq<char>), Seq<char>>(combined_result(self.state())),
            ),
    {
        let mut emitted: Vec<Emission> = Vec::new();
        let texts = self.close("cancelled", &mut emitted);
        assert(sse::emissions_view(emitted@) =~= combined_end_emitted(
            self.state(),
            "cancelled"@,
        ));
        CombinedTurn { emitted, end: Some(Ok(texts)) }
    }

    /// The connection was closed: the stream returns what has come.
    pub fn finish(&self) -> (turn: CombinedTurn)
        ensures
            sse::emissions_view(turn.emitted@) == combined_end_emitted(self.state(), "done"@),
            combined_result_view(turn.end) == Some(
                Ok::<(Seq<char>, Seq<char>), Seq<char>>(combined_result(self.state())),
            ),
    {
        let mut emitted: Vec<Emission> = Vec::new();
        let texts = self.close("done", &mut emitted);
        assert(sse::emissions_view(emitted@) =~= combined_end_emitted(self.state(), "done"@));
        CombinedTurn { emitted, end: Some(Ok(texts)) }
    }

    /// Reading from the connection failed: the stream returns the message of the failure.
    pub fn fail(&self, message: &str) -> (turn: CombinedTurn)
        ensures
            sse::emissions_view(turn.emitted@) == seq![EmissionView::End { reason: "error"@ }],
            combined_result_view(turn.end) == Some(
                Err::<(Seq<char>, Seq<char>), Seq<char>>(message@),
            ),
    {
        let mut emitted: Vec<Emission> = Vec::new();
        sse::emit(&mut emitted, Emission::End { reason: "error".to_owned() });
        assert(sse::emissions_view(emitted@) =~= seq![EmissionView::End { reason: "error"@ }]);
        CombinedTurn { emitted, end: Some(Err(message.to_owned())) }
    }
}

}

//! What holds of the stream of a translation and its original, however its text is cut into
//! pieces.

use crate::combined_stream::{
    CombinedState, CombinedStream, COMBINED_TRANSLATE_SEPARATOR, HELD_BYTES, ORIGINAL, TRANSLATED,
};
use crate::sse::EmissionView;
use crate::{combined_stream, json_text, sse, text};
use vstd::prelude::*;

verus! {

/// The state after a row of pieces of text.
pub open spec fn pieces_state(state: CombinedState, pieces: Seq<Seq<char>>) -> CombinedState
    decreases pieces.len(),
{
    if pieces.len() == 0 {
        state
    } else {
        combined_stream::piece_state(pieces_state(state, pieces.drop_last()), pieces.last())
    }
}

/// A row of pieces put together.
pub open spec fn joined(pieces: Seq<Seq<char>>) -> Seq<char>
    decreases pieces.len(),
{
    if pieces.len() == 0 {
        Seq::empty()
    } else {
        joined(pieces.drop_last()) + pieces.last()
    }
}

/// Whether `short` is `long` without some of the line feeds at its end.
pub open spec fn without_end_feeds(short: Seq<char>, long: Seq<char>) -> bool {
    &&& short.is_prefix_of(long)
    &&& forall|i: int| short.len() <= i < long.len() ==> #[trigger] long[i] == '\n'
}

/// Whether `short` is `long` without some of the line feeds at its start.
pub open spec fn without_start_feeds(short: Seq<char>, long: Seq<char>) -> bool {
    &&& short.is_suffix_of(long)
    &&& forall|i: int| 0 <= i < long.len() - short.len() ==> #[trigger] long[i] == '\n'
}

/// Whether the two texts are those on the two sides of the first separator of `whole`, but for
/// line feeds next to it; where `whole` holds no separator, it is the first text and the second is
/// empty.
pub open spec fn split_at_separator(
    whole: Seq<char>,
    translated: Seq<char>,
    original: Seq<char>,
) -> bool {
    match text::find_text(whole, COMBINED_TRANSLATE_SEPARATOR@) {
        Some(i) => {
            &&& without_end_feeds(translated, whole.take(i))
            &&& without_start_feeds(
                original,
                whole.skip(i + COMBINED_TRANSLATE_SEPARATOR@.len()),
            )
        },
        None => translated == whole && original.len() == 0,
    }
}

/// Whether the last `k` characters of a text are the first `k` of the separator.
spec fn begins_separator(whole: Seq<char>, k: int) -> bool {
    &&& 0 < k < COMBINED_TRANSLATE_SEPARATOR@.len()
    &&& k <= whole.len()
    &&& whole.skip(whole.len() - k) == COMBINED_TRANSLATE_SEPARATOR@.take(k)
}

/// What holds of a state after the text `whole`: before the separator has come nothing of it was
/// handed on, nor of a beginning of it at the end of the text.
spec fn consistent(state: CombinedState, whole: Seq<char>) -> bool {
    if state.separated {
        &&& text::contains_text(whole, COMBINED_TRANSLATE_SEPARATOR@)
        &&& split_at_separator(whole, state.translated, state.original)
    } else {
        &&& state.original.len() == 0
        &&& state.translated + state.tail == whole
        &&& !text::contains_text(whole, COMBINED_TRANSLATE_SEPARATOR@)
        &&& forall|k: int| #[trigger] begins_separator(whole, k) ==> k <= state.tail.len()
    }
}

/// An occurrence of the separator in a longer text lies in what is held back and what is new.
proof fn lemma_occurs_in_joined(state: CombinedState, whole: Seq<char>, piece: Seq<char>, i: int)
    requires
        consistent(state, whole),
        !state.separated,
        text::occurs_at(whole + piece, COMBINED_TRANSLATE_SEPARATOR@, i),
    ensures
        i >= state.translated.len(),
        text::occurs_at(
            state.tail + piece,
            COMBINED_TRANSLATE_SEPARATOR@,
            i - state.translated.len(),
        ),
{
    let sep = COMBINED_TRANSLATE_SEPARATOR@;
    let longer = whole + piece;
    let n = sep.len() as int;
    if i < state.translated.len() {
        if i + n <= whole.len() {
            assert(whole.subrange(i, i + n) =~= longer.subrange(i, i + n));
            assert(text::occurs_at(whole, sep, i));
            assert(false);
        } else {
            let k = whole.len() - i;
            assert(whole.skip(i) =~= sep.take(k)) by {
                assert forall|j: int| 0 <= j < k implies whole.skip(i)[j] == sep[j] by {
                    assert(longer.subrange(i, i + n)[j] == longer[i + j]);
                }
            }
            assert(begins_separator(whole, k));
            assert(false);
        }
    }
    let at = i - state.translated.len();
    let rest = state.tail + piece;
    assert(state.translated + rest =~= longer);
    assert(rest.subrange(at, at + n) =~= longer.subrange(i, i + n));
}

/// An occurrence of the separator in what is held back and what is new is one in the whole text.
proof fn lemma_occurs_in_whole(state: CombinedState, whole: Seq<char>, piece: Seq<char>, at: int)
    requires
        consistent(state, whole),
        !state.separated,
        text::occurs_at(state.tail + piece, COMBINED_TRANSLATE_SEPARATOR@, at),
    ensures
        text::occurs_at(
            whole + piece,
            COMBINED_TRANSLATE_SEPARATOR@,
            at + state.translated.len(),
        ),
{
    let n = COMBINED_TRANSLATE_SEPARATOR@.len() as int;
    let i = at + state.translated.len();
    let rest = state.tail + piece;
    assert(state.translated + rest =~= whole + piece);
    assert((whole + piece).subrange(i, i + n) =~= rest.subrange(at, at + n));
}

/// A piece without the separator keeps the state consistent.
proof fn lemma_piece_without_separator(state: CombinedState, whole: Seq<char>, piece: Seq<char>)
    requires
        consistent(state, whole),
        !state.separated,
        text::find_text(state.tail + piece, COMBINED_TRANSLATE_SEPARATOR@) is None,
    ensures
        consistent(combined_stream::piece_state(state, piece), whole + piece),
{
    let sep = COMBINED_TRANSLATE_SEPARATOR@;
    reveal_strlit("<<<ORIGINAL>>>");
    let rest = state.tail + piece;
    let longer = whole + piece;
    let m = combined_stream::safe_prefix(rest);
    let after = combined_stream::piece_state(state, piece);
    lemma_safe_prefix(rest);
    text::lemma_find(rest, sep);
    if text::contains_text(longer, sep) {
        let i = choose|i: int| text::occurs_at(longer, sep, i);
        lemma_occurs_in_joined(state, whole, piece, i);
        assert(false);
    }
    assert(after.translated + after.tail =~= longer) by {
        assert(state.translated + rest =~= longer);
        assert(rest.take(m) + rest.skip(m) =~= rest);
    }
    assert forall|k: int| #[trigger] begins_separator(longer, k) implies k <= after.tail.len() by {
        // The beginning lies in what is held back and what is new.
        if k > rest.len() {
            let j = k - piece.len();
            assert(whole.skip(whole.len() - j) =~= sep.take(j)) by {
                assert forall|x: int| 0 <= x < j implies whole.skip(whole.len() - j)[x]
                    == sep[x] by {
                    assert(longer.skip(longer.len() - k)[x] == sep.take(k)[x]);
                }
            }
            assert(begins_separator(whole, j));
            assert(false);
        }
        // It is ASCII, so it is no longer than the bytes that are held back.

        if k > after.tail.len() {
            let tail = after.tail;
            assert forall|x: int| 0 <= x < tail.len() implies #[trigger] tail[x] <= '\u{7f}' by {
                assert(tail[x] == longer.skip(longer.len() - k)[k - tail.len() + x]);
                assert(sep.take(k)[k - tail.len() + x] == sep[k - tail.len() + x]);
            }
            text::lemma_utf8_len_ascii(tail);
            assert(false);
        }
    }
}

/// What may be handed on leaves at least `HELD_BYTES` bytes behind it, or is nothing.
proof fn lemma_safe_prefix(s: Seq<char>)
    ensures
        0 <= combined_stream::safe_prefix(s) <= s.len(),
        combined_stream::safe_prefix(s) > 0 ==> text::utf8_len(
            s.skip(combined_stream::safe_prefix(s)),
        ) >= HELD_BYTES,
{
    lemma_safe_up_to(s, s.len() as int);
}

proof fn lemma_safe_up_to(s: Seq<char>, n: int)
    requires
        0 <= n <= s.len(),
    ensures
        0 <= combined_stream::safe_up_to(s, n) <= n,
        combined_stream::safe_up_to(s, n) > 0 ==> text::utf8_len(
            s.skip(combined_stream::safe_up_to(s, n)),
        ) >= HELD_BYTES,
    decreases n,
{
    if n > 0 && text::utf8_len(s.skip(n)) < HELD_BYTES {
        lemma_safe_up_to(s, n - 1);
    }
}

/// The piece that completes the separator keeps the state consistent.
proof fn lemma_piece_with_separator(state: CombinedState, whole: Seq<char>, piece: Seq<char>)
    requires
        consistent(state, whole),
        !state.separated,
        text::find_text(state.tail + piece, COMBINED_TRANSLATE_SEPARATOR@) is Some,
    ensures
        consistent(combined_stream::piece_state(state, piece), whole + piece),
{
    let sep = COMBINED_TRANSLATE_SEPARATOR@;
    let rest = state.tail + piece;
    let longer = whole + piece;
    let at = text::find_text(rest, sep)->0;
    let i = at + state.translated.len();
    let after = combined_stream::piece_state(state, piece);
    text::lemma_find(rest, sep);
    lemma_occurs_in_whole(state, whole, piece, at);
    assert forall|j: int| 0 <= j < i implies !#[trigger] text::occurs_at(longer, sep, j) by {
        if text::occurs_at(longer, sep, j) {
            lemma_occurs_in_joined(state, whole, piece, j);
        }
    }
    text::lemma_find_first(longer, sep, i);
    assert(state.translated + rest =~= longer);
    let end = text::lemma_trim_end_shape(rest.take(at), text::only('\n'));
    assert(after.translated =~= longer.take(state.translated.len() + end));
    assert(without_end_feeds(after.translated, longer.take(i))) by {
        assert(after.translated =~= longer.take(i).subrange(0, after.translated.len() as int));
        assert forall|x: int| after.translated.len() <= x < i implies #[trigger] longer.take(i)[x]
            == '\n' by {
            assert(rest.take(at)[x - state.translated.len()] == longer[x]);
        }
    }
    let behind = rest.skip(at + sep.len());
    assert(longer.skip(i + sep.len()) =~= behind);
    let start = text::lemma_trim_start_shape(behind, text::only('\n'));
    assert(after.original =~= behind.skip(start));
    assert(without_start_feeds(after.original, behind)) by {
        assert(after.original =~= behind.subrange(start, behind.len() as int));
    }
}

/// A piece after the separator keeps the state consistent.
proof fn lemma_piece_after_separator(state: CombinedState, whole: Seq<char>, piece: Seq<char>)
    requires
        consistent(state, whole),
        state.separated,
    ensures
        consistent(combined_stream::piece_state(state, piece), whole + piece),
{
    let sep = COMBINED_TRANSLATE_SEPARATOR@;
    let n = sep.len() as int;
    let longer = whole + piece;
    let after = combined_stream::piece_state(state, piece);
    text::lemma_find(whole, sep);
    let i = text::find_text(whole, sep)->0;
    assert(longer.subrange(i, i + n) =~= whole.subrange(i, i + n));
    assert forall|j: int| 0 <= j < i implies !#[trigger] text::occurs_at(longer, sep, j) by {
        assert(longer.subrange(j, j + n) =~= whole.subrange(j, j + n));
        assert(!text::occurs_at(whole, sep, j));
    }
    text::lemma_find_first(longer, sep, i);
    assert(longer.take(i) =~= whole.take(i));
    let behind = whole.skip(i + n);
    assert(longer.skip(i + n) =~= behind + piece);
    let cut = behind.len() - state.original.len();
    assert(after.original =~= (behind + piece).subrange(cut, (behind + piece).len() as int)) by {
        assert(state.original =~= behind.subrange(cut, behind.len() as int));
    }
    let extended = longer.skip(i + n);
    assert forall|x: int| 0 <= x < extended.len() - after.original.len() implies #[trigger] extended[x]
        == '\n' by {
        assert(extended[x] == behind[x]);
    }
    assert(without_start_feeds(after.original, extended));
    assert(text::occurs_at(longer, sep, i));
}

/// The state after a row of pieces is consistent with the pieces put together.
proof fn lemma_pieces_consistent(pieces: Seq<Seq<char>>)
    ensures
        consistent(pieces_state(combined_stream::start_state(), pieces), joined(pieces)),
    decreases pieces.len(),
{
    if pieces.len() == 0 {
        let start = combined_stream::start_state();
        assert(start.translated + start.tail =~= Seq::<char>::empty());
        reveal_strlit("<<<ORIGINAL>>>");
    } else {
        lemma_pieces_consistent(pieces.drop_last());
        let state = pieces_state(combined_stream::start_state(), pieces.drop_last());
        let whole = joined(pieces.drop_last());
        if state.separated {
            lemma_piece_after_separator(state, whole, pieces.last());
        } else if text::find_text(
            state.tail + pieces.last(),
            COMBINED_TRANSLATE_SEPARATOR@,
        ) is Some {
            lemma_piece_with_separator(state, whole, pieces.last());
        } else {
            lemma_piece_without_separator(state, whole, pieces.last());
        }
    }
}

/// However the text of an answer is cut into pieces, the translation and the original that come
/// out are the texts on the two sides of its first separator, but for line feeds next to the
/// separator. Nothing of a separator that is cut in two ends up in the translation.
pub proof fn law_separator_may_be_cut_anywhere(pieces: Seq<Seq<char>>)
    ensures
        ({
            let texts = combined_stream::combined_result(
                pieces_state(combined_stream::start_state(), pieces),
            );
            split_at_separator(joined(pieces), texts.0, texts.1)
        }),
{
    lemma_pieces_consistent(pieces);
    let state = pieces_state(combined_stream::start_state(), pieces);
    text::lemma_find(joined(pieces), COMBINED_TRANSLATE_SEPARATOR@);
    if state.separated {
        assert(state.translated + combined_stream::held_back(state) =~= state.translated);
    }
}

// ===== The stream as a whole =====

/// The piece of text that a line carries.
pub open spec fn line_piece(line: Seq<char>) -> Option<Seq<char>> {
    match sse::line_data(line) {
        Some(data) => match json_text::parsed_json(data) {
            Ok(value) => sse::content_piece(value),
            Err(_) => None,
        },
        None => None,
    }
}

/// The pieces of text that the lines of a text carry, up to the line that ends the stream.
pub open spec fn pieces_of(buffer: Seq<char>) -> Seq<Seq<char>>
    decreases buffer.len(),
{
    match sse::line_end(buffer) {
        Some(i) => {
            proof {
                text::lemma_find(buffer, seq!['\n']);
            }
            let line = buffer.take(i + 1);
            let rest = buffer.skip(i + 1);
            if sse::line_data(line) == Some("[DONE]"@) {
                Seq::empty()
            } else {
                match line_piece(line) {
                    Some(piece) => seq![piece] + pieces_of(rest),
                    None => pieces_of(rest),
                }
            }
        },
        None => Seq::empty(),
    }
}

/// The first piece of a row is taken in first.
proof fn lemma_first_piece(state: CombinedState, piece: Seq<char>, rest: Seq<Seq<char>>)
    ensures
        pieces_state(state, seq![piece] + rest) == pieces_state(
            combined_stream::piece_state(state, piece),
            rest,
        ),
    decreases rest.len(),
{
    let pieces = seq![piece] + rest;
    if rest.len() == 0 {
        assert(pieces.drop_last() =~= Seq::empty());
        assert(pieces_state(state, Seq::empty()) == state);
    } else {
        lemma_first_piece(state, piece, rest.drop_last());
        assert(pieces.drop_last() =~= seq![piece] + rest.drop_last());
        assert(pieces.last() == rest.last());
    }
}

/// The lines of a text leave the state that their pieces leave, and a stream that they end returns
/// the result of that state.
proof fn lemma_lines_are_pieces(state: CombinedState, buffer: Seq<char>)
    ensures
        ({
            let effect = sse::run_lines(combined_stream::combined_step(), state, buffer);
            &&& effect.state == pieces_state(state, pieces_of(buffer))
            &&& effect.end matches Some(end) ==> end == Ok::<(Seq<char>, Seq<char>), Seq<char>>(
                combined_stream::combined_result(effect.state),
            )
        }),
    decreases buffer.len(),
{
    match sse::line_end(buffer) {
        Some(i) => {
            text::lemma_find(buffer, seq!['\n']);
            let line = buffer.take(i + 1);
            let rest = buffer.skip(i + 1);
            let effect = combined_stream::combined_line(state, line);
            if sse::line_data(line) != Some("[DONE]"@) {
                lemma_lines_are_pieces(effect.state, rest);
                if let Some(piece) = line_piece(line) {
                    lemma_first_piece(state, piece, pieces_of(rest));
                }
            }
        },
        None => {},
    }
}

/// A stream that has been given the text `whole` from its start returns the two sides of the first
/// separator in the answer that the lines of the text carry, whether one of the lines ends it or
/// the connection is closed behind them.
pub proof fn law_stream_splits_the_answer(whole: Seq<char>)
    ensures
        ({
            let effect = sse::run_lines(
                combined_stream::combined_step(),
                combined_stream::start_state(),
                whole,
            );
            let texts = combined_stream::combined_result(effect.state);
            &&& split_at_separator(joined(pieces_of(whole)), texts.0, texts.1)
            &&& effect.end matches Some(end) ==> end == Ok::<(Seq<char>, Seq<char>), Seq<char>>(
                texts,
            )
        }),
{
    lemma_lines_are_pieces(combined_stream::start_state(), whole);
    law_separator_may_be_cut_anywhere(pieces_of(whole));
}

/// Cutting the text of a stream into chunks makes no difference to its events and its result.
pub proof fn law_chunks_do_not_matter(stream: CombinedStream, a: Seq<char>, b: Seq<char>)
    ensures
        ({
            let first = stream.fed(a);
            let second = sse::run_lines(
                combined_stream::combined_step(),
                first.state,
                first.buffer + b,
            );
            let whole = stream.fed(a + b);
            if first.end is Some {
                whole.emitted == first.emitted && whole.end == first.end
            } else {
                &&& whole.state == second.state
                &&& whole.buffer == second.buffer
                &&& whole.emitted == first.emitted + second.emitted
                &&& whole.end == second.end
            }
        }),
{
    sse::law_pieces_do_not_matter(
        combined_stream::combined_step(),
        stream.state(),
        stream.rest() + a,
        b,
    );
    assert(stream.rest() + (a + b) =~= (stream.rest() + a) + b);
}

/// The text that the events of a row carry as the translation and as the original.
pub open spec fn emitted_texts(emitted: Seq<EmissionView>) -> (Seq<char>, Seq<char>) {
    (sse::delta_text(emitted, TRANSLATED@), sse::delta_text(emitted, ORIGINAL@))
}

/// What one event carries.
proof fn lemma_piece_text(kind: Seq<char>, delta: Seq<char>, wanted: Seq<char>)
    ensures
        sse::delta_text(combined_stream::piece_emitted(kind, delta), wanted) == if kind == wanted {
            delta
        } else {
            Seq::empty()
        },
{
    reveal_with_fuel(sse::delta_text, 2);
    let row = combined_stream::piece_emitted(kind, delta);
    if delta.len() > 0 {
        assert(row.drop_last() =~= Seq::empty());
        assert(Seq::empty() + delta =~= delta);
    } else {
        assert(delta =~= Seq::empty());
    }
}

/// What the events of a piece carry.
proof fn lemma_piece_texts(state: CombinedState, piece: Seq<char>)
    ensures
        ({
            let after = combined_stream::piece_state(state, piece);
            let texts = emitted_texts(combined_stream::piece_emissions(state, piece));
            &&& after.translated == state.translated + texts.0
            &&& after.original == state.original + texts.1
        }),
{
    reveal_strlit("translated");
    reveal_strlit("original");
    assert(TRANSLATED@.len() != ORIGINAL@.len());
    let after = combined_stream::piece_state(state, piece);
    let emitted = combined_stream::piece_emissions(state, piece);
    let rest = state.tail + piece;
    if state.separated {
        reveal_with_fuel(sse::delta_text, 2);
        assert(emitted.drop_last() =~= Seq::empty());
        assert(Seq::empty() + piece =~= piece);
    } else {
        match text::find_text(rest, COMBINED_TRANSLATE_SEPARATOR@) {
            Some(i) => {
                let before = combined_stream::before_separator(rest, i);
                let behind = combined_stream::after_separator(rest, i);
                let a = combined_stream::piece_emitted(TRANSLATED@, before);
                let b = combined_stream::piece_emitted(ORIGINAL@, behind);
                sse::lemma_delta_text_append(a, b, TRANSLATED@);
                sse::lemma_delta_text_append(a, b, ORIGINAL@);
                lemma_piece_text(TRANSLATED@, before, TRANSLATED@);
                lemma_piece_text(TRANSLATED@, before, ORIGINAL@);
                lemma_piece_text(ORIGINAL@, behind, TRANSLATED@);
                lemma_piece_text(ORIGINAL@, behind, ORIGINAL@);
                assert(before + Seq::empty() =~= before);
                assert(Seq::empty() + behind =~= behind);
            },
            None => {
                let ready = rest.take(combined_stream::safe_prefix(rest));
                lemma_piece_text(TRANSLATED@, ready, TRANSLATED@);
                lemma_piece_text(TRANSLATED@, ready, ORIGINAL@);
            },
        }
    }
    assert(after.translated =~= state.translated + emitted_texts(emitted).0);
    assert(after.original =~= state.original + emitted_texts(emitted).1);
}

/// What the events of a line carry: the growth of the state, or, where the line ends the stream,
/// what the stream returns.
proof fn lemma_line_texts(state: CombinedState, line: Seq<char>)
    ensures
        ({
            let effect = combined_stream::combined_line(state, line);
            let texts = emitted_texts(effect.emitted);
            let reached = if effect.end is Some {
                combined_stream::combined_result(effect.state)
            } else {
                (effect.state.translated, effect.state.original)
            };
            reached == (state.translated + texts.0, state.original + texts.1)
        }),
{
    reveal_strlit("translated");
    reveal_strlit("original");
    assert(TRANSLATED@.len() != ORIGINAL@.len());
    let effect = combined_stream::combined_line(state, line);
    let texts = emitted_texts(effect.emitted);
    match sse::line_data(line) {
        Some(data) => if data == "[DONE]"@ {
            let held = combined_stream::held_back(state);
            let row = combined_stream::piece_emitted(TRANSLATED@, held);
            lemma_piece_text(TRANSLATED@, held, TRANSLATED@);
            lemma_piece_text(TRANSLATED@, held, ORIGINAL@);
            assert(effect.emitted.drop_last() =~= row);
            assert(state.original + texts.1 =~= state.original);
        } else if let Ok(value) = json_text::parsed_json(data) {
            let reasoning = match sse::reasoning_piece(value) {
                Some(delta) => seq![EmissionView::Reasoning { kind: TRANSLATED@, delta }],
                None => Seq::empty(),
            };
            reveal_with_fuel(sse::delta_text, 2);
            assert(sse::delta_text(reasoning, TRANSLATED@) =~= Seq::empty());
            assert(sse::delta_text(reasoning, ORIGINAL@) =~= Seq::empty());
            match sse::content_piece(value) {
                Some(piece) => {
                    let row = combined_stream::piece_emissions(state, piece);
                    lemma_piece_texts(state, piece);
                    sse::lemma_delta_text_append(reasoning, row, TRANSLATED@);
                    sse::lemma_delta_text_append(reasoning, row, ORIGINAL@);
                    assert(texts.0 =~= emitted_texts(row).0);
                    assert(texts.1 =~= emitted_texts(row).1);
                },
                None => {
                    assert(state.translated + texts.0 =~= state.translated);
                    assert(state.original + texts.1 =~= state.original);
                },
            }
        } else {
            assert(state.translated + texts.0 =~= state.translated);
            assert(state.original + texts.1 =~= state.original);
        },
        None => {
            assert(state.translated + texts.0 =~= state.translated);
            assert(state.original + texts.1 =~= state.original);
        },
    }
}

/// The translation and the original that a stream holds, and in the end returns, are what its
/// events have carried: what a further text adds to the ones it adds to the others.
pub proof fn law_result_is_what_was_emitted(state: CombinedState, buffer: Seq<char>)
    ensures
        ({
            let effect = sse::run_lines(combined_stream::combined_step(), state, buffer);
            let texts = emitted_texts(effect.emitted);
            let reached = (state.translated + texts.0, state.original + texts.1);
            match effect.end {
                Some(end) => end == Ok::<(Seq<char>, Seq<char>), Seq<char>>(reached),
                None => (effect.state.translated, effect.state.original) == reached,
            }
        }),
    decreases buffer.len(),
{
    let effect = sse::run_lines(combined_stream::combined_step(), state, buffer);
    let texts = emitted_texts(effect.emitted);
    match sse::line_end(buffer) {
        Some(i) => {
            text::lemma_find(buffer, seq!['\n']);
            let line = combined_stream::combined_line(state, buffer.take(i + 1));
            lemma_line_texts(state, buffer.take(i + 1));
            if line.end is None {
                let rest = buffer.skip(i + 1);
                law_result_is_what_was_emitted(line.state, rest);
                let further = sse::run_lines(combined_stream::combined_step(), line.state, rest);
                sse::lemma_delta_text_append(line.emitted, further.emitted, TRANSLATED@);
                sse::lemma_delta_text_append(line.emitted, further.emitted, ORIGINAL@);
                let own = emitted_texts(line.emitted);
                let later = emitted_texts(further.emitted);
                assert(state.translated + texts.0 =~= (state.translated + own.0) + later.0);
                assert(state.original + texts.1 =~= (state.original + own.1) + later.1);
            }
        },
        None => {
            assert(state.translated + texts.0 =~= state.translated);
            assert(state.original + texts.1 =~= state.original);
        },
    }
}

// ===== The order of the events =====

/// Whether an event carries a piece of the translation.
pub open spec fn is_translated(emission: EmissionView) -> bool {
    emission matches EmissionView::Delta { kind, .. } && kind == TRANSLATED@
}

/// Whether an event carries a piece of the original.
pub open spec fn is_original(emission: EmissionView) -> bool {
    emission matches EmissionView::Delta { kind, .. } && kind == ORIGINAL@
}

/// Whether no piece of the original comes before a piece of the translation.
pub open spec fn translation_first(emitted: Seq<EmissionView>) -> bool {
    forall|i: int, j: int|
        0 <= i < j < emitted.len() && is_original(#[trigger] emitted[i]) ==> !is_translated(
            #[trigger] emitted[j],
        )
}

/// Whether exactly one event of a row is an end, and it stands last.
pub open spec fn ends_once(emitted: Seq<EmissionView>) -> bool {
    &&& emitted.len() > 0
    &&& forall|i: int| 0 <= i < emitted.len() ==> (#[trigger] emitted[i] is End <==> i
        == emitted.len() - 1)
}

/// Whether no event of a row is an end.
spec fn no_end(emitted: Seq<EmissionView>) -> bool {
    forall|i: int| 0 <= i < emitted.len() ==> !(#[trigger] emitted[i] is End)
}

/// Whether the events of a row are in order between two states: pieces of the translation come only
/// before the separator, those of the original only behind it.
spec fn fits(before: CombinedState, emitted: Seq<EmissionView>, after: CombinedState) -> bool {
    &&& translation_first(emitted)
    &&& before.separated ==> after.separated
    &&& before.separated ==> forall|i: int|
        0 <= i < emitted.len() ==> !is_translated(#[trigger] emitted[i])
    &&& !after.separated ==> forall|i: int|
        0 <= i < emitted.len() ==> !is_original(#[trigger] emitted[i])
}

/// Two rows that are in order make one that is in order.
proof fn lemma_fits_append(
    before: CombinedState,
    a: Seq<EmissionView>,
    between: CombinedState,
    b: Seq<EmissionView>,
    after: CombinedState,
)
    requires
        fits(before, a, between),
        fits(between, b, after),
    ensures
        fits(before, a + b, after),
{
    let both = a + b;
    assert forall|i: int, j: int| 0 <= i < j < both.len() && is_original(
        #[trigger] both[i],
    ) implies !is_translated(#[trigger] both[j]) by {
        if j < a.len() {
            assert(both[i] == a[i] && both[j] == a[j]);
        } else if i >= a.len() {
            assert(both[i] == b[i - a.len()] && both[j] == b[j - a.len()]);
        } else {
            assert(both[i] == a[i] && both[j] == b[j - a.len()]);
        }
    }
    assert forall|i: int| 0 <= i < both.len() implies both[i] == if i < a.len() {
        a[i]
    } else {
        b[i - a.len()]
    } by {}
}

/// The events of a line are in order, and only a line that ends the stream has an end, as its last
/// event.
proof fn lemma_line_fits(state: CombinedState, line: Seq<char>)
    ensures
        ({
            let effect = combined_stream::combined_line(state, line);
            &&& fits(state, effect.emitted, effect.state)
            &&& effect.end is None ==> no_end(effect.emitted)
            &&& effect.end is Some ==> ends_once(effect.emitted)
        }),
{
    reveal_strlit("translated");
    reveal_strlit("original");
    assert(TRANSLATED@.len() == 10 && ORIGINAL@.len() == 8);
}

/// The events of a text are in order, and only a text that ends the stream has an end, as its last
/// event.
proof fn lemma_lines_fit(state: CombinedState, buffer: Seq<char>)
    ensures
        ({
            let effect = sse::run_lines(combined_stream::combined_step(), state, buffer);
            &&& fits(state, effect.emitted, effect.state)
            &&& effect.end is None ==> no_end(effect.emitted)
            &&& effect.end is Some ==> ends_once(effect.emitted)
        }),
    decreases buffer.len(),
{
    text::lemma_find(buffer, seq!['\n']);
    if let Some(i) = sse::line_end(buffer) {
        let line = combined_stream::combined_line(state, buffer.take(i + 1));
        lemma_line_fits(state, buffer.take(i + 1));
        if line.end is None {
            let rest = buffer.skip(i + 1);
            lemma_lines_fit(line.state, rest);
            let further = sse::run_lines(combined_stream::combined_step(), line.state, rest);
            lemma_fits_append(
                state,
                line.emitted,
                line.state,
                further.emitted,
                further.state,
            );
            lemma_ends_append(line.emitted, further.emitted);
        }
    }
}

/// A row behind one without an end ends as it does alone.
proof fn lemma_ends_append(a: Seq<EmissionView>, b: Seq<EmissionView>)
    requires
        no_end(a),
    ensures
        no_end(b) ==> no_end(a + b),
        ends_once(b) ==> ends_once(a + b),
{
    let both = a + b;
    assert forall|i: int| 0 <= i < both.len() implies #[trigger] both[i] == if i < a.len() {
        a[i]
    } else {
        b[i - a.len()]
    } by {}
}

/// The events of a whole stream, from its start until a line ends it, or until it is ended behind
/// the text `whole` for a reason, or by a failure to read: every piece of the translation comes
/// before every piece of the original, and exactly one event is an end, the last one.
pub proof fn law_events_come_in_order(whole: Seq<char>, reason: Seq<char>)
    ensures
        ({
            let effect = sse::run_lines(
                combined_stream::combined_step(),
                combined_stream::start_state(),
                whole,
            );
            let ended = effect.emitted + combined_stream::combined_end_emitted(
                effect.state,
                reason,
            );
            let failed = effect.emitted.push(EmissionView::End { reason });
            if effect.end is Some {
                translation_first(effect.emitted) && ends_once(effect.emitted)
            } else {
                &&& translation_first(ended) && ends_once(ended)
                &&& translation_first(failed) && ends_once(failed)
            }
        }),
{
    reveal_strlit("translated");
    reveal_strlit("original");
    assert(TRANSLATED@.len() == 10 && ORIGINAL@.len() == 8);
    let start = combined_stream::start_state();
    let effect = sse::run_lines(combined_stream::combined_step(), start, whole);
    lemma_lines_fit(start, whole);
    if effect.end is None {
        let end = combined_stream::combined_end_emitted(effect.state, reason);
        let alone = seq![EmissionView::End { reason }];
        assert(fits(effect.state, end, effect.state));
        assert(fits(effect.state, alone, effect.state));
        lemma_fits_append(start, effect.emitted, effect.state, end, effect.state);
        lemma_fits_append(start, effect.emitted, effect.state, alone, effect.state);
        assert(ends_once(end));
        assert(ends_once(alone));
        lemma_ends_append(effect.emitted, end);
        lemma_ends_append(effect.emitted, alone);
        assert(effect.emitted + alone =~= effect.emitted.push(EmissionView::End { reason }));
    }
}

}

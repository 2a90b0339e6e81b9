//! What holds of one piece of a translation and its original, and of the answer that the pieces
//! make up.

use crate::combined_stream::CombinedState;
use crate::sse::EmissionView;
use crate::{combined_laws, combined_stream, sse, sse_laws, text};
use vstd::prelude::*;
use vstd::string::*;

verus! {

/// So many line feeds.
pub open spec fn feeds(count: nat) -> Seq<char> {
    Seq::new(count, |i: int| '\n')
}

/// The event that carries a piece, where it is not empty.
pub open spec fn event(kind: Seq<char>, delta: Seq<char>) -> Seq<EmissionView> {
    if delta.len() > 0 {
        seq![EmissionView::Delta { kind, delta }]
    } else {
        Seq::empty()
    }
}

/// A piece that completes the separator: what stands before it joins the translation and what
/// stands behind it is the start of the original, without the line feeds next to the separator and
/// with everything else.
pub proof fn law_separator_parts_the_texts(
    state: CombinedState,
    piece: Seq<char>,
    before: Seq<char>,
    feeds_before: nat,
    feeds_after: nat,
    after: Seq<char>,
)
    requires
        !state.separated,
        state.tail + piece == before + feeds(feeds_before) + "<<<ORIGINAL>>>"@ + (feeds(feeds_after)
            + after),
        !text::contains_text(
            before + feeds(feeds_before) + "<<<ORIGINAL>>>"@.drop_last(),
            "<<<ORIGINAL>>>"@,
        ),
        before.len() > 0 ==> before.last() != '\n',
        after.len() > 0 ==> after[0] != '\n',
    ensures
        ({
            let next = combined_stream::piece_state(state, piece);
            &&& next.separated
            &&& next.tail.len() == 0
            &&& next.translated == state.translated + before
            &&& next.original == state.original + after
            &&& combined_stream::piece_emissions(state, piece) == event("translated"@, before)
                + event("original"@, after)
        }),
{
    reveal_strlit("<<<ORIGINAL>>>");
    let separator = "<<<ORIGINAL>>>"@;
    let joined = state.tail + piece;
    let front = before + feeds(feeds_before);
    let back = feeds(feeds_after) + after;
    text::lemma_find_behind(front, separator, back);
    let i = front.len() as int;
    assert(joined.take(i) =~= front);
    assert(joined.skip(i + separator.len()) =~= back);
    assert forall|j: int| before.len() <= j < front.len() implies text::only('\n')(
        #[trigger] front[j],
    ) by {}
    text::lemma_trim_end(front, text::only('\n'), before.len() as int);
    assert(front.take(before.len() as int) =~= before);
    assert forall|j: int| 0 <= j < feeds_after implies text::only('\n')(#[trigger] back[j]) by {}
    if after.len() > 0 {
        assert(back[feeds_after as int] == after[0]);
    }
    text::lemma_trim_start(back, text::only('\n'), feeds_after as int);
    assert(back.skip(feeds_after as int) =~= after);
    assert(combined_stream::piece_state(state, piece).tail =~= Seq::empty());
}

/// A piece behind the separator joins the original as it is.
pub proof fn law_later_pieces_join_the_original(state: CombinedState, piece: Seq<char>)
    requires
        state.separated,
    ensures
        ({
            let next = combined_stream::piece_state(state, piece);
            &&& next == CombinedState { original: state.original + piece, ..state }
            &&& combined_stream::piece_emissions(state, piece) == seq![
                EmissionView::Delta { kind: "original"@, delta: piece },
            ]
        }),
{
}

/// A piece that leaves the separator incomplete is not lost: what is handed on and what is held
/// back are the text that was there. What is held back has at least the bytes of a separator less
/// one, or is all there is, and one character less would be too few.
pub proof fn law_pieces_are_held_back_and_not_lost(state: CombinedState, piece: Seq<char>)
    requires
        !state.separated,
        !text::contains_text(state.tail + piece, "<<<ORIGINAL>>>"@),
    ensures
        ({
            let joined = state.tail + piece;
            let next = combined_stream::piece_state(state, piece);
            let count = joined.len() - next.tail.len();
            &&& !next.separated
            &&& next.original == state.original
            &&& 0 <= count <= joined.len()
            &&& next.tail == joined.skip(count)
            &&& next.translated == state.translated + joined.take(count)
            &&& combined_stream::piece_emissions(state, piece) == event(
                "translated"@,
                joined.take(count),
            )
            &&& count > 0 ==> vstd::utf8::encode_utf8(next.tail).len() >= 13
            &&& next.tail.len() > 0 && vstd::utf8::encode_utf8(joined).len() >= 13
                ==> vstd::utf8::encode_utf8(next.tail.skip(1)).len() < 13
        }),
{
    let joined = state.tail + piece;
    text::lemma_find(joined, "<<<ORIGINAL>>>"@);
    lemma_safe_prefix(joined, joined.len() as int);
    let n = combined_stream::safe_prefix(joined);
    assert(joined.skip(n).len() == joined.len() - n);
    if joined.len() > n {
        assert(joined.skip(n).skip(1) =~= joined.skip(n + 1));
    }
    assert(joined.skip(0) =~= joined);
}

/// What the number of characters that can be handed on is.
proof fn lemma_safe_prefix(s: Seq<char>, n: int)
    requires
        0 <= n <= s.len(),
    ensures
        ({
            let k = combined_stream::safe_up_to(s, n);
            &&& 0 <= k <= n
            &&& k > 0 ==> text::utf8_len(s.skip(k)) >= 13
            &&& forall|j: int| k < j <= n ==> text::utf8_len(#[trigger] s.skip(j)) < 13
        }),
    decreases n,
{
    if n > 0 && text::utf8_len(s.skip(n)) < 13 {
        lemma_safe_prefix(s, n - 1);
    }
}

/// What the stream returns, in the end or when it is broken off: what is held back belongs to the
/// translation where no separator has come.
pub proof fn law_held_back_text_is_returned(state: CombinedState, reason: Seq<char>)
    ensures
        state.separated ==> combined_stream::combined_result(state) == (
            state.translated,
            state.original,
        ) && combined_stream::combined_end_emitted(state, reason) == seq![
            EmissionView::End { reason },
        ],
        !state.separated ==> combined_stream::combined_result(state) == (
            state.translated + state.tail,
            state.original,
        ) && combined_stream::combined_end_emitted(state, reason) == event(
            "translated"@,
            state.tail,
        ) + seq![EmissionView::End { reason }],
        combined_stream::start_state() == (CombinedState {
            tail: Seq::empty(),
            translated: Seq::empty(),
            original: Seq::empty(),
            separated: false,
        }),
{
    let emitted = combined_stream::combined_end_emitted(state, reason);
    if state.separated {
        assert(state.translated + Seq::empty() =~= state.translated);
        assert(emitted =~= seq![EmissionView::End { reason }]);
    } else {
        assert(emitted =~= event("translated"@, state.tail) + seq![EmissionView::End { reason }]);
    }
}

/// Working off pieces from the front is working them off from the back.
proof fn lemma_pieces_from_both_ends(state: CombinedState, pieces: Seq<Seq<char>>)
    ensures
        sse_laws::pieces_worked_off(state, pieces) == combined_laws::pieces_state(state, pieces),
    decreases pieces.len(),
{
    if pieces.len() > 0 {
        let first = pieces[0];
        let rest = pieces.drop_first();
        let next = combined_stream::piece_state(state, first);
        lemma_pieces_from_both_ends(next, rest);
        lemma_first_piece(state, pieces);
    }
}

/// The first piece can be worked off first.
proof fn lemma_first_piece(state: CombinedState, pieces: Seq<Seq<char>>)
    requires
        pieces.len() > 0,
    ensures
        combined_laws::pieces_state(state, pieces) == combined_laws::pieces_state(
            combined_stream::piece_state(state, pieces[0]),
            pieces.drop_first(),
        ),
    decreases pieces.len(),
{
    let rest = pieces.drop_first();
    if pieces.len() == 1 {
        assert(pieces.drop_last() =~= Seq::empty());
        assert(rest =~= Seq::empty());
        reveal_with_fuel(combined_laws::pieces_state, 2);
    } else {
        lemma_first_piece(state, pieces.drop_last());
        assert(pieces.drop_last().drop_first() =~= rest.drop_last());
        assert(pieces.drop_last()[0] == pieces[0]);
        assert(rest.last() == pieces.last());
    }
}

/// Pieces put together from the back are the pieces put together.
proof fn lemma_joined(pieces: Seq<Seq<char>>)
    ensures
        combined_laws::joined(pieces) == pieces.flatten(),
    decreases pieces.len(),
{
    pieces.lemma_flatten_and_flatten_alt_are_equivalent();
    if pieces.len() > 0 {
        lemma_joined(pieces.drop_last());
        pieces.drop_last().lemma_flatten_and_flatten_alt_are_equivalent();
    }
}

/// Whether a text is another one with line feeds behind it.
pub open spec fn and_feeds(long: Seq<char>, short: Seq<char>, count: nat) -> bool {
    long == short + feeds(count)
}

/// Whether a text is another one with line feeds before it.
pub open spec fn feeds_and(long: Seq<char>, count: nat, short: Seq<char>) -> bool {
    long == feeds(count) + short
}

/// A whole stream gives back the answer that its chunks hold. The strings at `content` of all
/// chunks, put together character for character, are the translation, the first separator and the
/// original, but for line feeds next to the separator. Without a separator they are the
/// translation.
pub proof fn law_translation_and_original_are_the_contents(
    lines: Seq<Seq<char>>,
    contents: Seq<Seq<char>>,
)
    requires
        sse_laws::carry_contents(lines, contents),
    ensures
        ({
            let effect = sse::run_lines(
                combined_stream::combined_step(),
                combined_stream::start_state(),
                lines.flatten(),
            );
            let (translated, original) = combined_stream::combined_result(effect.state);
            let answer = contents.flatten();
            match text::find_text(answer, "<<<ORIGINAL>>>"@) {
                Some(i) => {
                    &&& exists|count: nat|
                        #[trigger] and_feeds(answer.take(i), translated, count)
                    &&& exists|count: nat|
                        #[trigger] feeds_and(answer.skip(i + 14), count, original)
                },
                None => translated == answer && original.len() == 0,
            }
        }),
{
    reveal_strlit("<<<ORIGINAL>>>");
    let start = combined_stream::start_state();
    sse_laws::law_pieces_are_all_contents(start, lines, contents);
    lemma_pieces_from_both_ends(start, contents);
    lemma_joined(contents);
    combined_laws::law_separator_may_be_cut_anywhere(contents);
    let state = combined_laws::pieces_state(start, contents);
    let (translated, original) = combined_stream::combined_result(state);
    let answer = contents.flatten();
    if let Some(i) = text::find_text(answer, "<<<ORIGINAL>>>"@) {
        text::lemma_find(answer, "<<<ORIGINAL>>>"@);
        let front = answer.take(i);
        let back = answer.skip(i + 14);
        let before = (front.len() - translated.len()) as nat;
        let after = (back.len() - original.len()) as nat;
        assert(front =~= translated + feeds(before)) by {
            assert(front.subrange(0, translated.len() as int) == translated);
            assert forall|j: int| 0 <= j < front.len() implies front[j] == (translated + feeds(
                before,
            ))[j] by {
                if j < translated.len() {
                    assert(front.subrange(0, translated.len() as int)[j] == front[j]);
                }
            }
        }
        assert(and_feeds(front, translated, before));
        assert(back =~= feeds(after) + original) by {
            let n = back.len() as int;
            let m = original.len() as int;
            assert(back.subrange(n - m, n) == original);
            assert forall|j: int| 0 <= j < n implies back[j] == (feeds(after) + original)[j] by {
                if j >= n - m {
                    assert(back.subrange(n - m, n)[j - (n - m)] == back[j]);
                }
            }
        }
        assert(feeds_and(back, after, original));
    }
}

}

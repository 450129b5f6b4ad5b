//! Output on its way to the session.

use crate::effect;
use crate::effect::EffectView;
use crate::output;
use vstd::prelude::*;

verus! {

/// Output waits as long as no more than 256 KiB wait: it is fed to nobody, and the view is drawn.
/// More output than that never waits, and output that would fit alone waits alone.
pub proof fn law_output_waits(has_input: bool, pending: Seq<u8>, bytes: Seq<u8>)
    ensures
        pending.len() + bytes.len() <= 256 * 1024 ==> output::queue_effects(
            has_input,
            pending,
            bytes,
        ) == seq![EffectView::Notify] && output::queue_pending(pending, bytes) == pending + bytes,
        pending.len() + bytes.len() > 256 * 1024 && bytes.len() <= 256 * 1024
            ==> output::queue_pending(pending, bytes) == bytes && effect::fed_bytes(
            output::queue_effects(has_input, pending, bytes),
        ) == pending,
        bytes.len() > 256 * 1024 ==> output::queue_pending(pending, bytes).len() == 0
            && effect::fed_bytes(output::queue_effects(has_input, pending, bytes)) == pending
            + bytes,
{
    output::law_output_keeps_order(has_input, pending, bytes);
    let fed = effect::fed_bytes(output::queue_effects(has_input, pending, bytes));
    let waits = output::queue_pending(pending, bytes);
    if pending.len() + bytes.len() > 256 * 1024 {
        assert(fed + waits == pending + bytes);
        if bytes.len() <= 256 * 1024 {
            assert(waits == bytes);
            assert((fed + waits).len() == (pending + bytes).len());
            assert((fed + waits).take(pending.len() as int) =~= fed);
            assert((pending + bytes).take(pending.len() as int) =~= pending);
        } else {
            assert(fed + waits =~= fed);
        }
    }
}

/// Whether the session's replies go to the program: wherever there is one.
pub open spec fn feeds_for(has_input: bool, e: EffectView) -> bool {
    &&& e is Feed ==> !has_input
    &&& e is FeedWithResponses ==> has_input
}

/// Output is fed so that the session's replies reach the program wherever there is one.
pub proof fn law_replies_reach_the_program(
    has_input: bool,
    pending: Seq<u8>,
    bytes: Seq<u8>,
    i: int,
)
    requires
        0 <= i < output::queue_effects(has_input, pending, bytes).len(),
    ensures
        feeds_for(has_input, output::queue_effects(has_input, pending, bytes)[i]),
        output::output_feed(true, bytes) == EffectView::FeedWithResponses(bytes),
        output::output_feed(false, bytes) == EffectView::Feed(bytes),
{
    lemma_chunks_for(has_input, bytes);
    let flush = output::flush_effects(has_input, pending);
    let chunks = output::chunk_feeds(has_input, bytes);
    let all = output::queue_effects(has_input, pending, bytes);
    if pending.len() + bytes.len() > 256 * 1024 && bytes.len() > 256 * 1024 && flush.len() <= i
        < flush.len() + chunks.len() {
        assert(all[i] == chunks[i - flush.len()]);
    }
}

proof fn lemma_chunks_for(has_input: bool, bytes: Seq<u8>)
    ensures
        forall|i: int|
            0 <= i < output::chunk_feeds(has_input, bytes).len() ==> feeds_for(
                has_input,
                #[trigger] output::chunk_feeds(has_input, bytes)[i],
            ),
        forall|i: int|
            0 <= i < output::chunk_feeds(has_input, bytes).len() ==> (
            #[trigger] output::chunk_feeds(has_input, bytes)[i]) is Feed || (
            output::chunk_feeds(has_input, bytes)[i]) is FeedWithResponses,
    decreases bytes.len(),
{
    if bytes.len() > output::MAX_PENDING_OUTPUT_BYTES {
        let rest = bytes.skip(output::MAX_PENDING_OUTPUT_BYTES as int);
        lemma_chunks_for(has_input, rest);
        let all = output::chunk_feeds(has_input, bytes);
        assert forall|i: int| 0 <= i < all.len() implies feeds_for(has_input, #[trigger] all[i])
            && (all[i] is Feed || all[i] is FeedWithResponses) by {
            if i > 0 {
                assert(all[i] == output::chunk_feeds(has_input, rest)[i - 1]);
            }
        }
    }
}

/// After output was fed, what the session wants in the clipboard is put there, then its scroll is
/// shown and the rows that it changed are; the view is drawn in the end.
pub proof fn law_fed_output_is_shown(has_input: bool, pending: Seq<u8>, bytes: Seq<u8>)
    ensures
        ({
            let todo = output::queue_effects(has_input, pending, bytes);
            let over = pending.len() + bytes.len() > 256 * 1024;
            &&& todo.len() > 0 && todo.last() == EffectView::Notify
            &&& over && pending.len() > 0 ==> {
                &&& todo.len() >= 5
                &&& todo[1] == EffectView::ApplySideEffects
                &&& todo[2] == EffectView::TakeScrollDelta
                &&& todo[3] == EffectView::TakeDirtyRows
            }
            &&& bytes.len() > 256 * 1024 ==> {
                &&& todo.len() >= 5
                &&& todo[todo.len() - 4] == EffectView::ApplySideEffects
                &&& todo[todo.len() - 3] == EffectView::TakeScrollDelta
                &&& todo[todo.len() - 2] == EffectView::TakeDirtyRows
                &&& todo[todo.len() - 5] is Feed || todo[todo.len() - 5] is FeedWithResponses
            }
        }),
{
    lemma_chunks_for(has_input, bytes);
    let todo = output::queue_effects(has_input, pending, bytes);
    let chunks = output::chunk_feeds(has_input, bytes);
    if bytes.len() > 256 * 1024 {
        assert(chunks.len() > 0);
        assert(todo[todo.len() - 5] == chunks[chunks.len() - 1]);
    }
}

} // verus!

//! Output on its way from the program behind the terminal to the session.

use crate::effect;
use crate::effect::{Effect, EffectView};
use crate::view::{TerminalView, ViewModel};
use vstd::prelude::*;

verus! {

broadcast use crate::effect::group_effects;

/// The most output that may wait to be fed to the session.
pub const MAX_PENDING_OUTPUT_BYTES: usize = 262144;

/// How output reaches the session: where there is a program behind the terminal, it gets the
/// session's replies.
pub open spec fn output_feed(has_input: bool, bytes: Seq<u8>) -> EffectView {
    if has_input {
        EffectView::FeedWithResponses(bytes)
    } else {
        EffectView::Feed(bytes)
    }
}

/// Feeds output in chunks of at most `MAX_PENDING_OUTPUT_BYTES`.
pub open spec fn chunk_feeds(has_input: bool, bytes: Seq<u8>) -> Seq<EffectView>
    decreases bytes.len(),
{
    if bytes.len() == 0 {
        Seq::empty()
    } else if bytes.len() <= MAX_PENDING_OUTPUT_BYTES {
        seq![output_feed(has_input, bytes)]
    } else {
        seq![output_feed(has_input, bytes.take(MAX_PENDING_OUTPUT_BYTES as int))] + chunk_feeds(
            has_input,
            bytes.skip(MAX_PENDING_OUTPUT_BYTES as int),
        )
    }
}

/// Feeds the output that waits and shows what it changed; nothing where no output waits.
pub open spec fn flush_effects(has_input: bool, pending: Seq<u8>) -> Seq<EffectView> {
    if pending.len() == 0 {
        Seq::empty()
    } else {
        seq![
            output_feed(has_input, pending),
            EffectView::ApplySideEffects,
            EffectView::TakeScrollDelta,
            EffectView::TakeDirtyRows,
        ]
    }
}

/// What queueing output asks for. Output that fits beside the output that waits only waits with
/// it. Otherwise the output that waits is fed first, and output that could never wait is fed at
/// once.
pub open spec fn queue_effects(has_input: bool, pending: Seq<u8>, bytes: Seq<u8>) -> Seq<
    EffectView,
> {
    if pending.len() + bytes.len() <= MAX_PENDING_OUTPUT_BYTES {
        seq![EffectView::Notify]
    } else if bytes.len() > MAX_PENDING_OUTPUT_BYTES {
        flush_effects(has_input, pending) + chunk_feeds(has_input, bytes) + seq![
            EffectView::ApplySideEffects,
            EffectView::TakeScrollDelta,
            EffectView::TakeDirtyRows,
            EffectView::Notify,
        ]
    } else {
        flush_effects(has_input, pending) + seq![EffectView::Notify]
    }
}

/// The output that waits after more was queued.
pub open spec fn queue_pending(pending: Seq<u8>, bytes: Seq<u8>) -> Seq<u8> {
    if pending.len() + bytes.len() <= MAX_PENDING_OUTPUT_BYTES {
        pending + bytes
    } else if bytes.len() > MAX_PENDING_OUTPUT_BYTES {
        Seq::empty()
    } else {
        bytes
    }
}

impl<F, L, K> TerminalView<F, L, K> {
    /// The request that feeds output to the session.
    pub fn feed_output_bytes_to_session(&self, bytes: Vec<u8>) -> (feed: Effect)
        ensures
            feed@ == output_feed(self@.has_input, bytes@),
    {
        if self.has_input {
            Effect::FeedWithResponses(bytes)
        } else {
            Effect::Feed(bytes)
        }
    }

    /// Feeds output to the session at once and reads the viewport again.
    pub fn feed_output_bytes(&mut self, bytes: &[u8]) -> (todo: Vec<Effect>)
        requires
            old(self).wf(),
        ensures
            final(self).wf(),
            final(self)@ == old(self)@,
            effect::effects(todo@) == seq![
                output_feed(old(self)@.has_input, bytes@),
                EffectView::RefreshViewport,
                EffectView::ApplySideEffects,
                EffectView::Notify,
            ],
    {
        let mut todo: Vec<Effect> = Vec::new();
        todo.push(self.feed_output_bytes_to_session(vstd::slice::slice_to_vec(bytes)));
        todo.push(Effect::RefreshViewport);
        todo.push(Effect::ApplySideEffects);
        todo.push(Effect::Notify);
        todo
    }

    /// Takes the output that waits and feeds it to the session.
    pub fn flush_pending_output(&mut self) -> (todo: Vec<Effect>)
        requires
            old(self).wf(),
        ensures
            final(self).wf(),
            final(self)@ == (ViewModel { pending_output: Seq::<u8>::empty(), ..old(self)@ }),
            effect::effects(todo@) == flush_effects(
                old(self)@.has_input,
                old(self)@.pending_output,
            ),
    {
        let mut todo: Vec<Effect> = Vec::new();
        if self.pending_output.len() > 0 {
            let mut pending: Vec<u8> = Vec::new();
            std::mem::swap(&mut pending, &mut self.pending_output);
            todo.push(self.feed_output_bytes_to_session(pending));
            todo.push(Effect::ApplySideEffects);
            todo.push(Effect::TakeScrollDelta);
            todo.push(Effect::TakeDirtyRows);
        }
        assert(self.pending_output@ =~= Seq::<u8>::empty());
        todo
    }

    /// Queues output for the session.
    pub fn queue_output_bytes(&mut self, bytes: &[u8]) -> (todo: Vec<Effect>)
        requires
            old(self).wf(),
        ensures
            final(self).wf(),
            final(self)@ == (ViewModel {
                pending_output: queue_pending(old(self)@.pending_output, bytes@),
                ..old(self)@
            }),
            effect::effects(todo@) == queue_effects(
                old(self)@.has_input,
                old(self)@.pending_output,
                bytes@,
            ),
    {
        let ghost has_input = self.has_input;
        if self.pending_output.len().saturating_add(bytes.len()) <= MAX_PENDING_OUTPUT_BYTES {
            self.pending_output.extend_from_slice(bytes);
            assert(self.pending_output@ =~= old(self)@.pending_output + bytes@);
            let mut todo: Vec<Effect> = Vec::new();
            todo.push(Effect::Notify);
            return todo;
        }
        let mut todo = self.flush_pending_output();
        let ghost flushed = effect::effects(todo@);
        if bytes.len() > MAX_PENDING_OUTPUT_BYTES {
            let mut offset: usize = 0;
            assert(bytes@.skip(0) =~= bytes@);
            while offset < bytes.len()
                invariant
                    offset <= bytes.len(),
                    self.has_input == has_input,
                    effect::effects(todo@) + chunk_feeds(has_input, bytes@.skip(offset as int))
                        == flushed + chunk_feeds(has_input, bytes@),
                decreases bytes.len() - offset,
            {
                let end: usize = if bytes.len() - offset > MAX_PENDING_OUTPUT_BYTES {
                    offset + MAX_PENDING_OUTPUT_BYTES
                } else {
                    bytes.len()
                };
                let ghost before = effect::effects(todo@);
                let ghost rest = bytes@.skip(offset as int);
                let chunk = vstd::slice::slice_subrange(bytes, offset, end);
                proof {
                    assert(rest.skip(end - offset) =~= bytes@.skip(end as int));
                    assert(rest.take(end - offset) =~= chunk@);
                    if bytes.len() - offset <= MAX_PENDING_OUTPUT_BYTES {
                        assert(chunk@ =~= rest);
                    }
                }
                todo.push(self.feed_output_bytes_to_session(vstd::slice::slice_to_vec(chunk)));
                offset = end;
                assert(effect::effects(todo@) + chunk_feeds(has_input, bytes@.skip(offset as int))
                    =~= before + chunk_feeds(has_input, rest));
            }
            assert(effect::effects(todo@) =~= flushed + chunk_feeds(has_input, bytes@));
            todo.push(Effect::ApplySideEffects);
            todo.push(Effect::TakeScrollDelta);
            todo.push(Effect::TakeDirtyRows);
            todo.push(Effect::Notify);
            return todo;
        }
        self.pending_output.extend_from_slice(bytes);
        assert(self.pending_output@ =~= bytes@);
        todo.push(Effect::Notify);
        todo
    }
}

/// Queueing output loses nothing and keeps the order: what is fed, followed by what waits, is what
/// waited, followed by what was queued.
pub proof fn law_output_keeps_order(has_input: bool, pending: Seq<u8>, bytes: Seq<u8>)
    ensures
        effect::fed_bytes(queue_effects(has_input, pending, bytes)) + queue_pending(pending, bytes)
            == pending + bytes,
{
    reveal_with_fuel(effect::fed_bytes, 5);
    let flush = flush_effects(has_input, pending);
    lemma_flush_feeds_pending(has_input, pending);
    if pending.len() + bytes.len() <= MAX_PENDING_OUTPUT_BYTES {
        assert(effect::fed_bytes(queue_effects(has_input, pending, bytes)) =~= Seq::<u8>::empty());
    } else if bytes.len() > MAX_PENDING_OUTPUT_BYTES {
        let chunks = chunk_feeds(has_input, bytes);
        let tail = seq![
            EffectView::ApplySideEffects,
            EffectView::TakeScrollDelta,
            EffectView::TakeDirtyRows,
            EffectView::Notify,
        ];
        lemma_chunks_feed_all(has_input, bytes);
        effect::lemma_fed_bytes_concat(flush, chunks);
        effect::lemma_fed_bytes_concat(flush + chunks, tail);
        assert(effect::fed_bytes(tail) =~= Seq::<u8>::empty());
    } else {
        let tail = seq![EffectView::Notify];
        effect::lemma_fed_bytes_concat(flush, tail);
        assert(effect::fed_bytes(tail) =~= Seq::<u8>::empty());
    }
    assert(effect::fed_bytes(queue_effects(has_input, pending, bytes)) + queue_pending(
        pending,
        bytes,
    ) =~= pending + bytes);
}

/// The output that waits stays within its bound, and so does every piece that is fed.
pub proof fn law_output_is_bounded(has_input: bool, pending: Seq<u8>, bytes: Seq<u8>)
    requires
        pending.len() <= MAX_PENDING_OUTPUT_BYTES,
    ensures
        queue_pending(pending, bytes).len() <= MAX_PENDING_OUTPUT_BYTES,
        forall|i: int|
            0 <= i < queue_effects(has_input, pending, bytes).len() ==> feeds_at_most(
                #[trigger] queue_effects(has_input, pending, bytes)[i],
                MAX_PENDING_OUTPUT_BYTES as int,
            ),
{
    lemma_chunks_are_bounded(has_input, bytes);
    let all = queue_effects(has_input, pending, bytes);
    let flush = flush_effects(has_input, pending);
    let chunks = chunk_feeds(has_input, bytes);
    assert forall|i: int| 0 <= i < all.len() implies feeds_at_most(
        #[trigger] all[i],
        MAX_PENDING_OUTPUT_BYTES as int,
    ) by {
        if pending.len() + bytes.len() > MAX_PENDING_OUTPUT_BYTES && bytes.len()
            > MAX_PENDING_OUTPUT_BYTES && flush.len() <= i < flush.len() + chunks.len() {
            assert(all[i] == chunks[i - flush.len()]);
        }
    }
}

/// Whether an effect feeds no more than `limit` bytes.
pub open spec fn feeds_at_most(e: EffectView, limit: int) -> bool {
    match e {
        EffectView::Feed(bytes) => bytes.len() <= limit,
        EffectView::FeedWithResponses(bytes) => bytes.len() <= limit,
        _ => true,
    }
}

/// What a series of queued pieces feeds and leaves waiting.
pub open spec fn queue_all(has_input: bool, pieces: Seq<Seq<u8>>) -> (Seq<u8>, Seq<u8>)
    decreases pieces.len(),
{
    if pieces.len() == 0 {
        (Seq::empty(), Seq::empty())
    } else {
        let (fed, pending) = queue_all(has_input, pieces.drop_last());
        (
            fed + effect::fed_bytes(queue_effects(has_input, pending, pieces.last())),
            queue_pending(pending, pieces.last()),
        )
    }
}

/// However output is cut into pieces, what has been fed and what waits, one after the other, is
/// the output, and what waits is bounded.
pub proof fn law_output_history(has_input: bool, pieces: Seq<Seq<u8>>)
    ensures
        queue_all(has_input, pieces).0 + queue_all(has_input, pieces).1 == pieces.flatten(),
        queue_all(has_input, pieces).1.len() <= MAX_PENDING_OUTPUT_BYTES,
    decreases pieces.len(),
{
    if pieces.len() == 0 {
        assert(queue_all(has_input, pieces).0 + queue_all(has_input, pieces).1
            =~= pieces.flatten());
    } else {
        let front = pieces.drop_last();
        let (fed, pending) = queue_all(has_input, front);
        law_output_history(has_input, front);
        law_output_keeps_order(has_input, pending, pieces.last());
        law_output_is_bounded(has_input, pending, pieces.last());
        pieces.lemma_flatten_and_flatten_alt_are_equivalent();
        front.lemma_flatten_and_flatten_alt_are_equivalent();
        let now = effect::fed_bytes(queue_effects(has_input, pending, pieces.last()));
        let waits = queue_pending(pending, pieces.last());
        assert(fed + now + waits =~= fed + (now + waits));
        assert(fed + (pending + pieces.last()) =~= fed + pending + pieces.last());
    }
}

pub proof fn lemma_flush_feeds_pending(has_input: bool, pending: Seq<u8>)
    ensures
        effect::fed_bytes(flush_effects(has_input, pending)) == pending,
{
    reveal_with_fuel(effect::fed_bytes, 5);
    let flush = flush_effects(has_input, pending);
    if pending.len() > 0 {
        let feed = flush.drop_last().drop_last().drop_last();
        assert(feed.drop_last() =~= Seq::<EffectView>::empty());
        assert(feed.last() == output_feed(has_input, pending));
    }
    assert(effect::fed_bytes(flush) =~= pending);
}

proof fn lemma_chunks_feed_all(has_input: bool, bytes: Seq<u8>)
    ensures
        effect::fed_bytes(chunk_feeds(has_input, bytes)) == bytes,
    decreases bytes.len(),
{
    if bytes.len() == 0 {
        assert(effect::fed_bytes(chunk_feeds(has_input, bytes)) =~= bytes);
    } else if bytes.len() <= MAX_PENDING_OUTPUT_BYTES {
        lemma_single_feed(has_input, bytes);
    } else {
        let head = bytes.take(MAX_PENDING_OUTPUT_BYTES as int);
        let rest = bytes.skip(MAX_PENDING_OUTPUT_BYTES as int);
        lemma_single_feed(has_input, head);
        lemma_chunks_feed_all(has_input, rest);
        effect::lemma_fed_bytes_concat(
            seq![output_feed(has_input, head)],
            chunk_feeds(has_input, rest),
        );
        assert(head + rest =~= bytes);
    }
}

proof fn lemma_single_feed(has_input: bool, bytes: Seq<u8>)
    ensures
        effect::fed_bytes(seq![output_feed(has_input, bytes)]) == bytes,
{
    let one = seq![output_feed(has_input, bytes)];
    assert(one.drop_last() =~= Seq::<EffectView>::empty());
    assert(effect::fed_bytes(one.drop_last()) =~= Seq::<u8>::empty());
    assert(effect::fed_bytes(one) =~= bytes);
}

proof fn lemma_chunks_are_bounded(has_input: bool, bytes: Seq<u8>)
    ensures
        forall|i: int|
            0 <= i < chunk_feeds(has_input, bytes).len() ==> feeds_at_most(
                #[trigger] chunk_feeds(has_input, bytes)[i],
                MAX_PENDING_OUTPUT_BYTES as int,
            ),
    decreases bytes.len(),
{
    if bytes.len() > MAX_PENDING_OUTPUT_BYTES {
        let rest = bytes.skip(MAX_PENDING_OUTPUT_BYTES as int);
        lemma_chunks_are_bounded(has_input, rest);
        let all = chunk_feeds(has_input, bytes);
        assert forall|i: int| 0 <= i < all.len() implies feeds_at_most(
            #[trigger] all[i],
            MAX_PENDING_OUTPUT_BYTES as int,
        ) by {
            if i > 0 {
                assert(all[i] == chunk_feeds(has_input, rest)[i - 1]);
            }
        }
    }
}

} // verus!

//! What a terminal view asks its surroundings to do.

use vstd::prelude::*;

verus! {

/// One request of the view. Requests are carried out in the order in which they are returned.
#[derive(Debug, PartialEq, Eq)]
pub enum Effect {
    /// Write bytes to the program behind the terminal.
    Send(Vec<u8>),
    /// Feed bytes to the session.
    Feed(Vec<u8>),
    /// Feed bytes to the session and send what the session replies to the program behind the
    /// terminal.
    FeedWithResponses(Vec<u8>),
    /// Put the text that the session wants in the clipboard there, if it has such a text.
    ApplySideEffects,
    /// Take the scroll delta that the session has recorded and show it.
    TakeScrollDelta,
    /// Take the rows that the session has changed and show them.
    TakeDirtyRows,
    /// Read the whole viewport from the session again.
    RefreshViewport,
    /// Forget the scroll delta that the session has recorded.
    SyncScroll,
    /// Scroll the session to the oldest line.
    ScrollTop,
    /// Scroll the session to the newest line.
    ScrollBottom,
    /// Scroll the session by a number of lines, towards newer lines where it is positive.
    Scroll(i32),
    /// Give the session a grid of columns and rows.
    Resize(u16, u16),
    /// Put a text in the clipboard, and in the primary selection where the platform has one.
    Copy(String),
    /// Set the title of the window.
    SetWindowTitle(String),
    /// Give the view the keyboard focus.
    Focus,
    /// Start the timer that makes the cursor blink.
    StartCursorBlink,
    /// Draw the view again.
    Notify,
}

/// An effect with its bytes and texts as sequences.
pub enum EffectView {
    Send(Seq<u8>),
    Feed(Seq<u8>),
    FeedWithResponses(Seq<u8>),
    ApplySideEffects,
    TakeScrollDelta,
    TakeDirtyRows,
    RefreshViewport,
    SyncScroll,
    ScrollTop,
    ScrollBottom,
    Scroll(int),
    Resize(u16, u16),
    Copy(Seq<char>),
    SetWindowTitle(Seq<char>),
    Focus,
    StartCursorBlink,
    Notify,
}

impl View for Effect {
    type V = EffectView;

    open spec fn view(&self) -> EffectView {
        match *self {
            Effect::Send(bytes) => EffectView::Send(bytes@),
            Effect::Feed(bytes) => EffectView::Feed(bytes@),
            Effect::FeedWithResponses(bytes) => EffectView::FeedWithResponses(bytes@),
            Effect::ApplySideEffects => EffectView::ApplySideEffects,
            Effect::TakeScrollDelta => EffectView::TakeScrollDelta,
            Effect::TakeDirtyRows => EffectView::TakeDirtyRows,
            Effect::RefreshViewport => EffectView::RefreshViewport,
            Effect::SyncScroll => EffectView::SyncScroll,
            Effect::ScrollTop => EffectView::ScrollTop,
            Effect::ScrollBottom => EffectView::ScrollBottom,
            Effect::Scroll(lines) => EffectView::Scroll(lines as int),
            Effect::Resize(cols, rows) => EffectView::Resize(cols, rows),
            Effect::Copy(text) => EffectView::Copy(text@),
            Effect::SetWindowTitle(title) => EffectView::SetWindowTitle(title@),
            Effect::Focus => EffectView::Focus,
            Effect::StartCursorBlink => EffectView::StartCursorBlink,
            Effect::Notify => EffectView::Notify,
        }
    }
}

/// The effects of a list, with their bytes and texts as sequences.
pub open spec fn effects(list: Seq<Effect>) -> Seq<EffectView> {
    Seq::new(list.len(), |i: int| list[i]@)
}

pub broadcast proof fn lemma_effects_push(list: Seq<Effect>, e: Effect)
    ensures
        #[trigger] effects(list.push(e)) == effects(list).push(e@),
{
    assert(effects(list.push(e)) =~= effects(list).push(e@));
}

pub broadcast proof fn lemma_effects_concat(a: Seq<Effect>, b: Seq<Effect>)
    ensures
        #[trigger] effects(a + b) == effects(a) + effects(b),
{
    assert(effects(a + b) =~= effects(a) + effects(b));
}

pub broadcast proof fn lemma_effects_empty()
    ensures
        #[trigger] effects(Seq::empty()) == Seq::<EffectView>::empty(),
{
    assert(effects(Seq::empty()) =~= Seq::<EffectView>::empty());
}

pub broadcast group group_effects {
    lemma_effects_push,
    lemma_effects_concat,
    lemma_effects_empty,
}

/// The bytes that a list of effects hands to the session, in order.
pub open spec fn fed_bytes(list: Seq<EffectView>) -> Seq<u8>
    decreases list.len(),
{
    if list.len() == 0 {
        Seq::empty()
    } else {
        fed_bytes(list.drop_last()) + match list.last() {
            EffectView::Feed(bytes) => bytes,
            EffectView::FeedWithResponses(bytes) => bytes,
            _ => Seq::empty(),
        }
    }
}

/// The bytes that a list of effects sends to the program behind the terminal, in order.
pub open spec fn sent_bytes(list: Seq<EffectView>) -> Seq<u8>
    decreases list.len(),
{
    if list.len() == 0 {
        Seq::empty()
    } else {
        sent_bytes(list.drop_last()) + match list.last() {
            EffectView::Send(bytes) => bytes,
            _ => Seq::empty(),
        }
    }
}

pub proof fn lemma_fed_bytes_concat(a: Seq<EffectView>, b: Seq<EffectView>)
    ensures
        fed_bytes(a + b) == fed_bytes(a) + fed_bytes(b),
    decreases b.len(),
{
    if b.len() == 0 {
        assert(a + b =~= a);
        assert(fed_bytes(a) + fed_bytes(b) =~= fed_bytes(a));
    } else {
        assert((a + b).drop_last() =~= a + b.drop_last());
        lemma_fed_bytes_concat(a, b.drop_last());
        assert(fed_bytes(a + b) =~= fed_bytes(a) + fed_bytes(b));
    }
}

pub proof fn lemma_sent_bytes_concat(a: Seq<EffectView>, b: Seq<EffectView>)
    ensures
        sent_bytes(a + b) == sent_bytes(a) + sent_bytes(b),
    decreases b.len(),
{
    if b.len() == 0 {
        assert(a + b =~= a);
        assert(sent_bytes(a) + sent_bytes(b) =~= sent_bytes(a));
    } else {
        assert((a + b).drop_last() =~= a + b.drop_last());
        lemma_sent_bytes_concat(a, b.drop_last());
        assert(sent_bytes(a + b) =~= sent_bytes(a) + sent_bytes(b));
    }
}

} // verus!

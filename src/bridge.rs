//! The frame bridge: a one-slot hand-off from a producer to a consumer where a
//! newer frame replaces an older one that was not taken yet, so a slow consumer
//! only ever sees the freshest frame and nothing queues up.

use vstd::prelude::*;

verus! {

/// The consumer has gone away; what was sent is dropped.
#[derive(Clone, Copy, PartialEq, Eq, Debug, Structural)]
pub enum BridgeError {
    ChannelClosed,
}

/// The state of a bridge: the waiting frame, if any, and whether the consumer
/// is still there.
pub struct BridgeView<T> {
    pub slot: Option<T>,
    pub open: bool,
}

/// Sending: on an open bridge the frame takes the slot, replacing whatever
/// waited there; on a closed one nothing changes.
pub open spec fn send_spec<T>(b: BridgeView<T>, frame: T) -> BridgeView<T> {
    if b.open {
        BridgeView { slot: Some(frame), open: true }
    } else {
        b
    }
}

/// Taking: the waiting frame comes out and the slot is left empty.
pub open spec fn take_spec<T>(b: BridgeView<T>) -> (BridgeView<T>, Option<T>) {
    (BridgeView { slot: None, open: b.open }, b.slot)
}

/// Sends each frame of `frames` in order.
pub open spec fn send_all<T>(b: BridgeView<T>, frames: Seq<T>) -> BridgeView<T>
    decreases frames.len(),
{
    if frames.len() == 0 {
        b
    } else {
        send_spec(send_all(b, frames.drop_last()), frames.last())
    }
}

pub struct FrameBridge<T> {
    slot: Option<T>,
    open: bool,
}

impl<T> View for FrameBridge<T> {
    type V = BridgeView<T>;

    closed spec fn view(&self) -> BridgeView<T> {
        BridgeView { slot: self.slot, open: self.open }
    }
}

impl<T> FrameBridge<T> {
    /// An open, empty bridge.
    pub fn new() -> (r: FrameBridge<T>)
        ensures
            r@ == (BridgeView::<T> { slot: None, open: true }),
    {
        FrameBridge { slot: None, open: true }
    }

    /// Hands a frame over without ever blocking: it replaces a frame that was
    /// not taken yet. Fails only once the consumer has closed the bridge.
    pub fn send(&mut self, frame: T) -> (r: Result<(), BridgeError>)
        ensures
            final(self)@ == send_spec(old(self)@, frame),
            r is Ok <==> old(self)@.open,
    {
        if self.open {
            self.slot = Some(frame);
            Ok(())
        } else {
            Err(BridgeError::ChannelClosed)
        }
    }

    /// Takes the newest frame, if one is waiting; never blocks.
    pub fn take_newest(&mut self) -> (r: Option<T>)
        ensures
            (final(self)@, r) == take_spec(old(self)@),
    {
        let frame = self.slot.take();
        frame
    }

    /// The consumer leaves: a waiting frame is dropped and later sends fail.
    pub fn close(&mut self)
        ensures
            final(self)@ == (BridgeView::<T> { slot: None, open: false }),
    {
        self.slot = None;
        self.open = false;
    }

    pub fn is_open(&self) -> (r: bool)
        ensures
            r == self@.open,
    {
        self.open
    }

    pub fn has_frame(&self) -> (r: bool)
        ensures
            r == self@.slot is Some,
    {
        self.slot.is_some()
    }
}

/// Whatever frames were sent to an open bridge since it was last drained, the
/// next take returns the last of them; the earlier ones are gone, never queued.
pub proof fn lemma_latest_frame_wins<T>(b: BridgeView<T>, frames: Seq<T>)
    requires
        b.open,
        frames.len() > 0,
    ensures
        send_all(b, frames).open,
        take_spec(send_all(b, frames)).1 == Some(frames.last()),
        take_spec(send_all(b, frames)).0.slot is None,
    decreases frames.len(),
{
    let prefix = frames.drop_last();
    if prefix.len() > 0 {
        lemma_latest_frame_wins(b, prefix);
    } else {
        assert(send_all(b, prefix) == b);
    }
    assert(send_all(b, prefix).open);
    assert(send_all(b, frames) == send_spec(send_all(b, prefix), frames.last()));
}

} // verus!

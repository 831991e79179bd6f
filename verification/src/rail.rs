//! The two process-wide, latest-wins broadcast rails.
//!
//! A rail holds one current value; publishing replaces it.  A
//! subscriber holds a cursor and reads the current value; it may miss
//! intermediate publishes (that is the backpressure policy) but never
//! observes values out of publish order.  Each rail starts with a
//! sentinel value that subscribers must discard.
//!
//! For verification each rail carries a ghost history of every value it
//! has held, the sentinel first; the current value is the last entry.

use vstd::prelude::*;

use crate::types::ApiChannelMessage;
use crate::types::ImageContainer;
use crate::types::api_message_eq;
use crate::types::frame_eq;
use crate::types::sentinel_frame;

verus! {

/// Latest-wins broadcast of camera frames.
pub struct FrameRail {
    current: ImageContainer,
    version: u64,
    history: Ghost<Seq<ImageContainer>>,
}

/// A frame-rail subscriber's cursor: the publish count it has caught up
/// with.
pub struct FrameCursor {
    seen: u64,
}

impl FrameCursor {
    /// The version of the last value this cursor observed.
    pub closed spec fn seen(&self) -> int {
        self.seen as int
    }
}

impl FrameRail {
    /// Every value this rail has held, the sentinel first.
    pub closed spec fn history(&self) -> Seq<ImageContainer> {
        self.history@
    }

    /// How many values have been published.
    pub closed spec fn version(&self) -> int {
        self.version as int
    }

    /// The value a subscriber reads right now.
    pub closed spec fn current(&self) -> ImageContainer {
        self.current
    }

    /// The history matches the version counter and ends at the current
    /// value.
    pub closed spec fn wf(&self) -> bool {
        &&& self.history@.len() == self.version + 1
        &&& self.history@.last() == self.current
    }

    /// A fresh rail holding only the sentinel frame.
    pub fn new() -> (r: Self)
        ensures
            r.wf(),
            r.version() == 0,
            r.history().len() == 1,
            crate::types::is_sentinel_frame(r.current()),
    {
        let current = sentinel_frame();
        let ghost h = seq![current];
        FrameRail { current, version: 0, history: Ghost(h) }
    }

    /// Replaces the current value.  Never blocks and never waits on a
    /// subscriber; slow subscribers skip the values they miss.
    pub fn publish(&mut self, v: ImageContainer)
        requires
            old(self).wf(),
            old(self).version() < u64::MAX,
        ensures
            final(self).wf(),
            final(self).version() == old(self).version() + 1,
            final(self).history() == old(self).history().push(v),
            final(self).current() == v,
    {
        self.history = Ghost(self.history@.push(v));
        self.current = v;
        self.version = self.version + 1;
    }

    /// A new subscription.  Its cursor counts the value present at
    /// subscription time as already seen, so a subscriber that waits
    /// for a change never observes that value.
    pub fn subscribe(&self) -> (c: FrameCursor)
        ensures
            c.seen() == self.version(),
    {
        FrameCursor { seen: self.version }
    }

    /// True when a publish has happened since the cursor last caught
    /// up: the subscriber's wakeup condition.
    pub fn changed(&self, c: &FrameCursor) -> (r: bool)
        ensures
            r == (self.version() > c.seen()),
    {
        self.version > c.seen
    }

    /// Reads the current value and marks it seen.
    pub fn observe(&self, c: &mut FrameCursor) -> (v: ImageContainer)
        requires
            self.wf(),
        ensures
            final(c).seen() == self.version(),
            frame_eq(v, self.current()),
            frame_eq(v, self.history().last()),
    {
        c.seen = self.version;
        self.current.duplicate()
    }
}

/// One rail state is a later state of the other: everything published
/// by then is still in the history, in the same order.
pub open spec fn frame_rail_evolves(earlier: FrameRail, later: FrameRail) -> bool {
    later.history().len() >= earlier.history().len()
    && later.history().subrange(0, earlier.history().len() as int) == earlier.history()
}

/// Publishing evolves a rail.
pub proof fn lemma_frame_publish_evolves(earlier: FrameRail, later: FrameRail, v: ImageContainer)
    requires
        later.history() == earlier.history().push(v),
    ensures
        frame_rail_evolves(earlier, later),
{
    assert(later.history().subrange(0, earlier.history().len() as int) =~= earlier.history());
}

/// Evolving is transitive, so any chain of publishes evolves the rail.
pub proof fn lemma_frame_evolves_trans(a: FrameRail, b: FrameRail, c: FrameRail)
    requires
        frame_rail_evolves(a, b),
        frame_rail_evolves(b, c),
    ensures
        frame_rail_evolves(a, c),
{
    assert(c.history().subrange(0, a.history().len() as int) =~= a.history());
}

/// Frames are observed in publish order.  If a subscriber observes a
/// frame at one rail state and another at any later state of the same
/// rail, the first frame stands no later in the publish history than
/// the second: intermediate frames may be skipped, but order is kept.
pub proof fn lemma_frames_observed_in_publish_order(
    r1: FrameRail,
    r2: FrameRail,
    c1: FrameCursor,
    c2: FrameCursor,
)
    requires
        r1.wf(),
        r2.wf(),
        frame_rail_evolves(r1, r2),
        c1.seen() == r1.version(),
        c2.seen() == r2.version(),
    ensures
        c1.seen() <= c2.seen(),
        r2.history()[c1.seen()] == r1.current(),
        r2.history()[c2.seen()] == r2.current(),
{
    assert(r2.history()[c1.seen()] == r2.history().subrange(0, r1.history().len() as int)[c1.seen()]);
}

/// Latest-wins broadcast of control events.
pub struct ControlRail {
    current: ApiChannelMessage,
    version: u64,
    history: Ghost<Seq<ApiChannelMessage>>,
}

/// A control-rail subscriber's cursor.
pub struct ControlCursor {
    seen: u64,
}

impl ControlCursor {
    /// The version of the last value this cursor observed.
    pub closed spec fn seen(&self) -> int {
        self.seen as int
    }
}

impl ControlRail {
    /// Every value this rail has held, the sentinel first.
    pub closed spec fn history(&self) -> Seq<ApiChannelMessage> {
        self.history@
    }

    /// How many values have been published.
    pub closed spec fn version(&self) -> int {
        self.version as int
    }

    /// The value a subscriber reads right now.
    pub closed spec fn current(&self) -> ApiChannelMessage {
        self.current
    }

    /// The history matches the version counter and ends at the current
    /// value.
    pub closed spec fn wf(&self) -> bool {
        &&& self.history@.len() == self.version + 1
        &&& self.history@.last() == self.current
    }

    /// A fresh rail holding only the `Initial` sentinel.
    pub fn new() -> (r: Self)
        ensures
            r.wf(),
            r.version() == 0,
            r.history().len() == 1,
            r.current() is Initial,
    {
        let current = ApiChannelMessage::Initial;
        let ghost h = seq![current];
        ControlRail { current, version: 0, history: Ghost(h) }
    }

    /// Replaces the current value.  Never blocks on a subscriber.
    pub fn publish(&mut self, v: ApiChannelMessage)
        requires
            old(self).wf(),
            old(self).version() < u64::MAX,
        ensures
            final(self).wf(),
            final(self).version() == old(self).version() + 1,
            final(self).history() == old(self).history().push(v),
            final(self).current() == v,
    {
        self.history = Ghost(self.history@.push(v));
        self.current = v;
        self.version = self.version + 1;
    }

    /// A new subscription; the value present at subscription time
    /// counts as seen.
    pub fn subscribe(&self) -> (c: ControlCursor)
        ensures
            c.seen() == self.version(),
    {
        ControlCursor { seen: self.version }
    }

    /// True when a publish has happened since the cursor last caught up.
    pub fn changed(&self, c: &ControlCursor) -> (r: bool)
        ensures
            r == (self.version() > c.seen()),
    {
        self.version > c.seen
    }

    /// Reads the current value and marks it seen.
    pub fn observe(&self, c: &mut ControlCursor) -> (v: ApiChannelMessage)
        requires
            self.wf(),
        ensures
            final(c).seen() == self.version(),
            api_message_eq(v, self.current()),
    {
        c.seen = self.version;
        self.current.duplicate()
    }
}

/// One control-rail state is a later state of the other.
pub open spec fn control_rail_evolves(earlier: ControlRail, later: ControlRail) -> bool {
    later.history().len() >= earlier.history().len()
    && later.history().subrange(0, earlier.history().len() as int) == earlier.history()
}

/// Control events are observed in publish order, like frames.
pub proof fn lemma_events_observed_in_publish_order(
    r1: ControlRail,
    r2: ControlRail,
    c1: ControlCursor,
    c2: ControlCursor,
)
    requires
        r1.wf(),
        r2.wf(),
        control_rail_evolves(r1, r2),
        c1.seen() == r1.version(),
        c2.seen() == r2.version(),
    ensures
        c1.seen() <= c2.seen(),
        r2.history()[c1.seen()] == r1.current(),
        r2.history()[c2.seen()] == r2.current(),
{
    assert(r2.history()[c1.seen()] == r2.history().subrange(0, r1.history().len() as int)[c1.seen()]);
}

} // verus!

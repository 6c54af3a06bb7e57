use crate::frame::{frames_of, Frame, FrameView};
use std::collections::VecDeque;
use vstd::prelude::*;

verus! {

/// How many of `frames` count against the capacity of a queue: all but the
/// close frames.
pub open spec fn bounded_frames(frames: Seq<FrameView>) -> nat
    decreases frames.len(),
{
    if frames.len() == 0 {
        0
    } else {
        bounded_frames(frames.drop_last()) + if frames.last() is Close {
            0nat
        } else {
            1nat
        }
    }
}

/// Whether a queue of `capacity` that holds `frames` takes `frame`: a close
/// frame always, any other frame while fewer than `capacity` frames that
/// count are held.
pub open spec fn accepts(frames: Seq<FrameView>, capacity: nat, frame: FrameView) -> bool {
    frame is Close || bounded_frames(frames) < capacity
}

/// Without its first frame a queue holds one frame less that counts, unless
/// the first frame is a close frame.
pub proof fn lemma_bounded_without_first(frames: Seq<FrameView>)
    requires
        frames.len() > 0,
    ensures
        bounded_frames(frames) == bounded_frames(frames.drop_first()) + if frames[0] is Close {
            0nat
        } else {
            1nat
        },
    decreases frames.len(),
{
    if frames.len() == 1 {
        assert(frames.drop_last() =~= Seq::<FrameView>::empty());
        assert(frames.drop_first() =~= Seq::<FrameView>::empty());
    } else {
        lemma_bounded_without_first(frames.drop_last());
        assert(frames.drop_last().drop_first() =~= frames.drop_first().drop_last());
    }
}

/// The frames that one connection has still to write, first in, first out.
/// The queue is bounded: when it is full it hands a frame back to whoever
/// offers it and drops nothing. A close frame is always taken.
pub struct OutboundQueue {
    frames: VecDeque<Frame>,
    counted: usize,
    capacity: usize,
}

impl View for OutboundQueue {
    type V = Seq<FrameView>;

    closed spec fn view(&self) -> Seq<FrameView> {
        frames_of(self.frames@)
    }
}

impl OutboundQueue {
    /// What holds of every queue: it knows how many of its frames count, and
    /// they are no more than its capacity.
    #[verifier::type_invariant]
    pub closed spec fn counted_right(self) -> bool {
        self.counted == bounded_frames(self@) && self.counted <= self.capacity
    }

    /// The number of frames, close frames apart, that the queue holds at
    /// most.
    pub closed spec fn limit(self) -> nat {
        self.capacity as nat
    }

    /// An empty queue that holds up to `capacity` frames.
    pub fn new(capacity: usize) -> (queue: OutboundQueue)
        ensures
            queue@ == Seq::<FrameView>::empty(),
            queue.limit() == capacity,
    {
        let queue = OutboundQueue { frames: VecDeque::new(), counted: 0, capacity };
        assert(queue@ =~= Seq::<FrameView>::empty());
        queue
    }

    /// The number of frames in the queue.
    pub fn len(&self) -> (count: usize)
        ensures
            count == self@.len(),
    {
        self.frames.len()
    }

    /// The number of frames, close frames apart, that the queue holds at
    /// most.
    pub fn capacity(&self) -> (capacity: usize)
        ensures
            capacity == self.limit(),
    {
        self.capacity
    }

    /// Whether the queue would hand back a frame that is no close frame.
    pub fn is_full(&self) -> (full: bool)
        ensures
            full == (bounded_frames(self@) >= self.limit()),
            bounded_frames(self@) <= self.limit(),
    {
        proof {
            use_type_invariant(self);
        }
        self.counted >= self.capacity
    }

    /// Offers `frame` to the queue. The queue puts it behind the frames it
    /// holds, or, where it is full and `frame` is no close frame, hands it
    /// back unchanged.
    pub fn offer(&mut self, frame: Frame) -> (outcome: Result<(), Frame>)
        ensures
            final(self).limit() == old(self).limit(),
            match outcome {
                Ok(_) => accepts(old(self)@, old(self).limit(), frame@) && final(self)@ == old(
                    self,
                )@.push(frame@),
                Err(back) => !accepts(old(self)@, old(self).limit(), frame@) && back == frame
                    && final(self)@ == old(self)@,
            },
    {
        proof {
            use_type_invariant(&*self);
        }
        let counts = match &frame {
            Frame::Close => false,
            _ => true,
        };
        if counts && self.counted >= self.capacity {
            return Err(frame);
        }
        let ghost before = self@;
        let mut taken = OutboundQueue::new(self.capacity);
        core::mem::swap(self, &mut taken);
        let OutboundQueue { mut frames, counted, capacity } = taken;
        frames.push_back(frame);
        proof {
            assert(frames_of(frames@) =~= before.push(frame@));
            assert(before.push(frame@).drop_last() =~= before);
        }
        let counted = if counts {
            counted + 1
        } else {
            counted
        };
        *self = OutboundQueue { frames, counted, capacity };
        Ok(())
    }

    /// Takes the frame that has waited longest, if there is one.
    pub fn take(&mut self) -> (frame: Option<Frame>)
        ensures
            final(self).limit() == old(self).limit(),
            match frame {
                Some(frame) => old(self)@.len() > 0 && frame@ == old(self)@[0] && final(self)@
                    == old(self)@.drop_first(),
                None => old(self)@.len() == 0 && final(self)@ == old(self)@,
            },
    {
        proof {
            use_type_invariant(&*self);
        }
        let ghost before = self@;
        let mut taken = OutboundQueue::new(self.capacity);
        core::mem::swap(self, &mut taken);
        let OutboundQueue { mut frames, counted, capacity } = taken;
        let frame = frames.pop_front();
        let counted = match &frame {
            Some(Frame::Close) | None => counted,
            Some(_) => {
                proof {
                    lemma_bounded_without_first(before);
                }
                counted - 1
            },
        };
        proof {
            if before.len() > 0 {
                lemma_bounded_without_first(before);
                assert(frames_of(frames@) =~= before.drop_first());
            } else {
                assert(frames_of(frames@) =~= before);
            }
        }
        *self = OutboundQueue { frames, counted, capacity };
        frame
    }
}

} // verus!

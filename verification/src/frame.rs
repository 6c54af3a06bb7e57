use vstd::prelude::*;

verus! {

/// One message unit of the transport.
#[derive(Debug, PartialEq, Eq)]
pub enum Frame {
    Text(String),
    Binary(Vec<u8>),
    Ping(Vec<u8>),
    Pong(Vec<u8>),
    Close,
}

/// A frame as a mathematical value.
#[verifier::ext_equal]
pub enum FrameView {
    Text(Seq<char>),
    Binary(Seq<u8>),
    Ping(Seq<u8>),
    Pong(Seq<u8>),
    Close,
}

impl View for Frame {
    type V = FrameView;

    open spec fn view(&self) -> FrameView {
        match self {
            Frame::Text(text) => FrameView::Text(text@),
            Frame::Binary(bytes) => FrameView::Binary(bytes@),
            Frame::Ping(bytes) => FrameView::Ping(bytes@),
            Frame::Pong(bytes) => FrameView::Pong(bytes@),
            Frame::Close => FrameView::Close,
        }
    }
}

/// The frames as mathematical values, in their order.
pub open spec fn frames_of(frames: Seq<Frame>) -> Seq<FrameView> {
    frames.map_values(|frame: Frame| frame@)
}

/// The texts among `serialized`, in their order: what is left of the updates
/// of one tick when those that could not be serialized are passed over.
pub open spec fn serialized_texts(serialized: Seq<Option<String>>) -> Seq<FrameView>
    decreases serialized.len(),
{
    if serialized.len() == 0 {
        Seq::empty()
    } else {
        let front = serialized_texts(serialized.drop_last());
        match serialized.last() {
            Some(text) => front.push(FrameView::Text(text@)),
            None => front,
        }
    }
}

/// One text frame for each update that was serialized, in the order of the
/// updates. An update that could not be serialized is passed over and costs
/// no other update its frame.
pub fn text_frames(serialized: Vec<Option<String>>) -> (frames: Vec<Frame>)
    ensures
        frames_of(frames@) == serialized_texts(serialized@),
{
    let mut frames: Vec<Frame> = Vec::new();
    let ghost all = serialized@;
    for item in it: serialized
        invariant
            it.seq() == all,
            frames_of(frames@) == serialized_texts(all.take(it.index() as int)),
    {
        let ghost before = frames_of(frames@);
        proof {
            assert(all.take(it.index() + 1).drop_last() =~= all.take(it.index() as int));
            assert(all.take(it.index() + 1).last() == item);
        }
        match item {
            Some(text) => {
                frames.push(Frame::Text(text));
                assert(frames_of(frames@) =~= before.push(FrameView::Text(text@)));
            },
            None => {},
        }
    }
    assert(all.take(all.len() as int) =~= all);
    frames
}

} // verus!

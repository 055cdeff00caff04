use vstd::prelude::*;

use crate::layout::{readback_result, MapOutcome, ReadbackLayout};

verus! {

/// Where the serial consumer stands between two events.
#[derive(Clone, Copy, Debug, PartialEq, Eq, Structural)]
pub enum Phase {
    /// Waiting on the frame channel.
    AwaitingFrame,
    /// A frame was taken; its texture is being extracted.
    Extracting,
    /// The frame's texture is being read back.
    ReadingBack,
    /// The channel closed; nothing more is done.
    Stopped,
}

/// What the driver of the loop reports to the consumer.
#[derive(Clone, Debug, PartialEq, Eq)]
pub enum LoopEvent {
    /// The channel handed over the frame with this id.
    FrameReceived(u64),
    /// The channel is closed and empty.
    ChannelClosed,
    /// The frame's texture was extracted.
    TextureReady,
    /// The frame's texture could not be extracted.
    TextureFailed,
    /// The readback of the frame's texture ended with these bytes (none on failure).
    ReadbackFinished(Vec<u8>),
}

/// What the driver of the loop is to do next.
#[derive(Clone, Debug, PartialEq, Eq)]
pub enum LoopAction {
    /// Extract the texture of this frame.
    ExtractTexture(u64),
    /// Read back the texture of this frame.
    Readback(u64),
    /// Hand these bytes of this frame downstream, then wait on the channel.
    Deliver(u64, Vec<u8>),
    /// The frame is dropped; wait on the channel for the next one.
    DropFrame(u64),
    /// Leave the loop.
    Stop,
    /// The event does not fit the current phase; nothing changed.
    Ignore,
}

/// How the consumer finished with one frame.
pub struct FrameRecord {
    pub id: u64,
    pub delivered: bool,
}

/// The consumer as a mathematical value: its phase, the frame in flight, every frame id taken
/// from the channel, and the frames it has finished with, in order.
pub struct ConsumerModel {
    pub phase: Phase,
    pub in_flight: u64,
    pub received: Seq<u64>,
    pub handled: Seq<FrameRecord>,
}

/// The ids of the frames in `records`, in order.
pub open spec fn ids_of(records: Seq<FrameRecord>) -> Seq<u64> {
    records.map_values(|r: FrameRecord| r.id)
}

/// Exactly one frame is in flight outside the waiting and stopped phases, and every other
/// frame taken from the channel has been finished with, in the order it was taken.
pub open spec fn model_wf(m: ConsumerModel) -> bool {
    if m.phase == Phase::AwaitingFrame || m.phase == Phase::Stopped {
        ids_of(m.handled) == m.received
    } else {
        &&& m.received.len() > 0
        &&& m.in_flight == m.received.last()
        &&& ids_of(m.handled) == m.received.drop_last()
    }
}

/// The consumer before any event.
pub open spec fn initial_model() -> ConsumerModel {
    ConsumerModel { phase: Phase::AwaitingFrame, in_flight: 0, received: Seq::empty(), handled: Seq::empty() }
}

/// The consumer after `e`.
pub open spec fn next(m: ConsumerModel, e: LoopEvent) -> ConsumerModel {
    match e {
        LoopEvent::FrameReceived(id) => if m.phase == Phase::AwaitingFrame {
            ConsumerModel { phase: Phase::Extracting, in_flight: id, received: m.received.push(id), ..m }
        } else {
            m
        },
        LoopEvent::ChannelClosed => if m.phase == Phase::AwaitingFrame {
            ConsumerModel { phase: Phase::Stopped, ..m }
        } else {
            m
        },
        LoopEvent::TextureReady => if m.phase == Phase::Extracting {
            ConsumerModel { phase: Phase::ReadingBack, ..m }
        } else {
            m
        },
        LoopEvent::TextureFailed => if m.phase == Phase::Extracting {
            ConsumerModel {
                phase: Phase::AwaitingFrame,
                handled: m.handled.push(FrameRecord { id: m.in_flight, delivered: false }),
                ..m
            }
        } else {
            m
        },
        LoopEvent::ReadbackFinished(bytes) => if m.phase == Phase::ReadingBack {
            ConsumerModel {
                phase: Phase::AwaitingFrame,
                handled: m.handled.push(FrameRecord { id: m.in_flight, delivered: bytes@.len() > 0 }),
                ..m
            }
        } else {
            m
        },
    }
}

/// What the consumer asks for on `e`.
pub open spec fn action_of(m: ConsumerModel, e: LoopEvent) -> LoopAction {
    match e {
        LoopEvent::FrameReceived(id) => if m.phase == Phase::AwaitingFrame {
            LoopAction::ExtractTexture(id)
        } else {
            LoopAction::Ignore
        },
        LoopEvent::ChannelClosed => if m.phase == Phase::AwaitingFrame {
            LoopAction::Stop
        } else {
            LoopAction::Ignore
        },
        LoopEvent::TextureReady => if m.phase == Phase::Extracting {
            LoopAction::Readback(m.in_flight)
        } else {
            LoopAction::Ignore
        },
        LoopEvent::TextureFailed => if m.phase == Phase::Extracting {
            LoopAction::DropFrame(m.in_flight)
        } else {
            LoopAction::Ignore
        },
        LoopEvent::ReadbackFinished(bytes) => if m.phase == Phase::ReadingBack {
            if bytes@.len() > 0 {
                LoopAction::Deliver(m.in_flight, bytes)
            } else {
                LoopAction::DropFrame(m.in_flight)
            }
        } else {
            LoopAction::Ignore
        },
    }
}

/// The decisions of the serial frame consumer: one frame at a time is taken from the channel,
/// has its texture extracted and read back, and is delivered or dropped before the next.
pub struct Consumer {
    phase: Phase,
    in_flight: u64,
    received: Ghost<Seq<u64>>,
    handled: Ghost<Seq<FrameRecord>>,
}

impl View for Consumer {
    type V = ConsumerModel;

    closed spec fn view(&self) -> ConsumerModel {
        ConsumerModel {
            phase: self.phase,
            in_flight: self.in_flight,
            received: self.received@,
            handled: self.handled@,
        }
    }
}

impl Consumer {
    pub open spec fn wf(&self) -> bool {
        model_wf(self@)
    }

    /// A consumer waiting for its first frame.
    pub fn new() -> (r: Consumer)
        ensures
            r@ == initial_model(),
            r.wf(),
    {
        let r = Consumer { phase: Phase::AwaitingFrame, in_flight: 0, received: Ghost(Seq::empty()), handled: Ghost(Seq::empty()) };
        assert(ids_of(r@.handled) =~= r@.received);
        r
    }

    /// The current phase.
    pub fn phase(&self) -> (r: Phase)
        ensures
            r == self@.phase,
    {
        self.phase
    }

    /// Whether the loop has ended.
    pub fn is_stopped(&self) -> (r: bool)
        ensures
            r == (self@.phase == Phase::Stopped),
    {
        self.phase == Phase::Stopped
    }

    /// Takes in one event and says what to do next.
    pub fn step(&mut self, event: LoopEvent) -> (action: LoopAction)
        requires
            old(self).wf(),
        ensures
            final(self)@ == next(old(self)@, event),
            action == action_of(old(self)@, event),
            final(self).wf(),
    {
        let ghost m = self@;
        match event {
            LoopEvent::FrameReceived(id) => {
                if self.phase == Phase::AwaitingFrame {
                    self.phase = Phase::Extracting;
                    self.in_flight = id;
                    self.received = Ghost(self.received@.push(id));
                    assert(self@.received.drop_last() =~= m.received);
                    LoopAction::ExtractTexture(id)
                } else {
                    LoopAction::Ignore
                }
            },
            LoopEvent::ChannelClosed => {
                if self.phase == Phase::AwaitingFrame {
                    self.phase = Phase::Stopped;
                    LoopAction::Stop
                } else {
                    LoopAction::Ignore
                }
            },
            LoopEvent::TextureReady => {
                if self.phase == Phase::Extracting {
                    self.phase = Phase::ReadingBack;
                    LoopAction::Readback(self.in_flight)
                } else {
                    LoopAction::Ignore
                }
            },
            LoopEvent::TextureFailed => {
                if self.phase == Phase::Extracting {
                    self.phase = Phase::AwaitingFrame;
                    self.handled = Ghost(self.handled@.push(FrameRecord { id: self.in_flight, delivered: false }));
                    proof {
                        lemma_finish_keeps_order(m, false);
                    }
                    LoopAction::DropFrame(self.in_flight)
                } else {
                    LoopAction::Ignore
                }
            },
            LoopEvent::ReadbackFinished(bytes) => {
                if self.phase == Phase::ReadingBack {
                    let delivered = bytes.len() > 0;
                    self.phase = Phase::AwaitingFrame;
                    self.handled = Ghost(self.handled@.push(FrameRecord { id: self.in_flight, delivered }));
                    proof {
                        lemma_finish_keeps_order(m, delivered);
                    }
                    if delivered {
                        LoopAction::Deliver(self.in_flight, bytes)
                    } else {
                        LoopAction::DropFrame(self.in_flight)
                    }
                } else {
                    LoopAction::Ignore
                }
            },
        }
    }
}

/// Finishing the frame in flight makes the finished frames catch up with the frames taken.
proof fn lemma_finish_keeps_order(m: ConsumerModel, delivered: bool)
    requires
        model_wf(m),
        m.phase == Phase::Extracting || m.phase == Phase::ReadingBack,
    ensures
        ids_of(m.handled.push(FrameRecord { id: m.in_flight, delivered })) == m.received,
{
    let h2 = m.handled.push(FrameRecord { id: m.in_flight, delivered });
    assert(ids_of(h2) =~= ids_of(m.handled).push(m.in_flight));
    assert(m.received =~= m.received.drop_last().push(m.received.last()));
}

/// What became of one frame in a run of the loop: its id, whether its texture could be
/// extracted, and, if so, the bytes its readback gave.
pub struct FrameFate {
    pub id: u64,
    pub texture_ok: bool,
    pub bytes: Vec<u8>,
}

/// The events the driver reports for one frame taken from the channel.
pub open spec fn frame_events(f: FrameFate) -> Seq<LoopEvent> {
    if f.texture_ok {
        seq![LoopEvent::FrameReceived(f.id), LoopEvent::TextureReady, LoopEvent::ReadbackFinished(f.bytes)]
    } else {
        seq![LoopEvent::FrameReceived(f.id), LoopEvent::TextureFailed]
    }
}

/// The events for `frames`, taken from the channel one after another.
pub open spec fn session_events(frames: Seq<FrameFate>) -> Seq<LoopEvent>
    decreases frames.len(),
{
    if frames.len() == 0 {
        Seq::empty()
    } else {
        session_events(frames.drop_last()) + frame_events(frames.last())
    }
}

/// The consumer after each of `events` in turn.
pub open spec fn run(m: ConsumerModel, events: Seq<LoopEvent>) -> ConsumerModel
    decreases events.len(),
{
    if events.len() == 0 {
        m
    } else {
        run(next(m, events[0]), events.drop_first())
    }
}

/// How the consumer finishes with a frame of this fate: delivered exactly when its texture was
/// extracted and its readback gave bytes.
pub open spec fn record_of(f: FrameFate) -> FrameRecord {
    FrameRecord { id: f.id, delivered: f.texture_ok && f.bytes@.len() > 0 }
}

proof fn lemma_run_append(m: ConsumerModel, a: Seq<LoopEvent>, b: Seq<LoopEvent>)
    ensures
        run(m, a + b) == run(run(m, a), b),
    decreases a.len(),
{
    if a.len() == 0 {
        assert(a + b =~= b);
    } else {
        assert((a + b).drop_first() =~= a.drop_first() + b);
        lemma_run_append(next(m, a[0]), a.drop_first(), b);
    }
}

proof fn lemma_one_frame(m: ConsumerModel, f: FrameFate)
    requires
        m.phase == Phase::AwaitingFrame,
    ensures
        run(m, frame_events(f)) == (ConsumerModel {
            phase: Phase::AwaitingFrame,
            in_flight: f.id,
            received: m.received.push(f.id),
            handled: m.handled.push(record_of(f)),
        }),
{
    reveal_with_fuel(run, 4);
    let ev = frame_events(f);
    if f.texture_ok {
        assert(ev.drop_first().drop_first().drop_first() =~= Seq::<LoopEvent>::empty());
    } else {
        assert(ev.drop_first().drop_first() =~= Seq::<LoopEvent>::empty());
    }
}

/// Frames taken one after another are finished with in the order they were taken, none lost
/// and none repeated, however long the backlog; a frame whose texture or readback failed is
/// dropped, and the frames after it are still processed.
pub proof fn lemma_frames_handled_in_order(m: ConsumerModel, frames: Seq<FrameFate>)
    requires
        model_wf(m),
        m.phase == Phase::AwaitingFrame,
    ensures
        run(m, session_events(frames)).phase == Phase::AwaitingFrame,
        run(m, session_events(frames)).received == m.received + frames.map_values(|f: FrameFate| f.id),
        run(m, session_events(frames)).handled == m.handled + frames.map_values(|f: FrameFate| record_of(f)),
        model_wf(run(m, session_events(frames))),
    decreases frames.len(),
{
    let ids = frames.map_values(|f: FrameFate| f.id);
    let recs = frames.map_values(|f: FrameFate| record_of(f));
    if frames.len() == 0 {
        assert(m.received + ids =~= m.received);
        assert(m.handled + recs =~= m.handled);
    } else {
        let init = frames.drop_last();
        let f = frames.last();
        lemma_frames_handled_in_order(m, init);
        let mid = run(m, session_events(init));
        lemma_run_append(m, session_events(init), frame_events(f));
        lemma_one_frame(mid, f);
        let e = run(m, session_events(frames));
        assert(init.map_values(|f: FrameFate| f.id).push(f.id) =~= ids);
        assert(init.map_values(|f: FrameFate| record_of(f)).push(record_of(f)) =~= recs);
        assert(e.received =~= m.received + ids);
        assert(e.handled =~= m.handled + recs);
        assert(ids_of(e.handled) =~= ids_of(mid.handled).push(f.id));
    }
}

/// Once the channel closes with no frame pending, the loop stops without error, and every frame
/// taken before has been finished with, in order.
pub proof fn lemma_close_stops(frames: Seq<FrameFate>)
    ensures
        ({
            let m = run(initial_model(), session_events(frames));
            &&& action_of(m, LoopEvent::ChannelClosed) == LoopAction::Stop
            &&& next(m, LoopEvent::ChannelClosed).phase == Phase::Stopped
            &&& next(m, LoopEvent::ChannelClosed).handled == frames.map_values(|f: FrameFate| record_of(f))
            &&& ids_of(next(m, LoopEvent::ChannelClosed).handled) == frames.map_values(|f: FrameFate| f.id)
        }),
{
    let m0 = initial_model();
    assert(ids_of(m0.handled) =~= m0.received);
    lemma_frames_handled_in_order(m0, frames);
    let m = run(m0, session_events(frames));
    assert(m.handled =~= frames.map_values(|f: FrameFate| record_of(f)));
    assert(m.received =~= frames.map_values(|f: FrameFate| f.id));
}

/// A frame whose mapping failed gives an empty buffer and is dropped, and the loop goes on to
/// process the next frame.
pub proof fn lemma_map_failure_contained(
    m: ConsumerModel,
    failed: FrameFate,
    mapped: Seq<u8>,
    l: ReadbackLayout,
    later: FrameFate,
)
    requires
        model_wf(m),
        m.phase == Phase::AwaitingFrame,
        failed.texture_ok,
        failed.bytes@ == readback_result(MapOutcome::Failed, mapped, l),
    ensures
        failed.bytes@.len() == 0,
        run(m, session_events(seq![failed, later])).phase == Phase::AwaitingFrame,
        run(m, session_events(seq![failed, later])).handled
            == m.handled.push(FrameRecord { id: failed.id, delivered: false }).push(record_of(later)),
{
    let fs = seq![failed, later];
    lemma_frames_handled_in_order(m, fs);
    assert(fs.map_values(|f: FrameFate| record_of(f)) =~= seq![record_of(failed), record_of(later)]);
    assert(m.handled + seq![record_of(failed), record_of(later)] =~= m.handled.push(
        FrameRecord { id: failed.id, delivered: false },
    ).push(record_of(later)));
}

} // verus!

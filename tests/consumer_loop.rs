use frame_readback::consumer::{Consumer, LoopAction, LoopEvent, Phase};

fn drive_frame(c: &mut Consumer, id: u64, texture_ok: bool, bytes: Vec<u8>) -> LoopAction {
    assert_eq!(c.step(LoopEvent::FrameReceived(id)), LoopAction::ExtractTexture(id));
    if !texture_ok {
        return c.step(LoopEvent::TextureFailed);
    }
    assert_eq!(c.step(LoopEvent::TextureReady), LoopAction::Readback(id));
    c.step(LoopEvent::ReadbackFinished(bytes))
}

#[test]
fn frames_are_observed_in_send_order() {
    let (tx, mut rx) = tokio::sync::mpsc::unbounded_channel::<u64>();
    for id in [5u64, 1, 9, 2] {
        tx.send(id).unwrap();
    }
    drop(tx);
    let mut c = Consumer::new();
    let mut seen = Vec::new();
    while let Ok(id) = rx.try_recv() {
        match drive_frame(&mut c, id, true, vec![id as u8]) {
            LoopAction::Deliver(f, bytes) => {
                assert_eq!(bytes, vec![id as u8]);
                seen.push(f)
            }
            other => panic!("unexpected {:?}", other),
        }
    }
    assert_eq!(seen, vec![5, 1, 9, 2]);
    assert_eq!(c.step(LoopEvent::ChannelClosed), LoopAction::Stop);
    assert!(c.is_stopped());
}

#[test]
fn backlog_is_drained_in_order_without_loss() {
    let (tx, mut rx) = tokio::sync::mpsc::unbounded_channel::<u64>();
    let k: u64 = 500;
    for id in 0..k {
        tx.send(id).unwrap();
    }
    let mut c = Consumer::new();
    let mut seen = Vec::new();
    while let Ok(id) = rx.try_recv() {
        if let LoopAction::Deliver(f, _) = drive_frame(&mut c, id, true, vec![1, 2, 3, 4]) {
            seen.push(f);
        }
    }
    assert_eq!(seen, (0..k).collect::<Vec<u64>>());
    drop(tx);
    assert!(rx.try_recv().is_err());
    assert_eq!(c.step(LoopEvent::ChannelClosed), LoopAction::Stop);
}

#[test]
fn failed_readback_drops_frame_and_loop_goes_on() {
    let mut c = Consumer::new();
    assert_eq!(drive_frame(&mut c, 1, true, Vec::new()), LoopAction::DropFrame(1));
    assert_eq!(c.phase(), Phase::AwaitingFrame);
    assert_eq!(drive_frame(&mut c, 2, true, vec![7, 7, 7, 7]), LoopAction::Deliver(2, vec![7, 7, 7, 7]));
}

#[test]
fn failed_texture_extraction_drops_frame_and_loop_goes_on() {
    let mut c = Consumer::new();
    assert_eq!(drive_frame(&mut c, 3, false, Vec::new()), LoopAction::DropFrame(3));
    assert_eq!(c.phase(), Phase::AwaitingFrame);
    assert_eq!(drive_frame(&mut c, 4, true, vec![1]), LoopAction::Deliver(4, vec![1]));
}

#[test]
fn closed_empty_channel_stops_at_once() {
    let (tx, mut rx) = tokio::sync::mpsc::unbounded_channel::<u64>();
    drop(tx);
    assert!(rx.try_recv().is_err());
    let mut c = Consumer::new();
    assert_eq!(c.step(LoopEvent::ChannelClosed), LoopAction::Stop);
    assert!(c.is_stopped());
    assert_eq!(c.step(LoopEvent::FrameReceived(1)), LoopAction::Ignore);
    assert_eq!(c.phase(), Phase::Stopped);
}

#[test]
fn out_of_phase_events_are_ignored() {
    let mut c = Consumer::new();
    assert_eq!(c.step(LoopEvent::TextureReady), LoopAction::Ignore);
    assert_eq!(c.step(LoopEvent::ReadbackFinished(vec![1])), LoopAction::Ignore);
    assert_eq!(c.step(LoopEvent::FrameReceived(8)), LoopAction::ExtractTexture(8));
    assert_eq!(c.step(LoopEvent::FrameReceived(9)), LoopAction::Ignore);
    assert_eq!(c.step(LoopEvent::ChannelClosed), LoopAction::Ignore);
    assert_eq!(c.phase(), Phase::Extracting);
}

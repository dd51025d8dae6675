use biliup_app::{Error, Progressbar, FRAME_SIZE};
use bytes::Bytes;
use tokio::sync::mpsc::error::TryRecvError;
use tokio::sync::mpsc::{unbounded_channel, UnboundedReceiver};

fn pattern(n: usize) -> Vec<u8> {
    (0..n).map(|i| (i % 251) as u8).collect()
}

fn drain(rx: &mut UnboundedReceiver<u64>) -> Vec<u64> {
    let mut out = Vec::new();
    while let Ok(n) = rx.try_recv() {
        out.push(n);
    }
    out
}

/// Runs the adapter to its end, checking after each frame that its event is already
/// on the channel.
fn run(data: &[u8]) -> (Vec<Vec<u8>>, Vec<u64>) {
    let (tx, mut rx) = unbounded_channel();
    let mut p = Progressbar::new(Bytes::from(data.to_vec()), tx);
    let mut frames = Vec::new();
    let mut events = Vec::new();
    while let Some(f) = p.progress().unwrap() {
        let ev = drain(&mut rx);
        assert_eq!(ev, vec![f.len() as u64]);
        events.extend(ev);
        frames.push(f.to_vec());
    }
    assert!(drain(&mut rx).is_empty());
    (frames, events)
}

#[test]
fn empty_buffer_ends_at_once() {
    let (tx, mut rx) = unbounded_channel();
    let mut p = Progressbar::new(Bytes::new(), tx);
    assert_eq!(p.progress(), Ok(None));
    assert_eq!(rx.try_recv(), Err(TryRecvError::Empty));
}

#[test]
fn sub_frame_buffer_is_one_frame() {
    let data = vec![1u8, 2, 3, 4, 5, 6, 7];
    let (frames, events) = run(&data);
    assert_eq!(events, vec![7]);
    assert_eq!(frames, vec![data]);
}

#[test]
fn exact_frame_boundary_is_one_frame() {
    let data = pattern(1_048_576);
    let (frames, events) = run(&data);
    assert_eq!(events, vec![1_048_576]);
    assert_eq!(frames.len(), 1);
    assert_eq!(frames[0].len(), 1_048_576);
    assert_eq!(frames[0], data);
}

#[test]
fn multi_frame_with_remainder() {
    let data = pattern(2_500_000);
    let (frames, events) = run(&data);
    assert_eq!(events, vec![1_048_576, 1_048_576, 402_848]);
    let lens: Vec<usize> = frames.iter().map(|f| f.len()).collect();
    assert_eq!(lens, vec![1_048_576, 1_048_576, 402_848]);
    assert_eq!(frames.concat(), data);
}

#[test]
fn frames_concatenate_to_buffer_and_events_sum_to_length() {
    for n in [1usize, 2, FRAME_SIZE - 1, FRAME_SIZE + 1, 3 * FRAME_SIZE] {
        let data = pattern(n);
        let (frames, events) = run(&data);
        assert_eq!(frames.concat(), data);
        assert_eq!(events.iter().sum::<u64>(), n as u64);
        for f in &frames[..frames.len() - 1] {
            assert_eq!(f.len(), FRAME_SIZE);
        }
        let last = frames.last().unwrap().len();
        assert!(last > 0 && last <= FRAME_SIZE);
    }
}

#[test]
fn polling_after_end_stays_at_end() {
    let (tx, mut rx) = unbounded_channel();
    let mut p = Progressbar::new(Bytes::from(vec![9u8, 8, 7]), tx);
    assert_eq!(p.progress().unwrap().unwrap().to_vec(), vec![9u8, 8, 7]);
    assert_eq!(drain(&mut rx), vec![3]);
    for _ in 0..3 {
        assert_eq!(p.progress(), Ok(None));
    }
    assert!(drain(&mut rx).is_empty());
}

#[test]
fn subscriber_drops_mid_stream() {
    let data = pattern(FRAME_SIZE + 10);
    let (tx, mut rx) = unbounded_channel();
    let mut p = Progressbar::new(Bytes::from(data.clone()), tx);
    let first = p.progress().unwrap().unwrap();
    assert_eq!(first.len(), FRAME_SIZE);
    assert_eq!(rx.try_recv(), Ok(FRAME_SIZE as u64));
    rx.close();
    assert_eq!(p.progress(), Err(Error::ProgressChannelClosed));
    assert_eq!(p.progress(), Err(Error::ProgressChannelClosed));
}

#[test]
fn subscriber_dropped_before_start() {
    let (tx, rx) = unbounded_channel::<u64>();
    drop(rx);
    let mut p = Progressbar::new(Bytes::from(vec![1u8]), tx);
    assert_eq!(p.progress(), Err(Error::ProgressChannelClosed));
}

#[test]
fn dropping_the_adapter_sends_nothing() {
    let (tx, mut rx) = unbounded_channel();
    let p = Progressbar::new(Bytes::from(pattern(10)), tx);
    drop(p);
    assert_eq!(rx.try_recv(), Err(TryRecvError::Disconnected));

    let (tx, mut rx) = unbounded_channel();
    let mut p = Progressbar::new(Bytes::from(pattern(FRAME_SIZE + 5)), tx);
    assert!(p.progress().unwrap().is_some());
    drop(p);
    assert_eq!(rx.try_recv(), Ok(FRAME_SIZE as u64));
    assert_eq!(rx.try_recv(), Err(TryRecvError::Disconnected));
}

#[test]
fn failed_send_step_leaves_cursor_and_fails_for_good() {
    let (tx, mut rx) = unbounded_channel();
    let mut p = Progressbar::new(Bytes::from(vec![4u8, 5, 6]), tx);
    assert_eq!(p.finish_step(3, false), Err(Error::ProgressChannelClosed));
    assert_eq!(p.progress(), Err(Error::ProgressChannelClosed));
    assert_eq!(rx.try_recv(), Err(TryRecvError::Empty));
}

#[test]
fn clone_has_its_own_cursor_on_the_same_channel() {
    let (tx, mut rx) = unbounded_channel();
    let mut p = Progressbar::new(Bytes::from(vec![1u8, 2, 3]), tx);
    let mut q = p.clone();
    assert_eq!(p.progress().unwrap().unwrap().to_vec(), vec![1u8, 2, 3]);
    assert_eq!(q.progress().unwrap().unwrap().to_vec(), vec![1u8, 2, 3]);
    assert_eq!(drain(&mut rx), vec![3, 3]);
    assert_eq!(p.progress(), Ok(None));
    assert_eq!(q.progress(), Ok(None));
}

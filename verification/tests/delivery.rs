//! Work queued for the presentation context completes and hands its result
//! back.
use ninomiya::channel::EventChannel;

#[test]
fn success() {
    let mut ch: EventChannel<()> = EventChannel::new();
    ch.send(());
    assert_eq!(ch.try_recv(), Some(()));
}

#[test]
fn success_with_result() -> Result<(), i32> {
    let mut ch: EventChannel<Result<(), i32>> = EventChannel::new();
    ch.send(Ok(()));
    ch.try_recv().expect("the queued result comes back")
}

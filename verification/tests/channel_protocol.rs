use hot_reload::channel::recv_wake_step;
use hot_reload::channel::try_recv_step;
use hot_reload::channel::ChannelCell;
use hot_reload::channel::RecvStep;

#[test]
fn send_then_try_recv_returns_value() {
    let mut c: ChannelCell<u32> = ChannelCell::empty();
    c.send(&7);
    assert_eq!(c.try_recv(), Some(7));
    assert_eq!(c.try_recv(), None);
}

#[test]
fn send_overwrites_pending_value() {
    let mut c: ChannelCell<u32> = ChannelCell::empty();
    c.send(&1);
    c.send(&2);
    assert_eq!(c.try_recv(), Some(2));
    assert_eq!(c.try_recv(), None);
}

#[test]
fn double_send_wakes_once() {
    let mut c: ChannelCell<()> = ChannelCell::empty();
    c.send(&());
    c.send(&());
    // the one wake delivers the pending unit and clears the event
    assert_eq!(c.recv_wake(false), RecvStep::Deliver(()));
    // the receiver does not wake again: nothing is pending
    assert_eq!(c.recv_wake(false), RecvStep::KeepWaiting);
    assert_eq!(c.try_recv(), None);
}

#[test]
fn empty_channel_keeps_waiting() {
    let mut c: ChannelCell<u32> = ChannelCell::empty();
    assert_eq!(c.recv_wake(false), RecvStep::KeepWaiting);
    assert_eq!(c.try_recv(), None);
}

#[test]
fn termination_request_wins_over_pending_value() {
    let mut c: ChannelCell<u32> = ChannelCell::empty();
    c.send(&5);
    assert_eq!(c.recv_wake(true), RecvStep::Terminate);
    // the value is still pending afterwards
    assert_eq!(c.try_recv(), Some(5));
}

#[test]
fn try_recv_step_on_bare_slot() {
    let taken = try_recv_step(Some(9u32));
    assert_eq!(taken.taken, Some(9));
    assert_eq!(taken.new_slot, None);
    assert!(taken.clear_event);

    let idle = try_recv_step::<u32>(None);
    assert_eq!(idle.taken, None);
    assert_eq!(idle.new_slot, None);
    assert!(!idle.clear_event);
}

#[test]
fn recv_wake_step_decisions() {
    assert_eq!(recv_wake_step(true, Some(3u32)), RecvStep::Terminate);
    assert_eq!(recv_wake_step(true, None::<u32>), RecvStep::Terminate);
    assert_eq!(recv_wake_step(false, Some(3u32)), RecvStep::Deliver(3));
    assert_eq!(recv_wake_step(false, None::<u32>), RecvStep::KeepWaiting);
}

#[test]
fn channel_carries_byte_arrays() {
    let mut c: ChannelCell<[u8; 4]> = ChannelCell::empty();
    c.send(&[1, 2, 3, 4]);
    assert_eq!(c.try_recv(), Some([1, 2, 3, 4]));
}

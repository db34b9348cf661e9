use tg_bot::heartbeat::{presence_for, Heartbeat, Phase, PresenceKind, HEARTBEAT_INTERVAL_MS};

/// Advances a fake clock by `ms` and counts the signals emitted.
fn advance(h: &Heartbeat, ms: u64) -> u64 {
    let mut emitted = 0;
    for _ in 0..(ms / h.interval_ms) {
        if h.tick().is_some() {
            emitted += 1;
        }
    }
    emitted
}

#[test]
fn kind_follows_voice_flag() {
    assert_eq!(presence_for(true), PresenceKind::RecordVoice);
    assert_eq!(presence_for(false), PresenceKind::Typing);
    assert_eq!(Heartbeat::new(true).kind, PresenceKind::RecordVoice);
    assert_eq!(Heartbeat::new(false).interval_ms, 3000);
    assert_eq!(HEARTBEAT_INTERVAL_MS, 3000);
}

#[test]
fn running_heartbeat_ticks_every_interval() {
    let mut h = Heartbeat::new(false);
    assert_eq!(h.tick(), None);
    h.start();
    assert!(h.is_active());
    assert_eq!(advance(&h, 5 * 3000), 5);
    assert_eq!(h.tick(), Some(PresenceKind::Typing));
}

#[test]
fn no_tick_after_cancel() {
    let mut h = Heartbeat::new(true);
    h.start();
    assert_eq!(advance(&h, 3 * 3000), 3);
    h.cancel();
    assert_eq!(h.phase, Phase::Cancelled);
    assert_eq!(advance(&h, 100 * 3000), 0);
    h.cancel();
    assert_eq!(h.phase, Phase::Cancelled);
    h.start();
    assert_eq!(advance(&h, 10 * 3000), 0);
    assert!(!h.is_active());
}

#[test]
fn cancel_before_start() {
    let mut h = Heartbeat::new(false);
    h.cancel();
    h.start();
    assert_eq!(h.phase, Phase::Cancelled);
    assert_eq!(h.tick(), None);
}

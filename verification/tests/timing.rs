use gascii::clock::MasterClock;
use gascii::frame_buffer::FrameBuffer;
use gascii::frame_data::FrameData;
use gascii::scheduler::PlaybackScheduler;
use gascii::scheduler::SchedulerAction;
use gascii::scheduler::SchedulerPhase;
use gascii::timer::Timer;
use gascii::vsync::VSync;

fn frame(ts: u64) -> FrameData {
    FrameData::new(vec![ts as u8], 1, 1, ts)
}

#[test]
fn clock_elapsed_excludes_pauses() {
    let mut clock = MasterClock::new(1_000);
    assert_eq!(clock.elapsed(1_500), 500);
    assert!(!clock.is_paused());
    clock.pause(2_000);
    assert!(clock.is_paused());
    // While paused, elapsed is frozen at the pause instant.
    assert_eq!(clock.elapsed(9_999), 1_000);
    clock.resume(3_000);
    assert!(!clock.is_paused());
    // The 1000us pause does not count as elapsed time.
    assert_eq!(clock.elapsed(3_500), 1_500);
    clock.reset(10_000);
    assert_eq!(clock.elapsed(10_250), 250);
}

#[test]
fn clock_double_pause_and_resume_are_idempotent() {
    let mut clock = MasterClock::new(0);
    clock.pause(100);
    clock.pause(200);
    assert_eq!(clock.elapsed(500), 100);
    clock.resume(300);
    clock.resume(400);
    assert_eq!(clock.elapsed(500), 300);
}

#[test]
fn timer_reports_and_resets() {
    let mut t = Timer::new(100);
    assert_eq!(t.elapsed(1_100), 1_000);
    assert_eq!(t.elapsed_ms(3_600), 3);
    t.reset(5_000);
    assert_eq!(t.elapsed(5_001), 1);
}

#[test]
fn vsync_paces_and_resyncs() {
    // 25 fps: one frame every 40000 microseconds.
    let mut v = VSync::new(40_000, 0);
    let sleep = v.wait_for_next_frame(10_000);
    assert_eq!(sleep, 30_000);
    assert_eq!(v.frames_rendered, 1);
    assert_eq!(v.next_frame_time_us, 80_000);
    // On time: no sleep needed.
    let sleep = v.wait_for_next_frame(85_000);
    assert_eq!(sleep, 0);
    assert_eq!(v.next_frame_time_us, 120_000);
    // Drifted more than three intervals past the deadline: resync instead
    // of firing rapidly to catch up.
    let sleep = v.wait_for_next_frame(240_001);
    assert_eq!(sleep, 0);
    assert_eq!(v.next_frame_time_us, 280_001);
    assert_eq!(v.frames_rendered, 3);
}

#[test]
fn vsync_drop_decision_and_stats() {
    let mut v = VSync::new(40_000, 0);
    let _ = v.wait_for_next_frame(0);
    let _ = v.wait_for_next_frame(40_000);
    // Two frames rendered; 8 expected: more than 5 behind.
    assert!(v.should_drop_frame(320_000));
    assert!(!v.should_drop_frame(280_000));
    v.drop_frame();
    let s = v.stats();
    assert_eq!(s.frames_rendered, 2);
    assert_eq!(s.frames_dropped, 1);
    assert_eq!(s.frame_interval_us, 40_000);
    v.reset(1_000_000);
    assert_eq!(v.frames_rendered, 0);
    assert_eq!(v.next_frame_time_us, 1_040_000);
}

#[test]
fn channel_capacity_bound() {
    let mut chan = FrameBuffer::new(3);
    assert!(chan.is_empty());
    assert!(chan.push(frame(0)));
    assert!(chan.push(frame(1)));
    assert!(chan.push(frame(2)));
    // The channel is full: the next push fails and hands the frame back.
    assert_eq!(chan.len(), 3);
    assert!(!chan.push(frame(3)));
    let rejected = chan.try_push(frame(4));
    assert_eq!(rejected.map(|f| f.timestamp_us), Some(4));
    assert_eq!(chan.fill_level_percent(), 100);
    // After one pop, a push succeeds again, and order is FIFO.
    assert_eq!(chan.pop().map(|f| f.timestamp_us), Some(0));
    assert!(chan.push(frame(5)));
    assert_eq!(chan.pop().map(|f| f.timestamp_us), Some(1));
    assert_eq!(chan.pop().map(|f| f.timestamp_us), Some(2));
    assert_eq!(chan.pop().map(|f| f.timestamp_us), Some(5));
    assert!(chan.pop().is_none());
    assert_eq!(chan.capacity(), 3);
    assert_eq!(chan.fill_level_percent(), 0);
}

#[test]
fn scheduler_renders_first_frame_immediately() {
    // 1 fps source, three frames at 0.0, 1.0 and 2.0 seconds.
    let mut chan = FrameBuffer::new(8);
    let mut sched = PlaybackScheduler::new(1_000);
    chan.push(frame(0));
    chan.push(frame(1_000_000));
    chan.push(frame(2_000_000));

    // Frame 0 renders immediately: the first poll is its pop instant.
    match sched.poll(&mut chan, 5_000_000, false) {
        SchedulerAction::Render(f) => assert_eq!(f.timestamp_us, 0),
        _ => panic!("expected a render"),
    }
    // Frame 1 is a second away: the scheduler sleeps out the remainder.
    match sched.poll(&mut chan, 5_000_100, false) {
        SchedulerAction::Sleep(us) => assert_eq!(us, 999_900),
        _ => panic!("expected a sleep"),
    }
    match sched.poll(&mut chan, 6_000_000, false) {
        SchedulerAction::Render(f) => assert_eq!(f.timestamp_us, 1_000_000),
        _ => panic!("expected a render"),
    }
    // Frame 2 likewise arrives after a sleep of about one second.
    match sched.poll(&mut chan, 6_000_000, false) {
        SchedulerAction::Sleep(us) => assert_eq!(us, 1_000_000),
        _ => panic!("expected a sleep"),
    }
    match sched.poll(&mut chan, 7_000_050, false) {
        SchedulerAction::Render(f) => assert_eq!(f.timestamp_us, 2_000_000),
        _ => panic!("expected a render"),
    }
    assert_eq!(sched.frames_rendered, 3);
    assert_eq!(sched.frames_dropped, 0);
    // Producer done and channel empty: draining, then stopped.
    assert!(matches!(sched.poll(&mut chan, 7_100_000, true), SchedulerAction::Finished));
    assert!(matches!(sched.phase, SchedulerPhase::Draining));
    assert!(matches!(sched.poll(&mut chan, 7_200_000, true), SchedulerAction::Finished));
    assert!(matches!(sched.phase, SchedulerPhase::Stopped));
}

#[test]
fn scheduler_drop_accounting() {
    let mut chan = FrameBuffer::new(8);
    let mut sched = PlaybackScheduler::new(1_000);
    chan.push(frame(0));
    match sched.poll(&mut chan, 1_000, false) {
        SchedulerAction::Render(f) => assert_eq!(f.timestamp_us, 0),
        _ => panic!("expected a render"),
    }
    // The producer raced ahead: three frames are already overdue.
    chan.push(frame(10));
    chan.push(frame(11));
    chan.push(frame(12));
    match sched.poll(&mut chan, 1_001_000, false) {
        // Only the newest overdue frame renders; the two candidates it
        // replaced count as dropped.
        SchedulerAction::Render(f) => assert_eq!(f.timestamp_us, 12),
        _ => panic!("expected a render"),
    }
    assert_eq!(sched.frames_dropped, 2);
    assert_eq!(sched.frames_rendered, 2);
    // Rendered timestamps stayed monotonic.
    assert_eq!(sched.last_rendered_ts, 12);
}

#[test]
fn scheduler_sleeps_on_empty_channel_and_stops_on_cancel() {
    let mut chan = FrameBuffer::new(4);
    let mut sched = PlaybackScheduler::new(777);
    assert!(matches!(sched.poll(&mut chan, 0, false), SchedulerAction::Sleep(777)));
    sched.stop();
    assert!(matches!(sched.phase, SchedulerPhase::Stopped));
    assert!(matches!(sched.poll(&mut chan, 10, false), SchedulerAction::Finished));
}

use frame_overlay::frame::Frame;
use frame_overlay::store::{rate, FrameSampleStore, RATE_UNBOUNDED, WINDOW_SIZE};

const MS: u64 = 1_000_000;

fn displayed(ms: u64) -> Frame {
    Frame {
        duration_elements: 0,
        duration_render: 0,
        duration_screencopy: None,
        duration_displayed: ms * MS,
    }
}

fn worked(elements: u64, render: u64) -> Frame {
    Frame {
        duration_elements: elements,
        duration_render: render,
        duration_screencopy: None,
        duration_displayed: elements + render,
    }
}

#[test]
fn empty_store_has_zero_statistics() {
    let store = FrameSampleStore::new();
    assert_eq!(store.len(), 0);
    assert_eq!(store.max_frametime(), 0);
    assert_eq!(store.min_frametime(), 0);
    assert_eq!(store.avg_frametime(), 0);
    assert_eq!(store.avg_fps(), 0);
    assert_eq!(store.avg_fps_millis(), 0);
    assert_eq!(store.max_time_to_display(), 0);
    assert_eq!(store.min_time_to_display(), 0);
    assert_eq!(store.recent(10), vec![]);
}

#[test]
fn frame_time_is_elements_plus_render() {
    let frame = Frame {
        duration_elements: 3,
        duration_render: 4,
        duration_screencopy: Some(100),
        duration_displayed: 1000,
    };
    assert_eq!(frame.frame_time(), 7);
    assert_eq!(frame.screencopy(), 100);
    assert_eq!(frame.time_to_display(), 1000);
    let wide = worked(u64::MAX, u64::MAX);
    assert_eq!(wide.frame_time(), 2 * (u64::MAX as u128));
    assert_eq!(wide.screencopy(), 0);
}

#[test]
fn three_frames_display_bounds() {
    let mut store = FrameSampleStore::new();
    store.record(displayed(10));
    store.record(displayed(20));
    store.record(displayed(30));
    assert_eq!(store.min_time_to_display(), 10 * MS);
    assert_eq!(store.max_time_to_display(), 30 * MS);
    assert_eq!(store.min_frametime(), 0);
    assert_eq!(store.max_frametime(), 0);
    assert_eq!(store.avg_frametime(), 0);
    assert_eq!(store.avg_fps(), RATE_UNBOUNDED);
}

#[test]
fn single_frame_has_equal_bounds() {
    let mut store = FrameSampleStore::new();
    store.record(worked(5 * MS, 3 * MS));
    assert_eq!(store.min_time_to_display(), store.max_time_to_display());
    assert_eq!(store.min_time_to_display(), 8 * MS);
    assert_eq!(store.min_frametime(), 8 * MS as u128);
    assert_eq!(store.avg_frametime(), 8 * MS as u128);
    assert_eq!(store.max_frametime(), 8 * MS as u128);
    assert_eq!(store.avg_fps(), 125);
    assert_eq!(store.avg_fps_millis(), 125_000);
}

#[test]
fn statistics_are_ordered() {
    let mut store = FrameSampleStore::new();
    let samples = [(7u64, 2u64), (1, 1), (40, 2), (3, 3), (0, 11)];
    for (elements, render) in samples {
        store.record(worked(elements, render));
        assert!(store.min_time_to_display() <= store.max_time_to_display());
        assert!(store.min_frametime() <= store.avg_frametime());
        assert!(store.avg_frametime() <= store.max_frametime());
    }
    assert_eq!(store.min_frametime(), 2);
    assert_eq!(store.max_frametime(), 42);
    // 9 + 2 + 42 + 6 + 11 = 70 over 5 samples
    assert_eq!(store.avg_frametime(), 14);
}

#[test]
fn average_rounds_down() {
    let mut store = FrameSampleStore::new();
    store.record(worked(1, 0));
    store.record(worked(2, 0));
    store.record(worked(2, 0));
    assert_eq!(store.avg_frametime(), 1);
}

#[test]
fn statistics_do_not_overflow() {
    let mut store = FrameSampleStore::new();
    let mut i = 0;
    while i < WINDOW_SIZE {
        store.record(worked(u64::MAX, u64::MAX));
        i += 1;
    }
    assert_eq!(store.avg_frametime(), 2 * (u64::MAX as u128));
    assert_eq!(store.max_frametime(), 2 * (u64::MAX as u128));
    assert_eq!(store.avg_fps(), 0);
}

#[test]
fn frame_rate_rounds_to_nearest() {
    let mut store = FrameSampleStore::new();
    store.record(worked(16_000_000, 0));
    assert_eq!(store.avg_fps(), 63);
    assert_eq!(store.avg_fps_millis(), 62_500);

    let mut sixty = FrameSampleStore::new();
    sixty.record(worked(10_000_000, 6_666_667));
    assert_eq!(sixty.avg_fps(), 60);
    assert_eq!(sixty.avg_fps_millis(), 60_000);
}

#[test]
fn rate_of_periods() {
    assert_eq!(rate(0, 1), RATE_UNBOUNDED);
    assert_eq!(rate(0, 1000), u64::MAX);
    assert_eq!(rate(0, 0), 0);
    assert_eq!(rate(5, 0), 0);
    assert_eq!(rate(1, 1), 1_000_000_000);
    assert_eq!(rate(1_000_000_000, 1), 1);
    assert_eq!(rate(2_000_000_000, 1), 1);
    assert_eq!(rate(2_000_000_001, 1), 0);
    assert_eq!(rate(3, 1), 333_333_333);
    assert_eq!(rate(1, u32::MAX), u32::MAX as u64 * 1_000_000_000);
    assert_eq!(rate(u128::MAX, u32::MAX), 0);
}

#[test]
fn idle_samples_have_an_unbounded_rate() {
    let mut store = FrameSampleStore::new();
    assert_eq!(store.avg_fps(), 0);
    assert_eq!(store.avg_fps_millis(), 0);
    store.record(displayed(5));
    store.record(displayed(6));
    assert_eq!(store.avg_frametime(), 0);
    assert_eq!(store.avg_fps(), RATE_UNBOUNDED);
    assert_eq!(store.avg_fps_millis(), RATE_UNBOUNDED);
    // one sample that took a nanosecond ends it
    store.record(worked(1, 0));
    assert_eq!(store.avg_frametime(), 0);
    store.record(worked(3, 0));
    assert_eq!(store.avg_frametime(), 1);
    assert_eq!(store.avg_fps(), 1_000_000_000);
}

#[test]
fn recent_returns_the_last_samples_in_order() {
    let mut store = FrameSampleStore::new();
    for ms in 1..=5u64 {
        store.record(displayed(ms));
    }
    let last_two = store.recent(2);
    assert_eq!(last_two, vec![(0, displayed(4)), (1, displayed(5))]);
    let all = store.recent(5);
    assert_eq!(all.len(), 5);
    assert_eq!(all[0], (0, displayed(1)));
    assert_eq!(all[4], (4, displayed(5)));
}

#[test]
fn recent_gives_all_when_fewer_are_held() {
    let mut store = FrameSampleStore::new();
    store.record(displayed(1));
    store.record(displayed(2));
    let got = store.recent(120);
    assert_eq!(got, vec![(0, displayed(1)), (1, displayed(2))]);
    assert_eq!(store.recent(usize::MAX).len(), 2);
    assert_eq!(store.recent(0), vec![]);
}

#[test]
fn recent_ends_with_the_latest_record() {
    let mut store = FrameSampleStore::new();
    for ms in 1..=250u64 {
        store.record(displayed(ms));
        for n in [1usize, 2, 50, 100, 101, 1000] {
            let got = store.recent(n);
            assert_eq!(got.len(), n.min(store.len()));
            assert_eq!(got[got.len() - 1].1, displayed(ms));
            for (k, (index, _)) in got.iter().enumerate() {
                assert_eq!(*index, k);
            }
        }
    }
}

#[test]
fn window_drops_the_oldest_sample() {
    let mut store = FrameSampleStore::new();
    for ms in 1..=(WINDOW_SIZE as u64) {
        store.record(displayed(ms));
    }
    assert_eq!(store.len(), WINDOW_SIZE);
    assert_eq!(store.min_time_to_display(), MS);
    store.record(displayed(500));
    assert_eq!(store.len(), WINDOW_SIZE);
    assert_eq!(store.min_time_to_display(), 2 * MS);
    assert_eq!(store.max_time_to_display(), 500 * MS);
    let all = store.recent(WINDOW_SIZE);
    assert_eq!(all[0], (0, displayed(2)));
    assert_eq!(all[WINDOW_SIZE - 2], (WINDOW_SIZE - 2, displayed(100)));
    assert_eq!(all[WINDOW_SIZE - 1], (WINDOW_SIZE - 1, displayed(500)));
}

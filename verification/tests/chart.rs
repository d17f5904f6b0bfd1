use frame_overlay::chart::{
    build_chart, normalize, sample_amount, series, Bar, Category, CHART_HEIGHT, DISPLAY_COLOR,
    ELEMENTS_COLOR, FULL_HEIGHT, RENDER_COLOR, SCREENCOPY_COLOR,
};
use frame_overlay::frame::Frame;
use frame_overlay::store::FrameSampleStore;

const MS: u64 = 1_000_000;

#[test]
fn amount_is_twice_the_frame_rate() {
    assert_eq!(sample_amount(60), 120);
    assert_eq!(sample_amount(0), 0);
    assert_eq!(sample_amount(1), 2);
    assert_eq!(sample_amount(144), 288);
    assert_eq!(sample_amount(1_000_000_000), 2_000_000_000);
}

#[test]
fn amount_saturates() {
    assert_eq!(sample_amount(u64::MAX), usize::MAX);
    assert_eq!(sample_amount(u64::MAX / 2 + 1), usize::MAX);
}

#[test]
fn normalize_middle_of_three_frames() {
    let mut store = FrameSampleStore::new();
    for ms in [10u64, 20, 30] {
        store.record(Frame {
            duration_elements: 0,
            duration_render: 0,
            duration_screencopy: None,
            duration_displayed: ms * MS,
        });
    }
    let lo = store.min_time_to_display();
    let hi = store.max_time_to_display();
    assert_eq!(lo, 10 * MS);
    assert_eq!(hi, 30 * MS);
    assert_eq!(normalize(20 * MS, lo, hi), 128);
    assert_eq!(normalize(10 * MS, lo, hi), 0);
    assert_eq!(normalize(30 * MS, lo, hi), 255);
}

#[test]
fn normalize_single_frame_falls_back_to_zero() {
    let mut store = FrameSampleStore::new();
    let frame = Frame {
        duration_elements: 2 * MS,
        duration_render: 3 * MS,
        duration_screencopy: Some(MS),
        duration_displayed: 16 * MS,
    };
    store.record(frame);
    let lo = store.min_time_to_display();
    let hi = store.max_time_to_display();
    assert_eq!(lo, hi);
    assert_eq!(normalize(frame.duration_displayed, lo, hi), 0);
    assert_eq!(normalize(frame.duration_elements, lo, hi), 0);
    assert_eq!(normalize(u64::MAX, lo, hi), 0);
    assert_eq!(normalize(0, 0, 0), 0);
}

#[test]
fn normalize_clamps_outside_the_range() {
    assert_eq!(normalize(0, 10, 20), 0);
    assert_eq!(normalize(9, 10, 20), 0);
    assert_eq!(normalize(21, 10, 20), 255);
    assert_eq!(normalize(u64::MAX, 10, 20), 255);
    assert_eq!(normalize(15, 20, 10), 0);
}

#[test]
fn normalize_exact_values() {
    assert_eq!(normalize(1, 0, 255), 1);
    assert_eq!(normalize(254, 0, 255), 254);
    assert_eq!(normalize(1, 0, 2), 128);
    assert_eq!(normalize(1, 0, 3), 85);
    assert_eq!(normalize(2, 0, 3), 170);
    assert_eq!(normalize(1, 0, 1000), 0);
    assert_eq!(normalize(2, 0, 1000), 1);
    assert_eq!(normalize(u64::MAX - 1, 0, u64::MAX), 255);
    assert_eq!(normalize(u64::MAX / 2, 0, u64::MAX), 127);
    assert_eq!(normalize(u64::MAX / 2 + 1, 0, u64::MAX), 128);
}

#[test]
fn normalize_is_monotonic_and_bounded() {
    let lo: u64 = 1_000;
    let hi: u64 = 1_777;
    let mut last: u8 = 0;
    let mut value: u64 = 900;
    while value <= 1_900 {
        let out = normalize(value, lo, hi);
        assert!(out >= last);
        assert!(out <= FULL_HEIGHT);
        last = out;
        value += 1;
    }
    assert_eq!(last, 255);
}

#[test]
fn category_colors() {
    assert_eq!(Category::Elements.color(), (70, 198, 115));
    assert_eq!(Category::Render.color(), (29, 114, 58));
    assert_eq!(Category::Screencopy.color(), (253, 178, 39));
    assert_eq!(Category::Displayed.color(), (41, 184, 209));
    assert_eq!(Category::Elements.color(), ELEMENTS_COLOR);
    assert_eq!(Category::Render.color(), RENDER_COLOR);
    assert_eq!(Category::Screencopy.color(), SCREENCOPY_COLOR);
    assert_eq!(Category::Displayed.color(), DISPLAY_COLOR);
}

#[test]
fn category_values() {
    let frame = Frame {
        duration_elements: 1,
        duration_render: 2,
        duration_screencopy: Some(3),
        duration_displayed: 4,
    };
    assert_eq!(Category::Elements.value(&frame), 1);
    assert_eq!(Category::Render.value(&frame), 2);
    assert_eq!(Category::Screencopy.value(&frame), 3);
    assert_eq!(Category::Displayed.value(&frame), 4);
    let plain = Frame { duration_screencopy: None, ..frame };
    assert_eq!(Category::Screencopy.value(&plain), 0);
}

#[test]
fn series_has_one_bar_per_sample() {
    let samples = vec![
        (
            0usize,
            Frame {
                duration_elements: 10,
                duration_render: 20,
                duration_screencopy: None,
                duration_displayed: 10,
            },
        ),
        (
            1usize,
            Frame {
                duration_elements: 15,
                duration_render: 5,
                duration_screencopy: Some(30),
                duration_displayed: 30,
            },
        ),
    ];
    let got = series(&samples, Category::Render, 10, 30);
    assert_eq!(got.category, Category::Render);
    assert_eq!(got.bars, vec![Bar { x: 0, height: 128 }, Bar { x: 1, height: 0 }]);
    let empty = series(&vec![], Category::Displayed, 10, 30);
    assert_eq!(empty.bars, vec![]);
}

#[test]
fn chart_stacks_the_four_categories_in_order() {
    let samples = vec![
        (
            0usize,
            Frame {
                duration_elements: 10,
                duration_render: 20,
                duration_screencopy: None,
                duration_displayed: 10,
            },
        ),
        (
            1usize,
            Frame {
                duration_elements: 15,
                duration_render: 5,
                duration_screencopy: Some(30),
                duration_displayed: 30,
            },
        ),
    ];
    let chart = build_chart(&samples, 120, 10, 30);
    assert_eq!(chart.amount, 120);
    assert_eq!(chart.height, CHART_HEIGHT);
    assert_eq!(chart.height, 300);
    assert_eq!(chart.series.len(), 4);
    assert_eq!(chart.series[0].category, Category::Elements);
    assert_eq!(chart.series[1].category, Category::Render);
    assert_eq!(chart.series[2].category, Category::Screencopy);
    assert_eq!(chart.series[3].category, Category::Displayed);
    assert_eq!(chart.series[0].bars, vec![Bar { x: 0, height: 0 }, Bar { x: 1, height: 64 }]);
    assert_eq!(chart.series[1].bars, vec![Bar { x: 0, height: 128 }, Bar { x: 1, height: 0 }]);
    assert_eq!(chart.series[2].bars, vec![Bar { x: 0, height: 0 }, Bar { x: 1, height: 255 }]);
    assert_eq!(chart.series[3].bars, vec![Bar { x: 0, height: 0 }, Bar { x: 1, height: 255 }]);
}

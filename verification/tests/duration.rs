use std::time::Duration;

use datafusion_table_providers_quack::duration::duration_text;

#[test]
fn spans_of_time_are_written_as_std_writes_them() {
    for secs in [0, 1, 9, 10, 59, 300, 3600, u64::MAX] {
        for nanos in [
            0, 1, 9, 10, 999, 1_000, 1_001, 1_500, 10_000, 999_999, 1_000_000, 1_000_001, 1_050_000,
            10_000_000, 100_000_000, 123_456_789, 500_000_000, 999_999_999,
        ] {
            let duration = Duration::new(secs, nanos);
            assert_eq!(duration_text(&duration), format!("{duration:?}"));
        }
    }
    let mut nanos: u64 = 1;
    while nanos < 1 << 60 {
        for near in [nanos - 1, nanos, nanos + 1, nanos * 7] {
            let duration = Duration::from_nanos(near);
            assert_eq!(duration_text(&duration), format!("{duration:?}"));
        }
        nanos *= 2;
    }
}

#[test]
fn the_largest_unit_is_used() {
    assert_eq!(duration_text(&Duration::from_secs(30)), "30s");
    assert_eq!(duration_text(&Duration::from_millis(1500)), "1.5s");
    assert_eq!(duration_text(&Duration::from_millis(20)), "20ms");
    assert_eq!(duration_text(&Duration::from_nanos(1_050)), "1.05\u{b5}s");
    assert_eq!(duration_text(&Duration::from_nanos(999)), "999ns");
    assert_eq!(duration_text(&Duration::from_secs(0)), "0ns");
}

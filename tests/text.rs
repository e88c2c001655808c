use timer::text::format_clock;
use timer::{completion_line, completion_summary, InternalState};

#[test]
fn format_time_pads_fields() {
    assert_eq!(InternalState::format_time(3661), "01:01:01");
    assert_eq!(InternalState::format_time(0), "00:00:00");
    assert_eq!(InternalState::format_time(59), "00:00:59");
    assert_eq!(InternalState::format_time(77), "00:01:17");
    assert_eq!(InternalState::format_time(86399), "23:59:59");
}

#[test]
fn format_time_hours_grow() {
    assert_eq!(InternalState::format_time(360000), "100:00:00");
    assert_eq!(InternalState::format_time(123 * 3600 + 4 * 60 + 5), "123:04:05");
}

#[test]
fn format_time_fields_round_trip() {
    for h in [0u64, 1, 9, 10, 99, 250] {
        for m in [0u64, 7, 59] {
            for s in [0u64, 30, 59] {
                let expect = format!("{:02}:{:02}:{:02}", h, m, s);
                assert_eq!(InternalState::format_time(h * 3600 + m * 60 + s), expect);
            }
        }
    }
}

#[test]
fn clock_text() {
    assert_eq!(format_clock(9, 5, 7), "09:05:07");
    assert_eq!(format_clock(23, 59, 0), "23:59:00");
}

#[test]
fn current_time_is_clock_shaped() {
    let t = InternalState::current_time();
    let b = t.as_bytes();
    assert_eq!(b.len(), 8);
    assert_eq!(b[2], b':');
    assert_eq!(b[5], b':');
    let h: u32 = t[0..2].parse().unwrap();
    let m: u32 = t[3..5].parse().unwrap();
    let s: u32 = t[6..8].parse().unwrap();
    assert!(h < 24 && m < 60 && s < 60);
}

#[test]
fn completion_texts() {
    assert_eq!(completion_summary("12:34:56"), "Timer completed at 12:34:56");
    assert_eq!(completion_line("12:34:56"), "\rTimer completed at 12:34:56");
}

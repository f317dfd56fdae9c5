use broquest::history::format_relative_time;

#[test]
fn relative_times() {
    let now = 1_709_632_800;
    assert_eq!(format_relative_time(now, now - 59), "just now");
    assert_eq!(format_relative_time(now, now + 30), "just now");
    assert_eq!(format_relative_time(now, now - 60), "1m ago");
    assert_eq!(format_relative_time(now, now - 3599), "59m ago");
    assert_eq!(format_relative_time(now, now - 7200), "2h ago");
    assert_eq!(format_relative_time(now, now - 86400 * 3 - 5), "3d ago");
    assert_eq!(format_relative_time(now, now - 86400 * 8), "2024-02-26");
}

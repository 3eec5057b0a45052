use fridge_monitor::status::{
    forward_line, mem_usage_label, network_bits, resolution_label, row_count, InterfaceTraffic,
};
use fridge_monitor::text::{contains, decimal_text, starts_with};

fn line(text: &str) -> Option<String> {
    Some(text.to_string())
}

#[test]
fn noise_is_dropped() {
    assert_eq!(forward_line(line("ICU4X data error")), None);
    assert_eq!(forward_line(line("[w] ICU4X data error: missing locale")), None);
}

#[test]
fn other_lines_pass() {
    assert_eq!(forward_line(line("ICU4X data erro")), line("ICU4X data erro"));
    assert_eq!(forward_line(line("icu4x data error")), line("icu4x data error"));
    assert_eq!(forward_line(line("")), line(""));
    assert_eq!(forward_line(line("解码失败")), line("解码失败"));
}

#[test]
fn unreadable_line_is_dropped() {
    assert_eq!(forward_line(None), None);
}

#[test]
fn runs_of_lines_keep_their_order() {
    let lines = vec![line("a"), None, line("x ICU4X data error y"), line("b"), line("c")];
    let kept: Vec<String> = lines.into_iter().filter_map(forward_line).collect();
    assert_eq!(kept, vec!["a", "b", "c"]);
}

#[test]
fn text_is_searched() {
    assert!(contains("aab", "ab"));
    assert!(contains("abc", ""));
    assert!(contains("", ""));
    assert!(!contains("", "a"));
    assert!(!contains("ab", "abc"));
    assert!(contains("冷藏室温度", "室温"));
}

#[test]
fn prefixes_are_found() {
    assert!(starts_with("rtsp://host", "rtsp://"));
    assert!(!starts_with("rtmp://host", "rtsp://"));
    assert!(!starts_with("rtsp:/", "rtsp://"));
    assert!(starts_with("x", ""));
}

#[test]
fn numbers_are_written_in_decimal() {
    for value in [0u64, 7, 9, 10, 99, 100, 1203, 65536, u64::MAX] {
        assert_eq!(decimal_text(value), value.to_string());
        assert_eq!(decimal_text(value).parse::<u64>().unwrap(), value);
    }
}

#[test]
fn memory_is_shown_in_whole_mebibytes() {
    assert_eq!(mem_usage_label(0), "0MB");
    assert_eq!(mem_usage_label(1024 * 1024 - 1), "0MB");
    assert_eq!(mem_usage_label(1024 * 1024), "1MB");
    assert_eq!(mem_usage_label(8_589_934_592), "8192MB");
    assert_eq!(mem_usage_label(u64::MAX), "17592186044415MB");
}

#[test]
fn resolution_is_width_by_height() {
    assert_eq!(resolution_label(1920, 1080), "1920x1080");
    assert_eq!(resolution_label(0, u32::MAX), "0x4294967295");
}

#[test]
fn counts_keep_their_low_bits() {
    assert_eq!(row_count(0), 0);
    assert_eq!(row_count(6), 6);
    assert_eq!(row_count(0x7fff_ffff), i32::MAX);
    assert_eq!(row_count(0x8000_0000), i32::MIN);
    assert_eq!(row_count(0x1_0000_0005), 5);
}

fn traffic(received: u64, transmitted: u64) -> InterfaceTraffic {
    InterfaceTraffic { received, transmitted }
}

#[test]
fn traffic_is_summed_in_bits() {
    assert_eq!(network_bits(&Vec::new()), Some(0));
    assert_eq!(network_bits(&vec![traffic(1, 2), traffic(10, 20)]), Some(264));
}

#[test]
fn traffic_does_not_depend_on_order() {
    let one = vec![traffic(1, 2), traffic(10, 20), traffic(5, 0)];
    let other = vec![traffic(5, 0), traffic(1, 2), traffic(10, 20)];
    assert_eq!(network_bits(&one), network_bits(&other));
    assert_eq!(network_bits(&one), Some(304));
}

#[test]
fn traffic_beyond_the_range_is_refused() {
    let most = u64::MAX / 8;
    assert_eq!(network_bits(&vec![traffic(most, 0)]), Some(most * 8));
    assert_eq!(network_bits(&vec![traffic(most, 1)]), None);
    assert_eq!(network_bits(&vec![traffic(u64::MAX, 0), traffic(1, 0)]), None);
    assert_eq!(network_bits(&vec![traffic(0, u64::MAX), traffic(0, 1)]), None);
    assert_eq!(network_bits(&vec![traffic(u64::MAX, u64::MAX)]), None);
}

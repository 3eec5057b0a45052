use fridge_monitor::events::{
    demo_alarms, demo_logs, log_stream_error, stream_error_log, ALARM_SNAPSHOT_URL,
    LOG_SNAPSHOT_URL,
};
use fridge_monitor::picture::decode_image_bytes;
use fridge_monitor::status::row_count;

#[test]
fn demo_events_use_refrigerator_context() {
    let logs = demo_logs(slint::Image::default());
    let alarms = demo_alarms(slint::Image::default());

    assert!(logs.iter().any(|log| log.message.contains("冷藏室")));
    assert!(logs.iter().any(|log| log.detail.contains("压缩机")));
    assert!(alarms.iter().any(|alarm| alarm.message.contains("门")));
    assert!(alarms.iter().any(|alarm| alarm.detail.contains("温度")));
}

#[test]
fn demo_logs_run_through_the_morning() {
    let logs = demo_logs(slint::Image::default());
    let heads: Vec<(&str, &str)> = logs
        .iter()
        .map(|log| (log.time.as_str(), log.level.as_str()))
        .collect();
    assert_eq!(
        heads,
        vec![
            ("08:30:02", "INFO"),
            ("08:42:18", "INFO"),
            ("09:05:41", "DEBUG"),
            ("09:21:07", "INFO"),
            ("10:00:00", "INFO"),
            ("10:18:33", "WARN"),
        ]
    );
    assert_eq!(logs[0].message, "冷藏室温度稳定在 3.8C");
    assert_eq!(
        logs[3].detail,
        "左侧展示门关闭到位，门封压力正常，未检测到冷气泄漏趋势。"
    );
    assert!(logs.iter().all(|log| log.image_url == LOG_SNAPSHOT_URL));
}

#[test]
fn demo_alarms_have_level_and_status() {
    let alarms = demo_alarms(slint::Image::default());
    let heads: Vec<(&str, &str, &str)> = alarms
        .iter()
        .map(|alarm| (alarm.time.as_str(), alarm.level.as_str(), alarm.status.as_str()))
        .collect();
    assert_eq!(
        heads,
        vec![
            ("10:22:15", "高危", "未处理"),
            ("10:19:48", "中危", "未处理"),
            ("09:58:02", "中危", "处理中"),
            ("09:33:27", "低危", "已处理"),
            ("08:47:10", "低危", "已处理"),
        ]
    );
    assert_eq!(alarms[4].message, "冷凝器清洁周期提醒");
    assert!(alarms.iter().all(|alarm| alarm.image_url == ALARM_SNAPSHOT_URL));
}

#[test]
fn demo_entries_show_the_snapshot() {
    let snapshot = decode_image_bytes(b"P6\n1 1\n255\n\x0a\x0b\x0c").unwrap();
    for log in demo_logs(snapshot.clone()) {
        assert_eq!(log.snapshot.to_rgba8().unwrap().as_bytes(), &[10, 11, 12, 255]);
    }
    for alarm in demo_alarms(snapshot) {
        assert_eq!(alarm.snapshot.to_rgba8().unwrap().as_bytes(), &[10, 11, 12, 255]);
    }
}

#[test]
fn stream_error_is_described() {
    let log = stream_error_log("2024-05-06 07:08:09".to_string(), "timed out");
    assert_eq!(log.time, "2024-05-06 07:08:09");
    assert_eq!(log.level, "ERROR");
    assert_eq!(log.message, "柜内摄像头画面中断");
    assert_eq!(
        log.detail,
        "冷柜 A-01 的柜内摄像头连接异常，温控、门磁、压缩机等传感器数据仍在继续采集。原始错误: timed out"
    );
    assert_eq!(log.image_url, "");
    assert!(log.snapshot.to_rgba8().is_none());
    assert_eq!(log.snapshot.size().width, 0);
    assert_eq!(log.snapshot.size().height, 0);
}

#[test]
fn stream_errors_come_first_newest_on_top() {
    let logs = demo_logs(slint::Image::default());
    let logs = log_stream_error(logs, "t1".to_string(), "first");
    let logs = log_stream_error(logs, "t2".to_string(), "second");
    assert_eq!(logs.len(), 8);
    assert_eq!(row_count(logs.len()), 8);
    assert_eq!(logs[0].time, "t2");
    assert!(logs[0].detail.ends_with("second"));
    assert_eq!(logs[1].time, "t1");
    assert!(logs[1].detail.ends_with("first"));
    assert_eq!(logs[2].time, "08:30:02");
    assert_eq!(logs[7].time, "10:18:33");
}

#[test]
fn stream_error_opens_an_empty_log() {
    let logs = log_stream_error(Vec::new(), "t".to_string(), "");
    assert_eq!(logs.len(), 1);
    assert_eq!(logs[0].level, "ERROR");
}

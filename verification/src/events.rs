//! The log and the alarm list of the refrigerated cabinet.

use crate::pixels::{image_pixels, no_pixels, PixelGrid};
use crate::text::has_part;
use vstd::prelude::*;
use vstd::string::StringExecFns;

verus! {

/// Where the snapshot of a log entry comes from.
pub const LOG_SNAPSHOT_URL: &'static str = "https://picsum.photos/seed/fridge-log/720/405";

/// Where the snapshot of an alarm comes from.
pub const ALARM_SNAPSHOT_URL: &'static str = "https://picsum.photos/seed/fridge-alarm/720/405";

/// An entry of the log.
pub struct LogMessage {
    pub time: String,
    pub level: String,
    pub message: String,
    pub detail: String,
    pub image_url: String,
    pub snapshot: slint::Image,
}

/// What a log entry says and shows.
#[verifier::ext_equal]
pub struct LogView {
    pub time: Seq<char>,
    pub level: Seq<char>,
    pub message: Seq<char>,
    pub detail: Seq<char>,
    pub image_url: Seq<char>,
    pub snapshot: PixelGrid,
}

impl View for LogMessage {
    type V = LogView;

    open spec fn view(&self) -> LogView {
        LogView {
            time: self.time@,
            level: self.level@,
            message: self.message@,
            detail: self.detail@,
            image_url: self.image_url@,
            snapshot: image_pixels(self.snapshot),
        }
    }
}

/// An entry of the alarm list.
pub struct AlarmMessage {
    pub time: String,
    pub level: String,
    pub message: String,
    pub status: String,
    pub detail: String,
    pub image_url: String,
    pub snapshot: slint::Image,
}

/// What an alarm says and shows.
#[verifier::ext_equal]
pub struct AlarmView {
    pub time: Seq<char>,
    pub level: Seq<char>,
    pub message: Seq<char>,
    pub status: Seq<char>,
    pub detail: Seq<char>,
    pub image_url: Seq<char>,
    pub snapshot: PixelGrid,
}

impl View for AlarmMessage {
    type V = AlarmView;

    open spec fn view(&self) -> AlarmView {
        AlarmView {
            time: self.time@,
            level: self.level@,
            message: self.message@,
            status: self.status@,
            detail: self.detail@,
            image_url: self.image_url@,
            snapshot: image_pixels(self.snapshot),
        }
    }
}

/// What the entries of a log say and show, in order.
pub open spec fn log_views(logs: Seq<LogMessage>) -> Seq<LogView> {
    logs.map_values(|log: LogMessage| log@)
}

/// What the alarms of a list say and show, in order.
pub open spec fn alarm_views(alarms: Seq<AlarmMessage>) -> Seq<AlarmView> {
    alarms.map_values(|alarm: AlarmMessage| alarm@)
}

/// What entries say and show is every field of theirs, entry by entry.
pub proof fn law_views_keep_every_field(
    logs: Seq<LogMessage>,
    alarms: Seq<AlarmMessage>,
    i: int,
    j: int,
)
    requires
        0 <= i < logs.len(),
        0 <= j < alarms.len(),
    ensures
        log_views(logs).len() == logs.len(),
        log_views(logs)[i].time == logs[i].time@,
        log_views(logs)[i].level == logs[i].level@,
        log_views(logs)[i].message == logs[i].message@,
        log_views(logs)[i].detail == logs[i].detail@,
        log_views(logs)[i].image_url == logs[i].image_url@,
        log_views(logs)[i].snapshot == image_pixels(logs[i].snapshot),
        alarm_views(alarms).len() == alarms.len(),
        alarm_views(alarms)[j].time == alarms[j].time@,
        alarm_views(alarms)[j].level == alarms[j].level@,
        alarm_views(alarms)[j].message == alarms[j].message@,
        alarm_views(alarms)[j].status == alarms[j].status@,
        alarm_views(alarms)[j].detail == alarms[j].detail@,
        alarm_views(alarms)[j].image_url == alarms[j].image_url@,
        alarm_views(alarms)[j].snapshot == image_pixels(alarms[j].snapshot),
{
}

/// A log entry with the log snapshot.
pub open spec fn demo_log_view(
    time: Seq<char>,
    level: Seq<char>,
    message: Seq<char>,
    detail: Seq<char>,
    snapshot: PixelGrid,
) -> LogView {
    LogView { time, level, message, detail, image_url: LOG_SNAPSHOT_URL@, snapshot }
}

/// An alarm with the alarm snapshot.
pub open spec fn demo_alarm_view(
    time: Seq<char>,
    level: Seq<char>,
    message: Seq<char>,
    status: Seq<char>,
    detail: Seq<char>,
    snapshot: PixelGrid,
) -> AlarmView {
    AlarmView { time, level, message, status, detail, image_url: ALARM_SNAPSHOT_URL@, snapshot }
}

/// The log that the screen starts with, oldest entry first.
pub open spec fn demo_log_views(snapshot: PixelGrid) -> Seq<LogView> {
    seq![
        demo_log_view(
            "08:30:02"@,
            "INFO"@,
            "冷藏室温度稳定在 3.8C"@,
            "冷藏室最近 15 分钟温度波动范围 3.6C - 4.0C，压缩机按节能曲线间歇运行，食品展示区处于正常保鲜状态。"@,
            snapshot,
        ),
        demo_log_view(
            "08:42:18"@,
            "INFO"@,
            "冷冻室温度稳定在 -18.6C"@,
            "冷冻室温度达到设定目标，蒸发器风机运行正常，未检测到异常结霜或传感器漂移。"@,
            snapshot,
        ),
        demo_log_view(
            "09:05:41"@,
            "DEBUG"@,
            "压缩机进入低功耗巡航"@,
            "压缩机连续运行 12 分钟后切换到低功耗巡航，当前电流 1.8A，预计 6 分钟后再次采样判断。"@,
            snapshot,
        ),
        demo_log_view(
            "09:21:07"@,
            "INFO"@,
            "门磁检测: 关门确认"@,
            "左侧展示门关闭到位，门封压力正常，未检测到冷气泄漏趋势。"@,
            snapshot,
        ),
        demo_log_view(
            "10:00:00"@,
            "INFO"@,
            "自动除霜计划完成"@,
            "蒸发器除霜周期结束，回温时间 4 分 20 秒，排水盘液位正常，制冷已恢复。"@,
            snapshot,
        ),
        demo_log_view(
            "10:18:33"@,
            "WARN"@,
            "冷藏室湿度偏高 78%"@,
            "冷藏室湿度高于建议范围，可能与频繁开门或热食放入有关。系统已提高风机转速并持续观察。"@,
            snapshot,
        ),
    ]
}

/// The alarms that the screen starts with, newest first.
pub open spec fn demo_alarm_views(snapshot: PixelGrid) -> Seq<AlarmView> {
    seq![
        demo_alarm_view(
            "10:22:15"@,
            "高危"@,
            "柜门长时间未关闭"@,
            "未处理"@,
            "A-01 左侧展示门已打开 126 秒，冷藏室温度从 3.8C 升至 6.2C。请立即确认门体是否关严，避免食品温度超标。"@,
            snapshot,
        ),
        demo_alarm_view(
            "10:19:48"@,
            "中危"@,
            "冷藏室温度接近上限"@,
            "未处理"@,
            "冷藏室当前温度 7.6C，接近设定上限 8.0C。系统已提升压缩机输出并建议检查门封、装载量和出风口遮挡情况。"@,
            snapshot,
        ),
        demo_alarm_view(
            "09:58:02"@,
            "中危"@,
            "蒸发器结霜偏厚"@,
            "处理中"@,
            "蒸发器温差异常，疑似结霜偏厚。系统已安排一次短除霜周期，完成后复测制冷效率。"@,
            snapshot,
        ),
        demo_alarm_view(
            "09:33:27"@,
            "低危"@,
            "库存托盘摆放遮挡出风口"@,
            "已处理"@,
            "柜内摄像头识别到第二层托盘靠近出风口，可能影响温度均匀性。已记录现场处理结果。"@,
            snapshot,
        ),
        demo_alarm_view(
            "08:47:10"@,
            "低危"@,
            "冷凝器清洁周期提醒"@,
            "已处理"@,
            "冷凝器累计运行 168 小时，达到清洁提醒周期。建议巡检滤网和散热片积尘情况。"@,
            snapshot,
        ),
    ]
}

fn demo_log(time: &str, level: &str, message: &str, detail: &str, snapshot: slint::Image) -> (log:
    LogMessage)
    ensures
        log@ == demo_log_view(time@, level@, message@, detail@, image_pixels(snapshot)),
{
    LogMessage {
        time: String::from_str(time),
        level: String::from_str(level),
        message: String::from_str(message),
        detail: String::from_str(detail),
        image_url: String::from_str(LOG_SNAPSHOT_URL),
        snapshot,
    }
}

fn demo_alarm(
    time: &str,
    level: &str,
    message: &str,
    status: &str,
    detail: &str,
    snapshot: slint::Image,
) -> (alarm: AlarmMessage)
    ensures
        alarm@ == demo_alarm_view(
            time@,
            level@,
            message@,
            status@,
            detail@,
            image_pixels(snapshot),
        ),
{
    AlarmMessage {
        time: String::from_str(time),
        level: String::from_str(level),
        message: String::from_str(message),
        status: String::from_str(status),
        detail: String::from_str(detail),
        image_url: String::from_str(ALARM_SNAPSHOT_URL),
        snapshot,
    }
}

/// The log that the screen starts with.
pub fn demo_logs(snapshot: slint::Image) -> (logs: Vec<LogMessage>)
    ensures
        log_views(logs@) == demo_log_views(image_pixels(snapshot)),
{
    let ghost pixels = image_pixels(snapshot);
    let logs = vec![
        demo_log(
            "08:30:02",
            "INFO",
            "冷藏室温度稳定在 3.8C",
            "冷藏室最近 15 分钟温度波动范围 3.6C - 4.0C，压缩机按节能曲线间歇运行，食品展示区处于正常保鲜状态。",
            snapshot.clone(),
        ),
        demo_log(
            "08:42:18",
            "INFO",
            "冷冻室温度稳定在 -18.6C",
            "冷冻室温度达到设定目标，蒸发器风机运行正常，未检测到异常结霜或传感器漂移。",
            snapshot.clone(),
        ),
        demo_log(
            "09:05:41",
            "DEBUG",
            "压缩机进入低功耗巡航",
            "压缩机连续运行 12 分钟后切换到低功耗巡航，当前电流 1.8A，预计 6 分钟后再次采样判断。",
            snapshot.clone(),
        ),
        demo_log(
            "09:21:07",
            "INFO",
            "门磁检测: 关门确认",
            "左侧展示门关闭到位，门封压力正常，未检测到冷气泄漏趋势。",
            snapshot.clone(),
        ),
        demo_log(
            "10:00:00",
            "INFO",
            "自动除霜计划完成",
            "蒸发器除霜周期结束，回温时间 4 分 20 秒，排水盘液位正常，制冷已恢复。",
            snapshot.clone(),
        ),
        demo_log(
            "10:18:33",
            "WARN",
            "冷藏室湿度偏高 78%",
            "冷藏室湿度高于建议范围，可能与频繁开门或热食放入有关。系统已提高风机转速并持续观察。",
            snapshot,
        ),
    ];
    assert(log_views(logs@) =~= demo_log_views(pixels));
    logs
}

/// The alarms that the screen starts with.
pub fn demo_alarms(snapshot: slint::Image) -> (alarms: Vec<AlarmMessage>)
    ensures
        alarm_views(alarms@) == demo_alarm_views(image_pixels(snapshot)),
{
    let ghost pixels = image_pixels(snapshot);
    let alarms = vec![
        demo_alarm(
            "10:22:15",
            "高危",
            "柜门长时间未关闭",
            "未处理",
            "A-01 左侧展示门已打开 126 秒，冷藏室温度从 3.8C 升至 6.2C。请立即确认门体是否关严，避免食品温度超标。",
            snapshot.clone(),
        ),
        demo_alarm(
            "10:19:48",
            "中危",
            "冷藏室温度接近上限",
            "未处理",
            "冷藏室当前温度 7.6C，接近设定上限 8.0C。系统已提升压缩机输出并建议检查门封、装载量和出风口遮挡情况。",
            snapshot.clone(),
        ),
        demo_alarm(
            "09:58:02",
            "中危",
            "蒸发器结霜偏厚",
            "处理中",
            "蒸发器温差异常，疑似结霜偏厚。系统已安排一次短除霜周期，完成后复测制冷效率。",
            snapshot.clone(),
        ),
        demo_alarm(
            "09:33:27",
            "低危",
            "库存托盘摆放遮挡出风口",
            "已处理",
            "柜内摄像头识别到第二层托盘靠近出风口，可能影响温度均匀性。已记录现场处理结果。",
            snapshot.clone(),
        ),
        demo_alarm(
            "08:47:10",
            "低危",
            "冷凝器清洁周期提醒",
            "已处理",
            "冷凝器累计运行 168 小时，达到清洁提醒周期。建议巡检滤网和散热片积尘情况。",
            snapshot,
        ),
    ];
    assert(alarm_views(alarms@) =~= demo_alarm_views(pixels));
    alarms
}

/// The log entry of a video stream that broke off.
pub open spec fn stream_error_view(time: Seq<char>, error: Seq<char>) -> LogView {
    LogView {
        time,
        level: "ERROR"@,
        message: "柜内摄像头画面中断"@,
        detail: "冷柜 A-01 的柜内摄像头连接异常，温控、门磁、压缩机等传感器数据仍在继续采集。原始错误: "@
            + error,
        image_url: Seq::empty(),
        snapshot: no_pixels(),
    }
}

/// The log entry of a video stream that broke off at `time` with `error`.
pub fn stream_error_log(time: String, error: &str) -> (log: LogMessage)
    ensures
        log@ == stream_error_view(time@, error@),
        log.time@ == time@,
        log.level@ == "ERROR"@,
        log.message@ == "柜内摄像头画面中断"@,
        log.detail@
            == "冷柜 A-01 的柜内摄像头连接异常，温控、门磁、压缩机等传感器数据仍在继续采集。原始错误: "@
            + error@,
        log.image_url@.len() == 0,
        image_pixels(log.snapshot).width == 0,
        image_pixels(log.snapshot).height == 0,
{
    let mut detail = String::from_str(
        "冷柜 A-01 的柜内摄像头连接异常，温控、门磁、压缩机等传感器数据仍在继续采集。原始错误: ",
    );
    detail.append(error);
    LogMessage {
        time,
        level: String::from_str("ERROR"),
        message: String::from_str("柜内摄像头画面中断"),
        detail,
        image_url: String::new(),
        snapshot: Default::default(),
    }
}

/// The entry on a break says when it was and with which error, whatever these
/// are, and shows no picture.
pub proof fn law_stream_error_says_when_and_why(time: Seq<char>, error: Seq<char>)
    ensures
        stream_error_view(time, error).time == time,
        stream_error_view(time, error).level == "ERROR"@,
        stream_error_view(time, error).message == "柜内摄像头画面中断"@,
        stream_error_view(time, error).detail
            == "冷柜 A-01 的柜内摄像头连接异常，温控、门磁、压缩机等传感器数据仍在继续采集。原始错误: "@
            + error,
        stream_error_view(time, error).image_url.len() == 0,
        stream_error_view(time, error).snapshot.width == 0,
        stream_error_view(time, error).snapshot.height == 0,
        stream_error_view(time, error).snapshot.bytes.len() == 0,
{
}

/// A log with the entry on a break put first.
pub open spec fn with_stream_error(
    logs: Seq<LogView>,
    time: Seq<char>,
    error: Seq<char>,
) -> Seq<LogView> {
    seq![stream_error_view(time, error)] + logs
}

/// The log after a video stream broke off: the entry on it comes first, the
/// others follow as they were.
pub fn log_stream_error(logs: Vec<LogMessage>, time: String, error: &str) -> (updated: Vec<
    LogMessage,
>)
    ensures
        updated@.len() == logs@.len() + 1,
        updated@[0]@ == stream_error_view(time@, error@),
        updated@.skip(1) == logs@,
        log_views(updated@) == with_stream_error(log_views(logs@), time@, error@),
{
    let mut updated = logs;
    updated.insert(0, stream_error_log(time, error));
    assert(updated@.skip(1) =~= logs@);
    assert(log_views(updated@) =~= with_stream_error(log_views(logs@), time@, error@));
    updated
}

/// The log after a run of breaks, each with its time and its error.
pub open spec fn after_stream_errors(
    logs: Seq<LogView>,
    errors: Seq<(Seq<char>, Seq<char>)>,
) -> Seq<LogView>
    decreases errors.len(),
{
    if errors.len() == 0 {
        logs
    } else {
        with_stream_error(
            after_stream_errors(logs, errors.drop_last()),
            errors.last().0,
            errors.last().1,
        )
    }
}

/// After a run of breaks the log holds one entry for each, newest first, and
/// then what it held before.
pub proof fn law_stream_errors_are_logged_newest_first(
    logs: Seq<LogView>,
    errors: Seq<(Seq<char>, Seq<char>)>,
)
    ensures
        after_stream_errors(logs, errors).len() == errors.len() + logs.len(),
        forall|i: int|
            0 <= i < errors.len() ==> #[trigger] after_stream_errors(logs, errors)[i]
                == stream_error_view(
                errors[errors.len() - 1 - i].0,
                errors[errors.len() - 1 - i].1,
            ),
        after_stream_errors(logs, errors).skip(errors.len() as int) == logs,
    decreases errors.len(),
{
    if errors.len() == 0 {
        assert(logs.skip(0) =~= logs);
    } else {
        let earlier = after_stream_errors(logs, errors.drop_last());
        law_stream_errors_are_logged_newest_first(logs, errors.drop_last());
        assert forall|i: int| 0 <= i < errors.len() implies #[trigger] after_stream_errors(
            logs,
            errors,
        )[i] == stream_error_view(
            errors[errors.len() - 1 - i].0,
            errors[errors.len() - 1 - i].1,
        ) by {
            if i > 0 {
                assert(after_stream_errors(logs, errors)[i] == earlier[i - 1]);
            }
        }
        assert(after_stream_errors(logs, errors).skip(errors.len() as int) =~= earlier.skip(
            errors.len() - 1,
        ));
    }
}

/// Whatever the snapshot is, the first log tells of a morning in six entries.
pub proof fn law_demo_log_tells_of_a_morning(snapshot: PixelGrid)
    ensures
        demo_log_views(snapshot).len() == 6,
        demo_log_views(snapshot)[0].time == "08:30:02"@,
        demo_log_views(snapshot)[0].level == "INFO"@,
        demo_log_views(snapshot)[0].message == "冷藏室温度稳定在 3.8C"@,
        demo_log_views(snapshot)[0].detail
            == "冷藏室最近 15 分钟温度波动范围 3.6C - 4.0C，压缩机按节能曲线间歇运行，食品展示区处于正常保鲜状态。"@,
        demo_log_views(snapshot)[1].time == "08:42:18"@,
        demo_log_views(snapshot)[1].level == "INFO"@,
        demo_log_views(snapshot)[1].message == "冷冻室温度稳定在 -18.6C"@,
        demo_log_views(snapshot)[1].detail
            == "冷冻室温度达到设定目标，蒸发器风机运行正常，未检测到异常结霜或传感器漂移。"@,
        demo_log_views(snapshot)[2].time == "09:05:41"@,
        demo_log_views(snapshot)[2].level == "DEBUG"@,
        demo_log_views(snapshot)[2].message == "压缩机进入低功耗巡航"@,
        demo_log_views(snapshot)[2].detail
            == "压缩机连续运行 12 分钟后切换到低功耗巡航，当前电流 1.8A，预计 6 分钟后再次采样判断。"@,
        demo_log_views(snapshot)[3].time == "09:21:07"@,
        demo_log_views(snapshot)[3].level == "INFO"@,
        demo_log_views(snapshot)[3].message == "门磁检测: 关门确认"@,
        demo_log_views(snapshot)[3].detail
            == "左侧展示门关闭到位，门封压力正常，未检测到冷气泄漏趋势。"@,
        demo_log_views(snapshot)[4].time == "10:00:00"@,
        demo_log_views(snapshot)[4].level == "INFO"@,
        demo_log_views(snapshot)[4].message == "自动除霜计划完成"@,
        demo_log_views(snapshot)[4].detail
            == "蒸发器除霜周期结束，回温时间 4 分 20 秒，排水盘液位正常，制冷已恢复。"@,
        demo_log_views(snapshot)[5].time == "10:18:33"@,
        demo_log_views(snapshot)[5].level == "WARN"@,
        demo_log_views(snapshot)[5].message == "冷藏室湿度偏高 78%"@,
        demo_log_views(snapshot)[5].detail
            == "冷藏室湿度高于建议范围，可能与频繁开门或热食放入有关。系统已提高风机转速并持续观察。"@,
        forall|i: int|
            0 <= i < 6 ==> (#[trigger] demo_log_views(snapshot)[i]).image_url
                == "https://picsum.photos/seed/fridge-log/720/405"@,
{
}

/// Whatever the snapshot is, the first alarm list has five alarms, two of them
/// open, one in progress and two done.
pub proof fn law_demo_alarms_have_level_and_status(snapshot: PixelGrid)
    ensures
        demo_alarm_views(snapshot).len() == 5,
        demo_alarm_views(snapshot)[0].time == "10:22:15"@,
        demo_alarm_views(snapshot)[0].level == "高危"@,
        demo_alarm_views(snapshot)[0].message == "柜门长时间未关闭"@,
        demo_alarm_views(snapshot)[0].status == "未处理"@,
        demo_alarm_views(snapshot)[0].detail
            == "A-01 左侧展示门已打开 126 秒，冷藏室温度从 3.8C 升至 6.2C。请立即确认门体是否关严，避免食品温度超标。"@,
        demo_alarm_views(snapshot)[1].time == "10:19:48"@,
        demo_alarm_views(snapshot)[1].level == "中危"@,
        demo_alarm_views(snapshot)[1].message == "冷藏室温度接近上限"@,
        demo_alarm_views(snapshot)[1].status == "未处理"@,
        demo_alarm_views(snapshot)[1].detail
            == "冷藏室当前温度 7.6C，接近设定上限 8.0C。系统已提升压缩机输出并建议检查门封、装载量和出风口遮挡情况。"@,
        demo_alarm_views(snapshot)[2].time == "09:58:02"@,
        demo_alarm_views(snapshot)[2].level == "中危"@,
        demo_alarm_views(snapshot)[2].message == "蒸发器结霜偏厚"@,
        demo_alarm_views(snapshot)[2].status == "处理中"@,
        demo_alarm_views(snapshot)[2].detail
            == "蒸发器温差异常，疑似结霜偏厚。系统已安排一次短除霜周期，完成后复测制冷效率。"@,
        demo_alarm_views(snapshot)[3].time == "09:33:27"@,
        demo_alarm_views(snapshot)[3].level == "低危"@,
        demo_alarm_views(snapshot)[3].message == "库存托盘摆放遮挡出风口"@,
        demo_alarm_views(snapshot)[3].status == "已处理"@,
        demo_alarm_views(snapshot)[3].detail
            == "柜内摄像头识别到第二层托盘靠近出风口，可能影响温度均匀性。已记录现场处理结果。"@,
        demo_alarm_views(snapshot)[4].time == "08:47:10"@,
        demo_alarm_views(snapshot)[4].level == "低危"@,
        demo_alarm_views(snapshot)[4].message == "冷凝器清洁周期提醒"@,
        demo_alarm_views(snapshot)[4].status == "已处理"@,
        demo_alarm_views(snapshot)[4].detail
            == "冷凝器累计运行 168 小时，达到清洁提醒周期。建议巡检滤网和散热片积尘情况。"@,
        forall|i: int|
            0 <= i < 5 ==> (#[trigger] demo_alarm_views(snapshot)[i]).image_url
                == "https://picsum.photos/seed/fridge-alarm/720/405"@,
{
}

proof fn lemma_part_at(text: Seq<char>, part: Seq<char>, at: int)
    requires
        0 <= at <= text.len() - part.len(),
        text.subrange(at, at + part.len()) == part,
    ensures
        has_part(text, part),
{
}

/// Whatever the snapshot is, the first entries speak of a refrigerated cabinet:
/// of its cold room and compressor in the log, of its door and temperature in
/// the alarms.
pub proof fn law_demo_events_use_refrigerator_context(snapshot: PixelGrid)
    ensures
        exists|i: int|
            0 <= i < demo_log_views(snapshot).len() && has_part(
                (#[trigger] demo_log_views(snapshot)[i]).message,
                "冷藏室"@,
            ),
        exists|i: int|
            0 <= i < demo_log_views(snapshot).len() && has_part(
                (#[trigger] demo_log_views(snapshot)[i]).detail,
                "压缩机"@,
            ),
        exists|i: int|
            0 <= i < demo_alarm_views(snapshot).len() && has_part(
                (#[trigger] demo_alarm_views(snapshot)[i]).message,
                "门"@,
            ),
        exists|i: int|
            0 <= i < demo_alarm_views(snapshot).len() && has_part(
                (#[trigger] demo_alarm_views(snapshot)[i]).detail,
                "温度"@,
            ),
{
    reveal_strlit("冷藏室");
    reveal_strlit("压缩机");
    reveal_strlit("门");
    reveal_strlit("温度");
    reveal_strlit("冷藏室温度稳定在 3.8C");
    reveal_strlit(
        "冷藏室最近 15 分钟温度波动范围 3.6C - 4.0C，压缩机按节能曲线间歇运行，食品展示区处于正常保鲜状态。",
    );
    reveal_strlit("柜门长时间未关闭");
    reveal_strlit(
        "A-01 左侧展示门已打开 126 秒，冷藏室温度从 3.8C 升至 6.2C。请立即确认门体是否关严，避免食品温度超标。",
    );
    let log = demo_log_views(snapshot)[0];
    let alarm = demo_alarm_views(snapshot)[0];
    assert(log.message.subrange(0, 3) =~= "冷藏室"@);
    lemma_part_at(log.message, "冷藏室"@, 0);
    assert(log.detail.subrange(30, 33) =~= "压缩机"@);
    lemma_part_at(log.detail, "压缩机"@, 30);
    assert(alarm.message.subrange(1, 2) =~= "门"@);
    lemma_part_at(alarm.message, "门"@, 1);
    assert(alarm.detail.subrange(23, 25) =~= "温度"@);
    lemma_part_at(alarm.detail, "温度"@, 23);
}

/// Whatever the snapshot is, every entry of the first log and every alarm of
/// the first list shows it and says where it comes from.
pub proof fn law_demo_entries_show_the_snapshot(snapshot: PixelGrid)
    ensures
        forall|i: int|
            0 <= i < demo_log_views(snapshot).len() ==> (#[trigger] demo_log_views(
                snapshot,
            )[i]).snapshot == snapshot && demo_log_views(snapshot)[i].image_url
                == LOG_SNAPSHOT_URL@,
        forall|i: int|
            0 <= i < demo_alarm_views(snapshot).len() ==> (#[trigger] demo_alarm_views(
                snapshot,
            )[i]).snapshot == snapshot && demo_alarm_views(snapshot)[i].image_url
                == ALARM_SNAPSHOT_URL@,
{
}

} // verus!

//! Interface languages and their message tables.

use vstd::prelude::*;

use crate::app::AppError;
use crate::domain::{HealthState, SmartState};
use crate::text::{
    ascii_lowercase, chars_of, has_prefix, lowercase_chars, opt_text, owned, push_str,
    starts_with_chars, chars_equal, trim_chars, trim_text, TrimSet,
};

verus! {

/// A human interface language.
#[derive(Clone, Copy, Debug, Default, PartialEq, Eq)]
pub enum Locale {
    #[default]
    En,
    ZhCn,
}

/// Every human-readable text of the interface, in one language.
#[derive(Clone, Copy, Debug)]
pub struct Messages {
    pub app_about: &'static str,
    pub usage_heading: &'static str,
    pub commands_heading: &'static str,
    pub options_heading: &'static str,
    pub arguments_heading: &'static str,
    pub interval_help: &'static str,
    pub language_help: &'static str,
    pub list_about: &'static str,
    pub show_about: &'static str,
    pub watch_about: &'static str,
    pub json_help: &'static str,
    pub device_help: &'static str,
    pub device: &'static str,
    pub model: &'static str,
    pub capacity: &'static str,
    pub health: &'static str,
    pub smart: &'static str,
    pub id: &'static str,
    pub protocol: &'static str,
    pub connection: &'static str,
    pub reason: &'static str,
    pub error: &'static str,
    pub warning: &'static str,
    pub action: &'static str,
    pub elevate_action: &'static str,
    pub unknown: &'static str,
    pub healthy: &'static str,
    pub warning_health: &'static str,
    pub critical: &'static str,
    pub smart_available: &'static str,
    pub smart_unavailable: &'static str,
    pub disks: &'static str,
    pub overview: &'static str,
    pub session: &'static str,
    pub no_disks: &'static str,
    pub no_temperature_samples: &'static str,
    pub temperature_celsius: &'static str,
    pub footer: &'static str,
    pub refresh_error_prefix: &'static str,
    pub help_help: &'static str,
    pub version_help: &'static str,
    pub device_not_found_prefix: &'static str,
    pub device_not_found_suffix: &'static str,
    pub smart_details: &'static str,
    pub readable_view: &'static str,
    pub raw_json_view: &'static str,
    pub temperature: &'static str,
    pub firmware: &'static str,
    pub serial: &'static str,
    pub metric: &'static str,
    pub value: &'static str,
    pub raw_value: &'static str,
    pub current: &'static str,
    pub attribute: &'static str,
    pub worst: &'static str,
    pub threshold: &'static str,
    pub interpreted: &'static str,
    pub not_available: &'static str,
    pub unknown_attribute: &'static str,
    pub ata_overall_status: &'static str,
    pub passed: &'static str,
    pub failed: &'static str,
    pub not_reported: &'static str,
    pub critical_warning: &'static str,
    pub available_spare: &'static str,
    pub available_spare_threshold: &'static str,
    pub percentage_used: &'static str,
    pub data_units_read: &'static str,
    pub data_units_written: &'static str,
    pub host_read_commands: &'static str,
    pub host_write_commands: &'static str,
    pub controller_busy_time: &'static str,
    pub power_cycles: &'static str,
    pub power_on_hours: &'static str,
    pub unsafe_shutdowns: &'static str,
    pub media_errors: &'static str,
    pub error_log_entries: &'static str,
    pub hours: &'static str,
    pub days: &'static str,
    pub minutes: &'static str,
    pub interface_not_exposed: &'static str,
    pub device_not_smart_capable: &'static str,
    pub unsupported_protocol: &'static str,
    pub unsupported_transport: &'static str,
}

/// The English messages.
pub open spec fn english() -> Messages {
    Messages {
        app_about: "Read-only disk health monitor",
        usage_heading: "Usage:",
        commands_heading: "Commands:",
        options_heading: "Options:",
        arguments_heading: "Arguments:",
        interval_help: "SMART refresh interval in seconds; zero disables scheduled refresh",
        language_help: "Human interface language",
        list_about: "List every discovered physical disk",
        show_about: "Show one disk selected by emitted id or device node",
        watch_about: "Continuously refresh disk information",
        json_help: "Emit the versioned machine-readable snapshot",
        device_help: "Emitted device id, device node, or BSD name",
        device: "Device",
        model: "Model",
        capacity: "Capacity",
        health: "Health",
        smart: "SMART",
        id: "ID",
        protocol: "Protocol",
        connection: "Connection",
        reason: "Reason",
        error: "Error",
        warning: "Warning",
        action: "Action",
        elevate_action: "relaunch with administrator privileges if appropriate.",
        unknown: "Unknown",
        healthy: "Healthy",
        warning_health: "Warning",
        critical: "Critical",
        smart_available: "SMART available",
        smart_unavailable: "SMART unavailable",
        disks: "Disks",
        overview: "Overview",
        session: "Session",
        no_disks: "No physical disks discovered",
        no_temperature_samples: "No temperature samples in this session",
        temperature_celsius: "Temperature °C",
        footer: "q quit | j/k disk | Tab view | r refresh | v SMART view | PgUp/PgDn scroll | interval",
        refresh_error_prefix: "SMART unavailable",
        help_help: "Print help",
        version_help: "Print version",
        device_not_found_prefix: "device selector",
        device_not_found_suffix: "did not match an emitted device id or device node",
        smart_details: "SMART details",
        readable_view: "Readable",
        raw_json_view: "Raw JSON",
        temperature: "Temperature",
        firmware: "Firmware",
        serial: "Serial",
        metric: "Metric",
        value: "Value",
        raw_value: "Raw",
        current: "Current",
        attribute: "Attribute",
        worst: "Worst",
        threshold: "Threshold",
        interpreted: "Interpreted",
        not_available: "N/A",
        unknown_attribute: "Unknown attribute",
        ata_overall_status: "ATA overall status",
        passed: "Passed",
        failed: "Failed",
        not_reported: "Not reported",
        critical_warning: "Critical warning",
        available_spare: "Available spare",
        available_spare_threshold: "Spare threshold",
        percentage_used: "Percentage used",
        data_units_read: "Data read",
        data_units_written: "Data written",
        host_read_commands: "Host read commands",
        host_write_commands: "Host write commands",
        controller_busy_time: "Controller busy time",
        power_cycles: "Power cycles",
        power_on_hours: "Power-on time",
        unsafe_shutdowns: "Unsafe shutdowns",
        media_errors: "Media errors",
        error_log_entries: "Error log entries",
        hours: "hours",
        days: "days",
        minutes: "minutes",
        interface_not_exposed: "the device interface does not expose SMART data",
        device_not_smart_capable: "the device does not report SMART capability",
        unsupported_protocol: "unsupported protocol",
        unsupported_transport: "unsupported transport",
    }
}

/// The Simplified Chinese messages.
pub open spec fn simplified_chinese() -> Messages {
    Messages {
        app_about: "只读磁盘健康监控工具",
        usage_heading: "用法：",
        commands_heading: "命令：",
        options_heading: "选项：",
        arguments_heading: "参数：",
        interval_help: "SMART 刷新间隔（秒）；设为 0 时禁用定时刷新",
        language_help: "人机界面语言",
        list_about: "列出所有已发现的物理磁盘",
        show_about: "按设备 ID 或设备节点显示单个磁盘",
        watch_about: "持续刷新磁盘信息",
        json_help: "输出带版本的机器可读快照",
        device_help: "设备 ID、设备节点或 BSD 名称",
        device: "设备",
        model: "型号",
        capacity: "容量",
        health: "健康状态",
        smart: "SMART",
        id: "ID",
        protocol: "协议",
        connection: "连接",
        reason: "原因",
        error: "错误",
        warning: "警告",
        action: "操作",
        elevate_action: "如确有需要，请使用管理员权限重新运行。",
        unknown: "未知",
        healthy: "健康",
        warning_health: "警告",
        critical: "严重",
        smart_available: "SMART 可用",
        smart_unavailable: "SMART 不可用",
        disks: "磁盘",
        overview: "概览",
        session: "本次会话",
        no_disks: "未发现物理磁盘",
        no_temperature_samples: "本次会话暂无温度样本",
        temperature_celsius: "温度 °C",
        footer: "q 退出 | j/k 硬盘 | Tab 切换 | r 刷新 | v SMART 视图 | PgUp/PgDn 滚动 | 间隔",
        refresh_error_prefix: "SMART 不可用",
        help_help: "显示帮助",
        version_help: "显示版本",
        device_not_found_prefix: "设备选择器",
        device_not_found_suffix: "未匹配任何已列出的设备 ID 或设备节点",
        smart_details: "SMART 详细信息",
        readable_view: "可读视图",
        raw_json_view: "原始 JSON",
        temperature: "温度",
        firmware: "固件",
        serial: "序列号",
        metric: "指标",
        value: "可读值",
        raw_value: "原始值",
        current: "当前值",
        attribute: "属性名称",
        worst: "最差值",
        threshold: "阈值",
        interpreted: "解释值",
        not_available: "不可用",
        unknown_attribute: "未知属性",
        ata_overall_status: "ATA 总体状态",
        passed: "通过",
        failed: "失败",
        not_reported: "未报告",
        critical_warning: "严重警告",
        available_spare: "可用备用空间",
        available_spare_threshold: "备用空间阈值",
        percentage_used: "寿命损耗",
        data_units_read: "读取数据量",
        data_units_written: "写入数据量",
        host_read_commands: "主机读取命令",
        host_write_commands: "主机写入命令",
        controller_busy_time: "控制器忙碌时间",
        power_cycles: "通电次数",
        power_on_hours: "通电时间",
        unsafe_shutdowns: "异常关机次数",
        media_errors: "介质错误",
        error_log_entries: "错误日志条目",
        hours: "小时",
        days: "天",
        minutes: "分钟",
        interface_not_exposed: "设备接口未公开 SMART 数据",
        device_not_smart_capable: "设备未报告 SMART 能力",
        unsupported_protocol: "不支持的协议",
        unsupported_transport: "不支持的传输方式",
    }
}

/// The messages of a locale.
pub open spec fn messages_of(locale: Locale) -> Messages {
    match locale {
        Locale::En => english(),
        Locale::ZhCn => simplified_chinese(),
    }
}

fn english_messages() -> (m: Messages)
    ensures
        m == english(),
{
    Messages {
        app_about: "Read-only disk health monitor",
        usage_heading: "Usage:",
        commands_heading: "Commands:",
        options_heading: "Options:",
        arguments_heading: "Arguments:",
        interval_help: "SMART refresh interval in seconds; zero disables scheduled refresh",
        language_help: "Human interface language",
        list_about: "List every discovered physical disk",
        show_about: "Show one disk selected by emitted id or device node",
        watch_about: "Continuously refresh disk information",
        json_help: "Emit the versioned machine-readable snapshot",
        device_help: "Emitted device id, device node, or BSD name",
        device: "Device",
        model: "Model",
        capacity: "Capacity",
        health: "Health",
        smart: "SMART",
        id: "ID",
        protocol: "Protocol",
        connection: "Connection",
        reason: "Reason",
        error: "Error",
        warning: "Warning",
        action: "Action",
        elevate_action: "relaunch with administrator privileges if appropriate.",
        unknown: "Unknown",
        healthy: "Healthy",
        warning_health: "Warning",
        critical: "Critical",
        smart_available: "SMART available",
        smart_unavailable: "SMART unavailable",
        disks: "Disks",
        overview: "Overview",
        session: "Session",
        no_disks: "No physical disks discovered",
        no_temperature_samples: "No temperature samples in this session",
        temperature_celsius: "Temperature °C",
        footer: "q quit | j/k disk | Tab view | r refresh | v SMART view | PgUp/PgDn scroll | interval",
        refresh_error_prefix: "SMART unavailable",
        help_help: "Print help",
        version_help: "Print version",
        device_not_found_prefix: "device selector",
        device_not_found_suffix: "did not match an emitted device id or device node",
        smart_details: "SMART details",
        readable_view: "Readable",
        raw_json_view: "Raw JSON",
        temperature: "Temperature",
        firmware: "Firmware",
        serial: "Serial",
        metric: "Metric",
        value: "Value",
        raw_value: "Raw",
        current: "Current",
        attribute: "Attribute",
        worst: "Worst",
        threshold: "Threshold",
        interpreted: "Interpreted",
        not_available: "N/A",
        unknown_attribute: "Unknown attribute",
        ata_overall_status: "ATA overall status",
        passed: "Passed",
        failed: "Failed",
        not_reported: "Not reported",
        critical_warning: "Critical warning",
        available_spare: "Available spare",
        available_spare_threshold: "Spare threshold",
        percentage_used: "Percentage used",
        data_units_read: "Data read",
        data_units_written: "Data written",
        host_read_commands: "Host read commands",
        host_write_commands: "Host write commands",
        controller_busy_time: "Controller busy time",
        power_cycles: "Power cycles",
        power_on_hours: "Power-on time",
        unsafe_shutdowns: "Unsafe shutdowns",
        media_errors: "Media errors",
        error_log_entries: "Error log entries",
        hours: "hours",
        days: "days",
        minutes: "minutes",
        interface_not_exposed: "the device interface does not expose SMART data",
        device_not_smart_capable: "the device does not report SMART capability",
        unsupported_protocol: "unsupported protocol",
        unsupported_transport: "unsupported transport",
    }
}

fn simplified_chinese_messages() -> (m: Messages)
    ensures
        m == simplified_chinese(),
{
    Messages {
        app_about: "只读磁盘健康监控工具",
        usage_heading: "用法：",
        commands_heading: "命令：",
        options_heading: "选项：",
        arguments_heading: "参数：",
        interval_help: "SMART 刷新间隔（秒）；设为 0 时禁用定时刷新",
        language_help: "人机界面语言",
        list_about: "列出所有已发现的物理磁盘",
        show_about: "按设备 ID 或设备节点显示单个磁盘",
        watch_about: "持续刷新磁盘信息",
        json_help: "输出带版本的机器可读快照",
        device_help: "设备 ID、设备节点或 BSD 名称",
        device: "设备",
        model: "型号",
        capacity: "容量",
        health: "健康状态",
        smart: "SMART",
        id: "ID",
        protocol: "协议",
        connection: "连接",
        reason: "原因",
        error: "错误",
        warning: "警告",
        action: "操作",
        elevate_action: "如确有需要，请使用管理员权限重新运行。",
        unknown: "未知",
        healthy: "健康",
        warning_health: "警告",
        critical: "严重",
        smart_available: "SMART 可用",
        smart_unavailable: "SMART 不可用",
        disks: "磁盘",
        overview: "概览",
        session: "本次会话",
        no_disks: "未发现物理磁盘",
        no_temperature_samples: "本次会话暂无温度样本",
        temperature_celsius: "温度 °C",
        footer: "q 退出 | j/k 硬盘 | Tab 切换 | r 刷新 | v SMART 视图 | PgUp/PgDn 滚动 | 间隔",
        refresh_error_prefix: "SMART 不可用",
        help_help: "显示帮助",
        version_help: "显示版本",
        device_not_found_prefix: "设备选择器",
        device_not_found_suffix: "未匹配任何已列出的设备 ID 或设备节点",
        smart_details: "SMART 详细信息",
        readable_view: "可读视图",
        raw_json_view: "原始 JSON",
        temperature: "温度",
        firmware: "固件",
        serial: "序列号",
        metric: "指标",
        value: "可读值",
        raw_value: "原始值",
        current: "当前值",
        attribute: "属性名称",
        worst: "最差值",
        threshold: "阈值",
        interpreted: "解释值",
        not_available: "不可用",
        unknown_attribute: "未知属性",
        ata_overall_status: "ATA 总体状态",
        passed: "通过",
        failed: "失败",
        not_reported: "未报告",
        critical_warning: "严重警告",
        available_spare: "可用备用空间",
        available_spare_threshold: "备用空间阈值",
        percentage_used: "寿命损耗",
        data_units_read: "读取数据量",
        data_units_written: "写入数据量",
        host_read_commands: "主机读取命令",
        host_write_commands: "主机写入命令",
        controller_busy_time: "控制器忙碌时间",
        power_cycles: "通电次数",
        power_on_hours: "通电时间",
        unsafe_shutdowns: "异常关机次数",
        media_errors: "介质错误",
        error_log_entries: "错误日志条目",
        hours: "小时",
        days: "天",
        minutes: "分钟",
        interface_not_exposed: "设备接口未公开 SMART 数据",
        device_not_smart_capable: "设备未报告 SMART 能力",
        unsupported_protocol: "不支持的协议",
        unsupported_transport: "不支持的传输方式",
    }
}

/// The locale that a language tag selects: after trimming whitespace and
/// folding ASCII case, `en`, `en_*` and `en-*` select English, `zh`, `zh_*`
/// and `zh-*` Simplified Chinese; anything else selects nothing.
pub open spec fn tag_locale(tag: Seq<char>) -> Option<Locale> {
    let n = ascii_lowercase(trim_chars(tag, TrimSet::Whitespace));
    if n == "en"@ || has_prefix(n, "en_"@) || has_prefix(n, "en-"@) {
        Some(Locale::En)
    } else if n == "zh"@ || has_prefix(n, "zh_"@) || has_prefix(n, "zh-"@) {
        Some(Locale::ZhCn)
    } else {
        None
    }
}

/// The locale a tag selects, English when it selects none.
pub open spec fn tag_or_english(tag: Seq<char>) -> Locale {
    match tag_locale(tag) {
        Some(l) => l,
        None => Locale::En,
    }
}

/// Command-line arguments as text; an argument that is not valid Unicode
/// is `None`.
pub open spec fn arg_texts(args: Seq<Option<String>>) -> Seq<Option<Seq<char>>> {
    Seq::new(args.len(), |i: int| opt_text(args[i]))
}

/// The language named on the command line, searching from argument `i`:
/// `--lang` takes the next argument (nothing when that is missing or not
/// Unicode), `--lang=TAG` takes `TAG`; other arguments are skipped.
pub open spec fn explicit_from(args: Seq<Option<Seq<char>>>, i: int) -> Option<Seq<char>>
    decreases args.len() - i,
{
    if i < 0 || i >= args.len() {
        None
    } else {
        match args[i] {
            None => explicit_from(args, i + 1),
            Some(v) => if v == "--lang"@ {
                if i + 1 < args.len() {
                    args[i + 1]
                } else {
                    None
                }
            } else if has_prefix(v, "--lang="@) {
                Some(v.subrange("--lang="@.len() as int, v.len() as int))
            } else {
                explicit_from(args, i + 1)
            },
        }
    }
}

/// The language named on the command line; the program name at index 0
/// is not searched.
pub open spec fn explicit_language(args: Seq<Option<Seq<char>>>) -> Option<Seq<char>> {
    explicit_from(args, 1)
}

/// Locale detection: an explicit `--lang` wins; otherwise `LC_ALL` when it
/// is set, even when it names no supported language; otherwise `LANG`;
/// English when the chosen source names no supported language.
pub open spec fn detected_locale(
    args: Seq<Option<Seq<char>>>,
    lc_all: Option<Option<Seq<char>>>,
    lang: Option<Seq<char>>,
) -> Locale {
    match explicit_language(args) {
        Some(tag) => tag_or_english(tag),
        None => match lc_all {
            Some(Some(tag)) => tag_or_english(tag),
            Some(None) => Locale::En,
            None => match lang {
                Some(tag) => tag_or_english(tag),
                None => Locale::En,
            },
        },
    }
}

/// The label of a health state.
pub open spec fn health_text(m: Messages, health: HealthState) -> &'static str {
    match health {
        HealthState::Healthy { .. } => m.healthy,
        HealthState::Warning { .. } => m.warning_health,
        HealthState::Critical { .. } => m.critical,
        HealthState::Unknown { .. } => m.unknown,
    }
}

/// The label of a SMART read: only an available read counts as available.
pub open spec fn smart_text(m: Messages, smart: SmartState) -> &'static str {
    match smart {
        SmartState::Available { .. } => m.smart_available,
        _ => m.smart_unavailable,
    }
}

/// The localized description of an application error.
pub open spec fn error_text(m: Messages, error: AppError) -> Seq<char> {
    match error {
        AppError::DeviceNotFound(selector) => m.device_not_found_prefix@ + " '"@ + selector@ + "' "@
            + m.device_not_found_suffix@,
        _ => crate::app::app_error_text(error),
    }
}

fn explicit_search(args: &Vec<Option<String>>) -> (r: Option<String>)
    ensures
        opt_text(r) == explicit_language(arg_texts(args@)),
{
    let ghost texts = arg_texts(args@);
    let lang_flag = chars_of("--lang");
    let lang_prefix = chars_of("--lang=");
    let mut index: usize = 1;
    if args.len() == 0 {
        return None;
    }
    while index < args.len()
        invariant
            texts == arg_texts(args@),
            1 <= index <= args.len(),
            lang_flag@ == "--lang"@,
            lang_prefix@ == "--lang="@,
            explicit_from(texts, index as int) == explicit_from(texts, 1),
        decreases args.len() - index,
    {
        match &args[index] {
            None => {},
            Some(value) => {
                let vc = chars_of(value.as_str());
                if chars_equal(&vc, &lang_flag) {
                    if index + 1 < args.len() {
                        return match &args[index + 1] {
                            Some(next) => Some(owned(next.as_str())),
                            None => None,
                        };
                    }
                    return None;
                }
                if starts_with_chars(&vc, &lang_prefix) {
                    return Some(crate::text::string_from_chars(&vc, lang_prefix.len(), vc.len()));
                }
            },
        }
        index = index + 1;
    }
    None
}

impl Locale {
    /// Detects the locale from the command line and the `LC_ALL` and `LANG`
    /// variables. `lc_all` is `Some(None)` when the variable is set to text
    /// that is not valid Unicode; `lang` is `None` when unset or not valid
    /// Unicode.
    pub fn detect_from(
        args: &Vec<Option<String>>,
        lc_all: Option<Option<String>>,
        lang: Option<String>,
    ) -> (l: Locale)
        ensures
            l == detected_locale(
                arg_texts(args@),
                match lc_all {
                    Some(v) => Some(opt_text(v)),
                    None => None,
                },
                opt_text(lang),
            ),
    {
        match explicit_search(args) {
            Some(tag) => Self::tag_or_default(tag.as_str()),
            None => match lc_all {
                Some(Some(tag)) => Self::tag_or_default(tag.as_str()),
                Some(None) => Locale::En,
                None => match lang {
                    Some(tag) => Self::tag_or_default(tag.as_str()),
                    None => Locale::En,
                },
            },
        }
    }

    fn tag_or_default(value: &str) -> (l: Locale)
        ensures
            l == tag_or_english(value@),
    {
        match Self::from_tag(value) {
            Some(l) => l,
            None => Locale::En,
        }
    }

    /// The locale a language tag selects.
    pub fn from_tag(value: &str) -> (r: Option<Locale>)
        ensures
            r == tag_locale(value@),
    {
        let trimmed = trim_text(value, TrimSet::Whitespace);
        let normalized = lowercase_chars(trimmed.as_str());
        let en = chars_of("en");
        let en_under = chars_of("en_");
        let en_dash = chars_of("en-");
        let zh = chars_of("zh");
        let zh_under = chars_of("zh_");
        let zh_dash = chars_of("zh-");
        if chars_equal(&normalized, &en) || starts_with_chars(&normalized, &en_under)
            || starts_with_chars(&normalized, &en_dash) {
            Some(Locale::En)
        } else if chars_equal(&normalized, &zh) || starts_with_chars(&normalized, &zh_under)
            || starts_with_chars(&normalized, &zh_dash) {
            Some(Locale::ZhCn)
        } else {
            None
        }
    }

    /// The messages of this locale.
    pub fn messages(self) -> (m: Messages)
        ensures
            m == messages_of(self),
    {
        match self {
            Locale::En => english_messages(),
            Locale::ZhCn => simplified_chinese_messages(),
        }
    }

    /// Describes an application error in this locale.
    pub fn format_error(self, error: &AppError) -> (s: String)
        ensures
            s@ == error_text(messages_of(self), *error),
    {
        match error {
            AppError::DeviceNotFound(selector) => {
                let m = self.messages();
                let mut s = owned(m.device_not_found_prefix);
                push_str(&mut s, " '");
                push_str(&mut s, selector.as_str());
                push_str(&mut s, "' ");
                push_str(&mut s, m.device_not_found_suffix);
                s
            },
            _ => error.message(),
        }
    }

    /// The label of a health state in this locale.
    pub fn health_label(self, health: &HealthState) -> (label: &'static str)
        ensures
            label == health_text(messages_of(self), *health),
    {
        let m = self.messages();
        match health {
            HealthState::Healthy { .. } => m.healthy,
            HealthState::Warning { .. } => m.warning_health,
            HealthState::Critical { .. } => m.critical,
            HealthState::Unknown { .. } => m.unknown,
        }
    }

    /// The label of a SMART read in this locale.
    pub fn smart_label(self, smart: &SmartState) -> (label: &'static str)
        ensures
            label == smart_text(messages_of(self), *smart),
    {
        let m = self.messages();
        match smart {
            SmartState::Available { .. } => m.smart_available,
            SmartState::Unavailable { .. } => m.smart_unavailable,
            SmartState::Failed { .. } => m.smart_unavailable,
        }
    }
}

/// An explicit `--lang` that names a supported language decides the
/// locale, whatever `LC_ALL` and `LANG` say.
pub proof fn lemma_explicit_language_wins(
    args: Seq<Option<Seq<char>>>,
    lc_all: Option<Option<Seq<char>>>,
    lang: Option<Seq<char>>,
)
    requires
        explicit_language(args) matches Some(tag) && tag_locale(tag) is Some,
    ensures
        detected_locale(args, lc_all, lang) == tag_locale(explicit_language(args)->0)->0,
{
}

/// Without `--lang`, a set `LC_ALL` decides whatever `LANG` says, and when
/// it names no supported language the locale is English rather than the
/// one `LANG` names.
pub proof fn lemma_lc_all_precedes_lang(
    args: Seq<Option<Seq<char>>>,
    lc_all: Option<Seq<char>>,
    lang: Option<Seq<char>>,
    other_lang: Option<Seq<char>>,
)
    requires
        explicit_language(args) is None,
    ensures
        detected_locale(args, Some(lc_all), lang) == detected_locale(args, Some(lc_all), other_lang),
        (lc_all matches Some(tag) && tag_locale(tag) is None) ==> detected_locale(
            args,
            Some(lc_all),
            lang,
        ) == Locale::En,
{
}

/// Without `--lang` and `LC_ALL`, `LANG` decides, and English is the
/// default when it is unset or names no supported language.
pub proof fn lemma_lang_when_lc_all_absent(args: Seq<Option<Seq<char>>>, lang: Option<Seq<char>>)
    requires
        explicit_language(args) is None,
    ensures
        detected_locale(args, None, lang) == match lang {
            Some(tag) => tag_or_english(tag),
            None => Locale::En,
        },
        (lang is None || (lang matches Some(tag) && tag_locale(tag) is None)) ==> detected_locale(
            args,
            None,
            lang,
        ) == Locale::En,
{
}

/// Unavailable and failed reads share one label: "SMART unavailable" in
/// English and "SMART 不可用" in Simplified Chinese; available reads are
/// labelled differently in both languages.
pub proof fn lemma_unreadable_smart_label(smart: SmartState, other: SmartState)
    requires
        !(smart is Available),
        other is Available,
    ensures
        smart_text(english(), smart)@ == "SMART unavailable"@,
        smart_text(simplified_chinese(), smart)@ == "SMART 不可用"@,
        smart_text(english(), smart)@ != smart_text(english(), other)@,
        smart_text(simplified_chinese(), smart)@ != smart_text(simplified_chinese(), other)@,
{
    reveal_strlit("SMART unavailable");
    reveal_strlit("SMART available");
    reveal_strlit("SMART 不可用");
    reveal_strlit("SMART 可用");
    assert("SMART unavailable"@[6] != "SMART available"@[6]);
    assert("SMART 不可用"@[6] != "SMART 可用"@[6]);
}

/// The English label of a SMART read is its display label.
pub proof fn lemma_display_label_is_english(smart: SmartState)
    ensures
        smart is Available ==> smart_text(english(), smart)@ == "SMART available"@,
        !(smart is Available) ==> smart_text(english(), smart)@ == "SMART unavailable"@,
{
}

} // verus!

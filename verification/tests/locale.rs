use diskscry::app::AppError;
use diskscry::presentation::locale::Locale;

fn args(values: &[&str]) -> Vec<Option<String>> {
    values.iter().map(|value| Some(value.to_string())).collect()
}

fn env(value: &str) -> Option<Option<String>> {
    Some(Some(value.to_string()))
}

#[test]
fn explicit_language_overrides_environment() {
    assert_eq!(
        Locale::detect_from(&args(&["diskscry", "--lang", "en"]), env("zh_CN.UTF-8"), None),
        Locale::En
    );
}

#[test]
fn lc_all_precedes_lang() {
    assert_eq!(
        Locale::detect_from(
            &args(&["diskscry"]),
            env("zh_CN.UTF-8"),
            Some("en_US.UTF-8".to_string()),
        ),
        Locale::ZhCn
    );
}

#[test]
fn unsupported_locale_defaults_to_english() {
    assert_eq!(
        Locale::detect_from(&args(&["diskscry"]), None, Some("fr_FR".to_string())),
        Locale::En
    );
}

#[test]
fn lang_is_used_when_lc_all_is_absent() {
    assert_eq!(
        Locale::detect_from(&args(&["diskscry"]), None, Some("zh_CN.UTF-8".to_string())),
        Locale::ZhCn
    );
}

#[test]
fn unsupported_lc_all_does_not_fall_through_to_lang() {
    assert_eq!(
        Locale::detect_from(
            &args(&["diskscry"]),
            env("C"),
            Some("zh_CN.UTF-8".to_string()),
        ),
        Locale::En
    );
}

#[test]
fn formats_common_application_error_in_selected_language() {
    let error = AppError::DeviceNotFound("disk99".into());
    assert_eq!(
        Locale::ZhCn.format_error(&error),
        "设备选择器 'disk99' 未匹配任何已列出的设备 ID 或设备节点"
    );
}

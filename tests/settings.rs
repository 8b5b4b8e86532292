use bus_alert::config::{load_settings, parse_u32, Setting, SettingError};
use bus_alert::schedule::{next_step, Step, RUN_LIMIT_MILLIS};

fn some(s: &str) -> Option<String> {
    Some(s.to_string())
}

#[test]
fn u32_syntax_agrees_with_std() {
    let samples = [
        "200", "0", "+5", "-5", "-0", "4294967295", "4294967296", "99999999999999999999", "", "+",
        "12a", " 1", "007",
    ];
    for s in samples.iter() {
        assert_eq!(parse_u32(s), s.parse::<u32>().ok(), "sample {:?}", s);
    }
}

#[test]
fn complete_settings_load() {
    let s = load_settings(some("51.5"), some("-0.1"), some("500"), some("token"), some("42"));
    let s = s.ok().unwrap();
    assert_eq!(s.lat, "51.5");
    assert_eq!(s.lng, "-0.1");
    assert_eq!(s.radius, 500);
    assert_eq!(s.bot_token, "token");
    assert_eq!(s.chat_id, "42");
}

#[test]
fn every_problem_is_reported() {
    let r = load_settings(None, some("west"), some("-3"), None, some("42"));
    let errors = r.err().unwrap();
    assert_eq!(
        errors,
        vec![
            SettingError::Missing(Setting::Lat),
            SettingError::Invalid(Setting::Lng),
            SettingError::Invalid(Setting::Radius),
            SettingError::Missing(Setting::BotToken),
        ]
    );
    let r = load_settings(None, None, None, None, None);
    assert_eq!(r.err().unwrap().len(), 5);
}

#[test]
fn bounded_run_finishes_at_limit() {
    assert_eq!(next_step(0, Some(RUN_LIMIT_MILLIS)), Step::Poll);
    assert_eq!(next_step(RUN_LIMIT_MILLIS - 1, Some(RUN_LIMIT_MILLIS)), Step::Poll);
    assert_eq!(next_step(RUN_LIMIT_MILLIS, Some(RUN_LIMIT_MILLIS)), Step::Finish);
    assert_eq!(next_step(u64::MAX, None), Step::Poll);
}

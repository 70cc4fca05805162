use immich_uploader::cron::{matches_cron_field, now_instant, Instant};

fn at(minute: u32, hour: u32, day: u32, month: u32, weekday: u32) -> Instant {
    Instant { minute, hour, day, month, weekday }
}

#[test]
fn star_matches_any_value() {
    assert!(matches_cron_field("*", 0));
    assert!(matches_cron_field("*", 59));
}

#[test]
fn literal_matches_only_itself() {
    assert!(matches_cron_field("5", 5));
    assert!(!matches_cron_field("5", 6));
    assert!(matches_cron_field("+7", 7));
    assert!(!matches_cron_field("", 0));
    assert!(!matches_cron_field("-1", 1));
}

#[test]
fn step_field_semantics() {
    assert!(matches_cron_field("*/15", 45));
    assert!(!matches_cron_field("*/15", 44));
    assert!(matches_cron_field("*/15", 0));
    assert!(!matches_cron_field("*/0", 0));
    assert!(!matches_cron_field("*/0", 45));
    assert!(!matches_cron_field("*/x", 45));
    assert!(!matches_cron_field("*/", 45));
}

#[test]
fn unsupported_syntax_never_matches() {
    assert!(!matches_cron_field("1-5", 3));
    assert!(!matches_cron_field("1,2", 1));
    assert!(!matches_cron_field("MON", 1));
    assert!(!matches_cron_field("99999999999", 1));
}

#[test]
fn field_count_must_be_five() {
    let t = at(0, 3, 1, 1, 0);
    assert!(!immich_uploader::cron::matches("0 3 * *", &t));
    assert!(!immich_uploader::cron::matches("0 3 * * 0 *", &t));
    assert!(!immich_uploader::cron::matches("", &t));
    assert!(immich_uploader::cron::matches("0 3 * * 0", &t));
    assert!(immich_uploader::cron::matches("  0\t3  *\n* 0 ", &t));
}

#[test]
fn all_fields_must_match_together() {
    let e = "0 3 * * 0";
    assert!(immich_uploader::cron::matches(e, &at(0, 3, 14, 6, 0)));
    assert!(!immich_uploader::cron::matches(e, &at(0, 3, 14, 6, 1)));
    assert!(!immich_uploader::cron::matches(e, &at(1, 3, 14, 6, 0)));
    assert!(!immich_uploader::cron::matches(e, &at(0, 4, 14, 6, 0)));
    // day of month and weekday are both required, not either one
    let both = "0 3 14 * 0";
    assert!(immich_uploader::cron::matches(both, &at(0, 3, 14, 6, 0)));
    assert!(!immich_uploader::cron::matches(both, &at(0, 3, 14, 6, 3)));
    assert!(!immich_uploader::cron::matches(both, &at(0, 3, 15, 6, 0)));
}

#[test]
fn step_in_full_expression() {
    let e = "*/15 * * * *";
    assert!(immich_uploader::cron::matches(e, &at(45, 10, 2, 3, 4)));
    assert!(!immich_uploader::cron::matches(e, &at(44, 10, 2, 3, 4)));
}

#[test]
fn should_run_now_requires_five_fields() {
    assert!(!immich_uploader::cron::should_run_now("* * * *"));
    assert!(immich_uploader::cron::should_run_now("* * * * *"));
}

#[test]
fn current_instant_is_in_range() {
    let t = now_instant();
    assert!(t.minute < 60);
    assert!(t.hour < 24);
    assert!(1 <= t.day && t.day <= 31);
    assert!(1 <= t.month && t.month <= 12);
    assert!(t.weekday < 7);
    let today = format!("* * * * {}", t.weekday);
    // the expression naming the current weekday matches, unless the day turned meanwhile
    assert!(immich_uploader::cron::should_run_now(&today) || now_instant().weekday != t.weekday);
}

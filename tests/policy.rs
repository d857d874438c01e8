use test_kind::attribute_kind::{
    AttributeKind, ParseErrorKind, TestSettings, EARLIEST_UPDATE_DAYS,
};
use test_kind::config::{
    has_resources_available, is_test_kind_defined, is_test_kind_excluded,
    is_test_resource_defined, read_setting_list, Config,
};
use test_kind::date::Date;
use test_kind::test_kind;
use test_kind::unit_age::{UnitAge, UnitAgeResult};

fn names(items: &[&str]) -> Vec<String> {
    items.iter().map(|s| s.to_string()).collect()
}

fn config() -> Config {
    Config {
        excluded_kinds: Vec::new(),
        defined_kinds: Vec::new(),
        known_resources: Vec::new(),
        available_resources: Vec::new(),
        unit_age: UnitAge { max: 365, skip: 30 },
    }
}

fn day(y: i32, m: u32, d: u32) -> Date {
    Date::from_ymd(y, m, d).unwrap()
}

fn today() -> Date {
    day(2024, 6, 1)
}

fn parse_err(text: &str, cfg: &Config) -> ParseErrorKind {
    match AttributeKind::from_str(text, cfg, today()) {
        Ok(k) => panic!("expected an error for {text:?}, got {k:?}"),
        Err(e) => {
            assert_eq!(e.attributes, text);
            e.kind
        }
    }
}

fn skip_reason(s: TestSettings) -> String {
    match s {
        TestSettings::Skip { reason } => reason,
        other => panic!("expected a skip, got {other:?}"),
    }
}

#[test]
fn earliest_update_is_2023_10_10() {
    assert_eq!(day(2023, 10, 10).days, EARLIEST_UPDATE_DAYS);
    assert_eq!(day(1970, 1, 1).days, 719_163);
    assert!(Date::from_ymd(2023, 2, 30).is_none());
}

#[test]
fn dates_before_earliest_are_too_early() {
    let cfg = config();
    for text in [
        "unit, updated=2023-10-09",
        "unit, updated=2020-01-01",
        "unit, updated=1999-12-31",
    ] {
        assert_eq!(parse_err(text, &cfg), ParseErrorKind::DateTooEarly);
    }
}

#[test]
fn dates_past_today_plus_two_are_too_late() {
    let cfg = config();
    assert_eq!(parse_err("unit, updated=2024-06-04", &cfg), ParseErrorKind::DateTooLate);
    assert_eq!(parse_err("unit, updated=2030-01-01", &cfg), ParseErrorKind::DateTooLate);
    match AttributeKind::from_str("unit, updated=2024-06-03", &cfg, today()) {
        Ok(AttributeKind::Unit { updated }) => assert_eq!(updated, day(2024, 6, 3)),
        other => panic!("unexpected {other:?}"),
    }
}

#[test]
fn earliest_date_itself_is_accepted() {
    let cfg = config();
    match AttributeKind::from_str("unit, updated=2023-10-10", &cfg, today()) {
        Ok(AttributeKind::Unit { updated }) => assert_eq!(updated.days, EARLIEST_UPDATE_DAYS),
        other => panic!("unexpected {other:?}"),
    }
}

#[test]
fn parsing_twice_gives_equal_results() {
    let cfg = config();
    for text in ["api, resources=db, cache", "unit, updated=2024-01-01", "integration", "bad"] {
        let a = format!("{:?}", AttributeKind::from_str(text, &cfg, today()));
        let b = format!("{:?}", AttributeKind::from_str(text, &cfg, today()));
        assert_eq!(a, b);
    }
}

#[test]
fn duplicate_resource_is_refused() {
    assert_eq!(parse_err("other, resources=db,db", &config()), ParseErrorKind::DuplicateResource);
}

#[test]
fn empty_resource_list_is_refused() {
    assert_eq!(parse_err("other, resources=", &config()), ParseErrorKind::EmptyResourceList);
    assert_eq!(parse_err("other, resources=   ", &config()), ParseErrorKind::EmptyResourceList);
    assert_eq!(parse_err("other, resources= , ", &config()), ParseErrorKind::DuplicateResource);
}

#[test]
fn empty_items_are_kept_as_names() {
    match AttributeKind::from_str("api, resources=db,,cache", &config(), today()) {
        Ok(AttributeKind::Other { resources, .. }) => {
            assert_eq!(resources, names(&["db", "", "cache"]));
        }
        other => panic!("unexpected {other:?}"),
    }
    match AttributeKind::from_str("api, resources=db,", &config(), today()) {
        Ok(AttributeKind::Other { resources, .. }) => assert_eq!(resources, names(&["db", ""])),
        other => panic!("unexpected {other:?}"),
    }
    let mut cfg = config();
    cfg.known_resources = names(&["db", "cache"]);
    assert_eq!(parse_err("api, resources=db,,cache", &cfg), ParseErrorKind::UnknownResource);
}

#[test]
fn duplicates_are_reported_before_unknown_names() {
    let mut cfg = config();
    cfg.known_resources = names(&["x"]);
    assert_eq!(parse_err("other, resources=db,db", &cfg), ParseErrorKind::DuplicateResource);
    assert_eq!(parse_err("other, resources=db,x", &cfg), ParseErrorKind::UnknownResource);
}

#[test]
fn missing_resources_are_a_set() {
    let cfg = config();
    assert_eq!(has_resources_available(&cfg, &names(&["x", "x"])), names(&["x"]));
    let k = AttributeKind::Other { kind: "api".to_string(), resources: names(&["x", "y", "x"]) };
    assert_eq!(skip_reason(k.what_to_do(&cfg, today())), "Test of kind: api requires {x, y}");
}

#[test]
fn excluded_integration_is_skipped() {
    let mut cfg = config();
    cfg.excluded_kinds = names(&["integration"]);
    let s = AttributeKind::Integration.what_to_do(&cfg, today());
    assert_eq!(skip_reason(s), "Integration tests are excluded");
    assert!(matches!(AttributeKind::Integration.what_to_do(&config(), today()), TestSettings::Run));
}

#[test]
fn ageing_off_runs_old_unit_tests() {
    let mut cfg = config();
    cfg.unit_age = UnitAge { max: 0, skip: 30 };
    let k = AttributeKind::Unit { updated: day(2020, 1, 1) };
    assert!(matches!(k.what_to_do(&cfg, today()), TestSettings::Run));
}

#[test]
fn aged_unit_test_is_skipped_with_countdown() {
    let updated = day(2023, 11, 1);
    let now = Date { days: updated.days + 370 };
    let s = AttributeKind::Unit { updated }.what_to_do(&config(), now);
    assert_eq!(skip_reason(s), "Silenced in 25 days");
}

#[test]
fn old_unit_test_is_ignored() {
    let updated = day(2023, 11, 1);
    let now = Date { days: updated.days + 400 };
    let s = AttributeKind::Unit { updated }.what_to_do(&config(), now);
    assert!(matches!(s, TestSettings::Ignore));
}

#[test]
fn missing_resource_is_named_in_skip() {
    let mut cfg = config();
    cfg.available_resources = names(&["db"]);
    let k = AttributeKind::Other { kind: "api".to_string(), resources: names(&["db", "cache"]) };
    assert_eq!(skip_reason(k.what_to_do(&cfg, today())), "Test of kind: api requires {cache}");
}

#[test]
fn several_missing_resources_keep_their_order() {
    let mut cfg = config();
    cfg.available_resources = names(&["db"]);
    let k = AttributeKind::Other {
        kind: "e2e".to_string(),
        resources: names(&["queue", "db", "cache"]),
    };
    assert_eq!(
        skip_reason(k.what_to_do(&cfg, today())),
        "Test of kind: e2e requires {queue, cache}"
    );
    let all = names(&["db"]);
    let k = AttributeKind::Other { kind: "e2e".to_string(), resources: all };
    assert!(matches!(k.what_to_do(&cfg, today()), TestSettings::Run));
}

#[test]
fn ageing_boundaries() {
    let age = UnitAge { max: 365, skip: 30 };
    let updated = day(2024, 1, 1);
    let at = |n: i32| age.unit_aged_out(updated, Date { days: updated.days + n });
    assert!(matches!(at(364), UnitAgeResult::Young));
    assert!(matches!(at(-10), UnitAgeResult::Young));
    match at(365) {
        UnitAgeResult::Aged(r) => assert_eq!(r, "Silenced in 30 days"),
        other => panic!("unexpected {other:?}"),
    }
    match at(394) {
        UnitAgeResult::Aged(r) => assert_eq!(r, "Silenced in 1 days"),
        other => panic!("unexpected {other:?}"),
    }
    assert!(matches!(at(395), UnitAgeResult::Old));
}

#[test]
fn ageing_window_saturates() {
    let age = UnitAge { max: u32::MAX, skip: u32::MAX };
    let updated = Date { days: -1_000_000_000 };
    let now = Date { days: 1_000_000_000 };
    assert!(matches!(age.unit_aged_out(updated, now), UnitAgeResult::Young));
    let age = UnitAge { max: 1, skip: u32::MAX };
    match age.unit_aged_out(updated, now) {
        UnitAgeResult::Aged(r) => assert_eq!(r, "Silenced in 2294967295 days"),
        other => panic!("unexpected {other:?}"),
    }
}

#[test]
fn young_unit_test_runs_unless_excluded() {
    let k = || AttributeKind::Unit { updated: day(2024, 5, 1) };
    assert!(matches!(k().what_to_do(&config(), today()), TestSettings::Run));
    let mut cfg = config();
    cfg.excluded_kinds = names(&["Unit"]);
    assert_eq!(skip_reason(k().what_to_do(&cfg, today())), "Unit tests are excluded");
}

#[test]
fn excluded_other_kind_is_skipped() {
    let mut cfg = config();
    cfg.excluded_kinds = names(&["API"]);
    let k = AttributeKind::Other { kind: "api".to_string(), resources: names(&["db"]) };
    assert_eq!(skip_reason(k.what_to_do(&cfg, today())), "Test of kind: api are excluded");
}

#[test]
fn shapes_that_match_no_form_are_invalid() {
    let cfg = config();
    assert_eq!(parse_err("unit", &cfg), ParseErrorKind::InvalidFormat);
    assert_eq!(parse_err("e2e", &cfg), ParseErrorKind::InvalidFormat);
    assert_eq!(parse_err("", &cfg), ParseErrorKind::InvalidFormat);
}

#[test]
fn other_errors() {
    let cfg = config();
    assert_eq!(parse_err("unit, updated=2024-13-01", &cfg), ParseErrorKind::InvalidDateFormat);
    assert_eq!(parse_err("unit, updated=yesterday", &cfg), ParseErrorKind::InvalidDateFormat);
    assert_eq!(parse_err("unit, since=2024-01-01", &cfg), ParseErrorKind::InvalidOptions);
    assert_eq!(parse_err("api, needs=db", &cfg), ParseErrorKind::InvalidOptions);
    let mut cfg = config();
    cfg.defined_kinds = names(&["api"]);
    assert_eq!(parse_err("e2e, resources=db", &cfg), ParseErrorKind::UndefinedKind);
    let mut cfg = config();
    cfg.known_resources = names(&["db"]);
    assert_eq!(parse_err("api, resources=db, redis", &cfg), ParseErrorKind::UnknownResource);
}

#[test]
fn well_formed_texts_are_read() {
    let mut cfg = config();
    cfg.defined_kinds = names(&["API"]);
    cfg.known_resources = names(&["DB", "cache"]);
    match AttributeKind::from_str("  api ,  resources=db, cache  ", &cfg, today()) {
        Ok(AttributeKind::Other { kind, resources }) => {
            assert_eq!(kind, "api");
            assert_eq!(resources, names(&["db", "cache"]));
        }
        other => panic!("unexpected {other:?}"),
    }
    assert!(matches!(
        AttributeKind::from_str(" integration ", &cfg, today()),
        Ok(AttributeKind::Integration)
    ));
    match AttributeKind::from_str("integration, resources=db", &config(), today()) {
        Ok(AttributeKind::Other { kind, resources }) => {
            assert_eq!(kind, "integration");
            assert_eq!(resources, names(&["db"]));
        }
        other => panic!("unexpected {other:?}"),
    }
}

#[test]
fn settings_are_resolved() {
    assert_eq!(read_setting_list("a, b c,,  ,d"), names(&["a", "bc", "d"]));
    assert!(read_setting_list("").is_empty());
    let cfg = Config::resolve("unit", "abc", "+7", "db", "db, cache", "");
    assert_eq!(cfg.excluded_kinds, names(&["unit"]));
    assert_eq!(cfg.aging_thresholds(), (365, 7));
    assert_eq!(cfg.known_resources, names(&["db"]));
    assert_eq!(cfg.available_resources, names(&["db", "cache"]));
    assert!(cfg.defined_kinds.is_empty());
    let cfg = Config::resolve("", "0", "-1", "", "", "");
    assert_eq!(cfg.aging_thresholds(), (0, 30));
    assert_eq!(UnitAge::from_settings("", " 5"), UnitAge { max: 365, skip: 30 });
}

#[test]
fn registry_queries() {
    let mut cfg = config();
    assert!(is_test_kind_defined(&cfg, "anything"));
    assert!(is_test_resource_defined(&cfg, "anything"));
    assert!(!is_test_kind_excluded(&cfg, "unit"));
    cfg.defined_kinds = names(&["E2E"]);
    cfg.known_resources = names(&["Db"]);
    cfg.excluded_kinds = names(&["InTegration"]);
    assert!(is_test_kind_defined(&cfg, "e2e"));
    assert!(!is_test_kind_defined(&cfg, "e2"));
    assert!(is_test_resource_defined(&cfg, "DB"));
    assert!(!is_test_resource_defined(&cfg, "cache"));
    assert!(is_test_kind_excluded(&cfg, "integration"));
    cfg.available_resources = names(&["db"]);
    assert_eq!(has_resources_available(&cfg, &names(&["DB", "db", "x"])), names(&["DB", "x"]));
}

#[test]
fn whole_decision_from_text() {
    let mut cfg = config();
    cfg.available_resources = names(&["db"]);
    let now = today();
    assert!(matches!(test_kind("api, resources=db", &cfg, now), Ok(TestSettings::Run)));
    let s = test_kind("api, resources=db, cache", &cfg, now).unwrap();
    assert_eq!(skip_reason(s), "Test of kind: api requires {cache}");
    assert!(matches!(test_kind("unit, updated=2024-05-30", &cfg, now), Ok(TestSettings::Run)));
    let e = test_kind("unit, updated=2023-01-01", &cfg, now).unwrap_err();
    assert_eq!(e.kind, ParseErrorKind::DateTooEarly);
    assert_eq!(e.attributes, "unit, updated=2023-01-01");
}

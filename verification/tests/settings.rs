//! The lock timeout, the saves, the languages.

use neoshell::catalog::Catalog;
use neoshell::settings::clamp_lock_timeout;
use neoshell::settings::coalesce_saves;
use neoshell::settings::cycle_lock_timeout;
use neoshell::settings::idle_lock_due;
use neoshell::settings::locale_from;
use neoshell::settings::lock_timeout_from;
use neoshell::settings::lock_timeout_label;
use neoshell::settings::toggled_locale;
use neoshell::settings::Save;
use neoshell::settings::LOCK_TIMEOUT_DEFAULT;
use neoshell::settings::LOCK_TIMEOUT_STEPS;
use neoshell::settings::SECOND;

fn secs(n: u64) -> u128 {
    n as u128 * SECOND
}

fn texts(pairs: &[(&str, &str)]) -> Catalog {
    Catalog { entries: pairs.iter().map(|(k, v)| (k.to_string(), v.to_string())).collect() }
}

#[test]
fn idle_lock_never_fires_when_disabled() {
    // 0 means "never", and must stay that way no matter how long the session
    // has been idle.
    for s in [0u64, 60, 3600, 86_400, 86_400 * 365] {
        assert!(!idle_lock_due(0, secs(s)), "0 must never lock, idle={s}s");
    }
}

#[test]
fn idle_lock_fires_at_the_timeout_not_before() {
    let t = 15;
    let deadline = secs(15 * 60);
    assert!(!idle_lock_due(t, 0));
    assert!(!idle_lock_due(t, deadline - SECOND));
    // Inclusive: a tick that lands exactly on the deadline locks.
    assert!(idle_lock_due(t, deadline));
    assert!(idle_lock_due(t, deadline + SECOND));
    assert!(!idle_lock_due(1, secs(59)));
    assert!(idle_lock_due(1, secs(60)));
}

#[test]
fn idle_lock_does_not_overflow_on_the_largest_timeout() {
    let max = *LOCK_TIMEOUT_STEPS.last().unwrap();
    assert!(!idle_lock_due(max, secs(max as u64 * 60 - 1)));
    assert!(idle_lock_due(max, secs(max as u64 * 60)));
    assert!(!idle_lock_due(u32::MAX, secs(1)));
    assert!(!idle_lock_due(u32::MAX, secs(u32::MAX as u64 * 60 - 1)));
    assert!(idle_lock_due(u32::MAX, secs(u32::MAX as u64 * 60)));
}

#[test]
fn clamp_lock_timeout_snaps_onto_a_real_step() {
    for step in LOCK_TIMEOUT_STEPS {
        assert_eq!(clamp_lock_timeout(step), step);
    }
    assert_eq!(clamp_lock_timeout(13), 15);
    assert_eq!(clamp_lock_timeout(45), 30);
    // A tie goes to the lower step, which is the safe direction to round in.
    assert_eq!(clamp_lock_timeout(3), 1, "3 is 2 from both 1 and 5");
    assert_eq!(clamp_lock_timeout(10), 5, "10 is 5 from both 5 and 15");
    assert_eq!(clamp_lock_timeout(u32::MAX), 120);
    for weird in [2u32, 7, 44, 99, 1000, u32::MAX] {
        assert!(LOCK_TIMEOUT_STEPS.contains(&clamp_lock_timeout(weird)), "{weird} clamped off the step list");
    }
}

#[test]
fn cycle_lock_timeout_saturates_at_both_ends() {
    assert_eq!(cycle_lock_timeout(0, false), 0, "cannot go below Never");
    assert_eq!(cycle_lock_timeout(120, true), 120, "cannot go past the top");
    let mut v = 0;
    for _ in 0..LOCK_TIMEOUT_STEPS.len() * 2 {
        v = cycle_lock_timeout(v, true);
    }
    assert_eq!(v, 120);
    for _ in 0..LOCK_TIMEOUT_STEPS.len() * 2 {
        v = cycle_lock_timeout(v, false);
    }
    assert_eq!(v, 0);
    assert_eq!(cycle_lock_timeout(13, true), 30);
    assert_eq!(cycle_lock_timeout(13, false), 5);
}

#[test]
fn lock_timeout_label_reads_as_a_setting() {
    let en = texts(&[("settings.lock_never", "Never"), ("settings.lock_minutes", "{n} min")]);
    assert_eq!(lock_timeout_label(0, &en), "Never");
    assert_eq!(lock_timeout_label(15, &en), "15 min");
    // The {n} placeholder must actually be substituted, in both locales.
    let zh = texts(&[("settings.lock_never", "从不"), ("settings.lock_minutes", "{n} 分钟")]);
    let label = lock_timeout_label(30, &zh);
    assert!(!label.contains("{n}"), "unsubstituted placeholder: {label}");
    assert!(label.contains("30"), "{label}");
}

#[test]
fn a_burst_of_saves_writes_each_file_once_with_its_last_value() {
    let save = |path: &str, contents: &[u8]| Save { path: path.to_string(), contents: contents.to_vec() };
    let saves = vec![
        save("alerts.json", b"50"),
        save("scale", b"1.00"),
        save("alerts.json", b"55"),
        save("alerts.json", b"60"),
    ];
    assert_eq!(coalesce_saves(saves), vec![save("alerts.json", b"60"), save("scale", b"1.00")]);
    assert!(coalesce_saves(Vec::new()).is_empty());
}

#[test]
fn a_saved_timeout_is_read_onto_a_step() {
    assert_eq!(lock_timeout_from(None), LOCK_TIMEOUT_DEFAULT);
    assert_eq!(lock_timeout_from(Some("30")), 30);
    assert_eq!(lock_timeout_from(Some(" 31\n")), 30);
    assert_eq!(lock_timeout_from(Some("0")), 0);
    assert_eq!(lock_timeout_from(Some("soon")), LOCK_TIMEOUT_DEFAULT);
}

#[test]
fn the_language_toggles_between_two() {
    assert_eq!(toggled_locale("zh-CN"), "en");
    assert_eq!(toggled_locale("en"), "zh-CN");
    assert_eq!(toggled_locale("fr"), "zh-CN");
}

#[test]
fn a_saved_language_beats_the_environment() {
    let vars = vec!["zh_CN.UTF-8".to_string()];
    assert_eq!(locale_from(Some("en"), &vars), "en");
    assert_eq!(locale_from(None, &vars), "zh-CN");
    assert_eq!(locale_from(None, &vec!["C".to_string()]), "en");
}

#[test]
fn a_missing_text_is_marked() {
    assert_eq!(texts(&[]).t("no.such"), "???");
    assert_eq!(texts(&[("a", "x {n} y {n}")]).tf("a", "n", "7"), "x 7 y 7");
}

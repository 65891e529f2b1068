use grassfeed::context::BuildConfig;
use grassfeed::config::init_system::create_system_config;
use grassfeed::config::init_system::GrassFeederConfig;
use grassfeed::args_lang::init_locales;
use grassfeed::context::due_timer_events;
use grassfeed::context::parse_isize;
use grassfeed::context::BuildConfigContainer;
use grassfeed::context::TimerEvent;

#[test]
fn buildconfigcontainertest() {
    let mut bcc = BuildConfigContainer::default();
    bcc.insert(String::from("dbkey1"), String::from("String1"));
    bcc.insert(String::from("dbkey2"), String::from("-7"));
    assert_eq!(bcc.get("dbkey1"), Some(String::from("String1")));
    assert_eq!(bcc.get_int("dbkey2"), Some(-7));
    assert_eq!(bcc.get_int("dbkey1"), None);
}

#[test]
fn config_values_replace_and_flags() {
    let mut bcc = BuildConfigContainer::new();
    bcc.insert("a".to_string(), "true".to_string());
    bcc.insert("b".to_string(), "yes".to_string());
    assert!(bcc.get_bool("a"));
    assert!(!bcc.get_bool("b"));
    assert!(!bcc.get_bool("missing"));
    bcc.insert("a".to_string(), "12".to_string());
    assert_eq!(bcc.get("a"), Some("12".to_string()));
    assert_eq!(bcc.get_int("a"), Some(12));
    assert!(!bcc.get_bool("a"));
    assert_eq!(bcc.get("missing"), None);
}

#[test]
fn integers_as_parse_reads_them() {
    for s in ["0", "-0", "+5", "-9223372036854775808", "9223372036854775807", "", "-", "+", "1a", " 1", "9223372036854775808", "-9223372036854775809", "007"] {
        assert_eq!(parse_isize(s), s.parse::<isize>().ok(), "{s}");
    }
}

#[test]
fn timer_ticks() {
    let mut next: Vec<u128> = vec![0; 11];
    let due = due_timer_events(&mut next, 5);
    // every periodic event is due at the start; the lifecycle ones never
    assert_eq!(due.len(), 8);
    assert_eq!(due[0], TimerEvent::Timer100s);
    assert_eq!(due[7], TimerEvent::Timer10ms);
    assert_eq!(next[0], 100005);
    assert_eq!(next[7], 15);
    assert_eq!(next[8], 0);
    let due = due_timer_events(&mut next, 16);
    assert_eq!(due, vec![TimerEvent::Timer10ms]);
    assert_eq!(next[7], 26);
    for (i, ev) in [TimerEvent::Timer100s, TimerEvent::Shutdown, TimerEvent::Idle].iter().enumerate() {
        assert_eq!(TimerEvent::from_int(ev.index()), *ev, "{i}");
    }
}

#[test]
fn locale_selection() {
    assert_eq!(init_locales(Some("de".to_string()), Some("en_US".to_string())), Some("de".to_string()));
    assert_eq!(init_locales(Some("fr".to_string()), Some("de_DE.UTF-8".to_string())), Some("de".to_string()));
    assert_eq!(init_locales(None, Some("DE_at".to_string())), Some("de".to_string()));
    assert_eq!(init_locales(None, Some("En_GB".to_string())), Some("en".to_string()));
    assert_eq!(init_locales(None, Some("fr_FR".to_string())), Some("en".to_string()));
    assert_eq!(init_locales(None, None), Some("en".to_string()));
}

#[test]
fn system_settings_name_the_folders() {
    let gf = GrassFeederConfig {
        path_config: "/c".to_string(),
        path_cache: "/k".to_string(),
        debug_mode: true,
        version: "1.2".to_string(),
    };
    let conf = create_system_config(&gf);
    assert_eq!(conf.get("subscriptions_folder"), Some("/c".to_string()));
    assert_eq!(conf.get("conf_filename"), Some("/c/config.json".to_string()));
    assert!(conf.get_bool("mode_debug"));
    assert_eq!(conf.get("rcs_version"), Some("1.2".to_string()));
    assert_eq!(conf.get("cache_folder"), None);
}

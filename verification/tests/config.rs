use grassfeed::config::configmanager::ConfigManager;
use grassfeed::context::{BuildConfigContainer, TimerEvent};

#[test]
fn configmanager_load_store() {
    let stored;
    {
        let mut cm = ConfigManager::default();
        cm.set_val("Coffee", "3".to_string());
        stored = cm.store_user_conf().unwrap();
    }
    {
        let mut cm = ConfigManager::default();
        let lr = cm.load_user_conf(&stored);
        assert!(lr);
        assert_eq!(cm.get_val("Coffee"), Some("3".to_string()));
    }
}

#[test]
fn t_user_settings_read_back() {
    let mut cm = ConfigManager::default();
    assert_eq!(cm.get_val("a"), None);
    cm.set_val("a", "12".to_string());
    cm.set_val("b", "true".to_string());
    cm.set_val("a", "-7".to_string());
    assert_eq!(cm.get_val("a"), Some("-7".to_string()));
    assert_eq!(cm.get_val_int("a"), Some(-7));
    assert_eq!(cm.get_val_int("b"), None);
    assert!(cm.get_val_bool("b"));
    assert!(!cm.get_val_bool("a"));
    assert_eq!(cm.get_user_conf().len(), 2);
}

#[test]
fn t_store_only_after_a_change() {
    let mut cm = ConfigManager::default();
    assert_eq!(cm.store_if_modified(), None);
    assert_eq!(cm.trigger(TimerEvent::Timer10s), None);
    cm.set_val("k", "v".to_string());
    let (file, text) = cm.trigger(TimerEvent::Shutdown).unwrap();
    assert_eq!(file, "default_config.ini");
    assert_eq!(text, "{\n  \"k\": \"v\"\n}");
    assert_eq!(cm.trigger(TimerEvent::Timer1s), None);
}

#[test]
fn t_load_user_conf_refuses_other_text() {
    let mut cm = ConfigManager::default();
    cm.set_val("x", "1".to_string());
    assert!(!cm.load_user_conf("[1, 2]"));
    assert!(!cm.load_user_conf("{\"x\": 5}"));
    assert_eq!(cm.get_val("x"), Some("1".to_string()));
    assert!(cm.load_user_conf("{\"x\": \"2\", \"y\": \"3\"}"));
    assert_eq!(cm.get_val("x"), Some("2".to_string()));
    assert_eq!(cm.get_val("y"), Some("3".to_string()));
}

#[test]
fn t_system_settings() {
    let mut sys = BuildConfigContainer::new();
    sys.insert("cache_folder".to_string(), "/tmp/c".to_string());
    let mut bc = BuildConfigContainer::new();
    bc.insert("conf_filename".to_string(), "/home/u/.config/gf.json".to_string());
    let cm = ConfigManager::build(&bc, sys);
    assert_eq!(cm.get_sys_val("cache_folder"), Some("/tmp/c".to_string()));
    assert_eq!(cm.get_sys_val("other"), None);
    assert_eq!(cm.get_val("cache_folder"), None);
}

#[test]
fn t_section_keys() {
    let mut cm = ConfigManager::default();
    assert_eq!(cm.conf_len(), 0);
    cm.set_section_key("window", "width", "800");
    assert_eq!(cm.get_section_key("window", "width"), Some("800".to_string()));
    assert_eq!(cm.get_section_key_int("window", "width", 5), 800);
    assert_eq!(cm.get_section_key_int("window", "height", 5), 5);
    assert!(!cm.get_section_key_bool("window", "width"));
    cm.set_section_key("window", "max", "true");
    assert!(cm.get_section_key_bool("window", "max"));
    assert_eq!(cm.conf_len(), 1);
    assert_eq!(cm.get_conf().get_from(Some("window"), "width"), Some("800"));
}

#[test]
fn t_load_from_file_keeps_debug_mode() {
    let mut cm = ConfigManager::default();
    cm.set_val("mode_debug", "true".to_string());
    let text = "\u{feff}[config]\nmode_debug=false\n[a]\nx=1\n[b]\ny=2\n";
    cm.load_from_file("settings.ini", text);
    assert_eq!(cm.get_section_key("config", "mode_debug"), Some("true".to_string()));
    assert_eq!(cm.get_section_key("a", "x"), Some("1".to_string()));
    // two sections only: the document stays as it was, the file is taken
    let mut cm2 = ConfigManager::default();
    cm2.load_from_file("small.ini", "[a]\nx=1\n");
    assert_eq!(cm2.get_section_key("a", "x"), None);
    assert_eq!(cm2.store_if_modified(), None);
}

#[test]
fn t_new_with_ini() {
    let ini = ini::Ini::load_from_str("[config]\nconf_filename=/x/y.ini\n").unwrap();
    let cm = ConfigManager::new_with_ini(ini);
    assert_eq!(cm.get_section_key("config", "conf_filename"), Some("/x/y.ini".to_string()));
    let mut cm = cm;
    cm.set_val("z", "1".to_string());
    assert_eq!(cm.store_if_modified().unwrap().0, "/x/y.ini");
}

fn sample_names() -> grassfeed::config::prepare_ini::IniNames {
    grassfeed::config::prepare_ini::IniNames {
        icon_section: "iconrepo".to_string(),
        subscription_section: "subscriptionrepo".to_string(),
        browser_section: "browserpane".to_string(),
        list_section: "feedcontents".to_string(),
        window_width: "GuiWindowWidth".to_string(),
        window_height: "GuiWindowHeight".to_string(),
        pane1_pos: "GuiPane1Pos".to_string(),
        pane2_pos: "GuiPane2Pos".to_string(),
        window_title: "GuiWindowTitle".to_string(),
        browser_dir: "BrowserDir".to_string(),
        browser_bg: "BrowserBackgroundLevel".to_string(),
        sort_column: "GuiList0SortColumn".to_string(),
        sort_ascending: "GuiList0SortAscending".to_string(),
        rcs_version: "AppRcsVersion".to_string(),
    }
}

#[test]
fn t_prepare_config_ini() {
    let g = grassfeed::config::init_system::GrassFeederConfig {
        path_config: "/c".to_string(),
        path_cache: "/k".to_string(),
        debug_mode: true,
        version: "1.2".to_string(),
    };
    let ini = grassfeed::config::prepare_ini::prepare_config_ini(&g, &sample_names());
    assert_eq!(ini.get_from(Some("config"), "conf_filename"), Some("/c/config.ini"));
    assert_eq!(ini.get_from(Some("config"), "mode_debug"), Some("true"));
    assert_eq!(ini.get_from(Some("window"), "GuiWindowWidth"), Some("400"));
    assert_eq!(ini.get_from(Some("window"), "AppRcsVersion"), Some("1.2"));
    assert_eq!(ini.get_from(Some("browserpane"), "BrowserDir"), Some("/k/browser"));
    assert_eq!(ini.get_from(Some("messagesrepo"), "messages_db"), Some("/c/messages.db"));
    assert_eq!(ini.get_from(Some("iconrepo"), "subscriptions_folder"), Some("/c"));
    let cm = ConfigManager::new_with_ini(ini);
    let mut cm = cm;
    cm.set_val("a", "b".to_string());
    assert_eq!(cm.store_if_modified().unwrap().0, "/c/config.ini");
}

#[test]
fn t_store_then_load_over_other_settings() {
    let mut cm = ConfigManager::default();
    cm.set_val("x", "1".to_string());
    cm.set_val("y", "two words \"quoted\"".to_string());
    cm.set_val("x", "3".to_string());
    let text = cm.store_user_conf().unwrap();
    let mut other = ConfigManager::default();
    other.set_val("x", "old".to_string());
    other.set_val("z", "kept".to_string());
    assert!(other.load_user_conf(&text));
    assert_eq!(other.get_val("x"), Some("3".to_string()));
    assert_eq!(other.get_val("y"), Some("two words \"quoted\"".to_string()));
    assert_eq!(other.get_val("z"), Some("kept".to_string()));
    assert_eq!(other.get_user_conf().len(), 3);
}

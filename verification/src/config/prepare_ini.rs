use vstd::prelude::*;
use crate::config::configmanager::{config_section, ini_contents, ini_lookup, ini_new, ini_set_to, ini_with, IniContents, CONF_MODE_DEBUG, CONF_PATH_KEY};
use crate::config::init_system::GrassFeederConfig;
use crate::text::{append_chars, chars_of, string_of};

verus! {

broadcast use vstd::string::group_string_axioms;

/// The section and key names of the start-up ini document that come from the window
/// layer and the components that read the document: the sections of the icon store,
/// the subscription store, the browser pane and the message list, and the keys of the
/// window size, the pane positions, the window title, the browser folder and
/// background, the sort column and order of the message list, and the version.
pub struct IniNames {
    pub icon_section: String,
    pub subscription_section: String,
    pub browser_section: String,
    pub list_section: String,
    pub window_width: String,
    pub window_height: String,
    pub pane1_pos: String,
    pub pane2_pos: String,
    pub window_title: String,
    pub browser_dir: String,
    pub browser_bg: String,
    pub sort_column: String,
    pub sort_ascending: String,
    pub rcs_version: String,
}

/// The section of the window settings.
pub open spec fn window_section() -> Seq<char> {
    "window"@
}

/// The key of the folder of the subscription and icon stores.
pub open spec fn folder_key() -> Seq<char> {
    "subscriptions_folder"@
}

/// The ini document the application starts with, its fifteen settings set in this
/// order: the folder of the icon store and of the subscription store (the configuration
/// folder); the settings file `<config>/config.ini` and the debug mode (`true` or
/// `false`) in `config`; in `window` a size of 400 by 200, panes at 150 and 300, and the
/// window title; the browser folder `<cache>/browser` and browser background 200; sort
/// column 0, ascending; the version in `window`; and the message database
/// `<config>/messages.db` in `messagesrepo`.
pub open spec fn default_ini(g: GrassFeederConfig, n: IniNames) -> IniContents {
    let c0 = IniContents::empty();
    let c1 = ini_with(c0, n.icon_section@, folder_key(), g.path_config@);
    let c2 = ini_with(c1, n.subscription_section@, folder_key(), g.path_config@);
    let c3 = ini_with(c2, config_section(), CONF_PATH_KEY@, g.path_config@ + "/config.ini"@);
    let c4 = ini_with(c3, config_section(), CONF_MODE_DEBUG@, if g.debug_mode { "true"@ } else { "false"@ });
    let c5 = ini_with(c4, window_section(), n.window_width@, "400"@);
    let c6 = ini_with(c5, window_section(), n.window_height@, "200"@);
    let c7 = ini_with(c6, window_section(), n.pane1_pos@, "150"@);
    let c8 = ini_with(c7, window_section(), n.pane2_pos@, "300"@);
    let c9 = ini_with(c8, window_section(), n.window_title@, "app:default:to do"@);
    let c10 = ini_with(c9, n.browser_section@, n.browser_dir@, g.path_cache@ + "/browser"@);
    let c11 = ini_with(c10, n.browser_section@, n.browser_bg@, "200"@);
    let c12 = ini_with(c11, n.list_section@, n.sort_column@, "0"@);
    let c13 = ini_with(c12, n.list_section@, n.sort_ascending@, "true"@);
    let c14 = ini_with(c13, window_section(), n.rcs_version@, g.version@);
    ini_with(c14, "messagesrepo"@, "messages_db"@, g.path_config@ + "/messages.db"@)
}

/// A key that has a value keeps one when any key is set.
proof fn lemma_lookup_kept(c: IniContents, s: Seq<char>, k: Seq<char>, v: Seq<char>, s2: Seq<char>, k2: Seq<char>)
    requires
        ini_lookup(c, s2, k2) is Some,
    ensures
        ini_lookup(ini_with(c, s, k, v), s2, k2) is Some,
{
}

/// A path with a file name appended.
fn joined(path: &String, tail: &str) -> (r: String)
    ensures
        r@ == path@ + tail@,
{
    let mut v = chars_of(path.as_str());
    append_chars(&mut v, &chars_of(tail));
    string_of(&v)
}

/// Builds the ini document the application starts with (see `default_ini`); the folders
/// are made by the caller. The document names the settings file in its `config`
/// section, as `ConfigManager::new_with_ini` asks.
pub fn prepare_config_ini(gf_conf: &GrassFeederConfig, names: &IniNames) -> (r: ini::Ini)
    ensures
        ini_contents(r) == default_ini(*gf_conf, *names),
        ini_lookup(ini_contents(r), config_section(), CONF_PATH_KEY@) is Some,
{
    let mut m = ini_new();
    ini_set_to(&mut m, names.icon_section.as_str(), "subscriptions_folder".to_string(), gf_conf.path_config.clone());
    ini_set_to(&mut m, names.subscription_section.as_str(), "subscriptions_folder".to_string(), gf_conf.path_config.clone());
    ini_set_to(&mut m, "config", CONF_PATH_KEY.to_string(), joined(&gf_conf.path_config, "/config.ini"));
    let ghost c3 = ini_contents(m);
    let debug = if gf_conf.debug_mode { "true".to_string() } else { "false".to_string() };
    ini_set_to(&mut m, "config", CONF_MODE_DEBUG.to_string(), debug);
    ini_set_to(&mut m, "window", names.window_width.clone(), "400".to_string());
    ini_set_to(&mut m, "window", names.window_height.clone(), "200".to_string());
    ini_set_to(&mut m, "window", names.pane1_pos.clone(), "150".to_string());
    ini_set_to(&mut m, "window", names.pane2_pos.clone(), "300".to_string());
    ini_set_to(&mut m, "window", names.window_title.clone(), "app:default:to do".to_string());
    ini_set_to(&mut m, names.browser_section.as_str(), names.browser_dir.clone(), joined(&gf_conf.path_cache, "/browser"));
    ini_set_to(&mut m, names.browser_section.as_str(), names.browser_bg.clone(), "200".to_string());
    ini_set_to(&mut m, names.list_section.as_str(), names.sort_column.clone(), "0".to_string());
    ini_set_to(&mut m, names.list_section.as_str(), names.sort_ascending.clone(), "true".to_string());
    ini_set_to(&mut m, "window", names.rcs_version.clone(), gf_conf.version.clone());
    ini_set_to(&mut m, "messagesrepo", "messages_db".to_string(), joined(&gf_conf.path_config, "/messages.db"));
    proof {
        reveal_strlit("config");
        reveal_strlit("window");
        reveal_strlit("messagesrepo");
        reveal_strlit("messages_db");
        reveal_strlit("subscriptions_folder");
        reveal_strlit("true");
        reveal_strlit("false");
        let g = *gf_conf;
        let n = *names;
        let d = default_ini(g, n);
        assert(ini_lookup(c3, config_section(), CONF_PATH_KEY@) is Some);
        let c4 = ini_with(c3, config_section(), CONF_MODE_DEBUG@, if g.debug_mode { "true"@ } else { "false"@ });
        lemma_lookup_kept(c3, config_section(), CONF_MODE_DEBUG@, if g.debug_mode { "true"@ } else { "false"@ }, config_section(), CONF_PATH_KEY@);
        let c5 = ini_with(c4, window_section(), n.window_width@, "400"@);
        lemma_lookup_kept(c4, window_section(), n.window_width@, "400"@, config_section(), CONF_PATH_KEY@);
        let c6 = ini_with(c5, window_section(), n.window_height@, "200"@);
        lemma_lookup_kept(c5, window_section(), n.window_height@, "200"@, config_section(), CONF_PATH_KEY@);
        let c7 = ini_with(c6, window_section(), n.pane1_pos@, "150"@);
        lemma_lookup_kept(c6, window_section(), n.pane1_pos@, "150"@, config_section(), CONF_PATH_KEY@);
        let c8 = ini_with(c7, window_section(), n.pane2_pos@, "300"@);
        lemma_lookup_kept(c7, window_section(), n.pane2_pos@, "300"@, config_section(), CONF_PATH_KEY@);
        let c9 = ini_with(c8, window_section(), n.window_title@, "app:default:to do"@);
        lemma_lookup_kept(c8, window_section(), n.window_title@, "app:default:to do"@, config_section(), CONF_PATH_KEY@);
        let c10 = ini_with(c9, n.browser_section@, n.browser_dir@, g.path_cache@ + "/browser"@);
        lemma_lookup_kept(c9, n.browser_section@, n.browser_dir@, g.path_cache@ + "/browser"@, config_section(), CONF_PATH_KEY@);
        let c11 = ini_with(c10, n.browser_section@, n.browser_bg@, "200"@);
        lemma_lookup_kept(c10, n.browser_section@, n.browser_bg@, "200"@, config_section(), CONF_PATH_KEY@);
        let c12 = ini_with(c11, n.list_section@, n.sort_column@, "0"@);
        lemma_lookup_kept(c11, n.list_section@, n.sort_column@, "0"@, config_section(), CONF_PATH_KEY@);
        let c13 = ini_with(c12, n.list_section@, n.sort_ascending@, "true"@);
        lemma_lookup_kept(c12, n.list_section@, n.sort_ascending@, "true"@, config_section(), CONF_PATH_KEY@);
        let c14 = ini_with(c13, window_section(), n.rcs_version@, g.version@);
        lemma_lookup_kept(c13, window_section(), n.rcs_version@, g.version@, config_section(), CONF_PATH_KEY@);
        lemma_lookup_kept(c14, "messagesrepo"@, "messages_db"@, g.path_config@ + "/messages.db"@, config_section(), CONF_PATH_KEY@);
    }
    m
}

} // verus!

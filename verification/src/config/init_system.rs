use vstd::prelude::*;
use crate::context::BuildConfigContainer;
use crate::text::{append_chars, chars_of, string_of};

verus! {

broadcast use vstd::string::group_string_axioms;

/// Where the application keeps its settings and its cache, and how it runs.
pub struct GrassFeederConfig {
    pub path_config: String,
    pub path_cache: String,
    pub debug_mode: bool,
    pub version: String,
}

/// The system settings the application starts with: the folder of the subscription and
/// icon stores, the settings file `config.json` in the configuration folder, the debug
/// mode as `true` or `false`, and the version.
pub open spec fn system_settings(gf_conf: GrassFeederConfig) -> Map<Seq<char>, Seq<char>> {
    map![
        "subscriptions_folder"@ => gf_conf.path_config@,
        "conf_filename"@ => gf_conf.path_config@ + "/config.json"@,
        "mode_debug"@ => if gf_conf.debug_mode { "true"@ } else { "false"@ },
        "rcs_version"@ => gf_conf.version@
    ]
}

/// The system settings the application starts with (see `system_settings`). The folders
/// themselves are made by the caller.
pub fn create_system_config(gf_conf: &GrassFeederConfig) -> (r: BuildConfigContainer)
    ensures
        r.view() == system_settings(*gf_conf),
{
    let mut ret = BuildConfigContainer::new();
    ret.insert("subscriptions_folder".to_string(), gf_conf.path_config.clone());
    let mut conf_file = chars_of(gf_conf.path_config.as_str());
    append_chars(&mut conf_file, &chars_of("/config.json"));
    ret.insert("conf_filename".to_string(), string_of(&conf_file));
    let debug = if gf_conf.debug_mode { "true".to_string() } else { "false".to_string() };
    ret.insert("mode_debug".to_string(), debug);
    ret.insert("rcs_version".to_string(), gf_conf.version.clone());
    proof {
        assert(ret.view() =~= system_settings(*gf_conf));
    }
    ret
}

} // verus!

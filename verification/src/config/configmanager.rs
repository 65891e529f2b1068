use vstd::prelude::*;
use crate::context::{parse_isize, parsed_isize, BuildConfig, BuildConfigContainer, TimerEvent};
use crate::text::{chars_of, is_lit, opt_text, string_of};

verus! {

/// The value that a list of entries gives a key: that of its first entry with the key.
pub open spec fn first_value(entries: Seq<(Seq<char>, Seq<char>)>, key: Seq<char>) -> Option<Seq<char>>
    decreases entries.len(),
{
    if entries.len() == 0 {
        None
    } else if entries[0].0 == key {
        Some(entries[0].1)
    } else {
        first_value(entries.skip(1), key)
    }
}

/// Entries of texts by value.
pub open spec fn pairs_of(v: Seq<(String, String)>) -> Seq<(Seq<char>, Seq<char>)> {
    v.map_values(|p: (String, String)| (p.0@, p.1@))
}

/// No two entries have the same key.
pub open spec fn distinct_keys(e: Seq<(Seq<char>, Seq<char>)>) -> bool {
    forall|i: int, j: int| 0 <= i < j < e.len() ==> e[i].0 != e[j].0
}

/// The map that a list of entries describes.
pub open spec fn entries_map(entries: Seq<(Seq<char>, Seq<char>)>) -> Map<Seq<char>, Seq<char>> {
    Map::new(|k: Seq<char>| first_value(entries, k) is Some, |k: Seq<char>| first_value(entries, k).unwrap())
}

/// Giving the first entry with a key a new value gives the key that value and leaves
/// the other keys alone.
proof fn lemma_first_value_update(entries: Seq<(Seq<char>, Seq<char>)>, i: int, key: Seq<char>, value: Seq<char>, k: Seq<char>)
    requires
        0 <= i < entries.len(),
        entries[i].0 == key,
        forall|j: int| 0 <= j < i ==> entries[j].0 != key,
    ensures
        first_value(entries.update(i, (key, value)), k) == if k == key { Some(value) } else { first_value(entries, k) },
    decreases i,
{
    let u = entries.update(i, (key, value));
    if i > 0 {
        assert(u[0] == entries[0]);
        assert(entries[0].0 != key);
        assert(u.skip(1) =~= entries.skip(1).update(i - 1, (key, value)));
        assert forall|j: int| 0 <= j < i - 1 implies entries.skip(1)[j].0 != key by {
            assert(entries.skip(1)[j] == entries[j + 1]);
        }
        lemma_first_value_update(entries.skip(1), i - 1, key, value, k);
    } else {
        assert(u[0] == (key, value));
        assert(u.skip(1) =~= entries.skip(1));
    }
}

/// An entry added after the others gives its key the value where no earlier entry had
/// the key, and leaves the other keys alone.
proof fn lemma_first_value_push(entries: Seq<(Seq<char>, Seq<char>)>, key: Seq<char>, value: Seq<char>, k: Seq<char>)
    requires
        first_value(entries, key) is None,
    ensures
        first_value(entries.push((key, value)), k) == if k == key { Some(value) } else { first_value(entries, k) },
    decreases entries.len(),
{
    let p = entries.push((key, value));
    if entries.len() > 0 {
        assert(p[0] == entries[0]);
        assert(entries[0].0 != key);
        assert(first_value(entries.skip(1), key) is None);
        assert(p.skip(1) =~= entries.skip(1).push((key, value)));
        lemma_first_value_push(entries.skip(1), key, value, k);
        if entries[0].0 != k {
            assert(first_value(p, k) == first_value(p.skip(1), k));
            assert(first_value(entries, k) == first_value(entries.skip(1), k));
        }
    } else {
        assert(p[0] == (key, value));
        assert(p.skip(1) =~= Seq::<(Seq<char>, Seq<char>)>::empty());
    }
}

/// Where the key is among the first `i` entries, there it is found first.
proof fn lemma_first_value_prefix(entries: Seq<(Seq<char>, Seq<char>)>, i: int, key: Seq<char>)
    requires
        0 <= i <= entries.len(),
        forall|j: int| 0 <= j < i ==> entries[j].0 != key,
    ensures
        first_value(entries, key) == first_value(entries.skip(i), key),
    decreases i,
{
    if i > 0 {
        assert(entries[0].0 != key);
        assert(entries.skip(1).skip(i - 1) =~= entries.skip(i));
        assert forall|j: int| 0 <= j < i - 1 implies entries.skip(1)[j].0 != key by {
            assert(entries.skip(1)[j] == entries[j + 1]);
        }
        lemma_first_value_prefix(entries.skip(1), i - 1, key);
    } else {
        assert(entries.skip(0) =~= entries);
    }
}

/// The position of the first entry with a key, where there is one.
fn find_entry(entries: &Vec<(String, String)>, key: &str) -> (r: Option<usize>)
    ensures
        match r {
            Some(i) => i < entries@.len() && entries@[i as int].0@ == key@ && forall|j: int|
                0 <= j < i ==> entries@[j].0@ != key@,
            None => forall|j: int| 0 <= j < entries@.len() ==> entries@[j].0@ != key@,
        },
{
    let mut i: usize = 0;
    while i < entries.len()
        invariant
            i <= entries@.len(),
            forall|j: int| 0 <= j < i ==> entries@[j].0@ != key@,
        decreases entries.len() - i,
    {
        if is_lit(entries[i].0.as_str(), key) {
            return Some(i);
        }
        i = i + 1;
    }
    None
}

/// What a list of entries gives a key, read from its first entry with the key.
proof fn lemma_find_entry(entries: Seq<(String, String)>, r: Option<usize>, key: Seq<char>)
    requires
        match r {
            Some(i) => i < entries.len() && entries[i as int].0@ == key && forall|j: int|
                0 <= j < i ==> entries[j].0@ != key,
            None => forall|j: int| 0 <= j < entries.len() ==> entries[j].0@ != key,
        },
    ensures
        first_value(pairs_of(entries), key) == match r {
            Some(i) => Some(entries[i as int].1@),
            None => None::<Seq<char>>,
        },
{
    let p = pairs_of(entries);
    match r {
        Some(i) => {
            lemma_first_value_prefix(p, i as int, key);
        },
        None => {
            lemma_first_value_prefix(p, p.len() as int, key);
        },
    }
}

/// What `serde_json::from_str` makes of a text read as a map of texts to texts: its
/// entries; none where the text is not a JSON object of texts.
pub uninterp spec fn json_text_map(text: Seq<char>) -> Option<Seq<(Seq<char>, Seq<char>)>>;

/// What `serde_json::to_string_pretty` writes for the map of texts that the entries make
/// (an object, two spaces of indent); none where it reports an error.
pub uninterp spec fn pretty_json_of(entries: Seq<(Seq<char>, Seq<char>)>) -> Option<Seq<char>>;

/// Reads a JSON object of texts (`serde_json::from_str` into a `BTreeMap`, its entries
/// in key order). Named by `json_text_map`.
#[verifier::external_body]
fn decode_text_map(text: &str) -> (r: Option<Vec<(String, String)>>)
    ensures
        match r {
            Some(v) => json_text_map(text@) == Some(pairs_of(v@)),
            None => json_text_map(text@) is None,
        },
{
    serde_json::from_str::<std::collections::BTreeMap<String, String>>(text).ok().map(|m| m.into_iter().collect())
}

/// A text that reads back as entries with distinct keys that make the map `m`.
pub open spec fn reads_back(text: Option<String>, m: Map<Seq<char>, Seq<char>>) -> bool {
    text matches Some(t) && json_text_map(t@) matches Some(d) && distinct_keys(d) && entries_map(d) == m
}

/// Writes the map of texts that the entries make as a JSON object
/// (`serde_json::to_string_pretty` on a `BTreeMap`). Named by `pretty_json_of`.
///
/// Writing a map of texts does not fail (serde_json fails only on maps whose keys are no
/// strings), and reading what it wrote gives back the map: where the entries have distinct
/// keys, the text reads as entries with distinct keys that make the same map.
#[verifier::external_body]
fn encode_text_map(entries: &Vec<(String, String)>) -> (r: Option<String>)
    ensures
        opt_text(r) == pretty_json_of(pairs_of(entries@)),
        r is Some,
        distinct_keys(pairs_of(entries@)) ==> reads_back(r, entries_map(pairs_of(entries@))),
{
    serde_json::to_string_pretty(&entries.iter().cloned().collect::<std::collections::BTreeMap<String, String>>()).ok()
}

#[verifier::external_type_specification]
#[verifier::external_body]
pub struct ExIni(ini::Ini);

/// The sections of an ini document by name (none for the general section), each with the
/// properties of its first section of that name: key to first value.
pub type IniContents = Map<Option<Seq<char>>, Map<Seq<char>, Seq<char>>>;

/// What an ini document holds (see `IniContents`).
pub uninterp spec fn ini_contents(ini: ini::Ini) -> IniContents;

/// What `Ini::load_from_str` makes of a text: the contents of the document; none where
/// it reports a parse error.
pub uninterp spec fn ini_text_contents(text: Seq<char>) -> Option<IniContents>;

/// The value of a key in a named section, where there is one.
pub open spec fn ini_lookup(c: IniContents, section: Seq<char>, key: Seq<char>) -> Option<Seq<char>> {
    if c.contains_key(Some(section)) && c[Some(section)].contains_key(key) {
        Some(c[Some(section)][key])
    } else {
        None
    }
}

/// The contents with a key of a named section set, the section made where it was missing.
pub open spec fn ini_with(c: IniContents, section: Seq<char>, key: Seq<char>, value: Seq<char>) -> IniContents {
    let props = if c.contains_key(Some(section)) { c[Some(section)] } else { Map::empty() };
    c.insert(Some(section), props.insert(key, value))
}

/// An empty document (`Ini::new`).
#[verifier::external_body]
pub(crate) fn ini_new() -> (r: ini::Ini)
    ensures
        ini_contents(r) == IniContents::empty(),
{
    ini::Ini::new()
}

/// A copy of a document (`Ini::clone`).
#[verifier::external_body]
fn ini_clone(i: &ini::Ini) -> (r: ini::Ini)
    ensures
        ini_contents(r) == ini_contents(*i),
{
    i.clone()
}

/// The number of section names of a document (`Ini::len`).
#[verifier::external_body]
fn ini_len(i: &ini::Ini) -> (r: usize)
    ensures
        r == ini_contents(*i).dom().len(),
{
    i.len()
}

/// The first value of a key in the first section of a name (`Ini::get_from`).
#[verifier::external_body]
fn ini_get_from(i: &ini::Ini, section: &str, key: &str) -> (r: Option<String>)
    ensures
        opt_text(r) == ini_lookup(ini_contents(*i), section@, key@),
{
    i.get_from(Some(section), key).map(|v| v.to_string())
}

/// Sets a key in the first section of a name, which is made where it is missing; the key
/// keeps no other value (`Ini::set_to`).
#[verifier::external_body]
pub(crate) fn ini_set_to(i: &mut ini::Ini, section: &str, key: String, value: String)
    ensures
        ini_contents(*final(i)) == ini_with(ini_contents(*old(i)), section@, key@, value@),
{
    i.set_to(Some(section), key, value)
}

/// Reads an ini document from a text (`Ini::load_from_str`), the error dropped. Named by
/// `ini_text_contents`.
#[verifier::external_body]
fn ini_parse(text: &str) -> (r: Option<ini::Ini>)
    ensures
        match r {
            Some(x) => ini_text_contents(text@) == Some(ini_contents(x)),
            None => ini_text_contents(text@) is None,
        },
{
    ini::Ini::load_from_str(text).ok()
}

/// A text without the byte order mark it may start with.
pub open spec fn without_bom(text: Seq<char>) -> Seq<char> {
    if text.len() > 0 && text[0] == '\u{feff}' { text.skip(1) } else { text }
}

/// The name of the section that holds these settings.
pub open spec fn config_section() -> Seq<char> {
    "config"@
}

/// The key of the settings file's name in the build settings.
pub const CONF_PATH_KEY: &'static str = "conf_filename";
/// The key of the debug mode.
pub const CONF_MODE_DEBUG: &'static str = "mode_debug";

/// The settings of the application: those the user changes, kept in a JSON file, those
/// of the system, and an older ini document.
pub struct ConfigManager {
    cconf: ini::Ini,
    cconf_modified: bool,
    cconf_filename: String,
    user_config: Vec<(String, String)>,
    system_config: BuildConfigContainer,
}

impl ConfigManager {
    /// The user settings: name to value.
    pub closed spec fn user(&self) -> Map<Seq<char>, Seq<char>> {
        entries_map(pairs_of(self.user_config@))
    }

    /// The user settings as the list they are written from.
    pub closed spec fn user_entries(&self) -> Seq<(Seq<char>, Seq<char>)> {
        pairs_of(self.user_config@)
    }

    /// The system settings.
    pub closed spec fn system(&self) -> Map<Seq<char>, Seq<char>> {
        self.system_config.view()
    }

    /// Whether a user setting changed since the manager was made.
    pub closed spec fn modified(&self) -> bool {
        self.cconf_modified
    }

    /// The name of the settings file.
    pub closed spec fn filename(&self) -> Seq<char> {
        self.cconf_filename@
    }

    /// The contents of the ini document.
    pub closed spec fn ini(&self) -> IniContents {
        ini_contents(self.cconf)
    }

    /// The value of a user setting, where there is one.
    pub fn get_val(&self, key: &str) -> (r: Option<String>)
        ensures
            match r {
                Some(v) => self.user().contains_key(key@) && v@ == self.user()[key@],
                None => !self.user().contains_key(key@),
            },
    {
        let f = find_entry(&self.user_config, key);
        proof {
            lemma_find_entry(self.user_config@, f, key@);
        }
        match f {
            Some(i) => Some(self.user_config[i].1.clone()),
            None => None,
        }
    }

    /// A user setting read as an integer (see `parsed_isize`); none where it is
    /// missing or no number.
    pub fn get_val_int(&self, key: &str) -> (r: Option<isize>)
        ensures
            r == if self.user().contains_key(key@) { parsed_isize(self.user()[key@]) } else { None },
    {
        match self.get_val(key) {
            Some(v) => parse_isize(v.as_str()),
            None => None,
        }
    }

    /// A user setting read as a flag: true only where it is `true`.
    pub fn get_val_bool(&self, key: &str) -> (r: bool)
        ensures
            r == (self.user().contains_key(key@) && self.user()[key@] == "true"@),
    {
        match self.get_val(key) {
            Some(v) => is_lit(v.as_str(), "true"),
            None => false,
        }
    }

    /// The value of a system setting, where there is one.
    pub fn get_sys_val(&self, key: &str) -> (r: Option<String>)
        ensures
            match r {
                Some(v) => self.system().contains_key(key@) && v@ == self.system()[key@],
                None => !self.system().contains_key(key@),
            },
    {
        self.system_config.get(key)
    }

    /// Takes the system settings.
    pub fn set_system_config(&mut self, conf: BuildConfigContainer)
        ensures
            final(self).system() == conf.view(),
            final(self).user() == old(self).user(),
            final(self).user_entries() == old(self).user_entries(),
            final(self).modified() == old(self).modified(),
            final(self).filename() == old(self).filename(),
            final(self).ini() == old(self).ini(),
    {
        self.system_config = conf;
    }

    /// Sets a user setting. The settings count as changed only where the value differs
    /// from the one the setting had.
    pub fn set_val(&mut self, key: &str, val: String)
        ensures
            final(self).user() == old(self).user().insert(key@, val@),
            final(self).modified() == (old(self).modified() || !(old(self).user().contains_key(key@)
                && old(self).user()[key@] == val@)),
            final(self).system() == old(self).system(),
            final(self).filename() == old(self).filename(),
            final(self).ini() == old(self).ini(),
            distinct_keys(old(self).user_entries()) ==> distinct_keys(final(self).user_entries()),
    {
        let f = find_entry(&self.user_config, key);
        proof {
            lemma_find_entry(self.user_config@, f, key@);
        }
        let ghost old_entries = pairs_of(self.user_config@);
        match f {
            Some(i) => {
                if is_lit(self.user_config[i].1.as_str(), val.as_str()) {
                    return;
                }
                let k = self.user_config[i].0.clone();
                proof {
                    assert(k@ == key@);
                }
                self.user_config.set(i, (k, val));
                self.cconf_modified = true;
                proof {
                    assert(pairs_of(self.user_config@) =~= old_entries.update(i as int, (key@, val@)));
                    assert forall|j: int| 0 <= j < i implies old_entries[j].0 != key@ by {}
                    assert forall|k2: Seq<char>| #[trigger] first_value(pairs_of(self.user_config@), k2)
                        == if k2 == key@ { Some(val@) } else { first_value(old_entries, k2) } by {
                        lemma_first_value_update(old_entries, i as int, key@, val@, k2);
                    }
                    assert(self.user() =~= old(self).user().insert(key@, val@));
                    if distinct_keys(old_entries) {
                        let ne = pairs_of(self.user_config@);
                        assert forall|a: int, b: int| 0 <= a < b < ne.len() implies #[trigger] ne[a].0
                            != #[trigger] ne[b].0 by {
                            assert(ne[a].0 == old_entries[a].0);
                            assert(ne[b].0 == old_entries[b].0);
                        }
                    }
                }
            },
            None => {
                self.user_config.push((string_of(&chars_of(key)), val));
                self.cconf_modified = true;
                proof {
                    assert(pairs_of(self.user_config@) =~= old_entries.push((key@, val@)));
                    assert forall|k2: Seq<char>| #[trigger] first_value(pairs_of(self.user_config@), k2)
                        == if k2 == key@ { Some(val@) } else { first_value(old_entries, k2) } by {
                        lemma_first_value_push(old_entries, key@, val@, k2);
                    }
                    assert(self.user() =~= old(self).user().insert(key@, val@));
                    assert forall|a: int| 0 <= a < old_entries.len() implies #[trigger] old_entries[a].0 != key@ by {
                        assert(old_entries[a].0 == self.user_config@[a].0@);
                    }
                }
            },
        }
    }

    /// The user settings, as the list they are written from.
    pub fn get_user_conf(&self) -> (r: Vec<(String, String)>)
        ensures
            pairs_of(r@) == self.user_entries(),
    {
        let mut r: Vec<(String, String)> = Vec::new();
        let mut i: usize = 0;
        while i < self.user_config.len()
            invariant
                i <= self.user_config@.len(),
                r@.len() == i,
                forall|j: int| 0 <= j < i ==> (#[trigger] r@[j]).0@ == self.user_config@[j].0@ && r@[j].1@
                    == self.user_config@[j].1@,
            decreases self.user_config.len() - i,
        {
            let k = self.user_config[i].0.clone();
            let v = self.user_config[i].1.clone();
            r.push((k, v));
            i = i + 1;
        }
        proof {
            assert(pairs_of(r@) =~= pairs_of(self.user_config@));
        }
        r
    }

    /// Takes the user settings of a JSON text (an object of texts) over the present ones,
    /// each as `set_val` does. False, with nothing changed, where the text is no such
    /// object.
    pub fn load_user_conf(&mut self, text: &str) -> (r: bool)
        ensures
            r == json_text_map(text@) is Some,
            !r ==> final(self).user() == old(self).user() && final(self).modified() == old(self).modified(),
            distinct_keys(old(self).user_entries()) ==> distinct_keys(final(self).user_entries()),
            r ==> final(self).user() == settings_after(old(self).user(), json_text_map(text@)->Some_0)
                && final(self).modified() == (old(self).modified() || changes_any(old(self).user(),
                json_text_map(text@)->Some_0)),
            final(self).system() == old(self).system(),
            final(self).filename() == old(self).filename(),
            final(self).ini() == old(self).ini(),
    {
        match decode_text_map(text) {
            None => false,
            Some(entries) => {
                let ghost u0 = self.user();
                let ghost m0 = self.modified();
                let ghost s0 = self.system();
                let ghost f0 = self.filename();
                let ghost i0 = self.ini();
                let ghost es = pairs_of(entries@);
                let mut i: usize = 0;
                proof {
                    assert(es.take(0) =~= Seq::<(Seq<char>, Seq<char>)>::empty());
                }
                while i < entries.len()
                    invariant
                        i <= entries@.len(),
                        es == pairs_of(entries@),
                        self.user() == settings_after(u0, es.take(i as int)),
                        self.modified() == (m0 || changes_any(u0, es.take(i as int))),
                        self.system() == s0,
                        self.filename() == f0,
                        self.ini() == i0,
                        distinct_keys(old(self).user_entries()) ==> distinct_keys(self.user_entries()),
                    decreases entries.len() - i,
                {
                    proof {
                        assert(es.take(i + 1).drop_last() =~= es.take(i as int));
                        assert(es.take(i + 1).last() == (entries@[i as int].0@, entries@[i as int].1@));
                    }
                    let k = entries[i].0.clone();
                    let v = entries[i].1.clone();
                    self.set_val(k.as_str(), v);
                    i = i + 1;
                }
                proof {
                    assert(es.take(i as int) =~= es);
                }
                true
            },
        }
    }

    /// The user settings as a JSON object of texts. Writing them does not fail, and the
    /// text reads back as the same settings (see `lemma_load_gives_back_stored`).
    pub fn store_user_conf(&self) -> (r: Option<String>)
        ensures
            opt_text(r) == pretty_json_of(self.user_entries()),
            r is Some,
            distinct_keys(self.user_entries()) ==> reads_back(r, self.user()),
    {
        encode_text_map(&self.user_config)
    }

    /// Where a user setting changed, the file to write and what to write into it: the
    /// user settings as JSON (see `store_user_conf`). None where nothing changed or
    /// writing the JSON fails. The settings still count as changed afterwards.
    pub fn store_if_modified(&self) -> (r: Option<(String, String)>)
        ensures
            match r {
                Some((f, t)) => self.modified() && f@ == self.filename() && pretty_json_of(self.user_entries())
                    == Some(t@),
                None => !self.modified() || pretty_json_of(self.user_entries()) is None,
            },
    {
        if !self.cconf_modified {
            return None;
        }
        match self.store_user_conf() {
            Some(t) => Some((self.cconf_filename.clone(), t)),
            None => None,
        }
    }

    /// What a timer event asks of the settings: on the ten-second tick and at shutdown,
    /// to write them where they changed (see `store_if_modified`); nothing otherwise.
    pub fn trigger(&self, event: TimerEvent) -> (r: Option<(String, String)>)
        ensures
            (event == TimerEvent::Timer10s || event == TimerEvent::Shutdown) ==> match r {
                Some((f, t)) => self.modified() && f@ == self.filename() && pretty_json_of(self.user_entries())
                    == Some(t@),
                None => !self.modified() || pretty_json_of(self.user_entries()) is None,
            },
            !(event == TimerEvent::Timer10s || event == TimerEvent::Shutdown) ==> r is None,
    {
        match event {
            TimerEvent::Timer10s => self.store_if_modified(),
            TimerEvent::Shutdown => self.store_if_modified(),
            _ => None,
        }
    }
}

impl ConfigManager {
    /// The name of the section that holds these settings.
    pub fn section_name() -> (r: String)
        ensures
            r@ == config_section(),
    {
        "config".to_string()
    }

    /// A manager with no settings, an empty ini document, nothing changed, and the
    /// settings file `default_config.ini`.
    pub fn new() -> (r: ConfigManager)
        ensures
            r.user() == Map::<Seq<char>, Seq<char>>::empty(),
            r.system() == Map::<Seq<char>, Seq<char>>::empty(),
            r.ini() == IniContents::empty(),
            !r.modified(),
            r.filename() == "default_config.ini"@,
            distinct_keys(r.user_entries()),
    {
        let r = ConfigManager {
            cconf: ini_new(),
            cconf_modified: false,
            cconf_filename: "default_config.ini".to_string(),
            user_config: Vec::new(),
            system_config: BuildConfigContainer::new(),
        };
        proof {
            assert(r.user() =~= Map::<Seq<char>, Seq<char>>::empty());
        }
        r
    }

    /// A manager over an ini document that names the settings file in its `config`
    /// section, under `conf_filename`.
    pub fn new_with_ini(ini_r: ini::Ini) -> (r: ConfigManager)
        requires
            ini_lookup(ini_contents(ini_r), config_section(), CONF_PATH_KEY@) is Some,
        ensures
            r.filename() == ini_lookup(ini_contents(ini_r), config_section(), CONF_PATH_KEY@)->Some_0,
            r.ini() == ini_contents(ini_r),
            r.user() == Map::<Seq<char>, Seq<char>>::empty(),
            r.system() == Map::<Seq<char>, Seq<char>>::empty(),
            !r.modified(),
            distinct_keys(r.user_entries()),
    {
        let name = Self::section_name();
        let filename = match ini_get_from(&ini_r, name.as_str(), CONF_PATH_KEY) {
            Some(f) => f,
            None => { return Self::new(); },
        };
        let mut r = Self::new();
        r.cconf_filename = filename;
        r.cconf = ini_r;
        r
    }

    /// A manager for the settings file that the build settings name under
    /// `conf_filename`, with the system settings. The user settings are read from the
    /// file afterwards (see `load_user_conf`).
    pub fn build(conf: &BuildConfigContainer, system_config: BuildConfigContainer) -> (r: ConfigManager)
        requires
            conf.view().contains_key(CONF_PATH_KEY@),
        ensures
            r.filename() == conf.view()[CONF_PATH_KEY@],
            r.system() == system_config.view(),
            r.user() == Map::<Seq<char>, Seq<char>>::empty(),
            r.ini() == IniContents::empty(),
            !r.modified(),
            distinct_keys(r.user_entries()),
    {
        let mut r = Self::new();
        match conf.get(CONF_PATH_KEY) {
            Some(f) => { r.cconf_filename = f; },
            None => {},
        }
        r.set_system_config(system_config);
        r
    }

    /// A copy of the ini document.
    pub fn get_conf(&self) -> (r: ini::Ini)
        ensures
            ini_contents(r) == self.ini(),
    {
        ini_clone(&self.cconf)
    }

    /// The number of section names of the ini document.
    pub fn conf_len(&self) -> (r: usize)
        ensures
            r == self.ini().dom().len(),
    {
        ini_len(&self.cconf)
    }

    /// Takes the ini document that a settings file holds, read from `text` (a leading
    /// byte order mark is skipped). Where it parses, the file becomes the settings file,
    /// and where it has more than two sections it replaces the present document, its
    /// `config` section set to the debug mode that the user settings hold.
    pub fn load_from_file(&mut self, filename: &str, text: &str)
        ensures
            match ini_text_contents(without_bom(text@)) {
                None => final(self).filename() == old(self).filename() && final(self).ini() == old(self).ini(),
                Some(c) => final(self).filename() == filename@ && final(self).ini() == if c.dom().len() > 2 {
                    ini_with(c, config_section(), CONF_MODE_DEBUG@,
                        if old(self).user().contains_key(CONF_MODE_DEBUG@) && old(self).user()[CONF_MODE_DEBUG@]
                            == "true"@ { "true"@ } else { "false"@ })
                } else {
                    old(self).ini()
                },
            },
            final(self).user() == old(self).user(),
            final(self).user_entries() == old(self).user_entries(),
            final(self).system() == old(self).system(),
            final(self).modified() == old(self).modified(),
    {
        let c = chars_of(text);
        let body = if c.len() > 0 && c[0] == '\u{feff}' {
            let mut rest: Vec<char> = Vec::new();
            let mut i: usize = 1;
            while i < c.len()
                invariant
                    1 <= i <= c@.len(),
                    rest@ == c@.subrange(1, i as int),
                decreases c.len() - i,
            {
                rest.push(c[i]);
                proof {
                    assert(c@.subrange(1, i + 1) =~= c@.subrange(1, i as int).push(c@[i as int]));
                }
                i = i + 1;
            }
            proof {
                assert(c@.subrange(1, c@.len() as int) =~= c@.skip(1));
            }
            string_of(&rest)
        } else {
            string_of(&c)
        };
        match ini_parse(body.as_str()) {
            Some(new_ini) => {
                if ini_len(&new_ini) > 2 {
                    let mode_debug = self.get_val_bool(CONF_MODE_DEBUG);
                    self.cconf = new_ini;
                    let md = if mode_debug { "true".to_string() } else { "false".to_string() };
                    let name = Self::section_name();
                    ini_set_to(&mut self.cconf, name.as_str(), CONF_MODE_DEBUG.to_string(), md);
                }
                self.cconf_filename = string_of(&chars_of(filename));
            },
            None => {},
        }
    }

    /// Sets a key of a section of the ini document. The settings count as changed only
    /// where the value differs from the one the key had.
    pub fn set_section_key(&mut self, section: &str, key: &str, value: &str)
        ensures
            ini_lookup(old(self).ini(), section@, key@) == Some(value@) ==> final(self).ini() == old(self).ini()
                && final(self).modified() == old(self).modified(),
            ini_lookup(old(self).ini(), section@, key@) != Some(value@) ==> final(self).ini() == ini_with(
                old(self).ini(), section@, key@, value@) && final(self).modified(),
            final(self).user() == old(self).user(),
            final(self).user_entries() == old(self).user_entries(),
            final(self).system() == old(self).system(),
            final(self).filename() == old(self).filename(),
    {
        match ini_get_from(&self.cconf, section, key) {
            Some(prev) => {
                if is_lit(prev.as_str(), value) {
                    return;
                }
            },
            None => {},
        }
        ini_set_to(&mut self.cconf, section, key.to_string(), value.to_string());
        self.cconf_modified = true;
    }

    /// The value of a key of a section of the ini document, where there is one.
    pub fn get_section_key(&self, section: &str, key: &str) -> (r: Option<String>)
        ensures
            opt_text(r) == ini_lookup(self.ini(), section@, key@),
    {
        ini_get_from(&self.cconf, section, key)
    }

    /// A key of a section of the ini document read as a flag: true only where it is
    /// `true`.
    pub fn get_section_key_bool(&self, section: &str, key: &str) -> (r: bool)
        ensures
            r == (ini_lookup(self.ini(), section@, key@) == Some("true"@)),
    {
        match ini_get_from(&self.cconf, section, key) {
            Some(v) => is_lit(v.as_str(), "true"),
            None => false,
        }
    }

    /// A key of a section of the ini document read as an integer (see `parsed_isize`);
    /// the default where it is missing or no number.
    pub fn get_section_key_int(&self, section: &str, key: &str, defaultv: isize) -> (r: isize)
        ensures
            r == match ini_lookup(self.ini(), section@, key@) {
                Some(v) => match parsed_isize(v) {
                    Some(n) => n,
                    None => defaultv,
                },
                None => defaultv,
            },
    {
        match ini_get_from(&self.cconf, section, key) {
            Some(v) => match parse_isize(v.as_str()) {
                Some(n) => n,
                None => defaultv,
            },
            None => defaultv,
        }
    }
}

impl Default for ConfigManager {
    /// See `ConfigManager::new`.
    fn default() -> (r: ConfigManager)
        ensures
            r.user() == Map::<Seq<char>, Seq<char>>::empty(),
            r.system() == Map::<Seq<char>, Seq<char>>::empty(),
            r.ini() == IniContents::empty(),
            !r.modified(),
            r.filename() == "default_config.ini"@,
            distinct_keys(r.user_entries()),
    {
        ConfigManager::new()
    }
}

/// No entry of the list has the key.
proof fn lemma_first_value_absent(entries: Seq<(Seq<char>, Seq<char>)>, key: Seq<char>)
    requires
        forall|j: int| 0 <= j < entries.len() ==> entries[j].0 != key,
    ensures
        first_value(entries, key) is None,
{
    lemma_first_value_prefix(entries, entries.len() as int, key);
    assert(entries.skip(entries.len() as int) =~= Seq::<(Seq<char>, Seq<char>)>::empty());
}

/// Setting entries with distinct keys in turn gives each of their keys its value and
/// leaves the other settings alone.
pub proof fn lemma_settings_after_distinct(m: Map<Seq<char>, Seq<char>>, d: Seq<(Seq<char>, Seq<char>)>)
    requires
        distinct_keys(d),
    ensures
        settings_after(m, d) == m.union_prefer_right(entries_map(d)),
    decreases d.len(),
{
    if d.len() == 0 {
        assert(entries_map(d) =~= Map::<Seq<char>, Seq<char>>::empty());
        assert(m.union_prefer_right(entries_map(d)) =~= m);
    } else {
        let p = d.drop_last();
        let x = d.last();
        assert forall|a: int, b: int| 0 <= a < b < p.len() implies #[trigger] p[a].0 != #[trigger] p[b].0 by {
            assert(p[a] == d[a] && p[b] == d[b]);
        }
        lemma_settings_after_distinct(m, p);
        assert forall|j: int| 0 <= j < p.len() implies #[trigger] p[j].0 != x.0 by {
            assert(p[j] == d[j]);
        }
        lemma_first_value_absent(p, x.0);
        assert(p.push(x) =~= d);
        assert forall|k: Seq<char>| #[trigger] first_value(d, k) == if k == x.0 { Some(x.1) } else {
            first_value(p, k)
        } by {
            lemma_first_value_push(p, x.0, x.1, k);
        }
        assert(entries_map(d) =~= entries_map(p).insert(x.0, x.1));
        assert(settings_after(m, d) =~= m.union_prefer_right(entries_map(d)));
    }
}

/// Loading a text that `store_user_conf` wrote for the settings `stored` (see
/// `reads_back`) succeeds and gives every stored setting its stored value, the other
/// settings keeping theirs: a store followed by a load gives back what was stored.
pub proof fn lemma_load_gives_back_stored(before: Map<Seq<char>, Seq<char>>, stored: Map<Seq<char>, Seq<char>>, text: String)
    requires
        reads_back(Some(text), stored),
    ensures
        json_text_map(text@) is Some,
        settings_after(before, json_text_map(text@)->Some_0) == before.union_prefer_right(stored),
{
    lemma_settings_after_distinct(before, json_text_map(text@)->Some_0);
}

/// The user settings after each entry was set in turn.
pub open spec fn settings_after(m: Map<Seq<char>, Seq<char>>, es: Seq<(Seq<char>, Seq<char>)>) -> Map<Seq<char>, Seq<char>>
    decreases es.len(),
{
    if es.len() == 0 {
        m
    } else {
        settings_after(m, es.drop_last()).insert(es.last().0, es.last().1)
    }
}

/// Whether setting the entries in turn changes a value.
pub open spec fn changes_any(m: Map<Seq<char>, Seq<char>>, es: Seq<(Seq<char>, Seq<char>)>) -> bool
    decreases es.len(),
{
    if es.len() == 0 {
        false
    } else {
        let before = settings_after(m, es.drop_last());
        changes_any(m, es.drop_last()) || !(before.contains_key(es.last().0) && before[es.last().0] == es.last().1)
    }
}

} // verus!

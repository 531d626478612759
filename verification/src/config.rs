//! The config stores (settings, profiles, themes, keybindings): where each
//! store keeps its files under the config root, and what it computes from the
//! maps it reads. Reading and writing the files is left to the application.

use vstd::prelude::*;
use vstd::string::StrSliceExecFns;
use vstd::string::StringExecFns;

use crate::entities::setting::scope_columns;
use crate::entities::{SettingEntry, SettingScope};
use crate::sort::{sort_positions_str, stably_sorted_str, str_before, views};
use crate::error::{OrchestratorError, Result};
use crate::json::{spec_json_map, string_map_from_json, string_map_to_json};
use crate::strmap::{sorted_listing, spec_json_map_text_pretty, StringMap};
use crate::text::{str_equal, str_lt};

verus! {

// ── keybindings ──────────────────────────────────────────────────────────────

/// A keybinding entry: an action and its effective chord.
#[derive(Debug, Clone, PartialEq, Eq)]
pub struct KeybindingEntry {
    pub action: String,
    pub chord: String,
}

/// The keybinding store: a compiled-in default keymap, and user overrides kept
/// in `config/keybindings/overrides.json` under the root.
pub struct KeybindingStore {
    root: String,
    defaults: StringMap,
}

/// Where the keybinding overrides live, relative to the config root.
pub const KEYBINDING_OVERRIDES_FILE: &'static str = "config/keybindings/overrides.json";

impl KeybindingStore {
    /// A store with the given root and default keymap (action to chord).
    pub fn new(root: &str, defaults: StringMap) -> (r: Self)
        requires
            defaults.wf(),
        ensures
            r.root_dir()@ == root@,
            r.spec_defaults()@ == defaults@,
            r.spec_defaults().wf(),
    {
        KeybindingStore { root: root.to_owned(), defaults }
    }

    /// The root directory.
    pub closed spec fn root_dir(&self) -> String {
        self.root
    }

    /// The compiled-in default keymap.
    pub closed spec fn spec_defaults(&self) -> StringMap {
        self.defaults
    }

    /// The root directory.
    pub fn root(&self) -> (r: &str)
        ensures
            r@ == self.root_dir()@,
    {
        self.root.as_str()
    }

    /// The compiled-in default keymap.
    pub fn defaults(&self) -> (r: &StringMap)
        ensures
            r == self.spec_defaults(),
    {
        &self.defaults
    }
}

// ── settings ─────────────────────────────────────────────────────────────────

/// The settings store: one JSON map of key to value per scope, under the root.
pub struct SettingStore {
    root: String,
}

/// The file of a scope's settings, relative to the config root:
/// `config/settings/global.json` or `config/settings/project/<id>.json`.
pub open spec fn spec_setting_file(scope: SettingScope) -> Seq<char> {
    match scope {
        SettingScope::Global => "config/settings/global.json"@,
        SettingScope::Project(p) => "config/settings/project/"@ + p@ + ".json"@,
    }
}

impl SettingStore {
    /// A store rooted at `root`.
    pub fn new(root: &str) -> (r: Self)
        ensures
            r.root_dir()@ == root@,
    {
        SettingStore { root: root.to_owned() }
    }

    /// The root directory.
    pub closed spec fn root_dir(&self) -> String {
        self.root
    }

    /// The root directory.
    pub fn root(&self) -> (r: &str)
        ensures
            r@ == self.root_dir()@,
    {
        self.root.as_str()
    }
}

/// The file holding a scope's settings, relative to the config root.
pub fn setting_file(scope: &SettingScope) -> (r: String)
    ensures
        r@ == spec_setting_file(*scope),
{
    match scope {
        SettingScope::Global => "config/settings/global.json".to_owned(),
        SettingScope::Project(p) => {
            let mut s = "config/settings/project/".to_owned();
            s.append(p.as_str());
            s.append(".json");
            s
        },
    }
}

/// `r` lists the settings of `m`, each key once, ascending by key.
pub open spec fn entries_listed(m: Map<Seq<char>, Seq<char>>, r: Seq<SettingEntry>) -> bool {
    &&& forall|i: int| 0 <= i < r.len() ==> m.contains_key(#[trigger] r[i].key@) && m[r[i].key@] == r[i].value_json@
    &&& forall|k: Seq<char>| m.contains_key(k) ==> exists|i: int| 0 <= i < r.len() && #[trigger] r[i].key@ == k
    &&& forall|i: int, j: int| 0 <= i < j < r.len() ==> str_lt(#[trigger] r[i].key@, #[trigger] r[j].key@)
}

/// The entries of a settings map, ascending by key.
pub fn setting_entries(map: &StringMap) -> (r: Vec<SettingEntry>)
    requires
        map.wf(),
    ensures
        entries_listed(map@, r@),
{
    let pairs = map.sorted_entries();
    let mut out: Vec<SettingEntry> = Vec::new();
    let mut i: usize = 0;
    while i < pairs.len()
        invariant
            i <= pairs@.len(),
            out@.len() == i,
            forall|t: int| 0 <= t < i ==> (#[trigger] out@[t]).key@ == pairs@[t].0@ && out@[t].value_json@ == pairs@[t].1@,
        decreases pairs.len() - i,
    {
        out.push(SettingEntry { key: pairs[i].0.clone(), value_json: pairs[i].1.clone() });
        i = i + 1;
    }
    proof {
        assert forall|k: Seq<char>| map@.contains_key(k) implies exists|i: int|
            0 <= i < out@.len() && #[trigger] out@[i].key@ == k by {
            let t = choose|t: int| 0 <= t < pairs@.len() && #[trigger] pairs@[t].0@ == k;
            assert(out@[t].key@ == k);
        }
        assert forall|a: int, b: int| 0 <= a < b < out@.len() implies str_lt(
            #[trigger] out@[a].key@,
            #[trigger] out@[b].key@,
        ) by {
            assert(str_lt(pairs@[a].0@, pairs@[b].0@));
        }
    }
    out
}

/// The effective settings of a project: the global map with the project's
/// values taking precedence.
pub fn merged_settings(global: &StringMap, project: &StringMap) -> (r: StringMap)
    requires
        global.wf(),
        project.wf(),
    ensures
        r.wf(),
        r@ == global@.union_prefer_right(project@),
{
    let mut out = StringMap::new();
    let g = global.sorted_entries();
    let mut i: usize = 0;
    while i < g.len()
        invariant
            out.wf(),
            sorted_listing(global@, g@),
            i <= g@.len(),
            forall|k: Seq<char>| #[trigger] out@.contains_key(k) <==> exists|t: int| 0 <= t < i && g@[t].0@ == k,
            forall|k: Seq<char>| out@.contains_key(k) ==> #[trigger] out@[k] == global@[k],
        decreases g.len() - i,
    {
        out.insert(g[i].0.as_str(), g[i].1.as_str());
        proof {
            assert forall|k: Seq<char>| #[trigger] out@.contains_key(k) <==> exists|t: int| 0 <= t < i + 1 && g@[t].0@ == k by {
                if k == g@[i as int].0@ {
                    assert(g@[i as int].0@ == k);
                }
            }
        }
        i = i + 1;
    }
    let p = project.sorted_entries();
    let ghost mid = out@;
    let mut j: usize = 0;
    while j < p.len()
        invariant
            out.wf(),
            sorted_listing(project@, p@),
            j <= p@.len(),
            forall|k: Seq<char>| mid.contains_key(k) <==> global@.contains_key(k),
            forall|k: Seq<char>| mid.contains_key(k) ==> #[trigger] mid[k] == global@[k],
            forall|k: Seq<char>| #[trigger] out@.contains_key(k) <==> (mid.contains_key(k) || exists|t: int| 0 <= t < j && p@[t].0@ == k),
            forall|k: Seq<char>| out@.contains_key(k) ==> #[trigger] out@[k] == if (exists|t: int| 0 <= t < j && p@[t].0@ == k) {
                project@[k]
            } else {
                mid[k]
            },
        decreases p.len() - j,
    {
        out.insert(p[j].0.as_str(), p[j].1.as_str());
        proof {
            assert forall|k: Seq<char>| #[trigger] out@.contains_key(k) <==> (mid.contains_key(k) || exists|t: int| 0 <= t < j + 1 && p@[t].0@ == k) by {
                if k == p@[j as int].0@ {
                    assert(p@[j as int].0@ == k);
                }
            }
            assert forall|k: Seq<char>| out@.contains_key(k) implies #[trigger] out@[k] == if (exists|t: int| 0 <= t < j + 1 && p@[t].0@ == k) {
                project@[k]
            } else {
                mid[k]
            } by {
                if k == p@[j as int].0@ {
                    assert(p@[j as int].0@ == k);
                } else if exists|t: int| 0 <= t < j + 1 && p@[t].0@ == k {
                    let t = choose|t: int| 0 <= t < j + 1 && p@[t].0@ == k;
                    assert(t < j);
                }
            }
        }
        j = j + 1;
    }
    proof {
        assert forall|k: Seq<char>| mid.contains_key(k) <==> global@.contains_key(k) by {
            if global@.contains_key(k) {
                let t = choose|t: int| 0 <= t < g@.len() && #[trigger] g@[t].0@ == k;
                assert(g@[t].0@ == k);
            }
        }
        assert forall|k: Seq<char>| (exists|t: int| 0 <= t < p@.len() && p@[t].0@ == k) <==> project@.contains_key(k) by {
            if project@.contains_key(k) {
                let t = choose|t: int| 0 <= t < p@.len() && #[trigger] p@[t].0@ == k;
                assert(p@[t].0@ == k);
            }
        }
        assert(out@ =~= global@.union_prefer_right(project@));
    }
    out
}

/// The value a project sees for `key`: its own value if it has one, else the
/// global value.
pub fn resolve_value(project: &StringMap, global: &StringMap, key: &str) -> (r: Option<String>)
    requires
        project.wf(),
        global.wf(),
    ensures
        match r {
            Some(v) => if project@.contains_key(key@) {
                v@ == project@[key@]
            } else {
                global@.contains_key(key@) && v@ == global@[key@]
            },
            None => !project@.contains_key(key@) && !global@.contains_key(key@),
        },
{
    match project.get(key) {
        Some(v) => Some(v.clone()),
        None => match global.get(key) {
            Some(v) => Some(v.clone()),
            None => None,
        },
    }
}

// ── the map files of the settings and keybinding stores ─────────────────────

/// The error a map file that is not a JSON object of strings gives.
pub const MALFORMED_CONFIG: &'static str = "config file is not a JSON object of strings";

/// The text of an optional string.
pub open spec fn opt_str_view(o: Option<&str>) -> Option<Seq<char>> {
    match o {
        Some(s) => Some(s@),
        None => None,
    }
}

/// The map a store file holds: empty when there is no file, else its JSON
/// object of strings; `None` when the file holds something else.
pub open spec fn spec_file_map(text: Option<Seq<char>>) -> Option<Map<Seq<char>, Seq<char>>> {
    match text {
        None => Some(Map::empty()),
        Some(t) => spec_json_map(t),
    }
}

/// `r` is the refusal of a malformed map file.
pub open spec fn malformed<T>(r: Result<T>) -> bool {
    r matches Err(OrchestratorError::Persistence(m)) && m@ == MALFORMED_CONFIG@
}

/// Read a map file's text (`None` when there is no file).
pub fn read_config_map(text: Option<&str>) -> (r: Result<StringMap>)
    ensures
        match spec_file_map(opt_str_view(text)) {
            Some(m) => r matches Ok(x) && x.wf() && x@ == m,
            None => malformed(r),
        },
{
    match text {
        None => {
            let m = StringMap::new();
            Ok(m)
        },
        Some(t) => match string_map_from_json(t) {
            Some(m) => Ok(m),
            None => Err(OrchestratorError::Persistence(MALFORMED_CONFIG.to_owned())),
        },
    }
}

/// The text a map file gets after `change` was applied to its map.
pub open spec fn rewritten(
    text: Option<Seq<char>>,
    r: Result<String>,
    change: spec_fn(Map<Seq<char>, Seq<char>>) -> Map<Seq<char>, Seq<char>>,
) -> bool {
    match spec_file_map(text) {
        Some(m) => r matches Ok(t) && t@ == spec_json_map_text_pretty(change(m)),
        None => malformed(r),
    }
}

impl SettingStore {
    /// The text of a scope's settings file (`current`, `None` when there is no
    /// file) after setting `key` to `value_json`.
    pub fn apply(&self, current: Option<&str>, key: &str, value_json: &str) -> (r: Result<String>)
        ensures
            rewritten(opt_str_view(current), r, |m: Map<Seq<char>, Seq<char>>| m.insert(key@, value_json@)),
    {
        let mut m = read_config_map(current)?;
        m.insert(key, value_json);
        Ok(string_map_to_json(&m))
    }

    /// The text of a scope's settings file after removing `key` (whether or
    /// not it was there).
    pub fn reset(&self, current: Option<&str>, key: &str) -> (r: Result<String>)
        ensures
            rewritten(opt_str_view(current), r, |m: Map<Seq<char>, Seq<char>>| m.remove(key@)),
    {
        let mut m = read_config_map(current)?;
        m.remove(key);
        Ok(string_map_to_json(&m))
    }

    /// The value of `key` in a scope's settings file, `None` when absent.
    pub fn get(&self, current: Option<&str>, key: &str) -> (r: Result<Option<String>>)
        ensures
            match spec_file_map(opt_str_view(current)) {
                Some(m) => r matches Ok(o) && match o {
                    Some(v) => m.contains_key(key@) && m[key@] == v@,
                    None => !m.contains_key(key@),
                },
                None => malformed(r),
            },
    {
        let m = read_config_map(current)?;
        match m.get(key) {
            Some(v) => Ok(Some(v.clone())),
            None => Ok(None),
        }
    }

    /// Every setting of a scope's settings file, ascending by key.
    pub fn list(&self, current: Option<&str>) -> (r: Result<Vec<SettingEntry>>)
        ensures
            match spec_file_map(opt_str_view(current)) {
                Some(m) => r matches Ok(v) && entries_listed(m, v@),
                None => malformed(r),
            },
    {
        let m = read_config_map(current)?;
        Ok(setting_entries(&m))
    }

    /// The value a project sees for `key`, from its settings file (`project`)
    /// and the global one (`global`): its own value if it has one, else the
    /// global value. The global file is read only when the project's lacks the
    /// key.
    pub fn resolve(&self, project: Option<&str>, global: Option<&str>, key: &str) -> (r: Result<Option<String>>)
        ensures
            match spec_file_map(opt_str_view(project)) {
                None => malformed(r),
                Some(pm) => if pm.contains_key(key@) {
                    r matches Ok(Some(v)) && v@ == pm[key@]
                } else {
                    match spec_file_map(opt_str_view(global)) {
                        None => malformed(r),
                        Some(gm) => r matches Ok(o) && match o {
                            Some(v) => gm.contains_key(key@) && gm[key@] == v@,
                            None => !gm.contains_key(key@),
                        },
                    }
                },
            },
    {
        let pm = read_config_map(project)?;
        match pm.get(key) {
            Some(v) => {
                return Ok(Some(v.clone()));
            },
            None => {},
        }
        let gm = read_config_map(global)?;
        match gm.get(key) {
            Some(v) => Ok(Some(v.clone())),
            None => Ok(None),
        }
    }

    /// A project's effective settings, ascending by key: the global file's
    /// with the project file's values taking precedence.
    pub fn resolve_all(&self, global: Option<&str>, project: Option<&str>) -> (r: Result<Vec<SettingEntry>>)
        ensures
            match (spec_file_map(opt_str_view(global)), spec_file_map(opt_str_view(project))) {
                (Some(gm), Some(pm)) => r matches Ok(v) && entries_listed(gm.union_prefer_right(pm), v@),
                _ => malformed(r),
            },
    {
        let gm = read_config_map(global)?;
        let pm = read_config_map(project)?;
        Ok(setting_entries(&merged_settings(&gm, &pm)))
    }
}

impl KeybindingStore {
    /// The overrides file text (`current`, `None` when there is no file) after
    /// binding `action` to `chord`.
    pub fn rebind(&self, current: Option<&str>, action: &str, chord: &str) -> (r: Result<String>)
        ensures
            rewritten(opt_str_view(current), r, |m: Map<Seq<char>, Seq<char>>| m.insert(action@, chord@)),
    {
        let mut m = read_config_map(current)?;
        m.insert(action, chord);
        Ok(string_map_to_json(&m))
    }

    /// The overrides file text after dropping the override of `action`.
    pub fn reset(&self, current: Option<&str>, action: &str) -> (r: Result<String>)
        ensures
            rewritten(opt_str_view(current), r, |m: Map<Seq<char>, Seq<char>>| m.remove(action@)),
    {
        let mut m = read_config_map(current)?;
        m.remove(action);
        Ok(string_map_to_json(&m))
    }

    /// The overrides file text with no override at all.
    pub fn reset_all(&self) -> (r: String)
        ensures
            r@ == spec_json_map_text_pretty(Map::empty()),
    {
        let m = StringMap::new();
        string_map_to_json(&m)
    }

    /// The persisted overrides (action to chord) of an overrides file.
    pub fn overrides(&self, current: Option<&str>) -> (r: Result<StringMap>)
        ensures
            match spec_file_map(opt_str_view(current)) {
                Some(m) => r matches Ok(x) && x.wf() && x@ == m,
                None => malformed(r),
            },
    {
        read_config_map(current)
    }
}

// ── profiles and themes ──────────────────────────────────────────────────────

/// A stored profile: id, name, and setting overrides (key to JSON value).
#[derive(Debug, Clone, PartialEq, Eq)]
pub struct Profile {
    pub id: String,
    pub name: String,
    pub settings: StringMap,
}

/// The profile store: `config/profiles/<id>.json` per profile and
/// `config/profiles/active.json` naming the active one.
pub struct ProfileStore {
    root: String,
}

/// Where the theme came from: shipped (immutable) or added by the user.
#[derive(Debug, Clone, Copy, PartialEq, Eq, Structural)]
pub enum ThemeOrigin {
    Prebuilt,
    Custom,
}

/// A stored theme; `data_json` is its opaque data (colors, fonts, ...).
#[derive(Debug, Clone, PartialEq, Eq)]
pub struct Theme {
    pub id: String,
    pub name: String,
    pub origin: ThemeOrigin,
    pub data_json: Option<String>,
}

/// The theme store: `config/themes/<id>.json` per theme and
/// `config/themes/active.json` naming the active one.
pub struct ThemeStore {
    root: String,
}

/// The directory of the profile files, relative to the config root.
pub const PROFILES_DIR: &'static str = "config/profiles";

/// The directory of the theme files, relative to the config root.
pub const THEMES_DIR: &'static str = "config/themes";

/// The name of the file naming the active entry.
pub const ACTIVE_FILE: &'static str = "active.json";

impl ProfileStore {
    /// A store rooted at `root`.
    pub fn new(root: &str) -> (r: Self)
        ensures
            r.root_dir()@ == root@,
    {
        ProfileStore { root: root.to_owned() }
    }

    /// The root directory.
    pub closed spec fn root_dir(&self) -> String {
        self.root
    }

    /// The root directory.
    pub fn root(&self) -> (r: &str)
        ensures
            r@ == self.root_dir()@,
    {
        self.root.as_str()
    }
}

impl ThemeStore {
    /// A store rooted at `root`.
    pub fn new(root: &str) -> (r: Self)
        ensures
            r.root_dir()@ == root@,
    {
        ThemeStore { root: root.to_owned() }
    }

    /// The root directory.
    pub closed spec fn root_dir(&self) -> String {
        self.root
    }

    /// The root directory.
    pub fn root(&self) -> (r: &str)
        ensures
            r@ == self.root_dir()@,
    {
        self.root.as_str()
    }
}

/// The file name of an entry with the given id: `<id>.json`.
pub fn entry_file_name(id: &str) -> (r: String)
    ensures
        r@ == id@ + ".json"@,
{
    let mut s = id.to_owned();
    s.append(".json");
    s
}

/// A file name that a listing reads as an entry: a `.json` file other than
/// the active-entry file.
pub open spec fn spec_is_entry_file(name: Seq<char>) -> bool {
    &&& name != ACTIVE_FILE@
    &&& name.len() >= 5
    &&& name.subrange(name.len() - 5, name.len() as int) == ".json"@
}

/// Whether a listing reads the file `name` as an entry.
pub fn is_entry_file(name: &str) -> (b: bool)
    ensures
        b == spec_is_entry_file(name@),
{
    proof {
        reveal_strlit(".json");
    }
    if str_equal(name, ACTIVE_FILE) {
        return false;
    }
    let n = name.unicode_len();
    if n < 5 {
        return false;
    }
    str_equal(name.substring_char(n - 5, n), ".json")
}

/// A new profile with no setting overrides.
pub fn new_profile(id: &str, name: &str) -> (p: Profile)
    ensures
        p.id@ == id@,
        p.name@ == name@,
        p.settings.wf(),
        p.settings@ == Map::<Seq<char>, Seq<char>>::empty(),
{
    Profile { id: id.to_owned(), name: name.to_owned(), settings: StringMap::new() }
}

/// A copy of `source` under a new id and name, with the same settings.
pub fn duplicate_profile(source: &Profile, new_id: &str, new_name: &str) -> (p: Profile)
    requires
        source.settings.wf(),
    ensures
        p.id@ == new_id@,
        p.name@ == new_name@,
        p.settings.wf(),
        p.settings@ == source.settings@,
{
    Profile { id: new_id.to_owned(), name: new_name.to_owned(), settings: source.settings.duplicate() }
}

/// `out` is `items` (by id) in stable ascending id order.
pub open spec fn sorted_by_id(ids: Seq<Seq<char>>, out_ids: Seq<Seq<char>>) -> bool {
    exists|perm: Seq<usize>| #[trigger] stably_sorted_str(ids, perm) && out_ids.len() == perm.len() && forall|
        t: int,
    |
        0 <= t < perm.len() ==> #[trigger] out_ids[t] == ids[perm[t] as int]
}

/// The ids of a list of profiles.
pub open spec fn profile_ids(v: Seq<Profile>) -> Seq<Seq<char>> {
    v.map_values(|p: Profile| p.id@)
}

/// The ids of a list of themes.
pub open spec fn theme_ids(v: Seq<Theme>) -> Seq<Seq<char>> {
    v.map_values(|t: Theme| t.id@)
}

impl Profile {
    /// A copy of this profile.
    pub fn duplicate(&self) -> (r: Profile)
        ensures
            r.id == self.id,
            r.name == self.name,
            r.settings@ == self.settings@,
            r.settings.wf() == self.settings.wf(),
    {
        Profile { id: self.id.clone(), name: self.name.clone(), settings: self.settings.duplicate() }
    }
}

impl Theme {
    /// A copy of this theme.
    pub fn duplicate(&self) -> (r: Theme)
        ensures
            r == *self,
    {
        Theme {
            id: self.id.clone(),
            name: self.name.clone(),
            origin: self.origin,
            data_json: crate::entities::project::copy_opt_string(&self.data_json),
        }
    }
}

/// Two profiles agree field by field (settings by their contents).
pub open spec fn same_profile(a: Profile, b: Profile) -> bool {
    &&& a.id == b.id
    &&& a.name == b.name
    &&& a.settings@ == b.settings@
}

/// `p` agrees with some profile of `items`.
pub open spec fn listed_from(p: Profile, items: Seq<Profile>) -> bool {
    exists|u: int| 0 <= u < items.len() && same_profile(#[trigger] items[u], p)
}

fn id_list(ids: &Vec<String>) -> (r: Vec<usize>)
    ensures
        stably_sorted_str(views(ids@), r@),
{
    sort_positions_str(ids)
}

/// Profiles in ascending id order (a stable sort).
pub fn sort_profiles(items: &Vec<Profile>) -> (r: Vec<Profile>)
    ensures
        sorted_by_id(profile_ids(items@), profile_ids(r@)),
        forall|t: int| 0 <= t < r@.len() ==> listed_from(#[trigger] r@[t], items@),
{
    let mut ids: Vec<String> = Vec::new();
    let mut i: usize = 0;
    while i < items.len()
        invariant
            i <= items@.len(),
            ids@.len() == i,
            views(ids@) == profile_ids(items@).take(i as int),
        decreases items.len() - i,
    {
        ids.push(items[i].id.clone());
        proof {
            assert(views(ids@) =~= profile_ids(items@).take(i + 1));
        }
        i = i + 1;
    }
    proof {
        assert(views(ids@) =~= profile_ids(items@));
    }
    let perm = id_list(&ids);
    let mut out: Vec<Profile> = Vec::new();
    let mut q: usize = 0;
    while q < perm.len()
        invariant
            stably_sorted_str(views(ids@), perm@),
            views(ids@) == profile_ids(items@),
            q <= perm@.len(),
            out@.len() == q,
            forall|t: int|
                0 <= t < q ==> (#[trigger] out@[t]).id == items@[perm@[t] as int].id && out@[t].name
                    == items@[perm@[t] as int].name && out@[t].settings@ == items@[perm@[t] as int].settings@,
        decreases perm.len() - q,
    {
        out.push(items[perm[q]].duplicate());
        q = q + 1;
    }
    proof {
        assert(profile_ids(out@) =~= Seq::new(perm@.len(), |t: int| profile_ids(items@)[perm@[t] as int]));
        assert(sorted_by_id(profile_ids(items@), profile_ids(out@))) by {
            assert(stably_sorted_str(profile_ids(items@), perm@));
        }
        assert forall|t: int| 0 <= t < out@.len() implies listed_from(#[trigger] out@[t], items@) by {
            let u = perm@[t] as int;
            assert(same_profile(items@[u], out@[t]));
        }
    }
    out
}

/// Themes in ascending id order (a stable sort).
pub fn sort_themes(items: &Vec<Theme>) -> (r: Vec<Theme>)
    ensures
        sorted_by_id(theme_ids(items@), theme_ids(r@)),
        forall|t: int| 0 <= t < r@.len() ==> items@.contains(#[trigger] r@[t]),
{
    let mut ids: Vec<String> = Vec::new();
    let mut i: usize = 0;
    while i < items.len()
        invariant
            i <= items@.len(),
            ids@.len() == i,
            views(ids@) == theme_ids(items@).take(i as int),
        decreases items.len() - i,
    {
        ids.push(items[i].id.clone());
        proof {
            assert(views(ids@) =~= theme_ids(items@).take(i + 1));
        }
        i = i + 1;
    }
    proof {
        assert(views(ids@) =~= theme_ids(items@));
    }
    let perm = id_list(&ids);
    let mut out: Vec<Theme> = Vec::new();
    let mut q: usize = 0;
    while q < perm.len()
        invariant
            stably_sorted_str(views(ids@), perm@),
            views(ids@) == theme_ids(items@),
            q <= perm@.len(),
            out@.len() == q,
            forall|t: int| 0 <= t < q ==> #[trigger] out@[t] == items@[perm@[t] as int],
        decreases perm.len() - q,
    {
        out.push(items[perm[q]].duplicate());
        q = q + 1;
    }
    proof {
        assert(theme_ids(out@) =~= Seq::new(perm@.len(), |t: int| theme_ids(items@)[perm@[t] as int]));
        assert forall|t: int| 0 <= t < out@.len() implies items@.contains(#[trigger] out@[t]) by {
            assert(items@[perm@[t] as int] == out@[t]);
        }
    }
    out
}

} // verus!

//! The application's configuration: quick-start binds, key bindings and
//! preferences, how a partial update merges into it, and how a stored
//! configuration (current or legacy layout) is read back.
use vstd::prelude::*;
use crate::text::{chars_equal, chars_of, copy_str};

verus! {

/// The WebSocket port of the Keychron launcher bridge.
pub const KEYCHRON_WS_PORT: u16 = 40003;

/// The WebSocket port that older configurations stored.
pub const LEGACY_WS_PORT: u16 = 5005;

pub open spec fn opt_str_view(o: Option<String>) -> Option<Seq<char>> {
    match o {
        Some(s) => Some(s@),
        None => None,
    }
}

pub fn copy_opt_string(o: &Option<String>) -> (r: Option<String>)
    ensures
        opt_str_view(r) == opt_str_view(*o),
{
    match o {
        Some(s) => Some(s.clone()),
        None => None,
    }
}

/// A binding of a hardware key to an action.
#[derive(Debug, PartialEq)]
pub struct Binding {
    pub key_id: u32,
    pub action_type: String,
    pub target_app_id: Option<String>,
    pub target_app_name: Option<String>,
}

pub struct BindingView {
    pub key_id: u32,
    pub action_type: Seq<char>,
    pub target_app_id: Option<Seq<char>>,
    pub target_app_name: Option<Seq<char>>,
}

impl View for Binding {
    type V = BindingView;

    open spec fn view(&self) -> BindingView {
        BindingView {
            key_id: self.key_id,
            action_type: self.action_type@,
            target_app_id: opt_str_view(self.target_app_id),
            target_app_name: opt_str_view(self.target_app_name),
        }
    }
}

impl Clone for Binding {
    fn clone(&self) -> (r: Self)
        ensures
            r@ == self@,
    {
        Binding {
            key_id: self.key_id,
            action_type: self.action_type.clone(),
            target_app_id: copy_opt_string(&self.target_app_id),
            target_app_name: copy_opt_string(&self.target_app_name),
        }
    }
}

/// What a quick-start option opens: its display name, target path or URL, and icon.
#[derive(Debug, PartialEq)]
pub struct QuickStartOptionData {
    pub name: String,
    pub path: String,
    pub icon: String,
    pub icon_path: String,
}

pub struct QuickStartOptionDataView {
    pub name: Seq<char>,
    pub path: Seq<char>,
    pub icon: Seq<char>,
    pub icon_path: Seq<char>,
}

impl View for QuickStartOptionData {
    type V = QuickStartOptionDataView;

    open spec fn view(&self) -> QuickStartOptionDataView {
        QuickStartOptionDataView {
            name: self.name@,
            path: self.path@,
            icon: self.icon@,
            icon_path: self.icon_path@,
        }
    }
}

impl Clone for QuickStartOptionData {
    fn clone(&self) -> (r: Self)
        ensures
            r@ == self@,
    {
        QuickStartOptionData {
            name: self.name.clone(),
            path: self.path.clone(),
            icon: self.icon.clone(),
            icon_path: self.icon_path.clone(),
        }
    }
}

/// One action of a quick-start key: an application (`"App"`) or a URL (`"Url"`).
#[derive(Debug, PartialEq)]
pub struct QuickStartOption {
    pub opt_type: String,
    pub opt_data: QuickStartOptionData,
}

pub struct QuickStartOptionView {
    pub opt_type: Seq<char>,
    pub opt_data: QuickStartOptionDataView,
}

impl View for QuickStartOption {
    type V = QuickStartOptionView;

    open spec fn view(&self) -> QuickStartOptionView {
        QuickStartOptionView { opt_type: self.opt_type@, opt_data: self.opt_data@ }
    }
}

impl Clone for QuickStartOption {
    fn clone(&self) -> (r: Self)
        ensures
            r@ == self@,
    {
        QuickStartOption { opt_type: self.opt_type.clone(), opt_data: self.opt_data.clone() }
    }
}

pub open spec fn options_view(v: Seq<QuickStartOption>) -> Seq<QuickStartOptionView> {
    v.map_values(|o: QuickStartOption| o@)
}

pub open spec fn bindings_view(v: Seq<Binding>) -> Seq<BindingView> {
    v.map_values(|b: Binding| b@)
}

pub fn copy_options(v: &Vec<QuickStartOption>) -> (r: Vec<QuickStartOption>)
    ensures
        options_view(r@) == options_view(v@),
{
    let r = v.clone();
    assert(options_view(r@) =~= options_view(v@));
    r
}

pub fn copy_bindings(v: &Vec<Binding>) -> (r: Vec<Binding>)
    ensures
        bindings_view(r@) == bindings_view(v@),
{
    let r = v.clone();
    assert(bindings_view(r@) =~= bindings_view(v@));
    r
}

/// The entries of a bind map, as (key, options) pairs in storage order.
pub type BindEntries = Seq<(Seq<char>, Seq<QuickStartOptionView>)>;

pub open spec fn keys_of(e: BindEntries) -> Seq<Seq<char>> {
    e.map_values(|p: (Seq<char>, Seq<QuickStartOptionView>)| p.0)
}

pub open spec fn distinct_keys(e: BindEntries) -> bool {
    forall|i: int, j: int| 0 <= i < e.len() && 0 <= j < e.len() && i != j ==> e[i].0 != e[j].0
}

/// The options stored under `k`, if any.
pub open spec fn lookup(e: BindEntries, k: Seq<char>) -> Option<Seq<QuickStartOptionView>>
    decreases e.len(),
{
    if e.len() == 0 {
        None
    } else if e[0].0 == k {
        Some(e[0].1)
    } else {
        lookup(e.drop_first(), k)
    }
}

pub open spec fn entries_map(e: BindEntries) -> Map<Seq<char>, Seq<QuickStartOptionView>> {
    Map::new(|k: Seq<char>| lookup(e, k) is Some, |k: Seq<char>| lookup(e, k).unwrap())
}

/// Position of `k` among the entries.
pub open spec fn index_of_key(e: BindEntries, k: Seq<char>) -> int
    decreases e.len(),
{
    if e.len() == 0 {
        -1
    } else if e[0].0 == k {
        0
    } else {
        let i = index_of_key(e.drop_first(), k);
        if i < 0 {
            -1
        } else {
            i + 1
        }
    }
}

/// `e` with `k` bound to `v`: replaced in place when `k` is present, else added at the end.
pub open spec fn assoc_insert(e: BindEntries, k: Seq<char>, v: Seq<QuickStartOptionView>) -> BindEntries {
    let i = index_of_key(e, k);
    if i >= 0 {
        e.update(i, (k, v))
    } else {
        e.push((k, v))
    }
}

/// `e` without the entry of `k`.
pub open spec fn assoc_remove(e: BindEntries, k: Seq<char>) -> BindEntries {
    let i = index_of_key(e, k);
    if i >= 0 {
        e.remove(i)
    } else {
        e
    }
}

pub proof fn lemma_index_of_key(e: BindEntries, k: Seq<char>)
    ensures
        -1 <= index_of_key(e, k) < e.len(),
        index_of_key(e, k) >= 0 ==> e[index_of_key(e, k)].0 == k,
        index_of_key(e, k) >= 0 ==> lookup(e, k) == Some(e[index_of_key(e, k)].1),
        index_of_key(e, k) < 0 ==> lookup(e, k) is None,
        index_of_key(e, k) < 0 ==> forall|j: int| 0 <= j < e.len() ==> e[j].0 != k,
        forall|j: int| 0 <= j < index_of_key(e, k) ==> e[j].0 != k,
    decreases e.len(),
{
    if e.len() > 0 && e[0].0 != k {
        lemma_index_of_key(e.drop_first(), k);
        let i = index_of_key(e.drop_first(), k);
        assert forall|j: int| 0 <= j < e.len() && index_of_key(e, k) < 0 implies e[j].0 != k by {
            if j > 0 {
                assert(e[j] == e.drop_first()[j - 1]);
            }
        }
        assert forall|j: int| 0 <= j < index_of_key(e, k) implies e[j].0 != k by {
            if j > 0 {
                assert(e[j] == e.drop_first()[j - 1]);
            }
        }
    }
}

pub proof fn lemma_index_unique(e: BindEntries, k: Seq<char>, j: int)
    requires
        distinct_keys(e),
        0 <= j < e.len(),
        e[j].0 == k,
    ensures
        index_of_key(e, k) == j,
        lookup(e, k) == Some(e[j].1),
{
    lemma_index_of_key(e, k);
}

pub proof fn lemma_lookup_absent(e: BindEntries, k: Seq<char>)
    requires
        forall|j: int| 0 <= j < e.len() ==> e[j].0 != k,
    ensures
        index_of_key(e, k) < 0,
        lookup(e, k) is None,
{
    lemma_index_of_key(e, k);
}

/// What `assoc_insert` binds: `k` to `v`, every other key as before.
pub proof fn lemma_assoc_insert(e: BindEntries, k: Seq<char>, v: Seq<QuickStartOptionView>)
    requires
        distinct_keys(e),
    ensures
        distinct_keys(assoc_insert(e, k, v)),
        entries_map(assoc_insert(e, k, v)) == entries_map(e).insert(k, v),
{
    let n = assoc_insert(e, k, v);
    lemma_index_of_key(e, k);
    assert(distinct_keys(n));
    assert forall|k2: Seq<char>| lookup(n, k2) == (if k2 == k { Some(v) } else { lookup(e, k2) }) by {
        lemma_index_of_key(n, k2);
        lemma_index_of_key(e, k2);
        if k2 == k {
            let j = if index_of_key(e, k) >= 0 { index_of_key(e, k) } else { e.len() as int };
            assert(n[j].0 == k);
            lemma_index_unique(n, k, j);
        } else {
            if index_of_key(e, k2) >= 0 {
                lemma_index_unique(n, k2, index_of_key(e, k2));
            } else {
                assert forall|j: int| 0 <= j < n.len() implies n[j].0 != k2 by {
                    if j < e.len() && j != index_of_key(e, k) {
                        assert(n[j] == e[j]);
                    }
                }
                lemma_lookup_absent(n, k2);
            }
        }
    }
    assert(entries_map(n) =~= entries_map(e).insert(k, v));
}

/// What `assoc_remove` leaves: every key but `k`, bound as before.
pub proof fn lemma_assoc_remove(e: BindEntries, k: Seq<char>)
    requires
        distinct_keys(e),
    ensures
        distinct_keys(assoc_remove(e, k)),
        entries_map(assoc_remove(e, k)) == entries_map(e).remove(k),
{
    let n = assoc_remove(e, k);
    lemma_index_of_key(e, k);
    let i = index_of_key(e, k);
    assert(distinct_keys(n)) by {
        if i >= 0 {
            assert forall|a: int, b: int| 0 <= a < n.len() && 0 <= b < n.len() && a != b implies n[a].0
                != n[b].0 by {
                let a2 = if a < i { a } else { a + 1 };
                let b2 = if b < i { b } else { b + 1 };
                assert(n[a] == e[a2]);
                assert(n[b] == e[b2]);
            }
        }
    }
    assert forall|k2: Seq<char>| lookup(n, k2) == (if k2 == k { None } else { lookup(e, k2) }) by {
        lemma_index_of_key(e, k2);
        if i < 0 {
        } else if k2 == k {
            assert forall|j: int| 0 <= j < n.len() implies n[j].0 != k2 by {
                let j2 = if j < i { j } else { j + 1 };
                assert(n[j] == e[j2]);
            }
            lemma_lookup_absent(n, k2);
        } else {
            let j = index_of_key(e, k2);
            if j >= 0 {
                let j2 = if j < i { j } else { j - 1 };
                assert(n[j2] == e[j]);
                lemma_index_unique(n, k2, j2);
            } else {
                assert forall|m: int| 0 <= m < n.len() implies n[m].0 != k2 by {
                    let m2 = if m < i { m } else { m + 1 };
                    assert(n[m] == e[m2]);
                }
                lemma_lookup_absent(n, k2);
            }
        }
    }
    assert(entries_map(n) =~= entries_map(e).remove(k));
}

/// The quick-start binds: for each key name (such as `"F13"`), the options it launches.
/// Each key occurs once; entries keep the order in which their keys were first bound.
#[derive(Debug)]
pub struct QuickStartBinds {
    entries: Vec<(String, Vec<QuickStartOption>)>,
}

pub open spec fn entry_view(p: (String, Vec<QuickStartOption>)) -> (Seq<char>, Seq<QuickStartOptionView>) {
    (p.0@, options_view(p.1@))
}

impl View for QuickStartBinds {
    type V = BindEntries;

    closed spec fn view(&self) -> BindEntries {
        self.entries@.map_values(|p: (String, Vec<QuickStartOption>)| entry_view(p))
    }
}

impl QuickStartBinds {
    #[verifier::type_invariant]
    closed spec fn keys_are_distinct(&self) -> bool {
        distinct_keys(self@)
    }

    /// The binds as a map from key to options.
    pub open spec fn as_map(&self) -> Map<Seq<char>, Seq<QuickStartOptionView>> {
        entries_map(self@)
    }

    /// The bound keys, in storage order.
    pub open spec fn keys_seq(&self) -> Seq<Seq<char>> {
        keys_of(self@)
    }

    /// No binds.
    pub fn new() -> (r: Self)
        ensures
            r@ == Seq::<(Seq<char>, Seq<QuickStartOptionView>)>::empty(),
            r.as_map() == Map::<Seq<char>, Seq<QuickStartOptionView>>::empty(),
    {
        let r = QuickStartBinds { entries: Vec::new() };
        assert(r@ =~= Seq::<(Seq<char>, Seq<QuickStartOptionView>)>::empty());
        assert(r.as_map() =~= Map::<Seq<char>, Seq<QuickStartOptionView>>::empty());
        r
    }

    /// Number of bound keys.
    pub fn len(&self) -> (n: usize)
        ensures
            n == self@.len(),
    {
        self.entries.len()
    }

    /// Whether no key is bound.
    pub fn is_empty(&self) -> (b: bool)
        ensures
            b == (self@.len() == 0),
            b == self.as_map().is_empty(),
    {
        proof {
            use_type_invariant(self);
            if self@.len() > 0 {
                lemma_index_unique(self@, self@[0].0, 0);
                assert(self.as_map().contains_key(self@[0].0));
            } else {
                assert(self.as_map() =~= Map::empty());
            }
        }
        self.entries.len() == 0
    }

    fn find(&self, key: &str) -> (r: Option<usize>)
        ensures
            r matches Some(i) ==> i == index_of_key(self@, key@),
            r is None ==> index_of_key(self@, key@) < 0,
    {
        proof {
            use_type_invariant(self);
        }
        let kc = chars_of(key);
        let mut i: usize = 0;
        while i < self.entries.len()
            invariant
                i <= self@.len(),
                self@.len() == self.entries@.len(),
                distinct_keys(self@),
                kc@ == key@,
                forall|j: int| 0 <= j < i ==> self@[j].0 != key@,
            decreases self@.len() - i,
        {
            let name: &String = &self.entries[i].0;
            let ec = chars_of(name.as_str());
            assert(name@ == self.entries@[i as int].0@);
            assert(self@[i as int] == entry_view(self.entries@[i as int]));
            assert(ec@ == self@[i as int].0);
            if chars_equal(&ec, &kc) {
                proof {
                    lemma_index_unique(self@, key@, i as int);
                }
                return Some(i);
            }
            assert(self@[i as int] == entry_view(self.entries@[i as int]));
            i = i + 1;
        }
        proof {
            lemma_lookup_absent(self@, key@);
        }
        None
    }

    /// The options bound to `key`.
    pub fn get(&self, key: &str) -> (r: Option<&Vec<QuickStartOption>>)
        ensures
            match r {
                Some(v) => self.as_map().contains_key(key@) && options_view(v@) == self.as_map()[key@],
                None => !self.as_map().contains_key(key@),
            },
    {
        proof {
            use_type_invariant(self);
            lemma_index_of_key(self@, key@);
        }
        match self.find(key) {
            Some(i) => {
                assert(self@[i as int] == entry_view(self.entries@[i as int]));
                Some(&self.entries[i].1)
            },
            None => None,
        }
    }

    /// Whether `key` is bound.
    pub fn contains_key(&self, key: &str) -> (b: bool)
        ensures
            b == self.as_map().contains_key(key@),
    {
        self.get(key).is_some()
    }

    /// Binds `key` to `options`, replacing what it was bound to.
    pub fn insert(&mut self, key: String, options: Vec<QuickStartOption>)
        ensures
            final(self)@ == assoc_insert(old(self)@, key@, options_view(options@)),
            final(self).as_map() == old(self).as_map().insert(key@, options_view(options@)),
    {
        proof {
            use_type_invariant(&*self);
            lemma_assoc_insert(self@, key@, options_view(options@));
            lemma_index_of_key(self@, key@);
        }
        let ghost kv = key@;
        let ghost ov = options_view(options@);
        let ghost before = self@;
        let ghost old_entries = self.entries@;
        match self.find(key.as_str()) {
            Some(i) => {
                let mut entries = Vec::new();
                std::mem::swap(&mut entries, &mut self.entries);
                assert(entries@ == old_entries);
                assert(before == old_entries.map_values(|p: (String, Vec<QuickStartOption>)| entry_view(p)));
                assert(i < entries.len());
                entries.set(i, (key, options));
                proof {
                    assert(entries@.map_values(|p: (String, Vec<QuickStartOption>)| entry_view(p))
                        =~= before.update(i as int, (kv, ov)));
                }
                self.entries = entries;
            },
            None => {
                let mut entries = Vec::new();
                std::mem::swap(&mut entries, &mut self.entries);
                entries.push((key, options));
                proof {
                    assert(entries@.map_values(|p: (String, Vec<QuickStartOption>)| entry_view(p))
                        =~= before.push((kv, ov)));
                }
                self.entries = entries;
            },
        }
    }

    /// Unbinds `key`.
    pub fn remove(&mut self, key: &str)
        ensures
            final(self)@ == assoc_remove(old(self)@, key@),
            final(self).as_map() == old(self).as_map().remove(key@),
    {
        proof {
            use_type_invariant(&*self);
            lemma_assoc_remove(self@, key@);
            lemma_index_of_key(self@, key@);
        }
        let ghost before = self@;
        let ghost old_entries = self.entries@;
        match self.find(key) {
            Some(i) => {
                let mut entries = Vec::new();
                std::mem::swap(&mut entries, &mut self.entries);
                assert(entries@ == old_entries);
                assert(before == old_entries.map_values(|p: (String, Vec<QuickStartOption>)| entry_view(p)));
                assert(i < entries.len());
                entries.remove(i);
                proof {
                    assert(entries@.map_values(|p: (String, Vec<QuickStartOption>)| entry_view(p))
                        =~= before.remove(i as int));
                }
                self.entries = entries;
            },
            None => {},
        }
    }

    /// Unbinds every key.
    pub fn clear(&mut self)
        ensures
            final(self)@ == Seq::<(Seq<char>, Seq<QuickStartOptionView>)>::empty(),
            final(self).as_map() == Map::<Seq<char>, Seq<QuickStartOptionView>>::empty(),
    {
        self.entries = Vec::new();
        assert(self@ =~= Seq::<(Seq<char>, Seq<QuickStartOptionView>)>::empty());
        assert(self.as_map() =~= Map::<Seq<char>, Seq<QuickStartOptionView>>::empty());
    }

    /// The bound keys, in storage order.
    pub fn keys(&self) -> (r: Vec<String>)
        ensures
            r@.map_values(|s: String| s@) == self.keys_seq(),
    {
        let mut r: Vec<String> = Vec::new();
        let mut i: usize = 0;
        while i < self.entries.len()
            invariant
                i <= self.entries@.len(),
                self@.len() == self.entries@.len(),
                r@.len() == i,
                forall|j: int| 0 <= j < i ==> #[trigger] r@[j]@ == self.keys_seq()[j],
            decreases self.entries@.len() - i,
        {
            assert(self@[i as int] == entry_view(self.entries@[i as int]));
            r.push(self.entries[i].0.clone());
            i = i + 1;
        }
        assert(r@.map_values(|s: String| s@) =~= self.keys_seq());
        r
    }

    /// The entries as (key, options) pairs, in storage order.
    pub fn entries(&self) -> (r: Vec<(String, Vec<QuickStartOption>)>)
        ensures
            r@.map_values(|p: (String, Vec<QuickStartOption>)| entry_view(p)) == self@,
    {
        let mut r: Vec<(String, Vec<QuickStartOption>)> = Vec::new();
        let mut i: usize = 0;
        while i < self.entries.len()
            invariant
                i <= self.entries@.len(),
                self@.len() == self.entries@.len(),
                r@.len() == i,
                forall|j: int| 0 <= j < i ==> entry_view(#[trigger] r@[j]) == self@[j],
            decreases self.entries@.len() - i,
        {
            assert(self@[i as int] == entry_view(self.entries@[i as int]));
            let e = &self.entries[i];
            r.push((e.0.clone(), copy_options(&e.1)));
            i = i + 1;
        }
        assert(r@.map_values(|p: (String, Vec<QuickStartOption>)| entry_view(p)) =~= self@);
        r
    }
}

impl Clone for QuickStartBinds {
    fn clone(&self) -> (r: Self)
        ensures
            r@ == self@,
    {
        proof {
            use_type_invariant(self);
        }
        let entries = self.entries();
        QuickStartBinds { entries }
    }
}


pub struct AppConfigView {
    pub theme: Seq<char>,
    pub language: Seq<char>,
    pub autostart: bool,
    pub ws_port: u16,
    pub bindings: Seq<BindingView>,
    pub quick_start_binds: BindEntries,
}

/// The whole configuration: look and language, autostart, the WebSocket
/// port, hardware key bindings and quick-start binds.
#[derive(Debug)]
pub struct AppConfig {
    pub theme: String,
    pub language: String,
    pub autostart: bool,
    pub ws_port: u16,
    pub bindings: Vec<Binding>,
    pub quick_start_binds: QuickStartBinds,
}

impl View for AppConfig {
    type V = AppConfigView;

    open spec fn view(&self) -> AppConfigView {
        AppConfigView {
            theme: self.theme@,
            language: self.language@,
            autostart: self.autostart,
            ws_port: self.ws_port,
            bindings: bindings_view(self.bindings@),
            quick_start_binds: self.quick_start_binds@,
        }
    }
}

impl Clone for AppConfig {
    fn clone(&self) -> (r: Self)
        ensures
            r@ == self@,
    {
        AppConfig {
            theme: self.theme.clone(),
            language: self.language.clone(),
            autostart: self.autostart,
            ws_port: self.ws_port,
            bindings: copy_bindings(&self.bindings),
            quick_start_binds: self.quick_start_binds.clone(),
        }
    }
}

/// The single binding of a fresh configuration: key 1 opens the launcher.
pub open spec fn default_bindings() -> Seq<BindingView> {
    seq![BindingView { key_id: 1, action_type: "launcher"@, target_app_id: None, target_app_name: None }]
}

/// A fresh configuration: system theme, English, no autostart, the Keychron
/// port, key 1 bound to the launcher, and no quick-start binds.
pub open spec fn default_config() -> AppConfigView {
    AppConfigView {
        theme: "system"@,
        language: "en"@,
        autostart: false,
        ws_port: KEYCHRON_WS_PORT,
        bindings: default_bindings(),
        quick_start_binds: Seq::empty(),
    }
}

fn default_binding_list() -> (r: Vec<Binding>)
    ensures
        bindings_view(r@) == default_bindings(),
{
    let r = vec![Binding { key_id: 1, action_type: copy_str("launcher"), target_app_id: None, target_app_name: None }];
    assert(bindings_view(r@) =~= default_bindings());
    r
}

impl Default for AppConfig {
    fn default() -> (r: Self)
        ensures
            r@ == default_config(),
    {
        AppConfig {
            theme: copy_str("system"),
            language: copy_str("en"),
            autostart: false,
            ws_port: KEYCHRON_WS_PORT,
            bindings: default_binding_list(),
            quick_start_binds: QuickStartBinds::new(),
        }
    }
}

/// The port that a stored or updated configuration ends with: the legacy
/// port is moved to the Keychron port, any other is kept.
pub open spec fn migrated_port(p: u16) -> u16 {
    if p == LEGACY_WS_PORT {
        KEYCHRON_WS_PORT
    } else {
        p
    }
}

pub fn migrate_ws_port(port: u16) -> (r: u16)
    ensures
        r == migrated_port(port),
{
    if port == LEGACY_WS_PORT {
        KEYCHRON_WS_PORT
    } else {
        port
    }
}

/// The fields that a partial update sets; a field left `None` keeps its value.
#[derive(Debug)]
pub struct ConfigFields {
    pub theme: Option<String>,
    pub language: Option<String>,
    pub autostart: Option<bool>,
    pub ws_port: Option<u16>,
    pub bindings: Option<Vec<Binding>>,
    pub quick_start_binds: Option<QuickStartBinds>,
}

pub struct ConfigFieldsView {
    pub theme: Option<Seq<char>>,
    pub language: Option<Seq<char>>,
    pub autostart: Option<bool>,
    pub ws_port: Option<u16>,
    pub bindings: Option<Seq<BindingView>>,
    pub quick_start_binds: Option<BindEntries>,
}

impl View for ConfigFields {
    type V = ConfigFieldsView;

    open spec fn view(&self) -> ConfigFieldsView {
        ConfigFieldsView {
            theme: opt_str_view(self.theme),
            language: opt_str_view(self.language),
            autostart: self.autostart,
            ws_port: self.ws_port,
            bindings: match self.bindings {
                Some(b) => Some(bindings_view(b@)),
                None => None,
            },
            quick_start_binds: match self.quick_start_binds {
                Some(q) => Some(q@),
                None => None,
            },
        }
    }
}

/// A partial update of the configuration, as the settings page or the
/// launcher bridge sends it. `fields` is `None` when a field the update names
/// does not hold a value of that field's type; the two flags say whether the
/// update names `autostart` and `quickStartBinds` at all.
#[derive(Debug)]
pub struct ConfigUpdate {
    pub fields: Option<ConfigFields>,
    pub mentions_autostart: bool,
    pub mentions_quick_start_binds: bool,
}

pub struct ConfigUpdateView {
    pub fields: Option<ConfigFieldsView>,
    pub mentions_autostart: bool,
    pub mentions_quick_start_binds: bool,
}

impl View for ConfigUpdate {
    type V = ConfigUpdateView;

    open spec fn view(&self) -> ConfigUpdateView {
        ConfigUpdateView {
            fields: match self.fields {
                Some(f) => Some(f@),
                None => None,
            },
            mentions_autostart: self.mentions_autostart,
            mentions_quick_start_binds: self.mentions_quick_start_binds,
        }
    }
}

/// `c` with every field that `f` sets replaced.
pub open spec fn merged_config(c: AppConfigView, f: ConfigFieldsView) -> AppConfigView {
    AppConfigView {
        theme: match f.theme {
            Some(t) => t,
            None => c.theme,
        },
        language: match f.language {
            Some(l) => l,
            None => c.language,
        },
        autostart: match f.autostart {
            Some(a) => a,
            None => c.autostart,
        },
        ws_port: match f.ws_port {
            Some(p) => p,
            None => c.ws_port,
        },
        bindings: match f.bindings {
            Some(b) => b,
            None => c.bindings,
        },
        quick_start_binds: match f.quick_start_binds {
            Some(q) => q,
            None => c.quick_start_binds,
        },
    }
}

pub open spec fn with_migrated_port(c: AppConfigView) -> AppConfigView {
    AppConfigView { ws_port: migrated_port(c.ws_port), ..c }
}

/// The configuration after `u`, when a malformed update leaves the fields
/// as they were: the port is migrated either way.
pub open spec fn updated_config(c: AppConfigView, u: ConfigUpdateView) -> AppConfigView {
    match u.fields {
        Some(f) => with_migrated_port(merged_config(c, f)),
        None => with_migrated_port(c),
    }
}

/// The configuration to store after `u`, or `None` when `u` is malformed and
/// the stored configuration stays as it is.
pub open spec fn stored_after_update(c: AppConfigView, u: ConfigUpdateView) -> Option<AppConfigView> {
    match u.fields {
        Some(f) => Some(with_migrated_port(merged_config(c, f))),
        None => None,
    }
}

fn pick_string(new: &Option<String>, old: &String) -> (r: String)
    ensures
        r@ == match opt_str_view(*new) {
            Some(t) => t,
            None => old@,
        },
{
    match new {
        Some(t) => t.clone(),
        None => old.clone(),
    }
}

/// `current` with every field that `fields` sets replaced.
pub fn merge_fields(current: &AppConfig, fields: &ConfigFields) -> (r: AppConfig)
    ensures
        r@ == merged_config(current@, fields@),
{
    AppConfig {
        theme: pick_string(&fields.theme, &current.theme),
        language: pick_string(&fields.language, &current.language),
        autostart: match fields.autostart {
            Some(a) => a,
            None => current.autostart,
        },
        ws_port: match fields.ws_port {
            Some(p) => p,
            None => current.ws_port,
        },
        bindings: match &fields.bindings {
            Some(b) => copy_bindings(b),
            None => copy_bindings(&current.bindings),
        },
        quick_start_binds: match &fields.quick_start_binds {
            Some(q) => q.clone(),
            None => current.quick_start_binds.clone(),
        },
    }
}

/// The configuration after `update`, as the application core applies it:
/// the fields that the update sets replace the current ones (none when the
/// update is malformed), then the legacy port is migrated.
pub fn config_after_update(current: &AppConfig, update: &ConfigUpdate) -> (r: AppConfig)
    ensures
        r@ == updated_config(current@, update@),
{
    let mut r = match &update.fields {
        Some(f) => merge_fields(current, f),
        None => current.clone(),
    };
    r.ws_port = migrate_ws_port(r.ws_port);
    r
}

/// The configuration to store after `update`, as the configuration store
/// applies it: `None` when the update is malformed.
pub fn stored_config_after_update(current: &AppConfig, update: &ConfigUpdate) -> (r: Option<AppConfig>)
    ensures
        match r {
            Some(c) => stored_after_update(current@, update@) == Some(c@),
            None => stored_after_update(current@, update@) is None,
        },
{
    match &update.fields {
        Some(f) => {
            let mut r = merge_fields(current, f);
            r.ws_port = migrate_ws_port(r.ws_port);
            Some(r)
        },
        None => None,
    }
}

/// Applying the same update twice gives what applying it once gives.
pub proof fn lemma_update_idempotent(c: AppConfigView, u: ConfigUpdateView)
    ensures
        updated_config(updated_config(c, u), u) == updated_config(c, u),
{
}

/// An updated configuration never holds the legacy port.
pub proof fn lemma_update_leaves_no_legacy_port(c: AppConfigView, u: ConfigUpdateView)
    ensures
        updated_config(c, u).ws_port != LEGACY_WS_PORT,
        stored_after_update(c, u) matches Some(s) ==> s.ws_port != LEGACY_WS_PORT,
{
}

/// An update that names a field sets it to the given value; an update that
/// leaves a field out keeps it (the port up to its migration).
pub proof fn lemma_update_sets_named_fields(c: AppConfigView, u: ConfigUpdateView)
    requires
        u.fields is Some,
    ensures
        u.fields.unwrap().theme matches Some(t) ==> updated_config(c, u).theme == t,
        u.fields.unwrap().theme is None ==> updated_config(c, u).theme == c.theme,
        u.fields.unwrap().language matches Some(l) ==> updated_config(c, u).language == l,
        u.fields.unwrap().language is None ==> updated_config(c, u).language == c.language,
        u.fields.unwrap().autostart matches Some(a) ==> updated_config(c, u).autostart == a,
        u.fields.unwrap().autostart is None ==> updated_config(c, u).autostart == c.autostart,
        u.fields.unwrap().bindings matches Some(b) ==> updated_config(c, u).bindings == b,
        u.fields.unwrap().bindings is None ==> updated_config(c, u).bindings == c.bindings,
        u.fields.unwrap().quick_start_binds matches Some(q) ==> updated_config(c, u).quick_start_binds == q,
        u.fields.unwrap().quick_start_binds is None ==> updated_config(c, u).quick_start_binds
            == c.quick_start_binds,
        u.fields.unwrap().ws_port matches Some(p) ==> updated_config(c, u).ws_port == migrated_port(p),
        u.fields.unwrap().ws_port is None ==> updated_config(c, u).ws_port == migrated_port(c.ws_port),
{
}

/// What a legacy configuration stored under one quick-start key: a flat list
/// of options, options grouped per device under inner keys (an inner group is
/// `None` when it does not hold a list of options), or something unreadable.
#[derive(Debug)]
pub enum LegacyBindsValue {
    Options(Vec<QuickStartOption>),
    PerDevice(Vec<(String, Option<Vec<QuickStartOption>>)>),
    Unreadable,
}

pub enum LegacyBindsValueView {
    Options(Seq<QuickStartOptionView>),
    PerDevice(Seq<(Seq<char>, Option<Seq<QuickStartOptionView>>)>),
    Unreadable,
}

pub open spec fn device_group_view(p: (String, Option<Vec<QuickStartOption>>)) -> (Seq<char>, Option<Seq<QuickStartOptionView>>) {
    (p.0@, match p.1 {
        Some(o) => Some(options_view(o@)),
        None => None,
    })
}

impl View for LegacyBindsValue {
    type V = LegacyBindsValueView;

    open spec fn view(&self) -> LegacyBindsValueView {
        match self {
            LegacyBindsValue::Options(o) => LegacyBindsValueView::Options(options_view(o@)),
            LegacyBindsValue::PerDevice(d) => LegacyBindsValueView::PerDevice(
                d@.map_values(|p: (String, Option<Vec<QuickStartOption>>)| device_group_view(p)),
            ),
            LegacyBindsValue::Unreadable => LegacyBindsValueView::Unreadable,
        }
    }
}

/// A stored configuration that did not read as the current layout, taken
/// field by field: each field is `None` when absent or not of its type.
/// `quick_start_binds` lists the entries of the stored quick-start object in
/// its order (empty when there is no such object).
#[derive(Debug)]
pub struct LegacyConfig {
    pub theme: Option<String>,
    pub language: Option<String>,
    pub autostart: Option<bool>,
    pub ws_port: Option<u64>,
    pub bindings: Option<Vec<Binding>>,
    pub quick_start_binds: Vec<(String, LegacyBindsValue)>,
}

pub struct LegacyConfigView {
    pub theme: Option<Seq<char>>,
    pub language: Option<Seq<char>>,
    pub autostart: Option<bool>,
    pub ws_port: Option<u64>,
    pub bindings: Option<Seq<BindingView>>,
    pub quick_start_binds: Seq<(Seq<char>, LegacyBindsValueView)>,
}

pub open spec fn legacy_entry_view(p: (String, LegacyBindsValue)) -> (Seq<char>, LegacyBindsValueView) {
    (p.0@, p.1@)
}

impl View for LegacyConfig {
    type V = LegacyConfigView;

    open spec fn view(&self) -> LegacyConfigView {
        LegacyConfigView {
            theme: opt_str_view(self.theme),
            language: opt_str_view(self.language),
            autostart: self.autostart,
            ws_port: self.ws_port,
            bindings: match self.bindings {
                Some(b) => Some(bindings_view(b@)),
                None => None,
            },
            quick_start_binds: self.quick_start_binds@.map_values(
                |p: (String, LegacyBindsValue)| legacy_entry_view(p),
            ),
        }
    }
}

/// What the configuration file held when the application started.
#[derive(Debug)]
pub enum StoredConfig {
    /// No file, an unreadable one, or one that is not JSON.
    Absent,
    /// A configuration in the current layout.
    Current(AppConfig),
    /// JSON that is not the current layout.
    Legacy(LegacyConfig),
}

pub enum StoredConfigView {
    Absent,
    Current(AppConfigView),
    Legacy(LegacyConfigView),
}

impl View for StoredConfig {
    type V = StoredConfigView;

    open spec fn view(&self) -> StoredConfigView {
        match self {
            StoredConfig::Absent => StoredConfigView::Absent,
            StoredConfig::Current(c) => StoredConfigView::Current(c@),
            StoredConfig::Legacy(l) => StoredConfigView::Legacy(l@),
        }
    }
}

/// `e` with the present groups of one legacy key bound, in order.
pub open spec fn bind_device_groups(
    e: BindEntries,
    groups: Seq<(Seq<char>, Option<Seq<QuickStartOptionView>>)>,
) -> BindEntries
    decreases groups.len(),
{
    if groups.len() == 0 {
        e
    } else {
        let prev = bind_device_groups(e, groups.drop_last());
        match groups.last().1 {
            Some(o) => assoc_insert(prev, groups.last().0, o),
            None => prev,
        }
    }
}

/// The quick-start binds that legacy entries migrate to: a flat list binds
/// its key, grouped options bind each inner key, the rest is dropped; a later
/// entry overrides an earlier one with the same key.
pub open spec fn migrated_binds(entries: Seq<(Seq<char>, LegacyBindsValueView)>) -> BindEntries
    decreases entries.len(),
{
    if entries.len() == 0 {
        Seq::empty()
    } else {
        let prev = migrated_binds(entries.drop_last());
        match entries.last().1 {
            LegacyBindsValueView::Options(o) => assoc_insert(prev, entries.last().0, o),
            LegacyBindsValueView::PerDevice(d) => bind_device_groups(prev, d),
            LegacyBindsValueView::Unreadable => prev,
        }
    }
}

/// `n` truncated to 16 bits.
pub open spec fn low16(n: u64) -> u16 {
    (n % 65536) as u16
}

/// The configuration that the application starts with.
pub open spec fn loaded_config(s: StoredConfigView) -> AppConfigView {
    match s {
        StoredConfigView::Absent => default_config(),
        StoredConfigView::Current(c) => with_migrated_port(c),
        StoredConfigView::Legacy(l) => AppConfigView {
            theme: match l.theme {
                Some(t) => t,
                None => "system"@,
            },
            language: match l.language {
                Some(t) => t,
                None => "en"@,
            },
            autostart: match l.autostart {
                Some(a) => a,
                None => false,
            },
            ws_port: migrated_port(
                match l.ws_port {
                    Some(p) => low16(p),
                    None => KEYCHRON_WS_PORT,
                },
            ),
            bindings: match l.bindings {
                Some(b) => b,
                None => default_bindings(),
            },
            quick_start_binds: migrated_binds(l.quick_start_binds),
        },
    }
}

fn bind_groups_into(binds: &mut QuickStartBinds, groups: &Vec<(String, Option<Vec<QuickStartOption>>)>)
    ensures
        final(binds)@ == bind_device_groups(
            old(binds)@,
            groups@.map_values(|p: (String, Option<Vec<QuickStartOption>>)| device_group_view(p)),
        ),
{
    let ghost start = binds@;
    let ghost gv = groups@.map_values(|p: (String, Option<Vec<QuickStartOption>>)| device_group_view(p));
    let mut i: usize = 0;
    while i < groups.len()
        invariant
            i <= groups@.len(),
            gv == groups@.map_values(|p: (String, Option<Vec<QuickStartOption>>)| device_group_view(p)),
            binds@ == bind_device_groups(start, gv.take(i as int)),
        decreases groups@.len() - i,
    {
        assert(gv.take(i + 1).drop_last() =~= gv.take(i as int));
        assert(gv.take(i + 1).last() == device_group_view(groups@[i as int]));
        let g = &groups[i];
        match &g.1 {
            Some(o) => {
                binds.insert(g.0.clone(), copy_options(o));
            },
            None => {},
        }
        i = i + 1;
    }
    assert(gv.take(i as int) =~= gv);
}

/// The quick-start binds that the legacy entries migrate to.
pub fn migrate_legacy_binds(entries: &Vec<(String, LegacyBindsValue)>) -> (r: QuickStartBinds)
    ensures
        r@ == migrated_binds(entries@.map_values(|p: (String, LegacyBindsValue)| legacy_entry_view(p))),
{
    let ghost ev = entries@.map_values(|p: (String, LegacyBindsValue)| legacy_entry_view(p));
    let mut binds = QuickStartBinds::new();
    let mut i: usize = 0;
    while i < entries.len()
        invariant
            i <= entries@.len(),
            ev == entries@.map_values(|p: (String, LegacyBindsValue)| legacy_entry_view(p)),
            binds@ == migrated_binds(ev.take(i as int)),
        decreases entries@.len() - i,
    {
        assert(ev.take(i + 1).drop_last() =~= ev.take(i as int));
        assert(ev.take(i + 1).last() == legacy_entry_view(entries@[i as int]));
        let e = &entries[i];
        match &e.1 {
            LegacyBindsValue::Options(o) => {
                binds.insert(e.0.clone(), copy_options(o));
            },
            LegacyBindsValue::PerDevice(d) => {
                bind_groups_into(&mut binds, d);
            },
            LegacyBindsValue::Unreadable => {},
        }
        i = i + 1;
    }
    assert(ev.take(i as int) =~= ev);
    binds
}

/// The configuration that the application starts with, from what the
/// configuration file held: defaults when there is nothing to read, the
/// stored configuration with the legacy port migrated, or a legacy layout
/// read field by field with defaults for what is missing.
pub fn load_config(stored: &StoredConfig) -> (r: AppConfig)
    ensures
        r@ == loaded_config(stored@),
{
    match stored {
        StoredConfig::Absent => AppConfig::default(),
        StoredConfig::Current(c) => {
            let mut r = c.clone();
            r.ws_port = migrate_ws_port(r.ws_port);
            r
        },
        StoredConfig::Legacy(l) => {
            let port: u16 = match l.ws_port {
                Some(p) => (p % 65536) as u16,
                None => KEYCHRON_WS_PORT,
            };
            AppConfig {
                theme: match &l.theme {
                    Some(t) => t.clone(),
                    None => copy_str("system"),
                },
                language: match &l.language {
                    Some(t) => t.clone(),
                    None => copy_str("en"),
                },
                autostart: match l.autostart {
                    Some(a) => a,
                    None => false,
                },
                ws_port: migrate_ws_port(port),
                bindings: match &l.bindings {
                    Some(b) => copy_bindings(b),
                    None => default_binding_list(),
                },
                quick_start_binds: migrate_legacy_binds(&l.quick_start_binds),
            }
        },
    }
}

/// Nothing stored gives the fresh configuration; a legacy configuration
/// keeps each field it holds (the port migrated) and takes the fresh
/// configuration's value for each field it lacks.
pub proof fn lemma_legacy_fields_default(l: LegacyConfigView)
    ensures
        loaded_config(StoredConfigView::Absent) == default_config(),
        ({
            let c = loaded_config(StoredConfigView::Legacy(l));
            &&& c.theme == match l.theme {
                Some(t) => t,
                None => default_config().theme,
            }
            &&& c.language == match l.language {
                Some(t) => t,
                None => default_config().language,
            }
            &&& c.autostart == match l.autostart {
                Some(a) => a,
                None => default_config().autostart,
            }
            &&& c.bindings == match l.bindings {
                Some(b) => b,
                None => default_config().bindings,
            }
            &&& (l.ws_port is None ==> c.ws_port == default_config().ws_port)
            &&& (forall|p: u64| l.ws_port == Some(p) && p < 65536 && p != LEGACY_WS_PORT ==> c.ws_port == p)
        }),
{
    if let Some(p) = l.ws_port {
        if p < 65536 {
            assert(low16(p) == p);
        }
    }
}

/// A stored configuration in the current layout loads as it was stored,
/// but that the legacy port becomes the Keychron port.
pub proof fn lemma_current_loads_unchanged(c: AppConfigView)
    ensures
        c.ws_port != LEGACY_WS_PORT ==> loaded_config(StoredConfigView::Current(c)) == c,
        c.ws_port == LEGACY_WS_PORT ==> loaded_config(StoredConfigView::Current(c)) == (AppConfigView {
            ws_port: KEYCHRON_WS_PORT,
            ..c
        }),
{
}

/// A loaded configuration never holds the legacy port.
pub proof fn lemma_loaded_port_not_legacy(s: StoredConfigView)
    ensures
        loaded_config(s).ws_port != LEGACY_WS_PORT,
{
}

} // verus!

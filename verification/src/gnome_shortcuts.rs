//! Global GNOME shortcuts for the quick-start keys: each bound key gets a
//! custom keybinding that runs this program with `--trigger <key>`. The
//! entries this program owns are recognised by their dconf path.
use vstd::prelude::*;
use crate::patterns::{first_quote, lemma_first_quote, quoted_items_of, quoted_texts};
use crate::text::{
    chars_of, contains_chars, contains_seq, occurs_at, contains_string, copy_str, strs, to_lowercase,
    to_uppercase, unicode_lowercase, unicode_uppercase,
};

verus! {

pub const SCHEMA: &'static str = "org.gnome.settings-daemon.plugins.media-keys";

pub const LIST_KEY: &'static str = "custom-keybindings";

pub const BASE_PATH: &'static str = "/org/gnome/settings-daemon/plugins/media-keys/custom-keybindings";

pub const OWNED_PREFIX: &'static str = "flick-";

/// The keys of one custom keybinding entry.
pub const ENTRY_KEYS: [&'static str; 3] = ["name", "command", "binding"];

/// The dconf path of the entry for `key`.
pub open spec fn dconf_path(key: Seq<char>) -> Seq<char> {
    BASE_PATH@ + "/"@ + OWNED_PREFIX@ + key + "/"@
}

/// The relocatable schema of the entry at `path`.
pub open spec fn schema_at(path: Seq<char>) -> Seq<char> {
    SCHEMA@ + ".custom-keybinding:"@ + path
}

/// What marks an entry path as one of this program's.
pub open spec fn owned_marker() -> Seq<char> {
    "/"@ + OWNED_PREFIX@
}

pub open spec fn owned(path: Seq<char>) -> bool {
    contains_seq(path, owned_marker())
}

/// `s` with each single quote written as `'\''`, for use inside single quotes.
pub open spec fn escape_single_quotes(s: Seq<char>) -> Seq<char>
    decreases s.len(),
{
    if s.len() == 0 {
        Seq::empty()
    } else {
        escape_single_quotes(s.drop_last()) + if s.last() == '\'' {
            seq!['\'', '\\', '\'', '\'']
        } else {
            seq![s.last()]
        }
    }
}

/// The command of the entry for `key`: the quoted program path, then `--trigger <key>`.
pub open spec fn trigger_cmd(exe: Seq<char>, key: Seq<char>) -> Seq<char> {
    seq!['\''] + escape_single_quotes(exe) + "' --trigger "@ + key
}

/// `s` with backslashes and double quotes escaped by a backslash.
pub open spec fn gvariant_escape(s: Seq<char>) -> Seq<char>
    decreases s.len(),
{
    if s.len() == 0 {
        Seq::empty()
    } else {
        gvariant_escape(s.drop_last()) + if s.last() == '\\' {
            seq!['\\', '\\']
        } else if s.last() == '"' {
            seq!['\\', '"']
        } else {
            seq![s.last()]
        }
    }
}

/// `s` as a GVariant string literal.
pub open spec fn gvariant(s: Seq<char>) -> Seq<char> {
    seq!['"'] + gvariant_escape(s) + seq!['"']
}

/// The items, each in single quotes, separated by `, `.
pub open spec fn quoted_items(items: Seq<Seq<char>>) -> Seq<char>
    decreases items.len(),
{
    if items.len() == 0 {
        Seq::empty()
    } else if items.len() == 1 {
        seq!['\''] + items[0] + seq!['\'']
    } else {
        quoted_items(items.drop_last()) + ", '"@ + items.last() + seq!['\'']
    }
}

/// A list of strings as a GVariant array value.
pub open spec fn formatted_list(items: Seq<Seq<char>>) -> Seq<char> {
    if items.len() == 0 {
        "@as []"@
    } else {
        seq!['['] + quoted_items(items) + seq![']']
    }
}

/// The quoted items of a GVariant string array: the texts between
/// successive pairs of single quotes.
pub open spec fn listed_items(raw: Seq<char>) -> Seq<Seq<char>> {
    quoted_texts(raw)
}

/// The dconf path of the entry for `key`.
pub fn dconf_path_for(key: &str) -> (r: String)
    ensures
        r@ == dconf_path(key@),
{
    let mut r = copy_str(BASE_PATH);
    r.append("/");
    r.append(OWNED_PREFIX);
    r.append(key);
    r.append("/");
    assert(r@ =~= dconf_path(key@));
    r
}

/// The relocatable schema of the entry at `dconf_path`.
pub fn relocatable_schema(dconf_path: &str) -> (r: String)
    ensures
        r@ == schema_at(dconf_path@),
{
    let mut r = copy_str(SCHEMA);
    r.append(".custom-keybinding:");
    r.append(dconf_path);
    assert(r@ =~= schema_at(dconf_path@));
    r
}

/// The command that the entry for `key` runs, given this program's path.
pub fn trigger_command_for(exe: &str, key: &str) -> (r: String)
    ensures
        r@ == trigger_cmd(exe@, key@),
{
    let cs = chars_of(exe);
    let mut r = String::new();
    r.push('\'');
    let ghost start = r@;
    let mut i: usize = 0;
    while i < cs.len()
        invariant
            i <= cs@.len(),
            cs@ == exe@,
            start == seq!['\''],
            r@ == start + escape_single_quotes(cs@.take(i as int)),
        decreases cs@.len() - i,
    {
        assert(cs@.take(i + 1).drop_last() =~= cs@.take(i as int));
        let c = cs[i];
        if c == '\'' {
            r.push('\'');
            r.push('\\');
            r.push('\'');
            r.push('\'');
        } else {
            r.push(c);
        }
        i = i + 1;
        assert(r@ =~= start + escape_single_quotes(cs@.take(i as int)));
    }
    assert(cs@.take(cs@.len() as int) =~= cs@);
    r.append("' --trigger ");
    r.append(key);
    assert(r@ =~= trigger_cmd(exe@, key@));
    r
}

/// `s` as a GVariant string literal, with backslashes and double quotes escaped.
pub fn gvariant_string(s: &str) -> (r: String)
    ensures
        r@ == gvariant(s@),
{
    let cs = chars_of(s);
    let mut r = String::new();
    r.push('"');
    let ghost start = r@;
    let mut i: usize = 0;
    while i < cs.len()
        invariant
            i <= cs@.len(),
            cs@ == s@,
            start == seq!['"'],
            r@ == start + gvariant_escape(cs@.take(i as int)),
        decreases cs@.len() - i,
    {
        assert(cs@.take(i + 1).drop_last() =~= cs@.take(i as int));
        let c = cs[i];
        if c == '\\' {
            r.push('\\');
            r.push('\\');
        } else if c == '"' {
            r.push('\\');
            r.push('"');
        } else {
            r.push(c);
        }
        i = i + 1;
        assert(r@ =~= start + gvariant_escape(cs@.take(i as int)));
    }
    assert(cs@.take(cs@.len() as int) =~= cs@);
    r.push('"');
    assert(r@ =~= gvariant(s@));
    r
}

/// A list of strings as a GVariant array value: `@as []` when empty, else
/// `['a', 'b']`.
pub fn format_list(items: &[String]) -> (r: String)
    ensures
        r@ == formatted_list(strs(items@)),
{
    let ghost sv = strs(items@);
    if items.len() == 0 {
        return copy_str("@as []");
    }
    let mut body = String::new();
    let mut i: usize = 0;
    while i < items.len()
        invariant
            i <= items@.len(),
            sv == strs(items@),
            body@ == quoted_items(sv.take(i as int)),
        decreases items@.len() - i,
    {
        assert(sv.take(i + 1).drop_last() =~= sv.take(i as int));
        assert(sv.take(i + 1).last() == items@[i as int]@);
        if i == 0 {
            body.push('\'');
            body.append(items[i].as_str());
            body.push('\'');
            assert(sv.take(1)[0] == items@[0]@);
        } else {
            body.append(", '");
            body.append(items[i].as_str());
            body.push('\'');
        }
        i = i + 1;
        assert(body@ =~= quoted_items(sv.take(i as int)));
    }
    assert(sv.take(items@.len() as int) =~= sv);
    let mut r = String::new();
    r.push('[');
    r.append(body.as_str());
    r.push(']');
    assert(r@ =~= formatted_list(sv));
    r
}

/// The entries of a GVariant string array, as `gsettings get` prints it:
/// the text inside each pair of single quotes.
pub fn parse_list(raw: &str) -> (r: Vec<String>)
    ensures
        strs(r@) == listed_items(raw@),
{
    quoted_items_of(raw)
}

/// Whether the entry at `dconf_path` is one of this program's.
pub fn is_owned(dconf_path: &str) -> (r: bool)
    ensures
        r == owned(dconf_path@),
{
    let mut marker = String::new();
    marker.push('/');
    marker.append(OWNED_PREFIX);
    proof {
        reveal_strlit("/");
    }
    assert(marker@ =~= owned_marker());
    let pc = chars_of(dconf_path);
    let mc = chars_of(marker.as_str());
    contains_chars(&pc, &mc)
}

/// The desktops that take GNOME custom keybindings.
pub open spec fn gnome_like(desktop: Seq<char>) -> bool {
    gnome_like_lower(unicode_lowercase(desktop))
}

/// The lower-case desktop names that take GNOME custom keybindings.
pub open spec fn gnome_like_lower(d: Seq<char>) -> bool {
    ||| contains_seq(d, "gnome"@)
    ||| contains_seq(d, "unity"@)
    ||| contains_seq(d, "pop"@)
    ||| contains_seq(d, "ubuntu"@)
    ||| contains_seq(d, "cinnamon"@)
}

/// Whether a session whose desktop is named `desktop` (as
/// `XDG_CURRENT_DESKTOP` names it) takes GNOME custom keybindings.
pub fn is_gnome_desktop(desktop: &str) -> (r: bool)
    ensures
        r == gnome_like(desktop@),
{
    let lower = to_lowercase(desktop);
    names_gnome_desktop(lower.as_str())
}

/// Whether the lower-case desktop name `lower` takes GNOME custom keybindings.
pub fn names_gnome_desktop(lower: &str) -> (r: bool)
    ensures
        r == gnome_like_lower(lower@),
{
    let d = chars_of(lower);
    contains_chars(&d, &chars_of("gnome")) || contains_chars(&d, &chars_of("unity")) || contains_chars(
        &d,
        &chars_of("pop"),
    ) || contains_chars(&d, &chars_of("ubuntu")) || contains_chars(&d, &chars_of("cinnamon"))
}

/// The `gsettings` values of one custom keybinding entry.
#[derive(Debug, Clone)]
pub struct ShortcutEntry {
    pub schema: String,
    pub name: String,
    pub command: String,
    pub binding: String,
}

pub struct ShortcutEntryView {
    pub schema: Seq<char>,
    pub name: Seq<char>,
    pub command: Seq<char>,
    pub binding: Seq<char>,
}

impl View for ShortcutEntry {
    type V = ShortcutEntryView;

    open spec fn view(&self) -> ShortcutEntryView {
        ShortcutEntryView {
            schema: self.schema@,
            name: self.name@,
            command: self.command@,
            binding: self.binding@,
        }
    }
}

/// The entry that makes `key` run this program with `--trigger <key>`.
pub open spec fn entry_for(exe: Seq<char>, key: Seq<char>) -> ShortcutEntryView {
    ShortcutEntryView {
        schema: schema_at(dconf_path(key)),
        name: gvariant("Flick "@ + key),
        command: gvariant(trigger_cmd(exe, key)),
        binding: gvariant(key),
    }
}

/// What synchronising the shortcuts does: reset the stale entries of this
/// program, write one entry per wanted key, then store the new entry list.
#[derive(Debug, Clone)]
pub struct ShortcutSyncPlan {
    pub wanted: Vec<String>,
    pub reset_paths: Vec<String>,
    pub entries: Vec<ShortcutEntry>,
    pub list_value: String,
}

pub open spec fn entries_view(v: Seq<ShortcutEntry>) -> Seq<ShortcutEntryView> {
    v.map_values(|e: ShortcutEntry| e@)
}

pub open spec fn is_foreign(p: Seq<char>) -> bool {
    !owned(p)
}

/// The entries this program owns and no longer wants.
pub open spec fn stale_paths(current: Seq<Seq<char>>, wanted: Seq<Seq<char>>) -> Seq<Seq<char>> {
    current.filter(|p: Seq<char>| owned(p) && !wanted.map_values(|k: Seq<char>| dconf_path(k)).contains(p))
}

/// The entry list after synchronising: the other programs' entries as they
/// were, then one entry per wanted key.
pub open spec fn synced_items(current: Seq<Seq<char>>, wanted: Seq<Seq<char>>) -> Seq<Seq<char>> {
    current.filter(|p: Seq<char>| is_foreign(p)) + wanted.map_values(|k: Seq<char>| dconf_path(k))
}

fn dconf_paths_of(keys: &Vec<String>) -> (r: Vec<String>)
    ensures
        strs(r@) == strs(keys@).map_values(|k: Seq<char>| dconf_path(k)),
{
    let mut r: Vec<String> = Vec::new();
    let mut i: usize = 0;
    while i < keys.len()
        invariant
            i <= keys@.len(),
            r@.len() == i,
            forall|j: int| 0 <= j < i ==> #[trigger] r@[j]@ == dconf_path(keys@[j]@),
        decreases keys@.len() - i,
    {
        r.push(dconf_path_for(keys[i].as_str()));
        i = i + 1;
    }
    assert(strs(r@) =~= strs(keys@).map_values(|k: Seq<char>| dconf_path(k)));
    r
}

/// What synchronising the shortcuts to the upper-case keys `wanted` does,
/// given the entry list `current` and this program's path.
pub fn shortcut_sync_plan(wanted: Vec<String>, current: &Vec<String>, exe: &str) -> (r: ShortcutSyncPlan)
    ensures
        strs(r.wanted@) == strs(wanted@),
        strs(r.reset_paths@) == stale_paths(strs(current@), strs(wanted@)),
        entries_view(r.entries@) == strs(wanted@).map_values(|k: Seq<char>| entry_for(exe@, k)),
        r.list_value@ == formatted_list(synced_items(strs(current@), strs(wanted@))),
{
    let ghost cv = strs(current@);
    let ghost wv = strs(wanted@);
    let paths = dconf_paths_of(&wanted);
    let ghost stale_pred = |p: Seq<char>| owned(p) && !wv.map_values(|k: Seq<char>| dconf_path(k)).contains(p);
    let ghost foreign_pred = |p: Seq<char>| is_foreign(p);
    let mut reset_paths: Vec<String> = Vec::new();
    let mut kept: Vec<String> = Vec::new();
    let mut i: usize = 0;
    while i < current.len()
        invariant
            i <= current@.len(),
            cv == strs(current@),
            strs(paths@) == wv.map_values(|k: Seq<char>| dconf_path(k)),
            stale_pred == (|p: Seq<char>| owned(p) && !wv.map_values(|k: Seq<char>| dconf_path(k)).contains(p)),
            foreign_pred == (|p: Seq<char>| is_foreign(p)),
            strs(reset_paths@) == cv.take(i as int).filter(stale_pred),
            strs(kept@) == cv.take(i as int).filter(foreign_pred),
        decreases current@.len() - i,
    {
        assert(cv.take(i + 1) =~= cv.take(i as int).push(cv[i as int]));
        assert(cv[i as int] == current@[i as int]@);
        proof {
            cv.take(i as int).lemma_filter_push(cv[i as int], stale_pred);
            cv.take(i as int).lemma_filter_push(cv[i as int], foreign_pred);
        }
        let p = &current[i];
        let own = is_owned(p.as_str());
        if own {
            if !contains_string(&paths, p.as_str()) {
                reset_paths.push(p.clone());
                assert(strs(reset_paths@) =~= cv.take(i as int).filter(stale_pred).push(p@));
            }
        } else {
            kept.push(p.clone());
            assert(strs(kept@) =~= cv.take(i as int).filter(foreign_pred).push(p@));
        }
        i = i + 1;
    }
    assert(cv.take(current@.len() as int) =~= cv);
    let mut entries: Vec<ShortcutEntry> = Vec::new();
    let mut j: usize = 0;
    while j < wanted.len()
        invariant
            j <= wanted@.len(),
            entries@.len() == j,
            forall|m: int| 0 <= m < j ==> #[trigger] entries@[m]@ == entry_for(exe@, wanted@[m]@),
        decreases wanted@.len() - j,
    {
        let key = wanted[j].as_str();
        let path = dconf_path_for(key);
        let mut label = copy_str("Flick ");
        label.append(key);
        let e = ShortcutEntry {
            schema: relocatable_schema(path.as_str()),
            name: gvariant_string(label.as_str()),
            command: gvariant_string(trigger_command_for(exe, key).as_str()),
            binding: gvariant_string(key),
        };
        entries.push(e);
        j = j + 1;
    }
    assert(entries_view(entries@) =~= wv.map_values(|k: Seq<char>| entry_for(exe@, k)));
    let mut new_list = kept;
    let mut k: usize = 0;
    let ghost kv = strs(new_list@);
    while k < paths.len()
        invariant
            k <= paths@.len(),
            kv == cv.filter(foreign_pred),
            strs(new_list@) == kv + strs(paths@).take(k as int),
        decreases paths@.len() - k,
    {
        let ghost before = strs(new_list@);
        let item = paths[k].clone();
        assert(item@ == strs(paths@)[k as int]);
        new_list.push(item);
        assert(strs(new_list@) =~= before.push(item@));
        assert(strs(paths@).take(k + 1) =~= strs(paths@).take(k as int).push(item@));
        k = k + 1;
        assert(strs(new_list@) =~= kv + strs(paths@).take(k as int));
    }
    assert(strs(paths@).take(paths@.len() as int) =~= strs(paths@));
    let list_value = format_list(new_list.as_slice());
    ShortcutSyncPlan { wanted, reset_paths, entries, list_value }
}

/// What synchronising the shortcuts to `keys` does, given the entry list as
/// `gsettings get` printed it: the keys are upper-cased first.
pub fn plan_shortcut_sync(keys: &[String], raw_list: &str, exe: &str) -> (r: ShortcutSyncPlan)
    ensures
        strs(r.wanted@) == strs(keys@).map_values(|k: Seq<char>| unicode_uppercase(k)),
        strs(r.reset_paths@) == stale_paths(listed_items(raw_list@), strs(r.wanted@)),
        entries_view(r.entries@) == strs(r.wanted@).map_values(|k: Seq<char>| entry_for(exe@, k)),
        r.list_value@ == formatted_list(synced_items(listed_items(raw_list@), strs(r.wanted@))),
{
    let mut wanted: Vec<String> = Vec::new();
    let mut i: usize = 0;
    while i < keys.len()
        invariant
            i <= keys@.len(),
            wanted@.len() == i,
            forall|j: int| 0 <= j < i ==> #[trigger] wanted@[j]@ == unicode_uppercase(keys@[j]@),
        decreases keys@.len() - i,
    {
        wanted.push(to_uppercase(keys[i].as_str()));
        i = i + 1;
    }
    assert(strs(wanted@) =~= strs(keys@).map_values(|k: Seq<char>| unicode_uppercase(k)));
    let current = parse_list(raw_list);
    shortcut_sync_plan(wanted, &current, exe)
}

/// What clearing the shortcuts does: reset this program's entries and store
/// the list of the others.
#[derive(Debug, Clone)]
pub struct ShortcutClearPlan {
    pub reset_paths: Vec<String>,
    pub list_value: String,
}

/// What clearing the shortcuts does, given the entry list `current`: nothing
/// when no entry is this program's.
pub fn shortcut_clear_plan(current: &Vec<String>) -> (r: Option<ShortcutClearPlan>)
    ensures
        strs(current@).filter(|p: Seq<char>| owned(p)).len() == 0 <==> r is None,
        r matches Some(plan) ==> strs(plan.reset_paths@) == strs(current@).filter(|p: Seq<char>| owned(p))
            && plan.list_value@ == formatted_list(strs(current@).filter(|p: Seq<char>| is_foreign(p))),
{
    let ghost cv = strs(current@);
    let ghost own_pred = |p: Seq<char>| owned(p);
    let ghost foreign_pred = |p: Seq<char>| is_foreign(p);
    let mut owned_paths: Vec<String> = Vec::new();
    let mut foreign: Vec<String> = Vec::new();
    let mut i: usize = 0;
    while i < current.len()
        invariant
            i <= current@.len(),
            cv == strs(current@),
            own_pred == (|p: Seq<char>| owned(p)),
            foreign_pred == (|p: Seq<char>| is_foreign(p)),
            strs(owned_paths@) == cv.take(i as int).filter(own_pred),
            strs(foreign@) == cv.take(i as int).filter(foreign_pred),
        decreases current@.len() - i,
    {
        assert(cv.take(i + 1) =~= cv.take(i as int).push(cv[i as int]));
        assert(cv[i as int] == current@[i as int]@);
        proof {
            cv.take(i as int).lemma_filter_push(cv[i as int], own_pred);
            cv.take(i as int).lemma_filter_push(cv[i as int], foreign_pred);
        }
        let p = &current[i];
        if is_owned(p.as_str()) {
            owned_paths.push(p.clone());
            assert(strs(owned_paths@) =~= cv.take(i as int).filter(own_pred).push(p@));
        } else {
            foreign.push(p.clone());
            assert(strs(foreign@) =~= cv.take(i as int).filter(foreign_pred).push(p@));
        }
        i = i + 1;
    }
    assert(cv.take(current@.len() as int) =~= cv);
    if owned_paths.len() == 0 {
        return None;
    }
    let list_value = format_list(foreign.as_slice());
    Some(ShortcutClearPlan { reset_paths: owned_paths, list_value })
}

/// What clearing the shortcuts does, given the entry list as `gsettings get`
/// printed it.
pub fn plan_shortcut_clear(raw_list: &str) -> (r: Option<ShortcutClearPlan>)
    ensures
        listed_items(raw_list@).filter(|p: Seq<char>| owned(p)).len() == 0 <==> r is None,
        r matches Some(plan) ==> strs(plan.reset_paths@) == listed_items(raw_list@).filter(
            |p: Seq<char>| owned(p),
        ) && plan.list_value@ == formatted_list(
            listed_items(raw_list@).filter(|p: Seq<char>| is_foreign(p)),
        ),
{
    let current = parse_list(raw_list);
    shortcut_clear_plan(&current)
}

/// Every entry path made for a key is recognised as this program's.
pub proof fn lemma_own_paths_are_owned(key: Seq<char>)
    ensures
        owned(dconf_path(key)),
{
    let p = dconf_path(key);
    let i = BASE_PATH@.len() as int;
    assert(p.subrange(i, i + owned_marker().len()) =~= owned_marker());
    assert(occurs_at(p, owned_marker(), i));
}

proof fn lemma_filter_all(s: Seq<Seq<char>>, pred: spec_fn(Seq<char>) -> bool)
    requires
        forall|i: int| 0 <= i < s.len() ==> pred(#[trigger] s[i]),
    ensures
        s.filter(pred) == s,
    decreases s.len(),
{
    if s.len() > 0 {
        lemma_filter_all(s.drop_last(), pred);
        assert(s.drop_last().push(s.last()) =~= s);
        s.drop_last().lemma_filter_push(s.last(), pred);
    } else {
        assert(s.filter(pred) =~= s);
    }
}

proof fn lemma_filter_none(s: Seq<Seq<char>>, pred: spec_fn(Seq<char>) -> bool)
    requires
        forall|i: int| 0 <= i < s.len() ==> !pred(#[trigger] s[i]),
    ensures
        s.filter(pred) == Seq::<Seq<char>>::empty(),
    decreases s.len(),
{
    if s.len() > 0 {
        lemma_filter_none(s.drop_last(), pred);
        assert(s.drop_last().push(s.last()) =~= s);
        s.drop_last().lemma_filter_push(s.last(), pred);
    } else {
        assert(s.filter(pred) =~= Seq::<Seq<char>>::empty());
    }
}

/// Clearing after a synchronisation resets exactly the entries made for the
/// wanted keys and leaves the other programs' entries as they were.
pub proof fn lemma_clear_after_sync(current: Seq<Seq<char>>, wanted: Seq<Seq<char>>)
    ensures
        synced_items(current, wanted).filter(|p: Seq<char>| owned(p)) == wanted.map_values(
            |k: Seq<char>| dconf_path(k),
        ),
        synced_items(current, wanted).filter(|p: Seq<char>| is_foreign(p)) == current.filter(
            |p: Seq<char>| is_foreign(p),
        ),
{
    let own = |p: Seq<char>| owned(p);
    let foreign = |p: Seq<char>| is_foreign(p);
    let a = current.filter(foreign);
    let b = wanted.map_values(|k: Seq<char>| dconf_path(k));
    assert forall|i: int| 0 <= i < b.len() implies own(#[trigger] b[i]) by {
        lemma_own_paths_are_owned(wanted[i]);
    }
    assert forall|i: int| 0 <= i < a.len() implies !own(#[trigger] a[i]) by {
        current.lemma_filter_pred(foreign, i);
    }
    lemma_filter_all(b, own);
    lemma_filter_none(b, foreign);
    lemma_filter_none(a, own);
    assert forall|i: int| 0 <= i < a.len() implies foreign(#[trigger] a[i]) by {
        current.lemma_filter_pred(foreign, i);
    }
    lemma_filter_all(a, foreign);
    Seq::filter_distributes_over_add(a, b, own);
    Seq::filter_distributes_over_add(a, b, foreign);
    assert(Seq::<Seq<char>>::empty() + b =~= b);
    assert(a + Seq::<Seq<char>>::empty() =~= a);
}

proof fn lemma_no_stale_after_sync(current: Seq<Seq<char>>, wanted: Seq<Seq<char>>)
    ensures
        stale_paths(synced_items(current, wanted), wanted).len() == 0,
{
    let foreign = |p: Seq<char>| is_foreign(p);
    let a = current.filter(foreign);
    let b = wanted.map_values(|k: Seq<char>| dconf_path(k));
    let s = synced_items(current, wanted);
    let stale = |p: Seq<char>| owned(p) && !wanted.map_values(|k: Seq<char>| dconf_path(k)).contains(p);
    assert forall|i: int| 0 <= i < s.len() implies !stale(#[trigger] s[i]) by {
        if i < a.len() {
            current.lemma_filter_pred(foreign, i);
            assert(s[i] == a[i]);
            assert(is_foreign(a[i]));
        } else {
            assert(s[i] == b[i - a.len()]);
            assert(b.contains(s[i]));
        }
    }
    lemma_filter_none(s, stale);
}

/// Synchronising twice to the same keys gives the entry list that
/// synchronising once gives, and the second time resets no entry.
pub proof fn lemma_sync_idempotent(current: Seq<Seq<char>>, wanted: Seq<Seq<char>>)
    ensures
        synced_items(synced_items(current, wanted), wanted) == synced_items(current, wanted),
        stale_paths(synced_items(current, wanted), wanted).len() == 0,
{
    lemma_clear_after_sync(current, wanted);
    lemma_no_stale_after_sync(current, wanted);
}

/// `s` holds no single quote.
pub open spec fn quote_free(s: Seq<char>) -> bool {
    forall|k: int| 0 <= k < s.len() ==> s[k] != '\''
}

proof fn lemma_first_quote_after(a: Seq<char>, t: Seq<char>)
    requires
        quote_free(a),
    ensures
        first_quote(a + t) == match first_quote(t) {
            Some(i) => Some(a.len() + i),
            None => None::<int>,
        },
    decreases a.len(),
{
    if a.len() > 0 {
        assert((a + t)[0] == a[0]);
        assert((a + t).skip(1) =~= a.skip(1) + t);
        lemma_first_quote_after(a.skip(1), t);
    } else {
        assert(a + t =~= t);
    }
}

/// Text without quotes before `t` adds no quoted item.
proof fn lemma_quoted_texts_after(a: Seq<char>, t: Seq<char>)
    requires
        quote_free(a),
    ensures
        quoted_texts(a + t) == quoted_texts(t),
{
    lemma_first_quote_after(a, t);
    lemma_first_quote(t);
    match first_quote(t) {
        Some(i) => {
            assert((a + t).skip(a.len() + i + 1) =~= t.skip(i + 1));
        },
        None => {},
    }
}

/// A quoted text without quotes inside is one item.
proof fn lemma_quoted_pair(x: Seq<char>, t: Seq<char>)
    requires
        quote_free(x),
    ensures
        quoted_texts(seq!['\''] + x + seq!['\''] + t) == seq![x] + quoted_texts(t),
{
    let s = seq!['\''] + x + seq!['\''] + t;
    assert(s[0] == '\'');
    let rest = s.skip(1);
    let q = seq!['\''] + t;
    assert(rest =~= x + q);
    assert(q[0] == '\'');
    lemma_first_quote_after(x, q);
    assert(first_quote(rest) == Some(x.len() as int));
    assert(rest.take(x.len() as int) =~= x);
    assert(rest.skip(x.len() as int + 1) =~= t);
}

proof fn lemma_quoted_items_texts(items: Seq<Seq<char>>, t: Seq<char>)
    requires
        forall|i: int| 0 <= i < items.len() ==> quote_free(#[trigger] items[i]),
    ensures
        quoted_texts(quoted_items(items) + t) == items + quoted_texts(t),
    decreases items.len(),
{
    if items.len() == 0 {
        assert(quoted_items(items) + t =~= t);
        assert(items + quoted_texts(t) =~= quoted_texts(t));
    } else if items.len() == 1 {
        lemma_quoted_pair(items[0], t);
        assert(quoted_items(items) + t =~= seq!['\''] + items[0] + seq!['\''] + t);
        assert(items =~= seq![items[0]]);
    } else {
        reveal_strlit(", '");
        let init = items.drop_last();
        let x = items.last();
        let t2 = ", "@ + (seq!['\''] + x + seq!['\''] + t);
        assert(", '"@ =~= ", "@ + seq!['\'']) by {
            reveal_strlit(", ");
        }
        assert(quoted_items(items) + t =~= quoted_items(init) + t2);
        lemma_quoted_items_texts(init, t2);
        assert(quote_free(", "@)) by {
            reveal_strlit(", ");
        }
        lemma_quoted_texts_after(", "@, seq!['\''] + x + seq!['\''] + t);
        lemma_quoted_pair(x, t);
        assert(items =~= init + seq![x]);
    }
}

/// Parsing a formatted list gives back its items, when no item holds a
/// single quote.
pub proof fn lemma_parse_format_round_trip(items: Seq<Seq<char>>)
    requires
        forall|i: int| 0 <= i < items.len() ==> quote_free(#[trigger] items[i]),
    ensures
        listed_items(formatted_list(items)) == items,
{
    if items.len() == 0 {
        reveal_strlit("@as []");
        assert(quote_free("@as []"@));
        lemma_quoted_texts_after("@as []"@, Seq::empty());
        assert("@as []"@ + Seq::<char>::empty() =~= "@as []"@);
        assert(quoted_texts(Seq::<char>::empty()) == Seq::<Seq<char>>::empty());
    } else {
        let close = seq![']'];
        lemma_quoted_items_texts(items, close);
        assert(quote_free(seq!['[']));
        lemma_quoted_texts_after(seq!['['], quoted_items(items) + close);
        assert(formatted_list(items) =~= seq!['['] + (quoted_items(items) + close));
        assert(quote_free(close));
        lemma_quoted_texts_after(close, Seq::empty());
        assert(close + Seq::<char>::empty() =~= close);
        assert(quoted_texts(Seq::<char>::empty()) == Seq::<Seq<char>>::empty());
        assert(items + Seq::<Seq<char>>::empty() =~= items);
    }
}

} // verus!

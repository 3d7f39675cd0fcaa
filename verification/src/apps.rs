//! Installed applications: reading desktop entries, ordering the list for
//! the launcher, and choosing and encoding icons.
use vstd::prelude::*;
use base64::Engine;
use crate::patterns::{
    remove_field_codes, remove_image_extension, without_field_codes, without_image_extension,
};
use crate::text::{
    all_ascii_digits, chars_of, chars_equal, copy_str, digits_value, ends_with_chars, has_prefix,
    has_suffix, is_ascii_digit, is_u32_literal, parse_u32, starts_with_chars, string_of_range,
    to_lowercase, trim, trim_bounds, trim_chars, chars_range, string_of, trimmed, u32_literal_digits,
    unicode_lowercase, decimal, push_decimal, opt_text,
};

verus! {

/// An installed application as the launcher lists it.
#[derive(Debug, PartialEq)]
pub struct AppInfo {
    pub id: String,
    pub name: String,
    pub exec_cmd: String,
    /// A data URL, or the name of a themed icon.
    pub icon: String,
}

pub struct AppInfoView {
    pub id: Seq<char>,
    pub name: Seq<char>,
    pub exec_cmd: Seq<char>,
    pub icon: Seq<char>,
}

impl View for AppInfo {
    type V = AppInfoView;

    open spec fn view(&self) -> AppInfoView {
        AppInfoView { id: self.id@, name: self.name@, exec_cmd: self.exec_cmd@, icon: self.icon@ }
    }
}

impl Clone for AppInfo {
    fn clone(&self) -> (r: Self)
        ensures
            r@ == self@,
    {
        AppInfo {
            id: self.id.clone(),
            name: self.name.clone(),
            exec_cmd: self.exec_cmd.clone(),
            icon: self.icon.clone(),
        }
    }
}

pub open spec fn apps_view(v: Seq<AppInfo>) -> Seq<AppInfoView> {
    v.map_values(|a: AppInfo| a@)
}

/// `data` in standard base64 (RFC 4648 alphabet, `=` padding): each group of
/// three bytes becomes four characters of six bits each, and a last group of
/// one or two bytes is padded to four characters.
pub open spec fn base64_standard(data: Seq<u8>) -> Seq<char>
    decreases data.len(),
{
    if data.len() == 0 {
        Seq::empty()
    } else if data.len() == 1 {
        let a = data[0] as nat;
        seq![base64_digit(a / 4), base64_digit((a % 4) * 16), '=', '=']
    } else if data.len() == 2 {
        let a = data[0] as nat;
        let b = data[1] as nat;
        seq![base64_digit(a / 4), base64_digit((a % 4) * 16 + b / 16), base64_digit((b % 16) * 4), '=']
    } else {
        let a = data[0] as nat;
        let b = data[1] as nat;
        let c = data[2] as nat;
        seq![
            base64_digit(a / 4),
            base64_digit((a % 4) * 16 + b / 16),
            base64_digit((b % 16) * 4 + c / 64),
            base64_digit(c % 64),
        ] + base64_standard(data.skip(3))
    }
}

/// The character of a six-bit value in the standard base64 alphabet:
/// `A`–`Z`, `a`–`z`, `0`–`9`, `+`, `/`.
pub open spec fn base64_digit(v: nat) -> char {
    if v < 26 {
        (65 + v) as char
    } else if v < 52 {
        (97 + (v - 26)) as char
    } else if v < 62 {
        (48 + (v - 52)) as char
    } else if v == 62 {
        '+'
    } else {
        '/'
    }
}

/// `base64::engine::general_purpose::STANDARD.encode`: `data` in standard
/// base64 with padding, as `base64_standard` spells it out.
#[verifier::external_body]
fn base64_encode(data: &[u8]) -> (r: String)
    ensures
        r@ == base64_standard(data@),
{
    base64::engine::general_purpose::STANDARD.encode(data)
}

/// The MIME type of an icon file with extension `ext`, in any case; `None`
/// for a kind of file the launcher does not show.
pub open spec fn icon_mime(ext: Seq<char>) -> Option<Seq<char>> {
    mime_of_lower(unicode_lowercase(ext))
}

/// The MIME type of an icon file whose lower-case extension is `e`.
pub open spec fn mime_of_lower(e: Seq<char>) -> Option<Seq<char>> {
    if e == "png"@ {
        Some("image/png"@)
    } else if e == "svg"@ {
        Some("image/svg+xml"@)
    } else if e == "jpg"@ || e == "jpeg"@ {
        Some("image/jpeg"@)
    } else if e == "gif"@ {
        Some("image/gif"@)
    } else if e == "ico"@ {
        Some("image/x-icon"@)
    } else {
        None
    }
}

fn is_literal(cs: &Vec<char>, lit: &str) -> (r: bool)
    ensures
        r == (cs@ == lit@),
{
    let l = chars_of(lit);
    chars_equal(cs, &l)
}

/// The MIME type of an icon file with extension `ext`.
pub fn icon_mime_type(ext: &str) -> (r: Option<String>)
    ensures
        opt_text(r) == icon_mime(ext@),
{
    let lower = to_lowercase(ext);
    mime_for_lower(lower.as_str())
}

/// The MIME type of an icon file whose lower-case extension is `e`.
pub fn mime_for_lower(e: &str) -> (r: Option<String>)
    ensures
        opt_text(r) == mime_of_lower(e@),
{
    let e = chars_of(e);
    if is_literal(&e, "png") {
        Some(copy_str("image/png"))
    } else if is_literal(&e, "svg") {
        Some(copy_str("image/svg+xml"))
    } else if is_literal(&e, "jpg") || is_literal(&e, "jpeg") {
        Some(copy_str("image/jpeg"))
    } else if is_literal(&e, "gif") {
        Some(copy_str("image/gif"))
    } else if is_literal(&e, "ico") {
        Some(copy_str("image/x-icon"))
    } else {
        None
    }
}

pub open spec fn data_url_text(mime: Seq<char>, data: Seq<u8>) -> Seq<char> {
    "data:"@ + mime + ";base64,"@ + base64_standard(data)
}

/// The data URL of a file's contents.
pub fn data_url(mime: &str, data: &[u8]) -> (r: String)
    ensures
        r@ == data_url_text(mime@, data@),
{
    let mut r = copy_str("data:");
    r.append(mime);
    r.append(";base64,");
    let enc = base64_encode(data);
    r.append(enc.as_str());
    assert(r@ =~= data_url_text(mime@, data@));
    r
}

/// The fields of a `[Desktop Entry]` group that the launcher reads.
#[derive(Debug, Clone)]
pub struct DesktopEntry {
    pub name: String,
    pub exec_cmd: String,
    pub icon: String,
    pub no_display: bool,
    pub hidden: bool,
}

pub struct DesktopEntryView {
    pub name: Seq<char>,
    pub exec_cmd: Seq<char>,
    pub icon: Seq<char>,
    pub no_display: bool,
    pub hidden: bool,
}

impl View for DesktopEntry {
    type V = DesktopEntryView;

    open spec fn view(&self) -> DesktopEntryView {
        DesktopEntryView {
            name: self.name@,
            exec_cmd: self.exec_cmd@,
            icon: self.icon@,
            no_display: self.no_display,
            hidden: self.hidden,
        }
    }
}

/// Where reading a desktop file stands after some lines: whether the
/// current group is `[Desktop Entry]`, and the fields read so far.
pub struct EntryScan {
    pub in_entry: bool,
    pub fields: DesktopEntryView,
}

pub open spec fn empty_entry() -> DesktopEntryView {
    DesktopEntryView {
        name: Seq::empty(),
        exec_cmd: Seq::empty(),
        icon: Seq::empty(),
        no_display: false,
        hidden: false,
    }
}

/// The text after `key=` in a trimmed line, trimmed.
pub open spec fn value_after(t: Seq<char>, key: Seq<char>) -> Seq<char> {
    trim(t.subrange(key.len() as int, t.len() as int))
}

/// Whether a boolean value reads as true: `true` in any case.
pub open spec fn reads_true(v: Seq<char>) -> bool {
    unicode_lowercase(v) == "true"@
}

/// Whether a lower-cased boolean value reads as true.
pub fn is_true_lower(lower: &str) -> (r: bool)
    ensures
        r == (lower@ == "true"@),
{
    let lc = chars_of(lower);
    is_literal(&lc, "true")
}

/// One line of a desktop file, read into the scan.
pub open spec fn scan_line(s: EntryScan, line: Seq<char>) -> EntryScan {
    let t = trim(line);
    if t == "[Desktop Entry]"@ {
        EntryScan { in_entry: true, ..s }
    } else {
        let s1 = if t.len() > 0 && t[0] == '[' {
            EntryScan { in_entry: false, ..s }
        } else {
            s
        };
        let f = s1.fields;
        if !s1.in_entry {
            s1
        } else if has_prefix(t, "Name="@) {
            EntryScan { fields: DesktopEntryView { name: value_after(t, "Name="@), ..f }, ..s1 }
        } else if has_prefix(t, "Exec="@) {
            EntryScan { fields: DesktopEntryView { exec_cmd: value_after(t, "Exec="@), ..f }, ..s1 }
        } else if has_prefix(t, "Icon="@) {
            EntryScan { fields: DesktopEntryView { icon: value_after(t, "Icon="@), ..f }, ..s1 }
        } else if has_prefix(t, "NoDisplay="@) {
            EntryScan {
                fields: DesktopEntryView { no_display: reads_true(value_after(t, "NoDisplay="@)), ..f },
                ..s1
            }
        } else if has_prefix(t, "Hidden="@) {
            EntryScan {
                fields: DesktopEntryView { hidden: reads_true(value_after(t, "Hidden="@)), ..f },
                ..s1
            }
        } else {
            s1
        }
    }
}

/// The lines of `s`: the texts between newlines.
pub open spec fn lines_of(s: Seq<char>) -> Seq<Seq<char>>
    decreases s.len(),
{
    if s.len() == 0 {
        seq![Seq::empty()]
    } else {
        let prev = lines_of(s.drop_last());
        if s.last() == '\n' {
            prev.push(Seq::empty())
        } else {
            prev.update(prev.len() - 1, prev.last().push(s.last()))
        }
    }
}

pub open spec fn scan_lines(lines: Seq<Seq<char>>) -> EntryScan
    decreases lines.len(),
{
    if lines.len() == 0 {
        EntryScan { in_entry: false, fields: empty_entry() }
    } else {
        scan_line(scan_lines(lines.drop_last()), lines.last())
    }
}

/// The fields that a desktop file's `[Desktop Entry]` group sets; a field set
/// twice keeps the later value.
pub open spec fn desktop_entry_of(content: Seq<char>) -> DesktopEntryView {
    scan_lines(lines_of(content)).fields
}

proof fn lemma_lines_nonempty(s: Seq<char>)
    ensures
        lines_of(s).len() >= 1,
    decreases s.len(),
{
    if s.len() > 0 {
        lemma_lines_nonempty(s.drop_last());
    }
}

struct ScanState {
    in_entry: bool,
    entry: DesktopEntry,
}

impl ScanState {
    spec fn scan(&self) -> EntryScan {
        EntryScan { in_entry: self.in_entry, fields: self.entry@ }
    }
}

fn value_string(t: &Vec<char>, n: usize) -> (r: String)
    requires
        n <= t@.len(),
    ensures
        r@ == trim(t@.subrange(n as int, t@.len() as int)),
{
    let rest = chars_range(t, n, t.len());
    let v = trim_chars(&rest);
    string_of(&v)
}

fn reads_true_exec(t: &Vec<char>, n: usize) -> (r: bool)
    requires
        n <= t@.len(),
    ensures
        r == reads_true(trim(t@.subrange(n as int, t@.len() as int))),
{
    let v = value_string(t, n);
    let lower = to_lowercase(v.as_str());
    is_true_lower(lower.as_str())
}

fn key_prefix(t: &Vec<char>, key: &str) -> (r: bool)
    ensures
        r == has_prefix(t@, key@),
{
    let k = chars_of(key);
    starts_with_chars(t, &k)
}

fn scan_line_exec(st: &mut ScanState, line: &Vec<char>)
    ensures
        final(st).scan() == scan_line(old(st).scan(), line@),
{
    proof {
        reveal_strlit("Name=");
        reveal_strlit("Exec=");
        reveal_strlit("Icon=");
        reveal_strlit("NoDisplay=");
        reveal_strlit("Hidden=");
    }
    let t = trim_chars(line);
    if is_literal(&t, "[Desktop Entry]") {
        st.in_entry = true;
        return;
    }
    if t.len() > 0 && t[0] == '[' {
        st.in_entry = false;
    }
    if !st.in_entry {
        return;
    }
    if key_prefix(&t, "Name=") {
        st.entry.name = value_string(&t, 5);
    } else if key_prefix(&t, "Exec=") {
        st.entry.exec_cmd = value_string(&t, 5);
    } else if key_prefix(&t, "Icon=") {
        st.entry.icon = value_string(&t, 5);
    } else if key_prefix(&t, "NoDisplay=") {
        st.entry.no_display = reads_true_exec(&t, 10);
    } else if key_prefix(&t, "Hidden=") {
        st.entry.hidden = reads_true_exec(&t, 7);
    }
}

/// The fields that a desktop file's `[Desktop Entry]` group sets.
pub fn parse_desktop_entry(content: &str) -> (r: DesktopEntry)
    ensures
        r@ == desktop_entry_of(content@),
{
    let cs = chars_of(content);
    let mut st = ScanState {
        in_entry: false,
        entry: DesktopEntry {
            name: String::new(),
            exec_cmd: String::new(),
            icon: String::new(),
            no_display: false,
            hidden: false,
        },
    };
    assert(st.scan().fields =~= empty_entry());
    let mut line: Vec<char> = Vec::new();
    let mut i: usize = 0;
    proof {
        assert(cs@.take(0) =~= Seq::<char>::empty());
    }
    while i < cs.len()
        invariant
            i <= cs@.len(),
            cs@ == content@,
            lines_of(cs@.take(i as int)).len() >= 1,
            st.scan() == scan_lines(lines_of(cs@.take(i as int)).drop_last()),
            line@ == lines_of(cs@.take(i as int)).last(),
        decreases cs@.len() - i,
    {
        let ghost before = lines_of(cs@.take(i as int));
        assert(cs@.take(i + 1).drop_last() =~= cs@.take(i as int));
        assert(cs@.take(i + 1).last() == cs@[i as int]);
        let c = cs[i];
        if c == '\n' {
            scan_line_exec(&mut st, &line);
            line = Vec::new();
            assert(before.push(Seq::<char>::empty()).drop_last() =~= before);
            assert(line@ =~= Seq::<char>::empty());
        } else {
            line.push(c);
            assert(before.update(before.len() - 1, before.last().push(c)).drop_last() =~= before.drop_last());
        }
        i = i + 1;
        proof {
            lemma_lines_nonempty(cs@.take(i as int));
        }
    }
    assert(cs@.take(cs@.len() as int) =~= cs@);
    scan_line_exec(&mut st, &line);
    proof {
        let l = lines_of(cs@);
        assert(l.drop_last().push(l.last()) =~= l);
    }
    st.entry
}

/// An `Exec` value without its field codes, trimmed.
pub open spec fn cleaned_exec(exec: Seq<char>) -> Seq<char> {
    trim(without_field_codes(exec))
}

/// The application that a desktop file named `file_name` describes, unless
/// it lacks a name or a command, or is hidden or not to be displayed.
pub open spec fn listed_app(file_name: Seq<char>, e: DesktopEntryView) -> Option<AppInfoView> {
    if e.name.len() > 0 && e.exec_cmd.len() > 0 && !e.no_display && !e.hidden {
        Some(
            AppInfoView {
                id: file_name,
                name: e.name,
                exec_cmd: cleaned_exec(e.exec_cmd),
                icon: if e.icon.len() == 0 {
                    "system-run"@
                } else {
                    e.icon
                },
            },
        )
    } else {
        None
    }
}

/// The application that a desktop entry describes, when it is one to list.
pub fn app_from_entry(file_name: &str, entry: &DesktopEntry) -> (r: Option<AppInfo>)
    ensures
        match r {
            Some(a) => listed_app(file_name@, entry@) == Some(a@),
            None => listed_app(file_name@, entry@) is None,
        },
{
    if entry.name.as_str().is_empty() || entry.exec_cmd.as_str().is_empty() || entry.no_display
        || entry.hidden {
        return None;
    }
    let stripped = remove_field_codes(entry.exec_cmd.as_str());
    let exec_cmd = trimmed(stripped.as_str());
    let icon = if entry.icon.as_str().is_empty() {
        copy_str("system-run")
    } else {
        entry.icon.clone()
    };
    Some(AppInfo { id: copy_str(file_name), name: entry.name.clone(), exec_cmd, icon })
}

pub open spec fn app_ids(apps: Seq<AppInfoView>) -> Seq<Seq<char>> {
    apps.map_values(|a: AppInfoView| a.id)
}

/// The applications that desktop files (name, contents) describe, in order:
/// only files named `*.desktop`, and only the first listed application of
/// each file name.
pub open spec fn collected_apps(files: Seq<(Seq<char>, Seq<char>)>) -> Seq<AppInfoView>
    decreases files.len(),
{
    if files.len() == 0 {
        Seq::empty()
    } else {
        let prev = collected_apps(files.drop_last());
        let f = files.last();
        if has_suffix(f.0, ".desktop"@) && !app_ids(prev).contains(f.0) {
            match listed_app(f.0, desktop_entry_of(f.1)) {
                Some(a) => prev.push(a),
                None => prev,
            }
        } else {
            prev
        }
    }
}

pub open spec fn files_view(v: Seq<(String, String)>) -> Seq<(Seq<char>, Seq<char>)> {
    v.map_values(|p: (String, String)| (p.0@, p.1@))
}

fn has_id(apps: &Vec<AppInfo>, id: &str) -> (r: bool)
    ensures
        r == app_ids(apps_view(apps@)).contains(id@),
{
    let ic = chars_of(id);
    let mut i: usize = 0;
    while i < apps.len()
        invariant
            i <= apps@.len(),
            ic@ == id@,
            forall|j: int| 0 <= j < i ==> apps@[j]@.id != id@,
        decreases apps@.len() - i,
    {
        let c = chars_of(apps[i].id.as_str());
        if chars_equal(&c, &ic) {
            assert(app_ids(apps_view(apps@))[i as int] == id@);
            return true;
        }
        i = i + 1;
    }
    assert forall|j: int| 0 <= j < app_ids(apps_view(apps@)).len() implies app_ids(
        apps_view(apps@),
    )[j] != id@ by {
        assert(app_ids(apps_view(apps@))[j] == apps@[j]@.id);
    }
    false
}

/// The applications that desktop files describe, given as (file name,
/// contents) in the order the application directories list them.
pub fn collect_desktop_apps(files: &Vec<(String, String)>) -> (r: Vec<AppInfo>)
    ensures
        apps_view(r@) == collected_apps(files_view(files@)),
{
    let ghost fv = files_view(files@);
    let suffix = chars_of(".desktop");
    let mut apps: Vec<AppInfo> = Vec::new();
    let mut i: usize = 0;
    while i < files.len()
        invariant
            i <= files@.len(),
            fv == files_view(files@),
            suffix@ == ".desktop"@,
            apps_view(apps@) == collected_apps(fv.take(i as int)),
        decreases files@.len() - i,
    {
        assert(fv.take(i + 1).drop_last() =~= fv.take(i as int));
        assert(fv.take(i + 1).last() == (files@[i as int].0@, files@[i as int].1@));
        let f = &files[i];
        let name = chars_of(f.0.as_str());
        if ends_with_chars(&name, &suffix) && !has_id(&apps, f.0.as_str()) {
            let entry = parse_desktop_entry(f.1.as_str());
            match app_from_entry(f.0.as_str(), &entry) {
                Some(a) => {
                    apps.push(a);
                    assert(apps_view(apps@) =~= collected_apps(fv.take(i as int)).push(a@));
                },
                None => {},
            }
        }
        i = i + 1;
    }
    assert(fv.take(files@.len() as int) =~= fv);
    apps
}

/// No two collected applications have the same id.
pub proof fn lemma_collected_ids_distinct(files: Seq<(Seq<char>, Seq<char>)>)
    ensures
        forall|i: int, j: int|
            0 <= i < j < collected_apps(files).len() ==> collected_apps(files)[i].id
                != collected_apps(files)[j].id,
    decreases files.len(),
{
    if files.len() > 0 {
        lemma_collected_ids_distinct(files.drop_last());
        let prev = collected_apps(files.drop_last());
        let cur = collected_apps(files);
        assert forall|i: int, j: int| 0 <= i < j < cur.len() implies cur[i].id != cur[j].id by {
            if j == prev.len() {
                assert(app_ids(prev)[i] == prev[i].id);
            }
        }
    }
}

/// `a` comes before or equals `b` in the order of `String`: compared
/// character by character by code point, a proper prefix first. (UTF-8 keeps
/// code-point order, so this is the byte order that `String` compares by.)
pub open spec fn text_le(a: Seq<char>, b: Seq<char>) -> bool
    decreases a.len(),
{
    if a.len() == 0 {
        true
    } else if b.len() == 0 {
        false
    } else if a[0] != b[0] {
        a[0] < b[0]
    } else {
        text_le(a.drop_first(), b.drop_first())
    }
}

pub proof fn lemma_text_le_total(a: Seq<char>, b: Seq<char>)
    ensures
        text_le(a, b) || text_le(b, a),
    decreases a.len(),
{
    if a.len() > 0 && b.len() > 0 && a[0] == b[0] {
        lemma_text_le_total(a.drop_first(), b.drop_first());
    }
}

pub proof fn lemma_text_le_trans(a: Seq<char>, b: Seq<char>, c: Seq<char>)
    requires
        text_le(a, b),
        text_le(b, c),
    ensures
        text_le(a, c),
    decreases a.len(),
{
    if a.len() > 0 && b.len() > 0 && c.len() > 0 && a[0] == b[0] && b[0] == c[0] {
        lemma_text_le_trans(a.drop_first(), b.drop_first(), c.drop_first());
    }
}

/// A text comes before every text it is a proper prefix of, and every text
/// comes before or equals the texts that start with it: the empty text is
/// first of all.
pub proof fn lemma_text_le_prefix(a: Seq<char>, b: Seq<char>)
    requires
        a.len() <= b.len(),
        b.take(a.len() as int) == a,
    ensures
        text_le(a, b),
        a.len() < b.len() ==> !text_le(b, a),
    decreases a.len(),
{
    if a.len() > 0 {
        assert(b[0] == b.take(a.len() as int)[0]);
        assert(b.drop_first().take(a.drop_first().len() as int) =~= a.drop_first()) by {
            assert forall|k: int| 0 <= k < a.len() - 1 implies b.drop_first()[k] == a.drop_first()[k] by {
                assert(b.take(a.len() as int)[k + 1] == b[k + 1]);
            }
        }
        lemma_text_le_prefix(a.drop_first(), b.drop_first());
    }
}

/// Two texts that first differ at position `i` are ordered by their
/// characters there, by code point.
pub proof fn lemma_text_le_first_difference(a: Seq<char>, b: Seq<char>, i: int)
    requires
        0 <= i < a.len(),
        i < b.len(),
        a.take(i) == b.take(i),
        a[i] != b[i],
    ensures
        text_le(a, b) == (a[i] < b[i]),
    decreases i,
{
    if i > 0 {
        assert(a[0] == a.take(i)[0] && b[0] == b.take(i)[0]);
        assert(a.drop_first().take(i - 1) =~= b.drop_first().take(i - 1)) by {
            assert forall|k: int| 0 <= k < i - 1 implies a.drop_first()[k] == b.drop_first()[k] by {
                assert(a.take(i)[k + 1] == b.take(i)[k + 1]);
                assert(a.take(i)[k + 1] == a[k + 1] && b.take(i)[k + 1] == b[k + 1]);
                assert(a.drop_first()[k] == a[k + 1] && b.drop_first()[k] == b[k + 1]);
            }
        }
        lemma_text_le_first_difference(a.drop_first(), b.drop_first(), i - 1);
    }
}

/// Whether `a` comes before or equals `b` in the order of `String`.
pub fn text_le_exec(a: &Vec<char>, b: &Vec<char>) -> (r: bool)
    ensures
        r == text_le(a@, b@),
{
    let mut i: usize = 0;
    assert(a@.subrange(0, a@.len() as int) =~= a@);
    assert(b@.subrange(0, b@.len() as int) =~= b@);
    while i < a.len()
        invariant
            i <= a@.len(),
            i <= b@.len(),
            text_le(a@, b@) == text_le(
                a@.subrange(i as int, a@.len() as int),
                b@.subrange(i as int, b@.len() as int),
            ),
        decreases a@.len() - i,
    {
        let ghost sa = a@.subrange(i as int, a@.len() as int);
        let ghost sb = b@.subrange(i as int, b@.len() as int);
        if i >= b.len() {
            return false;
        }
        assert(sa[0] == a@[i as int] && sb[0] == b@[i as int]);
        if a[i] != b[i] {
            return a[i] < b[i];
        }
        assert(sa.drop_first() =~= a@.subrange(i + 1, a@.len() as int));
        assert(sb.drop_first() =~= b@.subrange(i + 1, b@.len() as int));
        i = i + 1;
    }
    true
}

/// The key that the launcher orders applications by: the lower-case name.
pub open spec fn name_key(a: AppInfoView) -> Seq<char> {
    unicode_lowercase(a.name)
}

pub open spec fn sorted_by_name(apps: Seq<AppInfoView>) -> bool {
    forall|i: int, j: int| 0 <= i < j < apps.len() ==> text_le(name_key(apps[i]), name_key(apps[j]))
}

/// The applications whose lower-case name is `k`, in their order.
pub open spec fn with_key(apps: Seq<AppInfoView>, k: Seq<char>) -> Seq<AppInfoView> {
    apps.filter(has_key(k))
}

pub open spec fn has_key(k: Seq<char>) -> spec_fn(AppInfoView) -> bool {
    |a: AppInfoView| name_key(a) == k
}

proof fn lemma_text_le_refl(a: Seq<char>)
    ensures
        text_le(a, a),
    decreases a.len(),
{
    if a.len() > 0 {
        lemma_text_le_refl(a.drop_first());
    }
}

/// Inserting `x` before applications whose keys all differ from its key
/// keeps, for every key, the applications with that key in the order that
/// appending `x` gives.
proof fn lemma_with_key_insert(before: Seq<AppInfoView>, j: int, x: AppInfoView, k: Seq<char>)
    requires
        0 <= j <= before.len(),
        forall|m: int| j <= m < before.len() ==> name_key(#[trigger] before[m]) != name_key(x),
    ensures
        with_key(before.insert(j, x), k) == with_key(before.push(x), k),
{
    let pred = has_key(k);
    let t = before.take(j);
    let s = before.skip(j);
    let one = seq![x];
    assert(before.insert(j, x) =~= (t + one) + s);
    assert(before.push(x) =~= (t + s) + one);
    Seq::filter_distributes_over_add(t + one, s, pred);
    Seq::filter_distributes_over_add(t, one, pred);
    Seq::filter_distributes_over_add(t + s, one, pred);
    Seq::filter_distributes_over_add(t, s, pred);
    assert(one =~= Seq::<AppInfoView>::empty().push(x));
    Seq::<AppInfoView>::empty().lemma_filter_push(x, pred);
    assert(Seq::<AppInfoView>::empty().filter(pred) =~= Seq::<AppInfoView>::empty()) by {
        Seq::<AppInfoView>::empty().lemma_filter_len(pred);
    }
    if k == name_key(x) {
        assert forall|m: int| 0 <= m < s.len() implies !pred(#[trigger] s[m]) by {
            assert(s[m] == before[j + m]);
        }
        assert(s.all(|a: AppInfoView| !pred(a)));
        s.lemma_all_neg_filter_empty(pred);
        assert(s.filter(pred) =~= Seq::<AppInfoView>::empty());
        assert(with_key(before.insert(j, x), k) =~= with_key(before.push(x), k));
    } else {
        assert(with_key(before.insert(j, x), k) =~= with_key(before.push(x), k));
    }
}

/// `apps` ordered by lower-case name; applications with the same key keep
/// their relative order.
pub fn sort_apps_by_name(apps: Vec<AppInfo>) -> (r: Vec<AppInfo>)
    ensures
        apps_view(r@).to_multiset() == apps_view(apps@).to_multiset(),
        sorted_by_name(apps_view(r@)),
        forall|k: Seq<char>| #[trigger] with_key(apps_view(r@), k) == with_key(apps_view(apps@), k),
{
    let ghost av = apps_view(apps@);
    let mut out: Vec<AppInfo> = Vec::new();
    let mut keys: Vec<Vec<char>> = Vec::new();
    let mut i: usize = 0;
    proof {
        broadcast use vstd::seq_lib::to_multiset_insert;
        assert(apps_view(out@) =~= av.take(0));
    }
    while i < apps.len()
        invariant
            i <= apps@.len(),
            av == apps_view(apps@),
            keys@.len() == out@.len(),
            forall|k: int| 0 <= k < keys@.len() ==> #[trigger] keys@[k]@ == name_key(out@[k]@),
            apps_view(out@).to_multiset() == av.take(i as int).to_multiset(),
            sorted_by_name(apps_view(out@)),
            forall|k: Seq<char>| #[trigger] with_key(apps_view(out@), k) == with_key(av.take(i as int), k),
        decreases apps@.len() - i,
    {
        let a = apps[i].clone();
        assert(a@ == av[i as int]);
        let lower = to_lowercase(a.name.as_str());
        let key = chars_of(lower.as_str());
        assert(key@ == name_key(a@));
        let mut j: usize = 0;
        while j < out.len() && text_le_exec(&keys[j], &key)
            invariant
                j <= out@.len(),
                keys@.len() == out@.len(),
                forall|k: int| 0 <= k < keys@.len() ==> #[trigger] keys@[k]@ == name_key(out@[k]@),
                forall|k: int| 0 <= k < j ==> text_le(name_key(#[trigger] out@[k]@), key@),
            decreases out@.len() - j,
        {
            j = j + 1;
        }
        let ghost before = apps_view(out@);
        proof {
            assert forall|k: int| j <= k < out@.len() implies text_le(key@, name_key(#[trigger] out@[k]@))
                && !text_le(name_key(out@[k]@), key@) by {
                assert(!text_le(name_key(out@[j as int]@), key@));
                lemma_text_le_total(name_key(out@[j as int]@), key@);
                if k > j {
                    assert(text_le(name_key(before[j as int]), name_key(before[k])));
                    lemma_text_le_trans(key@, name_key(out@[j as int]@), name_key(out@[k]@));
                    if text_le(name_key(out@[k]@), key@) {
                        lemma_text_le_trans(name_key(out@[j as int]@), name_key(out@[k]@), key@);
                    }
                }
            }
        }
        proof {
            assert forall|m: int| j <= m < before.len() implies name_key(#[trigger] before[m]) != key@ by {
                assert(before[m] == out@[m]@);
                lemma_text_le_refl(key@);
            }
        }
        out.insert(j, a);
        keys.insert(j, key);
        proof {
            assert(apps_view(out@) =~= before.insert(j as int, av[i as int]));
            assert(av.take(i + 1) =~= av.take(i as int).push(av[i as int]));
            vstd::seq_lib::to_multiset_insert(before, j as int, av[i as int]);
            av.take(i as int).to_multiset_ensures();
            let now = apps_view(out@);
            assert forall|p: int, q: int| 0 <= p < q < now.len() implies text_le(
                name_key(now[p]),
                name_key(now[q]),
            ) by {
                if q < j {
                    assert(now[p] == before[p] && now[q] == before[q]);
                } else if q == j {
                    assert(now[p] == before[p]);
                } else if p == j {
                    assert(now[q] == before[q - 1]);
                } else if p < j {
                    assert(now[p] == before[p] && now[q] == before[q - 1]);
                    lemma_text_le_trans(name_key(before[p]), key@, name_key(before[q - 1]));
                } else {
                    assert(now[p] == before[p - 1] && now[q] == before[q - 1]);
                }
            }
            assert forall|k: int| 0 <= k < keys@.len() implies #[trigger] keys@[k]@ == name_key(out@[k]@) by {
                if k < j {
                } else if k == j {
                } else {
                }
            }
            let x = av[i as int];
            assert forall|k: Seq<char>| #[trigger] with_key(now, k) == with_key(av.take(i + 1), k) by {
                assert(with_key(before, k) == with_key(av.take(i as int), k));
                lemma_with_key_insert(before, j as int, x, k);
                before.lemma_filter_push(x, has_key(k));
                av.take(i as int).lemma_filter_push(x, has_key(k));
            }
        }
        i = i + 1;
    }
    assert(av.take(apps@.len() as int) =~= av);
    out
}

/// The position of the first `c` in `s`.
pub open spec fn first_index_of(s: Seq<char>, c: char) -> Option<int> {
    if exists|i: int| 0 <= i < s.len() && s[i] == c && forall|k: int| 0 <= k < i ==> s[k] != c {
        Some(choose|i: int| 0 <= i < s.len() && s[i] == c && forall|k: int| 0 <= k < i ==> s[k] != c)
    } else {
        None
    }
}

/// How many ASCII digits end `s`.
pub open spec fn trailing_digits(s: Seq<char>) -> nat
    decreases s.len(),
{
    if s.len() > 0 && is_ascii_digit(s.last()) {
        trailing_digits(s.drop_last()) + 1
    } else {
        0
    }
}

/// The icon size that a path names, as in `.../256x256/...`: the digits just
/// before its first `x`, or 0 when there are none or they do not fit in 32 bits.
pub open spec fn icon_size(path: Seq<char>) -> u32 {
    match first_index_of(path, 'x') {
        Some(i) => {
            let before = path.take(i);
            let n = trailing_digits(before);
            let d = before.subrange(i - n, i);
            if n > 0 && is_u32_literal(d) {
                digits_value(d) as u32
            } else {
                0
            }
        },
        None => 0,
    }
}

proof fn lemma_trailing_digits(s: Seq<char>)
    ensures
        trailing_digits(s) <= s.len(),
        all_ascii_digits(s.subrange(s.len() - trailing_digits(s), s.len() as int)),
        trailing_digits(s) < s.len() ==> !is_ascii_digit(s[s.len() - trailing_digits(s) - 1]),
    decreases s.len(),
{
    if s.len() > 0 && is_ascii_digit(s.last()) {
        lemma_trailing_digits(s.drop_last());
        let n = trailing_digits(s);
        assert forall|k: int| 0 <= k < n implies is_ascii_digit(
            #[trigger] s.subrange(s.len() - n, s.len() as int)[k],
        ) by {
            if k < n - 1 {
                assert(s.subrange(s.len() - n, s.len() as int)[k] == s.drop_last().subrange(
                    s.drop_last().len() - (n - 1),
                    s.drop_last().len() as int,
                )[k]);
            }
        }
    }
}

/// The icon size that a path names.
pub fn icon_size_of(path: &str) -> (r: u32)
    ensures
        r == icon_size(path@),
{
    let cs = chars_of(path);
    let mut i: usize = 0;
    while i < cs.len() && cs[i] != 'x'
        invariant
            i <= cs@.len(),
            cs@ == path@,
            forall|k: int| 0 <= k < i ==> cs@[k] != 'x',
        decreases cs@.len() - i,
    {
        i = i + 1;
    }
    if i == cs.len() {
        assert(!(exists|j: int| 0 <= j < cs@.len() && cs@[j] == 'x' && forall|k: int| 0 <= k < j ==> cs@[k] != 'x'));
        return 0;
    }
    proof {
        assert(0 <= i < cs@.len() && cs@[i as int] == 'x' && forall|k: int| 0 <= k < i ==> cs@[k] != 'x');
        let c = choose|j: int| 0 <= j < cs@.len() && cs@[j] == 'x' && forall|k: int| 0 <= k < j ==> cs@[k] != 'x';
        assert(c == i) by {
            if c < i {
                assert(cs@[c] != 'x');
            } else if c > i {
                assert(cs@[i as int] != 'x');
            }
        }
        lemma_trailing_digits(cs@.take(i as int));
    }
    let ghost before = cs@.take(i as int);
    assert(before.take(i as int) =~= before);
    let mut start: usize = i;
    while start > 0 && '0' <= cs[start - 1] && cs[start - 1] <= '9'
        invariant
            start <= i < cs@.len(),
            before == cs@.take(i as int),
            i - start <= trailing_digits(before),
            trailing_digits(before) == (i - start) + trailing_digits(before.take(start as int)),
        decreases start,
    {
        assert(before.take(start as int).drop_last() =~= before.take(start - 1));
        assert(before.take(start as int).last() == cs@[start - 1]);
        start = start - 1;
    }
    proof {
        assert(before.take(i as int) =~= before);
        if start > 0 {
            assert(before.take(start as int).last() == cs@[start - 1]);
        }
        assert(trailing_digits(before.take(start as int)) == 0);
    }
    if start == i {
        return 0;
    }
    let digits = chars_range(&cs, start, i);
    assert(digits@ =~= before.subrange(start as int, i as int));
    match parse_u32(&digits) {
        Some(v) => v,
        None => 0,
    }
}

/// How the launcher ranks an icon file by its (lower-case) extension:
/// PNG first, then SVG, then the rest.
pub open spec fn icon_rank(ext: Seq<char>) -> u32 {
    rank_of_lower(unicode_lowercase(ext))
}

/// How the launcher ranks an icon file by its lower-case extension `e`.
pub open spec fn rank_of_lower(e: Seq<char>) -> u32 {
    if e == "png"@ {
        3
    } else if e == "svg"@ {
        2
    } else {
        1
    }
}

/// How the launcher ranks an icon file by its extension.
pub fn icon_rank_of(ext: &str) -> (r: u32)
    ensures
        r == icon_rank(ext@),
{
    let lower = to_lowercase(ext);
    rank_for_lower(lower.as_str())
}

/// How the launcher ranks an icon file by its lower-case extension `e`.
pub fn rank_for_lower(e: &str) -> (r: u32)
    ensures
        r == rank_of_lower(e@),
{
    let e = chars_of(e);
    if is_literal(&e, "png") {
        3
    } else if is_literal(&e, "svg") {
        2
    } else {
        1
    }
}

/// A file found while looking for an icon: its path and extension.
#[derive(Debug, Clone)]
pub struct IconCandidate {
    pub path: String,
    pub ext: String,
}

pub open spec fn score_lt(c1: (Seq<char>, Seq<char>), c2: (Seq<char>, Seq<char>)) -> bool {
    icon_rank(c1.1) < icon_rank(c2.1) || (icon_rank(c1.1) == icon_rank(c2.1) && icon_size(c1.0)
        < icon_size(c2.0))
}

pub open spec fn candidates_view(v: Seq<IconCandidate>) -> Seq<(Seq<char>, Seq<char>)> {
    v.map_values(|c: IconCandidate| (c.path@, c.ext@))
}

/// The candidate the launcher shows: the best ranked, then the largest, and
/// among equals the first found.
pub open spec fn is_best_icon(cs: Seq<(Seq<char>, Seq<char>)>, i: int) -> bool {
    &&& 0 <= i < cs.len()
    &&& forall|j: int| 0 <= j < cs.len() ==> !score_lt(cs[i], #[trigger] cs[j])
    &&& forall|j: int| 0 <= j < i ==> score_lt(#[trigger] cs[j], cs[i])
}

/// The position of the icon file to show among the candidates.
pub fn best_icon_index(candidates: &Vec<IconCandidate>) -> (r: Option<usize>)
    ensures
        r is None <==> candidates@.len() == 0,
        r matches Some(i) ==> is_best_icon(candidates_view(candidates@), i as int),
{
    let ghost cv = candidates_view(candidates@);
    if candidates.len() == 0 {
        return None;
    }
    let mut best: usize = 0;
    let mut best_rank = icon_rank_of(candidates[0].ext.as_str());
    let mut best_size = icon_size_of(candidates[0].path.as_str());
    let mut k: usize = 1;
    while k < candidates.len()
        invariant
            1 <= k <= candidates@.len(),
            cv == candidates_view(candidates@),
            best < k,
            best_rank == icon_rank(cv[best as int].1),
            best_size == icon_size(cv[best as int].0),
            forall|j: int| 0 <= j < k ==> !score_lt(cv[best as int], #[trigger] cv[j]),
            forall|j: int| 0 <= j < best ==> score_lt(#[trigger] cv[j], cv[best as int]),
        decreases candidates@.len() - k,
    {
        assert(cv[k as int] == (candidates@[k as int].path@, candidates@[k as int].ext@));
        let r = icon_rank_of(candidates[k].ext.as_str());
        let s = icon_size_of(candidates[k].path.as_str());
        if best_rank < r || (best_rank == r && best_size < s) {
            best = k;
            best_rank = r;
            best_size = s;
        }
        k = k + 1;
    }
    Some(best)
}

/// The icon file extensions the launcher can show.
pub open spec fn renderable(ext: Seq<char>) -> bool {
    renderable_lower(unicode_lowercase(ext))
}

/// The lower-case icon file extensions the launcher can show.
pub open spec fn renderable_lower(e: Seq<char>) -> bool {
    e == "png"@ || e == "svg"@ || e == "jpg"@ || e == "jpeg"@ || e == "gif"@
}

/// The launcher shows exactly the image files it can name a MIME type for,
/// except icons (`.ico`); and every extension it ranks above the rest (PNG,
/// SVG) is one it shows.
pub proof fn lemma_renderable_images(e: Seq<char>)
    ensures
        renderable_lower(e) <==> (mime_of_lower(e) is Some && e != "ico"@),
        rank_of_lower(e) > 1 ==> renderable_lower(e),
{
    reveal_strlit("png");
    reveal_strlit("svg");
    reveal_strlit("jpg");
    reveal_strlit("jpeg");
    reveal_strlit("gif");
    reveal_strlit("ico");
    assert("jpeg"@.len() == 4 && "ico"@.len() == 3);
    assert("png"@[0] != "ico"@[0] && "svg"@[0] != "ico"@[0] && "jpg"@[0] != "ico"@[0] && "gif"@[0] != "ico"@[0]);
    assert("png"@ != "ico"@ && "svg"@ != "ico"@ && "jpg"@ != "ico"@ && "gif"@ != "ico"@ && "jpeg"@ != "ico"@);
}

/// Whether the launcher can show an icon file whose lower-case extension is `e`.
pub fn is_renderable_lower(e: &str) -> (r: bool)
    ensures
        r == renderable_lower(e@),
{
    let e = chars_of(e);
    is_literal(&e, "png") || is_literal(&e, "svg") || is_literal(&e, "jpg") || is_literal(&e, "jpeg")
        || is_literal(&e, "gif")
}

/// Whether a file with this extension and stem is an icon named `name`.
pub fn is_icon_candidate(ext: &str, stem: &str, name: &str) -> (r: bool)
    ensures
        r == (renderable(ext@) && stem@ == name@),
{
    let lower = to_lowercase(ext);
    is_renderable_lower(lower.as_str()) && crate::text::str_equal(stem, name)
}

/// An icon name without a trailing image extension.
pub open spec fn icon_base_name(raw: Seq<char>) -> Seq<char> {
    without_image_extension(raw)
}

/// An icon name without a trailing image extension, as themes look it up.
pub fn strip_icon_extension(raw: &str) -> (r: String)
    ensures
        r@ == icon_base_name(raw@),
{
    remove_image_extension(raw)
}

/// The key under which an application's resolved icon is kept.
pub fn app_icon_cache_key(app: &AppInfo) -> (r: String)
    ensures
        r@ == app@.id + ":"@ + app@.icon,
{
    let mut r = app.id.clone();
    r.append(":");
    r.append(app.icon.as_str());
    r
}

/// The key under which a path's resolved icon is kept.
pub fn path_icon_cache_key(path: &str) -> (r: String)
    ensures
        r@ == "path:"@ + path@,
{
    let mut r = copy_str("path:");
    r.append(path);
    r
}

/// The file name of an application's icon set, from the name in its
/// property list: `.icns` is added unless the name ends with it in any case.
pub open spec fn icns_name(name: Seq<char>) -> Seq<char> {
    icns_name_from(name, unicode_lowercase(name))
}

/// The file name of an icon set named `name`, whose lower-case form is
/// `lower`: `.icns` is added unless `lower` ends with it.
pub open spec fn icns_name_from(name: Seq<char>, lower: Seq<char>) -> Seq<char> {
    if has_suffix(lower, ".icns"@) {
        name
    } else {
        name + ".icns"@
    }
}

/// The file name of an application's icon set.
pub fn icns_file_name(name: &str) -> (r: String)
    ensures
        r@ == icns_name(name@),
{
    let lower = to_lowercase(name);
    icns_name_with(name, lower.as_str())
}

/// The file name of an icon set named `name`, whose lower-case form is `lower`.
pub fn icns_name_with(name: &str, lower: &str) -> (r: String)
    ensures
        r@ == icns_name_from(name@, lower@),
{
    let lc = chars_of(lower);
    let suffix = chars_of(".icns");
    let mut r = copy_str(name);
    if !ends_with_chars(&lc, &suffix) {
        r.append(".icns");
    }
    r
}

/// The name of the temporary image that an icon set is converted to:
/// `flick-icon-<process>-<counter>.png`.
pub open spec fn temp_icon_name(process: u32, counter: u32) -> Seq<char> {
    "flick-icon-"@ + decimal(process as nat) + "-"@ + decimal(counter as nat) + ".png"@
}

/// The name of the temporary image for the `counter`-th conversion of
/// process `process`.
pub fn temp_icon_file_name(process: u32, counter: u32) -> (r: String)
    ensures
        r@ == temp_icon_name(process, counter),
{
    let mut r = copy_str("flick-icon-");
    push_decimal(&mut r, process);
    r.append("-");
    push_decimal(&mut r, counter);
    r.append(".png");
    assert(r@ =~= temp_icon_name(process, counter));
    r
}

} // verus!

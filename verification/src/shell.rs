//! Decisions of the desktop shell: tray menu labels and entries, what the
//! assist key and a lost focus do, how the program starts, and the window
//! and autostart settings.
use vstd::prelude::*;
use crate::config::QuickStartBinds;
use crate::domain::{first_index, position_of};
use crate::hid::{hid_key_id_to_f_key, key_id_fkey};
use crate::text::{copy_str, str_equal, strs};

verus! {

/// The labels of the tray menu.
#[derive(Debug, Clone)]
pub struct TrayLabels {
    pub settings: String,
    pub launcher: String,
    pub autostart: String,
    pub quit: String,
}

/// The tray labels in English for the language `en`, in Portuguese otherwise.
pub open spec fn labels_for(language: Seq<char>) -> (Seq<char>, Seq<char>, Seq<char>, Seq<char>) {
    if language == "en"@ {
        ("Open Settings"@, "Open Launcher (Search)"@, "Launch at Startup"@, "Quit"@)
    } else {
        ("Abrir Configurações"@, "Abrir Launcher (Buscar)"@, "Iniciar com o Sistema"@, "Sair"@)
    }
}

/// The four tray labels of any language are distinct from one another, so
/// each entry says what it does; English is shown exactly for `en`, with
/// the launcher entry labelled as the launcher.
pub proof fn lemma_tray_labels_distinct(language: Seq<char>)
    ensures
        ({
            let (s, l, a, q) = labels_for(language);
            s != l && s != a && s != q && l != a && l != q && a != q
        }),
        labels_for(language).0 == "Open Settings"@ <==> language == "en"@,
        language == "en"@ ==> labels_for(language) == (
            "Open Settings"@,
            "Open Launcher (Search)"@,
            "Launch at Startup"@,
            "Quit"@,
        ),
        language != "en"@ ==> labels_for(language) == (
            "Abrir Configurações"@,
            "Abrir Launcher (Buscar)"@,
            "Iniciar com o Sistema"@,
            "Sair"@,
        ),
{
    reveal_strlit("Open Settings");
    reveal_strlit("Open Launcher (Search)");
    reveal_strlit("Launch at Startup");
    reveal_strlit("Quit");
    reveal_strlit("Abrir Configurações");
    reveal_strlit("Abrir Launcher (Buscar)");
    reveal_strlit("Iniciar com o Sistema");
    reveal_strlit("Sair");
    assert("Open Settings"@.len() == 13 && "Open Launcher (Search)"@.len() == 22);
    assert("Launch at Startup"@.len() == 17 && "Quit"@.len() == 4);
    assert("Abrir Configurações"@.len() == 19 && "Abrir Launcher (Buscar)"@.len() == 23);
    assert("Iniciar com o Sistema"@.len() == 21 && "Sair"@.len() == 4);
    assert("Open Settings"@ != "Abrir Configurações"@);
}

/// The tray labels for the configured language.
pub fn tray_labels(language: &str) -> (r: TrayLabels)
    ensures
        (r.settings@, r.launcher@, r.autostart@, r.quit@) == labels_for(language@),
{
    if str_equal(language, "en") {
        TrayLabels {
            settings: copy_str("Open Settings"),
            launcher: copy_str("Open Launcher (Search)"),
            autostart: copy_str("Launch at Startup"),
            quit: copy_str("Quit"),
        }
    } else {
        TrayLabels {
            settings: copy_str("Abrir Configurações"),
            launcher: copy_str("Abrir Launcher (Buscar)"),
            autostart: copy_str("Iniciar com o Sistema"),
            quit: copy_str("Sair"),
        }
    }
}

/// What a tray menu entry does.
#[derive(Debug, Clone, Copy, PartialEq, Eq)]
pub enum MenuAction {
    /// Show the window on the settings view.
    ShowSettings,
    /// Show the window on the launcher view.
    ShowLauncher,
    /// Flip autostart and store it.
    ToggleAutostart,
    /// Quit the program.
    Quit,
    /// Nothing (the title entry, or an unknown id).
    Nothing,
}

pub open spec fn menu_action_of(id: Seq<char>) -> MenuAction {
    if id == "settings"@ {
        MenuAction::ShowSettings
    } else if id == "launcher"@ {
        MenuAction::ShowLauncher
    } else if id == "autostart"@ {
        MenuAction::ToggleAutostart
    } else if id == "quit"@ {
        MenuAction::Quit
    } else {
        MenuAction::Nothing
    }
}

/// What the tray menu entry with this id does.
pub fn menu_action(id: &str) -> (r: MenuAction)
    ensures
        r == menu_action_of(id@),
{
    if str_equal(id, "settings") {
        MenuAction::ShowSettings
    } else if str_equal(id, "launcher") {
        MenuAction::ShowLauncher
    } else if str_equal(id, "autostart") {
        MenuAction::ToggleAutostart
    } else if str_equal(id, "quit") {
        MenuAction::Quit
    } else {
        MenuAction::Nothing
    }
}

/// What pressing an assist key does.
#[derive(Debug, Clone, PartialEq, Eq)]
pub enum AssistAction {
    /// Fire the quick-start binds of this function key.
    Fire(String),
    /// Show the window on the launcher view.
    OpenLauncher,
}

/// The assist key `key_id` fires its function key when that key has binds,
/// and opens the launcher otherwise.
pub fn assist_key_action(key_id: u8, binds: &QuickStartBinds) -> (r: AssistAction)
    ensures
        match r {
            AssistAction::Fire(k) => key_id_fkey(key_id) == Some(k@) && binds.as_map().contains_key(k@),
            AssistAction::OpenLauncher => match key_id_fkey(key_id) {
                Some(k) => !binds.as_map().contains_key(k),
                None => true,
            },
        },
{
    match hid_key_id_to_f_key(key_id) {
        Some(k) => {
            if binds.contains_key(k.as_str()) {
                AssistAction::Fire(k)
            } else {
                AssistAction::OpenLauncher
            }
        },
        None => AssistAction::OpenLauncher,
    }
}

/// Whether the window hides when it loses focus: only on the launcher view.
pub fn hides_on_blur(view: &str) -> (r: bool)
    ensures
        r == (view@ == "launcher"@),
{
    str_equal(view, "launcher")
}

/// Whether the window for the view `mode` stays on top and off the task bar:
/// only the launcher does.
pub fn floats_above(mode: &str) -> (r: bool)
    ensures
        r == (mode@ == "launcher"@),
{
    str_equal(mode, "launcher")
}

/// How the program starts with `args`: the window shows unless `--hidden` or
/// `--trigger` is given, and the key after the first `--trigger` (if any) is
/// fired once the program is up.
#[derive(Debug, Clone)]
pub struct StartupPlan {
    pub show_window: bool,
    pub cold_trigger: Option<String>,
}

pub open spec fn cold_trigger_of(args: Seq<Seq<char>>) -> Option<Seq<char>> {
    match first_index(args, "--trigger"@) {
        Some(i) => if i + 1 < args.len() {
            Some(args[i + 1])
        } else {
            None
        },
        None => None,
    }
}

/// How the program starts with `args`.
pub fn startup_plan(args: &[String]) -> (r: StartupPlan)
    ensures
        r.show_window == (!strs(args@).contains("--hidden"@) && !strs(args@).contains("--trigger"@)),
        match r.cold_trigger {
            Some(k) => cold_trigger_of(strs(args@)) == Some(k@),
            None => cold_trigger_of(strs(args@)) is None,
        },
{
    let hidden = position_of(args, "--hidden");
    let trigger = position_of(args, "--trigger");
    proof {
        lemma_first_index_contains(strs(args@), "--hidden"@);
        lemma_first_index_contains(strs(args@), "--trigger"@);
    }
    let cold_trigger = match trigger {
        Some(i) => {
            let n = args.len();
            if n - i > 1 {
                assert(strs(args@)[i + 1] == args@[i + 1]@);
                Some(args[i + 1].clone())
            } else {
                None
            }
        },
        None => None,
    };
    StartupPlan { show_window: hidden.is_none() && trigger.is_none(), cold_trigger }
}

proof fn lemma_first_occurrence(args: Seq<Seq<char>>, a: Seq<char>, j: int)
    requires
        0 <= j < args.len(),
        args[j] == a,
    ensures
        exists|m: int| 0 <= m < args.len() && args[m] == a && forall|k: int| 0 <= k < m ==> args[k] != a,
    decreases j,
{
    if exists|k: int| 0 <= k < j && args[k] == a {
        let k = choose|k: int| 0 <= k < j && args[k] == a;
        lemma_first_occurrence(args, a, k);
    } else {
        assert(0 <= j < args.len() && args[j] == a && forall|k: int| 0 <= k < j ==> args[k] != a);
    }
}

proof fn lemma_first_index_contains(args: Seq<Seq<char>>, a: Seq<char>)
    ensures
        first_index(args, a) is Some <==> args.contains(a),
{
    if args.contains(a) {
        let j = choose|j: int| 0 <= j < args.len() && args[j] == a;
        lemma_first_occurrence(args, a, j);
    }
}

/// The arguments the program is started with at login.
pub fn autostart_args(on_linux: bool) -> (r: Vec<String>)
    ensures
        on_linux ==> strs(r@) == seq!["--ozone-platform=x11"@, "--hidden"@],
        !on_linux ==> strs(r@) == seq!["--hidden"@],
{
    let mut r: Vec<String> = Vec::new();
    if on_linux {
        r.push(copy_str("--ozone-platform=x11"));
    }
    r.push(copy_str("--hidden"));
    if on_linux {
        assert(strs(r@) =~= seq!["--ozone-platform=x11"@, "--hidden"@]);
    } else {
        assert(strs(r@) =~= seq!["--hidden"@]);
    }
    r
}

} // verus!

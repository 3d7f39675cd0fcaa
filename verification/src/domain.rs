//! The application core: what a key trigger, a configuration update, a
//! second instance or a launcher-bridge edit does, driving the services of
//! `ports`.
use vstd::prelude::*;
use crate::apps::{apps_view, AppInfo, AppInfoView};
use crate::config::{
    assoc_insert, assoc_remove, config_after_update, opt_str_view, options_view, updated_config, AppConfig,
    AppConfigView, ConfigFields, ConfigUpdate, ConfigUpdateView, ConfigFieldsView, QuickStartBinds,
    QuickStartOption, QuickStartOptionView, BindEntries, LEGACY_WS_PORT, entries_map, keys_of,
};
use crate::hid::{devices_view, KeychronDevice, KeychronDeviceView};
use crate::ports::{
    AppLauncher, AutostartManager, CallReceipt, ConfigRepository, CoreEvent, GnomeShortcutsService, HidService,
    TriggerIpcService, WindowService, WsServer,
};
use crate::text::{copy_str, str_equal, strs, to_uppercase, unicode_uppercase};
use crate::trigger_ipc::FLICK_TRIGGER_PORT;

verus! {

/// `std::time::Instant` of std, carried through as an opaque value: the time
/// the last key fired.
#[verifier::external_type_specification]
#[verifier::external_body]
pub struct ExInstant(std::time::Instant);

/// `Instant::now`: the current instant. Nothing is stated of it.
#[verifier::external_body]
fn instant_now() -> std::time::Instant {
    std::time::Instant::now()
}

/// `Instant::elapsed`: the time passed since `t`. Nothing is stated of it.
#[verifier::external_body]
fn instant_elapsed(t: &std::time::Instant) -> std::time::Duration {
    t.elapsed()
}

/// `Duration::as_millis`: the whole milliseconds of `d`. Nothing is stated of
/// it, since a duration has no model here.
#[verifier::external_body]
fn duration_millis(d: &std::time::Duration) -> u128 {
    d.as_millis()
}

/// A repeated trigger of the same key within this many milliseconds is ignored.
pub const DEBOUNCE_MILLIS: u128 = 400;

/// What a key trigger does.
#[derive(Debug, Clone, Copy, PartialEq, Eq)]
pub enum TriggerDecision {
    /// `FOCUS`: bring the window forward.
    Focus,
    /// A repeat of the last key within the debounce window: nothing.
    Debounced,
    /// Run the key's quick-start actions and remember the key.
    Fire,
}

/// What triggering the upper-case key `key_upper` does, when the last fired
/// key was `last_key` and `elapsed_ms` milliseconds have passed since
/// (`None` when nothing fired yet).
pub open spec fn trigger_decision(
    last_key: Option<Seq<char>>,
    elapsed_ms: Option<u128>,
    key_upper: Seq<char>,
) -> TriggerDecision {
    if key_upper == "FOCUS"@ {
        TriggerDecision::Focus
    } else if last_key == Some(key_upper) && match elapsed_ms {
        Some(e) => e < DEBOUNCE_MILLIS,
        None => false,
    } {
        TriggerDecision::Debounced
    } else {
        TriggerDecision::Fire
    }
}

/// What triggering `key_upper` does.
pub fn decide_trigger(last_key: Option<&str>, elapsed_ms: Option<u128>, key_upper: &str) -> (r: TriggerDecision)
    ensures
        r == trigger_decision(
            match last_key {
                Some(k) => Some(k@),
                None => None,
            },
            elapsed_ms,
            key_upper@,
        ),
{
    if str_equal(key_upper, "FOCUS") {
        return TriggerDecision::Focus;
    }
    match (last_key, elapsed_ms) {
        (Some(k), Some(e)) => {
            if str_equal(k, key_upper) && e < DEBOUNCE_MILLIS {
                TriggerDecision::Debounced
            } else {
                TriggerDecision::Fire
            }
        },
        _ => TriggerDecision::Fire,
    }
}

/// `FOCUS` is never debounced, a key different from the last is never
/// debounced, and the last key again is debounced exactly within the window.
pub proof fn lemma_debounce(last: Seq<char>, e: u128, key: Seq<char>)
    ensures
        key == "FOCUS"@ ==> trigger_decision(Some(last), Some(e), key) == TriggerDecision::Focus,
        key != "FOCUS"@ && key != last ==> trigger_decision(Some(last), Some(e), key)
            == TriggerDecision::Fire,
        key != "FOCUS"@ && key == last ==> (trigger_decision(Some(last), Some(e), key)
            == TriggerDecision::Debounced <==> e < DEBOUNCE_MILLIS),
        key != "FOCUS"@ ==> trigger_decision(None, None, key) == TriggerDecision::Fire,
{
}

/// One thing a quick-start key does.
#[derive(Debug, Clone, PartialEq, Eq)]
pub enum LaunchAction {
    OpenUrl(String),
    LaunchApp(String),
}

pub enum LaunchActionView {
    OpenUrl(Seq<char>),
    LaunchApp(Seq<char>),
}

impl View for LaunchAction {
    type V = LaunchActionView;

    open spec fn view(&self) -> LaunchActionView {
        match self {
            LaunchAction::OpenUrl(u) => LaunchActionView::OpenUrl(u@),
            LaunchAction::LaunchApp(c) => LaunchActionView::LaunchApp(c@),
        }
    }
}

/// The action of one quick-start option: a `Url` option opens its path as a
/// URL, any other launches its path as a command.
pub open spec fn action_of(o: QuickStartOptionView) -> LaunchActionView {
    if o.opt_type == "Url"@ {
        LaunchActionView::OpenUrl(o.opt_data.path)
    } else {
        LaunchActionView::LaunchApp(o.opt_data.path)
    }
}

pub open spec fn actions_view(v: Seq<LaunchAction>) -> Seq<LaunchActionView> {
    v.map_values(|a: LaunchAction| a@)
}

/// The actions of a key's quick-start options, in order.
pub fn launch_actions(options: &Vec<QuickStartOption>) -> (r: Vec<LaunchAction>)
    ensures
        actions_view(r@) == options_view(options@).map_values(|o: QuickStartOptionView| action_of(o)),
{
    let mut r: Vec<LaunchAction> = Vec::new();
    let mut i: usize = 0;
    while i < options.len()
        invariant
            i <= options@.len(),
            r@.len() == i,
            forall|k: int| 0 <= k < i ==> #[trigger] r@[k]@ == action_of(options@[k]@),
        decreases options@.len() - i,
    {
        let o = &options[i];
        let path = o.opt_data.path.clone();
        if str_equal(o.opt_type.as_str(), "Url") {
            r.push(LaunchAction::OpenUrl(path));
        } else {
            r.push(LaunchAction::LaunchApp(path));
        }
        i = i + 1;
    }
    assert(actions_view(r@) =~= options_view(options@).map_values(|o: QuickStartOptionView| action_of(o)));
    r
}

/// The actions that the binds give the upper-case key `key_upper`: those of
/// its options in order, or none when the key is not bound.
pub open spec fn bound_actions_of(binds: Map<Seq<char>, Seq<QuickStartOptionView>>, key_upper: Seq<char>) -> Seq<
    LaunchActionView,
> {
    if binds.contains_key(key_upper) {
        binds[key_upper].map_values(|o: QuickStartOptionView| action_of(o))
    } else {
        Seq::empty()
    }
}

/// The actions that firing `key_upper` runs under `binds`.
pub fn bound_actions(binds: &QuickStartBinds, key_upper: &str) -> (r: Vec<LaunchAction>)
    ensures
        actions_view(r@) == bound_actions_of(binds.as_map(), key_upper@),
{
    match binds.get(key_upper) {
        Some(options) => launch_actions(options),
        None => {
            let r: Vec<LaunchAction> = Vec::new();
            assert(actions_view(r@) =~= Seq::<LaunchActionView>::empty());
            r
        },
    }
}

/// The services to call after a configuration update.
#[derive(Debug)]
pub struct UpdateEffects {
    /// Set autostart to this, when the update names `autostart`.
    pub set_autostart: Option<bool>,
    /// Synchronise the desktop shortcuts to these keys and broadcast the
    /// binds, when the update names `quickStartBinds`.
    pub sync_keys: Option<Vec<String>>,
    /// The autostart state the tray menu shows.
    pub tray_autostart: bool,
}

/// The effects of an update whose result is `updated`.
pub fn update_effects(update: &ConfigUpdate, updated: &AppConfig) -> (r: UpdateEffects)
    ensures
        r.set_autostart == if update.mentions_autostart { Some(updated.autostart) } else { None },
        r.sync_keys is Some <==> update.mentions_quick_start_binds,
        r.sync_keys matches Some(k) ==> strs(k@) == updated.quick_start_binds.keys_seq(),
        r.tray_autostart == updated.autostart,
{
    UpdateEffects {
        set_autostart: if update.mentions_autostart {
            Some(updated.autostart)
        } else {
            None
        },
        sync_keys: if update.mentions_quick_start_binds {
            let k = updated.quick_start_binds.keys();
            assert(strs(k@) =~= k@.map_values(|s: String| s@));
            Some(k)
        } else {
            None
        },
        tray_autostart: updated.autostart,
    }
}

/// An update that sets the quick-start binds and nothing else.
pub open spec fn binds_update(binds: BindEntries) -> ConfigUpdateView {
    ConfigUpdateView {
        fields: Some(
            ConfigFieldsView {
                theme: None,
                language: None,
                autostart: None,
                ws_port: None,
                bindings: None,
                quick_start_binds: Some(binds),
            },
        ),
        mentions_autostart: false,
        mentions_quick_start_binds: true,
    }
}

/// An update that sets the quick-start binds and nothing else.
pub fn binds_update_of(binds: QuickStartBinds) -> (r: ConfigUpdate)
    ensures
        r@ == binds_update(binds@),
{
    ConfigUpdate {
        fields: Some(
            ConfigFields {
                theme: None,
                language: None,
                autostart: None,
                ws_port: None,
                bindings: None,
                quick_start_binds: Some(binds),
            },
        ),
        mentions_autostart: false,
        mentions_quick_start_binds: true,
    }
}

/// The binds without `key`, or without any key for `None`.
pub open spec fn binds_after_clear(binds: BindEntries, key: Option<Seq<char>>) -> BindEntries {
    match key {
        Some(k) => assoc_remove(binds, k),
        None => Seq::empty(),
    }
}

/// The keyboards found by a HID scan.
#[derive(Debug, Clone)]
pub struct HidScan {
    pub connected: bool,
    pub keyboards: Vec<KeychronDevice>,
}

/// The target of a relay from a second instance: the key after the first
/// `--trigger` argument, nothing when that argument is the last, and
/// `FOCUS` when there is no `--trigger` argument.
pub open spec fn relay_target(args: Seq<Seq<char>>) -> Option<Seq<char>> {
    match first_index(args, "--trigger"@) {
        Some(i) => if i + 1 < args.len() {
            Some(args[i + 1])
        } else {
            None
        },
        None => Some("FOCUS"@),
    }
}

/// The position of the first `a` in `args`.
pub open spec fn first_index(args: Seq<Seq<char>>, a: Seq<char>) -> Option<int> {
    if exists|i: int| 0 <= i < args.len() && args[i] == a && forall|k: int| 0 <= k < i ==> args[k] != a {
        Some(choose|i: int| 0 <= i < args.len() && args[i] == a && forall|k: int| 0 <= k < i ==> args[k] != a)
    } else {
        None
    }
}

/// The position of the first argument equal to `a`.
pub fn position_of(args: &[String], a: &str) -> (r: Option<usize>)
    ensures
        match r {
            Some(i) => first_index(strs(args@), a@) == Some(i as int) && i < args@.len(),
            None => first_index(strs(args@), a@) is None,
        },
{
    let ghost sv = strs(args@);
    let mut i: usize = 0;
    while i < args.len()
        invariant
            i <= args@.len(),
            sv == strs(args@),
            forall|k: int| 0 <= k < i ==> sv[k] != a@,
        decreases args@.len() - i,
    {
        assert(sv[i as int] == args@[i as int]@);
        if str_equal(args[i].as_str(), a) {
            assert(0 <= i < sv.len() && sv[i as int] == a@ && forall|k: int| 0 <= k < i ==> sv[k] != a@);
            let ghost c = choose|j: int| 0 <= j < sv.len() && sv[j] == a@ && forall|k: int| 0 <= k < j ==> sv[k] != a@;
            assert(c == i) by {
                if c < i {
                } else if c > i {
                    assert(sv[i as int] == a@);
                }
            }
            return Some(i);
        }
        i = i + 1;
    }
    None
}

/// The key that a second instance started with `args` relays.
pub fn relay_target_of(args: &[String]) -> (r: Option<String>)
    ensures
        match r {
            Some(k) => relay_target(strs(args@)) == Some(k@),
            None => relay_target(strs(args@)) is None,
        },
{
    match position_of(args, "--trigger") {
        Some(i) => {
            let n = args.len();
            if n - i > 1 {
                assert(strs(args@)[i + 1] == args@[i + 1]@);
                Some(args[i + 1].clone())
            } else {
                None
            }
        },
        None => Some(copy_str("FOCUS")),
    }
}

/// The keyboards that a scan found: `connected` when there is one.
pub fn hid_scan_of(keyboards: Vec<KeychronDevice>) -> (r: HidScan)
    ensures
        r.keyboards@ == keyboards@,
        r.connected == (keyboards@.len() > 0),
{
    let connected = keyboards.len() > 0;
    HidScan { connected, keyboards }
}

pub struct FlickCoreView {
    pub current_view: Seq<char>,
    /// The key fired last and the instant it fired.
    pub last_fired: Option<(Seq<char>, std::time::Instant)>,
    /// The service calls made so far, in order.
    pub log: Seq<CoreEvent>,
}

/// `new` is `old` with `events` made after its calls, and nothing else changed.
pub open spec fn logged(old: FlickCoreView, new: FlickCoreView, events: Seq<CoreEvent>) -> bool {
    new == FlickCoreView { log: old.log + events, ..old }
}

/// The calls of an update that starts from the stored configuration `c`:
/// load, save the updated configuration, set autostart when the update
/// names it, synchronise the shortcuts and broadcast the binds when it names
/// the binds, and refresh the tray menu.
pub open spec fn update_events(c: AppConfigView, u: ConfigUpdateView) -> Seq<CoreEvent> {
    let r = updated_config(c, u);
    seq![CoreEvent::Load(c), CoreEvent::Save(r)] + (if u.mentions_autostart {
        seq![CoreEvent::SetAutostart(r.autostart)]
    } else {
        Seq::empty()
    }) + (if u.mentions_quick_start_binds {
        seq![
            CoreEvent::SyncShortcuts(keys_of(r.quick_start_binds)),
            CoreEvent::BroadcastBinds(r.quick_start_binds),
        ]
    } else {
        Seq::empty()
    }) + seq![CoreEvent::UpdateTray(r.autostart)]
}

/// The configuration that the call at position `i` of the log loaded.
pub open spec fn loaded_at(v: FlickCoreView, i: int) -> AppConfigView {
    v.log[i]->Load_0
}

/// An update `u` ran from `old` to `new` with result `r`: it started from
/// the configuration the store gave, returned that configuration updated,
/// and made the update's calls.
pub open spec fn update_run(old: FlickCoreView, new: FlickCoreView, u: ConfigUpdateView, r: AppConfigView) -> bool {
    let c = loaded_at(new, old.log.len() as int);
    r == updated_config(c, u) && logged(old, new, update_events(c, u))
}

/// `old` with one load of `c` made.
pub open spec fn after_load(old: FlickCoreView, c: AppConfigView) -> FlickCoreView {
    FlickCoreView { log: old.log + seq![CoreEvent::Load(c)], ..old }
}

/// The launches of these actions, in order.
pub open spec fn launch_events(acts: Seq<LaunchActionView>) -> Seq<CoreEvent> {
    acts.map_values(
        |a: LaunchActionView|
            match a {
                LaunchActionView::OpenUrl(u) => CoreEvent::LaunchUrl(u),
                LaunchActionView::LaunchApp(c) => CoreEvent::LaunchApp(c),
            },
    )
}

/// A trigger of the upper-case key `u` ran from `old` to `new`. `FOCUS`
/// shows the window and nothing else. Otherwise, when a key fired before,
/// the clock is read first; the last key again within the debounce window
/// does nothing more; any other trigger records `u` (with the instant it
/// fired), loads the configuration and launches the actions bound to `u`.
pub open spec fn key_trigger_run(old: FlickCoreView, new: FlickCoreView, u: Seq<char>) -> bool {
    if u == "FOCUS"@ {
        logged(old, new, seq![CoreEvent::ShowAndFocus])
    } else {
        let n = old.log.len() as int;
        let reading: Option<u128> = match old.last_fired {
            Some(_) => Some(new.log[n]->ClockElapsed_0),
            None => None,
        };
        let clock: Seq<CoreEvent> = match reading {
            Some(e) => seq![CoreEvent::ClockElapsed(e)],
            None => Seq::empty(),
        };
        let last_key = match old.last_fired {
            Some(p) => Some(p.0),
            None => None,
        };
        match trigger_decision(last_key, reading, u) {
            TriggerDecision::Debounced => logged(old, new, clock),
            TriggerDecision::Fire => {
                let c = loaded_at(new, n + clock.len());
                &&& new.current_view == old.current_view
                &&& new.last_fired matches Some(p) && p.0 == u
                &&& new.log == old.log + clock + seq![CoreEvent::Load(c)] + launch_events(
                    bound_actions_of(entries_map(c.quick_start_binds), u),
                )
            },
            TriggerDecision::Focus => false,
        }
    }
}

/// Only a fire moves the debounce window: `FOCUS` and a debounced trigger
/// leave the last fired key and its instant as they were (so a repeat within
/// the window does not extend it), and a fire records the triggered key.
pub proof fn lemma_only_fires_move_the_window(old: FlickCoreView, new: FlickCoreView, u: Seq<char>)
    requires
        key_trigger_run(old, new, u),
    ensures
        new.current_view == old.current_view,
        new.last_fired != old.last_fired ==> u != "FOCUS"@ && (new.last_fired matches Some(p) && p.0 == u),
{
}

/// The application core: the services it drives, the key fired last (for
/// debouncing), the view the window shows, and a record of the calls it
/// made on its services.
pub struct FlickCore<C, G, L, A, T, W, H, V> {
    config_repo: C,
    gnome_shortcuts: G,
    app_launcher: L,
    autostart_manager: A,
    trigger_ipc: T,
    ws_server: W,
    hid_service: H,
    window_service: V,
    last_fired: Option<(String, std::time::Instant)>,
    current_view: String,
    log: Ghost<Seq<CoreEvent>>,
}

impl<C, G, L, A, T, W, H, V> View for FlickCore<C, G, L, A, T, W, H, V> {
    type V = FlickCoreView;

    closed spec fn view(&self) -> FlickCoreView {
        FlickCoreView {
            current_view: self.current_view@,
            last_fired: match self.last_fired {
                Some(p) => Some((p.0@, p.1)),
                None => None,
            },
            log: self.log@,
        }
    }
}

impl<C, G, L, A, T, W, H, V> FlickCore<C, G, L, A, T, W, H, V> where
    C: ConfigRepository,
    G: GnomeShortcutsService,
    L: AppLauncher,
    A: AutostartManager,
    T: TriggerIpcService,
    W: WsServer,
    H: HidService,
    V: WindowService,
 {
    /// A core over these services, showing the launcher, with nothing fired
    /// and no call made yet.
    pub fn new(
        config_repo: C,
        gnome_shortcuts: G,
        app_launcher: L,
        autostart_manager: A,
        trigger_ipc: T,
        ws_server: W,
        hid_service: H,
        window_service: V,
    ) -> (r: Self)
        ensures
            r@.current_view == "launcher"@,
            r@.last_fired is None,
            r@.log == Seq::<CoreEvent>::empty(),
    {
        FlickCore {
            config_repo,
            gnome_shortcuts,
            app_launcher,
            autostart_manager,
            trigger_ipc,
            ws_server,
            hid_service,
            window_service,
            last_fired: None,
            current_view: copy_str("launcher"),
            log: Ghost(Seq::empty()),
        }
    }

    /// Records the call that a service handed back a receipt for.
    fn record_call(&mut self, receipt: CallReceipt)
        ensures
            logged(old(self)@, final(self)@, seq![receipt@]),
    {
        self.log = Ghost(self.log@ + seq![receipt@]);
    }

    /// Records a reading of the clock.
    fn record_clock(&mut self, elapsed_ms: u128)
        ensures
            logged(old(self)@, final(self)@, seq![CoreEvent::ClockElapsed(elapsed_ms)]),
    {
        self.log = Ghost(self.log@ + seq![CoreEvent::ClockElapsed(elapsed_ms)]);
    }

    fn call_load(&mut self) -> (r: AppConfig)
        ensures
            logged(old(self)@, final(self)@, seq![CoreEvent::Load(r@)]),
    {
        let (r, receipt) = self.config_repo.load();
        self.record_call(receipt);
        r
    }

    fn call_sync(&mut self, keys: &Vec<String>)
        ensures
            logged(old(self)@, final(self)@, seq![CoreEvent::SyncShortcuts(strs(keys@))]),
    {
        let (_result, receipt) = self.gnome_shortcuts.sync_shortcuts(keys.as_slice());
        self.record_call(receipt);
    }

    fn call_launch(&mut self, a: &LaunchAction)
        ensures
            logged(old(self)@, final(self)@, launch_events(seq![a@])),
    {
        match a {
            LaunchAction::OpenUrl(u) => {
                let receipt = self.app_launcher.launch_url(u.as_str());
                self.record_call(receipt);
            },
            LaunchAction::LaunchApp(c) => {
                let receipt = self.app_launcher.launch_app(c.as_str());
                self.record_call(receipt);
            },
        }
        assert(launch_events(seq![a@]) =~= seq![
            match a@ {
                LaunchActionView::OpenUrl(u) => CoreEvent::LaunchUrl(u),
                LaunchActionView::LaunchApp(c) => CoreEvent::LaunchApp(c),
            },
        ]);
    }

    /// A core over the same services (each handle cloned), showing the
    /// launcher, with nothing fired and no call made yet.
    fn sharing_services(&self) -> (r: Self)
        where
            C: Clone,
            G: Clone,
            L: Clone,
            A: Clone,
            T: Clone,
            W: Clone,
            H: Clone,
            V: Clone,

        ensures
            r@.current_view == "launcher"@,
            r@.last_fired is None,
            r@.log == Seq::<CoreEvent>::empty(),
    {
        FlickCore::new(
            self.config_repo.clone(),
            self.gnome_shortcuts.clone(),
            self.app_launcher.clone(),
            self.autostart_manager.clone(),
            self.trigger_ipc.clone(),
            self.ws_server.clone(),
            self.hid_service.clone(),
            self.window_service.clone(),
        )
    }

    /// Starts the services: synchronises the desktop shortcuts to the keys
    /// bound in the stored configuration, starts the trigger server on its
    /// port with `on_trigger`, and starts the launcher bridge on the stored
    /// port with the core's own handlers, each run by a core over the same
    /// services: the binds are `get_config`'s, adding a bind is `add_bind`,
    /// clearing one or all is `clear_bind`, and the applications are
    /// `list_apps`'.
    pub fn init_app<F>(&mut self, on_trigger: F)
        where
            F: Fn(String) + Send + Sync + 'static,
            C: Clone + 'static,
            G: Clone + 'static,
            L: Clone + 'static,
            A: Clone + 'static,
            T: Clone + 'static,
            W: Clone + 'static,
            H: Clone + 'static,
            V: Clone + 'static,

        ensures
            ({
                let c = loaded_at(final(self)@, old(self)@.log.len() as int);
                logged(
                    old(self)@,
                    final(self)@,
                    seq![
                        CoreEvent::Load(c),
                        CoreEvent::SyncShortcuts(keys_of(c.quick_start_binds)),
                        CoreEvent::StartTriggerServer(FLICK_TRIGGER_PORT),
                        CoreEvent::StartBridge(c.ws_port),
                    ],
                )
            }),
    {
        let ghost v0 = self@;
        let config = self.call_load();
        let ghost c = config@;
        let keys = config.quick_start_binds.keys();
        assert(strs(keys@) =~= keys@.map_values(|s: String| s@));
        self.call_sync(&keys);
        let receipt = self.trigger_ipc.start_server(FLICK_TRIGGER_PORT, on_trigger);
        self.record_call(receipt);
        let for_binds = self.sharing_services();
        let for_add = self.sharing_services();
        let for_clear = self.sharing_services();
        let for_apps = self.sharing_services();
        let on_get_binds = move || -> QuickStartBinds
            {
                let mut core = for_binds.sharing_services();
                core.get_config().quick_start_binds
            };
        let on_add_bind = move |key: String, bind: QuickStartOption|
            {
                let mut core = for_add.sharing_services();
                let _ = core.add_bind(key, bind);
            };
        let on_clear_bind = move |key: Option<String>|
            {
                let mut core = for_clear.sharing_services();
                let _ = core.clear_bind(key);
            };
        let on_get_apps = move || -> Vec<AppInfo>
            {
                let mut core = for_apps.sharing_services();
                core.list_apps()
            };
        let receipt = self.ws_server.start(config.ws_port, on_get_binds, on_add_bind, on_clear_bind, on_get_apps);
        self.record_call(receipt);
        assert(self@.log =~= v0.log + seq![
            CoreEvent::Load(c),
            CoreEvent::SyncShortcuts(keys_of(c.quick_start_binds)),
            CoreEvent::StartTriggerServer(FLICK_TRIGGER_PORT),
            CoreEvent::StartBridge(c.ws_port),
        ]);
    }

    /// The stored configuration, as the store gives it.
    pub fn get_config(&mut self) -> (r: AppConfig)
        ensures
            logged(old(self)@, final(self)@, seq![CoreEvent::Load(r@)]),
    {
        self.call_load()
    }

    /// Applies `update` to the stored configuration and stores the result;
    /// sets autostart when the update names it; synchronises the shortcuts
    /// and broadcasts the binds when it names the binds; refreshes the tray
    /// menu. Returns the stored configuration.
    pub fn update_config(&mut self, update: &ConfigUpdate) -> (r: AppConfig)
        ensures
            update_run(old(self)@, final(self)@, update@, r@),
            r.ws_port != LEGACY_WS_PORT,
    {
        let ghost v0 = self@;
        let current = self.call_load();
        let ghost c = current@;
        let updated = config_after_update(&current, update);
        let (_saved, receipt) = self.config_repo.save(&updated);
        self.record_call(receipt);
        let effects = update_effects(update, &updated);
        let ghost after_save = self@.log;
        match effects.set_autostart {
            Some(a) => {
                let receipt = self.autostart_manager.set_enabled(a);
                self.record_call(receipt);
            },
            None => {},
        }
        let ghost after_auto = self@.log;
        match &effects.sync_keys {
            Some(keys) => {
                self.call_sync(keys);
                let receipt = self.ws_server.broadcast_binds(&updated.quick_start_binds);
                self.record_call(receipt);
            },
            None => {},
        }
        let ghost after_binds = self@.log;
        let receipt = self.window_service.update_tray_menu(effects.tray_autostart);
        self.record_call(receipt);
        proof {
            let u = update@;
            let r = updated_config(c, u);
            assert(updated@ == r);
            let auto_ev: Seq<CoreEvent> = if u.mentions_autostart {
                seq![CoreEvent::SetAutostart(r.autostart)]
            } else {
                Seq::empty()
            };
            let bind_ev: Seq<CoreEvent> = if u.mentions_quick_start_binds {
                seq![
                    CoreEvent::SyncShortcuts(keys_of(r.quick_start_binds)),
                    CoreEvent::BroadcastBinds(r.quick_start_binds),
                ]
            } else {
                Seq::empty()
            };
            assert(after_save =~= v0.log + seq![CoreEvent::Load(c), CoreEvent::Save(r)]);
            assert(after_auto =~= after_save + auto_ev);
            assert(after_binds =~= after_auto + bind_ev);
            assert(self@.log =~= v0.log + update_events(c, u));
            assert(loaded_at(self@, v0.log.len() as int) == c);
        }
        updated
    }

    /// Binds `key` to the single option `bind` (replacing what it was bound
    /// to): reads the stored binds, then applies an update that sets them
    /// with `key` bound. Returns the stored configuration.
    pub fn add_bind(&mut self, key: String, bind: QuickStartOption) -> (r: AppConfig)
        ensures
            ({
                let read = loaded_at(final(self)@, old(self)@.log.len() as int);
                update_run(
                    after_load(old(self)@, read),
                    final(self)@,
                    binds_update(assoc_insert(read.quick_start_binds, key@, seq![bind@])),
                    r@,
                )
            }),
            r.quick_start_binds.as_map().contains_key(key@),
            r.quick_start_binds.as_map()[key@] == seq![bind@],
    {
        let ghost kv = key@;
        let ghost bv = bind@;
        let ghost v0 = self@;
        let read = self.call_load();
        let ghost read_view = read@;
        let ghost v1 = self@;
        let mut binds = read.quick_start_binds;
        let opts = vec![bind];
        assert(options_view(opts@) =~= seq![bv]);
        binds.insert(key, opts);
        let update = binds_update_of(binds);
        let r = self.update_config(&update);
        proof {
            assert(v1 == after_load(v0, read_view));
            assert(loaded_at(self@, v0.log.len() as int) == read_view) by {
                assert(self@.log[v0.log.len() as int] == v1.log[v0.log.len() as int]);
            }
            assert(r.quick_start_binds.as_map() == binds.as_map());
        }
        r
    }

    /// Unbinds `key`, or every key for `None`: reads the stored binds, then
    /// applies an update that sets them without it. Returns the stored
    /// configuration.
    pub fn clear_bind(&mut self, key: Option<String>) -> (r: AppConfig)
        ensures
            ({
                let read = loaded_at(final(self)@, old(self)@.log.len() as int);
                update_run(
                    after_load(old(self)@, read),
                    final(self)@,
                    binds_update(binds_after_clear(read.quick_start_binds, opt_str_view(key))),
                    r@,
                )
            }),
            key matches Some(k) ==> !r.quick_start_binds.as_map().contains_key(k@),
            key is None ==> r.quick_start_binds.as_map().is_empty(),
    {
        let ghost v0 = self@;
        let read = self.call_load();
        let ghost read_view = read@;
        let ghost v1 = self@;
        let mut binds = read.quick_start_binds;
        match &key {
            Some(k) => binds.remove(k.as_str()),
            None => binds.clear(),
        }
        let update = binds_update_of(binds);
        let r = self.update_config(&update);
        proof {
            assert(v1 == after_load(v0, read_view));
            assert(loaded_at(self@, v0.log.len() as int) == read_view) by {
                assert(self@.log[v0.log.len() as int] == v1.log[v0.log.len() as int]);
            }
            assert(r.quick_start_binds.as_map() == binds.as_map());
        }
        r
    }

    /// Handles a trigger of `key`, in any case: `FOCUS` brings the window
    /// forward; a repeat of the last key within the debounce window does
    /// nothing; otherwise the key is remembered with the instant it fired and
    /// each quick-start option bound to its upper-case name is launched.
    pub fn handle_key_trigger(&mut self, key: &str)
        ensures
            key_trigger_run(old(self)@, final(self)@, unicode_uppercase(key@)),
    {
        let ghost v0 = self@;
        let key_upper = to_uppercase(key);
        let ghost u = key_upper@;
        if str_equal(key_upper.as_str(), "FOCUS") {
            let receipt = self.window_service.show_and_focus();
            self.record_call(receipt);
            return;
        }
        let (last_key, elapsed): (Option<String>, Option<u128>) = match &self.last_fired {
            Some(p) => (Some(p.0.clone()), Some(duration_millis(&instant_elapsed(&p.1)))),
            None => (None, None),
        };
        match elapsed {
            Some(e) => self.record_clock(e),
            None => {},
        }
        let ghost clock: Seq<CoreEvent> = match elapsed {
            Some(e) => seq![CoreEvent::ClockElapsed(e)],
            None => Seq::empty(),
        };
        let ghost v1 = self@;
        proof {
            assert(v1.log =~= v0.log + clock);
            if elapsed is Some {
                assert(v1.log[v0.log.len() as int] == clock[0]);
            }
        }
        let decision = match &last_key {
            Some(k) => decide_trigger(Some(k.as_str()), elapsed, key_upper.as_str()),
            None => decide_trigger(None, elapsed, key_upper.as_str()),
        };
        match decision {
            TriggerDecision::Fire => {
                let now = instant_now();
                self.last_fired = Some((key_upper.clone(), now));
                let ghost v2 = self@;
                let config = self.call_load();
                let ghost c = config@;
                let actions = bound_actions(&config.quick_start_binds, key_upper.as_str());
                let ghost base = self@.log;
                let ghost av = actions_view(actions@);
                let mut i: usize = 0;
                assert(launch_events(av.take(0)) =~= Seq::<CoreEvent>::empty());
                while i < actions.len()
                    invariant
                        i <= actions@.len(),
                        av == actions_view(actions@),
                        self@.log == base + launch_events(av.take(i as int)),
                        self@.current_view == v2.current_view,
                        self@.last_fired == v2.last_fired,
                    decreases actions@.len() - i,
                {
                    let ghost before = self@.log;
                    self.call_launch(&actions[i]);
                    proof {
                        assert(av.take(i + 1) =~= av.take(i as int).push(actions@[i as int]@));
                        assert(launch_events(av.take(i + 1)) =~= launch_events(av.take(i as int))
                            + launch_events(seq![actions@[i as int]@]));
                    }
                    i = i + 1;
                }
                proof {
                    assert(av.take(av.len() as int) =~= av);
                    assert(self@.log =~= v0.log + clock + seq![CoreEvent::Load(c)] + launch_events(av));
                    assert(loaded_at(self@, (v0.log.len() + clock.len()) as int) == c);
                }
            },
            _ => {},
        }
    }

    /// The connected Keychron keyboards, as the HID service lists them.
    pub fn scan_hid(&mut self) -> (r: HidScan)
        ensures
            logged(old(self)@, final(self)@, seq![CoreEvent::ListDevices(devices_view(r.keyboards@))]),
            r.connected == (r.keyboards@.len() > 0),
    {
        let (keyboards, receipt) = self.hid_service.list_devices();
        self.record_call(receipt);
        hid_scan_of(keyboards)
    }

    /// The installed applications, as the launcher service lists them.
    pub fn list_apps(&mut self) -> (r: Vec<AppInfo>)
        ensures
            logged(old(self)@, final(self)@, seq![CoreEvent::ListApps(apps_view(r@))]),
    {
        let (r, receipt) = self.app_launcher.list_apps();
        self.record_call(receipt);
        r
    }

    /// Opens `url`.
    pub fn open_external(&mut self, url: &str)
        ensures
            logged(old(self)@, final(self)@, seq![CoreEvent::LaunchUrl(url@)]),
    {
        let receipt = self.app_launcher.launch_url(url);
        self.record_call(receipt);
    }

    /// Launches the command `exec_cmd`.
    pub fn launch_app(&mut self, exec_cmd: &str)
        ensures
            logged(old(self)@, final(self)@, seq![CoreEvent::LaunchApp(exec_cmd@)]),
    {
        let receipt = self.app_launcher.launch_app(exec_cmd);
        self.record_call(receipt);
    }

    /// Resizes the window for the view `mode`, which becomes the current view.
    pub fn resize_window(&mut self, width: u32, height: u32, mode: &str)
        ensures
            final(self)@ == (FlickCoreView {
                current_view: mode@,
                log: old(self)@.log + seq![CoreEvent::Resize(width, height, mode@)],
                ..old(self)@
            }),
    {
        self.current_view = copy_str(mode);
        let receipt = self.window_service.resize(width, height, mode);
        self.record_call(receipt);
    }

    /// Hides the window.
    pub fn hide_window(&mut self)
        ensures
            logged(old(self)@, final(self)@, seq![CoreEvent::HideWindow]),
    {
        let receipt = self.window_service.hide_window();
        self.record_call(receipt);
    }

    /// Minimises the window.
    pub fn minimize_window(&mut self)
        ensures
            logged(old(self)@, final(self)@, seq![CoreEvent::Minimize]),
    {
        let receipt = self.window_service.minimize();
        self.record_call(receipt);
    }

    /// The view the window shows.
    pub fn get_current_view(&self) -> (r: String)
        ensures
            r@ == self@.current_view,
    {
        self.current_view.clone()
    }

    /// Records that the window shows `view`.
    pub fn set_current_view(&mut self, view: &str)
        ensures
            final(self)@ == (FlickCoreView { current_view: view@, ..old(self)@ }),
    {
        self.current_view = copy_str(view);
    }

    /// Handles this program being started again with `args`: relays the key
    /// after `--trigger` (or `FOCUS` when there is no `--trigger`) to the
    /// running instance's trigger server, and returns whether the relay was
    /// acknowledged; relays nothing and returns false when `--trigger` has
    /// no key.
    pub fn handle_second_instance(&mut self, args: &[String]) -> (r: bool)
        ensures
            match relay_target(strs(args@)) {
                Some(k) => logged(old(self)@, final(self)@, seq![CoreEvent::Relay(k, FLICK_TRIGGER_PORT, r)]),
                None => final(self)@ == old(self)@ && !r,
            },
    {
        match relay_target_of(args) {
            Some(key) => {
                let (r, receipt) = self.trigger_ipc.relay_trigger(key.as_str(), FLICK_TRIGGER_PORT);
                self.record_call(receipt);
                r
            },
            None => false,
        }
    }
}

} // verus!

use std::sync::{Arc, Mutex};
use std::time::Duration;

use flick::apps::AppInfo;
use flick::config::{AppConfig, ConfigFields, ConfigUpdate, QuickStartBinds, QuickStartOption, QuickStartOptionData};
use flick::domain::{bound_actions, decide_trigger, hid_scan_of, launch_actions, relay_target_of, FlickCore, LaunchAction, TriggerDecision};
use flick::hid::KeychronDevice;
use flick::ports::{
    AppLauncher, AutostartManager, CallReceipt, ConfigRepository, GnomeShortcutsService, HidService,
    TriggerIpcService, WindowService, WsServer,
};
use flick::trigger_ipc::FLICK_TRIGGER_PORT;

/// A shared handle on a mock, so that the test can look at what the core did.
struct Handle<T>(Arc<T>);

impl<T> Clone for Handle<T> {
    fn clone(&self) -> Self {
        Handle(self.0.clone())
    }
}

struct MockConfigRepository {
    config: Mutex<AppConfig>,
}
impl ConfigRepository for Handle<MockConfigRepository> {
    fn load(&self) -> (AppConfig, CallReceipt) {
        let config = self.0.config.lock().unwrap().clone();
        let receipt = CallReceipt::loaded(&config);
        (config, receipt)
    }
    fn save(&self, config: &AppConfig) -> (Result<(), std::io::Error>, CallReceipt) {
        *self.0.config.lock().unwrap() = config.clone();
        (Ok(()), CallReceipt::saved(config))
    }
}

struct MockGnomeShortcutsService {
    synced_keys: Mutex<Vec<String>>,
}
impl GnomeShortcutsService for Handle<MockGnomeShortcutsService> {
    fn is_gnome(&self) -> bool {
        true
    }
    fn sync_shortcuts(&self, keys: &[String]) -> (Result<(), std::io::Error>, CallReceipt) {
        *self.0.synced_keys.lock().unwrap() = keys.to_vec();
        (Ok(()), CallReceipt::shortcuts_synced(keys))
    }
    fn clear_shortcuts(&self) -> Result<(), std::io::Error> {
        self.0.synced_keys.lock().unwrap().clear();
        Ok(())
    }
}

struct MockAppLauncher {
    launched_apps: Mutex<Vec<String>>,
    launched_urls: Mutex<Vec<String>>,
    mock_apps: Vec<AppInfo>,
}
impl AppLauncher for Handle<MockAppLauncher> {
    fn launch_app(&self, exec_cmd: &str) -> CallReceipt {
        self.0.launched_apps.lock().unwrap().push(exec_cmd.to_string());
        CallReceipt::app_launched(exec_cmd)
    }
    fn launch_url(&self, url: &str) -> CallReceipt {
        self.0.launched_urls.lock().unwrap().push(url.to_string());
        CallReceipt::url_opened(url)
    }
    fn list_apps(&self) -> (Vec<AppInfo>, CallReceipt) {
        let apps = self.0.mock_apps.clone();
        let receipt = CallReceipt::apps_listed(&apps);
        (apps, receipt)
    }
}

struct MockAutostartManager {
    enabled: Mutex<bool>,
}
impl AutostartManager for Handle<MockAutostartManager> {
    fn set_enabled(&self, enabled: bool) -> CallReceipt {
        *self.0.enabled.lock().unwrap() = enabled;
        CallReceipt::autostart_set(enabled)
    }
    fn is_enabled(&self) -> bool {
        *self.0.enabled.lock().unwrap()
    }
}

type TriggerCallback = Box<dyn Fn(String) + Send + Sync + 'static>;

struct MockTriggerIpcService {
    trigger_callback: Mutex<Option<TriggerCallback>>,
    relays: Mutex<Vec<(String, u16)>>,
    relay_result: bool,
}
impl TriggerIpcService for Handle<MockTriggerIpcService> {
    fn start_server<F: Fn(String) + Send + Sync + 'static>(&self, port: u16, on_trigger: F) -> CallReceipt {
        *self.0.trigger_callback.lock().unwrap() = Some(Box::new(on_trigger));
        CallReceipt::trigger_server_started(port)
    }
    fn relay_trigger(&self, key: &str, port: u16) -> (bool, CallReceipt) {
        self.0.relays.lock().unwrap().push((key.to_string(), port));
        let ok = self.0.relay_result;
        (ok, CallReceipt::relayed(key, port, ok))
    }
}

type GetBinds = Box<dyn Fn() -> QuickStartBinds + Send + Sync + 'static>;
type AddBind = Box<dyn Fn(String, QuickStartOption) + Send + Sync + 'static>;
type ClearBind = Box<dyn Fn(Option<String>) + Send + Sync + 'static>;
type GetApps = Box<dyn Fn() -> Vec<AppInfo> + Send + Sync + 'static>;

struct MockWsServer {
    get_binds_cb: Mutex<Option<GetBinds>>,
    add_bind_cb: Mutex<Option<AddBind>>,
    clear_bind_cb: Mutex<Option<ClearBind>>,
    get_apps_cb: Mutex<Option<GetApps>>,
    broadcasted_binds: Mutex<Vec<QuickStartBinds>>,
}
impl WsServer for Handle<MockWsServer> {
    fn start<B, A, C, G>(&self, port: u16, on_get_binds: B, on_add_bind: A, on_clear_bind: C, on_get_apps: G) -> CallReceipt
    where
        B: Fn() -> QuickStartBinds + Send + Sync + 'static,
        A: Fn(String, QuickStartOption) + Send + Sync + 'static,
        C: Fn(Option<String>) + Send + Sync + 'static,
        G: Fn() -> Vec<AppInfo> + Send + Sync + 'static,
    {
        *self.0.get_binds_cb.lock().unwrap() = Some(Box::new(on_get_binds));
        *self.0.add_bind_cb.lock().unwrap() = Some(Box::new(on_add_bind));
        *self.0.clear_bind_cb.lock().unwrap() = Some(Box::new(on_clear_bind));
        *self.0.get_apps_cb.lock().unwrap() = Some(Box::new(on_get_apps));
        CallReceipt::bridge_started(port)
    }
    fn broadcast_binds(&self, binds: &QuickStartBinds) -> CallReceipt {
        self.0.broadcasted_binds.lock().unwrap().push(binds.clone());
        CallReceipt::binds_broadcast(binds)
    }
}

struct MockHidService {
    keyboards: Vec<KeychronDevice>,
}
impl HidService for Handle<MockHidService> {
    fn list_devices(&self) -> (Vec<KeychronDevice>, CallReceipt) {
        let keyboards = self.0.keyboards.clone();
        let receipt = CallReceipt::devices_listed(&keyboards);
        (keyboards, receipt)
    }
}

struct MockWindowService {
    shows: Mutex<usize>,
    hides: Mutex<usize>,
    minimizes: Mutex<usize>,
    resizes: Mutex<Vec<(u32, u32, String)>>,
    tray_updates: Mutex<Vec<bool>>,
}
impl WindowService for Handle<MockWindowService> {
    fn show_and_focus(&self) -> CallReceipt {
        *self.0.shows.lock().unwrap() += 1;
        CallReceipt::shown()
    }
    fn hide_window(&self) -> CallReceipt {
        *self.0.hides.lock().unwrap() += 1;
        CallReceipt::hidden()
    }
    fn minimize(&self) -> CallReceipt {
        *self.0.minimizes.lock().unwrap() += 1;
        CallReceipt::minimized()
    }
    fn resize(&self, width: u32, height: u32, mode: &str) -> CallReceipt {
        self.0.resizes.lock().unwrap().push((width, height, mode.to_string()));
        CallReceipt::resized(width, height, mode)
    }
    fn emit_navigate(&self, _view: &str) {}
    fn update_tray_menu(&self, autostart: bool) -> CallReceipt {
        self.0.tray_updates.lock().unwrap().push(autostart);
        CallReceipt::tray_updated(autostart)
    }
}

type Core = FlickCore<
    Handle<MockConfigRepository>,
    Handle<MockGnomeShortcutsService>,
    Handle<MockAppLauncher>,
    Handle<MockAutostartManager>,
    Handle<MockTriggerIpcService>,
    Handle<MockWsServer>,
    Handle<MockHidService>,
    Handle<MockWindowService>,
>;

struct Mocks {
    repo: Handle<MockConfigRepository>,
    gnome: Handle<MockGnomeShortcutsService>,
    launcher: Handle<MockAppLauncher>,
    auto: Handle<MockAutostartManager>,
    trigger: Handle<MockTriggerIpcService>,
    ws: Handle<MockWsServer>,
    win: Handle<MockWindowService>,
}

fn setup_core_with(relay_result: bool, apps: Vec<AppInfo>, keyboards: Vec<KeychronDevice>) -> (Core, Mocks) {
    let repo = Handle(Arc::new(MockConfigRepository { config: Mutex::new(AppConfig::default()) }));
    let gnome = Handle(Arc::new(MockGnomeShortcutsService { synced_keys: Mutex::new(Vec::new()) }));
    let launcher = Handle(Arc::new(MockAppLauncher {
        launched_apps: Mutex::new(Vec::new()),
        launched_urls: Mutex::new(Vec::new()),
        mock_apps: apps,
    }));
    let auto = Handle(Arc::new(MockAutostartManager { enabled: Mutex::new(false) }));
    let trigger = Handle(Arc::new(MockTriggerIpcService {
        trigger_callback: Mutex::new(None),
        relays: Mutex::new(Vec::new()),
        relay_result,
    }));
    let ws = Handle(Arc::new(MockWsServer {
        get_binds_cb: Mutex::new(None),
        add_bind_cb: Mutex::new(None),
        clear_bind_cb: Mutex::new(None),
        get_apps_cb: Mutex::new(None),
        broadcasted_binds: Mutex::new(Vec::new()),
    }));
    let hid = Handle(Arc::new(MockHidService { keyboards }));
    let win = Handle(Arc::new(MockWindowService {
        shows: Mutex::new(0),
        hides: Mutex::new(0),
        minimizes: Mutex::new(0),
        resizes: Mutex::new(Vec::new()),
        tray_updates: Mutex::new(Vec::new()),
    }));
    let core = FlickCore::new(
        repo.clone(),
        gnome.clone(),
        launcher.clone(),
        auto.clone(),
        trigger.clone(),
        ws.clone(),
        hid,
        win.clone(),
    );
    (core, Mocks { repo, gnome, launcher, auto, trigger, ws, win })
}

fn setup_core() -> (Core, Mocks) {
    setup_core_with(
        true,
        vec![AppInfo { id: "a.desktop".to_string(), name: "A".to_string(), exec_cmd: "a".to_string(), icon: "icon".to_string() }],
        vec![KeychronDevice { vp_id: 12345, vendor_id: 0x3434, product_id: 0x01, name: "Keychron".to_string() }],
    )
}

/// Starts the core's services; the trigger handler reaches the core through a lock.
fn init_shared(core: Core) -> Arc<Mutex<Core>> {
    let shared = Arc::new(Mutex::new(core));
    let c1 = shared.clone();
    shared.lock().unwrap().init_app(move |key: String| c1.lock().unwrap().handle_key_trigger(&key));
    shared
}

fn option(opt_type: &str, name: &str, path: &str, icon: &str) -> QuickStartOption {
    QuickStartOption {
        opt_type: opt_type.to_string(),
        opt_data: QuickStartOptionData {
            name: name.to_string(),
            path: path.to_string(),
            icon: icon.to_string(),
            icon_path: "".to_string(),
        },
    }
}

fn update(fields: ConfigFields, mentions_autostart: bool, mentions_quick_start_binds: bool) -> ConfigUpdate {
    ConfigUpdate { fields: Some(fields), mentions_autostart, mentions_quick_start_binds }
}

fn no_fields() -> ConfigFields {
    ConfigFields { theme: None, language: None, autostart: None, ws_port: None, bindings: None, quick_start_binds: None }
}

#[test]
fn test_init_app() {
    let (mut core, m) = setup_core();

    // Put a bind in repo
    {
        let mut conf = m.repo.0.config.lock().unwrap();
        conf.quick_start_binds.insert("F13".to_string(), vec![]);
    }

    let _shared = init_shared(core);

    // 1. GNOME shortcuts should be synced with ["F13"]
    assert_eq!(*m.gnome.0.synced_keys.lock().unwrap(), vec!["F13".to_string()]);

    // 2. Trigger server callback should be set
    assert!(m.trigger.0.trigger_callback.lock().unwrap().is_some());

    // 3. WS server callbacks should be set
    assert!(m.ws.0.get_binds_cb.lock().unwrap().is_some());
    assert!(m.ws.0.add_bind_cb.lock().unwrap().is_some());
    assert!(m.ws.0.clear_bind_cb.lock().unwrap().is_some());
    assert!(m.ws.0.get_apps_cb.lock().unwrap().is_some());
}

#[test]
fn test_ws_callbacks() {
    let (mut core, m) = setup_core();
    let _shared = init_shared(core);

    // Trigger on_get_binds callback
    let get_binds = m.ws.0.get_binds_cb.lock().unwrap().as_ref().unwrap().as_ref()();
    assert!(get_binds.is_empty());

    // Trigger on_add_bind callback
    let bind = option("App", "A", "a", "icon");
    m.ws.0.add_bind_cb.lock().unwrap().as_ref().unwrap().as_ref()("F13".to_string(), bind.clone());
    let after_add = m.repo.load().0;
    assert_eq!(after_add.quick_start_binds.get("F13").unwrap()[0], bind);

    // Trigger on_get_apps
    let apps = m.ws.0.get_apps_cb.lock().unwrap().as_ref().unwrap().as_ref()();
    assert_eq!(apps[0].id, "a.desktop");

    // Trigger on_clear_bind with specific key
    m.ws.0.clear_bind_cb.lock().unwrap().as_ref().unwrap().as_ref()(Some("F13".to_string()));
    let after_clear_key = m.repo.load().0;
    assert!(after_clear_key.quick_start_binds.is_empty());

    // Setup a bind and trigger on_clear_bind with None (all)
    m.ws.0.add_bind_cb.lock().unwrap().as_ref().unwrap().as_ref()("F14".to_string(), bind.clone());
    m.ws.0.clear_bind_cb.lock().unwrap().as_ref().unwrap().as_ref()(None);
    let after_clear_all = m.repo.load().0;
    assert!(after_clear_all.quick_start_binds.is_empty());
}

#[test]
fn domain_test_update_config() {
    let (mut core, m) = setup_core();

    // 1. Simple update of theme
    let updated = core.update_config(&update(ConfigFields { theme: Some("dark".to_string()), ..no_fields() }, false, false));
    assert_eq!(updated.theme, "dark");
    assert_eq!(m.repo.load().0.theme, "dark");
    assert_eq!(m.win.0.tray_updates.lock().unwrap().len(), 1);
    assert!(!*m.auto.0.enabled.lock().unwrap());
    assert!(m.gnome.0.synced_keys.lock().unwrap().is_empty());
    assert!(m.ws.0.broadcasted_binds.lock().unwrap().is_empty());

    // 2. Update autostart
    let updated = core.update_config(&update(ConfigFields { autostart: Some(true), ..no_fields() }, true, false));
    assert_eq!(updated.autostart, true);
    assert_eq!(updated.theme, "dark");
    assert_eq!(*m.auto.0.enabled.lock().unwrap(), true);

    // 3. Update quickStartBinds
    let bind = option("Url", "Web", "https://localhost", "url");
    let mut binds_map = QuickStartBinds::new();
    binds_map.insert("F15".to_string(), vec![bind]);
    let _ = core.update_config(&update(ConfigFields { quick_start_binds: Some(binds_map), ..no_fields() }, false, true));

    assert_eq!(*m.gnome.0.synced_keys.lock().unwrap(), vec!["F15".to_string()]);
    assert_eq!(m.ws.0.broadcasted_binds.lock().unwrap().len(), 1);
    assert_eq!(m.ws.0.broadcasted_binds.lock().unwrap()[0].get("F15").unwrap().len(), 1);
}

/// Lets `d` pass.
fn wait(d: Duration) {
    let start = std::time::Instant::now();
    while start.elapsed() < d {
        std::hint::spin_loop();
    }
}

#[test]
fn test_handle_key_trigger() {
    let (mut core, m) = setup_core();

    // 1. FOCUS key
    core.handle_key_trigger("FOCUS");
    assert_eq!(*m.win.0.shows.lock().unwrap(), 1);
    assert!(m.launcher.0.launched_apps.lock().unwrap().is_empty());
    assert!(m.launcher.0.launched_urls.lock().unwrap().is_empty());

    // 2. Non-existent bind
    core.handle_key_trigger("F13");
    assert_eq!(m.launcher.0.launched_apps.lock().unwrap().len(), 0);

    // 3. Setup binds
    let app_bind = option("App", "AppA", "appa", "");
    let url_bind = option("Url", "UrlA", "urla", "");
    {
        let mut conf = m.repo.0.config.lock().unwrap();
        conf.quick_start_binds.insert("F14".to_string(), vec![app_bind, url_bind]);
    }

    // Trigger F14
    core.handle_key_trigger("F14");
    wait(Duration::from_millis(50));

    assert_eq!(m.launcher.0.launched_apps.lock().unwrap()[0], "appa");
    assert_eq!(m.launcher.0.launched_urls.lock().unwrap()[0], "urla");

    // 4. Debounce: Trigger F14 again immediately -> should be ignored
    core.handle_key_trigger("F14");
    wait(Duration::from_millis(50));
    assert_eq!(m.launcher.0.launched_apps.lock().unwrap().len(), 1); // no new launch

    // 5. Sleep 450ms and trigger again -> should trigger
    wait(Duration::from_millis(450));
    core.handle_key_trigger("F14");
    wait(Duration::from_millis(50));
    assert_eq!(m.launcher.0.launched_apps.lock().unwrap().len(), 2);
}

#[test]
fn lower_case_triggers_fire_upper_case_binds() {
    let (mut core, m) = setup_core();
    {
        let mut conf = m.repo.0.config.lock().unwrap();
        conf.quick_start_binds.insert("F16".to_string(), vec![option("App", "X", "x", "")]);
    }
    core.handle_key_trigger("f16");
    assert_eq!(*m.launcher.0.launched_apps.lock().unwrap(), vec!["x".to_string()]);
    core.handle_key_trigger("focus");
    assert_eq!(*m.win.0.shows.lock().unwrap(), 1);
}

#[test]
fn test_scan_hid() {
    let (mut core, _m) = setup_core();
    let scan_res = core.scan_hid();
    assert_eq!(scan_res.connected, true);
    assert_eq!(scan_res.keyboards.len(), 1);
    let (mut core, _m) = setup_core_with(true, vec![], vec![]);
    let scan_res = core.scan_hid();
    assert!(!scan_res.connected);
}

#[test]
fn test_other_methods() {
    let (mut core, m) = setup_core();

    // list_apps
    let apps = core.list_apps();
    assert_eq!(apps.len(), 1);

    // open_external
    core.open_external("http://google.com");
    assert_eq!(m.launcher.0.launched_urls.lock().unwrap()[0], "http://google.com");

    // launch_app
    core.launch_app("myapp");
    assert_eq!(m.launcher.0.launched_apps.lock().unwrap()[0], "myapp");

    // resize_window
    core.resize_window(800, 600, "launcher");
    assert_eq!(core.get_current_view(), "launcher");
    assert_eq!(m.win.0.resizes.lock().unwrap()[0], (800, 600, "launcher".to_string()));

    // set_current_view
    core.set_current_view("settings");
    assert_eq!(core.get_current_view(), "settings");

    // hide_window
    core.hide_window();
    assert_eq!(*m.win.0.hides.lock().unwrap(), 1);

    // minimize_window
    core.minimize_window();
    assert_eq!(*m.win.0.minimizes.lock().unwrap(), 1);
}

#[test]
fn test_handle_second_instance() {
    // Test case where relay succeeds
    {
        let (mut core, m) = setup_core();
        // trigger has relay_result: true by default
        let relayed = core.handle_second_instance(&["--trigger".to_string(), "F16".to_string()]);
        assert!(relayed);
        assert_eq!(m.trigger.0.relays.lock().unwrap()[0], ("F16".to_string(), FLICK_TRIGGER_PORT));
    }

    // Test case where relay fails
    {
        let (mut core, _m) = setup_core_with(false, vec![], vec![]);
        let relayed = core.handle_second_instance(&["--trigger".to_string(), "F16".to_string()]);
        assert!(!relayed);
    }

    // Test case with FOCUS (no --trigger arg)
    {
        let (mut core, m) = setup_core();
        let relayed = core.handle_second_instance(&[]);
        assert!(relayed);
        assert_eq!(m.trigger.0.relays.lock().unwrap()[0], ("FOCUS".to_string(), FLICK_TRIGGER_PORT));
    }

    // `--trigger` without a key relays nothing
    {
        let (mut core, m) = setup_core();
        assert!(!core.handle_second_instance(&["--trigger".to_string()]));
        assert!(m.trigger.0.relays.lock().unwrap().is_empty());
    }
}

#[test]
fn trigger_decisions() {
    assert_eq!(decide_trigger(None, None, "FOCUS"), TriggerDecision::Focus);
    assert_eq!(decide_trigger(Some("F13"), Some(10), "FOCUS"), TriggerDecision::Focus);
    assert_eq!(decide_trigger(Some("F13"), Some(399), "F13"), TriggerDecision::Debounced);
    assert_eq!(decide_trigger(Some("F13"), Some(400), "F13"), TriggerDecision::Fire);
    assert_eq!(decide_trigger(Some("F13"), Some(10), "F14"), TriggerDecision::Fire);
    assert_eq!(decide_trigger(None, None, "F14"), TriggerDecision::Fire);
}

#[test]
fn launch_actions_follow_option_types() {
    let acts = launch_actions(&vec![option("App", "a", "cmd", ""), option("Url", "u", "https://x", ""), option("Other", "o", "o", "")]);
    assert_eq!(
        acts,
        vec![
            LaunchAction::LaunchApp("cmd".to_string()),
            LaunchAction::OpenUrl("https://x".to_string()),
            LaunchAction::LaunchApp("o".to_string())
        ]
    );
}

#[test]
fn bound_actions_of_a_key() {
    let mut binds = QuickStartBinds::new();
    binds.insert("F15".to_string(), vec![option("Url", "w", "https://w", ""), option("App", "a", "a --x", "")]);
    assert_eq!(
        bound_actions(&binds, "F15"),
        vec![LaunchAction::OpenUrl("https://w".to_string()), LaunchAction::LaunchApp("a --x".to_string())]
    );
    assert!(bound_actions(&binds, "F16").is_empty());
    assert!(bound_actions(&binds, "f15").is_empty());
}

#[test]
fn relay_targets() {
    let a = |v: &[&str]| v.iter().map(|s| s.to_string()).collect::<Vec<_>>();
    assert_eq!(relay_target_of(&a(&["x", "--trigger", "F20", "--trigger", "F21"])), Some("F20".to_string()));
    assert_eq!(relay_target_of(&a(&["--hidden"])), Some("FOCUS".to_string()));
    assert_eq!(relay_target_of(&a(&["x", "--trigger"])), None);
}

#[test]
fn hid_scans_keep_the_listed_keyboards() {
    let k = KeychronDevice { vp_id: 0x3434_0001, vendor_id: 0x3434, product_id: 0x01, name: "K8".to_string() };
    let scan = hid_scan_of(vec![k.clone()]);
    assert!(scan.connected);
    assert_eq!(scan.keyboards, vec![k]);
    assert!(!hid_scan_of(vec![]).connected);
}

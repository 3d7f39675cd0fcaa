//! The services that the application core drives: configuration storage,
//! desktop shortcuts, launching, autostart, the trigger server, the launcher
//! bridge, HID enumeration and the window. Each call that the core makes
//! hands back a receipt that names the call.
use vstd::prelude::*;
use crate::apps::{apps_view, AppInfo, AppInfoView};
use crate::config::{AppConfig, AppConfigView, BindEntries, QuickStartBinds, QuickStartOption};
use crate::hid::{devices_view, KeychronDevice, KeychronDeviceView};
use crate::text::strs;

verus! {

/// `std::io::Error` of std, carried through as an opaque value: what a
/// failed save or shortcut update reports.
#[verifier::external_type_specification]
#[verifier::external_body]
pub struct ExIoError(std::io::Error);

/// A call made on one of the core's services, with what it was given and,
/// for a call that answers, what came back; or a reading of the clock.
pub enum CoreEvent {
    /// The configuration store's `load`, and the configuration it gave.
    Load(AppConfigView),
    /// The configuration store's `save` of this configuration.
    Save(AppConfigView),
    /// Autostart set to this.
    SetAutostart(bool),
    /// The desktop shortcuts synchronised to these keys.
    SyncShortcuts(Seq<Seq<char>>),
    /// These binds broadcast to the launcher bridge.
    BroadcastBinds(BindEntries),
    /// The tray menu refreshed with this autostart state.
    UpdateTray(bool),
    /// The window shown and focused.
    ShowAndFocus,
    /// This command launched.
    LaunchApp(Seq<char>),
    /// This URL opened.
    LaunchUrl(Seq<char>),
    /// The installed applications listed, and the list.
    ListApps(Seq<AppInfoView>),
    /// The window hidden.
    HideWindow,
    /// The window minimised.
    Minimize,
    /// The window resized to width, height, for this view.
    Resize(u32, u32, Seq<char>),
    /// The connected keyboards listed, and the list.
    ListDevices(Seq<KeychronDeviceView>),
    /// This key relayed to a trigger server on this port, and whether it was acknowledged.
    Relay(Seq<char>, u16, bool),
    /// The trigger server started on this port.
    StartTriggerServer(u16),
    /// The launcher bridge started on this port.
    StartBridge(u16),
    /// The milliseconds since the last fire, as the clock gave them.
    ClockElapsed(u128),
}

/// What a service hands back for a call it made: the call, as a
/// `CoreEvent`. A service makes one with the constructor for its call.
pub struct CallReceipt {
    event: Ghost<CoreEvent>,
}

impl View for CallReceipt {
    type V = CoreEvent;

    closed spec fn view(&self) -> CoreEvent {
        self.event@
    }
}

impl CallReceipt {
    /// For a `load` that gave `config`.
    pub fn loaded(config: &AppConfig) -> (r: Self)
        ensures
            r@ == CoreEvent::Load(config@),
    {
        CallReceipt { event: Ghost(CoreEvent::Load(config@)) }
    }

    /// For a `save` of `config`.
    pub fn saved(config: &AppConfig) -> (r: Self)
        ensures
            r@ == CoreEvent::Save(config@),
    {
        CallReceipt { event: Ghost(CoreEvent::Save(config@)) }
    }

    /// For setting autostart to `enabled`.
    pub fn autostart_set(enabled: bool) -> (r: Self)
        ensures
            r@ == CoreEvent::SetAutostart(enabled),
    {
        CallReceipt { event: Ghost(CoreEvent::SetAutostart(enabled)) }
    }

    /// For synchronising the shortcuts to `keys`.
    pub fn shortcuts_synced(keys: &[String]) -> (r: Self)
        ensures
            r@ == CoreEvent::SyncShortcuts(strs(keys@)),
    {
        CallReceipt { event: Ghost(CoreEvent::SyncShortcuts(strs(keys@))) }
    }

    /// For broadcasting `binds`.
    pub fn binds_broadcast(binds: &QuickStartBinds) -> (r: Self)
        ensures
            r@ == CoreEvent::BroadcastBinds(binds@),
    {
        CallReceipt { event: Ghost(CoreEvent::BroadcastBinds(binds@)) }
    }

    /// For refreshing the tray menu with `autostart`.
    pub fn tray_updated(autostart: bool) -> (r: Self)
        ensures
            r@ == CoreEvent::UpdateTray(autostart),
    {
        CallReceipt { event: Ghost(CoreEvent::UpdateTray(autostart)) }
    }

    /// For showing and focusing the window.
    pub fn shown() -> (r: Self)
        ensures
            r@ == CoreEvent::ShowAndFocus,
    {
        CallReceipt { event: Ghost(CoreEvent::ShowAndFocus) }
    }

    /// For launching `exec_cmd`.
    pub fn app_launched(exec_cmd: &str) -> (r: Self)
        ensures
            r@ == CoreEvent::LaunchApp(exec_cmd@),
    {
        CallReceipt { event: Ghost(CoreEvent::LaunchApp(exec_cmd@)) }
    }

    /// For opening `url`.
    pub fn url_opened(url: &str) -> (r: Self)
        ensures
            r@ == CoreEvent::LaunchUrl(url@),
    {
        CallReceipt { event: Ghost(CoreEvent::LaunchUrl(url@)) }
    }

    /// For listing the installed applications as `apps`.
    pub fn apps_listed(apps: &Vec<AppInfo>) -> (r: Self)
        ensures
            r@ == CoreEvent::ListApps(apps_view(apps@)),
    {
        CallReceipt { event: Ghost(CoreEvent::ListApps(apps_view(apps@))) }
    }

    /// For hiding the window.
    pub fn hidden() -> (r: Self)
        ensures
            r@ == CoreEvent::HideWindow,
    {
        CallReceipt { event: Ghost(CoreEvent::HideWindow) }
    }

    /// For minimising the window.
    pub fn minimized() -> (r: Self)
        ensures
            r@ == CoreEvent::Minimize,
    {
        CallReceipt { event: Ghost(CoreEvent::Minimize) }
    }

    /// For resizing the window to `width` by `height` for the view `mode`.
    pub fn resized(width: u32, height: u32, mode: &str) -> (r: Self)
        ensures
            r@ == CoreEvent::Resize(width, height, mode@),
    {
        CallReceipt { event: Ghost(CoreEvent::Resize(width, height, mode@)) }
    }

    /// For listing the connected keyboards as `devices`.
    pub fn devices_listed(devices: &Vec<KeychronDevice>) -> (r: Self)
        ensures
            r@ == CoreEvent::ListDevices(devices_view(devices@)),
    {
        CallReceipt { event: Ghost(CoreEvent::ListDevices(devices_view(devices@))) }
    }

    /// For relaying `key` to the trigger server on `port`, answered `acknowledged`.
    pub fn relayed(key: &str, port: u16, acknowledged: bool) -> (r: Self)
        ensures
            r@ == CoreEvent::Relay(key@, port, acknowledged),
    {
        CallReceipt { event: Ghost(CoreEvent::Relay(key@, port, acknowledged)) }
    }

    /// For starting the trigger server on `port`.
    pub fn trigger_server_started(port: u16) -> (r: Self)
        ensures
            r@ == CoreEvent::StartTriggerServer(port),
    {
        CallReceipt { event: Ghost(CoreEvent::StartTriggerServer(port)) }
    }

    /// For starting the launcher bridge on `port`.
    pub fn bridge_started(port: u16) -> (r: Self)
        ensures
            r@ == CoreEvent::StartBridge(port),
    {
        CallReceipt { event: Ghost(CoreEvent::StartBridge(port)) }
    }
}

/// Where the configuration is kept.
pub trait ConfigRepository: Send + Sync {
    fn load(&self) -> (r: (AppConfig, CallReceipt))
        ensures
            r.1@ == CoreEvent::Load(r.0@),
    ;

    fn save(&self, config: &AppConfig) -> (r: (Result<(), std::io::Error>, CallReceipt))
        ensures
            r.1@ == CoreEvent::Save(config@),
    ;
}

/// The desktop's global shortcuts for the quick-start keys.
pub trait GnomeShortcutsService: Send + Sync {
    fn is_gnome(&self) -> bool;

    fn sync_shortcuts(&self, keys: &[String]) -> (r: (Result<(), std::io::Error>, CallReceipt))
        ensures
            r.1@ == CoreEvent::SyncShortcuts(strs(keys@)),
    ;

    fn clear_shortcuts(&self) -> Result<(), std::io::Error>;
}

/// Starting applications and opening URLs.
pub trait AppLauncher: Send + Sync {
    fn launch_app(&self, exec_cmd: &str) -> (r: CallReceipt)
        ensures
            r@ == CoreEvent::LaunchApp(exec_cmd@),
    ;

    fn launch_url(&self, url: &str) -> (r: CallReceipt)
        ensures
            r@ == CoreEvent::LaunchUrl(url@),
    ;

    fn list_apps(&self) -> (r: (Vec<AppInfo>, CallReceipt))
        ensures
            r.1@ == CoreEvent::ListApps(apps_view(r.0@)),
    ;
}

/// Starting the program with the session.
pub trait AutostartManager: Send + Sync {
    fn set_enabled(&self, enabled: bool) -> (r: CallReceipt)
        ensures
            r@ == CoreEvent::SetAutostart(enabled),
    ;

    fn is_enabled(&self) -> bool;
}

/// The local trigger server, and relaying a trigger to a running instance.
pub trait TriggerIpcService: Send + Sync {
    fn start_server<F: Fn(String) + Send + Sync + 'static>(&self, port: u16, on_trigger: F) -> (r: CallReceipt)
        ensures
            r@ == CoreEvent::StartTriggerServer(port),
    ;

    fn relay_trigger(&self, key: &str, port: u16) -> (r: (bool, CallReceipt))
        ensures
            r.1@ == CoreEvent::Relay(key@, port, r.0),
    ;
}

/// The WebSocket bridge to the Keychron launcher.
pub trait WsServer: Send + Sync {
    fn start<B, A, C, G>(
        &self,
        port: u16,
        on_get_binds: B,
        on_add_bind: A,
        on_clear_bind: C,
        on_get_apps: G,
    ) -> (r: CallReceipt) where
        B: Fn() -> QuickStartBinds + Send + Sync + 'static,
        A: Fn(String, QuickStartOption) + Send + Sync + 'static,
        C: Fn(Option<String>) + Send + Sync + 'static,
        G: Fn() -> Vec<AppInfo> + Send + Sync + 'static,

        ensures
            r@ == CoreEvent::StartBridge(port),
    ;

    fn broadcast_binds(&self, binds: &QuickStartBinds) -> (r: CallReceipt)
        ensures
            r@ == CoreEvent::BroadcastBinds(binds@),
    ;
}

/// Enumerating the connected Keychron keyboards.
pub trait HidService: Send + Sync {
    fn list_devices(&self) -> (r: (Vec<KeychronDevice>, CallReceipt))
        ensures
            r.1@ == CoreEvent::ListDevices(devices_view(r.0@)),
    ;
}

/// The main window and the tray.
pub trait WindowService: Send + Sync {
    fn show_and_focus(&self) -> (r: CallReceipt)
        ensures
            r@ == CoreEvent::ShowAndFocus,
    ;

    fn hide_window(&self) -> (r: CallReceipt)
        ensures
            r@ == CoreEvent::HideWindow,
    ;

    fn minimize(&self) -> (r: CallReceipt)
        ensures
            r@ == CoreEvent::Minimize,
    ;

    fn resize(&self, width: u32, height: u32, mode: &str) -> (r: CallReceipt)
        ensures
            r@ == CoreEvent::Resize(width, height, mode@),
    ;

    fn emit_navigate(&self, view: &str);

    fn update_tray_menu(&self, autostart: bool) -> (r: CallReceipt)
        ensures
            r@ == CoreEvent::UpdateTray(autostart),
    ;
}

} // verus!

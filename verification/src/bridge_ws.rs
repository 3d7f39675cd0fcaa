//! The Keychron launcher bridge: which replies a WebSocket message gets, and
//! what a quick-start command asks of the application core.
use vstd::prelude::*;
use crate::apps::{AppInfo, AppInfoView, apps_view};
use crate::config::{options_view, QuickStartBinds, QuickStartOption, QuickStartOptionView};
use crate::text::{chars_of, copy_str, is_u32_literal, parse_u32, str_equal, string_of_range};

verus! {

/// The assist-protocol version that the bridge reports.
pub const ASSIST_VERSION: &'static str = "1.1.1";

/// What a reply carries.
#[derive(Debug)]
pub enum ReplyData {
    /// A JSON string.
    Text(String),
    /// The version information: `ASSIST_VERSION` with the `quickStart` feature at version 1.
    Version,
    /// The start of the application list, with the number of applications.
    FetchStart { count: usize },
    /// One application of the list, at `index`.
    Fetch { index: usize, name: String, path: String, icon: String },
    /// The end of the application list, with the number of applications.
    FetchEnd { count: usize },
    /// The quick-start binds, as a one-element array.
    Binds(QuickStartBinds),
}

pub enum ReplyDataView {
    Text(Seq<char>),
    Version,
    FetchStart { count: usize },
    Fetch { index: usize, name: Seq<char>, path: Seq<char>, icon: Seq<char> },
    FetchEnd { count: usize },
    Binds(Seq<(Seq<char>, Seq<QuickStartOptionView>)>),
}

impl View for ReplyData {
    type V = ReplyDataView;

    open spec fn view(&self) -> ReplyDataView {
        match self {
            ReplyData::Text(t) => ReplyDataView::Text(t@),
            ReplyData::Version => ReplyDataView::Version,
            ReplyData::FetchStart { count } => ReplyDataView::FetchStart { count: *count },
            ReplyData::Fetch { index, name, path, icon } => ReplyDataView::Fetch {
                index: *index,
                name: name@,
                path: path@,
                icon: icon@,
            },
            ReplyData::FetchEnd { count } => ReplyDataView::FetchEnd { count: *count },
            ReplyData::Binds(b) => ReplyDataView::Binds(b@),
        }
    }
}

/// A message from the bridge to the launcher: `{ evt_type, evt_data: { cmd, data } }`.
#[derive(Debug)]
pub struct WsReply {
    pub evt_type: String,
    pub cmd: String,
    pub data: ReplyData,
}

pub struct WsReplyView {
    pub evt_type: Seq<char>,
    pub cmd: Seq<char>,
    pub data: ReplyDataView,
}

impl View for WsReply {
    type V = WsReplyView;

    open spec fn view(&self) -> WsReplyView {
        WsReplyView { evt_type: self.evt_type@, cmd: self.cmd@, data: self.data@ }
    }
}

pub open spec fn replies_view(v: Seq<WsReply>) -> Seq<WsReplyView> {
    v.map_values(|r: WsReply| r@)
}

/// How a message is answered, by its event type and command.
#[derive(Debug, Clone, Copy, PartialEq, Eq)]
pub enum WsRoute {
    /// `Common`/`GetVersion`: the version information.
    Version,
    /// Any other `Common` command: an empty string.
    CommonEmpty,
    /// A `QuickStart` command.
    QuickStart,
    /// Any other event type: an empty string under the same event type and command.
    Echo,
}

pub open spec fn route_of(evt_type: Seq<char>, cmd: Seq<char>) -> WsRoute {
    if evt_type == "Common"@ {
        if cmd == "GetVersion"@ {
            WsRoute::Version
        } else {
            WsRoute::CommonEmpty
        }
    } else if evt_type == "QuickStart"@ {
        WsRoute::QuickStart
    } else {
        WsRoute::Echo
    }
}

/// How a message with this event type and command is answered (a missing
/// event type or command reads as the empty string).
pub fn route_message(evt_type: &str, cmd: &str) -> (r: WsRoute)
    ensures
        r == route_of(evt_type@, cmd@),
{
    if str_equal(evt_type, "Common") {
        if str_equal(cmd, "GetVersion") {
            WsRoute::Version
        } else {
            WsRoute::CommonEmpty
        }
    } else if str_equal(evt_type, "QuickStart") {
        WsRoute::QuickStart
    } else {
        WsRoute::Echo
    }
}

/// A reply whose data is a string.
pub fn text_reply(evt_type: &str, cmd: &str, text: &str) -> (r: WsReply)
    ensures
        r@ == (WsReplyView { evt_type: evt_type@, cmd: cmd@, data: ReplyDataView::Text(text@) }),
{
    WsReply { evt_type: copy_str(evt_type), cmd: copy_str(cmd), data: ReplyData::Text(copy_str(text)) }
}

/// The reply to a message routed as `route`, other than a `QuickStart` one.
pub open spec fn route_reply(route: WsRoute, evt_type: Seq<char>, cmd: Seq<char>) -> Option<WsReplyView> {
    match route {
        WsRoute::Version => Some(WsReplyView { evt_type: "Common"@, cmd: cmd, data: ReplyDataView::Version }),
        WsRoute::CommonEmpty => Some(
            WsReplyView { evt_type: "Common"@, cmd: cmd, data: ReplyDataView::Text(""@) },
        ),
        WsRoute::Echo => Some(WsReplyView { evt_type: evt_type, cmd: cmd, data: ReplyDataView::Text(""@) }),
        WsRoute::QuickStart => None,
    }
}

/// The reply to a message that is not a `QuickStart` command; `None` for one that is.
pub fn direct_reply(evt_type: &str, cmd: &str) -> (r: Option<WsReply>)
    ensures
        match r {
            Some(m) => route_reply(route_of(evt_type@, cmd@), evt_type@, cmd@) == Some(m@),
            None => route_reply(route_of(evt_type@, cmd@), evt_type@, cmd@) is None,
        },
{
    match route_message(evt_type, cmd) {
        WsRoute::Version => Some(WsReply { evt_type: copy_str("Common"), cmd: copy_str(cmd), data: ReplyData::Version }),
        WsRoute::CommonEmpty => Some(text_reply("Common", cmd, "")),
        WsRoute::Echo => Some(text_reply(evt_type, cmd, "")),
        WsRoute::QuickStart => None,
    }
}

/// A bind sent by the launcher: the key and the option to bind to it.
#[derive(Debug)]
pub struct BindPayload {
    pub key: String,
    pub bind: QuickStartOption,
}

/// The `data` of a `QuickStart` command: whether it is a JSON string, its
/// text (the string itself, or else the JSON text of the value), and the bind
/// it holds, when it reads as one.
#[derive(Debug)]
pub struct WsData {
    pub is_string: bool,
    pub text: String,
    pub payload: Option<BindPayload>,
}

/// What a `QuickStart` command asks of the core.
#[derive(Debug)]
pub enum QuickStartAction {
    /// A status acknowledgment from the launcher: nothing to do, no reply.
    Ignore,
    /// Stream the installed applications.
    FetchApps,
    /// Send the quick-start binds.
    SendBinds,
    /// Store a bind, unless the key already has the same one; reply `Success`.
    AddBind(Option<BindPayload>),
    /// Unbind the given key, or every key for `None`; reply `Success`.
    ClearBinds(Option<String>),
    /// Unbind the payload's key, when there is a payload; reply `Success`.
    RemoveBind(Option<String>),
    /// An unknown command: reply an empty string.
    Unknown,
}

pub enum QuickStartActionKind {
    Ignore,
    FetchApps,
    SendBinds,
    AddBind,
    ClearBinds(Option<Seq<char>>),
    RemoveBind,
    Unknown,
}

/// A launcher acknowledgment: string data `Success`, `KeyDuplicate` or `Fail`.
pub open spec fn is_ack(is_string: bool, text: Seq<char>) -> bool {
    is_string && (text == "Success"@ || text == "KeyDuplicate"@ || text == "Fail"@)
}

/// A key name in the form `F<number>`: an `F` in either case, then at least
/// one more character, all of which read as a `u32`.
pub open spec fn is_fkey_text(t: Seq<char>) -> bool {
    t.len() > 1 && (t[0] == 'F' || t[0] == 'f') && is_u32_literal(t.drop_first())
}

/// The first character of `t` is one of the ligatures U+FB00 to U+FB04,
/// whose upper case begins with `F` although they are not one byte long.
pub open spec fn begins_with_f_ligature(t: Seq<char>) -> bool {
    t.len() > 0 && 0xFB00 <= (t[0] as u32) <= 0xFB04
}

pub open spec fn is_remove_command(cmd: Seq<char>) -> bool {
    cmd == "RemoveKeyBind"@ || cmd == "DelKeyBind"@ || cmd == "DeleteKeyBind"@
}

pub open spec fn action_kind(cmd: Seq<char>, is_string: bool, text: Seq<char>) -> QuickStartActionKind {
    if is_ack(is_string, text) {
        QuickStartActionKind::Ignore
    } else if cmd == "Get"@ {
        QuickStartActionKind::FetchApps
    } else if cmd == "GetKeyBinds"@ {
        QuickStartActionKind::SendBinds
    } else if cmd == "AddKeyBind"@ {
        QuickStartActionKind::AddBind
    } else if cmd == "ClearKeyBind"@ {
        QuickStartActionKind::ClearBinds(if is_fkey_text(text) { Some(text) } else { None })
    } else if is_remove_command(cmd) {
        QuickStartActionKind::RemoveBind
    } else {
        QuickStartActionKind::Unknown
    }
}

/// Whether `t` names a key in the form `F<number>`.
/// Every command that edits binds is acted on and answered `Success`, for
/// any data that is not a status acknowledgment: adding a bind, clearing
/// binds, and removing a bind under each of its three names, each answered
/// under the name it came with.
pub proof fn lemma_bind_commands_answered(is_string: bool, text: Seq<char>)
    requires
        !is_ack(is_string, text),
    ensures
        action_kind("AddKeyBind"@, is_string, text) is AddBind,
        action_kind("ClearKeyBind"@, is_string, text) is ClearBinds,
        action_kind("Get"@, is_string, text) is FetchApps,
        action_kind("GetKeyBinds"@, is_string, text) is SendBinds,
        forall|c: Seq<char>|
            c == "RemoveKeyBind"@ || c == "DelKeyBind"@ || c == "DeleteKeyBind"@ ==> {
                &&& #[trigger] action_kind(c, is_string, text) is RemoveBind
                &&& closing_reply(c, action_kind(c, is_string, text)) == Some(
                    WsReplyView { evt_type: "QuickStart"@, cmd: c, data: ReplyDataView::Text("Success"@) },
                )
            },
{
    reveal_strlit("Get");
    reveal_strlit("GetKeyBinds");
    reveal_strlit("AddKeyBind");
    reveal_strlit("ClearKeyBind");
    reveal_strlit("RemoveKeyBind");
    reveal_strlit("DelKeyBind");
    reveal_strlit("DeleteKeyBind");
    assert("Get"@.len() == 3 && "GetKeyBinds"@.len() == 11 && "AddKeyBind"@.len() == 10);
    assert("ClearKeyBind"@.len() == 12 && "RemoveKeyBind"@.len() == 13 && "DelKeyBind"@.len() == 10);
    assert("DeleteKeyBind"@.len() == 13);
    assert("DelKeyBind"@[0] != "AddKeyBind"@[0]);
    assert("AddKeyBind"@ != "Get"@ && "AddKeyBind"@ != "GetKeyBinds"@);
    assert("ClearKeyBind"@ != "Get"@ && "ClearKeyBind"@ != "GetKeyBinds"@ && "ClearKeyBind"@ != "AddKeyBind"@);
    assert("DelKeyBind"@ != "AddKeyBind"@);
}

/// A status acknowledgment (`Success`, `KeyDuplicate` or `Fail` as a
/// string) is never acted on nor answered, whatever the command; and a
/// command the bridge does not know gets an empty answer under its own name.
pub proof fn lemma_acks_ignored_unknown_answered(cmd: Seq<char>, is_string: bool, text: Seq<char>)
    ensures
        is_ack(is_string, text) ==> action_kind(cmd, is_string, text) is Ignore && closing_reply(
            cmd,
            action_kind(cmd, is_string, text),
        ) is None,
        !is_ack(is_string, text) && cmd != "Get"@ && cmd != "GetKeyBinds"@ && cmd != "AddKeyBind"@ && cmd
            != "ClearKeyBind"@ && cmd != "RemoveKeyBind"@ && cmd != "DelKeyBind"@ && cmd != "DeleteKeyBind"@
            ==> closing_reply(cmd, action_kind(cmd, is_string, text)) == Some(
            WsReplyView { evt_type: "QuickStart"@, cmd: cmd, data: ReplyDataView::Text(""@) },
        ),
{
}

pub fn is_fkey_text_exec(t: &str) -> (r: bool)
    requires
        !begins_with_f_ligature(t@),
    ensures
        r == is_fkey_text(t@),
{
    let cs = chars_of(t);
    if cs.len() <= 1 || !(cs[0] == 'F' || cs[0] == 'f') {
        return false;
    }
    let rest = crate::text::chars_range(&cs, 1, cs.len());
    assert(rest@ =~= cs@.drop_first());
    parse_u32(&rest).is_some()
}

fn key_of_payload(p: &Option<BindPayload>) -> (r: Option<String>)
    ensures
        match r {
            Some(k) => p matches Some(q) && k@ == q.key@,
            None => p is None,
        },
{
    match p {
        Some(q) => Some(q.key.clone()),
        None => None,
    }
}

/// What a `QuickStart` command with this `data` asks of the core. (A
/// `ClearKeyBind` whose data begins with one of the ligatures U+FB00 to
/// U+FB04 is left out: no key name is read from it.)
pub fn quick_start_action(cmd: &str, data: WsData) -> (r: QuickStartAction)
    requires
        !(cmd@ == "ClearKeyBind"@ && !is_ack(data.is_string, data.text@) && begins_with_f_ligature(
            data.text@,
        )),
    ensures
        match (r, action_kind(cmd@, data.is_string, data.text@)) {
            (QuickStartAction::Ignore, QuickStartActionKind::Ignore) => true,
            (QuickStartAction::FetchApps, QuickStartActionKind::FetchApps) => true,
            (QuickStartAction::SendBinds, QuickStartActionKind::SendBinds) => true,
            (QuickStartAction::AddBind(p), QuickStartActionKind::AddBind) => match (p, data.payload) {
                (Some(a), Some(b)) => a.key@ == b.key@ && a.bind@ == b.bind@,
                (None, None) => true,
                _ => false,
            },
            (QuickStartAction::ClearBinds(k), QuickStartActionKind::ClearBinds(kk)) => match (k, kk) {
                (Some(a), Some(b)) => a@ == b,
                (None, None) => true,
                _ => false,
            },
            (QuickStartAction::RemoveBind(k), QuickStartActionKind::RemoveBind) => match (k, data.payload) {
                (Some(a), Some(b)) => a@ == b.key@,
                (None, None) => true,
                _ => false,
            },
            (QuickStartAction::Unknown, QuickStartActionKind::Unknown) => true,
            _ => false,
        },
{
    let t = data.text.as_str();
    if data.is_string && (str_equal(t, "Success") || str_equal(t, "KeyDuplicate") || str_equal(t, "Fail")) {
        return QuickStartAction::Ignore;
    }
    if str_equal(cmd, "Get") {
        QuickStartAction::FetchApps
    } else if str_equal(cmd, "GetKeyBinds") {
        QuickStartAction::SendBinds
    } else if str_equal(cmd, "AddKeyBind") {
        QuickStartAction::AddBind(data.payload)
    } else if str_equal(cmd, "ClearKeyBind") {
        if is_fkey_text_exec(t) {
            QuickStartAction::ClearBinds(Some(data.text.clone()))
        } else {
            QuickStartAction::ClearBinds(None)
        }
    } else if str_equal(cmd, "RemoveKeyBind") || str_equal(cmd, "DelKeyBind") || str_equal(cmd, "DeleteKeyBind") {
        QuickStartAction::RemoveBind(key_of_payload(&data.payload))
    } else {
        QuickStartAction::Unknown
    }
}

/// The reply that closes a `QuickStart` command, once its action is done:
/// `Success` for the bind commands, an empty string for an unknown one;
/// `None` for the commands that reply otherwise or not at all.
pub open spec fn closing_reply(cmd: Seq<char>, kind: QuickStartActionKind) -> Option<WsReplyView> {
    match kind {
        QuickStartActionKind::AddBind => Some(
            WsReplyView { evt_type: "QuickStart"@, cmd: "AddKeyBind"@, data: ReplyDataView::Text("Success"@) },
        ),
        QuickStartActionKind::ClearBinds(_) => Some(
            WsReplyView { evt_type: "QuickStart"@, cmd: "ClearKeyBind"@, data: ReplyDataView::Text("Success"@) },
        ),
        QuickStartActionKind::RemoveBind => Some(
            WsReplyView { evt_type: "QuickStart"@, cmd: cmd, data: ReplyDataView::Text("Success"@) },
        ),
        QuickStartActionKind::Unknown => Some(
            WsReplyView { evt_type: "QuickStart"@, cmd: cmd, data: ReplyDataView::Text(""@) },
        ),
        _ => None,
    }
}

pub open spec fn kind_of(a: QuickStartAction) -> QuickStartActionKind {
    match a {
        QuickStartAction::Ignore => QuickStartActionKind::Ignore,
        QuickStartAction::FetchApps => QuickStartActionKind::FetchApps,
        QuickStartAction::SendBinds => QuickStartActionKind::SendBinds,
        QuickStartAction::AddBind(_) => QuickStartActionKind::AddBind,
        QuickStartAction::ClearBinds(k) => QuickStartActionKind::ClearBinds(
            match k {
                Some(s) => Some(s@),
                None => None,
            },
        ),
        QuickStartAction::RemoveBind(_) => QuickStartActionKind::RemoveBind,
        QuickStartAction::Unknown => QuickStartActionKind::Unknown,
    }
}

/// The reply that closes a `QuickStart` command once `action` is done.
pub fn closing_reply_of(cmd: &str, action: &QuickStartAction) -> (r: Option<WsReply>)
    ensures
        match r {
            Some(m) => closing_reply(cmd@, kind_of(*action)) == Some(m@),
            None => closing_reply(cmd@, kind_of(*action)) is None,
        },
{
    match action {
        QuickStartAction::AddBind(_) => Some(text_reply("QuickStart", "AddKeyBind", "Success")),
        QuickStartAction::ClearBinds(_) => Some(text_reply("QuickStart", "ClearKeyBind", "Success")),
        QuickStartAction::RemoveBind(_) => Some(text_reply("QuickStart", cmd, "Success")),
        QuickStartAction::Unknown => Some(text_reply("QuickStart", cmd, "")),
        _ => None,
    }
}

/// Whether a bind sent for `key` changes anything: it does unless the first
/// option bound to `key` has the same type and path.
pub open spec fn changes_binds(binds: Map<Seq<char>, Seq<QuickStartOptionView>>, key: Seq<char>, bind: QuickStartOptionView) -> bool {
    !(binds.contains_key(key) && binds[key].len() > 0 && binds[key][0].opt_type == bind.opt_type
        && binds[key][0].opt_data.path == bind.opt_data.path)
}

/// Whether a bind sent by the launcher for `key` is to be stored.
pub fn is_new_bind(binds: &QuickStartBinds, key: &str, bind: &QuickStartOption) -> (r: bool)
    ensures
        r == changes_binds(binds.as_map(), key@, bind@),
{
    match binds.get(key) {
        Some(opts) => {
            if opts.len() == 0 {
                return true;
            }
            assert(options_view(opts@)[0] == opts@[0]@);
            let same = str_equal(opts[0].opt_type.as_str(), bind.opt_type.as_str()) && str_equal(
                opts[0].opt_data.path.as_str(),
                bind.opt_data.path.as_str(),
            );
            !same
        },
        None => true,
    }
}

/// The replies that stream the application list: a start with the count,
/// one reply per application (name, command as the path, icon), an end with
/// the count.
pub open spec fn fetch_replies(apps: Seq<AppInfoView>) -> Seq<WsReplyView> {
    seq![WsReplyView { evt_type: "QuickStart"@, cmd: "Get"@, data: ReplyDataView::FetchStart { count: apps.len() as usize } }]
        + Seq::new(
        apps.len(),
        |i: int|
            WsReplyView {
                evt_type: "QuickStart"@,
                cmd: "Get"@,
                data: ReplyDataView::Fetch {
                    index: i as usize,
                    name: apps[i].name,
                    path: apps[i].exec_cmd,
                    icon: apps[i].icon,
                },
            },
    ) + seq![WsReplyView { evt_type: "QuickStart"@, cmd: "Get"@, data: ReplyDataView::FetchEnd { count: apps.len() as usize } }]
}

/// The replies that stream the application list.
pub fn app_list_replies(apps: &Vec<AppInfo>) -> (r: Vec<WsReply>)
    ensures
        replies_view(r@) == fetch_replies(apps_view(apps@)),
{
    let ghost av = apps_view(apps@);
    let n = apps.len();
    let mut r: Vec<WsReply> = Vec::new();
    r.push(WsReply { evt_type: copy_str("QuickStart"), cmd: copy_str("Get"), data: ReplyData::FetchStart { count: n } });
    let mut i: usize = 0;
    while i < n
        invariant
            i <= n == apps@.len(),
            av == apps_view(apps@),
            r@.len() == i + 1,
            r@[0]@ == fetch_replies(av)[0],
            forall|k: int| 1 <= k <= i ==> #[trigger] r@[k]@ == fetch_replies(av)[k],
        decreases n - i,
    {
        let a = &apps[i];
        r.push(
            WsReply {
                evt_type: copy_str("QuickStart"),
                cmd: copy_str("Get"),
                data: ReplyData::Fetch {
                    index: i,
                    name: a.name.clone(),
                    path: a.exec_cmd.clone(),
                    icon: a.icon.clone(),
                },
            },
        );
        i = i + 1;
    }
    r.push(WsReply { evt_type: copy_str("QuickStart"), cmd: copy_str("Get"), data: ReplyData::FetchEnd { count: n } });
    assert(replies_view(r@) =~= fetch_replies(av));
    r
}

/// The reply that carries the quick-start binds.
pub fn binds_reply(binds: &QuickStartBinds) -> (r: WsReply)
    ensures
        r@ == (WsReplyView { evt_type: "QuickStart"@, cmd: "GetKeyBinds"@, data: ReplyDataView::Binds(binds@) }),
{
    WsReply { evt_type: copy_str("QuickStart"), cmd: copy_str("GetKeyBinds"), data: ReplyData::Binds(binds.clone()) }
}

} // verus!

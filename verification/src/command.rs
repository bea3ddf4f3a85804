//! Commands: what a press in the house sends to the box, and what it says of it.
use vstd::prelude::*;

use crate::channels;
use crate::host;
use crate::host::{add_call, one, ArgValue, HostCall, Instance, MEDIA, TV};
use crate::inputs;
use crate::json;
use crate::text;
use crate::Roku;

verus! {

/// The arguments that a command may come with; none where one is missing or of another type.
#[derive(Debug, Clone, PartialEq, Eq)]
pub struct CommandArgs {
    /// The channel to launch, as it was said.
    pub app: Option<String>,
    /// What to open in the channel.
    pub content_id: Option<String>,
    /// What kind of thing `content_id` refers to.
    pub content_kind: Option<String>,
    /// The connection to switch to.
    pub connection: Option<u64>,
    /// The key of a d-pad.
    pub key: Option<String>,
}

/// The arguments of a command as plain values.
#[verifier::ext_equal]
pub struct CommandArgsView {
    pub app: Option<Seq<char>>,
    pub content_id: Option<Seq<char>>,
    pub content_kind: Option<Seq<char>>,
    pub connection: Option<u64>,
    pub key: Option<Seq<char>>,
}

impl View for CommandArgs {
    type V = CommandArgsView;

    open spec fn view(&self) -> CommandArgsView {
        CommandArgsView {
            app: self.app.deep_view(),
            content_id: self.content_id.deep_view(),
            content_kind: self.content_kind.deep_view(),
            connection: self.connection,
            key: self.key.deep_view(),
        }
    }
}

impl Default for CommandArgs {
    /// No arguments.
    fn default() -> (r: CommandArgs)
        ensures
            r@ == (CommandArgsView {
                app: None,
                content_id: None,
                content_kind: None,
                connection: None,
                key: None,
            }),
    {
        CommandArgs { app: None, content_id: None, content_kind: None, connection: None, key: None }
    }
}

/// The arguments of a command as they stand in JSON.
pub open spec fn args_in(args: json::Json) -> CommandArgsView {
    CommandArgsView {
        app: json::text_in(args, "app"@),
        content_id: json::text_in(args, "content_id"@),
        content_kind: json::text_in(args, "content_kind"@),
        connection: json::number_in(args, "connection"@),
        key: json::text_in(args, "key"@),
    }
}

impl CommandArgs {
    /// Reads the arguments of a command.
    pub fn read(args: &serde_json::Value) -> (r: CommandArgs)
        ensures
            r@ == args_in(json::held(*args)),
    {
        CommandArgs {
            app: json::text_at(args, "app"),
            content_id: json::text_at(args, "content_id"),
            content_kind: json::text_at(args, "content_kind"),
            connection: json::number_at(args, "connection"),
            key: json::text_at(args, "key"),
        }
    }
}

/// A press of one of the keys of the box.
pub open spec fn pressed(key: Seq<char>) -> host::HostCallView {
    host::sent("POST"@, "/keypress/"@ + key)
}

/// The key of the screen for a command: those that only a television has.
pub open spec fn screen_key(cmd: Seq<char>) -> Option<Seq<char>> {
    if cmd == "on"@ {
        Some("PowerOn"@)
    } else if cmd == "off"@ {
        Some("PowerOff"@)
    } else if cmd == "power_toggle"@ {
        Some("Power"@)
    } else if cmd == "volume_up"@ {
        Some("VolumeUp"@)
    } else if cmd == "volume_down"@ {
        Some("VolumeDown"@)
    } else if cmd == "mute_toggle"@ {
        Some("VolumeMute"@)
    } else {
        None
    }
}

/// The key for a command that every box takes.
pub open spec fn common_key(cmd: Seq<char>) -> Option<Seq<char>> {
    if cmd == "play"@ || cmd == "pause"@ {
        Some("Play"@)
    } else if cmd == "stop"@ {
        Some("Home"@)
    } else if cmd == "skip_forward"@ || cmd == "scan_forward"@ {
        Some("Fwd"@)
    } else if cmd == "skip_back"@ || cmd == "scan_reverse"@ {
        Some("Rev"@)
    } else if cmd == "search"@ {
        Some("Search"@)
    } else {
        None
    }
}

/// The key for a press of the d-pad.
pub open spec fn dpad_key(key: Seq<char>) -> Option<Seq<char>> {
    if key == "up"@ {
        Some("Up"@)
    } else if key == "down"@ {
        Some("Down"@)
    } else if key == "left"@ {
        Some("Left"@)
    } else if key == "right"@ {
        Some("Right"@)
    } else if key == "select"@ {
        Some("Select"@)
    } else if key == "back"@ {
        Some("Back"@)
    } else if key == "home"@ || key == "menu"@ {
        Some("Home"@)
    } else if key == "info"@ {
        Some("Info"@)
    } else {
        None
    }
}

/// The key that a command presses, or what to warn of where it presses none.
pub open spec fn key_for(proxy: u32, cmd: Seq<char>, key: Option<Seq<char>>) -> Result<
    Seq<char>,
    Seq<char>,
> {
    if proxy == TV && screen_key(cmd) is Some {
        Ok(screen_key(cmd)->0)
    } else if common_key(cmd) is Some {
        Ok(common_key(cmd)->0)
    } else if cmd == "dpad"@ {
        match key {
            None => Err("roku: dpad needs a key"@),
            Some(k) => match dpad_key(k) {
                Some(pressed) => Ok(pressed),
                None => Err("roku: no key `"@ + k + "`"@),
            },
        }
    } else {
        Err("roku: unhandled `"@ + cmd + "`"@)
    }
}

/// Whether a command turns the set on or off.
pub open spec fn is_power(cmd: Seq<char>) -> bool {
    cmd == "on"@ || cmd == "off"@ || cmd == "power_toggle"@
}

/// What a command says of the transport.
pub open spec fn transport_after(cmd: Seq<char>) -> Option<Seq<char>> {
    if cmd == "play"@ {
        Some("playing"@)
    } else if cmd == "pause"@ {
        Some("paused"@)
    } else if cmd == "stop"@ {
        Some("stopped"@)
    } else {
        None
    }
}

/// A command that is a keypress: the press; where it was the power, the question what became of
/// it; where it was the transport, the notice.
pub open spec fn keyed(proxy: u32, cmd: Seq<char>, key: Option<Seq<char>>) -> Seq<
    host::HostCallView,
> {
    match key_for(proxy, cmd, key) {
        Err(msg) => seq![host::warned(msg)],
        Ok(pressed_key) => seq![pressed(pressed_key)] + (if is_power(cmd) {
            seq![host::sent("GET"@, "/query/device-info"@)]
        } else {
            seq![]
        }) + (match transport_after(cmd) {
            Some(state) => seq![
                host::noticed(
                    MEDIA,
                    "transport_changed"@,
                    "state"@,
                    host::ArgView::Text(state),
                ),
            ],
            None => seq![],
        }),
    }
}

/// The name that ECP has for a kind of content. It has none for a season or a short, and a series is
/// the closest thing to either. A kind that is missing or unknown counts as a film.
pub open spec fn media_type(kind: Option<Seq<char>>) -> Seq<char> {
    if kind == Some("series"@) || kind == Some("season"@) || kind == Some("short"@) {
        "series"@
    } else if kind == Some("episode"@) {
        "episode"@
    } else if kind == Some("live"@) {
        "live"@
    } else {
        "movie"@
    }
}

/// Where a channel is launched, with what to open in it where that is given.
pub open spec fn launch_url(
    id: Seq<char>,
    content: Option<Seq<char>>,
    kind: Option<Seq<char>>,
) -> Seq<char> {
    match content {
        Some(content) => "/launch/"@ + id + "?contentId="@ + content + "&mediaType="@ + media_type(
            kind,
        ),
        None => "/launch/"@ + id,
    }
}

/// The channels that are known of a box; none before it has been heard from.
pub open spec fn channels_of(inst: host::InstanceView) -> Seq<channels::Channel> {
    match inst.channels {
        Some(channels) => channels,
        None => seq![],
    }
}

/// The channel that a name means on a box.
pub open spec fn channel_for(inst: host::InstanceView, want: Seq<char>) -> Option<
    channels::Channel,
> {
    match inst.channels {
        Some(channels) => channels::meant(channels, want),
        None => None,
    }
}

/// The name that a channel goes by once it was launched: the listed one, or else as it was said.
pub open spec fn launched_name(
    inst: host::InstanceView,
    id: Seq<char>,
    want: Seq<char>,
) -> Seq<char> {
    match channels::name_of(channels_of(inst), id) {
        Some(name) => name,
        None => want,
    }
}

/// The launch of a channel: the request and the notice, and a line in the log where the box would
/// not say what it has installed.
pub open spec fn launched(inst: host::InstanceView, args: CommandArgsView) -> Seq<
    host::HostCallView,
> {
    match args.app {
        None => seq![host::warned("roku: launch_app needs an app name"@)],
        Some(want) => match channel_for(inst, want) {
            None => seq![
                host::warned(
                    "roku: no channel matching `"@ + want + "`; installed: "@ + text::joined(
                        channels::names_in(channels_of(inst)),
                        ", "@,
                    ),
                ),
            ],
            Some(channel) => {
                let name = launched_name(inst, channel.0, want);
                seq![
                    host::sent("POST"@, launch_url(channel.0, args.content_id, args.content_kind)),
                    host::noticed(MEDIA, "app_changed"@, "app"@, host::ArgView::Text(name)),
                ] + (if inst.apps_unconfirmed == Some(true) {
                    seq![
                        host::HostCallView::Log {
                            level: "info"@,
                            msg: "launched "@ + name
                                + "; this Roku would not confirm its channel list, so nothing happens if it is not installed"@,
                        },
                    ]
                } else {
                    seq![]
                })
            },
        },
    }
}

/// A switch of the screen's input: the launch of the channel that stands for it, and the notice.
pub open spec fn switched(connection: Option<u64>) -> Seq<host::HostCallView> {
    match connection {
        None => seq![host::warned("roku: set_input needs a connection"@)],
        Some(connection) => match inputs::channel_of(connection) {
            None => seq![
                host::warned("roku: no such connection "@ + text::decimal(connection as nat)),
            ],
            Some(input) => seq![
                host::sent("POST"@, "/launch/"@ + input),
                host::noticed(
                    TV,
                    "input_changed"@,
                    "connection"@,
                    host::ArgView::Number(connection),
                ),
            ],
        },
    }
}

/// What a command has the host do.
pub open spec fn commanded(
    inst: host::InstanceView,
    proxy: u32,
    cmd: Seq<char>,
    args: CommandArgsView,
) -> Seq<host::HostCallView> {
    if cmd == "open_app_launcher"@ {
        seq![pressed("Home"@)]
    } else if cmd == "launch_app"@ {
        launched(inst, args)
    } else if proxy == TV && cmd == "set_input"@ {
        switched(args.connection)
    } else {
        keyed(proxy, cmd, args.key)
    }
}

/// A press of one of the keys of the box.
pub fn keypress(key: &str) -> (r: HostCall)
    ensures
        r.deep_view() == pressed(key@),
{
    HostCall::http("POST", "/keypress/".to_owned().concat(key))
}

/// A question to the box.
pub fn get(path: &str) -> (r: HostCall)
    ensures
        r.deep_view() == host::sent("GET"@, path@),
{
    HostCall::http("GET", path.to_owned())
}

fn key_of_screen(cmd: &str) -> (r: Option<&'static str>)
    ensures
        r.deep_view() == screen_key(cmd@),
{
    if text::same(cmd, "on") {
        Some("PowerOn")
    } else if text::same(cmd, "off") {
        Some("PowerOff")
    } else if text::same(cmd, "power_toggle") {
        Some("Power")
    } else if text::same(cmd, "volume_up") {
        Some("VolumeUp")
    } else if text::same(cmd, "volume_down") {
        Some("VolumeDown")
    } else if text::same(cmd, "mute_toggle") {
        Some("VolumeMute")
    } else {
        None
    }
}

fn key_of_any(cmd: &str) -> (r: Option<&'static str>)
    ensures
        r.deep_view() == common_key(cmd@),
{
    if text::same(cmd, "play") || text::same(cmd, "pause") {
        // Roku has one toggle, not two keys.
        Some("Play")
    } else if text::same(cmd, "stop") {
        Some("Home")
    } else if text::same(cmd, "skip_forward") || text::same(cmd, "scan_forward") {
        Some("Fwd")
    } else if text::same(cmd, "skip_back") || text::same(cmd, "scan_reverse") {
        Some("Rev")
    } else if text::same(cmd, "search") {
        Some("Search")
    } else {
        None
    }
}

fn key_of_dpad(key: &str) -> (r: Option<&'static str>)
    ensures
        r.deep_view() == dpad_key(key@),
{
    if text::same(key, "up") {
        Some("Up")
    } else if text::same(key, "down") {
        Some("Down")
    } else if text::same(key, "left") {
        Some("Left")
    } else if text::same(key, "right") {
        Some("Right")
    } else if text::same(key, "select") {
        Some("Select")
    } else if text::same(key, "back") {
        Some("Back")
    } else if text::same(key, "home") || text::same(key, "menu") {
        Some("Home")
    } else if text::same(key, "info") {
        Some("Info")
    } else {
        None
    }
}

fn command_key(proxy: u32, cmd: &str, key: &Option<String>) -> (r: Result<&'static str, String>)
    ensures
        match key_for(proxy, cmd@, key.deep_view()) {
            Ok(k) => r is Ok && r->Ok_0@ == k,
            Err(msg) => r is Err && r->Err_0@ == msg,
        },
{
    if proxy == TV {
        if let Some(k) = key_of_screen(cmd) {
            return Ok(k);
        }
    }
    if let Some(k) = key_of_any(cmd) {
        return Ok(k);
    }
    if text::same(cmd, "dpad") {
        match key {
            None => Err("roku: dpad needs a key".to_owned()),
            Some(k) => match key_of_dpad(k) {
                Some(pressed) => Ok(pressed),
                None => Err("roku: no key `".to_owned().concat(k).concat("`")),
            },
        }
    } else {
        Err("roku: unhandled `".to_owned().concat(cmd).concat("`"))
    }
}

fn press(proxy: u32, cmd: &str, key: &Option<String>) -> (r: Vec<HostCall>)
    ensures
        r.deep_view() == keyed(proxy, cmd@, key.deep_view()),
{
    match command_key(proxy, cmd, key) {
        Err(msg) => one(HostCall::warn(msg)),
        Ok(k) => {
            let mut calls = one(keypress(k));
            // Having pressed it, ask what happened. It may still read the old value: a set takes
            // a moment to wake. A stale reading that the next poll corrects is the honest
            // failure; a claim that stays wrong while the set sits dark is not.
            if text::same(cmd, "on") || text::same(cmd, "off") || text::same(cmd, "power_toggle") {
                add_call(&mut calls, get("/query/device-info"));
            }
            // Report what is known to have changed. Roku does not push state, so anything not
            // stated here waits for the next poll.
            let state: Option<&str> = if text::same(cmd, "play") {
                Some("playing")
            } else if text::same(cmd, "pause") {
                Some("paused")
            } else if text::same(cmd, "stop") {
                Some("stopped")
            } else {
                None
            };
            if let Some(state) = state {
                let notice = HostCall::notify(
                    MEDIA,
                    "transport_changed",
                    "state",
                    ArgValue::Text(state.to_owned()),
                );
                add_call(&mut calls, notice);
            }
            assert(calls.deep_view() =~= keyed(proxy, cmd@, key.deep_view()));
            calls
        },
    }
}

fn content_type(kind: &Option<String>) -> (r: &'static str)
    ensures
        r@ == media_type(kind.deep_view()),
{
    match kind {
        // `season` and `short` have no name in ECP; `series` is the closest thing that it has to
        // either.
        Some(kind) => if text::same(kind, "series") || text::same(kind, "season") || text::same(
            kind,
            "short",
        ) {
            "series"
        } else if text::same(kind, "episode") {
            "episode"
        } else if text::same(kind, "live") {
            "live"
        } else {
            "movie"
        },
        // Absent means that the caller did not know, and `movie` is what Roku itself assumes for
        // a bare content id.
        None => "movie",
    }
}

fn switch(connection: Option<u64>) -> (r: Vec<HostCall>)
    ensures
        r.deep_view() == switched(connection),
{
    match connection {
        None => one(HostCall::warn("roku: set_input needs a connection".to_owned())),
        Some(connection) => match inputs::tvinput_for(connection) {
            None => one(
                HostCall::warn(
                    "roku: no such connection ".to_owned().concat(&text::to_decimal(connection)),
                ),
            ),
            Some(input) => {
                let mut calls = one(HostCall::http("POST", "/launch/".to_owned().concat(&input)));
                let notice = HostCall::notify(
                    TV,
                    "input_changed",
                    "connection",
                    ArgValue::Number(connection),
                );
                add_call(&mut calls, notice);
                assert(calls.deep_view() =~= switched(Some(connection)));
                calls
            },
        },
    }
}

impl Roku {
    /// The id of the channel that a name means on a box.
    pub fn app_id(inst: &Instance, want: &str) -> (r: Option<String>)
        ensures
            match channel_for(inst@, want@) {
                Some(channel) => r is Some && r->0@ == channel.0,
                None => r is None,
            },
    {
        match &inst.app_map {
            Some(map) => channels::app_id(map, want),
            None => None,
        }
    }

    fn launch(inst: &Instance, args: &CommandArgs) -> (r: Vec<HostCall>)
        ensures
            r.deep_view() == launched(inst@, args@),
    {
        let want = match &args.app {
            None => {
                return one(HostCall::warn("roku: launch_app needs an app name".to_owned()));
            },
            Some(want) => want,
        };
        let id = match Self::app_id(inst, want) {
            None => {
                // Saying which channels do exist turns a dead end into a retry that works.
                let known = match &inst.app_map {
                    Some(map) => channels::known_names(map),
                    None => Vec::new(),
                };
                assert(known.deep_view() =~= channels::names_in(channels_of(inst@)));
                return one(
                    HostCall::warn(
                        "roku: no channel matching `".to_owned().concat(want).concat(
                            "`; installed: ",
                        ).concat(&text::join(&known, ", ")),
                    ),
                );
            },
            Some(id) => id,
        };
        let mut url = "/launch/".to_owned().concat(&id);
        if let Some(content) = &args.content_id {
            // ECP wants to be told what the id refers to, and gets it wrong when it is not: a series
            // opened as a film opens nothing and reports nothing.
            url.append("?contentId=");
            url.append(content);
            url.append("&mediaType=");
            url.append(content_type(&args.content_kind));
        }
        let listed = match &inst.app_map {
            Some(map) => channels::channel_name(map, &id),
            None => None,
        };
        let name = match listed {
            Some(name) => name,
            None => want.clone(),
        };
        let mut calls = one(HostCall::http("POST", url));
        add_call(
            &mut calls,
            HostCall::notify(MEDIA, "app_changed", "app", ArgValue::Text(name.clone())),
        );
        // The box would not say what it has installed, so this may land on nothing. Better to
        // say so than to report success for something that did not happen.
        if let Some(true) = inst.apps_unconfirmed {
            let msg = "launched ".to_owned().concat(&name).concat(
                "; this Roku would not confirm its channel list, so nothing happens if it is not installed",
            );
            add_call(&mut calls, HostCall::Log { level: "info".to_owned(), msg });
        }
        assert(calls.deep_view() =~= launched(inst@, args@));
        calls
    }

    /// What a command has the host do.
    ///
    /// Nothing is claimed of the power: sending `PowerOn` is not evidence that a television came
    /// on. What the set answers to the question that follows is.
    pub fn command(inst: &Instance, proxy: u32, cmd: &str, args: &CommandArgs) -> (r: Vec<HostCall>)
        ensures
            r.deep_view() == commanded(inst@, proxy, cmd@, args@),
    {
        if text::same(cmd, "open_app_launcher") {
            return one(keypress("Home"));
        }
        if text::same(cmd, "launch_app") {
            return Self::launch(inst, args);
        }
        if proxy == TV && text::same(cmd, "set_input") {
            return switch(args.connection);
        }
        press(proxy, cmd, &args.key)
    }

    /// What a command has the host do, with its arguments in JSON. A command changes nothing that
    /// is known of the box.
    pub fn on_command(
        &self,
        inst: &mut Instance,
        proxy: u32,
        cmd: &str,
        args: &serde_json::Value,
    ) -> (r: Vec<HostCall>)
        ensures
            *final(inst) == *old(inst),
            r.deep_view() == commanded(old(inst)@, proxy, cmd@, args_in(json::held(*args))),
    {
        Self::command(inst, proxy, cmd, &CommandArgs::read(args))
    }
}

} // verus!

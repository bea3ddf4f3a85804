use roku::channels;
use roku::command::{get, keypress, CommandArgs};
use roku::event::well_known;
use roku::host::{base, ArgValue, HostCall, HttpRequest, Instance, MEDIA, TV};
use roku::Roku;
use serde_json::Value;

fn post(url: &str) -> HostCall {
    HostCall::Http(HttpRequest { method: "POST".to_string(), url: url.to_string() })
}

fn ask(url: &str) -> HostCall {
    HostCall::Http(HttpRequest { method: "GET".to_string(), url: url.to_string() })
}

fn notice(proxy: u32, name: &str, key: &str, value: ArgValue) -> HostCall {
    HostCall::Notify { proxy, name: name.to_string(), args: vec![(key.to_string(), value)] }
}

fn text(s: &str) -> ArgValue {
    ArgValue::Text(s.to_string())
}

fn warning(msg: &str) -> HostCall {
    HostCall::Log { level: "warn".to_string(), msg: msg.to_string() }
}

fn having(apps: &[(&str, &str)]) -> Instance {
    let apps = apps.iter().map(|(id, name)| (id.to_string(), name.to_string())).collect();
    Instance { app_map: Some(channels::channel_map(&apps)), ..Instance::default() }
}

fn said(app: &str) -> CommandArgs {
    CommandArgs { app: Some(app.to_string()), ..CommandArgs::default() }
}

fn command(proxy: u32, cmd: &str, args: &CommandArgs) -> Vec<HostCall> {
    Roku::command(&Instance::default(), proxy, cmd, args)
}

fn launched(inst: &Instance, app: &str) -> Vec<HostCall> {
    Roku::command(inst, MEDIA, "launch_app", &said(app))
}

#[test]
fn every_key_of_the_screen() {
    let keys = [
        ("volume_up", "VolumeUp"),
        ("volume_down", "VolumeDown"),
        ("mute_toggle", "VolumeMute"),
    ];
    for (cmd, key) in keys {
        let expected = vec![post(&format!("/keypress/{key}"))];
        assert_eq!(command(TV, cmd, &CommandArgs::default()), expected);
    }
    let power = [("on", "PowerOn"), ("off", "PowerOff"), ("power_toggle", "Power")];
    for (cmd, key) in power {
        let expected = vec![post(&format!("/keypress/{key}")), ask("/query/device-info")];
        assert_eq!(command(TV, cmd, &CommandArgs::default()), expected);
    }
}

#[test]
fn the_streamer_refuses_what_is_the_screens() {
    for cmd in ["on", "off", "power_toggle", "volume_up", "volume_down", "mute_toggle", "set_input"] {
        let a = CommandArgs { connection: Some(1001), ..CommandArgs::default() };
        let expected = vec![warning(&format!("roku: unhandled `{cmd}`"))];
        assert_eq!(command(MEDIA, cmd, &a), expected);
    }
}

#[test]
fn every_key_of_the_box() {
    for proxy in [MEDIA, TV, 7] {
        let keys = [
            ("skip_forward", "Fwd"),
            ("scan_forward", "Fwd"),
            ("skip_back", "Rev"),
            ("scan_reverse", "Rev"),
            ("search", "Search"),
        ];
        for (cmd, key) in keys {
            let expected = vec![post(&format!("/keypress/{key}"))];
            assert_eq!(command(proxy, cmd, &CommandArgs::default()), expected);
        }
        let transport = [
            ("play", "Play", "playing"),
            ("pause", "Play", "paused"),
            ("stop", "Home", "stopped"),
        ];
        for (cmd, key, state) in transport {
            let expected = vec![
                post(&format!("/keypress/{key}")),
                notice(MEDIA, "transport_changed", "state", text(state)),
            ];
            assert_eq!(command(proxy, cmd, &CommandArgs::default()), expected);
        }
    }
}

#[test]
fn every_key_of_the_dpad() {
    let keys = [
        ("up", "Up"),
        ("down", "Down"),
        ("left", "Left"),
        ("right", "Right"),
        ("select", "Select"),
        ("back", "Back"),
        ("home", "Home"),
        ("menu", "Home"),
        ("info", "Info"),
    ];
    for (key, pressed) in keys {
        let a = CommandArgs { key: Some(key.to_string()), ..CommandArgs::default() };
        assert_eq!(command(MEDIA, "dpad", &a), vec![post(&format!("/keypress/{pressed}"))]);
    }
    let a = CommandArgs { key: Some("jump".to_string()), ..CommandArgs::default() };
    assert_eq!(command(MEDIA, "dpad", &a), vec![warning("roku: no key `jump`")]);
    assert_eq!(
        command(MEDIA, "dpad", &CommandArgs::default()),
        vec![warning("roku: dpad needs a key")],
    );
}

#[test]
fn inputs_are_switched_by_their_connection() {
    let switched = |connection: Option<u64>| {
        command(TV, "set_input", &CommandArgs { connection, ..CommandArgs::default() })
    };
    assert_eq!(
        switched(Some(1102)),
        vec![
            post("/launch/tvinput.component"),
            notice(TV, "input_changed", "connection", ArgValue::Number(1102)),
        ],
    );
    assert_eq!(switched(Some(7)), vec![warning("roku: no such connection 7")]);
    assert_eq!(switched(None), vec![warning("roku: set_input needs a connection")]);
}

#[test]
fn channels_are_launched_by_what_people_call_them() {
    let inst = having(&[
        ("12", "Netflix"),
        ("13", "Prime Video"),
        ("291097", "Disney+"),
        ("151908", "The Roku Channel"),
    ]);
    let names = [
        ("NETFLIX", "12", "Netflix"),
        ("disney", "291097", "Disney+"),
        ("prime", "13", "Prime Video"),
        ("Disney Plus", "291097", "Disney+"),
        ("roku channel", "151908", "The Roku Channel"),
    ];
    for (want, id, name) in names {
        assert_eq!(
            launched(&inst, want),
            vec![
                post(&format!("/launch/{id}")),
                notice(MEDIA, "app_changed", "app", text(name)),
            ],
        );
        assert_eq!(Roku::app_id(&inst, want).as_deref(), Some(id));
    }
    assert_eq!(inst.apps_unconfirmed, None);
}

#[test]
fn the_better_answer_wins_and_then_the_first_id() {
    // The same name before one that begins with it, though its id comes first.
    let inst = having(&[("1", "Max Plus"), ("2", "MAX")]);
    assert_eq!(Roku::app_id(&inst, "max").as_deref(), Some("2"));
    // A beginning before an inside.
    let inst = having(&[("1", "The Max"), ("2", "Max Plus")]);
    assert_eq!(Roku::app_id(&inst, "max").as_deref(), Some("2"));
    // Ids are compared as text.
    let inst = having(&[("9", "Max Nine"), ("10", "Max Ten")]);
    assert_eq!(Roku::app_id(&inst, "max").as_deref(), Some("10"));
    // A name that is longer than the channel's.
    let inst = having(&[("1", "Hulu")]);
    assert_eq!(Roku::app_id(&inst, "open hulu please").as_deref(), Some("1"));
    assert_eq!(Roku::app_id(&inst, "netflix"), None);
    assert_eq!(Roku::app_id(&Instance::default(), "hulu"), None);
}

#[test]
fn names_are_compared_by_letters_and_numbers_in_lower_case() {
    assert_eq!(channels::normalize("Disney+ & ÖRF 2"), "disneyörf2");
    assert_eq!(channels::keep_alphanumeric("A-b_ C3"), "AbC3");
    assert_eq!(channels::rank("netflix", "netflix"), Some(0));
    assert_eq!(channels::rank("primevideo", "prime"), Some(1));
    assert_eq!(channels::rank("hulu", "hululive"), Some(1));
    assert_eq!(channels::rank("therokuchannel", "roku"), Some(2));
    assert_eq!(channels::rank("hulu", "openhuluplease"), Some(2));
    assert_eq!(channels::rank("netflix", "hulu"), None);
    let names = vec!["themax".to_string(), "maxplus".to_string(), "maxten".to_string()];
    assert_eq!(channels::best_of(&names, "max"), Some(1));
    assert_eq!(channels::best_of(&names, "hulu"), None);
}

#[test]
fn an_unknown_channel_is_answered_with_the_known_ones() {
    let inst = having(&[("837", "YouTube"), ("12", "Netflix")]);
    assert_eq!(
        launched(&inst, "Hulu"),
        vec![warning("roku: no channel matching `Hulu`; installed: Netflix, YouTube")],
    );
    assert_eq!(
        launched(&Instance::default(), "Hulu"),
        vec![warning("roku: no channel matching `Hulu`; installed: ")],
    );
    assert_eq!(
        command(MEDIA, "launch_app", &CommandArgs::default()),
        vec![warning("roku: launch_app needs an app name")],
    );
}

#[test]
fn a_channel_without_a_name_goes_by_what_was_said() {
    let mut map = channels::channel_map(&vec![]);
    map.insert("5".to_string(), Value::Bool(true));
    let inst = Instance { app_map: Some(map), ..Instance::default() };
    assert_eq!(
        launched(&inst, "Five"),
        vec![post("/launch/5"), notice(MEDIA, "app_changed", "app", text("Five"))],
    );
    assert_eq!(channels::known_names(inst.app_map.as_ref().unwrap()), Vec::<String>::new());
}

#[test]
fn content_is_named_in_the_words_of_ecp() {
    let inst = having(&[("12", "Netflix")]);
    let kinds = [
        (Some("series"), "series"),
        (Some("season"), "series"),
        (Some("episode"), "episode"),
        (Some("live"), "live"),
        (Some("movie"), "movie"),
        (Some("trailer"), "movie"),
        (Some("short"), "series"),
        (None, "movie"),
    ];
    for (kind, media_type) in kinds {
        let a = CommandArgs {
            content_id: Some("80057281".to_string()),
            content_kind: kind.map(str::to_string),
            ..said("netflix")
        };
        let calls = Roku::command(&inst, MEDIA, "launch_app", &a);
        let url = format!("/launch/12?contentId=80057281&mediaType={media_type}");
        assert_eq!(calls[0], post(&url));
    }
    // A kind without a content is nothing.
    let a = CommandArgs { content_kind: Some("live".to_string()), ..said("netflix") };
    assert_eq!(Roku::command(&inst, MEDIA, "launch_app", &a)[0], post("/launch/12"));
}

#[test]
fn a_guess_is_launched_with_a_word_of_warning() {
    let mut inst = Instance {
        app_map: Some(channels::channel_map(&well_known())),
        apps_unconfirmed: Some(true),
        ..Instance::default()
    };
    for (id, name) in well_known() {
        assert_eq!(
            launched(&inst, &name),
            vec![
                post(&format!("/launch/{id}")),
                notice(MEDIA, "app_changed", "app", text(&name)),
                HostCall::Log {
                    level: "info".to_string(),
                    msg: format!(
                        "launched {name}; this Roku would not confirm its channel list, so \
                         nothing happens if it is not installed"
                    ),
                },
            ],
        );
    }
    inst.apps_unconfirmed = Some(false);
    assert_eq!(launched(&inst, "hulu").len(), 2);
}

#[test]
fn a_map_keeps_each_id_once_in_order() {
    let apps = vec![
        ("9".to_string(), "Nine".to_string()),
        ("10".to_string(), "Ten".to_string()),
        ("9".to_string(), "Neun".to_string()),
    ];
    let map = channels::channel_map(&apps);
    assert_eq!(map.len(), 2);
    assert_eq!(channels::known_names(&map), vec!["Ten", "Neun"]);
    assert_eq!(channels::app_id(&map, "neun").as_deref(), Some("9"));
    assert_eq!(channels::app_id(&map, "nine"), None);
}

#[test]
fn a_base_needs_an_address_and_assumes_the_port() {
    let at = |address: Option<&str>, port: Option<u64>| {
        base(&Instance { address: address.map(str::to_string), port, ..Instance::default() })
    };
    assert_eq!(at(Some(" 10.0.0.5 "), None).as_deref(), Some("http://10.0.0.5:8060"));
    assert_eq!(at(Some("10.0.0.5"), Some(80)).as_deref(), Some("http://10.0.0.5:80"));
    assert_eq!(at(Some("  "), Some(80)), None);
    assert_eq!(at(None, Some(80)), None);
}

#[test]
fn requests_are_bare_paths() {
    assert_eq!(keypress("Home"), post("/keypress/Home"));
    assert_eq!(get("/query/apps"), ask("/query/apps"));
}

#[test]
fn anything_else_is_refused() {
    for proxy in [MEDIA, TV] {
        assert_eq!(
            command(proxy, "dance", &CommandArgs::default()),
            vec![warning("roku: unhandled `dance`")],
        );
    }
    assert_eq!(command(TV, "", &CommandArgs::default()), vec![warning("roku: unhandled ``")]);
}

#[test]
fn arguments_are_read_where_they_are_of_their_type() {
    let json = r#"{ "app": "Netflix", "content_id": "80057281", "content_kind": "series",
                    "connection": 1002, "key": "up", "more": [] }"#;
    let args: Value = serde_json::from_str(json).unwrap();
    assert_eq!(
        CommandArgs::read(&args),
        CommandArgs {
            app: Some("Netflix".to_string()),
            content_id: Some("80057281".to_string()),
            content_kind: Some("series".to_string()),
            connection: Some(1002),
            key: Some("up".to_string()),
        },
    );
    let json = r#"{ "app": 12, "content_id": null, "content_kind": true, "connection": -1,
                    "key": ["up"] }"#;
    let args: Value = serde_json::from_str(json).unwrap();
    assert_eq!(CommandArgs::read(&args), CommandArgs::default());
    let args: Value = serde_json::from_str(r#"{ "connection": 1002.0 }"#).unwrap();
    assert_eq!(CommandArgs::read(&args), CommandArgs::default());
    assert_eq!(CommandArgs::read(&Value::Null), CommandArgs::default());
    assert_eq!(CommandArgs::read(&Value::from("app")), CommandArgs::default());
}

#[test]
fn a_command_takes_its_arguments_in_json() {
    let mut inst = having(&[("12", "Netflix")]);
    let args: Value = serde_json::from_str(r#"{ "app": "netflix" }"#).unwrap();
    assert_eq!(
        Roku.on_command(&mut inst, MEDIA, "launch_app", &args),
        vec![post("/launch/12"), notice(MEDIA, "app_changed", "app", text("Netflix"))],
    );
    assert_eq!(
        Roku.on_command(&mut inst, MEDIA, "launch_app", &Value::Null),
        vec![warning("roku: launch_app needs an app name")],
    );
}

use roku::host::{ArgValue, Direction, HostCall, Instance, MEDIA, TV};
use roku::inputs::{connection_id, tvinput_for};
use roku::setup::{SetupInput, SetupStep};
use roku::Roku;
use serde_json::Value;

fn tv() -> Instance {
    Instance { address: Some("10.0.0.5".to_string()), ..Instance::default() }
}

fn parsed(json: &str) -> Value {
    serde_json::from_str(json).unwrap()
}

fn object(key: &str, value: Value) -> Value {
    let mut v = Value::Null;
    v[key] = value;
    v
}

fn response(text: &str) -> SetupInput {
    SetupInput::read(&object("response", Value::from(text)), None)
}

fn body(text: &str) -> Value {
    object("body", Value::from(text))
}

/// A Roku TV is added as `roku.tv`, a stick as `roku.player`, and the box is what decides.
#[test]
fn setup_offers_the_manifest_the_box_says_it_is() {
    let offered = |xml: &str| {
        let mut state =
            parsed(r#"{ "phase": "probed", "address": "10.0.0.5", "checked_control": true }"#);
        state["info"] = Value::from(xml);
        match Roku.setup("roku.player", &state, response(xml)).0 {
            SetupStep::Choose { options, .. } => options[0].driver_id.clone(),
            other => panic!("expected a choice, got {other:?}"),
        }
    };

    // Recorded from a real set at 192.168.1.157.
    assert_eq!(
        offered(
            r#"<device-info><vendor-name>Hisense</vendor-name><model-name>40H4030</model-name>
               <is-tv>true</is-tv><is-stick>false</is-stick>
               <friendly-device-name>40" Hisense Roku TV</friendly-device-name></device-info>"#,
        ),
        "roku.tv",
    );

    // A stick. Same protocol, no panel attached to it.
    assert_eq!(
        offered(
            r#"<device-info><vendor-name>Roku</vendor-name><model-name>Streaming Stick 4K</model-name>
               <is-tv>false</is-tv><is-stick>true</is-stick></device-info>"#,
        ),
        "roku.player",
    );
}

/// Power is what the set says it is, never what it was told to be.
#[test]
fn power_comes_from_the_set_rather_than_from_having_asked() {
    let driver = Roku;

    // Turning it on says nothing about power.
    let calls = driver.on_command(&mut tv(), TV, "on", &Value::Null);
    assert!(
        !calls.iter().any(|c| matches!(c, HostCall::Notify { name, .. } if name == "power_changed")),
        "the command is not the answer: {calls:?}",
    );

    // The set saying where it stands is.
    let reading = |xml: &str| {
        match driver.on_event(&mut tv(), 0, "http_response", &body(xml)).as_slice() {
            [HostCall::Notify { proxy, name, args }] if name == "power_changed" => {
                assert_eq!(*proxy, TV, "the screen's power, not the streamer's");
                match args.as_slice() {
                    [(key, ArgValue::Bool(on))] if key == "on" => Some(*on),
                    _ => None,
                }
            }
            other => panic!("expected one power_changed, got {other:?}"),
        }
    };
    assert_eq!(reading("<device-info><power-mode>PowerOn</power-mode></device-info>"), Some(true));
    assert_eq!(reading("<device-info><power-mode>Ready</power-mode></device-info>"), Some(false));
    // A player with its output asleep is not a television that is on.
    assert_eq!(
        reading("<device-info><power-mode>DisplayOff</power-mode></device-info>"),
        Some(false),
    );

    // And pressing power asks what it did.
    let calls = driver.on_command(&mut tv(), TV, "on", &Value::Null);
    assert!(
        calls.iter().any(|c| matches!(c, HostCall::Http(r) if r.url.contains("device-info"))),
        "asked, then asked what happened: {calls:?}",
    );

    // And every bind asks, because a poll is a bind.
    let calls = driver.on_bind(&mut tv());
    assert!(
        calls.iter().any(|c| matches!(c, HostCall::Http(r) if r.url.contains("device-info"))),
        "nothing else would ever ask: {calls:?}",
    );
}

/// Pressing a Roku among the results of a search adds it, without asking twice more.
#[test]
fn a_roku_pressed_in_discovery_is_not_offered_back_as_a_list_of_one() {
    let seed = parsed(
        r#"{ "ssdp_candidates": [{ "address": "192.168.1.157", "usn": "uuid:roku:ecp:X" }] }"#,
    );
    let (step, state) = Roku.discover("roku.player", &seed, SetupInput::default());
    let SetupStep::Fetch { request, .. } = step else {
        panic!("straight to the probe, not a list: {step:?}");
    };
    assert!(request.url.ends_with("/query/device-info"), "{}", request.url);

    // The set answers, and it is added — no `Choose` in between.
    let probed = response(
        r#"<device-info><is-tv>true</is-tv><model-name>40H4030</model-name>
           <user-device-name>40" Hisense Roku TV</user-device-name>
           <power-mode>PowerOn</power-mode></device-info>"#,
    );
    // One more request in between: reachable is not the same as controllable.
    let (step, state) = Roku.setup("roku.player", &state, probed);
    assert!(matches!(step, SetupStep::Fetch { .. }), "the control check: {step:?}");

    let apps = response(r#"<apps><app id="12">Netflix</app></apps>"#);
    let (step, _) = Roku.setup("roku.player", &state, apps);
    let SetupStep::Done { devices, .. } = step else {
        panic!("added, not offered back to be confirmed: {step:?}");
    };
    assert_eq!(devices.len(), 1);
    assert_eq!(devices[0].driver_id, "roku.tv", "the box said it has a screen");
    assert_eq!(devices[0].label, "40\" Hisense Roku TV");
}

/// A search that turned up several is a real question, and still gets asked.
#[test]
fn several_rokus_are_still_offered_as_a_list() {
    let seed = parsed(
        r#"{ "ssdp_candidates": [{ "address": "192.168.1.157" }, { "address": "192.168.1.158" }] }"#,
    );
    let (step, _) = Roku.discover("roku.player", &seed, SetupInput::default());
    assert!(
        matches!(step, SetupStep::Fetch { ref request, .. } if request.url.contains("device-info"))
            || matches!(step, SetupStep::Pick { .. }),
        "two boxes is a choice: {step:?}",
    );
}

/// The connection id is not the HDMI number.
#[test]
fn set_input_maps_the_connection_id_to_the_channel_id() {
    let driver = Roku;
    let mut inst = tv();
    let a = object("connection", Value::from(1002u64));
    let calls = driver.on_command(&mut inst, TV, "set_input", &a);
    let [HostCall::Http(req), HostCall::Notify { proxy, name, .. }] = calls.as_slice() else {
        panic!("expected a launch and a notify from the screen, got {calls:?}");
    };
    assert_eq!(*proxy, TV);
    assert_eq!(name, "input_changed");
    assert_eq!(req.url, "/launch/tvinput.hdmi2");
}

/// Volume and power belong to the panel.
#[test]
fn the_screens_keys_are_the_screens() {
    let calls = Roku.on_command(&mut tv(), TV, "volume_up", &Value::Null);
    let [HostCall::Http(req)] = calls.as_slice() else {
        panic!("expected one keypress, got {calls:?}");
    };
    assert_eq!(req.url, "/keypress/VolumeUp");

    let calls = Roku.on_command(&mut tv(), MEDIA, "volume_up", &Value::Null);
    assert!(
        matches!(calls.as_slice(), [HostCall::Log { level, .. }] if level == "warn"),
        "a streamer has no volume of its own — got {calls:?}",
    );
}

#[test]
fn the_app_launcher_uses_rokus_home_key() {
    let calls = Roku.on_command(&mut tv(), MEDIA, "open_app_launcher", &Value::Null);
    let [HostCall::Http(req)] = calls.as_slice() else {
        panic!("expected one keypress, got {calls:?}");
    };
    assert_eq!(req.method, "POST");
    assert_eq!(req.url, "/keypress/Home");
}

#[test]
fn set_input_refuses_a_connection_no_roku_has() {
    let driver = Roku;
    let mut inst = tv();
    let a = object("connection", Value::from(7u64));
    let calls = driver.on_command(&mut inst, TV, "set_input", &a);
    assert!(matches!(calls.as_slice(), [HostCall::Log { level, .. }] if level == "warn"));
}

/// A Roku TV lists its inputs among its channels, so the set itself says how many HDMI ports it
/// has.
#[test]
fn the_channel_list_reports_the_sets_real_inputs() {
    let driver = Roku;
    let mut inst = tv();
    let xml = r#"<apps>
        <app id="12">Netflix</app>
        <app id="tvinput.hdmi1">HDMI 1</app>
        <app id="tvinput.hdmi2">HDMI 2</app>
        <app id="tvinput.hdmi3">HDMI 3</app>
        <app id="tvinput.tuner">Antenna TV</app>
        <app id="837">YouTube</app>
    </apps>"#;
    let calls = driver.on_event(&mut inst, 0, "http_response", &body(xml));
    let Some(connections) = calls.iter().find_map(|c| match c {
        HostCall::Connections { connections } => Some(connections.clone()),
        _ => None,
    }) else {
        panic!("expected connections, got {calls:?}");
    };

    let ids: Vec<u32> = connections.iter().map(|c| c.id).collect();
    assert_eq!(ids, vec![1001, 1002, 1003, 1201]);
    assert!(!ids.contains(&1004), "this set has three HDMI ports");
    assert!(
        connections.iter().all(|c| c.dir == Direction::Consumer && c.proxy == Some(TV)),
        "the screen's jacks, not the streamer's"
    );
    assert_eq!(connections.iter().find(|c| c.id == 1201).unwrap().class, "RF_UHF_VHF");
    // Channels are not jacks.
    assert_eq!(connections.len(), 4);
}

/// A player has no inputs and lists none. An empty list would claim it has none rather than that
/// it never said.
#[test]
fn a_player_reports_no_connections_at_all() {
    let driver = Roku;
    let mut inst = tv();
    let xml = r#"<apps><app id="12">Netflix</app></apps>"#;
    let calls = driver.on_event(&mut inst, 0, "http_response", &body(xml));
    assert!(
        !calls.iter().any(|c| matches!(c, HostCall::Connections { .. })),
        "got {calls:?}"
    );
}

#[test]
fn ids_round_trip_between_the_channel_id_and_the_connection() {
    assert_eq!(connection_id("tvinput.hdmi3"), Some(1003));
    assert_eq!(tvinput_for(1003).as_deref(), Some("tvinput.hdmi3"));
    assert_eq!(connection_id("12"), None, "Netflix is not a jack");
}

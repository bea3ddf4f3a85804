use roku::event::LIMITED_MODE;
use roku::host::ArgValue;
use roku::setup::{Candidate, Responder, SetupInput, SetupState, SetupStep};
use roku::Roku;
use serde_json::Value;

const STICK: &str = "<device-info><model-name>Stick</model-name></device-info>";
const TELEVISION: &str = "<device-info><is-tv>true</is-tv><model-name>40H4030</model-name>\
                          <user-device-name>Den</user-device-name>\
                          <power-mode>Ready</power-mode></device-info>";
const REFUSED: &str = "ECP command not allowed in Limited mode.";
const LISTED: &str = "<apps><app id=\"12\">Netflix</app></apps>";

fn nobody() -> Responder {
    Responder {
        address: None,
        server: None,
        usn: None,
        friendly: None,
        model: None,
        is_tv: None,
        rest: None,
    }
}

fn found(address: &str) -> Responder {
    Responder { address: Some(address.to_string()), ..nobody() }
}

fn searched(all: Vec<Responder>) -> SetupState {
    SetupState { ssdp_candidates: Some(all), ..SetupState::default() }
}

fn phase(name: &str) -> SetupState {
    SetupState { phase: Some(name.to_string()), ..SetupState::default() }
}

fn response(text: &str) -> SetupInput {
    SetupInput { response: Some(text.to_string()), ..SetupInput::default() }
}

fn typed(address: &str) -> SetupInput {
    SetupInput { address: Some(address.to_string()), ..SetupInput::default() }
}

fn step(state: SetupState, input: SetupInput) -> (SetupStep, SetupState) {
    Roku.flow(state, input)
}

fn asks(step: &SetupStep, address: &str, path: &str, said: &str) {
    let SetupStep::Fetch { request, note } = step else {
        panic!("expected a question, got {step:?}");
    };
    assert_eq!(request.method, "GET");
    assert_eq!(request.url, format!("http://{address}:8060{path}"));
    assert_eq!(note, said);
}

fn probes(step: &SetupStep, address: &str) {
    asks(step, address, "/query/device-info", "asking the Roku what it is");
}

fn checks(step: &SetupStep, address: &str) {
    asks(step, address, "/query/apps", "checking external control");
}

fn device(label: &str, kind: &str, driver_id: &str, address: &str, verified: &str) -> Candidate {
    Candidate {
        label: label.to_string(),
        kind: kind.to_string(),
        driver_id: driver_id.to_string(),
        properties: vec![
            ("Address".to_string(), ArgValue::Text(address.to_string())),
            ("Port".to_string(), ArgValue::Number(8060)),
        ],
        verified: verified.to_string(),
        rest: None,
    }
}

#[test]
fn nothing_found_asks_for_an_address() {
    for state in [SetupState::default(), searched(vec![]), phase("probe")] {
        let (form, next) = step(state, SetupInput::default());
        let SetupStep::Form { title, body, fields } = form else {
            panic!("expected a form, got {form:?}");
        };
        assert_eq!(title, "Find your Roku");
        assert_eq!(
            body,
            "Nothing answered on the network, so enter its address — on the device, Settings → \
             Network → About. Nothing needs enabling first; a Roku answers by default unless \
             someone has turned off external control.",
        );
        assert_eq!(fields.len(), 1);
        assert_eq!(fields[0].name, "address");
        assert_eq!(fields[0].label, "Address");
        assert_eq!(fields[0].kind, "string");
        assert_eq!(fields[0].help, "for example 192.168.1.60");
        assert_eq!(fields[0].default, None);
        assert!(fields[0].options.is_empty() && fields[0].required);
        assert_eq!(next, phase("probe"));
    }
}

#[test]
fn a_typed_address_is_probed_and_confirmed() {
    let (probe, state) = step(phase("probe"), typed(" 10.0.0.5:8060 "));
    probes(&probe, "10.0.0.5");
    let (check, state) = step(state, response(STICK));
    checks(&check, "10.0.0.5");
    let (offer, state) = step(state, response(LISTED));
    let stick = device("Stick", "Stick", "roku.player", "10.0.0.5", "answered ECP, power unknown");
    assert_eq!(
        offer,
        SetupStep::Choose {
            title: "Found Stick".to_string(),
            body: "This is a Roku player, so it offers the streamer only. It has no volume or \
                   inputs of its own."
                .to_string(),
            options: vec![stick.clone()],
            multiple: false,
        },
    );
    assert_eq!(
        state,
        SetupState { address: Some("10.0.0.5".to_string()), ..phase("chosen") },
    );
    let chosen = SetupInput { chosen: Some(vec![stick.clone()]), ..SetupInput::default() };
    let (end, state) = step(state, chosen);
    assert_eq!(end, SetupStep::Done { devices: vec![stick] });
    assert_eq!(state, SetupState::default());
}

#[test]
fn a_television_is_offered_as_one() {
    let state = SetupState {
        address: Some("10.0.0.5".to_string()),
        info: Some(TELEVISION.to_string()),
        checked_control: Some(true),
        ..phase("probed")
    };
    let (offer, _) = step(state, response(LISTED));
    assert_eq!(
        offer,
        SetupStep::Choose {
            title: "Found Den".to_string(),
            body: "This is a Roku TV, so it is added as a streamer and a screen together — volume, \
                   power, and the inputs the set actually reports having, on one device."
                .to_string(),
            options: vec![device(
                "Den",
                "40H4030",
                "roku.tv",
                "10.0.0.5",
                "answered ECP, power Ready",
            )],
            multiple: false,
        },
    );
}

#[test]
fn the_type_of_the_device_counts_too() {
    let state = SetupState {
        address: Some("10.0.0.5".to_string()),
        info: Some("<device-info><device-type>tv</device-type></device-info>".to_string()),
        checked_control: Some(true),
        chosen: Some(true),
        ..phase("probed")
    };
    let (end, _) = step(state, SetupInput::default());
    assert_eq!(
        end,
        SetupStep::Done {
            devices: vec![device(
                "Roku",
                "Roku",
                "roku.tv",
                "10.0.0.5",
                "answered ECP, power unknown",
            )],
        },
    );
}

#[test]
fn a_pressed_box_in_limited_control_is_added_after_one_notice() {
    for still_refused in [true, false] {
        let (probe, state) = step(searched(vec![found(" 10.0.0.5:8060")]), SetupInput::default());
        probes(&probe, "10.0.0.5");
        let (check, state) = step(state, response(TELEVISION));
        checks(&check, "10.0.0.5");
        let (notice, state) = step(state, response(REFUSED));
        assert_eq!(
            notice,
            SetupStep::Instruct {
                title: "Den is set to Limited control".to_string(),
                body: format!(
                    "{LIMITED_MODE}\n\nYou can add it either way — it will still launch channels \
                     and take volume. Only the list of what is installed is refused."
                ),
                continue_label: "Check again".to_string(),
            },
        );
        let (probe, state) = step(state, SetupInput::default());
        probes(&probe, "10.0.0.5");
        let (check, state) = step(state, response(TELEVISION));
        checks(&check, "10.0.0.5");
        let (last, verified) = if still_refused {
            (
                REFUSED,
                "answered ECP, power Ready — set to Limited control, so its channel list is a guess",
            )
        } else {
            (LISTED, "answered ECP, power Ready")
        };
        let (end, state) = step(state, response(last));
        assert_eq!(
            end,
            SetupStep::Done {
                devices: vec![device("Den", "40H4030", "roku.tv", "10.0.0.5", verified)],
            },
        );
        assert_eq!(state, SetupState::default());
    }
}

#[test]
fn what_does_not_answer_as_a_roku_fails() {
    for input in [response("<html>"), SetupInput::default()] {
        let state = SetupState { address: Some("10.0.0.9".to_string()), ..phase("probed") };
        let (failed, next) = step(state, input);
        assert_eq!(
            failed,
            SetupStep::Failed {
                reason: "10.0.0.9 did not answer as a Roku. Check the address under Settings → \
                         Network → About."
                    .to_string(),
            },
        );
        assert_eq!(next, SetupState::default());
    }
}

#[test]
fn an_unknown_phase_fails() {
    let (failed, next) = step(phase("paired"), SetupInput::default());
    assert_eq!(
        failed,
        SetupStep::Failed { reason: "unknown setup phase `paired`".to_string() },
    );
    assert_eq!(next, SetupState::default());
}

#[test]
fn nothing_chosen_adds_nothing() {
    let (end, next) = step(phase("chosen"), SetupInput::default());
    assert_eq!(end, SetupStep::Done { devices: vec![] });
    assert_eq!(next, SetupState::default());
}

#[test]
fn responders_are_named_one_by_one_and_then_listed() {
    let mut first = found("10.0.0.5");
    first.server = Some("Roku/12.5.5 UPnP/1.0 Roku/12.5.5".to_string());
    first.usn = Some("uuid:roku:ecp:YK001".to_string());
    first.rest = Some(Value::Bool(true));
    let mut second = found("10.0.0.6");
    second.server = Some("Roku/15.2.4 UPnP/1.0".to_string());
    let third = found("10.0.0.7");
    let seed = SetupState {
        rest: Some(Value::Bool(false)),
        ..searched(vec![first, second, third])
    };

    let (ask, state) = step(seed, SetupInput::default());
    asks(&ask, "10.0.0.5", "/query/device-info", "asking 10.0.0.5 what it is called");
    assert_eq!(state.enrich_at, Some(1));
    assert_eq!(state.phase.as_deref(), Some("naming"));
    assert_eq!(state.rest, Some(Value::Bool(false)));

    let (ask, state) = step(
        state,
        response(
            "<device-info><user-device-name>Den</user-device-name><is-tv>true</is-tv>\
             <model-name>100012587</model-name>\
             <friendly-model-name>onn•Roku TV</friendly-model-name></device-info>",
        ),
    );
    asks(&ask, "10.0.0.6", "/query/device-info", "asking 10.0.0.6 what it is called");
    let named = &state.ssdp_candidates.as_ref().unwrap()[0];
    assert_eq!(named.friendly.as_deref(), Some("Den"));
    assert_eq!(named.is_tv, Some(true));
    assert_eq!(named.model.as_deref(), Some("onn•Roku TV"));
    assert_eq!(named.rest, Some(Value::Bool(true)));

    // One that would not say keeps the start of what its server calls itself.
    let (ask, state) = step(state, SetupInput::default());
    asks(&ask, "10.0.0.7", "/query/device-info", "asking 10.0.0.7 what it is called");
    assert_eq!(state.enrich_at, Some(3));

    // One without a name of its own goes by the next best.
    let (pick, state) = step(
        state,
        response(
            "<device-info><user-device-name></user-device-name>\
             <friendly-device-name>Attic</friendly-device-name></device-info>",
        ),
    );
    let SetupStep::Pick { title, body, columns, rows, field, manual } = pick else {
        panic!("expected a list, got {pick:?}");
    };
    assert_eq!(title, "Found 3 Roku devices");
    assert_eq!(
        body,
        "Pick one. Its model decides whether it offers a screen as well as apps — a TV does, a \
         stick does not.",
    );
    assert_eq!(columns, vec!["Name", "Model", "Address"]);
    assert_eq!(field, "address");
    assert_eq!(manual.unwrap().name, "address");
    assert_eq!(rows.len(), 3);
    assert_eq!(rows[0].value, "10.0.0.5");
    assert_eq!(rows[0].cells, vec!["Den", "onn•Roku TV", "10.0.0.5"]);
    assert_eq!(rows[0].note, "serial YK001");
    assert_eq!(rows[1].cells, vec!["Roku/15.2.4", "Roku", "10.0.0.6"]);
    assert_eq!(rows[1].note, "");
    assert_eq!(rows[2].cells, vec!["Attic", "Roku", "10.0.0.7"]);
    assert_eq!(state, phase("probe"));
}

#[test]
fn a_list_may_leave_some_out() {
    let mut tv = found("10.0.0.5");
    tv.is_tv = Some(true);
    tv.server = Some("  ".to_string());
    let (pick, _) = step(searched(vec![nobody(), tv]), SetupInput::default());
    let SetupStep::Pick { title, rows, .. } = pick else {
        panic!("expected a list, got {pick:?}");
    };
    assert_eq!(title, "Found 1 Roku device");
    assert_eq!(rows[0].cells, vec!["Roku", "Roku TV", "10.0.0.5"]);
}

#[test]
fn an_only_responder_without_an_address_is_not_pressed() {
    assert_eq!(Roku::the_only_candidate(&searched(vec![nobody()])), None);
    assert_eq!(Roku::the_only_candidate(&searched(vec![found("  ")])), None);
    assert_eq!(Roku::the_only_candidate(&searched(vec![found("a"), found("b")])), None);
    assert_eq!(Roku::the_only_candidate(&SetupState::default()), None);
    assert_eq!(
        Roku::the_only_candidate(&searched(vec![found("10.0.0.5:8060")])).as_deref(),
        Some("10.0.0.5"),
    );
    let (pick, _) = step(searched(vec![nobody()]), SetupInput::default());
    assert!(matches!(pick, SetupStep::Pick { rows, .. } if rows.is_empty()));
}

#[test]
fn the_address_of_the_state_comes_first() {
    let state = SetupState { address: Some("10.0.0.5".to_string()), ..phase("probe") };
    let (probe, next) = step(state, typed("10.0.0.6"));
    probes(&probe, "10.0.0.5");
    assert_eq!(next.address.as_deref(), Some("10.0.0.5"));
    assert_eq!((next.nagged, next.chosen), (Some(false), Some(false)));
}

fn parsed(json: &str) -> Value {
    serde_json::from_str(json).unwrap()
}

#[test]
fn the_two_ways_into_a_setup_are_one() {
    let seed = parsed(r#"{ "ssdp_candidates": [{ "address": "10.0.0.5" }] }"#);
    assert_eq!(
        Roku.discover("roku.tv", &seed, SetupInput::default()),
        Roku.setup("roku.player", &seed, SetupInput::default()),
    );
}

#[test]
fn a_state_is_written_as_it_was_read() {
    let states = [
        "null",
        "\"a state\"",
        "{}",
        r#"{ "phase": 7, "address": null, "enrich_at": -1, "nagged": "yes", "other": [1, {}] }"#,
        r#"{ "phase": "naming", "address": "10.0.0.5", "enrich_at": 2, "info": "<x>",
             "checked_control": true, "nagged": false, "chosen": true, "other": 2.5,
             "ssdp_candidates": ["odd", null, 3, { "address": 7, "friendly": "Den" },
                { "address": "a", "server": "s", "usn": "u", "friendly": "f", "model": "m",
                  "is_tv": false, "headers": { "st": "roku:ecp" } }] }"#,
    ];
    for json in states {
        assert_eq!(SetupState::read(&parsed(json)).write(), parsed(json));
    }
    assert_eq!(SetupState::default().write(), Value::Null);
}

#[test]
fn what_came_with_the_responders_is_carried_while_they_are_named() {
    let seed = parsed(
        r#"{ "ssdp_candidates": [{ "address": "10.0.0.5", "headers": [1] }, { "address": "10.0.0.6" }],
             "seed": "kept" }"#,
    );
    let (_, state) = Roku.setup("roku.player", &seed, SetupInput::default());
    assert_eq!(
        state,
        parsed(
            r#"{ "ssdp_candidates": [{ "address": "10.0.0.5", "headers": [1] },
                                     { "address": "10.0.0.6" }],
                 "seed": "kept", "phase": "naming", "enrich_at": 1 }"#,
        ),
    );
    let (_, state) = Roku.setup("roku.player", &state, response(TELEVISION));
    assert_eq!(
        state,
        parsed(
            r#"{ "ssdp_candidates": [{ "address": "10.0.0.5", "headers": [1], "friendly": "Den",
                                       "model": "40H4030", "is_tv": true },
                                     { "address": "10.0.0.6" }],
                 "seed": "kept", "phase": "naming", "enrich_at": 2 }"#,
        ),
    );
    let (_, state) = Roku.setup("roku.player", &state, SetupInput::default());
    assert_eq!(state, parsed(r#"{ "phase": "probe" }"#));
}

#[test]
fn every_step_writes_what_the_next_one_needs() {
    let seed = parsed(r#"{ "ssdp_candidates": [{ "address": "10.0.0.5" }], "seed": "dropped" }"#);
    let (_, state) = Roku.setup("roku.player", &seed, SetupInput::default());
    assert_eq!(
        state,
        parsed(r#"{ "phase": "probed", "address": "10.0.0.5", "chosen": true }"#),
    );
    let (_, state) = Roku.setup("roku.player", &state, response(STICK));
    assert_eq!(
        state,
        parsed(
            r#"{ "phase": "probed", "address": "10.0.0.5", "checked_control": true,
                 "info": "<device-info><model-name>Stick</model-name></device-info>",
                 "nagged": false, "chosen": true }"#,
        ),
    );
    let (_, state) = Roku.setup("roku.player", &state, response(REFUSED));
    assert_eq!(
        state,
        parsed(r#"{ "phase": "probe", "address": "10.0.0.5", "nagged": true, "chosen": true }"#),
    );
    let (_, state) = Roku.setup("roku.player", &state, SetupInput::default());
    assert_eq!(
        state,
        parsed(r#"{ "phase": "probed", "address": "10.0.0.5", "nagged": true, "chosen": true }"#),
    );
    let (_, state) = Roku.setup("roku.player", &state, response(STICK));
    let (end, state) = Roku.setup("roku.player", &state, response(REFUSED));
    assert!(matches!(end, SetupStep::Done { .. }), "added: {end:?}");
    assert_eq!(state, Value::Null);
}

#[test]
fn what_a_step_came_back_with_is_read() {
    let args = parsed(r#"{ "address": "10.0.0.5", "response": "<x>", "chosen": "ignored" }"#);
    assert_eq!(
        SetupInput::read(&args, None),
        SetupInput {
            address: Some("10.0.0.5".to_string()),
            response: Some("<x>".to_string()),
            chosen: None,
        },
    );
    assert_eq!(SetupInput::read(&Value::Null, None), SetupInput::default());
}

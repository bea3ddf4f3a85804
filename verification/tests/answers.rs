use roku::channels;
use roku::event::LIMITED_MODE;
use roku::host::{ArgValue, ConnectionDecl, Direction, HostCall, HttpRequest, Instance, MEDIA, TV};
use roku::Roku;
use serde_json::Value;

fn at(address: &str) -> Instance {
    Instance { address: Some(address.to_string()), ..Instance::default() }
}

fn texts(all: &[&str]) -> ArgValue {
    ArgValue::Texts(all.iter().map(|s| s.to_string()).collect())
}

fn answer(inst: &mut Instance, body: &str) -> Vec<HostCall> {
    let mut args = Value::Null;
    args["body"] = Value::from(body);
    Roku.on_event(inst, 0, "http_response", &args)
}

fn known(inst: &Instance) -> Vec<String> {
    channels::known_names(inst.app_map.as_ref().unwrap())
}

#[test]
fn a_list_is_kept_and_told_with_its_artwork() {
    let mut inst = at("10.0.0.5");
    let calls = answer(
        &mut inst,
        r#"<apps><app id="837">YouTube</app><app id="tvinput.hdmi2">Game &amp; Play</app>
           <app id="12">Netflix</app></apps>"#,
    );
    assert_eq!(
        calls,
        vec![
            HostCall::Notify {
                proxy: MEDIA,
                name: "apps_changed".to_string(),
                args: vec![
                    ("apps".to_string(), texts(&["YouTube", "Game & Play", "Netflix"])),
                    (
                        "app_icons".to_string(),
                        texts(&[
                            "http://10.0.0.5:8060/query/icon/837",
                            "",
                            "http://10.0.0.5:8060/query/icon/12",
                        ]),
                    ),
                ],
            },
            HostCall::Connections {
                connections: vec![ConnectionDecl {
                    id: 1002,
                    proxy: Some(TV),
                    dir: Direction::Consumer,
                    class: "HDMI".to_string(),
                    name: "Game & Play".to_string(),
                }],
            },
        ],
    );
    assert_eq!(known(&inst), vec!["Netflix", "YouTube", "Game & Play"]);
    assert_eq!(inst.apps_unconfirmed, None);
    // What was listed can be launched.
    assert_eq!(Roku::app_id(&inst, "youtube").as_deref(), Some("837"));
}

#[test]
fn without_an_address_there_is_no_artwork() {
    let mut inst = Instance::default();
    let calls = answer(&mut inst, r#"<apps><app id="12">Netflix</app></apps>"#);
    let [HostCall::Notify { args, .. }] = calls.as_slice() else {
        panic!("expected one notice, got {calls:?}");
    };
    assert_eq!(args[1], ("app_icons".to_string(), texts(&[""])));
}

#[test]
fn an_empty_list_is_no_list() {
    let mut inst = at("10.0.0.5");
    answer(&mut inst, r#"<apps><app id="12">Netflix</app></apps>"#);
    assert_eq!(answer(&mut inst, "<apps></apps>"), vec![]);
    assert_eq!(known(&inst), vec!["Netflix"]);
}

#[test]
fn a_refusal_leaves_the_well_known_channels() {
    let mut inst = at("10.0.0.5");
    let calls = answer(&mut inst, "ECP command not allowed in Limited mode.");
    assert_eq!(
        calls,
        vec![
            HostCall::Log { level: "warn".to_string(), msg: LIMITED_MODE.to_string() },
            HostCall::Notify {
                proxy: MEDIA,
                name: "apps_changed".to_string(),
                args: vec![(
                    "apps".to_string(),
                    texts(&[
                        "Netflix",
                        "YouTube",
                        "Prime Video",
                        "Disney+",
                        "Max",
                        "The Roku Channel",
                        "Hulu",
                    ]),
                )],
            },
        ],
    );
    assert_eq!(inst.apps_unconfirmed, Some(true));
    assert_eq!(Roku::app_id(&inst, "disney").as_deref(), Some("291097"));
    assert_eq!(Roku::app_id(&inst, "prime").as_deref(), Some("13"));
    assert_eq!(inst.address.as_deref(), Some("10.0.0.5"));
}

#[test]
fn the_notice_on_limited_control_reads_as_one_line() {
    assert_eq!(
        LIMITED_MODE,
        "This Roku is set to Limited control, so it will not list or launch channels. On the \
         device: Settings → System → Advanced system settings → Control by mobile apps → Network \
         access, and choose Default or Permissive. Older models call it Settings → System → \
         Screen mirroring → Control by mobile apps.",
    );
}

#[test]
fn power_is_read_whatever_its_case() {
    let power = |mode: &str| {
        let body = format!("<device-info><power-mode> {mode} </power-mode></device-info>");
        answer(&mut Instance::default(), &body)
    };
    let on = |on: bool| {
        vec![HostCall::Notify {
            proxy: TV,
            name: "power_changed".to_string(),
            args: vec![("on".to_string(), ArgValue::Bool(on))],
        }]
    };
    assert_eq!(power("poweron"), on(true));
    assert_eq!(power("Headless"), on(false));
    assert_eq!(power(""), on(false));
    assert_eq!(answer(&mut Instance::default(), "<device-info></device-info>"), vec![]);
}

#[test]
fn what_is_playing_is_not_what_is_installed() {
    let mut inst = at("10.0.0.5");
    answer(&mut inst, r#"<apps><app id="12">Netflix</app><app id="13">Prime Video</app></apps>"#);
    let calls = answer(
        &mut inst,
        r#"<active-app><apps><app id="12">Netflix</app><app id="9">Other</app></apps></active-app>"#,
    );
    assert_eq!(
        calls,
        vec![HostCall::Notify {
            proxy: MEDIA,
            name: "app_changed".to_string(),
            args: vec![("app".to_string(), ArgValue::Text("Netflix".to_string()))],
        }],
    );
    assert_eq!(known(&inst), vec!["Netflix", "Prime Video"]);
    // The home screen is no channel.
    assert_eq!(answer(&mut inst, "<active-app><app>Roku</app></active-app>"), vec![]);
}

#[test]
fn only_answers_are_heard() {
    let mut inst = at("10.0.0.5");
    let list = r#"<apps><app id="12">Netflix</app></apps>"#;
    let mut args = Value::Null;
    args["body"] = Value::from(list);
    assert_eq!(Roku.on_event(&mut inst, 0, "timer", &args), vec![]);
    assert_eq!(Roku.on_event(&mut inst, 0, "http_response", &Value::Null), vec![]);
    args["body"] = Value::from(12);
    assert_eq!(Roku.on_event(&mut inst, 0, "http_response", &args), vec![]);
    assert_eq!(answer(&mut inst, "404"), vec![]);
    assert_eq!(answer(&mut inst, ""), vec![]);
    assert!(inst.app_map.is_none());
}

#[test]
fn a_bind_says_it_is_there_and_asks_for_the_rest() {
    let ask = |url: &str| {
        HostCall::Http(HttpRequest { method: "GET".to_string(), url: url.to_string() })
    };
    assert_eq!(
        Roku.on_bind(&mut Instance::default()),
        vec![
            HostCall::Notify {
                proxy: MEDIA,
                name: "online_changed".to_string(),
                args: vec![("online".to_string(), ArgValue::Bool(true))],
            },
            ask("/query/device-info"),
            ask("/query/apps"),
            ask("/query/active-app"),
        ],
    );
}

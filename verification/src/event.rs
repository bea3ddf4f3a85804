//! Answers: what the box says of itself, and what the house is told of it.
use vstd::prelude::*;

use crate::channels;
use crate::command;
use crate::host;
use crate::host::{add_call, none, one, ArgValue, ConnectionDecl, Direction, HostCall, Instance, MEDIA, TV};
use crate::inputs;
use crate::json;
use crate::text;
use crate::xml;
use crate::Roku;

verus! {

/// What to change, and where. Roku buries this three menus deep and the wording differs by model,
/// so both the old and the new label are named rather than sending someone hunting.
pub const LIMITED_MODE: &'static str = "This Roku is set to Limited control, so it will not list or launch channels. On the \
     device: Settings → System → Advanced system settings → Control by mobile apps → \
     Network access, and choose Default or Permissive. Older models call it \
     Settings → System → Screen mirroring → Control by mobile apps.";

/// The words in which a box refuses.
pub const REFUSAL: &'static str = "not allowed in Limited mode";

/// Roku's well-known channels, by their long-stable ids.
///
/// A box set to Limited control refuses to list what it has but still launches it, so without
/// these nothing could be launched at all. Whatever is not installed simply does nothing when
/// launched, which is why they count as unconfirmed.
pub open spec fn well_known_apps() -> Seq<(Seq<char>, Seq<char>)> {
    seq![
        ("12"@, "Netflix"@),
        ("837"@, "YouTube"@),
        ("13"@, "Prime Video"@),
        ("291097"@, "Disney+"@),
        ("61322"@, "Max"@),
        ("151908"@, "The Roku Channel"@),
        ("2285"@, "Hulu"@),
    ]
}

/// The names of a list of channels.
pub open spec fn app_names(apps: Seq<(Seq<char>, Seq<char>)>) -> Seq<Seq<char>> {
    apps.map_values(|app: (Seq<char>, Seq<char>)| app.1)
}

/// Where the artwork of a channel is found on the box; nowhere for an input, nor without an
/// address.
pub open spec fn icon_of(base: Option<Seq<char>>, id: Seq<char>) -> Seq<char> {
    match base {
        Some(base) => if text::occurs_at(id, "tvinput."@, 0) {
            ""@
        } else {
            base + "/query/icon/"@ + id
        },
        None => ""@,
    }
}

/// The artwork of a list of channels.
pub open spec fn app_icons(base: Option<Seq<char>>, apps: Seq<(Seq<char>, Seq<char>)>) -> Seq<
    Seq<char>,
> {
    apps.map_values(|app: (Seq<char>, Seq<char>)| icon_of(base, app.0))
}

/// The input that a listed channel is, where it is one.
pub open spec fn input_of(app: (Seq<char>, Seq<char>)) -> Option<host::ConnectionView> {
    match inputs::connection_of(app.0) {
        Some(id) => Some(
            host::ConnectionView {
                id,
                proxy: Some(TV),
                dir: Direction::Consumer,
                class: inputs::class_of(app.0),
                name: app.1,
            },
        ),
        None => None,
    }
}

/// The inputs among a list of channels.
pub open spec fn inputs_among(apps: Seq<(Seq<char>, Seq<char>)>) -> Seq<host::ConnectionView> {
    apps.filter_map(|app: (Seq<char>, Seq<char>)| input_of(app))
}

/// `c` in lower case, where it is one of the letters of ASCII.
pub open spec fn ascii_lower(c: char) -> char {
    if 'A' <= c <= 'Z' {
        (c as int + 32) as char
    } else {
        c
    }
}

/// The same text but for the case of the letters of ASCII.
pub open spec fn same_but_case(a: Seq<char>, b: Seq<char>) -> bool {
    a.map_values(|c: char| ascii_lower(c)) == b.map_values(|c: char| ascii_lower(c))
}

/// The kinds of answer that a box gives.
pub enum AnswerView {
    /// It refuses to list what it has.
    Limited,
    /// Its own record.
    DeviceInfo,
    /// What is in the foreground.
    ActiveApp,
    /// What is installed.
    Apps,
    /// Anything else.
    Other,
}

/// Which kind of answer a body is. What is in the foreground holds an `<app>` too, so it is told
/// apart before the list is: or what is playing would be read as everything installed.
pub open spec fn kind_of(body: Seq<char>) -> AnswerView {
    if text::holds(body, REFUSAL@) {
        AnswerView::Limited
    } else if text::holds(body, "<device-info>"@) {
        AnswerView::DeviceInfo
    } else if text::holds(body, "<active-app>"@) {
        AnswerView::ActiveApp
    } else if text::holds(body, "<apps>"@) {
        AnswerView::Apps
    } else {
        AnswerView::Other
    }
}

/// What an answer has the host do.
pub open spec fn answered(inst: host::InstanceView, body: Seq<char>) -> Seq<host::HostCallView> {
    match kind_of(body) {
        AnswerView::Limited => seq![
            host::warned(LIMITED_MODE@),
            host::noticed(
                MEDIA,
                "apps_changed"@,
                "apps"@,
                host::ArgView::Texts(app_names(well_known_apps())),
            ),
        ],
        AnswerView::DeviceInfo => match xml::element(body, "power-mode"@) {
            Some(mode) => seq![
                host::noticed(
                    TV,
                    "power_changed"@,
                    "on"@,
                    host::ArgView::Bool(same_but_case(mode, "PowerOn"@)),
                ),
            ],
            None => seq![],
        },
        AnswerView::ActiveApp => {
            let apps = xml::listed_apps(body);
            if apps.len() > 0 {
                seq![
                    host::noticed(MEDIA, "app_changed"@, "app"@, host::ArgView::Text(apps[0].1)),
                ]
            } else {
                seq![]
            }
        },
        AnswerView::Apps => {
            let apps = xml::listed_apps(body);
            if apps.len() > 0 {
                seq![
                    host::HostCallView::Notify {
                        proxy: MEDIA,
                        name: "apps_changed"@,
                        args: seq![
                            ("apps"@, host::ArgView::Texts(app_names(apps))),
                            (
                                "app_icons"@,
                                host::ArgView::Texts(app_icons(host::base_of(inst), apps)),
                            ),
                        ],
                    },
                ] + (if inputs_among(apps).len() > 0 {
                    seq![host::HostCallView::Connections { connections: inputs_among(apps) }]
                } else {
                    seq![]
                })
            } else {
                seq![]
            }
        },
        AnswerView::Other => seq![],
    }
}

/// Whether something is learned from an answer: a list of channels, or the refusal of one.
pub open spec fn teaches(body: Seq<char>) -> bool {
    match kind_of(body) {
        AnswerView::Limited => true,
        AnswerView::Apps => xml::listed_apps(body).len() > 0,
        _ => false,
    }
}

/// What is known of a box after an answer: only a list of channels, or the refusal of one, makes
/// a difference.
pub open spec fn learned(inst: host::InstanceView, body: Seq<char>) -> host::InstanceView {
    match kind_of(body) {
        AnswerView::Limited => host::InstanceView {
            channels: Some(channels::mapped(well_known_apps())),
            apps_unconfirmed: Some(true),
            ..inst
        },
        AnswerView::Apps => if xml::listed_apps(body).len() > 0 {
            host::InstanceView {
                channels: Some(channels::mapped(xml::listed_apps(body))),
                ..inst
            }
        } else {
            inst
        },
        _ => inst,
    }
}

fn app(id: &str, name: &str) -> (r: (String, String))
    ensures
        r.deep_view() == (id@, name@),
{
    (id.to_owned(), name.to_owned())
}

/// Roku's well-known channels, by their long-stable ids.
pub fn well_known() -> (r: Vec<(String, String)>)
    ensures
        r.deep_view() == well_known_apps(),
{
    let apps = vec![
        app("12", "Netflix"),
        app("837", "YouTube"),
        app("13", "Prime Video"),
        app("291097", "Disney+"),
        app("61322", "Max"),
        app("151908", "The Roku Channel"),
        app("2285", "Hulu"),
    ];
    assert(apps.deep_view() =~= well_known_apps());
    apps
}

fn names_of(apps: &Vec<(String, String)>) -> (r: Vec<String>)
    ensures
        r.deep_view() == app_names(apps.deep_view()),
{
    let mut names: Vec<String> = Vec::new();
    let mut i: usize = 0;
    while i < apps.len()
        invariant
            i <= apps@.len(),
            names@.len() == i,
            forall|j: int| 0 <= j < i ==> (#[trigger] names@[j])@ == apps@[j].1@,
        decreases apps@.len() - i,
    {
        names.push(apps[i].1.clone());
        i = i + 1;
    }
    assert(names.deep_view() =~= app_names(apps.deep_view()));
    names
}

fn icons_of(base: &Option<String>, apps: &Vec<(String, String)>) -> (r: Vec<String>)
    ensures
        r.deep_view() == app_icons(base.deep_view(), apps.deep_view()),
{
    let mut icons: Vec<String> = Vec::new();
    let mut i: usize = 0;
    while i < apps.len()
        invariant
            i <= apps@.len(),
            icons@.len() == i,
            forall|j: int|
                0 <= j < i ==> (#[trigger] icons@[j])@ == icon_of(base.deep_view(), apps@[j].0@),
        decreases apps@.len() - i,
    {
        let icon = match base {
            Some(base) => if text::starts_with(&apps[i].0, "tvinput.") {
                "".to_owned()
            } else {
                base.clone().concat("/query/icon/").concat(&apps[i].0)
            },
            None => "".to_owned(),
        };
        icons.push(icon);
        i = i + 1;
    }
    assert(icons.deep_view() =~= app_icons(base.deep_view(), apps.deep_view()));
    icons
}

fn connections_of(apps: &Vec<(String, String)>) -> (r: Vec<ConnectionDecl>)
    ensures
        r.deep_view() == inputs_among(apps.deep_view()),
{
    let mut connections: Vec<ConnectionDecl> = Vec::new();
    let mut i: usize = 0;
    let ghost all = apps.deep_view();
    let ghost read = |app: (Seq<char>, Seq<char>)| input_of(app);
    assert(connections.deep_view() =~= all.take(0).filter_map(read));
    while i < apps.len()
        invariant
            i <= apps@.len(),
            all == apps.deep_view(),
            read == (|app: (Seq<char>, Seq<char>)| input_of(app)),
            connections.deep_view() == all.take(i as int).filter_map(read),
        decreases apps@.len() - i,
    {
        let ghost before = connections.deep_view();
        proof {
            all.lemma_filter_map_take_succ(read, i as int);
        }
        assert(all[i as int] == apps@[i as int].deep_view());
        if let Some(id) = inputs::connection_id(&apps[i].0) {
            let decl = ConnectionDecl {
                id,
                proxy: Some(TV),
                dir: Direction::Consumer,
                class: inputs::signal_class(&apps[i].0).to_owned(),
                name: apps[i].1.clone(),
            };
            let ghost view = decl.deep_view();
            connections.push(decl);
            assert(connections.deep_view() =~= before.push(view));
        }
        i = i + 1;
    }
    assert(all.take(i as int) == all);
    connections
}

fn to_ascii_lower(c: char) -> (r: char)
    ensures
        r == ascii_lower(c),
{
    if 'A' <= c && c <= 'Z' {
        (c as u8 + 32) as char
    } else {
        c
    }
}

/// Whether the two texts are the same but for the case of the letters of ASCII.
pub fn eq_ignore_ascii_case(a: &str, b: &str) -> (r: bool)
    ensures
        r == same_but_case(a@, b@),
{
    let left = text::chars_of(a);
    let right = text::chars_of(b);
    let ghost lower = |c: char| ascii_lower(c);
    assert(a@.map_values(lower).len() == a@.len());
    assert(b@.map_values(lower).len() == b@.len());
    if left.len() != right.len() {
        return false;
    }
    let mut i: usize = 0;
    while i < left.len()
        invariant
            left@ == a@,
            right@ == b@,
            left@.len() == right@.len(),
            i <= left@.len(),
            lower == (|c: char| ascii_lower(c)),
            forall|j: int| 0 <= j < i ==> ascii_lower(#[trigger] a@[j]) == ascii_lower(b@[j]),
        decreases left@.len() - i,
    {
        if to_ascii_lower(left[i]) != to_ascii_lower(right[i]) {
            assert(a@.map_values(lower)[i as int] != b@.map_values(lower)[i as int]);
            return false;
        }
        i = i + 1;
    }
    assert(a@.map_values(lower) =~= b@.map_values(lower));
    true
}

impl Roku {
    /// What an event has the host do, and what is known of the box after it. Only the answer to a
    /// request is heard, which stands under `body`.
    pub fn on_event(
        &self,
        inst: &mut Instance,
        _control: u32,
        note: &str,
        args: &serde_json::Value,
    ) -> (r: Vec<HostCall>)
        ensures
            match json::text_in(json::held(*args), "body"@) {
                Some(body) if note@ == "http_response"@ => {
                    &&& final(inst)@ == learned(old(inst)@, body)
                    &&& !teaches(body) ==> *final(inst) == *old(inst)
                    &&& r.deep_view() == answered(old(inst)@, body)
                },
                _ => *final(inst) == *old(inst) && r@.len() == 0,
            },
    {
        if !text::same(note, "http_response") {
            return Vec::new();
        }
        match json::text_at(args, "body") {
            Some(body) => Self::answer(inst, &body),
            None => Vec::new(),
        }
    }

    /// What an answer has the host do, and what is known of the box after it.
    pub fn answer(inst: &mut Instance, body: &str) -> (r: Vec<HostCall>)
        ensures
            final(inst)@ == learned(old(inst)@, body@),
            !teaches(body@) ==> *final(inst) == *old(inst),
            r.deep_view() == answered(old(inst)@, body@),
    {
        // A Roku set to "Limited" says so in plain text rather than by an error code. Launching
        // still works, so the well-known channels are offered rather than nothing.
        if text::contains(body, REFUSAL) {
            let apps = well_known();
            inst.app_map = Some(channels::channel_map(&apps));
            inst.apps_unconfirmed = Some(true);
            let mut calls = one(HostCall::warn(LIMITED_MODE.to_owned()));
            let names = ArgValue::Texts(names_of(&apps));
            add_call(&mut calls, HostCall::notify(MEDIA, "apps_changed", "apps", names));
            assert(calls.deep_view() =~= answered(old(inst)@, body@));
            return calls;
        }
        // Where the set actually stands. `PowerOn` while it is on, `Ready` in standby;
        // `DisplayOff` is a player with its output asleep and `Headless` one with no display at
        // all, and neither is a television that shows a picture.
        if text::contains(body, "<device-info>") {
            return match xml::tag(body, "power-mode") {
                Some(mode) => one(
                    HostCall::notify(
                        TV,
                        "power_changed",
                        "on",
                        ArgValue::Bool(eq_ignore_ascii_case(&mode, "PowerOn")),
                    ),
                ),
                None => none(),
            };
        }
        if text::contains(body, "<active-app>") {
            let apps = xml::parse_apps(body);
            if apps.len() == 0 {
                return none();
            }
            assert(xml::listed_apps(body@)[0].1 == apps@[0].1@);
            let name = ArgValue::Text(apps[0].1.clone());
            return one(HostCall::notify(MEDIA, "app_changed", "app", name));
        }
        if text::contains(body, "<apps>") {
            let apps = xml::parse_apps(body);
            if apps.len() == 0 {
                return none();
            }
            inst.app_map = Some(channels::channel_map(&apps));
            let icons = icons_of(&host::base(inst), &apps);
            let connections = connections_of(&apps);
            let mut args: Vec<(String, ArgValue)> = Vec::new();
            args.push(("apps".to_owned(), ArgValue::Texts(names_of(&apps))));
            args.push(("app_icons".to_owned(), ArgValue::Texts(icons)));
            assert(args.deep_view() =~= seq![
                ("apps"@, host::ArgView::Texts(app_names(apps.deep_view()))),
                ("app_icons"@, host::ArgView::Texts(icons.deep_view())),
            ]);
            let mut calls = one(
                HostCall::Notify { proxy: MEDIA, name: "apps_changed".to_owned(), args },
            );
            // A player lists no inputs, and an empty list would say that it has none rather than
            // that it never said. So only a set that listed some says so at all.
            if connections.len() > 0 {
                add_call(&mut calls, HostCall::Connections { connections });
            }
            assert(calls.deep_view() =~= answered(old(inst)@, body@));
            return calls;
        }
        none()
    }

    /// What the driver has the host do first, and again at every poll: say that the box is there,
    /// then ask it where it stands, what it has and what is in the foreground.
    pub fn on_bind(&self, inst: &mut Instance) -> (r: Vec<HostCall>)
        ensures
            *final(inst) == *old(inst),
            r.deep_view() == seq![
                host::noticed(MEDIA, "online_changed"@, "online"@, host::ArgView::Bool(true)),
                host::sent("GET"@, "/query/device-info"@),
                host::sent("GET"@, "/query/apps"@),
                host::sent("GET"@, "/query/active-app"@),
            ],
    {
        let mut calls = one(
            HostCall::notify(MEDIA, "online_changed", "online", ArgValue::Bool(true)),
        );
        // Nothing else would say: ECP pushes nothing, and a television turned on by its own
        // remote is a television this house believes is off until it asks.
        add_call(&mut calls, command::get("/query/device-info"));
        // The channel list carries this set's real inputs as well as its channels.
        add_call(&mut calls, command::get("/query/apps"));
        add_call(&mut calls, command::get("/query/active-app"));
        calls
    }
}

} // verus!

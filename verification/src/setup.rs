//! The setup of a box: from what answered a search, or an address that was typed, to the device
//! that is added.
use vstd::prelude::*;

use crate::carry;
use crate::event::{LIMITED_MODE, REFUSAL};
use crate::host;
use crate::host::{ArgValue, HttpRequest};
use crate::json;
use crate::text;
use crate::xml;
use crate::Roku;

verus! {

/// One box that answered the search.
#[derive(Debug, Clone, PartialEq, Eq)]
pub struct Responder {
    pub address: Option<String>,
    pub server: Option<String>,
    pub usn: Option<String>,
    /// The name that someone gave it.
    pub friendly: Option<String>,
    pub model: Option<String>,
    pub is_tv: Option<bool>,
    /// What it was read from, with whatever else the answer held.
    pub rest: Option<serde_json::Value>,
}

/// A responder as plain values.
#[verifier::ext_equal]
pub struct ResponderView {
    pub address: Option<Seq<char>>,
    pub server: Option<Seq<char>>,
    pub usn: Option<Seq<char>>,
    pub friendly: Option<Seq<char>>,
    pub model: Option<Seq<char>>,
    pub is_tv: Option<bool>,
    pub rest: Option<json::Json>,
}

impl DeepView for Responder {
    type V = ResponderView;

    open spec fn deep_view(&self) -> ResponderView {
        ResponderView {
            address: self.address.deep_view(),
            server: self.server.deep_view(),
            usn: self.usn.deep_view(),
            friendly: self.friendly.deep_view(),
            model: self.model.deep_view(),
            is_tv: self.is_tv,
            rest: json::held_in(self.rest),
        }
    }
}

/// Where a setup stands between two steps. A field is none where it is missing or of another
/// type.
#[derive(Debug, Clone, PartialEq, Eq)]
pub struct SetupState {
    pub phase: Option<String>,
    pub address: Option<String>,
    /// What answered the search.
    pub ssdp_candidates: Option<Vec<Responder>>,
    /// How many of them have been asked for their names.
    pub enrich_at: Option<u64>,
    /// The record of the box that is being set up.
    pub info: Option<String>,
    /// The box has been asked for its channels.
    pub checked_control: Option<bool>,
    /// The notice on Limited control has been shown.
    pub nagged: Option<bool>,
    /// Somebody already pointed at this box.
    pub chosen: Option<bool>,
    /// What it was read from, with whatever else that held: it is carried along while the
    /// responders are named.
    pub rest: Option<serde_json::Value>,
}

/// A setup's state as plain values.
#[verifier::ext_equal]
pub struct SetupStateView {
    pub phase: Option<Seq<char>>,
    pub address: Option<Seq<char>>,
    pub ssdp_candidates: Option<Seq<ResponderView>>,
    pub enrich_at: Option<u64>,
    pub info: Option<Seq<char>>,
    pub checked_control: Option<bool>,
    pub nagged: Option<bool>,
    pub chosen: Option<bool>,
    pub rest: Option<json::Json>,
}

impl View for SetupState {
    type V = SetupStateView;

    open spec fn view(&self) -> SetupStateView {
        SetupStateView {
            phase: self.phase.deep_view(),
            address: self.address.deep_view(),
            ssdp_candidates: self.ssdp_candidates.deep_view(),
            enrich_at: self.enrich_at,
            info: self.info.deep_view(),
            checked_control: self.checked_control,
            nagged: self.nagged,
            chosen: self.chosen,
            rest: json::held_in(self.rest),
        }
    }
}

/// The state of a setup that has not begun, or is over.
pub open spec fn blank() -> SetupStateView {
    SetupStateView {
        phase: None,
        address: None,
        ssdp_candidates: None,
        enrich_at: None,
        info: None,
        checked_control: None,
        nagged: None,
        chosen: None,
        rest: None,
    }
}

impl Default for SetupState {
    /// The state of a setup that has not begun, or is over.
    fn default() -> (r: SetupState)
        ensures
            r@ == blank(),
    {
        SetupState {
            phase: None,
            address: None,
            ssdp_candidates: None,
            enrich_at: None,
            info: None,
            checked_control: None,
            nagged: None,
            chosen: None,
            rest: None,
        }
    }
}

/// A device to add.
#[derive(Debug, Clone, PartialEq, Eq)]
pub struct Candidate {
    pub label: String,
    pub kind: String,
    /// Which of the two manifests it is.
    pub driver_id: String,
    pub properties: Vec<(String, ArgValue)>,
    /// What was seen of it.
    pub verified: String,
    /// What it was read from, where it is one that came back chosen.
    pub rest: Option<serde_json::Value>,
}

/// A device to add, as plain values.
#[verifier::ext_equal]
pub struct CandidateView {
    pub label: Seq<char>,
    pub kind: Seq<char>,
    pub driver_id: Seq<char>,
    pub properties: Seq<(Seq<char>, host::ArgView)>,
    pub verified: Seq<char>,
    pub rest: Option<json::Json>,
}

impl DeepView for Candidate {
    type V = CandidateView;

    open spec fn deep_view(&self) -> CandidateView {
        CandidateView {
            label: self.label@,
            kind: self.kind@,
            driver_id: self.driver_id@,
            properties: self.properties.deep_view(),
            verified: self.verified@,
            rest: json::held_in(self.rest),
        }
    }
}

/// What a step of a setup came back with.
#[derive(Debug, Clone, PartialEq, Eq)]
pub struct SetupInput {
    /// The address that was picked or typed.
    pub address: Option<String>,
    /// The answer to the request that was made.
    pub response: Option<String>,
    /// The devices that were chosen.
    pub chosen: Option<Vec<Candidate>>,
}

/// What a step came back with, as plain values.
#[verifier::ext_equal]
pub struct SetupInputView {
    pub address: Option<Seq<char>>,
    pub response: Option<Seq<char>>,
    pub chosen: Option<Seq<CandidateView>>,
}

impl View for SetupInput {
    type V = SetupInputView;

    open spec fn view(&self) -> SetupInputView {
        SetupInputView {
            address: self.address.deep_view(),
            response: self.response.deep_view(),
            chosen: self.chosen.deep_view(),
        }
    }
}

impl Default for SetupInput {
    /// Nothing came back.
    fn default() -> (r: SetupInput)
        ensures
            r@ == (SetupInputView { address: None, response: None, chosen: None }),
    {
        SetupInput { address: None, response: None, chosen: None }
    }
}

/// What a step came back with as it stands in JSON, with the devices that were chosen.
pub open spec fn input_in(args: json::Json, chosen: Option<Seq<CandidateView>>) -> SetupInputView {
    SetupInputView {
        address: json::text_in(args, "address"@),
        response: json::text_in(args, "response"@),
        chosen,
    }
}

impl SetupInput {
    /// Reads what a step came back with. The devices that were chosen are the host's to read.
    pub fn read(args: &serde_json::Value, chosen: Option<Vec<Candidate>>) -> (r: SetupInput)
        ensures
            r@ == input_in(json::held(*args), chosen.deep_view()),
    {
        SetupInput {
            address: json::text_at(args, "address"),
            response: json::text_at(args, "response"),
            chosen,
        }
    }
}

/// A field of a form.
#[derive(Debug, Clone, PartialEq, Eq)]
pub struct Field {
    pub name: String,
    pub label: String,
    pub kind: String,
    pub help: String,
    pub default: Option<String>,
    pub options: Vec<String>,
    pub required: bool,
}

/// A field of a form as plain values.
#[verifier::ext_equal]
pub struct FieldView {
    pub name: Seq<char>,
    pub label: Seq<char>,
    pub kind: Seq<char>,
    pub help: Seq<char>,
    pub default: Option<Seq<char>>,
    pub options: Seq<Seq<char>>,
    pub required: bool,
}

impl DeepView for Field {
    type V = FieldView;

    open spec fn deep_view(&self) -> FieldView {
        FieldView {
            name: self.name@,
            label: self.label@,
            kind: self.kind@,
            help: self.help@,
            default: self.default.deep_view(),
            options: self.options.deep_view(),
            required: self.required,
        }
    }
}

/// A row of a list to pick from.
#[derive(Debug, Clone, PartialEq, Eq)]
pub struct PickRow {
    pub value: String,
    pub cells: Vec<String>,
    pub note: String,
}

/// A row as plain values.
#[verifier::ext_equal]
pub struct PickRowView {
    pub value: Seq<char>,
    pub cells: Seq<Seq<char>>,
    pub note: Seq<char>,
}

impl DeepView for PickRow {
    type V = PickRowView;

    open spec fn deep_view(&self) -> PickRowView {
        PickRowView { value: self.value@, cells: self.cells.deep_view(), note: self.note@ }
    }
}

/// The next thing that a setup asks for.
#[derive(Debug, Clone, PartialEq, Eq)]
pub enum SetupStep {
    /// An answer from a box.
    Fetch { request: HttpRequest, note: String },
    /// Something typed.
    Form { title: String, body: String, fields: Vec<Field> },
    /// One of a list.
    Pick {
        title: String,
        body: String,
        columns: Vec<String>,
        rows: Vec<PickRow>,
        field: String,
        manual: Option<Field>,
    },
    /// Something done to the box.
    Instruct { title: String, body: String, continue_label: String },
    /// A confirmation.
    Choose { title: String, body: String, options: Vec<Candidate>, multiple: bool },
    /// Nothing more: these are added.
    Done { devices: Vec<Candidate> },
    /// Nothing more: it went wrong.
    Failed { reason: String },
}

/// A step as plain values.
#[verifier::ext_equal]
pub enum SetupStepView {
    Fetch { request: host::HttpRequestView, note: Seq<char> },
    Form { title: Seq<char>, body: Seq<char>, fields: Seq<FieldView> },
    Pick {
        title: Seq<char>,
        body: Seq<char>,
        columns: Seq<Seq<char>>,
        rows: Seq<PickRowView>,
        field: Seq<char>,
        manual: Option<FieldView>,
    },
    Instruct { title: Seq<char>, body: Seq<char>, continue_label: Seq<char> },
    Choose { title: Seq<char>, body: Seq<char>, options: Seq<CandidateView>, multiple: bool },
    Done { devices: Seq<CandidateView> },
    Failed { reason: Seq<char> },
}

impl View for SetupStep {
    type V = SetupStepView;

    open spec fn view(&self) -> SetupStepView {
        match self {
            SetupStep::Fetch { request, note } => SetupStepView::Fetch {
                request: request.deep_view(),
                note: note@,
            },
            SetupStep::Form { title, body, fields } => SetupStepView::Form {
                title: title@,
                body: body@,
                fields: fields.deep_view(),
            },
            SetupStep::Pick { title, body, columns, rows, field, manual } => SetupStepView::Pick {
                title: title@,
                body: body@,
                columns: columns.deep_view(),
                rows: rows.deep_view(),
                field: field@,
                manual: manual.deep_view(),
            },
            SetupStep::Instruct { title, body, continue_label } => SetupStepView::Instruct {
                title: title@,
                body: body@,
                continue_label: continue_label@,
            },
            SetupStep::Choose { title, body, options, multiple } => SetupStepView::Choose {
                title: title@,
                body: body@,
                options: options.deep_view(),
                multiple: *multiple,
            },
            SetupStep::Done { devices } => SetupStepView::Done { devices: devices.deep_view() },
            SetupStep::Failed { reason } => SetupStepView::Failed { reason: reason@ },
        }
    }
}

/// The text, or another where there is none or an empty one.
pub open spec fn text_or(a: Option<Seq<char>>, b: Seq<char>) -> Seq<char> {
    match a {
        Some(s) => if s.len() > 0 {
            s
        } else {
            b
        },
        None => b,
    }
}

/// A flag that is set.
pub open spec fn is_set(flag: Option<bool>) -> bool {
    flag == Some(true)
}

/// A flag as it is carried on: unset where it was missing.
pub open spec fn carried(flag: Option<bool>) -> Option<bool> {
    match flag {
        Some(b) => Some(b),
        None => Some(false),
    }
}

/// A question to the box at an address.
pub open spec fn fetched(address: Seq<char>, path: Seq<char>, note: Seq<char>) -> SetupStepView {
    SetupStepView::Fetch {
        request: host::HttpRequestView {
            method: "GET"@,
            url: "http://"@ + address + ":8060"@ + path,
        },
        note,
    }
}

/// The question what a box is.
pub open spec fn probe_of(address: Seq<char>) -> SetupStepView {
    fetched(address, "/query/device-info"@, "asking the Roku what it is"@)
}

/// The address of the one responder, when there is exactly one: the row that somebody pressed.
pub open spec fn only_candidate(state: SetupStateView) -> Option<Seq<char>> {
    match state.ssdp_candidates {
        Some(found) => if found.len() == 1 {
            match found[0].address {
                Some(address) => if text::trimmed(address).len() > 0 {
                    Some(text::without_ending(text::trimmed(address), ":8060"@))
                } else {
                    None
                },
                None => None,
            }
        } else {
            None
        },
        None => None,
    }
}

/// How many responders have been asked for their names.
pub open spec fn asked(state: SetupStateView) -> u64 {
    match state.enrich_at {
        Some(at) => at,
        None => 0,
    }
}

/// The address of the next responder to ask for its name.
pub open spec fn next_address(state: SetupStateView) -> Option<Seq<char>> {
    match state.ssdp_candidates {
        Some(found) => if asked(state) < found.len() {
            found[asked(state) as int].address
        } else {
            None
        },
        None => None,
    }
}

/// The form's field for an address.
pub open spec fn typed_address() -> FieldView {
    FieldView {
        name: "address"@,
        label: "Address"@,
        kind: "string"@,
        help: "for example 192.168.1.60"@,
        default: None,
        options: seq![],
        required: true,
    }
}

/// What a responder is called: the name that someone gave it, or else the start of what its
/// server calls itself.
pub open spec fn label_of(r: ResponderView) -> Seq<char> {
    match r.friendly {
        Some(name) => name,
        None => match r.server {
            Some(server) => match text::leading_word(server) {
                Some(word) => word,
                None => "Roku"@,
            },
            None => "Roku"@,
        },
    }
}

/// What a responder is.
pub open spec fn model_of(r: ResponderView) -> Seq<char> {
    text_or(
        r.model,
        if is_set(r.is_tv) {
            "Roku TV"@
        } else {
            "Roku"@
        },
    )
}

/// The stable id at the end of a responder's USN, which tells two identical sets apart before
/// either has been named.
pub open spec fn serial_of(r: ResponderView) -> Seq<char> {
    match r.usn {
        Some(usn) => text::past_last(usn, ':'),
        None => ""@,
    }
}

/// The row of a responder; none without an address.
pub open spec fn row_of(r: ResponderView) -> Option<PickRowView> {
    match r.address {
        Some(address) => Some(
            PickRowView {
                value: address,
                cells: seq![label_of(r), model_of(r), address],
                note: if serial_of(r).len() > 0 {
                    "serial "@ + serial_of(r)
                } else {
                    ""@
                },
            },
        ),
        None => None,
    }
}

/// The rows of a list of responders.
pub open spec fn rows_of(found: Seq<ResponderView>) -> Seq<PickRowView> {
    found.filter_map(|r: ResponderView| row_of(r))
}

/// The step that asks which box is meant: whatever answered the search, and an address that may
/// be typed anyway.
pub open spec fn asking(state: SetupStateView) -> SetupStepView {
    let found = match state.ssdp_candidates {
        Some(found) => found,
        None => seq![],
    };
    let rows = rows_of(found);
    if found.len() == 0 {
        SetupStepView::Form {
            title: "Find your Roku"@,
            body: "Nothing answered on the network, so enter its address — on the device, Settings → Network → About. Nothing needs enabling first; a Roku answers by default unless someone has turned off external control."@,
            fields: seq![typed_address()],
        }
    } else {
        SetupStepView::Pick {
            title: "Found "@ + text::decimal(rows.len()) + " Roku device"@ + (if rows.len() == 1 {
                ""@
            } else {
                "s"@
            }),
            body: "Pick one. Its model decides whether it offers a screen as well as apps — a TV does, a stick does not."@,
            columns: seq!["Name"@, "Model"@, "Address"@],
            rows,
            field: "address"@,
            manual: Some(typed_address()),
        }
    }
}

/// The state in which a box is about to be asked what it is.
pub open spec fn to_probe() -> SetupStateView {
    SetupStateView { phase: Some("probe"@), ..blank() }
}

/// The next step while the responders are being named: the next one is asked, or else the list is
/// shown.
pub open spec fn listed(state: SetupStateView) -> (SetupStepView, SetupStateView) {
    match next_address(state) {
        Some(address) => (
            fetched(
                address,
                "/query/device-info"@,
                "asking "@ + address + " what it is called"@,
            ),
            SetupStateView {
                phase: Some("naming"@),
                enrich_at: Some((asked(state) + 1) as u64),
                ..state
            },
        ),
        None => (asking(state), to_probe()),
    }
}

/// The name that a record gives the box, if any.
pub open spec fn name_in(info: Seq<char>) -> Option<Seq<char>> {
    match xml::element(info, "user-device-name"@) {
        Some(name) if name.len() > 0 => Some(name),
        _ => match xml::element(info, "friendly-device-name"@) {
            Some(name) => Some(name),
            None => xml::element(info, "model-name"@),
        },
    }
}

/// What the maker calls the box. The plain model name of a Roku TV is the panel's part number,
/// which tells nobody anything.
pub open spec fn model_in(info: Seq<char>) -> Seq<char> {
    text_or(
        xml::element(info, "friendly-model-name"@),
        match xml::element(info, "model-name"@) {
            Some(model) => model,
            None => ""@,
        },
    )
}

/// A responder after its record was read.
pub open spec fn named(r: ResponderView, info: Seq<char>) -> ResponderView {
    ResponderView {
        friendly: match name_in(info) {
            Some(name) => Some(name),
            None => r.friendly,
        },
        is_tv: Some(xml::element(info, "is-tv"@) == Some("true"@)),
        model: Some(model_in(info)),
        ..r
    }
}

/// The state after the answer of the responder that was asked last.
pub open spec fn after_naming(
    state: SetupStateView,
    response: Option<Seq<char>>,
) -> SetupStateView {
    match (state.ssdp_candidates, response) {
        (Some(found), Some(info)) => {
            let last = asked(state) - 1;
            if 0 <= last < found.len() {
                SetupStateView {
                    ssdp_candidates: Some(found.update(last, named(found[last], info))),
                    ..state
                }
            } else {
                state
            }
        },
        _ => state,
    }
}

/// What a record says of the box that is being set up.
#[verifier::ext_equal]
pub struct RecordView {
    pub model: Seq<char>,
    pub friendly: Seq<char>,
    pub is_tv: bool,
    pub power: Seq<char>,
}

/// What a record says of the box that is being set up. A Roku TV has a screen to control; a stick
/// or box does not.
pub open spec fn record_of(info: Seq<char>) -> RecordView {
    let model = match xml::element(info, "model-name"@) {
        Some(model) => model,
        None => "Roku"@,
    };
    RecordView {
        model,
        friendly: text_or(xml::element(info, "user-device-name"@), model),
        is_tv: xml::element(info, "is-tv"@) == Some("true"@) || xml::element(info, "device-type"@)
            == Some("tv"@),
        power: match xml::element(info, "power-mode"@) {
            Some(power) => power,
            None => "unknown"@,
        },
    }
}

/// The device that is offered for a box. The one place where the two manifests are told apart:
/// nothing on the wire does, but by here the box has been asked.
pub open spec fn offered(address: Seq<char>, record: RecordView, limited: bool) -> CandidateView {
    CandidateView {
        label: record.friendly,
        kind: record.model,
        driver_id: if record.is_tv {
            "roku.tv"@
        } else {
            "roku.player"@
        },
        properties: seq![
            ("Address"@, host::ArgView::Text(address)),
            ("Port"@, host::ArgView::Number(8060)),
        ],
        verified: if limited {
            "answered ECP, power "@ + record.power
                + " — set to Limited control, so its channel list is a guess"@
        } else {
            "answered ECP, power "@ + record.power
        },
        rest: None,
    }
}

/// The step and the state once a box has said what it is: its channels are asked for, once;
/// where it refuses them, that is said, once; then it is added, or offered for confirmation where
/// nobody pointed at it.
pub open spec fn probed(
    state: SetupStateView,
    address: Seq<char>,
    response: Option<Seq<char>>,
) -> (SetupStepView, SetupStateView) {
    let info = match state.info {
        Some(info) => info,
        None => match response {
            Some(response) => response,
            None => ""@,
        },
    };
    let record = record_of(info);
    let limited = response is Some && text::holds(response->0, REFUSAL@);
    let offer = offered(address, record, limited);
    if !text::holds(info, "<device-info>"@) {
        (
            SetupStepView::Failed {
                reason: address
                    + " did not answer as a Roku. Check the address under Settings → Network → About."@,
            },
            blank(),
        )
    } else if !is_set(state.checked_control) {
        (
            fetched(address, "/query/apps"@, "checking external control"@),
            SetupStateView {
                phase: Some("probed"@),
                address: Some(address),
                checked_control: Some(true),
                info: Some(info),
                nagged: carried(state.nagged),
                chosen: carried(state.chosen),
                ..blank()
            },
        )
    } else if limited && !is_set(state.nagged) {
        (
            SetupStepView::Instruct {
                title: record.friendly + " is set to Limited control"@,
                body: LIMITED_MODE@
                    + "\n\nYou can add it either way — it will still launch channels and take volume. Only the list of what is installed is refused."@,
                continue_label: "Check again"@,
            },
            SetupStateView {
                phase: Some("probe"@),
                address: Some(address),
                nagged: Some(true),
                chosen: carried(state.chosen),
                ..blank()
            },
        )
    } else if is_set(state.chosen) {
        (SetupStepView::Done { devices: seq![offer] }, blank())
    } else {
        (
            SetupStepView::Choose {
                title: "Found "@ + record.friendly,
                body: if record.is_tv {
                    "This is a Roku TV, so it is added as a streamer and a screen together — volume, power, and the inputs the set actually reports having, on one device."@
                } else {
                    "This is a Roku player, so it offers the streamer only. It has no volume or inputs of its own."@
                },
                options: seq![offer],
                multiple: false,
            },
            SetupStateView { phase: Some("chosen"@), address: Some(address), ..blank() },
        )
    }
}

/// The next step of a setup, and where it then stands.
pub open spec fn stepped(state: SetupStateView, input: SetupInputView) -> (
    SetupStepView,
    SetupStateView,
) {
    let phase = match state.phase {
        Some(phase) => phase,
        None => "start"@,
    };
    let address = match state.address {
        Some(address) => Some(address),
        None => input.address,
    };
    if phase == "start"@ {
        match only_candidate(state) {
            Some(only) => (
                probe_of(only),
                SetupStateView {
                    phase: Some("probed"@),
                    address: Some(only),
                    chosen: Some(true),
                    ..blank()
                },
            ),
            None => listed(state),
        }
    } else if phase == "naming"@ {
        listed(after_naming(state, input.response))
    } else if phase == "probe"@ {
        match address {
            Some(address) => {
                let address = text::without_ending(text::trimmed(address), ":8060"@);
                (
                    probe_of(address),
                    SetupStateView {
                        phase: Some("probed"@),
                        address: Some(address),
                        nagged: carried(state.nagged),
                        chosen: carried(state.chosen),
                        ..blank()
                    },
                )
            },
            None => (asking(state), to_probe()),
        }
    } else if phase == "probed"@ {
        probed(
            state,
            match address {
                Some(address) => address,
                None => ""@,
            },
            input.response,
        )
    } else if phase == "chosen"@ {
        (
            SetupStepView::Done {
                devices: match input.chosen {
                    Some(devices) => devices,
                    None => seq![],
                },
            },
            blank(),
        )
    } else {
        (SetupStepView::Failed { reason: "unknown setup phase `"@ + phase + "`"@ }, blank())
    }
}

fn text_else(a: Option<String>, b: String) -> (r: String)
    ensures
        r@ == text_or(a.deep_view(), b@),
{
    match a {
        Some(s) => if s.as_str().is_empty() {
            b
        } else {
            s
        },
        None => b,
    }
}

fn flag(b: Option<bool>) -> (r: bool)
    ensures
        r == is_set(b),
{
    match b {
        Some(b) => b,
        None => false,
    }
}

fn is_text(a: &Option<String>, b: &str) -> (r: bool)
    ensures
        r == (a.deep_view() == Some(b@)),
{
    match a {
        Some(a) => text::same(a, b),
        None => false,
    }
}

fn texts(a: String, b: String, c: String) -> (r: Vec<String>)
    ensures
        r.deep_view() == seq![a@, b@, c@],
{
    let ghost views = seq![a@, b@, c@];
    let mut v: Vec<String> = Vec::new();
    v.push(a);
    v.push(b);
    v.push(c);
    assert(v.deep_view() =~= views);
    v
}

fn fetch(address: &str, path: &str, note: String) -> (r: SetupStep)
    ensures
        r@ == fetched(address@, path@, note@),
{
    let url = "http://".to_owned().concat(address).concat(":8060").concat(path);
    SetupStep::Fetch { request: HttpRequest::new("GET", url), note }
}

fn address_field() -> (r: Field)
    ensures
        r.deep_view() == typed_address(),
{
    let options: Vec<String> = Vec::new();
    assert(options.deep_view() =~= Seq::<Seq<char>>::empty());
    Field {
        name: "address".to_owned(),
        label: "Address".to_owned(),
        kind: "string".to_owned(),
        help: "for example 192.168.1.60".to_owned(),
        default: None,
        options,
        required: true,
    }
}

fn label(r: &Responder) -> (s: String)
    ensures
        s@ == label_of(r.deep_view()),
{
    match &r.friendly {
        Some(name) => name.clone(),
        None => match &r.server {
            // SERVER reads "Roku/12.5.5 UPnP/1.0 Roku/12.5.5"; the first word is enough.
            Some(server) => match text::first_word(server) {
                Some(word) => word,
                None => "Roku".to_owned(),
            },
            None => "Roku".to_owned(),
        },
    }
}

fn model(r: &Responder) -> (s: String)
    ensures
        s@ == model_of(r.deep_view()),
{
    let other = if flag(r.is_tv) {
        "Roku TV".to_owned()
    } else {
        "Roku".to_owned()
    };
    text_else(r.model.clone(), other)
}

fn row(r: &Responder) -> (row: Option<PickRow>)
    ensures
        row.deep_view() == row_of(r.deep_view()),
{
    match &r.address {
        Some(address) => {
            let serial = match &r.usn {
                Some(usn) => text::after_last(usn, ':'),
                None => "".to_owned(),
            };
            let note = if serial.as_str().is_empty() {
                "".to_owned()
            } else {
                "serial ".to_owned().concat(&serial)
            };
            Some(
                PickRow {
                    value: address.clone(),
                    cells: texts(label(r), model(r), address.clone()),
                    note,
                },
            )
        },
        None => None,
    }
}

fn rows(found: &Vec<Responder>) -> (r: Vec<PickRow>)
    ensures
        r.deep_view() == rows_of(found.deep_view()),
{
    let mut out: Vec<PickRow> = Vec::new();
    let mut i: usize = 0;
    let ghost all = found.deep_view();
    let ghost read = |r: ResponderView| row_of(r);
    assert(out.deep_view() =~= all.take(0).filter_map(read));
    while i < found.len()
        invariant
            i <= found@.len(),
            all == found.deep_view(),
            read == (|r: ResponderView| row_of(r)),
            out.deep_view() == all.take(i as int).filter_map(read),
        decreases found@.len() - i,
    {
        let ghost before = out.deep_view();
        proof {
            all.lemma_filter_map_take_succ(read, i as int);
        }
        assert(all[i as int] == found@[i as int].deep_view());
        if let Some(row) = row(&found[i]) {
            let ghost view = row.deep_view();
            out.push(row);
            assert(out.deep_view() =~= before.push(view));
        }
        i = i + 1;
    }
    assert(all.take(i as int) == all);
    out
}

fn after_name(r: &mut Responder, info: &str)
    ensures
        final(r).deep_view() == named(old(r).deep_view(), info@),
{
    let given = match xml::tag(info, "user-device-name") {
        Some(name) => if name.as_str().is_empty() {
            None
        } else {
            Some(name)
        },
        None => None,
    };
    let name = match given {
        Some(name) => Some(name),
        None => match xml::tag(info, "friendly-device-name") {
            Some(name) => Some(name),
            None => xml::tag(info, "model-name"),
        },
    };
    if let Some(name) = name {
        r.friendly = Some(name);
    }
    r.is_tv = Some(is_text(&xml::tag(info, "is-tv"), "true"));
    let plain = match xml::tag(info, "model-name") {
        Some(model) => model,
        None => "".to_owned(),
    };
    r.model = Some(text_else(xml::tag(info, "friendly-model-name"), plain));
}

/// What a record says of the box that is being set up.
struct Record {
    model: String,
    friendly: String,
    is_tv: bool,
    power: String,
}

impl View for Record {
    type V = RecordView;

    closed spec fn view(&self) -> RecordView {
        RecordView {
            model: self.model@,
            friendly: self.friendly@,
            is_tv: self.is_tv,
            power: self.power@,
        }
    }
}

fn record(info: &str) -> (r: Record)
    ensures
        r@ == record_of(info@),
{
    let model = match xml::tag(info, "model-name") {
        Some(model) => model,
        None => "Roku".to_owned(),
    };
    let friendly = text_else(xml::tag(info, "user-device-name"), model.clone());
    let is_tv = is_text(&xml::tag(info, "is-tv"), "true") || is_text(
        &xml::tag(info, "device-type"),
        "tv",
    );
    let power = match xml::tag(info, "power-mode") {
        Some(power) => power,
        None => "unknown".to_owned(),
    };
    Record { model, friendly, is_tv, power }
}

fn offer(address: &str, record: &Record, limited: bool) -> (r: Candidate)
    ensures
        r.deep_view() == offered(address@, record@, limited),
{
    let mut properties: Vec<(String, ArgValue)> = Vec::new();
    properties.push(("Address".to_owned(), ArgValue::Text(address.to_owned())));
    properties.push(("Port".to_owned(), ArgValue::Number(8060)));
    assert(properties.deep_view() =~= seq![
        ("Address"@, host::ArgView::Text(address@)),
        ("Port"@, host::ArgView::Number(8060)),
    ]);
    let driver_id = if record.is_tv {
        "roku.tv".to_owned()
    } else {
        "roku.player".to_owned()
    };
    let mut verified = "answered ECP, power ".to_owned().concat(&record.power);
    if limited {
        verified.append(" — set to Limited control, so its channel list is a guess");
    }
    Candidate {
        label: record.friendly.clone(),
        kind: record.model.clone(),
        driver_id,
        properties,
        verified,
        rest: None,
    }
}

fn without_port(address: &str) -> (r: String)
    ensures
        r@ == text::without_ending(address@, ":8060"@),
{
    proof {
        reveal_strlit(":8060");
    }
    text::trim_end_matches(address, ":8060")
}

fn just(offer: Candidate) -> (r: Vec<Candidate>)
    ensures
        r.deep_view() == seq![offer.deep_view()],
{
    let ghost view = offer.deep_view();
    let mut v: Vec<Candidate> = Vec::new();
    v.push(offer);
    assert(v.deep_view() =~= seq![view]);
    v
}

impl Roku {
    /// The one responder, when there is exactly one.
    ///
    /// A setup started from a row of the search is seeded with the answers of that one address,
    /// and one started cold with everything that the search turned up: so one is the row that
    /// somebody pressed and several is a real question.
    pub fn the_only_candidate(state: &SetupState) -> (r: Option<String>)
        ensures
            r.deep_view() == only_candidate(state@),
    {
        match &state.ssdp_candidates {
            Some(found) => {
                if found.len() != 1 {
                    return None;
                }
                assert(state@.ssdp_candidates->0[0] == found@[0].deep_view());
                match &found[0].address {
                    Some(address) => {
                        let address = text::trim(address);
                        if address.as_str().is_empty() {
                            None
                        } else {
                            Some(without_port(&address))
                        }
                    },
                    None => None,
                }
            },
            None => None,
        }
    }

    /// Ask a box what it is. Every way into a setup ends up asking this, because the answer
    /// decides which of the two manifests the box is offered as.
    pub fn probe_for(address: &str) -> (r: SetupStep)
        ensures
            r@ == probe_of(address@),
    {
        fetch(address, "/query/device-info", "asking the Roku what it is".to_owned())
    }

    /// Offer whatever answered the search, and let an address be typed anyway.
    pub fn ask_for_address(state: &SetupState) -> (r: (SetupStep, SetupState))
        ensures
            r.0@ == asking(state@),
            r.1@ == to_probe(),
    {
        let next = SetupState { phase: Some("probe".to_owned()), ..SetupState::default() };
        let none: Vec<Responder> = Vec::new();
        assert(none.deep_view() =~= Seq::<ResponderView>::empty());
        let found = match &state.ssdp_candidates {
            Some(found) => found,
            None => &none,
        };
        if found.len() == 0 {
            let mut fields: Vec<Field> = Vec::new();
            fields.push(address_field());
            assert(fields.deep_view() =~= seq![typed_address()]);
            let form = SetupStep::Form {
                title: "Find your Roku".to_owned(),
                body: "Nothing answered on the network, so enter its address — on the device, Settings → Network → About. Nothing needs enabling first; a Roku answers by default unless someone has turned off external control.".to_owned(),
                fields,
            };
            return (form, next);
        }
        let rows = rows(found);
        let count: usize = rows.len();
        let plural = if count == 1 {
            ""
        } else {
            "s"
        };
        let pick = SetupStep::Pick {
            title: "Found ".to_owned().concat(&text::to_decimal(count as u64)).concat(
                " Roku device",
            ).concat(plural),
            body: "Pick one. Its model decides whether it offers a screen as well as apps — a TV does, a stick does not.".to_owned(),
            columns: texts("Name".to_owned(), "Model".to_owned(), "Address".to_owned()),
            rows,
            field: "address".to_owned(),
            manual: Some(address_field()),
        };
        (pick, next)
    }

    /// The next responder to ask for its name, and its place in the list.
    ///
    /// A search reports no more than an address and a firmware string, so a list without names is
    /// two rows reading "Roku/15.2.4" and nothing to tell them apart.
    pub fn next_to_name(state: &SetupState) -> (r: Option<(u64, String)>)
        ensures
            match next_address(state@) {
                Some(address) => {
                    &&& asked(state@) < u64::MAX
                    &&& r matches Some((at, next)) && at == asked(state@) && next@ == address
                },
                None => r is None,
            },
    {
        let at: u64 = match state.enrich_at {
            Some(at) => at,
            None => 0,
        };
        match &state.ssdp_candidates {
            Some(found) => {
                if at >= found.len() as u64 {
                    return None;
                }
                assert(state@.ssdp_candidates->0[at as int] == found@[at as int].deep_view());
                match &found[at as usize].address {
                    Some(address) => Some((at, address.clone())),
                    None => None,
                }
            },
            None => None,
        }
    }

    /// Ask the next responder what it is called, or else show the list.
    pub fn enrich(state: SetupState) -> (r: (SetupStep, SetupState))
        ensures
            (r.0@, r.1@) == listed(state@),
    {
        match Self::next_to_name(&state) {
            Some((at, address)) => {
                let note = "asking ".to_owned().concat(&address).concat(" what it is called");
                let step = fetch(&address, "/query/device-info", note);
                let next = SetupState {
                    phase: Some("naming".to_owned()),
                    enrich_at: Some(at + 1),
                    ..state
                };
                (step, next)
            },
            None => Self::ask_for_address(&state),
        }
    }

    /// One answer while the responders are being named: it is recorded with the one that was
    /// asked last.
    pub fn record_name(state: SetupState, response: &Option<String>) -> (r: SetupState)
        ensures
            r@ == after_naming(state@, response.deep_view()),
    {
        let at: u64 = match state.enrich_at {
            Some(at) => at,
            None => 0,
        };
        let info = match response {
            Some(info) => info,
            None => {
                return state;
            },
        };
        let mut state = state;
        let ghost before = state@;
        if let Some(mut found) = state.ssdp_candidates.take() {
            let ghost all = found.deep_view();
            if 0 < at && at <= found.len() as u64 {
                let last: usize = (at - 1) as usize;
                assert(all[last as int] == found@[last as int].deep_view());
                after_name(&mut found[last], info);
                assert(found.deep_view() =~= all.update(last as int, named(all[last as int], info@)));
            }
            state.ssdp_candidates = Some(found);
        }
        state
    }

    /// The step once a box has said what it is.
    fn after_probe(state: SetupState, address: String, response: &Option<String>) -> (r: (
        SetupStep,
        SetupState,
    ))
        ensures
            (r.0@, r.1@) == probed(state@, address@, response.deep_view()),
    {
        let info = match state.info {
            Some(info) => info,
            None => match response {
                Some(response) => response.clone(),
                None => "".to_owned(),
            },
        };
        if !text::contains(&info, "<device-info>") {
            let reason = address.concat(
                " did not answer as a Roku. Check the address under Settings → Network → About.",
            );
            return (SetupStep::Failed { reason }, SetupState::default());
        }
        let record = record(&info);
        // Reachability is not enough: a Roku can answer and still refuse every useful command.
        // Its channels are asked for now, while there is somewhere sensible to say so.
        if !flag(state.checked_control) {
            let step = fetch(&address, "/query/apps", "checking external control".to_owned());
            // Whatever has to outlive this step is stated again: the notice that was shown, and
            // that somebody already pointed at this box.
            let next = SetupState {
                phase: Some("probed".to_owned()),
                address: Some(address),
                checked_control: Some(true),
                info: Some(info),
                nagged: Some(flag(state.nagged)),
                chosen: Some(flag(state.chosen)),
                ..SetupState::default()
            };
            return (step, next);
        }
        let limited = match response {
            Some(response) => text::contains(response, REFUSAL),
            None => false,
        };
        // Said once, with an offer to look again. Not twice: Limited control blocks listing, not
        // launching, so a box stuck this way is still worth adding.
        if limited && !flag(state.nagged) {
            let step = SetupStep::Instruct {
                title: record.friendly.clone().concat(" is set to Limited control"),
                body: LIMITED_MODE.to_owned().concat(
                    "\n\nYou can add it either way — it will still launch channels and take volume. Only the list of what is installed is refused.",
                ),
                continue_label: "Check again".to_owned(),
            };
            let next = SetupState {
                phase: Some("probe".to_owned()),
                address: Some(address),
                nagged: Some(true),
                chosen: Some(flag(state.chosen)),
                ..SetupState::default()
            };
            return (step, next);
        }
        let options = just(offer(&address, &record, limited));
        // Somebody pointed at this box. Offering it back as the only row of a list to choose
        // from would be asking the same question a second time.
        if flag(state.chosen) {
            return (SetupStep::Done { devices: options }, SetupState::default());
        }
        let body = if record.is_tv {
            "This is a Roku TV, so it is added as a streamer and a screen together — volume, power, and the inputs the set actually reports having, on one device.".to_owned()
        } else {
            "This is a Roku player, so it offers the streamer only. It has no volume or inputs of its own.".to_owned()
        };
        let step = SetupStep::Choose {
            title: "Found ".to_owned().concat(&record.friendly),
            body,
            options,
            multiple: false,
        };
        let next = SetupState {
            phase: Some("chosen".to_owned()),
            address: Some(address),
            ..SetupState::default()
        };
        (step, next)
    }

    /// The next step of a setup, and where it then stands.
    pub fn flow(&self, state: SetupState, input: SetupInput) -> (r: (SetupStep, SetupState))
        ensures
            (r.0@, r.1@) == stepped(state@, input@),
    {
        let phase = match &state.phase {
            Some(phase) => phase.clone(),
            None => "start".to_owned(),
        };
        let address = match &state.address {
            Some(address) => Some(address.clone()),
            None => input.address,
        };
        if text::same(&phase, "start") {
            // One responder is the one that was pressed: straight to the question what it is,
            // which is all that is left to learn.
            match Self::the_only_candidate(&state) {
                Some(only) => {
                    let step = Self::probe_for(&only);
                    let next = SetupState {
                        phase: Some("probed".to_owned()),
                        address: Some(only),
                        chosen: Some(true),
                        ..SetupState::default()
                    };
                    (step, next)
                },
                None => Self::enrich(state),
            }
        } else if text::same(&phase, "naming") {
            Self::enrich(Self::record_name(state, &input.response))
        } else if text::same(&phase, "probe") {
            match address {
                Some(address) => {
                    let address = without_port(&text::trim(&address));
                    let step = Self::probe_for(&address);
                    let next = SetupState {
                        phase: Some("probed".to_owned()),
                        address: Some(address),
                        nagged: Some(flag(state.nagged)),
                        chosen: Some(flag(state.chosen)),
                        ..SetupState::default()
                    };
                    (step, next)
                },
                None => Self::ask_for_address(&state),
            }
        } else if text::same(&phase, "probed") {
            let address = match address {
                Some(address) => address,
                None => "".to_owned(),
            };
            Self::after_probe(state, address, &input.response)
        } else if text::same(&phase, "chosen") {
            let devices = match input.chosen {
                Some(devices) => devices,
                None => Vec::new(),
            };
            assert(input@.chosen is None ==> devices.deep_view() =~= Seq::<
                CandidateView,
            >::empty());
            (SetupStep::Done { devices }, SetupState::default())
        } else {
            let reason = "unknown setup phase `".to_owned().concat(&phase).concat("`");
            (SetupStep::Failed { reason }, SetupState::default())
        }
    }

    /// A setup that starts from what answered a search: the next step, and the state that the host
    /// carries to the one after.
    pub fn discover(
        &self,
        _driver_id: &str,
        state: &serde_json::Value,
        input: SetupInput,
    ) -> (r: (SetupStep, serde_json::Value))
        ensures
            r.0@ == stepped(carry::state_in(json::held(*state)), input@).0,
            json::held(r.1) == carry::state_out(
                stepped(carry::state_in(json::held(*state)), input@).1,
            ),
    {
        let (step, next) = self.flow(SetupState::read(state), input);
        (step, next.write())
    }

    /// A setup that starts from a driver: the next step, and the state that the host carries to the
    /// one after.
    pub fn setup(
        &self,
        _driver_id: &str,
        state: &serde_json::Value,
        input: SetupInput,
    ) -> (r: (SetupStep, serde_json::Value))
        ensures
            r.0@ == stepped(carry::state_in(json::held(*state)), input@).0,
            json::held(r.1) == carry::state_out(
                stepped(carry::state_in(json::held(*state)), input@).1,
            ),
    {
        let (step, next) = self.flow(SetupState::read(state), input);
        (step, next.write())
    }
}

} // verus!

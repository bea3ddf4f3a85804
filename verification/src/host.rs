//! What a driver hands its host to do, and what it knows of the box it drives.
use vstd::prelude::*;

use crate::channels;
use crate::text;

verus! {

/// The streamer.
pub const MEDIA: u32 = 1;

/// The screen, on the manifest that has one.
///
/// A `roku.player` has no screen at all, so a command aimed at one is refused rather than sent to
/// a stick that would ignore it.
pub const TV: u32 = 2;

/// One HTTP request. A bare path is resolved against the box by the host.
#[derive(Debug, Clone, PartialEq, Eq)]
pub struct HttpRequest {
    pub method: String,
    pub url: String,
}

/// A request as its texts.
#[verifier::ext_equal]
pub struct HttpRequestView {
    pub method: Seq<char>,
    pub url: Seq<char>,
}

impl DeepView for HttpRequest {
    type V = HttpRequestView;

    open spec fn deep_view(&self) -> HttpRequestView {
        HttpRequestView { method: self.method@, url: self.url@ }
    }
}

/// The value of one argument of a notice.
#[derive(Debug, Clone, PartialEq, Eq)]
pub enum ArgValue {
    Bool(bool),
    Number(u64),
    Text(String),
    Texts(Vec<String>),
}

/// The value of one argument as plain values.
#[verifier::ext_equal]
pub enum ArgView {
    Bool(bool),
    Number(u64),
    Text(Seq<char>),
    Texts(Seq<Seq<char>>),
}

impl DeepView for ArgValue {
    type V = ArgView;

    open spec fn deep_view(&self) -> ArgView {
        match self {
            ArgValue::Bool(b) => ArgView::Bool(*b),
            ArgValue::Number(n) => ArgView::Number(*n),
            ArgValue::Text(s) => ArgView::Text(s@),
            ArgValue::Texts(v) => ArgView::Texts(v.deep_view()),
        }
    }
}

/// Which way a connection goes.
#[derive(Debug, Clone, Copy, PartialEq, Eq, Structural)]
pub enum Direction {
    /// The set takes the signal in.
    Consumer,
}

/// One of a set's physical inputs.
#[derive(Debug, Clone, PartialEq, Eq)]
pub struct ConnectionDecl {
    pub id: u32,
    pub proxy: Option<u32>,
    pub dir: Direction,
    pub class: String,
    pub name: String,
}

/// An input as plain values.
#[verifier::ext_equal]
pub struct ConnectionView {
    pub id: u32,
    pub proxy: Option<u32>,
    pub dir: Direction,
    pub class: Seq<char>,
    pub name: Seq<char>,
}

impl DeepView for ConnectionDecl {
    type V = ConnectionView;

    open spec fn deep_view(&self) -> ConnectionView {
        ConnectionView {
            id: self.id,
            proxy: self.proxy,
            dir: self.dir,
            class: self.class@,
            name: self.name@,
        }
    }
}

/// One thing for the host to do.
#[derive(Debug, Clone, PartialEq, Eq)]
pub enum HostCall {
    /// Send a request to the box.
    Http(HttpRequest),
    /// Tell the house that something of a proxy changed.
    Notify { proxy: u32, name: String, args: Vec<(String, ArgValue)> },
    /// Write a line to the log.
    Log { level: String, msg: String },
    /// Say which inputs the box has.
    Connections { connections: Vec<ConnectionDecl> },
}

/// A call as plain values.
#[verifier::ext_equal]
pub enum HostCallView {
    Http(HttpRequestView),
    Notify { proxy: u32, name: Seq<char>, args: Seq<(Seq<char>, ArgView)> },
    Log { level: Seq<char>, msg: Seq<char> },
    Connections { connections: Seq<ConnectionView> },
}

impl DeepView for HostCall {
    type V = HostCallView;

    open spec fn deep_view(&self) -> HostCallView {
        match self {
            HostCall::Http(request) => HostCallView::Http(request.deep_view()),
            HostCall::Notify { proxy, name, args } => HostCallView::Notify {
                proxy: *proxy,
                name: name@,
                args: args.deep_view(),
            },
            HostCall::Log { level, msg } => HostCallView::Log { level: level@, msg: msg@ },
            HostCall::Connections { connections } => HostCallView::Connections {
                connections: connections.deep_view(),
            },
        }
    }
}

/// A request to the box itself.
pub open spec fn sent(method: Seq<char>, url: Seq<char>) -> HostCallView {
    HostCallView::Http(HttpRequestView { method, url })
}

/// A warning in the log.
pub open spec fn warned(msg: Seq<char>) -> HostCallView {
    HostCallView::Log { level: "warn"@, msg }
}

/// A notice that carries one argument.
pub open spec fn noticed(
    proxy: u32,
    name: Seq<char>,
    key: Seq<char>,
    value: ArgView,
) -> HostCallView {
    HostCallView::Notify { proxy, name, args: seq![(key, value)] }
}

impl HttpRequest {
    pub fn new(method: &str, url: String) -> (r: HttpRequest)
        ensures
            r.deep_view() == (HttpRequestView { method: method@, url: url@ }),
    {
        HttpRequest { method: method.to_owned(), url }
    }
}

impl HostCall {
    /// A warning in the log.
    pub fn warn(msg: String) -> (r: HostCall)
        ensures
            r.deep_view() == warned(msg@),
    {
        HostCall::Log { level: "warn".to_owned(), msg }
    }

    /// A request to the box itself.
    pub fn http(method: &str, url: String) -> (r: HostCall)
        ensures
            r.deep_view() == sent(method@, url@),
    {
        HostCall::Http(HttpRequest::new(method, url))
    }

    /// A notice that carries one argument.
    pub fn notify(proxy: u32, name: &str, key: &str, value: ArgValue) -> (r: HostCall)
        ensures
            r.deep_view() == noticed(proxy, name@, key@, value.deep_view()),
    {
        let mut args: Vec<(String, ArgValue)> = Vec::new();
        let ghost v = value.deep_view();
        args.push((key.to_owned(), value));
        assert(args.deep_view() =~= seq![(key@, v)]);
        HostCall::Notify { proxy, name: name.to_owned(), args }
    }
}

/// No calls.
pub(crate) fn none() -> (r: Vec<HostCall>)
    ensures
        r.deep_view() == Seq::<HostCallView>::empty(),
{
    let calls: Vec<HostCall> = Vec::new();
    assert(calls.deep_view() =~= Seq::<HostCallView>::empty());
    calls
}

/// A list of one call.
pub(crate) fn one(call: HostCall) -> (r: Vec<HostCall>)
    ensures
        r.deep_view() == seq![call.deep_view()],
{
    let mut calls: Vec<HostCall> = Vec::new();
    let ghost view = call.deep_view();
    calls.push(call);
    assert(calls.deep_view() =~= seq![view]);
    calls
}

/// One more call at the end of a list.
pub(crate) fn add_call(calls: &mut Vec<HostCall>, call: HostCall)
    ensures
        final(calls).deep_view() == old(calls).deep_view().push(call.deep_view()),
{
    let ghost before = calls.deep_view();
    let ghost view = call.deep_view();
    calls.push(call);
    assert(calls.deep_view() =~= before.push(view));
}

/// What the driver knows of one box.
#[derive(Debug, Clone)]
pub struct Instance {
    /// The property `Address`, where it is text.
    pub address: Option<String>,
    /// The property `Port`, where it is a number.
    pub port: Option<u64>,
    /// The channels of the box, from id to name, as it last listed them.
    pub app_map: Option<serde_json::Map<String, serde_json::Value>>,
    /// The box would not list its channels, and those kept are a guess.
    pub apps_unconfirmed: Option<bool>,
}

/// What the driver knows of one box, as plain values.
#[verifier::ext_equal]
pub struct InstanceView {
    pub address: Option<Seq<char>>,
    pub port: Option<u64>,
    pub channels: Option<Seq<channels::Channel>>,
    pub apps_unconfirmed: Option<bool>,
}

impl View for Instance {
    type V = InstanceView;

    open spec fn view(&self) -> InstanceView {
        InstanceView {
            address: self.address.deep_view(),
            port: self.port,
            channels: match self.app_map {
                Some(map) => Some(channels::walked(map)),
                None => None,
            },
            apps_unconfirmed: self.apps_unconfirmed,
        }
    }
}

impl Default for Instance {
    /// A box of which nothing is known.
    fn default() -> (r: Instance)
        ensures
            r@ == (InstanceView {
                address: None,
                port: None,
                channels: None,
                apps_unconfirmed: None,
            }),
    {
        Instance { address: None, port: None, app_map: None, apps_unconfirmed: None }
    }
}

/// Where a box is reached, with the port of ECP unless another is set. None without an address.
pub open spec fn base_of(inst: InstanceView) -> Option<Seq<char>> {
    match inst.address {
        Some(address) => {
            let address = text::trimmed(address);
            let port = match inst.port {
                Some(port) => port,
                None => 8060,
            };
            if address.len() == 0 {
                None
            } else {
                Some("http://"@ + address + ":"@ + text::decimal(port as nat))
            }
        },
        None => None,
    }
}

/// An absolute base, for the one thing that needs one: the artwork URLs handed to a screen, which
/// a browser dereferences rather than the host. Requests go out as bare paths.
pub fn base(inst: &Instance) -> (r: Option<String>)
    ensures
        r.deep_view() == base_of(inst@),
{
    match &inst.address {
        Some(address) => {
            let address = text::trim(address);
            let port: u64 = match inst.port {
                Some(port) => port,
                None => 8060,
            };
            if address.as_str().is_empty() {
                None
            } else {
                Some("http://".to_owned().concat(&address).concat(":").concat(&text::to_decimal(port)))
            }
        },
        None => None,
    }
}

} // verus!

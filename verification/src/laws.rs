//! What holds of the driver as a whole: of every command, every answer and every setup.
use vstd::prelude::*;

use crate::carry;
use crate::channels;
use crate::command;
use crate::event;
use crate::event::REFUSAL;
use crate::host;
use crate::host::{MEDIA, TV};
use crate::inputs;
use crate::json::Json;
use crate::setup;
use crate::text;
use crate::xml;

verus! {

/// The calls that launch one of a list of channels.
pub open spec fn launches(
    calls: Seq<host::HostCallView>,
    app: (Seq<char>, Seq<char>),
    args: command::CommandArgsView,
) -> bool {
    &&& calls.len() >= 2
    &&& calls[0] == host::sent(
        "POST"@,
        command::launch_url(app.0, args.content_id, args.content_kind),
    )
    &&& calls[1] == host::noticed(MEDIA, "app_changed"@, "app"@, host::ArgView::Text(app.1))
}

/// The calls launch a channel of the list that goes by the name of the one at `i`.
pub open spec fn launches_one_called(
    calls: Seq<host::HostCallView>,
    apps: Seq<(Seq<char>, Seq<char>)>,
    i: int,
    args: command::CommandArgsView,
) -> bool {
    exists|j: int|
        {
            &&& #[trigger] channels::is_last_of_id(apps, j)
            &&& channels::normalized(apps[j].1) == channels::normalized(apps[i].1)
            &&& launches(calls, apps[j], args)
        }
}

/// On a box whose channels are those of a list, the name of one of them launches a channel of
/// that name.
proof fn lemma_kept_channel_is_launched(
    inst: host::InstanceView,
    apps: Seq<(Seq<char>, Seq<char>)>,
    i: int,
    args: command::CommandArgsView,
)
    requires
        inst.channels == Some(channels::mapped(apps)),
        channels::is_last_of_id(apps, i),
        args.app == Some(apps[i].1),
    ensures
        launches_one_called(command::launched(inst, args), apps, i, args),
{
    let kept = channels::mapped(apps);
    let name = apps[i].1;
    channels::law_channels_are_kept(apps);
    assert(kept.contains((apps[i].0, Some(apps[i].1))));
    channels::law_channel_answers_to_its_name(kept, apps[i].0, name);
    let c = channels::meant(kept, name)->0;
    assert(kept.contains(c));
    let j = choose|j: int|
        channels::is_last_of_id(apps, j) && apps[j].0 == c.0 && c.1 == Some(apps[j].1);
    channels::law_id_leads_to_name(kept, c);
    assert(launches(command::launched(inst, args), apps[j], args));
}

/// The launch of a channel is not the launcher's own command.
proof fn lemma_launch_is_no_launcher()
    ensures
        "launch_app"@ != "open_app_launcher"@,
{
    reveal_strlit("launch_app");
    reveal_strlit("open_app_launcher");
    assert("launch_app"@.len() != "open_app_launcher"@.len());
}

/// Whatever a box lists can be launched by the name that it is listed with: right after the list
/// was heard, that name launches a listed channel which goes by it, and says so. Where an id was
/// listed twice, this is said of its last name.
pub proof fn law_listed_channels_can_be_launched(
    inst: host::InstanceView,
    body: Seq<char>,
    proxy: u32,
    i: int,
    args: command::CommandArgsView,
)
    requires
        event::kind_of(body) is Apps,
        channels::is_last_of_id(xml::listed_apps(body), i),
        args.app == Some(xml::listed_apps(body)[i].1),
    ensures
        launches_one_called(
            command::commanded(event::learned(inst, body), proxy, "launch_app"@, args),
            xml::listed_apps(body),
            i,
            args,
        ),
{
    lemma_launch_is_no_launcher();
    lemma_kept_channel_is_launched(
        event::learned(inst, body),
        xml::listed_apps(body),
        i,
        args,
    );
}

/// A box that refuses to list what it has is still of use: each of the well-known channels can
/// then be launched by its name, and the log says that nothing may come of it.
pub proof fn law_well_known_channels_can_be_launched(
    inst: host::InstanceView,
    body: Seq<char>,
    proxy: u32,
    i: int,
    args: command::CommandArgsView,
)
    requires
        event::kind_of(body) is Limited,
        0 <= i < event::well_known_apps().len(),
        args.app == Some(event::well_known_apps()[i].1),
    ensures
        launches_one_called(
            command::commanded(event::learned(inst, body), proxy, "launch_app"@, args),
            event::well_known_apps(),
            i,
            args,
        ),
        command::commanded(event::learned(inst, body), proxy, "launch_app"@, args).len() == 3,
        command::commanded(event::learned(inst, body), proxy, "launch_app"@, args)[2] is Log,
{
    let apps = event::well_known_apps();
    reveal_strlit("12");
    reveal_strlit("837");
    reveal_strlit("13");
    reveal_strlit("291097");
    reveal_strlit("61322");
    reveal_strlit("151908");
    reveal_strlit("2285");
    assert("12"@ != "13"@) by {
        assert("12"@[1] != "13"@[1]);
    }
    assert("291097"@ != "151908"@) by {
        assert("291097"@[0] != "151908"@[0]);
    }
    assert(apps[0].0 == "12"@ && apps[1].0 == "837"@ && apps[2].0 == "13"@ && apps[3].0
        == "291097"@ && apps[4].0 == "61322"@ && apps[5].0 == "151908"@ && apps[6].0 == "2285"@);
    assert forall|j: int| i < j < apps.len() implies #[trigger] apps[j].0 != apps[i].0 by {
        assert(j == 1 || j == 2 || j == 3 || j == 4 || j == 5 || j == 6);
        assert(i == 0 || i == 1 || i == 2 || i == 3 || i == 4 || i == 5);
    }
    assert(channels::is_last_of_id(apps, i));
    lemma_launch_is_no_launcher();
    lemma_kept_channel_is_launched(event::learned(inst, body), apps, i, args);
}

/// A command of the screen's keys is none of the others.
proof fn lemma_screen_key_is_no_other(cmd: Seq<char>)
    requires
        command::screen_key(cmd) is Some,
    ensures
        cmd != "open_app_launcher"@,
        cmd != "launch_app"@,
        cmd != "set_input"@,
        cmd != "dpad"@,
        command::common_key(cmd) is None,
        command::transport_after(cmd) is None,
{
    reveal_strlit("open_app_launcher");
    reveal_strlit("launch_app");
    reveal_strlit("set_input");
    reveal_strlit("dpad");
    reveal_strlit("on");
    reveal_strlit("off");
    reveal_strlit("power_toggle");
    reveal_strlit("volume_up");
    reveal_strlit("volume_down");
    reveal_strlit("mute_toggle");
    reveal_strlit("play");
    reveal_strlit("pause");
    reveal_strlit("stop");
    reveal_strlit("skip_forward");
    reveal_strlit("scan_forward");
    reveal_strlit("skip_back");
    reveal_strlit("scan_reverse");
    reveal_strlit("search");
    assert("open_app_launcher"@.len() == 17 && "launch_app"@.len() == 10 && "set_input"@.len() == 9
        && "dpad"@.len() == 4);
    assert("play"@.len() == 4 && "pause"@.len() == 5 && "stop"@.len() == 4
        && "skip_forward"@.len() == 12 && "scan_forward"@.len() == 12 && "skip_back"@.len() == 9
        && "scan_reverse"@.len() == 12 && "search"@.len() == 6);
    assert("on"@.len() == 2 && "off"@.len() == 3 && "power_toggle"@.len() == 12
        && "volume_up"@.len() == 9 && "volume_down"@.len() == 11 && "mute_toggle"@.len() == 11);
    // No two of them are of one length and start with the same letter.
    if cmd == "power_toggle"@ {
        assert(cmd[0] == 'p');
        assert("skip_forward"@[0] == 's' && "scan_forward"@[0] == 's' && "scan_reverse"@[0] == 's');
    } else if cmd == "volume_up"@ {
        assert(cmd[0] == 'v');
        assert("set_input"@[0] == 's' && "skip_back"@[0] == 's');
    }
}

/// The switch of an input is none of the other commands.
proof fn lemma_set_input_is_no_other()
    ensures
        "set_input"@ != "open_app_launcher"@,
        "set_input"@ != "launch_app"@,
        "set_input"@ != "dpad"@,
        command::common_key("set_input"@) is None,
{
    reveal_strlit("open_app_launcher");
    reveal_strlit("launch_app");
    reveal_strlit("set_input");
    reveal_strlit("dpad");
    reveal_strlit("play");
    reveal_strlit("pause");
    reveal_strlit("stop");
    reveal_strlit("skip_forward");
    reveal_strlit("scan_forward");
    reveal_strlit("skip_back");
    reveal_strlit("scan_reverse");
    reveal_strlit("search");
    assert("open_app_launcher"@.len() == 17 && "launch_app"@.len() == 10 && "set_input"@.len() == 9
        && "dpad"@.len() == 4);
    assert("play"@.len() == 4 && "pause"@.len() == 5 && "stop"@.len() == 4
        && "skip_forward"@.len() == 12 && "scan_forward"@.len() == 12 && "skip_back"@.len() == 9
        && "scan_reverse"@.len() == 12 && "search"@.len() == 6);
    assert("set_input"@[1] != "skip_back"@[1]);
}

/// Volume, power and inputs belong to the screen: aimed at anything but the screen they are
/// refused, and nothing is sent to the box.
pub proof fn law_screen_commands_are_the_screens(
    inst: host::InstanceView,
    proxy: u32,
    cmd: Seq<char>,
    args: command::CommandArgsView,
)
    requires
        proxy != TV,
        command::screen_key(cmd) is Some || cmd == "set_input"@,
    ensures
        command::commanded(inst, proxy, cmd, args) == seq![
            host::warned("roku: unhandled `"@ + cmd + "`"@),
        ],
{
    if cmd == "set_input"@ {
        lemma_set_input_is_no_other();
    } else {
        lemma_screen_key_is_no_other(cmd);
    }
}

/// A power key is followed by the question what became of it, and by nothing else.
pub proof fn law_power_is_asked_after(
    inst: host::InstanceView,
    cmd: Seq<char>,
    args: command::CommandArgsView,
)
    requires
        command::is_power(cmd),
    ensures
        command::commanded(inst, TV, cmd, args) == seq![
            command::pressed(command::screen_key(cmd)->0),
            host::sent("GET"@, "/query/device-info"@),
        ],
{
    lemma_screen_key_is_no_other(cmd);
    assert(command::commanded(inst, TV, cmd, args) =~= seq![
        command::pressed(command::screen_key(cmd)->0),
        host::sent("GET"@, "/query/device-info"@),
    ]);
}

/// A call that says whether the set is on.
pub open spec fn reports_power(call: host::HostCallView) -> bool {
    call matches host::HostCallView::Notify { name, .. } && name == "power_changed"@
}

/// No other notice has the name of the one on power.
proof fn lemma_notices_differ()
    ensures
        "app_changed"@ != "power_changed"@,
        "apps_changed"@ != "power_changed"@,
        "input_changed"@ != "power_changed"@,
        "transport_changed"@ != "power_changed"@,
{
    reveal_strlit("app_changed");
    reveal_strlit("apps_changed");
    reveal_strlit("input_changed");
    reveal_strlit("transport_changed");
    reveal_strlit("power_changed");
    assert("input_changed"@[0] != "power_changed"@[0]);
}

/// No command is taken for its outcome: whatever is commanded, nothing is said of the power.
pub proof fn law_no_command_reports_power(
    inst: host::InstanceView,
    proxy: u32,
    cmd: Seq<char>,
    args: command::CommandArgsView,
)
    ensures
        forall|i: int|
            0 <= i < command::commanded(inst, proxy, cmd, args).len() ==> !reports_power(
                #[trigger] command::commanded(inst, proxy, cmd, args)[i],
            ),
{
    lemma_notices_differ();
}

/// Power is what the set says it is: it is reported of the screen alone, from the set's own
/// record, as on exactly where that says `PowerOn`.
pub proof fn law_power_comes_from_the_set(inst: host::InstanceView, body: Seq<char>, i: int)
    requires
        0 <= i < event::answered(inst, body).len(),
        reports_power(event::answered(inst, body)[i]),
    ensures
        event::kind_of(body) is DeviceInfo,
        xml::element(body, "power-mode"@) is Some,
        event::answered(inst, body)[i] == host::noticed(
            TV,
            "power_changed"@,
            "on"@,
            host::ArgView::Bool(
                event::same_but_case(xml::element(body, "power-mode"@)->0, "PowerOn"@),
            ),
        ),
{
    lemma_notices_differ();
}

/// What is playing is not what is installed: of all that a box answers, only a list of channels
/// or the refusal of one changes what is known of it, and neither changes where it is.
pub proof fn law_only_lists_are_learned(inst: host::InstanceView, body: Seq<char>)
    ensures
        !(event::kind_of(body) is Apps) && !(event::kind_of(body) is Limited) ==> event::learned(
            inst,
            body,
        ) == inst,
        event::learned(inst, body).address == inst.address,
        event::learned(inst, body).port == inst.port,
        text::holds(body, "<active-app>"@) && !text::holds(body, REFUSAL@) ==> event::learned(
            inst,
            body,
        ) == inst,
{
}

/// Every input that a set is reported to have can be switched to, by the connection that it was
/// reported with.
pub proof fn law_reported_inputs_can_be_switched_to(
    inst: host::InstanceView,
    apps: Seq<(Seq<char>, Seq<char>)>,
    i: int,
    args: command::CommandArgsView,
)
    requires
        0 <= i < event::inputs_among(apps).len(),
        args.connection == Some(event::inputs_among(apps)[i].id as u64),
    ensures
        exists|channel: Seq<char>|
            {
                &&& #[trigger] inputs::connection_of(channel) == Some(
                    event::inputs_among(apps)[i].id,
                )
                &&& command::commanded(inst, TV, "set_input"@, args) == seq![
                    host::sent("POST"@, "/launch/"@ + channel),
                    host::noticed(
                        TV,
                        "input_changed"@,
                        "connection"@,
                        host::ArgView::Number(event::inputs_among(apps)[i].id as u64),
                    ),
                ]
            },
{
    let read = |app: (Seq<char>, Seq<char>)| event::input_of(app);
    let input = event::inputs_among(apps)[i];
    assert(apps.filter_map(read).contains(input));
    apps.lemma_filter_map_contains(read, input);
    let app = choose|app: (Seq<char>, Seq<char>)|
        #[trigger] apps.contains(app) && read(app) == Some(input);
    inputs::law_every_input_can_be_switched_to(app.0);
    lemma_set_input_is_no_other();
    let channel = inputs::channel_of(input.id as u64)->0;
    assert(inputs::connection_of(channel) == Some(input.id));
}

/// A connection that no set has is refused, and nothing is sent.
pub proof fn law_unknown_connections_are_refused(
    inst: host::InstanceView,
    connection: u64,
    args: command::CommandArgsView,
)
    requires
        args.connection == Some(connection),
        connection > u32::MAX || (forall|channel: Seq<char>|
            #[trigger] inputs::connection_of(channel) != Some(connection as u32)),
    ensures
        command::commanded(inst, TV, "set_input"@, args) == seq![
            host::warned("roku: no such connection "@ + text::decimal(connection as nat)),
        ],
{
    lemma_set_input_is_no_other();
    if inputs::channel_of(connection) is Some {
        inputs::law_connection_survives_the_channel_id(connection);
    }
}

/// A player lists no inputs, and says nothing of connections at all; a set never says that it has
/// none.
pub proof fn law_connections_are_said_only_of_sets(inst: host::InstanceView, body: Seq<char>, i: int)
    requires
        0 <= i < event::answered(inst, body).len(),
        event::answered(inst, body)[i] is Connections,
    ensures
        event::answered(inst, body)[i]->connections.len() > 0,
        exists|k: int|
            0 <= k < xml::listed_apps(body).len() && inputs::connection_of(
                #[trigger] xml::listed_apps(body)[k].0,
            ) is Some,
{
    let apps = xml::listed_apps(body);
    let read = |app: (Seq<char>, Seq<char>)| event::input_of(app);
    let input = event::inputs_among(apps)[0];
    assert(apps.filter_map(read).contains(input));
    apps.lemma_filter_map_contains(read, input);
    let app = choose|app: (Seq<char>, Seq<char>)|
        #[trigger] apps.contains(app) && read(app) == Some(input);
    let k = choose|k: int| 0 <= k < apps.len() && apps[k] == app;
    assert(inputs::connection_of(apps[k].0) is Some);
}

/// The phases of a setup are told apart.
proof fn lemma_phases_differ()
    ensures
        "start"@ != "naming"@ && "start"@ != "probe"@ && "start"@ != "probed"@ && "start"@
            != "chosen"@,
        "naming"@ != "probe"@ && "naming"@ != "probed"@ && "naming"@ != "chosen"@,
        "probe"@ != "probed"@ && "probe"@ != "chosen"@,
        "probed"@ != "chosen"@,
{
    reveal_strlit("start");
    reveal_strlit("naming");
    reveal_strlit("probe");
    reveal_strlit("probed");
    reveal_strlit("chosen");
    assert("start"@[0] == 's' && "naming"@[0] == 'n' && "probe"@[0] == 'p' && "probed"@[0] == 'p'
        && "chosen"@[0] == 'c');
    assert("probe"@.len() != "probed"@.len());
}

/// The phase that a setup is in.
pub open spec fn phase_of(state: setup::SetupStateView) -> Seq<char> {
    match state.phase {
        Some(phase) => phase,
        None => "start"@,
    }
}

/// Whether a setup has come down to one box: it is to be asked what it is, or has been.
pub open spec fn has_a_box(state: setup::SetupStateView, input: setup::SetupInputView) -> bool {
    ||| phase_of(state) == "probed"@
    ||| phase_of(state) == "probe"@ && (state.address is Some || input.address is Some)
}

/// The record of the box that a setup has in hand: the one that it carries, or else the answer that
/// just came.
pub open spec fn record_in_hand(
    state: setup::SetupStateView,
    input: setup::SetupInputView,
) -> Seq<char> {
    match (state.info, input.response) {
        (Some(info), _) => info,
        (None, Some(response)) => response,
        (None, None) => ""@,
    }
}

/// What a setup may offer or add of itself: one device, once the box has given a record and has been
/// asked for its channels. It is `roku.tv` where the record says that the box is a television, and
/// `roku.player` where not.
pub open spec fn is_what_the_box_says(
    state: setup::SetupStateView,
    input: setup::SetupInputView,
    devices: Seq<setup::CandidateView>,
) -> bool {
    let info = record_in_hand(state, input);
    &&& phase_of(state) == "probed"@
    &&& text::holds(info, "<device-info>"@)
    &&& setup::is_set(state.checked_control)
    &&& devices.len() == 1
    &&& devices[0].driver_id == (if setup::record_of(info).is_tv {
        "roku.tv"@
    } else {
        "roku.player"@
    })
}

/// Nobody is asked which of the two manifests a box is: the box says so, and nothing is offered or
/// added before it did. Beside that a setup adds only what was chosen among what it offered.
pub proof fn law_the_box_says_which_manifest_it_is(
    state: setup::SetupStateView,
    input: setup::SetupInputView,
)
    ensures
        match setup::stepped(state, input).0 {
            setup::SetupStepView::Choose { options, .. } => is_what_the_box_says(
                state,
                input,
                options,
            ),
            setup::SetupStepView::Done { devices } => {
                ||| is_what_the_box_says(state, input, devices)
                ||| phase_of(state) == "chosen"@ && devices == match input.chosen {
                    Some(chosen) => chosen,
                    None => seq![],
                }
            },
            _ => true,
        },
{
    lemma_phases_differ();
}

/// What was said once is not said again, and what was answered once is not asked again: while a
/// setup is about one box, the notice on Limited control does not come back once it was shown,
/// a box that somebody pointed at is never offered back for confirmation, and both are remembered
/// from step to step.
pub proof fn law_nothing_is_asked_twice(
    state: setup::SetupStateView,
    input: setup::SetupInputView,
)
    requires
        has_a_box(state, input),
    ensures
        ({
            let (step, next) = setup::stepped(state, input);
            &&& step is Fetch || step is Instruct || step is Choose || step is Done
                || step is Failed
            &&& setup::is_set(state.nagged) ==> !(step is Instruct)
            &&& setup::is_set(state.chosen) ==> !(step is Choose)
            &&& step is Instruct ==> setup::is_set(next.nagged)
            &&& step is Fetch || step is Instruct ==> {
                &&& setup::is_set(state.nagged) ==> setup::is_set(next.nagged)
                &&& setup::is_set(state.chosen) ==> setup::is_set(next.chosen)
                &&& !setup::is_set(state.chosen) ==> !setup::is_set(next.chosen)
                &&& has_a_box(next, input)
            }
        }),
{
    lemma_phases_differ();
}

/// A setup that is over leaves nothing behind: the host is handed null.
pub proof fn law_the_end_leaves_nothing(state: setup::SetupStateView, input: setup::SetupInputView)
    ensures
        setup::stepped(state, input).0 is Done || setup::stepped(state, input).0 is Failed ==> {
            &&& setup::stepped(state, input).1 == setup::blank()
            &&& carry::state_out(setup::stepped(state, input).1) == Json::Null
        },
{
}

/// A state in which a setup begins.
pub open spec fn is_start(state: setup::SetupStateView) -> bool {
    phase_of(state) == "start"@
}

/// A box that was pressed among the results of a search is asked what it is, then what it has,
/// and then it is added: no list of one to pick from and no confirmation in between, so long as
/// the box answers as a Roku and does not refuse its channels.
pub proof fn law_pressed_box_is_added(
    state: setup::SetupStateView,
    pressed: setup::SetupInputView,
    told: setup::SetupInputView,
    checked: setup::SetupInputView,
)
    requires
        is_start(state),
        setup::only_candidate(state) is Some,
        told.response is Some,
        text::holds(told.response->0, "<device-info>"@),
        !refuses(checked.response),
    ensures
        ({
            let address = setup::only_candidate(state)->0;
            let info = told.response->0;
            let (probe, asked) = setup::stepped(state, pressed);
            let (check, answered) = setup::stepped(asked, told);
            let (end, after) = setup::stepped(answered, checked);
            &&& probe == setup::probe_of(address)
            &&& check == setup::fetched(address, "/query/apps"@, "checking external control"@)
            &&& end == setup::SetupStepView::Done {
                devices: seq![setup::offered(address, setup::record_of(info), false)],
            }
            &&& after == setup::blank()
        }),
{
    lemma_phases_differ();
}

/// Whether an answer refuses the list of channels.
pub open spec fn refuses(response: Option<Seq<char>>) -> bool {
    response is Some && text::holds(response->0, REFUSAL@)
}

/// A pressed box that refuses to list its channels is added all the same, after one notice: once
/// the notice was read it is asked again from the start, and then it is added, whether it still
/// refuses or not. What is added says whether it does.
pub proof fn law_limited_box_is_added_after_one_notice(
    state: setup::SetupStateView,
    pressed: setup::SetupInputView,
    told: setup::SetupInputView,
    refused: setup::SetupInputView,
    read: setup::SetupInputView,
    told_again: setup::SetupInputView,
    last: setup::SetupInputView,
)
    requires
        is_start(state),
        setup::only_candidate(state) is Some,
        told.response is Some,
        text::holds(told.response->0, "<device-info>"@),
        refuses(refused.response),
        told_again.response is Some,
        text::holds(told_again.response->0, "<device-info>"@),
    ensures
        ({
            let first = setup::only_candidate(state)->0;
            let address = text::without_ending(text::trimmed(first), ":8060"@);
            let (probe, asked) = setup::stepped(state, pressed);
            let (check, answered) = setup::stepped(asked, told);
            let (notice, noticed) = setup::stepped(answered, refused);
            let (probe_again, asked_again) = setup::stepped(noticed, read);
            let (check_again, answered_again) = setup::stepped(asked_again, told_again);
            let (end, after) = setup::stepped(answered_again, last);
            &&& probe == setup::probe_of(first)
            &&& check == setup::fetched(first, "/query/apps"@, "checking external control"@)
            &&& notice is Instruct
            &&& probe_again == setup::probe_of(address)
            &&& check_again == setup::fetched(
                address,
                "/query/apps"@,
                "checking external control"@,
            )
            &&& end == setup::SetupStepView::Done {
                devices: seq![
                    setup::offered(
                        address,
                        setup::record_of(told_again.response->0),
                        refuses(last.response),
                    ),
                ],
            }
            &&& after == setup::blank()
        }),
{
    lemma_phases_differ();
}

/// The step asks the next responder in the list, and no other, what it is called.
pub open spec fn asks_for_the_next_name(
    state: setup::SetupStateView,
    found: Seq<setup::ResponderView>,
    step: setup::SetupStepView,
) -> bool {
    &&& setup::asked(state) < found.len()
    &&& found[setup::asked(state) as int].address matches Some(address)
    &&& step == setup::fetched(
        address,
        "/query/device-info"@,
        "asking "@ + address + " what it is called"@,
    )
}

/// Several responders are a real question: none of them is taken for the one that was pressed.
/// They are asked for their names, or else shown.
pub proof fn law_several_are_a_question(
    state: setup::SetupStateView,
    input: setup::SetupInputView,
    found: Seq<setup::ResponderView>,
)
    requires
        is_start(state),
        state.ssdp_candidates == Some(found),
        found.len() > 1,
    ensures
        ({
            let (step, next) = setup::stepped(state, input);
            ||| asks_for_the_next_name(state, found, step) && phase_of(next) == "naming"@
                && next.chosen == state.chosen
            ||| step is Pick && next == setup::to_probe()
        }),
{
    lemma_phases_differ();
}

/// A box that was picked from a list, or typed in, is asked what it is and what it has, and is then
/// offered for confirmation; what is confirmed is added.
pub proof fn law_picked_box_is_confirmed(
    picked: setup::SetupInputView,
    told: setup::SetupInputView,
    checked: setup::SetupInputView,
    confirmed: setup::SetupInputView,
    devices: Seq<setup::CandidateView>,
)
    requires
        picked.address is Some,
        told.response is Some,
        text::holds(told.response->0, "<device-info>"@),
        !refuses(checked.response),
        confirmed.chosen == Some(devices),
    ensures
        ({
            let address = text::without_ending(text::trimmed(picked.address->0), ":8060"@);
            let info = told.response->0;
            let (probe, asked) = setup::stepped(setup::to_probe(), picked);
            let (check, answered) = setup::stepped(asked, told);
            let (offer, choosing) = setup::stepped(answered, checked);
            let (end, after) = setup::stepped(choosing, confirmed);
            &&& probe == setup::probe_of(address)
            &&& check == setup::fetched(address, "/query/apps"@, "checking external control"@)
            &&& offer is Choose
            &&& offer->options == seq![setup::offered(address, setup::record_of(info), false)]
            &&& end == setup::SetupStepView::Done { devices }
            &&& after == setup::blank()
        }),
{
    lemma_phases_differ();
}

/// The naming of the responders comes to an end: each step asks one of them, the next in the
/// list, and when none is left to ask the list is shown.
pub proof fn law_naming_comes_to_an_end(
    state: setup::SetupStateView,
    input: setup::SetupInputView,
    found: Seq<setup::ResponderView>,
)
    requires
        phase_of(state) == "naming"@,
        state.ssdp_candidates == Some(found),
        0 < found.len() <= u64::MAX,
    ensures
        ({
            let (step, next) = setup::stepped(state, input);
            ||| {
                &&& asks_for_the_next_name(state, found, step)
                &&& phase_of(next) == "naming"@
                &&& next.ssdp_candidates is Some
                &&& next.ssdp_candidates->0.len() == found.len()
                &&& setup::asked(next) == setup::asked(state) + 1
            }
            ||| step is Pick && next == setup::to_probe()
        }),
{
    lemma_phases_differ();
    let named = setup::after_naming(state, input.response);
    assert(setup::asked(named) == setup::asked(state));
    assert(named.ssdp_candidates->0.len() == found.len());
}

/// An answer is recorded with the responder that was asked, and with no other, and it changes
/// nothing of where that one is or how it was found.
pub proof fn law_answers_go_with_who_was_asked(
    state: setup::SetupStateView,
    response: Option<Seq<char>>,
    found: Seq<setup::ResponderView>,
)
    requires
        state.ssdp_candidates == Some(found),
    ensures
        setup::after_naming(state, response) == (setup::SetupStateView {
            ssdp_candidates: setup::after_naming(state, response).ssdp_candidates,
            ..state
        }),
        setup::after_naming(state, response).ssdp_candidates matches Some(after) && {
            &&& after.len() == found.len()
            &&& forall|i: int|
                0 <= i < found.len() && i != setup::asked(state) - 1 ==> #[trigger] after[i]
                    == found[i]
            &&& forall|i: int|
                0 <= i < found.len() ==> {
                    &&& (#[trigger] after[i]).address == found[i].address
                    &&& after[i].usn == found[i].usn
                    &&& after[i].server == found[i].server
                    &&& after[i].rest == found[i].rest
                }
        },
{
}

} // verus!

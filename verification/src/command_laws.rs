//! What a command is for, said of every command: the requests and the notices letter by letter.
use vstd::prelude::*;

use crate::channels;
use crate::command;
use crate::host;
use crate::host::{MEDIA, TV};
use crate::json;
use crate::text;
use crate::text_laws;

verus! {

/// A request, letter by letter.
pub open spec fn request(method: Seq<char>, url: Seq<char>) -> host::HostCallView {
    host::HostCallView::Http(host::HttpRequestView { method, url })
}

/// A line in the log.
pub open spec fn line(level: Seq<char>, msg: Seq<char>) -> host::HostCallView {
    host::HostCallView::Log { level, msg }
}

/// A notice with one argument.
pub open spec fn notice(
    proxy: u32,
    name: Seq<char>,
    key: Seq<char>,
    value: host::ArgView,
) -> host::HostCallView {
    host::HostCallView::Notify { proxy, name, args: seq![(key, value)] }
}

/// The commands with words of their own are told apart.
proof fn lemma_own_commands_differ()
    ensures
        "launch_app"@ != "open_app_launcher"@ && "launch_app"@ != "set_input"@,
        "set_input"@ != "open_app_launcher"@,
{
    reveal_strlit("launch_app");
    reveal_strlit("open_app_launcher");
    reveal_strlit("set_input");
    assert("launch_app"@.len() == 10 && "open_app_launcher"@.len() == 17 && "set_input"@.len() == 9);
}

/// `kind` is a kind of content that is known by that name, or by none of ECP's own.
pub open spec fn is_ecp_kind(kind: Option<Seq<char>>, ecp: Seq<char>) -> bool {
    &&& ecp == "series"@ || ecp == "episode"@ || ecp == "live"@ || ecp == "movie"@
    &&& kind == Some("series"@) || kind == Some("season"@) || kind == Some("short"@) ==> ecp
        == "series"@
    &&& kind == Some("episode"@) ==> ecp == "episode"@
    &&& kind == Some("live"@) ==> ecp == "live"@
    &&& kind != Some("series"@) && kind != Some("season"@) && kind != Some("short"@) && kind
        != Some("episode"@) && kind != Some("live"@) ==> ecp == "movie"@
}

/// The kinds of content are told apart.
proof fn lemma_kinds_differ()
    ensures
        "series"@ != "season"@ && "series"@ != "short"@ && "series"@ != "episode"@ && "series"@
            != "live"@,
        "season"@ != "short"@ && "season"@ != "episode"@ && "season"@ != "live"@,
        "short"@ != "episode"@ && "short"@ != "live"@ && "episode"@ != "live"@,
{
    reveal_strlit("series");
    reveal_strlit("season");
    reveal_strlit("short");
    reveal_strlit("episode");
    reveal_strlit("live");
    assert("series"@[2] == 'r' && "season"@[2] == 'a');
    assert("series"@.len() == 6 && "season"@.len() == 6 && "short"@.len() == 5 && "episode"@.len()
        == 7 && "live"@.len() == 4);
}

/// A launch asks the box for the channel that is meant, and for what to open in it exactly as it was
/// given: the id of the content stands in the request letter by letter, with one of ECP's kinds
/// behind it. Without a content nothing stands behind the channel's id.
pub proof fn law_a_launch_asks_for_what_was_given(
    inst: host::InstanceView,
    proxy: u32,
    args: command::CommandArgsView,
    known: Seq<channels::Channel>,
    want: Seq<char>,
    id: Seq<char>,
    name: Option<Seq<char>>,
)
    requires
        inst.channels == Some(known),
        args.app == Some(want),
        channels::meant(known, want) == Some((id, name)),
    ensures
        ({
            let calls = command::commanded(inst, proxy, "launch_app"@, args);
            &&& calls.len() >= 2
            &&& args.content_id is None ==> calls[0] == request("POST"@, "/launch/"@ + id)
            &&& args.content_id matches Some(content) ==> exists|ecp: Seq<char>|
                {
                    &&& #[trigger] is_ecp_kind(args.content_kind, ecp)
                    &&& calls[0] == request(
                        "POST"@,
                        "/launch/"@ + id + "?contentId="@ + content + "&mediaType="@ + ecp,
                    )
                }
        }),
{
    lemma_own_commands_differ();
    lemma_kinds_differ();
    let ecp = command::media_type(args.content_kind);
    assert(is_ecp_kind(args.content_kind, ecp));
}

/// A launch is told under the name that the channel is listed with, or as it was said where it has
/// none; and where the box would not list its channels, the log says that nothing may come of it.
/// Nothing else is done.
pub proof fn law_a_launch_is_told_by_the_channels_name(
    inst: host::InstanceView,
    proxy: u32,
    args: command::CommandArgsView,
    known: Seq<channels::Channel>,
    want: Seq<char>,
    id: Seq<char>,
    name: Option<Seq<char>>,
)
    requires
        inst.channels == Some(known),
        channels::ids_ascend(known),
        args.app == Some(want),
        channels::meant(known, want) == Some((id, name)),
    ensures
        ({
            let calls = command::commanded(inst, proxy, "launch_app"@, args);
            let called = match name {
                Some(name) => name,
                None => want,
            };
            &&& calls.len() == (if inst.apps_unconfirmed == Some(true) {
                3nat
            } else {
                2
            })
            &&& calls[1] == notice(MEDIA, "app_changed"@, "app"@, host::ArgView::Text(called))
            &&& inst.apps_unconfirmed == Some(true) ==> calls[2] == line(
                "info"@,
                "launched "@ + called
                    + "; this Roku would not confirm its channel list, so nothing happens if it is not installed"@,
            )
        }),
{
    lemma_own_commands_differ();
    let names = channels::compared_names(known);
    let i = choose|i: int| channels::is_best(names, channels::normalized(want), i);
    assert(known[i] == (id, name));
    assert(known.contains((id, name)));
    channels::law_id_leads_to_name(known, (id, name));
}

/// Where nothing that is listed goes with what was said, nothing is launched: the log says what was
/// said, and what there is, every name of it.
pub proof fn law_what_no_name_goes_with_is_answered_with_the_names(
    inst: host::InstanceView,
    proxy: u32,
    args: command::CommandArgsView,
    known: Seq<channels::Channel>,
    want: Seq<char>,
)
    requires
        inst.channels == Some(known) || inst.channels is None && known.len() == 0,
        args.app == Some(want),
        forall|i: int|
            0 <= i < known.len() ==> !channels::is_inside(
                channels::compared(#[trigger] known[i]),
                channels::normalized(want),
            ),
    ensures
        command::commanded(inst, proxy, "launch_app"@, args) == seq![
            line(
                "warn"@,
                "roku: no channel matching `"@ + want + "`; installed: "@ + text_laws::strung(
                    channels::names_in(known),
                    ", "@,
                ),
            ),
        ],
{
    lemma_own_commands_differ();
    channels::law_whatever_stands_in_a_name_means_a_channel(known, want);
    text_laws::law_joined_with_the_separator_between(channels::names_in(known), ", "@);
    assert(command::channels_of(inst) =~= known);
}

/// A launch without a name is refused.
pub proof fn law_a_launch_needs_a_name(
    inst: host::InstanceView,
    proxy: u32,
    args: command::CommandArgsView,
)
    requires
        args.app is None,
    ensures
        command::commanded(inst, proxy, "launch_app"@, args) == seq![
            line("warn"@, "roku: launch_app needs an app name"@),
        ],
{
    lemma_own_commands_differ();
}

/// A switch to an HDMI input asks for the input of that number, and tells the connection that was
/// asked for.
pub proof fn law_a_switch_asks_for_the_input_of_its_number(
    inst: host::InstanceView,
    args: command::CommandArgsView,
    n: u64,
)
    requires
        1 <= n <= 99,
        args.connection == Some((1000 + n) as u64),
    ensures
        command::commanded(inst, TV, "set_input"@, args) == seq![
            request("POST"@, "/launch/tvinput.hdmi"@ + text::decimal(n as nat)),
            notice(
                TV,
                "input_changed"@,
                "connection"@,
                host::ArgView::Number((1000 + n) as u64),
            ),
        ],
{
    lemma_own_commands_differ();
    reveal_strlit("/launch/");
    reveal_strlit("tvinput.hdmi");
    reveal_strlit("/launch/tvinput.hdmi");
    let d = text::decimal(n as nat);
    assert("/launch/"@ + ("tvinput.hdmi"@ + d) =~= "/launch/tvinput.hdmi"@ + d);
}

/// A switch to an input of another kind asks for it by its name.
pub proof fn law_a_switch_asks_for_the_input_of_its_name(
    inst: host::InstanceView,
    args: command::CommandArgsView,
    connection: u64,
    name: Seq<char>,
)
    requires
        args.connection == Some(connection),
        connection == 1101 && name == "cvbs"@ || connection == 1102 && name == "component"@
            || connection == 1201 && name == "tuner"@,
    ensures
        command::commanded(inst, TV, "set_input"@, args) == seq![
            request("POST"@, "/launch/tvinput."@ + name),
            notice(TV, "input_changed"@, "connection"@, host::ArgView::Number(connection)),
        ],
{
    lemma_own_commands_differ();
    reveal_strlit("/launch/");
    reveal_strlit("/launch/tvinput.");
    reveal_strlit("tvinput.cvbs");
    reveal_strlit("tvinput.component");
    reveal_strlit("tvinput.tuner");
    reveal_strlit("cvbs");
    reveal_strlit("component");
    reveal_strlit("tuner");
    assert("/launch/"@ + "tvinput.cvbs"@ =~= "/launch/tvinput."@ + "cvbs"@);
    assert("/launch/"@ + "tvinput.component"@ =~= "/launch/tvinput."@ + "component"@);
    assert("/launch/"@ + "tvinput.tuner"@ =~= "/launch/tvinput."@ + "tuner"@);
}

/// A switch to anything else, or to nothing, is refused, and the number is said.
pub proof fn law_a_switch_elsewhere_is_refused(
    inst: host::InstanceView,
    args: command::CommandArgsView,
)
    ensures
        args.connection is None ==> command::commanded(inst, TV, "set_input"@, args) == seq![
            line("warn"@, "roku: set_input needs a connection"@),
        ],
        args.connection matches Some(n) ==> !(1001 <= n <= 1099) && n != 1101 && n != 1102 && n
            != 1201 ==> command::commanded(inst, TV, "set_input"@, args) == seq![
            line("warn"@, "roku: no such connection "@ + text::decimal(n as nat)),
        ],
{
    lemma_own_commands_differ();
}

/// It does not matter to what else than the screen a command is aimed.
pub proof fn law_all_but_the_screen_are_alike(
    inst: host::InstanceView,
    a: u32,
    b: u32,
    cmd: Seq<char>,
    args: command::CommandArgsView,
)
    requires
        a != TV,
        b != TV,
    ensures
        command::commanded(inst, a, cmd, args) == command::commanded(inst, b, cmd, args),
{
}

/// Whatever is no command of the screen alone is the same for the screen as for anything else.
pub proof fn law_the_screen_takes_what_all_take(
    inst: host::InstanceView,
    a: u32,
    cmd: Seq<char>,
    args: command::CommandArgsView,
)
    requires
        cmd != "on"@ && cmd != "off"@ && cmd != "power_toggle"@,
        cmd != "volume_up"@ && cmd != "volume_down"@ && cmd != "mute_toggle"@,
        cmd != "set_input"@,
    ensures
        command::commanded(inst, TV, cmd, args) == command::commanded(inst, a, cmd, args),
{
}

/// A command goes by its own arguments alone, and but for a launch by nothing that is known of the
/// box.
pub proof fn law_a_command_goes_by_its_own_arguments(
    inst: host::InstanceView,
    other: host::InstanceView,
    proxy: u32,
    cmd: Seq<char>,
    args: command::CommandArgsView,
    others: command::CommandArgsView,
)
    requires
        cmd != "launch_app"@,
        cmd == "set_input"@ ==> args.connection == others.connection,
        cmd == "dpad"@ ==> args.key == others.key,
    ensures
        command::commanded(inst, proxy, cmd, args) == command::commanded(other, proxy, cmd, others),
{
}

/// Whatever is no command is refused by its own words, and nothing is sent.
pub proof fn law_what_is_no_command_is_refused(
    inst: host::InstanceView,
    proxy: u32,
    cmd: Seq<char>,
    args: command::CommandArgsView,
)
    requires
        cmd != "open_app_launcher"@ && cmd != "launch_app"@ && cmd != "dpad"@ && cmd != "search"@,
        cmd != "play"@ && cmd != "pause"@ && cmd != "stop"@,
        cmd != "skip_forward"@ && cmd != "skip_back"@,
        cmd != "scan_forward"@ && cmd != "scan_reverse"@,
        proxy == TV ==> cmd != "on"@ && cmd != "off"@ && cmd != "power_toggle"@ && cmd
            != "volume_up"@ && cmd != "volume_down"@ && cmd != "mute_toggle"@ && cmd
            != "set_input"@,
    ensures
        command::commanded(inst, proxy, cmd, args) == seq![
            line("warn"@, "roku: unhandled `"@ + cmd + "`"@),
        ],
{
}

/// A key that the d-pad has not is refused by its own words.
pub proof fn law_a_key_that_is_none_is_refused(
    inst: host::InstanceView,
    proxy: u32,
    args: command::CommandArgsView,
    key: Seq<char>,
)
    requires
        args.key == Some(key),
        key != "up"@ && key != "down"@ && key != "left"@ && key != "right"@ && key != "select"@,
        key != "back"@ && key != "home"@ && key != "menu"@ && key != "info"@,
    ensures
        command::commanded(inst, proxy, "dpad"@, args) == seq![
            line("warn"@, "roku: no key `"@ + key + "`"@),
        ],
{
    reveal_strlit("dpad");
    reveal_strlit("launch_app");
    reveal_strlit("open_app_launcher");
    reveal_strlit("set_input");
    reveal_strlit("on");
    reveal_strlit("off");
    reveal_strlit("power_toggle");
    reveal_strlit("volume_up");
    reveal_strlit("volume_down");
    reveal_strlit("mute_toggle");
    reveal_strlit("play");
    reveal_strlit("pause");
    reveal_strlit("stop");
    reveal_strlit("skip_forward");
    reveal_strlit("scan_forward");
    reveal_strlit("skip_back");
    reveal_strlit("scan_reverse");
    reveal_strlit("search");
    assert("dpad"@.len() == 4 && "launch_app"@.len() == 10 && "open_app_launcher"@.len() == 17
        && "set_input"@.len() == 9 && "on"@.len() == 2 && "off"@.len() == 3
        && "power_toggle"@.len() == 12 && "volume_up"@.len() == 9 && "volume_down"@.len() == 11
        && "mute_toggle"@.len() == 11 && "play"@.len() == 4 && "pause"@.len() == 5
        && "stop"@.len() == 4 && "skip_forward"@.len() == 12 && "scan_forward"@.len() == 12
        && "skip_back"@.len() == 9 && "scan_reverse"@.len() == 12 && "search"@.len() == 6);
    assert("dpad"@[0] == 'd' && "play"@[0] == 'p' && "stop"@[0] == 's');
}

/// At most one thing is asked of the box to do, and first of all: whatever else a command has the
/// host do is a question, a notice or a line in the log.
pub proof fn law_one_thing_is_done_at_most(
    inst: host::InstanceView,
    proxy: u32,
    cmd: Seq<char>,
    args: command::CommandArgsView,
    i: int,
)
    requires
        0 < i < command::commanded(inst, proxy, cmd, args).len(),
    ensures
        command::commanded(inst, proxy, cmd, args)[i] matches host::HostCallView::Http(r)
            ==> r.method == "GET"@ && r.url == "/query/device-info"@,
        command::commanded(inst, proxy, cmd, args)[0] matches host::HostCallView::Http(r)
            && r.method == "POST"@,
{
    lemma_own_commands_differ();
}

/// The arguments of a command are taken just as they stand, each under its own name.
pub proof fn law_arguments_are_taken_as_they_stand(args: json::Json)
    ensures
        command::args_in(args).app == json::text_in(args, "app"@),
        command::args_in(args).content_id == json::text_in(args, "content_id"@),
        command::args_in(args).content_kind == json::text_in(args, "content_kind"@),
        command::args_in(args).connection == json::number_in(args, "connection"@),
        command::args_in(args).key == json::text_in(args, "key"@),
{
}

} // verus!

//! What an answer is for, said of the text of the answer itself.
use vstd::prelude::*;

use crate::channels;
use crate::command_laws;
use crate::documents;
use crate::event;
use crate::event::{LIMITED_MODE, REFUSAL};
use crate::host;
use crate::host::{Direction, MEDIA, TV};
use crate::inputs;
use crate::text;
use crate::text_laws;
use crate::xml;

verus! {

/// The words in which a box refuses are in an answer.
pub open spec fn refuses(body: Seq<char>) -> bool {
    text_laws::is_part_of("not allowed in Limited mode"@, body)
}

/// An answer is a record of the box: its tag stands somewhere in it, and it is no refusal.
pub open spec fn is_record(body: Seq<char>) -> bool {
    !refuses(body) && text_laws::is_part_of("<device-info>"@, body)
}

/// An answer is what is in the foreground: its tag stands somewhere in it, and it is none of those
/// above.
pub open spec fn is_foreground(body: Seq<char>) -> bool {
    &&& !refuses(body)
    &&& !text_laws::is_part_of("<device-info>"@, body)
    &&& text_laws::is_part_of("<active-app>"@, body)
}

/// An answer is a list of what is installed: its tag stands somewhere in it, and it is none of those
/// above.
pub open spec fn is_list(body: Seq<char>) -> bool {
    &&& !refuses(body)
    &&& !text_laws::is_part_of("<device-info>"@, body)
    &&& !text_laws::is_part_of("<active-app>"@, body)
    &&& text_laws::is_part_of("<apps>"@, body)
}

/// Answers are told apart by what stands somewhere in them.
pub proof fn law_answers_are_told_by_what_stands_in_them(body: Seq<char>)
    ensures
        event::kind_of(body) is Limited <==> refuses(body),
        event::kind_of(body) is DeviceInfo <==> is_record(body),
        event::kind_of(body) is ActiveApp <==> is_foreground(body),
        event::kind_of(body) is Apps <==> is_list(body),
{
    text_laws::law_holds_its_parts(body, REFUSAL@);
    text_laws::law_holds_its_parts(body, "<device-info>"@);
    text_laws::law_holds_its_parts(body, "<active-app>"@);
    text_laws::law_holds_its_parts(body, "<apps>"@);
}

/// An answer that is none of these says nothing, and nothing is learned of it.
pub proof fn law_other_answers_say_nothing(inst: host::InstanceView, body: Seq<char>)
    requires
        !refuses(body),
        !is_record(body),
        !is_foreground(body),
        !is_list(body),
    ensures
        event::answered(inst, body).len() == 0,
        event::learned(inst, body) == inst,
{
    law_answers_are_told_by_what_stands_in_them(body);
}

/// Where a box is reached: the address without the white space around it, and the port of ECP unless
/// another is set.
pub proof fn law_a_box_is_reached_at_its_address(
    inst: host::InstanceView,
    a: Seq<char>,
    address: Seq<char>,
    b: Seq<char>,
)
    requires
        text_laws::is_blank(a),
        text_laws::is_tight(address),
        text_laws::is_blank(b),
        inst.address == Some(a + address + b),
    ensures
        address.len() == 0 ==> host::base_of(inst) is None,
        address.len() > 0 && inst.port is None ==> host::base_of(inst) == Some(
            "http://"@ + address + ":8060"@,
        ),
        address.len() > 0 ==> (inst.port matches Some(port) ==> host::base_of(inst) == Some(
            "http://"@ + address + ":"@ + text::decimal(port as nat),
        )),
{
    text_laws::law_trimmed_of_what_is_around(a, address, b);
    reveal_strlit(":8060");
    reveal_strlit(":");
    lemma_port_of_ecp();
    assert("http://"@ + address + ":"@ + text::decimal(8060) =~= "http://"@ + address + ":8060"@);
}

/// The port of ECP in decimal.
proof fn lemma_port_of_ecp()
    ensures
        ":"@ + text::decimal(8060) == ":8060"@,
{
    reveal_strlit(":8060");
    reveal_strlit(":");
    text_laws::law_decimal_by_tens(0, 8);
    text_laws::law_decimal_by_tens(8, 0);
    text_laws::law_decimal_by_tens(80, 6);
    text_laws::law_decimal_by_tens(806, 0);
    text_laws::law_decimal_by_tens(0, 0);
    text_laws::law_decimal_by_tens(0, 6);
    assert(text::decimal(8)[0] == '8' && text::decimal(0)[0] == '0' && text::decimal(6)[0] == '6');
    assert(":"@ + text::decimal(8060) =~= ":8060"@);
}

/// The artwork of a channel: on the box, under the channel's id; none for an input, and none where
/// the box is not known to be reached anywhere.
pub proof fn law_artwork_is_under_the_channels_id(base: Option<Seq<char>>, id: Seq<char>)
    ensures
        (exists|rest: Seq<char>| "tvinput."@ + rest == id) ==> event::icon_of(base, id).len() == 0,
        base is None ==> event::icon_of(base, id).len() == 0,
        base matches Some(b) ==> !(exists|rest: Seq<char>| "tvinput."@ + rest == id)
            ==> event::icon_of(base, id) == b + "/query/icon/"@ + id,
{
    reveal_strlit("");
    text_laws::law_starts_with(id, "tvinput."@);
}

/// A list is told name by name, in its order and each as it is listed, with the artwork of each
/// beside it.
pub proof fn law_a_list_is_told_name_by_name(inst: host::InstanceView, body: Seq<char>)
    requires
        is_list(body),
        xml::listed_apps(body).len() > 0,
    ensures
        event::answered(inst, body).len() >= 1,
        event::answered(inst, body)[0] matches host::HostCallView::Notify { proxy, name, args } && {
            &&& proxy == MEDIA
            &&& name == "apps_changed"@
            &&& args.len() == 2
            &&& args[0].0 == "apps"@
            &&& args[1].0 == "app_icons"@
            &&& args[0].1 matches host::ArgView::Texts(names) && {
                &&& names.len() == xml::listed_apps(body).len()
                &&& forall|i: int|
                    0 <= i < names.len() ==> #[trigger] names[i] == xml::listed_apps(body)[i].1
            }
            &&& args[1].1 matches host::ArgView::Texts(icons) && {
                &&& icons.len() == xml::listed_apps(body).len()
                &&& forall|i: int|
                    0 <= i < icons.len() ==> #[trigger] icons[i] == event::icon_of(
                        host::base_of(inst),
                        xml::listed_apps(body)[i].0,
                    )
            }
        },
        event::learned(inst, body) == (host::InstanceView {
            channels: Some(channels::mapped(xml::listed_apps(body))),
            ..inst
        }),
{
    law_answers_are_told_by_what_stands_in_them(body);
}

/// A list that was written down is heard, wherever in the answer it stands and whatever stands before
/// it: its channels are told and kept, by their ids and their names.
pub proof fn law_a_written_list_is_heard(
    inst: host::InstanceView,
    head: Seq<char>,
    apps: Seq<documents::WrittenApp>,
)
    requires
        !text_laws::is_part_of("<app "@, head),
        apps.len() > 0,
        forall|i: int| 0 <= i < apps.len() ==> (#[trigger] apps[i]).is_well_written(),
        text_laws::is_part_of("<apps>"@, documents::document(head, apps)),
        !text_laws::is_part_of("not allowed in Limited mode"@, documents::document(head, apps)),
        !text_laws::is_part_of("<device-info>"@, documents::document(head, apps)),
        !text_laws::is_part_of("<active-app>"@, documents::document(head, apps)),
    ensures
        ({
            let body = documents::document(head, apps);
            let listed = apps.map_values(|app: documents::WrittenApp| app.app());
            &&& event::answered(inst, body).len() >= 1
            &&& event::answered(inst, body)[0] matches host::HostCallView::Notify {
                proxy,
                name,
                args,
            } && {
                &&& proxy == MEDIA
                &&& name == "apps_changed"@
                &&& args.len() == 2
                &&& args[0].0 == "apps"@
                &&& args[0].1 matches host::ArgView::Texts(names) && {
                    &&& names.len() == apps.len()
                    &&& forall|i: int|
                        0 <= i < apps.len() ==> #[trigger] names[i] == xml::unescaped(
                            text::trimmed(apps[i].name),
                        )
                }
            }
            &&& event::learned(inst, body) == (host::InstanceView {
                channels: Some(channels::mapped(listed)),
                ..inst
            })
        }),
{
    let body = documents::document(head, apps);
    text_laws::law_holds_its_parts(head, "<app "@);
    documents::law_channel_list_is_read_back(head, apps);
    law_a_list_is_told_name_by_name(inst, body);
}

/// The inputs of a set are told as they are listed: each listed input once, in the order of the list,
/// by its connection, with its name and the kind of its cable, as an input of the screen; and
/// whatever is no input is left out.
pub proof fn law_inputs_are_told_as_they_are_listed(
    apps: Seq<(Seq<char>, Seq<char>)>,
    id: Seq<char>,
    name: Seq<char>,
)
    ensures
        event::inputs_among(Seq::empty()).len() == 0,
        inputs::connection_of(id) is None ==> event::inputs_among(apps.push((id, name)))
            == event::inputs_among(apps),
        inputs::connection_of(id) matches Some(connection) ==> event::inputs_among(
            apps.push((id, name)),
        ) == event::inputs_among(apps).push(
            host::ConnectionView {
                id: connection,
                proxy: Some(TV),
                dir: Direction::Consumer,
                class: inputs::class_of(id),
                name,
            },
        ),
{
    let read = |app: (Seq<char>, Seq<char>)| event::input_of(app);
    let all = apps.push((id, name));
    let n = apps.len() as int;
    all.lemma_filter_map_take_succ(read, n);
    assert(all.take(n) =~= apps);
    assert(all.take(n + 1) =~= all);
    assert(event::inputs_among(Seq::empty()) =~= Seq::<host::ConnectionView>::empty());
}

/// A list that has inputs tells them, all of them at once and behind the names; one that has none says
/// nothing of inputs.
pub proof fn law_a_list_tells_its_inputs(inst: host::InstanceView, body: Seq<char>)
    requires
        is_list(body),
        xml::listed_apps(body).len() > 0,
    ensures
        ({
            let calls = event::answered(inst, body);
            let found = event::inputs_among(xml::listed_apps(body));
            if found.len() > 0 {
                calls.len() == 2 && calls[1] == (host::HostCallView::Connections {
                    connections: found,
                })
            } else {
                calls.len() == 1
            }
        }),
{
    law_answers_are_told_by_what_stands_in_them(body);
}

/// A list of nothing says nothing, and what was known stays.
pub proof fn law_a_list_of_nothing_says_nothing(inst: host::InstanceView, body: Seq<char>)
    requires
        is_list(body) || is_foreground(body),
        xml::listed_apps(body).len() == 0,
    ensures
        event::answered(inst, body).len() == 0,
        event::learned(inst, body) == inst,
{
    law_answers_are_told_by_what_stands_in_them(body);
}

/// The well-known channels by their ids.
pub open spec fn long_known() -> Seq<(Seq<char>, Seq<char>)> {
    seq![
        ("12"@, "Netflix"@),
        ("837"@, "YouTube"@),
        ("13"@, "Prime Video"@),
        ("291097"@, "Disney+"@),
        ("61322"@, "Max"@),
        ("151908"@, "The Roku Channel"@),
        ("2285"@, "Hulu"@),
    ]
}

/// A refusal, wherever in the answer it stands and whatever else is in it, is said in the log with
/// what to do about it; the well-known channels are told and kept in place of what was known, as a
/// guess.
pub proof fn law_a_refusal_leaves_the_well_known(
    inst: host::InstanceView,
    a: Seq<char>,
    b: Seq<char>,
)
    ensures
        ({
            let body = a + "not allowed in Limited mode"@ + b;
            let calls = event::answered(inst, body);
            &&& calls.len() == 2
            &&& calls[0] == command_laws::line("warn"@, LIMITED_MODE@)
            &&& calls[1] == command_laws::notice(
                MEDIA,
                "apps_changed"@,
                "apps"@,
                host::ArgView::Texts(
                    seq![
                        "Netflix"@,
                        "YouTube"@,
                        "Prime Video"@,
                        "Disney+"@,
                        "Max"@,
                        "The Roku Channel"@,
                        "Hulu"@,
                    ],
                ),
            )
            &&& event::learned(inst, body) == (host::InstanceView {
                channels: Some(channels::mapped(long_known())),
                apps_unconfirmed: Some(true),
                ..inst
            })
        }),
{
    let body = a + "not allowed in Limited mode"@ + b;
    assert(text_laws::reads(body, a, "not allowed in Limited mode"@, b));
    law_answers_are_told_by_what_stands_in_them(body);
    assert(event::app_names(event::well_known_apps()) =~= seq![
        "Netflix"@,
        "YouTube"@,
        "Prime Video"@,
        "Disney+"@,
        "Max"@,
        "The Roku Channel"@,
        "Hulu"@,
    ]);
}

/// Two characters are the same but for the case of the letters of ASCII: the same, or the capital and
/// the small form of one letter.
pub open spec fn is_same_letter(a: char, b: char) -> bool {
    ||| a == b
    ||| 'A' <= a <= 'Z' && b as u32 == a as u32 + 32
    ||| 'A' <= b <= 'Z' && a as u32 == b as u32 + 32
}

/// Two texts are the same but for case exactly where they are, letter by letter.
pub proof fn law_the_same_but_for_case_letter_by_letter(a: Seq<char>, b: Seq<char>)
    ensures
        event::same_but_case(a, b) <==> a.len() == b.len() && forall|i: int|
            0 <= i < a.len() ==> is_same_letter(#[trigger] a[i], b[i]),
{
    let lower = |c: char| event::ascii_lower(c);
    let (x, y) = (a.map_values(lower), b.map_values(lower));
    assert(x.len() == a.len() && y.len() == b.len());
    if x == y {
        assert forall|i: int| 0 <= i < a.len() implies is_same_letter(#[trigger] a[i], b[i]) by {
            assert(x[i] == y[i]);
        }
    }
    if a.len() == b.len() && forall|i: int|
        0 <= i < a.len() ==> is_same_letter(#[trigger] a[i], b[i]) {
        assert forall|i: int| 0 <= i < x.len() implies x[i] == y[i] by {
            assert(is_same_letter(a[i], b[i]));
        }
        assert(x =~= y);
    }
}

/// The set is on exactly where its record says so, in whatever case and with whatever white space
/// around it, and wherever in the record that stands; and it is the screen that is told to be.
pub proof fn law_power_is_what_the_record_says(
    inst: host::InstanceView,
    b: Seq<char>,
    blank: Seq<char>,
    mode: Seq<char>,
    space: Seq<char>,
    a: Seq<char>,
)
    requires
        text_laws::is_blank(blank),
        text_laws::is_tight(mode),
        text_laws::is_blank(space),
        !text_laws::is_part_of("<power-mode>"@, b),
        !text_laws::is_part_of("</power-mode>"@, blank + mode + space),
        is_record(b + "<power-mode>"@ + (blank + mode + space + "</power-mode>"@ + a)),
    ensures
        ({
            let body = b + "<power-mode>"@ + (blank + mode + space + "</power-mode>"@ + a);
            event::answered(inst, body) == seq![
                command_laws::notice(
                    TV,
                    "power_changed"@,
                    "on"@,
                    host::ArgView::Bool(
                        mode.len() == "PowerOn"@.len() && forall|i: int|
                            0 <= i < mode.len() ==> is_same_letter(
                                #[trigger] mode[i],
                                "PowerOn"@[i],
                            ),
                    ),
                ),
            ]
        }),
        event::learned(
            inst,
            b + "<power-mode>"@ + (blank + mode + space + "</power-mode>"@ + a),
        ) == inst,
{
    let value = blank + mode + space;
    let body = b + "<power-mode>"@ + (value + "</power-mode>"@ + a);
    law_answers_are_told_by_what_stands_in_them(body);
    reveal_strlit("<power-mode>");
    reveal_strlit("</power-mode>");
    reveal_strlit("power-mode");
    reveal_strlit("<");
    reveal_strlit("</");
    reveal_strlit(">");
    assert("<"@ + "power-mode"@ + ">"@ =~= "<power-mode>"@);
    assert("</"@ + "power-mode"@ + ">"@ =~= "</power-mode>"@);
    text_laws::law_holds_its_parts(b, "<power-mode>"@);
    text_laws::law_holds_its_parts(value, "</power-mode>"@);
    assert(!"power-mode"@.contains('<'));
    documents::law_element_is_read_back(b, "power-mode"@, value, a);
    text_laws::law_trimmed_of_what_is_around(blank, mode, space);
    law_the_same_but_for_case_letter_by_letter(mode, "PowerOn"@);
}

/// A record that does not say whether the set is on says nothing.
pub proof fn law_a_record_without_power_says_nothing(inst: host::InstanceView, body: Seq<char>)
    requires
        is_record(body),
        forall|b: Seq<char>, v: Seq<char>, a: Seq<char>|
            !documents::is_tagged(body, "power-mode"@, b, v, a),
    ensures
        event::answered(inst, body).len() == 0,
        event::learned(inst, body) == inst,
{
    law_answers_are_told_by_what_stands_in_them(body);
    documents::law_an_element_is_what_stands_between_its_tags(body, "power-mode"@);
}

/// What is in the foreground is told by the first name in the answer, and nothing is learned of it,
/// whatever else the answer lists.
pub proof fn law_the_foreground_is_the_first_name(inst: host::InstanceView, body: Seq<char>)
    requires
        is_foreground(body),
        xml::listed_apps(body).len() > 0,
    ensures
        event::answered(inst, body) == seq![
            command_laws::notice(
                MEDIA,
                "app_changed"@,
                "app"@,
                host::ArgView::Text(xml::listed_apps(body)[0].1),
            ),
        ],
        event::learned(inst, body) == inst,
{
    law_answers_are_told_by_what_stands_in_them(body);
}

/// A box without an address is reached nowhere.
pub proof fn law_without_an_address_a_box_is_reached_nowhere(inst: host::InstanceView)
    requires
        inst.address is None,
    ensures
        host::base_of(inst) is None,
{
}

/// Something is learned exactly of a refusal, and of a list that lists something.
pub proof fn law_what_is_learned_of(body: Seq<char>)
    ensures
        event::teaches(body) <==> refuses(body) || is_list(body) && xml::listed_apps(body).len() > 0,
{
    law_answers_are_told_by_what_stands_in_them(body);
}

} // verus!

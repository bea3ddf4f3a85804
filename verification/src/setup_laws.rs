//! What the steps of a setup are for, said letter by letter of what was found, typed and answered.
use vstd::prelude::*;

use crate::answer_laws;
use crate::event::{LIMITED_MODE, REFUSAL};
use crate::host;
use crate::json;
use crate::setup;
use crate::text;
use crate::text_laws;
use crate::xml;

verus! {

/// The step asks for a page of the box at an address, and says what for.
pub open spec fn asks_for(
    step: setup::SetupStepView,
    address: Seq<char>,
    page: Seq<char>,
    said: Seq<char>,
) -> bool {
    step matches setup::SetupStepView::Fetch { request, note } && note == said && request == (
    host::HttpRequestView { method: "GET"@, url: "http://"@ + address + ":8060"@ + page })
}

/// `typed` is an address with white space around it and with the port behind it, any number of times
/// or not at all.
pub open spec fn is_typed(
    typed: Seq<char>,
    a: Seq<char>,
    address: Seq<char>,
    ports: nat,
    b: Seq<char>,
) -> bool {
    &&& text_laws::is_blank(a)
    &&& text_laws::is_blank(b)
    &&& text_laws::is_tight(address + text_laws::copies(":8060"@, ports))
    &&& !text_laws::ends_with(address, ":8060"@)
    &&& typed == a + (address + text_laws::copies(":8060"@, ports)) + b
}

/// Only white space and whole copies of the port come off an address.
proof fn lemma_typed(typed: Seq<char>, a: Seq<char>, address: Seq<char>, ports: nat, b: Seq<char>)
    requires
        is_typed(typed, a, address, ports, b),
    ensures
        text::trimmed(typed) == address + text_laws::copies(":8060"@, ports),
        text::without_ending(text::trimmed(typed), ":8060"@) == address,
{
    reveal_strlit(":8060");
    text_laws::law_trimmed_of_what_is_around(a, address + text_laws::copies(":8060"@, ports), b);
    text_laws::law_endings_put_on_come_off(address, ":8060"@, ports);
}

/// The phases are told apart.
proof fn lemma_phases()
    ensures
        "start"@ != "naming"@ && "start"@ != "probe"@ && "start"@ != "probed"@ && "start"@
            != "chosen"@,
        "naming"@ != "probe"@ && "naming"@ != "probed"@ && "naming"@ != "chosen"@,
        "probe"@ != "probed"@ && "probe"@ != "chosen"@ && "probed"@ != "chosen"@,
{
    reveal_strlit("start");
    reveal_strlit("naming");
    reveal_strlit("probe");
    reveal_strlit("probed");
    reveal_strlit("chosen");
    assert("start"@[0] == 's' && "naming"@[0] == 'n' && "probe"@[0] == 'p' && "probed"@[0] == 'p'
        && "chosen"@[0] == 'c');
    assert("probe"@.len() == 5 && "probed"@.len() == 6);
}

/// An address that was picked or typed is asked as it was given, letter by letter: nothing but the
/// white space around it and the port behind it comes off. The address that the state carries goes
/// before one that is given again. What was said and chosen before is carried on.
pub proof fn law_an_address_is_asked_as_it_was_given(
    state: setup::SetupStateView,
    input: setup::SetupInputView,
    typed: Seq<char>,
    a: Seq<char>,
    address: Seq<char>,
    ports: nat,
    b: Seq<char>,
)
    requires
        state.phase == Some("probe"@),
        is_typed(typed, a, address, ports, b),
        state.address == Some(typed) || state.address is None && input.address == Some(typed),
    ensures
        asks_for(
            setup::stepped(state, input).0,
            address,
            "/query/device-info"@,
            "asking the Roku what it is"@,
        ),
        setup::stepped(state, input).1 == (setup::SetupStateView {
            phase: Some("probed"@),
            address: Some(address),
            ssdp_candidates: None,
            enrich_at: None,
            info: None,
            checked_control: None,
            nagged: Some(state.nagged == Some(true)),
            chosen: Some(state.chosen == Some(true)),
            rest: None,
        }),
{
    lemma_phases();
    lemma_typed(typed, a, address, ports, b);
}

/// The one box that was found is asked at its own address, letter by letter, and counts as chosen.
pub proof fn law_the_one_found_is_asked_where_it_is(
    state: setup::SetupStateView,
    input: setup::SetupInputView,
    only: setup::ResponderView,
    typed: Seq<char>,
    a: Seq<char>,
    address: Seq<char>,
    ports: nat,
    b: Seq<char>,
)
    requires
        state.phase is None || state.phase == Some("start"@),
        state.ssdp_candidates == Some(seq![only]),
        only.address == Some(typed),
        is_typed(typed, a, address, ports, b),
        address.len() + ports > 0,
    ensures
        asks_for(
            setup::stepped(state, input).0,
            address,
            "/query/device-info"@,
            "asking the Roku what it is"@,
        ),
        setup::stepped(state, input).1 == (setup::SetupStateView {
            phase: Some("probed"@),
            address: Some(address),
            ssdp_candidates: None,
            enrich_at: None,
            info: None,
            checked_control: None,
            nagged: None,
            chosen: Some(true),
            rest: None,
        }),
{
    lemma_phases();
    lemma_typed(typed, a, address, ports, b);
    if ports > 0 {
        reveal_strlit(":8060");
        assert(text_laws::copies(":8060"@, ports).len() >= 5) by {
            assert(text_laws::copies(":8060"@, ports) == text_laws::copies(
                ":8060"@,
                (ports - 1) as nat,
            ) + ":8060"@);
        }
    }
}

/// A box that was found without an address was not pressed: the list is shown, without it.
pub proof fn law_one_found_nowhere_is_not_pressed(
    state: setup::SetupStateView,
    input: setup::SetupInputView,
    only: setup::ResponderView,
)
    requires
        state.phase is None || state.phase == Some("start"@),
        state.ssdp_candidates == Some(seq![only]),
        only.address is None,
    ensures
        setup::stepped(state, input).0 is Pick,
        is_about_to_probe(setup::stepped(state, input).1),
{
    lemma_phases();
}

/// A search that turned up anything but one box goes on as if names were being asked for and nothing
/// had been answered yet.
pub proof fn law_a_search_goes_on_with_the_names(
    state: setup::SetupStateView,
    input: setup::SetupInputView,
    naming: setup::SetupInputView,
)
    requires
        state.phase is None || state.phase == Some("start"@),
        state.ssdp_candidates matches Some(found) ==> found.len() != 1,
        naming.response is None,
    ensures
        setup::stepped(state, input) == setup::stepped(
            setup::SetupStateView { phase: Some("naming"@), ..state },
            naming,
        ),
{
    lemma_phases();
}

/// One box with nothing but white space for an address was not pressed either: it is asked for its
/// name like any other.
pub proof fn law_one_found_at_white_space_is_not_pressed(
    state: setup::SetupStateView,
    input: setup::SetupInputView,
    only: setup::ResponderView,
    blank: Seq<char>,
)
    requires
        state.phase is None || state.phase == Some("start"@),
        state.ssdp_candidates == Some(seq![only]),
        only.address == Some(blank),
        text_laws::is_blank(blank),
    ensures
        setup::stepped(state, input) == setup::stepped(
            setup::SetupStateView { phase: Some("naming"@), ..state },
            setup::SetupInputView { response: None, ..input },
        ),
{
    lemma_phases();
    text_laws::law_trimmed_of_what_is_around(blank, Seq::empty(), Seq::empty());
    assert(blank + Seq::<char>::empty() + Seq::<char>::empty() =~= blank);
}

/// A state that knows nothing but that a box is to be asked what it is.
pub open spec fn is_about_to_probe(state: setup::SetupStateView) -> bool {
    state == (setup::SetupStateView {
        phase: Some("probe"@),
        address: None,
        ssdp_candidates: None,
        enrich_at: None,
        info: None,
        checked_control: None,
        nagged: None,
        chosen: None,
        rest: None,
    })
}

/// Once there is nobody left to ask for a name, what was found is shown, with all the names that were
/// told, the last one too.
pub proof fn law_when_all_were_asked_they_are_shown(
    state: setup::SetupStateView,
    input: setup::SetupInputView,
)
    requires
        state.phase == Some("naming"@),
        state.ssdp_candidates matches Some(found) ==> setup::asked(state) >= found.len()
            || found[setup::asked(state) as int].address is None,
    ensures
        setup::stepped(state, input).0 == setup::asking(setup::after_naming(state, input.response)),
        is_about_to_probe(setup::stepped(state, input).1),
{
    lemma_phases();
}

/// Without an address there is nothing to probe, and it is asked for again.
pub proof fn law_without_an_address_it_is_asked_for(
    state: setup::SetupStateView,
    input: setup::SetupInputView,
)
    requires
        state.phase == Some("probe"@),
        state.address is None,
        input.address is None,
    ensures
        setup::stepped(state, input).0 == setup::asking(state),
        is_about_to_probe(setup::stepped(state, input).1),
{
    lemma_phases();
}

/// While names are asked for, each box is asked at the address that it was found with, just as it
/// stands, and the state goes on as it was but for the count.
pub proof fn law_names_are_asked_for_where_the_boxes_are(
    state: setup::SetupStateView,
    input: setup::SetupInputView,
    found: Seq<setup::ResponderView>,
    address: Seq<char>,
)
    requires
        state.phase == Some("naming"@),
        state.ssdp_candidates == Some(found),
        setup::asked(state) < found.len() <= u64::MAX,
        found[setup::asked(state) as int].address == Some(address),
    ensures
        asks_for(
            setup::stepped(state, input).0,
            address,
            "/query/device-info"@,
            "asking "@ + address + " what it is called"@,
        ),
        setup::stepped(state, input).1 == (setup::SetupStateView {
            phase: Some("naming"@),
            ssdp_candidates: setup::after_naming(state, input.response).ssdp_candidates,
            enrich_at: Some((setup::asked(state) + 1) as u64),
            ..state
        }),
{
    lemma_phases();
}

/// What a box is called once it has answered: the name that somebody gave it, or else the name that
/// it goes by, or else its model; where it has none of them, it is called as before. Whether it is a
/// television, and what its maker calls it, is as it says.
pub proof fn law_a_box_is_called_as_it_says(r: setup::ResponderView, info: Seq<char>)
    ensures
        ({
            let given = xml::element(info, "user-device-name"@);
            let known = xml::element(info, "friendly-device-name"@);
            let model = xml::element(info, "model-name"@);
            let made = xml::element(info, "friendly-model-name"@);
            let after = setup::named(r, info);
            &&& given matches Some(name) ==> name.len() > 0 ==> after.friendly == given
            &&& given is None || given->0.len() == 0 ==> {
                &&& known is Some ==> after.friendly == known
                &&& known is None && model is Some ==> after.friendly == model
                &&& known is None && model is None ==> after.friendly == r.friendly
            }
            &&& after.is_tv == Some(xml::element(info, "is-tv"@) == Some("true"@))
            &&& made matches Some(name) ==> name.len() > 0 ==> after.model == made
            &&& made is None || made->0.len() == 0 ==> {
                &&& model is Some ==> after.model == model
                &&& model is None ==> after.model is Some && after.model->0.len() == 0
            }
            &&& after.address == r.address
            &&& after.server == r.server
            &&& after.usn == r.usn
            &&& after.rest == r.rest
        }),
{
    reveal_strlit("");
}

/// An answer is written down with the box that was asked last, and it is called as it says from then
/// on; where nothing was answered, or nobody was asked, nothing is written down.
pub proof fn law_an_answer_is_written_down_where_it_came_from(
    state: setup::SetupStateView,
    found: Seq<setup::ResponderView>,
    info: Seq<char>,
)
    requires
        state.ssdp_candidates == Some(found),
    ensures
        1 <= setup::asked(state) <= found.len() ==> setup::after_naming(state, Some(info)) == (
        setup::SetupStateView {
            ssdp_candidates: Some(
                found.update(
                    setup::asked(state) - 1,
                    setup::named(found[setup::asked(state) - 1], info),
                ),
            ),
            ..state
        }),
        setup::asked(state) == 0 || setup::asked(state) > found.len() ==> setup::after_naming(
            state,
            Some(info),
        ) == state,
        setup::after_naming(state, None) == state,
{
}

/// The rows of the list are the boxes that were found with an address, in the order in which they
/// were found; the row of each gives back its address and shows it.
pub proof fn law_each_box_has_its_row(found: Seq<setup::ResponderView>, r: setup::ResponderView)
    ensures
        setup::rows_of(Seq::empty()).len() == 0,
        r.address is None ==> setup::rows_of(found.push(r)) == setup::rows_of(found),
        r.address matches Some(address) ==> {
            &&& setup::rows_of(found.push(r)).len() == setup::rows_of(found).len() + 1
            &&& setup::rows_of(found.push(r)).drop_last() == setup::rows_of(found)
            &&& setup::rows_of(found.push(r)).last().value == address
            &&& setup::rows_of(found.push(r)).last().cells == seq![
                setup::label_of(r),
                setup::model_of(r),
                address,
            ]
            &&& setup::rows_of(found.push(r)).last().note == (if setup::serial_of(r).len() > 0 {
                "serial "@ + setup::serial_of(r)
            } else {
                ""@
            })
        },
{
    let read = |r: setup::ResponderView| setup::row_of(r);
    let all = found.push(r);
    let n = found.len() as int;
    all.lemma_filter_map_take_succ(read, n);
    assert(all.take(n) =~= found);
    assert(all.take(n + 1) =~= all);
    assert(setup::rows_of(Seq::empty()) =~= Seq::<setup::PickRowView>::empty());
    if setup::row_of(r) is Some {
        assert(setup::rows_of(all).drop_last() =~= setup::rows_of(found));
    }
}

/// A box is shown by the name that it was given; without one by the first word of what its server
/// calls itself; and as a Roku where there is no word.
pub proof fn law_a_box_is_shown_by_its_name(
    r: setup::ResponderView,
    a: Seq<char>,
    word: Seq<char>,
    b: Seq<char>,
)
    requires
        text_laws::is_blank(a),
        forall|i: int| 0 <= i < word.len() ==> !text::is_space(#[trigger] word[i]),
        word.len() == 0 ==> b.len() == 0,
        b.len() > 0 ==> text::is_space(b[0]),
    ensures
        r.friendly matches Some(name) ==> setup::label_of(r) == name,
        r.friendly is None && r.server is None ==> setup::label_of(r) == "Roku"@,
        r.friendly is None && r.server == Some(a + word + b) ==> setup::label_of(r) == (
        if word.len() > 0 {
            word
        } else {
            "Roku"@
        }),
{
    if word.len() > 0 {
        text_laws::law_the_first_word_stands_first(a, word, b);
    } else {
        assert(a + word + b =~= a);
        text_laws::law_white_space_has_no_word(a);
    }
}

/// A box is shown as the model that it says it is, or else as a television or a Roku.
pub proof fn law_a_box_is_shown_as_its_model(r: setup::ResponderView)
    ensures
        r.model matches Some(model) ==> model.len() > 0 ==> setup::model_of(r) == model,
        (r.model is None || r.model->0.len() == 0) && r.is_tv == Some(true) ==> setup::model_of(r)
            == "Roku TV"@,
        (r.model is None || r.model->0.len() == 0) && r.is_tv != Some(true) ==> setup::model_of(r)
            == "Roku"@,
{
}

/// Two boxes are told apart by what stands behind the last colon of what they were found under; by
/// all of it where there is no colon.
pub proof fn law_a_serial_stands_behind_the_last_colon(
    r: setup::ResponderView,
    a: Seq<char>,
    serial: Seq<char>,
)
    requires
        !serial.contains(':'),
    ensures
        r.usn is None ==> setup::serial_of(r).len() == 0,
        r.usn == Some(a + seq![':'] + serial) ==> setup::serial_of(r) == serial,
        r.usn == Some(serial) ==> setup::serial_of(r) == serial,
{
    reveal_strlit("");
    text_laws::law_behind_the_last(a, ':', serial);
}

/// Where nothing was found an address is asked for; where something was, it is listed, and the title
/// counts the rows.
pub proof fn law_what_was_found_is_listed_and_counted(state: setup::SetupStateView)
    ensures
        state.ssdp_candidates is None || state.ssdp_candidates->0.len() == 0
            <==> setup::asking(state) is Form,
        state.ssdp_candidates matches Some(found) ==> found.len() > 0 ==> {
            &&& setup::asking(state) matches setup::SetupStepView::Pick { title, rows, .. }
            &&& rows == setup::rows_of(found)
            &&& rows.len() == 1 ==> title == "Found 1 Roku device"@
            &&& rows.len() != 1 ==> title == "Found "@ + text::decimal(rows.len())
                + " Roku devices"@
        },
{
    reveal_strlit("Found ");
    reveal_strlit(" Roku device");
    reveal_strlit(" Roku devices");
    reveal_strlit("Found 1 Roku device");
    reveal_strlit("s");
    reveal_strlit("");
    if let Some(found) = state.ssdp_candidates {
        let n = setup::rows_of(found).len();
        text_laws::law_decimal_by_tens(0, 1);
        assert(text::decimal(1)[0] == '1');
        assert("Found "@ + text::decimal(1) + " Roku device"@ + ""@ =~= "Found 1 Roku device"@);
        assert("Found "@ + text::decimal(n) + " Roku device"@ + "s"@ =~= "Found "@ + text::decimal(
            n,
        ) + " Roku devices"@);
    }
}

/// The record of a box under setup: the one that is carried, or else the answer that came.
pub open spec fn record_at_hand(
    state: setup::SetupStateView,
    input: setup::SetupInputView,
    info: Seq<char>,
) -> bool {
    ||| state.info == Some(info)
    ||| state.info is None && input.response == Some(info)
    ||| state.info is None && input.response is None && info.len() == 0
}

/// The box under setup: the one whose address is carried, or else given.
pub open spec fn box_at_hand(
    state: setup::SetupStateView,
    input: setup::SetupInputView,
    address: Seq<char>,
) -> bool {
    ||| state.address == Some(address)
    ||| state.address is None && input.address == Some(address)
    ||| state.address is None && input.address is None && address.len() == 0
}

/// A box whose answer holds no record anywhere did not answer as a Roku.
pub proof fn law_without_a_record_a_setup_fails(
    state: setup::SetupStateView,
    input: setup::SetupInputView,
    address: Seq<char>,
    info: Seq<char>,
)
    requires
        state.phase == Some("probed"@),
        box_at_hand(state, input, address),
        record_at_hand(state, input, info),
    ensures
        setup::stepped(state, input).0 is Failed <==> !text_laws::is_part_of(
            "<device-info>"@,
            info,
        ),
        setup::stepped(state, input).0 matches setup::SetupStepView::Failed { reason } ==> reason
            == address
            + " did not answer as a Roku. Check the address under Settings → Network → About."@,
{
    lemma_phases();
    reveal_strlit("");
    text_laws::law_holds_its_parts(info, "<device-info>"@);
    if info.len() == 0 {
        assert(info =~= ""@);
    }
    if address.len() == 0 {
        assert(address =~= ""@);
    }
}

/// A box that gave a record is asked for its channels, once, where it is; the record is carried on,
/// and what was said and chosen before.
pub proof fn law_a_record_is_followed_by_the_channels(
    state: setup::SetupStateView,
    input: setup::SetupInputView,
    address: Seq<char>,
    info: Seq<char>,
)
    requires
        state.phase == Some("probed"@),
        box_at_hand(state, input, address),
        record_at_hand(state, input, info),
        text_laws::is_part_of("<device-info>"@, info),
    ensures
        setup::stepped(state, input).0 is Fetch <==> state.checked_control != Some(true),
        state.checked_control != Some(true) ==> {
            &&& asks_for(
                setup::stepped(state, input).0,
                address,
                "/query/apps"@,
                "checking external control"@,
            )
            &&& setup::stepped(state, input).1 == (setup::SetupStateView {
                phase: Some("probed"@),
                address: Some(address),
                ssdp_candidates: None,
                enrich_at: None,
                info: Some(info),
                checked_control: Some(true),
                nagged: Some(state.nagged == Some(true)),
                chosen: Some(state.chosen == Some(true)),
                rest: None,
            })
        },
{
    lemma_phases();
    reveal_strlit("");
    text_laws::law_holds_its_parts(info, "<device-info>"@);
    if info.len() == 0 {
        assert(info =~= ""@);
    }
    if address.len() == 0 {
        assert(address =~= ""@);
    }
}

/// Whether the answer that came refuses, wherever in it the refusal stands.
pub open spec fn answer_refuses(input: setup::SetupInputView) -> bool {
    input.response matches Some(response) && answer_laws::refuses(response)
}

/// A box that was asked for its channels is added or offered, or there is a notice first: the notice
/// exactly where the box refuses and the notice was not shown, and it is added outright exactly where
/// somebody pointed at it.
pub proof fn law_after_the_channels_it_is_noticed_added_or_offered(
    state: setup::SetupStateView,
    input: setup::SetupInputView,
    address: Seq<char>,
    info: Seq<char>,
)
    requires
        state.phase == Some("probed"@),
        box_at_hand(state, input, address),
        record_at_hand(state, input, info),
        text_laws::is_part_of("<device-info>"@, info),
        state.checked_control == Some(true),
    ensures
        ({
            let (step, next) = setup::stepped(state, input);
            let noticed = answer_refuses(input) && state.nagged != Some(true);
            let device = setup::offered(address, setup::record_of(info), answer_refuses(input));
            let name = setup::record_of(info).friendly;
            &&& step is Instruct <==> noticed
            &&& noticed ==> {
                &&& step->Instruct_title == name + " is set to Limited control"@
                &&& step->Instruct_body == LIMITED_MODE@
                    + "\n\nYou can add it either way — it will still launch channels and take volume. Only the list of what is installed is refused."@
                &&& next == (setup::SetupStateView {
                    phase: Some("probe"@),
                    address: Some(address),
                    ssdp_candidates: None,
                    enrich_at: None,
                    info: None,
                    checked_control: None,
                    nagged: Some(true),
                    chosen: Some(state.chosen == Some(true)),
                    rest: None,
                })
            }
            &&& !noticed && state.chosen == Some(true) ==> step == (setup::SetupStepView::Done {
                devices: seq![device],
            })
            &&& !noticed && state.chosen != Some(true) ==> {
                &&& step matches setup::SetupStepView::Choose { title, options, multiple, .. }
                &&& title == "Found "@ + name
                &&& options == seq![device]
                &&& !multiple
                &&& next == (setup::SetupStateView {
                    phase: Some("chosen"@),
                    address: Some(address),
                    ssdp_candidates: None,
                    enrich_at: None,
                    info: None,
                    checked_control: None,
                    nagged: None,
                    chosen: None,
                    rest: None,
                })
            }
        }),
{
    lemma_phases();
    reveal_strlit("");
    text_laws::law_holds_its_parts(info, "<device-info>"@);
    if let Some(response) = input.response {
        text_laws::law_holds_its_parts(response, REFUSAL@);
    }
    if info.len() == 0 {
        assert(info =~= ""@);
    }
    if address.len() == 0 {
        assert(address =~= ""@);
    }
}

/// What is offered or added of a box is what its record says: under the name that somebody gave it, or
/// else its model; as its model, or as a Roku; as a television where either of the two places for it
/// says so; and where it is, at the port of ECP. What was seen says the power, and that the list is a
/// guess where it is.
pub proof fn law_a_device_is_what_its_record_says(address: Seq<char>, info: Seq<char>, limited: bool)
    ensures
        ({
            let device = setup::offered(address, setup::record_of(info), limited);
            let given = xml::element(info, "user-device-name"@);
            let model = xml::element(info, "model-name"@);
            let power = xml::element(info, "power-mode"@);
            let seen = "answered ECP, power "@ + (match power {
                Some(power) => power,
                None => "unknown"@,
            });
            &&& model matches Some(m) ==> device.kind == m
            &&& model is None ==> device.kind == "Roku"@
            &&& given matches Some(name) ==> name.len() > 0 ==> device.label == name
            &&& given is None || given->0.len() == 0 ==> device.label == device.kind
            &&& setup::record_of(info).friendly == device.label
            &&& device.driver_id == "roku.tv"@ <==> xml::element(info, "is-tv"@) == Some("true"@)
                || xml::element(info, "device-type"@) == Some("tv"@)
            &&& device.driver_id == "roku.tv"@ || device.driver_id == "roku.player"@
            &&& device.properties.len() == 2
            &&& device.properties[0] == ("Address"@, host::ArgView::Text(address))
            &&& device.properties[1] == ("Port"@, host::ArgView::Number(8060))
            &&& !limited ==> device.verified == seen
            &&& limited ==> device.verified == seen
                + " — set to Limited control, so its channel list is a guess"@
        }),
{
    reveal_strlit("roku.tv");
    reveal_strlit("roku.player");
    assert("roku.tv"@.len() == 7 && "roku.player"@.len() == 11);
}

/// What was chosen is added, all of it and nothing else.
pub proof fn law_what_was_chosen_is_added(
    state: setup::SetupStateView,
    input: setup::SetupInputView,
    devices: Seq<setup::CandidateView>,
)
    requires
        state.phase == Some("chosen"@),
        input.chosen == Some(devices) || input.chosen is None && devices.len() == 0,
    ensures
        setup::stepped(state, input).0 == (setup::SetupStepView::Done { devices }),
{
    lemma_phases();
    if input.chosen is None {
        assert(devices =~= Seq::<setup::CandidateView>::empty());
    }
}

/// A phase that a setup has not is said, by its own words, and the setup is over.
pub proof fn law_an_unknown_phase_is_said(
    state: setup::SetupStateView,
    input: setup::SetupInputView,
    phase: Seq<char>,
)
    requires
        state.phase == Some(phase),
        phase != "start"@ && phase != "naming"@ && phase != "probe"@ && phase != "probed"@ && phase
            != "chosen"@,
    ensures
        setup::stepped(state, input).0 == (setup::SetupStepView::Failed {
            reason: "unknown setup phase `"@ + phase + "`"@,
        }),
{
}

/// What a step came back with is taken just as it stands, each under its own name.
pub proof fn law_input_is_taken_as_it_stands(
    args: json::Json,
    chosen: Option<Seq<setup::CandidateView>>,
)
    ensures
        setup::input_in(args, chosen).address == json::text_in(args, "address"@),
        setup::input_in(args, chosen).response == json::text_in(args, "response"@),
        setup::input_in(args, chosen).chosen == chosen,
{
}

} // verus!

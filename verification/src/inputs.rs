//! A Roku TV's physical inputs: the channel id that the set lists each under, and the connection
//! id that a project remembers it by.
use vstd::prelude::*;

use crate::text;
use crate::text_laws;

verus! {

/// The connection that a channel id stands for: HDMI 1 to 99 are 1001 to 1099, then composite,
/// component and the tuner. None for an ordinary channel.
pub open spec fn connection_of(app_id: Seq<char>) -> Option<u32> {
    match text::past_prefix(app_id, "tvinput."@) {
        None => None,
        Some(input) => match text::past_prefix(input, "hdmi"@) {
            Some(n) => match text::number(n) {
                Some(n) => if 1 <= n <= 99 {
                    Some((1000 + n) as u32)
                } else {
                    None
                },
                None => None,
            },
            None => if input == "cvbs"@ || input == "av"@ {
                Some(1101)
            } else if input == "component"@ {
                Some(1102)
            } else if input == "tuner"@ || input == "dtv"@ {
                Some(1201)
            } else {
                None
            },
        },
    }
}

/// A connection id for one of a Roku TV's physical inputs, from the channel id it lists it
/// under: `tvinput.hdmi2` is 1002.
///
/// From the name rather than from list order, because a project remembers what an installer
/// wired by this number and the channel list is not ordered by anything stable. `None` for
/// every ordinary channel.
pub fn connection_id(app_id: &str) -> (r: Option<u32>)
    ensures
        r == connection_of(app_id@),
{
    match text::strip_prefix(app_id, "tvinput.") {
        None => None,
        Some(input) => match text::strip_prefix(&input, "hdmi") {
            Some(n) => match text::to_u32(&n) {
                Some(n) => if 1 <= n && n <= 99 {
                    Some(1000 + n)
                } else {
                    None
                },
                None => None,
            },
            None => if text::same(&input, "cvbs") || text::same(&input, "av") {
                Some(1101)
            } else if text::same(&input, "component") {
                Some(1102)
            } else if text::same(&input, "tuner") || text::same(&input, "dtv") {
                Some(1201)
            } else {
                None
            },
        },
    }
}

/// The kind of cable that an input takes.
pub open spec fn class_of(app_id: Seq<char>) -> Seq<char> {
    match connection_of(app_id) {
        Some(1101) => "COMPOSITE"@,
        Some(1102) => "COMPONENT"@,
        Some(1201) => "RF_UHF_VHF"@,
        _ => "HDMI"@,
    }
}

/// What kind of cable an input takes, in the pathfinder's vocabulary.
pub fn signal_class(app_id: &str) -> (r: &'static str)
    ensures
        r@ == class_of(app_id@),
{
    match connection_id(app_id) {
        Some(1101) => "COMPOSITE",
        Some(1102) => "COMPONENT",
        Some(1201) => "RF_UHF_VHF",
        _ => "HDMI",
    }
}

/// The channel id that a connection is switched to.
pub open spec fn channel_of(connection: u64) -> Option<Seq<char>> {
    if 1001 <= connection <= 1099 {
        Some("tvinput.hdmi"@ + text::decimal((connection - 1000) as nat))
    } else if connection == 1101 {
        Some("tvinput.cvbs"@)
    } else if connection == 1102 {
        Some("tvinput.component"@)
    } else if connection == 1201 {
        Some("tvinput.tuner"@)
    } else {
        None
    }
}

/// The channel id a connection is switched to.
pub fn tvinput_for(connection: u64) -> (r: Option<String>)
    ensures
        r.deep_view() == channel_of(connection),
{
    if 1001 <= connection && connection <= 1099 {
        Some("tvinput.hdmi".to_owned().concat(&text::to_decimal(connection - 1000)))
    } else if connection == 1101 {
        Some("tvinput.cvbs".to_owned())
    } else if connection == 1102 {
        Some("tvinput.component".to_owned())
    } else if connection == 1201 {
        Some("tvinput.tuner".to_owned())
    } else {
        None
    }
}

/// A number in decimal reads back as that number, and starts with a digit.
proof fn lemma_decimal_reads_back(n: nat)
    ensures
        text::digits_value(text::decimal(n)) == Some(n),
        text::decimal(n).len() > 0,
        '0' <= text::decimal(n)[0] <= '9',
    decreases n,
{
    if n >= 10 {
        lemma_decimal_reads_back(n / 10);
        assert(text::decimal(n).drop_last() == text::decimal(n / 10));
    }
}

/// The channel id that a connection is switched to is one of that connection: what the project
/// remembers and what the set is asked for name the same jack.
pub proof fn law_connection_survives_the_channel_id(connection: u64)
    requires
        channel_of(connection) is Some,
    ensures
        connection_of(channel_of(connection)->0) == Some(connection as u32),
{
    let id = channel_of(connection)->0;
    reveal_strlit("tvinput.");
    reveal_strlit("tvinput.hdmi");
    reveal_strlit("hdmi");
    reveal_strlit("tvinput.cvbs");
    reveal_strlit("cvbs");
    reveal_strlit("tvinput.component");
    reveal_strlit("component");
    reveal_strlit("tvinput.tuner");
    reveal_strlit("tuner");
    reveal_strlit("av");
    assert(id.subrange(0, 8) == "tvinput."@);
    let input = id.skip(8);
    if connection <= 1099 {
        let n = (connection - 1000) as nat;
        lemma_decimal_reads_back(n);
        assert(input == "hdmi"@ + text::decimal(n));
        assert(input.subrange(0, 4) == "hdmi"@);
        assert(input.skip(4) == text::decimal(n));
    } else if connection == 1101 {
        assert(input == "cvbs"@);
        assert(input.subrange(0, 4)[0] != "hdmi"@[0]);
    } else if connection == 1102 {
        assert(input == "component"@);
        assert(input.subrange(0, 4)[0] != "hdmi"@[0]);
        assert(input.len() != "cvbs"@.len());
        assert(input.len() != "av"@.len());
    } else {
        assert(input == "tuner"@);
        assert(input.subrange(0, 4)[0] != "hdmi"@[0]);
        assert(input.len() != "cvbs"@.len());
        assert(input.len() != "av"@.len());
        assert(input.len() != "component"@.len());
    }
}

/// Digits that do not begin with a zero are the decimal of the number that they write.
proof fn lemma_digits_are_decimal(s: Seq<char>)
    requires
        text::digits_value(s) is Some,
        s[0] != '0',
    ensures
        text::decimal(text::digits_value(s)->0) == s,
        text::digits_value(s)->0 > 0,
    decreases s.len(),
{
    let n = text::digits_value(s)->0;
    let d = text::digit_value(s.last())->0;
    assert(text::digit(d) == s.last());
    if s.len() == 1 {
        assert(s == seq![s[0]]);
    } else {
        let rest = s.drop_last();
        lemma_digits_are_decimal(rest);
        assert(n / 10 == text::digits_value(rest)->0 && n % 10 == d);
        assert(rest.push(s.last()) == s);
    }
}

/// A channel id that is read as an input but is not how the input is asked for: the other names of
/// composite and of the tuner, and an HDMI number with a plus sign or a zero before it.
pub open spec fn is_other_spelling(app_id: Seq<char>) -> bool {
    ||| app_id == "tvinput.av"@
    ||| app_id == "tvinput.dtv"@
    ||| {
        &&& text::past_prefix(app_id, "tvinput.hdmi"@) matches Some(n)
        &&& n.len() > 0
        &&& n[0] == '+' || n[0] == '0'
    }
}

/// But for the other spellings that are read too, the channel id that an input is listed under is
/// the one that its connection is switched to.
pub proof fn law_channel_id_survives_the_connection(app_id: Seq<char>)
    requires
        connection_of(app_id) is Some,
        !is_other_spelling(app_id),
    ensures
        channel_of(connection_of(app_id)->0 as u64) == Some(app_id),
{
    reveal_strlit("tvinput.");
    reveal_strlit("tvinput.hdmi");
    reveal_strlit("hdmi");
    reveal_strlit("tvinput.cvbs");
    reveal_strlit("cvbs");
    reveal_strlit("tvinput.av");
    reveal_strlit("av");
    reveal_strlit("tvinput.component");
    reveal_strlit("component");
    reveal_strlit("tvinput.tuner");
    reveal_strlit("tuner");
    reveal_strlit("tvinput.dtv");
    reveal_strlit("dtv");
    let input = text::past_prefix(app_id, "tvinput."@)->0;
    assert(app_id == "tvinput."@ + input);
    if let Some(n) = text::past_prefix(input, "hdmi"@) {
        assert(input == "hdmi"@ + n);
        assert("tvinput."@ + "hdmi"@ == "tvinput.hdmi"@);
        assert(app_id == "tvinput.hdmi"@ + n);
        assert(app_id.subrange(0, 12) == "tvinput.hdmi"@);
        assert(app_id.skip(12) == n);
        lemma_digits_are_decimal(n);
    } else {
        assert("tvinput."@ + "cvbs"@ == "tvinput.cvbs"@);
        assert("tvinput."@ + "av"@ == "tvinput.av"@);
        assert("tvinput."@ + "component"@ == "tvinput.component"@);
        assert("tvinput."@ + "tuner"@ == "tvinput.tuner"@);
        assert("tvinput."@ + "dtv"@ == "tvinput.dtv"@);
    }
}

/// Every input that a set lists can be switched to: its connection has a channel id, and that
/// channel id is of the same connection.
pub proof fn law_every_input_can_be_switched_to(app_id: Seq<char>)
    requires
        connection_of(app_id) is Some,
    ensures
        channel_of(connection_of(app_id)->0 as u64) is Some,
        connection_of(channel_of(connection_of(app_id)->0 as u64)->0) == connection_of(app_id),
{
    law_connection_survives_the_channel_id(connection_of(app_id)->0 as u64);
}

/// The kind of cable goes with the connection: of all the channel ids, those of one connection take
/// the one kind, and no other id takes it. What is no connection, or one of the HDMI ones, counts as
/// HDMI.
pub proof fn law_the_cable_goes_with_the_connection(app_id: Seq<char>, other: Seq<char>)
    ensures
        connection_of(app_id) == Some(1101u32) <==> class_of(app_id) == "COMPOSITE"@,
        connection_of(app_id) == Some(1102u32) <==> class_of(app_id) == "COMPONENT"@,
        connection_of(app_id) == Some(1201u32) <==> class_of(app_id) == "RF_UHF_VHF"@,
        connection_of(app_id) is None || 1001 <= connection_of(app_id)->0 <= 1099 <==> class_of(
            app_id,
        ) == "HDMI"@,
        connection_of(app_id) == connection_of(other) ==> class_of(app_id) == class_of(other),
{
    reveal_strlit("COMPOSITE");
    reveal_strlit("COMPONENT");
    reveal_strlit("RF_UHF_VHF");
    reveal_strlit("HDMI");
    assert("COMPOSITE"@[4] == 'O' && "COMPONENT"@[4] == 'O');
    assert("COMPOSITE"@[5] == 'S' && "COMPONENT"@[5] == 'N');
    assert("COMPOSITE"@.len() == 9 && "COMPONENT"@.len() == 9 && "RF_UHF_VHF"@.len() == 10
        && "HDMI"@.len() == 4);
    law_connections_are_those_of_inputs(app_id);
}

/// The kind of cable of the channel id that a connection is switched to.
pub proof fn law_the_cable_of_what_is_switched_to(connection: u64)
    requires
        channel_of(connection) is Some,
    ensures
        class_of(channel_of(connection)->0) == (if connection == 1101 {
            "COMPOSITE"@
        } else if connection == 1102 {
            "COMPONENT"@
        } else if connection == 1201 {
            "RF_UHF_VHF"@
        } else {
            "HDMI"@
        }),
{
    law_connection_survives_the_channel_id(connection);
}

/// Only what is listed as an input is one, and its connection is one of those that there are.
pub proof fn law_connections_are_those_of_inputs(app_id: Seq<char>)
    ensures
        connection_of(app_id) is Some ==> exists|rest: Seq<char>| "tvinput."@ + rest == app_id,
        connection_of(app_id) matches Some(id) ==> 1001 <= id <= 1099 || id == 1101 || id == 1102
            || id == 1201,
{
    if connection_of(app_id) is Some {
        text_laws::law_prefix_was_there(app_id, "tvinput."@);
    }
}

/// The HDMI inputs are told by what follows: the first ninety-nine have a connection, a thousand and
/// their number, and no other has; a sign or zeros before the number make no difference.
pub proof fn law_hdmi_inputs_are_told_by_their_number(n: nat, zeros: nat)
    ensures
        connection_of("tvinput.hdmi"@ + text::decimal(n)) == (if 1 <= n <= 99 {
            Some((1000 + n) as u32)
        } else {
            None
        }),
        connection_of("tvinput.hdmi"@ + (text_laws::copies(seq!['0'], zeros) + text::decimal(n)))
            == connection_of("tvinput.hdmi"@ + text::decimal(n)),
        connection_of(
            "tvinput.hdmi"@ + (seq!['+'] + (text_laws::copies(seq!['0'], zeros) + text::decimal(
                n,
            ))),
        ) == connection_of("tvinput.hdmi"@ + text::decimal(n)),
{
    let d = text::decimal(n);
    let s = text_laws::copies(seq!['0'], zeros) + d;
    lemma_decimal_reads_back(n);
    lemma_zeros(d, zeros);
    text_laws::law_one_plus_sign_may_stand_first(d);
    text_laws::law_one_plus_sign_may_stand_first(s);
    lemma_hdmi(d);
    lemma_hdmi(s);
    lemma_hdmi(seq!['+'] + s);
}

/// Zeros before digits leave the number, and digits.
proof fn lemma_zeros(s: Seq<char>, zeros: nat)
    requires
        s.len() > 0,
        '0' <= s[0] <= '9',
    ensures
        text::digits_value(text_laws::copies(seq!['0'], zeros) + s) == text::digits_value(s),
        (text_laws::copies(seq!['0'], zeros) + s).len() > 0,
        '0' <= (text_laws::copies(seq!['0'], zeros) + s)[0] <= '9',
    decreases zeros,
{
    let z = text_laws::copies(seq!['0'], zeros);
    if zeros > 0 {
        let fewer = text_laws::copies(seq!['0'], (zeros - 1) as nat);
        let more = seq!['0'] + s;
        text_laws::law_leading_zeros_count_for_nothing(s);
        lemma_zeros(more, (zeros - 1) as nat);
        assert(z + s =~= fewer + more);
    } else {
        assert(z + s =~= s);
    }
}

/// What follows the name of the HDMI inputs is read as a number.
proof fn lemma_hdmi(s: Seq<char>)
    ensures
        connection_of("tvinput.hdmi"@ + s) == match text::number(s) {
            Some(n) => if 1 <= n <= 99 {
                Some((1000 + n) as u32)
            } else {
                None
            },
            None => None,
        },
{
    reveal_strlit("tvinput.");
    reveal_strlit("hdmi");
    reveal_strlit("tvinput.hdmi");
    assert("tvinput.hdmi"@ + s =~= "tvinput."@ + ("hdmi"@ + s));
    text_laws::law_prefix_comes_off("tvinput."@, "hdmi"@ + s);
    text_laws::law_prefix_comes_off("hdmi"@, s);
}

/// What is no number is the number of no HDMI input.
pub proof fn law_hdmi_inputs_have_numbers(s: Seq<char>)
    requires
        text::number(s) is None,
    ensures
        connection_of("tvinput.hdmi"@ + s) is None,
{
    lemma_hdmi(s);
}

/// The other inputs are told by their names, and whatever has another name is none.
pub proof fn law_other_inputs_are_told_by_their_names(name: Seq<char>)
    requires
        forall|s: Seq<char>| "hdmi"@ + s != name,
    ensures
        connection_of("tvinput."@ + name) == Some(1101u32) <==> name == "cvbs"@ || name == "av"@,
        connection_of("tvinput."@ + name) == Some(1102u32) <==> name == "component"@,
        connection_of("tvinput."@ + name) == Some(1201u32) <==> name == "tuner"@ || name == "dtv"@,
        connection_of("tvinput."@ + name) is None || 1101 <= connection_of("tvinput."@ + name)->0,
{
    text_laws::law_prefix_comes_off("tvinput."@, name);
    if text::past_prefix(name, "hdmi"@) is Some {
        text_laws::law_prefix_was_there(name, "hdmi"@);
    }
    reveal_strlit("cvbs");
    reveal_strlit("av");
    reveal_strlit("component");
    reveal_strlit("tuner");
    reveal_strlit("dtv");
    assert("cvbs"@.len() == 4 && "av"@.len() == 2 && "component"@.len() == 9 && "tuner"@.len() == 5
        && "dtv"@.len() == 3);
}

} // verus!

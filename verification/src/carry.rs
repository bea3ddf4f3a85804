//! How the host carries a setup from step to step: the state as JSON, read before each step and
//! written after it.
use vstd::prelude::*;

use crate::json;
use crate::json::Json;
use crate::setup;
use crate::setup::{Responder, SetupState};

verus! {

/// A responder as it stands in JSON.
pub open spec fn responder_in(found: Json) -> setup::ResponderView {
    setup::ResponderView {
        address: json::text_in(found, "address"@),
        server: json::text_in(found, "server"@),
        usn: json::text_in(found, "usn"@),
        friendly: json::text_in(found, "friendly"@),
        model: json::text_in(found, "model"@),
        is_tv: json::flag_in(found, "is_tv"@),
        rest: Some(found),
    }
}

/// The responders as they stand in JSON.
pub open spec fn responders_in(found: Seq<Json>) -> Seq<setup::ResponderView> {
    found.map_values(|r: Json| responder_in(r))
}

/// A setup's state as it stands in JSON. A field that is missing or of another type is none.
pub open spec fn state_in(state: Json) -> setup::SetupStateView {
    setup::SetupStateView {
        phase: json::text_in(state, "phase"@),
        address: json::text_in(state, "address"@),
        ssdp_candidates: match json::list_in(state, "ssdp_candidates"@) {
            Some(found) => Some(responders_in(found)),
            None => None,
        },
        enrich_at: json::number_in(state, "enrich_at"@),
        info: json::text_in(state, "info"@),
        checked_control: json::flag_in(state, "checked_control"@),
        nagged: json::flag_in(state, "nagged"@),
        chosen: json::flag_in(state, "chosen"@),
        rest: Some(state),
    }
}

/// Whatever else was carried along, or null.
pub open spec fn rest_of(rest: Option<Json>) -> Json {
    match rest {
        Some(json) => json,
        None => Json::Null,
    }
}

/// A responder as it is written: what came with it, and over that what it has.
pub open spec fn responder_out(r: setup::ResponderView) -> Json {
    let j0 = rest_of(r.rest);
    let j1 = json::put(j0, "address"@, json::text(r.address));
    let j2 = json::put(j1, "server"@, json::text(r.server));
    let j3 = json::put(j2, "usn"@, json::text(r.usn));
    let j4 = json::put(j3, "friendly"@, json::text(r.friendly));
    let j5 = json::put(j4, "model"@, json::text(r.model));
    json::put(j5, "is_tv"@, json::flag(r.is_tv))
}

/// The responders as they are written.
pub open spec fn responders_out(found: Seq<setup::ResponderView>) -> Seq<Json> {
    found.map_values(|r: setup::ResponderView| responder_out(r))
}

/// The list of responders as it is written, where there is one.
pub open spec fn list_out(found: Option<Seq<setup::ResponderView>>) -> Option<Json> {
    match found {
        Some(found) => Some(Json::List(responders_out(found))),
        None => None,
    }
}

/// A setup's state as it is written: what came with it, and over that what it has. A setup that is
/// over is null.
pub open spec fn state_out(s: setup::SetupStateView) -> Json {
    let j0 = rest_of(s.rest);
    let j1 = json::put(j0, "phase"@, json::text(s.phase));
    let j2 = json::put(j1, "address"@, json::text(s.address));
    let j3 = json::put(j2, "ssdp_candidates"@, list_out(s.ssdp_candidates));
    let j4 = json::put(j3, "enrich_at"@, json::number(s.enrich_at));
    let j5 = json::put(j4, "info"@, json::text(s.info));
    let j6 = json::put(j5, "checked_control"@, json::flag(s.checked_control));
    let j7 = json::put(j6, "nagged"@, json::flag(s.nagged));
    json::put(j7, "chosen"@, json::flag(s.chosen))
}

impl Responder {
    /// Reads one box that answered the search.
    pub fn read(found: &serde_json::Value) -> (r: Responder)
        ensures
            r.deep_view() == responder_in(json::held(*found)),
    {
        Responder {
            address: json::text_at(found, "address"),
            server: json::text_at(found, "server"),
            usn: json::text_at(found, "usn"),
            friendly: json::text_at(found, "friendly"),
            model: json::text_at(found, "model"),
            is_tv: json::flag_at(found, "is_tv"),
            rest: Some(json::copy(found)),
        }
    }

    /// Writes one box that answered the search, with all that it came with.
    pub fn write(&self) -> (r: serde_json::Value)
        ensures
            json::held(r) == responder_out(self.deep_view()),
    {
        let mut value = copy_of(&self.rest);
        json::put_text(&mut value, "address", self.address.clone());
        json::put_text(&mut value, "server", self.server.clone());
        json::put_text(&mut value, "usn", self.usn.clone());
        json::put_text(&mut value, "friendly", self.friendly.clone());
        json::put_text(&mut value, "model", self.model.clone());
        json::put_flag(&mut value, "is_tv", self.is_tv);
        value
    }
}

fn copy_of(rest: &Option<serde_json::Value>) -> (r: serde_json::Value)
    ensures
        json::held(r) == rest_of(json::held_in(*rest)),
{
    match rest {
        Some(rest) => json::copy(rest),
        None => json::null(),
    }
}

fn read_responders(found: &Vec<serde_json::Value>) -> (r: Vec<Responder>)
    ensures
        r.deep_view() == responders_in(
            found@.map_values(|item: serde_json::Value| json::held(item)),
        ),
{
    let mut out: Vec<Responder> = Vec::new();
    let mut i: usize = 0;
    while i < found.len()
        invariant
            i <= found@.len(),
            out@.len() == i,
            forall|j: int|
                0 <= j < i ==> (#[trigger] out@[j]).deep_view() == responder_in(
                    json::held(found@[j]),
                ),
        decreases found@.len() - i,
    {
        out.push(Responder::read(&found[i]));
        i = i + 1;
    }
    assert(out.deep_view() =~= responders_in(
        found@.map_values(|item: serde_json::Value| json::held(item)),
    ));
    out
}

fn write_responders(found: &Vec<Responder>) -> (r: Vec<serde_json::Value>)
    ensures
        r@.map_values(|item: serde_json::Value| json::held(item)) == responders_out(
            found.deep_view(),
        ),
{
    let mut out: Vec<serde_json::Value> = Vec::new();
    let mut i: usize = 0;
    while i < found.len()
        invariant
            i <= found@.len(),
            out@.len() == i,
            forall|j: int|
                0 <= j < i ==> json::held(#[trigger] out@[j]) == responder_out(
                    found@[j].deep_view(),
                ),
        decreases found@.len() - i,
    {
        out.push(found[i].write());
        i = i + 1;
    }
    assert(out@.map_values(|item: serde_json::Value| json::held(item)) =~= responders_out(
        found.deep_view(),
    ));
    out
}

impl SetupState {
    /// Reads where a setup stands.
    pub fn read(state: &serde_json::Value) -> (r: SetupState)
        ensures
            r@ == state_in(json::held(*state)),
    {
        SetupState {
            phase: json::text_at(state, "phase"),
            address: json::text_at(state, "address"),
            ssdp_candidates: match json::list_at(state, "ssdp_candidates") {
                Some(found) => Some(read_responders(found)),
                None => None,
            },
            enrich_at: json::number_at(state, "enrich_at"),
            info: json::text_at(state, "info"),
            checked_control: json::flag_at(state, "checked_control"),
            nagged: json::flag_at(state, "nagged"),
            chosen: json::flag_at(state, "chosen"),
            rest: Some(json::copy(state)),
        }
    }

    /// Writes where a setup stands, with all that it came with.
    pub fn write(&self) -> (r: serde_json::Value)
        ensures
            json::held(r) == state_out(self@),
    {
        let mut value = copy_of(&self.rest);
        json::put_text(&mut value, "phase", self.phase.clone());
        json::put_text(&mut value, "address", self.address.clone());
        let found = match &self.ssdp_candidates {
            Some(found) => Some(write_responders(found)),
            None => None,
        };
        json::put_list(&mut value, "ssdp_candidates", found);
        json::put_number(&mut value, "enrich_at", self.enrich_at);
        json::put_text(&mut value, "info", self.info.clone());
        json::put_flag(&mut value, "checked_control", self.checked_control);
        json::put_flag(&mut value, "nagged", self.nagged);
        json::put_flag(&mut value, "chosen", self.chosen);
        value
    }
}

/// The keys of a responder are told apart.
proof fn lemma_responder_keys_differ()
    ensures
        "address"@ != "server"@ && "address"@ != "usn"@ && "address"@ != "friendly"@ && "address"@
            != "model"@ && "address"@ != "is_tv"@,
        "server"@ != "usn"@ && "server"@ != "friendly"@ && "server"@ != "model"@ && "server"@
            != "is_tv"@,
        "usn"@ != "friendly"@ && "usn"@ != "model"@ && "usn"@ != "is_tv"@,
        "friendly"@ != "model"@ && "friendly"@ != "is_tv"@,
        "model"@ != "is_tv"@,
{
    reveal_strlit("address");
    reveal_strlit("server");
    reveal_strlit("usn");
    reveal_strlit("friendly");
    reveal_strlit("model");
    reveal_strlit("is_tv");
    assert("address"@[0] == 'a' && "server"@[0] == 's' && "usn"@[0] == 'u' && "friendly"@[0] == 'f'
        && "model"@[0] == 'm' && "is_tv"@[0] == 'i');
}

/// The keys of a state are told apart.
proof fn lemma_state_keys_differ()
    ensures
        "phase"@ != "address"@ && "phase"@ != "ssdp_candidates"@ && "phase"@ != "enrich_at"@
            && "phase"@ != "info"@ && "phase"@ != "checked_control"@ && "phase"@ != "nagged"@
            && "phase"@ != "chosen"@,
        "address"@ != "ssdp_candidates"@ && "address"@ != "enrich_at"@ && "address"@ != "info"@
            && "address"@ != "checked_control"@ && "address"@ != "nagged"@ && "address"@
            != "chosen"@,
        "ssdp_candidates"@ != "enrich_at"@ && "ssdp_candidates"@ != "info"@ && "ssdp_candidates"@
            != "checked_control"@ && "ssdp_candidates"@ != "nagged"@ && "ssdp_candidates"@
            != "chosen"@,
        "enrich_at"@ != "info"@ && "enrich_at"@ != "checked_control"@ && "enrich_at"@ != "nagged"@
            && "enrich_at"@ != "chosen"@,
        "info"@ != "checked_control"@ && "info"@ != "nagged"@ && "info"@ != "chosen"@,
        "checked_control"@ != "nagged"@ && "checked_control"@ != "chosen"@,
        "nagged"@ != "chosen"@,
{
    reveal_strlit("phase");
    reveal_strlit("address");
    reveal_strlit("ssdp_candidates");
    reveal_strlit("enrich_at");
    reveal_strlit("info");
    reveal_strlit("checked_control");
    reveal_strlit("nagged");
    reveal_strlit("chosen");
    assert("phase"@[0] == 'p' && "address"@[0] == 'a' && "ssdp_candidates"@[0] == 's'
        && "enrich_at"@[0] == 'e' && "info"@[0] == 'i' && "checked_control"@[0] == 'c'
        && "nagged"@[0] == 'n' && "chosen"@[0] == 'c');
    assert("checked_control"@.len() == 15 && "chosen"@.len() == 6);
}

/// What was read of a responder is written back as it stood, with everything that came with it.
pub proof fn law_a_responder_is_written_as_it_was_read(found: Json)
    ensures
        responder_out(responder_in(found)) == found,
{
    let r = responder_in(found);
    json::lemma_put_again(found, "address"@, json::text(r.address));
    json::lemma_put_again(found, "server"@, json::text(r.server));
    json::lemma_put_again(found, "usn"@, json::text(r.usn));
    json::lemma_put_again(found, "friendly"@, json::text(r.friendly));
    json::lemma_put_again(found, "model"@, json::text(r.model));
    json::lemma_put_again(found, "is_tv"@, json::flag(r.is_tv));
}

/// What was read of a state is written back as it stood, with everything that came with it, whatever
/// the host handed over.
pub proof fn law_a_state_is_written_as_it_was_read(state: Json)
    ensures
        state_out(state_in(state)) == state,
{
    let s = state_in(state);
    json::lemma_put_again(state, "phase"@, json::text(s.phase));
    json::lemma_put_again(state, "address"@, json::text(s.address));
    if let Some(found) = json::list_in(state, "ssdp_candidates"@) {
        assert forall|i: int| 0 <= i < found.len() implies #[trigger] responders_out(
            responders_in(found),
        )[i] == found[i] by {
            law_a_responder_is_written_as_it_was_read(found[i]);
        }
        assert(responders_out(responders_in(found)) =~= found);
    }
    json::lemma_put_again(state, "ssdp_candidates"@, list_out(s.ssdp_candidates));
    json::lemma_put_again(state, "enrich_at"@, json::number(s.enrich_at));
    json::lemma_put_again(state, "info"@, json::text(s.info));
    json::lemma_put_again(state, "checked_control"@, json::flag(s.checked_control));
    json::lemma_put_again(state, "nagged"@, json::flag(s.nagged));
    json::lemma_put_again(state, "chosen"@, json::flag(s.chosen));
}

/// A responder without what else came with it.
pub open spec fn bare_responder(r: setup::ResponderView) -> setup::ResponderView {
    setup::ResponderView { rest: None, ..r }
}

/// Responders without what else came with them.
pub open spec fn bare_responders(found: Seq<setup::ResponderView>) -> Seq<setup::ResponderView> {
    found.map_values(|r: setup::ResponderView| bare_responder(r))
}

/// A state without what else came with it: all that a step goes by.
pub open spec fn bare(s: setup::SetupStateView) -> setup::SetupStateView {
    setup::SetupStateView {
        ssdp_candidates: match s.ssdp_candidates {
            Some(found) => Some(bare_responders(found)),
            None => None,
        },
        rest: None,
        ..s
    }
}

/// What a responder does not have, what came with it does not have either.
pub open spec fn is_whole_responder(r: setup::ResponderView) -> bool {
    let came = responder_in(rest_of(r.rest));
    &&& r.address is None ==> came.address is None
    &&& r.server is None ==> came.server is None
    &&& r.usn is None ==> came.usn is None
    &&& r.friendly is None ==> came.friendly is None
    &&& r.model is None ==> came.model is None
    &&& r.is_tv is None ==> came.is_tv is None
}

/// What a state does not have, what came with it does not have either.
pub open spec fn is_whole(s: setup::SetupStateView) -> bool {
    let came = state_in(rest_of(s.rest));
    &&& s.phase is None ==> came.phase is None
    &&& s.address is None ==> came.address is None
    &&& s.ssdp_candidates is None ==> came.ssdp_candidates is None
    &&& s.enrich_at is None ==> came.enrich_at is None
    &&& s.info is None ==> came.info is None
    &&& s.checked_control is None ==> came.checked_control is None
    &&& s.nagged is None ==> came.nagged is None
    &&& s.chosen is None ==> came.chosen is None
    &&& s.ssdp_candidates matches Some(found) ==> forall|i: int|
        0 <= i < found.len() ==> is_whole_responder(#[trigger] found[i])
}

/// A responder that was written is read back.
proof fn lemma_responder_is_read_back(r: setup::ResponderView)
    requires
        is_whole_responder(r),
    ensures
        bare_responder(responder_in(responder_out(r))) == bare_responder(r),
{
    lemma_responder_keys_differ();
}

/// A state that was written is read back: whatever it has, and nothing more.
pub proof fn law_a_written_state_is_read_back(s: setup::SetupStateView)
    requires
        is_whole(s),
    ensures
        bare(state_in(state_out(s))) == bare(s),
{
    lemma_state_keys_differ();
    if let Some(found) = s.ssdp_candidates {
        let again = responders_in(responders_out(found));
        assert forall|i: int| 0 <= i < found.len() implies #[trigger] bare_responders(again)[i]
            == bare_responders(found)[i] by {
            assert(is_whole_responder(found[i]));
            lemma_responder_is_read_back(found[i]);
        }
        assert(bare_responders(again) =~= bare_responders(found));
    }
}

/// Whatever state the host hands over is whole as it is read.
pub proof fn law_every_state_is_read_whole(state: Json)
    ensures
        is_whole(state_in(state)),
{
}

/// A state after an answer is as whole as it was.
proof fn lemma_named_is_whole(s: setup::SetupStateView, response: Option<Seq<char>>)
    requires
        is_whole(s),
    ensures
        is_whole(setup::after_naming(s, response)),
{
    let named = setup::after_naming(s, response);
    if let Some(found) = named.ssdp_candidates {
        assert forall|i: int| 0 <= i < found.len() implies is_whole_responder(
            #[trigger] found[i],
        ) by {
            assert(is_whole_responder(s.ssdp_candidates->0[i]));
        }
    }
}

/// What a step leaves either has nothing that came with it, or is what it was, further on in the
/// naming of the responders.
proof fn lemma_left_by_a_step(s: setup::SetupStateView, input: setup::SetupInputView)
    ensures
        ({
            let next = setup::stepped(s, input).1;
            let named = setup::after_naming(s, input.response);
            ||| next.rest is None && next.ssdp_candidates is None
            ||| next.phase is Some && next.enrich_at is Some && next == (setup::SetupStateView {
                phase: next.phase,
                enrich_at: next.enrich_at,
                ..s
            })
            ||| next.phase is Some && next.enrich_at is Some && next == (setup::SetupStateView {
                phase: next.phase,
                enrich_at: next.enrich_at,
                ..named
            })
        }),
{
}

/// A step leaves a whole state of a whole one.
pub proof fn law_every_step_leaves_a_whole_state(
    s: setup::SetupStateView,
    input: setup::SetupInputView,
)
    requires
        is_whole(s),
    ensures
        is_whole(setup::stepped(s, input).1),
{
    let next = setup::stepped(s, input).1;
    let named = setup::after_naming(s, input.response);
    lemma_named_is_whole(s, input.response);
    lemma_left_by_a_step(s, input);
    lemma_still_whole(s, next);
    lemma_still_whole(named, next);
}

/// A state that has nothing that came with it is whole, and so is one that has more of the phase
/// and of the count than a whole one.
proof fn lemma_still_whole(s: setup::SetupStateView, next: setup::SetupStateView)
    ensures
        next.rest is None && next.ssdp_candidates is None ==> is_whole(next),
        is_whole(s) && next.phase is Some && next.enrich_at is Some && next == (
        setup::SetupStateView { phase: next.phase, enrich_at: next.enrich_at, ..s }) ==> is_whole(
            next,
        ),
{
}

/// The same rows for responders that differ only in what else came with them.
proof fn lemma_same_rows(a: Seq<setup::ResponderView>, b: Seq<setup::ResponderView>)
    requires
        bare_responders(a) == bare_responders(b),
    ensures
        setup::rows_of(a) == setup::rows_of(b),
{
    assert(bare_responders(a).len() == a.len() && bare_responders(b).len() == b.len());
    assert forall|i: int| 0 <= i < a.len() implies setup::row_of(#[trigger] a[i]) == setup::row_of(
        b[i],
    ) by {
        assert(bare_responders(a)[i] == bare_responders(b)[i]);
    }
    lemma_same_rows_to(a, b, a.len() as int);
    assert(a.take(a.len() as int) == a);
    assert(b.take(b.len() as int) == b);
}

/// The same rows for the first `n` of two lists that have the same rows one by one.
proof fn lemma_same_rows_to(
    a: Seq<setup::ResponderView>,
    b: Seq<setup::ResponderView>,
    n: int,
)
    requires
        a.len() == b.len(),
        forall|i: int| 0 <= i < a.len() ==> setup::row_of(#[trigger] a[i]) == setup::row_of(b[i]),
        0 <= n <= a.len(),
    ensures
        setup::rows_of(a.take(n)) == setup::rows_of(b.take(n)),
    decreases n,
{
    let read = |r: setup::ResponderView| setup::row_of(r);
    if n == 0 {
        assert(a.take(0) == b.take(0));
    } else {
        lemma_same_rows_to(a, b, n - 1);
        a.lemma_filter_map_take_succ(read, n - 1);
        b.lemma_filter_map_take_succ(read, n - 1);
        assert(setup::row_of(a[n - 1]) == setup::row_of(b[n - 1]));
    }
}

/// A step goes by the state alone, and not by what else came with it.
pub proof fn law_a_step_goes_by_the_state_alone(
    a: setup::SetupStateView,
    b: setup::SetupStateView,
    input: setup::SetupInputView,
)
    requires
        bare(a) == bare(b),
    ensures
        setup::stepped(a, input).0 == setup::stepped(b, input).0,
        bare(setup::stepped(a, input).1) == bare(setup::stepped(b, input).1),
{
    let named_a = setup::after_naming(a, input.response);
    let named_b = setup::after_naming(b, input.response);
    if let (Some(found), Some(other)) = (a.ssdp_candidates, b.ssdp_candidates) {
        assert(bare_responders(found).len() == found.len());
        assert(bare_responders(other).len() == other.len());
        assert forall|i: int| 0 <= i < found.len() implies bare_responder(#[trigger] found[i])
            == bare_responder(other[i]) by {
            assert(bare_responders(found)[i] == bare_responders(other)[i]);
        }
        lemma_same_rows(found, other);
        let f = named_a.ssdp_candidates->0;
        let o = named_b.ssdp_candidates->0;
        assert(bare_responders(f) =~= bare_responders(o));
        assert forall|i: int| 0 <= i < f.len() implies bare_responder(#[trigger] f[i])
            == bare_responder(o[i]) by {
            assert(bare_responders(f)[i] == bare_responders(o)[i]);
        }
        lemma_same_rows(f, o);
    }
}

/// A setup goes on from where it stood: what a step leaves, written down by one call and read by
/// the next, makes the next step the same as if it had never been written down. So nothing that a
/// step has to remember is lost between two calls.
pub proof fn law_a_setup_goes_on_from_where_it_stood(
    state: Json,
    input: setup::SetupInputView,
    later: setup::SetupInputView,
)
    ensures
        ({
            let next = setup::stepped(state_in(state), input).1;
            let read = state_in(state_out(next));
            &&& setup::stepped(read, later).0 == setup::stepped(next, later).0
            &&& bare(setup::stepped(read, later).1) == bare(setup::stepped(next, later).1)
        }),
{
    let next = setup::stepped(state_in(state), input).1;
    law_every_state_is_read_whole(state);
    law_every_step_leaves_a_whole_state(state_in(state), input);
    law_a_written_state_is_read_back(next);
    law_a_step_goes_by_the_state_alone(state_in(state_out(next)), next, later);
}

} // verus!

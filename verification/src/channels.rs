//! The channels of a box, by id, and which of them a spoken name means.
use vstd::prelude::*;

use crate::text;
use crate::text_laws;

verus! {

/// One channel as the map holds it: its id, and its name where it has one that is text.
pub type Channel = (Seq<char>, Option<Seq<char>>);

/// `serde_json::Map`, which keeps the channels.
#[verifier::external_type_specification]
#[verifier::external_body]
#[verifier::reject_recursive_types(K)]
#[verifier::reject_recursive_types(V)]
pub struct ExMap<K, V>(serde_json::Map<K, V>);

/// What a map holds, in the order in which it is walked.
pub uninterp spec fn walked(
    map: serde_json::Map<String, serde_json::Value>,
) -> Seq<(Seq<char>, Option<Seq<char>>)>;

/// `a` stands before `b` in the order of texts: by the first character in which they differ, or
/// by length.
pub open spec fn precedes(a: Seq<char>, b: Seq<char>) -> bool
    decreases a.len(),
{
    if b.len() == 0 {
        false
    } else if a.len() == 0 {
        true
    } else if a[0] == b[0] {
        precedes(a.drop_first(), b.drop_first())
    } else {
        a[0] < b[0]
    }
}

/// `channels` with `id` called `name`, in its place in the order of ids.
pub open spec fn with_channel(
    channels: Seq<Channel>,
    id: Seq<char>,
    name: Seq<char>,
) -> Seq<Channel> {
    channels.filter(|c: Channel| precedes(c.0, id)) + seq![(id, Some(name))] + channels.filter(
        |c: Channel| precedes(id, c.0),
    )
}

/// `serde_json::Map::new`: a map that holds nothing.
#[verifier::external_body]
fn empty_map() -> (r: serde_json::Map<String, serde_json::Value>)
    ensures
        walked(r) == Seq::<Channel>::empty(),
{
    serde_json::Map::new()
}

/// `serde_json::Map::insert` of a `Value::String`: the map, which with serde_json's default
/// features is a `BTreeMap` and is walked in the order of its keys, then holds the name under
/// the id, in place of what it held there, and everything else as before.
#[verifier::external_body]
fn insert(map: &mut serde_json::Map<String, serde_json::Value>, id: String, name: String)
    ensures
        walked(*final(map)) == with_channel(walked(*old(map)), id@, name@),
{
    map.insert(id, serde_json::Value::String(name));
}

/// `serde_json::Map::iter`: everything that the map holds, in order, each value as the text that
/// `Value::as_str` gives.
#[verifier::external_body]
fn entries(map: &serde_json::Map<String, serde_json::Value>) -> (r: Vec<(String, Option<String>)>)
    ensures
        r.deep_view() == walked(*map),
{
    map.iter().map(|(id, name)| (id.clone(), name.as_str().map(str::to_string))).collect()
}

/// The name that the channel `id` has in `channels`.
pub open spec fn name_of(channels: Seq<Channel>, id: Seq<char>) -> Option<Seq<char>>
    decreases channels.len(),
{
    if channels.len() == 0 {
        None
    } else if channels[0].0 == id {
        channels[0].1
    } else {
        name_of(channels.drop_first(), id)
    }
}

/// `serde_json::Map::get`: the value that the map holds under the id, which is the key of at most
/// one entry, as the text that `Value::as_str` gives.
#[verifier::external_body]
pub(crate) fn channel_name(
    map: &serde_json::Map<String, serde_json::Value>,
    id: &str,
) -> (r: Option<String>)
    ensures
        r.deep_view() == name_of(walked(*map), id@),
{
    map.get(id).and_then(serde_json::Value::as_str).map(str::to_string)
}

/// What `str::to_lowercase` makes of a text.
pub uninterp spec fn lowercase(s: Seq<char>) -> Seq<char>;

/// What `char::is_alphanumeric` says of a character.
pub uninterp spec fn alphanumeric(c: char) -> bool;

/// `str::to_lowercase`: the lower case of a text by Unicode's rules, which depends on the text
/// alone.
#[verifier::external_body]
fn to_lowercase(s: &str) -> (r: String)
    ensures
        r@ == lowercase(s@),
{
    s.to_lowercase()
}

/// `char::is_alphanumeric`: whether Unicode counts a character as a letter or a number, which
/// depends on the character alone.
#[verifier::external_body]
fn is_alphanumeric(c: char) -> (r: bool)
    ensures
        r == alphanumeric(c),
{
    c.is_alphanumeric()
}

/// The letters and numbers of a text.
pub open spec fn letters_and_numbers(s: Seq<char>) -> Seq<char> {
    s.filter(|c: char| alphanumeric(c))
}

/// A name as it is compared: in lower case, with nothing but letters and numbers.
pub open spec fn normalized(s: Seq<char>) -> Seq<char> {
    letters_and_numbers(lowercase(s))
}

/// The letters and numbers of a text.
pub fn keep_alphanumeric(s: &str) -> (r: String)
    ensures
        r@ == letters_and_numbers(s@),
{
    let text = text::chars_of(s);
    let ghost kept = |c: char| alphanumeric(c);
    let mut out: String = String::new();
    let mut i: usize = 0;
    assert(s@.take(0).filter(kept) == Seq::<char>::empty());
    while i < text.len()
        invariant
            text@ == s@,
            i <= text@.len(),
            kept == (|c: char| alphanumeric(c)),
            out@ == s@.take(i as int).filter(kept),
        decreases text@.len() - i,
    {
        proof {
            s@.take(i as int).lemma_filter_push(s@[i as int], kept);
            assert(s@.take(i as int).push(s@[i as int]) == s@.take(i + 1));
        }
        if is_alphanumeric(text[i]) {
            let ghost before = out@;
            out.append(s.substring_char(i, i + 1));
            assert(out@ == before.push(s@[i as int]));
        }
        i = i + 1;
    }
    assert(s@.take(i as int) == s@);
    out
}

/// A name as it is compared: in lower case, with nothing but letters and numbers.
pub fn normalize(s: &str) -> (r: String)
    ensures
        r@ == normalized(s@),
{
    keep_alphanumeric(&to_lowercase(s))
}

/// How well a channel's name answers to the name wanted, both normalized: the same, then one the
/// start of the other, then one inside the other.
pub open spec fn match_rank(name: Seq<char>, want: Seq<char>) -> Option<u8> {
    if name == want {
        Some(0)
    } else if text::occurs_at(name, want, 0) || text::occurs_at(want, name, 0) {
        Some(1)
    } else if text::holds(name, want) || text::holds(want, name) {
        Some(2)
    } else {
        None
    }
}

/// How well a channel's name answers to the name wanted, both normalized.
///
/// Exact, then prefix, then substring: "netflix" for "Netflix", "disney" for "Disney+", "prime"
/// for "Prime Video". People do not say the full channel name.
pub fn rank(name: &str, want: &str) -> (r: Option<u8>)
    ensures
        r == match_rank(name@, want@),
{
    if text::same(name, want) {
        Some(0)
    } else if text::starts_with(name, want) || text::starts_with(want, name) {
        Some(1)
    } else if text::contains(name, want) || text::contains(want, name) {
        Some(2)
    } else {
        None
    }
}

/// The name at `i` answers, none better, and none before it as well.
pub open spec fn is_best(names: Seq<Seq<char>>, want: Seq<char>, i: int) -> bool {
    &&& 0 <= i < names.len()
    &&& match_rank(names[i], want) is Some
    &&& forall|j: int|
        0 <= j < names.len() && match_rank(#[trigger] names[j], want) is Some ==> {
            &&& match_rank(names[i], want)->0 <= match_rank(names[j], want)->0
            &&& j < i ==> match_rank(names[i], want)->0 < match_rank(names[j], want)->0
        }
}

/// Which of the names answers best to the one wanted, all of them normalized: the first of those
/// with the best rank.
pub fn best_of(names: &Vec<String>, want: &str) -> (r: Option<usize>)
    ensures
        match r {
            Some(i) => is_best(names.deep_view(), want@, i as int),
            None => forall|i: int|
                0 <= i < names@.len() ==> match_rank(#[trigger] names.deep_view()[i], want@) is None,
        },
{
    let mut best: Option<(u8, usize)> = None;
    let mut i: usize = 0;
    let ghost all = names.deep_view();
    while i < names.len()
        invariant
            all == names.deep_view(),
            i <= names@.len(),
            match best {
                Some((r, b)) => match_rank(all[b as int], want@) == Some(r) && b < i && is_best(
                    all.take(i as int),
                    want@,
                    b as int,
                ),
                None => forall|j: int|
                    0 <= j < i ==> match_rank(#[trigger] all[j], want@) is None,
            },
        decreases names@.len() - i,
    {
        let ghost seen = all.take(i as int);
        let ghost next = all.take(i + 1);
        assert(forall|j: int| 0 <= j < i ==> seen[j] == next[j]);
        assert(next[i as int] == all[i as int]);
        if let Some(r) = rank(&names[i], want) {
            let better = match best {
                Some((was, _)) => r < was,
                None => true,
            };
            if better {
                best = Some((r, i));
            }
        }
        i = i + 1;
    }
    assert(all.take(i as int) == all);
    match best {
        Some((_, b)) => Some(b),
        None => None,
    }
}

/// The names of the channels as they are compared; a channel without one has the empty name.
pub open spec fn compared_names(channels: Seq<Channel>) -> Seq<Seq<char>> {
    channels.map_values(
        |c: Channel|
            normalized(
                match c.1 {
                    Some(name) => name,
                    None => ""@,
                },
            ),
    )
}

/// The channel that a spoken name means: the first, in the order of ids, of those that answer
/// best.
pub open spec fn meant(channels: Seq<Channel>, want: Seq<char>) -> Option<Channel> {
    let names = compared_names(channels);
    if exists|i: int| is_best(names, normalized(want), i) {
        Some(channels[choose|i: int| is_best(names, normalized(want), i)])
    } else {
        None
    }
}

/// There is one best name at most.
proof fn lemma_best_is_one(names: Seq<Seq<char>>, want: Seq<char>, i: int, j: int)
    requires
        is_best(names, want, i),
        is_best(names, want, j),
    ensures
        i == j,
{
    assert(names[i] == names[i] && names[j] == names[j]);
}

/// The id of the channel that a spoken name means.
pub fn app_id(map: &serde_json::Map<String, serde_json::Value>, want: &str) -> (r: Option<String>)
    ensures
        match meant(walked(*map), want@) {
            Some(channel) => r is Some && r->0@ == channel.0,
            None => r is None,
        },
{
    let channels = entries(map);
    let wanted = normalize(want);
    let mut names: Vec<String> = Vec::new();
    let mut i: usize = 0;
    let ghost all = compared_names(walked(*map));
    while i < channels.len()
        invariant
            i <= channels@.len(),
            channels.deep_view() == walked(*map),
            all == compared_names(walked(*map)),
            names.deep_view() == all.take(i as int),
        decreases channels@.len() - i,
    {
        let ghost before = names.deep_view();
        let name = match &channels[i].1 {
            Some(name) => normalize(name),
            None => normalize(""),
        };
        assert(walked(*map)[i as int] == channels@[i as int].deep_view());
        assert(name@ == all[i as int]);
        names.push(name);
        assert(names.deep_view() == before.push(all[i as int]));
        assert(all.take(i + 1) == all.take(i as int).push(all[i as int]));
        i = i + 1;
    }
    assert(names.deep_view() == all);
    match best_of(&names, &wanted) {
        Some(b) => {
            proof {
                let c = choose|i: int| is_best(all, wanted@, i);
                lemma_best_is_one(all, wanted@, b as int, c);
            }
            assert(walked(*map)[b as int] == channels@[b as int].deep_view());
            Some(channels[b].0.clone())
        },
        None => None,
    }
}

/// The names of the channels, in the order of ids.
pub open spec fn names_in(channels: Seq<Channel>) -> Seq<Seq<char>> {
    channels.filter_map(|c: Channel| c.1)
}

/// The names of the channels that a map holds, in the order of ids.
pub fn known_names(map: &serde_json::Map<String, serde_json::Value>) -> (r: Vec<String>)
    ensures
        r.deep_view() == names_in(walked(*map)),
{
    let channels = entries(map);
    let ghost all = walked(*map);
    let ghost named = |c: Channel| c.1;
    let mut names: Vec<String> = Vec::new();
    let mut i: usize = 0;
    assert(names.deep_view() == all.take(0).filter_map(named));
    while i < channels.len()
        invariant
            i <= channels@.len(),
            all == channels.deep_view(),
            named == (|c: Channel| c.1),
            names.deep_view() == all.take(i as int).filter_map(named),
        decreases channels@.len() - i,
    {
        let ghost before = names.deep_view();
        proof {
            all.lemma_filter_map_take_succ(named, i as int);
        }
        assert(all[i as int] == channels@[i as int].deep_view());
        if let Some(name) = &channels[i].1 {
            names.push(name.clone());
            assert(names.deep_view() == before.push(name@));
        }
        i = i + 1;
    }
    assert(all.take(i as int) == all);
    names
}

/// The channels of a list of ids and names; where an id is listed twice, the later name stands.
pub open spec fn mapped(apps: Seq<(Seq<char>, Seq<char>)>) -> Seq<Channel>
    decreases apps.len(),
{
    if apps.len() == 0 {
        Seq::empty()
    } else {
        with_channel(mapped(apps.drop_last()), apps.last().0, apps.last().1)
    }
}

/// The channels of a list of ids and names, as a map from id to name.
pub fn channel_map(apps: &Vec<(String, String)>) -> (r: serde_json::Map<
    String,
    serde_json::Value,
>)
    ensures
        walked(r) == mapped(apps.deep_view()),
{
    let mut map = empty_map();
    let mut i: usize = 0;
    let ghost all = apps.deep_view();
    while i < apps.len()
        invariant
            i <= apps@.len(),
            all == apps.deep_view(),
            walked(map) == mapped(all.take(i as int)),
        decreases apps@.len() - i,
    {
        assert(all.take(i + 1).drop_last() == all.take(i as int));
        insert(&mut map, apps[i].0.clone(), apps[i].1.clone());
        i = i + 1;
    }
    assert(all.take(i as int) == all);
    map
}

/// Of two different texts one stands before the other, and never both.
proof fn lemma_precedes_is_total(a: Seq<char>, b: Seq<char>)
    ensures
        a != b ==> precedes(a, b) || precedes(b, a),
        !(precedes(a, b) && precedes(b, a)),
        !precedes(a, a),
    decreases a.len(),
{
    if a.len() > 0 {
        lemma_precedes_is_total(a.drop_first(), a.drop_first());
    }
    if a.len() > 0 && b.len() > 0 {
        lemma_precedes_is_total(a.drop_first(), b.drop_first());
        if a[0] == b[0] && a.drop_first() == b.drop_first() {
            assert(seq![a[0]] + a.drop_first() == a);
            assert(seq![b[0]] + b.drop_first() == b);
        }
    } else if a.len() == 0 && b.len() == 0 {
        assert(a == b);
    }
}

/// A text that stands before another stands before whatever that one stands before.
proof fn lemma_precedes_is_transitive(a: Seq<char>, b: Seq<char>, c: Seq<char>)
    requires
        precedes(a, b),
        precedes(b, c),
    ensures
        precedes(a, c),
    decreases a.len(),
{
    if a.len() > 0 && a[0] == b[0] && b[0] == c[0] {
        lemma_precedes_is_transitive(a.drop_first(), b.drop_first(), c.drop_first());
    }
}

/// The ids ascend: each stands in the map once, and it is walked in their order.
pub open spec fn ids_ascend(channels: Seq<Channel>) -> bool {
    forall|i: int, j: int|
        0 <= i < j < channels.len() ==> precedes(#[trigger] channels[i].0, #[trigger] channels[j].0)
}

/// What a filter keeps stands in the order in which it stood.
proof fn lemma_filter_ascends(channels: Seq<Channel>, keep: spec_fn(Channel) -> bool)
    requires
        ids_ascend(channels),
    ensures
        ids_ascend(channels.filter(keep)),
        forall|i: int|
            0 <= i < channels.filter(keep).len() ==> {
                &&& keep(#[trigger] channels.filter(keep)[i])
                &&& channels.contains(channels.filter(keep)[i])
            },
        forall|c: Channel| channels.contains(c) && keep(c) ==> channels.filter(keep).contains(c),
    decreases channels.len(),
{
    reveal(Seq::filter);
    if channels.len() > 0 {
        let rest = channels.drop_last();
        let last = channels.last();
        lemma_filter_ascends(rest, keep);
        let kept = rest.filter(keep);
        assert forall|i: int| 0 <= i < kept.len() implies precedes(#[trigger] kept[i].0, last.0)
            && channels.contains(kept[i]) by {
            assert(rest.contains(kept[i]));
            let j = choose|j: int| 0 <= j < rest.len() && rest[j] == kept[i];
            assert(channels[j] == kept[i]);
            assert(channels[channels.len() - 1] == last);
        }
        let all = channels.filter(keep);
        assert forall|c: Channel| channels.contains(c) && keep(c) implies all.contains(c) by {
            if c == last {
                assert(all.last() == c);
                assert(all[all.len() - 1] == c);
            } else {
                let j = choose|j: int| 0 <= j < channels.len() && channels[j] == c;
                assert(rest[j] == c);
                assert(rest.contains(c));
                assert(kept.contains(c));
                let k = choose|k: int| 0 <= k < kept.len() && kept[k] == c;
                assert(all[k] == c);
            }
        }
        assert forall|i: int| 0 <= i < all.len() implies {
            &&& keep(#[trigger] all[i])
            &&& channels.contains(all[i])
        } by {
            if i < kept.len() {
                assert(all[i] == kept[i]);
                assert(keep(kept[i]));
            } else {
                assert(all[i] == last);
                assert(channels[channels.len() - 1] == last);
            }
        }
    }
}

/// A channel that is put in stands there, whatever had another id still does, nothing else came,
/// and the ids still ascend.
proof fn lemma_with_channel(channels: Seq<Channel>, id: Seq<char>, name: Seq<char>)
    requires
        ids_ascend(channels),
    ensures
        ids_ascend(with_channel(channels, id, name)),
        with_channel(channels, id, name).contains((id, Some(name))),
        forall|c: Channel|
            c.0 != id ==> (with_channel(channels, id, name).contains(c) <==> channels.contains(c)),
        forall|c: Channel|
            c.0 == id && #[trigger] with_channel(channels, id, name).contains(c) ==> c.1 == Some(
                name,
            ),
{
    let before = |c: Channel| precedes(c.0, id);
    let after = |c: Channel| precedes(id, c.0);
    let low = channels.filter(before);
    let high = channels.filter(after);
    let new = (id, Some(name));
    let all = with_channel(channels, id, name);
    lemma_filter_ascends(channels, before);
    lemma_filter_ascends(channels, after);
    assert(all == low + seq![new] + high);
    let n = low.len() as int;
    assert(all[n] == new);
    assert forall|i: int, j: int| 0 <= i < j < all.len() implies precedes(
        #[trigger] all[i].0,
        #[trigger] all[j].0,
    ) by {
        if i < n {
            assert(all[i] == low[i]);
            assert(before(low[i]));
            if j < n {
                assert(all[j] == low[j]);
            } else if j > n {
                assert(all[j] == high[j - n - 1]);
                assert(after(high[j - n - 1]));
                lemma_precedes_is_transitive(all[i].0, id, all[j].0);
            }
        } else {
            assert(all[j] == high[j - n - 1]);
            assert(after(high[j - n - 1]));
            if i > n {
                assert(all[i] == high[i - n - 1]);
            }
        }
    }
    assert forall|c: Channel| c.0 != id implies (all.contains(c) <==> channels.contains(c)) by {
        if all.contains(c) {
            let i = choose|i: int| 0 <= i < all.len() && all[i] == c;
            if i < n {
                assert(low[i] == c);
            } else {
                assert(high[i - n - 1] == c);
            }
        }
        if channels.contains(c) {
            lemma_precedes_is_total(c.0, id);
            if before(c) {
                assert(low.contains(c));
                let i = choose|i: int| 0 <= i < low.len() && low[i] == c;
                assert(all[i] == c);
            } else {
                assert(after(c));
                assert(high.contains(c));
                let i = choose|i: int| 0 <= i < high.len() && high[i] == c;
                assert(all[n + 1 + i] == c);
            }
        }
    }
    assert forall|c: Channel| c.0 == id && #[trigger] all.contains(c) implies c.1 == Some(
        name,
    ) by {
        let i = choose|i: int| 0 <= i < all.len() && all[i] == c;
        lemma_precedes_is_total(id, id);
        if i < n {
            assert(before(low[i]));
        } else if i > n {
            assert(after(high[i - n - 1]));
        }
    }
}

/// The entry at `i` is the last of its id in the list.
pub open spec fn is_last_of_id(apps: Seq<(Seq<char>, Seq<char>)>, i: int) -> bool {
    &&& 0 <= i < apps.len()
    &&& forall|j: int| i < j < apps.len() ==> #[trigger] apps[j].0 != apps[i].0
}

/// What is kept of a list is exactly its channels: each id once, in their order, under the last
/// name that it was listed with.
pub proof fn law_channels_are_kept(apps: Seq<(Seq<char>, Seq<char>)>)
    ensures
        ids_ascend(mapped(apps)),
        forall|i: int|
            is_last_of_id(apps, i) ==> mapped(apps).contains(
                (#[trigger] apps[i].0, Some(apps[i].1)),
            ),
        forall|c: Channel|
            #[trigger] mapped(apps).contains(c) ==> exists|i: int|
                is_last_of_id(apps, i) && apps[i].0 == c.0 && c.1 == Some(apps[i].1),
    decreases apps.len(),
{
    if apps.len() > 0 {
        let rest = apps.drop_last();
        let (id, name) = apps.last();
        let n = apps.len() - 1;
        law_channels_are_kept(rest);
        lemma_with_channel(mapped(rest), id, name);
        assert forall|i: int| is_last_of_id(apps, i) implies mapped(apps).contains(
            (#[trigger] apps[i].0, Some(apps[i].1)),
        ) by {
            if i < n {
                assert(apps[n].0 != apps[i].0);
                assert(rest[i] == apps[i]);
                assert forall|j: int| i < j < rest.len() implies #[trigger] rest[j].0
                    != rest[i].0 by {
                    assert(apps[j].0 != apps[i].0);
                }
                assert(is_last_of_id(rest, i));
            }
        }
        assert forall|c: Channel| #[trigger] mapped(apps).contains(c) implies exists|i: int|
            is_last_of_id(apps, i) && apps[i].0 == c.0 && c.1 == Some(apps[i].1) by {
            if c.0 == id {
                assert(is_last_of_id(apps, n));
            } else {
                assert(mapped(rest).contains(c));
                let i = choose|i: int|
                    is_last_of_id(rest, i) && rest[i].0 == c.0 && c.1 == Some(rest[i].1);
                assert forall|j: int| i < j < apps.len() implies #[trigger] apps[j].0
                    != apps[i].0 by {
                    if j < n {
                        assert(rest[j].0 != rest[i].0);
                    }
                }
                assert(is_last_of_id(apps, i));
            }
        }
    }
}

/// Where the ids ascend, a channel's id leads to its name.
pub proof fn law_id_leads_to_name(channels: Seq<Channel>, c: Channel)
    requires
        ids_ascend(channels),
        channels.contains(c),
    ensures
        name_of(channels, c.0) == c.1,
    decreases channels.len(),
{
    let i = choose|i: int| 0 <= i < channels.len() && channels[i] == c;
    if i > 0 {
        let rest = channels.drop_first();
        assert(precedes(channels[0].0, channels[i].0));
        lemma_precedes_is_total(c.0, c.0);
        assert(rest[i - 1] == c);
        assert(rest.contains(c));
        assert forall|a: int, b: int| 0 <= a < b < rest.len() implies precedes(
            #[trigger] rest[a].0,
            #[trigger] rest[b].0,
        ) by {
            assert(precedes(channels[a + 1].0, channels[b + 1].0));
        }
        law_id_leads_to_name(rest, c);
    }
}

/// Whatever answers, something answers best.
proof fn lemma_some_best(names: Seq<Seq<char>>, want: Seq<char>, i: int)
    requires
        0 <= i < names.len(),
        match_rank(names[i], want) is Some,
    ensures
        exists|b: int| is_best(names, want, b),
    decreases match_rank(names[i], want)->0, i,
{
    if !is_best(names, want, i) {
        let j = choose|j: int|
            0 <= j < names.len() && match_rank(#[trigger] names[j], want) is Some && !(match_rank(
                names[i],
                want,
            )->0 <= match_rank(names[j], want)->0 && (j < i ==> match_rank(names[i], want)->0
                < match_rank(names[j], want)->0));
        lemma_some_best(names, want, j);
    }
}

/// A channel can be asked for by its name: whoever says the name of a channel of the box gets a
/// channel of that name, as names are compared.
pub proof fn law_channel_answers_to_its_name(channels: Seq<Channel>, id: Seq<char>, name: Seq<char>)
    requires
        channels.contains((id, Some(name))),
    ensures
        meant(channels, name) matches Some(c) && channels.contains(c) && normalized(
            match c.1 {
                Some(n) => n,
                None => ""@,
            },
        ) == normalized(name),
{
    let names = compared_names(channels);
    let want = normalized(name);
    let i = choose|i: int| 0 <= i < channels.len() && channels[i] == (id, Some(name));
    assert(names[i] == want);
    lemma_some_best(names, want, i);
    let b = choose|b: int| is_best(names, want, b);
    assert(match_rank(names[i], want) == Some(0u8));
    assert(match_rank(names[b], want) == Some(0u8));
    assert(channels.contains(channels[b]));
}

/// One of the two names begins as the whole of the other reads.
pub open spec fn begins_as(a: Seq<char>, b: Seq<char>) -> bool {
    ||| exists|more: Seq<char>| #[trigger] (b + more) == a
    ||| exists|more: Seq<char>| #[trigger] (a + more) == b
}

/// One of the two names stands somewhere in the other, in one piece.
pub open spec fn is_inside(a: Seq<char>, b: Seq<char>) -> bool {
    text_laws::is_part_of(b, a) || text_laws::is_part_of(a, b)
}

/// How well two names go together, told by the names alone: the same, then one the beginning of the
/// other, then one somewhere in the other, of whatever length they are. It does not matter which of
/// the two was said and which is listed.
pub proof fn law_names_go_together_as_they_read(a: Seq<char>, b: Seq<char>)
    ensures
        match_rank(a, b) == Some(0u8) <==> a == b,
        match_rank(a, b) == Some(1u8) <==> a != b && begins_as(a, b),
        match_rank(a, b) == Some(2u8) <==> !begins_as(a, b) && is_inside(a, b),
        match_rank(a, b) is Some <==> is_inside(a, b),
        match_rank(a, b) == match_rank(b, a),
{
    text_laws::law_starts_with(a, b);
    text_laws::law_starts_with(b, a);
    text_laws::law_holds_its_parts(a, b);
    text_laws::law_holds_its_parts(b, a);
    if a == b {
        assert(b + Seq::<char>::empty() =~= a);
        assert(text_laws::reads(a, Seq::empty(), b, Seq::empty()));
    }
    if text::occurs_at(a, b, 0) {
        text_laws::law_it_stands_where_it_is_found(a, b, 0);
    }
    if text::occurs_at(b, a, 0) {
        text_laws::law_it_stands_where_it_is_found(b, a, 0);
    }
}

/// A channel's name as it is compared.
pub open spec fn compared(c: Channel) -> Seq<char> {
    normalized(
        match c.1 {
            Some(name) => name,
            None => ""@,
        },
    )
}

/// A channel is meant exactly where what was said, or a channel's name, stands in the other: however
/// short it is, and wherever in the name it stands.
pub proof fn law_whatever_stands_in_a_name_means_a_channel(channels: Seq<Channel>, want: Seq<char>)
    ensures
        meant(channels, want) is Some <==> exists|i: int|
            0 <= i < channels.len() && is_inside(
                compared(#[trigger] channels[i]),
                normalized(want),
            ),
{
    let names = compared_names(channels);
    let said = normalized(want);
    if exists|i: int|
        0 <= i < channels.len() && is_inside(compared(#[trigger] channels[i]), said) {
        let i = choose|i: int|
            0 <= i < channels.len() && is_inside(compared(#[trigger] channels[i]), said);
        assert(names[i] == compared(channels[i]));
        law_names_go_together_as_they_read(names[i], said);
        lemma_some_best(names, said, i);
    }
    if exists|i: int| is_best(names, said, i) {
        let i = choose|i: int| is_best(names, said, i);
        assert(names[i] == compared(channels[i]));
        law_names_go_together_as_they_read(names[i], said);
    }
}

/// A name that is written with something around it still means a channel: what was said may be any
/// part of a listed name, at its beginning, at its end or inside, or have a listed name as a part.
pub proof fn law_a_part_of_a_name_is_enough(
    channels: Seq<Channel>,
    i: int,
    want: Seq<char>,
    a: Seq<char>,
    b: Seq<char>,
)
    requires
        0 <= i < channels.len(),
        compared(channels[i]) == a + normalized(want) + b || normalized(want) == a + compared(
            channels[i],
        ) + b,
    ensures
        meant(channels, want) is Some,
{
    let said = normalized(want);
    let name = compared(channels[i]);
    assert(text_laws::reads(name, a, said, b) || text_laws::reads(said, a, name, b));
    assert(is_inside(compared(channels[i]), said));
    law_whatever_stands_in_a_name_means_a_channel(channels, want);
}

/// The channel that is meant is one of the box's, and the best there is: where a name is just what
/// was said, it has such a name; where one begins as it, or it as one, it is such a one; and of
/// those that are as good it is the first.
pub proof fn law_the_channel_meant_is_the_best(channels: Seq<Channel>, want: Seq<char>, j: int)
    requires
        meant(channels, want) is Some,
        0 <= j < channels.len(),
    ensures
        exists|i: int|
            {
                &&& 0 <= i < channels.len()
                &&& #[trigger] channels[i] == meant(channels, want)->0
                &&& is_inside(compared(channels[i]), normalized(want))
                &&& compared(channels[j]) == normalized(want) ==> compared(channels[i])
                    == normalized(want) && i <= j
                &&& begins_as(compared(channels[j]), normalized(want)) ==> begins_as(
                    compared(channels[i]),
                    normalized(want),
                )
                &&& j < i && is_inside(compared(channels[j]), normalized(want)) ==> {
                    ||| compared(channels[i]) == normalized(want) && compared(channels[j])
                        != normalized(want)
                    ||| begins_as(compared(channels[i]), normalized(want)) && !begins_as(
                        compared(channels[j]),
                        normalized(want),
                    )
                }
            },
{
    let names = compared_names(channels);
    let said = normalized(want);
    let i = choose|i: int| is_best(names, said, i);
    assert(names[i] == compared(channels[i]));
    assert(names[j] == compared(channels[j]));
    law_names_go_together_as_they_read(names[i], said);
    law_names_go_together_as_they_read(names[j], said);
    assert(begins_as(said, said)) by {
        assert(said + Seq::<char>::empty() =~= said);
    }
    assert(channels[i] == meant(channels, want)->0);
}

/// Names are compared by their letters and numbers alone, each where it stood: every other character
/// counts for nothing.
pub proof fn law_only_letters_and_numbers_count(a: Seq<char>, c: char, b: Seq<char>)
    ensures
        letters_and_numbers(a + seq![c] + b) == (if alphanumeric(c) {
            letters_and_numbers(a) + seq![c] + letters_and_numbers(b)
        } else {
            letters_and_numbers(a) + letters_and_numbers(b)
        }),
        letters_and_numbers(a + b) == letters_and_numbers(a) + letters_and_numbers(b),
        letters_and_numbers(Seq::empty()) == Seq::<char>::empty(),
{
    let keep = |c: char| alphanumeric(c);
    reveal(Seq::filter);
    Seq::filter_distributes_over_add(a, b, keep);
    Seq::filter_distributes_over_add(a, seq![c], keep);
    Seq::filter_distributes_over_add(a + seq![c], b, keep);
    Seq::<char>::empty().lemma_filter_push(c, keep);
    assert(Seq::<char>::empty().push(c) =~= seq![c]);
    assert(Seq::<char>::empty().filter(keep) =~= Seq::<char>::empty());
    assert(seq![c].filter(keep) =~= if alphanumeric(c) {
        seq![c]
    } else {
        Seq::empty()
    });
    assert(a.filter(keep) + Seq::<char>::empty() =~= a.filter(keep));
}

/// A name is compared in lower case: two that differ in case alone are the same name, and one that is
/// all letters and numbers is compared as its lower case.
pub proof fn law_names_are_compared_in_lower_case(s: Seq<char>, other: Seq<char>)
    ensures
        lowercase(s) == lowercase(other) ==> normalized(s) == normalized(other),
        letters_and_numbers(lowercase(s)) == lowercase(s) ==> normalized(s) == lowercase(s),
        normalized(s) == letters_and_numbers(lowercase(s)),
{
}

/// The names that a box has are those of its channels, in their order, each as it is listed.
pub proof fn law_names_are_told_as_they_are_listed(a: Seq<Channel>, c: Channel)
    ensures
        names_in(a.push(c)) == match c.1 {
            Some(name) => names_in(a).push(name),
            None => names_in(a),
        },
        names_in(Seq::empty()) == Seq::<Seq<char>>::empty(),
{
    let named = |c: Channel| c.1;
    let all = a.push(c);
    let n = a.len() as int;
    all.lemma_filter_map_take_succ(named, n);
    assert(all.take(n) =~= a);
    assert(all.take(n + 1) =~= all);
    assert(names_in(Seq::empty()) =~= Seq::<Seq<char>>::empty());
}

/// An id that no channel has leads to no name.
pub proof fn law_an_unknown_id_leads_nowhere(channels: Seq<Channel>, id: Seq<char>)
    requires
        forall|i: int| 0 <= i < channels.len() ==> (#[trigger] channels[i]).0 != id,
    ensures
        name_of(channels, id) is None,
    decreases channels.len(),
{
    if channels.len() > 0 {
        let rest = channels.drop_first();
        assert forall|i: int| 0 <= i < rest.len() implies (#[trigger] rest[i]).0 != id by {
            assert(rest[i] == channels[i + 1]);
        }
        assert(channels[0].0 != id);
        law_an_unknown_id_leads_nowhere(rest, id);
    }
}

/// Ids stand in the order of their first different characters, and a shorter one before whatever goes
/// on from it.
pub proof fn law_ids_stand_by_their_first_difference(
    same: Seq<char>,
    x: char,
    a: Seq<char>,
    y: char,
    b: Seq<char>,
)
    requires
        x != y,
    ensures
        precedes(same + seq![x] + a, same + seq![y] + b) <==> x < y,
        precedes(same, same + seq![x] + a),
        !precedes(same + seq![x] + a, same),
    decreases same.len(),
{
    let s = same + seq![x] + a;
    let t = same + seq![y] + b;
    if same.len() > 0 {
        let rest = same.drop_first();
        assert(s.drop_first() =~= rest + seq![x] + a);
        assert(t.drop_first() =~= rest + seq![y] + b);
        law_ids_stand_by_their_first_difference(rest, x, a, y, b);
    }
}

} // verus!

//! The documents that a box answers with: flat lists and records of one element type, in XML.
use vstd::prelude::*;

use crate::text;

verus! {

/// XML text back to the characters a person would say: the five named entities and the numeric
/// apostrophe, one after the other, the ampersand last.
pub open spec fn unescaped(s: Seq<char>) -> Seq<char> {
    let s1 = text::replaced(s, "&lt;"@, "<"@);
    let s2 = text::replaced(s1, "&gt;"@, ">"@);
    let s3 = text::replaced(s2, "&quot;"@, "\""@);
    let s4 = text::replaced(s3, "&apos;"@, "'"@);
    let s5 = text::replaced(s4, "&#39;"@, "'"@);
    text::replaced(s5, "&amp;"@, "&"@)
}

/// XML text back to the characters a person would say.
///
/// The names come out of a document, so a channel called "Live & Breaking News" arrives as
/// `Live &amp; Breaking News`. Left escaped, nobody could ask for it by what it is called.
pub fn unescape(s: &str) -> (r: String)
    ensures
        r@ == unescaped(s@),
{
    proof {
        reveal_strlit("&lt;");
        reveal_strlit("&gt;");
        reveal_strlit("&quot;");
        reveal_strlit("&apos;");
        reveal_strlit("&#39;");
        reveal_strlit("&amp;");
    }
    // The ampersand last, or `&amp;lt;` would turn into `<`.
    let s1 = text::replace(s, "&lt;", "<");
    let s2 = text::replace(&s1, "&gt;", ">");
    let s3 = text::replace(&s2, "&quot;", "\"");
    let s4 = text::replace(&s3, "&apos;", "'");
    let s5 = text::replace(&s4, "&#39;", "'");
    text::replace(&s5, "&amp;", "&")
}

/// The id and the name of the channel that one `<app ...>` element holds, in `chunk`, the text
/// that follows `<app `. Neither may be empty.
pub open spec fn app_of(chunk: Seq<char>) -> Option<(Seq<char>, Seq<char>)> {
    let attribute = "id=\""@;
    match (
        text::position(chunk, attribute),
        text::position(chunk, ">"@),
        text::position(chunk, "</app>"@),
    ) {
        (Some(at), Some(open), Some(close)) => {
            let rest = chunk.skip(at + attribute.len());
            match text::position(rest, "\""@) {
                Some(end) => {
                    let id = rest.take(end);
                    let name = unescaped(text::trimmed(chunk.subrange(open + 1, close)));
                    if open < close && id.len() > 0 && name.len() > 0 {
                        Some((id, name))
                    } else {
                        None
                    }
                },
                None => None,
            }
        },
        _ => None,
    }
}

/// The channels that a document lists, in its order, each as its id and its name.
pub open spec fn listed_apps(xml: Seq<char>) -> Seq<(Seq<char>, Seq<char>)> {
    text::pieces(xml, "<app "@).drop_first().filter_map(|chunk: Seq<char>| app_of(chunk))
}

fn parse_app(chunk: &str) -> (r: Option<(String, String)>)
    ensures
        r.deep_view() == app_of(chunk@),
{
    proof {
        reveal_strlit("id=\"");
    }
    match (text::find(chunk, "id=\""), text::find(chunk, ">"), text::find(chunk, "</app>")) {
        (Some(at), Some(open), Some(close)) => {
            let rest = text::from(chunk, at + 4);
            match text::find(&rest, "\"") {
                Some(end) => {
                    if close <= open {
                        return None;
                    }
                    let id = rest.as_str().substring_char(0, end).to_owned();
                    assert(rest@.subrange(0, end as int) == rest@.take(end as int));
                    let name = unescape(&text::trim(chunk.substring_char(open + 1, close)));
                    if !id.as_str().is_empty() && !name.as_str().is_empty() {
                        Some((id, name))
                    } else {
                        None
                    }
                },
                None => None,
            }
        },
        _ => None,
    }
}

/// Pull `<app id="12" ...>Netflix</app>` entries out of a document.
///
/// A scan rather than an XML parser: the document is a flat list of one element type from a
/// device on the LAN.
pub fn parse_apps(xml: &str) -> (r: Vec<(String, String)>)
    ensures
        r.deep_view() == listed_apps(xml@),
{
    proof {
        reveal_strlit("<app ");
    }
    let chunks = text::split(xml, "<app ");
    let ghost apps = chunks.deep_view().drop_first();
    let ghost read = |chunk: Seq<char>| app_of(chunk);
    let mut out: Vec<(String, String)> = Vec::new();
    let mut i: usize = 1;
    assert(out.deep_view() == apps.take(0).filter_map(read));
    while i < chunks.len()
        invariant
            1 <= i,
            chunks.len() > 0 ==> i <= chunks.len(),
            apps == chunks.deep_view().drop_first(),
            read == (|chunk: Seq<char>| app_of(chunk)),
            out.deep_view() == apps.take(i - 1).filter_map(read),
        decreases chunks.len() - i,
    {
        let ghost before = out.deep_view();
        proof {
            apps.lemma_filter_map_take_succ(read, i - 1);
        }
        assert(apps[i - 1] == chunks@[i as int]@);
        if let Some(app) = parse_app(&chunks[i]) {
            let ghost pair = app.deep_view();
            out.push(app);
            assert(out.deep_view() == before.push(pair));
        }
        i = i + 1;
    }
    assert(apps.take(i - 1) == apps);
    out
}

/// What stands in the first element called `name` in a document, without the white space around.
pub open spec fn element(xml: Seq<char>, name: Seq<char>) -> Option<Seq<char>> {
    let open = "<"@ + name + ">"@;
    let close = "</"@ + name + ">"@;
    match text::position(xml, open) {
        Some(i) => {
            let rest = xml.skip(i + open.len());
            match text::position(rest, close) {
                Some(j) => Some(text::trimmed(rest.take(j))),
                None => None,
            }
        },
        None => None,
    }
}

/// Pull one tag out of a document. The documents are flat, single-purpose, and from a device on
/// the LAN.
pub fn tag(xml: &str, name: &str) -> (r: Option<String>)
    ensures
        r.deep_view() == element(xml@, name@),
{
    let open = "<".to_owned().concat(name).concat(">");
    let close = "</".to_owned().concat(name).concat(">");
    match text::find(xml, &open) {
        Some(i) => {
            let rest = text::from(xml, i + open.as_str().unicode_len());
            match text::find(&rest, &close) {
                Some(j) => {
                    assert(rest@.subrange(0, j as int) == rest@.take(j as int));
                    Some(text::trim(rest.as_str().substring_char(0, j)))
                },
                None => None,
            }
        },
        None => None,
    }
}

/// `e` is one of the ways in which XML writes the character `c`: as an entity, or, but for the
/// ampersand, as itself.
pub open spec fn writes(e: Seq<char>, c: char) -> bool {
    ||| c != '&' && e == seq![c]
    ||| c == '&' && e == "&amp;"@
    ||| c == '<' && e == "&lt;"@
    ||| c == '>' && e == "&gt;"@
    ||| c == '"' && e == "&quot;"@
    ||| c == '\'' && (e == "&apos;"@ || e == "&#39;"@)
}

/// The texts of `parts`, one after the other.
pub open spec fn run_together(parts: Seq<Seq<char>>) -> Seq<char>
    decreases parts.len(),
{
    if parts.len() == 0 {
        Seq::empty()
    } else {
        parts[0] + run_together(parts.drop_first())
    }
}

/// The shape of an entity.
spec fn is_entity(e: Seq<char>) -> bool {
    &&& e.len() >= 3
    &&& e[0] == '&'
    &&& e.last() == ';'
    &&& forall|i: int| 0 < i < e.len() - 1 ==> #[trigger] e[i] != '&' && e[i] != ';'
}

/// One written character: an entity, or a character other than the ampersand.
spec fn is_part(e: Seq<char>) -> bool {
    ||| is_entity(e)
    ||| e.len() == 1 && e[0] != '&'
}

/// `parts` with each `entity` exchanged for the character `c`.
spec fn exchanged(parts: Seq<Seq<char>>, entity: Seq<char>, c: char) -> Seq<Seq<char>> {
    parts.map_values(
        |e: Seq<char>|
            if e == entity {
                seq![c]
            } else {
                e
            },
    )
}

/// What stands before every occurrence is kept as it is.
proof fn lemma_replaced_after(e: Seq<char>, t: Seq<char>, pat: Seq<char>, to: Seq<char>)
    requires
        pat.len() > 0,
        forall|i: int| 0 <= i < e.len() ==> !text::occurs_at(e + t, pat, i),
    ensures
        text::replaced(e + t, pat, to) == e + text::replaced(t, pat, to),
{
    let s = e + t;
    let n = e.len() as int;
    text::lemma_position_from(s, pat, 0);
    text::lemma_position_from(t, pat, 0);
    assert forall|j: int| 0 <= j implies text::occurs_at(s, pat, n + j) == text::occurs_at(
        t,
        pat,
        j,
    ) by {
        if j + pat.len() <= t.len() {
            assert(s.subrange(n + j, n + j + pat.len()) == t.subrange(j, j + pat.len()));
        }
    }
    match text::position(t, pat) {
        Some(j) => {
            assert(text::occurs_at(s, pat, n + j));
            assert forall|i: int| 0 <= i < n + j implies !text::occurs_at(s, pat, i) by {
                if i >= n {
                    assert(text::occurs_at(s, pat, n + (i - n)) == text::occurs_at(t, pat, i - n));
                }
            }
            text::lemma_position_is(s, pat, n + j);
            assert(s.take(n + j) == e + t.take(j));
            assert(s.skip(n + j + pat.len()) == t.skip(j + pat.len()));
            let rest = text::replaced(t.skip(j + pat.len()), pat, to);
            assert(e + t.take(j) + to + rest == e + (t.take(j) + to + rest));
        },
        None => {
            if let Some(i) = text::position(s, pat) {
                assert(i >= n);
                assert(text::occurs_at(s, pat, n + (i - n)) == text::occurs_at(t, pat, i - n));
            }
        },
    }
}

/// An entity is found exactly where it was written.
proof fn lemma_entity_exchanged(parts: Seq<Seq<char>>, entity: Seq<char>, c: char)
    requires
        forall|i: int| 0 <= i < parts.len() ==> is_part(#[trigger] parts[i]),
        is_entity(entity),
    ensures
        text::replaced(run_together(parts), entity, seq![c]) == run_together(
            exchanged(parts, entity, c),
        ),
    decreases parts.len(),
{
    let to = seq![c];
    let s = run_together(parts);
    if parts.len() == 0 {
        text::lemma_position_from(s, entity, 0);
        assert(exchanged(parts, entity, c) =~= parts);
    } else {
        let e = parts[0];
        let rest = parts.drop_first();
        let t = run_together(rest);
        assert(is_part(e));
        assert forall|i: int| 0 <= i < rest.len() implies is_part(#[trigger] rest[i]) by {
            assert(is_part(parts[i + 1]));
        }
        lemma_entity_exchanged(rest, entity, c);
        assert(exchanged(parts, entity, c).drop_first() =~= exchanged(rest, entity, c));
        if e == entity {
            assert(s.subrange(0, entity.len() as int) == entity);
            text::lemma_position_is(s, entity, 0);
            assert(s.take(0) + to == to);
            assert(s.skip(entity.len() as int) == t);
        } else {
            assert forall|i: int| 0 <= i < e.len() implies !text::occurs_at(s, entity, i) by {
                if text::occurs_at(s, entity, i) {
                    let found = s.subrange(i, i + entity.len());
                    assert(found == entity);
                    assert(s[i] == e[i]);
                    assert(found[0] == s[i]);
                    if i == 0 && is_entity(e) {
                        if entity.len() <= e.len() {
                            let last = entity.len() - 1;
                            assert(found[last] == e[last]);
                            assert(e =~= entity);
                        } else {
                            let last = e.len() - 1;
                            assert(found[last] == e[last]);
                        }
                    }
                }
            }
            lemma_replaced_after(e, t, entity, to);
        }
    }
}

/// Characters that each stand for themselves run together to the text that they are.
proof fn lemma_run_of_characters(parts: Seq<Seq<char>>, s: Seq<char>)
    requires
        parts.len() == s.len(),
        forall|i: int| 0 <= i < s.len() ==> #[trigger] parts[i] == seq![s[i]],
    ensures
        run_together(parts) == s,
    decreases s.len(),
{
    if s.len() > 0 {
        assert forall|i: int| 0 <= i < s.drop_first().len() implies #[trigger] parts.drop_first()[i]
            == seq![s.drop_first()[i]] by {
            assert(parts[i + 1] == seq![s[i + 1]]);
        }
        lemma_run_of_characters(parts.drop_first(), s.drop_first());
        assert(parts[0] == seq![s[0]]);
        assert(seq![s[0]] + s.drop_first() == s);
    }
}

/// However a document writes each character of a name, the name is read back: unescaping undoes
/// escaping, for every text.
pub proof fn law_unescaping_undoes_escaping(s: Seq<char>, parts: Seq<Seq<char>>)
    requires
        parts.len() == s.len(),
        forall|i: int| 0 <= i < s.len() ==> writes(#[trigger] parts[i], s[i]),
    ensures
        unescaped(run_together(parts)) == s,
{
    reveal_strlit("&lt;");
    reveal_strlit("&gt;");
    reveal_strlit("&quot;");
    reveal_strlit("&apos;");
    reveal_strlit("&#39;");
    reveal_strlit("&amp;");
    reveal_strlit("<");
    reveal_strlit(">");
    reveal_strlit("\"");
    reveal_strlit("'");
    reveal_strlit("&");
    assert("<"@ == seq!['<']);
    assert(">"@ == seq!['>']);
    assert("\""@ == seq!['"']);
    assert("'"@ == seq!['\'']);
    assert("&"@ == seq!['&']);
    assert forall|i: int| 0 <= i < parts.len() implies is_part(#[trigger] parts[i]) by {
        assert(writes(parts[i], s[i]));
    }
    let p1 = exchanged(parts, "&lt;"@, '<');
    let p2 = exchanged(p1, "&gt;"@, '>');
    let p3 = exchanged(p2, "&quot;"@, '"');
    let p4 = exchanged(p3, "&apos;"@, '\'');
    let p5 = exchanged(p4, "&#39;"@, '\'');
    let p6 = exchanged(p5, "&amp;"@, '&');
    assert forall|i: int| 0 <= i < p1.len() implies is_part(#[trigger] p1[i]) by {
        assert(is_part(parts[i]));
    }
    assert forall|i: int| 0 <= i < p2.len() implies is_part(#[trigger] p2[i]) by {
        assert(is_part(p1[i]));
    }
    assert forall|i: int| 0 <= i < p3.len() implies is_part(#[trigger] p3[i]) by {
        assert(is_part(p2[i]));
    }
    assert forall|i: int| 0 <= i < p4.len() implies is_part(#[trigger] p4[i]) by {
        assert(is_part(p3[i]));
    }
    assert forall|i: int| 0 <= i < p5.len() implies is_part(#[trigger] p5[i]) by {
        assert(is_part(p4[i]));
    }
    lemma_entity_exchanged(parts, "&lt;"@, '<');
    lemma_entity_exchanged(p1, "&gt;"@, '>');
    lemma_entity_exchanged(p2, "&quot;"@, '"');
    lemma_entity_exchanged(p3, "&apos;"@, '\'');
    lemma_entity_exchanged(p4, "&#39;"@, '\'');
    lemma_entity_exchanged(p5, "&amp;"@, '&');
    assert forall|i: int| 0 <= i < s.len() implies #[trigger] p6[i] == seq![s[i]] by {
        let e = parts[i];
        assert(writes(e, s[i]));
        assert("&lt;"@ != "&gt;"@ && "&lt;"@ != "&quot;"@ && "&lt;"@ != "&apos;"@ && "&lt;"@
            != "&#39;"@ && "&lt;"@ != "&amp;"@) by {
            assert("&lt;"@[1] != "&gt;"@[1]);
        }
        assert("&gt;"@ != "&quot;"@ && "&gt;"@ != "&apos;"@ && "&gt;"@ != "&#39;"@ && "&gt;"@
            != "&amp;"@);
        assert("&quot;"@ != "&apos;"@ && "&quot;"@ != "&#39;"@ && "&quot;"@ != "&amp;"@) by {
            assert("&quot;"@[1] != "&apos;"@[1]);
        }
        assert("&apos;"@ != "&#39;"@ && "&apos;"@ != "&amp;"@);
        assert("&#39;"@ != "&amp;"@) by {
            assert("&#39;"@[1] != "&amp;"@[1]);
        }
    }
    lemma_run_of_characters(p6, s);
}

} // verus!

//! What is read back of a document that was written down: every element of a record, and every
//! channel of a list.
use vstd::prelude::*;

use crate::text;
use crate::text_laws;
use crate::xml;

verus! {

/// The first character of `pat` stands nowhere else in it.
spec fn starts_once(pat: Seq<char>) -> bool {
    &&& pat.len() > 0
    &&& forall|k: int| 0 < k < pat.len() ==> #[trigger] pat[k] != pat[0]
}

/// A pattern that cannot overlap itself is found right behind a text that does not hold it.
proof fn lemma_found_behind(a: Seq<char>, pat: Seq<char>, b: Seq<char>)
    requires
        starts_once(pat),
        !text::holds(a, pat),
    ensures
        text::position(a + pat + b, pat) == Some(a.len() as int),
{
    let s = a + pat + b;
    let n = a.len() as int;
    assert(s.subrange(n, n + pat.len()) == pat);
    assert forall|i: int| 0 <= i < n implies !text::occurs_at(s, pat, i) by {
        if text::occurs_at(s, pat, i) {
            if i + pat.len() <= n {
                assert(a.subrange(i, i + pat.len()) == s.subrange(i, i + pat.len()));
                assert(text::occurs_at(a, pat, i));
            } else {
                assert(s.subrange(i, i + pat.len())[n - i] == s[n]);
                assert(s[n] == pat[0]);
            }
        }
    }
    text::lemma_position_is(s, pat, n);
}

/// A text without the first character of `pat` does not hold `pat`.
proof fn lemma_not_held(s: Seq<char>, pat: Seq<char>)
    requires
        pat.len() > 0,
        !s.contains(pat[0]),
    ensures
        !text::holds(s, pat),
{
    if text::holds(s, pat) {
        let i = choose|i: int| text::occurs_at(s, pat, i);
        assert(s.subrange(i, i + pat.len())[0] == s[i]);
    }
}

/// What an element holds is read back, without the white space around it: wherever it stands in a
/// record, so long as no element of that name stands before it.
pub proof fn law_element_is_read_back(
    before: Seq<char>,
    name: Seq<char>,
    value: Seq<char>,
    after: Seq<char>,
)
    requires
        !name.contains('<'),
        !text::holds(before, "<"@ + name + ">"@),
        !text::holds(value, "</"@ + name + ">"@),
    ensures
        xml::element(
            before + ("<"@ + name + ">"@) + (value + ("</"@ + name + ">"@) + after),
            name,
        ) == Some(text::trimmed(value)),
{
    reveal_strlit("<");
    reveal_strlit("</");
    reveal_strlit(">");
    let open = "<"@ + name + ">"@;
    let close = "</"@ + name + ">"@;
    let rest = value + close + after;
    let doc = before + open + rest;
    assert forall|k: int| 0 < k < open.len() implies #[trigger] open[k] != open[0] by {
        if k <= name.len() {
            assert(open[k] == name[k - 1]);
        }
    }
    assert forall|k: int| 0 < k < close.len() implies #[trigger] close[k] != close[0] by {
        if 2 <= k < name.len() + 2 {
            assert(close[k] == name[k - 2]);
        }
    }
    lemma_found_behind(before, open, rest);
    lemma_found_behind(value, close, after);
    assert(doc.skip((before.len() + open.len()) as int) == rest);
    assert(rest.take(value.len() as int) == value);
}

/// One `<app ...>` element as it is written behind `<app `: other attributes, the id, more
/// attributes, the name between the tags, and whatever stands before the next element.
pub struct WrittenApp {
    pub before: Seq<char>,
    pub id: Seq<char>,
    pub more: Seq<char>,
    pub name: Seq<char>,
    pub tail: Seq<char>,
}

impl WrittenApp {
    /// The element's text.
    pub open spec fn text(self) -> Seq<char> {
        self.before + "id=\""@ + (self.id + "\""@ + (self.more + ">"@ + (self.name + "</app>"@
            + self.tail)))
    }

    /// The element is written as a box writes it: an id and a name that are not empty, the
    /// attributes quoted and free of brackets, the name closed once, and no other element inside.
    pub open spec fn is_well_written(self) -> bool {
        &&& self.id.len() > 0
        &&& xml::unescaped(text::trimmed(self.name)).len() > 0
        &&& !self.id.contains('"')
        &&& !text::holds(self.before, "id=\""@)
        &&& !self.before.contains('<') && !self.before.contains('>')
        &&& !self.id.contains('<') && !self.id.contains('>')
        &&& !self.more.contains('<') && !self.more.contains('>')
        &&& !text::holds(self.name, "</app>"@)
        &&& !text::holds(self.text(), "<app "@)
    }

    /// The channel that the element stands for.
    pub open spec fn app(self) -> (Seq<char>, Seq<char>) {
        (self.id, xml::unescaped(text::trimmed(self.name)))
    }
}

/// A document that lists elements behind a heading.
pub open spec fn document(head: Seq<char>, apps: Seq<WrittenApp>) -> Seq<char>
    decreases apps.len(),
{
    if apps.len() == 0 {
        head
    } else {
        head + "<app "@ + document(apps[0].text(), apps.drop_first())
    }
}

/// One element is read back.
proof fn lemma_app_is_read_back(app: WrittenApp)
    requires
        app.is_well_written(),
    ensures
        xml::app_of(app.text()) == Some(app.app()),
{
    reveal_strlit("id=\"");
    reveal_strlit("\"");
    reveal_strlit(">");
    reveal_strlit("</app>");
    let attribute = "id=\""@;
    let quote = "\""@;
    let end = ">"@;
    let close = "</app>"@;
    let chunk = app.text();
    let last = app.name + close + app.tail;
    let rest = app.id + quote + (app.more + end + last);
    assert(chunk == app.before + attribute + rest);
    lemma_found_behind(app.before, attribute, rest);
    assert(chunk.skip((app.before.len() + attribute.len()) as int) == rest);
    lemma_not_held(app.id, quote);
    lemma_found_behind(app.id, quote, app.more + end + last);
    assert(rest.take(app.id.len() as int) == app.id);
    // The opening tag ends at the first bracket.
    let tag = app.before + attribute + (app.id + quote + app.more);
    assert forall|i: int| 0 <= i < tag.len() implies #[trigger] tag[i] != '<' && tag[i] != '>' by {
        let b = app.before.len() as int;
        let d = b + attribute.len();
        let q = d + app.id.len();
        if i < b {
            assert(tag[i] == app.before[i]);
            assert(app.before.contains(app.before[i]));
        } else if i < d {
            assert(tag[i] == attribute[i - b]);
        } else if i < q {
            assert(tag[i] == app.id[i - d]);
            assert(app.id.contains(app.id[i - d]));
        } else if i > q {
            assert(tag[i] == app.more[i - q - 1]);
            assert(app.more.contains(app.more[i - q - 1]));
        }
    }
    lemma_not_held(tag, end);
    assert(chunk == tag + end + last);
    lemma_found_behind(tag, end, last);
    // The name ends at the first closing tag.
    let opened = tag + end + app.name;
    let n = (tag + end).len() as int;
    if text::holds(opened, close) {
        let i = choose|i: int| text::occurs_at(opened, close, i);
        assert(opened.subrange(i, i + close.len())[0] == opened[i]);
        if i < n - 1 {
            assert(opened[i] == tag[i]);
        } else if i >= n {
            assert(app.name.subrange(i - n, i - n + close.len()) == opened.subrange(
                i,
                i + close.len(),
            ));
            assert(text::occurs_at(app.name, close, i - n));
        }
    }
    assert(chunk == opened + close + app.tail);
    lemma_found_behind(opened, close, app.tail);
    assert(chunk.subrange(tag.len() as int + 1, opened.len() as int) == app.name);
}

/// A document splits into its heading and its elements.
proof fn lemma_document_splits(head: Seq<char>, apps: Seq<WrittenApp>)
    requires
        !text::holds(head, "<app "@),
        forall|i: int| 0 <= i < apps.len() ==> (#[trigger] apps[i]).is_well_written(),
    ensures
        text::pieces(document(head, apps), "<app "@) == seq![head] + apps.map_values(
            |app: WrittenApp| app.text(),
        ),
    decreases apps.len(),
{
    reveal_strlit("<app ");
    let read = |app: WrittenApp| app.text();
    if apps.len() == 0 {
        text::lemma_holds(head, "<app "@);
        assert(apps.map_values(read) == Seq::<Seq<char>>::empty());
    } else {
        let rest = apps.drop_first();
        let tail = document(apps[0].text(), rest);
        assert(apps[0].is_well_written());
        assert forall|i: int| 0 <= i < rest.len() implies (
        #[trigger] rest[i]).is_well_written() by {
            assert(apps[i + 1].is_well_written());
        }
        lemma_document_splits(apps[0].text(), rest);
        lemma_found_behind(head, "<app "@, tail);
        let doc = document(head, apps);
        assert(doc.take(head.len() as int) == head);
        assert(doc.skip(head.len() as int + 5) == tail);
        assert(apps.map_values(read) == seq![apps[0].text()] + rest.map_values(read));
    }
}

/// The first elements are read back.
proof fn lemma_elements_read_back(apps: Seq<WrittenApp>, n: int)
    requires
        forall|i: int| 0 <= i < apps.len() ==> (#[trigger] apps[i]).is_well_written(),
        0 <= n <= apps.len(),
    ensures
        apps.map_values(|app: WrittenApp| app.text()).take(n).filter_map(
            |chunk: Seq<char>| xml::app_of(chunk),
        ) == apps.map_values(|app: WrittenApp| app.app()).take(n),
    decreases n,
{
    let texts = apps.map_values(|app: WrittenApp| app.text());
    let read = |chunk: Seq<char>| xml::app_of(chunk);
    let expected = apps.map_values(|app: WrittenApp| app.app());
    if n > 0 {
        lemma_elements_read_back(apps, n - 1);
        texts.lemma_filter_map_take_succ(read, n - 1);
        assert(apps[n - 1].is_well_written());
        lemma_app_is_read_back(apps[n - 1]);
        assert(expected.take(n) == expected.take(n - 1).push(apps[n - 1].app()));
    }
}

/// Every channel that a box lists is read back, with its id and its name, in the order of the
/// list, and nothing else is.
pub proof fn law_channel_list_is_read_back(head: Seq<char>, apps: Seq<WrittenApp>)
    requires
        !text::holds(head, "<app "@),
        forall|i: int| 0 <= i < apps.len() ==> (#[trigger] apps[i]).is_well_written(),
    ensures
        xml::listed_apps(document(head, apps)) == apps.map_values(|app: WrittenApp| app.app()),
{
    let texts = apps.map_values(|app: WrittenApp| app.text());
    lemma_document_splits(head, apps);
    assert((seq![head] + texts).drop_first() == texts);
    let expected = apps.map_values(|app: WrittenApp| app.app());
    lemma_elements_read_back(apps, apps.len() as int);
    assert(texts.take(apps.len() as int) == texts);
    assert(expected.take(apps.len() as int) == expected);
}

/// A text that is not empty starts as its first part does and ends as its last part does.
proof fn lemma_ends_of_run(parts: Seq<Seq<char>>)
    requires
        parts.len() > 0,
        forall|i: int| 0 <= i < parts.len() ==> (#[trigger] parts[i]).len() > 0,
    ensures
        xml::run_together(parts).len() > 0,
        xml::run_together(parts)[0] == parts[0][0],
        xml::run_together(parts).last() == parts.last().last(),
    decreases parts.len(),
{
    let rest = parts.drop_first();
    if rest.len() > 0 {
        assert forall|i: int| 0 <= i < rest.len() implies (#[trigger] rest[i]).len() > 0 by {
            assert(parts[i + 1].len() > 0);
        }
        lemma_ends_of_run(rest);
        assert(rest.last() == parts.last());
    } else {
        assert(xml::run_together(rest) == Seq::<char>::empty());
    }
    assert(parts[0].len() > 0);
}

/// A channel's name is read back as people say it, however the document writes its characters:
/// any name that neither starts nor ends with white space.
pub proof fn law_name_is_read_back_as_said(name: Seq<char>, parts: Seq<Seq<char>>)
    requires
        name.len() > 0,
        !text::is_space(name[0]),
        !text::is_space(name.last()),
        parts.len() == name.len(),
        forall|i: int| 0 <= i < name.len() ==> xml::writes(#[trigger] parts[i], name[i]),
    ensures
        xml::unescaped(text::trimmed(xml::run_together(parts))) == name,
{
    reveal_strlit("&lt;");
    reveal_strlit("&gt;");
    reveal_strlit("&quot;");
    reveal_strlit("&apos;");
    reveal_strlit("&#39;");
    reveal_strlit("&amp;");
    assert forall|i: int| 0 <= i < parts.len() implies (#[trigger] parts[i]).len() > 0 by {
        assert(xml::writes(parts[i], name[i]));
    }
    lemma_ends_of_run(parts);
    assert(xml::writes(parts[0], name[0]));
    assert(xml::writes(parts.last(), name.last()));
    assert(text::trimmed(xml::run_together(parts)) == xml::run_together(parts));
    xml::law_unescaping_undoes_escaping(name, parts);
}

/// A text reads as something, an opened tag, a value, the same tag closed, and something.
pub open spec fn is_tagged(
    xml: Seq<char>,
    name: Seq<char>,
    before: Seq<char>,
    value: Seq<char>,
    after: Seq<char>,
) -> bool {
    xml == before + ("<"@ + name + ">"@) + (value + ("</"@ + name + ">"@) + after)
}

/// An element is found exactly where a tag is opened and, somewhere behind that, closed. What is
/// found stood between the first such opening and the first closing behind it, without the white
/// space around it.
pub proof fn law_an_element_is_what_stands_between_its_tags(xml: Seq<char>, name: Seq<char>)
    ensures
        xml::element(xml, name) is Some <==> exists|b: Seq<char>, v: Seq<char>, a: Seq<char>|
            is_tagged(xml, name, b, v, a),
        xml::element(xml, name) matches Some(found) ==> exists|
            b: Seq<char>,
            v: Seq<char>,
            a: Seq<char>,
        |
            {
                &&& #[trigger] is_tagged(xml, name, b, v, a)
                &&& found == text::trimmed(v)
                &&& forall|i: int| 0 <= i < b.len() ==> !text::occurs_at(xml, "<"@ + name + ">"@, i)
                &&& forall|i: int|
                    0 <= i < v.len() ==> !text::occurs_at(
                        v + ("</"@ + name + ">"@) + a,
                        "</"@ + name + ">"@,
                        i,
                    )
            },
{
    let open = "<"@ + name + ">"@;
    let close = "</"@ + name + ">"@;
    text::lemma_position_from(xml, open, 0);
    if let Some(i) = text::position(xml, open) {
        let rest = xml.skip(i + open.len());
        text_laws::law_it_stands_where_it_is_found(xml, open, i);
        text::lemma_position_from(rest, close, 0);
        if let Some(j) = text::position(rest, close) {
            text_laws::law_it_stands_where_it_is_found(rest, close, j);
            let b = xml.take(i);
            let v = rest.take(j);
            let a = rest.skip(j + close.len());
            assert(v + close + a == rest);
            assert(is_tagged(xml, name, b, v, a));
        }
    }
    if exists|b: Seq<char>, v: Seq<char>, a: Seq<char>| is_tagged(xml, name, b, v, a) {
        let (b, v, a) = choose|b: Seq<char>, v: Seq<char>, a: Seq<char>|
            is_tagged(xml, name, b, v, a);
        text_laws::law_the_first_place_is_the_first(b, open, v + close + a);
        let i = text::position(xml, open)->0;
        let rest = xml.skip(i + open.len());
        let gap = b.len() - i;
        assert(rest =~= rest.take(gap + v.len()) + close + a) by {
            assert(xml.skip((b.len() + open.len()) as int) =~= v + close + a);
            assert(rest.skip(gap) =~= v + close + a);
            assert(rest.skip(gap).skip(v.len() as int) =~= close + a);
            assert(rest.skip(gap + v.len()) =~= close + a);
            assert(rest.take(gap + v.len()) + rest.skip(gap + v.len()) =~= rest);
        }
        text_laws::law_the_first_place_is_the_first(rest.take(gap + v.len()), close, a);
    }
}

/// A text without any of the six entities is as people say it: nothing is done to it.
pub proof fn law_plain_text_stays_as_it_is(s: Seq<char>)
    requires
        !text_laws::is_part_of("&lt;"@, s),
        !text_laws::is_part_of("&gt;"@, s),
        !text_laws::is_part_of("&quot;"@, s),
        !text_laws::is_part_of("&apos;"@, s),
        !text_laws::is_part_of("&#39;"@, s),
        !text_laws::is_part_of("&amp;"@, s),
    ensures
        xml::unescaped(s) == s,
{
    lemma_entities();
    lemma_nothing_replaced(s, "&lt;"@, "<"@);
    lemma_nothing_replaced(s, "&gt;"@, ">"@);
    lemma_nothing_replaced(s, "&quot;"@, "\""@);
    lemma_nothing_replaced(s, "&apos;"@, "'"@);
    lemma_nothing_replaced(s, "&#39;"@, "'"@);
    lemma_nothing_replaced(s, "&amp;"@, "&"@);
}

/// Where there is nothing to exchange, nothing is exchanged.
proof fn lemma_nothing_replaced(s: Seq<char>, pat: Seq<char>, to: Seq<char>)
    requires
        pat.len() > 0,
        !text_laws::is_part_of(pat, s),
    ensures
        text::replaced(s, pat, to) == s,
{
    text_laws::law_holds_its_parts(s, pat);
    text::lemma_holds(s, pat);
}

/// The entities are not empty.
proof fn lemma_entities()
    ensures
        "&lt;"@.len() == 4,
        "&gt;"@.len() == 4,
        "&quot;"@.len() == 6,
        "&apos;"@.len() == 6,
        "&#39;"@.len() == 5,
        "&amp;"@.len() == 5,
{
    reveal_strlit("&lt;");
    reveal_strlit("&gt;");
    reveal_strlit("&quot;");
    reveal_strlit("&apos;");
    reveal_strlit("&#39;");
    reveal_strlit("&amp;");
}

/// What is exchanged on one side of a character that is not in the pattern has nothing to do with
/// the other side.
proof fn lemma_replaced_on_both_sides(
    a: Seq<char>,
    c: char,
    b: Seq<char>,
    pat: Seq<char>,
    to: Seq<char>,
)
    requires
        pat.len() > 0,
        !pat.contains(c),
    ensures
        text::replaced(a + seq![c] + b, pat, to) == text::replaced(a, pat, to) + seq![c]
            + text::replaced(b, pat, to),
    decreases a.len(),
{
    let s = a + seq![c] + b;
    let n = a.len() as int;
    text::lemma_position_from(a, pat, 0);
    text::lemma_position_from(b, pat, 0);
    text::lemma_position_from(s, pat, 0);
    assert forall|i: int| 0 <= i && text::occurs_at(s, pat, i) implies i + pat.len() <= n || i
        > n by {
        if i <= n < i + pat.len() {
            assert(s.subrange(i, i + pat.len())[n - i] == s[n]);
            assert(pat[n - i] == c);
        }
    }
    assert forall|i: int| 0 <= i && i + pat.len() <= n implies text::occurs_at(s, pat, i)
        == text::occurs_at(a, pat, i) by {
        assert(s.subrange(i, i + pat.len()) =~= a.subrange(i, i + pat.len()));
    }
    assert forall|i: int| 0 <= i implies text::occurs_at(s, pat, n + 1 + i) == text::occurs_at(
        b,
        pat,
        i,
    ) by {
        if i + pat.len() <= b.len() {
            assert(s.subrange(n + 1 + i, n + 1 + i + pat.len()) =~= b.subrange(i, i + pat.len()));
        }
    }
    match text::position(a, pat) {
        Some(i) => {
            assert(text::occurs_at(s, pat, i));
            text::lemma_position_is(s, pat, i);
            let rest = a.skip(i + pat.len());
            assert(s.take(i) =~= a.take(i));
            assert(s.skip(i + pat.len()) =~= rest + seq![c] + b);
            lemma_replaced_on_both_sides(rest, c, b, pat, to);
            let x = text::replaced(rest, pat, to);
            let y = text::replaced(b, pat, to);
            assert(a.take(i) + to + (x + seq![c] + y) =~= (a.take(i) + to + x) + seq![c] + y);
        },
        None => {
            match text::position(b, pat) {
                Some(j) => {
                    assert(text::occurs_at(s, pat, n + 1 + j));
                    assert forall|i: int| 0 <= i < n + 1 + j implies !text::occurs_at(s, pat, i) by {
                        if i > n {
                            assert(text::occurs_at(s, pat, n + 1 + (i - n - 1))
                                == text::occurs_at(b, pat, i - n - 1));
                        }
                    }
                    text::lemma_position_is(s, pat, n + 1 + j);
                    assert(s.take(n + 1 + j) =~= a + seq![c] + b.take(j));
                    assert(s.skip(n + 1 + j + pat.len()) =~= b.skip(j + pat.len()));
                    let y = text::replaced(b.skip(j + pat.len()), pat, to);
                    assert(a + seq![c] + b.take(j) + to + y =~= a + seq![c] + (b.take(j) + to + y));
                },
                None => {
                    if let Some(i) = text::position(s, pat) {
                        if i > n {
                            assert(text::occurs_at(s, pat, n + 1 + (i - n - 1))
                                == text::occurs_at(b, pat, i - n - 1));
                        }
                    }
                },
            }
        },
    }
}

/// Each word is read for itself: what stands on one side of a character that is in no entity, such as
/// a space or a capital, has nothing to do with how the other side is read.
pub proof fn law_words_are_unescaped_one_by_one(a: Seq<char>, c: char, b: Seq<char>)
    requires
        !"&lt;"@.contains(c) && !"&gt;"@.contains(c) && !"&quot;"@.contains(c),
        !"&apos;"@.contains(c) && !"&#39;"@.contains(c) && !"&amp;"@.contains(c),
    ensures
        xml::unescaped(a + seq![c] + b) == xml::unescaped(a) + seq![c] + xml::unescaped(b),
{
    lemma_entities();
    let (a1, b1) = (text::replaced(a, "&lt;"@, "<"@), text::replaced(b, "&lt;"@, "<"@));
    let (a2, b2) = (text::replaced(a1, "&gt;"@, ">"@), text::replaced(b1, "&gt;"@, ">"@));
    let (a3, b3) = (text::replaced(a2, "&quot;"@, "\""@), text::replaced(b2, "&quot;"@, "\""@));
    let (a4, b4) = (text::replaced(a3, "&apos;"@, "'"@), text::replaced(b3, "&apos;"@, "'"@));
    let (a5, b5) = (text::replaced(a4, "&#39;"@, "'"@), text::replaced(b4, "&#39;"@, "'"@));
    lemma_replaced_on_both_sides(a, c, b, "&lt;"@, "<"@);
    lemma_replaced_on_both_sides(a1, c, b1, "&gt;"@, ">"@);
    lemma_replaced_on_both_sides(a2, c, b2, "&quot;"@, "\""@);
    lemma_replaced_on_both_sides(a3, c, b3, "&apos;"@, "'"@);
    lemma_replaced_on_both_sides(a4, c, b4, "&#39;"@, "'"@);
    lemma_replaced_on_both_sides(a5, c, b5, "&amp;"@, "&"@);
}

/// What follows `<app ` reads as something without an id, an id in quotes, and something.
pub open spec fn has_id(chunk: Seq<char>, before: Seq<char>, id: Seq<char>, after: Seq<char>) -> bool {
    &&& chunk == before + "id=\""@ + (id + "\""@ + after)
    &&& !text_laws::is_part_of("id=\""@, before)
    &&& !id.contains('"')
}

/// What follows `<app ` reads as a tag that ends, a name, the closing tag, and something.
pub open spec fn has_name(
    chunk: Seq<char>,
    before: Seq<char>,
    name: Seq<char>,
    after: Seq<char>,
) -> bool {
    &&& chunk == before + ">"@ + name + "</app>"@ + after
    &&& !before.contains('>')
    &&& !text_laws::is_part_of("</app>"@, before + ">"@ + name)
}

/// An element is a channel where it has an id in quotes and a name between its tags, both of them
/// not empty: whatever other attributes it has, wherever the id stands among them, and whatever
/// stands behind it.
pub proof fn law_an_element_is_read_by_its_id_and_its_name(
    chunk: Seq<char>,
    a: Seq<char>,
    id: Seq<char>,
    b: Seq<char>,
    c: Seq<char>,
    name: Seq<char>,
    d: Seq<char>,
)
    requires
        has_id(chunk, a, id, b),
        has_name(chunk, c, name, d),
    ensures
        xml::app_of(chunk) == (if id.len() > 0 && xml::unescaped(text::trimmed(name)).len() > 0 {
            Some((id, xml::unescaped(text::trimmed(name))))
        } else {
            None
        }),
{
    reveal_strlit("id=\"");
    reveal_strlit("\"");
    reveal_strlit(">");
    reveal_strlit("</app>");
    let rest = id + "\""@ + b;
    text_laws::law_holds_its_parts(a, "id=\""@);
    lemma_found_behind(a, "id=\""@, rest);
    assert(chunk.skip((a.len() + 4) as int) =~= rest);
    lemma_not_held(id, "\""@);
    lemma_found_behind(id, "\""@, b);
    assert(rest.take(id.len() as int) =~= id);
    lemma_not_held(c, ">"@);
    assert(chunk =~= c + ">"@ + (name + "</app>"@ + d));
    lemma_found_behind(c, ">"@, name + "</app>"@ + d);
    text_laws::law_holds_its_parts(c + ">"@ + name, "</app>"@);
    lemma_found_behind(c + ">"@ + name, "</app>"@, d);
    assert(chunk.subrange(c.len() as int + 1, (c.len() + 1 + name.len()) as int) =~= name);
}

/// Nothing else is a channel: what is read of an element has an id in quotes and a name between its
/// tags, and neither is empty.
pub proof fn law_a_channel_has_an_id_and_a_name(
    chunk: Seq<char>,
    app_id: Seq<char>,
    app_name: Seq<char>,
)
    requires
        xml::app_of(chunk) == Some((app_id, app_name)),
    ensures
        app_id.len() > 0,
        app_name.len() > 0,
        exists|a: Seq<char>, b: Seq<char>| has_id(chunk, a, app_id, b),
        exists|c: Seq<char>, name: Seq<char>, d: Seq<char>|
            #[trigger] has_name(chunk, c, name, d) && app_name == xml::unescaped(
                text::trimmed(name),
            ),
{
    let attribute = "id=\""@;
    let at = text::position(chunk, attribute)->0;
    let rest = chunk.skip(at + attribute.len());
    let n = text::position(rest, "\""@)->0;
    let open = text::position(chunk, ">"@)->0;
    let shut = text::position(chunk, "</app>"@)->0;
    lemma_id_stands(chunk, at, n);
    lemma_name_stands(chunk, open, shut);
}

/// The id that is found in a chunk stands in it, in quotes.
proof fn lemma_id_stands(chunk: Seq<char>, at: int, n: int)
    requires
        text::position(chunk, "id=\""@) == Some(at),
        text::position(chunk.skip(at + "id=\""@.len()), "\""@) == Some(n),
    ensures
        has_id(
            chunk,
            chunk.take(at),
            chunk.skip(at + "id=\""@.len()).take(n),
            chunk.skip(at + "id=\""@.len()).skip(n + 1),
        ),
{
    reveal_strlit("id=\"");
    reveal_strlit("\"");
    let attribute = "id=\""@;
    let quote = "\""@;
    let rest = chunk.skip(at + attribute.len());
    text::lemma_position_from(chunk, attribute, 0);
    text_laws::law_it_stands_where_it_is_found(chunk, attribute, at);
    text::lemma_position_from(rest, quote, 0);
    text_laws::law_it_stands_where_it_is_found(rest, quote, n);
    let id = rest.take(n);
    assert(id + quote + rest.skip(n + 1) == rest);
    lemma_none_before(chunk, attribute, at);
    if id.contains('"') {
        let k = choose|k: int| 0 <= k < id.len() && id[k] == '"';
        assert(rest.subrange(k, k + 1) =~= quote);
        assert(text::occurs_at(rest, quote, k));
    }
}

/// The name that is found in a chunk stands in it, between the tags.
proof fn lemma_name_stands(chunk: Seq<char>, open: int, shut: int)
    requires
        text::position(chunk, ">"@) == Some(open),
        text::position(chunk, "</app>"@) == Some(shut),
        open < shut,
    ensures
        has_name(
            chunk,
            chunk.take(open),
            chunk.subrange(open + 1, shut),
            chunk.skip(shut + "</app>"@.len()),
        ),
{
    reveal_strlit(">");
    reveal_strlit("</app>");
    let end = ">"@;
    let close = "</app>"@;
    text::lemma_position_from(chunk, end, 0);
    text::lemma_position_from(chunk, close, 0);
    text_laws::law_it_stands_where_it_is_found(chunk, close, shut);
    let c = chunk.take(open);
    assert(chunk.subrange(open, open + 1)[0] == chunk[open]);
    assert(c + end + chunk.subrange(open + 1, shut) =~= chunk.take(shut));
    if c.contains('>') {
        let k = choose|k: int| 0 <= k < c.len() && c[k] == '>';
        assert(chunk.subrange(k, k + 1) =~= end);
        assert(text::occurs_at(chunk, end, k));
    }
    lemma_none_before(chunk, close, shut);
}

/// Before the first place of a text, it is no part.
proof fn lemma_none_before(s: Seq<char>, pat: Seq<char>, n: int)
    requires
        pat.len() > 0,
        0 <= n <= s.len(),
        forall|i: int| 0 <= i < n ==> !text::occurs_at(s, pat, i),
    ensures
        !text_laws::is_part_of(pat, s.take(n)),
{
    text_laws::law_holds_its_parts(s.take(n), pat);
    if text::holds(s.take(n), pat) {
        let i = choose|i: int| text::occurs_at(s.take(n), pat, i);
        assert(s.take(n).subrange(i, i + pat.len()) =~= s.subrange(i, i + pat.len()));
        assert(text::occurs_at(s, pat, i));
    }
}

/// Where a separator that cannot overlap itself was put, a text splits.
proof fn lemma_pieces_split(a: Seq<char>, pat: Seq<char>, b: Seq<char>)
    requires
        starts_once(pat),
    ensures
        text::pieces(a + pat + b, pat) == text::pieces(a, pat) + text::pieces(b, pat),
    decreases a.len(),
{
    let s = a + pat + b;
    text::lemma_position_from(a, pat, 0);
    text::lemma_holds(a, pat);
    match text::position(a, pat) {
        Some(i) => {
            let rest = a.skip(i + pat.len());
            assert(s.subrange(i, i + pat.len()) =~= a.subrange(i, i + pat.len()));
            assert forall|k: int| 0 <= k < i implies !text::occurs_at(s, pat, k) by {
                assert(s.subrange(k, k + pat.len()) =~= a.subrange(k, k + pat.len()));
                assert(!text::occurs_at(a, pat, k));
            }
            text::lemma_position_is(s, pat, i);
            assert(s.take(i) =~= a.take(i));
            assert(s.skip(i + pat.len()) =~= rest + pat + b);
            lemma_pieces_split(rest, pat, b);
            let (x, y) = (text::pieces(rest, pat), text::pieces(b, pat));
            assert(seq![a.take(i)] + (x + y) =~= seq![a.take(i)] + x + y);
        },
        None => {
            lemma_found_behind(a, pat, b);
            assert(s.take(a.len() as int) =~= a);
            assert(s.skip((a.len() + pat.len()) as int) =~= b);
        },
    }
}

/// Each element of a list is read for itself: what a document lists is what its beginning lists,
/// then what the next element is, if it is a channel, and then what the others are. One that is
/// badly written spoils no other.
pub proof fn law_elements_are_read_one_by_one(doc: Seq<char>, chunk: Seq<char>)
    requires
        !text_laws::is_part_of("<app "@, chunk),
    ensures
        xml::listed_apps(doc + "<app "@ + chunk) == match xml::app_of(chunk) {
            Some(app) => xml::listed_apps(doc).push(app),
            None => xml::listed_apps(doc),
        },
{
    reveal_strlit("<app ");
    let pat = "<app "@;
    let read = |chunk: Seq<char>| xml::app_of(chunk);
    lemma_pieces_split(doc, pat, chunk);
    text_laws::law_holds_its_parts(chunk, pat);
    text::lemma_holds(chunk, pat);
    text_laws::law_pieces_are_what_was_between(doc, pat);
    let old = text::pieces(doc, pat).drop_first();
    let new = text::pieces(doc + pat + chunk, pat).drop_first();
    assert(new =~= old.push(chunk));
    let n = old.len() as int;
    new.lemma_filter_map_take_succ(read, n);
    assert(new.take(n) =~= old);
    assert(new.take(n + 1) =~= new);
}

/// What is before the first element is no element.
pub proof fn law_a_heading_lists_nothing(head: Seq<char>)
    requires
        !text_laws::is_part_of("<app "@, head),
    ensures
        xml::listed_apps(head).len() == 0,
{
    reveal_strlit("<app ");
    text_laws::law_holds_its_parts(head, "<app "@);
    text::lemma_holds(head, "<app "@);
    assert(text::pieces(head, "<app "@).drop_first() =~= Seq::<Seq<char>>::empty());
    assert(xml::listed_apps(head) =~= Seq::<(Seq<char>, Seq<char>)>::empty());
}

} // verus!

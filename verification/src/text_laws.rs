//! What the operations on text are for, said over nothing but texts put one after the other.
use vstd::prelude::*;

use crate::text;

verus! {

/// `s` reads as `a`, then `part`, then `b`.
pub open spec fn reads(s: Seq<char>, a: Seq<char>, part: Seq<char>, b: Seq<char>) -> bool {
    s == a + part + b
}

/// `part` is a part of `s`, in one piece.
pub open spec fn is_part_of(part: Seq<char>, s: Seq<char>) -> bool {
    exists|a: Seq<char>, b: Seq<char>| reads(s, a, part, b)
}

/// A text stands where it was put.
pub proof fn law_found_where_it_was_put(a: Seq<char>, part: Seq<char>, b: Seq<char>)
    ensures
        text::occurs_at(a + part + b, part, a.len() as int),
        text::holds(a + part + b, part),
{
    assert((a + part + b).subrange(a.len() as int, (a.len() + part.len()) as int) == part);
    assert(text::occurs_at(a + part + b, part, a.len() as int));
}

/// Where a text is found, it stands: with what is before it, and what is behind it.
pub proof fn law_it_stands_where_it_is_found(s: Seq<char>, part: Seq<char>, i: int)
    requires
        text::occurs_at(s, part, i),
    ensures
        0 <= i <= s.len() - part.len(),
        reads(s, s.take(i), part, s.skip(i + part.len())),
        is_part_of(part, s),
{
    assert(s.take(i) + part + s.skip(i + part.len()) =~= s) by {
        let p = s.subrange(i, i + part.len());
        assert forall|k: int| 0 <= k < part.len() implies part[k] == #[trigger] s[i + k] by {
            assert(p[k] == s[i + k]);
        }
    }
    assert(reads(s, s.take(i), part, s.skip(i + part.len())));
}

/// A text holds another exactly where the other is a part of it.
pub proof fn law_holds_its_parts(s: Seq<char>, part: Seq<char>)
    ensures
        text::holds(s, part) <==> is_part_of(part, s),
{
    if text::holds(s, part) {
        let i = choose|i: int| text::occurs_at(s, part, i);
        law_it_stands_where_it_is_found(s, part, i);
    }
    if is_part_of(part, s) {
        let (a, b) = choose|a: Seq<char>, b: Seq<char>| reads(s, a, part, b);
        law_found_where_it_was_put(a, part, b);
    }
}

/// A text starts with another exactly where the other, and something behind it, is what it is.
pub proof fn law_starts_with(s: Seq<char>, part: Seq<char>)
    ensures
        text::occurs_at(s, part, 0) <==> exists|b: Seq<char>| #[trigger] (part + b) == s,
{
    if text::occurs_at(s, part, 0) {
        law_it_stands_where_it_is_found(s, part, 0);
        assert(part + s.skip(part.len() as int) =~= s.take(0) + part + s.skip(part.len() as int));
    }
    if exists|b: Seq<char>| #[trigger] (part + b) == s {
        let b = choose|b: Seq<char>| #[trigger] (part + b) == s;
        law_found_where_it_was_put(Seq::empty(), part, b);
        assert(Seq::empty() + part + b =~= s);
    }
}

/// The first place of a text is one where it stands, and none is before it.
pub proof fn law_the_first_place_is_the_first(a: Seq<char>, part: Seq<char>, b: Seq<char>)
    ensures
        text::position(a + part + b, part) matches Some(i) && {
            &&& 0 <= i <= a.len()
            &&& reads(
                a + part + b,
                (a + part + b).take(i),
                part,
                (a + part + b).skip(i + part.len()),
            )
        },
{
    let s = a + part + b;
    text::lemma_position_from(s, part, 0);
    law_found_where_it_was_put(a, part, b);
    law_it_stands_where_it_is_found(s, part, text::position(s, part)->0);
}

/// What has no first place is no part.
pub proof fn law_nowhere_is_no_part(s: Seq<char>, part: Seq<char>)
    requires
        text::position(s, part) is None,
    ensures
        !is_part_of(part, s),
{
    text::lemma_holds(s, part);
    law_holds_its_parts(s, part);
}

/// A beginning comes off a text exactly where the text begins with it, and leaves the rest.
pub proof fn law_prefix_comes_off(prefix: Seq<char>, rest: Seq<char>)
    ensures
        text::past_prefix(prefix + rest, prefix) == Some(rest),
{
    law_starts_with(prefix + rest, prefix);
    assert((prefix + rest).skip(prefix.len() as int) =~= rest);
}

/// What is left when a beginning came off is what stood behind it.
pub proof fn law_prefix_was_there(s: Seq<char>, prefix: Seq<char>)
    requires
        text::past_prefix(s, prefix) is Some,
    ensures
        s == prefix + text::past_prefix(s, prefix)->0,
{
    law_it_stands_where_it_is_found(s, prefix, 0);
    assert(s.take(0) + prefix =~= prefix);
}

/// Texts one after the other, with `between` between each two.
pub open spec fn strung(parts: Seq<Seq<char>>, between: Seq<char>) -> Seq<char>
    decreases parts.len(),
{
    if parts.len() == 0 {
        Seq::empty()
    } else if parts.len() == 1 {
        parts[0]
    } else {
        parts[0] + between + strung(parts.drop_first(), between)
    }
}

/// The pieces of a text are what stood between the separators: put together with the separator
/// between them they are the text again, and no separator is left in one of them, nor does one
/// begin in a piece and reach into the separator behind it.
pub proof fn law_pieces_are_what_was_between(s: Seq<char>, pat: Seq<char>)
    requires
        pat.len() > 0,
    ensures
        text::pieces(s, pat).len() > 0,
        strung(text::pieces(s, pat), pat) == s,
        forall|i: int|
            0 <= i < text::pieces(s, pat).len() ==> !is_part_of(
                pat,
                #[trigger] text::pieces(s, pat)[i],
            ),
        forall|i: int, k: int|
            0 <= i < text::pieces(s, pat).len() - 1 && 0 <= k < text::pieces(s, pat)[i].len()
                ==> !(#[trigger] text::occurs_at(text::pieces(s, pat)[i] + pat, pat, k)),
    decreases s.len(),
{
    let all = text::pieces(s, pat);
    text::lemma_position_from(s, pat, 0);
    match text::position(s, pat) {
        Some(i) => {
            let first = s.take(i);
            let behind = s.skip(i + pat.len());
            let rest = text::pieces(behind, pat);
            law_pieces_are_what_was_between(behind, pat);
            assert(all.drop_first() =~= rest);
            law_it_stands_where_it_is_found(s, pat, i);
            assert(strung(all, pat) == first + pat + strung(rest, pat));
            assert forall|k: int| 0 <= k < first.len() implies !(#[trigger] text::occurs_at(
                first + pat,
                pat,
                k,
            )) by {
                if text::occurs_at(first + pat, pat, k) {
                    assert((first + pat) =~= s.take(i + pat.len()));
                    assert((first + pat).subrange(k, k + pat.len()) =~= s.subrange(
                        k,
                        k + pat.len(),
                    ));
                    assert(text::occurs_at(s, pat, k));
                }
            }
            assert(!is_part_of(pat, first)) by {
                law_holds_its_parts(first, pat);
                if text::holds(first, pat) {
                    let k = choose|k: int| text::occurs_at(first, pat, k);
                    assert((first + pat).subrange(k, k + pat.len()) =~= first.subrange(
                        k,
                        k + pat.len(),
                    ));
                    assert(text::occurs_at(first + pat, pat, k));
                }
            }
            assert forall|j: int| 0 <= j < all.len() implies !is_part_of(
                pat,
                #[trigger] all[j],
            ) by {
                if j > 0 {
                    assert(all[j] == rest[j - 1]);
                }
            }
            assert forall|j: int, k: int|
                0 <= j < all.len() - 1 && 0 <= k < all[j].len() implies !(
            #[trigger] text::occurs_at(all[j] + pat, pat, k)) by {
                if j > 0 {
                    assert(all[j] == rest[j - 1]);
                    assert(!text::occurs_at(rest[j - 1] + pat, pat, k));
                }
            }
        },
        None => {
            law_nowhere_is_no_part(s, pat);
            assert(all =~= seq![s]);
        },
    }
}

/// To exchange one text for another is to put the pieces together with the other between them.
pub proof fn law_replaced_between_the_pieces(s: Seq<char>, pat: Seq<char>, to: Seq<char>)
    requires
        pat.len() > 0,
    ensures
        text::replaced(s, pat, to) == strung(text::pieces(s, pat), to),
    decreases s.len(),
{
    text::lemma_position_from(s, pat, 0);
    if let Some(i) = text::position(s, pat) {
        let behind = s.skip(i + pat.len());
        law_replaced_between_the_pieces(behind, pat, to);
        law_pieces_are_what_was_between(behind, pat);
        assert(text::pieces(s, pat).drop_first() =~= text::pieces(behind, pat));
    }
}

/// Parts are joined by putting the separator between each two, and nowhere else.
pub proof fn law_joined_with_the_separator_between(parts: Seq<Seq<char>>, sep: Seq<char>)
    ensures
        text::joined(parts, sep) == strung(parts, sep),
    decreases parts.len(),
{
    if parts.len() >= 2 {
        law_joined_with_the_separator_between(parts.drop_last(), sep);
        lemma_strung_from_the_end(parts, sep);
    }
}

/// The last part stands behind the separator behind the others.
proof fn lemma_strung_from_the_end(parts: Seq<Seq<char>>, sep: Seq<char>)
    requires
        parts.len() >= 2,
    ensures
        strung(parts, sep) == strung(parts.drop_last(), sep) + sep + parts.last(),
    decreases parts.len(),
{
    let rest = parts.drop_first();
    if parts.len() == 2 {
        assert(strung(rest, sep) == parts[1]);
        assert(strung(parts.drop_last(), sep) == parts[0]);
    } else {
        lemma_strung_from_the_end(rest, sep);
        assert(parts.drop_last().drop_first() =~= rest.drop_last());
        let inner = strung(rest.drop_last(), sep);
        assert(parts[0] + sep + (inner + sep + parts.last()) =~= parts[0] + sep + inner + sep
            + parts.last());
    }
}

/// White space is what Unicode lists as such, twenty-five characters, and nothing else.
pub proof fn law_white_space_is_unicodes(c: char)
    ensures
        text::is_space(c) <==> seq![
            0x9u32,
            0xau32,
            0xbu32,
            0xcu32,
            0xdu32,
            0x20u32,
            0x85u32,
            0xa0u32,
            0x1680u32,
            0x2000u32,
            0x2001u32,
            0x2002u32,
            0x2003u32,
            0x2004u32,
            0x2005u32,
            0x2006u32,
            0x2007u32,
            0x2008u32,
            0x2009u32,
            0x200au32,
            0x2028u32,
            0x2029u32,
            0x202fu32,
            0x205fu32,
            0x3000u32,
        ].contains(c as u32),
{
    let all = seq![
        0x9u32,
        0xau32,
        0xbu32,
        0xcu32,
        0xdu32,
        0x20u32,
        0x85u32,
        0xa0u32,
        0x1680u32,
        0x2000u32,
        0x2001u32,
        0x2002u32,
        0x2003u32,
        0x2004u32,
        0x2005u32,
        0x2006u32,
        0x2007u32,
        0x2008u32,
        0x2009u32,
        0x200au32,
        0x2028u32,
        0x2029u32,
        0x202fu32,
        0x205fu32,
        0x3000u32,
    ];
    let n = c as u32;
    if text::is_space(c) {
        assert(all[0] == 0x9 && all[1] == 0xa && all[2] == 0xb && all[3] == 0xc && all[4] == 0xd
            && all[5] == 0x20 && all[6] == 0x85 && all[7] == 0xa0 && all[8] == 0x1680 && all[9]
            == 0x2000 && all[10] == 0x2001 && all[11] == 0x2002 && all[12] == 0x2003 && all[13]
            == 0x2004 && all[14] == 0x2005 && all[15] == 0x2006 && all[16] == 0x2007 && all[17]
            == 0x2008 && all[18] == 0x2009 && all[19] == 0x200a && all[20] == 0x2028 && all[21]
            == 0x2029 && all[22] == 0x202f && all[23] == 0x205f && all[24] == 0x3000);
        assert(exists|i: int| 0 <= i < all.len() && all[i] == n);
    }
}

/// A text of nothing but white space.
pub open spec fn is_blank(s: Seq<char>) -> bool {
    forall|i: int| 0 <= i < s.len() ==> text::is_space(#[trigger] s[i])
}

/// A text that neither starts nor ends with white space.
pub open spec fn is_tight(s: Seq<char>) -> bool {
    s.len() > 0 ==> !text::is_space(s[0]) && !text::is_space(s.last())
}

/// Only the white space in front is taken off in front.
proof fn lemma_trimmed_start(a: Seq<char>, s: Seq<char>)
    requires
        is_blank(a),
        s.len() > 0 ==> !text::is_space(s[0]),
    ensures
        text::trimmed_start(a + s) == s,
    decreases a.len(),
{
    if a.len() > 0 {
        assert(text::is_space(a[0]));
        assert((a + s).drop_first() =~= a.drop_first() + s);
        assert(is_blank(a.drop_first())) by {
            assert forall|i: int| 0 <= i < a.drop_first().len() implies text::is_space(
                #[trigger] a.drop_first()[i],
            ) by {
                assert(text::is_space(a[i + 1]));
            }
        }
        lemma_trimmed_start(a.drop_first(), s);
    } else {
        assert(a + s =~= s);
    }
}

/// Only the white space behind is taken off behind.
proof fn lemma_trimmed_end(s: Seq<char>, b: Seq<char>)
    requires
        is_blank(b),
        s.len() > 0 ==> !text::is_space(s.last()),
    ensures
        text::trimmed_end(s + b) == s,
    decreases b.len(),
{
    if b.len() > 0 {
        assert(text::is_space(b[b.len() - 1]));
        assert((s + b).drop_last() =~= s + b.drop_last());
        assert(is_blank(b.drop_last())) by {
            assert forall|i: int| 0 <= i < b.drop_last().len() implies text::is_space(
                #[trigger] b.drop_last()[i],
            ) by {
                assert(text::is_space(b[i]));
            }
        }
        lemma_trimmed_end(s, b.drop_last());
    } else {
        assert(s + b =~= s);
    }
}

/// What stands between white space is left when the white space is taken off, all of it, and
/// nothing but it.
pub proof fn law_trimmed_of_what_is_around(a: Seq<char>, s: Seq<char>, b: Seq<char>)
    requires
        is_blank(a),
        is_tight(s),
        is_blank(b),
    ensures
        text::trimmed(a + s + b) == s,
{
    if s.len() > 0 {
        assert((s + b)[0] == s[0]);
        lemma_trimmed_start(a, s + b);
        assert(a + (s + b) =~= a + s + b);
        lemma_trimmed_end(s, b);
    } else {
        assert(a + s + b =~= (a + b) + Seq::<char>::empty());
        assert(is_blank(a + b)) by {
            assert forall|i: int| 0 <= i < (a + b).len() implies text::is_space(
                #[trigger] (a + b)[i],
            ) by {
                if i < a.len() {
                    assert(text::is_space(a[i]));
                } else {
                    assert(text::is_space(b[i - a.len()]));
                }
            }
        }
        lemma_trimmed_start(a + b, Seq::empty());
    }
}

/// The first word of a text is the first run of it without white space.
pub proof fn law_the_first_word_stands_first(a: Seq<char>, word: Seq<char>, b: Seq<char>)
    requires
        is_blank(a),
        word.len() > 0,
        forall|i: int| 0 <= i < word.len() ==> !text::is_space(#[trigger] word[i]),
        b.len() > 0 ==> text::is_space(b[0]),
    ensures
        text::leading_word(a + word + b) == Some(word),
{
    assert((word + b)[0] == word[0]);
    lemma_trimmed_start(a, word + b);
    assert(a + (word + b) =~= a + word + b);
    lemma_up_to_space(word, b);
}

/// A word goes as far as the white space behind it.
proof fn lemma_up_to_space(word: Seq<char>, b: Seq<char>)
    requires
        forall|i: int| 0 <= i < word.len() ==> !text::is_space(#[trigger] word[i]),
        b.len() > 0 ==> text::is_space(b[0]),
    ensures
        text::up_to_space(word + b) == word,
    decreases word.len(),
{
    if word.len() > 0 {
        assert(!text::is_space(word[0]));
        assert((word + b).drop_first() =~= word.drop_first() + b);
        assert forall|i: int| 0 <= i < word.drop_first().len() implies !text::is_space(
            #[trigger] word.drop_first()[i],
        ) by {
            assert(!text::is_space(word[i + 1]));
        }
        lemma_up_to_space(word.drop_first(), b);
        assert(seq![word[0]] + word.drop_first() =~= word);
    } else {
        assert(word + b =~= b);
    }
}

/// White space alone has no word.
pub proof fn law_white_space_has_no_word(s: Seq<char>)
    requires
        is_blank(s),
    ensures
        text::leading_word(s) is None,
{
    lemma_trimmed_start(s, Seq::empty());
    assert(s + Seq::<char>::empty() =~= s);
}

/// `n` copies of a text, one after the other.
pub open spec fn copies(s: Seq<char>, n: nat) -> Seq<char>
    decreases n,
{
    if n == 0 {
        Seq::empty()
    } else {
        copies(s, (n - 1) as nat) + s
    }
}

/// A text ends with another.
pub open spec fn ends_with(s: Seq<char>, end: Seq<char>) -> bool {
    exists|a: Seq<char>| #[trigger] (a + end) == s
}

/// Whole copies of an ending come off, all of them, and nothing but them: what is left does not
/// end with it, and with some number of copies behind it is the text again.
pub proof fn law_only_whole_endings_come_off(s: Seq<char>, end: Seq<char>)
    requires
        end.len() > 0,
    ensures
        exists|k: nat| s == text::without_ending(s, end) + #[trigger] copies(end, k),
        !ends_with(text::without_ending(s, end), end),
    decreases s.len(),
{
    if end.len() <= s.len() && text::occurs_at(s, end, s.len() - end.len()) {
        let rest = s.take(s.len() - end.len());
        law_only_whole_endings_come_off(rest, end);
        let k = choose|k: nat| rest == text::without_ending(rest, end) + #[trigger] copies(end, k);
        law_it_stands_where_it_is_found(s, end, s.len() - end.len());
        assert(rest + end =~= s);
        let left = text::without_ending(s, end);
        assert(copies(end, (k + 1) as nat) == copies(end, k) + end);
        assert(left + (copies(end, k) + end) =~= (left + copies(end, k)) + end);
        assert(s == left + copies(end, (k + 1) as nat));
    } else {
        assert(s =~= s + copies(end, 0));
        if ends_with(s, end) {
            let a = choose|a: Seq<char>| #[trigger] (a + end) == s;
            law_found_where_it_was_put(a, end, Seq::empty());
            assert(a + end + Seq::<char>::empty() =~= s);
        }
    }
}

/// What does not end with an ending is what is left when any number of copies was put behind it and
/// came off: it alone, if none was.
pub proof fn law_endings_put_on_come_off(s: Seq<char>, end: Seq<char>, n: nat)
    requires
        end.len() > 0,
        !ends_with(s, end),
    ensures
        text::without_ending(s + copies(end, n), end) == s,
    decreases n,
{
    let t = s + copies(end, n);
    if n == 0 {
        assert(t =~= s);
        if end.len() <= s.len() && text::occurs_at(s, end, s.len() - end.len()) {
            law_it_stands_where_it_is_found(s, end, s.len() - end.len());
            assert(s.take(s.len() - end.len()) + end =~= s);
        }
    } else {
        let before = s + copies(end, (n - 1) as nat);
        assert(t =~= before + end + Seq::<char>::empty());
        law_found_where_it_was_put(before, end, Seq::empty());
        assert(t.take(t.len() - end.len()) =~= before);
        law_endings_put_on_come_off(s, end, (n - 1) as nat);
    }
}

/// Behind the last of a character stands what is given back; all of it, where there is none.
pub proof fn law_behind_the_last(a: Seq<char>, c: char, s: Seq<char>)
    requires
        !s.contains(c),
    ensures
        text::past_last(a + seq![c] + s, c) == s,
        text::past_last(s, c) == s,
    decreases s.len(),
{
    let t = a + seq![c] + s;
    if s.len() > 0 {
        let rest = s.drop_last();
        assert forall|x: char| rest.contains(x) implies s.contains(x) by {
            let i = choose|i: int| 0 <= i < rest.len() && rest[i] == x;
            assert(s[i] == x);
        }
        law_behind_the_last(a, c, rest);
        assert(s.contains(s[s.len() - 1]));
        assert(t.drop_last() =~= a + seq![c] + rest);
        assert(rest.push(s.last()) =~= s);
    } else {
        assert(t.last() == c);
    }
}

/// The digits of a number: one for each of the first ten, and for every other the digits of the
/// tens with one more behind them.
pub proof fn law_decimal_by_tens(n: nat, d: nat)
    requires
        d < 10,
    ensures
        text::decimal(d).len() == 1,
        text::decimal(d)[0] as u32 == 0x30 + d,
        n > 0 ==> text::decimal(n * 10 + d) == text::decimal(n) + text::decimal(d),
{
    if n > 0 {
        let m = n * 10 + d;
        assert(m / 10 == n && m % 10 == d);
        assert(text::decimal(n).push(text::digit(d)) =~= text::decimal(n) + text::decimal(d));
    }
}

/// The number that digits write: a digit's own, ten times what stands before it and it.
pub proof fn law_digits_by_tens(s: Seq<char>, c: char)
    requires
        '0' <= c <= '9',
    ensures
        text::digits_value(seq![c]) == Some((c as u32 - 0x30) as nat),
        text::digits_value(s) matches Some(n) ==> text::digits_value(s.push(c)) == Some(
            (n * 10 + (c as u32 - 0x30)) as nat,
        ),
{
    assert(s.push(c).drop_last() =~= s);
}

/// Nothing but digits, and at least one, writes a number.
pub proof fn law_only_digits_write_numbers(s: Seq<char>)
    ensures
        text::digits_value(s) is Some <==> s.len() > 0 && forall|i: int|
            0 <= i < s.len() ==> '0' <= #[trigger] s[i] <= '9',
    decreases s.len(),
{
    if s.len() > 1 {
        let rest = s.drop_last();
        law_only_digits_write_numbers(rest);
        if text::digits_value(s) is Some {
            assert forall|i: int| 0 <= i < s.len() implies '0' <= #[trigger] s[i] <= '9' by {
                if i < rest.len() {
                    assert(rest[i] == s[i]);
                }
            }
        } else if forall|i: int| 0 <= i < s.len() ==> '0' <= #[trigger] s[i] <= '9' {
            assert forall|i: int| 0 <= i < rest.len() implies '0' <= #[trigger] rest[i] <= '9' by {
                assert(rest[i] == s[i]);
            }
            assert(s[s.len() - 1] == s.last());
        }
    } else if s.len() == 1 {
        assert(s[0] == s.last());
    }
}

/// A plus sign before digits changes nothing, and there may be one at most.
pub proof fn law_one_plus_sign_may_stand_first(s: Seq<char>)
    ensures
        s.len() > 0 && s[0] != '+' ==> text::number(seq!['+'] + s) == text::number(s),
        s.len() == 0 || s[0] == '+' ==> text::number(seq!['+'] + s) is None,
        s.len() == 0 || s[0] != '+' ==> text::number(s) == text::digits_value(s),
{
    assert((seq!['+'] + s).drop_first() =~= s);
    law_only_digits_write_numbers(s);
    if s.len() > 0 && s[0] == '+' {
        assert(!('0' <= s[0] <= '9'));
    }
}

/// A zero before digits changes nothing.
pub proof fn law_leading_zeros_count_for_nothing(s: Seq<char>)
    requires
        s.len() > 0,
    ensures
        text::digits_value(seq!['0'] + s) == text::digits_value(s),
    decreases s.len(),
{
    let t = seq!['0'] + s;
    assert(t.drop_last() =~= seq!['0'] + s.drop_last());
    assert(t.last() == s.last());
    if s.len() > 1 {
        law_leading_zeros_count_for_nothing(s.drop_last());
    } else {
        assert(t.drop_last() =~= seq!['0']);
        assert(text::digits_value(seq!['0']) == Some(0nat));
    }
}

} // verus!

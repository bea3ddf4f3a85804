//! Text as sequences of characters: searching, trimming, splitting and putting together.
//!
//! Positions count characters, not bytes.
use vstd::prelude::*;

verus! {

/// `pat` stands in `s` at position `i`.
pub open spec fn occurs_at(s: Seq<char>, pat: Seq<char>, i: int) -> bool {
    &&& 0 <= i
    &&& i + pat.len() <= s.len()
    &&& s.subrange(i, i + pat.len()) == pat
}

/// The first position at or after `from` where `pat` stands in `s`.
pub open spec fn position_from(s: Seq<char>, pat: Seq<char>, from: int) -> Option<int>
    decreases s.len() - from + 1,
{
    if from + pat.len() > s.len() {
        None
    } else if occurs_at(s, pat, from) {
        Some(from)
    } else {
        position_from(s, pat, from + 1)
    }
}

/// The first position where `pat` stands in `s`.
pub open spec fn position(s: Seq<char>, pat: Seq<char>) -> Option<int> {
    position_from(s, pat, 0)
}

/// `pat` stands somewhere in `s`.
pub open spec fn holds(s: Seq<char>, pat: Seq<char>) -> bool {
    exists|i: int| occurs_at(s, pat, i)
}

/// What `position_from` finds is an occurrence with none before it, and it finds one if there is
/// one.
pub proof fn lemma_position_from(s: Seq<char>, pat: Seq<char>, from: int)
    requires
        0 <= from,
    ensures
        match position_from(s, pat, from) {
            Some(i) => from <= i && occurs_at(s, pat, i) && forall|j: int|
                from <= j < i ==> !occurs_at(s, pat, j),
            None => forall|j: int| from <= j ==> !occurs_at(s, pat, j),
        },
    decreases s.len() - from + 1,
{
    if from + pat.len() <= s.len() && !occurs_at(s, pat, from) {
        lemma_position_from(s, pat, from + 1);
    }
}

/// `position` is pinned down by being an occurrence with none before it.
pub proof fn lemma_position_is(s: Seq<char>, pat: Seq<char>, i: int)
    requires
        occurs_at(s, pat, i),
        forall|j: int| 0 <= j < i ==> !occurs_at(s, pat, j),
    ensures
        position(s, pat) == Some(i),
{
    lemma_position_from(s, pat, 0);
}

/// `pat` stands somewhere exactly where `position` finds it.
pub proof fn lemma_holds(s: Seq<char>, pat: Seq<char>)
    ensures
        holds(s, pat) <==> position(s, pat) is Some,
{
    lemma_position_from(s, pat, 0);
    if position(s, pat) is Some {
        assert(occurs_at(s, pat, position(s, pat)->0));
    }
}

/// The characters of `s`.
pub fn chars_of(s: &str) -> (r: Vec<char>)
    ensures
        r@ == s@,
{
    let mut r: Vec<char> = Vec::new();
    for c in it: s.chars()
        invariant
            it.seq() == s@,
            r@ == s@.take(it.index()),
    {
        r.push(c);
        assert(s@.take(it.index() + 1) == s@.take(it.index()).push(c));
    }
    assert(s@.take(s@.len() as int) == s@);
    r
}

/// Whether the two texts are the same.
pub fn same(a: &str, b: &str) -> (r: bool)
    ensures
        r == (a@ == b@),
{
    a.to_owned() == b.to_owned()
}

fn stands_at(s: &Vec<char>, pat: &Vec<char>, i: usize) -> (r: bool)
    requires
        i + pat@.len() <= s@.len(),
    ensures
        r == occurs_at(s@, pat@, i as int),
{
    let len: usize = s.len();
    let mut k: usize = 0;
    while k < pat.len()
        invariant
            len == s@.len(),
            k <= pat@.len(),
            i + pat@.len() <= s@.len(),
            forall|j: int| 0 <= j < k ==> s@[i + j] == pat@[j],
        decreases pat@.len() - k,
    {
        if s[i + k] != pat[k] {
            assert(s@.subrange(i as int, i + pat@.len())[k as int] == s@[i + k]);
            return false;
        }
        k = k + 1;
    }
    assert(s@.subrange(i as int, i + pat@.len()) =~= pat@);
    true
}

/// The first position at or after `from` where `pat` stands in `s`.
pub fn find_from(s: &str, pat: &str, from: usize) -> (r: Option<usize>)
    requires
        from <= s@.len(),
    ensures
        match r {
            Some(i) => position_from(s@, pat@, from as int) == Some(i as int),
            None => position_from(s@, pat@, from as int) is None,
        },
        r matches Some(i) ==> i + pat@.len() <= s@.len() <= usize::MAX,
{
    let text = chars_of(s);
    let sought = chars_of(pat);
    if sought.len() > text.len() {
        return None;
    }
    let last: usize = text.len() - sought.len();
    let mut i: usize = from;
    while i <= last
        invariant
            text@ == s@,
            sought@ == pat@,
            last + sought@.len() == text@.len() <= usize::MAX,
            from <= i <= text@.len(),
            position_from(s@, pat@, from as int) == position_from(s@, pat@, i as int),
        decreases last + 1 - i,
    {
        if stands_at(&text, &sought, i) {
            return Some(i);
        }
        if i == last {
            assert(position_from(s@, pat@, i + 1) is None);
            return None;
        }
        i = i + 1;
    }
    None
}

/// The first position where `pat` stands in `s`.
pub fn find(s: &str, pat: &str) -> (r: Option<usize>)
    ensures
        match r {
            Some(i) => position(s@, pat@) == Some(i as int),
            None => position(s@, pat@) is None,
        },
        r matches Some(i) ==> i + pat@.len() <= s@.len() <= usize::MAX,
{
    find_from(s, pat, 0)
}

/// Whether `pat` stands somewhere in `s`.
pub fn contains(s: &str, pat: &str) -> (r: bool)
    ensures
        r == holds(s@, pat@),
{
    proof {
        lemma_holds(s@, pat@);
    }
    find(s, pat).is_some()
}

/// Whether `s` starts with `pat`.
pub fn starts_with(s: &str, pat: &str) -> (r: bool)
    ensures
        r == occurs_at(s@, pat@, 0),
{
    let text = chars_of(s);
    let sought = chars_of(pat);
    sought.len() <= text.len() && stands_at(&text, &sought, 0)
}

/// What follows `pat` in `s`, where `s` starts with it.
pub open spec fn past_prefix(s: Seq<char>, pat: Seq<char>) -> Option<Seq<char>> {
    if occurs_at(s, pat, 0) {
        Some(s.skip(pat.len() as int))
    } else {
        None
    }
}

/// What follows `pat` in `s`, where `s` starts with it.
pub fn strip_prefix(s: &str, pat: &str) -> (r: Option<String>)
    ensures
        r.deep_view() == past_prefix(s@, pat@),
{
    if starts_with(s, pat) {
        Some(from(s, pat.unicode_len()))
    } else {
        None
    }
}

/// The part of `s` from position `i` on.
pub fn from(s: &str, i: usize) -> (r: String)
    requires
        i <= s@.len(),
    ensures
        r@ == s@.skip(i as int),
{
    s.substring_char(i, s.unicode_len()).to_owned()
}

/// The parts of `s` between the occurrences of `pat`, read from the left.
pub open spec fn pieces(s: Seq<char>, pat: Seq<char>) -> Seq<Seq<char>>
    decreases s.len(),
    when pat.len() > 0
{
    match position(s, pat) {
        Some(i) => {
            proof {
                lemma_position_from(s, pat, 0);
            }
            seq![s.take(i)] + pieces(s.skip(i + pat.len()), pat)
        },
        None => seq![s],
    }
}

/// The parts of `s` between the occurrences of `pat`, read from the left.
pub fn split(s: &str, pat: &str) -> (r: Vec<String>)
    requires
        pat@.len() > 0,
    ensures
        r.deep_view() == pieces(s@, pat@),
{
    let mut out: Vec<String> = Vec::new();
    let mut rest: String = s.to_owned();
    let step: usize = pat.unicode_len();
    assert(out.deep_view() + pieces(rest@, pat@) == pieces(s@, pat@));
    loop
        invariant
            step == pat@.len(),
            pat@.len() > 0,
            out.deep_view() + pieces(rest@, pat@) == pieces(s@, pat@),
        decreases rest@.len(),
    {
        let ghost before = out.deep_view();
        let ghost was = rest@;
        match find(&rest, pat) {
            Some(i) => {
                out.push(rest.as_str().substring_char(0, i).to_owned());
                rest = from(&rest, i + step);
                assert(was.subrange(0, i as int) == was.take(i as int));
                assert(out.deep_view() == before.push(was.take(i as int)));
                assert(out.deep_view() + pieces(rest@, pat@) == before + pieces(was, pat@));
            },
            None => {
                out.push(rest);
                assert(out.deep_view() == before.push(was));
                assert(out.deep_view() == before + pieces(was, pat@));
                return out;
            },
        }
    }
}

/// `s` with each occurrence of `pat`, read from the left, exchanged for `to`.
pub open spec fn replaced(s: Seq<char>, pat: Seq<char>, to: Seq<char>) -> Seq<char>
    decreases s.len(),
    when pat.len() > 0
{
    match position(s, pat) {
        Some(i) => {
            proof {
                lemma_position_from(s, pat, 0);
            }
            s.take(i) + to + replaced(s.skip(i + pat.len()), pat, to)
        },
        None => s,
    }
}

/// `s` with each occurrence of `pat`, read from the left, exchanged for `to`.
pub fn replace(s: &str, pat: &str, to: &str) -> (r: String)
    requires
        pat@.len() > 0,
    ensures
        r@ == replaced(s@, pat@, to@),
{
    let mut out: String = String::new();
    let mut rest: String = s.to_owned();
    let step: usize = pat.unicode_len();
    assert(out@ + replaced(rest@, pat@, to@) == replaced(s@, pat@, to@));
    loop
        invariant
            step == pat@.len(),
            pat@.len() > 0,
            out@ + replaced(rest@, pat@, to@) == replaced(s@, pat@, to@),
        decreases rest@.len(),
    {
        let ghost before = out@;
        let ghost was = rest@;
        match find(&rest, pat) {
            Some(i) => {
                out.append(rest.as_str().substring_char(0, i));
                out.append(to);
                rest = from(&rest, i + step);
                assert(was.subrange(0, i as int) == was.take(i as int));
                assert(out@ + replaced(rest@, pat@, to@) == before + replaced(was, pat@, to@));
            },
            None => {
                out.append(&rest);
                return out;
            },
        }
    }
}

/// The characters that Unicode counts as white space.
pub open spec fn is_space(c: char) -> bool {
    ||| '\u{9}' <= c <= '\u{d}'
    ||| c == ' '
    ||| c == '\u{85}'
    ||| c == '\u{a0}'
    ||| c == '\u{1680}'
    ||| '\u{2000}' <= c <= '\u{200a}'
    ||| c == '\u{2028}'
    ||| c == '\u{2029}'
    ||| c == '\u{202f}'
    ||| c == '\u{205f}'
    ||| c == '\u{3000}'
}

/// Whether `c` is white space.
pub fn is_whitespace(c: char) -> (r: bool)
    ensures
        r == is_space(c),
{
    ('\u{9}' <= c && c <= '\u{d}') || c == ' ' || c == '\u{85}' || c == '\u{a0}' || c == '\u{1680}'
        || ('\u{2000}' <= c && c <= '\u{200a}') || c == '\u{2028}' || c == '\u{2029}' || c
        == '\u{202f}' || c == '\u{205f}' || c == '\u{3000}'
}

/// `s` without the white space that it starts with.
pub open spec fn trimmed_start(s: Seq<char>) -> Seq<char>
    decreases s.len(),
{
    if s.len() > 0 && is_space(s[0]) {
        trimmed_start(s.drop_first())
    } else {
        s
    }
}

/// `s` without the white space that it ends with.
pub open spec fn trimmed_end(s: Seq<char>) -> Seq<char>
    decreases s.len(),
{
    if s.len() > 0 && is_space(s.last()) {
        trimmed_end(s.drop_last())
    } else {
        s
    }
}

/// `s` without the white space around it.
pub open spec fn trimmed(s: Seq<char>) -> Seq<char> {
    trimmed_end(trimmed_start(s))
}

/// `s` without the white space that it starts with.
pub fn trim_start(s: &str) -> (r: String)
    ensures
        r@ == trimmed_start(s@),
{
    let text = chars_of(s);
    let mut i: usize = 0;
    assert(s@.skip(0) == s@);
    while i < text.len() && is_whitespace(text[i])
        invariant
            text@ == s@,
            i <= text@.len(),
            trimmed_start(s@.skip(i as int)) == trimmed_start(s@),
        decreases text@.len() - i,
    {
        assert(s@.skip(i as int).drop_first() == s@.skip(i + 1));
        i = i + 1;
    }
    from(s, i)
}

/// `s` without the white space around it.
pub fn trim(s: &str) -> (r: String)
    ensures
        r@ == trimmed(s@),
{
    let t = trim_start(s);
    let text = chars_of(&t);
    let mut n: usize = text.len();
    assert(t@.take(n as int) == t@);
    while n > 0 && is_whitespace(text[n - 1])
        invariant
            text@ == t@,
            n <= text@.len(),
            trimmed_end(t@.take(n as int)) == trimmed_end(t@),
        decreases n,
    {
        assert(t@.take(n as int).drop_last() == t@.take(n - 1));
        n = n - 1;
    }
    t.as_str().substring_char(0, n).to_owned()
}

/// `s` up to its first white space.
pub open spec fn up_to_space(s: Seq<char>) -> Seq<char>
    decreases s.len(),
{
    if s.len() > 0 && !is_space(s[0]) {
        seq![s[0]] + up_to_space(s.drop_first())
    } else {
        Seq::empty()
    }
}

/// The first of the words of `s` that white space separates.
pub open spec fn leading_word(s: Seq<char>) -> Option<Seq<char>> {
    let word = up_to_space(trimmed_start(s));
    if word.len() > 0 {
        Some(word)
    } else {
        None
    }
}

/// The first of the words of `s` that white space separates.
pub fn first_word(s: &str) -> (r: Option<String>)
    ensures
        r.deep_view() == leading_word(s@),
{
    let t = trim_start(s);
    let text = chars_of(&t);
    let mut i: usize = 0;
    assert(t@.skip(0) == t@);
    assert(t@.take(0) + up_to_space(t@.skip(0)) == up_to_space(t@));
    while i < text.len() && !is_whitespace(text[i])
        invariant
            text@ == t@,
            i <= text@.len(),
            t@.take(i as int) + up_to_space(t@.skip(i as int)) == up_to_space(t@),
        decreases text@.len() - i,
    {
        assert(t@.skip(i as int).drop_first() == t@.skip(i + 1));
        assert(t@.take(i + 1) + up_to_space(t@.skip(i + 1)) == t@.take(i as int) + up_to_space(
            t@.skip(i as int),
        ));
        i = i + 1;
    }
    assert(t@.take(i as int) == up_to_space(t@));
    if i > 0 {
        Some(t.as_str().substring_char(0, i).to_owned())
    } else {
        None
    }
}

/// `s` without the copies of `pat` that it ends with.
pub open spec fn without_ending(s: Seq<char>, pat: Seq<char>) -> Seq<char>
    decreases s.len(),
{
    if 0 < pat.len() <= s.len() && occurs_at(s, pat, s.len() - pat.len()) {
        without_ending(s.take(s.len() - pat.len()), pat)
    } else {
        s
    }
}

/// `s` without the copies of `pat` that it ends with.
pub fn trim_end_matches(s: &str, pat: &str) -> (r: String)
    requires
        pat@.len() > 0,
    ensures
        r@ == without_ending(s@, pat@),
{
    let text = chars_of(s);
    let ending = chars_of(pat);
    let mut n: usize = text.len();
    assert(s@.take(n as int) == s@);
    while ending.len() <= n && stands_at(&text, &ending, n - ending.len())
        invariant
            text@ == s@,
            ending@ == pat@,
            pat@.len() > 0,
            n <= text@.len(),
            without_ending(s@.take(n as int), pat@) == without_ending(s@, pat@),
        decreases n,
    {
        let ghost cut = n - pat@.len();
        assert(s@.take(n as int).subrange(cut, n as int) == s@.subrange(cut, n as int));
        assert(s@.take(n as int).take(cut) == s@.take(cut));
        n = n - ending.len();
    }
    assert(pat@.len() <= n ==> s@.take(n as int).subrange(n - pat@.len(), n as int) == s@.subrange(
        n - pat@.len(),
        n as int,
    ));
    s.substring_char(0, n).to_owned()
}

/// What follows the last `c` in `s`, or all of `s` where there is none.
pub open spec fn past_last(s: Seq<char>, c: char) -> Seq<char>
    decreases s.len(),
{
    if s.len() == 0 || s.last() == c {
        Seq::empty()
    } else {
        past_last(s.drop_last(), c).push(s.last())
    }
}

/// What follows the last `c` in `s`, or all of `s` where there is none.
pub fn after_last(s: &str, c: char) -> (r: String)
    ensures
        r@ == past_last(s@, c),
{
    let text = chars_of(s);
    let mut i: usize = text.len();
    assert(s@.take(i as int) == s@);
    assert(past_last(s@.take(i as int), c) + s@.skip(i as int) == past_last(s@, c));
    while i > 0 && text[i - 1] != c
        invariant
            text@ == s@,
            i <= text@.len(),
            past_last(s@.take(i as int), c) + s@.skip(i as int) == past_last(s@, c),
        decreases i,
    {
        assert(s@.take(i as int).drop_last() == s@.take(i - 1));
        assert(past_last(s@.take(i - 1), c) + s@.skip(i - 1) == past_last(s@.take(i as int), c)
            + s@.skip(i as int));
        i = i - 1;
    }
    from(s, i)
}

/// The digit that stands for `n`.
pub open spec fn digit(n: nat) -> char {
    (n + '0' as nat) as char
}

/// `n` in decimal.
pub open spec fn decimal(n: nat) -> Seq<char>
    decreases n,
{
    if n < 10 {
        seq![digit(n)]
    } else {
        decimal(n / 10).push(digit(n % 10))
    }
}

/// `n` in decimal.
pub fn to_decimal(n: u64) -> (r: String)
    ensures
        r@ == decimal(n as nat),
    decreases n,
{
    let last: u64 = n % 10;
    proof {
        reveal_strlit("0");
        reveal_strlit("1");
        reveal_strlit("2");
        reveal_strlit("3");
        reveal_strlit("4");
        reveal_strlit("5");
        reveal_strlit("6");
        reveal_strlit("7");
        reveal_strlit("8");
        reveal_strlit("9");
    }
    let mut out: String = if n < 10 {
        String::new()
    } else {
        to_decimal(n / 10)
    };
    let ghost before = out@;
    if last == 0 {
        out.append("0");
    } else if last == 1 {
        out.append("1");
    } else if last == 2 {
        out.append("2");
    } else if last == 3 {
        out.append("3");
    } else if last == 4 {
        out.append("4");
    } else if last == 5 {
        out.append("5");
    } else if last == 6 {
        out.append("6");
    } else if last == 7 {
        out.append("7");
    } else if last == 8 {
        out.append("8");
    } else {
        out.append("9");
    }
    assert(out@ == before.push(digit(last as nat)));
    out
}

/// The value of a digit.
pub open spec fn digit_value(c: char) -> Option<nat> {
    if '0' <= c <= '9' {
        Some((c as int - '0' as int) as nat)
    } else {
        None
    }
}

/// The number that the digits of `s` write in decimal, with nothing but digits and at least one.
pub open spec fn digits_value(s: Seq<char>) -> Option<nat>
    decreases s.len(),
{
    if s.len() == 0 {
        None
    } else {
        match digit_value(s.last()) {
            None => None,
            Some(d) => if s.len() == 1 {
                Some(d)
            } else {
                match digits_value(s.drop_last()) {
                    None => None,
                    Some(n) => Some(n * 10 + d),
                }
            },
        }
    }
}

/// The number that `s` writes in decimal: digits, with a plus sign before them or none.
pub open spec fn number(s: Seq<char>) -> Option<nat> {
    if s.len() > 0 && s[0] == '+' {
        digits_value(s.drop_first())
    } else {
        digits_value(s)
    }
}

/// The number that `s` writes in decimal, where it fits.
pub fn to_u32(s: &str) -> (r: Option<u32>)
    ensures
        match r {
            Some(n) => number(s@) == Some(n as nat),
            None => number(s@) is None || number(s@)->0 > u32::MAX,
        },
{
    let text = chars_of(s);
    let start: usize = if text.len() > 0 && text[0] == '+' {
        1
    } else {
        0
    };
    let ghost digits = s@.skip(start as int);
    assert(start == 0 ==> digits == s@);
    assert(start == 1 ==> digits == s@.drop_first());
    if start == text.len() {
        return None;
    }
    let mut value: u64 = 0;
    let mut i: usize = start;
    while i < text.len()
        invariant
            text@ == s@,
            start <= i <= text@.len(),
            start < text@.len(),
            digits == s@.skip(start as int),
            number(s@) == digits_value(digits),
            value <= u32::MAX,
            i == start ==> value == 0,
            i > start ==> digits_value(digits.take(i - start)) == Some(value as nat),
        decreases text@.len() - i,
    {
        let c: char = text[i];
        let ghost sofar = digits.take(i + 1 - start);
        assert(sofar.last() == c);
        assert(sofar.drop_last() == digits.take(i - start));
        if !('0' <= c && c <= '9') {
            proof {
                lemma_digits_prefix(digits, i + 1 - start);
            }
            return None;
        }
        value = value * 10 + (c as u64 - '0' as u64);
        if value > u32::MAX as u64 {
            proof {
                lemma_digits_prefix(digits, i + 1 - start);
            }
            return None;
        }
        i = i + 1;
    }
    assert(digits.take(i - start) == digits);
    Some(value as u32)
}

/// A number is no smaller than what its first digits write, and has none where they have none.
proof fn lemma_digits_prefix(s: Seq<char>, n: int)
    requires
        0 < n <= s.len(),
    ensures
        digits_value(s.take(n)) is None ==> digits_value(s) is None,
        digits_value(s) matches Some(v) ==> digits_value(s.take(n)) is Some && v >= digits_value(
            s.take(n),
        )->0,
    decreases s.len() - n,
{
    if n == s.len() {
        assert(s.take(n) == s);
    } else {
        let t = s.drop_last();
        assert(t.take(n) == s.take(n));
        lemma_digits_prefix(t, n);
    }
}

/// The texts of `parts`, with `sep` between each two.
pub open spec fn joined(parts: Seq<Seq<char>>, sep: Seq<char>) -> Seq<char>
    decreases parts.len(),
{
    if parts.len() == 0 {
        Seq::empty()
    } else if parts.len() == 1 {
        parts[0]
    } else {
        joined(parts.drop_last(), sep) + sep + parts.last()
    }
}

/// The texts of `parts`, with `sep` between each two.
pub fn join(parts: &Vec<String>, sep: &str) -> (r: String)
    ensures
        r@ == joined(parts.deep_view(), sep@),
{
    let mut out: String = String::new();
    let mut i: usize = 0;
    let ghost texts = parts.deep_view();
    while i < parts.len()
        invariant
            i <= parts@.len(),
            texts == parts.deep_view(),
            out@ == joined(texts.take(i as int), sep@),
        decreases parts@.len() - i,
    {
        if i > 0 {
            out.append(sep);
        }
        out.append(&parts[i]);
        assert(texts.take(i + 1).drop_last() == texts.take(i as int));
        assert(out@ == joined(texts.take(i + 1), sep@));
        i = i + 1;
    }
    assert(texts.take(i as int) == texts);
    out
}

} // verus!

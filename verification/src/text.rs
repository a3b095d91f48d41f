//! Text as sequences of characters: searching, splitting, lower-casing,
//! decimal numbers and joining.
use vstd::prelude::*;

verus! {

/// `String::push` appends one character.
pub assume_specification[ String::push ](s: &mut String, c: char)
    ensures
        final(s)@ == old(s)@.push(c),
;

/// The text inside an optional string.
pub open spec fn opt_text(text: Option<String>) -> Option<Seq<char>> {
    match text {
        Some(t) => Some(t@),
        None => None,
    }
}

/// The texts of a list of strings.
pub open spec fn texts(list: Seq<String>) -> Seq<Seq<char>> {
    list.map_values(|s: String| s@)
}

/// The decimal digit `d`.
pub open spec fn digit_char(d: nat) -> char {
    (48 + d) as char
}

/// The decimal notation of `n`, without leading zeros.
pub open spec fn decimal(n: nat) -> Seq<char>
    decreases n,
{
    if n < 10 {
        seq![digit_char(n)]
    } else {
        decimal(n / 10).push(digit_char(n % 10))
    }
}

/// The decimal notation of `n`, with a leading minus sign for a negative number.
pub open spec fn signed_decimal(n: int) -> Seq<char> {
    if n < 0 {
        seq!['-'] + decimal((-n) as nat)
    } else {
        decimal(n as nat)
    }
}

/// The number that a sequence of decimal digits stands for.
pub open spec fn decimal_value(digits: Seq<char>) -> int
    decreases digits.len(),
{
    if digits.len() == 0 {
        0
    } else {
        10 * decimal_value(digits.drop_last()) + (digits.last() as int - 48)
    }
}

/// A number is read back from its decimal notation.
pub proof fn law_decimal_value(n: nat)
    ensures
        decimal_value(decimal(n)) == n,
    decreases n,
{
    reveal_with_fuel(decimal_value, 2);
    if n < 10 {
        assert(decimal(n).drop_last() =~= Seq::<char>::empty());
    } else {
        law_decimal_value(n / 10);
        assert(decimal(n).drop_last() =~= decimal(n / 10));
    }
}

/// Two different numbers have different decimal notations.
pub proof fn law_decimal_injective(a: nat, b: nat)
    ensures
        decimal(a) == decimal(b) ==> a == b,
{
    law_decimal_value(a);
    law_decimal_value(b);
}

/// A decimal is made of digits.
pub proof fn lemma_decimal_digits(n: nat)
    ensures
        forall|i: int| 0 <= i < decimal(n).len() ==> '0' <= #[trigger] decimal(n)[i] <= '9',
    decreases n,
{
    if n >= 10 {
        lemma_decimal_digits(n / 10);
        let head = decimal(n / 10);
        assert forall|i: int| 0 <= i < decimal(n).len() implies '0' <= #[trigger] decimal(n)[i]
            <= '9' by {
            if i < head.len() {
                assert(decimal(n)[i] == head[i]);
            }
        }
    }
}

/// `needle` occurs in `hay` at position `at`.
pub open spec fn occurs_at(hay: Seq<char>, needle: Seq<char>, at: int) -> bool {
    0 <= at <= hay.len() - needle.len() && hay.subrange(at, at + needle.len()) == needle
}

/// `needle` occurs somewhere in `hay`.
pub open spec fn contains(hay: Seq<char>, needle: Seq<char>) -> bool {
    exists|at: int| occurs_at(hay, needle, at)
}

/// `hay` begins with `prefix`.
pub open spec fn starts_with(hay: Seq<char>, prefix: Seq<char>) -> bool {
    occurs_at(hay, prefix, 0)
}

/// The lower-case form of an ASCII letter; every other character is itself.
pub open spec fn lower_char(c: char) -> char {
    if 'A' <= c <= 'Z' {
        (c as u32 + 32) as char
    } else {
        c
    }
}

/// The text with its ASCII letters in lower case.
pub open spec fn lower(text: Seq<char>) -> Seq<char> {
    text.map_values(|c: char| lower_char(c))
}

/// The part of `text` before the last `sep`, and the part after it.
pub open spec fn split_last(text: Seq<char>, sep: Seq<char>) -> Option<(Seq<char>, Seq<char>)> {
    if contains(text, sep) {
        let at = last_at(text, sep);
        Some((text.subrange(0, at), text.subrange(at + sep.len(), text.len() as int)))
    } else {
        None
    }
}

/// The position of the last occurrence of `sep`.
pub open spec fn last_at(text: Seq<char>, sep: Seq<char>) -> int {
    choose|at: int|
        occurs_at(text, sep, at) && forall|other: int|
            occurs_at(text, sep, other) ==> other <= at
}

/// A text that ends in a separator and a part without any of its characters is
/// split there.
pub proof fn law_split_last(head: Seq<char>, tail: Seq<char>)
    requires
        forall|i: int| 0 <= i < tail.len() ==> #[trigger] tail[i] != ':',
    ensures
        split_last(head + "::"@ + tail, "::"@) == Some((head, tail)),
{
    reveal_strlit("::");
    let text = head + "::"@ + tail;
    let at = head.len() as int;
    assert(text.subrange(at, at + 2) =~= "::"@);
    assert(occurs_at(text, "::"@, at));
    assert forall|other: int| occurs_at(text, "::"@, other) implies other <= at by {
        if other > at {
            assert(text.subrange(other, other + 2)[1] == text[other + 1]);
            assert(text[other + 1] == tail[other + 1 - at - 2]);
        }
    }
    assert(last_at(text, "::"@) == at);
    assert(text.subrange(0, at) =~= head);
    assert(text.subrange(at + 2, text.len() as int) =~= tail);
}

/// The characters of a text.
pub fn chars_of(s: &str) -> (v: Vec<char>)
    ensures
        v@ == s@,
{
    let mut v: Vec<char> = Vec::new();
    for c in it: s.chars()
        invariant
            v@ == s@.take(it.index() as int),
            it.seq() == s@,
    {
        v.push(c);
    }
    v
}

/// The characters from `from` to `to` as a text.
pub fn text_range(v: &Vec<char>, from: usize, to: usize) -> (s: String)
    requires
        from <= to <= v@.len(),
    ensures
        s@ == v@.subrange(from as int, to as int),
{
    let mut s = String::new();
    let mut i: usize = from;
    while i < to
        invariant
            from <= i <= to <= v@.len(),
            s@ == v@.subrange(from as int, i as int),
        decreases to - i,
    {
        s.push(v[i]);
        assert(v@.subrange(from as int, i + 1) =~= v@.subrange(from as int, i as int).push(v@[i as int]));
        i += 1;
    }
    s
}

/// Whether `needle` stands in `hay` at position `at`.
fn matches_at(hay: &Vec<char>, needle: &Vec<char>, at: usize) -> (found: bool)
    requires
        at + needle@.len() <= hay@.len(),
    ensures
        found == occurs_at(hay@, needle@, at as int),
{
    let total = hay.len();
    let mut k: usize = 0;
    while k < needle.len()
        invariant
            k <= needle@.len(),
            total == hay@.len(),
            at + needle@.len() <= total,
            forall|j: int| 0 <= j < k ==> hay@[at + j] == needle@[j],
        decreases needle@.len() - k,
    {
        if hay[at + k] != needle[k] {
            assert(hay@.subrange(at as int, at + needle@.len())[k as int] == hay@[at + k]);
            return false;
        }
        k += 1;
    }
    assert(hay@.subrange(at as int, at + needle@.len()) =~= needle@);
    true
}

/// Whether `needle` occurs somewhere in `hay`.
pub fn contains_text(hay: &str, needle: &str) -> (found: bool)
    ensures
        found == contains(hay@, needle@),
{
    let h = chars_of(hay);
    let n = chars_of(needle);
    if n.len() > h.len() {
        return false;
    }
    let last: usize = h.len() - n.len();
    let mut at: usize = 0;
    loop
        invariant
            h@ == hay@,
            n@ == needle@,
            n@.len() <= h@.len(),
            last == h@.len() - n@.len(),
            at <= last,
            forall|i: int| 0 <= i < at ==> !occurs_at(h@, n@, i),
        decreases last - at,
    {
        if matches_at(&h, &n, at) {
            return true;
        }
        if at == last {
            return false;
        }
        at += 1;
    }
}

/// Whether `text` begins with `prefix`.
pub fn starts_with_text(text: &str, prefix: &str) -> (found: bool)
    ensures
        found == starts_with(text@, prefix@),
{
    let t = chars_of(text);
    let p = chars_of(prefix);
    if p.len() > t.len() {
        return false;
    }
    matches_at(&t, &p, 0)
}

/// The text with its ASCII letters in lower case.
pub fn lower_text(text: &str) -> (res: String)
    ensures
        res@ == lower(text@),
{
    let v = chars_of(text);
    let mut res = String::new();
    for i in 0..v.len()
        invariant
            v@ == text@,
            res@ == lower(text@.take(i as int)),
    {
        let c = v[i];
        if 'A' <= c && c <= 'Z' {
            res.push(((c as u8) + 32) as char);
        } else {
            res.push(c);
        }
        assert(text@.take(i + 1) =~= text@.take(i as int).push(text@[i as int]));
        assert(res@ =~= lower(text@.take(i + 1)));
    }
    assert(text@.take(v@.len() as int) =~= text@);
    res
}

/// Splits `text` at the last `sep`.
pub fn split_last_text(text: &str, sep: &str) -> (res: Option<(String, String)>)
    ensures
        match res {
            Some((head, tail)) => split_last(text@, sep@) == Some((head@, tail@)),
            None => split_last(text@, sep@) is None,
        },
{
    let t = chars_of(text);
    let s = chars_of(sep);
    if s.len() > t.len() {
        return None;
    }
    let total = t.len();
    let mut at: usize = total - s.len();
    loop
        invariant
            t@ == text@,
            s@ == sep@,
            total == t@.len(),
            at + s@.len() <= total,
            forall|i: int| at < i ==> !occurs_at(t@, s@, i),
        decreases at,
    {
        if matches_at(&t, &s, at) {
            assert(occurs_at(text@, sep@, at as int));
            assert(forall|other: int| occurs_at(text@, sep@, other) ==> other <= at);
            let ghost chosen = last_at(text@, sep@);
            assert(occurs_at(text@, sep@, chosen) && at <= chosen);
            assert(chosen == at);
            return Some((text_range(&t, 0, at), text_range(&t, at + s.len(), total)));
        }
        if at == 0 {
            return None;
        }
        at -= 1;
    }
}

/// Whether two texts are the same.
pub fn same_text(a: &str, b: &str) -> (same: bool)
    ensures
        same == (a@ == b@),
{
    a.to_owned() == b.to_owned()
}

/// `a` followed by `b`.
pub fn join2(a: &str, b: &str) -> (res: String)
    ensures
        res@ == a@ + b@,
{
    let mut res = a.to_owned();
    res.append(b);
    res
}

/// `a` followed by `b` and `c`.
pub fn join3(a: &str, b: &str, c: &str) -> (res: String)
    ensures
        res@ == a@ + b@ + c@,
{
    let mut res = join2(a, b);
    res.append(c);
    res
}

/// `a` followed by `b`, `c` and `d`.
pub fn join4(a: &str, b: &str, c: &str, d: &str) -> (res: String)
    ensures
        res@ == a@ + b@ + c@ + d@,
{
    let mut res = join3(a, b, c);
    res.append(d);
    res
}

/// The decimal notation of an unsigned number.
pub fn decimal_text(n: u128) -> (res: String)
    ensures
        res@ == decimal(n as nat),
    decreases n,
{
    let mut res = if n < 10 {
        String::new()
    } else {
        decimal_text(n / 10)
    };
    let d: u8 = (n % 10) as u8;
    res.push((48 + d) as char);
    res
}

/// The decimal notation of a signed number.
pub fn signed_decimal_text(n: i128) -> (res: String)
    ensures
        res@ == signed_decimal(n as int),
{
    if n >= 0 {
        decimal_text(n as u128)
    } else {
        // The magnitude of the least number has no signed counterpart.
        let magnitude: u128 = (-(n + 1)) as u128 + 1;
        let digits = decimal_text(magnitude);
        let mut res = String::new();
        res.push('-');
        res.append(digits.as_str());
        assert(res@ =~= seq!['-'] + decimal((-n) as nat));
        res
    }
}

/// A copy of a text held by reference.
pub fn copy_opt(text: &Option<String>) -> (res: Option<String>)
    ensures
        opt_text(res) == opt_text(*text),
{
    match text {
        Some(t) => Some(t.clone()),
        None => None,
    }
}

/// Where a place in a text stands towards its double quotes.
#[derive(Clone, Copy, PartialEq, Eq, Structural)]
pub enum Quoting {
    /// Outside of them.
    Outside,
    /// Between two of them.
    Inside,
    /// Between two of them, behind a backslash, which makes the next character
    /// an ordinary one.
    Escaped,
}

/// Where the end of a text stands towards its double quotes.
pub open spec fn quoting(text: Seq<char>) -> Quoting
    decreases text.len(),
{
    if text.len() == 0 {
        Quoting::Outside
    } else {
        match quoting(text.drop_last()) {
            Quoting::Outside => if text.last() == '"' {
                Quoting::Inside
            } else {
                Quoting::Outside
            },
            Quoting::Inside => if text.last() == '"' {
                Quoting::Outside
            } else if text.last() == '\\' {
                Quoting::Escaped
            } else {
                Quoting::Inside
            },
            Quoting::Escaped => Quoting::Inside,
        }
    }
}

/// The parts of `text` between the separators that stand outside of double
/// quotes; one more than there are of those.
pub open spec fn split_on(text: Seq<char>, sep: char) -> Seq<Seq<char>>
    decreases text.len(),
{
    if text.len() == 0 {
        seq![Seq::empty()]
    } else {
        let parts = split_on(text.drop_last(), sep);
        if text.last() == sep && quoting(text.drop_last()) is Outside {
            parts.push(Seq::empty())
        } else {
            parts.drop_last().push(parts.last().push(text.last()))
        }
    }
}

/// There is always a part.
pub proof fn lemma_split_on_some(text: Seq<char>, sep: char)
    ensures
        split_on(text, sep).len() >= 1,
    decreases text.len(),
{
    if text.len() > 0 {
        lemma_split_on_some(text.drop_last(), sep);
    }
}

/// A text without separators is its only part.
pub proof fn lemma_split_on_one(text: Seq<char>, sep: char)
    requires
        forall|i: int| 0 <= i < text.len() ==> #[trigger] text[i] != sep,
    ensures
        split_on(text, sep) == seq![text],
    decreases text.len(),
{
    if text.len() > 0 {
        let rest = text.drop_last();
        assert forall|i: int| 0 <= i < rest.len() implies #[trigger] rest[i] != sep by {
            assert(text[i] != sep);
        }
        lemma_split_on_one(rest, sep);
        assert(text[text.len() - 1] != sep);
        assert(rest.push(text.last()) =~= text);
        assert(split_on(text, sep) =~= seq![text]);
    } else {
        assert(text =~= Seq::empty());
    }
}

/// The parts of `text` between the separators that stand outside of double
/// quotes.
pub fn split_text(text: &str, sep: char) -> (parts: Vec<String>)
    ensures
        texts(parts@) == split_on(text@, sep),
{
    let v = chars_of(text);
    let mut parts: Vec<String> = Vec::new();
    let mut cur = String::new();
    let mut place = Quoting::Outside;
    assert(texts(parts@).push(cur@) =~= split_on(text@.take(0), sep));
    for i in 0..v.len()
        invariant
            v@ == text@,
            texts(parts@).push(cur@) == split_on(text@.take(i as int), sep),
            place == quoting(text@.take(i as int)),
    {
        let ghost before = texts(parts@);
        let ghost open = cur@;
        assert(text@.take(i + 1).drop_last() =~= text@.take(i as int));
        assert(before.push(open).drop_last() =~= before);
        let c = v[i];
        let splits = match place {
            Quoting::Outside => c == sep,
            _ => false,
        };
        if splits {
            parts.push(cur);
            assert(texts(parts@) =~= before.push(open));
            cur = String::new();
        } else {
            cur.push(c);
        }
        place = match place {
            Quoting::Outside => if c == '"' {
                Quoting::Inside
            } else {
                Quoting::Outside
            },
            Quoting::Inside => if c == '"' {
                Quoting::Outside
            } else if c == '\\' {
                Quoting::Escaped
            } else {
                Quoting::Inside
            },
            Quoting::Escaped => Quoting::Inside,
        };
        assert(texts(parts@).push(cur@) =~= split_on(text@.take(i + 1), sep));
    }
    assert(text@.take(v@.len() as int) =~= text@);
    let ghost before = texts(parts@);
    let ghost open = cur@;
    parts.push(cur);
    assert(texts(parts@) =~= before.push(open));
    parts
}

/// Whether a character is a space or a tab.
pub open spec fn is_blank(c: char) -> bool {
    c == ' ' || c == '\t'
}

/// The text without the spaces and tabs at its beginning and at its end.
pub open spec fn trimmed(text: Seq<char>) -> Seq<char>
    decreases text.len(),
{
    if text.len() == 0 {
        text
    } else if is_blank(text[0]) {
        trimmed(text.drop_first())
    } else if is_blank(text.last()) {
        trimmed(text.drop_last())
    } else {
        text
    }
}

/// The text without the spaces and tabs at its beginning and at its end.
pub fn trim_text(text: &str) -> (res: String)
    ensures
        res@ == trimmed(text@),
{
    let v = chars_of(text);
    let mut from: usize = 0;
    let mut to: usize = v.len();
    assert(text@.subrange(0, to as int) =~= text@);
    while from < to && (v[from] == ' ' || v[from] == '\t')
        invariant
            v@ == text@,
            from <= to <= v@.len(),
            trimmed(text@.subrange(from as int, to as int)) == trimmed(text@),
        decreases to - from,
    {
        proof {
            let rest = text@.subrange(from as int, to as int);
            assert(rest[0] == text@[from as int]);
            assert(rest.drop_first() =~= text@.subrange(from + 1, to as int));
        }
        from += 1;
    }
    while from < to && (v[to - 1] == ' ' || v[to - 1] == '\t')
        invariant
            v@ == text@,
            from <= to <= v@.len(),
            from < to ==> !is_blank(text@[from as int]),
            trimmed(text@.subrange(from as int, to as int)) == trimmed(text@),
        decreases to - from,
    {
        proof {
            let rest = text@.subrange(from as int, to as int);
            assert(rest[0] == text@[from as int]);
            assert(rest.last() == text@[to - 1]);
            assert(rest.drop_last() =~= text@.subrange(from as int, to - 1));
        }
        to -= 1;
    }
    proof {
        let rest = text@.subrange(from as int, to as int);
        if from < to {
            assert(rest[0] == text@[from as int]);
            assert(rest.last() == text@[to - 1]);
        }
        assert(trimmed(rest) == rest);
    }
    text_range(&v, from, to)
}

/// Trimming takes nothing but blanks: what is left stands in the text, and
/// every other character of the text is one.
pub proof fn lemma_trimmed(text: Seq<char>)
    ensures
        contains(text, trimmed(text)),
        forall|i: int|
            0 <= i < text.len() ==> is_blank(#[trigger] text[i]) || trimmed(text).contains(text[i]),
    decreases text.len(),
{
    if text.len() > 0 && is_blank(text[0]) {
        let rest = text.drop_first();
        lemma_trimmed(rest);
        assert(rest =~= text.subrange(1, text.len() as int));
        lemma_contains_wider(text, 1, text.len() as int, trimmed(text));
        assert forall|i: int| 0 <= i < text.len() implies is_blank(#[trigger] text[i]) || trimmed(
            text,
        ).contains(text[i]) by {
            if i > 0 {
                assert(rest[i - 1] == text[i]);
            }
        }
    } else if text.len() > 0 && is_blank(text.last()) {
        let rest = text.drop_last();
        lemma_trimmed(rest);
        assert(rest =~= text.subrange(0, text.len() - 1));
        lemma_contains_wider(text, 0, text.len() - 1, trimmed(text));
        assert forall|i: int| 0 <= i < text.len() implies is_blank(#[trigger] text[i]) || trimmed(
            text,
        ).contains(text[i]) by {
            if i < text.len() - 1 {
                assert(rest[i] == text[i]);
            }
        }
    } else {
        assert(text.subrange(0, text.len() as int) =~= text);
        assert(occurs_at(text, text, 0));
    }
}

/// The last part is what follows the last separator outside of quotes.
proof fn lemma_last_part(text: Seq<char>, sep: char)
    ensures
        ({
            let last = split_on(text, sep).last();
            let from = text.len() - last.len();
            &&& 0 <= from
            &&& last == text.skip(from)
            &&& from > 0 ==> text[from - 1] == sep
        }),
    decreases text.len(),
{
    if text.len() > 0 {
        lemma_last_part(text.drop_last(), sep);
        lemma_split_on_some(text.drop_last(), sep);
        let last = split_on(text, sep).last();
        assert(last =~= text.skip(text.len() - last.len()));
    } else {
        assert(split_on(text, sep).last() =~= text.skip(0));
    }
}

/// What occurs in a part of a text occurs in the text.
proof fn lemma_contains_wider(text: Seq<char>, from: int, to: int, needle: Seq<char>)
    requires
        0 <= from <= to <= text.len(),
        contains(text.subrange(from, to), needle),
    ensures
        contains(text, needle),
{
    let part = text.subrange(from, to);
    let at = choose|at: int| occurs_at(part, needle, at);
    assert(text.subrange(from + at, from + at + needle.len()) =~= part.subrange(
        at,
        at + needle.len(),
    ));
    assert(occurs_at(text, needle, from + at));
}

/// A text without the separator occurs in a whole exactly where it occurs in one
/// of its parts.
pub proof fn law_contains_by_parts(text: Seq<char>, sep: char, needle: Seq<char>)
    requires
        needle.len() > 0,
        forall|i: int| 0 <= i < needle.len() ==> #[trigger] needle[i] != sep,
    ensures
        contains(text, needle) <==> exists|k: int|
            0 <= k < split_on(text, sep).len() && contains(
                #[trigger] split_on(text, sep)[k],
                needle,
            ),
    decreases text.len(),
{
    let parts = split_on(text, sep);
    lemma_split_on_some(text, sep);
    if text.len() == 0 {
        assert(!contains(text, needle));
        assert(!contains(parts[0], needle)) by {
            assert(parts[0] =~= text);
        }
    } else {
        let rest = text.drop_last();
        let before = split_on(rest, sep);
        law_contains_by_parts(rest, sep, needle);
        lemma_split_on_some(rest, sep);
        lemma_last_part(text, sep);
        let last = parts.last();
        let from = text.len() - last.len();
        assert(last =~= text.subrange(from, text.len() as int));
        if contains(text, needle) {
            let at = choose|at: int| occurs_at(text, needle, at);
            if at + needle.len() < text.len() {
                assert(rest.subrange(at, at + needle.len()) =~= text.subrange(
                    at,
                    at + needle.len(),
                ));
                assert(occurs_at(rest, needle, at));
                let k = choose|k: int| 0 <= k < before.len() && contains(#[trigger] before[k], needle);
                if k == before.len() - 1 && parts.len() == before.len() {
                    let grown = before.last().push(text.last());
                    assert(grown.subrange(0, before.last().len() as int) =~= before.last());
                    lemma_contains_wider(grown, 0, before.last().len() as int, needle);
                    assert(parts[k] == grown);
                } else {
                    assert(parts[k] == before[k]);
                }
            } else {
                if at < from {
                    assert(text.subrange(at, at + needle.len())[from - 1 - at] == text[from - 1]);
                    assert(needle[from - 1 - at] != sep);
                }
                assert(last.subrange(at - from, at - from + needle.len()) =~= text.subrange(
                    at,
                    at + needle.len(),
                ));
                assert(occurs_at(last, needle, at - from));
                assert(contains(parts[parts.len() - 1], needle));
            }
        }
        if exists|k: int| 0 <= k < parts.len() && contains(#[trigger] parts[k], needle) {
            let k = choose|k: int| 0 <= k < parts.len() && contains(#[trigger] parts[k], needle);
            if k == parts.len() - 1 {
                lemma_contains_wider(text, from, text.len() as int, needle);
            } else {
                assert(parts[k] == before[k]);
                assert(contains(rest, needle));
                assert(rest =~= text.subrange(0, text.len() - 1));
                lemma_contains_wider(text, 0, text.len() - 1, needle);
            }
        }
    }
}

} // verus!

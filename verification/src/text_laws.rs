//! What the notations of the node mean: numbers, cases, parts, digits and bytes.
use crate::address::{address_of, format_module_id, hex_literal, law_literal_round_trip,
    law_long_form_round_trip, padded, short_digits, trim_zeros, AccountAddress, ModuleId};
use crate::encoding::{hex_bytes, hex_text, hex_value, is_hex_byte, is_hex_char, law_hex_round_trip,
    little_endian, percent_decoded, uleb128};
use crate::json::{text_field, Json, JsonView};
use crate::names::{is_identifier, is_name_char};
use crate::text::{chars_of, contains, contains_text, copy_opt, decimal, decimal_text, decimal_value,
    is_blank, join2, join3, join4, last_at, law_decimal_value, lemma_decimal_digits,
    lemma_split_on_some, lemma_trimmed, lower, lower_char, lower_text, occurs_at, quoting,
    same_text, signed_decimal, signed_decimal_text, split_last, split_last_text, split_on,
    split_text, starts_with, starts_with_text, text_range, texts, trim_text, trimmed};
use crate::transaction::SignedTransaction;
use vstd::prelude::*;

verus! {

/// A decimal has the digits that the number has: ten times as much and a digit
/// more is written with that digit behind it, and a single digit stands alone.
pub proof fn law_decimal_digit_by_digit(n: nat, d: nat)
    requires
        d < 10,
    ensures
        n > 0 ==> decimal(10 * n + d) == decimal(n).push(decimal(d)[0]),
        decimal(d).len() == 1,
        decimal(d)[0] as int == '0' as int + d,
{
    assert((10 * n + d) / 10 == n);
    assert((10 * n + d) % 10 == d);
}

/// A negative number is written as a minus sign and its opposite; any other as
/// its decimal.
pub proof fn law_signed_decimal(n: nat)
    ensures
        signed_decimal(n as int) == decimal(n),
        n > 0 ==> signed_decimal(-(n as int)) == seq!['-'] + decimal(n),
{
}

/// Lower case changes the capital ASCII letters, each to the small one of the
/// same place in the alphabet, and nothing else; doing it again changes nothing.
pub proof fn law_lower_case(text: Seq<char>, at: int)
    requires
        0 <= at < text.len(),
    ensures
        lower(text).len() == text.len(),
        'A' <= text[at] <= 'Z' ==> lower(text)[at] as int - 'a' as int == text[at] as int
            - 'A' as int,
        !('A' <= text[at] <= 'Z') ==> lower(text)[at] == text[at],
        lower(lower(text)) == lower(text),
{
    assert forall|i: int| 0 <= i < text.len() implies lower(lower(text))[i] == lower(text)[i] by {
        let c = text[i];
        if 'A' <= c <= 'Z' {
            assert(lower_char(c) as int == c as int + 32);
        }
    }
    assert(lower(lower(text)) =~= lower(text));
    let c = text[at];
    if 'A' <= c <= 'Z' {
        assert(lower_char(c) as int == c as int + 32);
    }
}

/// A text occurs in another exactly where the other is made of something, it, and
/// something more.
pub proof fn law_contains(before: Seq<char>, needle: Seq<char>, after: Seq<char>, hay: Seq<char>)
    ensures
        contains(before + needle + after, needle),
        starts_with(needle + after, needle),
        contains(hay, needle) ==> exists|at: int|
            0 <= at <= hay.len() - needle.len() && #[trigger] hay.take(at) + needle + hay.skip(
                at + needle.len(),
            ) == hay,
{
    let made = before + needle + after;
    let from = before.len() as int;
    assert(made.subrange(from, from + needle.len()) =~= needle);
    assert(occurs_at(made, needle, from));
    assert((needle + after).subrange(0, needle.len() as int) =~= needle);
    if contains(hay, needle) {
        let at = choose|at: int| occurs_at(hay, needle, at);
        assert(hay.take(at) + hay.subrange(at, at + needle.len()) + hay.skip(at + needle.len())
            =~= hay);
    }
}

/// There is a last occurrence at or before `to`, where there is one.
proof fn lemma_last_occurrence(text: Seq<char>, sep: Seq<char>, to: int)
    requires
        exists|at: int| occurs_at(text, sep, at),
        forall|at: int| occurs_at(text, sep, at) ==> at <= to,
        to >= 0,
    ensures
        exists|at: int|
            #[trigger] occurs_at(text, sep, at) && forall|other: int|
                occurs_at(text, sep, other) ==> other <= at,
    decreases to,
{
    if !occurs_at(text, sep, to) {
        let at = choose|at: int| occurs_at(text, sep, at);
        assert(at < to);
        lemma_last_occurrence(text, sep, to - 1);
    }
}

/// A text is split at a separator exactly where it has one. Its two parts and the
/// separator make the text again, and the second part has no separator.
pub proof fn law_split_last_rejoins(text: Seq<char>, sep: Seq<char>)
    requires
        sep.len() > 0,
    ensures
        split_last(text, sep) is Some <==> contains(text, sep),
        split_last(text, sep) is Some ==> {
            let (head, tail) = split_last(text, sep)->0;
            &&& text == head + sep + tail
            &&& !contains(tail, sep)
        },
{
    if contains(text, sep) {
        lemma_last_occurrence(text, sep, text.len() as int);
        let at = last_at(text, sep);
        assert(occurs_at(text, sep, at));
        let (head, tail) = split_last(text, sep)->0;
        assert(text =~= head + text.subrange(at, at + sep.len()) + tail);
        if contains(tail, sep) {
            let p = choose|p: int| occurs_at(tail, sep, p);
            let q = at + sep.len() + p;
            assert(text.subrange(q, q + sep.len()) =~= tail.subrange(p, p + sep.len()));
            assert(occurs_at(text, sep, q));
        }
    }
}

/// A text without double quotes is outside of them at its end; so is one in
/// quotes that has none inside.
pub proof fn law_no_quotes(text: Seq<char>)
    requires
        forall|i: int| 0 <= i < text.len() ==> #[trigger] text[i] != '"',
    ensures
        quoting(text) is Outside,
    decreases text.len(),
{
    if text.len() > 0 {
        let rest = text.drop_last();
        assert forall|i: int| 0 <= i < rest.len() implies #[trigger] rest[i] != '"' by {
            assert(text[i] != '"');
        }
        law_no_quotes(rest);
        assert(text[text.len() - 1] != '"');
    }
}

/// What stands in double quotes, without quotes or backslashes of its own, is not
/// split, whatever separators are in it.
pub proof fn law_quoted_is_whole(text: Seq<char>, sep: char)
    requires
        sep != '"',
        forall|i: int| 0 <= i < text.len() ==> #[trigger] text[i] != '"' && text[i] != '\\',
    ensures
        split_on(seq!['"'] + text, sep) == seq![seq!['"'] + text],
        quoting(seq!['"'] + text) is Inside,
        split_on(seq!['"'] + text + seq!['"'], sep) == seq![seq!['"'] + text + seq!['"']],
        quoting(seq!['"'] + text + seq!['"']) is Outside,
    decreases text.len(),
{
    let open = seq!['"'] + text;
    if text.len() == 0 {
        assert(open =~= seq!['"']);
        assert(open.drop_last() =~= Seq::empty());
        assert(split_on(Seq::<char>::empty(), sep) =~= seq![Seq::<char>::empty()]);
        assert(Seq::<char>::empty().push('"') =~= open);
        assert(split_on(open, sep) =~= seq![open]);
    } else {
        let rest = text.drop_last();
        assert forall|i: int| 0 <= i < rest.len() implies #[trigger] rest[i] != '"' && rest[i]
            != '\\' by {
            assert(text[i] != '"' && text[i] != '\\');
        }
        law_quoted_is_whole(rest, sep);
        assert(open.drop_last() =~= seq!['"'] + rest);
        assert(open.last() == text.last());
        assert(text[text.len() - 1] != '"' && text[text.len() - 1] != '\\');
        assert((seq!['"'] + rest).push(text.last()) =~= open);
        assert(split_on(open, sep) =~= seq![open]);
    }
    let all = open + seq!['"'];
    assert(all.drop_last() =~= open);
    assert(open.push('"') =~= all);
    assert(split_on(all, sep) =~= seq![all]);
}

/// A separator outside of quotes parts a text: the parts are those before it and
/// those behind it.
pub proof fn law_split_at_separator(a: Seq<char>, sep: char, b: Seq<char>)
    requires
        sep != '"',
        quoting(a) is Outside,
    ensures
        split_on(a + seq![sep] + b, sep) == split_on(a, sep) + split_on(b, sep),
        quoting(a + seq![sep] + b) == quoting(b),
    decreases b.len(),
{
    let text = a + seq![sep] + b;
    if b.len() == 0 {
        assert(text.drop_last() =~= a);
        assert(split_on(b, sep) =~= seq![Seq::<char>::empty()]);
        assert(split_on(a, sep).push(Seq::empty()) =~= split_on(a, sep) + seq![
            Seq::<char>::empty(),
        ]);
    } else {
        let rest = b.drop_last();
        law_split_at_separator(a, sep, rest);
        assert(text.drop_last() =~= a + seq![sep] + rest);
        assert(text.last() == b.last());
        lemma_split_on_some(rest, sep);
        let before = split_on(a, sep) + split_on(rest, sep);
        assert(before.last() == split_on(rest, sep).last());
        assert(before.drop_last() =~= split_on(a, sep) + split_on(rest, sep).drop_last());
        assert(split_on(text, sep) =~= split_on(a, sep) + split_on(b, sep));
    }
}

/// What is trimmed neither begins nor ends with a blank; blanks around a text do
/// not matter; and a text without them stays as it is.
pub proof fn law_trimmed(text: Seq<char>, blank: char)
    requires
        blank == ' ' || blank == '\u{9}',
    ensures
        trimmed(text).len() > 0 ==> !is_blank(trimmed(text)[0]) && !is_blank(trimmed(text).last()),
        trimmed(seq![blank] + text) == trimmed(text),
        trimmed(text + seq![blank]) == trimmed(text),
        text.len() == 0 || !is_blank(text[0]) && !is_blank(text.last()) ==> trimmed(text) == text,
    decreases text.len(),
{
    let front = seq![blank] + text;
    assert(front.drop_first() =~= text);
    let back = text + seq![blank];
    assert(back.drop_last() =~= text);
    if text.len() == 0 {
        assert(back =~= seq![blank]);
        assert(back.drop_first() =~= text);
    } else if is_blank(text[0]) {
        law_trimmed(text.drop_first(), blank);
        assert(back.drop_first() =~= text.drop_first() + seq![blank]);
    } else if is_blank(text.last()) {
        law_trimmed(text.drop_last(), blank);
    }
}

/// The hexadecimal text of some bytes is that of each, one behind the other: two
/// digits, small letters, that make the byte.
pub proof fn law_hex_text_by_bytes(a: Seq<u8>, b: u8)
    ensures
        hex_text(a.push(b)).len() == hex_text(a).len() + 2,
        hex_text(a.push(b)).take(2 * a.len() as int) == hex_text(a),
        ({
            let high = hex_text(a.push(b))[2 * a.len() as int];
            let low = hex_text(a.push(b))[2 * a.len() as int + 1];
            &&& '0' <= high <= '9' || 'a' <= high <= 'f'
            &&& '0' <= low <= '9' || 'a' <= low <= 'f'
            &&& b == 16 * (if high <= '9' {
                high as int - '0' as int
            } else {
                high as int - 'a' as int + 10
            }) + (if low <= '9' {
                low as int - '0' as int
            } else {
                low as int - 'a' as int + 10
            })
        }),
{
    let n = a.len() as int;
    assert((2 * n) / 2 == n && (2 * n) % 2 == 0);
    assert((2 * n + 1) / 2 == n && (2 * n + 1) % 2 == 1);
    let all = hex_text(a.push(b));
    assert forall|i: int| 0 <= i < 2 * n implies all[i] == hex_text(a)[i] by {
        assert(i / 2 < n);
    }
    assert(all.take(2 * n) =~= hex_text(a));
}

/// The eight bytes of a 64-bit number, the lowest first, make the number.
pub proof fn law_eight_bytes(n: nat)
    requires
        n <= u64::MAX,
    ensures
        ({
            let b = little_endian(n, 8);
            &&& b.len() == 8
            &&& n == b[0] + 0x100 * b[1] + 0x1_0000 * b[2] + 0x100_0000 * b[3] + 0x1_0000_0000
                * b[4] + 0x100_0000_0000 * b[5] + 0x1_0000_0000_0000 * b[6] + 0x100_0000_0000_0000
                * b[7]
        }),
{
    reveal_with_fuel(little_endian, 9);
    let n1 = n / 256;
    let n2 = n1 / 256;
    let n3 = n2 / 256;
    let n4 = n3 / 256;
    let n5 = n4 / 256;
    let n6 = n5 / 256;
    let n7 = n6 / 256;
    let b = little_endian(n, 8);
    assert(b =~= seq![
        (n % 256) as u8,
        (n1 % 256) as u8,
        (n2 % 256) as u8,
        (n3 % 256) as u8,
        (n4 % 256) as u8,
        (n5 % 256) as u8,
        (n6 % 256) as u8,
        (n7 % 256) as u8,
    ]);
    assert(n7 < 256);
}

/// The bytes of a count: one below a hundred and twenty-eight; else a byte with
/// the top bit, which holds the lowest seven bits, and the bytes of the rest.
pub proof fn law_count_bytes(n: nat)
    ensures
        uleb128(n).len() >= 1,
        n < 128 <==> uleb128(n).len() == 1,
        n < 128 ==> uleb128(n)[0] == n,
        n >= 128 ==> uleb128(n)[0] >= 128 && uleb128(n).skip(1) == uleb128(n / 128) && n == (
        uleb128(n)[0] - 128) + 128 * (n / 128),
    decreases n,
{
    if n >= 128 {
        law_count_bytes(n / 128);
        assert(uleb128(n).skip(1) =~= uleb128(n / 128));
    }
}

/// A byte that is no percent sign stands for itself, and a percent sign with two
/// hexadecimal digits, of either case, for the byte that they make.
pub proof fn law_percent_decoding(byte: u8, high: u8, low: u8, rest: Seq<u8>)
    ensures
        byte != 37 ==> percent_decoded(seq![byte] + rest) == seq![byte] + percent_decoded(rest),
        is_hex_byte(high) && is_hex_byte(low) && byte == 16 * hex_value(high as char) + hex_value(
            low as char,
        ) ==> percent_decoded(seq![37u8, high, low] + rest) == seq![byte] + percent_decoded(rest),
        percent_decoded(Seq::empty()) == Seq::<u8>::empty(),
{
    assert((seq![byte] + rest).skip(1) =~= rest);
    assert((seq![37u8, high, low] + rest).skip(3) =~= rest);
}

/// A percent sign without two hexadecimal digits behind it stands for itself.
pub proof fn law_lone_percent(bytes: Seq<u8>)
    requires
        bytes.len() > 0,
        bytes[0] == 37,
        bytes.len() < 3 || !is_hex_byte(bytes[1]) || !is_hex_byte(bytes[2]),
    ensures
        percent_decoded(bytes) == seq![37u8] + percent_decoded(bytes.skip(1)),
{
}

/// A hexadecimal digit means the same in either case.
pub proof fn law_hex_digits(c: char)
    ensures
        is_hex_char(c) <==> '0' <= c <= '9' || 'a' <= c <= 'f' || 'A' <= c <= 'F',
        '0' <= c <= '9' ==> hex_value(c) == c as int - '0' as int,
        'a' <= c <= 'f' ==> hex_value(c) == c as int - 'a' as int + 10,
        'A' <= c <= 'F' ==> hex_value(c) == c as int - 'A' as int + 10,
{
}

/// Zeros in front of the digits of an address do not matter, as long as there are
/// no more than sixty-four digits.
pub proof fn law_address_ignores_zeros(digits: Seq<char>)
    requires
        digits.len() < 64,
    ensures
        address_of("0x0"@ + digits) == address_of("0x"@ + digits),
{
    reveal_strlit("0x");
    reveal_strlit("0x0");
    let short = "0x"@ + digits;
    let long = "0x0"@ + digits;
    assert(short.skip(2) =~= digits);
    assert(long.skip(2) =~= seq!['0'] + digits);
    assert(padded(long.skip(2)) =~= padded(short.skip(2)));
    assert(short.subrange(0, 2) =~= "0x"@);
    assert(long.subrange(0, 2) =~= "0x"@);
    assert(short[1] == 'x' && long[1] == 'x');
}

/// A text is no address where it is too long, where it has neither the prefix nor
/// sixty-four digits, or where a character behind the prefix is no digit.
pub proof fn law_not_an_address(text: Seq<char>, at: int)
    ensures
        text.len() > 66 ==> address_of(text) is None,
        !starts_with(text, "0x"@) && text.len() != 64 ==> address_of(text) is None,
        2 <= at < text.len() && !is_hex_char(text[at]) ==> address_of(text) is None,
        !starts_with(text, "0x"@) && 0 <= at < text.len() && !is_hex_char(text[at]) ==> address_of(
            text,
        ) is None,
{
    reveal_strlit("0x");
    if starts_with(text, "0x"@) {
        let digits = text.skip(2);
        assert(text.subrange(0, 2)[1] == text[1]);
        assert(text[1] == 'x');
        if 2 <= at < text.len() && !is_hex_char(text[at]) {
            let p = padded(digits);
            let shift = p.len() - digits.len();
            assert(p[shift + at - 2] == text[at]);
        }
    }
}

/// The bytes of an address are those that its digits make: sixty-four of them, or
/// fewer behind the prefix with zeros in front.
pub proof fn law_address_has_its_digits(digits: Seq<char>)
    requires
        digits.len() == 64,
        forall|i: int| 0 <= i < 64 ==> is_hex_char(#[trigger] digits[i]),
    ensures
        address_of(digits) is Some,
        address_of("0x"@ + digits) == address_of(digits),
        address_of(digits)->0.len() == 32,
        forall|i: int|
            0 <= i < 32 ==> (#[trigger] address_of(digits)->0[i]) == 16 * hex_value(digits[2 * i])
                + hex_value(digits[2 * i + 1]),
{
    reveal_strlit("0x");
    let prefixed = "0x"@ + digits;
    assert(prefixed.skip(2) =~= digits);
    assert(padded(digits) =~= digits);
    assert(prefixed.subrange(0, 2) =~= "0x"@);
    if starts_with(digits, "0x"@) {
        assert(digits.subrange(0, 2)[1] == digits[1]);
        assert(is_hex_char(digits[1]));
    }
    assert forall|i: int| 0 <= i < 32 implies (#[trigger] address_of(digits)->0[i]) == 16
        * hex_value(digits[2 * i]) + hex_value(digits[2 * i + 1]) by {
        assert(is_hex_char(digits[2 * i]) && is_hex_char(digits[2 * i + 1]));
    }
}

/// The short literal of an address has no zero in front, but for the address
/// zero.
pub proof fn law_literal_is_short(address: Seq<u8>)
    requires
        address.len() == 32,
    ensures
        hex_literal(address).len() >= 3,
        hex_literal(address).take(2) == "0x"@,
        hex_literal(address)[2] == '0' ==> hex_literal(address) == "0x0"@,
        hex_literal(address).len() <= 66,
        hex_literal(address).skip(2) == hex_text(address).skip(66 - hex_literal(address).len()),
{
    reveal_strlit("0x");
    reveal_strlit("0x0");
    reveal_strlit("0");
    lemma_trim(hex_text(address));
    lemma_trimmed_length(hex_text(address));
    let digits = short_digits(hex_text(address));
    assert(hex_literal(address).take(2) =~= "0x"@);
    assert(hex_literal(address)[2] == digits[0]);
    if digits[0] == '0' {
        assert(hex_literal(address) =~= "0x0"@);
    }
    assert(hex_literal(address).skip(2) =~= digits);
    assert(hex_text(address).skip(64 - digits.len()) =~= digits);
}

/// What is left without leading zeros has none in front, and stands at the end.
/// Where nothing is left, the text ends with a zero.
proof fn lemma_trim(text: Seq<char>)
    ensures
        trim_zeros(text).len() > 0 ==> trim_zeros(text)[0] != '0',
        trim_zeros(text).len() <= text.len(),
        text.skip(text.len() - trim_zeros(text).len()) == trim_zeros(text),
        trim_zeros(text).len() == 0 && text.len() > 0 ==> text.last() == '0',
    decreases text.len(),
{
    if text.len() > 0 && text[0] == '0' {
        let rest = text.drop_first();
        lemma_trim(rest);
        let left = trim_zeros(text);
        assert(text.skip(text.len() - left.len()) =~= rest.skip(rest.len() - left.len()));
    } else {
        assert(text.skip(0) =~= text);
    }
}

/// Some parts with a separator between them.
pub open spec fn joined(parts: Seq<Seq<char>>, sep: char) -> Seq<char>
    decreases parts.len(),
{
    if parts.len() == 0 {
        Seq::empty()
    } else if parts.len() == 1 {
        parts[0]
    } else {
        joined(parts.drop_last(), sep) + seq![sep] + parts.last()
    }
}

/// The parts of a text, with the separator between them, make the text again;
/// and without double quotes none of them has a separator.
pub proof fn law_parts_rejoin(text: Seq<char>, sep: char)
    ensures
        joined(split_on(text, sep), sep) == text,
        (forall|i: int| 0 <= i < text.len() ==> #[trigger] text[i] != '"') ==> forall|k: int|
            0 <= k < split_on(text, sep).len() ==> !(#[trigger] split_on(text, sep)[k]).contains(sep),
    decreases text.len(),
{
    let parts = split_on(text, sep);
    if text.len() == 0 {
        assert(joined(parts, sep) =~= text);
    } else {
        let rest = text.drop_last();
        let before = split_on(rest, sep);
        law_parts_rejoin(rest, sep);
        lemma_split_on_some(rest, sep);
        if text.last() == sep && quoting(rest) is Outside {
            assert(parts.drop_last() =~= before);
            assert(joined(parts, sep) =~= rest.push(sep));
        } else {
            assert(parts.drop_last() =~= before.drop_last());
            if before.len() == 1 {
                assert(joined(before, sep) == before[0]);
            }
            assert(joined(parts, sep) =~= rest.push(text.last()));
        }
        assert(rest.push(text.last()) =~= text);
        if forall|i: int| 0 <= i < text.len() ==> #[trigger] text[i] != '"' {
            assert forall|i: int| 0 <= i < rest.len() implies #[trigger] rest[i] != '"' by {
                assert(text[i] != '"');
            }
            law_no_quotes(rest);
            assert forall|k: int| 0 <= k < parts.len() implies !(#[trigger] parts[k]).contains(
                sep,
            ) by {
                if k < before.len() {
                    assert(!before[k].contains(sep));
                }
            }
        }
    }
}

/// A quote outside of quotes begins them; inside, it ends them, and a backslash
/// makes the next character an ordinary one. Every other character leaves things
/// as they are.
pub proof fn law_quotes(text: Seq<char>, c: char)
    ensures
        quoting(Seq::<char>::empty()) is Outside,
        quoting(text) is Outside ==> (quoting(text.push(c)) is Inside <==> c == '"'),
        quoting(text) is Outside ==> (quoting(text.push(c)) is Outside <==> c != '"'),
        quoting(text) is Inside ==> (quoting(text.push(c)) is Outside <==> c == '"'),
        quoting(text) is Inside ==> (quoting(text.push(c)) is Escaped <==> c == '\\'),
        quoting(text) is Escaped ==> quoting(text.push(c)) is Inside,
{
    assert(text.push(c).drop_last() =~= text);
}

/// A separator in quotes does not part a text: it is a character of the last part,
/// as any other character is.
pub proof fn law_separator_in_quotes(text: Seq<char>, sep: char, c: char)
    requires
        quoting(text) !is Outside || c != sep,
    ensures
        split_on(text.push(c), sep).len() == split_on(text, sep).len(),
        split_on(text.push(c), sep).drop_last() == split_on(text, sep).drop_last(),
        split_on(text.push(c), sep).last() == split_on(text, sep).last().push(c),
{
    assert(text.push(c).drop_last() =~= text);
    lemma_split_on_some(text, sep);
    assert(split_on(text.push(c), sep).drop_last() =~= split_on(text, sep).drop_last());
}

/// A backslash in quotes makes the next character an ordinary one: a quote behind
/// it does not end them.
pub proof fn law_escaped_quote(text: Seq<char>, c: char)
    requires
        quoting(text) is Inside,
    ensures
        quoting(text + seq!['\\', c]) is Inside,
        quoting(text + seq!['"']) is Outside,
{
    reveal_with_fuel(quoting, 3);
    let all = text + seq!['\\', c];
    assert(all.drop_last().drop_last() =~= text);
    assert(all.drop_last().last() == '\\');
    assert((text + seq!['"']).drop_last() =~= text);
}

/// Blanks are the space and the tab.
pub proof fn law_blanks(c: char)
    ensures
        is_blank(c) <==> c == ' ' || c == '\u{9}',
{
}

/// A decimal of more than one digit does not begin with a zero.
pub proof fn law_no_leading_zero(n: nat)
    ensures
        decimal(n).len() >= 1,
        n > 0 ==> decimal(n)[0] != '0',
    decreases n,
{
    if n >= 10 {
        law_no_leading_zero(n / 10);
    }
}

/// Numbers are written in decimal: digits that make the number, none of them a
/// zero in front, and a minus sign before those of a negative one.
pub proof fn law_numbers_are_written(
    n: u128,
    s: i128,
    written: String,
    signed: String,
)
    requires
        call_ensures(decimal_text, (n,), written),
        call_ensures(signed_decimal_text, (s,), signed),
    ensures
        decimal_value(written@) == n,
        n > 0 ==> written@[0] != '0',
        forall|i: int| 0 <= i < written@.len() ==> '0' <= #[trigger] written@[i] <= '9',
        s >= 0 ==> decimal_value(signed@) == s,
        s < 0 ==> signed@[0] == '-' && decimal_value(signed@.skip(1)) == -s,
{
    law_decimal_value(n as nat);
    law_no_leading_zero(n as nat);
    lemma_decimal_digits(n as nat);
    if s >= 0 {
        law_decimal_value(s as nat);
    } else {
        law_decimal_value((-s) as nat);
        assert(signed@.skip(1) =~= decimal((-s) as nat));
    }
}

/// A text is found in another where the other has it somewhere, and at its
/// beginning where it begins with it.
pub proof fn law_texts_are_found(hay: &str, needle: &str, somewhere: bool, in_front: bool, same: bool)
    requires
        call_ensures(contains_text, (hay, needle), somewhere),
        call_ensures(starts_with_text, (hay, needle), in_front),
        call_ensures(same_text, (hay, needle), same),
    ensures
        somewhere <==> exists|at: int|
            0 <= at <= hay@.len() - needle@.len() && #[trigger] hay@.subrange(
                at,
                at + needle@.len(),
            ) == needle@,
        in_front <==> needle@.len() <= hay@.len() && hay@.take(needle@.len() as int) == needle@,
        same <==> hay@ == needle@,
{
    if somewhere {
        let at = choose|at: int| occurs_at(hay@, needle@, at);
        assert(hay@.subrange(at, at + needle@.len()) == needle@);
    }
    if exists|at: int|
        0 <= at <= hay@.len() - needle@.len() && #[trigger] hay@.subrange(at, at + needle@.len())
            == needle@ {
        let at = choose|at: int|
            0 <= at <= hay@.len() - needle@.len() && #[trigger] hay@.subrange(
                at,
                at + needle@.len(),
            ) == needle@;
        assert(occurs_at(hay@, needle@, at));
    }
    if needle@.len() <= hay@.len() {
        assert(hay@.take(needle@.len() as int) =~= hay@.subrange(0, needle@.len() as int));
    }
}

/// Texts are joined one behind the other; the characters of a text are those that
/// it has, and a part of them is the text between two places.
pub proof fn law_texts_are_joined(
    a: &str,
    b: &str,
    c: &str,
    d: &str,
    two: String,
    three: String,
    four: String,
    chars: Vec<char>,
    from: usize,
    to: usize,
    part: String,
)
    requires
        call_ensures(join2, (a, b), two),
        call_ensures(join3, (a, b, c), three),
        call_ensures(join4, (a, b, c, d), four),
        call_ensures(chars_of, (a,), chars),
        from <= to <= chars@.len(),
        call_ensures(text_range, (&chars, from, to), part),
    ensures
        two@ == a@ + b@,
        three@ == a@ + b@ + c@,
        four@ == a@ + b@ + c@ + d@,
        chars@ == a@,
        a@ == a@.take(from as int) + part@ + a@.skip(to as int),
{
    assert(a@.take(from as int) + part@ + a@.skip(to as int) =~= a@);
}

/// A text in lower case has as many characters, each of them the small letter
/// where it was a capital one and else itself.
pub proof fn law_text_in_lower_case(text: &str, res: String, at: int)
    requires
        call_ensures(lower_text, (text,), res),
    ensures
        res@.len() == text@.len(),
        0 <= at < text@.len() && 'A' <= text@[at] <= 'Z' ==> res@[at] as int == text@[at] as int + (
        'a' as int - 'A' as int),
        0 <= at < text@.len() && !('A' <= text@[at] <= 'Z') ==> res@[at] == text@[at],
{
    if 0 <= at < text@.len() {
        law_lower_case(text@, at);
    }
}

/// A text is split at its last separator: the parts and the separator make it
/// again, and there is none in the second. Without a separator it is not split.
pub proof fn law_text_is_split_last(text: &str, sep: &str, res: Option<(String, String)>)
    requires
        sep@.len() > 0,
        call_ensures(split_last_text, (text, sep), res),
    ensures
        res is Some <==> contains(text@, sep@),
        match res {
            Some((head, tail)) => text@ == head@ + sep@ + tail@ && !contains(tail@, sep@),
            None => true,
        },
{
    law_split_last_rejoins(text@, sep@);
}

/// A text is split at separators: the parts with separators between them make it
/// again.
pub proof fn law_text_is_split(text: &str, sep: char, parts: Vec<String>)
    requires
        call_ensures(split_text, (text, sep), parts),
    ensures
        parts@.len() >= 1,
        joined(texts(parts@), sep) == text@,
{
    law_parts_rejoin(text@, sep);
    lemma_split_on_some(text@, sep);
    assert(texts(parts@).len() == parts@.len());
}

/// A trimmed text stands in the text, all around it is blank, and it neither
/// begins nor ends with a blank.
pub proof fn law_text_is_trimmed(text: &str, res: String)
    requires
        call_ensures(trim_text, (text,), res),
    ensures
        contains(text@, res@),
        forall|i: int|
            0 <= i < text@.len() ==> is_blank(#[trigger] text@[i]) || res@.contains(text@[i]),
        res@.len() > 0 ==> !is_blank(res@[0]) && !is_blank(res@.last()),
{
    lemma_trimmed(text@);
    law_trimmed(text@, ' ');
}

/// An optional text is copied as it is.
pub proof fn law_optional_text_is_copied(text: &Option<String>, res: Option<String>)
    requires
        call_ensures(copy_opt, (text,), res),
    ensures
        res is Some <==> *text is Some,
        *text is Some ==> res->0@ == text->0@,
{
}

/// A field of text has the name and the text.
pub proof fn law_field_of_text(name: &str, value: &str, res: (String, Json))
    requires
        call_ensures(text_field, (name, value), res),
    ensures
        res.0@ == name@,
        res.1@ == JsonView::Text(value@),
{
}

/// A name begins with a letter, or with an underscore and something behind it;
/// only letters, digits and underscores follow. There is one exception.
pub proof fn law_names(name: Seq<char>, at: int)
    requires
        name != "<SELF>"@,
    ensures
        name.len() == 0 ==> !is_identifier(name),
        name.len() > 0 && '0' <= name[0] <= '9' ==> !is_identifier(name),
        name.len() == 1 && name[0] == '_' ==> !is_identifier(name),
        0 <= at < name.len() && !('a' <= name[at] <= 'z') && !('A' <= name[at] <= 'Z') && !('0'
            <= name[at] <= '9') && name[at] != '_' ==> !is_identifier(name),
        name.len() > 0 && ('a' <= name[0] <= 'z' || 'A' <= name[0] <= 'Z' || name[0] == '_'
            && name.len() > 1) && (forall|i: int|
            1 <= i < name.len() ==> 'a' <= #[trigger] name[i] <= 'z' || 'A' <= name[i] <= 'Z' || '0'
                <= name[i] <= '9' || name[i] == '_') ==> is_identifier(name),
{
    if name.len() > 0 && (forall|i: int|
        1 <= i < name.len() ==> 'a' <= #[trigger] name[i] <= 'z' || 'A' <= name[i] <= 'Z' || '0'
            <= name[i] <= '9' || name[i] == '_') {
        assert forall|i: int| 1 <= i < name.len() implies is_name_char(#[trigger] name[i]) by {}
    }
}

/// An address that is written, short or long, is read as itself; and what is read
/// from a text is what any text of the same address is read as.
pub proof fn law_addresses_are_read_back(
    address: &AccountAddress,
    short: String,
    long: String,
    text: &str,
    again: Result<AccountAddress, String>,
)
    requires
        call_ensures(AccountAddress::to_hex_literal, (address,), short),
        call_ensures(AccountAddress::to_long_text, (address,), long),
        call_ensures(AccountAddress::from_text, (text,), again),
        text@ == short@ || text@ == long@,
    ensures
        again is Ok,
        again->Ok_0.bytes@ == address.bytes@,
        long@.len() == 66,
        short@.len() <= 66,
        long@.take(2) == "0x"@,
        short@.take(2) == "0x"@,
{
    reveal_strlit("0x");
    law_literal_round_trip(address@);
    law_long_form_round_trip(address@);
    law_literal_is_short(address@);
    lemma_trimmed_length(hex_text(address@));
    assert(long@.take(2) =~= "0x"@);
}

/// Without leading zeros a text is not longer.
proof fn lemma_trimmed_length(text: Seq<char>)
    ensures
        trim_zeros(text).len() <= text.len(),
    decreases text.len(),
{
    if text.len() > 0 && text[0] == '0' {
        lemma_trimmed_length(text.drop_first());
    }
}

/// A text that is no address is refused with a fixed message.
pub proof fn law_no_address_is_read(text: &str, res: Result<AccountAddress, String>)
    requires
        call_ensures(AccountAddress::from_text, (text,), res),
        text@.len() > 66 || !starts_with(text@, "0x"@) && text@.len() != 64,
    ensures
        res is Err,
        res->Err_0@ == "unable to parse AccoutAddress"@,
{
    law_not_an_address(text@, 0);
}

/// A module is written as the short literal of its account, a double colon and
/// its name; a copy is the same module.
pub proof fn law_module_is_written(id: &ModuleId, literal: String, res: String, copy: ModuleId)
    requires
        call_ensures(AccountAddress::to_hex_literal, (&id.address,), literal),
        call_ensures(format_module_id, (id,), res),
        call_ensures(ModuleId::copy, (id,), copy),
    ensures
        res@ == literal@ + "::"@ + id.name@,
        copy.address.bytes@ == id.address.bytes@,
        copy.name@ == id.name@,
{
}

/// An address is made of its bytes, and a module of its account and its name.
pub proof fn law_made_of_parts(
    bytes: [u8; 32],
    address: AccountAddress,
    owner: AccountAddress,
    name: String,
    module: ModuleId,
)
    requires
        call_ensures(AccountAddress::new, (bytes,), address),
        call_ensures(ModuleId::new, (owner, name), module),
    ensures
        address.bytes@ == bytes@,
        module.address.bytes@ == owner.bytes@,
        module.name@ == name@,
{
}

/// The hash of a transaction is shown with two digits for each of its bytes.
pub proof fn law_hash_is_shown(txn: &SignedTransaction, res: String)
    requires
        call_ensures(SignedTransaction::hash_text, (txn,), res),
    ensures
        res@.len() == 2 + 2 * txn.hash@.len(),
        res@.take(2) == "0x"@,
        hex_bytes(res@.skip(2), txn.hash@.len()) == txn.hash@,
{
    reveal_strlit("0x");
    law_hex_round_trip(txn.hash@);
    assert(res@.take(2) =~= "0x"@);
    assert(res@.skip(2) =~= hex_text(txn.hash@));
}

} // verus!

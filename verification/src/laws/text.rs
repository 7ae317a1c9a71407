//! Laws of the operations on texts.
use vstd::prelude::*;

use crate::text::{
    ascii_lower, bytes_of, can_cut, cut_point, cut_within, decimal, digits_value, find_from,
    hex_bytes, hexadecimal, is_space, joined, lemma_bytes_concat, lemma_char_from, lemma_cut_fits,
    lemma_decimal_digits, lemma_find_from, lemma_pieces_split, lemma_text_order, number_of, occurs,
    pieces, replaced, replaced_from, split_first, stands_at, text_less, trimmed, trimmed_end_of,
    trimmed_end_text, trimmed_of, trimmed_start_of, without_prefix, words, words_from,
};

verus! {

/// A text that is cut is a beginning of it that has at most so many bytes, and no
/// longer beginning has so few; a text that fits is not cut.
pub proof fn law_a_cut_text_is_the_longest_beginning_that_fits(
    s: Seq<char>,
    n: int,
    other: Seq<char>,
)
    requires
        n >= 0,
    ensures
        cut_within(s, n).is_prefix_of(s),
        bytes_of(cut_within(s, n)).len() <= n,
        other.is_prefix_of(s) && bytes_of(other).len() <= n ==> other.len() <= cut_within(
            s,
            n,
        ).len(),
        bytes_of(s).len() <= n ==> cut_within(s, n) == s,
{
    lemma_cut_fits(s, n);
    let k = cut_point(s, n);
    let head = cut_within(s, n);
    lemma_byte_prefix(s, k);
    if bytes_of(s).len() <= n {
        assert(k == bytes_of(s).len());
        assert(bytes_of(s).subrange(0, k) =~= bytes_of(s));
        vstd::utf8::encode_utf8_decode_utf8(s);
    }
    if other.is_prefix_of(s) && bytes_of(other).len() <= n {
        let m = bytes_of(other).len() as int;
        lemma_beginnings_can_be_cut(s, other);
        lemma_cut_point_is_last(s, n, m);
        if other.len() > head.len() {
            let more = other.skip(head.len() as int);
            assert(other =~= head + more);
            lemma_bytes_concat(head, more);
            assert(bytes_of(more).len() == 0);
            lemma_has_bytes(more);
        }
    }
}

proof fn lemma_has_bytes(s: Seq<char>)
    requires
        s.len() > 0,
    ensures
        bytes_of(s).len() > 0,
{
    if bytes_of(s).len() == 0 {
        vstd::utf8::encode_utf8_decode_utf8(s);
        vstd::utf8::encode_utf8_decode_utf8(Seq::<char>::empty());
        assert(bytes_of(s) =~= bytes_of(Seq::<char>::empty()));
    }
}

proof fn lemma_byte_prefix(s: Seq<char>, k: int)
    requires
        0 <= k <= bytes_of(s).len(),
        can_cut(s, k),
    ensures
        crate::text::byte_prefix(s, k).is_prefix_of(s),
{
    let all = bytes_of(s);
    vstd::utf8::encode_utf8_valid_utf8(s);
    vstd::utf8::valid_utf8_split(all, k);
    let a = all.subrange(0, k);
    let b = all.subrange(k, all.len() as int);
    let head = vstd::utf8::decode_utf8(a);
    let tail = vstd::utf8::decode_utf8(b);
    vstd::utf8::decode_utf8_encode_utf8(a);
    vstd::utf8::decode_utf8_encode_utf8(b);
    lemma_bytes_concat(head, tail);
    assert(a + b =~= all);
    vstd::utf8::encode_utf8_decode_utf8(head + tail);
    vstd::utf8::encode_utf8_decode_utf8(s);
    assert(head + tail == s);
}

proof fn lemma_beginnings_can_be_cut(s: Seq<char>, head: Seq<char>)
    requires
        head.is_prefix_of(s),
    ensures
        can_cut(s, bytes_of(head).len() as int),
        bytes_of(head).len() <= bytes_of(s).len(),
    decreases head.len(),
{
    let tail = s.skip(head.len() as int);
    assert(s =~= head + tail);
    lemma_bytes_concat(head, tail);
    vstd::utf8::encode_utf8_valid_utf8(s);
    vstd::utf8::encode_utf8_valid_utf8(head);
    vstd::utf8::encode_utf8_valid_utf8(tail);
    let m = bytes_of(head).len() as int;
    vstd::utf8::is_char_boundary_start_end_of_seq(bytes_of(s));
    if m < bytes_of(s).len() {
        assert(bytes_of(s)[m] == bytes_of(tail)[0]);
        vstd::utf8::is_char_boundary_iff_is_leading_byte(bytes_of(s), m);
        vstd::utf8::is_char_boundary_iff_is_leading_byte(bytes_of(tail), 0);
        vstd::utf8::is_char_boundary_start_end_of_seq(bytes_of(tail));
    }
}

proof fn lemma_cut_point_is_last(s: Seq<char>, n: int, m: int)
    requires
        0 <= m <= n,
        m <= bytes_of(s).len(),
        can_cut(s, m),
    ensures
        m <= cut_point(s, n),
    decreases n,
{
    if n > 0 && bytes_of(s).len() > n && !can_cut(s, n) {
        lemma_cut_point_is_last(s, n - 1, m);
    }
}

/// A text occurs in another just where the other consists of something, that
/// text and something more.
pub proof fn law_a_text_occurs_where_it_stands(
    before: Seq<char>,
    pat: Seq<char>,
    after: Seq<char>,
    s: Seq<char>,
)
    ensures
        occurs(before + pat + after, pat),
        occurs(s, pat) ==> exists|a: Seq<char>, b: Seq<char>| s == #[trigger] (a + pat + b),
{
    let whole = before + pat + after;
    assert(whole.subrange(before.len() as int, (before.len() + pat.len()) as int) =~= pat);
    assert(stands_at(whole, pat, before.len() as int));
    if occurs(s, pat) {
        let i = choose|i: int| #[trigger] stands_at(s, pat, i);
        let a = s.take(i);
        let b = s.skip(i + pat.len() as int);
        assert(s =~= a + s.subrange(i, i + pat.len() as int) + b);
        assert(s == a + pat + b);
    }
}

/// A text is split at the first place where the separator stands: what comes
/// before it, the separator and what comes after it are the text, and the
/// separator stands at no earlier place. It is not split where the separator does
/// not occur.
pub proof fn law_a_text_is_split_at_the_first_separator(s: Seq<char>, sep: Seq<char>)
    ensures
        split_first(s, sep) is Some <==> occurs(s, sep),
        split_first(s, sep) matches Some((a, b)) ==> s == a + sep + b && forall|i: int|
            0 <= i < a.len() ==> !stands_at(s, sep, i),
{
    lemma_find_from(s, sep, 0);
    match split_first(s, sep) {
        Some((a, b)) => {
            let i = find_from(s, sep, 0)->0;
            assert(stands_at(s, sep, i));
            assert(s =~= a + s.subrange(i, i + sep.len() as int) + b);
        },
        None => {},
    }
}

/// What is left without a beginning is what follows it.
pub proof fn law_a_beginning_is_taken_away(pat: Seq<char>, rest: Seq<char>, s: Seq<char>)
    ensures
        without_prefix(pat + rest, pat) == Some(rest),
        without_prefix(s, pat) matches Some(left) ==> s == pat + left,
{
    assert((pat + rest).take(pat.len() as int) =~= pat);
    assert((pat + rest).skip(pat.len() as int) =~= rest);
    assert(pat.is_prefix_of(pat + rest));
    if pat.is_prefix_of(s) {
        assert(s =~= pat + s.skip(pat.len() as int));
    }
}

/// The pieces of a text, joined again, are the text, and none of them holds the
/// separator.
pub proof fn law_pieces_make_up_the_text(s: Seq<char>, c: char)
    ensures
        pieces(s, c).len() > 0,
        joined(pieces(s, c), seq![c]) == s,
        forall|i: int| 0 <= i < pieces(s, c).len() ==> !(#[trigger] pieces(s, c)[i]).contains(c),
    decreases s.len(),
{
    lemma_pieces_split(s, c, 0);
    lemma_char_from(s, c, 0);
    match crate::text::char_from(s, c, 0) {
        Some(i) => {
            let rest = s.skip(i + 1);
            law_pieces_make_up_the_text(rest, c);
            law_joining_puts_the_separator_between(s.take(i), pieces(rest, c), seq![c]);
            assert(s =~= s.take(i) + seq![c] + rest);
            assert forall|k: int| 0 <= k < pieces(s, c).len() implies !(#[trigger] pieces(
                s,
                c,
            )[k]).contains(c) by {
                if k > 0 {
                    assert(pieces(s, c)[k] == pieces(rest, c)[k - 1]);
                }
            }
        },
        None => {
            assert(joined(seq![s], seq![c]) == s);
            assert(pieces(s, c)[0] == s);
        },
    }
}

/// Joining puts the separator between a text and the next, and nothing else: one
/// text stays as it is, no text gives nothing, and what is put in front comes
/// first.
pub proof fn law_joining_puts_the_separator_between(
    first: Seq<char>,
    rest: Seq<Seq<char>>,
    sep: Seq<char>,
)
    ensures
        joined(Seq::empty(), sep) == Seq::<char>::empty(),
        joined(seq![first], sep) == first,
        rest.len() > 0 ==> joined(seq![first] + rest, sep) == first + sep + joined(rest, sep),
        rest.len() > 0 ==> joined(rest.push(first), sep) == joined(rest, sep) + sep + first,
    decreases rest.len(),
{
    if rest.len() > 0 {
        let all = seq![first] + rest;
        assert(all.drop_last() =~= seq![first] + rest.drop_last());
        assert(all.last() == rest.last());
        assert(rest.push(first).drop_last() =~= rest);
        law_joining_puts_the_separator_between(first, rest.drop_last(), sep);
        if rest.len() == 1 {
            assert(rest.drop_last() =~= Seq::empty());
            assert(all.drop_last() =~= seq![first]);
            assert(joined(rest, sep) == rest[0]);
        } else {
            assert(joined(all, sep) =~= first + sep + joined(rest, sep));
        }
    }
}

/// Trimming takes spaces away at both ends and nothing else, until there is none.
pub proof fn law_trimming_takes_the_outer_spaces(s: Seq<char>)
    ensures
        exists|a: Seq<char>, b: Seq<char>|
            s == #[trigger] (a + trimmed(s) + b) && all_space(a) && all_space(b),
        trimmed(s).len() > 0 ==> !is_space(trimmed(s)[0]) && !is_space(trimmed(s).last()),
{
    lemma_past_spaces(s, 0);
    let from = crate::text::past_spaces(s, 0);
    lemma_before_spaces(s, from, s.len() as int);
    let to = crate::text::before_spaces(s, from, s.len() as int);
    assert(s =~= s.take(from) + trimmed(s) + s.skip(to));
    assert(all_space(s.take(from)));
    assert(all_space(s.skip(to)));
}

/// Whether a text holds nothing but space.
pub open spec fn all_space(s: Seq<char>) -> bool {
    forall|i: int| 0 <= i < s.len() ==> is_space(#[trigger] s[i])
}

proof fn lemma_past_spaces(s: Seq<char>, from: int)
    requires
        0 <= from <= s.len(),
    ensures
        from <= crate::text::past_spaces(s, from) <= s.len(),
        forall|i: int| from <= i < crate::text::past_spaces(s, from) ==> is_space(#[trigger] s[i]),
        crate::text::past_spaces(s, from) < s.len() ==> !is_space(
            s[crate::text::past_spaces(s, from)],
        ),
    decreases s.len() - from,
{
    if from < s.len() && is_space(s[from]) {
        lemma_past_spaces(s, from + 1);
    }
}

proof fn lemma_before_spaces(s: Seq<char>, from: int, to: int)
    requires
        0 <= from <= to <= s.len(),
    ensures
        from <= crate::text::before_spaces(s, from, to) <= to,
        forall|i: int|
            crate::text::before_spaces(s, from, to) <= i < to ==> is_space(#[trigger] s[i]),
        crate::text::before_spaces(s, from, to) > from ==> !is_space(
            s[crate::text::before_spaces(s, from, to) - 1],
        ),
    decreases to - from,
{
    if from < to && is_space(s[to - 1]) {
        lemma_before_spaces(s, from, to - 1);
    }
}

/// Whether a text holds nothing but one character.
pub open spec fn all_one(s: Seq<char>, c: char) -> bool {
    forall|i: int| 0 <= i < s.len() ==> #[trigger] s[i] == c
}

/// Where one character at the start of a text ends.
pub proof fn lemma_past_char(s: Seq<char>, c: char, from: int)
    requires
        0 <= from <= s.len(),
    ensures
        from <= crate::text::past_char(s, c, from) <= s.len(),
        forall|i: int| from <= i < crate::text::past_char(s, c, from) ==> #[trigger] s[i] == c,
        crate::text::past_char(s, c, from) < s.len() ==> s[crate::text::past_char(s, c, from)]
            != c,
    decreases s.len() - from,
{
    if from < s.len() && s[from] == c {
        lemma_past_char(s, c, from + 1);
    }
}

/// Where one character at the end of a text begins.
pub proof fn lemma_before_char(s: Seq<char>, c: char, from: int, to: int)
    requires
        0 <= from <= to <= s.len(),
    ensures
        from <= crate::text::before_char(s, c, from, to) <= to,
        forall|i: int|
            crate::text::before_char(s, c, from, to) <= i < to ==> #[trigger] s[i] == c,
        crate::text::before_char(s, c, from, to) > from ==> s[crate::text::before_char(
            s,
            c,
            from,
            to,
        ) - 1] != c,
    decreases to - from,
{
    if from < to && s[to - 1] == c {
        lemma_before_char(s, c, from, to - 1);
    }
}

/// Trimming one character takes it away at the start, at the end or at both, as
/// often as it stands there, and nothing else.
pub proof fn law_trimming_a_character_takes_only_that(s: Seq<char>, c: char)
    ensures
        exists|a: Seq<char>| s == #[trigger] (a + trimmed_start_of(s, c)) && all_one(a, c),
        trimmed_start_of(s, c).len() > 0 ==> trimmed_start_of(s, c)[0] != c,
        exists|b: Seq<char>| s == #[trigger] (trimmed_end_of(s, c) + b) && all_one(b, c),
        trimmed_end_of(s, c).len() > 0 ==> trimmed_end_of(s, c).last() != c,
        exists|a: Seq<char>, b: Seq<char>|
            s == #[trigger] (a + trimmed_of(s, c) + b) && all_one(a, c) && all_one(b, c),
        trimmed_of(s, c).len() > 0 ==> trimmed_of(s, c)[0] != c && trimmed_of(s, c).last() != c,
{
    lemma_past_char(s, c, 0);
    let from = crate::text::past_char(s, c, 0);
    lemma_before_char(s, c, 0, s.len() as int);
    lemma_before_char(s, c, from, s.len() as int);
    let end = crate::text::before_char(s, c, 0, s.len() as int);
    let to = crate::text::before_char(s, c, from, s.len() as int);
    assert(s =~= s.take(from) + trimmed_start_of(s, c));
    assert(s =~= trimmed_end_of(s, c) + s.skip(end));
    assert(s =~= s.take(from) + trimmed_of(s, c) + s.skip(to));
    assert(all_one(s.take(from), c));
    assert(all_one(s.skip(end), c));
    assert(all_one(s.skip(to), c));
}

/// An ending that is trimmed is gone, however often it stood there: nothing else
/// goes with it.
pub proof fn law_an_ending_is_trimmed_until_it_is_gone(s: Seq<char>, pat: Seq<char>)
    requires
        pat.len() > 0,
    ensures
        !pat.is_suffix_of(trimmed_end_text(s, pat)),
        !pat.is_suffix_of(s) ==> trimmed_end_text(s, pat) == s,
        trimmed_end_text(s + pat, pat) == trimmed_end_text(s, pat),
        trimmed_end_text(s, pat).is_prefix_of(s),
    decreases s.len(),
{
    assert((s + pat).take(s.len() as int) =~= s);
    assert((s + pat).skip(s.len() as int) =~= pat);
    assert(pat.is_suffix_of(s + pat));
    if pat.is_suffix_of(s) {
        let less = s.take(s.len() - pat.len());
        law_an_ending_is_trimmed_until_it_is_gone(less, pat);
        let left = trimmed_end_text(less, pat);
        assert(left =~= s.take(left.len() as int));
    }
}

/// Lowering a text lowers its capital letters and keeps every other character in
/// its place.
pub proof fn law_only_capitals_are_lowered(s: Seq<char>, i: int)
    requires
        0 <= i < s.len(),
    ensures
        ascii_lower(s).len() == s.len(),
        !('A' <= ascii_lower(s)[i] <= 'Z'),
        !('A' <= s[i] <= 'Z') ==> ascii_lower(s)[i] == s[i],
        'A' <= s[i] <= 'Z' ==> ascii_lower(s)[i] as int == s[i] as int + 32,
{
}

/// The order of texts is that of their first characters that differ; a beginning
/// comes before what continues it.
pub proof fn law_texts_are_ordered_by_the_first_difference(
    common: Seq<char>,
    x: char,
    y: char,
    a: Seq<char>,
    b: Seq<char>,
)
    requires
        x != y,
    ensures
        text_less(common + seq![x] + a, common + seq![y] + b) <==> x < y,
        text_less(common, common + seq![x] + a),
        !text_less(common + seq![x] + a, common),
{
    lemma_common(common, common + seq![x] + a, common + seq![y] + b, 0);
    lemma_common(common, common, common + seq![x] + a, 0);
    lemma_text_order(common, common + seq![x] + a, common);
}

proof fn lemma_common(common: Seq<char>, a: Seq<char>, b: Seq<char>, i: int)
    requires
        0 <= i <= common.len(),
        common.is_prefix_of(a),
        common.is_prefix_of(b),
    ensures
        crate::text::less_from(a, b, i) == crate::text::less_from(a, b, common.len() as int),
    decreases common.len() - i,
{
    if i < common.len() {
        assert(a[i] == common[i] && b[i] == common[i]);
        lemma_common(common, a, b, i + 1);
    }
}

/// A number that is written in decimal reads back as that number, also behind a
/// plus sign.
pub proof fn law_decimals_read_back(n: nat)
    ensures
        number_of(decimal(n)) == Some(n),
        number_of("+"@ + decimal(n)) == Some(n),
{
    lemma_decimal_digits(n);
    lemma_decimal_value(n);
    reveal_strlit("+");
    assert(decimal(n)[0] != '+');
    assert(("+"@ + decimal(n))[0] == '+');
    assert(("+"@ + decimal(n)).skip(1) =~= decimal(n));
}

proof fn lemma_decimal_value(n: nat)
    ensures
        digits_value(decimal(n), decimal(n).len()) == Some(n),
    decreases n,
{
    if n >= 10 {
        let less = decimal(n / 10);
        lemma_decimal_value(n / 10);
        lemma_value_of_beginning(less, decimal(n), less.len());
        assert(decimal(n).last() == crate::text::digit_char((n % 10) as int));
    } else {
        assert(digits_value(decimal(n), 0) == Some(0nat));
    }
}

proof fn lemma_value_of_beginning(a: Seq<char>, b: Seq<char>, n: nat)
    requires
        n <= a.len(),
        a.is_prefix_of(b),
    ensures
        digits_value(a, n) == digits_value(b, n),
    decreases n,
{
    if n > 0 {
        lemma_value_of_beginning(a, b, (n - 1) as nat);
        assert(a[n - 1] == b[n - 1]);
    }
}

/// A text that holds anything but digits, behind a plus sign or not, is no
/// number.
pub proof fn law_only_digits_are_a_number(s: Seq<char>, i: int)
    requires
        0 <= i < s.len(),
        !('0' <= s[i] <= '9'),
        i > 0 || s[0] != '+',
    ensures
        number_of(s) is None,
{
    let digits = if s[0] == '+' {
        s.skip(1)
    } else {
        s
    };
    let k = if s[0] == '+' {
        i - 1
    } else {
        i
    };
    assert(digits[k] == s[i]);
    lemma_no_value(digits, k, digits.len());
}

proof fn lemma_no_value(s: Seq<char>, k: int, n: nat)
    requires
        0 <= k < n <= s.len(),
        !('0' <= s[k] <= '9'),
    ensures
        digits_value(s, n) is None,
    decreases n,
{
    if k < n - 1 {
        lemma_no_value(s, k, (n - 1) as nat);
    }
}

/// What is joined holds each of its parts.
pub proof fn law_what_is_joined_holds_its_parts(parts: Seq<Seq<char>>, sep: Seq<char>, i: int)
    requires
        0 <= i < parts.len(),
    ensures
        occurs(joined(parts, sep), parts[i]),
    decreases parts.len(),
{
    let all = joined(parts, sep);
    let none = Seq::<char>::empty();
    if parts.len() == 1 {
        law_a_text_occurs_where_it_stands(none, parts[0], none, all);
        assert(none + parts[0] + none =~= parts[0]);
    } else if i == parts.len() - 1 {
        let front = joined(parts.drop_last(), sep) + sep;
        law_a_text_occurs_where_it_stands(front, parts[i], none, all);
        assert(front + parts[i] + none =~= all);
    } else {
        let front = joined(parts.drop_last(), sep);
        law_what_is_joined_holds_its_parts(parts.drop_last(), sep, i);
        assert(parts.drop_last()[i] == parts[i]);
        lemma_occurs_in_more(none, front, sep + parts.last(), parts[i]);
        assert(none + front + (sep + parts.last()) =~= all);
    }
}

/// What occurs in a part of a text occurs in the text.
pub proof fn lemma_occurs_in_more(
    before: Seq<char>,
    part: Seq<char>,
    after: Seq<char>,
    pat: Seq<char>,
)
    requires
        occurs(part, pat),
    ensures
        occurs(before + part + after, pat),
{
    let i = choose|i: int| #[trigger] stands_at(part, pat, i);
    let whole = before + part + after;
    assert(whole.subrange(before.len() + i, before.len() + i + pat.len() as int) =~= part.subrange(
        i,
        i + pat.len() as int,
    ));
    assert(stands_at(whole, pat, before.len() + i));
}

/// A text without space at its ends is not trimmed.
pub proof fn law_a_trimmed_text_stays(s: Seq<char>)
    requires
        s.len() == 0 || (!is_space(s[0]) && !is_space(s.last())),
    ensures
        trimmed(s) == s,
        trimmed(seq![' '] + s) == s,
{
    if s.len() > 0 {
        assert(crate::text::past_spaces(s, 0) == 0);
        assert(crate::text::before_spaces(s, 0, s.len() as int) == s.len());
        assert(trimmed(s) =~= s);
    } else {
        assert(trimmed(s) =~= s);
    }
    let t = seq![' '] + s;
    assert(t[0] == ' ');
    assert(t.len() == s.len() + 1);
    if s.len() > 0 {
        assert(t[1] == s[0]);
        assert(crate::text::past_spaces(t, 1) == 1);
    } else {
        assert(crate::text::past_spaces(t, 1) == 1);
    }
    assert(crate::text::past_spaces(t, 0) == 1);
    if s.len() > 0 {
        assert(t[t.len() - 1] == s.last());
    }
    assert(crate::text::before_spaces(t, 1, t.len() as int) == t.len());
    assert(t.subrange(1, t.len() as int) =~= s);
}

/// The first word of a text ends at the first blank, and what follows the blank
/// is the rest; a text without a blank is all one word.
pub proof fn law_a_text_begins_with_its_first_word(word: Seq<char>, rest: Seq<char>)
    requires
        !word.contains(' '),
    ensures
        crate::text::head_and_rest(word + seq![' '] + rest) == (word, rest),
        crate::text::head_and_rest(word) == (word, Seq::<char>::empty()),
{
    let s = word + seq![' '] + rest;
    reveal_strlit(" ");
    assert(" "@ =~= seq![' ']);
    lemma_find_from(s, seq![' '], 0);
    lemma_find_from(word, seq![' '], 0);
    assert(s.subrange(word.len() as int, word.len() as int + 1) =~= seq![' ']);
    assert(stands_at(s, seq![' '], word.len() as int));
    let i = find_from(s, seq![' '], 0)->0;
    assert(stands_at(s, seq![' '], i));
    assert(s[i] == s.subrange(i, i + 1)[0]);
    if i < word.len() {
        assert(word[i] == ' ');
        assert(word.contains(' '));
    }
    assert(i == word.len());
    assert(s.take(i) =~= word);
    assert(s.skip(i + 1) =~= rest);
    if find_from(word, seq![' '], 0) is Some {
        let j = find_from(word, seq![' '], 0)->0;
        assert(word[j] == word.subrange(j, j + 1)[0]);
        assert(word.contains(' '));
    }
}

/// What occurs in a part that occurs in a text occurs in the text.
pub proof fn lemma_occurs_through(s: Seq<char>, part: Seq<char>, pat: Seq<char>)
    requires
        occurs(s, part),
        occurs(part, pat),
    ensures
        occurs(s, pat),
{
    law_a_text_occurs_where_it_stands(s, part, s, s);
    let (a, b) = choose|a: Seq<char>, b: Seq<char>| s == #[trigger] (a + part + b);
    lemma_occurs_in_more(a, part, b, pat);
}

/// Replacing changes nothing where the text does not occur; where it does, what
/// stands before its first place stays, the place is replaced, and the rest is
/// replaced in the same way.
pub proof fn law_every_place_is_replaced(
    before: Seq<char>,
    from: Seq<char>,
    after: Seq<char>,
    to: Seq<char>,
    s: Seq<char>,
)
    requires
        from.len() > 0,
    ensures
        !occurs(s, from) ==> replaced(s, from, to) == s,
        (forall|i: int| 0 <= i < before.len() ==> !stands_at(before + from + after, from, i))
            ==> replaced(before + from + after, from, to) == before + to + replaced(
            after,
            from,
            to,
        ),
{
    if !occurs(s, from) {
        lemma_copied(s, from, to, 0, s.len() as int);
        assert(replaced_from(s, from, to, s.len() as int) =~= Seq::empty());
        assert(s.subrange(0, s.len() as int) + Seq::<char>::empty() =~= s);
    }
    let t = before + from + after;
    if forall|i: int| 0 <= i < before.len() ==> !stands_at(t, from, i) {
        let n = before.len() as int;
        lemma_copied(t, from, to, 0, n);
        assert(t.subrange(n, n + from.len() as int) =~= from);
        assert(stands_at(t, from, n));
        lemma_replaced_shift(t, from, to, n + from.len() as int, n + from.len() as int);
        assert(t.skip(n + from.len() as int) =~= after);
        assert(t.subrange(0, n) =~= before);
        assert(replaced(t, from, to) =~= before + to + replaced(after, from, to));
    }
}

proof fn lemma_copied(s: Seq<char>, from: Seq<char>, to: Seq<char>, at: int, end: int)
    requires
        0 <= at <= end <= s.len(),
        from.len() > 0,
        forall|i: int| at <= i < end ==> !stands_at(s, from, i),
    ensures
        replaced_from(s, from, to, at) == s.subrange(at, end) + replaced_from(s, from, to, end),
    decreases end - at,
{
    if at < end {
        lemma_copied(s, from, to, at + 1, end);
        assert(replaced_from(s, from, to, at) =~= s.subrange(at, end) + replaced_from(
            s,
            from,
            to,
            end,
        ));
    } else {
        assert(s.subrange(at, end) + replaced_from(s, from, to, end) =~= replaced_from(
            s,
            from,
            to,
            end,
        ));
    }
}

proof fn lemma_replaced_shift(s: Seq<char>, from: Seq<char>, to: Seq<char>, k: int, at: int)
    requires
        0 <= k <= at,
        from.len() > 0,
        k <= s.len(),
    ensures
        replaced_from(s, from, to, at) == replaced_from(s.skip(k), from, to, at - k),
    decreases s.len() - at,
{
    let t = s.skip(k);
    if at < s.len() {
        assert(stands_at(s, from, at) <==> stands_at(t, from, at - k)) by {
            if at + from.len() <= s.len() {
                assert(s.subrange(at, at + from.len() as int) =~= t.subrange(
                    at - k,
                    at - k + from.len() as int,
                ));
            }
        }
        if stands_at(s, from, at) {
            lemma_replaced_shift(s, from, to, k, at + from.len() as int);
        } else {
            assert(s[at] == t[at - k]);
            lemma_replaced_shift(s, from, to, k, at + 1);
        }
    }
}

/// The words of a text are what stands between spaces: space at the start is
/// passed over, and a word that a space follows is the first word, before the
/// words of the rest.
pub proof fn law_words_stand_between_spaces(word: Seq<char>, space: char, rest: Seq<char>)
    requires
        is_space(space),
        forall|i: int| 0 <= i < word.len() ==> !is_space(#[trigger] word[i]),
    ensures
        words(Seq::empty()) == Seq::<Seq<char>>::empty(),
        words(seq![space] + rest) == words(rest),
        word.len() > 0 ==> words(word) == seq![word],
        word.len() > 0 ==> words(word + seq![space] + rest) == seq![word] + words(rest),
{
    assert(words(Seq::<char>::empty()) =~= Seq::<Seq<char>>::empty());
    let s = seq![space] + rest;
    assert(s[0] == space);
    lemma_words_shift(s, 1, 1, 1);
    assert(s.skip(1) =~= rest);
    if word.len() > 0 {
        lemma_in_word(word, 0, 0, word.len() as int);
        assert(word.subrange(0, word.len() as int) =~= word);
        let t = word + seq![space] + rest;
        let n = word.len() as int;
        assert forall|i: int| 0 <= i < n implies !is_space(#[trigger] t[i]) by {
            assert(t[i] == word[i]);
        }
        lemma_in_word(t, 0, 0, n);
        assert(t[n] == space);
        assert(t.subrange(0, n) =~= word);
        lemma_words_shift(t, n + 1, n + 1, n + 1);
        assert(t.skip(n + 1) =~= rest);
    }
}

proof fn lemma_in_word(s: Seq<char>, start: int, at: int, end: int)
    requires
        0 <= start <= at <= end <= s.len(),
        forall|i: int| at <= i < end ==> !is_space(#[trigger] s[i]),
    ensures
        words_from(s, start, at) == words_from(s, start, end),
    decreases end - at,
{
    if at < end {
        lemma_in_word(s, start, at + 1, end);
    }
}

proof fn lemma_words_shift(s: Seq<char>, k: int, start: int, at: int)
    requires
        0 <= k <= start <= at <= s.len(),
    ensures
        words_from(s, start, at) == words_from(s.skip(k), start - k, at - k),
    decreases s.len() - at,
{
    let t = s.skip(k);
    if at >= s.len() {
        assert(s.subrange(start, at) =~= t.subrange(start - k, at - k));
    } else {
        assert(s[at] == t[at - k]);
        if is_space(s[at]) {
            lemma_words_shift(s, k, at + 1, at + 1);
            assert(s.subrange(start, at) =~= t.subrange(start - k, at - k));
        } else {
            lemma_words_shift(s, k, start, at + 1);
        }
    }
}

/// The value of a hexadecimal digit.
pub open spec fn hex_digit_value(c: char) -> int {
    if '0' <= c <= '9' {
        c as int - '0' as int
    } else if 'a' <= c <= 'f' {
        c as int - 'a' as int + 10
    } else {
        -1
    }
}

/// The number that hexadecimal digits write.
pub open spec fn hex_value(s: Seq<char>) -> int
    decreases s.len(),
{
    if s.len() == 0 {
        0
    } else {
        16 * hex_value(s.drop_last()) + hex_digit_value(s.last())
    }
}

/// A number that is written in hexadecimal reads back as that number.
pub proof fn law_hexadecimals_read_back(n: nat)
    ensures
        hex_value(hexadecimal(n)) == n,
        hexadecimal(n).len() > 0,
    decreases n,
{
    if n >= 16 {
        law_hexadecimals_read_back(n / 16);
        assert(hexadecimal(n).drop_last() =~= hexadecimal(n / 16));
    } else {
        assert(hexadecimal(n).drop_last() =~= Seq::empty());
        assert(hex_value(Seq::<char>::empty()) == 0);
    }
}

/// Each byte is written by two digits, the higher one first.
pub proof fn law_bytes_are_written_by_two_digits(bytes: Seq<u8>, i: int)
    requires
        0 <= i < bytes.len(),
    ensures
        hex_bytes(bytes).len() == 2 * bytes.len(),
        16 * hex_digit_value(hex_bytes(bytes)[2 * i]) + hex_digit_value(hex_bytes(bytes)[2 * i + 1])
            == bytes[i],
        hex_digit_value(hex_bytes(bytes)[2 * i + 1]) >= 0,
{
    let s = hex_bytes(bytes);
    let b = bytes[i] as int;
    assert((2 * i) / 2 == i && (2 * i) % 2 == 0);
    assert((2 * i + 1) / 2 == i && (2 * i + 1) % 2 == 1);
    assert(s[2 * i] == crate::text::hex_char(b / 16));
    assert(s[2 * i + 1] == crate::text::hex_char(b % 16));
    assert(hex_digit_value(crate::text::hex_char(b / 16)) == b / 16);
    assert(hex_digit_value(crate::text::hex_char(b % 16)) == b % 16);
}

/// Among the characters of ASCII the blank, the tab and the ends of lines are
/// space, and no letter, digit or sign is; letters and digits are those that a
/// name may hold.
pub proof fn law_blanks_are_space_and_letters_are_not(c: char)
    requires
        (c as u32) < 128,
    ensures
        c == ' ' || c == '\t' || c == '\n' || c == '\r' ==> is_space(c),
        c as u32 > 32 ==> !is_space(c),
        crate::text::is_alnum(c) <==> 'a' <= c <= 'z' || 'A' <= c <= 'Z' || '0' <= c <= '9',
{
}

} // verus!

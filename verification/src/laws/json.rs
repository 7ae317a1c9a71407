//! Laws of JSON values.
use vstd::prelude::*;

use crate::json::{
    alike, canonical, canonical_members, canonicalize_json, equal, escaped, is_float_zero,
    json_equal, json_quoted, json_text, keys_differ, lemma_alike_reflexive, lemma_canonical_members,
    lemma_sort_pairs, member, nearest, printed, printed_items, printed_members, scaled_up,
    single_next_to, sort_pairs, Json, JsonModel,
};
use crate::text::{joined, text_less};

verus! {

/// The member that is found is the first of its key; none is found just where
/// there is none.
pub proof fn law_the_first_member_of_its_key_is_found(
    members: Seq<(Seq<char>, JsonModel)>,
    key: Seq<char>,
    i: int,
)
    ensures
        0 <= i < members.len() && members[i].0 == key && (forall|k: int|
            0 <= k < i ==> (#[trigger] members[k]).0 != key) ==> member(members, key) == Some(
            members[i].1,
        ),
        member(members, key) is None <==> forall|k: int|
            0 <= k < members.len() ==> (#[trigger] members[k]).0 != key,
    decreases members.len(),
{
    if members.len() > 0 && members[0].0 != key {
        let rest = members.skip(1);
        law_the_first_member_of_its_key_is_found(rest, key, i - 1);
        if 0 <= i < members.len() && members[i].0 == key && (forall|k: int|
            0 <= k < i ==> (#[trigger] members[k]).0 != key) {
            assert(rest[i - 1] == members[i]);
            assert forall|k: int| 0 <= k < i - 1 implies (#[trigger] rest[k]).0 != key by {
                assert(rest[k] == members[k + 1]);
            }
        }
        if forall|k: int| 0 <= k < members.len() ==> (#[trigger] members[k]).0 != key {
            assert forall|k: int| 0 <= k < rest.len() implies (#[trigger] rest[k]).0 != key by {
                assert(rest[k] == members[k + 1]);
            }
        }
        if forall|k: int| 0 <= k < rest.len() ==> (#[trigger] rest[k]).0 != key {
            assert forall|k: int| 0 <= k < members.len() implies (#[trigger] members[k]).0
                != key by {
                if k > 0 {
                    assert(rest[k - 1] == members[k]);
                }
            }
        }
    }
}

/// The canonical form has the same content: a simple value stays, a list keeps its
/// items in their places, and an object keeps every member, in the order of the
/// keys.
pub proof fn law_the_canonical_form_has_the_same_content(value: &Json, r: Json, i: int)
    requires
        call_ensures(canonicalize_json, (value,), r),
    ensures
        !(value@ is Array) && !(value@ is Object) ==> r@ == value@,
        value@ matches JsonModel::Array(items) ==> (r@ matches JsonModel::Array(out) && out.len()
            == items.len() && (0 <= i < items.len() ==> out[i] == canonical(items[i]))),
        value@ matches JsonModel::Object(members) ==> (keys_differ(members) ==> (
        r@ matches JsonModel::Object(out) && out.len() == members.len() && (0 <= i < members.len()
            ==> out.contains((members[i].0, canonical(members[i].1)))) && (forall|j: int, k: int|
            0 <= j < k < out.len() ==> text_less((#[trigger] out[j]).0, (#[trigger] out[k]).0)))),
{
    if let JsonModel::Object(members) = value@ {
        if keys_differ(members) {
            let n = members.len();
            lemma_canonical_members(members, n);
            let each = canonical_members(members, n);
            assert(keys_differ(each)) by {
                assert forall|j: int, k: int| 0 <= j < k < each.len() implies #[trigger] each[j].0
                    != #[trigger] each[k].0 by {
                    assert(members[j].0 != members[k].0);
                }
            }
            lemma_sort_pairs(each);
            if 0 <= i < members.len() {
                assert(each[i] == (members[i].0, canonical(members[i].1)));
                assert(each.contains(each[i]));
            }
        }
    }
}

/// Equality of simple values: of the same kind and the same; zeros of both signs
/// are equal. Values of different kinds never are.
pub proof fn law_simple_values_are_equal_when_they_are_the_same(a: &Json, b: &Json, r: bool)
    requires
        call_ensures(json_equal, (a, b), r),
    ensures
        a@ == b@ ==> r,
        r ==> (a@ is Null <==> b@ is Null) && (a@ is Bool <==> b@ is Bool) && (a@ is Number
            <==> b@ is Number) && (a@ is Text <==> b@ is Text) && (a@ is Array <==> b@ is Array)
            && (a@ is Object <==> b@ is Object),
        a@ is Text && b@ is Text ==> (r <==> a@->Text_0 == b@->Text_0),
        a@ is Bool && b@ is Bool ==> (r <==> a@->Bool_0 == b@->Bool_0),
        a@ is Number && b@ is Number ==> (r <==> a@->Number_0 == b@->Number_0 || (is_float_zero(
            a@->Number_0,
        ) && is_float_zero(b@->Number_0))),
{
    lemma_alike_reflexive(canonical(a@));
}

/// Lists are equal where they are as long and their items are equal one by one.
pub proof fn law_lists_are_equal_item_by_item(
    a: Seq<JsonModel>,
    b: Seq<JsonModel>,
    i: int,
)
    ensures
        equal(JsonModel::Array(a), JsonModel::Array(b)) ==> a.len() == b.len() && (0 <= i < a.len()
            ==> equal(a[i], b[i])),
        a.len() == b.len() && (forall|k: int|
            0 <= k < a.len() ==> equal(#[trigger] a[k], b[k])) ==> equal(
            JsonModel::Array(a),
            JsonModel::Array(b),
        ),
{
    let x = canonical(JsonModel::Array(a))->Array_0;
    let y = canonical(JsonModel::Array(b))->Array_0;
    assert(x.len() == a.len() && y.len() == b.len());
    if equal(JsonModel::Array(a), JsonModel::Array(b)) && 0 <= i < a.len() {
        assert(alike(x[i], y[i]));
    }
    if a.len() == b.len() && (forall|k: int|
        0 <= k < a.len() ==> equal(#[trigger] a[k], b[k])) {
        assert forall|k: int| 0 <= k < x.len() implies alike(#[trigger] x[k], y[k]) by {
            assert(equal(a[k], b[k]));
        }
    }
}

/// Objects are equal only where each member of one stands in the other, under its
/// key and with an equal value.
pub proof fn law_equal_objects_have_equal_members(
    a: Seq<(Seq<char>, JsonModel)>,
    b: Seq<(Seq<char>, JsonModel)>,
    i: int,
)
    requires
        keys_differ(a),
        keys_differ(b),
        equal(JsonModel::Object(a), JsonModel::Object(b)),
        0 <= i < a.len(),
    ensures
        a.len() == b.len(),
        exists|j: int|
            0 <= j < b.len() && (#[trigger] b[j]).0 == a[i].0 && equal(a[i].1, b[j].1),
{
    let ca = canonical_members(a, a.len());
    let cb = canonical_members(b, b.len());
    lemma_canonical_members(a, a.len());
    lemma_canonical_members(b, b.len());
    assert(keys_differ(ca)) by {
        assert forall|j: int, k: int| 0 <= j < k < ca.len() implies #[trigger] ca[j].0
            != #[trigger] ca[k].0 by {
            assert(a[j].0 != a[k].0);
        }
    }
    assert(keys_differ(cb)) by {
        assert forall|j: int, k: int| 0 <= j < k < cb.len() implies #[trigger] cb[j].0
            != #[trigger] cb[k].0 by {
            assert(b[j].0 != b[k].0);
        }
    }
    lemma_sort_pairs(ca);
    lemma_sort_pairs(cb);
    let x = sort_pairs(ca);
    let y = sort_pairs(cb);
    assert(alike(JsonModel::Object(x), JsonModel::Object(y)));
    assert(ca[i] == (a[i].0, canonical(a[i].1)));
    assert(ca.contains(ca[i]));
    assert(x.contains(ca[i]));
    let k = choose|k: int| 0 <= k < x.len() && x[k] == ca[i];
    assert(x[k].0 == y[k].0 && alike(x[k].1, y[k].1));
    assert(y.contains(y[k]));
    assert(cb.contains(y[k]));
    let j = choose|j: int| 0 <= j < cb.len() && cb[j] == y[k];
    assert(cb[j] == (b[j].0, canonical(b[j].1)));
    assert(b[j].0 == a[i].0);
}

/// A value is printed as JSON writes it: a list in brackets, an object in braces
/// with its keys quoted, items and members between commas.
pub proof fn law_values_are_printed_as_json(value: &Json, r: String)
    requires
        call_ensures(json_text, (value,), r),
    ensures
        value@ is Null ==> r@ == "null"@,
        value@ matches JsonModel::Bool(b) ==> r@ == (if b {
            "true"@
        } else {
            "false"@
        }),
        value@ matches JsonModel::Number(text, _, _) ==> r@ == text,
        value@ matches JsonModel::Text(s) ==> r@ == json_quoted(s),
        value@ matches JsonModel::Array(items) ==> r@ == "["@ + joined(
            items.map_values(|j: JsonModel| printed(j)),
            ","@,
        ) + "]"@,
        value@ matches JsonModel::Object(members) ==> r@ == "{"@ + joined(
            members.map_values(
                |m: (Seq<char>, JsonModel)| json_quoted(m.0) + ":"@ + printed(m.1),
            ),
            ","@,
        ) + "}"@,
{
    match value@ {
        JsonModel::Array(items) => {
            lemma_items(items, items.len());
            assert(printed_items(items, items.len()) =~= items.map_values(
                |j: JsonModel| printed(j),
            ));
        },
        JsonModel::Object(members) => {
            lemma_members(members, members.len());
            assert(printed_members(members, members.len()) =~= members.map_values(
                |m: (Seq<char>, JsonModel)| json_quoted(m.0) + ":"@ + printed(m.1),
            ));
        },
        _ => {},
    }
}

proof fn lemma_items(items: Seq<JsonModel>, n: nat)
    requires
        n <= items.len(),
    ensures
        printed_items(items, n).len() == n,
        forall|k: int| 0 <= k < n ==> #[trigger] printed_items(items, n)[k] == printed(items[k]),
    decreases n,
{
    if n > 0 {
        lemma_items(items, (n - 1) as nat);
    }
}

proof fn lemma_members(members: Seq<(Seq<char>, JsonModel)>, n: nat)
    requires
        n <= members.len(),
    ensures
        printed_members(members, n).len() == n,
        forall|k: int|
            0 <= k < n ==> #[trigger] printed_members(members, n)[k] == json_quoted(members[k].0)
                + ":"@ + printed(members[k].1),
    decreases n,
{
    if n > 0 {
        lemma_members(members, (n - 1) as nat);
    }
}

/// The character that an escape stands for, given what follows the backslash.
pub open spec fn unescaped(s: Seq<char>) -> int {
    if s.len() == 6 {
        16 * crate::laws::text::hex_digit_value(s[4]) + crate::laws::text::hex_digit_value(s[5])
    } else if s[1] == 'b' {
        8
    } else if s[1] == 't' {
        9
    } else if s[1] == 'n' {
        10
    } else if s[1] == 'f' {
        12
    } else if s[1] == 'r' {
        13
    } else {
        s[1] as int
    }
}

/// A character is written as itself or as an escape that reads back as it; quotes,
/// backslashes and control characters are always escaped, so that a quoted text
/// ends only at its end.
pub proof fn law_escapes_read_back(c: char, i: int)
    ensures
        escaped(c).len() == 1 ==> escaped(c)[0] == c && c != '"' && c != '\\' && c as int >= 32,
        escaped(c).len() > 1 ==> escaped(c)[0] == '\\' && unescaped(escaped(c)) == c as int,
        0 <= i < escaped(c).len() ==> escaped(c)[i] as int >= 32,
        escaped(c).len() >= 1,
{
    let n = c as int;
    if n < 32 {
        assert(0 <= n / 16 < 2 && 0 <= n % 16 < 16);
        assert(crate::laws::text::hex_digit_value(crate::text::hex_char(n / 16)) == n / 16);
        assert(crate::laws::text::hex_digit_value(crate::text::hex_char(n % 16)) == n % 16);
        assert(crate::text::hex_char(n / 16) as int >= 32);
        assert(crate::text::hex_char(n % 16) as int >= 32);
    }
}

/// A quoted text is the escapes of its characters, in their order, between quotes.
pub proof fn law_a_text_is_quoted_character_by_character(s: Seq<char>, c: char)
    ensures
        json_quoted(Seq::empty()) == seq!['"', '"'],
        json_quoted(s.push(c)) == json_quoted(s).drop_last() + escaped(c) + seq!['"'],
        json_quoted(s).len() >= 2 && json_quoted(s)[0] == '"' && json_quoted(s).last() == '"',
{
    let parts = s.map_values(|x: char| escaped(x));
    let more = s.push(c).map_values(|x: char| escaped(x));
    assert(more =~= parts.push(escaped(c)));
    parts.lemma_flatten_push(escaped(c));
    assert(Seq::<char>::empty().map_values(|x: char| escaped(x)) =~= Seq::<Seq<char>>::empty());
    assert(Seq::<Seq<char>>::empty().flatten() =~= Seq::<char>::empty());
    assert(json_quoted(Seq::empty()) =~= seq!['"', '"']);
    assert(json_quoted(s).drop_last() =~= seq!['"'] + parts.flatten());
    assert(json_quoted(s.push(c)) =~= json_quoted(s).drop_last() + escaped(c) + seq!['"']);
}

/// Rounding to a unit goes to the nearest multiple, never further off than half a
/// unit, and of two that are as near to the even one.
pub proof fn law_rounding_goes_to_the_nearest(n: nat, unit: nat)
    requires
        unit > 0,
    ensures
        2 * (nearest(n, unit) * unit - n) <= unit,
        2 * (n - nearest(n, unit) * unit) <= unit,
        2 * (nearest(n, unit) * unit - n) == unit || 2 * (n - nearest(n, unit) * unit) == unit
            ==> nearest(n, unit) % 2 == 0,
{
    let q = n / unit;
    let rest = n % unit;
    assert(n == q * unit + rest) by {
        vstd::arithmetic::div_mod::lemma_fundamental_div_mod(n as int, unit as int);
        assert(unit * q == q * unit) by (nonlinear_arith);
    }
    assert((q + 1) * unit == q * unit + unit) by (nonlinear_arith);
    assert(0 <= rest < unit) by {
        vstd::arithmetic::div_mod::lemma_mod_bound(n as int, unit as int);
    }
}

/// A whole number below two to the twenty-fourth is written exactly in single
/// precision: its mantissa is the number, shifted, and its exponent says how far.
pub proof fn law_small_numbers_are_exact_in_single_precision(n: nat)
    requires
        0 < n < 0x100_0000,
    ensures
        ({
            let bits = single_next_to(n);
            let exponent = bits / 0x80_0000;
            let mantissa = bits % 0x80_0000 + 0x80_0000;
            127 <= exponent <= 150 && mantissa == n * vstd::arithmetic::power2::pow2(
                (150 - exponent) as nat,
            )
        }),
{
    vstd::arithmetic::power2::lemma2_to64();
    lemma_scaled(n, n, 0);
}

proof fn lemma_scaled(n: nat, m: nat, k: nat)
    requires
        0 < n < 0x100_0000,
        0 < m < 0x100_0000,
        k <= 23,
        m == n * vstd::arithmetic::power2::pow2(k),
        m >= vstd::arithmetic::power2::pow2(k),
    ensures
        ({
            let bits = scaled_up(m, 150 - k);
            let exponent = bits / 0x80_0000;
            let mantissa = bits % 0x80_0000 + 0x80_0000;
            127 <= exponent <= 150 && mantissa == n * vstd::arithmetic::power2::pow2(
                (150 - exponent) as nat,
            )
        }),
    decreases 0x100_0000 - m,
{
    if m >= 0x80_0000 {
        let bits = scaled_up(m, 150 - k);
        assert(bits == (150 - k) * 0x80_0000 + (m - 0x80_0000));
        assert(bits / 0x80_0000 == 150 - k);
        assert(bits % 0x80_0000 == m - 0x80_0000);
    } else {
        vstd::arithmetic::power2::lemma_pow2_unfold(k + 1);
        vstd::arithmetic::power2::lemma2_to64();
        let p = vstd::arithmetic::power2::pow2(k);
        assert(n * (2 * p) == 2 * (n * p)) by (nonlinear_arith);
        if k == 23 {
            assert(p == 0x80_0000);
        }
        lemma_scaled(n, m * 2, k + 1);
        assert(150 - k - 1 == 150 - (k + 1));
    }
}

} // verus!

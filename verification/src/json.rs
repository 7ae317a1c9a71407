//! JSON values: the model, the canonical form with sorted keys, the compact
//! text, and the fingerprint made of it.
use vstd::prelude::*;
use vstd::string::*;

use vstd::arithmetic::power2::{lemma2_to64, lemma2_to64_rest, lemma_pow2_unfold, pow2};

use sha2::Digest;

use crate::text::{
    comes_before, decimal, decimal_of, hex_bytes, hex_bytes_of, hex_char, joined, lemma_text_order,
    same, text_less,
};

verus! {

// ---------------------------------------------------------------------------
// Values and their model
// ---------------------------------------------------------------------------

/// A JSON number: the text that the JSON printer writes for it, and what the
/// readers of numbers ask of it.
#[derive(Debug, Clone)]
pub struct JsonNumber {
    /// The number as it is printed.
    pub text: String,
    /// The value, if it is an unsigned integer of 64 bits.
    pub unsigned: Option<u64>,
    /// The bits of the nearest single-precision float.
    pub single_bits: u32,
}

/// The bits of the single-precision float `m * 2^(e - 150)`, for an `m` below `2^24`.
pub open spec fn scaled_up(m: nat, e: int) -> int
    decreases 0x100_0000 - m,
{
    if m == 0 || m >= 0x80_0000 {
        e * 0x80_0000 + (m - 0x80_0000)
    } else {
        scaled_up(m * 2, e - 1)
    }
}

/// How often `unit` goes into `n`, rounded to the nearest number, an even one where
/// two are as near.
pub open spec fn nearest(n: nat, unit: nat) -> nat {
    let rest = 2 * (n % unit);
    if rest > unit || (rest == unit && (n / unit) % 2 == 1) {
        n / unit + 1
    } else {
        n / unit
    }
}

/// The bits of the single-precision float next to `n`, where `unit` is `2^(e - 150)`
/// and no smaller unit leaves a number below `2^24`.
pub open spec fn scaled_down(n: nat, unit: nat, e: int) -> int
    decreases n - unit,
{
    if unit == 0 || unit * 2 > n || n / unit < 0x100_0000 {
        e * 0x80_0000 + (nearest(n, unit) - 0x80_0000)
    } else {
        scaled_down(n, unit * 2, e + 1)
    }
}

/// The multiple of a unit, from `unit` on in powers of two, next to `n`: of the first
/// unit that goes into `n` less than `limit` times.
pub open spec fn rounded(n: nat, unit: nat, limit: nat) -> nat
    decreases n - unit,
{
    if unit == 0 || unit * 2 > n || n / unit < limit {
        nearest(n, unit) * unit
    } else {
        rounded(n, unit * 2, limit)
    }
}

/// The double-precision float next to a whole number, which is a whole number too.
pub open spec fn double_of(n: nat) -> nat {
    rounded(n, 1, 0x20_0000_0000_0000)
}

/// The bits of the single-precision float that a whole number is read as: of the one
/// next to the double-precision float next to the number.
pub open spec fn single_of(n: nat) -> int {
    single_next_to(double_of(n))
}

/// The bits of the single-precision float next to a whole number.
pub open spec fn single_next_to(n: nat) -> int {
    if n == 0 {
        0
    } else if n < 0x100_0000 {
        scaled_up(n, 150)
    } else {
        scaled_down(n, 2, 151)
    }
}

fn double_from(n: u64) -> (r: u128)
    ensures
        r == double_of(n as nat),
        r <= 0x1_0000_0000_0000_0000,
{
    let mut unit: u64 = 1;
    while unit <= 1024 && n / unit >= 0x20_0000_0000_0000
        invariant
            unit == 1 || unit == 2 || unit == 4 || unit == 8 || unit == 16 || unit == 32 || unit
                == 64 || unit == 128 || unit == 256 || unit == 512 || unit == 1024 || unit == 2048,
            double_of(n as nat) == rounded(n as nat, unit as nat, 0x20_0000_0000_0000),
        decreases 2048 - unit,
    {
        unit = unit * 2;
    }
    let times = n / unit;
    let rest = n % unit;
    let up = rest > unit - rest || (rest == unit - rest && times % 2 == 1);
    let m: u128 = if up {
        times as u128 + 1
    } else {
        times as u128
    };
    proof {
        if unit == 2048 {
            assert(n / 2048 < 0x20_0000_0000_0000);
        }
        assert(n / unit < 0x20_0000_0000_0000);
    }
    assert(m == nearest(n as nat, unit as nat));
    assert(m <= 0x20_0000_0000_0000);
    m * (unit as u128)
}

fn single_bits_of(n: u64) -> (r: u32)
    ensures
        r == single_of(n as nat),
{
    single_bits_next_to(double_from(n))
}

fn single_bits_next_to(n: u128) -> (r: u32)
    requires
        n <= 0x1_0000_0000_0000_0000,
    ensures
        r == single_next_to(n as nat),
{
    proof {
        lemma2_to64();
        lemma2_to64_rest();
    }
    if n == 0 {
        return 0;
    }
    if n < 0x100_0000 {
        let mut m: u128 = n;
        let mut e: u128 = 150;
        while m < 0x80_0000
            invariant
                0 < m < 0x100_0000,
                127 <= e <= 150,
                m >= pow2((150 - e) as nat),
                pow2(23) == 0x80_0000,
                scaled_up(n as nat, 150) == scaled_up(m as nat, e as int),
            decreases 0x100_0000 - m,
        {
            proof {
                lemma_pow2_unfold((151 - e) as nat);
                if e == 127 {
                    assert(m >= pow2(23));
                }
            }
            m = m * 2;
            e = e - 1;
        }
        return (e * 0x80_0000 + (m - 0x80_0000)) as u32;
    }
    let mut unit: u128 = 2;
    let mut e: u128 = 151;
    proof {
        lemma_pow2_unfold(1);
        assert(n as nat / 2 >= 0x80_0000);
    }
    while n / unit >= 0x100_0000
        invariant
            n >= 0x100_0000,
            n <= 0x1_0000_0000_0000_0000,
            151 <= e <= 191,
            0 < unit <= n,
            unit == pow2((e - 150) as nat),
            n / unit >= 0x80_0000,
            pow2(41) == 0x200_0000_0000,
            scaled_down(n as nat, 2, 151) == scaled_down(n as nat, unit as nat, e as int),
        decreases n - unit,
    {
        proof {
            lemma_pow2_unfold((e - 149) as nat);
            lemma_halved(n as int, unit as int);
            if e == 191 {
                assert(unit == pow2(41));
                assert(n / 0x200_0000_0000 < 0x100_0000);
            }
        }
        unit = unit * 2;
        e = e + 1;
    }
    let times = n / unit;
    let rest = n % unit;
    let up = rest > unit - rest || (rest == unit - rest && times % 2 == 1);
    let m: u128 = if up {
        times + 1
    } else {
        times
    };
    (e * 0x80_0000 + (m - 0x80_0000)) as u32
}

proof fn lemma_halved(n: int, unit: int)
    requires
        unit > 0,
        n / unit >= 0x100_0000,
    ensures
        unit * 2 <= n,
        n / (unit * 2) >= 0x80_0000,
{
    assert(n >= 0x100_0000 * unit) by (nonlinear_arith)
        requires
            unit > 0,
            n / unit >= 0x100_0000,
    ;
    assert(n / (unit * 2) >= 0x80_0000) by (nonlinear_arith)
        requires
            unit > 0,
            n >= 0x80_0000 * (unit * 2),
    ;
}

/// A JSON value.
#[derive(Debug)]
pub enum Json {
    Null,
    Bool(bool),
    Number(JsonNumber),
    Text(String),
    Array(Vec<Json>),
    Object(Vec<(String, Json)>),
}

/// What a JSON value is.
pub enum JsonModel {
    Null,
    Bool(bool),
    Number(Seq<char>, Option<u64>, u32),
    Text(Seq<char>),
    Array(Seq<JsonModel>),
    Object(Seq<(Seq<char>, JsonModel)>),
}

/// A whole number, as a JSON value.
pub open spec fn whole_model(n: u64) -> JsonModel {
    JsonModel::Number(decimal(n as nat), Some(n), single_of(n as nat) as u32)
}

/// The model of a value.
pub open spec fn model(j: Json) -> JsonModel
    decreases j,
{
    match j {
        Json::Null => JsonModel::Null,
        Json::Bool(b) => JsonModel::Bool(b),
        Json::Number(n) => JsonModel::Number(n.text@, n.unsigned, n.single_bits),
        Json::Text(s) => JsonModel::Text(s@),
        Json::Array(v) => JsonModel::Array(
            Seq::new(
                v@.len(),
                |i: int|
                    if 0 <= i < v@.len() {
                        model(v@[i])
                    } else {
                        JsonModel::Null
                    },
            ),
        ),
        Json::Object(v) => JsonModel::Object(
            Seq::new(
                v@.len(),
                |i: int|
                    if 0 <= i < v@.len() {
                        (v@[i].0@, model(v@[i].1))
                    } else {
                        (Seq::empty(), JsonModel::Null)
                    },
            ),
        ),
    }
}

impl View for Json {
    type V = JsonModel;

    open spec fn view(&self) -> JsonModel {
        model(*self)
    }
}

/// The models of the values of a list.
pub open spec fn models(v: Seq<Json>) -> Seq<JsonModel> {
    v.map_values(|j: Json| j@)
}

/// The models of the members of an object.
pub open spec fn member_models(v: Seq<(String, Json)>) -> Seq<(Seq<char>, JsonModel)> {
    v.map_values(|p: (String, Json)| (p.0@, p.1@))
}

/// The models of lists and objects are those of their parts.
pub proof fn lemma_model_parts(j: Json)
    ensures
        j matches Json::Array(v) ==> j@ == JsonModel::Array(models(v@)),
        j matches Json::Object(v) ==> j@ == JsonModel::Object(member_models(v@)),
{
    match j {
        Json::Array(v) => {
            assert(j@->Array_0 =~= models(v@));
        },
        Json::Object(v) => {
            assert(j@->Object_0 =~= member_models(v@));
        },
        _ => {},
    }
}

impl Clone for Json {
    fn clone(&self) -> (r: Self)
        ensures
            r@ == self@,
        decreases self,
    {
        match self {
            Json::Null => Json::Null,
            Json::Bool(b) => Json::Bool(*b),
            Json::Number(n) => Json::Number(
                JsonNumber {
                    text: n.text.clone(),
                    unsigned: n.unsigned,
                    single_bits: n.single_bits,
                },
            ),
            Json::Text(s) => Json::Text(s.clone()),
            Json::Array(v) => {
                let mut out: Vec<Json> = Vec::new();
                let mut i: usize = 0;
                while i < v.len()
                    invariant
                        i <= v@.len(),
                        out@.len() == i,
                        forall|k: int| 0 <= k < i ==> (#[trigger] out@[k])@ == v@[k]@,
                        decreases_to!(self => v),
                    decreases v.len() - i,
                {
                    out.push(v[i].clone());
                    i += 1;
                }
                let r = Json::Array(out);
                assert(r@->Array_0 =~= self@->Array_0);
                r
            },
            Json::Object(v) => {
                let mut out: Vec<(String, Json)> = Vec::new();
                let mut i: usize = 0;
                while i < v.len()
                    invariant
                        i <= v@.len(),
                        out@.len() == i,
                        forall|k: int|
                            0 <= k < i ==> (#[trigger] out@[k]).1@ == v@[k].1@ && out@[k].0@
                                == v@[k].0@,
                        decreases_to!(self => v),
                    decreases v.len() - i,
                {
                    out.push((v[i].0.clone(), v[i].1.clone()));
                    i += 1;
                }
                let r = Json::Object(out);
                assert(r@->Object_0 =~= self@->Object_0);
                r
            },
        }
    }
}

// ---------------------------------------------------------------------------
// Reading
// ---------------------------------------------------------------------------

/// The first member of an object under a key.
pub open spec fn member(members: Seq<(Seq<char>, JsonModel)>, key: Seq<char>) -> Option<JsonModel>
    decreases members.len(),
{
    if members.len() == 0 {
        None
    } else if members[0].0 == key {
        Some(members[0].1)
    } else {
        member(members.skip(1), key)
    }
}

/// What `get` finds under a key: nothing in a value that is no object.
pub open spec fn field(j: JsonModel, key: Seq<char>) -> Option<JsonModel> {
    match j {
        JsonModel::Object(members) => member(members, key),
        _ => None,
    }
}

/// The text of a value that is a text.
pub open spec fn text_of(j: JsonModel) -> Option<Seq<char>> {
    match j {
        JsonModel::Text(s) => Some(s),
        _ => None,
    }
}

/// The unsigned integer of a value that is one.
pub open spec fn unsigned_of(j: JsonModel) -> Option<u64> {
    match j {
        JsonModel::Number(_, u, _) => u,
        _ => None,
    }
}

impl Json {
    /// A text value.
    pub fn text(s: &str) -> (r: Self)
        ensures
            r@ == JsonModel::Text(s@),
    {
        Json::Text(s.to_string())
    }

    /// Whether the value is `null`.
    pub fn is_null(&self) -> (r: bool)
        ensures
            r == (self@ is Null),
    {
        match self {
            Json::Null => true,
            _ => false,
        }
    }

    /// The member under a key, if the value is an object that has it.
    pub fn get(&self, key: &str) -> (r: Option<&Json>)
        ensures
            match r {
                Some(v) => field(self@, key@) == Some(v@),
                None => field(self@, key@) is None,
            },
    {
        proof {
            lemma_model_parts(*self);
        }
        match self {
            Json::Object(members) => {
                let ghost all = member_models(members@);
                let mut i: usize = 0;
                assert(all.skip(0) =~= all);
                while i < members.len()
                    invariant
                        i <= members@.len(),
                        all == member_models(members@),
                        self@ == JsonModel::Object(all),
                        member(all, key@) == member(all.skip(i as int), key@),
                    decreases members.len() - i,
                {
                    assert(all.skip(i as int)[0] == (members@[i as int].0@, members@[i as int].1@));
                    if same(&members[i].0, key) {
                        return Some(&members[i].1);
                    }
                    assert(all.skip(i as int).skip(1) =~= all.skip(i + 1));
                    i += 1;
                }
                None
            },
            _ => None,
        }
    }

    /// The text, if the value is one.
    pub fn as_str(&self) -> (r: Option<&String>)
        ensures
            match r {
                Some(s) => text_of(self@) == Some(s@),
                None => text_of(self@) is None,
            },
    {
        match self {
            Json::Text(s) => Some(s),
            _ => None,
        }
    }

    /// The unsigned integer, if the value is one.
    pub fn as_u64(&self) -> (r: Option<u64>)
        ensures
            r == unsigned_of(self@),
    {
        match self {
            Json::Number(n) => n.unsigned,
            _ => None,
        }
    }

    /// The truth value, if the value is one.
    pub fn as_bool(&self) -> (r: Option<bool>)
        ensures
            r == match self@ {
                JsonModel::Bool(b) => Some(b),
                _ => None,
            },
    {
        match self {
            Json::Bool(b) => Some(*b),
            _ => None,
        }
    }

    /// An object of some members.
    pub fn object(members: Vec<(String, Json)>) -> (r: Self)
        ensures
            r@ == JsonModel::Object(member_models(members@)),
    {
        let r = Json::Object(members);
        proof {
            lemma_model_parts(r);
        }
        r
    }

    /// A whole number.
    pub fn whole(n: u64) -> (r: Self)
        ensures
            r@ == whole_model(n),
    {
        Json::Number(
            JsonNumber { text: decimal_of(n), unsigned: Some(n), single_bits: single_bits_of(n) },
        )
    }

    /// The bits of the nearest single-precision float, if the value is a
    /// number.
    pub fn as_single_bits(&self) -> (r: Option<u32>)
        ensures
            r == match self@ {
                JsonModel::Number(_, _, bits) => Some(bits),
                _ => None,
            },
    {
        match self {
            Json::Number(n) => Some(n.single_bits),
            _ => None,
        }
    }
}

// ---------------------------------------------------------------------------
// Sorting by key
// ---------------------------------------------------------------------------

/// `p` put into `s` before the first pair with a greater key.
pub open spec fn insert_pair<V>(s: Seq<(Seq<char>, V)>, p: (Seq<char>, V)) -> Seq<(Seq<char>, V)>
    decreases s.len(),
{
    if s.len() == 0 {
        seq![p]
    } else if text_less(p.0, s.last().0) {
        insert_pair(s.drop_last(), p).push(s.last())
    } else {
        s.push(p)
    }
}

/// The pairs in the order of their keys; pairs of equal keys keep their order.
pub open spec fn sort_pairs<V>(s: Seq<(Seq<char>, V)>) -> Seq<(Seq<char>, V)>
    decreases s.len(),
{
    if s.len() == 0 {
        s
    } else {
        insert_pair(sort_pairs(s.drop_last()), s.last())
    }
}

/// Whether the keys ascend strictly.
pub open spec fn ascending<V>(s: Seq<(Seq<char>, V)>) -> bool {
    forall|i: int, j: int| 0 <= i < j < s.len() ==> text_less(#[trigger] s[i].0, #[trigger] s[j].0)
}

/// Whether no key occurs twice.
pub open spec fn keys_differ<V>(s: Seq<(Seq<char>, V)>) -> bool {
    forall|i: int, j: int| 0 <= i < j < s.len() ==> #[trigger] s[i].0 != #[trigger] s[j].0
}

proof fn lemma_insert_pair<V>(s: Seq<(Seq<char>, V)>, p: (Seq<char>, V))
    requires
        ascending(s),
        forall|i: int| 0 <= i < s.len() ==> (#[trigger] s[i]).0 != p.0,
    ensures
        ascending(insert_pair(s, p)),
        insert_pair(s, p).len() == s.len() + 1,
        forall|q: (Seq<char>, V)|
            #![trigger insert_pair(s, p).contains(q)]
            #![trigger s.contains(q)]
            insert_pair(s, p).contains(q) <==> (s.contains(q) || q == p),
        insert_pair(s, p).contains(p),
    decreases s.len(),
{
    if s.len() == 0 {
        assert(insert_pair(s, p)[0] == p);
    } else if text_less(p.0, s.last().0) {
        let head = s.drop_last();
        let part = insert_pair(head, p);
        lemma_insert_pair(head, p);
        let all = part.push(s.last());
        assert forall|i: int, j: int| 0 <= i < j < all.len() implies text_less(
            #[trigger] all[i].0,
            #[trigger] all[j].0,
        ) by {
            if j == all.len() - 1 {
                assert(part.contains(part[i]));
                if part[i] == p {
                } else {
                    assert(head.contains(part[i]));
                    let k = choose|k: int| 0 <= k < head.len() && head[k] == part[i];
                    assert(text_less(s[k].0, s[s.len() - 1].0));
                }
            }
        }
        assert forall|q: (Seq<char>, V)|
            #![trigger all.contains(q)]
            #![trigger s.contains(q)]
            all.contains(q) <==> (s.contains(q) || q == p) by {
            if all.contains(q) {
                let k = choose|k: int| 0 <= k < all.len() && all[k] == q;
                if k < part.len() {
                    assert(part.contains(q));
                    if q != p {
                        let m = choose|m: int| 0 <= m < head.len() && head[m] == q;
                        assert(s[m] == q);
                    }
                } else {
                    assert(s[s.len() - 1] == q);
                }
            }
            if s.contains(q) {
                let k = choose|k: int| 0 <= k < s.len() && s[k] == q;
                if k < head.len() {
                    assert(head[k] == q);
                    assert(part.contains(q));
                    let m = choose|m: int| 0 <= m < part.len() && part[m] == q;
                    assert(all[m] == q);
                } else {
                    assert(all[part.len() as int] == q);
                }
            }
            if q == p {
                assert(part.contains(q));
                let m = choose|m: int| 0 <= m < part.len() && part[m] == q;
                assert(all[m] == q);
            }
        }
    } else {
        let all = s.push(p);
        assert forall|i: int, j: int| 0 <= i < j < all.len() implies text_less(
            #[trigger] all[i].0,
            #[trigger] all[j].0,
        ) by {
            if j == all.len() - 1 {
                lemma_text_order(s.last().0, p.0, p.0);
                lemma_text_order(s[i].0, s.last().0, p.0);
                if i < s.len() - 1 {
                    assert(text_less(s[i].0, s[s.len() - 1].0));
                }
            }
        }
        assert forall|q: (Seq<char>, V)|
            #![trigger all.contains(q)]
            #![trigger s.contains(q)]
            all.contains(q) <==> (s.contains(q) || q == p) by {
            if s.contains(q) {
                let k = choose|k: int| 0 <= k < s.len() && s[k] == q;
                assert(all[k] == q);
            }
            if q == p {
                assert(all[s.len() as int] == q);
            }
        }
    }
}

/// Sorting pairs of different keys gives the same pairs in ascending order.
pub proof fn lemma_sort_pairs<V>(s: Seq<(Seq<char>, V)>)
    requires
        keys_differ(s),
    ensures
        ascending(sort_pairs(s)),
        sort_pairs(s).len() == s.len(),
        forall|q: (Seq<char>, V)|
            #![trigger sort_pairs(s).contains(q)]
            #![trigger s.contains(q)]
            sort_pairs(s).contains(q) <==> s.contains(q),
    decreases s.len(),
{
    if s.len() > 0 {
        let head = s.drop_last();
        let sorted = sort_pairs(head);
        assert(keys_differ(head)) by {
            assert forall|i: int, j: int| 0 <= i < j < head.len() implies #[trigger] head[i].0
                != #[trigger] head[j].0 by {
                assert(s[i].0 != s[j].0);
            }
        }
        lemma_sort_pairs(head);
        assert forall|i: int| 0 <= i < sorted.len() implies (#[trigger] sorted[i]).0
            != s.last().0 by {
            assert(sorted.contains(sorted[i]));
            let k = choose|k: int| 0 <= k < head.len() && head[k] == sorted[i];
            assert(s[k].0 != s[s.len() - 1].0);
        }
        lemma_insert_pair(sorted, s.last());
        assert forall|q: (Seq<char>, V)|
            #![trigger sort_pairs(s).contains(q)]
            #![trigger s.contains(q)]
            sort_pairs(s).contains(q) <==> s.contains(q) by {
            if s.contains(q) {
                let k = choose|k: int| 0 <= k < s.len() && s[k] == q;
                if k < head.len() {
                    assert(head[k] == q);
                }
            }
            if head.contains(q) {
                let k = choose|k: int| 0 <= k < head.len() && head[k] == q;
                assert(s[k] == q);
            }
        }
    }
}

/// Two ascending sequences that hold the same pairs are the same.
pub proof fn lemma_ascending_unique<V>(a: Seq<(Seq<char>, V)>, b: Seq<(Seq<char>, V)>)
    requires
        ascending(a),
        ascending(b),
        forall|q: (Seq<char>, V)|
            #![trigger a.contains(q)]
            #![trigger b.contains(q)]
            a.contains(q) <==> b.contains(q),
    ensures
        a == b,
    decreases a.len(),
{
    if a.len() == 0 {
        if b.len() > 0 {
            assert(b.contains(b[0]));
        }
        assert(a =~= b);
    } else {
        assert(a.contains(a[0]));
        assert(b.len() > 0);
        let x = a.last();
        let y = b.last();
        assert(a[a.len() - 1] == x && b[b.len() - 1] == y);
        assert(a.contains(x) && b.contains(y));
        let i = choose|i: int| 0 <= i < b.len() && b[i] == x;
        let j = choose|j: int| 0 <= j < a.len() && a[j] == y;
        assert(i == b.len() - 1) by {
            if i < b.len() - 1 {
                assert(text_less(b[i].0, b[b.len() - 1].0));
                if j < a.len() - 1 {
                    assert(text_less(a[j].0, a[a.len() - 1].0));
                }
                lemma_text_order(x.0, y.0, x.0);
            }
        }
        assert(x == y);
        let p = a.drop_last();
        let q = b.drop_last();
        assert forall|r: (Seq<char>, V)|
            #![trigger p.contains(r)]
            #![trigger q.contains(r)]
            p.contains(r) <==> q.contains(r) by {
            lemma_drop_last_contains(a, r);
            lemma_drop_last_contains(b, r);
        }
        assert(ascending(p)) by {
            assert forall|i: int, j: int| 0 <= i < j < p.len() implies text_less(
                #[trigger] p[i].0,
                #[trigger] p[j].0,
            ) by {
                assert(text_less(a[i].0, a[j].0));
            }
        }
        assert(ascending(q)) by {
            assert forall|i: int, j: int| 0 <= i < j < q.len() implies text_less(
                #[trigger] q[i].0,
                #[trigger] q[j].0,
            ) by {
                assert(text_less(b[i].0, b[j].0));
            }
        }
        lemma_ascending_unique(p, q);
        assert(a =~= p.push(x));
        assert(b =~= q.push(y));
    }
}

proof fn lemma_drop_last_contains<V>(a: Seq<(Seq<char>, V)>, r: (Seq<char>, V))
    requires
        ascending(a),
        a.len() > 0,
    ensures
        a.drop_last().contains(r) <==> (a.contains(r) && r != a.last()),
{
    let p = a.drop_last();
    if p.contains(r) {
        let k = choose|k: int| 0 <= k < p.len() && p[k] == r;
        assert(a[k] == r);
        assert(text_less(a[k].0, a[a.len() - 1].0));
        lemma_text_order(r.0, r.0, r.0);
    }
    if a.contains(r) && r != a.last() {
        let k = choose|k: int| 0 <= k < a.len() && a[k] == r;
        assert(p[k] == r);
    }
}

// ---------------------------------------------------------------------------
// The canonical form
// ---------------------------------------------------------------------------

/// The value with the members of every object in the order of their keys.
pub open spec fn canonical(j: JsonModel) -> JsonModel
    decreases j, 0nat,
{
    match j {
        JsonModel::Object(members) => JsonModel::Object(
            sort_pairs(canonical_members(members, members.len())),
        ),
        JsonModel::Array(items) => JsonModel::Array(
            Seq::new(
                items.len(),
                |i: int|
                    if 0 <= i < items.len() {
                        canonical(items[i])
                    } else {
                        JsonModel::Null
                    },
            ),
        ),
        other => other,
    }
}

/// The first `n` members of an object, each in canonical form.
pub open spec fn canonical_members(members: Seq<(Seq<char>, JsonModel)>, n: nat) -> Seq<
    (Seq<char>, JsonModel),
>
    decreases members, n,
{
    if n == 0 || n > members.len() {
        Seq::empty()
    } else {
        canonical_members(members, (n - 1) as nat).push(
            (members[n - 1].0, canonical(members[n - 1].1)),
        )
    }
}

/// The members in canonical form are the members, each in canonical form.
pub proof fn lemma_canonical_members(members: Seq<(Seq<char>, JsonModel)>, n: nat)
    requires
        n <= members.len(),
    ensures
        canonical_members(members, n).len() == n,
        forall|k: int|
            0 <= k < n ==> #[trigger] canonical_members(members, n)[k] == (
                members[k].0,
                canonical(members[k].1),
            ),
    decreases n,
{
    if n > 0 {
        lemma_canonical_members(members, (n - 1) as nat);
    }
}

/// Puts a member among members sorted by key.
fn insert_member(members: &mut Vec<(String, Json)>, key: String, value: Json)
    ensures
        member_models(final(members)@) == insert_pair(
            member_models(old(members)@),
            (key@, value@),
        ),
    decreases old(members)@.len(),
{
    let ghost before = members@;
    match members.pop() {
        None => {
            members.push((key, value));
            assert(member_models(members@) =~= seq![(key@, value@)]);
        },
        Some((last_key, last_value)) => {
            let ghost head = members@;
            assert(member_models(before).drop_last() =~= member_models(head));
            assert(member_models(before).last() == (last_key@, last_value@));
            if comes_before(&key, &last_key) {
                insert_member(members, key, value);
                let ghost mid = members@;
                members.push((last_key, last_value));
                assert(member_models(members@) =~= member_models(mid).push(
                    (last_key@, last_value@),
                ));
            } else {
                members.push((last_key, last_value));
                members.push((key, value));
                assert(member_models(members@) =~= member_models(before).push((key@, value@)));
            }
        },
    }
}

/// Rebuilds a JSON value with the keys of every object sorted, so that what is
/// computed from it does not depend on the order of the members.
pub fn canonicalize_json(value: &Json) -> (r: Json)
    ensures
        r@ == canonical(value@),
    decreases value,
{
    proof {
        lemma_model_parts(*value);
    }
    match value {
        Json::Object(members) => {
            let mut out: Vec<(String, Json)> = Vec::new();
            let mut i: usize = 0;
            let ghost m = member_models(members@);
            let ghost all = canonical_members(m, m.len());
            proof {
                lemma_canonical_members(m, m.len());
                assert(member_models(out@) =~= all.take(0));
            }
            while i < members.len()
                invariant
                    i <= members@.len(),
                    m == member_models(members@),
                    all.len() == m.len(),
                    forall|k: int|
                        0 <= k < m.len() ==> #[trigger] all[k] == (m[k].0, canonical(m[k].1)),
                    member_models(out@) == sort_pairs(all.take(i as int)),
                    decreases_to!(value => members),
                decreases members.len() - i,
            {
                let sub = canonicalize_json(&members[i].1);
                insert_member(&mut out, members[i].0.clone(), sub);
                proof {
                    assert(all.take(i + 1).drop_last() =~= all.take(i as int));
                    assert(all.take(i + 1).last() == all[i as int]);
                }
                i += 1;
            }
            assert(all.take(members@.len() as int) =~= all);
            let r = Json::Object(out);
            proof {
                lemma_model_parts(r);
            }
            r
        },
        Json::Array(items) => {
            let mut out: Vec<Json> = Vec::new();
            let mut i: usize = 0;
            while i < items.len()
                invariant
                    i <= items@.len(),
                    out@.len() == i,
                    forall|k: int| 0 <= k < i ==> (#[trigger] out@[k])@ == canonical(items@[k]@),
                    decreases_to!(value => items),
                decreases items.len() - i,
            {
                out.push(canonicalize_json(&items[i]));
                i += 1;
            }
            let r = Json::Array(out);
            assert(r@->Array_0 =~= canonical(value@)->Array_0);
            r
        },
        other => other.clone(),
    }
}

/// Whether two values hold the same, whatever the order of the members of their
/// objects is; the keys of an object differ.
pub open spec fn same_content(a: JsonModel, b: JsonModel) -> bool
    decreases a,
{
    match (a, b) {
        (JsonModel::Object(x), JsonModel::Object(y)) => {
            &&& keys_differ(x)
            &&& keys_differ(y)
            &&& x.len() == y.len()
            &&& forall|i: int|
                0 <= i < x.len() ==> exists|j: int|
                    0 <= j < y.len() && #[trigger] y[j].0 == (#[trigger] x[i]).0 && same_content(
                        x[i].1,
                        y[j].1,
                    )
        },
        (JsonModel::Array(x), JsonModel::Array(y)) => {
            &&& x.len() == y.len()
            &&& forall|i: int| 0 <= i < x.len() ==> same_content(#[trigger] x[i], y[i])
        },
        _ => a == b,
    }
}

/// The canonical form does not depend on the order in which the members of the
/// objects were put in.
pub proof fn law_canonical_ignores_member_order(a: JsonModel, b: JsonModel)
    requires
        same_content(a, b),
    ensures
        canonical(a) == canonical(b),
    decreases a,
{
    match (a, b) {
        (JsonModel::Object(x), JsonModel::Object(y)) => {
            let cx = canonical_members(x, x.len());
            let cy = canonical_members(y, y.len());
            lemma_canonical_members(x, x.len());
            lemma_canonical_members(y, y.len());
            assert(keys_differ(cx)) by {
                assert forall|i: int, j: int| 0 <= i < j < cx.len() implies #[trigger] cx[i].0
                    != #[trigger] cx[j].0 by {
                    assert(x[i].0 != x[j].0);
                }
            }
            assert(keys_differ(cy)) by {
                assert forall|i: int, j: int| 0 <= i < j < cy.len() implies #[trigger] cy[i].0
                    != #[trigger] cy[j].0 by {
                    assert(y[i].0 != y[j].0);
                }
            }
            lemma_sort_pairs(cx);
            lemma_sort_pairs(cy);
            let partner = |i: int|
                choose|j: int|
                    0 <= j < y.len() && #[trigger] y[j].0 == x[i].0 && same_content(x[i].1, y[j].1);
            assert forall|i: int| 0 <= i < x.len() implies {
                let j = #[trigger] partner(i);
                0 <= j < y.len() && cx[i] == cy[j]
            } by {
                let j = partner(i);
                assert(x[i].0 == x[i].0);
                assert(exists|j: int|
                    0 <= j < y.len() && #[trigger] y[j].0 == x[i].0 && same_content(
                        x[i].1,
                        y[j].1,
                    ));
                law_canonical_ignores_member_order(x[i].1, y[j].1);
            }
            assert forall|q: (Seq<char>, JsonModel)| cx.contains(q) implies cy.contains(q) by {
                let i = choose|i: int| 0 <= i < cx.len() && cx[i] == q;
                let j = partner(i);
                assert(cy[j] == q);
            }
            lemma_covered(cx, cy);
            assert forall|q: (Seq<char>, JsonModel)|
                #![trigger sort_pairs(cx).contains(q)]
                #![trigger sort_pairs(cy).contains(q)]
                sort_pairs(cx).contains(q) <==> sort_pairs(cy).contains(q) by {
                assert(cx.contains(q) <==> cy.contains(q));
            }
            lemma_ascending_unique(sort_pairs(cx), sort_pairs(cy));
        },
        (JsonModel::Array(x), JsonModel::Array(y)) => {
            assert forall|i: int| 0 <= i < x.len() implies canonical(#[trigger] x[i]) == canonical(
                y[i],
            ) by {
                law_canonical_ignores_member_order(x[i], y[i]);
            }
            assert(canonical(a)->Array_0 =~= canonical(b)->Array_0);
        },
        _ => {},
    }
}

/// Of two sequences of one length with different keys, where one holds every
/// pair of the other, each holds the pairs of the other.
proof fn lemma_covered(a: Seq<(Seq<char>, JsonModel)>, b: Seq<(Seq<char>, JsonModel)>)
    requires
        a.len() == b.len(),
        keys_differ(a),
        keys_differ(b),
        forall|q: (Seq<char>, JsonModel)| #[trigger] a.contains(q) ==> b.contains(q),
    ensures
        forall|q: (Seq<char>, JsonModel)| #[trigger] b.contains(q) ==> a.contains(q),
{
    assert(a.no_duplicates()) by {
        assert forall|i: int, j: int| 0 <= i < a.len() && 0 <= j < a.len() && i != j implies a[i]
            != a[j] by {
            if i < j {
                assert(a[i].0 != a[j].0);
            } else {
                assert(a[j].0 != a[i].0);
            }
        }
    }
    assert(b.no_duplicates()) by {
        assert forall|i: int, j: int| 0 <= i < b.len() && 0 <= j < b.len() && i != j implies b[i]
            != b[j] by {
            if i < j {
                assert(b[i].0 != b[j].0);
            } else {
                assert(b[j].0 != b[i].0);
            }
        }
    }
    a.unique_seq_to_set();
    b.unique_seq_to_set();
    assert(a.to_set().subset_of(b.to_set()));
    vstd::set_lib::lemma_len_subset(a.to_set(), b.to_set());
    vstd::set_lib::lemma_subset_equality(a.to_set(), b.to_set());
    assert forall|q: (Seq<char>, JsonModel)| b.contains(q) implies a.contains(q) by {
        assert(b.to_set().contains(q));
    }
}

// ---------------------------------------------------------------------------
// Equality
// ---------------------------------------------------------------------------

/// Whether a number is a floating-point zero of either sign.
pub open spec fn is_float_zero(text: Seq<char>) -> bool {
    text == "0.0"@ || text == "-0.0"@
}

/// Whether two values are equal part by part; the two floating-point zeros are
/// equal numbers.
pub open spec fn alike(a: JsonModel, b: JsonModel) -> bool
    decreases a,
{
    match (a, b) {
        (JsonModel::Object(x), JsonModel::Object(y)) => {
            &&& x.len() == y.len()
            &&& forall|i: int|
                0 <= i < x.len() ==> (#[trigger] x[i]).0 == y[i].0 && alike(x[i].1, y[i].1)
        },
        (JsonModel::Array(x), JsonModel::Array(y)) => {
            &&& x.len() == y.len()
            &&& forall|i: int| 0 <= i < x.len() ==> alike(#[trigger] x[i], y[i])
        },
        (JsonModel::Number(s, _, _), JsonModel::Number(t, _, _)) => s == t || (is_float_zero(s)
            && is_float_zero(t)),
        (JsonModel::Text(s), JsonModel::Text(t)) => s == t,
        (JsonModel::Bool(s), JsonModel::Bool(t)) => s == t,
        (JsonModel::Null, JsonModel::Null) => true,
        _ => false,
    }
}

/// Equality of JSON values: objects are equal when they have equal members,
/// whatever their order.
pub open spec fn equal(a: JsonModel, b: JsonModel) -> bool {
    alike(canonical(a), canonical(b))
}

/// Every value is equal to itself.
pub proof fn lemma_alike_reflexive(a: JsonModel)
    ensures
        alike(a, a),
    decreases a,
{
    match a {
        JsonModel::Object(x) => {
            assert forall|i: int| 0 <= i < x.len() implies (#[trigger] x[i]).0 == x[i].0 && alike(
                x[i].1,
                x[i].1,
            ) by {
                lemma_alike_reflexive(x[i].1);
            }
        },
        JsonModel::Array(x) => {
            assert forall|i: int| 0 <= i < x.len() implies alike(#[trigger] x[i], x[i]) by {
                lemma_alike_reflexive(x[i]);
            }
        },
        _ => {},
    }
}

fn is_zero_text(s: &str) -> (r: bool)
    ensures
        r == is_float_zero(s@),
{
    same(s, "0.0") || same(s, "-0.0")
}

fn alike_exec(a: &Json, b: &Json) -> (r: bool)
    ensures
        r == alike(a@, b@),
    decreases a,
{
    proof {
        lemma_model_parts(*a);
        lemma_model_parts(*b);
    }
    match (a, b) {
        (Json::Object(x), Json::Object(y)) => {
            if x.len() != y.len() {
                return false;
            }
            let mut i: usize = 0;
            while i < x.len()
                invariant
                    i <= x@.len(),
                    x@.len() == y@.len(),
                    a@ == JsonModel::Object(member_models(x@)),
                    b@ == JsonModel::Object(member_models(y@)),
                    forall|k: int|
                        0 <= k < i ==> (#[trigger] member_models(x@)[k]).0 == member_models(
                            y@,
                        )[k].0 && alike(member_models(x@)[k].1, member_models(y@)[k].1),
                    decreases_to!(a => x),
                decreases x.len() - i,
            {
                let here = same(&x[i].0, &y[i].0) && alike_exec(&x[i].1, &y[i].1);
                if !here {
                    assert(member_models(x@)[i as int] == (x@[i as int].0@, x@[i as int].1@));
                    return false;
                }
                i += 1;
            }
            true
        },
        (Json::Array(x), Json::Array(y)) => {
            if x.len() != y.len() {
                return false;
            }
            let mut i: usize = 0;
            while i < x.len()
                invariant
                    i <= x@.len(),
                    x@.len() == y@.len(),
                    a@ == JsonModel::Array(models(x@)),
                    b@ == JsonModel::Array(models(y@)),
                    forall|k: int|
                        0 <= k < i ==> alike(#[trigger] models(x@)[k], models(y@)[k]),
                    decreases_to!(a => x),
                decreases x.len() - i,
            {
                if !alike_exec(&x[i], &y[i]) {
                    assert(!alike(models(x@)[i as int], models(y@)[i as int]));
                    return false;
                }
                i += 1;
            }
            true
        },
        (Json::Number(s), Json::Number(t)) => same(&s.text, &t.text) || (is_zero_text(&s.text)
            && is_zero_text(&t.text)),
        (Json::Text(s), Json::Text(t)) => same(s, t),
        (Json::Bool(s), Json::Bool(t)) => *s == *t,
        (Json::Null, Json::Null) => true,
        _ => false,
    }
}

/// Whether two JSON values are equal.
pub fn json_equal(a: &Json, b: &Json) -> (r: bool)
    ensures
        r == equal(a@, b@),
{
    alike_exec(&canonicalize_json(a), &canonicalize_json(b))
}

// ---------------------------------------------------------------------------
// Compact text
// ---------------------------------------------------------------------------

/// A character inside of a JSON string literal: quotes, backslashes and control
/// characters are escaped.
pub open spec fn escaped(c: char) -> Seq<char> {
    let n = c as int;
    if c == '"' || c == '\\' {
        seq!['\\', c]
    } else if n == 8 {
        seq!['\\', 'b']
    } else if n == 9 {
        seq!['\\', 't']
    } else if n == 10 {
        seq!['\\', 'n']
    } else if n == 12 {
        seq!['\\', 'f']
    } else if n == 13 {
        seq!['\\', 'r']
    } else if n < 32 {
        seq!['\\', 'u', '0', '0', hex_char(n / 16), hex_char(n % 16)]
    } else {
        seq![c]
    }
}

/// A text as a JSON string literal, quoted and escaped.
pub open spec fn json_quoted(s: Seq<char>) -> Seq<char> {
    seq!['"'] + s.map_values(|c: char| escaped(c)).flatten() + seq!['"']
}

/// The printing of a string value by `serde_json`: the text in double quotes, with
/// quotes, backslashes and the control characters below the space escaped.
#[verifier::external_body]
fn json_quote(s: &str) -> (r: String)
    ensures
        r@ == json_quoted(s@),
{
    serde_json::Value::String(s.to_string()).to_string()
}

/// The compact JSON text of a value.
pub open spec fn printed(j: JsonModel) -> Seq<char>
    decreases j, 0nat,
{
    match j {
        JsonModel::Null => "null"@,
        JsonModel::Bool(b) => if b {
            "true"@
        } else {
            "false"@
        },
        JsonModel::Number(text, _, _) => text,
        JsonModel::Text(s) => json_quoted(s),
        JsonModel::Array(items) => "["@ + joined(printed_items(items, items.len()), ","@) + "]"@,
        JsonModel::Object(members) => "{"@ + joined(
            printed_members(members, members.len()),
            ","@,
        ) + "}"@,
    }
}

/// The texts of the first `n` items of a list.
pub open spec fn printed_items(items: Seq<JsonModel>, n: nat) -> Seq<Seq<char>>
    decreases items, n,
{
    if n == 0 || n > items.len() {
        Seq::empty()
    } else {
        printed_items(items, (n - 1) as nat).push(printed(items[n - 1]))
    }
}

/// The texts of the first `n` members of an object.
pub open spec fn printed_members(members: Seq<(Seq<char>, JsonModel)>, n: nat) -> Seq<Seq<char>>
    decreases members, n,
{
    if n == 0 || n > members.len() {
        Seq::empty()
    } else {
        printed_members(members, (n - 1) as nat).push(
            json_quoted(members[n - 1].0) + ":"@ + printed(members[n - 1].1),
        )
    }
}

/// The compact JSON text of a value.
pub fn json_text(value: &Json) -> (r: String)
    ensures
        r@ == printed(value@),
    decreases value,
{
    proof {
        lemma_model_parts(*value);
    }
    match value {
        Json::Null => "null".to_string(),
        Json::Bool(b) => if *b {
            "true".to_string()
        } else {
            "false".to_string()
        },
        Json::Number(n) => n.text.clone(),
        Json::Text(s) => json_quote(s),
        Json::Array(items) => {
            let mut out = "[".to_string();
            let ghost m = models(items@);
            assert("["@ + joined(printed_items(m, 0), ","@) =~= out@);
            let mut i: usize = 0;
            while i < items.len()
                invariant
                    i <= items@.len(),
                    m == models(items@),
                    printed_items(m, i as nat).len() == i,
                    out@ == "["@ + joined(printed_items(m, i as nat), ","@),
                    decreases_to!(value => items),
                decreases items.len() - i,
            {
                if i > 0 {
                    out.append(",");
                }
                out.append(&json_text(&items[i]));
                proof {
                    let next = printed_items(m, (i + 1) as nat);
                    assert(next.drop_last() =~= printed_items(m, i as nat));
                    assert(next.last() == printed(m[i as int]));
                    assert(out@ =~= "["@ + joined(next, ","@));
                }
                i += 1;
            }
            out.append("]");
            out
        },
        Json::Object(members) => {
            let mut out = "{".to_string();
            let ghost m = member_models(members@);
            assert("{"@ + joined(printed_members(m, 0), ","@) =~= out@);
            let mut i: usize = 0;
            while i < members.len()
                invariant
                    i <= members@.len(),
                    m == member_models(members@),
                    printed_members(m, i as nat).len() == i,
                    out@ == "{"@ + joined(printed_members(m, i as nat), ","@),
                    decreases_to!(value => members),
                decreases members.len() - i,
            {
                if i > 0 {
                    out.append(",");
                }
                out.append(&json_quote(&members[i].0));
                out.append(":");
                out.append(&json_text(&members[i].1));
                proof {
                    let next = printed_members(m, (i + 1) as nat);
                    assert(next.drop_last() =~= printed_members(m, i as nat));
                    assert(next.last() == json_quoted(m[i as int].0) + ":"@ + printed(
                        m[i as int].1,
                    ));
                    assert(out@ =~= "{"@ + joined(next, ","@));
                }
                i += 1;
            }
            out.append("}");
            out
        },
    }
}

// ---------------------------------------------------------------------------
// Fingerprint
// ---------------------------------------------------------------------------

/// The SHA-256 digest of some bytes.
pub uninterp spec fn sha256(bytes: Seq<u8>) -> Seq<u8>;

/// `Sha256::digest` of `sha2`: a function of the bytes, thirty-two bytes long.
#[verifier::external_body]
fn sha256_digest(bytes: &[u8]) -> (r: Vec<u8>)
    ensures
        r@ == sha256(bytes@),
        r@.len() == 32,
{
    sha2::Sha256::digest(bytes).to_vec()
}

/// The hexadecimal digest of the canonical text of a value.
pub open spec fn fingerprint(j: JsonModel) -> Seq<char> {
    hex_bytes(sha256(vstd::utf8::encode_utf8(printed(canonical(j)))))
}

/// Canonical SHA-256 (hex) of a JSON value, the same for every order of the
/// members of its objects.
pub fn config_json_hash(value: &Json) -> (r: String)
    ensures
        r@ == fingerprint(value@),
        r@.len() == 64,
{
    let text = json_text(&canonicalize_json(value));
    let digest = sha256_digest(text.as_str().as_bytes());
    hex_bytes_of(digest.as_slice())
}

/// Equal contents have equal fingerprints, in whatever order the members of
/// their objects were put in.
pub proof fn law_fingerprint_ignores_member_order(a: JsonModel, b: JsonModel)
    requires
        same_content(a, b),
    ensures
        fingerprint(a) == fingerprint(b),
{
    law_canonical_ignores_member_order(a, b);
}

} // verus!

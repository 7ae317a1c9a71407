//! Text primitives: the character-sequence model of the string operations
//! that the rest of the library is written with, and their implementations.
use vstd::prelude::*;
use vstd::string::*;

verus! {

// ---------------------------------------------------------------------------
// What the standard library decides
// ---------------------------------------------------------------------------

/// The answer of `char::is_whitespace` on a character: the Unicode `White_Space`
/// property.
pub uninterp spec fn unicode_space(c: char) -> bool;

/// Whether a character is white space: among the ASCII characters the space and
/// U+0009 to U+000D, among the others those that Unicode says.
pub open spec fn is_space(c: char) -> bool {
    if (c as u32) < 128 {
        c == ' ' || 9 <= (c as u32) <= 13
    } else {
        unicode_space(c)
    }
}

/// `char::is_whitespace`: a function of the character alone. Among the ASCII
/// characters it holds of the space and of U+0009 to U+000D.
pub assume_specification[ char::is_whitespace ](c: char) -> (r: bool)
    ensures
        (c as u32) < 128 ==> r == is_space(c),
        (c as u32) >= 128 ==> r == unicode_space(c),
;

/// The answer of `char::is_alphanumeric` on a character: the Unicode `Alphabetic`
/// property or a numeric general category.
pub uninterp spec fn unicode_alnum(c: char) -> bool;

/// Whether a character is a letter or a digit: among the ASCII characters one of
/// theirs, among the others one that Unicode says.
pub open spec fn is_alnum(c: char) -> bool {
    if (c as u32) < 128 {
        is_ascii_letter(c) || is_digit(c)
    } else {
        unicode_alnum(c)
    }
}

/// `char::is_alphanumeric`: a function of the character alone. Among the ASCII
/// characters it holds of the letters and the digits.
pub assume_specification[ char::is_alphanumeric ](c: char) -> (r: bool)
    ensures
        (c as u32) < 128 ==> r == is_alnum(c),
        (c as u32) >= 128 ==> r == unicode_alnum(c),
;

/// The result of `str::to_lowercase` on a text: its Unicode lowercase mapping.
pub uninterp spec fn unicode_lowercase(s: Seq<char>) -> Seq<char>;

/// A text in lower case: of ASCII characters, with `a`..`z` for `A`..`Z`; of others,
/// as Unicode says.
pub open spec fn lowercase(s: Seq<char>) -> Seq<char> {
    if vstd::utf8::is_ascii_chars(s) {
        ascii_lower(s)
    } else {
        unicode_lowercase(s)
    }
}

/// `str::to_lowercase`: a function of the text alone, which on a text of ASCII
/// characters maps `A`..`Z` to `a`..`z` and keeps every other character.
pub assume_specification[ str::to_lowercase ](s: &str) -> (r: String)
    ensures
        vstd::utf8::is_ascii_chars(s@) ==> r@ == lowercase(s@),
        !vstd::utf8::is_ascii_chars(s@) ==> r@ == unicode_lowercase(s@),
;

/// `String::push` appends one character.
pub assume_specification[ String::push ](s: &mut String, ch: char)
    ensures
        final(s)@ == old(s)@.push(ch),
;

/// A text as the debug printer of the standard library writes it.
pub uninterp spec fn debug_text(s: Seq<char>) -> Seq<char>;

/// The `{:?}` formatting of a text: a function of the text.
#[verifier::external_body]
fn print_debug_text(s: &str) -> (r: String)
    ensures
        r@ == debug_text(s@),
{
    format!("{:?}", s)
}

// ---------------------------------------------------------------------------
// Characters
// ---------------------------------------------------------------------------

pub open spec fn is_digit(c: char) -> bool {
    '0' <= c <= '9'
}

pub open spec fn is_ascii_letter(c: char) -> bool {
    'a' <= c <= 'z' || 'A' <= c <= 'Z'
}

/// `A`..`Z` to `a`..`z`, everything else to itself.
pub open spec fn ascii_lower_char(c: char) -> char {
    if 'A' <= c <= 'Z' {
        (c as u8 + 32) as char
    } else {
        c
    }
}

pub open spec fn ascii_lower(s: Seq<char>) -> Seq<char> {
    s.map_values(|c: char| ascii_lower_char(c))
}

/// The decimal digit of a number below ten.
pub open spec fn digit_char(d: int) -> char {
    (48 + d) as char
}

/// The lowercase hexadecimal digit of a number below sixteen.
pub open spec fn hex_char(d: int) -> char {
    if d < 10 {
        (48 + d) as char
    } else {
        (87 + d) as char
    }
}

pub fn is_digit_char(c: char) -> (r: bool)
    ensures
        r == is_digit(c),
{
    '0' <= c && c <= '9'
}

pub fn lower_char(c: char) -> (r: char)
    ensures
        r == ascii_lower_char(c),
{
    if 'A' <= c && c <= 'Z' {
        (c as u8 + 32) as char
    } else {
        c
    }
}

fn digit_of(d: u8) -> (r: char)
    requires
        d < 10,
    ensures
        r == digit_char(d as int),
{
    (48 + d) as char
}

fn hex_digit_of(d: u8) -> (r: char)
    requires
        d < 16,
    ensures
        r == hex_char(d as int),
{
    if d < 10 {
        (48 + d) as char
    } else {
        (87 + d) as char
    }
}

// ---------------------------------------------------------------------------
// Whole texts
// ---------------------------------------------------------------------------

/// The texts held by a sequence of strings.
pub open spec fn texts(v: Seq<String>) -> Seq<Seq<char>> {
    v.map_values(|s: String| s@)
}

/// The text of an optional string.
pub open spec fn opt_text(o: Option<String>) -> Option<Seq<char>> {
    match o {
        Some(s) => Some(s@),
        None => None,
    }
}

/// The characters of a text.
pub fn chars_of(s: &str) -> (r: Vec<char>)
    ensures
        r@ == s@,
{
    let mut out: Vec<char> = Vec::new();
    for c in it: s.chars()
        invariant
            out@ == s@.take(it.index() as int),
            it.seq() == s@,
    {
        out.push(c);
    }
    out
}

/// The text of a run of characters.
pub fn string_of(cs: &Vec<char>) -> (r: String)
    ensures
        r@ == cs@,
{
    string_of_range(cs, 0, cs.len())
}

/// The text of the characters from `from` up to `to`.
pub fn string_of_range(cs: &Vec<char>, from: usize, to: usize) -> (r: String)
    requires
        from <= to <= cs@.len(),
    ensures
        r@ == cs@.subrange(from as int, to as int),
{
    let mut out = String::new();
    let mut i: usize = from;
    while i < to
        invariant
            from <= i <= to <= cs@.len(),
            out@ == cs@.subrange(from as int, i as int),
        decreases to - i,
    {
        out.push(cs[i]);
        i += 1;
    }
    out
}

/// Whether two texts are the same.
pub fn same(a: &str, b: &str) -> (r: bool)
    ensures
        r == (a@ == b@),
{
    a.to_owned() == b.to_owned()
}

/// Whether an optional text is present and is `b`.
pub fn is_some_text(a: &Option<String>, b: &str) -> (r: bool)
    ensures
        r == (opt_text(*a) == Some(b@)),
{
    match a {
        Some(s) => same(s, b),
        None => false,
    }
}

/// Whether a text is one of a list.
pub fn is_one_of(list: &[String], s: &str) -> (r: bool)
    ensures
        r == texts(list@).contains(s@),
{
    let mut i: usize = 0;
    while i < list.len()
        invariant
            i <= list@.len(),
            forall|j: int| 0 <= j < i ==> list@[j]@ != s@,
        decreases list.len() - i,
    {
        if same(&list[i], s) {
            assert(texts(list@)[i as int] == s@);
            return true;
        }
        i += 1;
    }
    assert(forall|j: int| 0 <= j < list@.len() ==> texts(list@)[j] == list@[j]@);
    false
}

/// Two texts, one after the other.
pub fn cat(a: &str, b: &str) -> (r: String)
    ensures
        r@ == a@ + b@,
{
    let mut s = a.to_owned();
    s.append(b);
    s
}

/// The UTF-8 bytes of a text.
pub open spec fn bytes_of(s: Seq<char>) -> Seq<u8> {
    vstd::utf8::encode_utf8(s)
}

/// Whether a text can be cut after its first `n` bytes.
pub open spec fn can_cut(s: Seq<char>, n: int) -> bool {
    vstd::utf8::is_char_boundary(bytes_of(s), n)
}

/// How many bytes a text has.
pub fn byte_len(s: &str) -> (r: usize)
    ensures
        r == bytes_of(s@).len(),
{
    s.as_bytes().len()
}

/// The prefix of a text that has `n` bytes.
pub open spec fn byte_prefix(s: Seq<char>, n: int) -> Seq<char> {
    vstd::utf8::decode_utf8(bytes_of(s).subrange(0, n))
}

/// The prefix of a text that has `n` bytes.
pub fn cut_at(s: &str, n: usize) -> (r: String)
    requires
        can_cut(s@, n as int),
    ensures
        bytes_of(r@) == bytes_of(s@).subrange(0, n as int),
        r@ == byte_prefix(s@, n as int),
{
    let (head, _) = s.split_at(n);
    proof {
        vstd::utf8::encode_utf8_decode_utf8(head@);
    }
    head.to_owned()
}

/// The last place at or before `n` bytes where a text can be cut.
pub open spec fn cut_point(s: Seq<char>, n: int) -> int
    decreases n,
{
    if n <= 0 {
        0
    } else if bytes_of(s).len() <= n {
        bytes_of(s).len() as int
    } else if can_cut(s, n) {
        n
    } else {
        cut_point(s, n - 1)
    }
}

/// A text cut at the last end of a character at or before `n` bytes.
pub open spec fn cut_within(s: Seq<char>, n: int) -> Seq<char> {
    byte_prefix(s, cut_point(s, n))
}

/// A text cut at the last end of a character at or before `n` bytes.
pub fn cut_to(s: &str, n: usize) -> (r: String)
    ensures
        r@ == cut_within(s@, n as int),
        bytes_of(r@).len() == cut_point(s@, n as int),
        bytes_of(r@).len() <= n,
        bytes_of(r@) == bytes_of(s@).subrange(0, cut_point(s@, n as int)),
{
    let len = byte_len(s);
    let mut k: usize = if n < len {
        n
    } else {
        len
    };
    proof {
        vstd::utf8::encode_utf8_valid_utf8(s@);
        vstd::utf8::is_char_boundary_start_end_of_seq(bytes_of(s@));
    }
    while !s.is_char_boundary(k)
        invariant
            k <= n,
            k <= bytes_of(s@).len(),
            cut_point(s@, n as int) == cut_point(s@, k as int),
            can_cut(s@, 0),
            can_cut(s@, bytes_of(s@).len() as int),
        decreases k,
    {
        k -= 1;
    }
    cut_at(s, k)
}

/// A text that is cut has as many bytes as it is cut to, at most.
pub proof fn lemma_cut_fits(s: Seq<char>, n: int)
    requires
        n >= 0,
    ensures
        0 <= cut_point(s, n) <= n,
        cut_point(s, n) <= bytes_of(s).len(),
        can_cut(s, cut_point(s, n)),
        bytes_of(cut_within(s, n)).len() == cut_point(s, n),
    decreases n,
{
    vstd::utf8::encode_utf8_valid_utf8(s);
    vstd::utf8::is_char_boundary_start_end_of_seq(bytes_of(s));
    if n > 0 && bytes_of(s).len() > n && !can_cut(s, n) {
        lemma_cut_fits(s, n - 1);
    } else {
        let k = cut_point(s, n);
        vstd::utf8::valid_utf8_split(bytes_of(s), k);
        vstd::utf8::decode_utf8_encode_utf8(bytes_of(s).subrange(0, k));
    }
}

/// The bytes of two texts in a row are those of the one and of the other.
pub proof fn lemma_bytes_concat(a: Seq<char>, b: Seq<char>)
    ensures
        bytes_of(a + b) == bytes_of(a) + bytes_of(b),
    decreases a.len(),
{
    if a.len() == 0 {
        assert(a + b =~= b);
        assert(bytes_of(a) + bytes_of(b) =~= bytes_of(b));
    } else {
        lemma_bytes_concat(a.drop_first(), b);
        assert((a + b).drop_first() =~= a.drop_first() + b);
        assert(bytes_of(a + b) =~= bytes_of(a) + bytes_of(b));
    }
}

// ---------------------------------------------------------------------------
// Searching
// ---------------------------------------------------------------------------

/// Whether `pat` stands in `s` at position `i`.
pub open spec fn stands_at(s: Seq<char>, pat: Seq<char>, i: int) -> bool {
    0 <= i && i + pat.len() <= s.len() && s.subrange(i, i + pat.len() as int) == pat
}

/// Whether `pat` occurs somewhere in `s`.
pub open spec fn occurs(s: Seq<char>, pat: Seq<char>) -> bool {
    exists|i: int| #[trigger] stands_at(s, pat, i)
}

/// The first position at or after `from` where `pat` stands in `s`.
pub open spec fn find_from(s: Seq<char>, pat: Seq<char>, from: int) -> Option<int>
    decreases s.len() + 1 - from,
{
    if from < 0 || from + pat.len() > s.len() {
        None
    } else if stands_at(s, pat, from) {
        Some(from)
    } else {
        find_from(s, pat, from + 1)
    }
}

/// The first position where `pat` stands in `s`.
pub open spec fn find(s: Seq<char>, pat: Seq<char>) -> Option<int> {
    find_from(s, pat, 0)
}

/// `find_from` gives the least position, and none exactly when there is none.
pub proof fn lemma_find_from(s: Seq<char>, pat: Seq<char>, from: int)
    requires
        0 <= from,
    ensures
        match find_from(s, pat, from) {
            Some(i) => from <= i && stands_at(s, pat, i) && (forall|j: int|
                from <= j < i ==> !stands_at(s, pat, j)),
            None => forall|j: int| from <= j ==> !stands_at(s, pat, j),
        },
    decreases s.len() + 1 - from,
{
    if from + pat.len() > s.len() {
    } else if stands_at(s, pat, from) {
    } else {
        lemma_find_from(s, pat, from + 1);
    }
}

/// Whether `pat` stands in `cs` at `i`.
fn stands_at_exec(cs: &Vec<char>, pat: &Vec<char>, i: usize) -> (r: bool)
    requires
        i + pat.len() <= cs.len(),
    ensures
        r == stands_at(cs@, pat@, i as int),
{
    let mut k: usize = 0;
    while k < pat.len()
        invariant
            k <= pat@.len(),
            i + pat.len() <= cs.len(),
            forall|j: int| 0 <= j < k ==> cs@[i + j] == pat@[j],
        decreases pat.len() - k,
    {
        if cs[i + k] != pat[k] {
            assert(cs@.subrange(i as int, i + pat@.len() as int)[k as int] == cs@[i + k]);
            return false;
        }
        k += 1;
    }
    assert(cs@.subrange(i as int, i + pat@.len() as int) =~= pat@);
    true
}

/// The first position of `pat` in `cs`.
fn find_chars(cs: &Vec<char>, pat: &Vec<char>) -> (r: Option<usize>)
    ensures
        match r {
            Some(i) => find(cs@, pat@) == Some(i as int) && i + pat.len() <= cs.len(),
            None => find(cs@, pat@) is None,
        },
{
    if pat.len() > cs.len() {
        return None;
    }
    let last: usize = cs.len() - pat.len();
    let mut i: usize = 0;
    while i <= last
        invariant
            i <= last + 1,
            last + pat@.len() == cs@.len(),
            find(cs@, pat@) == find_from(cs@, pat@, i as int),
        decreases last + 1 - i,
    {
        if stands_at_exec(cs, pat, i) {
            return Some(i);
        }
        if i == last {
            assert(find_from(cs@, pat@, i + 1) is None);
            return None;
        }
        i += 1;
    }
    None
}

/// Whether `pat` occurs in `s`.
pub fn contains_text(s: &str, pat: &str) -> (r: bool)
    ensures
        r == occurs(s@, pat@),
{
    let cs = chars_of(s);
    let ps = chars_of(pat);
    proof {
        lemma_find_from(s@, pat@, 0);
    }
    match find_chars(&cs, &ps) {
        Some(_) => true,
        None => false,
    }
}

/// What stands before and after the first `sep` in `s`.
pub open spec fn split_first(s: Seq<char>, sep: Seq<char>) -> Option<(Seq<char>, Seq<char>)> {
    match find(s, sep) {
        Some(i) => Some((s.take(i), s.skip(i + sep.len()))),
        None => None,
    }
}

/// What stands before and after the first `sep` in `s`.
pub fn split_once(s: &str, sep: &str) -> (r: Option<(String, String)>)
    ensures
        match r {
            Some((a, b)) => split_first(s@, sep@) == Some((a@, b@)),
            None => split_first(s@, sep@) is None,
        },
{
    let cs = chars_of(s);
    let ps = chars_of(sep);
    match find_chars(&cs, &ps) {
        Some(i) => {
            let a = string_of_range(&cs, 0, i);
            let b = string_of_range(&cs, i + ps.len(), cs.len());
            assert(a@ =~= s@.take(i as int));
            assert(b@ =~= s@.skip(i + sep@.len()));
            Some((a, b))
        },
        None => None,
    }
}

/// What stands before the first blank, and what after it.
pub open spec fn head_and_rest(s: Seq<char>) -> (Seq<char>, Seq<char>) {
    match split_first(s, " "@) {
        Some(pair) => pair,
        None => (s, Seq::empty()),
    }
}

/// What stands before the first blank, and what after it.
pub fn split_head(s: &str) -> (r: (String, String))
    ensures
        (r.0@, r.1@) == head_and_rest(s@),
{
    match split_once(s, " ") {
        Some(pair) => pair,
        None => (s.to_owned(), String::new()),
    }
}

/// `s` without the prefix `pat`, if it has it.
pub open spec fn without_prefix(s: Seq<char>, pat: Seq<char>) -> Option<Seq<char>> {
    if pat.is_prefix_of(s) {
        Some(s.skip(pat.len() as int))
    } else {
        None
    }
}

/// `s` without the prefix `pat`, if it has it.
pub fn strip_prefix(s: &str, pat: &str) -> (r: Option<String>)
    ensures
        opt_text(r) == without_prefix(s@, pat@),
{
    let cs = chars_of(s);
    let ps = chars_of(pat);
    if ps.len() > cs.len() {
        return None;
    }
    assert(cs@.subrange(0, 0 + ps@.len() as int) =~= cs@.take(ps@.len() as int));
    if stands_at_exec(&cs, &ps, 0) {
        assert(pat@.is_prefix_of(s@));
        let rest = string_of_range(&cs, ps.len(), cs.len());
        assert(rest@ =~= s@.skip(pat@.len() as int));
        Some(rest)
    } else {
        assert(!pat@.is_prefix_of(s@));
        None
    }
}

pub fn starts_with(s: &str, pat: &str) -> (r: bool)
    ensures
        r == pat@.is_prefix_of(s@),
{
    match strip_prefix(s, pat) {
        Some(_) => true,
        None => false,
    }
}

pub fn ends_with(s: &str, pat: &str) -> (r: bool)
    ensures
        r == pat@.is_suffix_of(s@),
{
    let cs = chars_of(s);
    let ps = chars_of(pat);
    if ps.len() > cs.len() {
        return false;
    }
    let r = stands_at_exec(&cs, &ps, cs.len() - ps.len());
    assert(cs@.subrange(cs@.len() - ps@.len(), cs@.len() - ps@.len() + ps@.len())
        =~= cs@.subrange((cs@.len() - ps@.len()) as int, cs@.len() as int));
    r
}

// ---------------------------------------------------------------------------
// Splitting and joining
// ---------------------------------------------------------------------------

/// The first position at or after `from` that holds `c`.
pub open spec fn char_from(s: Seq<char>, c: char, from: int) -> Option<int>
    decreases s.len() - from,
{
    if from < 0 || from >= s.len() {
        None
    } else if s[from] == c {
        Some(from)
    } else {
        char_from(s, c, from + 1)
    }
}

/// The first position that holds `c`.
pub open spec fn char_at(s: Seq<char>, c: char) -> Option<int> {
    char_from(s, c, 0)
}

pub proof fn lemma_char_from(s: Seq<char>, c: char, from: int)
    requires
        0 <= from,
    ensures
        match char_from(s, c, from) {
            Some(i) => from <= i < s.len() && s[i] == c && (forall|j: int|
                from <= j < i ==> s[j] != c),
            None => forall|j: int| from <= j < s.len() ==> s[j] != c,
        },
    decreases s.len() - from,
{
    if from >= s.len() {
    } else if s[from] == c {
    } else {
        lemma_char_from(s, c, from + 1);
    }
}

/// The pieces of `s` between the separators `c`: always at least one.
pub open spec fn pieces(s: Seq<char>, c: char) -> Seq<Seq<char>> {
    pieces_from(s, c, 0, 0)
}

/// The pieces of `s` from `start` on, where no separator stands in
/// `start..at`.
pub open spec fn pieces_from(s: Seq<char>, c: char, start: int, at: int) -> Seq<Seq<char>>
    decreases s.len() - at,
{
    if at < 0 || at >= s.len() {
        seq![s.subrange(start, s.len() as int)]
    } else if s[at] == c {
        seq![s.subrange(start, at)] + pieces_from(s, c, at + 1, at + 1)
    } else {
        pieces_from(s, c, start, at + 1)
    }
}

/// The pieces of `s` between the separators `c`.
pub fn split(s: &str, c: char) -> (r: Vec<String>)
    ensures
        texts(r@) == pieces(s@, c),
{
    let cs = chars_of(s);
    let mut out: Vec<String> = Vec::new();
    let mut start: usize = 0;
    let mut at: usize = 0;
    while at < cs.len()
        invariant
            start <= at <= cs@.len(),
            cs@ == s@,
            pieces(s@, c) == texts(out@) + pieces_from(s@, c, start as int, at as int),
        decreases cs.len() - at,
    {
        if cs[at] == c {
            let piece = string_of_range(&cs, start, at);
            let ghost before = out@;
            out.push(piece);
            proof {
                assert(texts(out@) =~= texts(before).push(piece@));
                assert(texts(before) + (seq![piece@] + pieces_from(s@, c, at + 1, at + 1))
                    =~= texts(out@) + pieces_from(s@, c, at + 1, at + 1));
            }
            at += 1;
            start = at;
        } else {
            at += 1;
        }
    }
    let piece = string_of_range(&cs, start, cs.len());
    let ghost before = out@;
    out.push(piece);
    assert(texts(out@) =~= texts(before) + seq![piece@]);
    out
}

/// The longest runs of characters that are not whitespace, in order.
pub open spec fn words(s: Seq<char>) -> Seq<Seq<char>> {
    words_from(s, 0, 0)
}

/// The words of `s` from `start` on, where `start..at` holds no whitespace.
pub open spec fn words_from(s: Seq<char>, start: int, at: int) -> Seq<Seq<char>>
    decreases s.len() - at,
{
    if at < 0 || at >= s.len() {
        if start < at {
            seq![s.subrange(start, at)]
        } else {
            Seq::empty()
        }
    } else if is_space(s[at]) {
        if start < at {
            seq![s.subrange(start, at)] + words_from(s, at + 1, at + 1)
        } else {
            words_from(s, at + 1, at + 1)
        }
    } else {
        words_from(s, start, at + 1)
    }
}

/// The longest runs of characters that are not whitespace, in order.
pub fn split_words(s: &str) -> (r: Vec<String>)
    ensures
        texts(r@) == words(s@),
{
    let cs = chars_of(s);
    let mut out: Vec<String> = Vec::new();
    let mut start: usize = 0;
    let mut at: usize = 0;
    assert(texts(out@) + words(s@) =~= words(s@));
    while at < cs.len()
        invariant
            start <= at <= cs@.len(),
            cs@ == s@,
            words(s@) == texts(out@) + words_from(s@, start as int, at as int),
        decreases cs.len() - at,
    {
        if cs[at].is_whitespace() {
            if start < at {
                let word = string_of_range(&cs, start, at);
                let ghost before = out@;
                out.push(word);
                proof {
                    assert(texts(out@) =~= texts(before).push(word@));
                    assert(texts(before) + (seq![word@] + words_from(s@, at + 1, at + 1))
                        =~= texts(out@) + words_from(s@, at + 1, at + 1));
                }
            }
            at += 1;
            start = at;
        } else {
            at += 1;
        }
    }
    if start < at {
        let word = string_of_range(&cs, start, at);
        let ghost before = out@;
        out.push(word);
        assert(texts(out@) =~= texts(before) + seq![word@]);
    } else {
        assert(texts(out@) + Seq::<Seq<char>>::empty() =~= texts(out@));
    }
    out
}

/// The parts in order with `sep` between neighbours.
pub open spec fn joined(parts: Seq<Seq<char>>, sep: Seq<char>) -> Seq<char>
    decreases parts.len(),
{
    if parts.len() == 0 {
        Seq::empty()
    } else if parts.len() == 1 {
        parts[0]
    } else {
        joined(parts.drop_last(), sep) + sep + parts.last()
    }
}

/// The parts in order with `sep` between neighbours.
pub fn join(parts: &[String], sep: &str) -> (r: String)
    ensures
        r@ == joined(texts(parts@), sep@),
{
    let mut out = String::new();
    let mut i: usize = 0;
    while i < parts.len()
        invariant
            i <= parts@.len(),
            out@ == joined(texts(parts@.take(i as int)), sep@),
        decreases parts.len() - i,
    {
        if i > 0 {
            out.append(sep);
        }
        out.append(&parts[i]);
        proof {
            let next = texts(parts@.take(i + 1));
            assert(next.drop_last() =~= texts(parts@.take(i as int)));
            assert(next.last() == parts@[i as int]@);
        }
        i += 1;
    }
    assert(parts@.take(parts@.len() as int) =~= parts@);
    out
}

// ---------------------------------------------------------------------------
// Trimming
// ---------------------------------------------------------------------------

/// The position of the first character at or after `from` that is not
/// whitespace.
pub open spec fn past_spaces(s: Seq<char>, from: int) -> int
    decreases s.len() - from,
{
    if 0 <= from < s.len() && is_space(s[from]) {
        past_spaces(s, from + 1)
    } else {
        from
    }
}

/// The end of the shortest prefix of length at least `from` after which only
/// whitespace stands up to `to`.
pub open spec fn before_spaces(s: Seq<char>, from: int, to: int) -> int
    decreases to - from,
{
    if 0 <= from < to <= s.len() && is_space(s[to - 1]) {
        before_spaces(s, from, to - 1)
    } else {
        to
    }
}

/// `s` without leading and trailing whitespace.
pub open spec fn trimmed(s: Seq<char>) -> Seq<char> {
    let from = past_spaces(s, 0);
    s.subrange(from, before_spaces(s, from, s.len() as int))
}

/// `s` without leading and trailing whitespace.
pub fn trim(s: &str) -> (r: String)
    ensures
        r@ == trimmed(s@),
{
    let cs = chars_of(s);
    let mut from: usize = 0;
    while from < cs.len() && cs[from].is_whitespace()
        invariant
            from <= cs@.len(),
            cs@ == s@,
            past_spaces(s@, 0) == past_spaces(s@, from as int),
        decreases cs.len() - from,
    {
        from += 1;
    }
    let mut to: usize = cs.len();
    while from < to && cs[to - 1].is_whitespace()
        invariant
            from <= to <= cs@.len(),
            cs@ == s@,
            before_spaces(s@, from as int, s@.len() as int) == before_spaces(
                s@,
                from as int,
                to as int,
            ),
        decreases to,
    {
        to -= 1;
    }
    string_of_range(&cs, from, to)
}

/// The position of the first character at or after `from` other than `c`.
pub open spec fn past_char(s: Seq<char>, c: char, from: int) -> int
    decreases s.len() - from,
{
    if 0 <= from < s.len() && s[from] == c {
        past_char(s, c, from + 1)
    } else {
        from
    }
}

/// The end of the shortest prefix of length at least `from` after which only
/// `c` stands up to `to`.
pub open spec fn before_char(s: Seq<char>, c: char, from: int, to: int) -> int
    decreases to - from,
{
    if 0 <= from < to <= s.len() && s[to - 1] == c {
        before_char(s, c, from, to - 1)
    } else {
        to
    }
}

/// `s` without its leading `c`s.
pub open spec fn trimmed_start_of(s: Seq<char>, c: char) -> Seq<char> {
    s.skip(past_char(s, c, 0))
}

/// `s` without its trailing `c`s.
pub open spec fn trimmed_end_of(s: Seq<char>, c: char) -> Seq<char> {
    s.take(before_char(s, c, 0, s.len() as int))
}

/// `s` without leading and trailing `c`s.
pub open spec fn trimmed_of(s: Seq<char>, c: char) -> Seq<char> {
    let from = past_char(s, c, 0);
    s.subrange(from, before_char(s, c, from, s.len() as int))
}

fn past_char_exec(cs: &Vec<char>, c: char) -> (r: usize)
    ensures
        r == past_char(cs@, c, 0),
        r <= cs@.len(),
{
    let mut from: usize = 0;
    while from < cs.len() && cs[from] == c
        invariant
            from <= cs@.len(),
            past_char(cs@, c, 0) == past_char(cs@, c, from as int),
        decreases cs.len() - from,
    {
        from += 1;
    }
    from
}

fn before_char_exec(cs: &Vec<char>, c: char, from: usize) -> (r: usize)
    requires
        from <= cs@.len(),
    ensures
        r == before_char(cs@, c, from as int, cs@.len() as int),
        from <= r <= cs@.len(),
{
    let mut to: usize = cs.len();
    while from < to && cs[to - 1] == c
        invariant
            from <= to <= cs@.len(),
            before_char(cs@, c, from as int, cs@.len() as int) == before_char(
                cs@,
                c,
                from as int,
                to as int,
            ),
        decreases to,
    {
        to -= 1;
    }
    to
}

/// `s` without its leading `c`s.
pub fn trim_start_char(s: &str, c: char) -> (r: String)
    ensures
        r@ == trimmed_start_of(s@, c),
{
    let cs = chars_of(s);
    let from = past_char_exec(&cs, c);
    let out = string_of_range(&cs, from, cs.len());
    assert(out@ =~= s@.skip(from as int));
    out
}

/// `s` without its trailing `c`s.
pub fn trim_end_char(s: &str, c: char) -> (r: String)
    ensures
        r@ == trimmed_end_of(s@, c),
{
    let cs = chars_of(s);
    let to = before_char_exec(&cs, c, 0);
    let out = string_of_range(&cs, 0, to);
    assert(out@ =~= s@.take(to as int));
    out
}

/// `s` without leading and trailing `c`s.
pub fn trim_char(s: &str, c: char) -> (r: String)
    ensures
        r@ == trimmed_of(s@, c),
{
    let cs = chars_of(s);
    let from = past_char_exec(&cs, c);
    let to = before_char_exec(&cs, c, from);
    string_of_range(&cs, from, to)
}

/// `s` without the repeated suffix `pat`.
pub open spec fn trimmed_end_text(s: Seq<char>, pat: Seq<char>) -> Seq<char>
    decreases s.len(),
{
    if pat.len() > 0 && pat.is_suffix_of(s) {
        trimmed_end_text(s.take(s.len() - pat.len()), pat)
    } else {
        s
    }
}

/// `s` without the repeated suffix `pat`.
pub fn trim_end_text(s: &str, pat: &str) -> (r: String)
    ensures
        r@ == trimmed_end_text(s@, pat@),
    decreases s@.len(),
{
    if pat.is_empty() || !ends_with(s, pat) {
        return s.to_owned();
    }
    let cs = chars_of(s);
    let ps = chars_of(pat);
    let head = string_of_range(&cs, 0, cs.len() - ps.len());
    assert(head@ =~= s@.take(s@.len() - pat@.len()));
    trim_end_text(&head, pat)
}

/// `s` from position `at` on with every `from` replaced by `to`, from left to
/// right.
pub open spec fn replaced_from(
    s: Seq<char>,
    from: Seq<char>,
    to: Seq<char>,
    at: int,
) -> Seq<char>
    decreases s.len() - at,
{
    if at < 0 || at >= s.len() {
        Seq::empty()
    } else if from.len() > 0 && stands_at(s, from, at) {
        to + replaced_from(s, from, to, at + from.len())
    } else {
        seq![s[at]] + replaced_from(s, from, to, at + 1)
    }
}

/// `s` with every `from`, which is not empty, replaced by `to`.
pub open spec fn replaced(s: Seq<char>, from: Seq<char>, to: Seq<char>) -> Seq<char> {
    replaced_from(s, from, to, 0)
}

/// `s` with every `from`, which is not empty, replaced by `to`.
pub fn replace(s: &str, from: &str, to: &str) -> (r: String)
    requires
        from@.len() > 0,
    ensures
        r@ == replaced(s@, from@, to@),
{
    let cs = chars_of(s);
    let fs = chars_of(from);
    let mut out = String::new();
    let mut at: usize = 0;
    assert(out@ + replaced_from(s@, from@, to@, 0) =~= replaced(s@, from@, to@));
    while at < cs.len()
        invariant
            at <= cs@.len(),
            cs@ == s@,
            fs@ == from@,
            from@.len() > 0,
            replaced(s@, from@, to@) == out@ + replaced_from(s@, from@, to@, at as int),
        decreases cs.len() - at,
    {
        let ghost before = out@;
        if fs.len() <= cs.len() - at && stands_at_exec(&cs, &fs, at) {
            out.append(to);
            assert(before + (to@ + replaced_from(s@, from@, to@, at + from@.len())) =~= out@
                + replaced_from(s@, from@, to@, at + from@.len()));
            at += fs.len();
        } else {
            assert(!stands_at(s@, from@, at as int));
            out.push(cs[at]);
            assert(before + (seq![s@[at as int]] + replaced_from(s@, from@, to@, at + 1)) =~= out@
                + replaced_from(s@, from@, to@, at + 1));
            at += 1;
        }
    }
    assert(out@ + Seq::<char>::empty() =~= out@);
    out
}

/// What the replaced text begins with stands in the text, if it does not hold the
/// first character of what is put in.
proof fn lemma_replaced_copies(
    s: Seq<char>,
    from: Seq<char>,
    to: Seq<char>,
    at: int,
    q: Seq<char>,
)
    requires
        0 <= at <= s.len(),
        from.len() > 0,
        to.len() > 0,
        forall|j: int| 0 <= j < q.len() ==> #[trigger] q[j] != to[0],
        q.is_prefix_of(replaced_from(s, from, to, at)),
    ensures
        stands_at(s, q, at),
    decreases s.len() - at,
{
    let r = replaced_from(s, from, to, at);
    if q.len() == 0 {
        assert(s.subrange(at, at) =~= q);
    } else if at >= s.len() {
        assert(r.len() == 0);
    } else if stands_at(s, from, at) {
        assert(r[0] == to[0]);
        assert(r.take(q.len() as int)[0] == q[0]);
    } else {
        let rest = replaced_from(s, from, to, at + 1);
        let tail = q.skip(1);
        assert(r.take(q.len() as int) == q);
        assert(r.take(q.len() as int)[0] == q[0]);
        assert(rest.take(tail.len() as int) =~= tail) by {
            assert forall|j: int| 0 <= j < tail.len() implies rest[j] == tail[j] by {
                assert(r.take(q.len() as int)[j + 1] == q[j + 1]);
            }
        }
        lemma_replaced_copies(s, from, to, at + 1, tail);
        assert(s.subrange(at, at + q.len()) =~= q) by {
            assert forall|j: int| 0 <= j < q.len() implies s.subrange(at, at + q.len())[j] == q[j] by {
                if j > 0 {
                    assert(s.subrange(at + 1, at + 1 + tail.len())[j - 1] == tail[j - 1]);
                }
            }
        }
    }
}

/// Replacing brings in no `other`, if what is put in and `other` do not hold each
/// other's first character.
pub proof fn lemma_replaced_brings_in_nothing(
    s: Seq<char>,
    from: Seq<char>,
    to: Seq<char>,
    at: int,
    other: Seq<char>,
    i: int,
)
    requires
        0 <= at <= s.len(),
        from.len() > 0,
        to.len() > 0,
        other.len() > 0,
        forall|j: int| 0 <= j < other.len() ==> #[trigger] other[j] != to[0],
        forall|j: int| 0 <= j < to.len() ==> #[trigger] to[j] != other[0],
        stands_at(replaced_from(s, from, to, at), other, i),
    ensures
        occurs(s, other),
    decreases s.len() - at,
{
    let r = replaced_from(s, from, to, at);
    assert(r.subrange(i, i + other.len())[0] == other[0]);
    if at >= s.len() {
        assert(r.len() == 0);
    } else if stands_at(s, from, at) {
        let rest = replaced_from(s, from, to, at + from.len());
        if i < to.len() {
            assert(r[i] == to[i]);
        } else {
            assert(rest.subrange(i - to.len(), i - to.len() + other.len()) =~= r.subrange(
                i,
                i + other.len(),
            ));
            lemma_replaced_brings_in_nothing(s, from, to, at + from.len(), other, i - to.len());
        }
    } else {
        let rest = replaced_from(s, from, to, at + 1);
        if i == 0 {
            assert(r.take(other.len() as int) =~= r.subrange(0, other.len() as int));
            lemma_replaced_copies(s, from, to, at, other);
        } else {
            assert(rest.subrange(i - 1, i - 1 + other.len()) =~= r.subrange(i, i + other.len()));
            lemma_replaced_brings_in_nothing(s, from, to, at + 1, other, i - 1);
        }
    }
}

/// What is replaced is gone, if its first character occurs once in it and once in
/// what is put in, and what is put in parts from it at its last character.
pub proof fn lemma_replaced_is_gone(
    s: Seq<char>,
    from: Seq<char>,
    to: Seq<char>,
    at: int,
    i: int,
)
    requires
        0 <= at <= s.len(),
        0 < to.len() < from.len(),
        to[0] == from[0],
        forall|j: int| 1 <= j < from.len() ==> #[trigger] from[j] != from[0],
        forall|j: int| 1 <= j < to.len() ==> #[trigger] to[j] != from[0],
        to[to.len() - 1] != from[to.len() - 1],
    ensures
        !stands_at(replaced_from(s, from, to, at), from, i),
    decreases s.len() - at,
{
    let r = replaced_from(s, from, to, at);
    if stands_at(r, from, i) {
        assert(r.subrange(i, i + from.len())[0] == from[0]);
        if at >= s.len() {
            assert(r.len() == 0);
        } else if stands_at(s, from, at) {
            let rest = replaced_from(s, from, to, at + from.len());
            if i == 0 {
                assert(r.subrange(0, from.len() as int)[to.len() - 1] == from[to.len() - 1]);
            } else if i < to.len() {
                assert(r[i] == to[i]);
            } else {
                assert(rest.subrange(i - to.len(), i - to.len() + from.len()) =~= r.subrange(
                    i,
                    i + from.len(),
                ));
                lemma_replaced_is_gone(s, from, to, at + from.len(), i - to.len());
            }
        } else {
            let rest = replaced_from(s, from, to, at + 1);
            if i == 0 {
                let tail = from.skip(1);
                assert(rest.take(tail.len() as int) =~= tail) by {
                    assert forall|j: int| 0 <= j < tail.len() implies rest[j] == tail[j] by {
                        assert(r.subrange(0, from.len() as int)[j + 1] == from[j + 1]);
                    }
                }
                assert forall|j: int| 0 <= j < tail.len() implies #[trigger] tail[j] != to[0] by {
                    assert(from[j + 1] != from[0]);
                }
                lemma_replaced_copies(s, from, to, at + 1, tail);
                assert(s.subrange(at, at + from.len()) =~= from) by {
                    assert forall|j: int| 0 <= j < from.len() implies s.subrange(
                        at,
                        at + from.len(),
                    )[j] == from[j] by {
                        if j > 0 {
                            assert(s.subrange(at + 1, at + 1 + tail.len())[j - 1] == tail[j - 1]);
                        }
                    }
                }
            } else {
                assert(rest.subrange(i - 1, i - 1 + from.len()) =~= r.subrange(i, i + from.len()));
                lemma_replaced_is_gone(s, from, to, at + 1, i - 1);
            }
        }
    }
}

/// The pieces from a separator on are those of what follows it.
pub proof fn lemma_pieces_shift(s: Seq<char>, c: char, start: int, at: int)
    requires
        0 <= start <= at <= s.len(),
    ensures
        pieces_from(s, c, start, at) == pieces_from(s.skip(start), c, 0, at - start),
    decreases s.len() - at,
{
    let t = s.skip(start);
    if at >= s.len() {
        assert(s.subrange(start, s.len() as int) =~= t.subrange(0, t.len() as int));
    } else if s[at] == c {
        assert(s.subrange(start, at) =~= t.subrange(0, at - start));
        lemma_pieces_shift(s, c, at + 1, at + 1);
        lemma_pieces_shift(t, c, at + 1 - start, at + 1 - start);
        assert(t.skip(at + 1 - start) =~= s.skip(at + 1));
    } else {
        lemma_pieces_shift(s, c, start, at + 1);
    }
}

/// Before the first separator stands the first piece, and after it the others.
pub proof fn lemma_pieces_split(s: Seq<char>, c: char, from: int)
    requires
        0 <= from <= s.len(),
    ensures
        match char_from(s, c, from) {
            Some(i) => pieces_from(s, c, 0, from) == seq![s.take(i)] + pieces(s.skip(i + 1), c),
            None => pieces_from(s, c, 0, from) == seq![s],
        },
    decreases s.len() - from,
{
    if from >= s.len() {
        assert(s.subrange(0, s.len() as int) =~= s);
    } else if s[from] == c {
        assert(s.subrange(0, from) =~= s.take(from));
        lemma_pieces_shift(s, c, from + 1, from + 1);
    } else {
        lemma_pieces_split(s, c, from + 1);
    }
}

/// A separator of one character is found where the character is.
pub proof fn lemma_find_char(s: Seq<char>, c: char, from: int)
    requires
        0 <= from,
    ensures
        find_from(s, seq![c], from) == char_from(s, c, from),
    decreases s.len() - from,
{
    if from < s.len() {
        assert(stands_at(s, seq![c], from) <==> s[from] == c) by {
            assert(s.subrange(from, from + 1) =~= seq![s[from]]);
            if s[from] != c {
                assert(seq![s[from]][0] != seq![c][0]);
            }
        }
        lemma_find_char(s, c, from + 1);
    }
}

// ---------------------------------------------------------------------------
// Case
// ---------------------------------------------------------------------------

/// `A`..`Z` to `a`..`z`, everything else kept.
pub fn to_ascii_lower(s: &str) -> (r: String)
    ensures
        r@ == ascii_lower(s@),
{
    let cs = chars_of(s);
    let mut out = String::new();
    let mut i: usize = 0;
    while i < cs.len()
        invariant
            i <= cs@.len(),
            out@ == ascii_lower(cs@.take(i as int)),
        decreases cs.len() - i,
    {
        out.push(lower_char(cs[i]));
        assert(ascii_lower(cs@.take(i + 1)) =~= ascii_lower(cs@.take(i as int)).push(
            ascii_lower_char(cs@[i as int]),
        ));
        i += 1;
    }
    assert(cs@.take(cs@.len() as int) =~= cs@);
    out
}

/// Whether two texts differ at most in the case of ASCII letters.
pub fn eq_ignore_ascii_case(a: &str, b: &str) -> (r: bool)
    ensures
        r == (ascii_lower(a@) == ascii_lower(b@)),
{
    same(&to_ascii_lower(a), &to_ascii_lower(b))
}

/// The same texts again.
pub fn copy_texts(v: &Vec<String>) -> (r: Vec<String>)
    ensures
        texts(r@) == texts(v@),
{
    let mut out: Vec<String> = Vec::new();
    let mut i: usize = 0;
    while i < v.len()
        invariant
            i <= v@.len(),
            out@.len() == i,
            forall|k: int| 0 <= k < i ==> (#[trigger] out@[k])@ == v@[k]@,
        decreases v.len() - i,
    {
        out.push(v[i].clone());
        i += 1;
    }
    assert(texts(out@) =~= texts(v@));
    out
}

/// A list of texts, each as the debug printer writes it.
pub open spec fn debug_list(list: Seq<Seq<char>>) -> Seq<char> {
    "["@ + joined(list.map_values(|s: Seq<char>| debug_text(s)), ", "@) + "]"@
}

/// A list of texts, each as the debug printer writes it.
pub fn debug_list_of(list: &[String]) -> (r: String)
    ensures
        r@ == debug_list(texts(list@)),
{
    let mut parts: Vec<String> = Vec::new();
    let mut i: usize = 0;
    while i < list.len()
        invariant
            i <= list@.len(),
            parts@.len() == i,
            forall|k: int| 0 <= k < i ==> (#[trigger] parts@[k])@ == debug_text(list@[k]@),
        decreases list.len() - i,
    {
        parts.push(print_debug_text(&list[i]));
        i += 1;
    }
    assert(texts(parts@) =~= texts(list@).map_values(|s: Seq<char>| debug_text(s)));
    let mut s = cat("[", &join(parts.as_slice(), ", "));
    s.append("]");
    s
}

// ---------------------------------------------------------------------------
// Order
// ---------------------------------------------------------------------------

/// Whether `a` comes before `b` in the order of code points, where both agree
/// before position `i`.
pub open spec fn less_from(a: Seq<char>, b: Seq<char>, i: int) -> bool
    decreases b.len() - i,
{
    if i < 0 || i >= b.len() {
        false
    } else if i >= a.len() {
        true
    } else if a[i] != b[i] {
        a[i] < b[i]
    } else {
        less_from(a, b, i + 1)
    }
}

/// The lexicographic order of code points, which is that of `String`.
pub open spec fn text_less(a: Seq<char>, b: Seq<char>) -> bool {
    less_from(a, b, 0)
}

/// Whether `a` comes before `b` in the lexicographic order of code points.
pub fn comes_before(a: &str, b: &str) -> (r: bool)
    ensures
        r == text_less(a@, b@),
{
    let x = chars_of(a);
    let y = chars_of(b);
    let mut i: usize = 0;
    while i < y.len()
        invariant
            i <= y@.len(),
            x@ == a@,
            y@ == b@,
            text_less(a@, b@) == less_from(a@, b@, i as int),
        decreases y.len() - i,
    {
        if i >= x.len() {
            return true;
        }
        if x[i] != y[i] {
            return x[i] < y[i];
        }
        i += 1;
    }
    false
}

/// Where two texts differ for the first time.
pub open spec fn parts_at(a: Seq<char>, b: Seq<char>, k: int) -> bool {
    &&& 0 <= k
    &&& k < b.len()
    &&& k <= a.len()
    &&& forall|j: int| 0 <= j < k ==> a[j] == b[j]
    &&& k == a.len() || a[k] < b[k]
}

proof fn lemma_less_from(a: Seq<char>, b: Seq<char>, i: int)
    requires
        0 <= i <= a.len(),
        i <= b.len(),
        forall|j: int| 0 <= j < i ==> a[j] == b[j],
    ensures
        less_from(a, b, i) <==> exists|k: int| #[trigger] parts_at(a, b, k),
    decreases b.len() - i,
{
    if i >= b.len() {
        if exists|k: int| #[trigger] parts_at(a, b, k) {
            let k = choose|k: int| #[trigger] parts_at(a, b, k);
            assert(a[k] == b[k]);
        }
    } else if i >= a.len() {
        assert(parts_at(a, b, i));
    } else if a[i] != b[i] {
        if a[i] < b[i] {
            assert(parts_at(a, b, i));
        } else if exists|k: int| #[trigger] parts_at(a, b, k) {
            let k = choose|k: int| #[trigger] parts_at(a, b, k);
            if k < i {
                assert(a[k] == b[k]);
            } else if k > i {
                assert(a[i] == b[i]);
            }
        }
    } else {
        lemma_less_from(a, b, i + 1);
    }
}

/// The order is irreflexive, transitive and total.
pub proof fn lemma_text_order(a: Seq<char>, b: Seq<char>, c: Seq<char>)
    ensures
        !text_less(a, a),
        text_less(a, b) && text_less(b, c) ==> text_less(a, c),
        text_less(a, b) || text_less(b, a) || a == b,
        !(text_less(a, b) && text_less(b, a)),
{
    lemma_less_from(a, a, 0);
    lemma_less_from(a, b, 0);
    lemma_less_from(b, c, 0);
    lemma_less_from(a, c, 0);
    lemma_less_from(b, a, 0);
    if text_less(a, b) && text_less(b, c) {
        let i = choose|k: int| #[trigger] parts_at(a, b, k);
        let j = choose|k: int| #[trigger] parts_at(b, c, k);
        if i <= j {
            assert(parts_at(a, c, i));
        } else {
            assert(parts_at(a, c, j));
        }
    }
    if text_less(a, b) && text_less(b, a) {
        let i = choose|k: int| #[trigger] parts_at(a, b, k);
        let j = choose|k: int| #[trigger] parts_at(b, a, k);
        if i < j {
            assert(b[i] == a[i]);
        } else if j < i {
            assert(a[j] == b[j]);
        }
    }
    lemma_total_from(a, b, 0);
}

proof fn lemma_total_from(a: Seq<char>, b: Seq<char>, i: int)
    requires
        0 <= i <= a.len(),
        i <= b.len(),
        forall|j: int| 0 <= j < i ==> a[j] == b[j],
    ensures
        less_from(a, b, i) || less_from(b, a, i) || a == b,
    decreases a.len() - i,
{
    if i < a.len() && i < b.len() && a[i] == b[i] {
        lemma_total_from(a, b, i + 1);
    } else if i == a.len() && i == b.len() {
        assert(a =~= b);
    }
}

/// A filtered sequence holds what the sequence holds and the predicate admits.
pub proof fn lemma_filter_has<A>(s: Seq<A>, p: spec_fn(A) -> bool, x: A)
    ensures
        s.filter(p).contains(x) <==> s.contains(x) && p(x),
{
    if s.contains(x) && p(x) {
        let i = choose|i: int| 0 <= i < s.len() && s[i] == x;
        s.lemma_filter_contains(p, i);
    }
    if s.filter(p).contains(x) {
        let i = choose|i: int| 0 <= i < s.filter(p).len() && s.filter(p)[i] == x;
        s.lemma_filter_pred(p, i);
        s.lemma_filter_contains_rev(p, x);
    }
}

// ---------------------------------------------------------------------------
// Numbers
// ---------------------------------------------------------------------------

/// The decimal digits of `n`, without leading zeros.
pub open spec fn decimal(n: nat) -> Seq<char>
    decreases n,
{
    if n < 10 {
        seq![digit_char(n as int)]
    } else {
        decimal(n / 10).push(digit_char((n % 10) as int))
    }
}

/// The decimal digits of `n`, without leading zeros.
pub fn decimal_of(n: u64) -> (r: String)
    ensures
        r@ == decimal(n as nat),
    decreases n,
{
    if n < 10 {
        let mut s = String::new();
        s.push(digit_of(n as u8));
        assert(s@ =~= decimal(n as nat));
        s
    } else {
        let mut s = decimal_of(n / 10);
        s.push(digit_of((n % 10) as u8));
        s
    }
}

/// A decimal holds digits only, at least one.
pub proof fn lemma_decimal_digits(n: nat)
    ensures
        decimal(n).len() > 0,
        forall|i: int| 0 <= i < decimal(n).len() ==> is_digit(#[trigger] decimal(n)[i]),
    decreases n,
{
    if n >= 10 {
        lemma_decimal_digits(n / 10);
    }
}

/// Different numbers have different decimals.
pub proof fn lemma_decimal_injective(a: nat, b: nat)
    requires
        decimal(a) == decimal(b),
    ensures
        a == b,
    decreases a,
{
    lemma_decimal_digits(a / 10);
    lemma_decimal_digits(b / 10);
    if a < 10 {
        if b >= 10 {
            assert(decimal(b).len() >= 2);
        } else {
            assert(decimal(a)[0] == digit_char(a as int));
            assert(decimal(b)[0] == digit_char(b as int));
        }
    } else {
        if b < 10 {
            assert(decimal(a).len() >= 2);
        } else {
            assert(decimal(a).drop_last() =~= decimal(a / 10));
            assert(decimal(b).drop_last() =~= decimal(b / 10));
            lemma_decimal_injective(a / 10, b / 10);
            assert(decimal(a).last() == digit_char((a % 10) as int));
            assert(decimal(b).last() == digit_char((b % 10) as int));
        }
    }
}

/// The decimal digits of a size, without leading zeros.
pub fn decimal_of_usize(n: usize) -> (r: String)
    ensures
        r@ == decimal(n as nat),
{
    decimal_of(n as u64)
}

/// The decimal digits of a signed number, with its sign if it is negative.
pub open spec fn signed_decimal(n: int) -> Seq<char> {
    if n < 0 {
        "-"@ + decimal((-n) as nat)
    } else {
        decimal(n as nat)
    }
}

/// The decimal digits of a signed number, with its sign if it is negative.
pub fn signed_decimal_of(n: i64) -> (r: String)
    ensures
        r@ == signed_decimal(n as int),
{
    if n < 0 {
        let positive: i128 = -(n as i128);
        cat("-", &decimal_of(positive as u64))
    } else {
        decimal_of(n as u64)
    }
}

/// The number that the first `n` characters stand for, if they are digits.
pub open spec fn digits_value(s: Seq<char>, n: nat) -> Option<nat>
    decreases n,
{
    if n == 0 || n > s.len() {
        Some(0)
    } else {
        match digits_value(s, (n - 1) as nat) {
            Some(v) => if is_digit(s[n - 1]) {
                Some((10 * v + (s[n - 1] as int - 48)) as nat)
            } else {
                None
            },
            None => None,
        }
    }
}

/// The number that a text of digits stands for; a plus sign may stand before
/// them, and there must be at least one.
pub open spec fn number_of(s: Seq<char>) -> Option<nat> {
    let digits = if s.len() > 0 && s[0] == '+' {
        s.skip(1)
    } else {
        s
    };
    if digits.len() == 0 {
        None
    } else {
        digits_value(digits, digits.len())
    }
}

/// The number that a text of digits stands for, if it has at most 64 bits.
pub open spec fn u64_of(s: Seq<char>) -> Option<u64> {
    match number_of(s) {
        Some(n) => if n <= u64::MAX {
            Some(n as u64)
        } else {
            None
        },
        None => None,
    }
}

/// The value only grows with more digits, and a prefix that is no number makes
/// the whole none.
proof fn lemma_digits_grow(s: Seq<char>, m: nat, n: nat)
    requires
        m <= n <= s.len(),
    ensures
        digits_value(s, m) is None ==> digits_value(s, n) is None,
        digits_value(s, n) is Some ==> digits_value(s, m) is Some && digits_value(s, m)->0
            <= digits_value(s, n)->0,
    decreases n,
{
    if m < n {
        lemma_digits_grow(s, m, (n - 1) as nat);
    }
}

/// The number that a text of digits stands for, if it has at most 64 bits.
pub fn parse_u64(s: &str) -> (r: Option<u64>)
    ensures
        r == u64_of(s@),
{
    let cs = chars_of(s);
    let mut from: usize = 0;
    if cs.len() > 0 && cs[0] == '+' {
        from = 1;
    }
    let ghost digits = cs@.skip(from as int);
    assert(from == 0 ==> digits =~= s@);
    if from == cs.len() {
        return None;
    }
    assert(number_of(s@) == digits_value(digits, digits.len()));
    let mut value: u64 = 0;
    let mut i: usize = from;
    while i < cs.len()
        invariant
            from <= i <= cs@.len(),
            digits == cs@.skip(from as int),
            number_of(s@) == digits_value(digits, digits.len()),
            digits_value(digits, (i - from) as nat) == Some(value as nat),
        decreases cs.len() - i,
    {
        let c = cs[i];
        proof {
            assert(digits[i - from] == c);
            lemma_digits_grow(digits, (i + 1 - from) as nat, digits.len());
        }
        if !is_digit_char(c) {
            return None;
        }
        let d: u64 = (c as u32 - 48) as u64;
        if value > (u64::MAX - d) / 10 {
            return None;
        }
        value = value * 10 + d;
        i += 1;
    }
    Some(value)
}

/// The size that a text of digits stands for.
pub open spec fn usize_of(s: Seq<char>) -> Option<usize> {
    match number_of(s) {
        Some(n) => if n <= usize::MAX {
            Some(n as usize)
        } else {
            None
        },
        None => None,
    }
}

/// The size that a text of digits stands for, if it is one.
pub fn parse_usize(s: &str) -> (r: Option<usize>)
    ensures
        r == usize_of(s@),
{
    match parse_u64(s) {
        Some(n) => if n <= usize::MAX as u64 {
            Some(n as usize)
        } else {
            None
        },
        None => None,
    }
}

/// The lowercase hexadecimal digits of `n`, without leading zeros.
pub open spec fn hexadecimal(n: nat) -> Seq<char>
    decreases n,
{
    if n < 16 {
        seq![hex_char(n as int)]
    } else {
        hexadecimal(n / 16).push(hex_char((n % 16) as int))
    }
}

/// The lowercase hexadecimal digits of `n`, without leading zeros.
pub fn hexadecimal_of(n: u64) -> (r: String)
    ensures
        r@ == hexadecimal(n as nat),
    decreases n,
{
    if n < 16 {
        let mut s = String::new();
        s.push(hex_digit_of(n as u8));
        assert(s@ =~= hexadecimal(n as nat));
        s
    } else {
        let mut s = hexadecimal_of(n / 16);
        s.push(hex_digit_of((n % 16) as u8));
        s
    }
}

/// Two lowercase hexadecimal digits for each byte.
pub open spec fn hex_bytes(bytes: Seq<u8>) -> Seq<char> {
    Seq::new(
        2 * bytes.len(),
        |i: int|
            if i % 2 == 0 {
                hex_char(bytes[i / 2] as int / 16)
            } else {
                hex_char(bytes[i / 2] as int % 16)
            },
    )
}

/// Two lowercase hexadecimal digits for each byte.
pub fn hex_bytes_of(bytes: &[u8]) -> (r: String)
    ensures
        r@ == hex_bytes(bytes@),
{
    let mut out = String::new();
    let mut i: usize = 0;
    while i < bytes.len()
        invariant
            i <= bytes@.len(),
            out@ == hex_bytes(bytes@.take(i as int)),
        decreases bytes.len() - i,
    {
        out.push(hex_digit_of(bytes[i] / 16));
        out.push(hex_digit_of(bytes[i] % 16));
        assert(out@ =~= hex_bytes(bytes@.take(i + 1)));
        i += 1;
    }
    assert(bytes@.take(bytes@.len() as int) =~= bytes@);
    out
}

} // verus!

//! Laws of the names of sessions and timers.
use vstd::prelude::*;

use crate::gateway::dispatch::{
    extract_session_name, follow_up_timer, is_markup, leading_words, plain_line, session_name,
};
use crate::laws::text::law_a_cut_text_is_the_longest_beginning_that_fits;
use crate::text::{bytes_of, joined, words};

verus! {

/// Marks of formatting do not count in a name, wherever they stand, and a line
/// break counts as a blank.
pub proof fn law_formatting_does_not_count_in_a_name(
    before: Seq<char>,
    c: char,
    after: Seq<char>,
)
    ensures
        c == '#' || c == '*' || c == '`' || c == '>' || c == '-' || c == '|' ==> session_name(
            before + seq![c] + after,
        ) == session_name(before + after),
        c == '\n' || c == '\r' ==> session_name(before + seq![c] + after) == session_name(
            before + seq![' '] + after,
        ),
{
    lemma_plain(before, c, after);
}

proof fn lemma_filter_sum(a: Seq<char>, b: Seq<char>, p: spec_fn(char) -> bool)
    ensures
        (a + b).filter(p) == a.filter(p) + b.filter(p),
    decreases b.len(),
{
    reveal(Seq::filter);
    if b.len() == 0 {
        assert(a + b =~= a);
        assert(a.filter(p) + b.filter(p) =~= a.filter(p));
    } else {
        lemma_filter_sum(a, b.drop_last(), p);
        assert((a + b).drop_last() =~= a + b.drop_last());
        assert((a + b).last() == b.last());
        assert((a + b).filter(p) =~= a.filter(p) + b.filter(p));
    }
}

proof fn lemma_filter_one(c: char, p: spec_fn(char) -> bool)
    ensures
        seq![c].filter(p) == if p(c) {
            seq![c]
        } else {
            Seq::<char>::empty()
        },
{
    reveal(Seq::filter);
    assert(seq![c].drop_last() =~= Seq::<char>::empty());
    assert(Seq::<char>::empty().filter(p) =~= Seq::<char>::empty());
    assert(seq![c].filter(p) =~= if p(c) {
        seq![c]
    } else {
        Seq::<char>::empty()
    });
}

proof fn lemma_plain(before: Seq<char>, c: char, after: Seq<char>)
    ensures
        is_markup(c) ==> plain_line(before + seq![c] + after) == plain_line(before + after),
        c == '\n' || c == '\r' ==> plain_line(before + seq![c] + after) == plain_line(
            before + seq![' '] + after,
        ),
{
    let p = |x: char| !is_markup(x);
    let none = Seq::<char>::empty();
    lemma_filter_sum(before + seq![c], after, p);
    lemma_filter_sum(before, seq![c], p);
    lemma_filter_sum(before, after, p);
    lemma_filter_sum(before + seq![' '], after, p);
    lemma_filter_sum(before, seq![' '], p);
    lemma_filter_one(c, p);
    lemma_filter_one(' ', p);
    if is_markup(c) {
        assert(before.filter(p) + none + after.filter(p) =~= before.filter(p) + after.filter(p));
    }
    if c == '\n' || c == '\r' {
        assert(plain_line(before + seq![c] + after) =~= plain_line(before + seq![' '] + after));
    }
}

/// A short text without formatting names its session itself: its words, six of
/// them at most, one blank apart. A longer one names it by its beginning, and says
/// that there is more.
pub proof fn law_a_session_is_named_by_its_first_words(content: &str, r: String)
    requires
        call_ensures(extract_session_name, (content,), r),
        forall|i: int|
            0 <= i < content@.len() ==> !is_markup(#[trigger] content@[i]) && content@[i] != '\n'
                && content@[i] != '\r',
    ensures
        ({
            let all = words(content@);
            let first = joined(
                if all.len() <= 6 {
                    all
                } else {
                    all.take(6)
                },
                " "@,
            );
            &&& 0 < first.len() && bytes_of(first).len() <= 40 ==> r@ == first
            &&& first.len() == 0 ==> r@ == "New Session"@
            &&& bytes_of(first).len() > 40 ==> r@.len() > 3 && r@.skip(r@.len() - 3) == "..."@
                && r@.take(r@.len() - 3).is_prefix_of(first) && bytes_of(
                r@.take(r@.len() - 3),
            ).len() <= 40
        }),
{
    let s = content@;
    let p = |x: char| !is_markup(x);
    lemma_all_kept(s, p);
    assert(plain_line(s) =~= s);
    let first = leading_words(s);
    reveal_strlit("...");
    if bytes_of(first).len() > 40 {
        let cut = crate::text::cut_within(first, 40);
        let one = first.take(1);
        law_a_cut_text_is_the_longest_beginning_that_fits(first, 40, one);
        assert(r@.take(r@.len() - 3) =~= cut);
        assert(r@.skip(r@.len() - 3) =~= "..."@);
        lemma_one_character(first);
        assert(one.is_prefix_of(first));
        assert(cut.len() >= 1);
    }
    if first.len() == 0 {
        assert(first =~= Seq::<char>::empty());
        assert(bytes_of(first).len() == 0);
    }
}

proof fn lemma_one_character(s: Seq<char>)
    requires
        bytes_of(s).len() > 0,
    ensures
        s.len() > 0,
        bytes_of(s.take(1)).len() <= 4,
{
    if s.len() == 0 {
        assert(s =~= Seq::<char>::empty());
    }
    let one = s.take(1);
    assert(one.drop_first() =~= Seq::<char>::empty());
    assert(bytes_of(one) == vstd::utf8::encode_scalar(one[0] as u32) + bytes_of(one.drop_first()));
    assert(bytes_of(Seq::<char>::empty()).len() == 0);
}

proof fn lemma_all_kept(s: Seq<char>, p: spec_fn(char) -> bool)
    requires
        forall|i: int| 0 <= i < s.len() ==> p(#[trigger] s[i]),
    ensures
        s.filter(p) == s,
    decreases s.len(),
{
    reveal(Seq::filter);
    if s.len() > 0 {
        let less = s.drop_last();
        assert forall|i: int| 0 <= i < less.len() implies p(#[trigger] less[i]) by {
            assert(less[i] == s[i]);
        }
        lemma_all_kept(less, p);
        assert(p(s[s.len() - 1]));
        assert(s.filter(p) =~= s);
    } else {
        assert(s.filter(p) =~= s);
    }
}

/// The timer of a session bears its name, so that no two share one.
pub proof fn law_timers_are_told_apart(a: &str, b: &str, r: String, q: String)
    requires
        call_ensures(follow_up_timer, (a,), r),
        call_ensures(follow_up_timer, (b,), q),
    ensures
        r@ == q@ <==> a@ == b@,
{
    let n = "followup:"@.len() as int;
    assert(r@.skip(n) =~= a@);
    assert(q@.skip(n) =~= b@);
}

} // verus!

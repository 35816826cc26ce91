//! Facts about sequences that are made by laying sequences end to end.

use vstd::prelude::*;

verus! {

/// What sequences laid end to end hold is what one of them holds.
pub proof fn lemma_flat_map_contains<A, B>(s: Seq<A>, f: spec_fn(A) -> Seq<B>, e: B)
    ensures
        s.flat_map(f).contains(e) <==> exists|i: int|
            0 <= i < s.len() && f(#[trigger] s[i]).contains(e),
    decreases s.len(),
{
    if s.len() == 0 {
        assert(s.flat_map(f) =~= Seq::<B>::empty());
    } else {
        let init = s.drop_last();
        let last = s.last();
        let front = init.flat_map(f);
        let back = f(last);
        assert(s =~= init.push(last));
        init.lemma_flat_map_push(f, last);
        lemma_flat_map_contains(init, f, e);
        if (front + back).contains(e) {
            let k = choose|k: int| 0 <= k < (front + back).len() && (front + back)[k] == e;
            if k < front.len() {
                assert(front[k] == e);
                let i = choose|i: int| 0 <= i < init.len() && f(#[trigger] init[i]).contains(e);
                assert(s[i] == init[i]);
            } else {
                assert(back[k - front.len()] == e);
                assert(s[s.len() - 1] == last);
            }
        }
        if exists|i: int| 0 <= i < s.len() && f(#[trigger] s[i]).contains(e) {
            let i = choose|i: int| 0 <= i < s.len() && f(#[trigger] s[i]).contains(e);
            if i < init.len() {
                assert(init[i] == s[i]);
                let k = choose|k: int| 0 <= k < front.len() && front[k] == e;
                assert((front + back)[k] == e);
            } else {
                let k = choose|k: int| 0 <= k < back.len() && back[k] == e;
                assert((front + back)[front.len() + k] == e);
            }
        }
    }
}

/// Sequences of one length laid end to end have that length times their
/// number.
pub proof fn lemma_flat_map_len<A, B>(s: Seq<A>, f: spec_fn(A) -> Seq<B>, each: nat)
    requires
        forall|i: int| 0 <= i < s.len() ==> f(#[trigger] s[i]).len() == each,
    ensures
        s.flat_map(f).len() == s.len() * each,
    decreases s.len(),
{
    if s.len() == 0 {
        assert(s.flat_map(f) =~= Seq::<B>::empty());
    } else {
        let init = s.drop_last();
        let last = s.last();
        assert(s =~= init.push(last));
        init.lemma_flat_map_push(f, last);
        assert forall|i: int| 0 <= i < init.len() implies f(#[trigger] init[i]).len() == each by {
            assert(init[i] == s[i]);
        }
        lemma_flat_map_len(init, f, each);
        assert(f(s[s.len() - 1]).len() == each);
        assert(s.len() * each == init.len() * each + each) by (nonlinear_arith)
            requires
                s.len() == init.len() + 1,
        ;
    }
}

/// Sequences without repetition that share no member, laid end to end, repeat
/// nothing.
pub proof fn lemma_flat_map_distinct<A, B>(s: Seq<A>, f: spec_fn(A) -> Seq<B>)
    requires
        forall|i: int| 0 <= i < s.len() ==> f(#[trigger] s[i]).no_duplicates(),
        forall|i: int, j: int, e: B|
            0 <= i < j < s.len() && #[trigger] f(s[i]).contains(e) ==> !#[trigger] f(s[j]).contains(
                e,
            ),
    ensures
        s.flat_map(f).no_duplicates(),
    decreases s.len(),
{
    if s.len() == 0 {
        assert(s.flat_map(f) =~= Seq::<B>::empty());
    } else {
        let init = s.drop_last();
        let last = s.last();
        let front = init.flat_map(f);
        let back = f(last);
        assert(s =~= init.push(last));
        init.lemma_flat_map_push(f, last);
        assert forall|i: int| 0 <= i < init.len() implies f(#[trigger] init[i]).no_duplicates() by {
            assert(init[i] == s[i]);
        }
        assert forall|i: int, j: int, e: B|
            0 <= i < j < init.len() && #[trigger] f(init[i]).contains(e) implies !#[trigger] f(
                init[j],
            ).contains(e) by {
            assert(init[i] == s[i] && init[j] == s[j]);
        }
        lemma_flat_map_distinct(init, f);
        assert(back.no_duplicates()) by {
            assert(s[s.len() - 1] == last);
        }
        assert forall|a: int, b: int| 0 <= a < front.len() && 0 <= b < back.len() implies front[a]
            != back[b] by {
            if front[a] == back[b] {
                let e = front[a];
                assert(front.contains(e) && back.contains(e));
                lemma_flat_map_contains(init, f, e);
                let i = choose|i: int| 0 <= i < init.len() && f(#[trigger] init[i]).contains(e);
                assert(s[i] == init[i] && s[s.len() - 1] == last);
            }
        }
        vstd::seq_lib::lemma_no_dup_in_concat(front, back);
    }
}

} // verus!

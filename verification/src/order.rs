//! What selecting from a sequence keeps of its order.

use vstd::prelude::*;

verus! {

/// The positions of what `filter_map` selects: they rise, what stands there is what was
/// selected, and every position that has something to select is among them.
pub(crate) proof fn lemma_selected_positions<A, B>(s: Seq<A>, f: spec_fn(A) -> Option<B>) -> (at:
    Seq<int>)
    ensures
        at.len() == s.filter_map(f).len(),
        forall|i: int|
            0 <= i < at.len() ==> 0 <= #[trigger] at[i] < s.len() && f(s[at[i]]) == Some(
                s.filter_map(f)[i],
            ),
        forall|i: int, j: int| 0 <= i < j < at.len() ==> #[trigger] at[i] < #[trigger] at[j],
        forall|k: int| 0 <= k < s.len() && f(#[trigger] s[k]) is Some ==> at.contains(k),
    decreases s.len(),
{
    if s.len() == 0 {
        Seq::empty()
    } else {
        let n = s.len() - 1;
        let init = s.drop_last();
        let before = lemma_selected_positions(init, f);
        assert(forall|k: int| 0 <= k < n ==> init[k] == s[k]);
        if f(s.last()) is Some {
            let at = before.push(n);
            assert forall|k: int| 0 <= k < s.len() && f(#[trigger] s[k]) is Some implies at.contains(
                k,
            ) by {
                if k == n {
                    assert(at[before.len() as int] == k);
                } else {
                    assert(f(init[k]) is Some);
                    let i = choose|i: int| 0 <= i < before.len() && before[i] == k;
                    assert(at[i] == k);
                }
            }
            at
        } else {
            assert forall|k: int|
                0 <= k < s.len() && f(#[trigger] s[k]) is Some implies before.contains(k) by {
                assert(f(init[k]) is Some);
            }
            before
        }
    }
}

} // verus!

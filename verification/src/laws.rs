//! What holds of every sequence, whatever its ends and its length.

use vstd::prelude::*;
use crate::blend::{deterministic, exact, spec_steps, spec_weights, Blend};
use crate::linspaced::{LinspacedView, Side};

verus! {

/// At index zero the start has the whole weight and the end has none.
pub proof fn lemma_weights_at_start(len: nat, inclusive: bool)
    requires
        len <= usize::MAX,
    ensures
        spec_weights(0, len, inclusive).start == spec_weights(0, len, inclusive).parts,
        spec_weights(0, len, inclusive).end == 0,
        spec_weights(0, len, inclusive).parts == spec_steps(len, inclusive),
        spec_weights(0, len, inclusive).parts > 0,
{
}

/// Where the end is included and there are two values or more, at the last
/// index the end has the whole weight and the start has none.
pub proof fn lemma_weights_at_end(len: nat)
    requires
        2 <= len <= usize::MAX,
    ensures
        spec_weights((len - 1) as nat, len, true).start == 0,
        spec_weights((len - 1) as nat, len, true).end == spec_weights(
            (len - 1) as nat,
            len,
            true,
        ).parts,
        spec_weights((len - 1) as nat, len, true).parts > 0,
{
}

/// Where the end is not included, no index gives it the whole weight, and the
/// start keeps a share at every index. At each index the two weights make up
/// the whole.
pub proof fn lemma_end_excluded(i: nat, len: nat)
    requires
        i < len <= usize::MAX,
    ensures
        spec_weights(i, len, false).end < spec_weights(i, len, false).parts,
        spec_weights(i, len, false).start > 0,
        spec_weights(i, len, false).start + spec_weights(i, len, false).end == spec_weights(
            i,
            len,
            false,
        ).parts,
{
}

/// For an element type that is exact at the weights one and zero, the first
/// value of a sequence is its start. This holds of a sequence of one value
/// too, whether or not it includes its end.
pub proof fn lemma_first_is_start<T: Blend>(s: LinspacedView<T>, v: T)
    requires
        exact::<T>(),
        1 <= s.len <= usize::MAX,
        s.yields(0, v),
    ensures
        v == s.start,
{
    let w = s.weights(0);
    lemma_weights_at_start(s.len, s.inclusive);
    let (a, b) = choose|a: T, b: T|
        {
            &&& call_ensures(T::scale, (s.start, w.start, w.parts), a)
            &&& call_ensures(T::scale, (s.end, w.end, w.parts), b)
            &&& #[trigger] call_ensures(T::plus, (a, b), v)
        };
    assert(a == s.start);
}

/// For an element type that is exact at the weights one and zero, the last
/// value of a sequence of two values or more that includes its end is the end.
pub proof fn lemma_last_is_end<T: Blend>(s: LinspacedView<T>, v: T)
    requires
        exact::<T>(),
        s.inclusive,
        2 <= s.len <= usize::MAX,
        s.yields((s.len - 1) as nat, v),
    ensures
        v == s.end,
{
    let w = s.weights((s.len - 1) as nat);
    lemma_weights_at_end(s.len);
    let (a, b) = choose|a: T, b: T|
        {
            &&& call_ensures(T::scale, (s.start, w.start, w.parts), a)
            &&& call_ensures(T::scale, (s.end, w.end, w.parts), b)
            &&& #[trigger] call_ensures(T::plus, (a, b), v)
        };
    assert(b == s.end);
}

/// For a deterministic element type, a sequence has one value at each index.
pub proof fn lemma_one_value<T: Blend>(s: LinspacedView<T>, i: nat, v1: T, v2: T)
    requires
        deterministic::<T>(),
        s.yields(i, v1),
        s.yields(i, v2),
    ensures
        v1 == v2,
{
    let w = s.weights(i);
    let (a1, b1) = choose|a: T, b: T|
        {
            &&& call_ensures(T::scale, (s.start, w.start, w.parts), a)
            &&& call_ensures(T::scale, (s.end, w.end, w.parts), b)
            &&& #[trigger] call_ensures(T::plus, (a, b), v1)
        };
    let (a2, b2) = choose|a: T, b: T|
        {
            &&& call_ensures(T::scale, (s.start, w.start, w.parts), a)
            &&& call_ensures(T::scale, (s.end, w.end, w.parts), b)
            &&& #[trigger] call_ensures(T::plus, (a, b), v2)
        };
    assert(a1 == a2);
    assert(b1 == b2);
}

/// Taking a value from either side of a well-formed sequence leaves it
/// well formed, with one value less where it had any, and none where it had
/// none.
pub proof fn lemma_pull<T>(s: LinspacedView<T>, side: Side)
    requires
        s.wf(),
    ensures
        s.pull(side).wf(),
        s.pull(side).remaining() == if s.remaining() > 0 {
            s.remaining() - 1
        } else {
            0
        },
        s.is_empty() ==> s.pull(side) == s,
{
}

/// After any run of pulls from the front and the back, in any order, a
/// sequence has as many values left as it had, less the number of pulls; once
/// none is left, none is left after any further pull.
pub proof fn lemma_remaining_after<T>(s: LinspacedView<T>, pulls: Seq<Side>)
    requires
        s.wf(),
    ensures
        s.after(pulls).wf(),
        s.after(pulls).remaining() == if pulls.len() <= s.remaining() {
            s.remaining() - pulls.len()
        } else {
            0
        },
    decreases pulls.len(),
{
    if pulls.len() > 0 {
        lemma_remaining_after(s, pulls.drop_last());
        lemma_pull(s.after(pulls.drop_last()), pulls.last());
    }
}

/// A sequence that has nothing left stays as it is, whatever is pulled from
/// it and however often.
pub proof fn lemma_exhausted_stays<T>(s: LinspacedView<T>, pulls: Seq<Side>)
    requires
        s.is_empty(),
    ensures
        s.after(pulls) == s,
    decreases pulls.len(),
{
    if pulls.len() > 0 {
        lemma_exhausted_stays(s, pulls.drop_last());
    }
}

/// Of a sequence that was made with `len` values, `len - k - j` are left after
/// `k` pulls from the front and `j` from the back, in any order.
pub proof fn lemma_remaining_of_fresh<T>(
    start: T,
    end: T,
    len: nat,
    inclusive: bool,
    pulls: Seq<Side>,
)
    requires
        len <= usize::MAX,
        pulls.len() <= len,
    ensures
        LinspacedView::fresh(start, end, len, inclusive).after(pulls).remaining() == len
            - pulls.len(),
{
    lemma_remaining_after(LinspacedView::fresh(start, end, len, inclusive), pulls);
}

/// What a sequence gives when it is pulled from the front until nothing is
/// left is the list of its remaining values, index by index.
pub proof fn lemma_forward_lists<T: Blend>(s: LinspacedView<T>, vs: Seq<T>)
    requires
        s.wf(),
    ensures
        s.forward_gives(vs) <==> s.lists(vs),
    decreases vs.len(),
{
    if vs.len() > 0 && !s.is_empty() {
        let rest = vs.drop_first();
        let t = s.pull_front();
        lemma_forward_lists(t, rest);
        if s.lists(vs) {
            assert(s.yields((s.lo + 0) as nat, vs[0]));
            assert forall|k: int| 0 <= k < rest.len() implies t.yields(
                (t.lo + k) as nat,
                #[trigger] rest[k],
            ) by {
                assert(s.yields((s.lo + (k + 1)) as nat, vs[k + 1]));
            }
        }
        if s.forward_gives(vs) {
            assert forall|k: int| 0 <= k < vs.len() implies s.yields(
                (s.lo + k) as nat,
                #[trigger] vs[k],
            ) by {
                if k > 0 {
                    assert(t.yields((t.lo + (k - 1)) as nat, rest[k - 1]));
                }
            }
        }
    }
}

/// What a sequence gives when it is pulled from the back until nothing is
/// left is the list of its remaining values from the back to the front.
pub proof fn lemma_backward_lists<T: Blend>(s: LinspacedView<T>, vs: Seq<T>)
    requires
        s.wf(),
    ensures
        s.backward_gives(vs) <==> s.lists_back(vs),
    decreases vs.len(),
{
    if vs.len() > 0 && !s.is_empty() {
        let rest = vs.drop_first();
        let t = s.pull_back();
        lemma_backward_lists(t, rest);
        if s.lists_back(vs) {
            assert(s.yields((s.hi - 1 - 0) as nat, vs[0]));
            assert forall|k: int| 0 <= k < rest.len() implies t.yields(
                (t.hi - 1 - k) as nat,
                #[trigger] rest[k],
            ) by {
                assert(s.yields((s.hi - 1 - (k + 1)) as nat, vs[k + 1]));
            }
        }
        if s.backward_gives(vs) {
            assert forall|k: int| 0 <= k < vs.len() implies s.yields(
                (s.hi - 1 - k) as nat,
                #[trigger] vs[k],
            ) by {
                if k > 0 {
                    assert(t.yields((t.hi - 1 - (k - 1)) as nat, rest[k - 1]));
                }
            }
        }
    }
}

/// The list of the remaining values from the back to the front is the
/// reverse of their list from the front to the back.
pub proof fn lemma_back_is_reverse<T: Blend>(s: LinspacedView<T>, vs: Seq<T>)
    requires
        s.wf(),
    ensures
        s.lists_back(vs) <==> s.lists(vs.reverse()),
{
    let n = vs.len() as int;
    let rev = vs.reverse();
    if n == s.remaining() {
        if s.lists_back(vs) {
            assert forall|k: int| 0 <= k < n implies s.yields(
                (s.lo + k) as nat,
                #[trigger] rev[k],
            ) by {
                assert(rev[k] == vs[n - 1 - k]);
                assert(s.yields((s.hi - 1 - (n - 1 - k)) as nat, vs[n - 1 - k]));
            }
        }
        if s.lists(rev) {
            assert forall|k: int| 0 <= k < n implies s.yields(
                (s.hi - 1 - k) as nat,
                #[trigger] vs[k],
            ) by {
                assert(rev[n - 1 - k] == vs[k]);
                assert(s.yields((s.lo + (n - 1 - k)) as nat, rev[n - 1 - k]));
            }
        }
    }
}

/// For a deterministic element type: what pulling from the front until
/// nothing is left gives, the list of the remaining values (what a buffer is
/// filled with), and the reverse of what pulling from the back gives are one
/// and the same, element for element.
pub proof fn lemma_forward_fill_backward<T: Blend>(
    s: LinspacedView<T>,
    forward: Seq<T>,
    filled: Seq<T>,
    backward: Seq<T>,
)
    requires
        deterministic::<T>(),
        s.wf(),
        s.forward_gives(forward),
        s.lists(filled),
        s.backward_gives(backward),
    ensures
        forward == filled,
        backward.reverse() == filled,
{
    lemma_forward_lists(s, forward);
    lemma_backward_lists(s, backward);
    lemma_back_is_reverse(s, backward);
    let rev = backward.reverse();
    assert forall|k: int| 0 <= k < filled.len() implies forward[k] == filled[k] && rev[k]
        == filled[k] by {
        lemma_one_value(s, (s.lo + k) as nat, forward[k], filled[k]);
        lemma_one_value(s, (s.lo + k) as nat, rev[k], filled[k]);
    }
    assert(forward =~= filled);
    assert(rev =~= filled);
}

/// For a deterministic element type, a value of the sequence at the offset
/// `idx` from the front of its window is the one that the pull after `idx`
/// pulls from the front gives.
pub proof fn lemma_offset_is_forward<T: Blend>(
    s: LinspacedView<T>,
    forward: Seq<T>,
    idx: nat,
    v: T,
)
    requires
        deterministic::<T>(),
        s.wf(),
        s.forward_gives(forward),
        idx < s.remaining(),
        s.yields(s.lo + idx, v),
    ensures
        v == forward[idx as int],
{
    lemma_forward_lists(s, forward);
    lemma_one_value(s, s.lo + idx, v, forward[idx as int]);
}

} // verus!

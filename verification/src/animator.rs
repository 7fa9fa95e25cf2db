//! Which wallpapers are being animated, and by which animator.

use vstd::prelude::*;

verus! {

/// An animation, and the wallpapers that show it.
pub struct Animator {
    /// Tells this animator from every other one the daemon ever had.
    pub id: u64,
    /// The ids of the wallpapers it drives.
    pub wallpapers: Vec<u64>,
}

/// The mathematical counterpart of [`Animator`].
#[verifier::ext_equal]
pub struct AnimatorView {
    pub id: u64,
    pub wallpapers: Seq<u64>,
}

impl View for Animator {
    type V = AnimatorView;

    open spec fn view(&self) -> AnimatorView {
        AnimatorView { id: self.id, wallpapers: self.wallpapers@ }
    }
}

/// The animators of a list, each by its view.
pub open spec fn animators_view(v: Seq<Animator>) -> Seq<AnimatorView> {
    v.map_values(|a: Animator| a@)
}

impl AnimatorView {
    /// The animator without the wallpapers in `ids`.
    pub open spec fn without(self, ids: Seq<u64>) -> AnimatorView {
        AnimatorView { id: self.id, wallpapers: self.wallpapers.filter(unlisted(ids)) }
    }

    /// Whether the animator drives no wallpaper.
    pub open spec fn is_idle(self) -> bool {
        self.wallpapers.len() == 0
    }
}

/// Holds of what is not in `ids`.
pub open spec fn unlisted(ids: Seq<u64>) -> spec_fn(u64) -> bool {
    |w: u64| !ids.contains(w)
}

/// Holds of the animators that drive at least one wallpaper.
pub open spec fn busy() -> spec_fn(AnimatorView) -> bool {
    |a: AnimatorView| !a.is_idle()
}

/// `animators` once the wallpapers in `ids` are taken from them and those left without any are
/// dropped. The others stay in order.
pub open spec fn detached(animators: Seq<AnimatorView>, ids: Seq<u64>) -> Seq<AnimatorView> {
    animators.map_values(|a: AnimatorView| a.without(ids)).filter(busy())
}

/// How often `id` occurs in `list`.
pub open spec fn occurrences(list: Seq<u64>, id: u64) -> nat
    decreases list.len(),
{
    if list.len() == 0 {
        0
    } else {
        occurrences(list.drop_last(), id) + if list.last() == id {
            1nat
        } else {
            0nat
        }
    }
}

/// How often the wallpaper `id` is driven by `animators`.
pub open spec fn holders(animators: Seq<AnimatorView>, id: u64) -> nat
    decreases animators.len(),
{
    if animators.len() == 0 {
        0
    } else {
        holders(animators.drop_last(), id) + occurrences(animators.last().wallpapers, id)
    }
}

/// How many of `animators` bear `id`.
pub open spec fn bearers(animators: Seq<AnimatorView>, id: u64) -> nat
    decreases animators.len(),
{
    if animators.len() == 0 {
        0
    } else {
        bearers(animators.drop_last(), id) + if animators.last().id == id {
            1nat
        } else {
            0nat
        }
    }
}

/// Counting one more element.
pub proof fn lemma_occurrences_push(list: Seq<u64>, e: u64, id: u64)
    ensures
        occurrences(list.push(e), id) == occurrences(list, id) + if e == id {
            1nat
        } else {
            0nat
        },
{
    assert(list.push(e).drop_last() =~= list);
}

/// What a list holds occurs in it, and what does not occur is not held.
pub proof fn lemma_occurrences_contains(list: Seq<u64>, id: u64)
    ensures
        occurrences(list, id) > 0 <==> list.contains(id),
    decreases list.len(),
{
    if list.len() > 0 {
        let rest = list.drop_last();
        lemma_occurrences_contains(rest, id);
        if rest.contains(id) {
            let k = choose|k: int| 0 <= k < rest.len() && rest[k] == id;
            assert(list[k] == id);
        }
        if list.contains(id) && list.last() != id {
            let k = choose|k: int| 0 <= k < list.len() && list[k] == id;
            assert(rest[k] == id);
        }
        if list.last() == id {
            assert(list[list.len() - 1] == id);
        }
    }
}

/// A list without duplicates holds nothing more than once.
pub proof fn lemma_occurrences_unique(list: Seq<u64>, id: u64)
    requires
        list.no_duplicates(),
    ensures
        occurrences(list, id) <= 1,
    decreases list.len(),
{
    if list.len() > 0 {
        let rest = list.drop_last();
        assert(rest.no_duplicates());
        lemma_occurrences_unique(rest, id);
        lemma_occurrences_contains(rest, id);
        if list.last() == id && rest.contains(id) {
            let k = choose|k: int| 0 <= k < rest.len() && rest[k] == id;
            assert(list[k] == list[list.len() - 1]);
        }
    }
}

/// Filtering a list keeps the occurrences of what passes and drops those of what does not.
pub proof fn lemma_occurrences_filter(list: Seq<u64>, pred: spec_fn(u64) -> bool, id: u64)
    ensures
        occurrences(list.filter(pred), id) == if pred(id) {
            occurrences(list, id)
        } else {
            0
        },
    decreases list.len(),
{
    reveal(Seq::filter);
    if list.len() > 0 {
        let rest = list.drop_last();
        lemma_occurrences_filter(rest, pred, id);
        if pred(list.last()) {
            lemma_occurrences_push(rest.filter(pred), list.last(), id);
        }
    }
}

/// Adding an animator.
pub proof fn lemma_holders_push(animators: Seq<AnimatorView>, a: AnimatorView, id: u64)
    ensures
        holders(animators.push(a), id) == holders(animators, id) + occurrences(a.wallpapers, id),
        bearers(animators.push(a), id) == bearers(animators, id) + if a.id == id {
            1nat
        } else {
            0nat
        },
{
    assert(animators.push(a).drop_last() =~= animators);
}

/// Replacing an animator.
pub proof fn lemma_holders_update(
    animators: Seq<AnimatorView>,
    i: int,
    a: AnimatorView,
    id: u64,
)
    requires
        0 <= i < animators.len(),
    ensures
        holders(animators.update(i, a), id) + occurrences(animators[i].wallpapers, id) == holders(
            animators,
            id,
        ) + occurrences(a.wallpapers, id),
        bearers(animators.update(i, a), id) + (if animators[i].id == id {
            1nat
        } else {
            0nat
        }) == bearers(animators, id) + if a.id == id {
            1nat
        } else {
            0nat
        },
    decreases animators.len(),
{
    let last = animators.len() - 1;
    if i == last {
        assert(animators.update(i, a).drop_last() =~= animators.drop_last());
    } else {
        assert(animators.update(i, a).drop_last() =~= animators.drop_last().update(i, a));
        lemma_holders_update(animators.drop_last(), i, a, id);
    }
}

/// Taking an animator out of a list by putting the last one in its place.
pub open spec fn swap_removed(animators: Seq<AnimatorView>, i: int) -> Seq<AnimatorView> {
    animators.update(i, animators.last()).drop_last()
}

/// What is taken out of a list is what the list then lacks.
pub proof fn lemma_holders_swap_removed(animators: Seq<AnimatorView>, i: int, id: u64)
    requires
        0 <= i < animators.len(),
    ensures
        holders(swap_removed(animators, i), id) + occurrences(animators[i].wallpapers, id)
            == holders(animators, id),
        bearers(swap_removed(animators, i), id) + (if animators[i].id == id {
            1nat
        } else {
            0nat
        }) == bearers(animators, id),
{
    lemma_holders_update(animators, i, animators.last(), id);
    let u = animators.update(i, animators.last());
    assert(u.last() == animators.last());
}

/// An animator that is in the list counts towards what the list drives and bears.
pub proof fn lemma_holders_member(animators: Seq<AnimatorView>, i: int, id: u64)
    requires
        0 <= i < animators.len(),
    ensures
        holders(animators, id) >= occurrences(animators[i].wallpapers, id),
        bearers(animators, id) >= if animators[i].id == id {
            1nat
        } else {
            0nat
        },
    decreases animators.len(),
{
    if i < animators.len() - 1 {
        lemma_holders_member(animators.drop_last(), i, id);
    }
}

/// Dropping the animators that drive nothing changes nothing of what is driven.
pub proof fn lemma_holders_busy(animators: Seq<AnimatorView>, id: u64)
    ensures
        holders(animators.filter(busy()), id) == holders(animators, id),
        bearers(animators.filter(busy()), id) <= bearers(animators, id),
    decreases animators.len(),
{
    reveal(Seq::filter);
    if animators.len() > 0 {
        let rest = animators.drop_last();
        lemma_holders_busy(rest, id);
        if busy()(animators.last()) {
            lemma_holders_push(rest.filter(busy()), animators.last(), id);
        } else {
            assert(animators.last().wallpapers.len() == 0);
        }
    }
}

/// Once wallpapers are detached no animator drives them, and what drives any other wallpaper
/// drives it as before.
pub proof fn lemma_holders_detached(animators: Seq<AnimatorView>, ids: Seq<u64>, id: u64)
    ensures
        holders(detached(animators, ids), id) == if ids.contains(id) {
            0
        } else {
            holders(animators, id)
        },
        bearers(detached(animators, ids), id) <= bearers(animators, id),
    decreases animators.len(),
{
    let stripped = animators.map_values(|a: AnimatorView| a.without(ids));
    lemma_holders_busy(stripped, id);
    lemma_holders_stripped(animators, ids, id);
}

proof fn lemma_holders_stripped(animators: Seq<AnimatorView>, ids: Seq<u64>, id: u64)
    ensures
        holders(animators.map_values(|a: AnimatorView| a.without(ids)), id) == if ids.contains(id) {
            0
        } else {
            holders(animators, id)
        },
        bearers(animators.map_values(|a: AnimatorView| a.without(ids)), id) == bearers(
            animators,
            id,
        ),
    decreases animators.len(),
{
    let f = |a: AnimatorView| a.without(ids);
    if animators.len() > 0 {
        let rest = animators.drop_last();
        lemma_holders_stripped(rest, ids, id);
        assert(animators.map_values(f) =~= rest.map_values(f).push(f(animators.last())));
        lemma_holders_push(rest.map_values(f), f(animators.last()), id);
        lemma_occurrences_filter(animators.last().wallpapers, unlisted(ids), id);
    }
}

/// Whether `id` is in `list`.
pub fn lists(list: &Vec<u64>, id: u64) -> (r: bool)
    ensures
        r == list@.contains(id),
{
    let mut i: usize = 0;
    while i < list.len()
        invariant
            i <= list.len(),
            forall|j: int| 0 <= j < i ==> list@[j] != id,
        decreases list.len() - i,
    {
        if list[i] == id {
            assert(list@[i as int] == id);
            return true;
        }
        i += 1;
    }
    false
}

/// What `list` holds that is not in `ids`, in order.
pub fn retain_unlisted(list: &Vec<u64>, ids: &Vec<u64>) -> (r: Vec<u64>)
    ensures
        r@ == list@.filter(unlisted(ids@)),
{
    let ghost pred = unlisted(ids@);
    let mut kept: Vec<u64> = Vec::new();
    let mut i: usize = 0;
    proof {
        reveal(Seq::filter);
        assert(list@.take(0).filter(pred) =~= Seq::<u64>::empty());
    }
    while i < list.len()
        invariant
            i <= list.len(),
            pred == unlisted(ids@),
            kept@ == list@.take(i as int).filter(pred),
        decreases list.len() - i,
    {
        let w: u64 = list[i];
        proof {
            list@.take(i as int).lemma_filter_push(w, pred);
            assert(list@.take(i as int).push(w) =~= list@.take(i + 1));
        }
        if !lists(ids, w) {
            kept.push(w);
        }
        i += 1;
    }
    proof {
        assert(list@.take(i as int) =~= list@);
    }
    kept
}

/// `animators` without those that drive nothing.
pub fn retain_busy(animators: &Vec<Animator>) -> (r: Vec<Animator>)
    ensures
        animators_view(r@) == animators_view(animators@).filter(busy()),
{
    let ids: Vec<u64> = Vec::new();
    let ghost before = animators_view(animators@);
    let r = detach(animators, &ids);
    proof {
        let stripped = before.map_values(|a: AnimatorView| a.without(ids@));
        assert forall|i: int| 0 <= i < before.len() implies stripped[i] == before[i] by {
            lemma_filter_all(before[i].wallpapers, unlisted(ids@));
            assert(stripped[i] =~= before[i]);
        }
        assert(stripped =~= before);
    }
    r
}

/// Filtering by what holds of every element changes nothing.
pub proof fn lemma_filter_all<A>(s: Seq<A>, pred: spec_fn(A) -> bool)
    requires
        forall|i: int| 0 <= i < s.len() ==> pred(#[trigger] s[i]),
    ensures
        s.filter(pred) == s,
    decreases s.len(),
{
    reveal(Seq::filter);
    if s.len() > 0 {
        let rest = s.drop_last();
        assert forall|i: int| 0 <= i < rest.len() implies pred(#[trigger] rest[i]) by {
            assert(pred(s[i]));
        }
        lemma_filter_all(rest, pred);
        assert(pred(s[s.len() - 1]));
        assert(s.filter(pred) =~= s);
    }
}

/// Takes the wallpapers in `ids` from `animators`, and drops those left without any.
pub fn detach(animators: &Vec<Animator>, ids: &Vec<u64>) -> (r: Vec<Animator>)
    ensures
        animators_view(r@) == detached(animators_view(animators@), ids@),
{
    let ghost all = animators_view(animators@);
    let ghost f = |a: AnimatorView| a.without(ids@);
    let mut kept: Vec<Animator> = Vec::new();
    let mut i: usize = 0;
    proof {
        reveal(Seq::filter);
        assert(all.take(0).map_values(f).filter(busy()) =~= Seq::<AnimatorView>::empty());
        assert(animators_view(kept@) =~= Seq::<AnimatorView>::empty());
    }
    while i < animators.len()
        invariant
            i <= animators.len(),
            all == animators_view(animators@),
            f == (|a: AnimatorView| a.without(ids@)),
            animators_view(kept@) == all.take(i as int).map_values(f).filter(busy()),
        decreases animators.len() - i,
    {
        let left = Animator {
            id: animators[i].id,
            wallpapers: retain_unlisted(&animators[i].wallpapers, ids),
        };
        proof {
            let done = all.take(i as int).map_values(f);
            assert(left@ =~= f(all[i as int]));
            assert(all.take(i + 1).map_values(f) =~= done.push(left@));
            done.lemma_filter_push(left@, busy());
        }
        if left.wallpapers.len() > 0 {
            let ghost kept_before = kept@;
            let ghost pushed = left@;
            kept.push(left);
            proof {
                assert(animators_view(kept@) =~= animators_view(kept_before).push(pushed));
            }
        }
        i += 1;
    }
    proof {
        assert(all.take(i as int) =~= all);
    }
    kept
}

} // verus!

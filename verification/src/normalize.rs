//! Folding a component sequence into a normalized path: current-directory
//! markers are skipped, a parent-directory marker removes the most recent
//! normal segment if one is present, and root or prefix markers are kept.

use crate::component::{comp_views, Component, SpecComponent};
use vstd::prelude::*;

verus! {

/// One step of the fold: how the accumulator changes for one component.
pub open spec fn fold_step(acc: Seq<SpecComponent>, c: SpecComponent) -> Seq<SpecComponent> {
    match c {
        SpecComponent::RootMarker => acc.push(c),
        SpecComponent::PathPrefix(_) => acc.push(c),
        SpecComponent::NormalSegment(_) => acc.push(c),
        SpecComponent::CurrentDirMarker => acc,
        SpecComponent::ParentDirMarker => if acc.len() > 0 && acc.last() is NormalSegment {
            acc.drop_last()
        } else {
            acc
        },
    }
}

/// The normalized form of a component sequence: the fold of all its
/// components, in order, starting from an empty accumulator.
pub open spec fn fold_components(s: Seq<SpecComponent>) -> Seq<SpecComponent>
    decreases s.len(),
{
    if s.len() == 0 {
        Seq::<SpecComponent>::empty()
    } else {
        fold_step(fold_components(s.drop_last()), s.last())
    }
}

/// Copies a byte vector element by element.
fn copy_bytes(src: &Vec<u8>) -> (r: Vec<u8>)
    ensures
        r@ == src@,
{
    let mut r: Vec<u8> = Vec::new();
    let mut i: usize = 0;
    while i < src.len()
        invariant
            i <= src.len(),
            r@ == src@.take(i as int),
        decreases src.len() - i,
    {
        r.push(src[i]);
        proof {
            assert(src@.take(i as int + 1) =~= src@.take(i as int).push(src@[i as int]));
        }
        i = i + 1;
    }
    proof {
        assert(src@.take(src@.len() as int) =~= src@);
    }
    r
}

/// Folds a component sequence into its normalized form.
pub fn normalize_components(components: &Vec<Component>) -> (r: Vec<Component>)
    ensures
        comp_views(r@) == fold_components(comp_views(components@)),
{
    let ghost all = comp_views(components@);
    let mut acc: Vec<Component> = Vec::new();
    let mut k: usize = 0;
    while k < components.len()
        invariant
            components@.len() == all.len(),
            forall|j: int| 0 <= j < all.len() ==> all[j] == (#[trigger] components@[j])@,
            k <= components.len(),
            comp_views(acc@) == fold_components(all.take(k as int)),
        decreases components.len() - k,
    {
        let ghost pre = all.take(k as int);
        proof {
            assert(all.take(k as int + 1).drop_last() =~= pre);
            assert(all.take(k as int + 1).last() == all[k as int]);
        }
        let ghost accv = acc@;
        let c = &components[k];
        match c {
            Component::RootMarker => {
                acc.push(Component::RootMarker);
                proof {
                    assert(comp_views(acc@) =~= comp_views(accv).push(c@));
                }
            },
            Component::PathPrefix(p) => {
                acc.push(Component::PathPrefix(copy_bytes(p)));
                proof {
                    assert(comp_views(acc@) =~= comp_views(accv).push(c@));
                }
            },
            Component::NormalSegment(n) => {
                acc.push(Component::NormalSegment(copy_bytes(n)));
                proof {
                    assert(comp_views(acc@) =~= comp_views(accv).push(c@));
                }
            },
            Component::CurrentDirMarker => {},
            Component::ParentDirMarker => {
                if acc.len() > 0 {
                    let last_is_normal = match &acc[acc.len() - 1] {
                        Component::NormalSegment(_) => true,
                        _ => false,
                    };
                    proof {
                        assert(comp_views(accv).last() == accv[accv.len() - 1]@);
                    }
                    if last_is_normal {
                        acc.pop();
                        proof {
                            assert(comp_views(acc@) =~= comp_views(accv).drop_last());
                        }
                    }
                }
            },
        }
        k = k + 1;
    }
    proof {
        assert(all.take(all.len() as int) =~= all);
    }
    acc
}

/// Holds when no element of `s` is a current-directory marker.
pub open spec fn no_current_dir(s: Seq<SpecComponent>) -> bool {
    forall|i: int| 0 <= i < s.len() ==> !((#[trigger] s[i]) is CurrentDirMarker)
}

/// Holds when no element of `s` is a parent-directory marker.
pub open spec fn no_parent_dir(s: Seq<SpecComponent>) -> bool {
    forall|i: int| 0 <= i < s.len() ==> !((#[trigger] s[i]) is ParentDirMarker)
}

/// A normalized path never contains a current-directory marker.
pub proof fn lemma_fold_no_current_dir(s: Seq<SpecComponent>)
    ensures
        no_current_dir(fold_components(s)),
    decreases s.len(),
{
    if s.len() > 0 {
        lemma_fold_no_current_dir(s.drop_last());
    }
}

/// A normalized path never contains a parent-directory marker: the fold
/// resolves every one against the accumulator instead of keeping it.
pub proof fn lemma_fold_no_parent_dir(s: Seq<SpecComponent>)
    ensures
        no_parent_dir(fold_components(s)),
    decreases s.len(),
{
    if s.len() > 0 {
        lemma_fold_no_parent_dir(s.drop_last());
    }
}

/// A parent-directory marker directly after a normal segment cancels it:
/// the two together leave the normalized path unchanged.
pub proof fn lemma_parent_cancels_normal(s: Seq<SpecComponent>, name: Seq<u8>)
    ensures
        fold_components(
            s.push(SpecComponent::NormalSegment(name)).push(SpecComponent::ParentDirMarker),
        ) == fold_components(s),
{
    let s1 = s.push(SpecComponent::NormalSegment(name));
    let s2 = s1.push(SpecComponent::ParentDirMarker);
    assert(s2.drop_last() =~= s1);
    assert(s1.drop_last() =~= s);
    assert(fold_components(s1) == fold_components(s).push(SpecComponent::NormalSegment(name)));
    assert(fold_components(s1).drop_last() =~= fold_components(s));
}

/// A parent-directory marker at the very start acts on an empty accumulator
/// and is a no-op: the fold never underflows.
pub proof fn lemma_parent_on_empty_noop(s: Seq<SpecComponent>)
    ensures
        fold_components(seq![SpecComponent::ParentDirMarker] + s) == fold_components(s),
    decreases s.len(),
{
    let p = seq![SpecComponent::ParentDirMarker];
    if s.len() == 0 {
        assert(p + s =~= p);
        let e = Seq::<SpecComponent>::empty();
        assert(p.drop_last() =~= e);
        assert(fold_components(e) == e);
        assert(p.last() == SpecComponent::ParentDirMarker);
        assert(fold_components(p) == fold_step(fold_components(p.drop_last()), p.last()));
        assert(fold_step(e, SpecComponent::ParentDirMarker) == e);
        assert(fold_components(s) == e);
    } else {
        lemma_parent_on_empty_noop(s.drop_last());
        assert((p + s).drop_last() =~= p + s.drop_last());
        assert((p + s).last() == s.last());
    }
}

/// Holds of the components a parent-directory marker can never remove: the
/// root marker and platform prefixes.
pub open spec fn is_anchor(c: SpecComponent) -> bool {
    c is RootMarker || c is PathPrefix
}

/// The subsequence of root and prefix markers of `s`, in order.
pub open spec fn anchors(s: Seq<SpecComponent>) -> Seq<SpecComponent>
    decreases s.len(),
{
    if s.len() == 0 {
        Seq::<SpecComponent>::empty()
    } else if is_anchor(s.last()) {
        anchors(s.drop_last()).push(s.last())
    } else {
        anchors(s.drop_last())
    }
}

/// Root and prefix markers are never removed by a parent-directory marker:
/// the normalized path holds exactly the anchors of the input, in order.
pub proof fn lemma_fold_preserves_anchors(s: Seq<SpecComponent>)
    ensures
        anchors(fold_components(s)) == anchors(s),
    decreases s.len(),
{
    if s.len() > 0 {
        lemma_fold_preserves_anchors(s.drop_last());
        let prev = fold_components(s.drop_last());
        let c = s.last();
        match c {
            SpecComponent::RootMarker => {
                assert(prev.push(c).drop_last() =~= prev);
            },
            SpecComponent::PathPrefix(_) => {
                assert(prev.push(c).drop_last() =~= prev);
            },
            SpecComponent::NormalSegment(_) => {
                assert(prev.push(c).drop_last() =~= prev);
            },
            SpecComponent::CurrentDirMarker => {},
            SpecComponent::ParentDirMarker => {},
        }
    }
}

/// Folding a sequence that is already normalized (one without `.` and `..`
/// markers) returns the identical sequence.
pub proof fn lemma_fold_identity_on_normalized(s: Seq<SpecComponent>)
    requires
        no_current_dir(s),
        no_parent_dir(s),
    ensures
        fold_components(s) == s,
    decreases s.len(),
{
    if s.len() > 0 {
        lemma_fold_identity_on_normalized(s.drop_last());
        assert(s.drop_last().push(s.last()) =~= s);
    }
}

/// Normalizing is idempotent: folding an already-folded sequence changes
/// nothing.
pub proof fn lemma_fold_idempotent(s: Seq<SpecComponent>)
    ensures
        fold_components(fold_components(s)) == fold_components(s),
{
    lemma_fold_no_current_dir(s);
    lemma_fold_no_parent_dir(s);
    lemma_fold_identity_on_normalized(fold_components(s));
}

/// A sequence of normal segments alone folds to itself: the output order
/// equals the input order.
pub proof fn lemma_fold_preserves_normal_order(s: Seq<SpecComponent>)
    requires
        forall|i: int| 0 <= i < s.len() ==> (#[trigger] s[i]) is NormalSegment,
    ensures
        fold_components(s) == s,
{
    lemma_fold_identity_on_normalized(s);
}

} // verus!

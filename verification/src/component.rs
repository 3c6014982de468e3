//! Path components: the atomic segments of a path, and the decomposition of a
//! raw path (as bytes) into its ordered component sequence.

use vstd::prelude::*;

verus! {

/// The byte value of the path separator `/`.
pub const SLASH: u8 = 47;

/// The byte value of `.`.
pub const DOT: u8 = 46;

/// Mathematical model of one path component.
pub enum SpecComponent {
    /// The root directory marker (a leading `/`).
    RootMarker,
    /// A platform volume or drive prefix, passed through untouched.
    PathPrefix(Seq<u8>),
    /// A `.` segment: refers to the current directory.
    CurrentDirMarker,
    /// A `..` segment: refers to the parent directory.
    ParentDirMarker,
    /// An ordinary named segment.
    NormalSegment(Seq<u8>),
}

/// One atomic segment of a path, as classified by the segmentation rules.
#[derive(Debug)]
pub enum Component {
    /// The root directory marker (a leading `/`).
    RootMarker,
    /// A platform volume or drive prefix, passed through untouched.
    PathPrefix(Vec<u8>),
    /// A `.` segment: refers to the current directory.
    CurrentDirMarker,
    /// A `..` segment: refers to the parent directory.
    ParentDirMarker,
    /// An ordinary named segment.
    NormalSegment(Vec<u8>),
}

impl View for Component {
    type V = SpecComponent;

    open spec fn view(&self) -> SpecComponent {
        match self {
            Component::RootMarker => SpecComponent::RootMarker,
            Component::PathPrefix(p) => SpecComponent::PathPrefix(p@),
            Component::CurrentDirMarker => SpecComponent::CurrentDirMarker,
            Component::ParentDirMarker => SpecComponent::ParentDirMarker,
            Component::NormalSegment(n) => SpecComponent::NormalSegment(n@),
        }
    }
}

/// Compares two byte vectors element by element.
pub fn bytes_eq(a: &Vec<u8>, b: &Vec<u8>) -> (r: bool)
    ensures
        r == (a@ == b@),
{
    if a.len() != b.len() {
        return false;
    }
    let mut i: usize = 0;
    while i < a.len()
        invariant
            i <= a.len(),
            a.len() == b.len(),
            forall|j: int| 0 <= j < i ==> a@[j] == b@[j],
        decreases a.len() - i,
    {
        if a[i] != b[i] {
            return false;
        }
        i = i + 1;
    }
    proof {
        assert(a@ =~= b@);
    }
    true
}

impl PartialEq for Component {
    fn eq(&self, other: &Self) -> (r: bool) {
        match (self, other) {
            (Component::RootMarker, Component::RootMarker) => true,
            (Component::PathPrefix(a), Component::PathPrefix(b)) => bytes_eq(a, b),
            (Component::CurrentDirMarker, Component::CurrentDirMarker) => true,
            (Component::ParentDirMarker, Component::ParentDirMarker) => true,
            (Component::NormalSegment(a), Component::NormalSegment(b)) => bytes_eq(a, b),
            _ => false,
        }
    }
}

impl vstd::std_specs::cmp::PartialEqSpecImpl for Component {
    open spec fn obeys_eq_spec() -> bool {
        true
    }

    open spec fn eq_spec(&self, other: &Self) -> bool {
        self@ == other@
    }
}

/// The models of a sequence of components, element by element.
pub open spec fn comp_views(s: Seq<Component>) -> Seq<SpecComponent> {
    Seq::new(s.len(), |i: int| s[i]@)
}

/// The component that a segment name stands for: `.` is the current-directory
/// marker, `..` the parent-directory marker, anything else a normal segment.
pub open spec fn seg_component(name: Seq<u8>) -> SpecComponent {
    if name.len() == 1 && name[0] == DOT {
        SpecComponent::CurrentDirMarker
    } else if name.len() == 2 && name[0] == DOT && name[1] == DOT {
        SpecComponent::ParentDirMarker
    } else {
        SpecComponent::NormalSegment(name)
    }
}

/// The maximal separator-free runs of `s`, in order: the names of its
/// segments. Runs of separators produce no empty segments.
pub open spec fn spec_segments(s: Seq<u8>) -> Seq<Seq<u8>>
    decreases s.len(),
{
    if s.len() == 0 {
        Seq::<Seq<u8>>::empty()
    } else {
        let init = s.drop_last();
        let b = s.last();
        let segs = spec_segments(init);
        if b == SLASH {
            segs
        } else if init.len() == 0 || init.last() == SLASH {
            segs.push(seq![b])
        } else {
            segs.update(segs.len() - 1, segs.last().push(b))
        }
    }
}

/// Each segment name classified as a component.
pub open spec fn seg_comps(names: Seq<Seq<u8>>) -> Seq<SpecComponent>
    decreases names.len(),
{
    if names.len() == 0 {
        Seq::<SpecComponent>::empty()
    } else {
        seg_comps(names.drop_last()).push(seg_component(names.last()))
    }
}

/// The ordered component sequence of a raw path: a root marker when the path
/// begins with the separator, followed by its classified segments.
pub open spec fn spec_components_of(s: Seq<u8>) -> Seq<SpecComponent> {
    if s.len() > 0 && s[0] == SLASH {
        seq![SpecComponent::RootMarker] + seg_comps(spec_segments(s))
    } else {
        seg_comps(spec_segments(s))
    }
}

/// Classifies one segment name as a component.
pub fn classify_segment(name: Vec<u8>) -> (c: Component)
    ensures
        c@ == seg_component(name@),
{
    if name.len() == 1 && name[0] == DOT {
        Component::CurrentDirMarker
    } else if name.len() == 2 && name[0] == DOT && name[1] == DOT {
        Component::ParentDirMarker
    } else {
        Component::NormalSegment(name)
    }
}

/// Decomposes a raw path, given as bytes, into its ordered component
/// sequence: an optional leading root marker, then one component per
/// separator-free segment.
pub fn path_to_components(path: &Vec<u8>) -> (r: Vec<Component>)
    ensures
        comp_views(r@) == spec_components_of(path@),
{
    let ghost full = path@;
    let mut out: Vec<Component> = Vec::new();
    if path.len() > 0 && path[0] == SLASH {
        out.push(Component::RootMarker);
    }
    let ghost root_part = comp_views(out@);
    let mut cur: Vec<u8> = Vec::new();
    let mut i: usize = 0;
    while i < path.len()
        invariant
            path@ == full,
            i <= full.len(),
            cur.len() == 0 ==> (i == 0 || full[i as int - 1] == SLASH)
                && comp_views(out@) == root_part + seg_comps(spec_segments(full.take(i as int))),
            cur.len() > 0 ==> i >= 1 && full[i as int - 1] != SLASH
                && spec_segments(full.take(i as int)).len() > 0
                && spec_segments(full.take(i as int)).last() == cur@
                && comp_views(out@) == root_part + seg_comps(
                    spec_segments(full.take(i as int)).drop_last(),
                ),
        decreases full.len() - i,
    {
        let ghost pre = full.take(i as int);
        let ghost segs_pre = spec_segments(pre);
        proof {
            assert(full.take(i as int + 1).drop_last() =~= pre);
            assert(full.take(i as int + 1).last() == full[i as int]);
        }
        let ghost segs_post = spec_segments(full.take(i as int + 1));
        let b = path[i];
        if b == SLASH {
            assert(segs_post == segs_pre);
            if cur.len() > 0 {
                let ghost curv = cur@;
                let ghost outv = out@;
                let c = classify_segment(cur);
                out.push(c);
                cur = Vec::new();
                proof {
                    assert(seg_comps(segs_pre) == seg_comps(segs_pre.drop_last()).push(
                        seg_component(curv),
                    ));
                    assert(comp_views(out@) =~= comp_views(outv).push(seg_component(curv)));
                    assert(comp_views(out@) =~= root_part + seg_comps(segs_post));
                }
            }
        } else {
            let ghost curv = cur@;
            cur.push(b);
            proof {
                if curv.len() == 0 {
                    assert(segs_post == segs_pre.push(seq![b]));
                    assert(cur@ =~= seq![b]);
                    assert(segs_post.drop_last() =~= segs_pre);
                } else {
                    assert(pre.len() >= 1 && pre.last() != SLASH);
                    assert(segs_post == segs_pre.update(
                        segs_pre.len() - 1,
                        segs_pre.last().push(b),
                    ));
                    assert(segs_post.last() == cur@);
                    assert(segs_post.drop_last() =~= segs_pre.drop_last());
                }
            }
        }
        i = i + 1;
    }
    proof {
        assert(full.take(full.len() as int) =~= full);
    }
    if cur.len() > 0 {
        let ghost curv = cur@;
        let ghost outv = out@;
        let ghost segs = spec_segments(full);
        let c = classify_segment(cur);
        out.push(c);
        proof {
            assert(seg_comps(segs) == seg_comps(segs.drop_last()).push(seg_component(curv)));
            assert(comp_views(out@) =~= comp_views(outv).push(seg_component(curv)));
            assert(comp_views(out@) =~= root_part + seg_comps(segs));
        }
    }
    proof {
        if full.len() > 0 && full[0] == SLASH {
            assert(root_part =~= seq![SpecComponent::RootMarker]);
        } else {
            assert(root_part =~= Seq::<SpecComponent>::empty());
            assert(root_part + seg_comps(spec_segments(full)) =~= seg_comps(spec_segments(full)));
        }
    }
    out
}

} // verus!

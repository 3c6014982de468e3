//! Rendering a component sequence back into a path, as bytes.

use crate::component::{comp_views, Component, SpecComponent, DOT, SLASH};
use vstd::prelude::*;

verus! {

/// Appends one named segment: a separator first, unless the path so far is
/// empty or already ends with one.
pub open spec fn render_name(cur: Seq<u8>, name: Seq<u8>) -> Seq<u8> {
    if cur.len() == 0 || cur.last() == SLASH {
        cur + name
    } else {
        cur.push(SLASH) + name
    }
}

/// One step of rendering: how the path bytes grow for one component.
pub open spec fn render_step(cur: Seq<u8>, c: SpecComponent) -> Seq<u8> {
    match c {
        SpecComponent::RootMarker => cur.push(SLASH),
        SpecComponent::PathPrefix(p) => cur + p,
        SpecComponent::CurrentDirMarker => render_name(cur, seq![DOT]),
        SpecComponent::ParentDirMarker => render_name(cur, seq![DOT, DOT]),
        SpecComponent::NormalSegment(n) => render_name(cur, n),
    }
}

/// The path bytes that a component sequence renders to.
pub open spec fn spec_render(s: Seq<SpecComponent>) -> Seq<u8>
    decreases s.len(),
{
    if s.len() == 0 {
        Seq::<u8>::empty()
    } else {
        render_step(spec_render(s.drop_last()), s.last())
    }
}

/// Appends the bytes of `src` to `buf`.
fn append_bytes(buf: &mut Vec<u8>, src: &Vec<u8>)
    ensures
        final(buf)@ == old(buf)@ + src@,
{
    let mut i: usize = 0;
    while i < src.len()
        invariant
            i <= src.len(),
            buf@ == old(buf)@ + src@.take(i as int),
        decreases src.len() - i,
    {
        buf.push(src[i]);
        proof {
            assert(old(buf)@ + src@.take(i as int + 1) =~= (old(buf)@ + src@.take(i as int)).push(
                src@[i as int],
            ));
        }
        i = i + 1;
    }
    proof {
        assert(src@.take(src@.len() as int) =~= src@);
    }
}

/// Appends one segment name, preceded by a separator unless the path so far
/// is empty or already ends with one.
fn push_name(buf: &mut Vec<u8>, name: &Vec<u8>)
    ensures
        final(buf)@ == render_name(old(buf)@, name@),
{
    let n = buf.len();
    if n > 0 && buf[n - 1] != SLASH {
        buf.push(SLASH);
        proof {
            assert(buf@ == old(buf)@.push(SLASH));
        }
    }
    append_bytes(buf, name);
}

/// Renders a component sequence into path bytes: the root marker is the
/// separator itself, a prefix is passed through untouched, and named
/// segments are joined by separators.
pub fn components_to_path(components: &Vec<Component>) -> (r: Vec<u8>)
    ensures
        r@ == spec_render(comp_views(components@)),
{
    let ghost all = comp_views(components@);
    let mut buf: Vec<u8> = Vec::new();
    let mut k: usize = 0;
    while k < components.len()
        invariant
            components@.len() == all.len(),
            forall|j: int| 0 <= j < all.len() ==> all[j] == (#[trigger] components@[j])@,
            k <= components.len(),
            buf@ == spec_render(all.take(k as int)),
        decreases components.len() - k,
    {
        proof {
            assert(all.take(k as int + 1).drop_last() =~= all.take(k as int));
            assert(all.take(k as int + 1).last() == all[k as int]);
        }
        match &components[k] {
            Component::RootMarker => {
                buf.push(SLASH);
            },
            Component::PathPrefix(p) => {
                append_bytes(&mut buf, p);
            },
            Component::CurrentDirMarker => {
                let dot: Vec<u8> = vec![DOT];
                proof {
                    assert(dot@ =~= seq![DOT]);
                }
                push_name(&mut buf, &dot);
            },
            Component::ParentDirMarker => {
                let dots: Vec<u8> = vec![DOT, DOT];
                proof {
                    assert(dots@ =~= seq![DOT, DOT]);
                }
                push_name(&mut buf, &dots);
            },
            Component::NormalSegment(n) => {
                push_name(&mut buf, n);
            },
        }
        k = k + 1;
    }
    proof {
        assert(all.take(all.len() as int) =~= all);
    }
    buf
}

} // verus!

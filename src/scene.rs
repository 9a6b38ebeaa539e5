use vstd::prelude::*;

use crate::sphere::{chosen_root, lemma_narrowed_bound, root_key, select_root, Root};

verus! {

/// The roots of every member of a scene are ordered (`near <= far`), as they
/// are for any ray with a non-zero direction.
pub open spec fn ordered_roots(roots: Seq<Option<(u64, u64)>>) -> bool {
    forall|j: int| 0 <= j < roots.len() ==> (#[trigger] roots[j] matches Some(p) ==> p.0 <= p.1)
}

/// The distance key at which member `j` alone is hit inside `(t_min, t_max)`.
/// `None` in `roots` stands for a member that the ray misses (no real root).
pub open spec fn member_hit(roots: Seq<Option<(u64, u64)>>, j: int, t_min: u64, t_max: u64) -> Option<u64> {
    match roots[j] {
        None => None,
        Some(p) => match chosen_root(p.0, p.1, t_min, t_max) {
            None => None,
            Some(r) => Some(root_key(r, p.0, p.1)),
        },
    }
}

/// Member `i`, hit through `root`, is the closest hit of the scene: its
/// distance is the least of all members' own hits, and every member before it
/// is hit strictly farther (the earliest member wins a tie).
pub open spec fn is_closest(
    roots: Seq<Option<(u64, u64)>>,
    t_min: u64,
    t_max: u64,
    i: int,
    root: Root,
) -> bool {
    &&& 0 <= i < roots.len()
    &&& roots[i] matches Some(p)
    &&& member_hit(roots, i, t_min, t_max) == Some(root_key(root, p.0, p.1))
    &&& forall|j: int|
        0 <= j < roots.len() ==> (#[trigger] member_hit(roots, j, t_min, t_max) matches Some(k)
            ==> root_key(root, p.0, p.1) <= k)
    &&& forall|j: int|
        0 <= j < i ==> (#[trigger] member_hit(roots, j, t_min, t_max) matches Some(k) ==> root_key(
            root,
            p.0,
            p.1,
        ) < k)
}

/// Closest hit over the members of a scene, in order, each tested against the
/// interval `(t_min, closest so far)`: a later member replaces the current hit
/// only when it is strictly nearer. The result is the member and the root it
/// was hit by. There is a hit exactly when some member alone is hit; with
/// ordered roots it is the closest one.
pub fn closest_hit(roots: &Vec<Option<(u64, u64)>>, t_min: u64, t_max: u64) -> (r: Option<
    (usize, Root),
>)
    ensures
        r is None <==> forall|j: int|
            0 <= j < roots@.len() ==> #[trigger] member_hit(roots@, j, t_min, t_max) is None,
        r matches Some(h) ==> {
            &&& h.0 < roots@.len()
            &&& roots@[h.0 as int] matches Some(p)
            &&& t_min < root_key(h.1, p.0, p.1) < t_max
        },
        ordered_roots(roots@) ==> (r matches Some(h) ==> is_closest(
            roots@,
            t_min,
            t_max,
            h.0 as int,
            h.1,
        )),
{
    let mut best: Option<(usize, Root)> = None;
    let mut closest: u64 = t_max;
    let mut i: usize = 0;
    while i < roots.len()
        invariant
            i <= roots@.len(),
            best is None ==> closest == t_max,
            best is None ==> forall|j: int|
                0 <= j < i ==> #[trigger] member_hit(roots@, j, t_min, t_max) is None,
            best matches Some(h) ==> {
                &&& h.0 < i
                &&& roots@[h.0 as int] matches Some(p)
                &&& closest == root_key(h.1, p.0, p.1)
                &&& t_min < closest < t_max
                &&& member_hit(roots@, h.0 as int, t_min, t_max) is Some
            },
            ordered_roots(roots@) ==> (best matches Some(h) ==> {
                &&& roots@[h.0 as int] matches Some(p)
                &&& member_hit(roots@, h.0 as int, t_min, t_max) == Some(closest)
                &&& forall|j: int|
                    0 <= j < i ==> (#[trigger] member_hit(roots@, j, t_min, t_max) matches Some(k)
                        ==> closest <= k)
                &&& forall|j: int|
                    0 <= j < h.0 ==> (#[trigger] member_hit(roots@, j, t_min, t_max) matches Some(
                        k,
                    ) ==> closest < k)
            }),
        decreases roots@.len() - i,
    {
        if let Some(p) = roots[i] {
            let (near, far) = p;
            proof {
                lemma_narrowed_bound(near, far, t_min, closest, t_max);
            }
            match select_root(near, far, t_min, closest) {
                Some(root) => {
                    closest = match root {
                        Root::Near => near,
                        Root::Far => far,
                    };
                    best = Some((i, root));
                },
                None => {},
            }
        }
        i += 1;
    }
    best
}

} // verus!

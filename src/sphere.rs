use vstd::prelude::*;

verus! {

/// Which root of the ray/sphere quadratic gives the hit.
#[derive(Clone, Copy, Debug, PartialEq, Eq, Structural)]
pub enum Root {
    Near,
    Far,
}

/// `t` lies strictly inside the interval `(t_min, t_max)`.
pub open spec fn inside(t: u64, t_min: u64, t_max: u64) -> bool {
    t_min < t && t < t_max
}

/// The root that the intersection test reports: the near root when it lies
/// inside the open interval, else the far root when that one does, else none.
pub open spec fn chosen_root(near: u64, far: u64, t_min: u64, t_max: u64) -> Option<Root> {
    if inside(near, t_min, t_max) {
        Some(Root::Near)
    } else if inside(far, t_min, t_max) {
        Some(Root::Far)
    } else {
        None
    }
}

/// Picks the root of a ray/sphere intersection, all distances given as keys.
/// `near` and `far` are the roots `(-b - sqrt d) / a` and `(-b + sqrt d) / a`.
pub fn select_root(near: u64, far: u64, t_min: u64, t_max: u64) -> (r: Option<Root>)
    ensures
        r == chosen_root(near, far, t_min, t_max),
{
    if t_min < near && near < t_max {
        Some(Root::Near)
    } else if t_min < far && far < t_max {
        Some(Root::Far)
    } else {
        None
    }
}

/// The key of the distance reported by a hit.
pub open spec fn root_key(root: Root, near: u64, far: u64) -> u64 {
    match root {
        Root::Near => near,
        Root::Far => far,
    }
}

/// For roots `near <= far`: a reported hit lies inside the interval, is the
/// smallest root that does, and there is no hit only when neither root is inside.
pub proof fn lemma_nearest_root(near: u64, far: u64, t_min: u64, t_max: u64)
    requires
        near <= far,
    ensures
        chosen_root(near, far, t_min, t_max) matches Some(r) ==> {
            &&& inside(root_key(r, near, far), t_min, t_max)
            &&& inside(near, t_min, t_max) ==> root_key(r, near, far) == near
        },
        chosen_root(near, far, t_min, t_max) is None <==> (!inside(near, t_min, t_max)
            && !inside(far, t_min, t_max)),
{
}

/// Lowering the upper bound of the interval to `c` keeps a hit exactly when
/// its distance is below `c`: a root found under `c` is found under `t_max`
/// too, and for ordered roots it is the same root.
pub proof fn lemma_narrowed_bound(near: u64, far: u64, t_min: u64, c: u64, t_max: u64)
    requires
        c <= t_max,
    ensures
        chosen_root(near, far, t_min, c) is Some ==> chosen_root(near, far, t_min, t_max) is Some,
        near <= far ==> (chosen_root(near, far, t_min, c) matches Some(r) ==> chosen_root(
            near,
            far,
            t_min,
            t_max,
        ) == Some(r)),
        near <= far ==> (chosen_root(near, far, t_min, c) is None ==> (chosen_root(
            near,
            far,
            t_min,
            t_max,
        ) matches Some(r) ==> c <= root_key(r, near, far))),
        c == t_max ==> chosen_root(near, far, t_min, c) == chosen_root(near, far, t_min, t_max),
{
}

} // verus!

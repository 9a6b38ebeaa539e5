use vstd::prelude::*;

verus! {

/// What the scene and the hit surface made of a traced ray.
#[derive(Clone, Copy, Debug, PartialEq, Eq, Structural)]
pub enum Outcome {
    /// No member of the scene was hit.
    Missed,
    /// A surface was hit and its material absorbed the ray.
    Absorbed,
    /// A surface was hit and its material scattered the ray, with an attenuation.
    Scattered,
}

/// What the ray-colour computation does next.
#[derive(Clone, Copy, Debug, PartialEq, Eq, Structural)]
pub enum Step {
    /// Query the scene with the current ray; `depth` bounces are left.
    Trace { depth: i32 },
    /// Stop: the ray contributes black (times the attenuation gathered so far).
    Black,
    /// Stop: the ray contributes the sky gradient (times the attenuation so far).
    Sky,
}

/// A ray is traced only while bounces are left; none are left at depth zero or below.
pub open spec fn begin_spec(depth: i32) -> Step {
    if depth <= 0 {
        Step::Black
    } else {
        Step::Trace { depth }
    }
}

/// The step that follows a scene query made at `depth`: a miss shows the sky,
/// an absorption gives black, a scattered ray is traced with one bounce less.
pub open spec fn advance_spec(depth: i32, outcome: Outcome) -> Step {
    match outcome {
        Outcome::Missed => Step::Sky,
        Outcome::Absorbed => Step::Black,
        Outcome::Scattered => begin_spec((depth - 1) as i32),
    }
}

/// First step for a camera ray with `depth` bounces allowed.
pub fn begin(depth: i32) -> (s: Step)
    ensures
        s == begin_spec(depth),
{
    if depth <= 0 {
        Step::Black
    } else {
        Step::Trace { depth }
    }
}

/// Next step after a scene query made at `depth`.
pub fn advance(depth: i32, outcome: Outcome) -> (s: Step)
    requires
        depth > 0,
    ensures
        s == advance_spec(depth, outcome),
{
    match outcome {
        Outcome::Missed => Step::Sky,
        Outcome::Absorbed => Step::Black,
        Outcome::Scattered => begin(depth - 1),
    }
}

/// How many times the scene is queried for one camera ray with `depth`
/// bounces allowed, when the queries come out as `outcomes` in order (the
/// count stops early if `outcomes` runs out).
pub open spec fn queries(depth: i32, outcomes: Seq<Outcome>) -> nat
    decreases outcomes.len(),
{
    match begin_spec(depth) {
        Step::Trace { depth: d } => if outcomes.len() == 0 {
            0
        } else {
            match advance_spec(d, outcomes[0]) {
                Step::Trace { depth: next } => 1 + queries(next, outcomes.drop_first()),
                _ => 1,
            }
        },
        _ => 0,
    }
}

/// Recursion is bounded by the depth: whatever the scene and the materials
/// do, a ray with `depth` bounces allowed queries the scene at most `depth`
/// times, and not at all when `depth` is zero or below (the result is black).
pub proof fn lemma_depth_bounds_queries(depth: i32, outcomes: Seq<Outcome>)
    ensures
        depth <= 0 ==> queries(depth, outcomes) == 0 && begin_spec(depth) == Step::Black,
        queries(depth, outcomes) <= if depth <= 0 {
            0
        } else {
            depth as int
        },
    decreases outcomes.len(),
{
    if depth > 0 && outcomes.len() > 0 {
        if let Step::Trace { depth: next } = advance_spec(depth, outcomes[0]) {
            lemma_depth_bounds_queries(next, outcomes.drop_first());
        }
    }
}

} // verus!

//! What a retarget curve and its evaluator keep between the frames: the
//! tracks that were applied and are waiting for their commit, and the
//! parameters that earlier commits have looked up.
//!
//! The base curve, the base evaluator and the animated property belong to the
//! animation system; the caller forwards to them. This module decides which
//! parameters a commit uses and what an evaluator of the wrong kind is
//! answered.

use vstd::prelude::*;

use crate::registry::{with_entry, TransformationRegistry};
use crate::types::{Key, NodeHandle, TrackId};

verus! {

/// The parameters that a commit under `key` uses: those that the evaluator
/// has looked up before, else those of the registry.
pub open spec fn resolved<T>(cache: Map<Key, T>, registry: Map<Key, T>, key: Key) -> Option<T> {
    if cache.contains_key(key) {
        Some(cache[key])
    } else if registry.contains_key(key) {
        Some(registry[key])
    } else {
        None
    }
}

/// What the evaluator has looked up after a commit under `key`.
pub open spec fn cached<T>(cache: Map<Key, T>, registry: Map<Key, T>, key: Key) -> Map<Key, T> {
    match resolved(cache, registry, key) {
        Some(value) => cache.insert(key, value),
        None => cache,
    }
}

/// Two evaluators that have not yet looked a key up read the same parameters
/// for it after it has been registered: those that the registry holds, which
/// are the registered ones if the key had no entry before.
pub proof fn lemma_independent_readers_agree<T>(
    first: Map<Key, T>,
    second: Map<Key, T>,
    registry: Map<Key, T>,
    key: Key,
    value: T,
)
    requires
        !first.contains_key(key),
        !second.contains_key(key),
    ensures
        resolved(first, with_entry(registry, key, value), key) == resolved(
            second,
            with_entry(registry, key, value),
            key,
        ),
        resolved(first, with_entry(registry, key, value), key) == Some(
            with_entry(registry, key, value)[key],
        ),
        !registry.contains_key(key) ==> resolved(first, with_entry(registry, key, value), key)
            == Some(value),
{
}

/// Once an evaluator has looked a key up, it reads the same parameters for it
/// ever after, whatever the registry holds by then: neither a second
/// registration of the key nor anything else reaches what it has kept.
pub proof fn lemma_cached_reader_is_stable<T>(
    cache: Map<Key, T>,
    registry: Map<Key, T>,
    later: Map<Key, T>,
    key: Key,
)
    requires
        resolved(cache, registry, key) is Some,
    ensures
        resolved(cached(cache, registry, key), later, key) == resolved(cache, registry, key),
{
}

/// The bookkeeping of one retarget evaluator.
pub struct RetargetEvaluator<T> {
    nodes: Vec<TrackId>,
    transformations: TransformationRegistry<T>,
}

impl<T: Copy> RetargetEvaluator<T> {
    /// The tracks that were applied and not yet committed, the latest last.
    pub closed spec fn tracks(&self) -> Seq<TrackId> {
        self.nodes@
    }

    /// The parameters that the evaluator has looked up so far.
    pub closed spec fn cache(&self) -> Map<Key, T> {
        self.transformations@
    }

    /// Whether a commit on `node` has a track to take and parameters to use.
    pub open spec fn ready(&self, node: NodeHandle, registry: Map<Key, T>) -> bool {
        self.tracks().len() > 0 && resolved(
            self.cache(),
            registry,
            (node, self.tracks().last()),
        ) is Some
    }

    /// An evaluator that has applied no track and looked up nothing.
    pub fn new() -> (evaluator: Self)
        ensures
            evaluator.tracks() == Seq::<TrackId>::empty(),
            evaluator.cache() == Map::<Key, T>::empty(),
    {
        RetargetEvaluator { nodes: Vec::new(), transformations: TransformationRegistry::new() }
    }

    /// Records that `graph_node` was applied.
    pub fn push(&mut self, graph_node: TrackId)
        ensures
            final(self).tracks() == old(self).tracks().push(graph_node),
            final(self).cache() == old(self).cache(),
    {
        self.nodes.push(graph_node);
    }

    /// Whether `commit` may be called for `node`: a track is waiting, and the
    /// evaluator or the registry has parameters for `node` and that track.
    pub fn is_ready(&self, node: NodeHandle, registry: &TransformationRegistry<T>) -> (b: bool)
        ensures
            b == self.ready(node, registry@),
    {
        let n = self.nodes.len();
        if n == 0 {
            return false;
        }
        let track = self.nodes[n - 1];
        self.transformations.contains(node, track) || registry.contains(node, track)
    }

    /// Takes the latest applied track and returns the parameters for `node`
    /// and that track: those that an earlier commit has looked up, else those
    /// of `registry`, which are then kept for the commits to come.
    pub fn commit(&mut self, node: NodeHandle, registry: &TransformationRegistry<T>) -> (used: T)
        requires
            old(self).ready(node, registry@),
        ensures
            Some(used) == resolved(
                old(self).cache(),
                registry@,
                (node, old(self).tracks().last()),
            ),
            final(self).tracks() == old(self).tracks().drop_last(),
            final(self).cache() == cached(
                old(self).cache(),
                registry@,
                (node, old(self).tracks().last()),
            ),
    {
        let track = self.nodes.pop().unwrap();
        match self.transformations.get(node, track) {
            Some(used) => {
                assert(self.cache() =~= cached(old(self).cache(), registry@, (node, track)));
                used
            },
            None => {
                let used = registry.get(node, track).unwrap();
                let _ = self.transformations.register(node, track, used);
                used
            },
        }
    }
}

/// The kinds of curve evaluator that the animation system may hand to a curve.
#[derive(Clone, Copy, Debug, PartialEq, Eq, Structural)]
pub enum EvaluatorKind {
    /// The evaluator of a bone rotation retarget curve.
    BoneRotation,
    /// The evaluator of a hips translation retarget curve.
    HipsTranslation,
    /// Any evaluator of the animation system itself.
    Other,
}

/// Why a curve could not be applied.
#[derive(Clone, Copy, Debug, PartialEq, Eq, Structural)]
pub enum AnimationEvaluationError {
    /// The curve was handed an evaluator that is not of the kind named here,
    /// which is the kind the curve creates and needs.
    InconsistentEvaluatorImplementation(EvaluatorKind),
}

/// A curve evaluator, by kind. `R` is the type of the rotation parameters,
/// `T` that of the translation parameters.
pub enum CurveEvaluator<R, T> {
    BoneRotation(RetargetEvaluator<R>),
    HipsTranslation(RetargetEvaluator<T>),
    Other,
}

impl<R, T> CurveEvaluator<R, T> {
    /// The kind of this evaluator.
    pub open spec fn kind(&self) -> EvaluatorKind {
        match self {
            CurveEvaluator::BoneRotation(_) => EvaluatorKind::BoneRotation,
            CurveEvaluator::HipsTranslation(_) => EvaluatorKind::HipsTranslation,
            CurveEvaluator::Other => EvaluatorKind::Other,
        }
    }
}

/// The curve that corrects the rotation of a bone.
#[derive(Clone, Copy, Debug)]
pub struct BoneRotationAnimationCurve;

impl BoneRotationAnimationCurve {
    /// The kind of evaluator that this curve creates and needs.
    pub fn evaluator_id(&self) -> (kind: EvaluatorKind)
        ensures
            kind == EvaluatorKind::BoneRotation,
    {
        EvaluatorKind::BoneRotation
    }

    /// A fresh evaluator for this curve.
    pub fn create_evaluator<R: Copy, T: Copy>(&self) -> (evaluator: CurveEvaluator<R, T>)
        ensures
            evaluator matches CurveEvaluator::BoneRotation(e) && e.tracks() == Seq::<
                TrackId,
            >::empty() && e.cache() == Map::<Key, R>::empty(),
    {
        CurveEvaluator::BoneRotation(RetargetEvaluator::new())
    }

    /// Records that the curve was applied for `graph_node`. An evaluator of
    /// another kind is left as it is and answered with an error.
    pub fn apply<R: Copy, T: Copy>(
        &self,
        curve_evaluator: &mut CurveEvaluator<R, T>,
        graph_node: TrackId,
    ) -> (result: Result<(), AnimationEvaluationError>)
        ensures
            *old(curve_evaluator) matches CurveEvaluator::BoneRotation(before) ==> {
                &&& result is Ok
                &&& *final(curve_evaluator) matches CurveEvaluator::BoneRotation(after)
                &&& after.tracks() == before.tracks().push(graph_node)
                &&& after.cache() == before.cache()
            },
            !(*old(curve_evaluator) is BoneRotation) ==> {
                &&& result == Err::<(), AnimationEvaluationError>(
                    AnimationEvaluationError::InconsistentEvaluatorImplementation(
                        EvaluatorKind::BoneRotation,
                    ),
                )
                &&& *final(curve_evaluator) == *old(curve_evaluator)
            },
    {
        match curve_evaluator {
            CurveEvaluator::BoneRotation(evaluator) => {
                evaluator.push(graph_node);
                Ok(())
            },
            _ => Err(
                AnimationEvaluationError::InconsistentEvaluatorImplementation(
                    EvaluatorKind::BoneRotation,
                ),
            ),
        }
    }
}

/// The curve that corrects the translation of the hips.
#[derive(Clone, Copy, Debug)]
pub struct HipsTranslationAnimationCurve;

impl HipsTranslationAnimationCurve {
    /// The kind of evaluator that this curve creates and needs.
    pub fn evaluator_id(&self) -> (kind: EvaluatorKind)
        ensures
            kind == EvaluatorKind::HipsTranslation,
    {
        EvaluatorKind::HipsTranslation
    }

    /// A fresh evaluator for this curve.
    pub fn create_evaluator<R: Copy, T: Copy>(&self) -> (evaluator: CurveEvaluator<R, T>)
        ensures
            evaluator matches CurveEvaluator::HipsTranslation(e) && e.tracks() == Seq::<
                TrackId,
            >::empty() && e.cache() == Map::<Key, T>::empty(),
    {
        CurveEvaluator::HipsTranslation(RetargetEvaluator::new())
    }

    /// Records that the curve was applied for `graph_node`. An evaluator of
    /// another kind is left as it is and answered with an error.
    pub fn apply<R: Copy, T: Copy>(
        &self,
        curve_evaluator: &mut CurveEvaluator<R, T>,
        graph_node: TrackId,
    ) -> (result: Result<(), AnimationEvaluationError>)
        ensures
            *old(curve_evaluator) matches CurveEvaluator::HipsTranslation(before) ==> {
                &&& result is Ok
                &&& *final(curve_evaluator) matches CurveEvaluator::HipsTranslation(after)
                &&& after.tracks() == before.tracks().push(graph_node)
                &&& after.cache() == before.cache()
            },
            !(*old(curve_evaluator) is HipsTranslation) ==> {
                &&& result == Err::<(), AnimationEvaluationError>(
                    AnimationEvaluationError::InconsistentEvaluatorImplementation(
                        EvaluatorKind::HipsTranslation,
                    ),
                )
                &&& *final(curve_evaluator) == *old(curve_evaluator)
            },
    {
        match curve_evaluator {
            CurveEvaluator::HipsTranslation(evaluator) => {
                evaluator.push(graph_node);
                Ok(())
            },
            _ => Err(
                AnimationEvaluationError::InconsistentEvaluatorImplementation(
                    EvaluatorKind::HipsTranslation,
                ),
            ),
        }
    }
}

} // verus!

//! The dirty-flag algebra: a two-valued redraw outcome combined by logical
//! OR, and a fold that reduces a sequence of fallible outcomes into one,
//! short-circuiting at the first error.

use vstd::prelude::*;

verus! {

/// Whether the visible frame must be redrawn after handling an event.
#[derive(Clone, Copy, Debug, PartialEq, Eq, Structural)]
pub enum FrameBuffer {
    /// Nothing changed; the host may keep the current frame.
    NoUpdates,
    /// The frame is stale and must be recomposed.
    MarkDirty,
}

/// Error produced by a fallible event handler. No handler in the current
/// core fails; the type exists so that the fold protocol is fixed for
/// future fallible handlers. The code tells distinct failures apart.
#[derive(Clone, Copy, Debug, PartialEq, Eq, Structural)]
pub struct UpdateError {
    pub code: u32,
}

/// What one event-handling step reports back: a redraw outcome, or the
/// error that aborted it.
pub type EventLoopResult = Result<FrameBuffer, UpdateError>;

impl FrameBuffer {
    /// The outcome as a boolean redraw signal: `MarkDirty` is `true`.
    pub open spec fn spec_bool(self) -> bool {
        self is MarkDirty
    }

    /// Combination of two outcomes: `MarkDirty` dominates.
    pub open spec fn spec_or(self, other: FrameBuffer) -> FrameBuffer {
        if self is MarkDirty || other is MarkDirty {
            FrameBuffer::MarkDirty
        } else {
            FrameBuffer::NoUpdates
        }
    }

    /// Maps the outcome to the boolean the host understands.
    pub fn as_bool(&self) -> (r: bool)
        ensures
            r == self.spec_bool(),
    {
        match self {
            FrameBuffer::MarkDirty => true,
            FrameBuffer::NoUpdates => false,
        }
    }

    /// Combines two outcomes; the result is dirty if either side is.
    pub fn combine(self, rhs: FrameBuffer) -> (r: FrameBuffer)
        ensures
            r == self.spec_or(rhs),
    {
        match (self, rhs) {
            (FrameBuffer::NoUpdates, FrameBuffer::NoUpdates) => FrameBuffer::NoUpdates,
            _ => FrameBuffer::MarkDirty,
        }
    }

    /// Combines an outcome into a fallible one; an error passes through
    /// unchanged, a success is OR-combined.
    pub fn combine_result(self, rhs: EventLoopResult) -> (r: EventLoopResult)
        ensures
            r == spec_or_result(self, rhs),
    {
        match rhs {
            Ok(value) => Ok(self.combine(value)),
            err => err,
        }
    }
}

impl Default for FrameBuffer {
    /// The neutral outcome: no redraw needed.
    fn default() -> (r: Self)
        ensures
            r == FrameBuffer::NoUpdates,
    {
        FrameBuffer::NoUpdates
    }
}

impl From<bool> for FrameBuffer {
    fn from(value: bool) -> (r: Self)
        ensures
            r == (if value {
                FrameBuffer::MarkDirty
            } else {
                FrameBuffer::NoUpdates
            }),
    {
        match value {
            true => Self::MarkDirty,
            false => Self::NoUpdates,
        }
    }
}

impl vstd::std_specs::convert::FromSpecImpl<bool> for FrameBuffer {
    open spec fn obeys_from_spec() -> bool {
        true
    }

    open spec fn from_spec(value: bool) -> Self {
        if value {
            FrameBuffer::MarkDirty
        } else {
            FrameBuffer::NoUpdates
        }
    }
}

/// Folds a success into a fallible result; errors dominate.
pub open spec fn spec_or_result(acc: FrameBuffer, rest: EventLoopResult) -> EventLoopResult {
    match rest {
        Ok(value) => Ok(acc.spec_or(value)),
        Err(e) => Err(e),
    }
}

/// The fold of a sequence of fallible outcomes: starts from `NoUpdates`,
/// ORs successes together, and stops at the first error, which is returned
/// unchanged. The empty sequence folds to `Ok(NoUpdates)`.
pub open spec fn spec_fold(s: Seq<EventLoopResult>) -> EventLoopResult
    decreases s.len(),
{
    if s.len() == 0 {
        Ok(FrameBuffer::NoUpdates)
    } else {
        match s[0] {
            Err(e) => Err(e),
            Ok(first) => spec_or_result(first, spec_fold(s.drop_first())),
        }
    }
}

/// Reduces a sequence of already-computed fallible outcomes into one,
/// short-circuiting at the first error.
pub fn try_consume(results: &Vec<EventLoopResult>) -> (r: EventLoopResult)
    ensures
        r == spec_fold(results@),
{
    let mut acc = FrameBuffer::NoUpdates;
    let mut i: usize = 0;
    proof {
        assert(results@.skip(0) =~= results@);
    }
    while i < results.len()
        invariant
            i <= results@.len(),
            spec_fold(results@) == spec_or_result(acc, spec_fold(results@.skip(i as int))),
        decreases results@.len() - i,
    {
        proof {
            assert(results@.skip(i as int)[0] == results@[i as int]);
            assert(results@.skip(i as int).drop_first() =~= results@.skip(i + 1));
        }
        match results[i] {
            Err(e) => {
                return Err(e);
            },
            Ok(value) => {
                acc = acc.combine(value);
            },
        }
        i = i + 1;
    }
    proof {
        assert(results@.skip(i as int) =~= Seq::<EventLoopResult>::empty());
    }
    Ok(acc)
}

/// Law: on a sequence with no errors, the fold succeeds and its outcome is
/// the logical OR of all outcomes: it is dirty exactly when some element is.
pub proof fn lemma_fold_is_or(s: Seq<EventLoopResult>)
    requires
        forall|i: int| 0 <= i < s.len() ==> s[i] is Ok,
    ensures
        spec_fold(s) is Ok,
        spec_fold(s)->Ok_0.spec_bool() == exists|i: int|
            0 <= i < s.len() && #[trigger] s[i]->Ok_0.spec_bool(),
    decreases s.len(),
{
    if s.len() > 0 {
        lemma_fold_is_or(s.drop_first());
        assert(forall|i: int|
            0 <= i < s.drop_first().len() ==> s.drop_first()[i] == s[i + 1]);
        if spec_fold(s)->Ok_0.spec_bool() {
            if s[0]->Ok_0.spec_bool() {
                assert(s[0]->Ok_0.spec_bool());
            } else {
                let j = choose|j: int|
                    0 <= j < s.drop_first().len() && #[trigger] s.drop_first()[j]->Ok_0.spec_bool();
                assert(s[j + 1]->Ok_0.spec_bool());
            }
        }
        if exists|i: int| 0 <= i < s.len() && #[trigger] s[i]->Ok_0.spec_bool() {
            let i = choose|i: int| 0 <= i < s.len() && #[trigger] s[i]->Ok_0.spec_bool();
            if i > 0 {
                assert(s.drop_first()[i - 1]->Ok_0.spec_bool());
            }
        }
    }
}

/// Law: if the sequence holds an error, the fold returns the first error,
/// and the elements after it have no bearing on the result.
pub proof fn lemma_fold_first_error(s: Seq<EventLoopResult>, k: int)
    requires
        0 <= k < s.len(),
        s[k] is Err,
        forall|i: int| 0 <= i < k ==> s[i] is Ok,
    ensures
        spec_fold(s) == s[k],
    decreases k,
{
    if k > 0 {
        assert(forall|i: int|
            0 <= i < s.drop_first().len() ==> s.drop_first()[i] == s[i + 1]);
        lemma_fold_first_error(s.drop_first(), k - 1);
    }
}

} // verus!

//! The middleware chain, driven one step at a time. A cursor says which step
//! comes next: a middleware's request pass, the handler, or a middleware's
//! response pass. The runtime performs the step and reports whether a
//! request pass delegated or answered by itself.

use vstd::prelude::*;

verus! {

/// A step of the chain.
#[derive(Clone, Copy, Debug, PartialEq, Eq, Structural)]
pub enum Stage {
    /// The request pass of the middleware at this position.
    Before(usize),
    /// The router and the handler.
    Handler,
    /// The response pass of the middleware at this position.
    After(usize),
    /// The response is final.
    Done,
}

/// How a request pass ended.
#[derive(Clone, Copy, Debug, PartialEq, Eq, Structural)]
pub enum Outcome {
    /// It handed the request on to the rest of the chain.
    Continue,
    /// It produced the response itself; nothing further in runs.
    Respond,
}

/// Where a chain of `len` middlewares stands.
#[derive(Clone, Copy, Debug, PartialEq, Eq, Structural)]
pub struct ChainCursor {
    pub len: usize,
    pub stage: Stage,
}

/// The positions in the stages are those of the chain.
pub open spec fn cursor_ok(c: ChainCursor) -> bool {
    match c.stage {
        Stage::Before(i) => i < c.len,
        Stage::After(i) => i < c.len,
        _ => true,
    }
}

/// The first step: the outermost request pass, or the handler when the
/// chain is empty.
pub open spec fn start_spec(len: usize) -> ChainCursor {
    ChainCursor { len, stage: if len == 0 { Stage::Handler } else { Stage::Before(0) } }
}

/// The step after `c`, given how it ended. Request passes go inwards in
/// registration order, response passes outwards in reverse; a middleware
/// that answers itself skips everything inside it and its own response
/// pass.
pub open spec fn next_spec(c: ChainCursor, o: Outcome) -> ChainCursor {
    let stage = match c.stage {
        Stage::Before(i) => match o {
            Outcome::Respond => if i == 0 {
                Stage::Done
            } else {
                Stage::After((i - 1) as usize)
            },
            Outcome::Continue => if i + 1 < c.len {
                Stage::Before((i + 1) as usize)
            } else {
                Stage::Handler
            },
        },
        Stage::Handler => if c.len == 0 {
            Stage::Done
        } else {
            Stage::After((c.len - 1) as usize)
        },
        Stage::After(i) => if i == 0 {
            Stage::Done
        } else {
            Stage::After((i - 1) as usize)
        },
        Stage::Done => Stage::Done,
    };
    ChainCursor { len: c.len, stage }
}

impl ChainCursor {
    /// A cursor at the first step of a chain of `len` middlewares.
    pub fn start(len: usize) -> (r: ChainCursor)
        ensures
            r == start_spec(len),
            cursor_ok(r),
    {
        ChainCursor { len, stage: if len == 0 { Stage::Handler } else { Stage::Before(0) } }
    }

    /// The step that follows this one.
    pub fn advance(&self, outcome: Outcome) -> (r: ChainCursor)
        requires
            cursor_ok(*self),
        ensures
            r == next_spec(*self, outcome),
            cursor_ok(r),
    {
        let stage = match self.stage {
            Stage::Before(i) => match outcome {
                Outcome::Respond => if i == 0 {
                    Stage::Done
                } else {
                    Stage::After(i - 1)
                },
                Outcome::Continue => if i + 1 < self.len {
                    Stage::Before(i + 1)
                } else {
                    Stage::Handler
                },
            },
            Stage::Handler => if self.len == 0 {
                Stage::Done
            } else {
                Stage::After(self.len - 1)
            },
            Stage::After(i) => if i == 0 {
                Stage::Done
            } else {
                Stage::After(i - 1)
            },
            Stage::Done => Stage::Done,
        };
        ChainCursor { len: self.len, stage }
    }

    /// Whether the response is final.
    pub fn is_done(&self) -> (r: bool)
        ensures
            r == (self.stage is Done),
    {
        match self.stage {
            Stage::Done => true,
            _ => false,
        }
    }
}

/// How far a cursor is from the end of the chain.
pub open spec fn rank(c: ChainCursor) -> nat {
    match c.stage {
        Stage::Before(i) => (2 * c.len + 1 - i) as nat,
        Stage::Handler => (c.len + 1) as nat,
        Stage::After(i) => (i + 1) as nat,
        Stage::Done => 0,
    }
}

/// How the step at `c` ends when the middlewares marked in `answers` answer
/// by themselves.
pub open spec fn outcome_at(c: ChainCursor, answers: Seq<bool>) -> Outcome {
    match c.stage {
        Stage::Before(i) => if i < answers.len() && answers[i as int] {
            Outcome::Respond
        } else {
            Outcome::Continue
        },
        _ => Outcome::Continue,
    }
}

/// The steps run from `c` on, up to the final response.
pub open spec fn stages_from(c: ChainCursor, answers: Seq<bool>) -> Seq<Stage>
    decreases rank(c),
{
    if !cursor_ok(c) || c.stage is Done {
        seq![]
    } else {
        let n = next_spec(c, outcome_at(c, answers));
        if rank(n) < rank(c) {
            seq![c.stage].add(stages_from(n, answers))
        } else {
            seq![]
        }
    }
}

/// Request passes of the positions `lo` up to but not including `hi`.
pub open spec fn requests(lo: int, hi: int) -> Seq<Stage> {
    Seq::new((hi - lo) as nat, |k: int| Stage::Before((lo + k) as usize))
}

/// Response passes of the positions below `n`, innermost first.
pub open spec fn unwind(n: int) -> Seq<Stage> {
    Seq::new(n as nat, |k: int| Stage::After((n - 1 - k) as usize))
}

proof fn lemma_unwind(len: usize, i: usize, answers: Seq<bool>)
    requires
        i < len,
    ensures
        stages_from(ChainCursor { len, stage: Stage::After(i) }, answers) == unwind(i + 1),
    decreases i,
{
    let c = ChainCursor { len, stage: Stage::After(i) };
    if i == 0 {
        assert(stages_from(next_spec(c, Outcome::Continue), answers) == Seq::<Stage>::empty());
        assert(stages_from(c, answers) =~= unwind(1));
    } else {
        lemma_unwind(len, (i - 1) as usize, answers);
        assert(stages_from(c, answers) =~= unwind(i + 1));
    }
}

proof fn lemma_requests_all(len: usize, i: usize, answers: Seq<bool>)
    requires
        i < len,
        forall|k: int| i <= k < len && k < answers.len() ==> !answers[k],
    ensures
        stages_from(ChainCursor { len, stage: Stage::Before(i) }, answers) == requests(
            i as int,
            len as int,
        ).push(Stage::Handler) + unwind(len as int),
    decreases len - i,
{
    let c = ChainCursor { len, stage: Stage::Before(i) };
    if i + 1 < len {
        lemma_requests_all(len, (i + 1) as usize, answers);
        assert(stages_from(c, answers) =~= requests(i as int, len as int).push(Stage::Handler)
            + unwind(len as int));
    } else {
        let h = ChainCursor { len, stage: Stage::Handler };
        lemma_unwind(len, (len - 1) as usize, answers);
        assert(stages_from(h, answers) =~= seq![Stage::Handler] + unwind(len as int));
        assert(stages_from(c, answers) =~= requests(i as int, len as int).push(Stage::Handler)
            + unwind(len as int));
    }
}

proof fn lemma_requests_cut(len: usize, i: usize, k: usize, answers: Seq<bool>)
    requires
        i <= k < len,
        k < answers.len(),
        answers[k as int],
        forall|j: int| i <= j < k ==> !answers[j],
    ensures
        stages_from(ChainCursor { len, stage: Stage::Before(i) }, answers) == requests(
            i as int,
            k + 1,
        ) + unwind(k as int),
    decreases k - i,
{
    let c = ChainCursor { len, stage: Stage::Before(i) };
    if i < k {
        lemma_requests_cut(len, (i + 1) as usize, k, answers);
        assert(stages_from(c, answers) =~= requests(i as int, k + 1) + unwind(k as int));
    } else {
        if k > 0 {
            lemma_unwind(len, (k - 1) as usize, answers);
        } else {
            let n = next_spec(c, Outcome::Respond);
            assert(stages_from(n, answers) == Seq::<Stage>::empty());
        }
        assert(stages_from(c, answers) =~= requests(i as int, k + 1) + unwind(k as int));
    }
}

/// The order of a chain. When no middleware answers by itself, the request
/// passes run in registration order, then the handler, then the response
/// passes in reverse order. When the middleware at position `k` is the
/// first to answer, the request passes run up to and including it, then
/// the response passes of those outside it in reverse order: nothing inside
/// it runs, the handler included.
pub proof fn lemma_chain_order(len: usize, answers: Seq<bool>)
    ensures
        (forall|k: int| 0 <= k < len && k < answers.len() ==> !answers[k]) ==> stages_from(
            start_spec(len),
            answers,
        ) == requests(0, len as int).push(Stage::Handler) + unwind(len as int),
        forall|k: int|
            0 <= k < len && k < answers.len() && #[trigger] answers[k] && (forall|j: int|
                0 <= j < k ==> !answers[j]) ==> stages_from(start_spec(len), answers) == requests(
                0,
                k + 1,
            ) + unwind(k),
{
    if forall|k: int| 0 <= k < len && k < answers.len() ==> !answers[k] {
        if len == 0 {
            let h = start_spec(len);
            assert(stages_from(next_spec(h, Outcome::Continue), answers) == Seq::<Stage>::empty());
            assert(stages_from(h, answers) =~= requests(0, 0).push(Stage::Handler) + unwind(0));
        } else {
            lemma_requests_all(len, 0, answers);
        }
    }
    assert forall|k: int|
        0 <= k < len && k < answers.len() && #[trigger] answers[k] && (forall|j: int|
            0 <= j < k ==> !answers[j]) implies stages_from(start_spec(len), answers) == requests(
        0,
        k + 1,
    ) + unwind(k) by {
        lemma_requests_cut(len, 0, k as usize, answers);
    }
}

} // verus!

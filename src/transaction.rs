//! The double move: two file moves made as one step, with the first undone
//! when the second fails.
//!
//! The moves themselves are made by the caller, which reports how each one
//! went; this module decides which move comes next and what the whole
//! operation has come to.

use vstd::prelude::*;

verus! {

/// Why a double move did not complete.
#[derive(Clone, Debug)]
pub enum MoveError {
    /// The first move failed; nothing was moved.
    First { error: String },
    /// The second move failed and the first move was undone.
    Second { error: String },
    /// The second move failed, and so did undoing the first: the first file
    /// is left at its destination.
    Rollback { error: String, rollback_error: String },
}

/// How far a double move has come.
#[derive(Debug)]
pub enum Stage {
    /// The first move is to be made.
    First,
    /// The first move is done; the second is to be made.
    Second,
    /// The second move failed with `error`; the first is to be undone.
    Rollback { error: String },
    /// Nothing is left to do.
    Done { result: Result<(), MoveError> },
}

/// Moves `src_1` to `dst_1`, then `src_2` to `dst_2`. If the second move
/// fails, `dst_1` is moved back to `src_1`.
#[derive(Debug)]
pub struct DoubleMove {
    pub src_1: String,
    pub dst_1: String,
    pub src_2: String,
    pub dst_2: String,
    pub stage: Stage,
}

/// A model of the files on disk: the content stored at each path.
pub type Files = Map<Seq<char>, Seq<u8>>;

/// The files after the file at `from` has been moved to `to`.
pub open spec fn moved(fs: Files, from: Seq<char>, to: Seq<char>) -> Files {
    fs.remove(from).insert(to, fs[from])
}

/// The files after an attempt to move `mv.0` to `mv.1`: a failed move
/// leaves them as they were.
pub open spec fn after_attempt(fs: Files, mv: (String, String), outcome: Result<(), String>) -> Files {
    if outcome is Ok {
        moved(fs, mv.0@, mv.1@)
    } else {
        fs
    }
}

impl DoubleMove {
    /// A double move that has not started.
    pub open spec fn start(src_1: String, dst_1: String, src_2: String, dst_2: String) -> DoubleMove {
        DoubleMove { src_1, dst_1, src_2, dst_2, stage: Stage::First }
    }

    /// The move to make now, from and to, or `None` once the double move is
    /// over.
    pub open spec fn pending(self) -> Option<(String, String)> {
        match self.stage {
            Stage::First => Some((self.src_1, self.dst_1)),
            Stage::Second => Some((self.src_2, self.dst_2)),
            Stage::Rollback { .. } => Some((self.dst_1, self.src_1)),
            Stage::Done { .. } => None,
        }
    }

    /// The double move once the pending move has given `outcome`.
    pub open spec fn after(self, outcome: Result<(), String>) -> DoubleMove {
        let stage = match self.stage {
            Stage::First => match outcome {
                Ok(()) => Stage::Second,
                Err(error) => Stage::Done { result: Err(MoveError::First { error }) },
            },
            Stage::Second => match outcome {
                Ok(()) => Stage::Done { result: Ok(()) },
                Err(error) => Stage::Rollback { error },
            },
            Stage::Rollback { error } => match outcome {
                Ok(()) => Stage::Done { result: Err(MoveError::Second { error }) },
                Err(rollback_error) => Stage::Done {
                    result: Err(MoveError::Rollback { error, rollback_error }),
                },
            },
            Stage::Done { result } => Stage::Done { result },
        };
        DoubleMove { stage, ..self }
    }

    /// The double move and the files after each pending move has been tried
    /// in turn, with the outcomes given.
    pub open spec fn run(self, fs: Files, outcomes: Seq<Result<(), String>>) -> (DoubleMove, Files)
        decreases outcomes.len(),
    {
        if outcomes.len() == 0 || self.pending() is None {
            (self, fs)
        } else {
            self.after(outcomes[0]).run(
                after_attempt(fs, self.pending()->Some_0, outcomes[0]),
                outcomes.drop_first(),
            )
        }
    }

    pub fn new(src_1: String, dst_1: String, src_2: String, dst_2: String) -> (r: DoubleMove)
        ensures
            r == DoubleMove::start(src_1, dst_1, src_2, dst_2),
    {
        DoubleMove { src_1, dst_1, src_2, dst_2, stage: Stage::First }
    }

    /// The move to make now, from and to, or `None` once the double move is
    /// over.
    pub fn next_move(&self) -> (r: Option<(String, String)>)
        ensures
            r == self.pending(),
    {
        match &self.stage {
            Stage::First => Some((self.src_1.clone(), self.dst_1.clone())),
            Stage::Second => Some((self.src_2.clone(), self.dst_2.clone())),
            Stage::Rollback { .. } => Some((self.dst_1.clone(), self.src_1.clone())),
            Stage::Done { .. } => None,
        }
    }

    /// Records how the pending move went: `Ok` if the file was moved, or the
    /// error that stopped it.
    pub fn record(&mut self, outcome: Result<(), String>)
        requires
            old(self).pending() is Some,
        ensures
            *final(self) == old(self).after(outcome),
    {
        let stage = match &self.stage {
            Stage::First => match outcome {
                Ok(()) => Stage::Second,
                Err(error) => Stage::Done { result: Err(MoveError::First { error }) },
            },
            Stage::Second => match outcome {
                Ok(()) => Stage::Done { result: Ok(()) },
                Err(error) => Stage::Rollback { error },
            },
            Stage::Rollback { error } => {
                let error = error.clone();
                match outcome {
                    Ok(()) => Stage::Done { result: Err(MoveError::Second { error }) },
                    Err(rollback_error) => Stage::Done {
                        result: Err(MoveError::Rollback { error, rollback_error }),
                    },
                }
            },
            Stage::Done { .. } => {
                return;
            },
        };
        self.stage = stage;
    }

    /// What the double move came to, once it is over.
    pub fn into_result(self) -> (r: Option<Result<(), MoveError>>)
        ensures
            self.stage is Done <==> r is Some,
            self.stage matches Stage::Done { result } ==> r == Some(result),
    {
        match self.stage {
            Stage::Done { result } => Some(result),
            _ => None,
        }
    }
}

/// Moving a file away and back again leaves the files as they were, when
/// nothing stood at the place it was moved to.
pub proof fn lemma_move_back(fs: Files, a: Seq<char>, b: Seq<char>)
    requires
        fs.contains_key(a),
        !fs.contains_key(b),
        a != b,
    ensures
        moved(moved(fs, a, b), b, a) == fs,
{
    assert(moved(moved(fs, a, b), b, a) =~= fs);
}

/// Whatever each attempted move gives, a double move from a file that
/// exists to a place where no file stands ends within three attempts, in
/// one of four ways: it succeeds and both moves are done; the first move
/// fails and no file has moved; the second move fails, the first is undone
/// and the files are as they were, with an error; or the undo fails too, only
/// the first move is done, and the error names both failures.
pub proof fn lemma_double_move_outcomes(
    src_1: String,
    dst_1: String,
    src_2: String,
    dst_2: String,
    fs: Files,
    outcomes: Seq<Result<(), String>>,
)
    requires
        outcomes.len() >= 3,
        fs.contains_key(src_1@),
        !fs.contains_key(dst_1@),
        src_1@ != dst_1@,
    ensures
        ({
            let (t, after) = DoubleMove::start(src_1, dst_1, src_2, dst_2).run(fs, outcomes);
            &&& t.stage is Done
            &&& t.stage == (Stage::Done { result: Ok(()) }) ==> after == moved(
                moved(fs, src_1@, dst_1@),
                src_2@,
                dst_2@,
            )
            &&& t.stage matches Stage::Done { result: Err(MoveError::First { .. }) } ==> after
                == fs
            &&& t.stage matches Stage::Done { result: Err(MoveError::Second { .. }) } ==> after
                == fs
            &&& t.stage matches Stage::Done { result: Err(MoveError::Rollback { .. }) }
                ==> after == moved(fs, src_1@, dst_1@)
        }),
{
    let t0 = DoubleMove::start(src_1, dst_1, src_2, dst_2);
    let o1 = outcomes.drop_first();
    let o2 = o1.drop_first();
    let o3 = o2.drop_first();
    let t1 = t0.after(outcomes[0]);
    let f1 = after_attempt(fs, t0.pending()->Some_0, outcomes[0]);
    assert(t0.run(fs, outcomes) == t1.run(f1, o1));
    if t1.pending() is None {
        assert(t1.run(f1, o1) == (t1, f1));
    } else {
        let t2 = t1.after(o1[0]);
        let f2 = after_attempt(f1, t1.pending()->Some_0, o1[0]);
        assert(t1.run(f1, o1) == t2.run(f2, o2));
        if t2.pending() is None {
            assert(t2.run(f2, o2) == (t2, f2));
        } else {
            let t3 = t2.after(o2[0]);
            let f3 = after_attempt(f2, t2.pending()->Some_0, o2[0]);
            assert(t2.run(f2, o2) == t3.run(f3, o3));
            assert(t3.pending() is None);
            assert(t3.run(f3, o3) == (t3, f3));
            if o2[0] is Ok {
                lemma_move_back(fs, src_1@, dst_1@);
            }
        }
    }
}

} // verus!

//! Verdicts sent to the master and the mapping from sandbox outcomes.

use vstd::prelude::*;
use crate::meta::{RunMeta, RunStatus};

verus! {

/// A judging verdict streamed to the master. Times are in milliseconds,
/// memory in kilobytes; a score is carried as the checker's own text.
#[derive(Clone, Debug, PartialEq)]
pub enum Verdict {
    DoCompile,
    CompileError(String),
    CompleteCompile(String),
    Accepted(u128, u64, u64),
    WrongAnswer(u128, u64, u64),
    Complete(u128, String, u64, u64),
    TimeLimitExceed(u128),
    RuntimeError(u128, i32),
    DiedOnSignal(u128, i32),
    InternalError(u128),
    UnknownError,
    LanguageNotFound,
    LockedSlave,
    UnlockedSlave,
    JudgeNotFound,
    GeneralError(String),
}

/// The verdict a program or interactive run yields when it did not end
/// cleanly; `None` when it did. A non-clean status whose meta-file lacks the
/// field the verdict needs is reported as an unknown error, as any other
/// malformed meta-file is.
pub open spec fn spec_verdict_of_run(meta: RunMeta, test: u128) -> Option<Verdict> {
    match meta.status {
        None => None,
        Some(RunStatus::TimedOut) => Some(Verdict::TimeLimitExceed(test)),
        Some(RunStatus::DiedOnSignal) => match meta.exitsig {
            Some(sig) => Some(Verdict::DiedOnSignal(test, sig)),
            None => Some(Verdict::UnknownError),
        },
        Some(RunStatus::RuntimeErr) => match meta.exitcode {
            Some(code) => Some(Verdict::RuntimeError(test, code)),
            None => Some(Verdict::UnknownError),
        },
        Some(RunStatus::InternalErr) => Some(Verdict::InternalError(test)),
        Some(RunStatus::Unknown) => Some(Verdict::UnknownError),
    }
}

/// Map a run's meta record to its verdict; `None` means the run was clean
/// and the checker decides.
pub fn verdict_of_run(meta: &RunMeta, test: u128) -> (r: Option<Verdict>)
    ensures
        r == spec_verdict_of_run(*meta, test),
{
    match meta.status {
        None => None,
        Some(RunStatus::TimedOut) => Some(Verdict::TimeLimitExceed(test)),
        Some(RunStatus::DiedOnSignal) => match meta.exitsig {
            Some(sig) => Some(Verdict::DiedOnSignal(test, sig)),
            None => Some(Verdict::UnknownError),
        },
        Some(RunStatus::RuntimeErr) => match meta.exitcode {
            Some(code) => Some(Verdict::RuntimeError(test, code)),
            None => Some(Verdict::UnknownError),
        },
        Some(RunStatus::InternalErr) => Some(Verdict::InternalError(test)),
        Some(RunStatus::Unknown) => Some(Verdict::UnknownError),
    }
}

/// The verdict of a finished checker run over a clean program run: a
/// non-clean checker status means a wrong answer; a clean one is accepted,
/// or complete when the checker reported a score. The times and memory are
/// the checker's. A checker meta-file that lacks its time or memory is
/// reported as an unknown error.
pub open spec fn spec_verdict_of_checker(meta: RunMeta, score: Option<String>, test: u128) -> Verdict {
    if meta.time_ms is None || meta.cg_mem is None {
        Verdict::UnknownError
    } else {
        let t = meta.time_ms->0;
        let m = meta.cg_mem->0;
        if meta.status is Some {
            Verdict::WrongAnswer(test, t, m)
        } else {
            match score {
                Some(sc) => Verdict::Complete(test, sc, t, m),
                None => Verdict::Accepted(test, t, m),
            }
        }
    }
}

/// Map a checker outcome to the verdict of the test case.
pub fn verdict_of_checker(meta: &RunMeta, score: Option<String>, test: u128) -> (r: Verdict)
    ensures
        r == spec_verdict_of_checker(*meta, score, test),
{
    let t = match meta.time_ms {
        Some(t) => t,
        None => {
            return Verdict::UnknownError;
        },
    };
    let m = match meta.cg_mem {
        Some(m) => m,
        None => {
            return Verdict::UnknownError;
        },
    };
    if meta.status.is_some() {
        Verdict::WrongAnswer(test, t, m)
    } else {
        match score {
            Some(sc) => Verdict::Complete(test, sc, t, m),
            None => Verdict::Accepted(test, t, m),
        }
    }
}

} // verus!

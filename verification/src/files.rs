//! The names of the files that the stores are kept with, and the rules for taking turns at them.
use crate::failure::{Failure, FailureKind};
use crate::json::str_view;
use crate::number::{decimal, decimal_string, radix_string};
use vstd::prelude::*;
use vstd::string::*;

verus! {

/// How often a store that is in use is tried.
pub const LOCK_TRIES: u64 = 200;

/// How long to wait before a store that is in use is tried again, in milliseconds.
pub const LOCK_PAUSE_MS: u64 = 10;

/// The name of a file, or the word that stands for that of a file without one.
pub open spec fn name_or_state(file_name: Option<Seq<char>>) -> Seq<char> {
    match file_name {
        Some(name) => name,
        None => "state"@,
    }
}

/// The name of the file that says that a store is in use.
pub open spec fn lock_name(file_name: Option<Seq<char>>) -> Seq<char> {
    "."@ + name_or_state(file_name) + ".lock"@
}

/// The name of the file that says that the store with the given name is in use. It stands beside
/// the store.
pub fn lock_path_for(file_name: Option<&str>) -> (r: String)
    ensures
        r@ == lock_name(str_view(file_name)),
{
    let mut out = ".".to_owned();
    match file_name {
        Some(name) => out.append(name),
        None => out.append("state"),
    }
    out.append(".lock");
    out
}

/// The name of the file in which the next state of a store is written.
pub open spec fn next_name(file_name: Option<Seq<char>>, now_ms: u64) -> Seq<char> {
    "."@ + name_or_state(file_name) + "."@ + decimal(now_ms as nat) + ".tmp"@
}

/// The name of the file in which the next state of the store with the given name is written at a
/// time. It stands beside the store, and takes its place when it is complete.
pub fn atomic_tmp_path(file_name: Option<&str>, now_ms: u64) -> (r: String)
    ensures
        r@ == next_name(str_view(file_name), now_ms),
{
    let mut out = ".".to_owned();
    match file_name {
        Some(name) => out.append(name),
        None => out.append("state"),
    }
    out.append(".");
    out.append(decimal_string(now_ms).as_str());
    out.append(".tmp");
    out
}

/// The name of a file that a call of `curl` writes.
pub open spec fn scratch_name(pid: u32, kind: Seq<char>, nanos: u128) -> Seq<char> {
    "zai-coding-plan-openai-proxy-"@ + decimal(pid as nat) + "-"@ + kind + "-"@ + decimal(
        nanos as nat,
    ) + ".tmp"@
}

/// The name of a file that a call of `curl` writes: of a process, a kind and a time.
pub fn unique_tmp_path(pid: u32, kind: &str, nanos: u128) -> (r: String)
    ensures
        r@ == scratch_name(pid, kind@, nanos),
{
    let mut out = "zai-coding-plan-openai-proxy-".to_owned();
    out.append(decimal_string(pid as u64).as_str());
    out.append("-");
    out.append(kind);
    out.append("-");
    out.append(radix_string(nanos, 10).as_str());
    out.append(".tmp");
    out
}

/// What stands in the file that says that a store is in use.
pub fn lock_note(pid: u32, now_ms: u64) -> (r: String)
    ensures
        r@ == "pid="@ + decimal(pid as nat) + " ts="@ + decimal(now_ms as nat) + "\n"@,
{
    let mut out = "pid=".to_owned();
    out.append(decimal_string(pid as u64).as_str());
    out.append(" ts=");
    out.append(decimal_string(now_ms).as_str());
    out.append("\n");
    out
}

/// What to do after a try at a store.
#[derive(Debug)]
pub enum LockPlan {
    /// Wait that many milliseconds, and try again.
    Wait(u64),
    /// Wait that many milliseconds, and give up.
    TimeOut(u64, Failure),
    /// Give up at once.
    GiveUp(Failure),
}

/// What to do after a try at a store has failed: where it is in use, there are only so many tries.
pub fn plan_lock(tries: u64, err: Failure, lock_path: &str) -> (r: LockPlan)
    ensures
        if err.kind != FailureKind::AlreadyExists {
            r == LockPlan::GiveUp(err)
        } else if tries < LOCK_TRIES {
            r == LockPlan::Wait(LOCK_PAUSE_MS)
        } else {
            r matches LockPlan::TimeOut(pause_ms, e) && pause_ms == LOCK_PAUSE_MS && e@ == (
                FailureKind::TimedOut,
                "timed out waiting for lock: "@ + lock_path@,
            )
        },
{
    if err.kind != FailureKind::AlreadyExists {
        return LockPlan::GiveUp(err);
    }
    if tries < LOCK_TRIES {
        return LockPlan::Wait(LOCK_PAUSE_MS);
    }
    let mut message = "timed out waiting for lock: ".to_owned();
    message.append(lock_path);
    LockPlan::TimeOut(LOCK_PAUSE_MS, Failure { kind: FailureKind::TimedOut, message })
}

/// The files that the head and the body of one response go to are not the same.
pub proof fn law_head_and_body_files_differ(pid: u32, nanos: u128, later: u128)
    ensures
        scratch_name(pid, "headers"@, nanos) != scratch_name(pid, "body"@, later),
{
    reveal_strlit("zai-coding-plan-openai-proxy-");
    reveal_strlit("-");
    reveal_strlit("headers");
    reveal_strlit("body");
    let start = "zai-coding-plan-openai-proxy-"@ + decimal(pid as nat) + "-"@;
    let a = scratch_name(pid, "headers"@, nanos);
    let b = scratch_name(pid, "body"@, later);
    assert(a[start.len() as int] == 'h');
    assert(b[start.len() as int] == 'b');
}

/// Stores with different names have different lock files and different files for their next state;
/// so have the next states of one store at different times.
pub proof fn law_stores_have_their_own_files(
    first: Seq<char>,
    second: Seq<char>,
    now: u64,
    later: u64,
)
    ensures
        lock_name(Some(first)) == lock_name(Some(second)) ==> first == second,
        next_name(Some(first), now) == next_name(Some(second), now) ==> first == second,
        next_name(Some(first), now) == next_name(Some(first), later) ==> now == later,
{
    reveal_strlit(".");
    reveal_strlit(".lock");
    reveal_strlit(".tmp");
    if lock_name(Some(first)) == lock_name(Some(second)) {
        let a = lock_name(Some(first));
        let b = lock_name(Some(second));
        assert(a.subrange(1, a.len() - 5) =~= first);
        assert(b.subrange(1, b.len() - 5) =~= second);
    }
    let digits = decimal(now as nat);
    if next_name(Some(first), now) == next_name(Some(second), now) {
        let a = next_name(Some(first), now);
        let b = next_name(Some(second), now);
        let end = digits.len() + 5;
        assert(a.subrange(1, a.len() - end) =~= first);
        assert(b.subrange(1, b.len() - end) =~= second);
    }
    if next_name(Some(first), now) == next_name(Some(first), later) {
        let a = next_name(Some(first), now);
        let b = next_name(Some(first), later);
        let start = first.len() + 2;
        assert(a.subrange(start as int, a.len() - 4) =~= digits);
        assert(b.subrange(start as int, b.len() - 4) =~= decimal(later as nat));
        crate::number::law_digits_read_back(now as nat, 10);
        crate::number::law_digits_read_back(later as nat, 10);
    }
}

} // verus!

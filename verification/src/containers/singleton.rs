//! Initializing and terminating a process-wide singleton that a state
//! word guards.
//!
//! The state word is swapped by the caller: [`try_init`] and [`terminate`]
//! take the state the swap found and say what comes next.
use vstd::prelude::*;

verus! {

/// Nothing is set up.
pub const UNINITIALIZED: usize = 0;

/// Someone is setting up.
pub const INITIALIZING: usize = 1;

/// Set up.
pub const INITIALIZED: usize = 2;

/// Someone is tearing down.
pub const TERMINATING: usize = 3;

/// Setting up failed.
pub const ERROR: usize = 4;

/// Why the singleton was not set up by this call.
#[derive(Debug)]
pub enum Error<E> {
    /// It is set up already, or someone else set it up meanwhile.
    AlreadyInit,
    /// Setting it up failed before.
    AlreadyFailed,
    /// Setting it up failed now, with this error.
    UserSpecified(E),
}

/// What a call of [`try_init`] comes to.
#[derive(Debug)]
pub struct InitOutcome<T, E> {
    /// Whether the caller waits for the state to leave `INITIALIZING`.
    pub wait: bool,
    /// The state to store, if any.
    pub store: Option<usize>,
    /// What the call gives back.
    pub result: Result<T, Error<E>>,
}

/// Sets up the singleton, given the state that swapping `UNINITIALIZED` for
/// `INITIALIZING` found. When it was `UNINITIALIZED`, `init` runs: its value
/// is given back and `INITIALIZED` stored, or its error given back and
/// `ERROR` stored. When someone else is setting up, the caller waits for
/// them and is told it is set up already. A failed set-up stays failed; in
/// any other state, it is set up already.
pub fn try_init<T, E, F: FnOnce() -> Result<T, E>>(old_state: usize, init: F) -> (r: InitOutcome<T, E>)
    requires
        old_state == UNINITIALIZED ==> call_requires(init, ()),
    ensures
        old_state == UNINITIALIZED ==> {
            &&& !r.wait
            &&& exists|v: Result<T, E>| {
                &&& call_ensures(init, (), v)
                &&& match v {
                    Ok(t) => r.store == Some(INITIALIZED) && r.result == Ok::<T, Error<E>>(t),
                    Err(e) => r.store == Some(ERROR) && r.result == Err::<T, Error<E>>(Error::UserSpecified(e)),
                }
            }
        },
        old_state == INITIALIZING ==> r.wait && r.store is None && r.result matches Err(Error::AlreadyInit),
        old_state == ERROR ==> !r.wait && r.store is None && r.result matches Err(Error::AlreadyFailed),
        old_state != UNINITIALIZED && old_state != INITIALIZING && old_state != ERROR ==> !r.wait
            && r.store is None && r.result matches Err(Error::AlreadyInit),
        stored_state(old_state, r) == after_init(old_state, r.result is Ok),
{
    if old_state == UNINITIALIZED {
        let v = init();
        match v {
            Ok(t) => InitOutcome { wait: false, store: Some(INITIALIZED), result: Ok(t) },
            Err(e) => InitOutcome { wait: false, store: Some(ERROR), result: Err(Error::UserSpecified(e)) },
        }
    } else if old_state == INITIALIZING {
        InitOutcome { wait: true, store: None, result: Err(Error::AlreadyInit) }
    } else if old_state == ERROR {
        InitOutcome { wait: false, store: None, result: Err(Error::AlreadyFailed) }
    } else {
        InitOutcome { wait: false, store: None, result: Err(Error::AlreadyInit) }
    }
}

/// What a call of [`terminate`] comes to.
#[derive(Debug, Clone, Copy, PartialEq, Eq, Structural)]
pub enum TerminateOutcome {
    /// `terminate` ran; the caller stores `UNINITIALIZED`.
    Terminated,
    /// Someone else is tearing down: the caller waits for the state to
    /// leave `TERMINATING`.
    Wait,
    /// There was nothing to tear down.
    Nothing,
}

/// Tears the singleton down, given the state that swapping `INITIALIZED`
/// for `TERMINATING` found: when it was `INITIALIZED`, `teardown` runs.
pub fn terminate<F: FnOnce()>(old_state: usize, teardown: F) -> (r: TerminateOutcome)
    requires
        old_state == INITIALIZED ==> call_requires(teardown, ()),
    ensures
        old_state == INITIALIZED ==> r == TerminateOutcome::Terminated && call_ensures(teardown, (), ()),
        old_state == TERMINATING ==> r == TerminateOutcome::Wait,
        old_state != INITIALIZED && old_state != TERMINATING ==> r == TerminateOutcome::Nothing,
{
    if old_state == INITIALIZED {
        teardown();
        TerminateOutcome::Terminated
    } else if old_state == TERMINATING {
        TerminateOutcome::Wait
    } else {
        TerminateOutcome::Nothing
    }
}

/// The state after a set-up that found `s` and whose `init` (if it ran)
/// succeeded or not: only a set-up that found nothing set up changes it.
pub open spec fn after_init(s: usize, init_ok: bool) -> usize {
    if s == UNINITIALIZED {
        if init_ok {
            INITIALIZED
        } else {
            ERROR
        }
    } else {
        s
    }
}

/// The state after a tear-down that found `s`.
pub open spec fn after_terminate(s: usize) -> usize {
    if s == INITIALIZED {
        UNINITIALIZED
    } else {
        s
    }
}

/// The state that [`try_init`] leaves: what it stores, or, when it stores
/// nothing, what the swap left.
pub open spec fn stored_state<T, E>(old_state: usize, r: InitOutcome<T, E>) -> usize {
    match r.store {
        Some(s) => s,
        None => old_state,
    }
}

/// A set-up that ran alone leaves the state its transition says; set up
/// once, the singleton is not set up again until it is torn down, and torn
/// down it can be set up again; a failed set-up stays failed.
pub proof fn lemma_singleton_cycle(init_ok: bool, again_ok: bool)
    ensures
        after_init(after_init(UNINITIALIZED, init_ok), again_ok) == after_init(UNINITIALIZED, init_ok),
        init_ok ==> after_init(after_terminate(after_init(UNINITIALIZED, init_ok)), again_ok) == after_init(
            UNINITIALIZED,
            again_ok,
        ),
        !init_ok ==> after_terminate(after_init(UNINITIALIZED, init_ok)) == ERROR,
{
}

} // verus!

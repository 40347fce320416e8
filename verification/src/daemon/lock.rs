//! Locks that report, and do not panic over, a thread that died while it held them.
use std::sync::{Mutex, MutexGuard};

use vstd::prelude::*;
use vstd::string::*;

#[allow(unused_imports)]
use crate::error::is_internal;
use crate::error::{Error, Result};

verus! {

/// `std::sync::Mutex`, carried through unread.
#[verifier::external_type_specification]
#[verifier::external_body]
#[verifier::reject_recursive_types(T)]
pub struct ExMutex<T: ?Sized>(Mutex<T>);

/// `std::sync::MutexGuard`, carried through unread.
#[verifier::external_type_specification]
#[verifier::external_body]
#[verifier::reject_recursive_types(T)]
pub struct ExMutexGuard<'a, T: ?Sized + 'a>(MutexGuard<'a, T>);

/// Calls `Mutex::lock`, which waits for the lock. There is an error where a thread panicked while
/// it held the lock; whether one did is not for the caller to know, so nothing is promised.
#[verifier::external_body]
fn lock<T>(m: &Mutex<T>) -> (r: std::result::Result<MutexGuard<'_, T>, ()>) {
    m.lock().map_err(|_| ())
}

/// What came of taking a lock, with an error of the library's own.
pub fn or_internal_error<G>(locked: std::result::Result<G, ()>) -> (r: Result<G>)
    ensures
        match locked {
            Ok(g) => r == Ok::<G, Error>(g),
            Err(_) => r is Err && is_internal(
                r->Err_0,
                "daemon mutex poisoned (worker thread paniced)"@,
            ),
        },
{
    match locked {
        Ok(g) => Ok(g),
        Err(_) => Err(Error::internal("daemon mutex poisoned (worker thread paniced)")),
    }
}

/// Taking a lock without panicking.
pub trait LockExt<T> {
    /// Takes the lock.
    fn lock_or_internal_error(&self) -> (r: Result<MutexGuard<'_, T>>)
        ensures
            r matches Err(e) ==> is_internal(e, "daemon mutex poisoned (worker thread paniced)"@),
    ;
}

impl<T> LockExt<T> for Mutex<T> {
    fn lock_or_internal_error(&self) -> (r: Result<MutexGuard<'_, T>>) {
        or_internal_error(lock(self))
    }
}

} // verus!

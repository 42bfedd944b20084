//! The captcha store as request handlers share it: one ledger behind a
//! lock, with every read-and-change done while the lock is held.

use vstd::prelude::*;
use std::ops::DerefMut;
use std::sync::{Arc, LockResult, Mutex, MutexGuard, PoisonError};
use crate::clock::now_millis;
use crate::error::{Error, ErrorView};
use crate::fold::unicode_lowercase;
use crate::ledger::Ledger;
use crate::mail::{too_long, too_long_message, vet_mail, MailIn};

verus! {

/// `std::sync::Mutex`, carried as an opaque value.
#[verifier::external_type_specification]
#[verifier::external_body]
#[verifier::reject_recursive_types(T)]
pub struct ExMutex<T: ?Sized>(Mutex<T>);

/// `std::sync::MutexGuard`, carried as an opaque value.
#[verifier::external_type_specification]
#[verifier::external_body]
#[verifier::reject_recursive_types(T)]
pub struct ExMutexGuard<'a, T: ?Sized + 'a>(MutexGuard<'a, T>);

/// `std::sync::PoisonError`, carried as an opaque value.
#[verifier::external_type_specification]
#[verifier::external_body]
#[verifier::reject_recursive_types(T)]
pub struct ExPoisonError<T>(PoisonError<T>);

/// `Mutex::new` wraps a value in a lock. Nothing is claimed of the lock.
pub assume_specification<T>[ Mutex::<T>::new ](value: T) -> (mutex: Mutex<T>)
;

/// `Mutex::lock` waits for the lock and hands out a guard, or an error if a
/// holder of the lock panicked. Nothing is claimed of which it is, nor of
/// what the guard gives access to. It may panic or never return if the
/// calling thread holds the lock already.
pub assume_specification<'a, T: ?Sized>[ Mutex::<T>::lock ](mutex: &'a Mutex<T>) -> (locked:
    LockResult<MutexGuard<'a, T>>)
;

/// `DerefMut::deref_mut` of a `MutexGuard` gives access to the value behind
/// the lock for as long as the guard is borrowed. Nothing is claimed of the
/// value: other holders of the lock may have changed it.
#[verifier::external_body]
fn held<'a, 'b>(guard: &'a mut MutexGuard<'b, Ledger>) -> (ledger: &'a mut Ledger) {
    guard.deref_mut()
}

/// What the log is told when no image came with a captcha's text.
pub open spec fn image_failure() -> Seq<char> {
    "fails to build captcha image"@
}

/// What the log is told when the lock could not be taken.
pub open spec fn lock_failure() -> Seq<char> {
    "fails to lock mutex"@
}

/// A handle on the one captcha store of the process. Clones share the store.
#[derive(Debug)]
pub struct Captchas(Arc<Mutex<Ledger>>);

impl Clone for Captchas {
    /// Another handle on the same store.
    fn clone(&self) -> (copy: Captchas) {
        Captchas(self.0.clone())
    }
}

impl Captchas {
    /// A store with no captcha out.
    pub fn new() -> Captchas {
        Captchas(Arc::new(Mutex::new(Ledger::new())))
    }

    /// Issues the captcha that a renderer drew: `chars` is the text it chose,
    /// `image` the picture it made of it, or `None` if it could not make one.
    /// Without a picture nothing is stored. With one, and with the lock, the
    /// expired captchas are swept, the text is stored in lower case with the
    /// current time (see [`Ledger::issue`]), and the picture is handed back
    /// to be served.
    pub fn insert(&self, chars: String, image: Option<Vec<u8>>) -> (served: Result<Vec<u8>, Error>)
        ensures
            image is None ==> (served matches Err(error) && error@ == ErrorView::InternalServer(
                image_failure(),
            )),
            image matches Some(picture) ==> {
                ||| (served matches Ok(bytes) && bytes@ == picture@)
                ||| (served matches Err(error) && error@ == ErrorView::InternalServer(
                    lock_failure(),
                ))
            },
    {
        let text = chars.as_str().to_lowercase();
        let picture = match image {
            Some(picture) => picture,
            None => {
                return Err(Error::InternalServer("fails to build captcha image".to_owned()));
            },
        };
        match self.0.lock() {
            Ok(mut guard) => {
                let ledger = held(&mut guard);
                ledger.issue(text, now_millis());
                Ok(picture)
            },
            Err(_) => Err(Error::InternalServer("fails to lock mutex".to_owned())),
        }
    }

    /// Checks the answer `text` against the store at the current time and
    /// consumes its captcha if it is accepted (see
    /// [`Ledger::verify_and_consume`]), all while the lock is held, so that of
    /// two answers to one captcha at most one is accepted.
    pub fn check(&mut self, text: String) -> (verdict: Result<(), Error>)
        ensures
            verdict is Ok ==> unicode_lowercase(text@) == text@,
            verdict matches Err(error) ==> (error@ == ErrorView::Unauthorized || error@
                == ErrorView::InternalServer(lock_failure())),
    {
        match self.0.lock() {
            Ok(mut guard) => {
                let ledger = held(&mut guard);
                ledger.verify_and_consume(&text, now_millis())
            },
            Err(_) => Err(Error::InternalServer("fails to lock mutex".to_owned())),
        }
    }

    /// Decides whether the mail of `payload` may go out (see [`vet_mail`]),
    /// at the current time and while the lock is held, and hands back the
    /// text to send if it may.
    pub fn admit_mail(&mut self, payload: MailIn) -> (verdict: Result<String, Error>)
        ensures
            verdict matches Ok(text) ==> (text@ == payload@.mail_text && !too_long(
                payload@.mail_text,
            ) && unicode_lowercase(payload@.captcha_text) == payload@.captcha_text),
            verdict matches Err(error) ==> {
                ||| error@ == ErrorView::InternalServer(lock_failure())
                ||| error@ == ErrorView::BadRequest(too_long_message()) && too_long(
                    payload@.mail_text,
                )
                ||| error@ == ErrorView::Unauthorized && !too_long(payload@.mail_text)
            },
    {
        match self.0.lock() {
            Ok(mut guard) => {
                let ledger = held(&mut guard);
                match vet_mail(ledger, &payload, now_millis()) {
                    Ok(()) => Ok(payload.mail_text),
                    Err(error) => Err(error),
                }
            },
            Err(_) => Err(Error::InternalServer("fails to lock mutex".to_owned())),
        }
    }
}

} // verus!

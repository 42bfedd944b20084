//! Mail requests: what a request to send a mail carries, and the decision
//! whether the mail may go out.

use vstd::prelude::*;
use crate::error::{Error, ErrorView};
use crate::fold::unicode_lowercase;
use crate::ledger::Ledger;
use crate::model::{redeemable, redeemed};

verus! {

/// The most characters a mail may have.
pub const MAX_MAIL_CHARS: usize = 10_000;

/// What the client is told when a mail is too long.
pub open spec fn too_long_message() -> Seq<char> {
    "Mail should not be longer than 10k characters"@
}

/// A request to send a mail: the answer to a captcha, and the mail's text.
#[derive(Debug)]
pub struct MailIn {
    pub captcha_text: String,
    pub mail_text: String,
}

/// What a [`MailIn`] holds, as mathematics.
pub struct MailInView {
    pub captcha_text: Seq<char>,
    pub mail_text: Seq<char>,
}

impl View for MailIn {
    type V = MailInView;

    open spec fn view(&self) -> MailInView {
        MailInView { captcha_text: self.captcha_text@, mail_text: self.mail_text@ }
    }
}

impl Clone for MailIn {
    fn clone(&self) -> (copy: MailIn)
        ensures
            copy@ == self@,
    {
        MailIn { captcha_text: self.captcha_text.clone(), mail_text: self.mail_text.clone() }
    }
}

/// Whether a mail text is longer than a mail may be.
pub open spec fn too_long(mail_text: Seq<char>) -> bool {
    mail_text.len() > MAX_MAIL_CHARS
}

impl MailIn {
    /// Whether the mail's text is longer than a mail may be.
    pub fn is_too_long(&self) -> (long: bool)
        ensures
            long == too_long(self@.mail_text),
    {
        self.mail_text.as_str().unicode_len() > MAX_MAIL_CHARS
    }
}

/// Decides at `now` whether the mail of `payload` may go out. A mail that is
/// too long is a bad request, whatever the captcha answer is worth, and the
/// ledger is left alone. Otherwise the answer is checked against the ledger
/// and, if accepted, its captcha consumed; if not, the request is
/// unauthorized and the ledger unchanged.
pub fn vet_mail(ledger: &mut Ledger, payload: &MailIn, now: i64) -> (verdict: Result<(), Error>)
    ensures
        too_long(payload@.mail_text) ==> (verdict matches Err(error) && error@
            == ErrorView::BadRequest(too_long_message())) && final(ledger)@ == old(ledger)@,
        !too_long(payload@.mail_text) ==> {
            &&& verdict is Ok <==> redeemable(
                old(ledger)@,
                payload@.captcha_text,
                unicode_lowercase(payload@.captcha_text),
                now as int,
            )
            &&& verdict matches Err(error) ==> error@ == ErrorView::Unauthorized
            &&& final(ledger)@ == redeemed(
                old(ledger)@,
                payload@.captcha_text,
                unicode_lowercase(payload@.captcha_text),
                now as int,
            )
        },
{
    if payload.is_too_long() {
        return Err(Error::BadRequest("Mail should not be longer than 10k characters".to_owned()));
    }
    ledger.verify_and_consume(&payload.captcha_text, now)
}

/// Turns the outcome of handing a mail to the mail service into the outcome
/// of the request: a failed delivery is a server-side fault that carries the
/// service's own words.
pub fn delivered(outcome: Result<(), String>) -> (verdict: Result<(), Error>)
    ensures
        outcome is Ok ==> verdict is Ok,
        outcome matches Err(detail) ==> (verdict matches Err(error) && error@
            == ErrorView::InternalServer(detail@)),
{
    match outcome {
        Ok(()) => Ok(()),
        Err(detail) => Err(Error::InternalServer(detail)),
    }
}

} // verus!

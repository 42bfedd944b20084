//! One captcha: the text a client must read off the image, and the instant
//! it was made.

use vstd::prelude::*;
use crate::clock::{expired_between, instant_text, is_expired, now_millis, print_instant};
use crate::fold::{ascii_lowercase, lemma_ascii_lowercase_settles, unicode_lowercase};

verus! {

/// A text to be answered and the instant of its creation, in milliseconds
/// since the Unix epoch. The text is always in ASCII lower case. A captcha
/// never changes once made.
#[derive(Debug, PartialEq, Eq, Hash)]
pub struct Captcha {
    text: String,
    created_at: i64,
}

/// What a [`Captcha`] holds, as mathematics.
pub struct CaptchaView {
    pub text: Seq<char>,
    pub created_at: int,
}

impl View for Captcha {
    type V = CaptchaView;

    closed spec fn view(&self) -> CaptchaView {
        CaptchaView { text: self.text@, created_at: self.created_at as int }
    }
}

/// The line that describes a captcha with the text `text`, created at an
/// instant that is written `instant`, and expired or not.
pub open spec fn described(text: Seq<char>, instant: Seq<char>, expired: bool) -> Seq<char> {
    "text: "@ + text + ", created_at: "@ + instant + ", expired: "@ + if expired {
        "true"@
    } else {
        "false"@
    }
}

impl Clone for Captcha {
    fn clone(&self) -> (copy: Captcha)
        ensures
            copy@ == self@,
    {
        proof {
            use_type_invariant(self);
        }
        Captcha { text: self.text.clone(), created_at: self.created_at }
    }
}

impl Captcha {
    #[verifier::type_invariant]
    spec fn text_is_folded(self) -> bool {
        ascii_lowercase(self.text@) == self.text@
    }

    /// A captcha for `text`, created at `created_at`.
    pub fn stamped(text: String, created_at: i64) -> (captcha: Captcha)
        ensures
            captcha@.text == ascii_lowercase(text@),
            captcha@.created_at == created_at,
    {
        let folded = text.as_str().to_ascii_lowercase();
        proof {
            lemma_ascii_lowercase_settles(text@);
        }
        Captcha { text: folded, created_at }
    }

    /// A captcha for `text`, created now by the system clock.
    pub fn new(text: String) -> (captcha: Captcha)
        ensures
            captcha@.text == ascii_lowercase(text@),
    {
        Captcha::stamped(text, now_millis())
    }

    /// The text to be answered. It is its own ASCII lower-case form.
    pub fn text(&self) -> (text: &String)
        ensures
            text@ == self@.text,
            ascii_lowercase(text@) == text@,
    {
        proof {
            use_type_invariant(self);
        }
        &self.text
    }

    /// The instant of creation.
    pub fn created_at(&self) -> (at: i64)
        ensures
            at == self@.created_at,
    {
        self.created_at
    }

    /// Whether the captcha has expired at `now`.
    pub fn expired_at(&self, now: i64) -> (expired: bool)
        ensures
            expired == is_expired(self@.created_at, now as int),
    {
        expired_between(self.created_at, now)
    }

    /// Whether the captcha has expired by the system clock: what
    /// [`Captcha::expired_at`] says at the instant the clock shows, which is
    /// some count of milliseconds that fits an `i64`.
    pub fn expired(&self) -> (expired: bool)
        ensures
            exists|now: int|
                i64::MIN <= now <= i64::MAX && expired == #[trigger] is_expired(
                    self@.created_at,
                    now,
                ),
    {
        let now: i64 = now_millis();
        let expired = self.expired_at(now);
        assert(expired == is_expired(self@.created_at, now as int));
        expired
    }

    /// One line that describes the captcha, given how its instant of
    /// creation is written and whether it has expired.
    pub fn describe_with(&self, instant: &str, expired: bool) -> (line: String)
        ensures
            line@ == described(self@.text, instant@, expired),
    {
        let mut line = "text: ".to_owned();
        line.append(self.text.as_str());
        line.append(", created_at: ");
        line.append(instant);
        line.append(", expired: ");
        line.append(if expired { "true" } else { "false" });
        line
    }

    /// One line that describes the captcha as it stands at `now`, or `None`
    /// if its instant of creation is beyond what can be written as a date.
    pub fn describe_at(&self, now: i64) -> (line: Option<String>)
        ensures
            match instant_text(self@.created_at) {
                Some(instant) => line matches Some(written) && written@ == described(
                    self@.text,
                    instant,
                    is_expired(self@.created_at, now as int),
                ),
                None => line is None,
            },
    {
        match print_instant(self.created_at) {
            Some(instant) => Some(self.describe_with(instant.as_str(), self.expired_at(now))),
            None => None,
        }
    }

    /// One line that describes the captcha as it stands now, by the system
    /// clock, or `None` if its instant of creation is beyond what can be
    /// written as a date.
    pub fn describe(&self) -> (line: Option<String>)
        ensures
            line is Some <==> instant_text(self@.created_at) is Some,
    {
        self.describe_at(now_millis())
    }

    /// Whether the captcha is unexpired at `now` and its text is `folded`,
    /// an answer already brought to lower case.
    pub fn matches_folded(&self, folded: &String, now: i64) -> (accepted: bool)
        ensures
            accepted == (!is_expired(self@.created_at, now as int) && self@.text == folded@),
    {
        !self.expired_at(now) && self.text == *folded
    }

    /// Whether `text` answers the captcha at `now`: the captcha is unexpired
    /// and its text is the Unicode lower-case form of `text`.
    pub fn matches_at(&self, text: &str, now: i64) -> (accepted: bool)
        ensures
            accepted == (!is_expired(self@.created_at, now as int) && self@.text
                == unicode_lowercase(text@)),
    {
        let folded = text.to_lowercase();
        self.matches_folded(&folded, now)
    }

    /// Whether `text` answers the captcha now, by the system clock: what
    /// [`Captcha::matches_at`] says at the instant the clock shows, which is
    /// some count of milliseconds that fits an `i64`. So, whatever the clock
    /// says, an accepted text is the captcha's text but for case.
    pub fn matches(&self, text: &str) -> (accepted: bool)
        ensures
            accepted ==> self@.text == unicode_lowercase(text@),
            exists|now: int|
                i64::MIN <= now <= i64::MAX && accepted == (!(#[trigger] is_expired(
                    self@.created_at,
                    now,
                )) && self@.text == unicode_lowercase(text@)),
    {
        let now: i64 = now_millis();
        let accepted = self.matches_at(text, now);
        assert(accepted == (!is_expired(self@.created_at, now as int) && self@.text
            == unicode_lowercase(text@)));
        accepted
    }
}

} // verus!

//! The captcha store proper: which captchas are out, held by one owner.
//!
//! The ledger keeps its captchas in a vector in which no text occurs twice,
//! and is seen from outside as the map of [`crate::model`].

use vstd::prelude::*;
use crate::captcha::Captcha;
use crate::clock::is_expired;
use crate::error::{Error, ErrorView};
use crate::fold::unicode_lowercase;
use crate::model::{issued, redeemable, redeemed, swept};

verus! {

/// The captchas that are out, at most one for each text.
#[derive(Debug)]
pub struct Ledger {
    entries: Vec<Captcha>,
}

/// Whether some entry has the text `key`.
spec fn holds(entries: Seq<Captcha>, key: Seq<char>) -> bool {
    exists|i: int| 0 <= i < entries.len() && (#[trigger] entries[i])@.text == key
}

/// The place of an entry with the text `key`.
spec fn slot(entries: Seq<Captcha>, key: Seq<char>) -> int {
    choose|i: int| 0 <= i < entries.len() && (#[trigger] entries[i])@.text == key
}

/// No text occurs in two entries.
spec fn distinct(entries: Seq<Captcha>) -> bool {
    forall|i: int, j: int|
        0 <= i < j < entries.len() ==> (#[trigger] entries[i])@.text != (#[trigger] entries[j])@.text
}

/// The map that a sequence of entries stands for.
spec fn book_of(entries: Seq<Captcha>) -> Map<Seq<char>, int> {
    Map::new(
        |key: Seq<char>| holds(entries, key),
        |key: Seq<char>| entries[slot(entries, key)]@.created_at,
    )
}

/// Each entry is found in the map under its text, with its instant.
proof fn lemma_entry(entries: Seq<Captcha>, i: int)
    requires
        distinct(entries),
        0 <= i < entries.len(),
    ensures
        book_of(entries).contains_key(entries[i]@.text),
        book_of(entries)[entries[i]@.text] == entries[i]@.created_at,
{
    let key = entries[i]@.text;
    assert(holds(entries, key));
    let j = slot(entries, key);
    assert(j == i) by {
        if j < i {
            assert(entries[j]@.text != entries[i]@.text);
        } else if i < j {
            assert(entries[i]@.text != entries[j]@.text);
        }
    }
}

/// Taking an entry out of the sequence takes its text out of the map.
proof fn lemma_remove(entries: Seq<Captcha>, i: int)
    requires
        distinct(entries),
        0 <= i < entries.len(),
    ensures
        distinct(entries.remove(i)),
        book_of(entries.remove(i)) == book_of(entries).remove(entries[i]@.text),
{
    let rest = entries.remove(i);
    let gone = entries[i]@.text;
    assert forall|a: int, b: int| 0 <= a < b < rest.len() implies (#[trigger] rest[a])@.text != (
    #[trigger] rest[b])@.text by {
        let a0 = if a < i { a } else { a + 1 };
        let b0 = if b < i { b } else { b + 1 };
        assert(rest[a] == entries[a0]);
        assert(rest[b] == entries[b0]);
        assert(entries[a0]@.text != entries[b0]@.text);
    }
    assert forall|key: Seq<char>| #[trigger]
        book_of(rest).contains_key(key) <==> book_of(entries).remove(gone).contains_key(
            key,
        ) by {
        if holds(rest, key) {
            let a = slot(rest, key);
            let a0 = if a < i { a } else { a + 1 };
            assert(rest[a] == entries[a0]);
            assert(entries[a0]@.text == key);
            if a0 < i {
                assert(entries[a0]@.text != entries[i]@.text);
            } else {
                assert(entries[i]@.text != entries[a0]@.text);
            }
        }
        if holds(entries, key) && key != gone {
            let b0 = slot(entries, key);
            let b = if b0 < i { b0 } else { b0 - 1 };
            assert(rest[b] == entries[b0]);
            assert(rest[b]@.text == key);
        }
    }
    assert forall|key: Seq<char>| #[trigger] book_of(rest).contains_key(key) implies book_of(
        rest,
    )[key] == book_of(entries).remove(gone)[key] by {
        let a = slot(rest, key);
        let a0 = if a < i { a } else { a + 1 };
        assert(rest[a] == entries[a0]);
        lemma_entry(rest, a);
        lemma_entry(entries, a0);
    }
    assert(book_of(rest) =~= book_of(entries).remove(gone));
}

/// Adding an entry with a text not yet held binds that text in the map.
proof fn lemma_push(entries: Seq<Captcha>, captcha: Captcha)
    requires
        distinct(entries),
        !holds(entries, captcha@.text),
    ensures
        distinct(entries.push(captcha)),
        book_of(entries.push(captcha)) == book_of(entries).insert(
            captcha@.text,
            captcha@.created_at,
        ),
{
    let more = entries.push(captcha);
    let last = entries.len() as int;
    assert forall|a: int, b: int| 0 <= a < b < more.len() implies (#[trigger] more[a])@.text != (
    #[trigger] more[b])@.text by {
        assert(more[a] == entries[a]);
        if b < last {
            assert(more[b] == entries[b]);
        } else {
            assert(more[b] == captcha);
        }
    }
    let target = book_of(entries).insert(captcha@.text, captcha@.created_at);
    assert forall|key: Seq<char>| #[trigger]
        book_of(more).contains_key(key) <==> target.contains_key(key) by {
        if holds(more, key) {
            let a = slot(more, key);
            if a < last {
                assert(more[a] == entries[a]);
            }
        }
        if holds(entries, key) {
            let b = slot(entries, key);
            assert(more[b] == entries[b]);
        }
        if key == captcha@.text {
            assert(more[last] == captcha);
        }
    }
    assert forall|key: Seq<char>| #[trigger] book_of(more).contains_key(key) implies book_of(
        more,
    )[key] == target[key] by {
        let a = slot(more, key);
        lemma_entry(more, a);
        if a < last {
            assert(more[a] == entries[a]);
            lemma_entry(entries, a);
        } else {
            assert(more[a] == captcha);
        }
    }
    assert(book_of(more) =~= target);
}

/// The map has as many texts as the sequence has entries.
proof fn lemma_count(entries: Seq<Captcha>)
    requires
        distinct(entries),
    ensures
        book_of(entries).dom().finite(),
        book_of(entries).dom().len() == entries.len(),
    decreases entries.len(),
{
    if entries.len() == 0 {
        assert(book_of(entries).dom() =~= Set::<Seq<char>>::empty());
    } else {
        let front = entries.drop_last();
        let last = entries.last();
        assert forall|a: int, b: int| 0 <= a < b < front.len() implies (#[trigger] front[a])@.text
            != (#[trigger] front[b])@.text by {
            assert(front[a] == entries[a]);
            assert(front[b] == entries[b]);
        }
        if holds(front, last@.text) {
            let a = slot(front, last@.text);
            assert(front[a] == entries[a]);
            assert(entries[a]@.text != entries[entries.len() - 1]@.text);
        }
        lemma_count(front);
        lemma_push(front, last);
        assert(front.push(last) =~= entries);
        assert(book_of(entries).dom() =~= book_of(front).dom().insert(last@.text));
    }
}

impl View for Ledger {
    type V = Map<Seq<char>, int>;

    closed spec fn view(&self) -> Map<Seq<char>, int> {
        book_of(self.entries@)
    }
}

/// Where the entry with the text `key` stands, if there is one.
fn position(entries: &Vec<Captcha>, key: &String) -> (at: Option<usize>)
    ensures
        match at {
            Some(i) => i < entries.len() && entries[i as int]@.text == key@,
            None => !holds(entries@, key@),
        },
{
    let mut i: usize = 0;
    while i < entries.len()
        invariant
            i <= entries.len(),
            forall|j: int| 0 <= j < i ==> (#[trigger] entries[j])@.text != key@,
        decreases entries.len() - i,
    {
        if *entries[i].text() == *key {
            return Some(i);
        }
        i = i + 1;
    }
    None
}

/// Takes every entry that has expired at `now` out of the vector.
fn drop_expired(entries: &mut Vec<Captcha>, now: i64)
    requires
        distinct(old(entries)@),
    ensures
        distinct(final(entries)@),
        book_of(final(entries)@) == swept(book_of(old(entries)@), now as int),
{
    let ghost before = book_of(entries@);
    let mut i: usize = 0;
    while i < entries.len()
        invariant
            distinct(entries@),
            i <= entries.len(),
            forall|j: int|
                0 <= j < i ==> !is_expired((#[trigger] entries[j])@.created_at, now as int),
            swept(book_of(entries@), now as int) == swept(before, now as int),
        decreases entries.len() - i,
    {
        if entries[i].expired_at(now) {
            proof {
                lemma_entry(entries@, i as int);
                lemma_remove(entries@, i as int);
                assert(swept(book_of(entries@).remove(entries[i as int]@.text), now as int)
                    =~= swept(book_of(entries@), now as int));
            }
            entries.remove(i);
        } else {
            i = i + 1;
        }
    }
    proof {
        let book = book_of(entries@);
        assert forall|key: Seq<char>| #[trigger] book.contains_key(key) implies !is_expired(
            book[key],
            now as int,
        ) by {
            let j = slot(entries@, key);
            lemma_entry(entries@, j);
        }
        assert(swept(book, now as int) =~= book);
    }
}

/// Puts `captcha` among the entries, in place of the entry with the same
/// text if there is one.
fn put(entries: &mut Vec<Captcha>, captcha: Captcha)
    requires
        distinct(old(entries)@),
    ensures
        distinct(final(entries)@),
        book_of(final(entries)@) == book_of(old(entries)@).insert(
            captcha@.text,
            captcha@.created_at,
        ),
{
    let ghost before = book_of(entries@);
    match position(entries, captcha.text()) {
        Some(at) => {
            proof {
                lemma_remove(entries@, at as int);
            }
            entries.remove(at);
            assert(!holds(entries@, captcha@.text));
        },
        None => {},
    }
    proof {
        lemma_push(entries@, captcha);
        assert(book_of(entries@).insert(captcha@.text, captcha@.created_at) =~= before.insert(
            captcha@.text,
            captcha@.created_at,
        ));
    }
    entries.push(captcha);
}

/// Takes the entry with the text `key` out if it is unexpired at `now` and
/// `key` is `folded`, and says whether it did.
fn take_out(entries: &mut Vec<Captcha>, key: &String, folded: &String, now: i64) -> (taken: bool)
    requires
        distinct(old(entries)@),
    ensures
        distinct(final(entries)@),
        taken == redeemable(book_of(old(entries)@), key@, folded@, now as int),
        book_of(final(entries)@) == redeemed(book_of(old(entries)@), key@, folded@, now as int),
{
    match position(entries, key) {
        Some(at) => {
            proof {
                lemma_entry(entries@, at as int);
            }
            if entries[at].matches_folded(folded, now) {
                proof {
                    lemma_remove(entries@, at as int);
                }
                entries.remove(at);
                true
            } else {
                false
            }
        },
        None => false,
    }
}

impl Ledger {
    #[verifier::type_invariant]
    spec fn well_formed(self) -> bool {
        distinct(self.entries@)
    }

    /// A ledger with no captcha out.
    pub fn new() -> (ledger: Ledger)
        ensures
            ledger@ == Map::<Seq<char>, int>::empty(),
    {
        let ledger = Ledger { entries: Vec::new() };
        assert(ledger@ =~= Map::<Seq<char>, int>::empty());
        ledger
    }

    /// How many captchas are out, expired ones that no sweep has met yet
    /// included.
    pub fn len(&self) -> (count: usize)
        ensures
            self@.dom().finite(),
            count == self@.len(),
    {
        proof {
            use_type_invariant(self);
            lemma_count(self.entries@);
        }
        self.entries.len()
    }

    /// Whether no captcha is out.
    pub fn is_empty(&self) -> (empty: bool)
        ensures
            empty == (self@ == Map::<Seq<char>, int>::empty()),
    {
        proof {
            use_type_invariant(self);
            if self.entries.len() > 0 {
                lemma_entry(self.entries@, 0);
            } else {
                assert(self@ =~= Map::<Seq<char>, int>::empty());
            }
        }
        self.entries.len() == 0
    }

    /// The captcha stored under exactly `key`, if there is one.
    pub fn get(&self, key: &String) -> (found: Option<&Captcha>)
        ensures
            match found {
                Some(captcha) => self@.contains_key(key@) && captcha@.text == key@
                    && captcha@.created_at == self@[key@],
                None => !self@.contains_key(key@),
            },
    {
        proof {
            use_type_invariant(self);
        }
        match position(&self.entries, key) {
            Some(at) => {
                proof {
                    lemma_entry(self.entries@, at as int);
                }
                Some(&self.entries[at])
            },
            None => None,
        }
    }

    /// Hands the entries out and leaves the ledger empty, for the caller to
    /// work on them and put them back.
    fn lift(&mut self) -> (entries: Vec<Captcha>)
        ensures
            entries@ == old(self).entries@,
            distinct(entries@),
            final(self).entries@.len() == 0,
    {
        proof {
            use_type_invariant(&*self);
        }
        let mut entries: Vec<Captcha> = Vec::new();
        std::mem::swap(&mut self.entries, &mut entries);
        entries
    }

    /// Takes out every captcha that has expired at `now`.
    pub fn sweep(&mut self, now: i64)
        ensures
            final(self)@ == swept(old(self)@, now as int),
    {
        let mut entries = self.lift();
        drop_expired(&mut entries, now);
        self.entries = entries;
    }

    /// Issues a captcha for `text` at `now`: sweeps what has expired, then
    /// binds the folded text to `now`, in place of an older captcha with the
    /// same text if there is one.
    pub fn issue(&mut self, text: String, now: i64)
        ensures
            final(self)@ == issued(old(self)@, text@, now as int),
    {
        let mut entries = self.lift();
        drop_expired(&mut entries, now);
        put(&mut entries, Captcha::stamped(text, now));
        self.entries = entries;
    }

    /// Checks an answer at `now` and, if it is accepted, takes its captcha
    /// out. `key` is the answer as it was sent, `folded` the same in lower
    /// case. The answer is accepted if a captcha is stored under exactly
    /// `key`, has not expired, and has the text `folded`. An answer that is
    /// not accepted changes nothing, so that the client may try again.
    pub fn consume(&mut self, key: &String, folded: &String, now: i64) -> (verdict: Result<
        (),
        Error,
    >)
        ensures
            verdict is Ok <==> redeemable(old(self)@, key@, folded@, now as int),
            verdict matches Err(error) ==> error@ == ErrorView::Unauthorized,
            final(self)@ == redeemed(old(self)@, key@, folded@, now as int),
    {
        let mut entries = self.lift();
        let taken = take_out(&mut entries, key, folded, now);
        self.entries = entries;
        if taken {
            Ok(())
        } else {
            Err(Error::Unauthorized)
        }
    }

    /// Checks the answer `candidate` at `now` and consumes its captcha if it
    /// is accepted: see [`Ledger::consume`], with `candidate` as the key and
    /// its Unicode lower-case form as the folded text.
    pub fn verify_and_consume(&mut self, candidate: &String, now: i64) -> (verdict: Result<
        (),
        Error,
    >)
        ensures
            verdict is Ok <==> redeemable(
                old(self)@,
                candidate@,
                unicode_lowercase(candidate@),
                now as int,
            ),
            verdict matches Err(error) ==> error@ == ErrorView::Unauthorized,
            final(self)@ == redeemed(
                old(self)@,
                candidate@,
                unicode_lowercase(candidate@),
                now as int,
            ),
    {
        let folded = candidate.as_str().to_lowercase();
        self.consume(candidate, &folded, now)
    }
}

} // verus!

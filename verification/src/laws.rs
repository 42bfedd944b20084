//! What holds of the captcha store whatever it holds and whenever it is
//! asked, stated over the map of [`crate::model`] and proved.
//!
//! The store is only ever read and changed under its lock, so what many
//! handlers do at once is what they would do one after the other in some
//! order. The statements below speak of such an order.

use vstd::prelude::*;
use crate::clock::is_expired;
use crate::fold::{ascii_lowercase, unicode_lowercase};
use crate::model::{all_redeemable, is_live, issued, issued_all, redeemable, redeemed, redeemed_all, swept};

verus! {

/// Two captchas issued one after the other, the second before the first has
/// expired, are both in the store. If their folded texts differ, each has
/// its own instant; if they coincide, the one entry has the later instant.
pub proof fn lemma_issued_twice(
    book: Map<Seq<char>, int>,
    first: Seq<char>,
    first_at: int,
    second: Seq<char>,
    second_at: int,
)
    requires
        !is_expired(first_at, second_at),
    ensures
        ({
            let both = issued(issued(book, first, first_at), second, second_at);
            &&& both.contains_key(ascii_lowercase(first))
            &&& both.contains_key(ascii_lowercase(second))
            &&& both[ascii_lowercase(second)] == second_at
            &&& ascii_lowercase(first) != ascii_lowercase(second) ==> both[ascii_lowercase(first)]
                == first_at
        }),
{
    let one = issued(book, first, first_at);
    assert(is_live(one, ascii_lowercase(first), second_at));
}

/// A captcha issued for a text that is its own lower-case form, and answered
/// with that same text before it expires, is accepted once: the answer takes
/// the captcha out, and the same answer is turned down whenever it comes
/// again.
pub proof fn lemma_answered_once(
    book: Map<Seq<char>, int>,
    text: Seq<char>,
    issued_at: int,
    now: int,
    again: int,
)
    requires
        ascii_lowercase(text) == text,
        unicode_lowercase(text) == text,
        !is_expired(issued_at, now),
    ensures
        ({
            let out = issued(book, text, issued_at);
            let left = redeemed(out, text, unicode_lowercase(text), now);
            &&& redeemable(out, text, unicode_lowercase(text), now)
            &&& !left.contains_key(text)
            &&& !redeemable(left, text, unicode_lowercase(text), again)
            &&& redeemed(left, text, unicode_lowercase(text), again) == left
        }),
{
}

/// A captcha answered after it has expired is turned down, whatever the
/// answer folds to, and the store stays as it was. The captcha is good for
/// no later answer either, and the next issue of another text sweeps it out.
pub proof fn lemma_expired_is_rejected(
    book: Map<Seq<char>, int>,
    text: Seq<char>,
    issued_at: int,
    now: int,
    folded: Seq<char>,
    later: int,
    other: Seq<char>,
)
    requires
        is_expired(issued_at, now),
        now <= later,
    ensures
        ({
            let out = issued(book, text, issued_at);
            let key = ascii_lowercase(text);
            &&& !redeemable(out, key, folded, now)
            &&& redeemed(out, key, folded, now) == out
            &&& !is_live(out, key, later)
            &&& ascii_lowercase(other) != key ==> !issued(out, other, later).contains_key(key)
        }),
{
}

/// An answer is accepted only if it is, letter for letter, a text in the
/// store and its own lower-case form. So an answer that differs from the
/// stored text in case alone is turned down: it is looked up as it was
/// sent, and folding comes too late to find the captcha.
pub proof fn lemma_answer_must_be_key(
    book: Map<Seq<char>, int>,
    answer: Seq<char>,
    now: int,
)
    ensures
        redeemable(book, answer, unicode_lowercase(answer), now) ==> book.contains_key(answer)
            && unicode_lowercase(answer) == answer,
        !book.contains_key(answer) ==> redeemed(book, answer, unicode_lowercase(answer), now)
            == book,
{
}

/// Of two answers to one captcha, whenever they come and whatever they fold
/// to, at most one is accepted: the accepted one takes the captcha out.
pub proof fn lemma_never_redeemed_twice(
    book: Map<Seq<char>, int>,
    key: Seq<char>,
    folded: Seq<char>,
    now: int,
    folded_again: Seq<char>,
    again: int,
)
    ensures
        redeemable(book, key, folded, now) ==> !redeemable(
            redeemed(book, key, folded, now),
            key,
            folded_again,
            again,
        ),
{
}

/// Of two equal answers to a captcha that both come before it expires,
/// exactly one is accepted: the first.
pub proof fn lemma_one_of_two_redeems(
    book: Map<Seq<char>, int>,
    key: Seq<char>,
    first_at: int,
    second_at: int,
)
    requires
        is_live(book, key, first_at),
        is_live(book, key, second_at),
        unicode_lowercase(key) == key,
    ensures
        redeemable(book, key, unicode_lowercase(key), first_at),
        !redeemable(
            redeemed(book, key, unicode_lowercase(key), first_at),
            key,
            unicode_lowercase(key),
            second_at,
        ),
{
}

/// Sweeping takes out exactly the expired captchas, and sweeping again at
/// the same instant changes nothing more.
pub proof fn lemma_swept_keeps_the_live(book: Map<Seq<char>, int>, now: int)
    ensures
        forall|key: Seq<char>| #[trigger]
            swept(book, now).contains_key(key) <==> is_live(book, key, now),
        forall|key: Seq<char>| #[trigger]
            swept(book, now).contains_key(key) ==> swept(book, now)[key] == book[key],
        swept(swept(book, now), now) == swept(book, now),
{
    assert(swept(swept(book, now), now) =~= swept(book, now));
}

/// Right after an issue nothing expired is left in the store: every issue
/// sweeps, so that unanswered captchas do not pile up.
pub proof fn lemma_issue_leaves_only_the_live(
    book: Map<Seq<char>, int>,
    text: Seq<char>,
    now: int,
)
    ensures
        forall|key: Seq<char>| #[trigger]
            issued(book, text, now).contains_key(key) ==> is_live(issued(book, text, now), key, now),
{
}

/// An answer that is turned down changes nothing: the captcha, if there is
/// one, stays for another try.
pub proof fn lemma_rejected_changes_nothing(
    book: Map<Seq<char>, int>,
    key: Seq<char>,
    folded: Seq<char>,
    now: int,
)
    ensures
        !redeemable(book, key, folded, now) ==> redeemed(book, key, folded, now) == book,
        redeemable(book, key, folded, now) ==> redeemed(book, key, folded, now) == book.remove(
            key,
        ) && !redeemed(book, key, folded, now).contains_key(key),
{
}

/// The store after a run of issues in which no captcha had expired when a
/// later one was issued: it holds exactly the issued texts, each with its
/// own instant.
proof fn lemma_issued_all_holds(texts: Seq<Seq<char>>, times: Seq<int>)
    requires
        texts.len() == times.len(),
        texts.no_duplicates(),
        forall|i: int| 0 <= i < texts.len() ==> ascii_lowercase(#[trigger] texts[i]) == texts[i],
        forall|i: int, j: int|
            0 <= i < j < texts.len() ==> !is_expired(#[trigger] times[i], #[trigger] times[j]),
    ensures
        forall|key: Seq<char>| #[trigger]
            issued_all(Map::empty(), texts, times).contains_key(key) <==> texts.contains(key),
        forall|i: int|
            0 <= i < texts.len() ==> issued_all(Map::empty(), texts, times)[#[trigger] texts[i]]
                == times[i],
    decreases texts.len(),
{
    if texts.len() > 0 {
        let front = texts.drop_last();
        let front_times = times.drop_last();
        let last = texts.len() - 1;
        assert forall|i: int| 0 <= i < front.len() implies ascii_lowercase(#[trigger] front[i])
            == front[i] by {
            assert(front[i] == texts[i]);
        }
        assert forall|i: int, j: int| 0 <= i < j < front.len() implies !is_expired(
            #[trigger] front_times[i],
            #[trigger] front_times[j],
        ) by {
            assert(front_times[i] == times[i]);
            assert(front_times[j] == times[j]);
        }
        lemma_issued_all_holds(front, front_times);
        let before = issued_all(Map::empty(), front, front_times);
        let after = issued_all(Map::empty(), texts, times);
        assert(after == issued(before, texts[last], times[last]));
        assert forall|key: Seq<char>| #[trigger] before.contains_key(key) implies is_live(
            before,
            key,
            times[last],
        ) by {
            assert(front.contains(key));
            let i = choose|i: int| 0 <= i < front.len() && front[i] == key;
            assert(before[front[i]] == front_times[i]);
            assert(front_times[i] == times[i]);
            assert(!is_expired(times[i], times[last]));
        }
        assert(swept(before, times[last]) =~= before);
        assert forall|key: Seq<char>| #[trigger] after.contains_key(key) <==> texts.contains(
            key,
        ) by {
            if texts.contains(key) {
                let i = choose|i: int| 0 <= i < texts.len() && texts[i] == key;
                if i < last {
                    assert(front[i] == key);
                    assert(front.contains(key));
                }
            }
            if before.contains_key(key) {
                assert(front.contains(key));
                let i = choose|i: int| 0 <= i < front.len() && front[i] == key;
                assert(texts[i] == key);
            }
            if key == texts[last] {
                assert(texts.contains(key));
            }
        }
        assert forall|i: int| 0 <= i < texts.len() implies after[#[trigger] texts[i]]
            == times[i] by {
            if i < last {
                assert(texts[i] != texts[last]);
                assert(front[i] == texts[i]);
                assert(before[front[i]] == front_times[i]);
                assert(front_times[i] == times[i]);
            }
        }
    }
}

/// Answers that are distinct, each its own lower-case form and each for a
/// captcha that is live when its turn comes, are all accepted, and take
/// exactly their own captchas out.
proof fn lemma_redeemed_all_empties(
    book: Map<Seq<char>, int>,
    answers: Seq<Seq<char>>,
    times: Seq<int>,
)
    requires
        answers.len() == times.len(),
        answers.no_duplicates(),
        forall|j: int|
            0 <= j < answers.len() ==> unicode_lowercase(#[trigger] answers[j]) == answers[j],
        forall|j: int| 0 <= j < answers.len() ==> is_live(book, #[trigger] answers[j], times[j]),
    ensures
        all_redeemable(book, answers, times),
        forall|key: Seq<char>| #[trigger]
            redeemed_all(book, answers, times).contains_key(key) <==> book.contains_key(key)
                && !answers.contains(key),
        forall|key: Seq<char>| #[trigger]
            redeemed_all(book, answers, times).contains_key(key) ==> redeemed_all(
                book,
                answers,
                times,
            )[key] == book[key],
    decreases answers.len(),
{
    if answers.len() > 0 {
        let front = answers.drop_last();
        let front_times = times.drop_last();
        let last = answers.len() - 1;
        assert forall|j: int| 0 <= j < front.len() implies unicode_lowercase(#[trigger] front[j])
            == front[j] && is_live(book, front[j], front_times[j]) by {
            assert(front[j] == answers[j]);
            assert(front_times[j] == times[j]);
        }
        lemma_redeemed_all_empties(book, front, front_times);
        let before = redeemed_all(book, front, front_times);
        let after = redeemed_all(book, answers, times);
        if front.contains(answers[last]) {
            let j = choose|j: int| 0 <= j < front.len() && front[j] == answers[last];
            assert(answers[j] == answers[last]);
        }
        assert(is_live(book, answers[last], times[last]));
        assert(before.contains_key(answers[last]));
        assert(redeemable(before, answers[last], unicode_lowercase(answers[last]), times[last]));
        assert(after == before.remove(answers[last]));
        assert forall|key: Seq<char>| #[trigger] after.contains_key(key) <==> book.contains_key(
            key,
        ) && !answers.contains(key) by {
            if answers.contains(key) {
                let j = choose|j: int| 0 <= j < answers.len() && answers[j] == key;
                if j < last {
                    assert(front[j] == key);
                    assert(front.contains(key));
                }
            }
            if front.contains(key) {
                let j = choose|j: int| 0 <= j < front.len() && front[j] == key;
                assert(answers[j] == key);
                assert(answers.contains(key));
            }
            if key == answers[last] {
                assert(answers.contains(key));
            }
        }
    }
}

/// However many captchas are issued, for distinct texts that are their own
/// lower-case forms and with none expiring before the last is issued, and in
/// whatever order each is then answered once, with its own text and before
/// it expires: every answer is accepted, and the store ends empty.
pub proof fn lemma_all_issued_all_redeemed(
    texts: Seq<Seq<char>>,
    issued_at: Seq<int>,
    answers: Seq<Seq<char>>,
    answered_at: Seq<int>,
)
    requires
        texts.len() == issued_at.len(),
        answers.len() == answered_at.len(),
        texts.no_duplicates(),
        answers.no_duplicates(),
        forall|i: int| 0 <= i < texts.len() ==> answers.contains(#[trigger] texts[i]),
        forall|j: int| 0 <= j < answers.len() ==> texts.contains(#[trigger] answers[j]),
        forall|i: int|
            0 <= i < texts.len() ==> ascii_lowercase(#[trigger] texts[i]) == texts[i]
                && unicode_lowercase(texts[i]) == texts[i],
        forall|i: int, j: int|
            0 <= i < j < texts.len() ==> !is_expired(
                #[trigger] issued_at[i],
                #[trigger] issued_at[j],
            ),
        forall|i: int, j: int|
            0 <= i < texts.len() && 0 <= j < answers.len() && #[trigger] texts[i]
                == #[trigger] answers[j] ==> !is_expired(issued_at[i], answered_at[j]),
    ensures
        all_redeemable(issued_all(Map::empty(), texts, issued_at), answers, answered_at),
        redeemed_all(issued_all(Map::empty(), texts, issued_at), answers, answered_at)
            == Map::<Seq<char>, int>::empty(),
{
    let book = issued_all(Map::empty(), texts, issued_at);
    lemma_issued_all_holds(texts, issued_at);
    assert forall|j: int| 0 <= j < answers.len() implies unicode_lowercase(#[trigger] answers[j])
        == answers[j] && is_live(book, answers[j], answered_at[j]) by {
        assert(texts.contains(answers[j]));
        let i = choose|i: int| 0 <= i < texts.len() && texts[i] == answers[j];
        assert(book.contains_key(texts[i]));
        assert(book[texts[i]] == issued_at[i]);
        assert(!is_expired(issued_at[i], answered_at[j]));
    }
    lemma_redeemed_all_empties(book, answers, answered_at);
    let end = redeemed_all(book, answers, answered_at);
    assert forall|key: Seq<char>| !(#[trigger] end.contains_key(key)) by {
        if book.contains_key(key) {
            assert(texts.contains(key));
            let i = choose|i: int| 0 <= i < texts.len() && texts[i] == key;
            assert(answers.contains(texts[i]));
        }
    }
    assert(end =~= Map::<Seq<char>, int>::empty());
}

} // verus!

//! The captcha store as mathematics: a map from each stored text to the
//! instant at which its captcha was created, and the three things that can
//! happen to it.

use vstd::prelude::*;
use crate::clock::is_expired;
use crate::fold::{ascii_lowercase, unicode_lowercase};

verus! {

/// Whether `key` has a captcha in `book` that can still be answered at `now`.
pub open spec fn is_live(book: Map<Seq<char>, int>, key: Seq<char>, now: int) -> bool {
    book.contains_key(key) && !is_expired(book[key], now)
}

/// `book` without the captchas that have expired at `now`.
pub open spec fn swept(book: Map<Seq<char>, int>, now: int) -> Map<Seq<char>, int> {
    Map::new(|key: Seq<char>| is_live(book, key, now), |key: Seq<char>| book[key])
}

/// `book` after a captcha for `text` was issued at `now`: what had expired is
/// gone, and the folded text is bound to `now`, whatever it was bound to
/// before.
pub open spec fn issued(book: Map<Seq<char>, int>, text: Seq<char>, now: int) -> Map<
    Seq<char>,
    int,
> {
    swept(book, now).insert(ascii_lowercase(text), now)
}

/// Whether an answer is accepted at `now`. The answer is looked up as it was
/// sent, `key`; the captcha found must be unexpired and its text must equal
/// `folded`, the answer in lower case. The captcha found under `key` has the
/// text `key`, so the answer must be its own lower-case form.
pub open spec fn redeemable(
    book: Map<Seq<char>, int>,
    key: Seq<char>,
    folded: Seq<char>,
    now: int,
) -> bool {
    is_live(book, key, now) && key == folded
}

/// `book` after an answer was checked at `now`: an accepted answer takes its
/// captcha out, any other leaves the book as it was.
pub open spec fn redeemed(
    book: Map<Seq<char>, int>,
    key: Seq<char>,
    folded: Seq<char>,
    now: int,
) -> Map<Seq<char>, int> {
    if redeemable(book, key, folded, now) {
        book.remove(key)
    } else {
        book
    }
}

/// `book` after one captcha was issued for each of `texts`, in their order,
/// the captcha for `texts[i]` at `times[i]`.
pub open spec fn issued_all(
    book: Map<Seq<char>, int>,
    texts: Seq<Seq<char>>,
    times: Seq<int>,
) -> Map<Seq<char>, int>
    decreases texts.len(),
{
    if texts.len() == 0 {
        book
    } else {
        issued(issued_all(book, texts.drop_last(), times.drop_last()), texts.last(), times.last())
    }
}

/// `book` after each of `answers` was checked, in their order, `answers[i]`
/// at `times[i]`, each folded by the Unicode rules.
pub open spec fn redeemed_all(
    book: Map<Seq<char>, int>,
    answers: Seq<Seq<char>>,
    times: Seq<int>,
) -> Map<Seq<char>, int>
    decreases answers.len(),
{
    if answers.len() == 0 {
        book
    } else {
        redeemed(
            redeemed_all(book, answers.drop_last(), times.drop_last()),
            answers.last(),
            unicode_lowercase(answers.last()),
            times.last(),
        )
    }
}

/// Whether each of `answers`, checked in their order, `answers[i]` at
/// `times[i]`, is accepted by the book that the answers before it left.
pub open spec fn all_redeemable(
    book: Map<Seq<char>, int>,
    answers: Seq<Seq<char>>,
    times: Seq<int>,
) -> bool
    decreases answers.len(),
{
    answers.len() == 0 || (all_redeemable(book, answers.drop_last(), times.drop_last())
        && redeemable(
        redeemed_all(book, answers.drop_last(), times.drop_last()),
        answers.last(),
        unicode_lowercase(answers.last()),
        times.last(),
    ))
}

} // verus!

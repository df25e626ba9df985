//! The lexical rule of ticket keys, and what it finds in a text.
//!
//! A ticket key is one or more upper-case ASCII letters, a hyphen, and one or more decimal
//! digits: `ABC-123`. As a regular expression that is `[A-Z]+-[0-9]+`. A text is read from
//! left to right. The first position at which a key begins gives the first key, which
//! takes as many digits as follow; the reading goes on after it, so no two keys overlap.
//! These are the matches of the expression in the text, leftmost first and each as long as
//! it can be.
use vstd::prelude::*;

verus! {

/// Whether `c` may stand before the hyphen of a key: an upper-case ASCII letter.
pub open spec fn is_key_letter(c: char) -> bool {
    'A' <= c && c <= 'Z'
}

/// Whether `c` may stand after the hyphen of a key: a decimal digit.
pub open spec fn is_key_digit(c: char) -> bool {
    '0' <= c && c <= '9'
}

/// Whether `key` splits at the hyphen `key[hyphen]` into letters before it and digits
/// after it, at least one of each.
pub open spec fn splits_at(key: Seq<char>, hyphen: int) -> bool {
    &&& 0 < hyphen < key.len() - 1
    &&& key[hyphen] == '-'
    &&& forall|i: int| 0 <= i < hyphen ==> is_key_letter(#[trigger] key[i])
    &&& forall|i: int| hyphen < i < key.len() ==> is_key_digit(#[trigger] key[i])
}

/// Whether `key` is a ticket key.
pub open spec fn is_ticket_key(key: Seq<char>) -> bool {
    exists|hyphen: int| splits_at(key, hyphen)
}

/// Where the run of key letters that begins at `i` ends: the first position at or after
/// `i` that holds no key letter.
pub open spec fn letters_end(text: Seq<char>, i: int) -> int
    decreases text.len() - i,
{
    if 0 <= i < text.len() && is_key_letter(text[i]) {
        letters_end(text, i + 1)
    } else {
        i
    }
}

/// Where the run of digits that begins at `i` ends.
pub open spec fn digits_end(text: Seq<char>, i: int) -> int
    decreases text.len() - i,
{
    if 0 <= i < text.len() && is_key_digit(text[i]) {
        digits_end(text, i + 1)
    } else {
        i
    }
}

/// Whether a key begins at `i`: the letters from `i` on, at least one, are followed by a
/// hyphen and a digit.
pub open spec fn key_begins(text: Seq<char>, i: int) -> bool {
    let hyphen = letters_end(text, i);
    &&& 0 <= i < hyphen
    &&& hyphen + 1 < text.len()
    &&& text[hyphen] == '-'
    &&& is_key_digit(text[hyphen + 1])
}

/// Where the key that begins at `i` ends: after the last of the digits that follow its
/// hyphen.
pub open spec fn key_end(text: Seq<char>, i: int) -> int {
    digits_end(text, letters_end(text, i) + 1)
}

/// The keys of `text` that begin at or after `i`, from left to right.
pub open spec fn keys_from(text: Seq<char>, i: int) -> Seq<Seq<char>>
    decreases text.len() - i,
{
    if 0 <= i < text.len() {
        if key_begins(text, i) {
            proof {
                lemma_run_bounds(text, letters_end(text, i) + 1);
            }
            seq![text.subrange(i, key_end(text, i))] + keys_from(text, key_end(text, i))
        } else {
            keys_from(text, i + 1)
        }
    } else {
        Seq::empty()
    }
}

/// The ticket keys of `text`, in the order in which they appear. A key that appears twice
/// is listed twice.
pub open spec fn ticket_keys(text: Seq<char>) -> Seq<Seq<char>> {
    keys_from(text, 0)
}

/// A run ends at or after the place where it begins, and within the text.
pub proof fn lemma_run_bounds(text: Seq<char>, i: int)
    requires
        0 <= i <= text.len(),
    ensures
        i <= letters_end(text, i) <= text.len(),
        i <= digits_end(text, i) <= text.len(),
    decreases text.len() - i,
{
    if i < text.len() {
        lemma_run_bounds(text, i + 1);
    }
}

/// A run of letters holds letters only, and ends at the end of the text or before a
/// character that is no letter.
pub proof fn lemma_letters_run(text: Seq<char>, i: int)
    requires
        0 <= i <= text.len(),
    ensures
        forall|j: int| i <= j < letters_end(text, i) ==> is_key_letter(#[trigger] text[j]),
        letters_end(text, i) < text.len() ==> !is_key_letter(text[letters_end(text, i)]),
    decreases text.len() - i,
{
    if i < text.len() && is_key_letter(text[i]) {
        lemma_letters_run(text, i + 1);
    }
}

/// A run of digits holds digits only, and ends at the end of the text or before a
/// character that is no digit.
pub proof fn lemma_digits_run(text: Seq<char>, i: int)
    requires
        0 <= i <= text.len(),
    ensures
        forall|j: int| i <= j < digits_end(text, i) ==> is_key_digit(#[trigger] text[j]),
        digits_end(text, i) < text.len() ==> !is_key_digit(text[digits_end(text, i)]),
    decreases text.len() - i,
{
    if i < text.len() && is_key_digit(text[i]) {
        lemma_digits_run(text, i + 1);
    }
}

/// Within a run of letters, the run that begins later ends at the same place.
pub proof fn lemma_letters_end_within(text: Seq<char>, i: int, j: int)
    requires
        0 <= i <= j <= letters_end(text, i),
    ensures
        letters_end(text, j) == letters_end(text, i),
    decreases j - i,
{
    if i < j {
        lemma_run_bounds(text, i);
        lemma_letters_end_within(text, i + 1, j);
    }
}

/// Where a key begins, what stands between its beginning and its end is a ticket key,
/// and it ends after the place where it begins.
pub proof fn lemma_key_at(text: Seq<char>, i: int)
    requires
        key_begins(text, i),
    ensures
        i < key_end(text, i) <= text.len(),
        is_ticket_key(text.subrange(i, key_end(text, i))),
{
    lemma_run_bounds(text, i);
    let hyphen = letters_end(text, i);
    lemma_run_bounds(text, hyphen + 1);
    lemma_letters_run(text, i);
    lemma_digits_run(text, hyphen + 1);
    assert(splits_at(text.subrange(i, key_end(text, i)), hyphen - i));
}

/// Where no key begins at `i`, none begins within the run of letters that begins at `i`
/// either: the reading may go on at the end of that run.
pub proof fn lemma_skip_letters(text: Seq<char>, i: int, j: int)
    requires
        0 <= i <= j <= letters_end(text, i),
        !key_begins(text, i),
    ensures
        keys_from(text, j) == keys_from(text, i),
    decreases j - i,
{
    if i < j {
        lemma_run_bounds(text, i);
        lemma_letters_end_within(text, i, i + 1);
        lemma_skip_letters(text, i + 1, j);
    }
}

/// Every key that the reading finds from `i` on is a ticket key.
pub proof fn lemma_keys_from_are_ticket_keys(text: Seq<char>, i: int)
    requires
        0 <= i,
    ensures
        forall|k: int|
            0 <= k < keys_from(text, i).len() ==> is_ticket_key(#[trigger] keys_from(text, i)[k]),
    decreases text.len() - i,
{
    if i < text.len() {
        if key_begins(text, i) {
            lemma_key_at(text, i);
            lemma_keys_from_are_ticket_keys(text, key_end(text, i));
            let keys = keys_from(text, i);
            let rest = keys_from(text, key_end(text, i));
            assert forall|k: int| 0 <= k < keys.len() implies is_ticket_key(#[trigger] keys[k]) by {
                if k > 0 {
                    assert(keys[k] == rest[k - 1]);
                }
            }
        } else {
            lemma_keys_from_are_ticket_keys(text, i + 1);
            assert(keys_from(text, i) == keys_from(text, i + 1));
        }
    }
}

/// Every key of a text is a ticket key: letters, a hyphen and digits, and nothing else.
pub proof fn lemma_keys_are_ticket_keys(text: Seq<char>)
    ensures
        forall|k: int|
            0 <= k < ticket_keys(text).len() ==> is_ticket_key(#[trigger] ticket_keys(text)[k]),
{
    lemma_keys_from_are_ticket_keys(text, 0);
}

/// A run of letters ends where the letters end.
pub proof fn lemma_letters_end_at(text: Seq<char>, i: int, end: int)
    requires
        0 <= i <= end <= text.len(),
        forall|j: int| i <= j < end ==> is_key_letter(#[trigger] text[j]),
        end < text.len() ==> !is_key_letter(text[end]),
    ensures
        letters_end(text, i) == end,
    decreases end - i,
{
    if i < end {
        lemma_letters_end_at(text, i + 1, end);
    }
}

/// A run of digits ends where the digits end.
pub proof fn lemma_digits_end_at(text: Seq<char>, i: int, end: int)
    requires
        0 <= i <= end <= text.len(),
        forall|j: int| i <= j < end ==> is_key_digit(#[trigger] text[j]),
        end < text.len() ==> !is_key_digit(text[end]),
    ensures
        digits_end(text, i) == end,
    decreases end - i,
{
    if i < end {
        lemma_digits_end_at(text, i + 1, end);
    }
}

/// A run of digits reaches at least as far as digits follow one another.
pub proof fn lemma_digits_end_from(text: Seq<char>, i: int, end: int)
    requires
        0 <= i <= end <= text.len(),
        forall|j: int| i <= j < end ==> is_key_digit(#[trigger] text[j]),
    ensures
        end <= digits_end(text, i),
    decreases end - i,
{
    if i < end {
        lemma_digits_end_from(text, i + 1, end);
    } else {
        lemma_run_bounds(text, i);
    }
}

/// Where a piece of the text is a ticket key, a key begins at the beginning of the piece,
/// and it ends at the end of the piece or after it. With [`lemma_key_at`]: a key begins
/// exactly where some piece of the text is a ticket key, and it is the longest such piece.
pub proof fn lemma_key_is_longest(text: Seq<char>, i: int, j: int)
    requires
        0 <= i <= j <= text.len(),
        is_ticket_key(text.subrange(i, j)),
    ensures
        key_begins(text, i),
        j <= key_end(text, i),
{
    let key = text.subrange(i, j);
    let hyphen = choose|hyphen: int| splits_at(key, hyphen);
    assert forall|k: int| i <= k < i + hyphen implies is_key_letter(#[trigger] text[k]) by {
        assert(text[k] == key[k - i]);
    }
    lemma_letters_end_at(text, i, i + hyphen);
    assert forall|k: int| i + hyphen + 1 <= k < j implies is_key_digit(#[trigger] text[k]) by {
        assert(text[k] == key[k - i]);
    }
    lemma_digits_end_from(text, i + hyphen + 1, j);
}

/// A ticket key, read as a text, holds one key: itself.
pub proof fn lemma_key_alone(key: Seq<char>)
    requires
        is_ticket_key(key),
    ensures
        ticket_keys(key) == seq![key],
{
    let hyphen = choose|hyphen: int| splits_at(key, hyphen);
    lemma_letters_end_at(key, 0, hyphen);
    lemma_digits_end_at(key, hyphen + 1, key.len() as int);
    assert(key.subrange(0, key.len() as int) == key);
    assert(keys_from(key, key.len() as int) == Seq::<Seq<char>>::empty());
}

/// A text without an upper-case ASCII letter holds no key: lower-case letters do not make
/// one.
pub proof fn lemma_no_letter_no_key(text: Seq<char>, i: int)
    requires
        0 <= i,
        forall|j: int| i <= j < text.len() ==> !is_key_letter(#[trigger] text[j]),
    ensures
        keys_from(text, i) == Seq::<Seq<char>>::empty(),
    decreases text.len() - i,
{
    if i < text.len() {
        lemma_no_letter_no_key(text, i + 1);
    }
}

} // verus!

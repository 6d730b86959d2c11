//! A cache of upstream responses: values kept under caller-defined keys,
//! each stamped with the time it was written, and read back only while
//! fresh.

use crate::decimal::{
    decimal, lemma_parse_decimal_of_decimal, parse_decimal, parse_u64, push_decimal,
    push_signed_decimal, signed_decimal, u64_to_decimal,
};
use crate::fetch::LeaderboardId;
use crate::filters::{lemma_filter_last, lemma_filter_skip_step, lemma_filter_step};
use vstd::prelude::*;
use vstd::string::StringExecFns;

verus! {

/// How long a value stays fresh after it was written, in seconds.
pub const CACHE_TIMEOUT_SECS: u64 = 900;

/// One row of the cache, as a value.
pub struct RowView {
    pub key: Seq<char>,
    pub value: Seq<char>,
    pub last_updated: u64,
}

/// The rows kept under `key`.
pub open spec fn has_key(key: Seq<char>) -> spec_fn(RowView) -> bool {
    |row: RowView| row.key == key
}

/// The rows kept under any other key than `key`.
pub open spec fn lacks_key(key: Seq<char>) -> spec_fn(RowView) -> bool {
    |row: RowView| row.key != key
}

/// The number of rows kept under `key`.
pub open spec fn entries_for(rows: Seq<RowView>, key: Seq<char>) -> nat {
    rows.filter(has_key(key)).len()
}

/// No key has more than one row.
pub open spec fn unique_keys(rows: Seq<RowView>) -> bool {
    forall|key: Seq<char>| #[trigger] entries_for(rows, key) <= 1
}

/// The row kept under `key`; of several, the one written last.
pub open spec fn select_row(rows: Seq<RowView>, key: Seq<char>) -> Option<RowView> {
    let found = rows.filter(has_key(key));
    if found.len() > 0 {
        Some(found.last())
    } else {
        None
    }
}

/// A value written at `last_updated` is fresh at `now` while no more than
/// the timeout has passed since.
pub open spec fn is_fresh(last_updated: u64, now: u64) -> bool {
    now - last_updated <= CACHE_TIMEOUT_SECS
}

/// The value that a read of `key` at the time `now` gives: that of the row
/// kept under `key`, while it is fresh.
pub open spec fn cached_value(rows: Seq<RowView>, key: Seq<char>, now: u64) -> Option<Seq<char>> {
    match select_row(rows, key) {
        Some(row) => if is_fresh(row.last_updated, now) {
            Some(row.value)
        } else {
            None
        },
        None => None,
    }
}

/// The rows after `value` was written under `key` at the time `now`: every
/// row kept under `key` is gone, and one new row follows the others.
pub open spec fn with_value(
    rows: Seq<RowView>,
    key: Seq<char>,
    value: Seq<char>,
    now: u64,
) -> Seq<RowView> {
    rows.filter(lacks_key(key)).push(RowView { key, value, last_updated: now })
}

/// One row of the cache: a value, the key it is kept under, and the time
/// it was written, in seconds since the epoch.
#[derive(Debug)]
pub struct KeyValueResult {
    pub key: String,
    pub value: String,
    pub last_updated: u64,
}

impl View for KeyValueResult {
    type V = RowView;

    open spec fn view(&self) -> RowView {
        RowView { key: self.key@, value: self.value@, last_updated: self.last_updated }
    }
}

impl Clone for KeyValueResult {
    fn clone(&self) -> (copy: Self)
        ensures
            copy@ == self@,
    {
        KeyValueResult {
            key: self.key.clone(),
            value: self.value.clone(),
            last_updated: self.last_updated,
        }
    }
}

/// The rows of a table, as values.
pub open spec fn rows_view(rows: Seq<KeyValueResult>) -> Seq<RowView> {
    rows.map_values(|row: KeyValueResult| row@)
}

/// The cache: a table of rows, in the order in which they were written.
#[derive(Debug)]
pub struct RequestCache {
    pub rows: Vec<KeyValueResult>,
}

impl View for RequestCache {
    type V = Seq<RowView>;

    open spec fn view(&self) -> Seq<RowView> {
        rows_view(self.rows@)
    }
}

/// A filter keeps nothing of what the opposite filter kept.
pub proof fn lemma_filter_excludes(rows: Seq<RowView>, key: Seq<char>)
    ensures
        rows.filter(lacks_key(key)).filter(has_key(key)).len() == 0,
    decreases rows.len(),
{
    reveal(Seq::filter);
    if rows.len() > 0 {
        lemma_filter_excludes(rows.drop_last(), key);
        if lacks_key(key)(rows.last()) {
            rows.drop_last().filter(lacks_key(key)).lemma_filter_push(rows.last(), has_key(key));
        }
    }
}

/// Taking out the rows of one key leaves the rows of every other key as
/// they were.
pub proof fn lemma_filter_other_key(rows: Seq<RowView>, key: Seq<char>, other: Seq<char>)
    requires
        key != other,
    ensures
        rows.filter(lacks_key(key)).filter(has_key(other)) == rows.filter(has_key(other)),
    decreases rows.len(),
{
    reveal(Seq::filter);
    if rows.len() > 0 {
        lemma_filter_other_key(rows.drop_last(), key, other);
        if lacks_key(key)(rows.last()) {
            rows.drop_last().filter(lacks_key(key)).lemma_filter_push(
                rows.last(),
                has_key(other),
            );
        }
    }
}

/// The rows that a start from the stored rows `stored` gives: each stored
/// row is written in its turn, with the time it was stored with, so that of
/// several rows under one key the last one stays.
pub open spec fn restored(stored: Seq<RowView>) -> Seq<RowView>
    decreases stored.len(),
{
    if stored.len() == 0 {
        stored
    } else {
        with_value(
            restored(stored.drop_last()),
            stored.last().key,
            stored.last().value,
            stored.last().last_updated,
        )
    }
}

/// Creates the cache from the rows that an earlier run stored, if any: a
/// value that was fresh before is still fresh, and of several rows under
/// one key the last one stays. Starting from what the cache holds changes
/// nothing.
pub fn init_cache(stored: Vec<KeyValueResult>) -> (cache: RequestCache)
    ensures
        cache@ == restored(rows_view(stored@)),
        unique_keys(cache@),
        unique_keys(rows_view(stored@)) ==> cache@ == rows_view(stored@),
{
    let ghost all = rows_view(stored@);
    let mut cache = RequestCache { rows: Vec::new() };
    assert(cache@ =~= Seq::<RowView>::empty());
    for row in iter: stored
        invariant
            iter.seq() == stored@,
            all == rows_view(stored@),
            cache@ == restored(all.take(iter.index())),
    {
        assert(all.take(iter.index() + 1).drop_last() =~= all.take(iter.index()));
        set_value(&mut cache, row.key.as_str(), row.value.as_str(), row.last_updated);
    }
    proof {
        assert(all.take(all.len() as int) =~= all);
        lemma_restored_keys_unique(all);
        if unique_keys(all) {
            lemma_restored_unique_rows(all);
        }
    }
    cache
}

/// Without a row under `key`, taking out the rows under `key` changes
/// nothing.
pub proof fn lemma_filter_absent_key(rows: Seq<RowView>, key: Seq<char>)
    requires
        entries_for(rows, key) == 0,
    ensures
        rows.filter(lacks_key(key)) == rows,
    decreases rows.len(),
{
    reveal(Seq::filter);
    if rows.len() > 0 {
        rows.drop_last().lemma_filter_push(rows.last(), has_key(key));
        assert(rows.drop_last().push(rows.last()) =~= rows);
        lemma_filter_absent_key(rows.drop_last(), key);
    }
}

/// However the stored rows were, a start leaves no key with more than one
/// row.
pub proof fn lemma_restored_keys_unique(stored: Seq<RowView>)
    ensures
        unique_keys(restored(stored)),
    decreases stored.len(),
{
    if stored.len() > 0 {
        lemma_restored_keys_unique(stored.drop_last());
        lemma_write_keeps_keys_unique(
            restored(stored.drop_last()),
            stored.last().key,
            stored.last().value,
            stored.last().last_updated,
        );
    } else {
        assert forall|key: Seq<char>| #[trigger] entries_for(stored, key) <= 1 by {
            stored.lemma_filter_len(has_key(key));
        }
    }
}

/// A start from rows with unique keys gives those rows.
pub proof fn lemma_restored_unique_rows(stored: Seq<RowView>)
    requires
        unique_keys(stored),
    ensures
        restored(stored) == stored,
    decreases stored.len(),
{
    if stored.len() > 0 {
        let before = stored.drop_last();
        let last = stored.last();
        assert(before.push(last) =~= stored);
        assert forall|key: Seq<char>| #[trigger] entries_for(before, key) <= 1 by {
            before.lemma_filter_push(last, has_key(key));
            assert(entries_for(stored, key) <= 1);
        }
        lemma_restored_unique_rows(before);
        assert(entries_for(before, last.key) == 0) by {
            before.lemma_filter_push(last, has_key(last.key));
            assert(entries_for(stored, last.key) <= 1);
        }
        lemma_filter_absent_key(before, last.key);
    }
}

/// Starting again from what a start gave changes nothing.
pub proof fn lemma_restored_twice(stored: Seq<RowView>)
    ensures
        restored(restored(stored)) == restored(stored),
{
    lemma_restored_keys_unique(stored);
    lemma_restored_unique_rows(restored(stored));
}

/// The index of the last row kept under `key`.
fn index_of_key(cache: &RequestCache, key: &String) -> (found: Option<usize>)
    ensures
        match found {
            Some(i) => {
                &&& i < cache.rows.len()
                &&& select_row(cache@, key@) == Some(cache@[i as int])
            },
            None => select_row(cache@, key@) is None,
        },
{
    let mut i: usize = cache.rows.len();
    assert(cache@.skip(i as int) =~= Seq::<RowView>::empty());
    proof {
        Seq::<RowView>::empty().lemma_filter_len(has_key(key@));
    }
    while i > 0
        invariant
            i <= cache.rows.len(),
            cache@.skip(i as int).filter(has_key(key@)).len() == 0,
        decreases i,
    {
        i -= 1;
        if cache.rows[i].key == *key {
            proof {
                lemma_filter_last(cache@, has_key(key@), i as int);
            }
            return Some(i);
        }
        proof {
            lemma_filter_skip_step(cache@, has_key(key@), i as int);
        }
    }
    assert(cache@.skip(0) =~= cache@);
    None
}

/// The row kept under `key`, whatever its age.
pub fn select_key_value_result(cache: &RequestCache, key: &str) -> (row: Option<KeyValueResult>)
    ensures
        match row {
            Some(r) => select_row(cache@, key@) == Some(r@),
            None => select_row(cache@, key@) is None,
        },
{
    let wanted = key.to_owned();
    match index_of_key(cache, &wanted) {
        Some(i) => Some(cache.rows[i].clone()),
        None => None,
    }
}

/// The value kept under `key` and the time it was written, whatever its
/// age.
pub fn get_value(cache: &RequestCache, key: &str) -> (found: Option<(String, u64)>)
    ensures
        match found {
            Some((value, last_updated)) => select_row(cache@, key@) == Some(
                RowView { key: key@, value: value@, last_updated },
            ),
            None => select_row(cache@, key@) is None,
        },
{
    match select_key_value_result(cache, key) {
        Some(result) => {
            proof {
                let found = cache@.filter(has_key(key@));
                cache@.lemma_filter_pred(has_key(key@), found.len() - 1);
            }
            Some((result.value, result.last_updated))
        },
        None => None,
    }
}

/// Whether a value written at `last_updated` is still fresh at `now`.
pub fn is_fresh_at(last_updated: u64, now: u64) -> (fresh: bool)
    ensures
        fresh == is_fresh(last_updated, now),
{
    now <= last_updated || now - last_updated <= CACHE_TIMEOUT_SECS
}

/// Reads the value kept under `key` at the time `now`. A value that is no
/// longer fresh is not returned; its row stays where it is.
pub fn select_from_cache(cache: &RequestCache, key: &str, now: u64) -> (value: Option<String>)
    ensures
        match value {
            Some(v) => cached_value(cache@, key@, now) == Some(v@),
            None => cached_value(cache@, key@, now) is None,
        },
{
    match get_value(cache, key) {
        Some((value, last_updated)) => if is_fresh_at(last_updated, now) {
            Some(value)
        } else {
            None
        },
        None => None,
    }
}

/// Writes `value` under `key` at the time `now`: every row kept under
/// `key` is deleted, then the new row is inserted.
pub fn set_value(cache: &mut RequestCache, key: &str, value: &str, now: u64)
    ensures
        final(cache)@ == with_value(old(cache)@, key@, value@, now),
{
    let ghost before = cache@;
    let wanted = key.to_owned();
    let ghost mut seen: int = 0;
    let mut i: usize = 0;
    while i < cache.rows.len()
        invariant
            0 <= seen <= before.len(),
            wanted@ == key@,
            i == before.take(seen).filter(lacks_key(key@)).len(),
            cache@ == before.take(seen).filter(lacks_key(key@)) + before.skip(seen),
        decreases before.len() - seen,
    {
        proof {
            lemma_filter_step(before, lacks_key(key@), seen);
            assert(cache@[i as int] == before.skip(seen)[0]);
        }
        if cache.rows[i].key == wanted {
            let ghost previous = cache@;
            cache.rows.remove(i);
            assert(cache@ =~= previous.remove(i as int));
            assert(cache@ =~= before.take(seen + 1).filter(lacks_key(key@)) + before.skip(
                seen + 1,
            ));
        } else {
            assert(cache@ =~= before.take(seen + 1).filter(lacks_key(key@)) + before.skip(
                seen + 1,
            ));
            i += 1;
        }
        proof {
            seen = seen + 1;
        }
    }
    assert(before.take(seen) =~= before);
    let ghost kept = cache@;
    cache.rows.push(KeyValueResult { key: wanted, value: value.to_owned(), last_updated: now });
    assert(cache@ =~= kept.push(RowView { key: key@, value: value@, last_updated: now }));
}

/// Writes `value` under `key` at the time `now`, in place of whatever was
/// kept under `key`. Afterwards there is exactly one row for `key`, and
/// the rows of the other keys are as before.
pub fn insert_into_cache(cache: &mut RequestCache, key: &str, value: &str, now: u64)
    ensures
        final(cache)@ == with_value(old(cache)@, key@, value@, now),
        entries_for(final(cache)@, key@) == 1,
        unique_keys(old(cache)@) ==> unique_keys(final(cache)@),
{
    set_value(cache, key, value, now);
    proof {
        lemma_write_leaves_one_entry(old(cache)@, key@, value@, now);
        if unique_keys(old(cache)@) {
            lemma_write_keeps_keys_unique(old(cache)@, key@, value@, now);
        }
    }
}

/// After a write there is exactly one row for the key: the one just
/// written.
pub proof fn lemma_write_leaves_one_entry(
    rows: Seq<RowView>,
    key: Seq<char>,
    value: Seq<char>,
    now: u64,
)
    ensures
        entries_for(with_value(rows, key, value, now), key) == 1,
        select_row(with_value(rows, key, value, now), key) == Some(
            RowView { key, value, last_updated: now },
        ),
{
    let row = RowView { key, value, last_updated: now };
    lemma_filter_excludes(rows, key);
    rows.filter(lacks_key(key)).lemma_filter_push(row, has_key(key));
}

/// A write under one key changes nothing for any other key.
pub proof fn lemma_write_keeps_other_keys(
    rows: Seq<RowView>,
    key: Seq<char>,
    value: Seq<char>,
    now: u64,
    other: Seq<char>,
)
    requires
        key != other,
    ensures
        with_value(rows, key, value, now).filter(has_key(other)) == rows.filter(has_key(other)),
        entries_for(with_value(rows, key, value, now), other) == entries_for(rows, other),
        select_row(with_value(rows, key, value, now), other) == select_row(rows, other),
        forall|later: u64|
            cached_value(with_value(rows, key, value, now), other, later) == cached_value(
                rows,
                other,
                later,
            ),
{
    let row = RowView { key, value, last_updated: now };
    lemma_filter_other_key(rows, key, other);
    rows.filter(lacks_key(key)).lemma_filter_push(row, has_key(other));
}

/// A write keeps the keys unique.
pub proof fn lemma_write_keeps_keys_unique(
    rows: Seq<RowView>,
    key: Seq<char>,
    value: Seq<char>,
    now: u64,
)
    requires
        unique_keys(rows),
    ensures
        unique_keys(with_value(rows, key, value, now)),
{
    assert forall|other: Seq<char>| #[trigger]
        entries_for(with_value(rows, key, value, now), other) <= 1 by {
        if other == key {
            lemma_write_leaves_one_entry(rows, key, value, now);
        } else {
            lemma_write_keeps_other_keys(rows, key, value, now, other);
            assert(entries_for(rows, other) <= 1);
        }
    }
}

/// A value that was written is read back as it is, at any time up to the
/// timeout after the write.
pub proof fn lemma_read_after_write(
    rows: Seq<RowView>,
    key: Seq<char>,
    value: Seq<char>,
    now: u64,
    later: u64,
)
    requires
        later - now <= CACHE_TIMEOUT_SECS,
    ensures
        cached_value(with_value(rows, key, value, now), key, later) == Some(value),
{
    lemma_write_leaves_one_entry(rows, key, value, now);
}

/// Once more than the timeout has passed since the last write, a read
/// finds nothing, although the row is still there.
pub proof fn lemma_read_after_timeout(
    rows: Seq<RowView>,
    key: Seq<char>,
    value: Seq<char>,
    now: u64,
    later: u64,
)
    requires
        later - now > CACHE_TIMEOUT_SECS,
    ensures
        cached_value(with_value(rows, key, value, now), key, later) is None,
        entries_for(with_value(rows, key, value, now), key) == 1,
{
    lemma_write_leaves_one_entry(rows, key, value, now);
}

/// Of two writes under one key the second replaces the first: one row is
/// left for the key, and a read while it is fresh gives the second value.
pub proof fn lemma_second_write_replaces_first(
    rows: Seq<RowView>,
    key: Seq<char>,
    first: Seq<char>,
    first_time: u64,
    second: Seq<char>,
    second_time: u64,
    later: u64,
)
    ensures
        entries_for(
            with_value(with_value(rows, key, first, first_time), key, second, second_time),
            key,
        ) == 1,
        select_row(
            with_value(with_value(rows, key, first, first_time), key, second, second_time),
            key,
        ) == Some(RowView { key, value: second, last_updated: second_time }),
        later - second_time <= CACHE_TIMEOUT_SECS ==> cached_value(
            with_value(with_value(rows, key, first, first_time), key, second, second_time),
            key,
            later,
        ) == Some(second),
{
    lemma_write_leaves_one_entry(
        with_value(rows, key, first, first_time),
        key,
        second,
        second_time,
    );
}

/// The key under which the answer to a search for a player in a queue is
/// kept.
pub open spec fn player_key_text(player_name: Seq<char>, leaderboard_id: LeaderboardId) -> Seq<
    char,
> {
    "player-"@ + player_name + "-"@ + decimal(leaderboard_id.spec_code() as nat)
}

/// Composes the key under which the answer to a search for a player in a
/// queue is kept.
pub fn player_cache_key(player_name: &str, leaderboard_id: LeaderboardId) -> (key: String)
    ensures
        key@ == player_key_text(player_name@, leaderboard_id),
{
    let mut key = String::from_str("player-");
    key.append(player_name);
    key.append("-");
    push_decimal(&mut key, leaderboard_id.code() as u64);
    key
}

/// The key under which the match history of a player is kept.
pub open spec fn matches_key_text(profile_id: i32) -> Seq<char> {
    "matches-"@ + signed_decimal(profile_id as int)
}

/// Composes the key under which the match history of a player is kept.
pub fn matches_cache_key(profile_id: i32) -> (key: String)
    ensures
        key@ == matches_key_text(profile_id),
{
    let mut key = String::from_str("matches-");
    push_signed_decimal(&mut key, profile_id as i64);
    key
}

/// The time that the text of a stored row stands for: the number that its
/// decimal digits give, and 0 for any other text.
pub open spec fn last_updated_of_text(text: Seq<char>) -> u64 {
    match parse_decimal(text) {
        Some(seconds) => if seconds <= u64::MAX {
            seconds as u64
        } else {
            0
        },
        None => 0,
    }
}

/// Reads the time of a stored row from its text. A row whose time cannot
/// be read is as old as can be.
pub fn parse_last_updated(text: &str) -> (last_updated: u64)
    ensures
        last_updated == last_updated_of_text(text@),
{
    match parse_u64(text) {
        Some(seconds) => seconds,
        None => 0,
    }
}

/// Writes the time of a row as the text that is stored: the seconds since
/// the epoch in decimal digits. Reading the text back gives the time.
pub fn last_updated_text(last_updated: u64) -> (text: String)
    ensures
        text@ == decimal(last_updated as nat),
        last_updated_of_text(text@) == last_updated,
{
    proof {
        lemma_parse_decimal_of_decimal(last_updated as nat);
    }
    u64_to_decimal(last_updated)
}

} // verus!

//! The movement history as it is shown: every movement with the names of
//! its item and user joined in, latest first.

use vstd::prelude::*;
use vstd::seq_lib::{to_multiset_contains, to_multiset_len};
use crate::models::{Movement, Transaction};
use crate::order::{sort_by_keys, push_text_key_desc, sorted_by_key};
use crate::queries::{shows_movement, show_movement, history_key};
use crate::store::Stock;

verus! {

/// `t` shows some movement of the book.
pub open spec fn shows_some_movement(t: Transaction, db: Stock) -> bool {
    exists|k: int| 0 <= k < db.movements@.len() && shows_movement(t, db, #[trigger] db.movements@[k])
}

/// Some row of `rows` shows movement `m`.
pub open spec fn movement_listed(rows: Seq<Transaction>, db: Stock, m: Movement) -> bool {
    exists|i: int| 0 <= i < rows.len() && shows_movement(#[trigger] rows[i], db, m)
}

proof fn lemma_reordered_history(r: Seq<Transaction>, built: Seq<Transaction>, db: Stock)
    requires
        r.to_multiset() == built.to_multiset(),
        built.len() == db.movements@.len(),
        forall|k: int| 0 <= k < built.len() ==> shows_movement(#[trigger] built[k], db, db.movements@[k]),
    ensures
        r.len() == db.movements@.len(),
        forall|i: int| 0 <= i < r.len() ==> #[trigger] shows_some_movement(r[i], db),
        forall|k: int|
            0 <= k < db.movements@.len() ==> #[trigger] movement_listed(r, db, db.movements@[k]),
{
    assert forall|a: int| 0 <= a < r.len() implies #[trigger] shows_some_movement(r[a], db) by {
        to_multiset_contains(r, r[a]);
        to_multiset_contains(built, r[a]);
        assert(r.contains(r[a]));
        let k = choose|k: int| 0 <= k < built.len() && built[k] == r[a];
        assert(shows_movement(built[k], db, db.movements@[k]));
        assert(0 <= k < db.movements@.len() && shows_movement(r[a], db, db.movements@[k]));
    }
    assert forall|k: int| 0 <= k < db.movements@.len() implies #[trigger] movement_listed(
        r,
        db,
        db.movements@[k],
    ) by {
        to_multiset_contains(built, built[k]);
        to_multiset_contains(r, built[k]);
        assert(built.contains(built[k]));
        let a = choose|a: int| 0 <= a < r.len() && r[a] == built[k];
        assert(shows_movement(built[k], db, db.movements@[k]));
    }
    to_multiset_len(r);
    to_multiset_len(built);
}

/// The whole history with item and user names, latest first.
pub fn list_transactions(db: &Stock) -> (r: Vec<Transaction>)
    requires
        db.wf(),
    ensures
        r@.len() == db.movements@.len(),
        forall|i: int| 0 <= i < r@.len() ==> #[trigger] shows_some_movement(r@[i], *db),
        forall|k: int|
            0 <= k < db.movements@.len() ==> #[trigger] movement_listed(r@, *db, db.movements@[k]),
        sorted_by_key(r@, |t: Transaction| history_key(t)),
{
    let ghost kf = |t: Transaction| history_key(t);
    let mut rows: Vec<Transaction> = Vec::new();
    let mut keys: Vec<Vec<i64>> = Vec::new();
    let mut i: usize = 0;
    while i < db.movements.len()
        invariant
            db.wf(),
            kf == (|t: Transaction| history_key(t)),
            i <= db.movements@.len(),
            rows@.len() == i,
            keys@.len() == i,
            forall|k: int| 0 <= k < i ==> shows_movement(#[trigger] rows@[k], *db, db.movements@[k]),
            forall|k: int| 0 <= k < i ==> (#[trigger] keys@[k])@ == kf(rows@[k]),
        decreases db.movements@.len() - i,
    {
        let t = show_movement(db, &db.movements[i]);
        let mut key: Vec<i64> = Vec::new();
        push_text_key_desc(&mut key, t.timestamp.as_str());
        key.push(0 - t.id);
        assert(key@ =~= history_key(t));
        rows.push(t);
        keys.push(key);
        i = i + 1;
    }
    let ghost built = rows@;
    let r = sort_by_keys(rows, keys, Ghost(kf));
    proof {
        lemma_reordered_history(r@, built, *db);
    }
    r
}

} // verus!

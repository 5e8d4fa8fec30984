//! The laws the services obey, proved over the same spec functions their
//! contracts are written in.
use vstd::prelude::*;

use crate::models::{CategoryView, RecordView, UpdateRecordPayload};
use crate::records::{insert_by_time_desc, merged_record, rec_lookup, sort_by_time_desc};
use crate::store::{category_in_use, has_rec_id, name_taken};
use crate::text::fold_eq;

verus! {

/// Once a category with some name is stored, every spelling of that name
/// that differs only by ASCII letter case counts as taken: a second
/// creation under such a spelling is owed a conflict.
pub proof fn lemma_case_insensitive_duplicate(
    cats: Seq<CategoryView>,
    c: CategoryView,
    other: Seq<char>,
)
    requires
        fold_eq(c.name, other),
    ensures
        name_taken(cats.push(c), other),
{
    assert(cats.push(c)[cats.len() as int] == c);
}

/// The referential guard across record deletion: removing a record never
/// creates a reference, and once the only referencing record is removed the
/// category is no longer in use, so its deletion is owed to succeed.
pub proof fn lemma_referential_guard(recs: Seq<RecordView>, i: int, cid: Seq<char>)
    requires
        0 <= i < recs.len(),
    ensures
        category_in_use(recs.remove(i), cid) ==> category_in_use(recs, cid),
        (forall|j: int| 0 <= j < recs.len() && j != i ==> recs[j].category_id != cid)
            ==> !category_in_use(recs.remove(i), cid),
{
    let rem = recs.remove(i);
    if category_in_use(rem, cid) {
        let w = choose|k: int| 0 <= k < rem.len() && rem[k].category_id == cid;
        let ow = if w < i {
            w
        } else {
            w + 1
        };
        assert(rem[w] == recs[ow]);
    }
    if forall|j: int| 0 <= j < recs.len() && j != i ==> recs[j].category_id != cid {
        assert forall|k: int| 0 <= k < rem.len() implies rem[k].category_id != cid by {
            let ok = if k < i {
                k
            } else {
                k + 1
            };
            assert(rem[k] == recs[ok]);
        }
    }
}

/// The sequence is ordered newest first.
pub open spec fn sorted_desc(s: Seq<RecordView>) -> bool {
    forall|i: int, j: int| 0 <= i <= j < s.len() ==> s[i].timestamp >= s[j].timestamp
}

proof fn lemma_insert_desc_props(s: Seq<RecordView>, r: RecordView)
    requires
        sorted_desc(s),
    ensures
        insert_by_time_desc(s, r).len() == s.len() + 1,
        sorted_desc(insert_by_time_desc(s, r)),
        insert_by_time_desc(s, r).to_multiset() == s.to_multiset().insert(r),
    decreases s.len(),
{
    broadcast use vstd::seq_lib::group_to_multiset_ensures;
    broadcast use vstd::multiset::group_multiset_axioms;

    let ins = insert_by_time_desc(s, r);
    if s.len() == 0 {
        assert(ins =~= Seq::<RecordView>::empty().push(r));
        assert(s =~= Seq::<RecordView>::empty());
    } else if s[0].timestamp >= r.timestamp {
        let df = s.drop_first();
        assert forall|i: int, j: int| 0 <= i <= j < df.len() implies df[i].timestamp
            >= df[j].timestamp by {
            assert(df[i] == s[i + 1]);
            assert(df[j] == s[j + 1]);
        }
        lemma_insert_desc_props(df, r);
        let inner = insert_by_time_desc(df, r);
        assert(ins =~= seq![s[0]] + inner);
        assert forall|i: int, j: int| 0 <= i <= j < ins.len() implies ins[i].timestamp
            >= ins[j].timestamp by {
            if i == 0 && j > 0 {
                let x = inner[j - 1];
                assert(inner.contains(x));
                assert(inner.to_multiset().count(x) > 0);
                assert(df.to_multiset().insert(r).count(x) > 0);
                if x == r {
                    assert(ins[i].timestamp >= ins[j].timestamp);
                } else {
                    assert(df.to_multiset().count(x) > 0);
                    assert(df.contains(x));
                    let m = choose|k: int| 0 <= k < df.len() && df[k] == x;
                    assert(df[m] == s[m + 1]);
                    assert(s[0].timestamp >= s[m + 1].timestamp);
                }
            } else if i > 0 {
                assert(ins[i] == inner[i - 1]);
                assert(ins[j] == inner[j - 1]);
            }
        }
        vstd::seq_lib::lemma_multiset_commutative(seq![s[0]], inner);
        vstd::seq_lib::lemma_multiset_commutative(seq![s[0]], df);
        assert(s =~= seq![s[0]] + df);
        assert(seq![s[0]].to_multiset().add(df.to_multiset().insert(r)) =~= seq![
            s[0],
        ].to_multiset().add(df.to_multiset()).insert(r));
    } else {
        assert(ins =~= seq![r] + s);
        assert forall|i: int, j: int| 0 <= i <= j < ins.len() implies ins[i].timestamp
            >= ins[j].timestamp by {
            if i == 0 && j > 0 {
                assert(ins[j] == s[j - 1]);
                assert(s[0].timestamp >= s[j - 1].timestamp);
            } else if i > 0 {
                assert(ins[i] == s[i - 1]);
                assert(ins[j] == s[j - 1]);
            }
        }
        vstd::seq_lib::lemma_multiset_commutative(seq![r], s);
        assert(seq![r].to_multiset().add(s.to_multiset()) =~= s.to_multiset().insert(r));
    }
}

/// Sorting newest first rearranges exactly the given records — same length,
/// same multiset — into an order where every earlier one is at least as
/// recent as every later one.
pub proof fn lemma_sort_desc_props(s: Seq<RecordView>)
    ensures
        sort_by_time_desc(s).len() == s.len(),
        sorted_desc(sort_by_time_desc(s)),
        sort_by_time_desc(s).to_multiset() == s.to_multiset(),
    decreases s.len(),
{
    broadcast use vstd::seq_lib::group_to_multiset_ensures;
    broadcast use vstd::multiset::group_multiset_axioms;

    if s.len() > 0 {
        let dl = s.drop_last();
        lemma_sort_desc_props(dl);
        lemma_insert_desc_props(sort_by_time_desc(dl), s.last());
        assert(dl.push(s.last()) =~= s);
        assert(dl.push(s.last()).to_multiset() =~= dl.to_multiset().insert(s.last()));
    }
}

/// With the matches ordered newest first, a cap keeps the most recent ones:
/// everything kept is at least as recent as everything cut off.
pub proof fn lemma_cap_keeps_most_recent(s: Seq<RecordView>, k: int)
    requires
        sorted_desc(s),
        0 <= k <= s.len(),
    ensures
        forall|a: int, b: int|
            0 <= a < k && k <= b < s.len() ==> s[a].timestamp >= s[b].timestamp,
{
}

/// A partial update that provides only a new amount replaces the amount and
/// leaves the name, the category reference and the timestamp — and the id —
/// byte-identical to what was stored.
pub proof fn lemma_amount_only_update(r: RecordView, amount: u64)
    ensures
        ({
            let p = (UpdateRecordPayload {
                name: None,
                amount: Some(amount),
                category_id: None,
                timestamp: None,
            });
            let m = merged_record(r, p);
            m.id == r.id && m.name == r.name && m.category_id == r.category_id && m.timestamp
                == r.timestamp && m.amount == amount
        }),
{
}

/// Round trip: a record created under a fresh id is found again by that id,
/// every field byte-identical to what was stored.
pub proof fn lemma_create_then_fetch(recs: Seq<RecordView>, r: RecordView)
    requires
        !has_rec_id(recs, r.id),
    ensures
        rec_lookup(recs.push(r), r.id) == Some(r),
    decreases recs.len(),
{
    let p = recs.push(r);
    if recs.len() == 0 {
        assert(p[0] == r);
    } else {
        assert(p[0] == recs[0]);
        assert(recs[0].id != r.id);
        let dr = recs.drop_first();
        assert forall|k: int| 0 <= k < dr.len() implies dr[k].id != r.id by {
            assert(dr[k] == recs[k + 1]);
        }
        assert(!has_rec_id(dr, r.id));
        lemma_create_then_fetch(dr, r);
        assert(p.drop_first() =~= dr.push(r));
    }
}

} // verus!

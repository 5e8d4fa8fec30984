//! The per-user store: one isolated unit holding that user's categories and
//! records, with the invariants the services rely on — unique ids, category
//! names unique up to letter case, and no record referencing a missing
//! category.
use vstd::prelude::*;

use crate::models::{Category, CategoryView, Record, RecordView};
use crate::text::{fold_eq, str_eq, str_fold_eq};

verus! {

/// The views of a sequence of stored categories.
pub open spec fn cats_view(v: Seq<Category>) -> Seq<CategoryView> {
    v.map_values(|c: Category| c@)
}

/// The views of a sequence of stored records.
pub open spec fn recs_view(v: Seq<Record>) -> Seq<RecordView> {
    v.map_values(|r: Record| r@)
}

/// One user's isolated store.
pub struct Store {
    pub categories: Vec<Category>,
    pub records: Vec<Record>,
}

/// The view of a store: its categories and records in insertion order.
pub struct StoreView {
    pub categories: Seq<CategoryView>,
    pub records: Seq<RecordView>,
}

impl View for Store {
    type V = StoreView;

    open spec fn view(&self) -> StoreView {
        StoreView { categories: cats_view(self.categories@), records: recs_view(self.records@) }
    }
}

/// No two categories share an id.
pub open spec fn cat_ids_unique(cats: Seq<CategoryView>) -> bool {
    forall|i: int, j: int| 0 <= i < j < cats.len() ==> cats[i].id != cats[j].id
}

/// No two categories share a name, even up to ASCII letter case.
pub open spec fn cat_names_fold_unique(cats: Seq<CategoryView>) -> bool {
    forall|i: int, j: int| 0 <= i < j < cats.len() ==> !fold_eq(cats[i].name, cats[j].name)
}

/// No two records share an id.
pub open spec fn rec_ids_unique(recs: Seq<RecordView>) -> bool {
    forall|i: int, j: int| 0 <= i < j < recs.len() ==> recs[i].id != recs[j].id
}

/// Some category carries this id.
pub open spec fn has_cat_id(cats: Seq<CategoryView>, id: Seq<char>) -> bool {
    exists|i: int| 0 <= i < cats.len() && cats[i].id == id
}

/// Some record carries this id.
pub open spec fn has_rec_id(recs: Seq<RecordView>, id: Seq<char>) -> bool {
    exists|i: int| 0 <= i < recs.len() && recs[i].id == id
}

/// Some category already carries this name, up to ASCII letter case.
pub open spec fn name_taken(cats: Seq<CategoryView>, name: Seq<char>) -> bool {
    exists|i: int| 0 <= i < cats.len() && fold_eq(cats[i].name, name)
}

/// Some category other than the one named carries this name, up to ASCII
/// letter case.
pub open spec fn name_taken_excluding(cats: Seq<CategoryView>, name: Seq<char>, id: Seq<char>) -> bool {
    exists|i: int| 0 <= i < cats.len() && fold_eq(cats[i].name, name) && cats[i].id != id
}

/// Some record references this category.
pub open spec fn category_in_use(recs: Seq<RecordView>, cid: Seq<char>) -> bool {
    exists|i: int| 0 <= i < recs.len() && recs[i].category_id == cid
}

/// Every record references a category that exists.
pub open spec fn refs_ok(s: StoreView) -> bool {
    forall|i: int| 0 <= i < s.records.len() ==> has_cat_id(s.categories, #[trigger] s.records[i].category_id)
}

/// The store invariant: unique ids on both tables, category names unique up
/// to letter case, referential integrity, and counts that fit the wire
/// format's 32-bit totals.
pub open spec fn store_wf(s: StoreView) -> bool {
    &&& cat_ids_unique(s.categories)
    &&& cat_names_fold_unique(s.categories)
    &&& rec_ids_unique(s.records)
    &&& refs_ok(s)
    &&& s.categories.len() <= 0xFFFF_FFFF
    &&& s.records.len() <= 0xFFFF_FFFF
}

impl Store {
    /// A freshly provisioned store: both tables empty.
    pub fn new() -> (s: Store)
        ensures
            s@.categories.len() == 0,
            s@.records.len() == 0,
            store_wf(s@),
    {
        Store { categories: Vec::new(), records: Vec::new() }
    }
}

/// Finds the position of the category carrying an id.
pub fn find_category_index(categories: &Vec<Category>, id: &str) -> (r: Option<usize>)
    ensures
        match r {
            Some(i) => i < categories@.len() && cats_view(categories@)[i as int].id == id@,
            None => !has_cat_id(cats_view(categories@), id@),
        },
{
    let mut i: usize = 0;
    while i < categories.len()
        invariant
            0 <= i <= categories@.len(),
            forall|k: int| 0 <= k < i ==> cats_view(categories@)[k].id != id@,
        decreases categories@.len() - i,
    {
        if str_eq(categories[i].id.as_str(), id) {
            return Some(i);
        }
        i = i + 1;
    }
    None
}

/// Finds a category whose name equals the given one up to ASCII letter case.
pub fn find_fold_name_index(categories: &Vec<Category>, name: &str) -> (r: Option<usize>)
    ensures
        match r {
            Some(i) => i < categories@.len() && fold_eq(
                cats_view(categories@)[i as int].name,
                name@,
            ),
            None => !name_taken(cats_view(categories@), name@),
        },
{
    let mut i: usize = 0;
    while i < categories.len()
        invariant
            0 <= i <= categories@.len(),
            forall|k: int| 0 <= k < i ==> !fold_eq(cats_view(categories@)[k].name, name@),
        decreases categories@.len() - i,
    {
        if str_fold_eq(categories[i].name.as_str(), name) {
            return Some(i);
        }
        i = i + 1;
    }
    None
}

/// Finds a category, other than the one with the given id, whose name equals
/// the given one up to ASCII letter case.
pub fn find_fold_name_index_excluding(categories: &Vec<Category>, name: &str, id: &str) -> (r:
    Option<usize>)
    ensures
        match r {
            Some(i) => i < categories@.len() && fold_eq(
                cats_view(categories@)[i as int].name,
                name@,
            ) && cats_view(categories@)[i as int].id != id@,
            None => !name_taken_excluding(cats_view(categories@), name@, id@),
        },
{
    let mut i: usize = 0;
    while i < categories.len()
        invariant
            0 <= i <= categories@.len(),
            forall|k: int|
                0 <= k < i ==> !(fold_eq(cats_view(categories@)[k].name, name@) && cats_view(
                    categories@,
                )[k].id != id@),
        decreases categories@.len() - i,
    {
        if str_fold_eq(categories[i].name.as_str(), name) && !str_eq(
            categories[i].id.as_str(),
            id,
        ) {
            return Some(i);
        }
        i = i + 1;
    }
    None
}

/// Finds the position of the record carrying an id.
pub fn find_record_index(records: &Vec<Record>, id: &str) -> (r: Option<usize>)
    ensures
        match r {
            Some(i) => i < records@.len() && recs_view(records@)[i as int].id == id@,
            None => !has_rec_id(recs_view(records@), id@),
        },
{
    let mut i: usize = 0;
    while i < records.len()
        invariant
            0 <= i <= records@.len(),
            forall|k: int| 0 <= k < i ==> recs_view(records@)[k].id != id@,
        decreases records@.len() - i,
    {
        if str_eq(records[i].id.as_str(), id) {
            return Some(i);
        }
        i = i + 1;
    }
    None
}

/// Does any record reference this category?
pub fn any_record_references(records: &Vec<Record>, cid: &str) -> (r: bool)
    ensures
        r == category_in_use(recs_view(records@), cid@),
{
    let mut i: usize = 0;
    while i < records.len()
        invariant
            0 <= i <= records@.len(),
            forall|k: int| 0 <= k < i ==> recs_view(records@)[k].category_id != cid@,
        decreases records@.len() - i,
    {
        if str_eq(records[i].category_id.as_str(), cid) {
            proof {
                assert(recs_view(records@)[i as int].category_id == cid@);
            }
            return true;
        }
        i = i + 1;
    }
    false
}

/// The page of a listing: `limit` elements starting at `offset`, clipped to
/// the end of the sequence.
pub open spec fn page_seq<T>(s: Seq<T>, offset: int, limit: int) -> Seq<T> {
    if offset >= s.len() {
        Seq::empty()
    } else if offset + limit <= s.len() {
        s.subrange(offset, offset + limit)
    } else {
        s.subrange(offset, s.len() as int)
    }
}

} // verus!

//! The category service: create, list (search, sort, paginate), rename and
//! delete, under case-insensitive name uniqueness and the referential guard.
use vstd::prelude::*;

use crate::constants::{MAX_CATEGORY_NAME_LENGTH, MAX_LIMIT, MAX_OFFSET, MAX_SEARCH_TERM_LENGTH};
use crate::errors::{api_error, db_error_with_context, ApiError, ErrorKind};
use crate::models::{Category, CategoryView, CreateCategoryPayload, GetCategoriesQuery,
    GetCategoriesResponse, UpdateCategoryPayload};
use crate::store::{any_record_references, cats_view, category_in_use, find_category_index,
    find_fold_name_index, find_fold_name_index_excluding, has_cat_id, name_taken,
    name_taken_excluding, page_seq, store_wf, Store};
use crate::text::{contains_fold, fold_eq, lex_leq, str_contains_fold, str_leq, trim_spec,
    trim_str};
use crate::utils::{validate_offset, validate_categories_limit, validate_string_length,
    string_length_ok};
use crate::wrappers::fresh_uuid;

verus! {

/// Checks a category name: non-empty after trimming, at most 100 characters.
pub fn validate_category_name(name: &str) -> (r: Result<(), ApiError>)
    ensures
        r is Ok <==> string_length_ok(name@, MAX_CATEGORY_NAME_LENGTH as int),
        r matches Err(e) ==> e.kind == ErrorKind::BadInput,
        trim_spec(name@).len() == 0 ==> (r matches Err(e) && e.message@
            == "Category name cannot be empty"@),
        trim_spec(name@).len() > MAX_CATEGORY_NAME_LENGTH ==> (r matches Err(e) && e.message@
            == "Category name must be less than 100 characters"@),
{
    proof {
        reveal_strlit("Category name");
        reveal_strlit(" cannot be empty");
        reveal_strlit("Category name cannot be empty");
        assert("Category name"@ + " cannot be empty"@ =~= "Category name cannot be empty"@);
        reveal_strlit(" must be less than ");
        reveal_strlit(" characters");
        reveal_strlit("Category name must be less than 100 characters");
        assert(crate::text::dec_digits(1) =~= seq!['1']);
        assert(crate::text::dec_digits(10) =~= crate::text::dec_digits(1) + seq!['0']);
        assert(crate::text::dec_digits(100) =~= crate::text::dec_digits(10) + seq!['0']);
        assert("Category name"@ + " must be less than "@ + crate::text::dec_digits(
            MAX_CATEGORY_NAME_LENGTH as int,
        ) + " characters"@ =~= "Category name must be less than 100 characters"@);
    }
    validate_string_length(name, "Category name", MAX_CATEGORY_NAME_LENGTH)
}

/// Succeeds exactly when no record of the store references the category.
pub fn validate_category_not_in_use(store: &Store, category_id: &str) -> (r: Result<(), ApiError>)
    ensures
        r is Ok <==> !category_in_use(store@.records, category_id@),
        r matches Err(e) ==> e.kind == ErrorKind::Conflict && e.message@
            == "Cannot delete category: it has associated records"@,
{
    if any_record_references(&store.records, category_id) {
        Err(api_error(ErrorKind::Conflict, "Cannot delete category: it has associated records"))
    } else {
        Ok(())
    }
}

/// Creates a category under a caller-supplied fresh id. Fails with
/// `BadInput` on an invalid name, with `Conflict` when the trimmed name is
/// already taken up to letter case, and with `Internal` when the id
/// collides or the store is full; otherwise appends the category.
pub fn create_category_with(store: &mut Store, name: &str, id: String) -> (r: Result<
    Category,
    ApiError,
>)
    requires
        store_wf(old(store)@),
    ensures
        store_wf(final(store)@),
        !string_length_ok(name@, MAX_CATEGORY_NAME_LENGTH as int) ==> (r matches Err(e)
            && e.kind == ErrorKind::BadInput && final(store)@ == old(store)@ && (trim_spec(
            name@,
        ).len() == 0 ==> e.message@ == "Category name cannot be empty"@) && (trim_spec(
            name@,
        ).len() > MAX_CATEGORY_NAME_LENGTH ==> e.message@
            == "Category name must be less than 100 characters"@)),
        string_length_ok(name@, MAX_CATEGORY_NAME_LENGTH as int) && name_taken(
            old(store)@.categories,
            trim_spec(name@),
        ) ==> (r matches Err(e) && e.kind == ErrorKind::Conflict && e.message@
            == "Category name already exists (case-insensitive)"@ && final(store)@ == old(store)@),
        string_length_ok(name@, MAX_CATEGORY_NAME_LENGTH as int) && !name_taken(
            old(store)@.categories,
            trim_spec(name@),
        ) && (has_cat_id(old(store)@.categories, id@) || old(store)@.categories.len()
            >= 0xFFFF_FFFF) ==> (r matches Err(e) && e.kind == ErrorKind::Internal && final(store)@ == old(store)@),
        string_length_ok(name@, MAX_CATEGORY_NAME_LENGTH as int) && !name_taken(
            old(store)@.categories,
            trim_spec(name@),
        ) && !has_cat_id(old(store)@.categories, id@) && old(store)@.categories.len() < 0xFFFF_FFFF
            ==> (r matches Ok(c) && c@ == (CategoryView { id: id@, name: trim_spec(name@) })
            && final(store)@.categories == old(store)@.categories.push(
            CategoryView { id: id@, name: trim_spec(name@) },
        ) && final(store)@.records == old(store)@.records),
{
    if let Err(e) = validate_category_name(name) {
        return Err(e);
    }
    let trimmed = trim_str(name);
    if let Some(_) = find_fold_name_index(&store.categories, trimmed.as_str()) {
        return Err(api_error(ErrorKind::Conflict, "Category name already exists (case-insensitive)"));
    }
    if store.categories.len() >= 0xFFFF_FFFFusize {
        return Err(db_error_with_context("category creation failed"));
    }
    if let Some(_) = find_category_index(&store.categories, id.as_str()) {
        return Err(db_error_with_context("category creation failed"));
    }
    let ghost old_cats = cats_view(store.categories@);
    let ghost old_recs = store@.records;
    let cat = Category { id, name: trimmed };
    let ghost cv = cat@;
    let result = Category { id: cat.id.clone(), name: cat.name.clone() };
    store.categories.push(cat);
    proof {
        assert(cats_view(store.categories@) =~= old_cats.push(cv));
        let new_cats = old_cats.push(cv);
        assert forall|i: int, j: int| 0 <= i < j < new_cats.len() implies new_cats[i].id
            != new_cats[j].id by {
            if j == new_cats.len() - 1 {
                assert(new_cats[i] == old_cats[i]);
            }
        }
        assert forall|i: int, j: int| 0 <= i < j < new_cats.len() implies !fold_eq(
            new_cats[i].name,
            new_cats[j].name,
        ) by {
            if j == new_cats.len() - 1 {
                assert(new_cats[i] == old_cats[i]);
            }
        }
        assert forall|i: int| 0 <= i < old_recs.len() implies has_cat_id(
            new_cats,
            #[trigger] old_recs[i].category_id,
        ) by {
            let w = choose|k: int|
                0 <= k < old_cats.len() && old_cats[k].id == old_recs[i].category_id;
            assert(new_cats[w].id == old_recs[i].category_id);
        }
    }
    Ok(result)
}

/// Creates a category under a freshly generated opaque id.
pub fn create_category(store: &mut Store, payload: &CreateCategoryPayload) -> (r: Result<
    Category,
    ApiError,
>)
    requires
        store_wf(old(store)@),
    ensures
        store_wf(final(store)@),
        !string_length_ok(payload.name@, MAX_CATEGORY_NAME_LENGTH as int) ==> (r matches Err(e)
            && e.kind == ErrorKind::BadInput && final(store)@ == old(store)@ && (trim_spec(
            payload.name@,
        ).len() == 0 ==> e.message@ == "Category name cannot be empty"@) && (trim_spec(
            payload.name@,
        ).len() > MAX_CATEGORY_NAME_LENGTH ==> e.message@
            == "Category name must be less than 100 characters"@)),
        string_length_ok(payload.name@, MAX_CATEGORY_NAME_LENGTH as int) && name_taken(
            old(store)@.categories,
            trim_spec(payload.name@),
        ) ==> (r matches Err(e) && e.kind == ErrorKind::Conflict && e.message@
            == "Category name already exists (case-insensitive)"@ && final(store)@ == old(
            store,
        )@),
        string_length_ok(payload.name@, MAX_CATEGORY_NAME_LENGTH as int) && !name_taken(
            old(store)@.categories,
            trim_spec(payload.name@),
        ) ==> ((r matches Ok(c) && c@.name == trim_spec(payload.name@) && !has_cat_id(
            old(store)@.categories,
            c@.id,
        ) && final(store)@.categories == old(store)@.categories.push(c@) && final(store)@.records
            == old(store)@.records) || (r matches Err(e) && e.kind == ErrorKind::Internal && final(store)@ == old(store)@)),
{
    let id = fresh_uuid();
    create_category_with(store, payload.name.as_str(), id)
}

/// Renames a category. Requires a name, validates it, fails with `NotFound`
/// when the id is absent and with `Conflict` when the new name collides with
/// a different category; renaming a category to its own name is allowed.
pub fn update_category(store: &mut Store, category_id: &str, payload: &UpdateCategoryPayload) -> (r:
    Result<Category, ApiError>)
    requires
        store_wf(old(store)@),
    ensures
        store_wf(final(store)@),
        payload.name is None ==> (r matches Err(e) && e.kind == ErrorKind::BadInput && e.message@
            == "Category name is required for update"@ && final(store)@ == old(store)@),
        payload.name matches Some(n) && !string_length_ok(n@, MAX_CATEGORY_NAME_LENGTH as int)
            ==> (r matches Err(e) && e.kind == ErrorKind::BadInput && final(store)@ == old(store)@),
        payload.name matches Some(n) ==> ((trim_spec(n@).len() == 0 ==> (r matches Err(e)
            && e.message@ == "Category name cannot be empty"@)) && (trim_spec(n@).len()
            > MAX_CATEGORY_NAME_LENGTH ==> (r matches Err(e) && e.message@
            == "Category name must be less than 100 characters"@))),
        payload.name matches Some(n) && string_length_ok(n@, MAX_CATEGORY_NAME_LENGTH as int)
            && !has_cat_id(old(store)@.categories, category_id@) ==> (r matches Err(e) && e.kind
            == ErrorKind::NotFound && e.message@ == "Category not found"@ && final(store)@ == old(store)@),
        payload.name matches Some(n) && string_length_ok(n@, MAX_CATEGORY_NAME_LENGTH as int)
            && has_cat_id(old(store)@.categories, category_id@) && name_taken_excluding(
            old(store)@.categories,
            trim_spec(n@),
            category_id@,
        ) ==> (r matches Err(e) && e.kind == ErrorKind::Conflict && e.message@
            == "Category name already exists (case-insensitive)"@ && final(store)@ == old(store)@),
        payload.name matches Some(n) ==> (string_length_ok(n@, MAX_CATEGORY_NAME_LENGTH as int)
            && has_cat_id(old(store)@.categories, category_id@) && !name_taken_excluding(
            old(store)@.categories,
            trim_spec(n@),
            category_id@,
        ) ==> (r matches Ok(c) && c@ == (CategoryView { id: category_id@, name: trim_spec(n@) })
            && (exists|i: int|
            0 <= i < old(store)@.categories.len() && old(store)@.categories[i].id == category_id@
                && final(store)@.categories == old(store)@.categories.update(
                i,
                CategoryView { id: category_id@, name: trim_spec(n@) },
            )) && final(store)@.records == old(store)@.records)),
{
    let name = match &payload.name {
        Some(n) => n,
        None => {
            return Err(api_error(ErrorKind::BadInput, "Category name is required for update"));
        },
    };
    if let Err(e) = validate_category_name(name.as_str()) {
        return Err(e);
    }
    let trimmed = trim_str(name.as_str());
    let idx = match find_category_index(&store.categories, category_id) {
        Some(i) => i,
        None => {
            return Err(api_error(ErrorKind::NotFound, "Category not found"));
        },
    };
    if let Some(_) = find_fold_name_index_excluding(&store.categories, trimmed.as_str(), category_id) {
        return Err(api_error(ErrorKind::Conflict, "Category name already exists (case-insensitive)"));
    }
    let ghost old_cats = cats_view(store.categories@);
    let ghost old_recs = store@.records;
    let new_cat = Category { id: category_id.to_owned(), name: trimmed };
    let ghost cv = new_cat@;
    let result = Category { id: new_cat.id.clone(), name: new_cat.name.clone() };
    store.categories.set(idx, new_cat);
    proof {
        assert(cats_view(store.categories@) =~= old_cats.update(idx as int, cv));
        let new_cats = old_cats.update(idx as int, cv);
        assert(old_cats[idx as int].id == category_id@);
        assert forall|i: int, j: int| 0 <= i < j < new_cats.len() implies new_cats[i].id
            != new_cats[j].id by {
            assert(old_cats[i].id != old_cats[j].id);
        }
        assert forall|i: int, j: int| 0 <= i < j < new_cats.len() implies !fold_eq(
            new_cats[i].name,
            new_cats[j].name,
        ) by {
            if i == idx as int {
                if fold_eq(new_cats[i].name, new_cats[j].name) {
                    assert(fold_eq(old_cats[j].name, trim_spec(name@)));
                    assert(old_cats[j].id != category_id@);
                    assert(name_taken_excluding(old_cats, trim_spec(name@), category_id@));
                }
            } else if j == idx as int {
                if fold_eq(new_cats[i].name, new_cats[j].name) {
                    assert(fold_eq(old_cats[i].name, trim_spec(name@)));
                    assert(old_cats[i].id != category_id@);
                    assert(name_taken_excluding(old_cats, trim_spec(name@), category_id@));
                }
            } else {
                assert(!fold_eq(old_cats[i].name, old_cats[j].name));
            }
        }
        assert forall|i: int| 0 <= i < old_recs.len() implies has_cat_id(
            new_cats,
            #[trigger] old_recs[i].category_id,
        ) by {
            let w = choose|k: int|
                0 <= k < old_cats.len() && old_cats[k].id == old_recs[i].category_id;
            assert(new_cats[w].id == old_cats[w].id);
        }
    }
    Ok(result)
}

/// Inserts a category into a sequence sorted by name, keeping earlier
/// entries ahead of later ones when names compare equal.
pub open spec fn insert_by_name(s: Seq<CategoryView>, c: CategoryView) -> Seq<CategoryView>
    decreases s.len(),
{
    if s.len() == 0 {
        seq![c]
    } else if lex_leq(s[0].name, c.name) {
        seq![s[0]] + insert_by_name(s.drop_first(), c)
    } else {
        seq![c] + s
    }
}

/// The categories rearranged in ascending name order (stable).
pub open spec fn sort_by_name(s: Seq<CategoryView>) -> Seq<CategoryView>
    decreases s.len(),
{
    if s.len() == 0 {
        Seq::empty()
    } else {
        insert_by_name(sort_by_name(s.drop_last()), s.last())
    }
}

/// The categories whose name contains the search term, ignoring ASCII
/// letter case, in their original order.
pub open spec fn filter_by_search(s: Seq<CategoryView>, needle: Seq<char>) -> Seq<CategoryView>
    decreases s.len(),
{
    if s.len() == 0 {
        Seq::empty()
    } else {
        let rest = filter_by_search(s.drop_last(), needle);
        if contains_fold(s.last().name, needle) {
            rest.push(s.last())
        } else {
            rest
        }
    }
}

/// The search term a listing actually filters by: the trimmed term, or none
/// when the query carries none or only whitespace.
pub open spec fn resolved_search(q: Option<Seq<char>>) -> Option<Seq<char>> {
    match q {
        None => None,
        Some(s) => if trim_spec(s).len() == 0 {
            None
        } else {
            Some(trim_spec(s))
        },
    }
}

/// What a category listing answers: the page of the sorted filtered
/// categories, and the full filtered count.
pub open spec fn categories_listing(
    cats: Seq<CategoryView>,
    search: Option<Seq<char>>,
    limit: int,
    offset: int,
) -> (Seq<CategoryView>, int) {
    let filtered = match search {
        Some(n) => filter_by_search(cats, n),
        None => cats,
    };
    (page_seq(sort_by_name(filtered), offset, limit), filtered.len() as int)
}

proof fn lemma_filter_by_search_len(s: Seq<CategoryView>, needle: Seq<char>)
    ensures
        filter_by_search(s, needle).len() <= s.len(),
    decreases s.len(),
{
    if s.len() > 0 {
        lemma_filter_by_search_len(s.drop_last(), needle);
    }
}

proof fn lemma_insert_by_name_at(s: Seq<CategoryView>, c: CategoryView, j: int)
    requires
        0 <= j <= s.len(),
        forall|k: int| 0 <= k < j ==> lex_leq(s[k].name, c.name),
        j < s.len() ==> !lex_leq(s[j].name, c.name),
    ensures
        insert_by_name(s, c) == s.take(j) + seq![c] + s.skip(j),
    decreases j,
{
    if j == 0 {
        if s.len() == 0 {
            assert(insert_by_name(s, c) =~= s.take(0) + seq![c] + s.skip(0));
        } else {
            assert(!lex_leq(s[0].name, c.name));
            assert(insert_by_name(s, c) =~= s.take(0) + seq![c] + s.skip(0));
        }
    } else {
        assert(lex_leq(s[0].name, c.name));
        let t = s.drop_first();
        assert forall|k: int| 0 <= k < j - 1 implies lex_leq(t[k].name, c.name) by {
            assert(t[k] == s[k + 1]);
        }
        if j - 1 < t.len() {
            assert(t[j - 1] == s[j]);
        }
        lemma_insert_by_name_at(t, c, j - 1);
        assert(seq![s[0]] + (t.take(j - 1) + seq![c] + t.skip(j - 1)) =~= s.take(j) + seq![c]
            + s.skip(j));
    }
}

fn insert_category_sorted(out: &mut Vec<Category>, c: Category)
    ensures
        cats_view(final(out)@) == insert_by_name(cats_view(old(out)@), c@),
{
    let mut j: usize = 0;
    while j < out.len() && str_leq(out[j].name.as_str(), c.name.as_str())
        invariant
            0 <= j <= out@.len(),
            forall|k: int| 0 <= k < j ==> lex_leq(cats_view(out@)[k].name, c@.name),
        decreases out@.len() - j,
    {
        j = j + 1;
    }
    proof {
        lemma_insert_by_name_at(cats_view(out@), c@, j as int);
    }
    let ghost old_view = cats_view(out@);
    out.insert(j, c);
    proof {
        assert(cats_view(out@) =~= old_view.take(j as int) + seq![c@] + old_view.skip(j as int));
    }
}

fn sort_categories(v: &Vec<Category>) -> (out: Vec<Category>)
    ensures
        cats_view(out@) == sort_by_name(cats_view(v@)),
{
    let mut out: Vec<Category> = Vec::new();
    let mut i: usize = 0;
    while i < v.len()
        invariant
            0 <= i <= v@.len(),
            cats_view(out@) == sort_by_name(cats_view(v@).take(i as int)),
        decreases v@.len() - i,
    {
        let c = Category { id: v[i].id.clone(), name: v[i].name.clone() };
        proof {
            let full = cats_view(v@);
            assert(c@ == full[i as int]);
            assert(full.take(i + 1).drop_last() =~= full.take(i as int));
            assert(full.take(i + 1).last() == full[i as int]);
        }
        insert_category_sorted(&mut out, c);
        i = i + 1;
    }
    proof {
        assert(cats_view(v@).take(v@.len() as int) =~= cats_view(v@));
    }
    out
}

fn filter_categories(v: &Vec<Category>, needle: &str) -> (out: Vec<Category>)
    ensures
        cats_view(out@) == filter_by_search(cats_view(v@), needle@),
{
    let mut out: Vec<Category> = Vec::new();
    let mut i: usize = 0;
    while i < v.len()
        invariant
            0 <= i <= v@.len(),
            cats_view(out@) == filter_by_search(cats_view(v@).take(i as int), needle@),
        decreases v@.len() - i,
    {
        proof {
            let full = cats_view(v@);
            assert(full.take(i + 1).drop_last() =~= full.take(i as int));
            assert(full.take(i + 1).last() == full[i as int]);
        }
        if str_contains_fold(v[i].name.as_str(), needle) {
            let c = Category { id: v[i].id.clone(), name: v[i].name.clone() };
            let ghost old_view = cats_view(out@);
            out.push(c);
            proof {
                assert(cats_view(out@) =~= old_view.push(cats_view(v@)[i as int]));
            }
        }
        i = i + 1;
    }
    proof {
        assert(cats_view(v@).take(v@.len() as int) =~= cats_view(v@));
    }
    out
}

fn page_categories(v: &Vec<Category>, offset: usize, limit: usize) -> (out: Vec<Category>)
    ensures
        cats_view(out@) == page_seq(cats_view(v@), offset as int, limit as int),
{
    let mut out: Vec<Category> = Vec::new();
    let mut i: usize = offset;
    while i < v.len() && i - offset < limit
        invariant
            offset <= i,
            out@.len() == i - offset,
            i - offset <= limit,
            offset <= v@.len() ==> i <= v@.len() && cats_view(out@) =~= cats_view(v@).subrange(
                offset as int,
                i as int,
            ),
            offset > v@.len() ==> i == offset,
        decreases v@.len() + limit - i,
    {
        let c = Category { id: v[i].id.clone(), name: v[i].name.clone() };
        let ghost old_view = cats_view(out@);
        out.push(c);
        proof {
            assert(cats_view(out@) =~= old_view.push(cats_view(v@)[i as int]));
            assert(cats_view(v@).subrange(offset as int, i + 1) =~= cats_view(v@).subrange(
                offset as int,
                i as int,
            ).push(cats_view(v@)[i as int]));
        }
        i = i + 1;
    }
    proof {
        if offset >= v@.len() {
            assert(cats_view(out@) =~= page_seq(cats_view(v@), offset as int, limit as int));
        } else {
            assert(cats_view(out@) =~= page_seq(cats_view(v@), offset as int, limit as int));
        }
    }
    out
}

/// Lists categories: optionally filtered by a case-insensitive substring
/// search on the name, ordered by name ascending, paginated, with the total
/// filtered count reported irrespective of the page.
pub fn get_categories(store: &Store, query: &GetCategoriesQuery) -> (r: Result<
    GetCategoriesResponse,
    ApiError,
>)
    requires
        store_wf(store@),
    ensures
        query.limit matches Some(l) ==> ((l == 0 || l > MAX_LIMIT) ==> (r matches Err(e)
            && e.kind == ErrorKind::BadInput && (l == 0 ==> e.message@
            == "Limit must be greater than 0"@) && (l > MAX_LIMIT ==> e.message@
            == "Limit cannot exceed 1000"@))),
        !(query.limit matches Some(l) && (l == 0 || l > MAX_LIMIT)) && (query.offset matches Some(
            o,
        ) && o > MAX_OFFSET) ==> (r matches Err(e) && e.kind == ErrorKind::BadInput && e.message@
            == "Offset cannot exceed 1000000"@),
        !(query.limit matches Some(l) && (l == 0 || l > MAX_LIMIT)) && !(query.offset matches Some(
            o,
        ) && o > MAX_OFFSET) && (resolved_search(query.search.deep_view()) matches Some(t)
            && t.len() > MAX_SEARCH_TERM_LENGTH) ==> (r matches Err(e) && e.kind
            == ErrorKind::BadInput && e.message@
            == "Search term must be less than 100 characters"@),
        !(query.limit matches Some(l) && (l == 0 || l > MAX_LIMIT)) && !(query.offset matches Some(
            o,
        ) && o > MAX_OFFSET) && !(resolved_search(query.search.deep_view()) matches Some(t)
            && t.len() > MAX_SEARCH_TERM_LENGTH) ==> (r matches Ok(resp) && {
            let limit = match query.limit {
                Some(l) => l,
                None => crate::constants::DEFAULT_CATEGORIES_LIMIT,
            };
            let offset = match query.offset {
                Some(o) => o,
                None => 0u32,
            };
            let listing = categories_listing(
                store@.categories,
                resolved_search(query.search.deep_view()),
                limit as int,
                offset as int,
            );
            resp.limit == limit && resp.offset == offset && cats_view(resp.categories@)
                == listing.0 && resp.total_count == listing.1
        }),
{
    let limit = match validate_categories_limit(query.limit) {
        Ok(l) => l,
        Err(e) => {
            return Err(e);
        },
    };
    let offset = match validate_offset(query.offset) {
        Ok(o) => o,
        Err(e) => {
            return Err(e);
        },
    };
    let mut search_term: Option<String> = None;
    match &query.search {
        Some(s) => {
            let t = trim_str(s.as_str());
            if t.as_str().unicode_len() > 0 {
                proof {
                    reveal_strlit("Search term");
                    reveal_strlit(" must be less than ");
                    reveal_strlit(" characters");
                    reveal_strlit("Search term must be less than 100 characters");
                    assert(crate::text::dec_digits(1) =~= seq!['1']);
                    assert(crate::text::dec_digits(10) =~= crate::text::dec_digits(1) + seq!['0']);
                    assert(crate::text::dec_digits(100) =~= crate::text::dec_digits(10)
                        + seq!['0']);
                    assert("Search term"@ + " must be less than "@ + crate::text::dec_digits(
                        MAX_SEARCH_TERM_LENGTH as int,
                    ) + " characters"@ =~= "Search term must be less than 100 characters"@);
                }
                if let Err(e) = validate_string_length(
                    s.as_str(),
                    "Search term",
                    MAX_SEARCH_TERM_LENGTH,
                ) {
                    return Err(e);
                }
                search_term = Some(t);
            }
        },
        None => {},
    }
    let (sorted, total): (Vec<Category>, usize) = match &search_term {
        Some(t) => {
            let f = filter_categories(&store.categories, t.as_str());
            proof {
                lemma_filter_by_search_len(cats_view(store.categories@), t@);
            }
            let tot = f.len();
            (sort_categories(&f), tot)
        },
        None => (sort_categories(&store.categories), store.categories.len()),
    };
    let page = page_categories(&sorted, offset as usize, limit as usize);
    Ok(
        GetCategoriesResponse {
            categories: page,
            total_count: total as u32,
            limit,
            offset,
        },
    )
}

/// Deletes a category. Fails with `NotFound` when the id is absent and with
/// `Conflict` while any record still references it.
pub fn delete_category(store: &mut Store, category_id: &str) -> (r: Result<(), ApiError>)
    requires
        store_wf(old(store)@),
    ensures
        store_wf(final(store)@),
        !has_cat_id(old(store)@.categories, category_id@) ==> (r matches Err(e) && e.kind
            == ErrorKind::NotFound && e.message@ == "Category not found"@ && final(store)@ == old(store)@),
        has_cat_id(old(store)@.categories, category_id@) && category_in_use(
            old(store)@.records,
            category_id@,
        ) ==> (r matches Err(e) && e.kind == ErrorKind::Conflict && e.message@
            == "Cannot delete category: it has associated records"@ && final(store)@ == old(store)@),
        has_cat_id(old(store)@.categories, category_id@) && !category_in_use(
            old(store)@.records,
            category_id@,
        ) ==> (r is Ok && (exists|i: int|
            0 <= i < old(store)@.categories.len() && old(store)@.categories[i].id == category_id@
                && final(store)@.categories == old(store)@.categories.remove(i)) && final(store)@.records == old(store)@.records),
{
    let idx = match find_category_index(&store.categories, category_id) {
        Some(i) => i,
        None => {
            return Err(api_error(ErrorKind::NotFound, "Category not found"));
        },
    };
    if let Err(e) = validate_category_not_in_use(store, category_id) {
        return Err(e);
    }
    let ghost old_cats = cats_view(store.categories@);
    let ghost old_recs = store@.records;
    store.categories.remove(idx);
    proof {
        assert(cats_view(store.categories@) =~= old_cats.remove(idx as int));
        let new_cats = old_cats.remove(idx as int);
        assert forall|i: int, j: int| 0 <= i < j < new_cats.len() implies new_cats[i].id
            != new_cats[j].id by {
            let oi = if i < idx as int { i } else { i + 1 };
            let oj = if j < idx as int { j } else { j + 1 };
            assert(new_cats[i] == old_cats[oi]);
            assert(new_cats[j] == old_cats[oj]);
        }
        assert forall|i: int, j: int| 0 <= i < j < new_cats.len() implies !fold_eq(
            new_cats[i].name,
            new_cats[j].name,
        ) by {
            let oi = if i < idx as int { i } else { i + 1 };
            let oj = if j < idx as int { j } else { j + 1 };
            assert(new_cats[i] == old_cats[oi]);
            assert(new_cats[j] == old_cats[oj]);
        }
        assert forall|i: int| 0 <= i < old_recs.len() implies has_cat_id(
            new_cats,
            #[trigger] old_recs[i].category_id,
        ) by {
            let w = choose|k: int|
                0 <= k < old_cats.len() && old_cats[k].id == old_recs[i].category_id;
            assert(old_recs[i].category_id != category_id@);
            assert(old_cats[idx as int].id == category_id@);
            assert(w != idx as int);
            if w < idx as int {
                assert(new_cats[w] == old_cats[w]);
            } else {
                assert(new_cats[w - 1] == old_cats[w]);
            }
        }
    }
    Ok(())
}

} // verus!

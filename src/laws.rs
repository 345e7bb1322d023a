use vstd::prelude::*;
use crate::model::{
    lemma_create_category_keeps_wf, lemma_create_note_keeps_wf, create_category_op, create_note_op, delete_category_op, delete_note_op, lemma_notes_in_contains, lemma_push_contains, lemma_without_contains, list_notes_op, notes_in,
    open_note_op, outside_category, valid_scope, NoteId, StoreError, StoreView,
};
use crate::names::{category_path, note_file_name, note_path, valid_name};

verus! {

/// After a category is created it is listed exactly once, and creating it again
/// fails with `AlreadyExists` and leaves the store as it was.
pub proof fn law_category_created_once(s: StoreView, n: Seq<char>)
    requires
        s.wf(),
        valid_name(n),
        s.categories.contains(n) || !s.entries.contains((None, n)),
    ensures
        !s.entries.contains((None, n)) ==> create_category_op(s, n).1 == Ok::<Seq<char>, StoreError>(
            category_path(s.root, n),
        ),
        ({
            let s1 = create_category_op(s, n).0;
            &&& exists|i: int| 0 <= i < s1.categories.len() && s1.categories[i] == n
            &&& forall|i: int, j: int|
                0 <= i < s1.categories.len() && 0 <= j < s1.categories.len()
                    && s1.categories[i] == n && s1.categories[j] == n ==> i == j
            &&& create_category_op(s1, n) == (s1, Err::<Seq<char>, StoreError>(StoreError::AlreadyExists))
        }),
{
    let s1 = create_category_op(s, n).0;
    lemma_create_category_keeps_wf(s, n);
    lemma_push_contains(s.categories, n, n);
    lemma_push_contains(s.entries, (None, n), (None, n));
    assert(s1.categories.contains(n));
}

/// A note created directly under the root is listed there and can be opened;
/// once deleted it is neither listed nor found.
pub proof fn law_uncategorized_note_lifecycle(s: StoreView, n: Seq<char>)
    requires
        s.wf(),
        valid_name(n),
        !s.entries.contains((None, note_file_name(n))),
    ensures
        ({
            let s1 = create_note_op(s, None, n).0;
            let s2 = delete_note_op(s1, None, n).0;
            &&& list_notes_op(s1, None) is Ok && (list_notes_op(s1, None)->Ok_0).contains(n)
            &&& open_note_op(s1, None, n) == Ok::<Seq<char>, StoreError>(note_path(s.root, None, n))
            &&& delete_note_op(s1, None, n).1 == Ok::<Seq<char>, StoreError>(note_path(s.root, None, n))
            &&& list_notes_op(s2, None) is Ok && !(list_notes_op(s2, None)->Ok_0).contains(n)
            &&& open_note_op(s2, None, n) == Err::<Seq<char>, StoreError>(StoreError::NotFound)
        }),
{
    let s1 = create_note_op(s, None, n).0;
    let s2 = delete_note_op(s1, None, n).0;
    let k: NoteId = (None, n);
    lemma_create_note_keeps_wf(s, None, n);
    lemma_push_contains(s.notes, k, k);
    lemma_notes_in_contains(s1.notes, None, n);
    lemma_without_contains(s1.notes, k, k);
    lemma_notes_in_contains(s2.notes, None, n);
}

/// Deleting a category or a note that is not there fails with `NotFound` and
/// changes nothing.
pub proof fn law_delete_missing_is_not_found(s: StoreView, c: Option<Seq<char>>, n: Seq<char>)
    requires
        s.wf(),
        valid_name(n),
        valid_scope(c),
    ensures
        !s.categories.contains(n) ==> delete_category_op(s, n) == (s, Err::<Seq<char>, StoreError>(
            StoreError::NotFound,
        )),
        !s.notes.contains((c, n)) ==> delete_note_op(s, c, n) == (s, Err::<Seq<char>, StoreError>(
            StoreError::NotFound,
        )),
{
}

/// Listing the notes of a category that does not exist fails with
/// `CategoryNotFound`; it does not give an empty list.
pub proof fn law_list_missing_category(s: StoreView, c: Seq<char>)
    requires
        valid_name(c),
        !s.categories.contains(c),
    ensures
        list_notes_op(s, Some(c)) == Err::<Seq<Seq<char>>, StoreError>(StoreError::CategoryNotFound),
{
}

/// A note created in a category can be opened there and deleted; afterwards
/// opening it fails with `NotFound`.
pub proof fn law_categorized_round_trip(s: StoreView, c: Seq<char>, n: Seq<char>)
    requires
        s.wf(),
        valid_name(c),
        valid_name(n),
        s.categories.contains(c),
        !s.entries.contains((Some(c), note_file_name(n))),
    ensures
        ({
            let s1 = create_note_op(s, Some(c), n).0;
            let s2 = delete_note_op(s1, Some(c), n).0;
            let p = note_path(s.root, Some(c), n);
            &&& create_note_op(s, Some(c), n).1 == Ok::<Seq<char>, StoreError>(p)
            &&& open_note_op(s1, Some(c), n) == Ok::<Seq<char>, StoreError>(p)
            &&& delete_note_op(s1, Some(c), n).1 == Ok::<Seq<char>, StoreError>(p)
            &&& open_note_op(s2, Some(c), n) == Err::<Seq<char>, StoreError>(StoreError::NotFound)
        }),
{
    let s1 = create_note_op(s, Some(c), n).0;
    let k: NoteId = (Some(c), n);
    lemma_push_contains(s.notes, k, k);
    lemma_without_contains(s1.notes, k, k);
}

proof fn lemma_outside_keeps_root_notes(notes: Seq<NoteId>, c: Seq<char>)
    ensures
        notes_in(outside_category(notes, c), None) == notes_in(notes, None),
    decreases notes.len(),
{
    if notes.len() > 0 {
        let p = notes.drop_last();
        lemma_outside_keeps_root_notes(p, c);
        let rest = outside_category(p, c);
        if notes.last().0 != Some(c) {
            assert(rest.push(notes.last()).drop_last() == rest);
        }
    }
}

/// A category and a note directly under the root may share a name: they lie at
/// different paths, and creating or deleting the one leaves what the store says
/// of the other unchanged.
pub proof fn law_category_and_note_share_name(s: StoreView, n: Seq<char>)
    requires
        s.wf(),
        valid_name(n),
    ensures
        category_path(s.root, n) != note_path(s.root, None, n),
        create_note_op(create_category_op(s, n).0, None, n).1 == create_note_op(s, None, n).1,
        list_notes_op(create_category_op(s, n).0, None) == list_notes_op(s, None),
        list_notes_op(delete_category_op(s, n).0, None) == list_notes_op(s, None),
        create_note_op(s, None, n).0.categories == s.categories,
        delete_note_op(s, None, n).0.categories == s.categories,
        open_note_op(create_category_op(s, n).0, None, n) == open_note_op(s, None, n),
        open_note_op(delete_category_op(s, n).0, None, n) == open_note_op(s, None, n),
{
    assert(category_path(s.root, n).len() != note_path(s.root, None, n).len());
    assert((None::<Seq<char>>, n) != (None::<Seq<char>>, note_file_name(n))) by {
        assert(n.len() != note_file_name(n).len());
    }
    lemma_push_contains(s.entries, (None, n), (None, note_file_name(n)));
    lemma_outside_keeps_root_notes(s.notes, n);
    lemma_notes_in_contains(s.notes, None, n);
    lemma_notes_in_contains(delete_category_op(s, n).0.notes, None, n);
}

/// A path that is taken cannot be created over: not a category named like the
/// file of a note directly under the root, not a note whose file a category
/// occupies, and not any name a scan found taken.
pub proof fn law_taken_paths_already_exist(s: StoreView, c: Option<Seq<char>>, n: Seq<char>, x: Seq<char>)
    requires
        s.wf(),
        valid_scope(c),
        valid_name(n),
        c is Some ==> s.categories.contains(c->0),
    ensures
        s.notes.contains((None, x)) && valid_name(note_file_name(x)) ==> create_category_op(
            s,
            note_file_name(x),
        ) == (s, Err::<Seq<char>, StoreError>(StoreError::AlreadyExists)),
        s.categories.contains(note_file_name(n)) ==> create_note_op(s, None, n) == (s, Err::<
            Seq<char>,
            StoreError,
        >(StoreError::AlreadyExists)),
        s.entries.contains((None, n)) ==> create_category_op(s, n) == (s, Err::<Seq<char>, StoreError>(
            StoreError::AlreadyExists,
        )),
        s.entries.contains((c, note_file_name(n))) ==> create_note_op(s, c, n) == (s, Err::<
            Seq<char>,
            StoreError,
        >(StoreError::AlreadyExists)),
{
}

/// A name with a path separator, such as `../evil`, is no valid name.
pub proof fn law_separator_makes_name_invalid(n: Seq<char>, i: int)
    requires
        0 <= i < n.len(),
        n[i] == '/' || n[i] == '\\',
    ensures
        !valid_name(n),
{
    assert(!crate::names::is_allowed_char(n[i]));
}

/// Creating a category or a note under an invalid name, or in a category with
/// an invalid name, fails with `InvalidName` and creates nothing.
pub proof fn law_invalid_names_rejected(
    s: StoreView,
    c: Option<Seq<char>>,
    n: Seq<char>,
    m: Seq<char>,
)
    requires
        !valid_name(n),
    ensures
        create_category_op(s, n) == (s, Err::<Seq<char>, StoreError>(StoreError::InvalidName)),
        create_note_op(s, c, n) == (s, Err::<Seq<char>, StoreError>(StoreError::InvalidName)),
        create_note_op(s, Some(n), m) == (s, Err::<Seq<char>, StoreError>(
            StoreError::InvalidName,
        )),
{
}

} // verus!

use vstd::prelude::*;
use crate::names::{category_path, note_file_name, note_path, note_stem, valid_name};

verus! {

/// Why an operation on the entry store did not take place.
#[derive(Debug, Clone, Copy, PartialEq, Eq, Structural)]
pub enum StoreError {
    /// The category or note to be created is there already.
    AlreadyExists,
    /// The category or note to be deleted or opened is not there.
    NotFound,
    /// The category that scopes the operation is not there.
    CategoryNotFound,
    /// A name would leave its directory or does not name an entry.
    InvalidName,
    /// The filesystem or the editor failed.
    IoFailure,
}

/// A note as the store sees it: its category, if any, and its name.
pub type NoteId = (Option<Seq<char>>, Seq<char>);

/// The contents of the root directory: where it is, its categories in
/// enumeration order, every note with the category it lies in, and every entry
/// name that is taken, directly under the root (`None`) or in a category.
pub struct StoreView {
    pub root: Seq<char>,
    pub categories: Seq<Seq<char>>,
    pub notes: Seq<NoteId>,
    pub entries: Seq<NoteId>,
}

impl StoreView {
    /// Category names are unique, so are notes within their directory; every
    /// category and every note file is a taken entry; entries and notes lie in
    /// categories that exist; and no category bears the file name of a note
    /// directly under the root.
    pub open spec fn wf(self) -> bool {
        &&& self.categories.no_duplicates()
        &&& self.notes.no_duplicates()
        &&& forall|k: NoteId| #[trigger] self.notes.contains(k) && k.0 is Some
            ==> self.categories.contains(k.0->0)
        &&& forall|c: Seq<char>| #[trigger] self.categories.contains(c)
            ==> self.entries.contains((None, c))
        &&& forall|k: NoteId| #[trigger] self.notes.contains(k)
            ==> self.entries.contains((k.0, note_file_name(k.1)))
        &&& forall|k: NoteId| #[trigger] self.entries.contains(k) && k.0 is Some
            ==> self.categories.contains(k.0->0)
        &&& forall|x: Seq<char>| #[trigger] self.notes.contains((None, x))
            ==> !self.categories.contains(note_file_name(x))
    }
}

/// `s` with every element equal to `x` taken out, order kept.
pub open spec fn without<A>(s: Seq<A>, x: A) -> Seq<A>
    decreases s.len(),
{
    if s.len() == 0 {
        s
    } else {
        let rest = without(s.drop_last(), x);
        if s.last() == x {
            rest
        } else {
            rest.push(s.last())
        }
    }
}

/// The notes that do not lie in category `c`, order kept.
pub open spec fn outside_category(notes: Seq<NoteId>, c: Seq<char>) -> Seq<NoteId>
    decreases notes.len(),
{
    if notes.len() == 0 {
        notes
    } else {
        let rest = outside_category(notes.drop_last(), c);
        if notes.last().0 == Some(c) {
            rest
        } else {
            rest.push(notes.last())
        }
    }
}

/// The names of the notes that lie in scope `c` (`None`: directly under the root),
/// in enumeration order.
pub open spec fn notes_in(notes: Seq<NoteId>, c: Option<Seq<char>>) -> Seq<Seq<char>>
    decreases notes.len(),
{
    if notes.len() == 0 {
        Seq::empty()
    } else {
        let rest = notes_in(notes.drop_last(), c);
        if notes.last().0 == c {
            rest.push(notes.last().1)
        } else {
            rest
        }
    }
}

/// A scope is the root (`None`) or a category with a valid name.
pub open spec fn valid_scope(c: Option<Seq<char>>) -> bool {
    match c {
        Some(c) => valid_name(c),
        None => true,
    }
}

/// The store after `createCategory(n)`, and the directory to create.
pub open spec fn create_category_op(s: StoreView, n: Seq<char>) -> (StoreView, Result<Seq<char>, StoreError>) {
    if !valid_name(n) {
        (s, Err(StoreError::InvalidName))
    } else if s.entries.contains((None, n)) {
        (s, Err(StoreError::AlreadyExists))
    } else {
        (
            StoreView {
                root: s.root,
                categories: s.categories.push(n),
                notes: s.notes,
                entries: s.entries.push((None, n)),
            },
            Ok(category_path(s.root, n)),
        )
    }
}

/// The store after `createNote(c, n)`, and the file to create.
pub open spec fn create_note_op(s: StoreView, c: Option<Seq<char>>, n: Seq<char>) -> (StoreView, Result<Seq<char>, StoreError>) {
    if !valid_scope(c) || !valid_name(n) {
        (s, Err(StoreError::InvalidName))
    } else if c is Some && !s.categories.contains(c->0) {
        (s, Err(StoreError::CategoryNotFound))
    } else if s.entries.contains((c, note_file_name(n))) {
        (s, Err(StoreError::AlreadyExists))
    } else {
        (
            StoreView {
                root: s.root,
                categories: s.categories,
                notes: s.notes.push((c, n)),
                entries: s.entries.push((c, note_file_name(n))),
            },
            Ok(note_path(s.root, c, n)),
        )
    }
}

/// The store after `deleteCategory(n)`, and the directory to remove with all it holds.
pub open spec fn delete_category_op(s: StoreView, n: Seq<char>) -> (StoreView, Result<Seq<char>, StoreError>) {
    if !valid_name(n) {
        (s, Err(StoreError::InvalidName))
    } else if !s.categories.contains(n) {
        (s, Err(StoreError::NotFound))
    } else {
        (
            StoreView {
                root: s.root,
                categories: without(s.categories, n),
                notes: outside_category(s.notes, n),
                entries: without(outside_category(s.entries, n), (None, n)),
            },
            Ok(category_path(s.root, n)),
        )
    }
}

/// The store after `deleteNote(c, n)`, and the file to remove.
pub open spec fn delete_note_op(s: StoreView, c: Option<Seq<char>>, n: Seq<char>) -> (StoreView, Result<Seq<char>, StoreError>) {
    if !valid_scope(c) || !valid_name(n) {
        (s, Err(StoreError::InvalidName))
    } else if !s.notes.contains((c, n)) {
        (s, Err(StoreError::NotFound))
    } else {
        (
            StoreView {
                root: s.root,
                categories: s.categories,
                notes: without(s.notes, (c, n)),
                entries: without(s.entries, (c, note_file_name(n))),
            },
            Ok(note_path(s.root, c, n)),
        )
    }
}

/// The store after a scan has seen entry `name` in scope `c`. An entry seen
/// before, or one in a category that is not recorded, changes nothing. Otherwise
/// the name is taken; a directory directly under the root is a category, and a
/// file named like a note file is a note. Anything else is only a taken name.
pub open spec fn record_entry_op(s: StoreView, c: Option<Seq<char>>, name: Seq<char>, is_dir: bool, is_file: bool) -> StoreView {
    if s.entries.contains((c, name)) || (c is Some && !s.categories.contains(c->0)) {
        s
    } else {
        let entries = s.entries.push((c, name));
        if c is None && is_dir {
            StoreView { root: s.root, categories: s.categories.push(name), notes: s.notes, entries }
        } else if is_file && note_stem(name) is Some {
            StoreView {
                root: s.root,
                categories: s.categories,
                notes: s.notes.push((c, note_stem(name)->0)),
                entries,
            }
        } else {
            StoreView { root: s.root, categories: s.categories, notes: s.notes, entries }
        }
    }
}

/// The file that `openNote(c, n)` hands to the editor.
pub open spec fn open_note_op(s: StoreView, c: Option<Seq<char>>, n: Seq<char>) -> Result<Seq<char>, StoreError> {
    if !valid_scope(c) || !valid_name(n) {
        Err(StoreError::InvalidName)
    } else if !s.notes.contains((c, n)) {
        Err(StoreError::NotFound)
    } else {
        Ok(note_path(s.root, c, n))
    }
}

/// What `listNotes(c)` returns.
pub open spec fn list_notes_op(s: StoreView, c: Option<Seq<char>>) -> Result<Seq<Seq<char>>, StoreError> {
    if !valid_scope(c) {
        Err(StoreError::InvalidName)
    } else if c is Some && !s.categories.contains(c->0) {
        Err(StoreError::CategoryNotFound)
    } else {
        Ok(notes_in(s.notes, c))
    }
}

/// A non-empty sequence holds what its prefix holds, and its last element.
pub proof fn lemma_contains_split<A>(s: Seq<A>, y: A)
    requires
        s.len() > 0,
    ensures
        s.contains(y) <==> (s.drop_last().contains(y) || s.last() == y),
{
    let p = s.drop_last();
    if s.contains(y) && s.last() != y {
        let i = choose|i: int| 0 <= i < s.len() && s[i] == y;
        assert(p[i] == y);
    }
    if p.contains(y) {
        let i = choose|i: int| 0 <= i < p.len() && p[i] == y;
        assert(s[i] == y);
    }
}

pub proof fn lemma_push_contains<A>(s: Seq<A>, x: A, y: A)
    ensures
        s.push(x).contains(y) <==> (s.contains(y) || x == y),
{
    lemma_contains_split(s.push(x), y);
    assert(s.push(x).drop_last() == s);
}

pub proof fn lemma_without_contains<A>(s: Seq<A>, x: A, y: A)
    ensures
        without(s, x).contains(y) <==> (s.contains(y) && y != x),
    decreases s.len(),
{
    if s.len() > 0 {
        let p = s.drop_last();
        lemma_without_contains(p, x, y);
        lemma_contains_split(s, y);
        lemma_push_contains(without(p, x), s.last(), y);
    }
}

pub proof fn lemma_without_no_duplicates<A>(s: Seq<A>, x: A)
    requires
        s.no_duplicates(),
    ensures
        without(s, x).no_duplicates(),
    decreases s.len(),
{
    if s.len() > 0 {
        let p = s.drop_last();
        assert(p.no_duplicates()) by {
            assert forall|i: int, j: int| 0 <= i < p.len() && 0 <= j < p.len() && i != j
                implies p[i] != p[j] by {
                assert(s[i] == p[i] && s[j] == p[j]);
            }
        }
        lemma_without_no_duplicates(p, x);
        lemma_without_contains(p, x, s.last());
        assert(!p.contains(s.last())) by {
            if p.contains(s.last()) {
                let i = choose|i: int| 0 <= i < p.len() && p[i] == s.last();
                assert(s[i] == s[s.len() - 1]);
            }
        }
        lemma_push_no_duplicates(without(p, x), s.last());
    }
}

pub proof fn lemma_push_no_duplicates<A>(s: Seq<A>, x: A)
    requires
        s.no_duplicates(),
        !s.contains(x),
    ensures
        s.push(x).no_duplicates(),
{
    let t = s.push(x);
    assert forall|i: int, j: int| 0 <= i < t.len() && 0 <= j < t.len() && i != j
        implies t[i] != t[j] by {
        if i == s.len() {
            assert(s[j] == t[j]);
        } else if j == s.len() {
            assert(s[i] == t[i]);
        } else {
            assert(s[i] == t[i] && s[j] == t[j]);
        }
    }
}

pub proof fn lemma_outside_category_contains(notes: Seq<NoteId>, c: Seq<char>, k: NoteId)
    ensures
        outside_category(notes, c).contains(k) <==> (notes.contains(k) && k.0 != Some(c)),
    decreases notes.len(),
{
    if notes.len() > 0 {
        let p = notes.drop_last();
        lemma_outside_category_contains(p, c, k);
        lemma_contains_split(notes, k);
        lemma_push_contains(outside_category(p, c), notes.last(), k);
    }
}

pub proof fn lemma_outside_category_no_duplicates(notes: Seq<NoteId>, c: Seq<char>)
    requires
        notes.no_duplicates(),
    ensures
        outside_category(notes, c).no_duplicates(),
    decreases notes.len(),
{
    if notes.len() > 0 {
        let p = notes.drop_last();
        assert(p.no_duplicates()) by {
            assert forall|i: int, j: int| 0 <= i < p.len() && 0 <= j < p.len() && i != j
                implies p[i] != p[j] by {
                assert(notes[i] == p[i] && notes[j] == p[j]);
            }
        }
        lemma_outside_category_no_duplicates(p, c);
        lemma_outside_category_contains(p, c, notes.last());
        assert(!p.contains(notes.last())) by {
            if p.contains(notes.last()) {
                let i = choose|i: int| 0 <= i < p.len() && p[i] == notes.last();
                assert(notes[i] == notes[notes.len() - 1]);
            }
        }
        lemma_push_no_duplicates(outside_category(p, c), notes.last());
    }
}

pub proof fn lemma_notes_in_contains(notes: Seq<NoteId>, c: Option<Seq<char>>, n: Seq<char>)
    ensures
        notes_in(notes, c).contains(n) <==> notes.contains((c, n)),
    decreases notes.len(),
{
    if notes.len() > 0 {
        let p = notes.drop_last();
        lemma_notes_in_contains(p, c, n);
        lemma_contains_split(notes, (c, n));
        lemma_push_contains(notes_in(p, c), notes.last().1, n);
    }
}

pub proof fn lemma_push_contains_all<A>(s: Seq<A>, x: A)
    ensures
        forall|y: A| #[trigger] s.push(x).contains(y) <==> (s.contains(y) || x == y),
{
    assert forall|y: A| #[trigger] s.push(x).contains(y) <==> (s.contains(y) || x == y) by {
        lemma_push_contains(s, x, y);
    }
}

pub proof fn lemma_without_contains_all<A>(s: Seq<A>, x: A)
    ensures
        forall|y: A| #[trigger] without(s, x).contains(y) <==> (s.contains(y) && y != x),
{
    assert forall|y: A| #[trigger] without(s, x).contains(y) <==> (s.contains(y) && y != x) by {
        lemma_without_contains(s, x, y);
    }
}

pub proof fn lemma_outside_category_contains_all(notes: Seq<NoteId>, c: Seq<char>)
    ensures
        forall|k: NoteId| #[trigger] outside_category(notes, c).contains(k)
            <==> (notes.contains(k) && k.0 != Some(c)),
{
    assert forall|k: NoteId| #[trigger] outside_category(notes, c).contains(k)
        <==> (notes.contains(k) && k.0 != Some(c)) by {
        lemma_outside_category_contains(notes, c, k);
    }
}

/// Two notes with the same file name have the same name.
pub proof fn lemma_note_file_name_injective(a: Seq<char>, b: Seq<char>)
    requires
        note_file_name(a) == note_file_name(b),
    ensures
        a == b,
{
    assert(a =~= note_file_name(a).subrange(0, a.len() as int));
    assert(b =~= note_file_name(b).subrange(0, b.len() as int));
}

/// A file name that passes as a note file is that note's file name.
pub proof fn lemma_note_stem_file_name(f: Seq<char>)
    requires
        note_stem(f) is Some,
    ensures
        note_file_name(note_stem(f)->0) == f,
{
    assert(note_file_name(note_stem(f)->0) =~= f);
}

pub proof fn lemma_create_category_keeps_wf(s: StoreView, n: Seq<char>)
    requires
        s.wf(),
    ensures
        create_category_op(s, n).0.wf(),
{
    if valid_name(n) && !s.entries.contains((None, n)) {
        lemma_push_contains_all(s.categories, n);
        lemma_push_contains_all(s.entries, (None, n));
        lemma_push_no_duplicates(s.categories, n);
    }
}

pub proof fn lemma_create_note_keeps_wf(s: StoreView, c: Option<Seq<char>>, n: Seq<char>)
    requires
        s.wf(),
    ensures
        create_note_op(s, c, n).0.wf(),
{
    let s1 = create_note_op(s, c, n).0;
    if s1 != s {
        lemma_push_contains_all(s.notes, (c, n));
        lemma_push_contains_all(s.entries, (c, note_file_name(n)));
        lemma_push_no_duplicates(s.notes, (c, n));
        assert forall|x: Seq<char>| #[trigger] s1.notes.contains((None, x))
            implies !s1.categories.contains(note_file_name(x)) by {
            if x != n || c is Some {
                assert(s.notes.contains((None, x)));
            }
        }
    }
}

pub proof fn lemma_delete_category_keeps_wf(s: StoreView, n: Seq<char>)
    requires
        s.wf(),
    ensures
        delete_category_op(s, n).0.wf(),
{
    if valid_name(n) && s.categories.contains(n) {
        let s1 = delete_category_op(s, n).0;
        lemma_without_no_duplicates(s.categories, n);
        lemma_outside_category_no_duplicates(s.notes, n);
        lemma_without_contains_all(s.categories, n);
        lemma_outside_category_contains_all(s.notes, n);
        lemma_outside_category_contains_all(s.entries, n);
        lemma_without_contains_all(outside_category(s.entries, n), (None, n));
        assert forall|k: NoteId| #[trigger] s1.notes.contains(k)
            implies s1.entries.contains((k.0, note_file_name(k.1))) by {
            assert(s.entries.contains((k.0, note_file_name(k.1))));
            if k.0 is None {
                assert(s.notes.contains((None, k.1)));
            }
        }
    }
}

pub proof fn lemma_delete_note_keeps_wf(s: StoreView, c: Option<Seq<char>>, n: Seq<char>)
    requires
        s.wf(),
    ensures
        delete_note_op(s, c, n).0.wf(),
{
    if valid_scope(c) && valid_name(n) && s.notes.contains((c, n)) {
        let s1 = delete_note_op(s, c, n).0;
        lemma_without_no_duplicates(s.notes, (c, n));
        lemma_without_contains_all(s.notes, (c, n));
        lemma_without_contains_all(s.entries, (c, note_file_name(n)));
        assert forall|x: Seq<char>| #[trigger] s1.categories.contains(x)
            implies s1.entries.contains((None, x)) by {
            assert(s.entries.contains((None, x)));
            if c is None && x == note_file_name(n) {
                assert(s.notes.contains((None, n)));
            }
        }
        assert forall|k: NoteId| #[trigger] s1.notes.contains(k)
            implies s1.entries.contains((k.0, note_file_name(k.1))) by {
            assert(s.entries.contains((k.0, note_file_name(k.1))));
            if k.0 == c && note_file_name(k.1) == note_file_name(n) {
                lemma_note_file_name_injective(k.1, n);
            }
        }
    }
}

pub proof fn lemma_record_entry_keeps_wf(s: StoreView, c: Option<Seq<char>>, name: Seq<char>, is_dir: bool, is_file: bool)
    requires
        s.wf(),
    ensures
        record_entry_op(s, c, name, is_dir, is_file).wf(),
{
    let s1 = record_entry_op(s, c, name, is_dir, is_file);
    if s1 != s {
        lemma_push_contains_all(s.entries, (c, name));
        if c is None && is_dir {
            lemma_push_contains_all(s.categories, name);
            lemma_push_no_duplicates(s.categories, name);
        } else if is_file && note_stem(name) is Some {
            let x = note_stem(name)->0;
            lemma_note_stem_file_name(name);
            lemma_push_contains_all(s.notes, (c, x));
            lemma_push_no_duplicates(s.notes, (c, x));
            assert forall|y: Seq<char>| #[trigger] s1.notes.contains((None, y))
                implies !s1.categories.contains(note_file_name(y)) by {
                if y != x || c is Some {
                    assert(s.notes.contains((None, y)));
                }
            }
        }
    }
}

} // verus!

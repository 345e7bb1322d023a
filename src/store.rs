use vstd::prelude::*;
use vstd::string::*;
use crate::model::{
    create_category_op, create_note_op, delete_category_op, delete_note_op,
    lemma_create_category_keeps_wf, lemma_create_note_keeps_wf, lemma_delete_category_keeps_wf,
    lemma_delete_note_keeps_wf, lemma_record_entry_keeps_wf, list_notes_op, notes_in,
    open_note_op, outside_category, record_entry_op, without, NoteId, StoreError, StoreView,
};
use crate::names::{
    is_valid_name, join_path, note_file, note_file_name, note_name_of_file, note_path_in, note_stem,
    scope_of,
};

verus! {

/// A name within a scope: directly under the root (`None`) or in a category.
struct ScopedName {
    category: Option<String>,
    name: String,
}

pub open spec fn scope_view(c: Option<String>) -> Option<Seq<char>> {
    match c {
        Some(c) => Some(c@),
        None => None,
    }
}

impl View for ScopedName {
    type V = NoteId;

    closed spec fn view(&self) -> NoteId {
        (scope_view(self.category), self.name@)
    }
}

/// The scoped names that a vector holds.
spec fn keys(v: Seq<ScopedName>) -> Seq<NoteId> {
    v.map_values(|k: ScopedName| k@)
}

/// The names that a vector of strings holds.
pub open spec fn names(v: Seq<String>) -> Seq<Seq<char>> {
    v.map_values(|s: String| s@)
}

/// The path that a result carries, as characters.
pub open spec fn path_result(r: Result<String, StoreError>) -> Result<Seq<char>, StoreError> {
    match r {
        Ok(p) => Ok(p@),
        Err(e) => Err(e),
    }
}

/// What a listing result carries, as characters.
pub open spec fn names_result(r: Result<Vec<String>, StoreError>) -> Result<Seq<Seq<char>>, StoreError> {
    match r {
        Ok(v) => Ok(names(v@)),
        Err(e) => Err(e),
    }
}

/// The contents of the root directory as one scan of it found them. Each
/// operation decides on this picture and names the path that the caller then
/// creates, removes or opens.
pub struct Store {
    root: String,
    categories: Vec<String>,
    notes: Vec<ScopedName>,
    entries: Vec<ScopedName>,
}

impl View for Store {
    type V = StoreView;

    closed spec fn view(&self) -> StoreView {
        StoreView {
            root: self.root@,
            categories: names(self.categories@),
            notes: keys(self.notes@),
            entries: keys(self.entries@),
        }
    }
}

fn copy_scope(c: &Option<String>) -> (r: Option<String>)
    ensures
        scope_view(r) == scope_view(*c),
{
    match c {
        Some(s) => Some(s.clone()),
        None => None,
    }
}

fn same_scope(a: &Option<String>, b: &Option<String>) -> (r: bool)
    ensures
        r == (scope_view(*a) == scope_view(*b)),
{
    match (a, b) {
        (Some(x), Some(y)) => *x == *y,
        (None, None) => true,
        _ => false,
    }
}

fn owned_scope(c: Option<&str>) -> (r: Option<String>)
    ensures
        scope_view(r) == scope_of(c),
{
    match c {
        Some(s) => Some(String::from_str(s)),
        None => None,
    }
}

fn copy_name(k: &ScopedName) -> (r: ScopedName)
    ensures
        r@ == k@,
{
    ScopedName { category: copy_scope(&k.category), name: k.name.clone() }
}

fn contains_key(v: &Vec<ScopedName>, category: &Option<String>, name: &String) -> (r: bool)
    ensures
        r == keys(v@).contains((scope_view(*category), name@)),
{
    let mut i: usize = 0;
    while i < v.len()
        invariant
            i <= v.len(),
            forall|j: int| 0 <= j < i ==> keys(v@)[j] != (scope_view(*category), name@),
        decreases v.len() - i,
    {
        let k = &v[i];
        if same_scope(&k.category, category) && k.name == *name {
            assert(keys(v@)[i as int] == (scope_view(*category), name@));
            return true;
        }
        i = i + 1;
    }
    false
}

/// `v` without the name `name` of scope `category`.
fn without_key(v: &Vec<ScopedName>, category: &Option<String>, name: &String) -> (r: Vec<ScopedName>)
    ensures
        keys(r@) == without(keys(v@), (scope_view(*category), name@)),
{
    let ghost key = (scope_view(*category), name@);
    let mut r: Vec<ScopedName> = Vec::new();
    let mut i: usize = 0;
    while i < v.len()
        invariant
            key == (scope_view(*category), name@),
            i <= v.len(),
            keys(r@) == without(keys(v@).subrange(0, i as int), key),
        decreases v.len() - i,
    {
        let ghost before = r@;
        let k = &v[i];
        assert(keys(v@)[i as int] == k@);
        let same = same_scope(&k.category, category) && k.name == *name;
        if !same {
            r.push(copy_name(k));
            assert(keys(r@) =~= keys(before).push(k@));
        }
        assert(keys(v@).subrange(0, i + 1).drop_last() =~= keys(v@).subrange(0, i as int));
        i = i + 1;
    }
    assert(keys(v@).subrange(0, i as int) =~= keys(v@));
    r
}

/// `v` without the names that lie in category `c`.
fn outside_scope(v: &Vec<ScopedName>, c: &String) -> (r: Vec<ScopedName>)
    ensures
        keys(r@) == outside_category(keys(v@), c@),
{
    let scope = Some(c.clone());
    let mut r: Vec<ScopedName> = Vec::new();
    let mut i: usize = 0;
    while i < v.len()
        invariant
            scope_view(scope) == Some(c@),
            i <= v.len(),
            keys(r@) == outside_category(keys(v@).subrange(0, i as int), c@),
        decreases v.len() - i,
    {
        let ghost before = r@;
        let k = &v[i];
        assert(keys(v@)[i as int] == k@);
        if !same_scope(&k.category, &scope) {
            r.push(copy_name(k));
            assert(keys(r@) =~= keys(before).push(k@));
        }
        assert(keys(v@).subrange(0, i + 1).drop_last() =~= keys(v@).subrange(0, i as int));
        i = i + 1;
    }
    assert(keys(v@).subrange(0, i as int) =~= keys(v@));
    r
}

impl Store {
    /// An empty store rooted at `root`.
    pub fn new(root: &str) -> (s: Store)
        ensures
            s@.root == root@,
            s@.categories == Seq::<Seq<char>>::empty(),
            s@.notes == Seq::<NoteId>::empty(),
            s@.entries == Seq::<NoteId>::empty(),
            s@.wf(),
    {
        let s = Store {
            root: String::from_str(root),
            categories: Vec::new(),
            notes: Vec::new(),
            entries: Vec::new(),
        };
        assert(s@.categories =~= Seq::<Seq<char>>::empty());
        assert(s@.notes =~= Seq::<NoteId>::empty());
        assert(s@.entries =~= Seq::<NoteId>::empty());
        s
    }

    /// The root directory.
    pub fn root(&self) -> (r: &str)
        ensures
            r@ == self@.root,
    {
        self.root.as_str()
    }

    fn has_category(&self, name: &String) -> (r: bool)
        ensures
            r == self@.categories.contains(name@),
    {
        let mut i: usize = 0;
        while i < self.categories.len()
            invariant
                i <= self.categories.len(),
                forall|j: int| 0 <= j < i ==> self@.categories[j] != name@,
            decreases self.categories.len() - i,
        {
            if self.categories[i] == *name {
                assert(self@.categories[i as int] == name@);
                return true;
            }
            i = i + 1;
        }
        false
    }

    /// The names of the notes in scope `category`, in enumeration order.
    fn notes_of(&self, category: &Option<String>) -> (r: Vec<String>)
        ensures
            names(r@) == notes_in(self@.notes, scope_view(*category)),
    {
        let mut r: Vec<String> = Vec::new();
        let mut i: usize = 0;
        while i < self.notes.len()
            invariant
                i <= self.notes.len(),
                names(r@) == notes_in(self@.notes.subrange(0, i as int), scope_view(*category)),
            decreases self.notes.len() - i,
        {
            let k = &self.notes[i];
            let ghost before = r@;
            if same_scope(&k.category, category) {
                r.push(k.name.clone());
                assert(names(r@) =~= names(before).push(k.name@));
            }
            assert(self@.notes.subrange(0, i + 1).drop_last() =~= self@.notes.subrange(0, i as int));
            i = i + 1;
        }
        assert(self@.notes.subrange(0, self.notes.len() as int) =~= self@.notes);
        r
    }

    /// Takes category `name` out of the store, with every note and entry in it.
    fn drop_category(&mut self, name: &String)
        ensures
            final(self)@ == (StoreView {
                root: old(self)@.root,
                categories: without(old(self)@.categories, name@),
                notes: outside_category(old(self)@.notes, name@),
                entries: without(outside_category(old(self)@.entries, name@), (None, name@)),
            }),
    {
        let ghost old_view = self@;
        let mut categories: Vec<String> = Vec::new();
        let mut i: usize = 0;
        while i < self.categories.len()
            invariant
                self@ == old_view,
                i <= self.categories.len(),
                names(categories@) == without(old_view.categories.subrange(0, i as int), name@),
            decreases self.categories.len() - i,
        {
            let ghost before = categories@;
            if self.categories[i] != *name {
                categories.push(self.categories[i].clone());
                assert(names(categories@) =~= names(before).push(self@.categories[i as int]));
            }
            assert(old_view.categories.subrange(0, i + 1).drop_last()
                =~= old_view.categories.subrange(0, i as int));
            i = i + 1;
        }
        assert(old_view.categories.subrange(0, i as int) =~= old_view.categories);
        let notes = outside_scope(&self.notes, name);
        let inner = outside_scope(&self.entries, name);
        let entries = without_key(&inner, &None, name);
        self.categories = categories;
        self.notes = notes;
        self.entries = entries;
    }

    /// Records one entry that a scan of the root, or of one of its categories,
    /// found: `category` is `None` for the root. A directory directly under the
    /// root is a category; a file whose name ends in `.note` after at least one
    /// character is a note; every entry's name is taken. An entry seen before, or
    /// one in a category not yet recorded, leaves the store as it is.
    pub fn record_entry(&mut self, category: Option<&str>, name: &str, is_dir: bool, is_file: bool)
        requires
            old(self)@.wf(),
        ensures
            final(self)@ == record_entry_op(old(self)@, scope_of(category), name@, is_dir, is_file),
            final(self)@.wf(),
    {
        proof {
            lemma_record_entry_keeps_wf(self@, scope_of(category), name@, is_dir, is_file);
        }
        let scope = owned_scope(category);
        let n = String::from_str(name);
        let known = match &scope {
            Some(c) => self.has_category(c),
            None => true,
        };
        if !known || contains_key(&self.entries, &scope, &n) {
            return;
        }
        let ghost before = self@;
        self.entries.push(ScopedName { category: copy_scope(&scope), name: String::from_str(name) });
        assert(keys(self.entries@) =~= before.entries.push((scope_of(category), name@)));
        if scope.is_none() && is_dir {
            self.categories.push(n);
            assert(names(self.categories@) =~= before.categories.push(name@));
        } else if is_file {
            match note_name_of_file(name) {
                Some(stem) => {
                    self.notes.push(ScopedName { category: scope, name: stem });
                    assert(keys(self.notes@) =~= before.notes.push(
                        (scope_of(category), note_stem(name@)->0),
                    ));
                },
                None => {},
            }
        }
    }
}

/// The categories, in the order in which the scan found them.
pub fn get_categories(store: &Store) -> (r: Vec<String>)
    ensures
        names(r@) == store@.categories,
{
    let mut r: Vec<String> = Vec::new();
    let mut i: usize = 0;
    while i < store.categories.len()
        invariant
            i <= store.categories.len(),
            names(r@) == store@.categories.subrange(0, i as int),
        decreases store.categories.len() - i,
    {
        let ghost before = r@;
        r.push(store.categories[i].clone());
        assert(names(r@) =~= names(before).push(store@.categories[i as int]));
        assert(store@.categories.subrange(0, i + 1) =~= store@.categories.subrange(0, i as int).push(
            store@.categories[i as int],
        ));
        i = i + 1;
    }
    assert(store@.categories.subrange(0, i as int) =~= store@.categories);
    r
}

/// The notes directly under the root.
pub fn get_uncategorized_notes(store: &Store) -> (r: Vec<String>)
    ensures
        names(r@) == notes_in(store@.notes, None),
        list_notes_op(store@, None) == Ok::<Seq<Seq<char>>, StoreError>(names(r@)),
{
    store.notes_of(&None)
}

/// The notes of `category`; fails when there is no such category.
pub fn get_categorized_notes(store: &Store, category: &str) -> (r: Result<Vec<String>, StoreError>)
    ensures
        names_result(r) == list_notes_op(store@, Some(category@)),
{
    if !is_valid_name(category) {
        return Err(StoreError::InvalidName);
    }
    let c = String::from_str(category);
    if !store.has_category(&c) {
        return Err(StoreError::CategoryNotFound);
    }
    Ok(store.notes_of(&Some(c)))
}

/// Adds category `name`; the result is the directory to create.
pub fn create_category(store: &mut Store, name: &str) -> (r: Result<String, StoreError>)
    requires
        old(store)@.wf(),
    ensures
        final(store)@ == create_category_op(old(store)@, name@).0,
        path_result(r) == create_category_op(old(store)@, name@).1,
        final(store)@.wf(),
{
    proof {
        lemma_create_category_keeps_wf(store@, name@);
    }
    if !is_valid_name(name) {
        return Err(StoreError::InvalidName);
    }
    let n = String::from_str(name);
    if contains_key(&store.entries, &None, &n) {
        return Err(StoreError::AlreadyExists);
    }
    let path = join_path(store.root.as_str(), name);
    let ghost before = store@;
    store.entries.push(ScopedName { category: None, name: n.clone() });
    store.categories.push(n);
    assert(store@.categories =~= before.categories.push(name@));
    assert(store@.entries =~= before.entries.push((None, name@)));
    Ok(path)
}

fn create_note(store: &mut Store, category: Option<&str>, name: &str) -> (r: Result<String, StoreError>)
    requires
        old(store)@.wf(),
    ensures
        final(store)@ == create_note_op(old(store)@, scope_of(category), name@).0,
        path_result(r) == create_note_op(old(store)@, scope_of(category), name@).1,
        final(store)@.wf(),
{
    proof {
        lemma_create_note_keeps_wf(store@, scope_of(category), name@);
    }
    let scope_ok = match category {
        Some(c) => is_valid_name(c),
        None => true,
    };
    if !scope_ok || !is_valid_name(name) {
        return Err(StoreError::InvalidName);
    }
    let scope = owned_scope(category);
    let known = match &scope {
        Some(c) => store.has_category(c),
        None => true,
    };
    if !known {
        return Err(StoreError::CategoryNotFound);
    }
    let file = note_file(name);
    if contains_key(&store.entries, &scope, &file) {
        return Err(StoreError::AlreadyExists);
    }
    let path = note_path_in(store.root.as_str(), category, name);
    let ghost before = store@;
    store.entries.push(ScopedName { category: copy_scope(&scope), name: file });
    store.notes.push(ScopedName { category: scope, name: String::from_str(name) });
    assert(store@.notes =~= before.notes.push((scope_of(category), name@)));
    assert(store@.entries =~= before.entries.push((scope_of(category), note_file_name(name@))));
    Ok(path)
}

/// Adds note `name` directly under the root; the result is the file to create.
pub fn create_uncategorized_note(store: &mut Store, name: &str) -> (r: Result<String, StoreError>)
    requires
        old(store)@.wf(),
    ensures
        final(store)@ == create_note_op(old(store)@, None, name@).0,
        path_result(r) == create_note_op(old(store)@, None, name@).1,
        final(store)@.wf(),
{
    create_note(store, None, name)
}

/// Adds note `name` to `category`; the result is the file to create.
pub fn create_categorized_note(store: &mut Store, category: &str, name: &str) -> (r: Result<String, StoreError>)
    requires
        old(store)@.wf(),
    ensures
        final(store)@ == create_note_op(old(store)@, Some(category@), name@).0,
        path_result(r) == create_note_op(old(store)@, Some(category@), name@).1,
        final(store)@.wf(),
{
    create_note(store, Some(category), name)
}

/// Removes category `name` with its notes; the result is the directory to
/// remove with all it holds.
pub fn delete_category(store: &mut Store, name: &str) -> (r: Result<String, StoreError>)
    requires
        old(store)@.wf(),
    ensures
        final(store)@ == delete_category_op(old(store)@, name@).0,
        path_result(r) == delete_category_op(old(store)@, name@).1,
        final(store)@.wf(),
{
    proof {
        lemma_delete_category_keeps_wf(store@, name@);
    }
    if !is_valid_name(name) {
        return Err(StoreError::InvalidName);
    }
    let n = String::from_str(name);
    if !store.has_category(&n) {
        return Err(StoreError::NotFound);
    }
    let path = join_path(store.root.as_str(), name);
    store.drop_category(&n);
    Ok(path)
}

fn delete_note(store: &mut Store, category: Option<&str>, name: &str) -> (r: Result<String, StoreError>)
    requires
        old(store)@.wf(),
    ensures
        final(store)@ == delete_note_op(old(store)@, scope_of(category), name@).0,
        path_result(r) == delete_note_op(old(store)@, scope_of(category), name@).1,
        final(store)@.wf(),
{
    proof {
        lemma_delete_note_keeps_wf(store@, scope_of(category), name@);
    }
    let scope_ok = match category {
        Some(c) => is_valid_name(c),
        None => true,
    };
    if !scope_ok || !is_valid_name(name) {
        return Err(StoreError::InvalidName);
    }
    let scope = owned_scope(category);
    let n = String::from_str(name);
    if !contains_key(&store.notes, &scope, &n) {
        return Err(StoreError::NotFound);
    }
    let path = note_path_in(store.root.as_str(), category, name);
    let file = note_file(name);
    let notes = without_key(&store.notes, &scope, &n);
    let entries = without_key(&store.entries, &scope, &file);
    store.notes = notes;
    store.entries = entries;
    Ok(path)
}

/// Removes note `name` from directly under the root; the result is the file to remove.
pub fn delete_uncategorized_note(store: &mut Store, name: &str) -> (r: Result<String, StoreError>)
    requires
        old(store)@.wf(),
    ensures
        final(store)@ == delete_note_op(old(store)@, None, name@).0,
        path_result(r) == delete_note_op(old(store)@, None, name@).1,
        final(store)@.wf(),
{
    delete_note(store, None, name)
}

/// Removes note `name` from `category`; the result is the file to remove.
pub fn delete_categorized_note(store: &mut Store, category: &str, name: &str) -> (r: Result<String, StoreError>)
    requires
        old(store)@.wf(),
    ensures
        final(store)@ == delete_note_op(old(store)@, Some(category@), name@).0,
        path_result(r) == delete_note_op(old(store)@, Some(category@), name@).1,
        final(store)@.wf(),
{
    delete_note(store, Some(category), name)
}

fn open_note(store: &Store, category: Option<&str>, name: &str) -> (r: Result<String, StoreError>)
    ensures
        path_result(r) == open_note_op(store@, scope_of(category), name@),
{
    let scope_ok = match category {
        Some(c) => is_valid_name(c),
        None => true,
    };
    if !scope_ok || !is_valid_name(name) {
        return Err(StoreError::InvalidName);
    }
    let scope = owned_scope(category);
    let n = String::from_str(name);
    if !contains_key(&store.notes, &scope, &n) {
        return Err(StoreError::NotFound);
    }
    Ok(note_path_in(store.root.as_str(), category, name))
}

/// The file of note `name` directly under the root, to hand to the editor.
pub fn open_uncategorized_note(store: &Store, name: &str) -> (r: Result<String, StoreError>)
    ensures
        path_result(r) == open_note_op(store@, None, name@),
{
    open_note(store, None, name)
}

/// The file of note `name` in `category`, to hand to the editor.
pub fn open_categorized_note(store: &Store, category: &str, name: &str) -> (r: Result<String, StoreError>)
    ensures
        path_result(r) == open_note_op(store@, Some(category@), name@),
{
    open_note(store, Some(category), name)
}

} // verus!

use vstd::prelude::*;
use vstd::string::*;

verus! {

/// A name that can stand for a category or a note: not empty, not `.` or `..`,
/// and free of path separators and NUL, so that it always names one entry
/// directly below the directory it is joined to.
pub open spec fn valid_name(n: Seq<char>) -> bool {
    &&& n.len() > 0
    &&& n != seq!['.']
    &&& n != seq!['.', '.']
    &&& forall|i: int| 0 <= i < n.len() ==> is_allowed_char(#[trigger] n[i])
}

pub open spec fn is_allowed_char(c: char) -> bool {
    c != '/' && c != '\\' && c != '\0'
}

/// The extension that marks a note file.
pub open spec fn note_ext() -> Seq<char> {
    seq!['.', 'n', 'o', 't', 'e']
}

/// The file name under which a note is stored.
pub open spec fn note_file_name(n: Seq<char>) -> Seq<char> {
    n + note_ext()
}

/// `dir/entry`.
pub open spec fn join(dir: Seq<char>, entry: Seq<char>) -> Seq<char> {
    dir + seq!['/'] + entry
}

pub open spec fn category_path(root: Seq<char>, c: Seq<char>) -> Seq<char> {
    join(root, c)
}

/// Where a note lives: directly under the root, or under its category.
pub open spec fn note_path(root: Seq<char>, c: Option<Seq<char>>, n: Seq<char>) -> Seq<char> {
    match c {
        Some(c) => join(join(root, c), note_file_name(n)),
        None => join(root, note_file_name(n)),
    }
}

/// The scope that an optional category name stands for.
pub open spec fn scope_of(c: Option<&str>) -> Option<Seq<char>> {
    match c {
        Some(c) => Some(c@),
        None => None,
    }
}

/// The note name that a directory entry's file name stands for, if it is a note file.
pub open spec fn note_stem(f: Seq<char>) -> Option<Seq<char>> {
    if f.len() > note_ext().len() && f.subrange(f.len() - note_ext().len(), f.len() as int)
        == note_ext() {
        Some(f.subrange(0, f.len() - note_ext().len()))
    } else {
        None
    }
}

/// Tells whether `name` may be used as a category or note name.
pub fn is_valid_name(name: &str) -> (r: bool)
    ensures
        r == valid_name(name@),
{
    let len = name.unicode_len();
    if len == 0 {
        return false;
    }
    let mut i: usize = 0;
    let mut dots: usize = 0;
    while i < len
        invariant
            len == name@.len(),
            i <= len,
            dots <= i,
            forall|j: int| 0 <= j < i ==> is_allowed_char(#[trigger] name@[j]),
            dots == i <==> forall|j: int| 0 <= j < i ==> #[trigger] name@[j] == '.',
        decreases len - i,
    {
        let c = name.get_char(i);
        if c == '/' || c == '\\' || c == '\0' {
            return false;
        }
        if c == '.' && dots == i {
            dots = dots + 1;
        }
        i = i + 1;
    }
    if dots == len && len <= 2 {
        assert(name@ == seq!['.'] || name@ == seq!['.', '.']);
        false
    } else {
        assert(name@ != seq!['.']) by {
            if name@ == seq!['.'] {
                assert(forall|j: int| 0 <= j < i ==> #[trigger] name@[j] == '.');
            }
        }
        assert(name@ != seq!['.', '.']) by {
            if name@ == seq!['.', '.'] {
                assert(forall|j: int| 0 <= j < i ==> #[trigger] name@[j] == '.');
            }
        }
        true
    }
}

/// `dir/entry` as a string.
pub fn join_path(dir: &str, entry: &str) -> (r: String)
    ensures
        r@ == join(dir@, entry@),
{
    let mut r = String::from_str(dir);
    r.append("/");
    r.append(entry);
    proof {
        reveal_strlit("/");
    }
    r
}

/// The file name of note `name`.
pub fn note_file(name: &str) -> (r: String)
    ensures
        r@ == note_file_name(name@),
{
    let mut r = String::from_str(name);
    r.append(".note");
    proof {
        reveal_strlit(".note");
    }
    r
}

/// The path of note `name` in scope `category` below `root`.
pub fn note_path_in(root: &str, category: Option<&str>, name: &str) -> (r: String)
    ensures
        r@ == note_path(root@, scope_of(category), name@),
{
    let file = note_file(name);
    match category {
        Some(c) => {
            let dir = join_path(root, c);
            join_path(dir.as_str(), file.as_str())
        },
        None => join_path(root, file.as_str()),
    }
}

/// The name of the note stored in a file called `file_name`, or `None` when the
/// file is no note file.
pub fn note_name_of_file(file_name: &str) -> (r: Option<String>)
    ensures
        match r {
            Some(s) => note_stem(file_name@) == Some(s@),
            None => note_stem(file_name@) is None,
        },
{
    let len = file_name.unicode_len();
    if len <= 5 {
        return None;
    }
    let tail = String::from_str(file_name.substring_char(len - 5, len));
    let ext = String::from_str(".note");
    proof {
        reveal_strlit(".note");
        assert(ext@ == note_ext());
    }
    if tail == ext {
        Some(String::from_str(file_name.substring_char(0, len - 5)))
    } else {
        None
    }
}

} // verus!

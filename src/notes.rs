use vstd::prelude::*;

use crate::record::{decode_note, encode_note, note_text, parse_record};

verus! {

/// A note: a title and a content, both non-empty once stored.
#[derive(Debug, PartialEq, Eq)]
pub struct Note {
    pub title: String,
    pub content: String,
}

/// Why an operation of the store was refused.
#[derive(Debug, Clone, Copy, PartialEq, Eq, Structural)]
pub enum StoreError {
    /// A note of that name is already stored.
    AlreadyExists,
    /// The title of a new note is empty.
    EmptyTitle,
    /// The content of a new note is empty.
    EmptyContent,
    /// No note of that name is stored.
    NotFound,
    /// The note's file holds no note record.
    Malformed,
}

/// The file that creating a note writes: its path and its text.
pub struct NoteFile {
    pub path: String,
    pub text: String,
}

/// The extension of every note file.
pub open spec fn note_ext() -> Seq<char> {
    seq!['.', 'j', 's', 'o', 'n']
}

/// The path of the file that holds note `name` in directory `dir`.
pub open spec fn note_path(dir: Seq<char>, name: Seq<char>) -> Seq<char> {
    dir + name + note_ext()
}

/// The note name given as the optional argument of a command; empty when absent.
pub fn get_note_name(next_param: Option<&str>) -> (r: String)
    ensures
        match next_param {
            Some(s) => r@ == s@,
            None => r@ == Seq::<char>::empty(),
        },
{
    match next_param {
        Some(s) => s.to_owned(),
        None => String::new(),
    }
}

/// Composes `<dir><name>.json`, with no change to either part.
pub fn get_note_path(notes_dir: &String, note_name: &String) -> (r: String)
    ensures
        r@ == note_path(notes_dir@, note_name@),
{
    let mut path = notes_dir.clone();
    path.append(note_name.as_str());
    path.append(".json");
    proof {
        reveal_strlit(".json");
        assert(".json"@ =~= note_ext());
    }
    path
}

/// The refusal, if any, of creating a note, given whether its file exists.
pub open spec fn create_check(exists: bool, title: Seq<char>, content: Seq<char>) -> Option<
    StoreError,
> {
    if exists {
        Some(StoreError::AlreadyExists)
    } else if title.len() == 0 {
        Some(StoreError::EmptyTitle)
    } else if content.len() == 0 {
        Some(StoreError::EmptyContent)
    } else {
        None
    }
}

/// `r` is what creating note `name` in `dir` gives: the refusal, or the file
/// to write at the note's path, whose record reads back as the title and content.
pub open spec fn new_post(
    dir: Seq<char>,
    name: Seq<char>,
    title: Seq<char>,
    content: Seq<char>,
    exists: bool,
    r: Result<NoteFile, StoreError>,
) -> bool {
    match create_check(exists, title, content) {
        Some(e) => r == Err::<NoteFile, StoreError>(e),
        None => match r {
            Ok(f) => f.path@ == note_path(dir, name) && f.text@ == note_text(title, content)
                && parse_record(f.text@) == Some((title, content)),
            Err(_) => false,
        },
    }
}

/// Creating a note: refused when its file `exists`, or when the title or the
/// content is empty (in that order of checks); otherwise the file to write.
pub fn new(
    notes_dir: &String,
    note_name: &String,
    note_title: String,
    note_content: String,
    exists: bool,
) -> (r: Result<NoteFile, StoreError>)
    ensures
        new_post(notes_dir@, note_name@, note_title@, note_content@, exists, r),
{
    if exists {
        return Err(StoreError::AlreadyExists);
    }
    if note_title.as_str().is_empty() {
        return Err(StoreError::EmptyTitle);
    }
    if note_content.as_str().is_empty() {
        return Err(StoreError::EmptyContent);
    }
    let path = get_note_path(notes_dir, note_name);
    let text = encode_note(note_title.as_str(), note_content.as_str());
    Ok(NoteFile { path, text })
}

/// What reading a note gives, from the text of its file (`None`: no file).
pub open spec fn read_result(file: Option<Seq<char>>) -> Result<(Seq<char>, Seq<char>), StoreError> {
    match file {
        None => Err(StoreError::NotFound),
        Some(text) => match parse_record(text) {
            Some(p) => Ok(p),
            None => Err(StoreError::Malformed),
        },
    }
}

/// The characters of a file's text, if there is a file.
pub open spec fn text_of(file: Option<&str>) -> Option<Seq<char>> {
    match file {
        Some(t) => Some(t@),
        None => None,
    }
}

/// Reading a note from the text of its file, `None` where the file does not exist.
pub fn get(file: Option<&str>) -> (r: Result<Note, StoreError>)
    ensures
        match r {
            Ok(n) => read_result(text_of(file)) == Ok::<(Seq<char>, Seq<char>), StoreError>(
                (n.title@, n.content@),
            ),
            Err(e) => read_result(text_of(file)) == Err::<(Seq<char>, Seq<char>), StoreError>(
                e,
            ),
        },
{
    match file {
        None => Err(StoreError::NotFound),
        Some(text) => match decode_note(text) {
            Some((title, content)) => Ok(Note { title, content }),
            None => Err(StoreError::Malformed),
        },
    }
}

/// `r` is what deleting note `name` in `dir` gives: the path to remove, or
/// `NotFound` when its file does not exist.
pub open spec fn delete_post(
    dir: Seq<char>,
    name: Seq<char>,
    exists: bool,
    r: Result<String, StoreError>,
) -> bool {
    if exists {
        r matches Ok(p) && p@ == note_path(dir, name)
    } else {
        r == Err::<String, StoreError>(StoreError::NotFound)
    }
}

/// Deleting a note: the path of the file to remove, or `NotFound`.
pub fn delete(notes_dir: &String, note_name: &String, exists: bool) -> (r: Result<String, StoreError>)
    ensures
        delete_post(notes_dir@, note_name@, exists, r),
{
    if exists {
        Ok(get_note_path(notes_dir, note_name))
    } else {
        Err(StoreError::NotFound)
    }
}

/// The regular files of a directory: path to text.
pub type Files = Map<Seq<char>, Seq<char>>;

/// The files after carrying out what creating a note returned.
pub open spec fn after_create(files: Files, r: Result<NoteFile, StoreError>) -> Files {
    match r {
        Ok(f) => files.insert(f.path@, f.text@),
        Err(_) => files,
    }
}

/// The files after carrying out what deleting a note returned.
pub open spec fn after_delete(files: Files, r: Result<String, StoreError>) -> Files {
    match r {
        Ok(p) => files.remove(p@),
        Err(_) => files,
    }
}

/// Reading note `name` of `dir` from the files.
pub open spec fn read_in(files: Files, dir: Seq<char>, name: Seq<char>) -> Result<
    (Seq<char>, Seq<char>),
    StoreError,
> {
    let p = note_path(dir, name);
    read_result(
        if files.contains_key(p) {
            Some(files[p])
        } else {
            None
        },
    )
}

/// A note that was created reads back with the same title and content.
pub proof fn lemma_create_then_read(
    files: Files,
    dir: Seq<char>,
    name: Seq<char>,
    title: Seq<char>,
    content: Seq<char>,
    r: Result<NoteFile, StoreError>,
)
    requires
        !files.contains_key(note_path(dir, name)),
        title.len() > 0,
        content.len() > 0,
        new_post(dir, name, title, content, false, r),
    ensures
        read_in(after_create(files, r), dir, name) == Ok::<(Seq<char>, Seq<char>), StoreError>(
            (title, content),
        ),
{
}

/// Creating a note under a name already stored is refused and leaves the files as they were.
pub proof fn lemma_create_duplicate(
    files: Files,
    dir: Seq<char>,
    name: Seq<char>,
    title: Seq<char>,
    content: Seq<char>,
    r: Result<NoteFile, StoreError>,
)
    requires
        files.contains_key(note_path(dir, name)),
        new_post(dir, name, title, content, true, r),
    ensures
        r == Err::<NoteFile, StoreError>(StoreError::AlreadyExists),
        after_create(files, r) == files,
{
}

/// Creating a note with an empty title or content is refused and writes nothing.
pub proof fn lemma_create_empty(
    files: Files,
    dir: Seq<char>,
    name: Seq<char>,
    title: Seq<char>,
    content: Seq<char>,
    r: Result<NoteFile, StoreError>,
)
    requires
        title.len() == 0 || content.len() == 0,
        new_post(dir, name, title, content, files.contains_key(note_path(dir, name)), r),
    ensures
        r is Err,
        after_create(files, r) == files,
{
}

/// Deleting a name that is not stored is refused and changes nothing;
/// deleting a stored one removes its file and no other.
pub proof fn lemma_delete(files: Files, dir: Seq<char>, name: Seq<char>, r: Result<String, StoreError>)
    requires
        delete_post(dir, name, files.contains_key(note_path(dir, name)), r),
    ensures
        !files.contains_key(note_path(dir, name)) ==> r == Err::<String, StoreError>(
            StoreError::NotFound,
        ) && after_delete(files, r) == files,
        files.contains_key(note_path(dir, name)) ==> r is Ok && after_delete(files, r)
            == files.remove(note_path(dir, name)),
        forall|p: Seq<char>|
            p != note_path(dir, name) ==> (#[trigger] after_delete(files, r).contains_key(p)
                == files.contains_key(p) && after_delete(files, r)[p] == files[p]),
{
}

/// Editing a stored note, by deleting it and creating it anew under the same
/// name, leaves the same set of files, and the note reads as the new title
/// and content.
pub proof fn lemma_edit(
    files: Files,
    dir: Seq<char>,
    name: Seq<char>,
    title: Seq<char>,
    content: Seq<char>,
    removed: Result<String, StoreError>,
    created: Result<NoteFile, StoreError>,
)
    requires
        files.contains_key(note_path(dir, name)),
        title.len() > 0,
        content.len() > 0,
        delete_post(dir, name, true, removed),
        new_post(
            dir,
            name,
            title,
            content,
            after_delete(files, removed).contains_key(note_path(dir, name)),
            created,
        ),
    ensures
        after_create(after_delete(files, removed), created).dom() == files.dom(),
        read_in(after_create(after_delete(files, removed), created), dir, name) == Ok::<
            (Seq<char>, Seq<char>),
            StoreError,
        >((title, content)),
{
    let p = note_path(dir, name);
    assert(!after_delete(files, removed).contains_key(p));
    assert(after_create(after_delete(files, removed), created).dom() =~= files.dom());
}

} // verus!

use vstd::prelude::*;

use crate::notes::{get_note_name, note_ext};
use crate::text::{key_matches, same_text, to_chars};

verus! {

/// The characters with Unicode's White_Space property, which separate the
/// words of a command line.
pub open spec fn is_ws(c: char) -> bool {
    let u = c as u32;
    u == 0x20 || (0x09 <= u <= 0x0d) || u == 0x85 || u == 0xa0 || u == 0x1680 || (0x2000 <= u
        <= 0x200a) || u == 0x2028 || u == 0x2029 || u == 0x202f || u == 0x205f || u == 0x3000
}

/// Whether `c` is whitespace.
pub fn is_whitespace(c: char) -> (r: bool)
    ensures
        r == is_ws(c),
{
    let u = c as u32;
    u == 0x20 || (0x09 <= u && u <= 0x0d) || u == 0x85 || u == 0xa0 || u == 0x1680 || (0x2000
        <= u && u <= 0x200a) || u == 0x2028 || u == 0x2029 || u == 0x202f || u == 0x205f || u
        == 0x3000
}

/// The words of `s`: its maximal runs of characters that are not whitespace,
/// in order.
pub open spec fn words(s: Seq<char>) -> Seq<Seq<char>>
    decreases s.len(),
{
    if s.len() == 0 {
        seq![]
    } else {
        let w = words(s.drop_last());
        let c = s.last();
        if is_ws(c) {
            w
        } else if s.len() >= 2 && !is_ws(s[s.len() - 2]) {
            w.drop_last().push(w.last().push(c))
        } else {
            w.push(seq![c])
        }
    }
}

/// Splits `line` into its words.
pub fn split_words(line: &str) -> (r: Vec<String>)
    ensures
        r@.len() == words(line@).len(),
        forall|k: int| 0 <= k < r@.len() ==> #[trigger] r@[k]@ == words(line@)[k],
{
    let v = to_chars(line);
    let n = v.len();
    let mut spans: Vec<(usize, usize)> = Vec::new();
    let mut i: usize = 0;
    while i < n
        invariant
            i <= n,
            n == v@.len(),
            v@ == line@,
            spans@.len() == words(v@.take(i as int)).len(),
            forall|k: int|
                0 <= k < spans@.len() ==> {
                    let (a, b) = #[trigger] spans@[k];
                    a < b <= i && v@.subrange(a as int, b as int) == words(v@.take(i as int))[k]
                },
            i > 0 && !is_ws(v@[i - 1]) ==> spans@.len() > 0 && spans@.last().1 == i,
        decreases n - i,
    {
        let c = v[i];
        let ghost before = v@.take(i as int);
        let ghost after = v@.take(i + 1);
        proof {
            assert(after.drop_last() =~= before);
        }
        if is_whitespace(c) {
        } else if i > 0 && !is_whitespace(v[i - 1]) {
            let last = spans.len() - 1;
            let (a, _) = spans[last];
            proof {
                assert(after[after.len() - 2] == v@[i - 1]);
                assert(v@.subrange(a as int, i + 1) =~= v@.subrange(a as int, i as int).push(c));
            }
            spans.set(last, (a, i + 1));
        } else {
            proof {
                assert(v@.subrange(i as int, i + 1) =~= seq![c]);
                if i > 0 {
                    assert(after[after.len() - 2] == v@[i - 1]);
                }
            }
            spans.push((i, i + 1));
        }
        i += 1;
        proof {
            assert(v@.take(i as int) == after);
        }
    }
    proof {
        assert(v@.take(n as int) =~= v@);
    }
    let mut r: Vec<String> = Vec::new();
    let mut k: usize = 0;
    while k < spans.len()
        invariant
            k <= spans@.len(),
            r@.len() == k,
            n == v@.len(),
            v@ == line@,
            spans@.len() == words(line@).len(),
            forall|t: int|
                0 <= t < spans@.len() ==> {
                    let (a, b) = #[trigger] spans@[t];
                    a < b <= n && v@.subrange(a as int, b as int) == words(line@)[t]
                },
            forall|t: int| 0 <= t < k ==> #[trigger] r@[t]@ == words(line@)[t],
        decreases spans@.len() - k,
    {
        let (a, b) = spans[k];
        let w = line.substring_char(a, b).to_owned();
        r.push(w);
        k += 1;
    }
    r
}

/// A command of the interactive session.
#[derive(Debug, PartialEq, Eq)]
pub enum Command {
    Help,
    Create,
    /// Read a note; the name is empty where none was given.
    Read(String),
    /// Edit a note; the name is empty where none was given.
    Edit(String),
    /// Delete a note; the name is empty where none was given.
    Delete(String),
    List,
    Clear,
    Exit,
    /// An empty line or an unknown word: nothing to do.
    Nothing,
}

/// The second word of a line, or empty where there is none.
pub open spec fn arg_of(ws: Seq<Seq<char>>) -> Seq<char> {
    if ws.len() >= 2 {
        ws[1]
    } else {
        seq![]
    }
}

/// `c` is the command that `line` asks for: its first word picks the command
/// (case-sensitively), its second word is the note name, further words are ignored.
pub open spec fn command_of(line: Seq<char>, c: Command) -> bool {
    let ws = words(line);
    if ws.len() == 0 {
        c is Nothing
    } else {
        let w = ws[0];
        if w == "help"@ {
            c is Help
        } else if w == "create"@ {
            c is Create
        } else if w == "read"@ {
            c matches Command::Read(n) && n@ == arg_of(ws)
        } else if w == "edit"@ {
            c matches Command::Edit(n) && n@ == arg_of(ws)
        } else if w == "delete"@ || w == "remove"@ || w == "rm"@ {
            c matches Command::Delete(n) && n@ == arg_of(ws)
        } else if w == "list"@ || w == "ls"@ {
            c is List
        } else if w == "clear"@ || w == "cls"@ {
            c is Clear
        } else if w == "exit"@ || w == "quit"@ {
            c is Exit
        } else {
            c is Nothing
        }
    }
}

/// The command that a line of input asks for.
pub fn parse_command(line: &str) -> (r: Command)
    ensures
        command_of(line@, r),
{
    let ws = split_words(line);
    if ws.len() == 0 {
        return Command::Nothing;
    }
    let w = ws[0].as_str();
    let arg = if ws.len() >= 2 {
        get_note_name(Some(ws[1].as_str()))
    } else {
        get_note_name(None)
    };
    proof {
        assert(w@ == words(line@)[0]);
        assert(arg@ == arg_of(words(line@)));
    }
    if same_text(w, "help") {
        Command::Help
    } else if same_text(w, "create") {
        Command::Create
    } else if same_text(w, "read") {
        Command::Read(arg)
    } else if same_text(w, "edit") {
        Command::Edit(arg)
    } else if same_text(w, "delete") || same_text(w, "remove") || same_text(w, "rm") {
        Command::Delete(arg)
    } else if same_text(w, "list") || same_text(w, "ls") {
        Command::List
    } else if same_text(w, "clear") || same_text(w, "cls") {
        Command::Clear
    } else if same_text(w, "exit") || same_text(w, "quit") {
        Command::Exit
    } else {
        Command::Nothing
    }
}

/// A path that names a note file: it ends in `.json`.
pub open spec fn is_note_file(path: Seq<char>) -> bool {
    path.len() >= 5 && path.subrange(path.len() - 5, path.len() as int) == note_ext()
}

/// The name of the note in a note file's path: the extension is cut, and so
/// is the directory where the path starts with it.
pub open spec fn display_name(dir: Seq<char>, path: Seq<char>) -> Seq<char> {
    let stem = path.subrange(0, path.len() - 5);
    if stem.len() >= dir.len() && stem.subrange(0, dir.len() as int) == dir {
        stem.subrange(dir.len() as int, stem.len() as int)
    } else {
        stem
    }
}

/// The names of the notes among `paths`, in their order.
pub open spec fn listed(dir: Seq<char>, paths: Seq<Seq<char>>) -> Seq<Seq<char>>
    decreases paths.len(),
{
    if paths.len() == 0 {
        seq![]
    } else {
        let rest = listed(dir, paths.drop_last());
        if is_note_file(paths.last()) {
            rest.push(display_name(dir, paths.last()))
        } else {
            rest
        }
    }
}

/// The note name in a file path, or `None` where the path names no note file.
pub fn note_name_of(notes_dir: &str, file_path: &str) -> (r: Option<String>)
    ensures
        match r {
            Some(n) => is_note_file(file_path@) && n@ == display_name(notes_dir@, file_path@),
            None => !is_note_file(file_path@),
        },
{
    let v = to_chars(file_path);
    let n = v.len();
    let ext = to_chars(".json");
    proof {
        reveal_strlit(".json");
        assert(ext@ =~= note_ext());
    }
    if n < 5 || !key_matches(&v, n - 5, &ext) {
        return None;
    }
    let d = to_chars(notes_dir);
    let start = if d.len() <= n - 5 && key_matches(&v, 0, &d) {
        d.len()
    } else {
        0
    };
    proof {
        let stem = file_path@.subrange(0, n - 5);
        if d@.len() <= n - 5 {
            assert(stem.subrange(0, d@.len() as int) =~= v@.subrange(0, d@.len() as int));
        }
        if start == 0 && d@.len() == 0 {
            assert(stem.subrange(0, 0) =~= d@);
        }
        assert(stem.subrange(start as int, stem.len() as int) =~= file_path@.subrange(
            start as int,
            n - 5,
        ));
    }
    Some(file_path.substring_char(start, n - 5).to_owned())
}

/// The names of the notes among the paths of a directory's regular files,
/// in the order of the paths.
pub fn view_all_notes(notes_dir: &String, file_paths: &Vec<String>) -> (r: Vec<String>)
    ensures
        r@.map_values(|s: String| s@) == listed(notes_dir@, file_paths@.map_values(|s: String| s@)),
{
    let ghost ps = file_paths@.map_values(|s: String| s@);
    let mut r: Vec<String> = Vec::new();
    let mut i: usize = 0;
    while i < file_paths.len()
        invariant
            i <= file_paths@.len(),
            ps == file_paths@.map_values(|s: String| s@),
            r@.map_values(|s: String| s@) == listed(notes_dir@, ps.take(i as int)),
        decreases file_paths@.len() - i,
    {
        proof {
            assert(ps.take(i + 1).drop_last() =~= ps.take(i as int));
            assert(ps.take(i + 1).last() == file_paths@[i as int]@);
        }
        match note_name_of(notes_dir.as_str(), file_paths[i].as_str()) {
            Some(name) => {
                proof {
                    assert(r@.push(name).map_values(|s: String| s@) =~= r@.map_values(
                        |s: String| s@,
                    ).push(name@));
                }
                r.push(name);
            },
            None => {},
        }
        i += 1;
    }
    proof {
        assert(ps.take(file_paths@.len() as int) =~= ps);
    }
    r
}

/// The decimal digit for `d`.
pub open spec fn digit_char(d: nat) -> char {
    if d == 0 { '0' }
    else if d == 1 { '1' }
    else if d == 2 { '2' }
    else if d == 3 { '3' }
    else if d == 4 { '4' }
    else if d == 5 { '5' }
    else if d == 6 { '6' }
    else if d == 7 { '7' }
    else if d == 8 { '8' }
    else { '9' }
}

/// `n` written in decimal, without leading zeros.
pub open spec fn decimal(n: nat) -> Seq<char>
    decreases n,
{
    if n < 10 {
        seq![digit_char(n)]
    } else {
        decimal(n / 10).push(digit_char(n % 10))
    }
}

fn digit_text(d: usize) -> (r: &'static str)
    requires
        d < 10,
    ensures
        r@ == seq![digit_char(d as nat)],
{
    let r = if d == 0 { "0" }
    else if d == 1 { "1" }
    else if d == 2 { "2" }
    else if d == 3 { "3" }
    else if d == 4 { "4" }
    else if d == 5 { "5" }
    else if d == 6 { "6" }
    else if d == 7 { "7" }
    else if d == 8 { "8" }
    else { "9" };
    proof {
        reveal_strlit("0");
        reveal_strlit("1");
        reveal_strlit("2");
        reveal_strlit("3");
        reveal_strlit("4");
        reveal_strlit("5");
        reveal_strlit("6");
        reveal_strlit("7");
        reveal_strlit("8");
        reveal_strlit("9");
        assert(r@ =~= seq![digit_char(d as nat)]);
    }
    r
}

/// `n` in decimal.
pub fn decimal_text(n: usize) -> (r: String)
    ensures
        r@ == decimal(n as nat),
    decreases n,
{
    if n < 10 {
        String::from_str(digit_text(n))
    } else {
        let mut r = decimal_text(n / 10);
        r.append(digit_text(n % 10));
        r
    }
}

/// The line of the listing for the note at `index` (from 0): `<index + 1>. <name>`.
pub open spec fn listing_line(index: nat, name: Seq<char>) -> Seq<char> {
    decimal(index + 1) + seq!['.', ' '] + name
}

/// The lines of a listing of note names, numbered from 1 in their order.
pub fn numbered(names: &Vec<String>) -> (r: Vec<String>)
    ensures
        r@.len() == names@.len(),
        forall|k: int| 0 <= k < r@.len() ==> #[trigger] r@[k]@ == listing_line(k as nat, names@[k]@),
{
    let mut r: Vec<String> = Vec::new();
    let mut i: usize = 0;
    while i < names.len()
        invariant
            i <= names@.len(),
            r@.len() == i,
            forall|k: int| 0 <= k < i ==> #[trigger] r@[k]@ == listing_line(k as nat, names@[k]@),
        decreases names@.len() - i,
    {
        let mut line = decimal_text(i + 1);
        line.append(". ");
        line.append(names[i].as_str());
        proof {
            reveal_strlit(". ");
            assert(line@ =~= listing_line(i as nat, names@[i as int]@));
        }
        r.push(line);
        i += 1;
    }
    r
}

} // verus!

use rust_notes::commands::{decimal_text, numbered, parse_command, split_words, view_all_notes, Command};
use rust_notes::notes::{delete, get, get_note_name, get_note_path, new, Note, StoreError};
use rust_notes::record::{decode_note, encode_note};
use rust_notes::settings::get_notes_dir;

fn s(x: &str) -> String {
    String::from(x)
}

#[test]
fn get_note_path_test() {
    let path = get_note_path(&String::from("/home/.notes/"), &String::from("example"));
    assert_eq!(path, String::from("/home/.notes/example.json"));
}

#[test]
fn get_note_path_keeps_parts_unchanged() {
    assert_eq!(get_note_path(&s("d"), &s("../x y")), s("d../x y.json"));
    assert_eq!(get_note_path(&s(""), &s("")), s(".json"));
}

#[test]
fn new_test() {
    let new_note = new(
        &get_notes_dir(None, s("/home")),
        &String::from("example"),
        String::from("Note title"),
        String::from("Note content"),
        false,
    );
    assert!(new_note.is_ok());
}

#[test]
fn get_test() {
    let file = new(&s("/home/.notes/"), &s("example"), s("Note title"), s("Note content"), false).unwrap();
    let note = get(Some(file.text.as_str())).unwrap();
    let note_to_compare = Note { title: String::from("Note title"), content: String::from("Note content") };
    assert_eq!(note, note_to_compare);
}

#[test]
fn delete_test() {
    let deleted = delete(&s("/home/.notes/"), &String::from("example"), true);
    assert_eq!(deleted, Ok(s("/home/.notes/example.json")));
}

#[test]
fn new_writes_record_at_note_path() {
    let file = new(&s("/n/"), &s("a"), s("T"), s("C"), false).unwrap();
    assert_eq!(file.path, s("/n/a.json"));
    assert_eq!(file.text, s("{\"title\":\"T\",\"content\":\"C\"}"));
}

#[test]
fn new_rejects_existing_name() {
    assert_eq!(new(&s("/n/"), &s("a"), s("T"), s("C"), true).err(), Some(StoreError::AlreadyExists));
    assert_eq!(new(&s("/n/"), &s("a"), s(""), s(""), true).err(), Some(StoreError::AlreadyExists));
}

#[test]
fn new_rejects_empty_fields() {
    assert_eq!(new(&s("/n/"), &s("a"), s(""), s("C"), false).err(), Some(StoreError::EmptyTitle));
    assert_eq!(new(&s("/n/"), &s("a"), s("T"), s(""), false).err(), Some(StoreError::EmptyContent));
    assert_eq!(new(&s("/n/"), &s("a"), s(""), s(""), false).err(), Some(StoreError::EmptyTitle));
}

#[test]
fn get_reports_missing_and_malformed() {
    assert_eq!(get(None), Err(StoreError::NotFound));
    assert_eq!(get(Some("not json")), Err(StoreError::Malformed));
    assert_eq!(get(Some("{\"title\":\"a\"}")), Err(StoreError::Malformed));
    assert_eq!(get(Some("{\"title\":1,\"content\":\"b\"}")), Err(StoreError::Malformed));
}

#[test]
fn delete_missing_is_not_found() {
    assert_eq!(delete(&s("/n/"), &s("a"), false), Err(StoreError::NotFound));
}

#[test]
fn record_escapes_and_round_trips() {
    let title = "say \"hi\", \\ back";
    let content = ",\"content\":\"x\"}\nline\u{e9}";
    let text = encode_note(title, content);
    assert_eq!(
        text,
        s("{\"title\":\"say \\\"hi\\\", \\\\ back\",\"content\":\",\\\"content\\\":\\\"x\\\"}\\nline\u{e9}\"}")
    );
    assert_eq!(decode_note(&text), Some((s(title), s(content))));
}

#[test]
fn record_decodes_json_escapes() {
    let r = decode_note("{\"title\":\"\\u0041b\",\"content\":\"c\\td\"}");
    assert_eq!(r, Some((s("Ab"), s("c\td"))));
}

#[test]
fn create_then_read_round_trip() {
    let file = new(&s("/n/"), &s("k"), s("Ünïcode \"t\""), s("multi\nline"), false).unwrap();
    let note = get(Some(file.text.as_str())).unwrap();
    assert_eq!(note.title, s("Ünïcode \"t\""));
    assert_eq!(note.content, s("multi\nline"));
}

#[test]
fn notes_dir_override_or_home() {
    assert_eq!(get_notes_dir(Some(s("/tmp/n/")), s("/home/u")), s("/tmp/n/"));
    assert_eq!(get_notes_dir(None, s("/home/u")), s("/home/u/.notes/"));
    assert_eq!(get_notes_dir(None, s("")), s("/.notes/"));
}

#[test]
fn note_name_from_argument() {
    assert_eq!(get_note_name(Some("x")), s("x"));
    assert_eq!(get_note_name(None), s(""));
}

#[test]
fn words_split_on_whitespace() {
    assert_eq!(split_words("  read \t my\u{3000}note  "), vec![s("read"), s("my"), s("note")]);
    assert_eq!(split_words(""), Vec::<String>::new());
    assert_eq!(split_words(" \n "), Vec::<String>::new());
}

#[test]
fn commands_are_recognised() {
    assert_eq!(parse_command("help"), Command::Help);
    assert_eq!(parse_command("create extra"), Command::Create);
    assert_eq!(parse_command("read a b"), Command::Read(s("a")));
    assert_eq!(parse_command("read"), Command::Read(s("")));
    assert_eq!(parse_command("edit x"), Command::Edit(s("x")));
    assert_eq!(parse_command("delete a"), Command::Delete(s("a")));
    assert_eq!(parse_command("remove a"), Command::Delete(s("a")));
    assert_eq!(parse_command("rm a"), Command::Delete(s("a")));
    assert_eq!(parse_command("list"), Command::List);
    assert_eq!(parse_command("ls"), Command::List);
    assert_eq!(parse_command("clear"), Command::Clear);
    assert_eq!(parse_command("cls"), Command::Clear);
    assert_eq!(parse_command("exit"), Command::Exit);
    assert_eq!(parse_command("  quit  "), Command::Exit);
}

#[test]
fn empty_or_unknown_lines_do_nothing() {
    assert_eq!(parse_command(""), Command::Nothing);
    assert_eq!(parse_command("   "), Command::Nothing);
    assert_eq!(parse_command("Help"), Command::Nothing);
    assert_eq!(parse_command("frobnicate x"), Command::Nothing);
}

#[test]
fn list_keeps_note_files_only() {
    let dir = s("/n/");
    let paths = vec![s("/n/a.json"), s("/n/b.json"), s("/n/readme.txt")];
    assert_eq!(view_all_notes(&dir, &paths), vec![s("a"), s("b")]);
    assert_eq!(view_all_notes(&dir, &Vec::new()), Vec::<String>::new());
    assert_eq!(view_all_notes(&dir, &vec![s("/other/c.json"), s(".json")]), vec![s("/other/c"), s("")]);
}

#[test]
fn scenario_create_read_delete() {
    let dir = s("/notes/");
    let name = s("groceries");
    let path = get_note_path(&dir, &name);
    // Empty directory: no file yet.
    let file = new(&dir, &name, s("Shopping"), s("milk, eggs"), false).unwrap();
    assert_eq!(file.path, path);
    let note = get(Some(file.text.as_str())).unwrap();
    assert_eq!(note.title, s("Shopping"));
    assert_eq!(note.content, s("milk, eggs"));
    assert_eq!(delete(&dir, &name, true), Ok(path));
    assert_eq!(get(None), Err(StoreError::NotFound));
}

#[test]
fn scenario_edit() {
    let dir = s("/notes/");
    let name = s("x");
    let first = new(&dir, &name, s("T1"), s("C1"), false).unwrap();
    assert_eq!(get(Some(first.text.as_str())).unwrap().title, s("T1"));
    let removed = delete(&dir, &name, true).unwrap();
    let second = new(&dir, &name, s("T2"), s("C2"), false).unwrap();
    assert_eq!(removed, second.path);
    assert_eq!(second.path, s("/notes/x.json"));
    let note = get(Some(second.text.as_str())).unwrap();
    assert_eq!(note, Note { title: s("T2"), content: s("C2") });
}

#[test]
fn listing_is_numbered_from_one() {
    let dir = s("/n/");
    let paths = vec![s("/n/a.json"), s("/n/b.json"), s("/n/readme.txt")];
    let names = view_all_notes(&dir, &paths);
    assert_eq!(numbered(&names), vec![s("1. a"), s("2. b")]);
    assert_eq!(numbered(&Vec::new()), Vec::<String>::new());
}

#[test]
fn numbers_are_decimal() {
    assert_eq!(decimal_text(0), s("0"));
    assert_eq!(decimal_text(7), s("7"));
    assert_eq!(decimal_text(10), s("10"));
    assert_eq!(decimal_text(1203), s("1203"));
    assert_eq!(decimal_text(usize::MAX), usize::MAX.to_string());
}

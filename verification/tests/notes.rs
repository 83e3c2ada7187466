use plugin_host::notes::{
    join_from, split_char, trim_quotes_exec, AppleScriptError, NotesManager,
};

fn ok<T, E>(r: Result<T, E>) -> T {
    match r {
        Ok(t) => t,
        Err(_) => panic!("unexpected error"),
    }
}

#[test]
fn split_keeps_empty_pieces() {
    let parts = split_char("a,b,,c", ',');
    assert_eq!(parts, vec!["a", "b", "", "c"]);
    assert_eq!(split_char("", ','), vec![""]);
    assert_eq!(split_char(",", ','), vec!["", ""]);
    assert_eq!(split_char("abc", ','), vec!["abc"]);
}

#[test]
fn join_restores_inner_separators() {
    let parts = vec!["name".to_string(), "body".to_string(), "tail".to_string()];
    assert_eq!(join_from(&parts, 1), "body|tail");
    assert_eq!(join_from(&parts, 0), "name|body|tail");
    assert_eq!(join_from(&parts, 3), "");
}

#[test]
fn trimming_strips_quotes_spaces_and_apostrophes() {
    assert_eq!(trim_quotes_exec("\" 'hello' \""), "hello");
    assert_eq!(trim_quotes_exec("plain"), "plain");
    assert_eq!(trim_quotes_exec("  \"\"  "), "");
    assert_eq!(trim_quotes_exec("a b"), "a b");
}

#[test]
fn notes_listing_parses_names_and_bodies() {
    let output = "\"groceries|milk and eggs\", \"ideas|a|b|c\", , \"untitled\"";
    let notes = ok(NotesManager::parse_notes_output(output));
    assert_eq!(notes.len(), 3);
    assert_eq!(notes[0].name, "groceries");
    assert_eq!(notes[0].body, "milk and eggs");
    // bars inside the body are joined back
    assert_eq!(notes[1].name, "ideas");
    assert_eq!(notes[1].body, "a|b|c");
    // an entry without a body keeps only its name
    assert_eq!(notes[2].name, "untitled");
    assert_eq!(notes[2].body, "");
    assert!(notes[0].creation_date.is_none());
    assert!(notes[0].modification_date.is_none());
}

#[test]
fn empty_listing_yields_no_notes() {
    let notes = ok(NotesManager::parse_notes_output("   "));
    assert!(notes.is_empty());
}

#[test]
fn single_note_output_splits_at_the_first_bar() {
    let note = ok(NotesManager::parse_note_output("title|first|second"));
    assert_eq!(note.name, "title");
    assert_eq!(note.body, "first|second");
    assert!(NotesManager::parse_note_output("no separator here").is_err());
}

#[test]
fn read_script_escapes_apostrophes() {
    let script = NotesManager::read_note_script("jim's list");
    assert!(script.contains("note \"jim\\'s list\""));
    assert!(script.starts_with("tell application \"Notes\""));
    assert!(script.ends_with("end tell"));
    let listing = NotesManager::list_notes_script();
    assert!(listing.contains("repeat with aNote in notes"));
}

#[test]
fn applescript_errors_render_their_reason() {
    let e = AppleScriptError::ExecutionFailed("osascript missing".to_string());
    assert_eq!(e.message(), "script execution failed: osascript missing");
    let p = AppleScriptError::ParseFailed("bad bytes".to_string());
    assert_eq!(p.message(), "script output unreadable: bad bytes");
}

//! The notes-automation plugin's text layer: the scripts sent to the system
//! automation runner and the parsers for what it prints back. Running the
//! scripts is the host's work; everything here is character manipulation,
//! specified over the splitting and trimming rules below.

use vstd::prelude::*;

use crate::strutil::strs;

verus! {

/// What can go wrong running an automation script.
pub enum AppleScriptError {
    /// The runner failed or the script reported an error.
    ExecutionFailed(String),
    /// The runner's output was not readable text.
    ParseFailed(String),
}

impl AppleScriptError {
    /// A plain rendering for callers.
    pub fn message(&self) -> (r: String)
        ensures
            r@ == match *self {
                AppleScriptError::ExecutionFailed(ref m) => "script execution failed: "@ + m@,
                AppleScriptError::ParseFailed(ref m) => "script output unreadable: "@ + m@,
            },
    {
        match self {
            AppleScriptError::ExecutionFailed(m) => {
                let mut r = String::from_str("script execution failed: ");
                r.append(m.as_str());
                r
            },
            AppleScriptError::ParseFailed(m) => {
                let mut r = String::from_str("script output unreadable: ");
                r.append(m.as_str());
                r
            },
        }
    }
}

/// One note: its title and body, with dates when a richer source supplies
/// them.
pub struct Note {
    pub name: String,
    pub body: String,
    pub creation_date: Option<String>,
    pub modification_date: Option<String>,
}

/// `s` split on the separator `c`: always one more piece than separators,
/// with empty pieces kept.
pub open spec fn split_on(s: Seq<char>, c: char) -> Seq<Seq<char>>
    decreases s.len(),
{
    if s.len() == 0 {
        seq![Seq::<char>::empty()]
    } else {
        let rest = split_on(s.drop_last(), c);
        if s.last() == c {
            rest.push(Seq::<char>::empty())
        } else {
            rest.update(rest.len() - 1, rest.last().push(s.last()))
        }
    }
}

/// A split always yields at least one piece.
pub proof fn lemma_split_on_nonempty(s: Seq<char>, c: char)
    ensures
        split_on(s, c).len() >= 1,
    decreases s.len(),
{
    if s.len() > 0 {
        lemma_split_on_nonempty(s.drop_last(), c);
    }
}

/// Splits `s` at every occurrence of `c`.
pub fn split_char(s: &str, c: char) -> (r: Vec<String>)
    ensures
        r@.len() == split_on(s@, c).len(),
        forall|i: int| 0 <= i < r@.len() ==> #[trigger] r@[i]@ == split_on(s@, c)[i],
{
    let n = s.unicode_len();
    let mut parts: Vec<String> = Vec::new();
    let mut current = String::new();
    let mut i: usize = 0;
    while i < n
        invariant
            i <= n,
            n == s@.len(),
            ({
                let sp = split_on(s@.subrange(0, i as int), c);
                &&& parts@.len() + 1 == sp.len()
                &&& forall|j: int| 0 <= j < parts@.len() ==> #[trigger] parts@[j]@ == sp[j]
                &&& current@ == sp.last()
            }),
        decreases n - i,
    {
        let ghost pre = s@.subrange(0, i as int);
        let ghost post = s@.subrange(0, i + 1 as int);
        proof {
            assert(post.drop_last() =~= pre);
            assert(post.last() == s@[i as int]);
            lemma_split_on_nonempty(pre, c);
        }
        let ch = s.get_char(i);
        if ch == c {
            parts.push(current);
            current = String::new();
        } else {
            let piece = s.substring_char(i, i + 1);
            current.append(piece);
            proof {
                assert(current@ =~= split_on(pre, c).last().push(s@[i as int]));
            }
        }
        i += 1;
    }
    parts.push(current);
    proof {
        assert(s@.subrange(0, n as int) =~= s@);
    }
    parts
}

/// The characters the note parser strips from both ends of a piece.
pub open spec fn is_note_trim(ch: char) -> bool {
    ch == '"' || ch == ' ' || ch == '\''
}

/// `s` without its leading stripped characters.
pub open spec fn trim_front(s: Seq<char>) -> Seq<char>
    decreases s.len(),
{
    if s.len() > 0 && is_note_trim(s[0]) {
        trim_front(s.subrange(1, s.len() as int))
    } else {
        s
    }
}

/// `s` without its trailing stripped characters.
pub open spec fn trim_back(s: Seq<char>) -> Seq<char>
    decreases s.len(),
{
    if s.len() > 0 && is_note_trim(s.last()) {
        trim_back(s.drop_last())
    } else {
        s
    }
}

/// `s` without stripped characters at either end.
pub open spec fn trim_quotes(s: Seq<char>) -> Seq<char> {
    trim_back(trim_front(s))
}

/// When the first `a` characters are stripped ones and the one after them is
/// not, trimming the front leaves exactly the tail from `a`.
proof fn lemma_trim_front_at(s: Seq<char>, a: int)
    requires
        0 <= a <= s.len(),
        forall|j: int| 0 <= j < a ==> is_note_trim(s[j]),
        a < s.len() ==> !is_note_trim(s[a]),
    ensures
        trim_front(s) == s.subrange(a, s.len() as int),
    decreases a,
{
    if a == 0 {
        if s.len() > 0 && is_note_trim(s[0]) {
            assert(false);
        }
        assert(trim_front(s) =~= s.subrange(0, s.len() as int));
    } else {
        let t = s.subrange(1, s.len() as int);
        lemma_trim_front_at(t, a - 1);
        assert(trim_front(s) == trim_front(t));
        assert(t.subrange(a - 1, t.len() as int) =~= s.subrange(a, s.len() as int));
    }
}

/// When every character from `b` on is a stripped one and the one before `b`
/// is not, trimming the back leaves exactly the head up to `b`.
proof fn lemma_trim_back_at(s: Seq<char>, b: int)
    requires
        0 <= b <= s.len(),
        forall|j: int| b <= j < s.len() ==> is_note_trim(s[j]),
        b > 0 ==> !is_note_trim(s[b - 1]),
    ensures
        trim_back(s) == s.subrange(0, b),
    decreases s.len() - b,
{
    if b == s.len() {
        if s.len() > 0 && is_note_trim(s.last()) {
            let t = s.drop_last();
            lemma_trim_back_at(t, b - 1);
            assert(t.subrange(0, b - 1) =~= s.subrange(0, b - 1));
            assert(s.subrange(0, b - 1) =~= s.subrange(0, b).drop_last());
            assert(false);
        } else {
            assert(trim_back(s) =~= s.subrange(0, b));
        }
    } else {
        assert(is_note_trim(s.last()));
        let t = s.drop_last();
        lemma_trim_back_at(t, b);
        assert(trim_back(s) == trim_back(t));
        assert(t.subrange(0, b) =~= s.subrange(0, b));
    }
}

/// Whether the character at `i` is one the note parser strips.
fn is_trim_at(s: &str, i: usize) -> (r: bool)
    requires
        i < s@.len(),
    ensures
        r == is_note_trim(s@[i as int]),
{
    let ch = s.get_char(i);
    ch == '"' || ch == ' ' || ch == '\''
}

/// Strips quotes, spaces and apostrophes from both ends.
pub fn trim_quotes_exec(s: &str) -> (r: String)
    ensures
        r@ == trim_quotes(s@),
{
    let n = s.unicode_len();
    let mut a: usize = 0;
    while a < n && is_trim_at(s, a)
        invariant
            a <= n,
            n == s@.len(),
            forall|j: int| 0 <= j < a ==> is_note_trim(s@[j]),
        decreases n - a,
    {
        a += 1;
    }
    proof {
        lemma_trim_front_at(s@, a as int);
    }
    let mut b: usize = n;
    while b > a && is_trim_at(s, b - 1)
        invariant
            a <= b <= n,
            n == s@.len(),
            forall|j: int| b <= j < n ==> is_note_trim(s@[j]),
            forall|j: int| 0 <= j < a ==> is_note_trim(s@[j]),
            a < n ==> !is_note_trim(s@[a as int]),
        decreases b,
    {
        b -= 1;
    }
    // after both scans the kept middle is s[a..b]
    proof {
        let t = s@.subrange(a as int, n as int);
        if b == a {
            lemma_trim_back_at(t, 0);
        } else {
            assert(!is_note_trim(s@[b - 1]));
            assert forall|j: int| b - a <= j < t.len() implies is_note_trim(t[j]) by {
                assert(t[j] == s@[j + a]);
            }
            lemma_trim_back_at(t, b - a as int);
        }
        assert(t.subrange(0, b - a as int) =~= s@.subrange(a as int, b as int));
    }
    let kept = s.substring_char(a, b);
    kept.to_owned()
}

/// The pieces joined back with a separator bar between them.
pub open spec fn join_pipe(parts: Seq<Seq<char>>) -> Seq<char>
    decreases parts.len(),
{
    if parts.len() == 0 {
        Seq::empty()
    } else if parts.len() == 1 {
        parts[0]
    } else {
        join_pipe(parts.drop_last()) + seq!['|'] + parts.last()
    }
}

/// Joins `parts[start..]` with separator bars.
pub fn join_from(parts: &Vec<String>, start: usize) -> (r: String)
    requires
        start <= parts@.len(),
    ensures
        r@ == join_pipe(strs(parts@).subrange(start as int, parts@.len() as int)),
{
    let mut acc = String::new();
    let mut i: usize = start;
    while i < parts.len()
        invariant
            start <= i <= parts@.len(),
            acc@ == join_pipe(strs(parts@).subrange(start as int, i as int)),
        decreases parts@.len() - i,
    {
        if i > start {
            acc.append("|");
            proof {
                reveal_strlit("|");
            }
        }
        acc.append(parts[i].as_str());
        proof {
            let all = strs(parts@);
            let sub1 = all.subrange(start as int, i + 1 as int);
            assert(sub1.drop_last() =~= all.subrange(start as int, i as int));
            assert(sub1.last() == all[i as int]);
            assert(all[i as int] == parts@[i as int]@);
            if i == start {
                assert(acc@ =~= join_pipe(sub1));
            } else {
                assert(acc@ =~= join_pipe(sub1.drop_last()) + seq!['|'] + sub1.last());
            }
        }
        i += 1;
    }
    acc
}

/// What one comma-separated piece of the listing contributes: nothing when
/// it is blank, else a name and a body split at the first bar — bars inside
/// the body are joined back.
pub open spec fn note_of_part(p: Seq<char>) -> Option<(Seq<char>, Seq<char>)> {
    let t = crate::bridge::trimmed_of(p);
    if t.len() == 0 {
        None
    } else {
        let ps = split_on(trim_quotes(t), '|');
        if ps.len() >= 2 {
            Some((ps[0], join_pipe(ps.subrange(1, ps.len() as int))))
        } else {
            Some((ps[0], Seq::empty()))
        }
    }
}

/// The notes contributed by the pieces, in order.
pub open spec fn notes_of_parts(parts: Seq<Seq<char>>) -> Seq<(Seq<char>, Seq<char>)>
    decreases parts.len(),
{
    if parts.len() == 0 {
        Seq::empty()
    } else {
        notes_of_parts(parts.drop_last()) + match note_of_part(parts.last()) {
            Some(nb) => seq![nb],
            None => Seq::empty(),
        }
    }
}

/// Reads and composes notes: everything here goes through the host's script
/// runner, whose output the parsers below interpret.
pub struct NotesManager;

impl NotesManager {
    /// The script that lists every note as `name|body` entries.
    pub fn list_notes_script() -> (r: String)
        ensures
            r@
                == "tell application \"Notes\"\nset noteList to {}\nrepeat with aNote in notes\nset noteName to name of aNote\nset noteBody to body of aNote\nset noteInfo to noteName & \"|\" & noteBody\nset end of noteList to noteInfo\nend repeat\nreturn noteList\nend tell"@,
    {
        String::from_str(
            "tell application \"Notes\"\nset noteList to {}\nrepeat with aNote in notes\nset noteName to name of aNote\nset noteBody to body of aNote\nset noteInfo to noteName & \"|\" & noteBody\nset end of noteList to noteInfo\nend repeat\nreturn noteList\nend tell",
        )
    }

    /// `s` with every apostrophe escaped for embedding in a script literal.
    pub open spec fn escaped_name(s: Seq<char>) -> Seq<char>
        decreases s.len(),
    {
        if s.len() == 0 {
            Seq::empty()
        } else {
            Self::escaped_name(s.drop_last()) + if s.last() == '\'' {
                seq!['\\', '\'']
            } else {
                seq![s.last()]
            }
        }
    }

    /// The script that returns one note as `name|body`.
    pub fn read_note_script(note_name: &str) -> (r: String)
        ensures
            r@ == "tell application \"Notes\"\nset targetNote to note \""@ + Self::escaped_name(
                note_name@,
            )
                + "\"\nset noteName to name of targetNote\nset noteBody to body of targetNote\nreturn noteName & \"|\" & noteBody\nend tell"@,
    {
        let mut escaped = String::new();
        let n = note_name.unicode_len();
        let mut i: usize = 0;
        while i < n
            invariant
                i <= n,
                n == note_name@.len(),
                escaped@ == Self::escaped_name(note_name@.subrange(0, i as int)),
            decreases n - i,
        {
            let ch = note_name.get_char(i);
            if ch == '\'' {
                escaped.append("\\'");
                proof {
                    reveal_strlit("\\'");
                }
            } else {
                let piece = note_name.substring_char(i, i + 1);
                escaped.append(piece);
            }
            proof {
                let sub1 = note_name@.subrange(0, i + 1 as int);
                assert(sub1.drop_last() =~= note_name@.subrange(0, i as int));
                assert(sub1.last() == note_name@[i as int]);
                assert(escaped@ =~= Self::escaped_name(sub1));
            }
            i += 1;
        }
        proof {
            assert(note_name@.subrange(0, n as int) =~= note_name@);
        }
        let mut r = String::from_str("tell application \"Notes\"\nset targetNote to note \"");
        r.append(escaped.as_str());
        r.append(
            "\"\nset noteName to name of targetNote\nset noteBody to body of targetNote\nreturn noteName & \"|\" & noteBody\nend tell",
        );
        r
    }

    /// Parses the listing script's output: comma-separated entries, each
    /// trimmed, blank ones skipped, and each split into name and body at its
    /// first bar. Nothing in the output can make this fail.
    pub fn parse_notes_output(output: &str) -> (r: Result<Vec<Note>, String>)
        ensures
            r matches Ok(ns) && ({
                let expected = notes_of_parts(split_on(output@, ','));
                &&& ns@.len() == expected.len()
                &&& forall|i: int|
                    0 <= i < ns@.len() ==> (#[trigger] ns@[i].name@, ns@[i].body@) == expected[i]
                &&& forall|i: int|
                    0 <= i < ns@.len() ==> (#[trigger] ns@[i].creation_date) is None && ns@[
                        i
                    ].modification_date is None
            }),
    {
        let parts = split_char(output, ',');
        let ghost spec_parts = split_on(output@, ',');
        proof {
            assert(strs(parts@) =~= spec_parts);
        }
        let mut notes: Vec<Note> = Vec::new();
        let mut i: usize = 0;
        while i < parts.len()
            invariant
                i <= parts@.len(),
                strs(parts@) =~= spec_parts,
                ({
                    let expected = notes_of_parts(spec_parts.subrange(0, i as int));
                    &&& notes@.len() == expected.len()
                    &&& forall|j: int|
                        0 <= j < notes@.len() ==> (#[trigger] notes@[j].name@, notes@[j].body@)
                            == expected[j]
                    &&& forall|j: int|
                        0 <= j < notes@.len() ==> (#[trigger] notes@[j].creation_date) is None
                            && notes@[j].modification_date is None
                }),
            decreases parts@.len() - i,
        {
            let ghost presub = spec_parts.subrange(0, i as int);
            let trimmed = crate::bridge::trim_str(parts[i].as_str());
            if trimmed.as_str().unicode_len() > 0 {
                let cleaned = trim_quotes_exec(trimmed.as_str());
                let pieces = split_char(cleaned.as_str(), '|');
                proof {
                    lemma_split_on_nonempty(cleaned@, '|');
                }
                if pieces.len() >= 2 {
                    let body = join_from(&pieces, 1);
                    proof {
                        assert(strs(pieces@).subrange(1, pieces@.len() as int) =~= split_on(
                            cleaned@,
                            '|',
                        ).subrange(1, split_on(cleaned@, '|').len() as int));
                    }
                    notes.push(
                        Note {
                            name: pieces[0].clone(),
                            body,
                            creation_date: None,
                            modification_date: None,
                        },
                    );
                } else {
                    notes.push(
                        Note {
                            name: pieces[0].clone(),
                            body: String::new(),
                            creation_date: None,
                            modification_date: None,
                        },
                    );
                }
            }
            proof {
                let sub1 = spec_parts.subrange(0, i + 1 as int);
                assert(sub1.drop_last() =~= presub);
                assert(sub1.last() == spec_parts[i as int]);
                assert(spec_parts[i as int] == parts@[i as int]@);
            }
            i += 1;
        }
        proof {
            assert(spec_parts.subrange(0, spec_parts.len() as int) =~= spec_parts);
        }
        Ok(notes)
    }

    /// Parses the single-note script's output: `name|body`, with bars inside
    /// the body joined back; output without a bar is no note.
    pub fn parse_note_output(output: &str) -> (r: Result<Note, String>)
        ensures
            ({
                let ps = split_on(output@, '|');
                if ps.len() >= 2 {
                    r matches Ok(n) && n.name@ == ps[0] && n.body@ == join_pipe(
                        ps.subrange(1, ps.len() as int),
                    ) && n.creation_date is None && n.modification_date is None
                } else {
                    r is Err
                }
            }),
    {
        let pieces = split_char(output, '|');
        proof {
            lemma_split_on_nonempty(output@, '|');
        }
        if pieces.len() >= 2 {
            let body = join_from(&pieces, 1);
            proof {
                assert(strs(pieces@).subrange(1, pieces@.len() as int) =~= split_on(
                    output@,
                    '|',
                ).subrange(1, split_on(output@, '|').len() as int));
            }
            Ok(
                Note {
                    name: pieces[0].clone(),
                    body,
                    creation_date: None,
                    modification_date: None,
                },
            )
        } else {
            Err(String::from_str("could not parse the note output"))
        }
    }
}

} // verus!

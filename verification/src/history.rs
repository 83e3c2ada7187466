//! The command history kept by the bridge: records of executed commands and
//! the bounded list they accumulate in. Reading and writing the history file
//! is the host's work; this module builds records, applies the size bound,
//! and names the file.

use vstd::prelude::*;

use crate::bridge::truncated;
use crate::command::{CommandOutput, CommandPlan, NativeCommand};
use crate::strutil::clone_strs;

verus! {

/// One executed command: what was planned, what ran, and what came out,
/// with both streams truncated for storage.
pub struct CommandRecord {
    pub id: String,
    pub display_name: String,
    pub description: String,
    pub program: String,
    pub args: Vec<String>,
    pub working_dir: Option<String>,
    pub status_code: i32,
    pub success: bool,
    pub stdout: String,
    pub stderr: String,
    /// When the command ran, as text the host supplies.
    pub timestamp: String,
}

impl CommandRecord {
    /// Builds the record of one execution; the host supplies the clock
    /// reading.
    pub fn from_execution(
        plan: &CommandPlan,
        native: &NativeCommand,
        output: &CommandOutput,
        timestamp: String,
    ) -> (r: CommandRecord)
        ensures
            r.id@ == plan.id@,
            r.display_name@ == plan.display_name@,
            r.description@ == plan.description@,
            r.program@ == native.program@,
            r.args@.len() == native.args@.len(),
            forall|i: int| 0 <= i < r.args@.len() ==> #[trigger] r.args@[i]@ == native.args@[i]@,
            match (r.working_dir, native.working_dir) {
                (Option::None, Option::None) => true,
                (Option::Some(x), Option::Some(y)) => x@ == y@,
                _ => false,
            },
            r.status_code == output.status_code,
            r.success == output.success,
            r.stdout@ == truncated(output.stdout@, 8000),
            r.stderr@ == truncated(output.stderr@, 8000),
            r.timestamp == timestamp,
    {
        CommandRecord {
            id: plan.id.clone(),
            display_name: plan.display_name.clone(),
            description: plan.description.clone(),
            program: native.program.clone(),
            args: clone_strs(&native.args),
            working_dir: match &native.working_dir {
                Some(d) => Some(d.clone()),
                None => None,
            },
            status_code: output.status_code,
            success: output.success,
            stdout: crate::bridge::truncate(output.stdout.as_str(), 8000),
            stderr: crate::bridge::truncate(output.stderr.as_str(), 8000),
            timestamp,
        }
    }
}

/// Where the history lives and how many records it may hold.
pub struct HistoryStore {
    path: String,
    max_entries: usize,
}

/// The characters after the last separator of a path, or the whole path
/// when it has none.
pub open spec fn last_component(p: Seq<char>) -> Seq<char>
    decreases p.len(),
{
    if p.len() == 0 {
        p
    } else if p.last() == '/' {
        Seq::empty()
    } else if exists|i: int| 0 <= i < p.len() && p[i] == '/' {
        last_component(p.drop_last()).push(p.last())
    } else {
        p
    }
}

impl HistoryStore {
    /// The history file's path.
    pub closed spec fn path_spec(self) -> Seq<char> {
        self.path@
    }

    /// The record bound.
    pub closed spec fn max_spec(self) -> nat {
        self.max_entries as nat
    }

    /// A store over the given file, bounded to `max_entries` records.
    pub fn new(path: String, max_entries: usize) -> (r: HistoryStore)
        ensures
            r.path_spec() == path@,
            r.max_spec() == max_entries as nat,
    {
        HistoryStore { path, max_entries }
    }

    /// Appends a record and drops the oldest ones past the bound; the host
    /// persists the returned list.
    pub fn appended(&self, history: Vec<CommandRecord>, record: CommandRecord) -> (r: Vec<
        CommandRecord,
    >)
        ensures
            ({
                let full = history@.push(record);
                let keep = if full.len() <= self.max_spec() {
                    full.len() as int
                } else {
                    self.max_spec() as int
                };
                r@ == full.subrange(full.len() - keep, full.len() as int)
            }),
    {
        let mut h = history;
        h.push(record);
        let ghost full = h@;
        proof {
            assert(full.subrange(0, full.len() as int) =~= full);
        }
        while h.len() > self.max_entries
            invariant
                h@.len() <= full.len(),
                ({
                    let keep = if full.len() <= self.max_spec() {
                        full.len() as int
                    } else {
                        self.max_spec() as int
                    };
                    h@.len() >= keep && h@ == full.subrange(
                        full.len() - h@.len(),
                        full.len() as int,
                    )
                }),
            decreases h@.len(),
        {
            let ghost preh = h@;
            let _ = h.remove(0);
            proof {
                assert(h@ =~= preh.subrange(1, preh.len() as int));
                assert(h@ =~= full.subrange(full.len() - h@.len(), full.len() as int));
            }
        }
        proof {
            assert(h@.len() <= self.max_spec());
        }
        h
    }

    /// The public URL of the history file inside the plugin's data
    /// directory.
    pub fn public_path(&self, plugin_id: &str) -> (r: String)
        ensures
            r@ == "plugin://localhost/"@ + plugin_id@ + "/data/"@ + (if last_component(
                self.path_spec(),
            ).len() > 0 {
                last_component(self.path_spec())
            } else {
                "command-history.json"@
            }),
    {
        let mut r = String::from_str("plugin://localhost/");
        r.append(plugin_id);
        r.append("/data/");
        let name = self.file_name();
        r.append(name.as_str());
        r
    }

    /// The history file's name: the path's last component, or a default
    /// when the path names none.
    pub fn file_name(&self) -> (r: String)
        ensures
            r@ == if last_component(self.path_spec()).len() > 0 {
                last_component(self.path_spec())
            } else {
                "command-history.json"@
            },
    {
        let n = self.path.as_str().unicode_len();
        let mut cut: usize = 0;
        let mut j: usize = 0;
        while j < n
            invariant
                j <= n,
                cut <= j,
                n == self.path@.len(),
                cut > 0 ==> self.path@[cut - 1] == '/',
                forall|k: int| cut <= k < j ==> self.path@[k] != '/',
            decreases n - j,
        {
            if self.path.as_str().get_char(j) == '/' {
                cut = j + 1;
            }
            j += 1;
        }
        let tail = self.path.as_str().substring_char(cut, n);
        proof {
            lemma_last_component(self.path@, cut as int);
        }
        if tail.unicode_len() > 0 {
            tail.to_owned()
        } else {
            String::from_str("command-history.json")
        }
    }
}

/// When every character from `i` on is no separator, and either `i` is zero
/// or a separator stands just before `i`, the path's last component is
/// exactly the tail from `i`.
proof fn lemma_last_component(p: Seq<char>, i: int)
    requires
        0 <= i <= p.len(),
        forall|j: int| i <= j < p.len() ==> p[j] != '/',
        i > 0 ==> p[i - 1] == '/',
    ensures
        last_component(p) == p.subrange(i, p.len() as int),
    decreases p.len(),
{
    if p.len() == 0 {
        assert(last_component(p) =~= p.subrange(0, 0));
    } else if p.last() == '/' {
        assert(i == p.len());
        assert(last_component(p) =~= p.subrange(i, p.len() as int));
    } else if exists|k: int| 0 <= k < p.len() && p[k] == '/' {
        assert(i > 0);
        let q = p.drop_last();
        assert(p[i - 1] == '/');
        assert(i - 1 < p.len() - 1);
        lemma_last_component(q, i);
        assert(last_component(p) == last_component(q).push(p.last()));
        assert(last_component(p) =~= p.subrange(i, p.len() as int));
    } else {
        assert(i == 0);
        assert(last_component(p) == p);
        assert(last_component(p) =~= p.subrange(0, p.len() as int));
    }
}

} // verus!

//! The command bridge's pure pieces: the directory authorization list, the
//! output truncation rule, and the result text handed back to the model.
//! Path normalization (current directory, canonicalization) is the host's;
//! this module compares already-normalized path strings.

use vstd::prelude::*;

use crate::jsonio::{json_as_array, json_as_str, json_get, value_as_array, value_as_str, value_get};
use crate::strutil::{spec_starts_with, str_eq, str_starts_with};

verus! {

/// Relies on `str::trim`: the text with leading and trailing whitespace
/// removed, a function of the characters alone.
#[verifier::external_body]
pub fn trim_str(s: &str) -> (r: String)
    ensures
        r@ == trimmed_of(s@),
{
    s.trim().to_string()
}

/// What `str::trim` leaves of a text.
pub uninterp spec fn trimmed_of(s: Seq<char>) -> Seq<char>;

/// `s`, cut to at most `limit` characters; when it is longer, one character
/// of the budget is spent on a trailing ellipsis.
pub open spec fn truncated(s: Seq<char>, limit: nat) -> Seq<char> {
    if s.len() <= limit {
        s
    } else if limit == 0 {
        Seq::empty()
    } else {
        s.subrange(0, limit - 1) + seq!['…']
    }
}

/// Cuts a text to at most `limit` characters, ending it with an ellipsis
/// when something was dropped.
pub fn truncate(value: &str, limit: usize) -> (r: String)
    ensures
        r@ == truncated(value@, limit as nat),
{
    let n = value.unicode_len();
    if n <= limit {
        value.to_owned()
    } else if limit == 0 {
        String::new()
    } else {
        let head = value.substring_char(0, limit - 1);
        let mut r = head.to_owned();
        r.append("…");
        proof {
            reveal_strlit("…");
            assert(r@ =~= value@.subrange(0, limit - 1) + seq!['…']);
        }
        r
    }
}

/// The text reported to the model after a command ran: status and command
/// always, stdout and stderr only when they are non-empty after truncation.
pub open spec fn command_result_text(
    status: Seq<char>,
    label: Seq<char>,
    out: Seq<char>,
    err: Seq<char>,
) -> Seq<char> {
    let base = "status: "@ + status + "\n\ncommand: "@ + label;
    let with_out = if truncated(out, 1500).len() > 0 {
        base + "\n\nstdout (truncated):\n"@ + truncated(out, 1500)
    } else {
        base
    };
    if truncated(err, 1500).len() > 0 {
        with_out + "\n\nstderr (truncated):\n"@ + truncated(err, 1500)
    } else {
        with_out
    }
}

/// Formats a command's result for the model, truncating both streams.
pub fn format_command_result(status: &str, plan_label: &str, stdout: &str, stderr: &str) -> (r:
    String)
    ensures
        r@ == command_result_text(status@, plan_label@, stdout@, stderr@),
{
    let mut r = String::from_str("status: ");
    r.append(status);
    r.append("\n\ncommand: ");
    r.append(plan_label);
    let out = truncate(stdout, 1500);
    if out.as_str().unicode_len() > 0 {
        r.append("\n\nstdout (truncated):\n");
        r.append(out.as_str());
    }
    let err = truncate(stderr, 1500);
    if err.as_str().unicode_len() > 0 {
        r.append("\n\nstderr (truncated):\n");
        r.append(err.as_str());
    }
    proof {
        assert(r@ =~= command_result_text(status@, plan_label@, stdout@, stderr@));
    }
    r
}

/// True when the path lies at or under the root, comparing normalized path
/// strings component-wise: equal, or extending the root past a separator.
pub open spec fn path_within(p: Seq<char>, root: Seq<char>) -> bool {
    ||| p == root
    ||| (root == "/"@ && spec_starts_with(p, "/"@))
    ||| spec_starts_with(p, root + "/"@)
}

/// Whether `p` lies at or under `root`.
pub fn path_within_exec(p: &str, root: &str) -> (r: bool)
    ensures
        r == path_within(p@, root@),
{
    if str_eq(p, root) {
        return true;
    }
    if str_eq(root, "/") && str_starts_with(p, "/") {
        return true;
    }
    let mut prefix = root.to_owned();
    prefix.append("/");
    str_starts_with(p, prefix.as_str())
}

/// The directories the bridge may touch, as normalized path strings.
pub struct BridgeConfig {
    allowed_roots: Vec<String>,
}

impl BridgeConfig {
    /// The authorized roots.
    pub closed spec fn roots_spec(self) -> Seq<Seq<char>> {
        crate::strutil::strs(self.allowed_roots@)
    }

    /// True when some authorized root covers `p`.
    pub open spec fn allows(self, p: Seq<char>) -> bool {
        exists|i: int| 0 <= i < self.roots_spec().len() && path_within(p, self.roots_spec()[i])
    }

    /// A configuration holding exactly the given roots.
    pub fn from_roots(roots: Vec<String>) -> (r: BridgeConfig)
        ensures
            r.roots_spec() == crate::strutil::strs(roots@),
    {
        BridgeConfig { allowed_roots: roots }
    }

    /// Adds the path as a new root unless an existing root already covers
    /// it.
    pub fn ensure_root(&mut self, path: &str)
        ensures
            old(self).allows(path@) ==> *final(self) == *old(self),
            !old(self).allows(path@) ==> final(self).roots_spec() == old(self).roots_spec().push(
                path@,
            ),
    {
        let mut i: usize = 0;
        while i < self.allowed_roots.len()
            invariant
                i <= self.allowed_roots@.len(),
                forall|j: int| 0 <= j < i ==> !path_within(path@, self.roots_spec()[j]),
            decreases self.allowed_roots@.len() - i,
        {
            if path_within_exec(path, self.allowed_roots[i].as_str()) {
                proof {
                    assert(self.roots_spec()[i as int] == self.allowed_roots@[i as int]@);
                }
                return ;
            }
            i += 1;
        }
        let ghost pre = self.roots_spec();
        self.allowed_roots.push(path.to_owned());
        proof {
            assert(self.roots_spec() =~= pre.push(path@));
        }
    }

    /// Whether the path lies under some authorized root.
    pub fn is_allowed(&self, path: &str) -> (r: bool)
        ensures
            r == self.allows(path@),
    {
        let mut i: usize = 0;
        while i < self.allowed_roots.len()
            invariant
                i <= self.allowed_roots@.len(),
                forall|j: int| 0 <= j < i ==> !path_within(path@, self.roots_spec()[j]),
            decreases self.allowed_roots@.len() - i,
        {
            if path_within_exec(path, self.allowed_roots[i].as_str()) {
                proof {
                    assert(self.roots_spec()[i as int] == self.allowed_roots@[i as int]@);
                }
                return true;
            }
            i += 1;
        }
        false
    }

    /// The authorized roots, for display.
    pub fn allowed_roots(&self) -> (r: Vec<String>)
        ensures
            r@.len() == self.roots_spec().len(),
            forall|i: int| 0 <= i < r@.len() ==> #[trigger] r@[i]@ == self.roots_spec()[i],
    {
        crate::strutil::clone_strs(&self.allowed_roots)
    }

    /// The authorized roots, for further checks.
    pub fn allowed_root_paths(&self) -> (r: Vec<String>)
        ensures
            r@.len() == self.roots_spec().len(),
            forall|i: int| 0 <= i < r@.len() ==> #[trigger] r@[i]@ == self.roots_spec()[i],
    {
        crate::strutil::clone_strs(&self.allowed_roots)
    }
}

/// Keeps, in order, the trimmed texts that are non-empty.
pub open spec fn kept_roots(elems: Seq<Seq<char>>) -> Seq<Seq<char>>
    decreases elems.len(),
{
    if elems.len() == 0 {
        Seq::empty()
    } else {
        kept_roots(elems.drop_last()) + if trimmed_of(elems.last()).len() > 0 {
            seq![trimmed_of(elems.last())]
        } else {
            Seq::empty()
        }
    }
}

/// The string elements of the `allowed_roots` member, when it is an array of
/// strings.
pub open spec fn roots_member_of(v: serde_json::Value) -> Option<Seq<serde_json::Value>> {
    match json_get(v, "allowed_roots"@) {
        None => None,
        Some(f) => json_as_array(f),
    }
}

/// Whether the configuration offers usable roots: an `allowed_roots` list
/// of strings with something left after trimming.
pub open spec fn roots_usable(v: serde_json::Value) -> bool {
    match roots_member_of(v) {
        Some(elems) => (forall|i: int|
            0 <= i < elems.len() ==> json_as_str(#[trigger] elems[i]) is Some) && kept_roots(
            elems.map_values(|e: serde_json::Value| json_as_str(e).unwrap()),
        ).len() > 0,
        None => false,
    }
}

/// Reads the configured roots out of a configuration value: the trimmed,
/// non-empty entries of its `allowed_roots` list. Nothing comes back exactly
/// when the member is missing or ill-typed, or when nothing useful remains —
/// the caller then falls back to its default roots.
#[verifier::loop_isolation(false)]
pub fn roots_from_value(v: &serde_json::Value) -> (r: Option<Vec<String>>)
    ensures
        r is Some <==> roots_usable(*v),
        match r {
            Some(roots) => {
                &&& roots_member_of(*v) matches Some(elems) && (forall|i: int|
                    0 <= i < elems.len() ==> json_as_str(#[trigger] elems[i]) is Some)
                    && crate::strutil::strs(roots@) == kept_roots(
                    elems.map_values(|e: serde_json::Value| json_as_str(e).unwrap()),
                ) && roots@.len() > 0
            },
            None => true,
        },
{
    let f = match value_get(v, "allowed_roots") {
        None => {
            return None;
        },
        Some(f) => f,
    };
    let elems = match value_as_array(f) {
        Some(a) => a,
        None => {
            return None;
        },
    };
    let ghost evs = json_as_array(*f).unwrap();
    let ghost mapped = evs.map_values(|e: serde_json::Value| json_as_str(e).unwrap());
    let mut out: Vec<String> = Vec::new();
    let mut i: usize = 0;
    while i < elems.len()
        invariant
            i <= elems@.len(),
            elems@ == evs,
            forall|j: int| 0 <= j < i ==> json_as_str(#[trigger] evs[j]) is Some,
            crate::strutil::strs(out@) == kept_roots(mapped.subrange(0, i as int)),
        decreases elems@.len() - i,
    {
        let s = match value_as_str(&elems[i]) {
            Some(s) => s,
            None => {
                return None;
            },
        };
        let t = trim_str(s.as_str());
        let ghost preout = crate::strutil::strs(out@);
        if t.as_str().unicode_len() > 0 {
            out.push(t);
        }
        proof {
            let sub1 = mapped.subrange(0, i + 1 as int);
            assert(sub1.drop_last() =~= mapped.subrange(0, i as int));
            assert(sub1.last() == mapped[i as int]);
            assert(mapped[i as int] == s@);
            assert(crate::strutil::strs(out@) =~= kept_roots(sub1));
        }
        i += 1;
    }
    proof {
        assert(mapped.subrange(0, mapped.len() as int) =~= mapped);
    }
    if out.len() == 0 {
        None
    } else {
        Some(out)
    }
}

} // verus!

//! Target-directory resolution for the command bridge. The home directory
//! and the current working directory are facts of the environment, so the
//! host passes them in; everything else is character work.

use vstd::prelude::*;

use crate::bridge::{trim_str, trimmed_of};
use crate::strutil::{spec_starts_with, str_eq, str_starts_with};

verus! {

/// What a path argument expands to: a leading tilde component becomes the
/// home directory when one is known.
pub open spec fn expanded_path(input: Seq<char>, home: Option<Seq<char>>) -> Seq<char> {
    match home {
        Some(h) => if spec_starts_with(input, "~/"@) {
            h + input.subrange(1, input.len() as int)
        } else if input == "~"@ {
            h
        } else {
            input
        },
        None => input,
    }
}

/// Path helpers for turning user arguments into directories.
pub struct PathUtils;

impl PathUtils {
    /// Expands a leading tilde against the home directory the host found.
    pub fn expand_path(input: &str, home: Option<&str>) -> (r: String)
        ensures
            r@ == expanded_path(
                input@,
                match home {
                    Some(h) => Some(h@),
                    None => None,
                },
            ),
    {
        let h = match home {
            Some(h) => h,
            None => {
                return input.to_owned();
            },
        };
        if str_starts_with(input, "~/") {
            proof {
                reveal_strlit("~/");
            }
            let mut r = h.to_owned();
            let n = input.unicode_len();
            let rest = input.substring_char(1, n);
            r.append(rest);
            proof {
                assert(r@ =~= h@ + input@.subrange(1, input@.len() as int));
            }
            r
        } else if str_eq(input, "~") {
            h.to_owned()
        } else {
            input.to_owned()
        }
    }

    /// Resolves the target directory argument: a given path is trimmed and
    /// tilde-expanded, and must not be blank; without one the current
    /// working directory is the target.
    pub fn resolve_directory(arg: Option<&str>, home: Option<&str>, cwd: &str) -> (r: Result<
        String,
        String,
    >)
        ensures
            match arg {
                Some(raw) => if trimmed_of(raw@).len() == 0 {
                    r is Err
                } else {
                    r matches Ok(p) && p@ == expanded_path(
                        trimmed_of(raw@),
                        match home {
                            Some(h) => Some(h@),
                            None => None,
                        },
                    )
                },
                None => r matches Ok(p) && p@ == cwd@,
            },
    {
        match arg {
            Some(raw) => {
                let trimmed = trim_str(raw);
                if trimmed.as_str().unicode_len() == 0 {
                    Err(String::from_str("the target directory must not be empty"))
                } else {
                    Ok(Self::expand_path(trimmed.as_str(), home))
                }
            },
            None => Ok(cwd.to_owned()),
        }
    }
}

} // verus!

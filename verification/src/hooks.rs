//! The hook dispatcher: a many-to-many index from hook names to subscriber
//! plugin ids, with its mirror from plugin ids to hook names so that a full
//! unsubscription only walks that plugin's own entries.

use vstd::prelude::*;

use crate::strutil::{
    clone_strs, contains_str, distinct_strs, push_unique, remove_str, seq_has_str, str_eq,
};

verus! {

/// A hook response: the plugin that answered and the JSON value it returned.
pub struct HookResult {
    pub plugin_id: String,
    pub data: serde_json::Value,
}

/// True when the keys of the association list are pairwise distinct and every
/// entry holds a non-empty vector of distinct values.
pub open spec fn assoc_wf(m: Seq<(String, Vec<String>)>) -> bool {
    &&& forall|i: int, j: int| 0 <= i < j < m.len() ==> m[i].0@ != m[j].0@
    &&& forall|i: int| 0 <= i < m.len() ==> distinct_strs(#[trigger] m[i].1@)
    &&& forall|i: int| 0 <= i < m.len() ==> (#[trigger] m[i].1@).len() > 0
}

/// True when the association list holds `v` under the key `k`.
pub open spec fn assoc_has(m: Seq<(String, Vec<String>)>, k: Seq<char>, v: Seq<char>) -> bool {
    exists|i: int| 0 <= i < m.len() && m[i].0@ == k && seq_has_str(m[i].1@, v)
}

/// True when the association list holds an entry for the key `k`.
pub open spec fn assoc_has_key(m: Seq<(String, Vec<String>)>, k: Seq<char>) -> bool {
    exists|i: int| 0 <= i < m.len() && m[i].0@ == k
}

/// Index of the entry for `k`, if one exists.
fn assoc_find(m: &Vec<(String, Vec<String>)>, k: &str) -> (r: Option<usize>)
    ensures
        match r {
            Some(i) => i < m@.len() && m@[i as int].0@ == k@,
            None => !assoc_has_key(m@, k@),
        },
{
    let mut i: usize = 0;
    while i < m.len()
        invariant
            i <= m@.len(),
            forall|j: int| 0 <= j < i ==> m@[j].0@ != k@,
        decreases m@.len() - i,
    {
        if str_eq(m[i].0.as_str(), k) {
            return Some(i);
        }
        i += 1;
    }
    None
}

/// Inserts the pair `(k, v)`, creating the entry for `k` when absent.
fn assoc_insert(m: &mut Vec<(String, Vec<String>)>, k: &str, v: &str)
    requires
        assoc_wf(old(m)@),
    ensures
        assoc_wf(final(m)@),
        forall|k2: Seq<char>, v2: Seq<char>|
            assoc_has(final(m)@, k2, v2) <==> (assoc_has(old(m)@, k2, v2) || (k2 == k@ && v2
                == v@)),
        forall|k2: Seq<char>|
            assoc_has_key(final(m)@, k2) <==> (assoc_has_key(old(m)@, k2) || k2 == k@),
{
    let ghost pre = m@;
    match assoc_find(m, k) {
        Some(i) => {
            let mut entry = m.remove(i);
            push_unique(&mut entry.1, v);
            let ghost grown = entry.1@;
            m.push(entry);
            proof {
                let post = m@;
                assert(post.len() == pre.len());
                assert(post[post.len() - 1].0@ == k@);
                assert(post[post.len() - 1].1@ == grown);
                // every original entry survives, either in place or at the end
                assert forall|k2: Seq<char>, v2: Seq<char>|
                    assoc_has(post, k2, v2) <==> (assoc_has(pre, k2, v2) || (k2 == k@ && v2
                        == v@)) by {
                    if assoc_has(pre, k2, v2) {
                        let a = choose|a: int|
                            0 <= a < pre.len() && pre[a].0@ == k2 && seq_has_str(pre[a].1@, v2);
                        if a == i {
                            assert(seq_has_str(grown, v2));
                            assert(post[post.len() - 1].0@ == k2);
                        } else if a < i {
                            assert(post[a] == pre[a]);
                        } else {
                            assert(post[a - 1] == pre[a]);
                        }
                    }
                    if k2 == k@ && v2 == v@ {
                        assert(seq_has_str(grown, v2));
                    }
                    if assoc_has(post, k2, v2) {
                        let a = choose|a: int|
                            0 <= a < post.len() && post[a].0@ == k2 && seq_has_str(post[a].1@, v2);
                        if a == post.len() - 1 {
                            assert(k2 == k@);
                            assert(seq_has_str(grown, v2));
                            if v2 != v@ {
                                assert(seq_has_str(pre[i as int].1@, v2));
                                assert(assoc_has(pre, k2, v2));
                            }
                        } else if a < i {
                            assert(pre[a] == post[a]);
                            assert(assoc_has(pre, k2, v2));
                        } else {
                            assert(pre[a + 1] == post[a]);
                            assert(assoc_has(pre, k2, v2));
                        }
                    }
                }
                assert forall|k2: Seq<char>|
                    assoc_has_key(post, k2) <==> (assoc_has_key(pre, k2) || k2 == k@) by {
                    if assoc_has_key(pre, k2) {
                        let a = choose|a: int| 0 <= a < pre.len() && pre[a].0@ == k2;
                        if a == i {
                            assert(post[post.len() - 1].0@ == k2);
                        } else if a < i {
                            assert(post[a].0@ == k2);
                        } else {
                            assert(post[a - 1].0@ == k2);
                        }
                    }
                    if assoc_has_key(post, k2) {
                        let a = choose|a: int| 0 <= a < post.len() && post[a].0@ == k2;
                        if a == post.len() - 1 {
                        } else if a < i {
                            assert(pre[a].0@ == k2);
                        } else {
                            assert(pre[a + 1].0@ == k2);
                        }
                    }
                }
                assert forall|a: int, b: int|
                    0 <= a < b < post.len() implies post[a].0@ != post[b].0@ by {
                    let a0 = if a < i {
                        a
                    } else {
                        a + 1
                    };
                    if b == post.len() - 1 {
                        assert(post[a].0@ == pre[a0].0@);
                        assert(post[b].0@ == pre[i as int].0@);
                        assert(a0 != i);
                    } else {
                        let b0 = if b < i {
                            b
                        } else {
                            b + 1
                        };
                        assert(post[a].0@ == pre[a0].0@);
                        assert(post[b].0@ == pre[b0].0@);
                    }
                }
                assert forall|a: int| 0 <= a < post.len() implies distinct_strs(
                    #[trigger] post[a].1@,
                ) && post[a].1@.len() > 0 by {
                    if a == post.len() - 1 {
                        assert(post[a].1@ == grown);
                    } else if a < i {
                        assert(post[a] == pre[a]);
                    } else {
                        assert(post[a] == pre[a + 1]);
                    }
                }
            }
        },
        None => {
            let mut vals: Vec<String> = Vec::new();
            vals.push(v.to_owned());
            m.push((k.to_owned(), vals));
            proof {
                let post = m@;
                assert(post[post.len() - 1].0@ == k@);
                assert(post[post.len() - 1].1@[0]@ == v@);
                assert forall|k2: Seq<char>, v2: Seq<char>|
                    assoc_has(post, k2, v2) <==> (assoc_has(pre, k2, v2) || (k2 == k@ && v2
                        == v@)) by {
                    if assoc_has(pre, k2, v2) {
                        let a = choose|a: int|
                            0 <= a < pre.len() && pre[a].0@ == k2 && seq_has_str(pre[a].1@, v2);
                        assert(post[a].0@ == k2 && seq_has_str(post[a].1@, v2));
                    }
                    if k2 == k@ && v2 == v@ {
                        assert(seq_has_str(post[post.len() - 1].1@, v2));
                    }
                    if assoc_has(post, k2, v2) {
                        let a = choose|a: int|
                            0 <= a < post.len() && post[a].0@ == k2 && seq_has_str(post[a].1@, v2);
                        if a < pre.len() {
                            assert(assoc_has(pre, k2, v2));
                        } else {
                            let b = choose|b: int|
                                0 <= b < post[a].1@.len() && post[a].1@[b]@ == v2;
                            assert(b == 0);
                        }
                    }
                }
                assert forall|k2: Seq<char>|
                    assoc_has_key(post, k2) <==> (assoc_has_key(pre, k2) || k2 == k@) by {
                    if assoc_has_key(pre, k2) {
                        let a = choose|a: int| 0 <= a < pre.len() && pre[a].0@ == k2;
                        assert(post[a].0@ == k2);
                    }
                    if assoc_has_key(post, k2) {
                        let a = choose|a: int| 0 <= a < post.len() && post[a].0@ == k2;
                        if a < pre.len() {
                            assert(pre[a].0@ == k2);
                        }
                    }
                }
                assert forall|a: int, b: int|
                    0 <= a < b < post.len() implies post[a].0@ != post[b].0@ by {
                    if b == post.len() - 1 {
                        assert(post[a] == pre[a]);
                        assert(!assoc_has_key(pre, k@));
                    } else {
                        assert(post[a] == pre[a]);
                        assert(post[b] == pre[b]);
                    }
                }
            }
        },
    }
}

/// Removes the pair `(k, v)` and prunes the entry for `k` when it empties.
fn assoc_remove(m: &mut Vec<(String, Vec<String>)>, k: &str, v: &str)
    requires
        assoc_wf(old(m)@),
    ensures
        assoc_wf(final(m)@),
        forall|k2: Seq<char>, v2: Seq<char>|
            assoc_has(final(m)@, k2, v2) <==> (assoc_has(old(m)@, k2, v2) && !(k2 == k@ && v2
                == v@)),
{
    let ghost pre = m@;
    match assoc_find(m, k) {
        Some(i) => {
            let mut entry = m.remove(i);
            remove_str(&mut entry.1, v);
            let ghost shrunk = entry.1@;
            if entry.1.len() > 0 {
                m.push(entry);
            }
            proof {
                let post = m@;
                let kept = shrunk.len() > 0;
                assert forall|k2: Seq<char>, v2: Seq<char>|
                    assoc_has(post, k2, v2) <==> (assoc_has(pre, k2, v2) && !(k2 == k@ && v2
                        == v@)) by {
                    if assoc_has(pre, k2, v2) && !(k2 == k@ && v2 == v@) {
                        let a = choose|a: int|
                            0 <= a < pre.len() && pre[a].0@ == k2 && seq_has_str(pre[a].1@, v2);
                        if a == i {
                            assert(k2 == k@);
                            assert(seq_has_str(shrunk, v2));
                            assert(kept);
                            assert(post[post.len() - 1].0@ == k2);
                        } else if a < i {
                            assert(post[a] == pre[a]);
                            assert(seq_has_str(post[a].1@, v2));
                        } else {
                            assert(post[a - 1] == pre[a]);
                            assert(seq_has_str(post[a - 1].1@, v2));
                        }
                    }
                    if assoc_has(post, k2, v2) {
                        let a = choose|a: int|
                            0 <= a < post.len() && post[a].0@ == k2 && seq_has_str(post[a].1@, v2);
                        if kept && a == post.len() - 1 {
                            assert(k2 == k@);
                            assert(seq_has_str(shrunk, v2));
                            assert(seq_has_str(pre[i as int].1@, v2) && v2 != v@);
                            assert(assoc_has(pre, k2, v2));
                        } else if a < i {
                            assert(pre[a] == post[a]);
                            assert(assoc_has(pre, k2, v2));
                            assert(k2 != k@);
                        } else {
                            assert(pre[a + 1] == post[a]);
                            assert(assoc_has(pre, k2, v2));
                            assert(k2 != k@);
                        }
                    }
                }
                assert forall|a: int, b: int|
                    0 <= a < b < post.len() implies post[a].0@ != post[b].0@ by {
                    let a0 = if a < i {
                        a
                    } else {
                        a + 1
                    };
                    if kept && b == post.len() - 1 {
                        assert(post[a].0@ == pre[a0].0@);
                        assert(post[b].0@ == pre[i as int].0@);
                        assert(a0 != i);
                    } else {
                        let b0 = if b < i {
                            b
                        } else {
                            b + 1
                        };
                        assert(post[a].0@ == pre[a0].0@);
                        assert(post[b].0@ == pre[b0].0@);
                    }
                }
                assert forall|a: int| 0 <= a < post.len() implies distinct_strs(
                    #[trigger] post[a].1@,
                ) && post[a].1@.len() > 0 by {
                    if kept && a == post.len() - 1 {
                        assert(post[a].1@ == shrunk);
                    } else if a < i {
                        assert(post[a] == pre[a]);
                    } else {
                        assert(post[a] == pre[a + 1]);
                    }
                }
            }
        },
        None => {
            proof {
                assert forall|k2: Seq<char>, v2: Seq<char>|
                    assoc_has(m@, k2, v2) <==> (assoc_has(pre, k2, v2) && !(k2 == k@ && v2
                        == v@)) by {
                    if assoc_has(pre, k2, v2) && k2 == k@ {
                        assert(assoc_has_key(pre, k@));
                    }
                }
            }
        },
    }
}

/// Removes the whole entry for `k` and hands back its values.
fn assoc_take(m: &mut Vec<(String, Vec<String>)>, k: &str) -> (r: Option<Vec<String>>)
    requires
        assoc_wf(old(m)@),
    ensures
        assoc_wf(final(m)@),
        !assoc_has_key(final(m)@, k@),
        forall|k2: Seq<char>, v2: Seq<char>|
            assoc_has(final(m)@, k2, v2) <==> (assoc_has(old(m)@, k2, v2) && k2 != k@),
        match r {
            Some(vals) => distinct_strs(vals@) && (forall|v2: Seq<char>|
                seq_has_str(vals@, v2) <==> assoc_has(old(m)@, k@, v2)),
            None => !assoc_has_key(old(m)@, k@),
        },
{
    let ghost pre = m@;
    match assoc_find(m, k) {
        Some(i) => {
            let entry = m.remove(i);
            proof {
                let post = m@;
                assert forall|k2: Seq<char>, v2: Seq<char>|
                    assoc_has(post, k2, v2) <==> (assoc_has(pre, k2, v2) && k2 != k@) by {
                    if assoc_has(post, k2, v2) {
                        let a = choose|a: int|
                            0 <= a < post.len() && post[a].0@ == k2 && seq_has_str(post[a].1@, v2);
                        let a0 = if a < i {
                            a
                        } else {
                            a + 1
                        };
                        assert(pre[a0] == post[a]);
                        assert(a0 != i);
                        assert(k2 != k@);
                    }
                    if assoc_has(pre, k2, v2) && k2 != k@ {
                        let a = choose|a: int|
                            0 <= a < pre.len() && pre[a].0@ == k2 && seq_has_str(pre[a].1@, v2);
                        assert(a != i);
                        if a < i {
                            assert(post[a] == pre[a]);
                        } else {
                            assert(post[a - 1] == pre[a]);
                        }
                    }
                }
                assert forall|k2: Seq<char>|
                    assoc_has_key(post, k2) implies k2 != k@ || false by {
                    if assoc_has_key(post, k2) && k2 == k@ {
                        let a = choose|a: int| 0 <= a < post.len() && post[a].0@ == k2;
                        let a0 = if a < i {
                            a
                        } else {
                            a + 1
                        };
                        assert(pre[a0].0@ == k@);
                        assert(a0 != i);
                        assert(pre[i as int].0@ == k@);
                    }
                }
                assert forall|a: int, b: int|
                    0 <= a < b < post.len() implies post[a].0@ != post[b].0@ by {
                    let a0 = if a < i {
                        a
                    } else {
                        a + 1
                    };
                    let b0 = if b < i {
                        b
                    } else {
                        b + 1
                    };
                    assert(post[a].0@ == pre[a0].0@);
                    assert(post[b].0@ == pre[b0].0@);
                }
                assert forall|a: int| 0 <= a < post.len() implies distinct_strs(
                    #[trigger] post[a].1@,
                ) && post[a].1@.len() > 0 by {
                    if a < i {
                        assert(post[a] == pre[a]);
                    } else {
                        assert(post[a] == pre[a + 1]);
                    }
                }
                assert forall|v2: Seq<char>|
                    seq_has_str(entry.1@, v2) <==> assoc_has(pre, k@, v2) by {
                    if assoc_has(pre, k@, v2) {
                        let a = choose|a: int|
                            0 <= a < pre.len() && pre[a].0@ == k@ && seq_has_str(pre[a].1@, v2);
                        assert(a == i);
                    }
                }
            }
            Some(entry.1)
        },
        None => {
            proof {
                assert forall|k2: Seq<char>, v2: Seq<char>|
                    assoc_has(m@, k2, v2) <==> (assoc_has(pre, k2, v2) && k2 != k@) by {
                    if assoc_has(pre, k2, v2) && k2 == k@ {
                        assert(assoc_has_key(pre, k@));
                    }
                }
            }
            None
        },
    }
}

/// The values under `k`, cloned; empty when the key is absent.
fn assoc_get_clone(m: &Vec<(String, Vec<String>)>, k: &str) -> (r: Vec<String>)
    requires
        assoc_wf(m@),
    ensures
        distinct_strs(r@),
        forall|v2: Seq<char>| seq_has_str(r@, v2) <==> assoc_has(m@, k@, v2),
{
    match assoc_find(m, k) {
        Some(i) => {
            let r = clone_strs(&m[i].1);
            proof {
                assert forall|v2: Seq<char>|
                    seq_has_str(r@, v2) <==> assoc_has(m@, k@, v2) by {
                    if seq_has_str(r@, v2) {
                        let b = choose|b: int| 0 <= b < r@.len() && r@[b]@ == v2;
                        assert(m@[i as int].1@[b]@ == v2);
                    }
                    if assoc_has(m@, k@, v2) {
                        let a = choose|a: int|
                            0 <= a < m@.len() && m@[a].0@ == k@ && seq_has_str(m@[a].1@, v2);
                        assert(a == i);
                        let b = choose|b: int|
                            0 <= b < m@[a].1@.len() && m@[a].1@[b]@ == v2;
                        assert(r@[b]@ == v2);
                    }
                }
                assert forall|a: int, b: int|
                    0 <= a < b < r@.len() implies r@[a]@ != r@[b]@ by {
                    assert(r@[a]@ == m@[i as int].1@[a]@);
                    assert(r@[b]@ == m@[i as int].1@[b]@);
                }
            }
            r
        },
        None => {
            let r: Vec<String> = Vec::new();
            proof {
                assert forall|v2: Seq<char>|
                    seq_has_str(r@, v2) <==> assoc_has(m@, k@, v2) by {
                    if assoc_has(m@, k@, v2) {
                        assert(assoc_has_key(m@, k@));
                    }
                }
            }
            r
        },
    }
}

/// The keys of the association list, cloned.
fn assoc_keys_clone(m: &Vec<(String, Vec<String>)>) -> (r: Vec<String>)
    requires
        assoc_wf(m@),
    ensures
        distinct_strs(r@),
        forall|k2: Seq<char>| seq_has_str(r@, k2) <==> assoc_has_key(m@, k2),
{
    let mut r: Vec<String> = Vec::new();
    let mut i: usize = 0;
    while i < m.len()
        invariant
            i <= m@.len(),
            r@.len() == i,
            forall|j: int| 0 <= j < i ==> r@[j]@ == m@[j].0@,
            assoc_wf(m@),
        decreases m@.len() - i,
    {
        r.push(m[i].0.clone());
        i += 1;
    }
    proof {
        assert forall|k2: Seq<char>| seq_has_str(r@, k2) <==> assoc_has_key(m@, k2) by {
            if seq_has_str(r@, k2) {
                let a = choose|a: int| 0 <= a < r@.len() && r@[a]@ == k2;
                assert(m@[a].0@ == k2);
            }
            if assoc_has_key(m@, k2) {
                let a = choose|a: int| 0 <= a < m@.len() && m@[a].0@ == k2;
                assert(r@[a]@ == k2);
            }
        }
        assert forall|a: int, b: int| 0 <= a < b < r@.len() implies r@[a]@ != r@[b]@ by {
            assert(r@[a]@ == m@[a].0@);
            assert(r@[b]@ == m@[b].0@);
        }
    }
    r
}

/// Dispatches host events to the plugins that asked for them: a forward map
/// from hook name to subscriber ids and a mirror from plugin id to hook names.
pub struct HookDispatcher {
    hooks: Vec<(String, Vec<String>)>,
    plugin_hooks: Vec<(String, Vec<String>)>,
}

impl HookDispatcher {
    /// Both maps are well formed and each records exactly the other's pairs.
    pub closed spec fn wf(self) -> bool {
        &&& assoc_wf(self.hooks@)
        &&& assoc_wf(self.plugin_hooks@)
        &&& forall|h: Seq<char>, p: Seq<char>|
            assoc_has(self.hooks@, h, p) <==> assoc_has(self.plugin_hooks@, p, h)
    }

    /// True when the plugin `id` is subscribed to the hook `hook`.
    pub closed spec fn subscribed(self, hook: Seq<char>, id: Seq<char>) -> bool {
        assoc_has(self.hooks@, hook, id)
    }

    /// An empty dispatcher.
    pub fn new() -> (r: HookDispatcher)
        ensures
            r.wf(),
            forall|h: Seq<char>, p: Seq<char>| !r.subscribed(h, p),
    {
        HookDispatcher { hooks: Vec::new(), plugin_hooks: Vec::new() }
    }

    /// Subscribes `plugin_id` to `hook_name`; anything already subscribed
    /// stays subscribed.
    pub fn register(&mut self, hook_name: &str, plugin_id: &str)
        requires
            old(self).wf(),
        ensures
            final(self).wf(),
            forall|h: Seq<char>, p: Seq<char>|
                final(self).subscribed(h, p) <==> (old(self).subscribed(h, p) || (h == hook_name@
                    && p == plugin_id@)),
    {
        assoc_insert(&mut self.hooks, hook_name, plugin_id);
        assoc_insert(&mut self.plugin_hooks, plugin_id, hook_name);
    }

    /// Subscribes `plugin_id` to every hook named in `hooks`.
    pub fn register_many(&mut self, hooks: &Vec<String>, plugin_id: &str)
        requires
            old(self).wf(),
        ensures
            final(self).wf(),
            forall|h: Seq<char>, p: Seq<char>|
                final(self).subscribed(h, p) <==> (old(self).subscribed(h, p) || (seq_has_str(
                    hooks@,
                    h,
                ) && p == plugin_id@)),
    {
        let mut i: usize = 0;
        while i < hooks.len()
            invariant
                i <= hooks@.len(),
                self.wf(),
                forall|h: Seq<char>, p: Seq<char>|
                    self.subscribed(h, p) <==> (old(self).subscribed(h, p) || (
                    exists|j: int| 0 <= j < i && hooks@[j]@ == h && p == plugin_id@)),
            decreases hooks@.len() - i,
        {
            self.register(hooks[i].as_str(), plugin_id);
            i += 1;
        }
    }

    /// Drops the one subscription of `plugin_id` to `hook_name`.
    pub fn unregister(&mut self, hook_name: &str, plugin_id: &str)
        requires
            old(self).wf(),
        ensures
            final(self).wf(),
            forall|h: Seq<char>, p: Seq<char>|
                final(self).subscribed(h, p) <==> (old(self).subscribed(h, p) && !(h == hook_name@
                    && p == plugin_id@)),
    {
        assoc_remove(&mut self.hooks, hook_name, plugin_id);
        assoc_remove(&mut self.plugin_hooks, plugin_id, hook_name);
    }

    /// Drops every subscription of `plugin_id`, walking only that plugin's
    /// own entry in the mirror map.
    pub fn unregister_all(&mut self, plugin_id: &str)
        requires
            old(self).wf(),
        ensures
            final(self).wf(),
            forall|h: Seq<char>, p: Seq<char>|
                final(self).subscribed(h, p) <==> (old(self).subscribed(h, p) && p != plugin_id@),
    {
        let ghost pre = *self;
        match assoc_take(&mut self.plugin_hooks, plugin_id) {
            Some(names) => {
                let mut i: usize = 0;
                while i < names.len()
                    invariant
                        i <= names@.len(),
                        assoc_wf(self.hooks@),
                        distinct_strs(names@),
                        assoc_wf(self.plugin_hooks@),
                        !assoc_has_key(self.plugin_hooks@, plugin_id@),
                        forall|k2: Seq<char>, v2: Seq<char>|
                            assoc_has(self.plugin_hooks@, k2, v2) <==> (assoc_has(
                                pre.plugin_hooks@,
                                k2,
                                v2,
                            ) && k2 != plugin_id@),
                        forall|v2: Seq<char>|
                            seq_has_str(names@, v2) <==> assoc_has(
                                pre.plugin_hooks@,
                                plugin_id@,
                                v2,
                            ),
                        forall|h: Seq<char>, p: Seq<char>|
                            #![trigger assoc_has(self.hooks@, h, p)]
                            #![trigger assoc_has(pre.hooks@, h, p)]
                            p != plugin_id@ ==> (assoc_has(self.hooks@, h, p) <==> assoc_has(
                                pre.hooks@,
                                h,
                                p,
                            )),
                        forall|h: Seq<char>|
                            #![trigger assoc_has(self.hooks@, h, plugin_id@)]
                            #![trigger assoc_has(pre.hooks@, h, plugin_id@)]
                            assoc_has(self.hooks@, h, plugin_id@) <==> (assoc_has(
                                pre.hooks@,
                                h,
                                plugin_id@,
                            ) && !(exists|j: int| 0 <= j < i && names@[j]@ == h)),
                    decreases names@.len() - i,
                {
                    let ghost mid = self.hooks@;
                    let hname = names[i].as_str();
                    assoc_remove(&mut self.hooks, hname, plugin_id);
                    proof {
                        assert forall|h: Seq<char>|
                            assoc_has(self.hooks@, h, plugin_id@) <==> (assoc_has(
                                pre.hooks@,
                                h,
                                plugin_id@,
                            ) && !(exists|j: int| 0 <= j < i + 1 && names@[j]@ == h)) by {
                            if assoc_has(self.hooks@, h, plugin_id@) {
                                assert(assoc_has(mid, h, plugin_id@) && h != hname@);
                                assert(!(exists|j: int| 0 <= j < i && names@[j]@ == h));
                                assert forall|j: int|
                                    0 <= j < i + 1 implies names@[j]@ != h by {
                                    if j < i {
                                        if names@[j]@ == h {
                                            assert(exists|j2: int|
                                                0 <= j2 < i && names@[j2]@ == h);
                                        }
                                    } else {
                                        assert(j == i);
                                        assert(names@[j]@ == hname@);
                                    }
                                }
                            }
                            if assoc_has(pre.hooks@, h, plugin_id@) && !(exists|j: int|
                                0 <= j < i + 1 && names@[j]@ == h) {
                                assert forall|j: int| 0 <= j < i implies names@[j]@ != h by {
                                    if names@[j]@ == h {
                                        assert(exists|j2: int|
                                            0 <= j2 < i + 1 && names@[j2]@ == h);
                                    }
                                }
                                assert(assoc_has(mid, h, plugin_id@));
                                if hname@ == h {
                                    assert(exists|j2: int|
                                        0 <= j2 < i + 1 && names@[j2]@ == h);
                                }
                                assert(assoc_has(self.hooks@, h, plugin_id@));
                            }
                        }
                    }
                    i += 1;
                }
                proof {
                    assert forall|h: Seq<char>, p: Seq<char>|
                        assoc_has(self.hooks@, h, p) <==> (assoc_has(pre.hooks@, h, p) && p
                            != plugin_id@) by {
                        if p == plugin_id@ && assoc_has(pre.hooks@, h, p) {
                            // the mirror recorded every hook this plugin had
                            assert(assoc_has(pre.plugin_hooks@, plugin_id@, h));
                            assert(seq_has_str(names@, h));
                            let j = choose|j: int| 0 <= j < names@.len() && names@[j]@ == h;
                            assert(exists|j2: int| 0 <= j2 < names@.len() && names@[j2]@ == h);
                        }
                    }
                    assert forall|h: Seq<char>, p: Seq<char>|
                        assoc_has(self.hooks@, h, p) <==> assoc_has(
                            self.plugin_hooks@,
                            p,
                            h,
                        ) by {
                        if p == plugin_id@ {
                            assert(!assoc_has(self.hooks@, h, p));
                            assert(!assoc_has(self.plugin_hooks@, p, h));
                        } else {
                            assert(assoc_has(self.hooks@, h, p) <==> assoc_has(
                                pre.hooks@,
                                h,
                                p,
                            ));
                            assert(assoc_has(pre.hooks@, h, p) <==> assoc_has(
                                pre.plugin_hooks@,
                                p,
                                h,
                            ));
                            assert(assoc_has(pre.plugin_hooks@, p, h) <==> assoc_has(
                                self.plugin_hooks@,
                                p,
                                h,
                            ));
                        }
                    }
                }
            },
            None => {
                proof {
                    assert forall|h: Seq<char>, p: Seq<char>|
                        assoc_has(self.hooks@, h, p) <==> (assoc_has(pre.hooks@, h, p) && p
                            != plugin_id@) by {
                        if p == plugin_id@ && assoc_has(pre.hooks@, h, p) {
                            assert(assoc_has(pre.plugin_hooks@, plugin_id@, h));
                            assert(assoc_has_key(pre.plugin_hooks@, plugin_id@));
                        }
                    }
                }
            },
        }
    }

    /// The ids currently subscribed to `hook_name`, without duplicates and in
    /// no promised order.
    pub fn get_listeners(&self, hook_name: &str) -> (r: Vec<String>)
        requires
            self.wf(),
        ensures
            distinct_strs(r@),
            forall|p: Seq<char>| seq_has_str(r@, p) <==> self.subscribed(hook_name@, p),
    {
        assoc_get_clone(&self.hooks, hook_name)
    }

    /// Whether any plugin is subscribed to `hook_name`.
    pub fn has_listeners(&self, hook_name: &str) -> (r: bool)
        requires
            self.wf(),
        ensures
            r == exists|p: Seq<char>| self.subscribed(hook_name@, p),
    {
        match assoc_find(&self.hooks, hook_name) {
            Some(i) => {
                proof {
                    assert(self.hooks@[i as int].1@.len() > 0);
                    assert(seq_has_str(
                        self.hooks@[i as int].1@,
                        self.hooks@[i as int].1@[0]@,
                    ));
                    assert(self.subscribed(hook_name@, self.hooks@[i as int].1@[0]@));
                }
                true
            },
            None => {
                proof {
                    if exists|p: Seq<char>| self.subscribed(hook_name@, p) {
                        assert(assoc_has_key(self.hooks@, hook_name@));
                    }
                }
                false
            },
        }
    }

    /// The hook names `plugin_id` is subscribed to.
    pub fn get_plugin_hooks(&self, plugin_id: &str) -> (r: Vec<String>)
        requires
            self.wf(),
        ensures
            distinct_strs(r@),
            forall|h: Seq<char>| seq_has_str(r@, h) <==> self.subscribed(h, plugin_id@),
    {
        assoc_get_clone(&self.plugin_hooks, plugin_id)
    }

    /// Every hook name with at least one subscriber.
    pub fn list_hooks(&self) -> (r: Vec<String>)
        requires
            self.wf(),
        ensures
            distinct_strs(r@),
            forall|h: Seq<char>|
                seq_has_str(r@, h) <==> exists|p: Seq<char>| self.subscribed(h, p),
    {
        let r = assoc_keys_clone(&self.hooks);
        proof {
            assert forall|h: Seq<char>|
                assoc_has_key(self.hooks@, h) <==> exists|p: Seq<char>|
                    self.subscribed(h, p) by {
                if assoc_has_key(self.hooks@, h) {
                    let a = choose|a: int|
                        0 <= a < self.hooks@.len() && self.hooks@[a].0@ == h;
                    assert(self.hooks@[a].1@.len() > 0);
                    assert(seq_has_str(self.hooks@[a].1@, self.hooks@[a].1@[0]@));
                    assert(self.subscribed(h, self.hooks@[a].1@[0]@));
                }
            }
        }
        r
    }

    /// Forgets every subscription.
    pub fn clear(&mut self)
        ensures
            final(self).wf(),
            forall|h: Seq<char>, p: Seq<char>| !final(self).subscribed(h, p),
    {
        self.hooks = Vec::new();
        self.plugin_hooks = Vec::new();
    }
}

} // verus!

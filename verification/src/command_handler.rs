use vstd::prelude::*;
use vstd::string::StrSliceExecFns;

use crate::command::Command;
use crate::command::CommandView;
use crate::errors::BuildError;
use crate::names::find_spaces;
use crate::names::level_prefix;
use crate::names::lemma_level_prefix_extend;
use crate::names::lemma_level_prefix_grows;
use crate::names::lemma_level_prefix_structure;
use crate::names::prefix_to;
use crate::names::seg_count;
use crate::names::segment;

verus! {

/// Whether some registered command carries exactly this full name.
pub open spec fn has_name(cmds: Seq<CommandView>, name: Seq<char>) -> bool {
    exists|i: int| 0 <= i < cmds.len() && (#[trigger] cmds[i]).name == name
}

/// The index of the command with this full name, meaningful when the name
/// is registered and names are distinct.
pub open spec fn name_index(cmds: Seq<CommandView>, name: Seq<char>) -> int {
    choose|i: int| 0 <= i < cmds.len() && (#[trigger] cmds[i]).name == name
}

/// The registered command with this full name, if any.
pub open spec fn lookup(cmds: Seq<CommandView>, name: Seq<char>) -> Option<CommandView> {
    if has_name(cmds, name) {
        Some(cmds[name_index(cmds, name)])
    } else {
        None
    }
}

/// No two registered commands share a full name.
pub open spec fn distinct_names(cmds: Seq<CommandView>) -> bool {
    forall|i: int, j: int|
        0 <= i < j < cmds.len() ==> (#[trigger] cmds[i]).name != (#[trigger] cmds[j]).name
}

/// What the registry guarantees once built: distinct full names, and every
/// command well-formed.
pub open spec fn registry_wf(cmds: Seq<CommandView>) -> bool {
    &&& distinct_names(cmds)
    &&& forall|i: int| 0 <= i < cmds.len() ==> (#[trigger] cmds[i]).wf()
}

/// Whether `r` is the first hierarchy level of some registered name.
pub open spec fn is_root(cmds: Seq<CommandView>, r: Seq<char>) -> bool {
    exists|i: int| 0 <= i < cmds.len() && r == level_prefix((#[trigger] cmds[i]).name, 1)
}

/// Whether, within the single name `n`, prefix `q` extends prefix `p` by
/// exactly one hierarchy level below the root level.
pub open spec fn child_in(n: Seq<char>, p: Seq<char>, q: Seq<char>) -> bool {
    exists|k: int|
        1 <= k < seg_count(n) && p == #[trigger] level_prefix(n, k) && q == level_prefix(n, k + 1)
}

/// Whether some registered name makes `q` a one-level extension of `p`.
pub open spec fn is_child(cmds: Seq<CommandView>, p: Seq<char>, q: Seq<char>) -> bool {
    exists|i: int| 0 <= i < cmds.len() && child_in((#[trigger] cmds[i]).name, p, q)
}

/// What a one-level extension looks like: the child encodes one level more
/// than the parent, starts with the parent, and ends with its own last
/// level after a separating space.
pub proof fn lemma_child_structure(n: Seq<char>, p: Seq<char>, q: Seq<char>)
    requires
        child_in(n, p, q),
    ensures
        seg_count(q) >= 2,
        seg_count(p) == seg_count(q) - 1,
        p == level_prefix(q, seg_count(q) - 1),
        q == p + seq![' '] + segment(q, seg_count(q)),
        seg_count(q) <= seg_count(n),
{
    let k = choose|k: int|
        1 <= k < seg_count(n) && p == #[trigger] level_prefix(n, k) && q == level_prefix(n, k + 1);
    lemma_level_prefix_structure(n, k + 1);
    lemma_level_prefix_structure(n, k);
    lemma_level_prefix_extend(n, k);
    assert(level_prefix(q, k) == level_prefix(n, k));
    assert(segment(q, k + 1) == segment(n, k + 1));
}

/// A root prefix encodes exactly one level.
pub proof fn lemma_root_structure(n: Seq<char>, r: Seq<char>)
    requires
        r == level_prefix(n, 1),
    ensures
        seg_count(r) == 1,
{
    lemma_level_prefix_grows(n);
    lemma_level_prefix_structure(n, 1);
}

/// Within a registry of names of at most three levels, every child of a
/// two-level prefix is itself a full registered name.
pub proof fn lemma_grandchild_registered(cmds: Seq<CommandView>, q: Seq<char>, t: Seq<char>)
    requires
        registry_wf(cmds),
        is_child(cmds, q, t),
        seg_count(q) == 2,
    ensures
        has_name(cmds, t),
        seg_count(t) == 3,
{
    let i = choose|i: int| 0 <= i < cmds.len() && child_in((#[trigger] cmds[i]).name, q, t);
    let n = cmds[i].name;
    let k = choose|k: int|
        1 <= k < seg_count(n) && q == #[trigger] level_prefix(n, k) && t == level_prefix(n, k + 1);
    lemma_level_prefix_structure(n, k);
    assert(k == 2);
    lemma_level_prefix_grows(n);
    assert(cmds[i].wf());
    assert(seg_count(n) == 3);
    assert(t == level_prefix(n, seg_count(n)));
    lemma_child_structure(n, q, t);
}

/// Built once from the full command set; owns the name-to-command mapping
/// and derives, from the names alone, the adjacency between hierarchy
/// prefixes that publishing walks.
#[derive(Debug)]
pub struct CommandHandler {
    pub commands: Vec<Command>,
}

impl View for CommandHandler {
    type V = Seq<CommandView>;

    open spec fn view(&self) -> Seq<CommandView> {
        self.commands@.map_values(|c: Command| c@)
    }
}

/// Whether `v` already holds a string with this text.
fn contains_string(v: &Vec<String>, s: &String) -> (r: bool)
    ensures
        r == exists|i: int| 0 <= i < v@.len() && (#[trigger] v@[i])@ == s@,
{
    let mut i: usize = 0;
    while i < v.len()
        invariant
            i <= v@.len(),
            forall|j: int| 0 <= j < i ==> (#[trigger] v@[j])@ != s@,
        decreases v@.len() - i,
    {
        if v[i] == *s {
            return true;
        }
        i += 1;
    }
    false
}

impl CommandHandler {
    /// Collects the full command set into a registry. Construction fails
    /// exactly when two commands share an identical full name; nothing is
    /// built in that case.
    pub fn new(commands: Vec<Command>) -> (r: Result<CommandHandler, BuildError>)
        requires
            forall|i: int| 0 <= i < commands@.len() ==> (#[trigger] commands@[i])@.wf(),
        ensures
            match r {
                Ok(h) => {
                    &&& h@ == commands@.map_values(|c: Command| c@)
                    &&& registry_wf(h@)
                },
                Err(e) => {
                    &&& e == BuildError::DuplicateName
                    &&& !distinct_names(commands@.map_values(|c: Command| c@))
                },
            },
            r is Ok <==> distinct_names(commands@.map_values(|c: Command| c@)),
    {
        let ghost cmds = commands@.map_values(|c: Command| c@);
        let n = commands.len();
        let mut i: usize = 0;
        while i < n
            invariant
                i <= n,
                n == commands@.len(),
                cmds == commands@.map_values(|c: Command| c@),
                forall|a: int, b: int|
                    0 <= a < i && a < b < n ==> (#[trigger] cmds[a]).name != (#[trigger] cmds[b]).name,
            decreases n - i,
        {
            let mut j: usize = i + 1;
            while j < n
                invariant
                    i < j <= n,
                    n == commands@.len(),
                    cmds == commands@.map_values(|c: Command| c@),
                    forall|b: int| i < b < j ==> (#[trigger] cmds[b]).name != cmds[i as int].name,
                decreases n - j,
            {
                if commands[i].name == commands[j].name {
                    proof {
                        assert(cmds[i as int].name == cmds[j as int].name);
                    }
                    return Err(BuildError::DuplicateName);
                }
                j += 1;
            }
            i += 1;
        }
        let h = CommandHandler { commands };
        proof {
            assert(distinct_names(h@));
        }
        Ok(h)
    }

    /// Exact-name lookup: the registered command with this full name.
    pub fn get<'a>(&'a self, name: &String) -> (r: Option<&'a Command>)
        requires
            distinct_names(self@),
        ensures
            match r {
                Some(c) => has_name(self@, name@) && Some(c@) == lookup(self@, name@),
                None => !has_name(self@, name@),
            },
            r is Some <==> has_name(self@, name@),
    {
        let mut i: usize = 0;
        while i < self.commands.len()
            invariant
                i <= self@.len(),
                distinct_names(self@),
                self@ == self.commands@.map_values(|c: Command| c@),
                forall|j: int| 0 <= j < i ==> (#[trigger] self@[j]).name != name@,
            decreases self@.len() - i,
        {
            if self.commands[i].name == *name {
                proof {
                    assert(self@[i as int].name == name@);
                    let w = name_index(self@, name@);
                    assert(self@[w].name == name@);
                    if w != i as int {
                        assert(self@[w].name != self@[i as int].name);
                    }
                }
                return Some(&self.commands[i]);
            }
            i += 1;
        }
        None
    }

    /// The first level of every registered name, each exactly once.
    pub fn root_prefixes(&self) -> (r: Vec<String>)
        ensures
            forall|a: int, b: int| 0 <= a < b < r@.len() ==> (#[trigger] r@[a])@ != (#[trigger] r@[b])@,
            forall|a: int| 0 <= a < r@.len() ==> is_root(self@, (#[trigger] r@[a])@),
            forall|q: Seq<char>|
                is_root(self@, q) ==> exists|a: int| 0 <= a < r@.len() && (#[trigger] r@[a])@ == q,
    {
        let mut r: Vec<String> = Vec::new();
        let n = self.commands.len();
        let mut i: usize = 0;
        while i < n
            invariant
                i <= n,
                n == self@.len(),
                self@ == self.commands@.map_values(|c: Command| c@),
                forall|a: int, b: int|
                    0 <= a < b < r@.len() ==> (#[trigger] r@[a])@ != (#[trigger] r@[b])@,
                forall|a: int| 0 <= a < r@.len() ==> is_root(self@, (#[trigger] r@[a])@),
                forall|ci: int|
                    0 <= ci < i ==> exists|a: int|
                        0 <= a < r@.len() && (#[trigger] r@[a])@ == level_prefix(
                            (#[trigger] self@[ci]).name,
                            1,
                        ),
            decreases n - i,
        {
            let name: &String = &self.commands[i].name;
            proof {
                assert(self@[i as int].name == name@);
            }
            let spaces = find_spaces(name.as_str());
            let end: usize = if spaces.len() > 0 {
                spaces[0]
            } else {
                name.as_str().unicode_len()
            };
            proof {
                assert(end as int == crate::names::boundaries(name@)[0]);
            }
            let root = prefix_to(name.as_str(), end);
            proof {
                assert(root@ == level_prefix(name@, 1));
            }
            let ghost r0 = r@;
            let ghost rootv = root@;
            if !contains_string(&r, &root) {
                r.push(root);
                proof {
                    assert forall|a: int| 0 <= a < r0.len() implies (#[trigger] r0[a])@
                        == (r@[a])@ by {
                        assert(r@[a] == r0[a]);
                    }
                    assert((r@[r0.len() as int])@ == rootv);
                }
            }
            proof {
                assert(exists|a: int| 0 <= a < r@.len() && (#[trigger] r@[a])@ == rootv);
            }
            i += 1;
        }
        r
    }

    /// Every one-level extension of `parent` among the registered names,
    /// each exactly once.
    pub fn child_prefixes(&self, parent: &String) -> (r: Vec<String>)
        ensures
            forall|a: int, b: int| 0 <= a < b < r@.len() ==> (#[trigger] r@[a])@ != (#[trigger] r@[b])@,
            forall|a: int| 0 <= a < r@.len() ==> is_child(self@, parent@, (#[trigger] r@[a])@),
            forall|q: Seq<char>|
                is_child(self@, parent@, q) ==> exists|a: int|
                    0 <= a < r@.len() && (#[trigger] r@[a])@ == q,
    {
        let mut r: Vec<String> = Vec::new();
        let n = self.commands.len();
        let mut i: usize = 0;
        while i < n
            invariant
                i <= n,
                n == self@.len(),
                self@ == self.commands@.map_values(|c: Command| c@),
                forall|a: int, b: int|
                    0 <= a < b < r@.len() ==> (#[trigger] r@[a])@ != (#[trigger] r@[b])@,
                forall|a: int| 0 <= a < r@.len() ==> is_child(self@, parent@, (#[trigger] r@[a])@),
                forall|ci: int, q: Seq<char>|
                    0 <= ci < i && #[trigger] child_in(self@[ci].name, parent@, q) ==> exists|a: int|
                        0 <= a < r@.len() && (#[trigger] r@[a])@ == q,
            decreases n - i,
        {
            let name: &String = &self.commands[i].name;
            proof {
                assert(self@[i as int].name == name@);
            }
            let spaces = find_spaces(name.as_str());
            let len = name.as_str().unicode_len();
            let mut kk: usize = 0;
            while kk < spaces.len()
                invariant
                    0 <= kk <= spaces@.len(),
                    n == self@.len(),
                    0 <= i < n,
                    self@ == self.commands@.map_values(|c: Command| c@),
                    name@ == self@[i as int].name,
                    len == name@.len(),
                    spaces@.len() == crate::names::space_positions(name@).len(),
                    forall|jj: int|
                        0 <= jj < spaces@.len() ==> #[trigger] spaces@[jj] as int
                            == crate::names::space_positions(name@)[jj] && spaces@[jj] < len,
                    forall|a: int, b: int|
                        0 <= a < b < r@.len() ==> (#[trigger] r@[a])@ != (#[trigger] r@[b])@,
                    forall|a: int| 0 <= a < r@.len() ==> is_child(self@, parent@, (#[trigger] r@[a])@),
                    forall|ci: int, q: Seq<char>|
                        0 <= ci < i && #[trigger] child_in(self@[ci].name, parent@, q) ==> exists|a: int|
                            0 <= a < r@.len() && (#[trigger] r@[a])@ == q,
                    forall|m: int|
                        1 <= m <= kk && parent@ == level_prefix(name@, m) ==> exists|a: int|
                            0 <= a < r@.len() && (#[trigger] r@[a])@ == level_prefix(name@, m + 1),
                decreases spaces@.len() - kk,
            {
                proof {
                    assert(crate::names::boundaries(name@)[kk as int] == spaces@[kk as int] as int);
                }
                let pk = prefix_to(name.as_str(), spaces[kk]);
                proof {
                    assert(pk@ == level_prefix(name@, kk as int + 1)) by {
                        assert(pk@ == name@.take(crate::names::boundaries(name@)[kk as int]));
                    }
                }
                if pk == *parent {
                    let end_next: usize = if kk + 1 < spaces.len() {
                        spaces[kk + 1]
                    } else {
                        len
                    };
                    proof {
                        assert(end_next as int == crate::names::boundaries(name@)[kk as int + 1]);
                    }
                    let q = prefix_to(name.as_str(), end_next);
                    proof {
                        assert(q@ == level_prefix(name@, kk as int + 2));
                        assert(seg_count(name@) == crate::names::space_positions(name@).len() + 1);
                        assert(child_in(name@, parent@, q@)) by {
                            let m = kk as int + 1;
                            assert(1 <= m < seg_count(name@));
                            assert(parent@ == level_prefix(name@, m));
                        }
                    }
                    let ghost r0 = r@;
                    let ghost qv = q@;
                    if !contains_string(&r, &q) {
                        r.push(q);
                        proof {
                            assert forall|a: int| 0 <= a < r0.len() implies (#[trigger] r0[a])@
                                == (r@[a])@ by {
                                assert(r@[a] == r0[a]);
                            }
                            assert((r@[r0.len() as int])@ == qv);
                        }
                    }
                    proof {
                        assert(exists|a: int| 0 <= a < r@.len() && (#[trigger] r@[a])@ == qv);
                    }
                }
                kk += 1;
            }
            proof {
                assert forall|q: Seq<char>| child_in(self@[i as int].name, parent@, q) implies exists|a: int|
                    0 <= a < r@.len() && (#[trigger] r@[a])@ == q by {
                    let m = choose|m: int|
                        1 <= m < seg_count(name@) && parent@ == #[trigger] level_prefix(name@, m)
                            && q == level_prefix(name@, m + 1);
                    assert(m <= spaces@.len());
                }
            }
            i += 1;
        }
        r
    }
}

} // verus!

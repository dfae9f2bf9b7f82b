use vstd::prelude::*;
use vstd::string::StrSliceExecFns;

use crate::command::Command;
use crate::command::CommandView;
use crate::command_handler::child_in;
use crate::command_handler::is_child;
use crate::command_handler::is_root;
use crate::command_handler::has_name;
use crate::command_handler::lookup;
use crate::command_handler::registry_wf;
use crate::command_handler::CommandHandler;
use crate::command_handler::lemma_child_structure;
use crate::command_handler::lemma_grandchild_registered;
use crate::command_handler::lemma_root_structure;
use crate::names::find_spaces;
use crate::names::seg_count;
use crate::names::segment;
use crate::names::suffix_from;
use crate::names::level_prefix;
use crate::parameter::Parameter;
use crate::parameter::ParameterView;

verus! {

// Publishing materializes the registry as a tree of at most three levels:
// each root prefix becomes either a flat command node or a group; a group's
// children become sub-command leaves or sub-command groups; and a
// sub-command group's children are always leaves, because no registered
// name encodes more than three levels. Sibling order is not significant;
// the shape, the names, and each leaf's payload are pinned exactly.

/// A leaf of the publish tree: an invocable command's display name,
/// description and parameter descriptors, in parameter order.
#[derive(Debug)]
pub struct PublishLeaf {
    pub name: String,
    pub description: String,
    pub parameters: Vec<Parameter>,
}

/// Mathematical model of a publish leaf.
#[verifier::ext_equal]
pub struct PublishLeafView {
    pub name: Seq<char>,
    pub description: Seq<char>,
    pub parameters: Seq<ParameterView>,
}

impl View for PublishLeaf {
    type V = PublishLeafView;

    open spec fn view(&self) -> PublishLeafView {
        PublishLeafView {
            name: self.name@,
            description: self.description@,
            parameters: self.parameters@.map_values(|p: Parameter| p@),
        }
    }
}

/// A second-level node of the publish tree: an invocable sub-command, or a
/// sub-command group holding third-level leaves.
#[derive(Debug)]
pub enum PublishChild {
    Command(PublishLeaf),
    Group { name: String, leaves: Vec<PublishLeaf> },
}

/// Mathematical model of a second-level node.
#[verifier::ext_equal]
pub enum PublishChildView {
    Command(PublishLeafView),
    Group { name: Seq<char>, leaves: Seq<PublishLeafView> },
}

impl View for PublishChild {
    type V = PublishChildView;

    open spec fn view(&self) -> PublishChildView {
        match self {
            PublishChild::Command(leaf) => PublishChildView::Command(leaf@),
            PublishChild::Group { name, leaves } => PublishChildView::Group {
                name: name@,
                leaves: leaves@.map_values(|l: PublishLeaf| l@),
            },
        }
    }
}

impl PublishChildView {
    /// The display name of this node: its own hierarchy level's text.
    pub open spec fn name(self) -> Seq<char> {
        match self {
            PublishChildView::Command(leaf) => leaf.name,
            PublishChildView::Group { name, .. } => name,
        }
    }
}

/// A root node of the publish tree: a flat command, or a group of
/// second-level nodes.
#[derive(Debug)]
pub enum PublishNode {
    Command(PublishLeaf),
    Group { name: String, children: Vec<PublishChild> },
}

/// Mathematical model of a root node.
#[verifier::ext_equal]
pub enum PublishNodeView {
    Command(PublishLeafView),
    Group { name: Seq<char>, children: Seq<PublishChildView> },
}

impl View for PublishNode {
    type V = PublishNodeView;

    open spec fn view(&self) -> PublishNodeView {
        match self {
            PublishNode::Command(leaf) => PublishNodeView::Command(leaf@),
            PublishNode::Group { name, children } => PublishNodeView::Group {
                name: name@,
                children: children@.map_values(|c: PublishChild| c@),
            },
        }
    }
}

impl PublishNodeView {
    /// The display name of this root node: the root prefix itself.
    pub open spec fn name(self) -> Seq<char> {
        match self {
            PublishNodeView::Command(leaf) => leaf.name,
            PublishNodeView::Group { name, .. } => name,
        }
    }
}

/// The leaf named `display` carries exactly the registered command
/// `full`'s description and parameters.
pub open spec fn leaf_matches(
    cmds: Seq<CommandView>,
    full: Seq<char>,
    display: Seq<char>,
    leaf: PublishLeafView,
) -> bool {
    &&& leaf.name == display
    &&& lookup(cmds, full) matches Some(c) && leaf.description == c.description
        && leaf.parameters == c.parameters
}

/// A third-level leaf under the two-level prefix `q`: it is named by the
/// third level of a registered name extending `q`, and carries that
/// command's payload.
pub open spec fn grand_leaf_matches(cmds: Seq<CommandView>, q: Seq<char>, leaf: PublishLeafView) -> bool {
    let t = q + seq![' '] + leaf.name;
    &&& is_child(cmds, q, t)
    &&& leaf.name == segment(t, 3)
    &&& leaf_matches(cmds, t, leaf.name, leaf)
}

/// The third-level leaves under group prefix `q` are exactly its one-level
/// extensions: no duplicate, each correct, none missing.
pub open spec fn group_leaves_ok(cmds: Seq<CommandView>, q: Seq<char>, leaves: Seq<PublishLeafView>) -> bool {
    &&& forall|a: int, b: int|
        0 <= a < b < leaves.len() ==> (#[trigger] leaves[a]).name != (#[trigger] leaves[b]).name
    &&& forall|a: int| 0 <= a < leaves.len() ==> grand_leaf_matches(cmds, q, #[trigger] leaves[a])
    &&& forall|t: Seq<char>|
        is_child(cmds, q, t) ==> exists|a: int|
            0 <= a < leaves.len() && (#[trigger] leaves[a]).name == segment(t, 3)
}

/// A second-level node under root `r`: a sub-command leaf when its full
/// two-level name is registered, otherwise a sub-command group whose
/// leaves are exactly the third-level extensions.
pub open spec fn group_child_matches(cmds: Seq<CommandView>, r: Seq<char>, sub: PublishChildView) -> bool {
    match sub {
        PublishChildView::Command(leaf) => {
            let q = r + seq![' '] + leaf.name;
            &&& is_child(cmds, r, q)
            &&& leaf.name == segment(q, 2)
            &&& leaf_matches(cmds, q, leaf.name, leaf)
        },
        PublishChildView::Group { name, leaves } => {
            let q = r + seq![' '] + name;
            &&& is_child(cmds, r, q)
            &&& name == segment(q, 2)
            &&& !has_name(cmds, q)
            &&& group_leaves_ok(cmds, q, leaves)
        },
    }
}

/// A root node: a flat command when the root prefix itself is registered,
/// otherwise a group whose children are exactly the one-level extensions
/// of the root.
pub open spec fn node_matches(cmds: Seq<CommandView>, node: PublishNodeView) -> bool {
    match node {
        PublishNodeView::Command(leaf) => {
            &&& is_root(cmds, leaf.name)
            &&& leaf_matches(cmds, leaf.name, leaf.name, leaf)
        },
        PublishNodeView::Group { name, children } => {
            &&& is_root(cmds, name)
            &&& !has_name(cmds, name)
            &&& node_children_ok(cmds, name, children)
        },
    }
}

/// The second-level nodes under root `r` are exactly its one-level
/// extensions: no duplicate, each correct, none missing.
pub open spec fn node_children_ok(cmds: Seq<CommandView>, r: Seq<char>, children: Seq<PublishChildView>) -> bool {
    &&& forall|a: int, b: int|
        0 <= a < b < children.len() ==> (#[trigger] children[a]).name()
            != (#[trigger] children[b]).name()
    &&& forall|a: int|
        0 <= a < children.len() ==> group_child_matches(cmds, r, #[trigger] children[a])
    &&& forall|q: Seq<char>|
        is_child(cmds, r, q) ==> exists|a: int|
            0 <= a < children.len() && (#[trigger] children[a]).name() == segment(q, 2)
}

/// The whole publish artifact: one node per root prefix, each correct in
/// shape and payload, with no duplicate and none missing. Sibling order is
/// left open.
pub open spec fn publish_matches(cmds: Seq<CommandView>, out: Seq<PublishNodeView>) -> bool {
    &&& forall|i: int, j: int|
        0 <= i < j < out.len() ==> (#[trigger] out[i]).name() != (#[trigger] out[j]).name()
    &&& forall|i: int| 0 <= i < out.len() ==> node_matches(cmds, #[trigger] out[i])
    &&& forall|rt: Seq<char>|
        is_root(cmds, rt) ==> exists|i: int| 0 <= i < out.len() && (#[trigger] out[i]).name() == rt
}

/// Assembles the group case of `group_child_matches` from its parts.
proof fn lemma_group_child_case(
    cmds: Seq<CommandView>,
    r: Seq<char>,
    q: Seq<char>,
    name: Seq<char>,
    leaves: Seq<PublishLeafView>,
)
    requires
        q == r + seq![' '] + name,
        is_child(cmds, r, q),
        name == segment(q, 2),
        !has_name(cmds, q),
        forall|a: int, b: int|
            0 <= a < b < leaves.len() ==> (#[trigger] leaves[a]).name != (#[trigger] leaves[b]).name,
        forall|a: int| 0 <= a < leaves.len() ==> grand_leaf_matches(cmds, q, #[trigger] leaves[a]),
        forall|t: Seq<char>|
            is_child(cmds, q, t) ==> exists|a: int|
                0 <= a < leaves.len() && (#[trigger] leaves[a]).name == segment(t, 3),
    ensures
        group_child_matches(cmds, r, PublishChildView::Group { name, leaves }),
{
}

/// Assembles the group case of `node_matches` from its parts.
proof fn lemma_node_group_case(cmds: Seq<CommandView>, name: Seq<char>, children: Seq<PublishChildView>)
    requires
        is_root(cmds, name),
        !has_name(cmds, name),
        forall|a: int, b: int|
            0 <= a < b < children.len() ==> (#[trigger] children[a]).name()
                != (#[trigger] children[b]).name(),
        forall|a: int|
            0 <= a < children.len() ==> group_child_matches(cmds, name, #[trigger] children[a]),
        forall|q: Seq<char>|
            is_child(cmds, name, q) ==> exists|a: int|
                0 <= a < children.len() && (#[trigger] children[a]).name() == segment(q, 2),
    ensures
        node_matches(cmds, PublishNodeView::Group { name, children }),
{
}

/// Copies a parameter list element by element; the copy's model is the
/// source list's.
fn clone_parameters(v: &Vec<Parameter>) -> (r: Vec<Parameter>)
    ensures
        r@.map_values(|p: Parameter| p@) == v@.map_values(|p: Parameter| p@),
{
    let mut r: Vec<Parameter> = Vec::new();
    let mut i: usize = 0;
    while i < v.len()
        invariant
            i <= v@.len(),
            r@.len() == i,
            forall|j: int| 0 <= j < i ==> (#[trigger] r@[j])@ == v@[j]@,
        decreases v@.len() - i,
    {
        r.push(v[i].clone());
        i += 1;
    }
    proof {
        assert(r@.map_values(|p: Parameter| p@) =~= v@.map_values(|p: Parameter| p@));
    }
    r
}

/// A leaf carrying `name` and the payload of command `c`.
fn make_leaf(name: String, c: &Command) -> (r: PublishLeaf)
    ensures
        r@.name == name@,
        r@.description == c@.description,
        r@.parameters == c@.parameters,
{
    PublishLeaf {
        name,
        description: c.description.clone(),
        parameters: clone_parameters(&c.parameters),
    }
}

impl CommandHandler {
    /// The third-level leaves under the two-level group prefix `q`: one for
    /// every registered name extending `q`, each exactly once.
    #[verifier::rlimit(100)]
    fn build_grand_leaves(&self, q: &String) -> (leaves: Vec<PublishLeaf>)
        requires
            registry_wf(self@),
            seg_count(q@) == 2,
        ensures
            forall|a: int, b: int|
                0 <= a < b < leaves@.len() ==> (#[trigger] leaves@[a])@.name
                    != (#[trigger] leaves@[b])@.name,
            forall|a: int|
                0 <= a < leaves@.len() ==> grand_leaf_matches(self@, q@, (#[trigger] leaves@[a])@),
            forall|t2: Seq<char>|
                is_child(self@, q@, t2) ==> exists|a: int|
                    0 <= a < leaves@.len() && (#[trigger] leaves@[a])@.name == segment(t2, 3),
    {
        let ghost qv = q@;
        let grands = self.child_prefixes(q);
        let mut leaves: Vec<PublishLeaf> = Vec::new();
        let mut ti: usize = 0;
        while ti < grands.len()
            invariant
                registry_wf(self@),
                ti <= grands@.len(),
                leaves@.len() == ti,
                seg_count(qv) == 2,
                forall|a: int, b: int|
                    0 <= a < b < grands@.len() ==> (#[trigger] grands@[a])@ != (#[trigger] grands@[b])@,
                forall|a: int|
                    0 <= a < grands@.len() ==> is_child(self@, qv, (#[trigger] grands@[a])@),
                forall|t2: Seq<char>|
                    is_child(self@, qv, t2) ==> exists|a: int|
                        0 <= a < grands@.len() && (#[trigger] grands@[a])@ == t2,
                forall|a: int|
                    0 <= a < ti ==> (#[trigger] leaves@[a])@.name == segment(grands@[a]@, 3)
                        && grands@[a]@ == qv + seq![' '] + leaves@[a]@.name && grand_leaf_matches(
                        self@,
                        qv,
                        leaves@[a]@,
                    ),
            decreases grands@.len() - ti,
        {
            let t: &String = &grands[ti];
            proof {
                lemma_grandchild_registered(self@, qv, t@);
                let i2 = choose|i2: int|
                    0 <= i2 < self@.len() && child_in((#[trigger] self@[i2]).name, qv, t@);
                lemma_child_structure(self@[i2].name, qv, t@);
                assert(seg_count(t@) == 3);
                assert(t@ == qv + seq![' '] + segment(t@, 3));
            }
            let tspaces = find_spaces(t.as_str());
            let tlen = t.as_str().unicode_len();
            proof {
                assert(tspaces@.len() == 2);
                assert(crate::names::boundaries(t@)[1] == tspaces@[1] as int);
                assert(crate::names::boundaries(t@)[2] == t@.len());
                assert(crate::names::seg_start(t@, 3) == tspaces@[1] as int + 1);
                assert(tspaces@[1] < tlen);
            }
            let leaf_name = suffix_from(t.as_str(), tspaces[1] + 1);
            proof {
                assert(leaf_name@ == segment(t@, 3));
            }
            let leaf = match self.get(t) {
                Some(c) => make_leaf(leaf_name, c),
                None => vstd::pervasive::unreached(),
            };
            proof {
                assert(grand_leaf_matches(self@, qv, leaf@)) by {
                    assert(t@ == qv + seq![' '] + leaf@.name);
                }
            }
            leaves.push(leaf);
            ti += 1;
        }
        proof {
            assert forall|a: int, b: int| 0 <= a < b < leaves@.len() implies (
            #[trigger] leaves@[a])@.name != (#[trigger] leaves@[b])@.name by {
                if (leaves@[a])@.name == (leaves@[b])@.name {
                    assert(grands@[a]@ == grands@[b]@);
                }
            }
            assert forall|t2: Seq<char>| is_child(self@, qv, t2) implies exists|a: int|
                0 <= a < leaves@.len() && (#[trigger] leaves@[a])@.name == segment(t2, 3) by {
                let a0 = choose|a0: int| 0 <= a0 < grands@.len() && (#[trigger] grands@[a0])@ == t2;
                assert((leaves@[a0])@.name == segment(t2, 3));
            }
        }
        leaves
    }

    /// One second-level node of a root group: a sub-command leaf when the
    /// two-level name `q` is registered, otherwise a sub-command group of
    /// its third-level leaves.
    #[verifier::rlimit(100)]
    fn build_child(&self, root: &String, q: &String) -> (sub: PublishChild)
        requires
            registry_wf(self@),
            is_root(self@, root@),
            is_child(self@, root@, q@),
        ensures
            sub@.name() == segment(q@, 2),
            q@ == root@ + seq![' '] + sub@.name(),
            group_child_matches(self@, root@, sub@),
    {
        proof {
            let i0 = choose|i0: int|
                0 <= i0 < self@.len() && child_in((#[trigger] self@[i0]).name, root@, q@);
            lemma_child_structure(self@[i0].name, root@, q@);
            let n0 = choose|i1: int|
                0 <= i1 < self@.len() && root@ == level_prefix((#[trigger] self@[i1]).name, 1);
            lemma_root_structure(self@[n0].name, root@);
            assert(seg_count(q@) == 2);
            assert(q@ == root@ + seq![' '] + segment(q@, 2));
        }
        let qspaces = find_spaces(q.as_str());
        let qlen = q.as_str().unicode_len();
        proof {
            assert(qspaces@.len() == 1);
            assert(crate::names::boundaries(q@)[0] == qspaces@[0] as int);
            assert(crate::names::boundaries(q@)[1] == q@.len());
            assert(crate::names::seg_start(q@, 2) == qspaces@[0] as int + 1);
            assert(qspaces@[0] < qlen);
        }
        let sub_name = suffix_from(q.as_str(), qspaces[0] + 1);
        proof {
            assert(sub_name@ == segment(q@, 2));
        }
        match self.get(q) {
            Some(c) => {
                let leaf = make_leaf(sub_name, c);
                proof {
                    assert(q@ == root@ + seq![' '] + leaf@.name);
                    assert(leaf_matches(self@, q@, leaf@.name, leaf@));
                }
                PublishChild::Command(leaf)
            },
            None => {
                let leaves = self.build_grand_leaves(q);
                let sub_group = PublishChild::Group { name: sub_name, leaves };
                proof {
                    let lv = leaves@.map_values(|l: PublishLeaf| l@);
                    assert(q@ == root@ + seq![' '] + sub_group@.name());
                    assert forall|a: int| 0 <= a < lv.len() implies grand_leaf_matches(
                        self@,
                        q@,
                        #[trigger] lv[a],
                    ) by {
                        assert(lv[a] == leaves@[a]@);
                    }
                    assert forall|a: int, b: int| 0 <= a < b < lv.len() implies (
                    #[trigger] lv[a]).name != (#[trigger] lv[b]).name by {
                        assert(lv[a] == leaves@[a]@);
                        assert(lv[b] == leaves@[b]@);
                    }
                    assert forall|t2: Seq<char>| is_child(self@, q@, t2) implies exists|a: int|
                        0 <= a < lv.len() && (#[trigger] lv[a]).name == segment(t2, 3) by {
                        let a0 = choose|a0: int|
                            0 <= a0 < leaves@.len() && (#[trigger] leaves@[a0])@.name == segment(
                                t2,
                                3,
                            );
                        assert(lv[a0] == leaves@[a0]@);
                    }
                    lemma_group_child_case(self@, root@, q@, sub_name@, lv);
                    assert(sub_group@ == (PublishChildView::Group { name: sub_name@, leaves: lv }));
                }
                sub_group
            },
        }
    }

    /// The root group node for an unregistered root prefix: one child per
    /// one-level extension of the root, each exactly once.
    #[verifier::rlimit(100)]
    fn build_group_node(&self, root: &String) -> (node: PublishNode)
        requires
            registry_wf(self@),
            is_root(self@, root@),
            !has_name(self@, root@),
        ensures
            node@.name() == root@,
            node_matches(self@, node@),
    {
        let ghost rootv = root@;
        let children = self.child_prefixes(root);
        let mut subs: Vec<PublishChild> = Vec::new();
        let mut qi: usize = 0;
        while qi < children.len()
            invariant
                registry_wf(self@),
                qi <= children@.len(),
                subs@.len() == qi,
                is_root(self@, rootv),
                !has_name(self@, rootv),
                rootv == root@,
                forall|a: int, b: int|
                    0 <= a < b < children@.len() ==> (#[trigger] children@[a])@
                        != (#[trigger] children@[b])@,
                forall|a: int|
                    0 <= a < children@.len() ==> is_child(self@, rootv, (#[trigger] children@[a])@),
                forall|q2: Seq<char>|
                    is_child(self@, rootv, q2) ==> exists|a: int|
                        0 <= a < children@.len() && (#[trigger] children@[a])@ == q2,
                forall|a: int|
                    0 <= a < qi ==> (#[trigger] subs@[a])@.name() == segment(children@[a]@, 2)
                        && children@[a]@ == rootv + seq![' '] + subs@[a]@.name()
                        && group_child_matches(self@, rootv, subs@[a]@),
            decreases children@.len() - qi,
        {
            let q: &String = &children[qi];
            let sub = self.build_child(root, q);
            subs.push(sub);
            qi += 1;
        }
        proof {
            let subsv = subs@.map_values(|c: PublishChild| c@);
            assert forall|a: int| 0 <= a < subsv.len() implies group_child_matches(
                self@,
                rootv,
                #[trigger] subsv[a],
            ) by {
                assert(subsv[a] == subs@[a]@);
            }
            assert forall|a: int, b: int| 0 <= a < b < subsv.len() implies (
            #[trigger] subsv[a]).name() != (#[trigger] subsv[b]).name() by {
                assert(subsv[a] == subs@[a]@);
                assert(subsv[b] == subs@[b]@);
                if subsv[a].name() == subsv[b].name() {
                    assert(children@[a]@ == children@[b]@);
                }
            }
            assert forall|q2: Seq<char>| is_child(self@, rootv, q2) implies exists|a: int|
                0 <= a < subsv.len() && (#[trigger] subsv[a]).name() == segment(q2, 2) by {
                let a0 = choose|a0: int|
                    0 <= a0 < children@.len() && (#[trigger] children@[a0])@ == q2;
                assert(subs@[a0]@.name() == segment(q2, 2));
                assert(subsv[a0] == subs@[a0]@);
            }
            lemma_node_group_case(self@, rootv, subsv);
        }
        let node_g = PublishNode::Group { name: root.clone(), children: subs };
        proof {
            assert(node_g@.name() == rootv);
            assert(node_g@ == (PublishNodeView::Group {
                name: rootv,
                children: subs@.map_values(|c: PublishChild| c@),
            }));
        }
        node_g
    }

    /// Materializes the registry as the publish tree described by
    /// `publish_matches`: every root prefix appears exactly once; a
    /// registered root is a flat command node; any other root is a group
    /// of its one-level extensions, each again a sub-command leaf or a
    /// sub-command group of third-level leaves.
    pub fn create_application_commands(&self) -> (out: Vec<PublishNode>)
        requires
            registry_wf(self@),
        ensures
            publish_matches(self@, out@.map_values(|n: PublishNode| n@)),
    {
        let roots = self.root_prefixes();
        let mut out: Vec<PublishNode> = Vec::new();
        let mut ri: usize = 0;
        while ri < roots.len()
            invariant
                registry_wf(self@),
                ri <= roots@.len(),
                out@.len() == ri,
                forall|a: int, b: int|
                    0 <= a < b < roots@.len() ==> (#[trigger] roots@[a])@ != (#[trigger] roots@[b])@,
                forall|a: int| 0 <= a < roots@.len() ==> is_root(self@, (#[trigger] roots@[a])@),
                forall|rt: Seq<char>|
                    is_root(self@, rt) ==> exists|a: int|
                        0 <= a < roots@.len() && (#[trigger] roots@[a])@ == rt,
                forall|a: int|
                    0 <= a < ri ==> (#[trigger] out@[a])@.name() == roots@[a]@ && node_matches(
                        self@,
                        out@[a]@,
                    ),
            decreases roots@.len() - ri,
        {
            let root: &String = &roots[ri];
            let node: PublishNode = match self.get(root) {
                Some(c) => {
                    let leaf = make_leaf(root.clone(), c);
                    proof {
                        assert(is_root(self@, leaf@.name));
                        assert(leaf_matches(self@, leaf@.name, leaf@.name, leaf@));
                    }
                    PublishNode::Command(leaf)
                },
                None => self.build_group_node(root),
            };
            proof {
                assert(node@.name() == roots@[ri as int]@);
                assert(node_matches(self@, node@));
            }
            let ghost out0 = out@;
            out.push(node);
            proof {
                assert forall|a: int| 0 <= a < out0.len() implies (#[trigger] out0[a])@
                    == out@[a]@ by {
                    assert(out@[a] == out0[a]);
                }
            }
            ri += 1;
        }
        proof {
            let outv = out@.map_values(|n: PublishNode| n@);
            assert forall|i: int| 0 <= i < outv.len() implies node_matches(
                self@,
                #[trigger] outv[i],
            ) by {
                assert(outv[i] == out@[i]@);
            }
            assert forall|i: int, j: int| 0 <= i < j < outv.len() implies (#[trigger] outv[i]).name()
                != (#[trigger] outv[j]).name() by {
                assert(outv[i] == out@[i]@);
                assert(outv[j] == out@[j]@);
                assert(roots@[i]@ != roots@[j]@);
            }
            assert forall|rt: Seq<char>| is_root(self@, rt) implies exists|i: int|
                0 <= i < outv.len() && (#[trigger] outv[i]).name() == rt by {
                let a0 = choose|a0: int| 0 <= a0 < roots@.len() && (#[trigger] roots@[a0])@ == rt;
                assert(out@[a0]@.name() == rt);
                assert(outv[a0] == out@[a0]@);
            }
        }
        out
    }
}

} // verus!

//! The subtree transform: applying the name codec over a whole directory
//! tree, parent before children, and reverting it. The tree here is the
//! model the walk follows: the application mirrors each step onto the
//! filesystem with one rename per node, enumerating a node's children only
//! after the node's own rename has completed, and aborting the walk on the
//! first failed rename (names already committed stay committed).

use vstd::prelude::*;

use crate::names::{encode_name, encoded_form, is_encoded_name, try_decode_name};

verus! {

broadcast use vstd::std_specs::vec::axiom_vec_decreases_to_view, vstd::seq::axiom_seq_index_decreases;

/// A subtree as the walk sees it: physical names on disk, with file bytes
/// carried so the laws can speak of content preservation.
pub struct TreeNode {
    pub physical_name: String,
    pub is_directory: bool,
    pub content: Vec<u8>,
    pub children: Vec<TreeNode>,
}

/// Two trees carry the same names, kinds, contents and structure.
pub open spec fn same_tree(a: TreeNode, b: TreeNode) -> bool
    decreases a,
{
    &&& a.physical_name@ == b.physical_name@
    &&& a.is_directory == b.is_directory
    &&& a.content@ == b.content@
    &&& a.children@.len() == b.children@.len()
    &&& forall|i: int|
        0 <= i < a.children@.len() ==> same_tree(#[trigger] a.children@[i], b.children@[i])
}

/// No name anywhere in the subtree is already in encoded form.
pub open spec fn plain_tree(a: TreeNode) -> bool
    decreases a,
{
    &&& !is_encoded_name(a.physical_name@)
    &&& forall|i: int| 0 <= i < a.children@.len() ==> plain_tree(#[trigger] a.children@[i])
}

/// How one application of the transform relates a subtree to its result:
/// a node not yet encoded is renamed to its encoded form, one already
/// encoded is left untouched; either way the walk recurses into every
/// child, and kinds and contents are unchanged.
pub open spec fn encode_rel(a: TreeNode, b: TreeNode) -> bool
    decreases a,
{
    &&& b.is_directory == a.is_directory
    &&& b.content@ == a.content@
    &&& (is_encoded_name(a.physical_name@) ==> b.physical_name@ == a.physical_name@)
    &&& (!is_encoded_name(a.physical_name@) ==> b.physical_name@ == encoded_form(
        a.physical_name@,
    ))
    &&& b.children@.len() == a.children@.len()
    &&& forall|i: int|
        0 <= i < a.children@.len() ==> encode_rel(#[trigger] a.children@[i], b.children@[i])
}

/// How one reversal relates a subtree to its result: an encoded node takes
/// the display name its physical name encodes (exactly that one name), any
/// other node keeps its name; the walk recurses into every child.
pub open spec fn decode_rel(a: TreeNode, b: TreeNode) -> bool
    decreases a,
{
    &&& b.is_directory == a.is_directory
    &&& b.content@ == a.content@
    &&& (is_encoded_name(a.physical_name@) ==> a.physical_name@ == encoded_form(
        b.physical_name@,
    ) && (forall|n: Seq<char>| a.physical_name@ == encoded_form(n) ==> n == b.physical_name@))
    &&& (!is_encoded_name(a.physical_name@) ==> b.physical_name@ == a.physical_name@)
    &&& b.children@.len() == a.children@.len()
    &&& forall|i: int|
        0 <= i < a.children@.len() ==> decode_rel(#[trigger] a.children@[i], b.children@[i])
}

/// Applies the transform to a subtree model: the node itself first, then
/// every child. Mirrors the on-disk walk, where a child is only reached
/// through the parent's already-renamed path.
pub fn encode_tree(t: &TreeNode) -> (r: TreeNode)
    ensures
        encode_rel(*t, r),
    decreases *t,
{
    let new_name: String = match try_decode_name(t.physical_name.as_str()) {
        Some(d) => {
            proof {
                vstd::utf8::encode_utf8_valid_utf8(d@);
            }
            t.physical_name.clone()
        },
        None => encode_name(t.physical_name.as_str()),
    };
    let mut new_children: Vec<TreeNode> = Vec::new();
    let mut i: usize = 0;
    while i < t.children.len()
        invariant
            i <= t.children@.len(),
            new_children@.len() == i,
            forall|j: int|
                0 <= j < i ==> encode_rel(t.children@[j], #[trigger] new_children@[j]),
        decreases t.children@.len() - i,
    {
        let child = encode_tree(&t.children[i]);
        new_children.push(child);
        i = i + 1;
    }
    TreeNode {
        physical_name: new_name,
        is_directory: t.is_directory,
        content: vstd::slice::slice_to_vec(t.content.as_slice()),
        children: new_children,
    }
}

/// Reverts the transform on a subtree model: the node itself first, then
/// every child.
pub fn decode_tree(t: &TreeNode) -> (r: TreeNode)
    ensures
        decode_rel(*t, r),
    decreases *t,
{
    let new_name: String = match try_decode_name(t.physical_name.as_str()) {
        Some(d) => {
            proof {
                vstd::utf8::encode_utf8_valid_utf8(d@);
            }
            d
        },
        None => t.physical_name.clone(),
    };
    let mut new_children: Vec<TreeNode> = Vec::new();
    let mut i: usize = 0;
    while i < t.children.len()
        invariant
            i <= t.children@.len(),
            new_children@.len() == i,
            forall|j: int|
                0 <= j < i ==> decode_rel(t.children@[j], #[trigger] new_children@[j]),
        decreases t.children@.len() - i,
    {
        let child = decode_tree(&t.children[i]);
        new_children.push(child);
        i = i + 1;
    }
    TreeNode {
        physical_name: new_name,
        is_directory: t.is_directory,
        content: vstd::slice::slice_to_vec(t.content.as_slice()),
        children: new_children,
    }
}

/// Law: applying the transform to a subtree and then reverting it restores
/// every node's name — hence every display name — and every file's bytes
/// exactly, provided no original name already carried the encoded form.
/// (A tree that already holds encoded names keeps its display names but
/// not its physical ones: reverting decodes them.)
pub proof fn lemma_obfuscation_round_trip(a: TreeNode, b: TreeNode, c: TreeNode)
    requires
        plain_tree(a),
        encode_rel(a, b),
        decode_rel(b, c),
    ensures
        same_tree(a, c),
    decreases a,
{
    vstd::utf8::encode_utf8_valid_utf8(a.physical_name@);
    assert(b.physical_name@ == encoded_form(a.physical_name@));
    assert(is_encoded_name(b.physical_name@));
    assert(c.physical_name@ == a.physical_name@);
    assert forall|i: int| 0 <= i < a.children@.len() implies same_tree(
        #[trigger] a.children@[i],
        c.children@[i],
    ) by {
        lemma_obfuscation_round_trip(a.children@[i], b.children@[i], c.children@[i]);
    }
}

/// Law: a node that already stood in encoded form also keeps its display
/// name across the transform and its reversal — the transform leaves the
/// node untouched, and the reversal decodes it to exactly the display name
/// its physical name encoded. (Its physical name changes to that display
/// name, which is why `lemma_obfuscation_round_trip` asks for a plain tree.)
pub proof fn lemma_round_trip_encoded_node(
    a: TreeNode,
    b: TreeNode,
    c: TreeNode,
    display: Seq<char>,
)
    requires
        a.physical_name@ == encoded_form(display),
        encode_rel(a, b),
        decode_rel(b, c),
    ensures
        c.physical_name@ == display,
{
    vstd::utf8::encode_utf8_valid_utf8(display);
}

/// The single rename decision the walk makes at one node: the new physical
/// name, or `None` when the node is already in the state the operation
/// seeks. `revert` false encodes, true decodes.
pub fn plan_rename(physical_name: &str, revert: bool) -> (r: Option<String>)
    ensures
        !revert && is_encoded_name(physical_name@) ==> r is None,
        !revert && !is_encoded_name(physical_name@) ==> (r matches Some(s) && s@ == encoded_form(
            physical_name@,
        )),
        revert && !is_encoded_name(physical_name@) ==> r is None,
        revert && is_encoded_name(physical_name@) ==> (r matches Some(s) && physical_name@
            == encoded_form(s@)),
{
    match try_decode_name(physical_name) {
        Some(d) => {
            proof {
                vstd::utf8::encode_utf8_valid_utf8(d@);
            }
            if revert {
                Some(d)
            } else {
                None
            }
        },
        None => {
            if revert {
                None
            } else {
                Some(encode_name(physical_name))
            }
        },
    }
}

} // verus!

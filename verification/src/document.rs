//! Plain-text extraction from a structured rich-text document tree.
//!
//! A document is a tree of typed nodes (an optional kind tag, optional
//! literal text, ordered children). Linearization walks the tree in
//! document order; after each child of a block-like node (`paragraph`,
//! `listItem`) a newline is emitted. The newline is keyed on the parent's
//! kind at the point a child finishes — a childless block node therefore
//! emits none. That asymmetry is kept deliberately for output
//! compatibility.

use vstd::prelude::*;
use crate::text::chars_of;
use crate::text::chars_to_string;
use crate::text::push_chars;

verus! {

/// One node of a rich-text document: an optional kind tag, optional
/// literal text, and an ordered sequence of children.
pub struct RichTextNode {
    pub kind: Option<String>,
    pub text: Option<String>,
    pub children: Vec<RichTextNode>,
}

/// Whether a kind tag names a block-like node, after whose children a
/// block boundary is emitted.
pub open spec fn is_block_kind(kind: Option<String>) -> bool {
    match kind {
        Some(k) => k@ == "paragraph"@ || k@ == "listItem"@,
        None => false,
    }
}

/// The literal text a node itself carries.
pub open spec fn node_text(node: RichTextNode) -> Seq<char> {
    match node.text {
        Some(t) => t@,
        None => Seq::empty(),
    }
}

/// The linearization of one node: its own text, then its children in
/// order, a newline after each child when the node is block-like.
pub open spec fn lin_node(node: RichTextNode) -> Seq<char>
    decreases node,
{
    node_text(node) + lin_children(node.children@, is_block_kind(node.kind))
}

/// The linearization of a sequence of sibling nodes; `block` tells whether
/// their parent is block-like, so that a newline follows each of them.
pub open spec fn lin_children(nodes: Seq<RichTextNode>, block: bool) -> Seq<char>
    decreases nodes,
{
    if nodes.len() > 0 {
        lin_node(nodes[0]) + (if block {
            seq!['\n']
        } else {
            Seq::<char>::empty()
        }) + lin_children(nodes.drop_first(), block)
    } else {
        Seq::empty()
    }
}

/// The linearization of the top-level children of a document: each child
/// is linearized and followed by one newline, whatever its kind.
pub open spec fn lin_top(nodes: Seq<RichTextNode>) -> Seq<char>
    decreases nodes,
{
    if nodes.len() > 0 {
        lin_node(nodes[0]) + seq!['\n'] + lin_top(nodes.drop_first())
    } else {
        Seq::empty()
    }
}

/// What extraction yields for a document: nothing for an absent document,
/// else the linearization of its top-level children. A document without
/// children yields the empty string.
pub open spec fn extracted_text(doc: Option<RichTextNode>) -> Seq<char> {
    match doc {
        Some(n) => lin_top(n.children@),
        None => Seq::empty(),
    }
}

/// Appends the linearization of `node` to `out`.
pub fn process_content_node(node: &RichTextNode, out: &mut Vec<char>)
    ensures
        final(out)@ == old(out)@ + lin_node(*node),
    decreases *node,
{
    match &node.text {
        Some(t) => {
            push_chars(out, t.as_str());
        },
        None => {
        },
    }
    let block = match &node.kind {
        Some(k) => {
            let kc: Vec<char> = chars_of(k.as_str());
            let para: Vec<char> = chars_of("paragraph");
            let li: Vec<char> = chars_of("listItem");
            crate::text::chars_eq(&kc, &para) || crate::text::chars_eq(&kc, &li)
        },
        None => false,
    };
    proof {
        assert(block == is_block_kind(node.kind));
    }
    let n: usize = node.children.len();
    let mut i: usize = 0;
    proof {
        assert(node.children@.skip(0) =~= node.children@);
        assert(out@ + lin_children(node.children@, block) =~= old(out)@ + lin_node(*node));
    }
    while i < n
        invariant
            n == node.children@.len(),
            i <= n,
            block == is_block_kind(node.kind),
            out@ + lin_children(node.children@.skip(i as int), block) == old(out)@ + lin_node(
                *node,
            ),
        decreases n - i,
    {
        proof {
            assert(node.children@.skip(i as int)[0] == node.children@[i as int]);
            assert(node.children@.skip(i as int).drop_first() =~= node.children@.skip(i + 1));
        }
        process_content_node(&node.children[i], out);
        if block {
            out.push('\n');
        }
        i = i + 1;
    }
    proof {
        assert(node.children@.skip(n as int) =~= Seq::<RichTextNode>::empty());
        assert(out@ =~= old(out)@ + lin_node(*node));
    }
}

/// Extracts plain text from an optional rich-text document: the
/// linearization of its top-level children, one newline appended after
/// each, or the empty string when the document is absent or childless.
pub fn extract_plain_text_from_description(doc: Option<&RichTextNode>) -> (r: String)
    ensures
        r@ == (match doc {
            Some(n) => extracted_text(Some(*n)),
            None => Seq::<char>::empty(),
        }),
{
    let mut out: Vec<char> = Vec::new();
    match doc {
        Some(n) => {
            let cnt: usize = n.children.len();
            let mut i: usize = 0;
            proof {
                assert(n.children@.skip(0) =~= n.children@);
                assert(out@ + lin_top(n.children@) =~= lin_top(n.children@));
            }
            while i < cnt
                invariant
                    cnt == n.children@.len(),
                    i <= cnt,
                    out@ + lin_top(n.children@.skip(i as int)) == lin_top(n.children@),
                decreases cnt - i,
            {
                proof {
                    assert(n.children@.skip(i as int)[0] == n.children@[i as int]);
                    assert(n.children@.skip(i as int).drop_first() =~= n.children@.skip(i + 1));
                }
                process_content_node(&n.children[i], &mut out);
                out.push('\n');
                i = i + 1;
            }
            proof {
                assert(n.children@.skip(cnt as int) =~= Seq::<RichTextNode>::empty());
                assert(out@ =~= lin_top(n.children@));
            }
        },
        None => {
        },
    }
    chars_to_string(&out)
}

/// An absent document and a childless document both extract to nothing.
pub proof fn lemma_extract_empty(doc: Option<RichTextNode>)
    requires
        match doc {
            Some(n) => n.children@.len() == 0,
            None => true,
        },
    ensures
        extracted_text(doc).len() == 0,
{
}

} // verus!

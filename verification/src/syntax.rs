//! A plain model of a GDScript syntax tree.
//!
//! The parser hands back a tree-sitter tree, which verified code cannot look
//! into. `parser::parse_source` copies what the index reads out of it into a
//! `SyntaxTree`: every node, named or anonymous, in document order, with its
//! kind, the field it fills in its parent, its children and its extent in the
//! source. Everything the index does afterwards works on this model.

use crate::node_kind::GDScriptNodeKind;
use vstd::prelude::*;

verus! {

/// The named fields of grammar rules that the index reads.
#[derive(Debug, Clone, Copy, PartialEq, Eq, Structural)]
pub enum FieldName {
    Name,
    Left,
    Right,
    Op,
    Value,
    Condition,
    Type,
    ReturnType,
    Parameters,
    Body,
    Arguments,
    Static,
    Extends,
}

/// One node of the syntax tree.
pub struct SyntaxNode {
    pub kind: GDScriptNodeKind,
    /// Named nodes come from grammar rules, anonymous ones from literal tokens.
    pub is_named: bool,
    /// The field this node fills in its parent, when the index knows it.
    pub field: Option<FieldName>,
    /// The index of the parent node; None only for the root.
    pub parent: Option<usize>,
    /// The index of this node among its parent's children.
    pub position: usize,
    /// The indices of the children, in document order.
    pub children: Vec<usize>,
    /// Zero-based start and end positions, as tree-sitter reports them.
    /// Columns count bytes within the line.
    pub start_row: usize,
    pub start_column: usize,
    pub end_row: usize,
    pub end_column: usize,
    /// Byte offsets of the node in the UTF-8 source.
    pub start_byte: usize,
    pub end_byte: usize,
    /// Character offsets of the node in the source.
    pub start_char: usize,
    pub end_char: usize,
}

/// A syntax tree; node 0 is the root and nodes appear in document order.
pub struct SyntaxTree {
    pub nodes: Vec<SyntaxNode>,
}

/// The number of bytes UTF-8 uses for `c`.
pub open spec fn utf8_width(c: char) -> nat {
    let v = c as u32;
    if v < 0x80 {
        1
    } else if v < 0x800 {
        2
    } else if v < 0x10000 {
        3
    } else {
        4
    }
}

/// The byte offset of character `index` of `text` in its UTF-8 encoding.
pub open spec fn byte_offset(text: Seq<char>, index: int) -> nat
    decreases index,
{
    if index <= 0 {
        0
    } else {
        byte_offset(text, index - 1) + utf8_width(text[index - 1])
    }
}

impl SyntaxTree {
    pub open spec fn len(&self) -> nat {
        self.nodes@.len()
    }

    pub open spec fn node(&self, i: int) -> SyntaxNode {
        self.nodes@[i]
    }

    pub open spec fn kind(&self, i: int) -> GDScriptNodeKind {
        self.nodes@[i].kind
    }

    pub open spec fn is_named(&self, i: int) -> bool {
        self.nodes@[i].is_named
    }

    pub open spec fn children(&self, i: int) -> Seq<usize> {
        self.nodes@[i].children@
    }

    pub open spec fn child_count(&self, i: int) -> nat {
        self.nodes@[i].children@.len()
    }

    pub open spec fn child(&self, i: int, k: int) -> int {
        self.nodes@[i].children@[k] as int
    }

    /// The links of the tree agree: every child comes after its parent and
    /// names it as parent, at the position it holds in the parent's list.
    pub open spec fn wf_links(&self) -> bool {
        &&& self.len() > 0
        &&& self.nodes@[0].parent is None
        &&& forall|i: int| 0 <= i < self.len() ==> #[trigger] self.node_links_wf(i)
    }

    /// The structural invariant: links agree, and every extent lies within a
    /// source of `source_len` characters.
    pub open spec fn wf(&self, source_len: nat) -> bool {
        &&& self.wf_links()
        &&& forall|i: int| 0 <= i < self.len() ==> #[trigger] self.node_extent_wf(i, source_len)
    }

    pub open spec fn node_extent_wf(&self, i: int, source_len: nat) -> bool {
        let n = self.nodes@[i];
        &&& n.start_char <= n.end_char <= source_len
        &&& n.start_row < usize::MAX
        &&& n.start_column < usize::MAX
        &&& n.end_row < usize::MAX
        &&& n.end_column < usize::MAX
    }

    pub open spec fn node_links_wf(&self, i: int) -> bool {
        let n = self.nodes@[i];
        &&& forall|k: int|
            0 <= k < n.children@.len() ==> {
                let c = #[trigger] n.children@[k] as int;
                &&& i < c < self.len()
                &&& self.nodes@[c].parent == Some(i as usize)
                &&& self.nodes@[c].position == k
            }
        &&& (i > 0 ==> match n.parent {
            Some(p) => {
                &&& p < i
                &&& n.position < self.nodes@[p as int].children@.len()
                &&& self.nodes@[p as int].children@[n.position as int] == i
            },
            None => false,
        })
    }

    /// The character offsets of every node agree with its byte offsets in the
    /// UTF-8 encoding of `source`.
    pub open spec fn matches_source(&self, source: Seq<char>) -> bool {
        forall|i: int|
            0 <= i < self.len() ==> {
                &&& byte_offset(source, #[trigger] self.nodes@[i].start_char as int)
                    == self.nodes@[i].start_byte
                &&& byte_offset(source, self.nodes@[i].end_char as int) == self.nodes@[i].end_byte
            }
    }

    /// The text of node `i`.
    pub open spec fn text(&self, source: Seq<char>, i: int) -> Seq<char> {
        source.subrange(self.nodes@[i].start_char as int, self.nodes@[i].end_char as int)
    }

    /// The first of the first `k` children of `i` that fills field `f`.
    pub open spec fn field_child_upto(&self, i: int, f: FieldName, k: int) -> Option<int>
        decreases k,
    {
        if k <= 0 {
            None
        } else {
            match self.field_child_upto(i, f, k - 1) {
                Some(c) => Some(c),
                None => if self.nodes@[self.child(i, k - 1)].field == Some(f) {
                    Some(self.child(i, k - 1))
                } else {
                    None
                },
            }
        }
    }

    /// The first child of `i` that fills field `f`.
    pub open spec fn child_by_field(&self, i: int, f: FieldName) -> Option<int> {
        self.field_child_upto(i, f, self.child_count(i) as int)
    }

    /// True when `node` is the child of `parent` that fills field `f`.
    pub open spec fn is_field_of(&self, parent: int, f: FieldName, node: int) -> bool {
        self.child_by_field(parent, f) == Some(node)
    }

    /// The named children among the first `k` children of `i`.
    pub open spec fn named_children_upto(&self, i: int, k: int) -> Seq<int>
        decreases k,
    {
        if k <= 0 {
            Seq::empty()
        } else {
            let before = self.named_children_upto(i, k - 1);
            if self.is_named(self.child(i, k - 1)) {
                before.push(self.child(i, k - 1))
            } else {
                before
            }
        }
    }

    /// The named children of `i`, in order.
    pub open spec fn named_children(&self, i: int) -> Seq<int> {
        self.named_children_upto(i, self.child_count(i) as int)
    }

    /// The first of the first `k` children of `i` of kind `kind`, counting
    /// only named children when `named_only` holds.
    pub open spec fn kind_child_upto(
        &self,
        i: int,
        kind: GDScriptNodeKind,
        named_only: bool,
        k: int,
    ) -> Option<int>
        decreases k,
    {
        if k <= 0 {
            None
        } else {
            match self.kind_child_upto(i, kind, named_only, k - 1) {
                Some(c) => Some(c),
                None => {
                    let c = self.child(i, k - 1);
                    if self.kind(c) == kind && (self.is_named(c) || !named_only) {
                        Some(c)
                    } else {
                        None
                    }
                },
            }
        }
    }

    /// What `kind_child_upto` finds is one of the children it looked at.
    pub proof fn lemma_kind_child_is_child(&self, i: int, kind: GDScriptNodeKind, named_only: bool, k: int)
        ensures
            self.kind_child_upto(i, kind, named_only, k) matches Some(c) ==> exists|m: int|
                0 <= m < k && #[trigger] self.child(i, m) == c,
        decreases k,
    {
        if k > 0 {
            self.lemma_kind_child_is_child(i, kind, named_only, k - 1);
        }
    }

    /// What `kind_child_upto` finds has the kind it looked for.
    pub proof fn lemma_kind_child_is_kind(&self, i: int, kind: GDScriptNodeKind, named_only: bool, k: int)
        ensures
            self.kind_child_upto(i, kind, named_only, k) matches Some(c) ==> self.kind(c) == kind,
        decreases k,
    {
        if k > 0 {
            self.lemma_kind_child_is_kind(i, kind, named_only, k - 1);
        }
    }

    /// The first named child of `i` of kind `kind`.
    pub open spec fn first_named_child_of_kind(&self, i: int, kind: GDScriptNodeKind) -> Option<
        int,
    > {
        self.kind_child_upto(i, kind, true, self.child_count(i) as int)
    }

    /// The first child of `i`, named or not, of kind `kind`.
    pub open spec fn first_child_of_kind(&self, i: int, kind: GDScriptNodeKind) -> Option<int> {
        self.kind_child_upto(i, kind, false, self.child_count(i) as int)
    }

    /// The first named child of `i`.
    pub open spec fn first_named_child(&self, i: int) -> Option<int> {
        let named = self.named_children(i);
        if named.len() > 0 {
            Some(named[0])
        } else {
            None
        }
    }

    /// The last named child of `i`.
    pub open spec fn last_named_child(&self, i: int) -> Option<int> {
        let named = self.named_children(i);
        if named.len() > 0 {
            Some(named.last())
        } else {
            None
        }
    }

    /// The first child of `i`, named or not.
    pub open spec fn first_child(&self, i: int) -> Option<int> {
        if self.child_count(i) > 0 {
            Some(self.child(i, 0))
        } else {
            None
        }
    }
}

impl SyntaxTree {
    /// The child of `i` that fills field `f`, as `Node::child_by_field_name`.
    pub fn child_by_field_name(&self, i: usize, f: FieldName) -> (child: Option<usize>)
        requires
            self.wf_links(),
            i < self.len(),
        ensures
            child matches Some(c) ==> self.child_by_field(i as int, f) == Some(c as int) && c < self.len(),
            child is None ==> self.child_by_field(i as int, f) is None,
    {
        let children = &self.nodes[i].children;
        let mut found: Option<usize> = None;
        let mut k: usize = 0;
        while k < children.len()
            invariant
                children@ == self.children(i as int),
                self.wf_links(),
                i < self.len(),
                k <= children@.len(),
                found matches Some(c) ==> self.field_child_upto(i as int, f, k as int) == Some(
                    c as int,
                ) && c < self.len(),
                found is None ==> self.field_child_upto(i as int, f, k as int) is None,
            decreases children@.len() - k,
        {
            let c = children[k];
            assert(self.node_links_wf(i as int));
            if found.is_none() {
                if self.nodes[c].field == Some(f) {
                    found = Some(c);
                }
            }
            k = k + 1;
        }
        found
    }
}

impl SyntaxTree {
    /// The first child of `i` of kind `kind`; only named children count when
    /// `named_only` holds.
    pub fn kind_child(&self, i: usize, kind: GDScriptNodeKind, named_only: bool) -> (child: Option<usize>)
        requires
            self.wf_links(),
            i < self.len(),
        ensures
            child matches Some(c) ==> self.kind_child_upto(i as int, kind, named_only, self.child_count(i as int) as int) == Some(c as int) && c < self.len(),
            child is None ==> self.kind_child_upto(i as int, kind, named_only, self.child_count(i as int) as int) is None,
    {
        let children = &self.nodes[i].children;
        let mut found: Option<usize> = None;
        let mut k: usize = 0;
        while k < children.len()
            invariant
                children@ == self.children(i as int),
                self.wf_links(),
                i < self.len(),
                k <= children@.len(),
                found matches Some(c) ==> self.kind_child_upto(i as int, kind, named_only, k as int) == Some(c as int) && c < self.len(),
                found is None ==> self.kind_child_upto(i as int, kind, named_only, k as int) is None,
            decreases children@.len() - k,
        {
            let c = children[k];
            assert(self.node_links_wf(i as int));
            if found.is_none() {
                if self.nodes[c].kind == kind && (self.nodes[c].is_named || !named_only) {
                    found = Some(c);
                }
            }
            k = k + 1;
        }
        found
    }

    /// The first named child of `i` of kind `kind`.
    pub fn find_first_named_child_of_kind(&self, i: usize, kind: GDScriptNodeKind) -> (child: Option<usize>)
        requires
            self.wf_links(),
            i < self.len(),
        ensures
            child matches Some(c) ==> self.first_named_child_of_kind(i as int, kind) == Some(c as int) && c < self.len(),
            child is None ==> self.first_named_child_of_kind(i as int, kind) is None,
    {
        self.kind_child(i, kind, true)
    }

    /// The first child of `i`, named or anonymous, of kind `kind`.
    pub fn find_first_child_of_kind(&self, i: usize, kind: GDScriptNodeKind) -> (child: Option<usize>)
        requires
            self.wf_links(),
            i < self.len(),
        ensures
            child matches Some(c) ==> self.first_child_of_kind(i as int, kind) == Some(c as int) && c < self.len(),
            child is None ==> self.first_child_of_kind(i as int, kind) is None,
    {
        self.kind_child(i, kind, false)
    }

    /// The first and the last named child of `i`.
    pub fn first_and_last_named_child(&self, i: usize) -> (ends: (Option<usize>, Option<usize>))
        requires
            self.wf_links(),
            i < self.len(),
        ensures
            ends.0 matches Some(c) ==> self.first_named_child(i as int) == Some(c as int) && c < self.len(),
            ends.0 is None ==> self.first_named_child(i as int) is None,
            ends.1 matches Some(c) ==> self.last_named_child(i as int) == Some(c as int) && c < self.len(),
            ends.1 is None ==> self.last_named_child(i as int) is None,
    {
        let children = &self.nodes[i].children;
        let mut first: Option<usize> = None;
        let mut last: Option<usize> = None;
        let mut k: usize = 0;
        while k < children.len()
            invariant
                children@ == self.children(i as int),
                self.wf_links(),
                i < self.len(),
                k <= children@.len(),
                ({
                    let named = self.named_children_upto(i as int, k as int);
                    &&& (named.len() > 0 ==> first is Some && last is Some && first.unwrap() as int == named[0] && last.unwrap() as int == named.last())
                    &&& (named.len() == 0 ==> first is None && last is None)
                    &&& (first matches Some(c) ==> c < self.len())
                    &&& (last matches Some(c) ==> c < self.len())
                }),
            decreases children@.len() - k,
        {
            let c = children[k];
            assert(self.node_links_wf(i as int));
            if self.nodes[c].is_named {
                if first.is_none() {
                    first = Some(c);
                }
                last = Some(c);
            }
            k = k + 1;
        }
        (first, last)
    }

    /// The first child of `i`, named or anonymous.
    pub fn first_child_at(&self, i: usize) -> (child: Option<usize>)
        requires
            self.wf_links(),
            i < self.len(),
        ensures
            child matches Some(c) ==> self.first_child(i as int) == Some(c as int) && c < self.len(),
            child is None ==> self.first_child(i as int) is None,
    {
        assert(self.node_links_wf(i as int));
        if self.nodes[i].children.len() > 0 {
            Some(self.nodes[i].children[0])
        } else {
            None
        }
    }

    /// True when `node` is the child of `parent` that fills field `f`.
    pub fn is_field_of_at(&self, parent: usize, f: FieldName, node: usize) -> (result: bool)
        requires
            self.wf_links(),
            parent < self.len(),
        ensures
            result == self.is_field_of(parent as int, f, node as int),
    {
        match self.child_by_field_name(parent, f) {
            Some(c) => c == node,
            None => false,
        }
    }
}

} // verus!

use vstd::prelude::*;

verus! {

/// Stable index of a node in the tree arena. Index 0 is the root.
#[derive(Debug, Clone, Copy, PartialEq, Eq, Hash, Structural)]
pub struct NodeId(pub usize);

impl NodeId {
    /// The identifier of the root, which no other node ever gets.
    pub fn root() -> (id: NodeId)
        ensures
            id == NodeId(0),
    {
        NodeId(0)
    }

    pub fn index(&self) -> (i: usize)
        ensures
            i == self.0,
    {
        self.0
    }
}

/// The index that an optional identifier names, or -1 where there is none.
pub open spec fn index_of(id: Option<NodeId>) -> int {
    match id {
        Some(n) => n.0 as int,
        None => -1,
    }
}

/// A point in time, in nanoseconds since the Unix epoch.
#[derive(Debug, Clone, Copy, PartialEq, Eq, Hash, Structural)]
pub struct Timestamp {
    pub nanos: u128,
}

/// Type of filesystem entry.
#[derive(Debug, Clone, Copy, PartialEq, Eq, Structural)]
pub enum NodeKind {
    Directory,
    File,
    Symlink,
    Error,
}

impl NodeKind {
    pub open spec fn spec_icon(self) -> Seq<char> {
        match self {
            NodeKind::Directory => "📁"@,
            NodeKind::File => "📄"@,
            NodeKind::Symlink => "🔗"@,
            NodeKind::Error => "⚠️"@,
        }
    }

    pub fn icon(&self) -> (s: &'static str)
        ensures
            s@ == self.spec_icon(),
    {
        match self {
            NodeKind::Directory => "📁",
            NodeKind::File => "📄",
            NodeKind::Symlink => "🔗",
            NodeKind::Error => "⚠️",
        }
    }

    pub fn is_directory(&self) -> (b: bool)
        ensures
            b == (*self == NodeKind::Directory),
    {
        matches!(self, NodeKind::Directory)
    }
}

/// One filesystem entry of the tree.
#[derive(Debug, Clone)]
pub struct TreeNode {
    pub id: NodeId,
    pub name: String,
    pub kind: NodeKind,
    /// Disk usage in bytes; for a directory the sum over its children once aggregated.
    pub size: u64,
    /// Number of files at or below this node.
    pub file_count: u64,
    /// Parent node (`None` for the root).
    pub parent: Option<NodeId>,
    pub children: Vec<NodeId>,
    /// Depth in the tree (0 for the root).
    pub depth: u16,
    pub is_expanded: bool,
    /// Full path of this entry.
    pub path: String,
    /// Modification time captured when the entry was scanned.
    pub mtime: Option<Timestamp>,
}

/// The mathematical value of a `TreeNode`.
pub ghost struct NodeView {
    pub id: NodeId,
    pub name: Seq<char>,
    pub kind: NodeKind,
    pub size: u64,
    pub file_count: u64,
    pub parent: Option<NodeId>,
    pub children: Seq<NodeId>,
    pub depth: u16,
    pub is_expanded: bool,
    pub path: Seq<char>,
    pub mtime: Option<Timestamp>,
}

impl View for TreeNode {
    type V = NodeView;

    open spec fn view(&self) -> NodeView {
        NodeView {
            id: self.id,
            name: self.name@,
            kind: self.kind,
            size: self.size,
            file_count: self.file_count,
            parent: self.parent,
            children: self.children@,
            depth: self.depth,
            is_expanded: self.is_expanded,
            path: self.path@,
            mtime: self.mtime,
        }
    }
}

impl NodeView {
    /// The value of a node as `TreeNode::new` makes it.
    pub open spec fn fresh(
        id: NodeId,
        name: Seq<char>,
        kind: NodeKind,
        path: Seq<char>,
        parent: Option<NodeId>,
        depth: u16,
    ) -> NodeView {
        NodeView {
            id,
            name,
            kind,
            size: 0,
            file_count: if kind == NodeKind::File { 1 } else { 0 },
            parent,
            children: Seq::empty(),
            depth,
            is_expanded: depth == 0,
            path,
            mtime: None,
        }
    }
}

impl TreeNode {
    pub fn new(
        id: NodeId,
        name: String,
        kind: NodeKind,
        path: String,
        parent: Option<NodeId>,
        depth: u16,
    ) -> (node: TreeNode)
        ensures
            node@ == NodeView::fresh(id, name@, kind, path@, parent, depth),
    {
        let file_count: u64 = if kind == NodeKind::File { 1 } else { 0 };
        TreeNode {
            id,
            name,
            kind,
            size: 0,
            file_count,
            parent,
            children: Vec::new(),
            depth,
            is_expanded: depth == 0,
            path,
            mtime: None,
        }
    }

    pub fn has_children(&self) -> (b: bool)
        ensures
            b == (self@.children.len() > 0),
    {
        !self.children.is_empty()
    }

    pub fn is_expandable(&self) -> (b: bool)
        ensures
            b == (self@.kind == NodeKind::Directory && self@.children.len() > 0),
    {
        self.kind.is_directory() && !self.children.is_empty()
    }
}

} // verus!

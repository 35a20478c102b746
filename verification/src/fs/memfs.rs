use crate::text::push_char;
use vstd::prelude::*;
use vstd::slice::slice_to_vec;
use vstd::string::StrSliceExecFns;

verus! {

/// What a node is: a file with its bytes, or a directory with the slots of
/// its children in the order they were added.
pub enum NodeKind {
    File(Vec<u8>),
    Dir(Vec<usize>),
}

/// One node of the tree.
pub struct Node {
    pub name: String,
    pub kind: NodeKind,
}

/// What a node is, as plain values.
pub enum KindView {
    File(Seq<u8>),
    Dir(Seq<usize>),
}

/// What a node holds, as plain values.
pub struct NodeView {
    pub name: Seq<char>,
    pub kind: KindView,
}

impl View for Node {
    type V = NodeView;

    open spec fn view(&self) -> NodeView {
        NodeView {
            name: self.name@,
            kind: match self.kind {
                NodeKind::File(data) => KindView::File(data@),
                NodeKind::Dir(children) => KindView::Dir(children@),
            },
        }
    }
}

/// A file system in memory: a tree of directories and files. The nodes lie
/// in one table; slot 0 is the root directory, and every child lies in a
/// slot after its parent's.
pub struct MemFs {
    nodes: Vec<Node>,
}

impl View for MemFs {
    type V = Seq<NodeView>;

    closed spec fn view(&self) -> Seq<NodeView> {
        Seq::new(self.nodes@.len(), |i: int| self.nodes@[i]@)
    }
}

/// The parts of a path between slashes, empty parts left out; `cur` holds
/// the characters of the part that is being read.
pub open spec fn split_from(s: Seq<char>, cur: Seq<char>) -> Seq<Seq<char>>
    decreases s.len(),
{
    if s.len() == 0 {
        if cur.len() > 0 {
            seq![cur]
        } else {
            Seq::empty()
        }
    } else if s[0] == '/' {
        if cur.len() > 0 {
            seq![cur] + split_from(s.drop_first(), Seq::empty())
        } else {
            split_from(s.drop_first(), Seq::empty())
        }
    } else {
        split_from(s.drop_first(), cur.push(s[0]))
    }
}

/// The parts of a path between slashes, empty parts left out.
pub open spec fn components(path: Seq<char>) -> Seq<Seq<char>> {
    split_from(path, Seq::empty())
}

/// The tree is consistent: the root is a directory, and the children of a
/// directory lie in slots of the table after the directory's own.
pub open spec fn tree_wf(nodes: Seq<NodeView>) -> bool {
    &&& nodes.len() > 0
    &&& nodes[0].kind is Dir
    &&& forall|i: int, k: int|
        0 <= i < nodes.len() && nodes[i].kind is Dir && 0 <= k < nodes[i].kind->Dir_0.len() ==> i < (
        #[trigger] nodes[i].kind->Dir_0[k]) < nodes.len()
}

/// Index in `children` of the first child named `name`, among the first `n`; `n` where there is none.
pub open spec fn first_named(nodes: Seq<NodeView>, children: Seq<usize>, name: Seq<char>, n: nat) -> nat
    decreases n,
{
    if n == 0 {
        0
    } else {
        let before = first_named(nodes, children, name, (n - 1) as nat);
        if before < n - 1 {
            before
        } else if nodes[children[n - 1] as int].name == name {
            (n - 1) as nat
        } else {
            n
        }
    }
}

/// The slot of the first child of the directory at `dir` that is named
/// `name`; `None` where `dir` is no directory or has no such child.
pub open spec fn child_named(nodes: Seq<NodeView>, dir: int, name: Seq<char>) -> Option<int> {
    match nodes[dir].kind {
        KindView::File(_) => None,
        KindView::Dir(children) => {
            let k = first_named(nodes, children, name, children.len());
            if k < children.len() {
                Some(children[k as int] as int)
            } else {
                None
            }
        },
    }
}

/// The slot that the parts lead to from the root; `None` where a part is missing.
pub open spec fn walk(nodes: Seq<NodeView>, parts: Seq<Seq<char>>) -> Option<int>
    decreases parts.len(),
{
    if parts.len() == 0 {
        Some(0)
    } else {
        match walk(nodes, parts.drop_last()) {
            Some(dir) => child_named(nodes, dir, parts.last()),
            None => None,
        }
    }
}

/// The tree with one more node, added as the last child of the directory at `dir`.
pub open spec fn with_child(nodes: Seq<NodeView>, dir: int, child: NodeView) -> Seq<NodeView> {
    nodes.update(
        dir,
        NodeView { name: nodes[dir].name, kind: KindView::Dir(nodes[dir].kind->Dir_0.push(nodes.len() as usize)) },
    ).push(child)
}

/// The tree and the slot reached after going down the parts from the root,
/// making a directory for each part that is missing; `None` where the way
/// leads through a file.
pub open spec fn walk_making(nodes: Seq<NodeView>, parts: Seq<Seq<char>>) -> Option<(Seq<NodeView>, int)>
    decreases parts.len(),
{
    if parts.len() == 0 {
        Some((nodes, 0))
    } else {
        match walk_making(nodes, parts.drop_last()) {
            Some((tree, dir)) => if tree[dir].kind is Dir {
                match child_named(tree, dir, parts.last()) {
                    Some(c) => Some((tree, c)),
                    None => Some(
                        (
                            with_child(tree, dir, NodeView { name: parts.last(), kind: KindView::Dir(Seq::empty()) }),
                            tree.len() as int,
                        ),
                    ),
                }
            } else {
                None
            },
            None => None,
        }
    }
}

/// The tree after `data` was written to the file that the parts name: the
/// directories on the way are made where they are missing; the first node of
/// that name in the last directory becomes a file with the data, or a new
/// file is added. `None` where the way leads through a file. Without parts
/// nothing changes.
pub open spec fn written(nodes: Seq<NodeView>, parts: Seq<Seq<char>>, data: Seq<u8>) -> Option<Seq<NodeView>> {
    if parts.len() == 0 {
        Some(nodes)
    } else {
        match walk_making(nodes, parts.drop_last()) {
            Some((tree, dir)) => if tree[dir].kind is Dir {
                match child_named(tree, dir, parts.last()) {
                    Some(c) => Some(tree.update(c, NodeView { name: tree[c].name, kind: KindView::File(data) })),
                    None => Some(with_child(tree, dir, NodeView { name: parts.last(), kind: KindView::File(data) })),
                }
            } else {
                None
            },
            None => None,
        }
    }
}

/// A slot as a mathematical integer.
pub open spec fn as_slot(r: Option<usize>) -> Option<int> {
    match r {
        Some(c) => Some(c as int),
        None => None,
    }
}

/// The names of the nodes in the given slots, in order.
pub open spec fn names_of(nodes: Seq<NodeView>, slots: Seq<usize>) -> Seq<Seq<char>> {
    Seq::new(slots.len(), |k: int| nodes[slots[k] as int].name)
}

/// The texts of a list of strings.
pub open spec fn texts(v: Seq<String>) -> Seq<Seq<char>> {
    Seq::new(v.len(), |i: int| v[i]@)
}

/// Splits a path into its parts between slashes, empty parts left out.
pub fn split_path(path: &str) -> (parts: Vec<String>)
    ensures
        texts(parts@) == components(path@),
{
    let n = path.unicode_len();
    let mut parts: Vec<String> = Vec::new();
    let mut cur = String::new();
    let mut i: usize = 0;
    proof {
        assert(path@.subrange(0, n as int) =~= path@);
        assert(texts(parts@) =~= Seq::<Seq<char>>::empty());
    }
    while i < n
        invariant
            n == path@.len(),
            i <= n,
            components(path@) == texts(parts@) + split_from(path@.subrange(i as int, n as int), cur@),
        decreases n - i,
    {
        let c = path.get_char(i);
        let ghost rest = path@.subrange(i as int, n as int);
        let ghost done = texts(parts@);
        proof {
            assert(rest[0] == c);
            assert(rest.drop_first() =~= path@.subrange(i + 1, n as int));
        }
        let ghost cur0 = cur@;
        let ghost tail = path@.subrange(i + 1, n as int);
        if c == '/' {
            if !cur.as_str().is_empty() {
                parts.push(cur);
                cur = String::new();
                proof {
                    assert(texts(parts@) =~= done + seq![cur0]);
                    assert(split_from(rest, cur0) == seq![cur0] + split_from(tail, Seq::empty()));
                    assert(done + (seq![cur0] + split_from(tail, Seq::empty())) =~= (done + seq![cur0]) + split_from(
                        tail,
                        Seq::empty(),
                    ));
                }
            } else {
                proof {
                    assert(cur0 =~= Seq::<char>::empty());
                    assert(split_from(rest, cur0) == split_from(tail, Seq::empty()));
                }
            }
        } else {
            push_char(&mut cur, c);
            proof {
                assert(split_from(rest, cur0) == split_from(tail, cur0.push(c)));
            }
        }
        i += 1;
    }
    proof {
        assert(path@.subrange(n as int, n as int) =~= Seq::<char>::empty());
    }
    let ghost done = texts(parts@);
    let ghost last = cur@;
    if !cur.as_str().is_empty() {
        parts.push(cur);
        proof {
            assert(texts(parts@) =~= done + seq![last]);
        }
    } else {
        proof {
            assert(done + Seq::<Seq<char>>::empty() =~= done);
        }
    }
    parts
}

/// The tree and the directory reached after going down the parts from the
/// root for a new file: where a part names no directory, a new directory of
/// that name is added and entered.
pub open spec fn walk_adding(nodes: Seq<NodeView>, parts: Seq<Seq<char>>) -> (Seq<NodeView>, int)
    decreases parts.len(),
{
    if parts.len() == 0 {
        (nodes, 0)
    } else {
        let (tree, dir) = walk_adding(nodes, parts.drop_last());
        match child_named(tree, dir, parts.last()) {
            Some(c) if tree[c].kind is Dir => (tree, c),
            _ => (with_child(tree, dir, NodeView { name: parts.last(), kind: KindView::Dir(Seq::empty()) }), tree.len() as int),
        }
    }
}

/// The tree after a file was added under the name that the parts give: a
/// new file as the last child of the directory that `walk_adding` reaches.
/// Without parts nothing changes.
pub open spec fn added(nodes: Seq<NodeView>, parts: Seq<Seq<char>>, data: Seq<u8>) -> Seq<NodeView> {
    if parts.len() == 0 {
        nodes
    } else {
        let (tree, dir) = walk_adding(nodes, parts.drop_last());
        with_child(tree, dir, NodeView { name: parts.last(), kind: KindView::File(data) })
    }
}

/// Adding a child to a directory keeps the tree consistent.
pub proof fn lemma_with_child_wf(nodes: Seq<NodeView>, dir: int, child: NodeView)
    requires
        tree_wf(nodes),
        0 <= dir < nodes.len(),
        nodes[dir].kind is Dir,
        nodes.len() < usize::MAX,
        child.kind is Dir ==> child.kind->Dir_0.len() == 0,
    ensures
        tree_wf(with_child(nodes, dir, child)),
        with_child(nodes, dir, child).len() == nodes.len() + 1,
{
    let t = with_child(nodes, dir, child);
    assert forall|i: int, k: int| 0 <= i < t.len() && t[i].kind is Dir && 0 <= k < t[i].kind->Dir_0.len() implies i < (
    #[trigger] t[i].kind->Dir_0[k]) < t.len() by {
        if i == dir {
            if k < nodes[dir].kind->Dir_0.len() {
                assert(t[i].kind->Dir_0[k] == nodes[dir].kind->Dir_0[k]);
            }
        } else if i < nodes.len() {
            assert(t[i] == nodes[i]);
            assert(t[i].kind->Dir_0[k] == nodes[i].kind->Dir_0[k]);
        }
    }
}

impl MemFs {
    /// The tree is consistent.
    pub open spec fn wf(&self) -> bool {
        tree_wf(self@)
    }

    /// A file system that holds only its root directory, named `name`.
    pub fn new_dir(name: &str) -> (fs: Self)
        ensures
            fs.wf(),
            fs@ == seq![(NodeView { name: name@, kind: KindView::Dir(Seq::empty()) })],
    {
        let mut nodes: Vec<Node> = Vec::new();
        nodes.push(Node { name: name.to_owned(), kind: NodeKind::Dir(Vec::new()) });
        let fs = MemFs { nodes };
        proof {
            assert(fs@ =~= seq![(NodeView { name: name@, kind: KindView::Dir(Seq::empty()) })]);
        }
        fs
    }

    /// How many nodes the tree has.
    pub fn node_count(&self) -> (n: usize)
        ensures
            n == self@.len(),
    {
        self.nodes.len()
    }

    /// The slot of the first child of the directory at `dir` that is named `name`.
    fn find_child(&self, dir: usize, name: &String) -> (r: Option<usize>)
        requires
            self.wf(),
            dir < self@.len(),
        ensures
            as_slot(r) == child_named(self@, dir as int, name@),
            r is Some ==> r->0 < self@.len(),
    {
        match &self.nodes[dir].kind {
            NodeKind::File(_) => None,
            NodeKind::Dir(children) => {
                let mut k: usize = 0;
                while k < children.len()
                    invariant
                        self.wf(),
                        dir < self@.len(),
                        self@[dir as int].kind == KindView::Dir(children@),
                        k <= children@.len(),
                        first_named(self@, children@, name@, k as nat) == k,
                    decreases children@.len() - k,
                {
                    let c = children[k];
                    proof {
                        assert(c == self@[dir as int].kind->Dir_0[k as int]);
                        assert(c < self@.len());
                    }
                    if self.nodes[c].name == *name {
                        proof {
                            assert(first_named(self@, children@, name@, (k + 1) as nat) == k);
                            lemma_first_named_stays(self@, children@, name@, k as nat, children@.len());
                        }
                        return Some(c);
                    }
                    proof {
                        assert(first_named(self@, children@, name@, (k + 1) as nat) == k + 1);
                    }
                    k += 1;
                }
                None
            },
        }
    }

    /// The slot that the path leads to from the root, or `None` where a part of it is missing.
    pub fn find(&self, path: &str) -> (r: Option<usize>)
        requires
            self.wf(),
        ensures
            as_slot(r) == walk(self@, components(path@)),
            r is Some ==> r->0 < self@.len(),
    {
        let parts = split_path(path);
        let mut cur: usize = 0;
        let mut i: usize = 0;
        proof {
            assert(texts(parts@).take(0) =~= Seq::<Seq<char>>::empty());
        }
        while i < parts.len()
            invariant
                self.wf(),
                i <= parts@.len(),
                cur < self@.len(),
                texts(parts@) == components(path@),
                walk(self@, texts(parts@).take(i as int)) == Some(cur as int),
            decreases parts@.len() - i,
        {
            proof {
                assert(texts(parts@).take(i + 1).drop_last() =~= texts(parts@).take(i as int));
                assert(texts(parts@).take(i + 1).last() == parts@[i as int]@);
            }
            match self.find_child(cur, &parts[i]) {
                Some(c) => {
                    cur = c;
                },
                None => {
                    proof {
                        lemma_walk_fails(self@, texts(parts@), (i + 1) as int);
                    }
                    return None;
                },
            }
            i += 1;
        }
        proof {
            assert(texts(parts@).take(i as int) =~= texts(parts@));
        }
        Some(cur)
    }

    /// The node that the path leads to from the root, or `None` where a part of it is missing.
    pub fn find_ref(&self, path: &str) -> (r: Option<&Node>)
        requires
            self.wf(),
        ensures
            match walk(self@, components(path@)) {
                Some(c) => r is Some && r->0@ == self@[c],
                None => r is None,
            },
    {
        match self.find(path) {
            Some(c) => Some(&self.nodes[c]),
            None => None,
        }
    }

    /// The bytes of the file that the path names; an error where the path
    /// names a directory or nothing.
    pub fn read(&self, path: &str) -> (r: Result<Vec<u8>, ()>)
        requires
            self.wf(),
        ensures
            match walk(self@, components(path@)) {
                Some(c) => match self@[c].kind {
                    KindView::File(data) => r is Ok && r->Ok_0@ == data,
                    KindView::Dir(_) => r is Err,
                },
                None => r is Err,
            },
    {
        match self.find(path) {
            Some(c) => match &self.nodes[c].kind {
                NodeKind::File(data) => Ok(slice_to_vec(data.as_slice())),
                NodeKind::Dir(_) => Err(()),
            },
            None => Err(()),
        }
    }

    /// The names of the children of the directory that the path names, in
    /// the order they were added; an error where the path names a file or nothing.
    pub fn list(&self, path: &str) -> (r: Result<Vec<String>, ()>)
        requires
            self.wf(),
        ensures
            match walk(self@, components(path@)) {
                Some(c) => match self@[c].kind {
                    KindView::Dir(children) => r is Ok && texts(r->Ok_0@) == names_of(self@, children),
                    KindView::File(_) => r is Err,
                },
                None => r is Err,
            },
    {
        match self.find(path) {
            Some(c) => match &self.nodes[c].kind {
                NodeKind::Dir(children) => {
                    let mut names: Vec<String> = Vec::new();
                    let mut k: usize = 0;
                    while k < children.len()
                        invariant
                            self.wf(),
                            c < self@.len(),
                            self@[c as int].kind == KindView::Dir(children@),
                            k <= children@.len(),
                            texts(names@) == names_of(self@, children@.take(k as int)),
                        decreases children@.len() - k,
                    {
                        let slot = children[k];
                        proof {
                            assert(slot == self@[c as int].kind->Dir_0[k as int]);
                            assert(slot < self@.len());
                        }
                        let ghost had = texts(names@);
                        let name = self.nodes[slot].name.clone();
                        proof {
                            assert(name@ == self@[slot as int].name);
                        }
                        names.push(name);
                        proof {
                            assert(texts(names@) =~= had.push(name@));
                            assert(names_of(self@, children@.take(k + 1)) =~= names_of(self@, children@.take(k as int)).push(
                                self@[slot as int].name,
                            ));
                        }
                        k += 1;
                    }
                    proof {
                        assert(children@.take(k as int) =~= children@);
                    }
                    Ok(names)
                },
                NodeKind::File(_) => Err(()),
            },
            None => Err(()),
        }
    }

    /// Appends a node as the last child of the directory at `dir`.
    fn push_child(&mut self, dir: usize, name: String, kind: NodeKind) -> (slot: usize)
        requires
            old(self).wf(),
            dir < old(self)@.len(),
            old(self)@[dir as int].kind is Dir,
            old(self)@.len() < usize::MAX,
            match kind {
                NodeKind::Dir(children) => children@.len() == 0,
                NodeKind::File(_) => true,
            },
        ensures
            final(self).wf(),
            slot == old(self)@.len(),
            final(self)@ == with_child(old(self)@, dir as int, (Node { name, kind })@),
    {
        let slot = self.nodes.len();
        match &mut self.nodes[dir].kind {
            NodeKind::Dir(children) => {
                children.push(slot);
            },
            NodeKind::File(_) => {},
        }
        self.nodes.push(Node { name, kind });
        proof {
            assert(self@ =~= with_child(old(self)@, dir as int, (Node { name, kind })@));
            lemma_with_child_wf(old(self)@, dir as int, (Node { name, kind })@);
        }
        slot
    }
}

impl MemFs {
    /// Writes `data` to the file that the path names, making it where it is
    /// missing and the directories on the way with it; a node of that name
    /// that exists becomes a file with the data. Fails, with nothing
    /// changed, where the way leads through a file, or the table of nodes
    /// would grow beyond what a `usize` counts. An empty path changes nothing.
    pub fn write(&mut self, path: &str, data: &[u8]) -> (r: Result<(), ()>)
        requires
            old(self).wf(),
        ensures
            final(self).wf(),
            r is Err ==> final(self)@ == old(self)@,
            r is Ok <==> written(old(self)@, components(path@), data@) is Some && (components(path@).len() == 0 || old(self)@.len()
                + components(path@).len() <= usize::MAX),
            r is Ok ==> final(self)@ == written(old(self)@, components(path@), data@)->0,
    {
        let parts = split_path(path);
        let n = parts.len();
        if n == 0 {
            return Ok(());
        }
        if n > usize::MAX - self.nodes.len() {
            return Err(());
        }
        let ghost start = self@;
        let ghost names = texts(parts@);
        let mut cur: usize = 0;
        let mut i: usize = 0;
        proof {
            assert(names.take(0) =~= Seq::<Seq<char>>::empty());
            assert(names.drop_last() =~= names.take(n - 1));
        }
        while i < n - 1
            invariant
                self.wf(),
                start == old(self)@,
                names == texts(parts@),
                names == components(path@),
                n == parts@.len(),
                n >= 1,
                i <= n - 1,
                start.len() + n <= usize::MAX,
                self@.len() <= start.len() + i,
                cur < self@.len(),
                walk_making(start, names.take(i as int)) == Some((self@, cur as int)),
                self@ == start || self@[cur as int].kind == KindView::Dir(Seq::empty()),
            decreases n - 1 - i,
        {
            proof {
                assert(names.take(i + 1).drop_last() =~= names.take(i as int));
                assert(names.take(i + 1).last() == parts@[i as int]@);
            }
            let is_dir = match &self.nodes[cur].kind {
                NodeKind::Dir(_) => true,
                NodeKind::File(_) => false,
            };
            if !is_dir {
                proof {
                    assert(walk_making(start, names.take(i + 1)) is None);
                    assert(names.take(n - 1).take(i + 1) =~= names.take(i + 1));
                    lemma_walk_making_fails(start, names.take(n - 1), (i + 1) as int);
                }
                return Err(());
            }
            match self.find_child(cur, &parts[i]) {
                Some(c) => {
                    cur = c;
                },
                None => {
                    cur = self.push_child(cur, parts[i].clone(), NodeKind::Dir(Vec::new()));
                },
            }
            i += 1;
        }
        proof {
            assert(names.take(n - 1) =~= names.drop_last());
            assert(names.last() == parts@[n - 1]@);
        }
        let is_dir = match &self.nodes[cur].kind {
            NodeKind::Dir(_) => true,
            NodeKind::File(_) => false,
        };
        if !is_dir {
            return Err(());
        }
        match self.find_child(cur, &parts[n - 1]) {
            Some(c) => {
                let ghost tree = self@;
                self.nodes[c].kind = NodeKind::File(slice_to_vec(data));
                proof {
                    assert(self@ =~= tree.update(c as int, NodeView { name: tree[c as int].name, kind: KindView::File(data@) }));
                    lemma_file_update_wf(tree, c as int, data@);
                }
            },
            None => {
                let _slot = self.push_child(cur, parts[n - 1].clone(), NodeKind::File(slice_to_vec(data)));
            },
        }
        Ok(())
    }

    /// Adds a file with the bytes `data` under the name that the path gives,
    /// as the last child of its directory, whether or not a node of that name
    /// is there; where a part on the way names no directory, a new directory
    /// is added and entered. Nothing changes for an empty path, or where the
    /// table of nodes would grow beyond what a `usize` counts.
    pub fn add_file(&mut self, path: &str, data: &[u8])
        requires
            old(self).wf(),
        ensures
            final(self).wf(),
            final(self)@ == if old(self)@.len() + components(path@).len() <= usize::MAX {
                added(old(self)@, components(path@), data@)
            } else {
                old(self)@
            },
    {
        let parts = split_path(path);
        let n = parts.len();
        if n == 0 || n > usize::MAX - self.nodes.len() {
            return ;
        }
        let ghost start = self@;
        let ghost names = texts(parts@);
        let mut cur: usize = 0;
        let mut i: usize = 0;
        proof {
            assert(names.take(0) =~= Seq::<Seq<char>>::empty());
        }
        while i < n - 1
            invariant
                self.wf(),
                start == old(self)@,
                names == texts(parts@),
                n == parts@.len(),
                n >= 1,
                i <= n - 1,
                start.len() + n <= usize::MAX,
                self@.len() <= start.len() + i,
                cur < self@.len(),
                self@[cur as int].kind is Dir,
                walk_adding(start, names.take(i as int)) == (self@, cur as int),
            decreases n - 1 - i,
        {
            proof {
                assert(names.take(i + 1).drop_last() =~= names.take(i as int));
                assert(names.take(i + 1).last() == parts@[i as int]@);
            }
            let found = self.find_child(cur, &parts[i]);
            let enter: Option<usize> = match found {
                Some(c) => match &self.nodes[c].kind {
                    NodeKind::Dir(_) => Some(c),
                    NodeKind::File(_) => None,
                },
                None => None,
            };
            match enter {
                Some(c) => {
                    cur = c;
                },
                None => {
                    cur = self.push_child(cur, parts[i].clone(), NodeKind::Dir(Vec::new()));
                },
            }
            i += 1;
        }
        proof {
            assert(names.take(n - 1) =~= names.drop_last());
            assert(names.last() == parts@[n - 1]@);
        }
        let _slot = self.push_child(cur, parts[n - 1].clone(), NodeKind::File(slice_to_vec(data)));
    }
}

/// Turning a node into a file keeps the tree consistent, unless it is the root.
pub proof fn lemma_file_update_wf(nodes: Seq<NodeView>, c: int, data: Seq<u8>)
    requires
        tree_wf(nodes),
        0 < c < nodes.len(),
    ensures
        tree_wf(nodes.update(c, NodeView { name: nodes[c].name, kind: KindView::File(data) })),
{
    let t = nodes.update(c, NodeView { name: nodes[c].name, kind: KindView::File(data) });
    assert forall|i: int, k: int| 0 <= i < t.len() && t[i].kind is Dir && 0 <= k < t[i].kind->Dir_0.len() implies i < (
    #[trigger] t[i].kind->Dir_0[k]) < t.len() by {
        assert(t[i] == nodes[i]);
        assert(t[i].kind->Dir_0[k] == nodes[i].kind->Dir_0[k]);
    }
}

/// Where the first `k` parts lead through a file, so does the whole path.
pub proof fn lemma_walk_making_fails(nodes: Seq<NodeView>, parts: Seq<Seq<char>>, k: int)
    requires
        0 <= k <= parts.len(),
        walk_making(nodes, parts.take(k)) is None,
    ensures
        walk_making(nodes, parts) is None,
    decreases parts.len() - k,
{
    if k < parts.len() {
        assert(parts.take(k + 1).drop_last() =~= parts.take(k));
        lemma_walk_making_fails(nodes, parts, k + 1);
    } else {
        assert(parts.take(k) =~= parts);
    }
}

/// Once a child of that name is found among the first `k + 1`, it stays the first.
pub proof fn lemma_first_named_stays(nodes: Seq<NodeView>, children: Seq<usize>, name: Seq<char>, k: nat, n: nat)
    requires
        k < n,
        first_named(nodes, children, name, (k + 1) as nat) == k,
    ensures
        first_named(nodes, children, name, n) == k,
    decreases n,
{
    if n > k + 1 {
        lemma_first_named_stays(nodes, children, name, k, (n - 1) as nat);
    }
}

/// Where the first `k` parts lead nowhere, the whole path leads nowhere.
pub proof fn lemma_walk_fails(nodes: Seq<NodeView>, parts: Seq<Seq<char>>, k: int)
    requires
        0 <= k <= parts.len(),
        walk(nodes, parts.take(k)) is None,
    ensures
        walk(nodes, parts) is None,
    decreases parts.len() - k,
{
    if k < parts.len() {
        assert(parts.take(k + 1).drop_last() =~= parts.take(k));
        lemma_walk_fails(nodes, parts, k + 1);
    } else {
        assert(parts.take(k) =~= parts);
    }
}

/// A path has no more parts than characters, whatever part is being read.
pub proof fn lemma_split_len(s: Seq<char>, cur: Seq<char>)
    ensures
        split_from(s, cur).len() <= s.len() + 1,
        cur.len() == 0 ==> split_from(s, cur).len() <= s.len(),
    decreases s.len(),
{
    if s.len() > 0 {
        lemma_split_len(s.drop_first(), Seq::empty());
        lemma_split_len(s.drop_first(), cur.push(s[0]));
    }
}

/// A path has no more parts than characters.
pub proof fn lemma_components_len(path: Seq<char>)
    ensures
        components(path).len() <= path.len(),
{
    lemma_split_len(path, Seq::empty());
}

/// Going down for a new file keeps the tree consistent, ends in a
/// directory, and adds at most one node for each part.
pub proof fn lemma_walk_adding_len(nodes: Seq<NodeView>, parts: Seq<Seq<char>>)
    requires
        tree_wf(nodes),
        nodes.len() + parts.len() <= usize::MAX,
    ensures
        tree_wf(walk_adding(nodes, parts).0),
        0 <= walk_adding(nodes, parts).1 < walk_adding(nodes, parts).0.len(),
        walk_adding(nodes, parts).0[walk_adding(nodes, parts).1].kind is Dir,
        nodes.len() <= walk_adding(nodes, parts).0.len() <= nodes.len() + parts.len(),
    decreases parts.len(),
{
    if parts.len() > 0 {
        lemma_walk_adding_len(nodes, parts.drop_last());
        let (tree, dir) = walk_adding(nodes, parts.drop_last());
        let fresh = NodeView { name: parts.last(), kind: KindView::Dir(Seq::empty()) };
        lemma_with_child_wf(tree, dir, fresh);
        match child_named(tree, dir, parts.last()) {
            Some(c) => {
                let children = tree[dir].kind->Dir_0;
                let k = first_named(tree, children, parts.last(), children.len());
                assert(c == children[k as int]);
                assert(dir < tree[dir].kind->Dir_0[k as int] < tree.len());
            },
            None => {},
        }
    }
}

/// Adding a file adds at most one node for each part of its path.
pub proof fn lemma_added_len(nodes: Seq<NodeView>, parts: Seq<Seq<char>>, data: Seq<u8>)
    requires
        tree_wf(nodes),
        nodes.len() + parts.len() <= usize::MAX,
    ensures
        nodes.len() <= added(nodes, parts, data).len() <= nodes.len() + parts.len(),
{
    if parts.len() > 0 {
        lemma_walk_adding_len(nodes, parts.drop_last());
    }
}

} // verus!

use vstd::prelude::*;

verus! {

/// An owned value of the output tree: text, a sequence, or an object whose
/// entries keep their insertion order.
#[derive(Debug, PartialEq, Eq)]
pub enum Node {
    Text(String),
    List(Vec<Node>),
    Object(Vec<(String, Node)>),
}

/// The mathematical value of a `Node`.
pub ghost enum Tree {
    Text(Seq<char>),
    List(Seq<Tree>),
    Object(Seq<(Seq<char>, Tree)>),
}

impl Node {
    /// The tree that this node stands for.
    pub open spec fn tree(&self) -> Tree
        decreases self,
    {
        match self {
            Node::Text(s) => Tree::Text(s@),
            Node::List(v) => Tree::List(
                Seq::new(
                    v.len() as nat,
                    |i: int|
                        if 0 <= i < v.len() {
                            v[i].tree()
                        } else {
                            Tree::List(Seq::empty())
                        },
                ),
            ),
            Node::Object(v) => Tree::Object(
                Seq::new(
                    v.len() as nat,
                    |i: int|
                        if 0 <= i < v.len() {
                            (v[i].0@, v[i].1.tree())
                        } else {
                            (Seq::empty(), Tree::List(Seq::empty()))
                        },
                ),
            ),
        }
    }
}


/// The entries of an object, as the tree sees them.
pub open spec fn entries_tree(v: Seq<(String, Node)>) -> Seq<(Seq<char>, Tree)> {
    Seq::new(v.len(), |i: int| (v[i].0@, v[i].1.tree()))
}

/// An attribute group: each attribute name mapped to its text, in source order.
pub open spec fn attrs_tree(a: Seq<(String, String)>) -> Tree {
    Tree::Object(Seq::new(a.len(), |i: int| (a[i].0@, Tree::Text(a[i].1@))))
}

/// A record: an object whose one key `$` holds the attribute group.
pub open spec fn record_tree(a: Seq<(String, String)>) -> Tree {
    Tree::Object(seq![("$"@, attrs_tree(a))])
}

/// A value wrapped in a one-element sequence.
pub open spec fn single(t: Tree) -> Tree {
    Tree::List(seq![t])
}

/// An object node's tree lists its entries' trees in order.
pub proof fn lemma_object_tree(v: Vec<(String, Node)>)
    ensures
        Node::Object(v).tree() == Tree::Object(entries_tree(v@)),
{
    let s = Node::Object(v).tree()->Object_0;
    assert(s.len() == v@.len());
    assert forall|i: int| 0 <= i < v@.len() implies s[i] == entries_tree(v@)[i] by {
        assert(v[i] == v@[i]);
    }
    assert(s =~= entries_tree(v@));
}

/// Pushing an entry pushes its tree.
pub proof fn lemma_entries_push(v: Seq<(String, Node)>, x: (String, Node))
    ensures
        entries_tree(v.push(x)) == entries_tree(v).push((x.0@, x.1.tree())),
{
    assert(entries_tree(v.push(x)) =~= entries_tree(v).push((x.0@, x.1.tree())));
}

/// The items of a sequence, as the tree sees them.
pub open spec fn items_tree(v: Seq<Node>) -> Seq<Tree> {
    Seq::new(v.len(), |i: int| v[i].tree())
}

/// A list node's tree lists its items' trees in order.
pub proof fn lemma_list_tree(v: Vec<Node>)
    ensures
        Node::List(v).tree() == Tree::List(items_tree(v@)),
{
    let s = Node::List(v).tree()->List_0;
    assert forall|i: int| 0 <= i < v@.len() implies s[i] == items_tree(v@)[i] by {
        assert(v[i] == v@[i]);
    }
    assert(s =~= items_tree(v@));
}

/// Pushing an item pushes its tree.
pub proof fn lemma_items_push(v: Seq<Node>, x: Node)
    ensures
        items_tree(v.push(x)) == items_tree(v).push(x.tree()),
{
    assert(items_tree(v.push(x)) =~= items_tree(v).push(x.tree()));
}

/// Wraps a node in a one-element sequence.
pub fn wrap_single(n: Node) -> (r: Node)
    ensures
        r.tree() == single(n.tree()),
{
    let v = vec![n];
    proof {
        assert(Node::List(v).tree()->List_0 =~= seq![n.tree()]);
    }
    Node::List(v)
}

/// An object with one entry.
pub fn object_of(key: String, value: Node) -> (r: Node)
    ensures
        r.tree() == Tree::Object(seq![(key@, value.tree())]),
{
    let v = vec![(key, value)];
    proof {
        assert(Node::Object(v).tree()->Object_0 =~= seq![(key@, value.tree())]);
    }
    Node::Object(v)
}

/// Builds the attribute group of a start tag.
pub fn attrs_node(a: &Vec<(String, String)>) -> (r: Node)
    ensures
        r.tree() == attrs_tree(a@),
{
    let mut out: Vec<(String, Node)> = Vec::new();
    let mut i: usize = 0;
    while i < a.len()
        invariant
            i <= a.len(),
            entries_tree(out@) =~= Seq::new(i as nat, |j: int| (a@[j].0@, Tree::Text(a@[j].1@))),
        decreases a.len() - i,
    {
        let entry = (a[i].0.clone(), Node::Text(a[i].1.clone()));
        proof {
            lemma_entries_push(out@, entry);
        }
        out.push(entry);
        i = i + 1;
    }
    proof {
        lemma_object_tree(out);
    }
    Node::Object(out)
}

/// Builds a record: `{ "$": { attributes } }`.
pub fn record_node(a: &Vec<(String, String)>) -> (r: Node)
    ensures
        r.tree() == record_tree(a@),
{
    object_of("$".to_string(), attrs_node(a))
}

} // verus!

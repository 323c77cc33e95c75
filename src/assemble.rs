use vstd::prelude::*;
use crate::engine::{Status, StatusModel};
use crate::schema::{bus_key, bus_key_str, is_flag, same_text, scalar_key, scalar_key_str, BUS_COUNT, FIRST_FLAG, SCALAR_COUNT};
use crate::tree::{
    entries_tree, items_tree, lemma_entries_push, lemma_items_push, lemma_list_tree,
    lemma_object_tree, object_of, record_node, record_tree, single, wrap_single, Node, Tree,
};

verus! {

/// Whether a captured text is there and not empty.
pub open spec fn present(t: Option<String>) -> bool {
    t is Some && t->Some_0@.len() > 0
}

/// The entry that scalar field `i` contributes: a flag always, with `False`
/// when nothing was captured; any other field only when its text is present.
pub open spec fn scalar_entry(i: int, t: Option<String>) -> Seq<(Seq<char>, Tree)> {
    if is_flag(i) {
        seq![(scalar_key(i), single(Tree::Text(if present(t) { t->Some_0@ } else { "False"@ })))]
    } else if present(t) {
        seq![(scalar_key(i), single(Tree::Text(t->Some_0@)))]
    } else {
        seq![]
    }
}

/// The entries of the first `n` scalar fields, in table order.
pub open spec fn scalar_entries(texts: Seq<Option<String>>, n: int) -> Seq<(Seq<char>, Tree)>
    decreases n,
{
    if n <= 0 {
        seq![]
    } else {
        scalar_entries(texts, n - 1) + scalar_entry(n - 1, texts[n - 1])
    }
}

/// A repeated entity: `outer: [ { inner: [ items ] } ]`.
pub open spec fn group(outer: Seq<char>, inner: Seq<char>, items: Seq<Tree>) -> (Seq<char>, Tree) {
    (outer, single(Tree::Object(seq![(inner, Tree::List(items))])))
}

/// An overlay record: its `number` under `$`, or an empty object.
pub open spec fn overlay_tree(n: Option<String>) -> Tree {
    match n {
        Some(v) => Tree::Object(seq![("$"@, Tree::Object(seq![("number"@, Tree::Text(v@))]))]),
        None => Tree::Object(seq![]),
    }
}

/// The entries of the first `n` audio buses that were observed, in table order.
pub open spec fn bus_entries(b: Seq<Option<Seq<(String, String)>>>, n: int) -> Seq<(Seq<char>, Tree)>
    decreases n,
{
    if n <= 0 {
        seq![]
    } else {
        bus_entries(b, n - 1) + match b[n - 1] {
            Some(a) => seq![(bus_key(n - 1), record_tree(a))],
            None => seq![],
        }
    }
}

pub open spec fn any_bus(b: Seq<Option<Seq<(String, String)>>>) -> bool {
    exists|i: int| 0 <= i < b.len() && b[i] is Some
}

/// Whether the recording flag is on: the element occurred, and its text does
/// not say false.
pub open spec fn recording_on(m: StatusModel) -> bool {
    m.recording && !(m.recording_text matches Some(t) && (t@ == "False"@ || t@ == "false"@))
}

pub open spec fn recording_tree(d: Option<String>) -> Tree {
    single(
        Tree::Object(
            seq![
                ("$"@, Tree::Object(
                    match d {
                        Some(v) => seq![("duration"@, Tree::Text(v@))],
                        None => seq![],
                    },
                )),
            ],
        ),
    )
}

pub open spec fn entry_if(c: bool, e: (Seq<char>, Tree)) -> Seq<(Seq<char>, Tree)> {
    if c {
        seq![e]
    } else {
        seq![]
    }
}

pub open spec fn input_trees(m: StatusModel) -> Seq<Tree> {
    Seq::new(m.inputs.len(), |i: int| record_tree(m.inputs[i]))
}

pub open spec fn overlay_trees(m: StatusModel) -> Seq<Tree> {
    Seq::new(m.overlays.len(), |i: int| overlay_tree(m.overlays[i]))
}

pub open spec fn transition_trees(m: StatusModel) -> Seq<Tree> {
    Seq::new(m.transitions.len(), |i: int| record_tree(m.transitions[i]))
}

/// The entries of the status object, in output order.
pub open spec fn status_entries(m: StatusModel) -> Seq<(Seq<char>, Tree)> {
    scalar_entries(m.texts, SCALAR_COUNT as int)
        + entry_if(m.inputs.len() > 0, group("inputs"@, "input"@, input_trees(m)))
        + entry_if(m.overlays.len() > 0, group("overlays"@, "overlay"@, overlay_trees(m)))
        + entry_if(m.transitions.len() > 0, group("transitions"@, "transition"@, transition_trees(m)))
        + entry_if(any_bus(m.buses), ("audio"@, single(Tree::Object(bus_entries(m.buses, BUS_COUNT as int)))))
        + entry_if(recording_on(m), ("recording"@, recording_tree(m.duration)))
}

/// The tree returned when nothing could be read: `{ vmix: {} }`.
pub open spec fn empty_document() -> Tree {
    Tree::Object(seq![("vmix"@, Tree::Object(seq![]))])
}

/// The whole output: the status object under the single key `vmix`, or the
/// empty document when no element was seen.
pub open spec fn document(m: StatusModel) -> Tree {
    if m.seen_element {
        Tree::Object(seq![("vmix"@, Tree::Object(status_entries(m)))])
    } else {
        empty_document()
    }
}

/// Builds `{ vmix: {} }`.
pub fn empty_document_node() -> (r: Node)
    ensures
        r.tree() == empty_document(),
{
    let inner: Vec<(String, Node)> = Vec::new();
    proof {
        lemma_object_tree(inner);
        assert(entries_tree(inner@) =~= seq![]);
    }
    object_of("vmix".to_string(), Node::Object(inner))
}

fn text_node(t: &String) -> (r: Node)
    ensures
        r.tree() == single(Tree::Text(t@)),
{
    wrap_single(Node::Text(t.clone()))
}

fn group_node(outer: &str, inner: &str, items: Node) -> (r: (String, Node))
    ensures
        r.0@ == outer@,
        r.1.tree() == single(Tree::Object(seq![(inner@, items.tree())])),
{
    let key = outer.to_string();
    let inner_key = inner.to_string();
    (key, wrap_single(object_of(inner_key, items)))
}

fn records_node(v: &Vec<Vec<(String, String)>>) -> (r: Node)
    ensures
        r.tree() == Tree::List(Seq::new(v.len() as nat, |i: int| record_tree(v@[i]@))),
{
    let mut out: Vec<Node> = Vec::new();
    let mut i: usize = 0;
    while i < v.len()
        invariant
            i <= v.len(),
            items_tree(out@) =~= Seq::new(i as nat, |j: int| record_tree(v@[j]@)),
        decreases v.len() - i,
    {
        let n = record_node(&v[i]);
        proof {
            lemma_items_push(out@, n);
        }
        out.push(n);
        i = i + 1;
    }
    proof {
        lemma_list_tree(out);
    }
    Node::List(out)
}

fn overlay_node(n: &Option<String>) -> (r: Node)
    ensures
        r.tree() == overlay_tree(*n),
{
    match n {
        Some(v) => object_of(
            "$".to_string(),
            object_of("number".to_string(), Node::Text(v.clone())),
        ),
        None => {
            let e: Vec<(String, Node)> = Vec::new();
            proof {
                lemma_object_tree(e);
                assert(entries_tree(e@) =~= seq![]);
            }
            Node::Object(e)
        },
    }
}

fn overlays_node(v: &Vec<Option<String>>) -> (r: Node)
    ensures
        r.tree() == Tree::List(Seq::new(v.len() as nat, |i: int| overlay_tree(v@[i]))),
{
    let mut out: Vec<Node> = Vec::new();
    let mut i: usize = 0;
    while i < v.len()
        invariant
            i <= v.len(),
            items_tree(out@) =~= Seq::new(i as nat, |j: int| overlay_tree(v@[j])),
        decreases v.len() - i,
    {
        let n = overlay_node(&v[i]);
        proof {
            lemma_items_push(out@, n);
        }
        out.push(n);
        i = i + 1;
    }
    proof {
        lemma_list_tree(out);
    }
    Node::List(out)
}

fn is_present(t: &Option<String>) -> (r: bool)
    ensures
        r == present(*t),
{
    match t {
        Some(s) => !s.as_str().is_empty(),
        None => false,
    }
}

fn push_entry(out: &mut Vec<(String, Node)>, e: (String, Node))
    ensures
        entries_tree(final(out)@) == entries_tree(old(out)@).push((e.0@, e.1.tree())),
{
    proof {
        lemma_entries_push(out@, e);
    }
    out.push(e);
}

fn push_scalar(out: &mut Vec<(String, Node)>, i: usize, t: &Option<String>)
    requires
        i < SCALAR_COUNT,
    ensures
        entries_tree(final(out)@) == entries_tree(old(out)@) + scalar_entry(i as int, *t),
{
    let ghost before = entries_tree(out@);
    let key = scalar_key_str(i).to_string();
    let flag = i >= FIRST_FLAG;
    if is_present(t) {
        let v = t.as_ref().unwrap();
        push_entry(out, (key, text_node(v)));
        assert(entries_tree(out@) =~= before + scalar_entry(i as int, *t));
    } else if flag {
        let f = "False".to_string();
        push_entry(out, (key, text_node(&f)));
        assert(entries_tree(out@) =~= before + scalar_entry(i as int, *t));
    } else {
        assert(entries_tree(out@) =~= before + scalar_entry(i as int, *t));
    }
}

impl Status {
    /// Assembles the output tree from the collected fields.
    pub fn document(&self) -> (r: Node)
        requires
            self.wf(),
        ensures
            r.tree() == document(self@),
    {
        if !self.seen_element {
            return empty_document_node();
        }
        let ghost m = self@;
        let mut out: Vec<(String, Node)> = Vec::new();
        let mut i: usize = 0;
        while i < SCALAR_COUNT
            invariant
                i <= SCALAR_COUNT,
                self.wf(),
                m == self@,
                entries_tree(out@) == scalar_entries(m.texts, i as int),
            decreases SCALAR_COUNT - i,
        {
            push_scalar(&mut out, i, &self.texts[i]);
            i = i + 1;
        }
        let ghost acc = entries_tree(out@);
        if self.inputs.len() > 0 {
            let items = records_node(&self.inputs);
            assert(input_trees(m) =~= Seq::new(self.inputs.len() as nat, |j: int| record_tree(self.inputs@[j]@)));
            push_entry(&mut out, group_node("inputs", "input", items));
        }
        assert(entries_tree(out@) =~= acc + entry_if(m.inputs.len() > 0, group("inputs"@, "input"@, input_trees(m))));
        let ghost acc = entries_tree(out@);
        if self.overlays.len() > 0 {
            let items = overlays_node(&self.overlays);
            assert(overlay_trees(m) =~= Seq::new(self.overlays.len() as nat, |j: int| overlay_tree(self.overlays@[j])));
            push_entry(&mut out, group_node("overlays", "overlay", items));
        }
        assert(entries_tree(out@) =~= acc + entry_if(m.overlays.len() > 0, group("overlays"@, "overlay"@, overlay_trees(m))));
        let ghost acc = entries_tree(out@);
        if self.transitions.len() > 0 {
            let items = records_node(&self.transitions);
            assert(transition_trees(m) =~= Seq::new(self.transitions.len() as nat, |j: int| record_tree(self.transitions@[j]@)));
            push_entry(&mut out, group_node("transitions", "transition", items));
        }
        assert(entries_tree(out@) =~= acc + entry_if(m.transitions.len() > 0, group("transitions"@, "transition"@, transition_trees(m))));
        let ghost acc = entries_tree(out@);
        let buses = self.buses_node();
        if let Some(b) = buses {
            let key = "audio".to_string();
            push_entry(&mut out, (key, wrap_single(b)));
        }
        assert(entries_tree(out@) =~= acc + entry_if(any_bus(m.buses), ("audio"@, single(Tree::Object(bus_entries(m.buses, BUS_COUNT as int))))));
        let ghost acc = entries_tree(out@);
        if self.recording_on() {
            let key = "recording".to_string();
            push_entry(&mut out, (key, self.recording_node()));
        }
        assert(entries_tree(out@) =~= acc + entry_if(recording_on(m), ("recording"@, recording_tree(m.duration))));
        proof {
            lemma_object_tree(out);
        }
        object_of("vmix".to_string(), Node::Object(out))
    }

    fn recording_on(&self) -> (r: bool)
        ensures
            r == recording_on(self@),
    {
        if !self.recording {
            return false;
        }
        match &self.recording_text {
            Some(t) => !(same_text(t, "False") || same_text(t, "false")),
            None => true,
        }
    }

    fn recording_node(&self) -> (r: Node)
        ensures
            r.tree() == recording_tree(self.duration),
    {
        let mut inner: Vec<(String, Node)> = Vec::new();
        match &self.duration {
            Some(d) => {
                let key = "duration".to_string();
                push_entry(&mut inner, (key, Node::Text(d.clone())));
            },
            None => {},
        }
        proof {
            lemma_object_tree(inner);
            assert(entries_tree(inner@) =~= match self.duration {
                Some(v) => seq![("duration"@, Tree::Text(v@))],
                None => seq![],
            });
        }
        wrap_single(object_of("$".to_string(), Node::Object(inner)))
    }

    /// The audio object, when at least one bus was observed.
    fn buses_node(&self) -> (r: Option<Node>)
        requires
            self.wf(),
        ensures
            r is Some == any_bus(self@.buses),
            r matches Some(n) ==> n.tree() == Tree::Object(bus_entries(self@.buses, BUS_COUNT as int)),
    {
        let ghost m = self@;
        let mut out: Vec<(String, Node)> = Vec::new();
        let mut seen = false;
        let mut i: usize = 0;
        while i < BUS_COUNT
            invariant
                i <= BUS_COUNT,
                self.wf(),
                m == self@,
                entries_tree(out@) == bus_entries(m.buses, i as int),
                seen == exists|j: int| 0 <= j < i && m.buses[j] is Some,
            decreases BUS_COUNT - i,
        {
            match &self.buses[i] {
                Some(a) => {
                    let key = bus_key_str(i).to_string();
                    push_entry(&mut out, (key, record_node(a)));
                    seen = true;
                },
                None => {},
            }
            assert(m.buses[i as int] == super::engine::opt_attrs_view(self.buses@[i as int]));
            assert(entries_tree(out@) =~= bus_entries(m.buses, i + 1));
            i = i + 1;
        }
        if seen {
            proof {
                lemma_object_tree(out);
            }
            Some(Node::Object(out))
        } else {
            None
        }
    }
}

} // verus!

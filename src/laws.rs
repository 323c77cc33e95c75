use vstd::prelude::*;
use crate::assemble::{bus_entries, empty_document, input_trees, present, scalar_entries, scalar_entry, status_entries};
use crate::convert::{convert_spec, xml_events};
use crate::engine::{run, step, StatusModel};
use crate::event::XmlEvent;
use crate::schema::{bus_key, is_flag, role_of, scalar_key, BUS_COUNT, SCALAR_COUNT};
use crate::tree::{record_tree, single, Node, Tree};

verus! {

/// The attributes that an event contributes to the input list: those of an
/// `input` start tag.
pub open spec fn input_attrs(e: XmlEvent) -> Option<Seq<(String, String)>> {
    if e is Start && role_of(e->Start_0.name@) is Input {
        Some(e->Start_0.attrs@)
    } else {
        None
    }
}

/// Whether an event opens an element.
pub open spec fn is_start(e: XmlEvent) -> bool {
    e is Start
}

/// The input list holds one record per `input` start tag, in document order,
/// each with exactly the attributes of its tag.
pub proof fn lemma_inputs_in_order(events: Seq<XmlEvent>)
    ensures
        run(events).inputs == events.filter_map(|e: XmlEvent| input_attrs(e)),
        input_trees(run(events)) == events.filter_map(|e: XmlEvent| input_attrs(e)).map_values(
            |a: Seq<(String, String)>| record_tree(a),
        ),
{
    lemma_collected_inputs(events);
    assert(input_trees(run(events)) =~= events.filter_map(|e: XmlEvent| input_attrs(e)).map_values(
        |a: Seq<(String, String)>| record_tree(a),
    ));
}

proof fn lemma_collected_inputs(events: Seq<XmlEvent>)
    ensures
        run(events).inputs == events.filter_map(|e: XmlEvent| input_attrs(e)),
    decreases events.len(),
{
    if events.len() > 0 {
        lemma_collected_inputs(events.drop_last());
        let m = run(events.drop_last());
        let e = events.last();
        if input_attrs(e) is Some {
            assert(step(m, e).inputs =~= m.inputs + seq![e->Start_0.attrs@]);
        } else {
            assert(step(m, e).inputs == m.inputs);
        }
    }
}

/// The context records that an element was seen exactly when the events hold
/// a start tag.
pub proof fn lemma_seen_element(events: Seq<XmlEvent>)
    ensures
        run(events).seen_element == (exists|i: int| 0 <= i < events.len() && is_start(#[trigger] events[i])),
    decreases events.len(),
{
    if events.len() > 0 {
        let p = events.drop_last();
        lemma_seen_element(p);
        if run(events).seen_element && !is_start(events.last()) {
            let i = choose|i: int| 0 <= i < p.len() && is_start(#[trigger] p[i]);
            assert(is_start(events[i]));
        }
        if exists|i: int| 0 <= i < events.len() && is_start(#[trigger] events[i]) {
            let i = choose|i: int| 0 <= i < events.len() && is_start(#[trigger] events[i]);
            if i < p.len() {
                assert(is_start(p[i]));
            }
        }
    }
}

/// Input that the tokenizer rejects, or that holds no element at all, gives
/// exactly the empty document `{ vmix: {} }`.
pub proof fn lemma_empty_result(s: Seq<char>)
    requires
        xml_events(s) matches Some(e) ==> forall|i: int| 0 <= i < e.len() ==> !is_start(#[trigger] e[i]),
    ensures
        convert_spec(xml_events(s)) == empty_document(),
{
    if let Some(e) = xml_events(s) {
        lemma_seen_element(e);
    }
}

/// Every key of the audio object names the master or one of buses A to G; in
/// particular none is `busH`.
pub proof fn lemma_bus_keys(b: Seq<Option<Seq<(String, String)>>>)
    requires
        b.len() == BUS_COUNT,
    ensures
        forall|j: int|
            0 <= j < bus_entries(b, BUS_COUNT as int).len() ==> {
                let k = #[trigger] bus_entries(b, BUS_COUNT as int)[j].0;
                &&& exists|i: int| 0 <= i < BUS_COUNT && k == bus_key(i)
                &&& k != "busH"@
            },
{
    lemma_bus_keys_upto(b, BUS_COUNT as int);
    assert forall|j: int| 0 <= j < bus_entries(b, BUS_COUNT as int).len() implies
        #[trigger] bus_entries(b, BUS_COUNT as int)[j].0 != "busH"@ by {
        let i = choose|i: int| 0 <= i < BUS_COUNT && bus_entries(b, BUS_COUNT as int)[j].0 == bus_key(i);
        lemma_bus_key_not_h(i);
    }
}

proof fn lemma_bus_key_not_h(i: int)
    requires
        0 <= i < BUS_COUNT,
    ensures
        bus_key(i) != "busH"@,
{
    reveal_strlit("master");
    reveal_strlit("busA");
    reveal_strlit("busB");
    reveal_strlit("busC");
    reveal_strlit("busD");
    reveal_strlit("busE");
    reveal_strlit("busF");
    reveal_strlit("busG");
    reveal_strlit("busH");
    if i == 0 {
        assert(bus_key(i).len() != "busH"@.len());
    } else {
        assert(bus_key(i)[3] != "busH"@[3]);
    }
}

proof fn lemma_bus_keys_upto(b: Seq<Option<Seq<(String, String)>>>, n: int)
    requires
        0 <= n <= b.len(),
        b.len() == BUS_COUNT,
    ensures
        forall|j: int|
            0 <= j < bus_entries(b, n).len() ==> exists|i: int|
                0 <= i < n && #[trigger] bus_entries(b, n)[j].0 == bus_key(i),
    decreases n,
{
    if n > 0 {
        lemma_bus_keys_upto(b, n - 1);
        let prev = bus_entries(b, n - 1);
        assert forall|j: int| 0 <= j < bus_entries(b, n).len() implies exists|i: int|
            0 <= i < n && #[trigger] bus_entries(b, n)[j].0 == bus_key(i) by {
            if j < prev.len() {
                assert(bus_entries(b, n)[j] == prev[j]);
                let i = choose|i: int| 0 <= i < n - 1 && prev[j].0 == bus_key(i);
                assert(0 <= i < n && bus_entries(b, n)[j].0 == bus_key(i));
            } else {
                assert(bus_entries(b, n)[j].0 == bus_key(n - 1));
            }
        }
    }
}

/// The value of the first entry with key `key`, if any.
pub open spec fn lookup(entries: Seq<(Seq<char>, Tree)>, key: Seq<char>) -> Option<Tree>
    decreases entries.len(),
{
    if entries.len() == 0 {
        None
    } else if entries[0].0 == key {
        Some(entries[0].1)
    } else {
        lookup(entries.drop_first(), key)
    }
}

/// What the status object holds under the key of scalar field `i`.
pub open spec fn scalar_value(i: int, t: Option<String>) -> Option<Tree> {
    if present(t) {
        Some(single(Tree::Text(t->Some_0@)))
    } else if is_flag(i) {
        Some(single(Tree::Text("False"@)))
    } else {
        None
    }
}

proof fn lemma_lookup_concat(a: Seq<(Seq<char>, Tree)>, b: Seq<(Seq<char>, Tree)>, k: Seq<char>)
    ensures
        lookup(a + b, k) == if lookup(a, k) is Some {
            lookup(a, k)
        } else {
            lookup(b, k)
        },
    decreases a.len(),
{
    if a.len() == 0 {
        assert(a + b =~= b);
    } else {
        assert((a + b).drop_first() =~= a.drop_first() + b);
        lemma_lookup_concat(a.drop_first(), b, k);
    }
}

proof fn lemma_lookup_absent(a: Seq<(Seq<char>, Tree)>, k: Seq<char>)
    requires
        forall|j: int| 0 <= j < a.len() ==> (#[trigger] a[j]).0 != k,
    ensures
        lookup(a, k) is None,
    decreases a.len(),
{
    if a.len() > 0 {
        assert forall|j: int| 0 <= j < a.drop_first().len() implies (#[trigger] a.drop_first()[j]).0 != k by {
            assert(a.drop_first()[j] == a[j + 1]);
        }
        lemma_lookup_absent(a.drop_first(), k);
    }
}

/// Length and first character of each scalar key: together they tell the
/// keys apart.
spec fn key_sign(i: int) -> (int, char) {
    if i == 0 {
        (7, 'v')
    } else if i == 1 {
        (7, 'e')
    } else if i == 2 {
        (6, 'p')
    } else if i == 3 {
        (6, 'a')
    } else if i == 4 {
        (7, 'p')
    } else if i == 5 {
        (9, 's')
    } else if i == 6 {
        (11, 'f')
    } else if i == 7 {
        (8, 'e')
    } else if i == 8 {
        (8, 'p')
    } else if i == 9 {
        (11, 'm')
    } else {
        (10, 'f')
    }
}

proof fn lemma_reveal_keys(i: int)
    requires
        0 <= i < SCALAR_COUNT,
    ensures
        (scalar_key(i).len() as int, scalar_key(i)[0]) == key_sign(i),
        "inputs"@.len() == 6 && "inputs"@[0] == 'i',
        "overlays"@.len() == 8 && "overlays"@[0] == 'o',
        "transitions"@.len() == 11 && "transitions"@[0] == 't',
        "audio"@.len() == 5 && "audio"@[0] == 'a',
        "recording"@.len() == 9 && "recording"@[0] == 'r',
{
    reveal_strlit("version");
    reveal_strlit("edition");
    reveal_strlit("preset");
    reveal_strlit("active");
    reveal_strlit("preview");
    reveal_strlit("streaming");
    reveal_strlit("fadeToBlack");
    reveal_strlit("external");
    reveal_strlit("playList");
    reveal_strlit("multiCorder");
    reveal_strlit("fullscreen");
    reveal_strlit("inputs");
    reveal_strlit("overlays");
    reveal_strlit("transitions");
    reveal_strlit("audio");
    reveal_strlit("recording");
}

proof fn lemma_scalar_keys_distinct(i: int, j: int)
    requires
        0 <= i < SCALAR_COUNT,
        0 <= j < SCALAR_COUNT,
        i != j,
    ensures
        scalar_key(i) != scalar_key(j),
        scalar_key(i) != "inputs"@,
        scalar_key(i) != "overlays"@,
        scalar_key(i) != "transitions"@,
        scalar_key(i) != "audio"@,
        scalar_key(i) != "recording"@,
{
    lemma_reveal_keys(i);
    lemma_reveal_keys(j);
}

proof fn lemma_scalar_lookup(texts: Seq<Option<String>>, n: int, i: int)
    requires
        texts.len() == SCALAR_COUNT,
        0 <= n <= SCALAR_COUNT,
        0 <= i < SCALAR_COUNT,
    ensures
        lookup(scalar_entries(texts, n), scalar_key(i)) == if i < n {
            scalar_value(i, texts[i])
        } else {
            None
        },
    decreases n,
{
    if n > 0 {
        lemma_scalar_lookup(texts, n - 1, i);
        let last = scalar_entry(n - 1, texts[n - 1]);
        lemma_lookup_concat(scalar_entries(texts, n - 1), last, scalar_key(i));
        if i != n - 1 {
            lemma_scalar_keys_distinct(n - 1, i);
            lemma_lookup_absent(last, scalar_key(i));
        }
    }
}

/// Each scalar field appears in the status object as a one-element sequence
/// of its text when that text was captured and is not empty. A flag field
/// appears always, holding `False` when no text was captured; any other field
/// is then absent.
pub proof fn lemma_scalar_fields(m: StatusModel, i: int)
    requires
        m.texts.len() == SCALAR_COUNT,
        0 <= i < SCALAR_COUNT,
    ensures
        lookup(status_entries(m), scalar_key(i)) == scalar_value(i, m.texts[i]),
{
    let k = scalar_key(i);
    lemma_scalar_lookup(m.texts, SCALAR_COUNT as int, i);
    let j = if i == 0 { 1int } else { 0 };
    lemma_scalar_keys_distinct(i, j);
    let rest = status_entries(m).subrange(SCALAR_COUNT as int, status_entries(m).len() as int);
    let sc = scalar_entries(m.texts, SCALAR_COUNT as int);
    assert(status_entries(m) =~= sc + (status_entries(m).subrange(sc.len() as int, status_entries(m).len() as int)));
    assert forall|x: int| 0 <= x < status_entries(m).len() - sc.len() implies
        (#[trigger] status_entries(m).subrange(sc.len() as int, status_entries(m).len() as int)[x]).0 != k by {
        let e = status_entries(m)[sc.len() + x].0;
        assert(e == "inputs"@ || e == "overlays"@ || e == "transitions"@ || e == "audio"@ || e == "recording"@);
    }
    lemma_lookup_concat(sc, status_entries(m).subrange(sc.len() as int, status_entries(m).len() as int), k);
    if lookup(sc, k) is None {
        lemma_lookup_absent(status_entries(m).subrange(sc.len() as int, status_entries(m).len() as int), k);
    }
}

/// Converting the same text twice gives the same tree: what `parse` returns is
/// fixed by the text alone.
pub proof fn lemma_parse_deterministic(xml: Seq<char>, first: Node, second: Node)
    requires
        first.tree() == convert_spec(xml_events(xml)),
        second.tree() == convert_spec(xml_events(xml)),
    ensures
        first.tree() == second.tree(),
{
}

} // verus!

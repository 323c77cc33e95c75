use vstd::prelude::*;
use crate::event::{Tag, XmlEvent};
use crate::schema::{classify, role_of, same_text, Role, BUS_COUNT, SCALAR_COUNT};

verus! {

/// The per-call build context: the open-element path, the captured scalar
/// texts and the record collectors.
pub struct Status {
    pub path: Vec<String>,
    pub texts: Vec<Option<String>>,
    pub inputs: Vec<Vec<(String, String)>>,
    pub overlays: Vec<Option<String>>,
    pub transitions: Vec<Vec<(String, String)>>,
    pub buses: Vec<Option<Vec<(String, String)>>>,
    pub recording: bool,
    pub recording_text: Option<String>,
    pub duration: Option<String>,
    pub seen_element: bool,
}

/// The mathematical value of a `Status`.
pub ghost struct StatusModel {
    pub path: Seq<String>,
    pub texts: Seq<Option<String>>,
    pub inputs: Seq<Seq<(String, String)>>,
    pub overlays: Seq<Option<String>>,
    pub transitions: Seq<Seq<(String, String)>>,
    pub buses: Seq<Option<Seq<(String, String)>>>,
    pub recording: bool,
    pub recording_text: Option<String>,
    pub duration: Option<String>,
    pub seen_element: bool,
}

/// The attribute list of an observed bus, as a sequence.
pub open spec fn opt_attrs_view(o: Option<Vec<(String, String)>>) -> Option<Seq<(String, String)>> {
    match o {
        Some(v) => Some(v@),
        None => None,
    }
}

impl View for Status {
    type V = StatusModel;

    open spec fn view(&self) -> StatusModel {
        StatusModel {
            path: self.path@,
            texts: self.texts@,
            inputs: Seq::new(self.inputs.len() as nat, |i: int| self.inputs@[i]@),
            overlays: self.overlays@,
            transitions: Seq::new(self.transitions.len() as nat, |i: int| self.transitions@[i]@),
            buses: Seq::new(self.buses.len() as nat, |i: int| opt_attrs_view(self.buses@[i])),
            recording: self.recording,
            recording_text: self.recording_text,
            duration: self.duration,
            seen_element: self.seen_element,
        }
    }
}

/// The context before any event.
pub open spec fn initial_model() -> StatusModel {
    StatusModel {
        path: Seq::empty(),
        texts: Seq::new(SCALAR_COUNT as nat, |i: int| None),
        inputs: Seq::empty(),
        overlays: Seq::empty(),
        transitions: Seq::empty(),
        buses: Seq::new(BUS_COUNT as nat, |i: int| None),
        recording: false,
        recording_text: None,
        duration: None,
        seen_element: false,
    }
}

/// The value of the first attribute named `key`.
pub open spec fn find_attr(a: Seq<(String, String)>, key: Seq<char>) -> Option<String>
    decreases a.len(),
{
    if a.len() == 0 {
        None
    } else if a[0].0@ == key {
        Some(a[0].1)
    } else {
        find_attr(a.drop_first(), key)
    }
}

/// What a start tag adds to the collectors, by the element's role.
pub open spec fn collect(m: StatusModel, role: Role, attrs: Seq<(String, String)>) -> StatusModel {
    match role {
        Role::Input => StatusModel { inputs: m.inputs.push(attrs), ..m },
        Role::Overlay => StatusModel { overlays: m.overlays.push(find_attr(attrs, "number"@)), ..m },
        Role::Transition => StatusModel { transitions: m.transitions.push(attrs), ..m },
        Role::Bus(i) => StatusModel { buses: m.buses.update(i as int, Some(attrs)), ..m },
        Role::Recording => StatusModel {
            recording: true,
            duration: if find_attr(attrs, "duration"@) is Some {
                find_attr(attrs, "duration"@)
            } else {
                m.duration
            },
            ..m
        },
        _ => m,
    }
}

/// Where a text event goes: to the scalar field, or the recording flag, named
/// by the innermost open element.
pub open spec fn capture(m: StatusModel, text: String) -> StatusModel {
    if m.path.len() == 0 {
        m
    } else {
        match role_of(m.path.last()@) {
            Role::Scalar(i) => StatusModel { texts: m.texts.update(i as int, Some(text)), ..m },
            Role::Recording => StatusModel { recording_text: Some(text), ..m },
            _ => m,
        }
    }
}

/// The effect of one event on the context.
pub open spec fn step(m: StatusModel, e: XmlEvent) -> StatusModel {
    match e {
        XmlEvent::Start(tag) => collect(
            StatusModel { path: m.path.push(tag.name), seen_element: true, ..m },
            role_of(tag.name@),
            tag.attrs@,
        ),
        XmlEvent::End => if m.path.len() == 0 {
            m
        } else {
            StatusModel { path: m.path.drop_last(), ..m }
        },
        XmlEvent::Text(t) => capture(m, t),
    }
}

/// The context after a sequence of events.
pub open spec fn run(events: Seq<XmlEvent>) -> StatusModel
    decreases events.len(),
{
    if events.len() == 0 {
        initial_model()
    } else {
        step(run(events.drop_last()), events.last())
    }
}

fn copy_attrs(a: &Vec<(String, String)>) -> (r: Vec<(String, String)>)
    ensures
        r@ == a@,
{
    let mut out: Vec<(String, String)> = Vec::new();
    let mut i: usize = 0;
    while i < a.len()
        invariant
            i <= a.len(),
            out@ =~= a@.subrange(0, i as int),
        decreases a.len() - i,
    {
        out.push((a[i].0.clone(), a[i].1.clone()));
        i = i + 1;
    }
    out
}

/// The value of the first attribute named `key`.
pub fn attr_value(a: &Vec<(String, String)>, key: &str) -> (r: Option<String>)
    ensures
        r == find_attr(a@, key@),
{
    let mut i: usize = 0;
    assert(a@.subrange(0, a.len() as int) =~= a@);
    while i < a.len()
        invariant
            i <= a.len(),
            find_attr(a@, key@) == find_attr(a@.subrange(i as int, a.len() as int), key@),
        decreases a.len() - i,
    {
        proof {
            let rest = a@.subrange(i as int, a.len() as int);
            assert(rest.drop_first() =~= a@.subrange(i + 1, a.len() as int));
        }
        if same_text(&a[i].0, key) {
            return Some(a[i].1.clone());
        }
        i = i + 1;
    }
    None
}

impl Status {
    /// One slot per scalar field and per audio bus.
    pub open spec fn wf(&self) -> bool {
        &&& self.texts.len() == SCALAR_COUNT
        &&& self.buses.len() == BUS_COUNT
    }

    /// A fresh context: nothing open, nothing captured.
    pub fn new() -> (r: Status)
        ensures
            r.wf(),
            r@ == initial_model(),
    {
        let mut texts: Vec<Option<String>> = Vec::new();
        while texts.len() < SCALAR_COUNT
            invariant
                texts.len() <= SCALAR_COUNT,
                forall|j: int| 0 <= j < texts.len() ==> texts@[j] is None,
            decreases SCALAR_COUNT - texts.len(),
        {
            texts.push(None);
        }
        let mut buses: Vec<Option<Vec<(String, String)>>> = Vec::new();
        while buses.len() < BUS_COUNT
            invariant
                buses.len() <= BUS_COUNT,
                forall|j: int| 0 <= j < buses.len() ==> buses@[j] is None,
            decreases BUS_COUNT - buses.len(),
        {
            buses.push(None);
        }
        let r = Status {
            path: Vec::new(),
            texts,
            inputs: Vec::new(),
            overlays: Vec::new(),
            transitions: Vec::new(),
            buses,
            recording: false,
            recording_text: None,
            duration: None,
            seen_element: false,
        };
        assert(r@.texts =~= initial_model().texts);
        assert(r@.buses =~= initial_model().buses);
        assert(r@.inputs =~= initial_model().inputs);
        assert(r@.transitions =~= initial_model().transitions);
        r
    }

    fn start(&mut self, tag: &Tag)
        requires
            old(self).wf(),
        ensures
            final(self).wf(),
            final(self)@ == step(old(self)@, XmlEvent::Start(*tag)),
    {
        let ghost before = self@;
        self.path.push(tag.name.clone());
        self.seen_element = true;
        let ghost mid = self@;
        assert(mid.inputs =~= before.inputs);
        assert(mid.transitions =~= before.transitions);
        assert(mid.buses =~= before.buses);
        assert(mid == StatusModel { path: before.path.push(tag.name), seen_element: true, ..before });
        match classify(&tag.name) {
            Role::Input => {
                self.inputs.push(copy_attrs(&tag.attrs));
                assert(self@.inputs =~= mid.inputs.push(tag.attrs@));
                assert(self@.transitions =~= mid.transitions);
                assert(self@.buses =~= mid.buses);
            },
            Role::Overlay => {
                self.overlays.push(attr_value(&tag.attrs, "number"));
                assert(self@.inputs =~= mid.inputs);
                assert(self@.transitions =~= mid.transitions);
                assert(self@.buses =~= mid.buses);
            },
            Role::Transition => {
                self.transitions.push(copy_attrs(&tag.attrs));
                assert(self@.transitions =~= mid.transitions.push(tag.attrs@));
                assert(self@.inputs =~= mid.inputs);
                assert(self@.buses =~= mid.buses);
            },
            Role::Bus(i) => {
                self.buses.set(i, Some(copy_attrs(&tag.attrs)));
                assert(self@.buses =~= mid.buses.update(i as int, Some(tag.attrs@)));
                assert(self@.inputs =~= mid.inputs);
                assert(self@.transitions =~= mid.transitions);
            },
            Role::Recording => {
                self.recording = true;
                let d = attr_value(&tag.attrs, "duration");
                if d.is_some() {
                    self.duration = d;
                }
                assert(self@.inputs =~= mid.inputs);
                assert(self@.transitions =~= mid.transitions);
                assert(self@.buses =~= mid.buses);
            },
            _ => {},
        }
    }

    fn text(&mut self, t: &String)
        requires
            old(self).wf(),
        ensures
            final(self).wf(),
            final(self)@ == step(old(self)@, XmlEvent::Text(*t)),
    {
        let n = self.path.len();
        if n == 0 {
            return;
        }
        let ghost before = self@;
        match classify(&self.path[n - 1]) {
            Role::Scalar(i) => {
                self.texts.set(i, Some(t.clone()));
            },
            Role::Recording => {
                self.recording_text = Some(t.clone());
            },
            _ => {},
        }
        assert(self@.inputs =~= before.inputs);
        assert(self@.transitions =~= before.transitions);
        assert(self@.buses =~= before.buses);
    }

    /// Applies one event to the context.
    pub fn apply(&mut self, e: &XmlEvent)
        requires
            old(self).wf(),
        ensures
            final(self).wf(),
            final(self)@ == step(old(self)@, *e),
    {
        match e {
            XmlEvent::Start(tag) => self.start(tag),
            XmlEvent::End => {
                let ghost before = self@;
                if self.path.len() > 0 {
                    self.path.pop();
                }
                assert(self@.inputs =~= before.inputs);
                assert(self@.transitions =~= before.transitions);
                assert(self@.buses =~= before.buses);
            },
            XmlEvent::Text(t) => self.text(t),
        }
    }

    /// Feeds every event, in order, to a fresh context.
    pub fn scan(events: &Vec<XmlEvent>) -> (r: Status)
        ensures
            r.wf(),
            r@ == run(events@),
    {
        let mut st = Status::new();
        let mut i: usize = 0;
        while i < events.len()
            invariant
                i <= events.len(),
                st.wf(),
                st@ == run(events@.subrange(0, i as int)),
            decreases events.len() - i,
        {
            st.apply(&events[i]);
            proof {
                let p = events@.subrange(0, i + 1);
                assert(p.drop_last() =~= events@.subrange(0, i as int));
            }
            i = i + 1;
        }
        assert(events@.subrange(0, events.len() as int) =~= events@);
        st
    }
}

} // verus!

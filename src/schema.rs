use vstd::prelude::*;

verus! {

/// Number of scalar fields of the status document.
pub const SCALAR_COUNT: usize = 11;

/// Index of the first flag field; the flags run to the end of the table.
pub const FIRST_FLAG: usize = 5;

/// Number of audio buses: the master and buses A to G.
pub const BUS_COUNT: usize = 8;

/// What the engine does with an element, chosen by its name.
pub enum Role {
    /// Its text fills the scalar field with this index.
    Scalar(usize),
    Input,
    Overlay,
    Transition,
    /// Its attributes fill the audio bus with this index.
    Bus(usize),
    Recording,
    Ignored,
}

/// Element name, and output key, of each scalar field.
pub open spec fn scalar_key(i: int) -> Seq<char> {
    if i == 0 {
        "version"@
    } else if i == 1 {
        "edition"@
    } else if i == 2 {
        "preset"@
    } else if i == 3 {
        "active"@
    } else if i == 4 {
        "preview"@
    } else if i == 5 {
        "streaming"@
    } else if i == 6 {
        "fadeToBlack"@
    } else if i == 7 {
        "external"@
    } else if i == 8 {
        "playList"@
    } else if i == 9 {
        "multiCorder"@
    } else {
        "fullscreen"@
    }
}

/// The scalar fields that hold a flag, and are always emitted.
pub open spec fn is_flag(i: int) -> bool {
    FIRST_FLAG <= i < SCALAR_COUNT
}

/// Element name, and output key, of each audio bus.
pub open spec fn bus_key(i: int) -> Seq<char> {
    if i == 0 {
        "master"@
    } else if i == 1 {
        "busA"@
    } else if i == 2 {
        "busB"@
    } else if i == 3 {
        "busC"@
    } else if i == 4 {
        "busD"@
    } else if i == 5 {
        "busE"@
    } else if i == 6 {
        "busF"@
    } else {
        "busG"@
    }
}

/// The key of scalar field `i`.
pub fn scalar_key_str(i: usize) -> (r: &'static str)
    requires
        i < SCALAR_COUNT,
    ensures
        r@ == scalar_key(i as int),
{
    match i {
        0 => "version",
        1 => "edition",
        2 => "preset",
        3 => "active",
        4 => "preview",
        5 => "streaming",
        6 => "fadeToBlack",
        7 => "external",
        8 => "playList",
        9 => "multiCorder",
        _ => "fullscreen",
    }
}

/// The key of audio bus `i`.
pub fn bus_key_str(i: usize) -> (r: &'static str)
    requires
        i < BUS_COUNT,
    ensures
        r@ == bus_key(i as int),
{
    match i {
        0 => "master",
        1 => "busA",
        2 => "busB",
        3 => "busC",
        4 => "busD",
        5 => "busE",
        6 => "busF",
        _ => "busG",
    }
}

/// The first scalar field, from index `i` on, whose key is `name`.
pub open spec fn scalar_index_from(name: Seq<char>, i: int) -> Option<int>
    decreases SCALAR_COUNT - i,
{
    if i >= SCALAR_COUNT {
        None
    } else if name == scalar_key(i) {
        Some(i)
    } else {
        scalar_index_from(name, i + 1)
    }
}

/// The first audio bus, from index `i` on, whose key is `name`.
pub open spec fn bus_index_from(name: Seq<char>, i: int) -> Option<int>
    decreases BUS_COUNT - i,
{
    if i >= BUS_COUNT {
        None
    } else if name == bus_key(i) {
        Some(i)
    } else {
        bus_index_from(name, i + 1)
    }
}

/// The dispatch table: the role of an element with this name.
pub open spec fn role_of(name: Seq<char>) -> Role {
    if name == "input"@ {
        Role::Input
    } else if name == "overlay"@ {
        Role::Overlay
    } else if name == "transition"@ {
        Role::Transition
    } else if name == "recording"@ {
        Role::Recording
    } else if let Some(i) = scalar_index_from(name, 0) {
        Role::Scalar(i as usize)
    } else if let Some(i) = bus_index_from(name, 0) {
        Role::Bus(i as usize)
    } else {
        Role::Ignored
    }
}

/// Whether `a` holds exactly the text `b`.
pub fn same_text(a: &String, b: &str) -> (r: bool)
    ensures
        r == (a@ == b@),
{
    let t = b.to_string();
    *a == t
}

fn find_scalar(name: &String) -> (r: Option<usize>)
    ensures
        r == (match scalar_index_from(name@, 0) {
            Some(i) => Some(i as usize),
            None => None::<usize>,
        }),
        r matches Some(i) ==> i < SCALAR_COUNT,
{
    let mut i: usize = 0;
    while i < SCALAR_COUNT
        invariant
            i <= SCALAR_COUNT,
            scalar_index_from(name@, 0) == scalar_index_from(name@, i as int),
        decreases SCALAR_COUNT - i,
    {
        if same_text(name, scalar_key_str(i)) {
            return Some(i);
        }
        i = i + 1;
    }
    None
}

fn find_bus(name: &String) -> (r: Option<usize>)
    ensures
        r == (match bus_index_from(name@, 0) {
            Some(i) => Some(i as usize),
            None => None::<usize>,
        }),
        r matches Some(i) ==> i < BUS_COUNT,
{
    let mut i: usize = 0;
    while i < BUS_COUNT
        invariant
            i <= BUS_COUNT,
            bus_index_from(name@, 0) == bus_index_from(name@, i as int),
        decreases BUS_COUNT - i,
    {
        if same_text(name, bus_key_str(i)) {
            return Some(i);
        }
        i = i + 1;
    }
    None
}

/// Looks an element name up in the dispatch table.
pub fn classify(name: &String) -> (r: Role)
    ensures
        r == role_of(name@),
        r matches Role::Scalar(i) ==> i < SCALAR_COUNT,
        r matches Role::Bus(i) ==> i < BUS_COUNT,
{
    if same_text(name, "input") {
        Role::Input
    } else if same_text(name, "overlay") {
        Role::Overlay
    } else if same_text(name, "transition") {
        Role::Transition
    } else if same_text(name, "recording") {
        Role::Recording
    } else if let Some(i) = find_scalar(name) {
        Role::Scalar(i)
    } else if let Some(i) = find_bus(name) {
        Role::Bus(i)
    } else {
        Role::Ignored
    }
}

} // verus!

//! Key bindings: which key combination triggers which action, and how an input frame is
//! turned into an action.
use vstd::prelude::*;
use crate::toolbar::ToolbarAction;

verus! {

/// The keys that bindings can name.
#[derive(Clone, Copy, Debug, PartialEq, Eq, Structural)]
pub enum KeyName {
    A,
    B,
    C,
    D,
    E,
    F,
    G,
    H,
    I,
    J,
    K,
    L,
    M,
    N,
    O,
    P,
    Q,
    R,
    S,
    T,
    U,
    V,
    W,
    X,
    Y,
    Z,
    Space,
    Backspace,
    Delete,
    Escape,
    Enter,
    ArrowUp,
    ArrowDown,
    ArrowLeft,
    ArrowRight,
    Equals,
    Minus,
    Num0,
}

/// A key with the modifiers that must be held with it.
#[derive(Clone, Debug)]
pub struct KeyCombo {
    pub command: bool,
    pub shift: bool,
    pub alt: bool,
    pub key: String,
}

/// Action names and their key combinations, in lookup order.
#[derive(Clone, Debug)]
pub struct Keybinds {
    pub bindings: Vec<(String, KeyCombo)>,
}

/// What one input frame holds: the clipboard events, the keys pressed, and the modifiers
/// held.
#[derive(Clone, Debug)]
pub struct InputSnapshot {
    pub copy: bool,
    pub cut: bool,
    pub paste: bool,
    pub pressed: Vec<KeyName>,
    pub command: bool,
    pub shift: bool,
    pub alt: bool,
}

/// Whether two strings hold the same text.
pub fn same_text(a: &str, b: &str) -> (r: bool)
    ensures
        r == (a@ == b@),
{
    let x = a.to_owned();
    let y = b.to_owned();
    x == y
}

/// The key a name stands for: a letter, `Space`, `Backspace`, `Delete`, `Escape`,
/// `Enter` or `Return`, an arrow (`Up`, `Down`, `Left`, `Right`), `=`, `-` or `0`.
pub open spec fn key_named(s: Seq<char>) -> Option<KeyName> {
    if s == "A"@ {
        Some(KeyName::A)
    } else if s == "B"@ {
        Some(KeyName::B)
    } else if s == "C"@ {
        Some(KeyName::C)
    } else if s == "D"@ {
        Some(KeyName::D)
    } else if s == "E"@ {
        Some(KeyName::E)
    } else if s == "F"@ {
        Some(KeyName::F)
    } else if s == "G"@ {
        Some(KeyName::G)
    } else if s == "H"@ {
        Some(KeyName::H)
    } else if s == "I"@ {
        Some(KeyName::I)
    } else if s == "J"@ {
        Some(KeyName::J)
    } else if s == "K"@ {
        Some(KeyName::K)
    } else if s == "L"@ {
        Some(KeyName::L)
    } else if s == "M"@ {
        Some(KeyName::M)
    } else if s == "N"@ {
        Some(KeyName::N)
    } else if s == "O"@ {
        Some(KeyName::O)
    } else if s == "P"@ {
        Some(KeyName::P)
    } else if s == "Q"@ {
        Some(KeyName::Q)
    } else if s == "R"@ {
        Some(KeyName::R)
    } else if s == "S"@ {
        Some(KeyName::S)
    } else if s == "T"@ {
        Some(KeyName::T)
    } else if s == "U"@ {
        Some(KeyName::U)
    } else if s == "V"@ {
        Some(KeyName::V)
    } else if s == "W"@ {
        Some(KeyName::W)
    } else if s == "X"@ {
        Some(KeyName::X)
    } else if s == "Y"@ {
        Some(KeyName::Y)
    } else if s == "Z"@ {
        Some(KeyName::Z)
    } else if s == "Space"@ {
        Some(KeyName::Space)
    } else if s == "Backspace"@ {
        Some(KeyName::Backspace)
    } else if s == "Delete"@ {
        Some(KeyName::Delete)
    } else if s == "Escape"@ {
        Some(KeyName::Escape)
    } else if s == "Enter"@ {
        Some(KeyName::Enter)
    } else if s == "Return"@ {
        Some(KeyName::Enter)
    } else if s == "Up"@ {
        Some(KeyName::ArrowUp)
    } else if s == "Down"@ {
        Some(KeyName::ArrowDown)
    } else if s == "Left"@ {
        Some(KeyName::ArrowLeft)
    } else if s == "Right"@ {
        Some(KeyName::ArrowRight)
    } else if s == "="@ {
        Some(KeyName::Equals)
    } else if s == "-"@ {
        Some(KeyName::Minus)
    } else if s == "0"@ {
        Some(KeyName::Num0)
    } else {
        None
    }
}

/// The key a binding's key name stands for; `None` for a name no key has.
pub fn parse_key(name: &str) -> (r: Option<KeyName>)
    ensures
        r == key_named(name@),
{
    if same_text(name, "A") {
        return Some(KeyName::A);
    }
    if same_text(name, "B") {
        return Some(KeyName::B);
    }
    if same_text(name, "C") {
        return Some(KeyName::C);
    }
    if same_text(name, "D") {
        return Some(KeyName::D);
    }
    if same_text(name, "E") {
        return Some(KeyName::E);
    }
    if same_text(name, "F") {
        return Some(KeyName::F);
    }
    if same_text(name, "G") {
        return Some(KeyName::G);
    }
    if same_text(name, "H") {
        return Some(KeyName::H);
    }
    if same_text(name, "I") {
        return Some(KeyName::I);
    }
    if same_text(name, "J") {
        return Some(KeyName::J);
    }
    if same_text(name, "K") {
        return Some(KeyName::K);
    }
    if same_text(name, "L") {
        return Some(KeyName::L);
    }
    if same_text(name, "M") {
        return Some(KeyName::M);
    }
    if same_text(name, "N") {
        return Some(KeyName::N);
    }
    if same_text(name, "O") {
        return Some(KeyName::O);
    }
    if same_text(name, "P") {
        return Some(KeyName::P);
    }
    if same_text(name, "Q") {
        return Some(KeyName::Q);
    }
    if same_text(name, "R") {
        return Some(KeyName::R);
    }
    if same_text(name, "S") {
        return Some(KeyName::S);
    }
    if same_text(name, "T") {
        return Some(KeyName::T);
    }
    if same_text(name, "U") {
        return Some(KeyName::U);
    }
    if same_text(name, "V") {
        return Some(KeyName::V);
    }
    if same_text(name, "W") {
        return Some(KeyName::W);
    }
    if same_text(name, "X") {
        return Some(KeyName::X);
    }
    if same_text(name, "Y") {
        return Some(KeyName::Y);
    }
    if same_text(name, "Z") {
        return Some(KeyName::Z);
    }
    if same_text(name, "Space") {
        return Some(KeyName::Space);
    }
    if same_text(name, "Backspace") {
        return Some(KeyName::Backspace);
    }
    if same_text(name, "Delete") {
        return Some(KeyName::Delete);
    }
    if same_text(name, "Escape") {
        return Some(KeyName::Escape);
    }
    if same_text(name, "Enter") {
        return Some(KeyName::Enter);
    }
    if same_text(name, "Return") {
        return Some(KeyName::Enter);
    }
    if same_text(name, "Up") {
        return Some(KeyName::ArrowUp);
    }
    if same_text(name, "Down") {
        return Some(KeyName::ArrowDown);
    }
    if same_text(name, "Left") {
        return Some(KeyName::ArrowLeft);
    }
    if same_text(name, "Right") {
        return Some(KeyName::ArrowRight);
    }
    if same_text(name, "=") {
        return Some(KeyName::Equals);
    }
    if same_text(name, "-") {
        return Some(KeyName::Minus);
    }
    if same_text(name, "0") {
        return Some(KeyName::Num0);
    }
    None
}

/// The bindings that a fresh configuration holds: name, command, shift, alt, key.
pub open spec fn default_bindings() -> Seq<(Seq<char>, bool, bool, bool, Seq<char>)> {
    seq![
        ("Play"@, false, false, false, "Space"@),
        ("PlaySelection"@, false, true, false, "Space"@),
        ("ToggleLoop"@, false, false, false, "L"@),
        ("ToggleFollow"@, false, false, false, "F"@),
        ("GapDelete"@, false, false, false, "Backspace"@),
        ("RippleDelete"@, false, true, false, "Backspace"@),
        ("Undo"@, true, false, false, "Z"@),
        ("Redo"@, true, true, false, "Z"@),
        ("Cut"@, true, false, false, "X"@),
        ("Copy"@, true, false, false, "C"@),
        ("Paste"@, true, false, false, "V"@),
        ("Duplicate"@, true, false, false, "D"@),
        ("OpenFile"@, true, false, false, "O"@),
        ("Export"@, true, false, false, "E"@),
        ("Stop"@, false, false, false, "Escape"@),
        ("Reverse"@, true, false, false, "R"@),
        ("Normalize"@, true, true, false, "N"@),
        ("SelectAll"@, true, false, false, "A"@),
        ("Crop"@, true, false, false, "K"@),
        ("ZoomIn"@, true, false, false, "="@),
        ("ZoomOut"@, true, false, false, "-"@),
        ("ZoomToFit"@, false, false, false, "Return"@),
        ("VerticalZoomIn"@, true, true, false, "="@),
        ("VerticalZoomOut"@, true, true, false, "-"@),
        ("VerticalZoomReset"@, true, false, false, "0"@),
        ("VolumeUp"@, true, false, false, "Up"@),
        ("VolumeDown"@, true, false, false, "Down"@),
        ("SetInPoint"@, false, true, false, "I"@),
        ("SetOutPoint"@, false, true, false, "O"@),
        ("GoToInPoint"@, false, false, false, "I"@),
        ("GoToOutPoint"@, false, false, false, "O"@),
        ("GoToStart"@, false, false, false, "Up"@),
        ("GoToEnd"@, false, false, false, "Down"@),
        ("NudgeLeft"@, false, false, false, "Left"@),
        ("NudgeRight"@, false, false, false, "Right"@),
        ("FadeInLinear"@, true, false, false, "F"@),
        ("FadeOutLinear"@, true, true, false, "F"@),
        ("RemoveDC"@, true, true, false, "D"@),
        ("ChangeSpeed"@, true, true, false, "R"@)
    ]
}

pub open spec fn binding_view(b: (String, KeyCombo)) -> (Seq<char>, bool, bool, bool, Seq<char>) {
    (b.0@, b.1.command, b.1.shift, b.1.alt, b.1.key@)
}

/// No two bindings share a name.
pub open spec fn names_distinct(bs: Seq<(String, KeyCombo)>) -> bool {
    forall|i: int, j: int| #![trigger bs[i], bs[j]] 0 <= i < j < bs.len() ==> bs[i].0@ != bs[j].0@
}

/// Whether some binding is named `name`.
pub open spec fn has_name(bs: Seq<(String, KeyCombo)>, name: Seq<char>) -> bool {
    exists|i: int| 0 <= i < bs.len() && #[trigger] bs[i].0@ == name
}

/// The bindings of `d` whose names `user` lacks, in the order of `d`.
pub open spec fn missing_defaults(
    user: Seq<(String, KeyCombo)>,
    d: Seq<(Seq<char>, bool, bool, bool, Seq<char>)>,
) -> Seq<(Seq<char>, bool, bool, bool, Seq<char>)>
    decreases d.len(),
{
    if d.len() == 0 {
        d
    } else {
        let rest = missing_defaults(user, d.drop_last());
        if has_name(user, d.last().0) {
            rest
        } else {
            rest.push(d.last())
        }
    }
}

/// The position of a default binding's name in the default list, told by its length and
/// a few of its characters; -1 for names that match none.
spec fn default_name_rank(s: Seq<char>) -> int {
    if s.len() == 4 && s[0] == 'P' {
        0
    } else if s.len() == 13 && s[0] == 'P' {
        1
    } else if s.len() == 10 && s[0] == 'T' {
        2
    } else if s.len() == 12 && s[0] == 'T' {
        3
    } else if s.len() == 9 && s[1] == 'a' {
        4
    } else if s.len() == 12 && s[0] == 'R' {
        5
    } else if s.len() == 4 && s[0] == 'U' {
        6
    } else if s.len() == 4 && s[0] == 'R' {
        7
    } else if s.len() == 3 {
        8
    } else if s.len() == 4 && s[1] == 'o' {
        9
    } else if s.len() == 5 {
        10
    } else if s.len() == 9 && s[0] == 'D' {
        11
    } else if s.len() == 8 && s[0] == 'O' {
        12
    } else if s.len() == 6 && s[0] == 'E' {
        13
    } else if s.len() == 4 && s[0] == 'S' {
        14
    } else if s.len() == 7 && s[0] == 'R' {
        15
    } else if s.len() == 9 && s[2] == 'r' {
        16
    } else if s.len() == 9 && s[0] == 'S' {
        17
    } else if s.len() == 4 && s[1] == 'r' {
        18
    } else if s.len() == 6 && s[0] == 'Z' {
        19
    } else if s.len() == 7 && s[0] == 'Z' {
        20
    } else if s.len() == 9 && s[0] == 'Z' {
        21
    } else if s.len() == 14 {
        22
    } else if s.len() == 15 {
        23
    } else if s.len() == 17 {
        24
    } else if s.len() == 8 && s[0] == 'V' {
        25
    } else if s.len() == 10 && s[0] == 'V' {
        26
    } else if s.len() == 10 && s[0] == 'S' {
        27
    } else if s.len() == 11 && s[0] == 'S' {
        28
    } else if s.len() == 11 && s[0] == 'G' {
        29
    } else if s.len() == 12 && s[0] == 'G' {
        30
    } else if s.len() == 9 && s[2] == 'T' {
        31
    } else if s.len() == 7 && s[0] == 'G' {
        32
    } else if s.len() == 9 && s[2] == 'd' {
        33
    } else if s.len() == 10 && s[0] == 'N' {
        34
    } else if s.len() == 12 && s[0] == 'F' {
        35
    } else if s.len() == 13 && s[0] == 'F' {
        36
    } else if s.len() == 8 && s[0] == 'R' {
        37
    } else if s.len() == 11 && s[0] == 'C' {
        38
    } else {
        -1
    }
}

proof fn lemma_default_names_distinct()
    ensures
        forall|i: int, j: int| 0 <= i < j < default_bindings().len() ==> #[trigger] default_bindings()[i].0
            != #[trigger] default_bindings()[j].0,
{
    reveal_strlit("Play");
    reveal_strlit("PlaySelection");
    reveal_strlit("ToggleLoop");
    reveal_strlit("ToggleFollow");
    reveal_strlit("GapDelete");
    reveal_strlit("RippleDelete");
    reveal_strlit("Undo");
    reveal_strlit("Redo");
    reveal_strlit("Cut");
    reveal_strlit("Copy");
    reveal_strlit("Paste");
    reveal_strlit("Duplicate");
    reveal_strlit("OpenFile");
    reveal_strlit("Export");
    reveal_strlit("Stop");
    reveal_strlit("Reverse");
    reveal_strlit("Normalize");
    reveal_strlit("SelectAll");
    reveal_strlit("Crop");
    reveal_strlit("ZoomIn");
    reveal_strlit("ZoomOut");
    reveal_strlit("ZoomToFit");
    reveal_strlit("VerticalZoomIn");
    reveal_strlit("VerticalZoomOut");
    reveal_strlit("VerticalZoomReset");
    reveal_strlit("VolumeUp");
    reveal_strlit("VolumeDown");
    reveal_strlit("SetInPoint");
    reveal_strlit("SetOutPoint");
    reveal_strlit("GoToInPoint");
    reveal_strlit("GoToOutPoint");
    reveal_strlit("GoToStart");
    reveal_strlit("GoToEnd");
    reveal_strlit("NudgeLeft");
    reveal_strlit("NudgeRight");
    reveal_strlit("FadeInLinear");
    reveal_strlit("FadeOutLinear");
    reveal_strlit("RemoveDC");
    reveal_strlit("ChangeSpeed");
    let d = default_bindings();
    assert forall|i: int| 0 <= i < d.len() implies default_name_rank(#[trigger] d[i].0) == i by {
        if i == 0 {
            assert(default_name_rank(d[0].0) == 0);
        } else if i == 1 {
            assert(default_name_rank(d[1].0) == 1);
        } else if i == 2 {
            assert(default_name_rank(d[2].0) == 2);
        } else if i == 3 {
            assert(default_name_rank(d[3].0) == 3);
        } else if i == 4 {
            assert(default_name_rank(d[4].0) == 4);
        } else if i == 5 {
            assert(default_name_rank(d[5].0) == 5);
        } else if i == 6 {
            assert(default_name_rank(d[6].0) == 6);
        } else if i == 7 {
            assert(default_name_rank(d[7].0) == 7);
        } else if i == 8 {
            assert(default_name_rank(d[8].0) == 8);
        } else if i == 9 {
            assert(default_name_rank(d[9].0) == 9);
        } else if i == 10 {
            assert(default_name_rank(d[10].0) == 10);
        } else if i == 11 {
            assert(default_name_rank(d[11].0) == 11);
        } else if i == 12 {
            assert(default_name_rank(d[12].0) == 12);
        } else if i == 13 {
            assert(default_name_rank(d[13].0) == 13);
        } else if i == 14 {
            assert(default_name_rank(d[14].0) == 14);
        } else if i == 15 {
            assert(default_name_rank(d[15].0) == 15);
        } else if i == 16 {
            assert(default_name_rank(d[16].0) == 16);
        } else if i == 17 {
            assert(default_name_rank(d[17].0) == 17);
        } else if i == 18 {
            assert(default_name_rank(d[18].0) == 18);
        } else if i == 19 {
            assert(default_name_rank(d[19].0) == 19);
        } else if i == 20 {
            assert(default_name_rank(d[20].0) == 20);
        } else if i == 21 {
            assert(default_name_rank(d[21].0) == 21);
        } else if i == 22 {
            assert(default_name_rank(d[22].0) == 22);
        } else if i == 23 {
            assert(default_name_rank(d[23].0) == 23);
        } else if i == 24 {
            assert(default_name_rank(d[24].0) == 24);
        } else if i == 25 {
            assert(default_name_rank(d[25].0) == 25);
        } else if i == 26 {
            assert(default_name_rank(d[26].0) == 26);
        } else if i == 27 {
            assert(default_name_rank(d[27].0) == 27);
        } else if i == 28 {
            assert(default_name_rank(d[28].0) == 28);
        } else if i == 29 {
            assert(default_name_rank(d[29].0) == 29);
        } else if i == 30 {
            assert(default_name_rank(d[30].0) == 30);
        } else if i == 31 {
            assert(default_name_rank(d[31].0) == 31);
        } else if i == 32 {
            assert(default_name_rank(d[32].0) == 32);
        } else if i == 33 {
            assert(default_name_rank(d[33].0) == 33);
        } else if i == 34 {
            assert(default_name_rank(d[34].0) == 34);
        } else if i == 35 {
            assert(default_name_rank(d[35].0) == 35);
        } else if i == 36 {
            assert(default_name_rank(d[36].0) == 36);
        } else if i == 37 {
            assert(default_name_rank(d[37].0) == 37);
        } else if i == 38 {
            assert(default_name_rank(d[38].0) == 38);
        }
    }
}

/// Whether one of the first `upto` bindings is named `name`.
fn name_bound(bs: &Vec<(String, KeyCombo)>, upto: usize, name: &str) -> (r: bool)
    requires
        upto <= bs@.len(),
    ensures
        r == has_name(bs@.take(upto as int), name@),
{
    let ghost t = bs@.take(upto as int);
    let mut i: usize = 0;
    while i < upto
        invariant
            upto <= bs@.len(),
            t == bs@.take(upto as int),
            i <= upto,
            forall|j: int| 0 <= j < i ==> t[j].0@ != name@,
        decreases upto - i,
    {
        if same_text(bs[i].0.as_str(), name) {
            assert(t[i as int].0@ == name@);
            return true;
        }
        i += 1;
    }
    assert(!has_name(t, name@)) by {
        assert forall|j: int| 0 <= j < t.len() implies #[trigger] t[j].0@ != name@ by {}
    }
    false
}

fn binding(name: &str, command: bool, shift: bool, alt: bool, key: &str) -> (r: (String, KeyCombo))
    ensures
        binding_view(r) == (name@, command, shift, alt, key@),
{
    (name.to_owned(), KeyCombo { command, shift, alt, key: key.to_owned() })
}

impl Default for Keybinds {
    fn default() -> (r: Self)
        ensures
            r.bindings@.len() == default_bindings().len(),
            forall|i: int| 0 <= i < r.bindings@.len() ==> binding_view(#[trigger] r.bindings@[i]) == default_bindings()[i],
            names_distinct(r.bindings@),
    {
        let mut bindings: Vec<(String, KeyCombo)> = Vec::new();
        bindings.push(binding("Play", false, false, false, "Space"));
        bindings.push(binding("PlaySelection", false, true, false, "Space"));
        bindings.push(binding("ToggleLoop", false, false, false, "L"));
        bindings.push(binding("ToggleFollow", false, false, false, "F"));
        bindings.push(binding("GapDelete", false, false, false, "Backspace"));
        bindings.push(binding("RippleDelete", false, true, false, "Backspace"));
        bindings.push(binding("Undo", true, false, false, "Z"));
        bindings.push(binding("Redo", true, true, false, "Z"));
        bindings.push(binding("Cut", true, false, false, "X"));
        bindings.push(binding("Copy", true, false, false, "C"));
        bindings.push(binding("Paste", true, false, false, "V"));
        bindings.push(binding("Duplicate", true, false, false, "D"));
        bindings.push(binding("OpenFile", true, false, false, "O"));
        bindings.push(binding("Export", true, false, false, "E"));
        bindings.push(binding("Stop", false, false, false, "Escape"));
        bindings.push(binding("Reverse", true, false, false, "R"));
        bindings.push(binding("Normalize", true, true, false, "N"));
        bindings.push(binding("SelectAll", true, false, false, "A"));
        bindings.push(binding("Crop", true, false, false, "K"));
        bindings.push(binding("ZoomIn", true, false, false, "="));
        bindings.push(binding("ZoomOut", true, false, false, "-"));
        bindings.push(binding("ZoomToFit", false, false, false, "Return"));
        bindings.push(binding("VerticalZoomIn", true, true, false, "="));
        bindings.push(binding("VerticalZoomOut", true, true, false, "-"));
        bindings.push(binding("VerticalZoomReset", true, false, false, "0"));
        bindings.push(binding("VolumeUp", true, false, false, "Up"));
        bindings.push(binding("VolumeDown", true, false, false, "Down"));
        bindings.push(binding("SetInPoint", false, true, false, "I"));
        bindings.push(binding("SetOutPoint", false, true, false, "O"));
        bindings.push(binding("GoToInPoint", false, false, false, "I"));
        bindings.push(binding("GoToOutPoint", false, false, false, "O"));
        bindings.push(binding("GoToStart", false, false, false, "Up"));
        bindings.push(binding("GoToEnd", false, false, false, "Down"));
        bindings.push(binding("NudgeLeft", false, false, false, "Left"));
        bindings.push(binding("NudgeRight", false, false, false, "Right"));
        bindings.push(binding("FadeInLinear", true, false, false, "F"));
        bindings.push(binding("FadeOutLinear", true, true, false, "F"));
        bindings.push(binding("RemoveDC", true, true, false, "D"));
        bindings.push(binding("ChangeSpeed", true, true, false, "R"));
        proof {
            lemma_default_names_distinct();
            assert forall|i: int, j: int| 0 <= i < j < bindings@.len() implies bindings@[i].0@ != bindings@[j].0@ by {
                assert(binding_view(bindings@[i]) == default_bindings()[i]);
                assert(binding_view(bindings@[j]) == default_bindings()[j]);
                assert(default_bindings()[i].0 != default_bindings()[j].0);
            }
        }
        Keybinds { bindings }
    }
}

/// The combination bound to `name`: the first binding with that name.
pub open spec fn lookup(bs: Seq<(String, KeyCombo)>, name: Seq<char>) -> Option<KeyCombo>
    decreases bs.len(),
{
    if bs.len() == 0 {
        None
    } else if bs[0].0@ == name {
        Some(bs[0].1)
    } else {
        lookup(bs.drop_first(), name)
    }
}

/// How a combination is shown: the command, shift and alt glyphs for the modifiers it
/// needs, then the key's name.
pub open spec fn shortcut_text(c: KeyCombo) -> Seq<char> {
    (if c.command { "\u{2318}"@ } else { Seq::empty() }) + (if c.shift { "\u{21e7}"@ } else { Seq::empty() }) + (
    if c.alt { "\u{2325}"@ } else { Seq::empty() }) + c.key@
}

/// The action a binding named `name` stands for, given the editor's state; `None` when
/// the action is not available or the name is unknown.
pub open spec fn binding_action(is_playing: bool, has_selection: bool, has_file: bool, can_undo: bool, can_redo: bool, has_clipboard: bool, name: Seq<char>) -> Option<ToolbarAction> {
    if name == "Play"@ {
        Some(if is_playing { ToolbarAction::Pause } else { ToolbarAction::Play })
    } else if name == "PlaySelection"@ {
        if has_selection { Some(ToolbarAction::PlaySelection) } else { None }
    } else if name == "ToggleLoop"@ {
        Some(ToolbarAction::ToggleLoop)
    } else if name == "ToggleFollow"@ {
        Some(ToolbarAction::ToggleFollow)
    } else if name == "GapDelete"@ {
        if has_selection { Some(ToolbarAction::GapDelete) } else { None }
    } else if name == "RippleDelete"@ {
        if has_selection { Some(ToolbarAction::RippleDelete) } else { None }
    } else if name == "Undo"@ {
        if can_undo { Some(ToolbarAction::Undo) } else { None }
    } else if name == "Redo"@ {
        if can_redo { Some(ToolbarAction::Redo) } else { None }
    } else if name == "Cut"@ {
        if has_selection { Some(ToolbarAction::Cut) } else { None }
    } else if name == "Copy"@ {
        if has_selection { Some(ToolbarAction::Copy) } else { None }
    } else if name == "Paste"@ {
        if has_clipboard { Some(ToolbarAction::Paste) } else { None }
    } else if name == "Duplicate"@ {
        if has_selection { Some(ToolbarAction::Duplicate) } else { None }
    } else if name == "OpenFile"@ {
        Some(ToolbarAction::OpenFile)
    } else if name == "Export"@ {
        if has_file { Some(ToolbarAction::Export) } else { None }
    } else if name == "Stop"@ {
        Some(ToolbarAction::Stop)
    } else if name == "Reverse"@ {
        if has_file { Some(ToolbarAction::Reverse) } else { None }
    } else if name == "Normalize"@ {
        if has_file { Some(ToolbarAction::Normalize) } else { None }
    } else if name == "RemoveDC"@ {
        if has_file { Some(ToolbarAction::RemoveDC) } else { None }
    } else if name == "ToggleFade"@ {
        if has_file { Some(ToolbarAction::ToggleFade) } else { None }
    } else if name == "SelectAll"@ {
        if has_file { Some(ToolbarAction::SelectAll) } else { None }
    } else if name == "Crop"@ {
        if has_selection { Some(ToolbarAction::Crop) } else { None }
    } else if name == "ZoomIn"@ {
        if has_file { Some(ToolbarAction::ZoomIn) } else { None }
    } else if name == "ZoomOut"@ {
        if has_file { Some(ToolbarAction::ZoomOut) } else { None }
    } else if name == "ZoomToFit"@ {
        if has_file { Some(ToolbarAction::ZoomToFit) } else { None }
    } else if name == "VerticalZoomIn"@ {
        if has_file { Some(ToolbarAction::VerticalZoomIn) } else { None }
    } else if name == "VerticalZoomOut"@ {
        if has_file { Some(ToolbarAction::VerticalZoomOut) } else { None }
    } else if name == "VerticalZoomReset"@ {
        if has_file { Some(ToolbarAction::VerticalZoomReset) } else { None }
    } else if name == "VolumeUp"@ {
        Some(ToolbarAction::VolumeUp)
    } else if name == "VolumeDown"@ {
        Some(ToolbarAction::VolumeDown)
    } else if name == "SetInPoint"@ {
        if has_file { Some(ToolbarAction::SetInPoint) } else { None }
    } else if name == "SetOutPoint"@ {
        if has_file { Some(ToolbarAction::SetOutPoint) } else { None }
    } else if name == "GoToInPoint"@ {
        if has_file { Some(ToolbarAction::GoToInPoint) } else { None }
    } else if name == "GoToOutPoint"@ {
        if has_file { Some(ToolbarAction::GoToOutPoint) } else { None }
    } else if name == "GoToStart"@ {
        if has_file { Some(ToolbarAction::GoToStart) } else { None }
    } else if name == "GoToEnd"@ {
        if has_file { Some(ToolbarAction::GoToEnd) } else { None }
    } else if name == "NudgeLeft"@ {
        if has_file { Some(ToolbarAction::NudgeLeft) } else { None }
    } else if name == "NudgeRight"@ {
        if has_file { Some(ToolbarAction::NudgeRight) } else { None }
    } else if name == "FadeInLinear"@ {
        if has_selection { Some(ToolbarAction::FadeInLinear) } else { None }
    } else if name == "FadeInExponential"@ {
        if has_selection { Some(ToolbarAction::FadeInExponential) } else { None }
    } else if name == "FadeInLogarithmic"@ {
        if has_selection { Some(ToolbarAction::FadeInLogarithmic) } else { None }
    } else if name == "FadeInSCurve"@ {
        if has_selection { Some(ToolbarAction::FadeInSCurve) } else { None }
    } else if name == "FadeOutLinear"@ {
        if has_selection { Some(ToolbarAction::FadeOutLinear) } else { None }
    } else if name == "FadeOutExponential"@ {
        if has_selection { Some(ToolbarAction::FadeOutExponential) } else { None }
    } else if name == "FadeOutLogarithmic"@ {
        if has_selection { Some(ToolbarAction::FadeOutLogarithmic) } else { None }
    } else if name == "FadeOutSCurve"@ {
        if has_selection { Some(ToolbarAction::FadeOutSCurve) } else { None }
    } else if name == "ChangeSpeed"@ {
        if has_file { Some(ToolbarAction::ChangeSpeed) } else { None }
    } else {
        None
    }
}

/// The name under which key bindings and menu items refer to an action: the action's own
/// name, as it appears in the configuration file.
pub open spec fn action_name(a: ToolbarAction) -> Seq<char> {
    match a {
        ToolbarAction::OpenFile => "OpenFile"@,
        ToolbarAction::Export => "Export"@,
        ToolbarAction::Play => "Play"@,
        ToolbarAction::Pause => "Pause"@,
        ToolbarAction::Stop => "Stop"@,
        ToolbarAction::ZoomIn => "ZoomIn"@,
        ToolbarAction::ZoomOut => "ZoomOut"@,
        ToolbarAction::ZoomToFit => "ZoomToFit"@,
        ToolbarAction::GapDelete => "GapDelete"@,
        ToolbarAction::RippleDelete => "RippleDelete"@,
        ToolbarAction::Crop => "Crop"@,
        ToolbarAction::Cut => "Cut"@,
        ToolbarAction::Copy => "Copy"@,
        ToolbarAction::Paste => "Paste"@,
        ToolbarAction::Duplicate => "Duplicate"@,
        ToolbarAction::Undo => "Undo"@,
        ToolbarAction::Redo => "Redo"@,
        ToolbarAction::PlaySelection => "PlaySelection"@,
        ToolbarAction::ToggleLoop => "ToggleLoop"@,
        ToolbarAction::ToggleFollow => "ToggleFollow"@,
        ToolbarAction::Reverse => "Reverse"@,
        ToolbarAction::Normalize => "Normalize"@,
        ToolbarAction::ToggleFade => "ToggleFade"@,
        ToolbarAction::RemoveDC => "RemoveDC"@,
        ToolbarAction::SelectAll => "SelectAll"@,
        ToolbarAction::SetInPoint => "SetInPoint"@,
        ToolbarAction::SetOutPoint => "SetOutPoint"@,
        ToolbarAction::GoToInPoint => "GoToInPoint"@,
        ToolbarAction::GoToOutPoint => "GoToOutPoint"@,
        ToolbarAction::GoToStart => "GoToStart"@,
        ToolbarAction::GoToEnd => "GoToEnd"@,
        ToolbarAction::NudgeLeft => "NudgeLeft"@,
        ToolbarAction::NudgeRight => "NudgeRight"@,
        ToolbarAction::VolumeUp => "VolumeUp"@,
        ToolbarAction::VolumeDown => "VolumeDown"@,
        ToolbarAction::Quit => "Quit"@,
        ToolbarAction::FadeInLinear => "FadeInLinear"@,
        ToolbarAction::FadeInExponential => "FadeInExponential"@,
        ToolbarAction::FadeInLogarithmic => "FadeInLogarithmic"@,
        ToolbarAction::FadeInSCurve => "FadeInSCurve"@,
        ToolbarAction::FadeOutLinear => "FadeOutLinear"@,
        ToolbarAction::FadeOutExponential => "FadeOutExponential"@,
        ToolbarAction::FadeOutLogarithmic => "FadeOutLogarithmic"@,
        ToolbarAction::FadeOutSCurve => "FadeOutSCurve"@,
        ToolbarAction::VerticalZoomIn => "VerticalZoomIn"@,
        ToolbarAction::VerticalZoomOut => "VerticalZoomOut"@,
        ToolbarAction::VerticalZoomReset => "VerticalZoomReset"@,
        ToolbarAction::ChangeSpeed => "ChangeSpeed"@,
    }
}

/// A binding only ever triggers the action it is named after; the one exception is the
/// play binding, which pauses instead while playback runs.
pub proof fn law_binding_triggers_its_action(
    is_playing: bool,
    has_selection: bool,
    has_file: bool,
    can_undo: bool,
    can_redo: bool,
    has_clipboard: bool,
    name: Seq<char>,
)
    ensures
        binding_action(is_playing, has_selection, has_file, can_undo, can_redo, has_clipboard, name) matches Some(a)
            ==> if a == ToolbarAction::Pause {
            name == action_name(ToolbarAction::Play) && is_playing
        } else {
            action_name(a) == name
        },
{
}

/// A menu item only ever triggers the action it is named after.
pub proof fn law_menu_item_triggers_its_action(name: Seq<char>)
    ensures
        menu_action_named(name) matches Some(a) ==> action_name(a) == name,
{
}

/// Whether the input frame presses the combination.
pub open spec fn combo_pressed(input: InputSnapshot, c: KeyCombo) -> bool {
    match key_named(c.key@) {
        Some(k) => input.pressed@.contains(k) && input.command == c.command && input.shift == c.shift && input.alt == c.alt,
        None => false,
    }
}

/// The action of the first binding that the input presses and that is available.
pub open spec fn first_binding_action(bs: Seq<(String, KeyCombo)>, input: InputSnapshot, is_playing: bool, has_selection: bool, has_file: bool, can_undo: bool, can_redo: bool, has_clipboard: bool) -> Option<ToolbarAction>
    decreases bs.len(),
{
    if bs.len() == 0 {
        None
    } else if combo_pressed(input, bs[0].1) && binding_action(is_playing, has_selection, has_file, can_undo, can_redo, has_clipboard, bs[0].0@) is Some {
        binding_action(is_playing, has_selection, has_file, can_undo, can_redo, has_clipboard, bs[0].0@)
    } else {
        first_binding_action(bs.drop_first(), input, is_playing, has_selection, has_file, can_undo, can_redo, has_clipboard)
    }
}

/// The action a binding name stands for.
fn action_for(name: &str, is_playing: bool, has_selection: bool, has_file: bool, can_undo: bool, can_redo: bool, has_clipboard: bool) -> (r: Option<ToolbarAction>)
    ensures
        r == binding_action(is_playing, has_selection, has_file, can_undo, can_redo, has_clipboard, name@),
{
    if same_text(name, "Play") {
        return Some(if is_playing { ToolbarAction::Pause } else { ToolbarAction::Play });
    }
    if same_text(name, "PlaySelection") {
        return if has_selection { Some(ToolbarAction::PlaySelection) } else { None };
    }
    if same_text(name, "ToggleLoop") {
        return Some(ToolbarAction::ToggleLoop);
    }
    if same_text(name, "ToggleFollow") {
        return Some(ToolbarAction::ToggleFollow);
    }
    if same_text(name, "GapDelete") {
        return if has_selection { Some(ToolbarAction::GapDelete) } else { None };
    }
    if same_text(name, "RippleDelete") {
        return if has_selection { Some(ToolbarAction::RippleDelete) } else { None };
    }
    if same_text(name, "Undo") {
        return if can_undo { Some(ToolbarAction::Undo) } else { None };
    }
    if same_text(name, "Redo") {
        return if can_redo { Some(ToolbarAction::Redo) } else { None };
    }
    if same_text(name, "Cut") {
        return if has_selection { Some(ToolbarAction::Cut) } else { None };
    }
    if same_text(name, "Copy") {
        return if has_selection { Some(ToolbarAction::Copy) } else { None };
    }
    if same_text(name, "Paste") {
        return if has_clipboard { Some(ToolbarAction::Paste) } else { None };
    }
    if same_text(name, "Duplicate") {
        return if has_selection { Some(ToolbarAction::Duplicate) } else { None };
    }
    if same_text(name, "OpenFile") {
        return Some(ToolbarAction::OpenFile);
    }
    if same_text(name, "Export") {
        return if has_file { Some(ToolbarAction::Export) } else { None };
    }
    if same_text(name, "Stop") {
        return Some(ToolbarAction::Stop);
    }
    if same_text(name, "Reverse") {
        return if has_file { Some(ToolbarAction::Reverse) } else { None };
    }
    if same_text(name, "Normalize") {
        return if has_file { Some(ToolbarAction::Normalize) } else { None };
    }
    if same_text(name, "RemoveDC") {
        return if has_file { Some(ToolbarAction::RemoveDC) } else { None };
    }
    if same_text(name, "ToggleFade") {
        return if has_file { Some(ToolbarAction::ToggleFade) } else { None };
    }
    if same_text(name, "SelectAll") {
        return if has_file { Some(ToolbarAction::SelectAll) } else { None };
    }
    if same_text(name, "Crop") {
        return if has_selection { Some(ToolbarAction::Crop) } else { None };
    }
    if same_text(name, "ZoomIn") {
        return if has_file { Some(ToolbarAction::ZoomIn) } else { None };
    }
    if same_text(name, "ZoomOut") {
        return if has_file { Some(ToolbarAction::ZoomOut) } else { None };
    }
    if same_text(name, "ZoomToFit") {
        return if has_file { Some(ToolbarAction::ZoomToFit) } else { None };
    }
    if same_text(name, "VerticalZoomIn") {
        return if has_file { Some(ToolbarAction::VerticalZoomIn) } else { None };
    }
    if same_text(name, "VerticalZoomOut") {
        return if has_file { Some(ToolbarAction::VerticalZoomOut) } else { None };
    }
    if same_text(name, "VerticalZoomReset") {
        return if has_file { Some(ToolbarAction::VerticalZoomReset) } else { None };
    }
    if same_text(name, "VolumeUp") {
        return Some(ToolbarAction::VolumeUp);
    }
    if same_text(name, "VolumeDown") {
        return Some(ToolbarAction::VolumeDown);
    }
    if same_text(name, "SetInPoint") {
        return if has_file { Some(ToolbarAction::SetInPoint) } else { None };
    }
    if same_text(name, "SetOutPoint") {
        return if has_file { Some(ToolbarAction::SetOutPoint) } else { None };
    }
    if same_text(name, "GoToInPoint") {
        return if has_file { Some(ToolbarAction::GoToInPoint) } else { None };
    }
    if same_text(name, "GoToOutPoint") {
        return if has_file { Some(ToolbarAction::GoToOutPoint) } else { None };
    }
    if same_text(name, "GoToStart") {
        return if has_file { Some(ToolbarAction::GoToStart) } else { None };
    }
    if same_text(name, "GoToEnd") {
        return if has_file { Some(ToolbarAction::GoToEnd) } else { None };
    }
    if same_text(name, "NudgeLeft") {
        return if has_file { Some(ToolbarAction::NudgeLeft) } else { None };
    }
    if same_text(name, "NudgeRight") {
        return if has_file { Some(ToolbarAction::NudgeRight) } else { None };
    }
    if same_text(name, "FadeInLinear") {
        return if has_selection { Some(ToolbarAction::FadeInLinear) } else { None };
    }
    if same_text(name, "FadeInExponential") {
        return if has_selection { Some(ToolbarAction::FadeInExponential) } else { None };
    }
    if same_text(name, "FadeInLogarithmic") {
        return if has_selection { Some(ToolbarAction::FadeInLogarithmic) } else { None };
    }
    if same_text(name, "FadeInSCurve") {
        return if has_selection { Some(ToolbarAction::FadeInSCurve) } else { None };
    }
    if same_text(name, "FadeOutLinear") {
        return if has_selection { Some(ToolbarAction::FadeOutLinear) } else { None };
    }
    if same_text(name, "FadeOutExponential") {
        return if has_selection { Some(ToolbarAction::FadeOutExponential) } else { None };
    }
    if same_text(name, "FadeOutLogarithmic") {
        return if has_selection { Some(ToolbarAction::FadeOutLogarithmic) } else { None };
    }
    if same_text(name, "FadeOutSCurve") {
        return if has_selection { Some(ToolbarAction::FadeOutSCurve) } else { None };
    }
    if same_text(name, "ChangeSpeed") {
        return if has_file { Some(ToolbarAction::ChangeSpeed) } else { None };
    }
    None
}

/// The action a menu item names.
pub open spec fn menu_action_named(name: Seq<char>) -> Option<ToolbarAction> {
    if name == "OpenFile"@ {
        Some(ToolbarAction::OpenFile)
    } else if name == "Export"@ {
        Some(ToolbarAction::Export)
    } else if name == "Undo"@ {
        Some(ToolbarAction::Undo)
    } else if name == "Redo"@ {
        Some(ToolbarAction::Redo)
    } else if name == "Cut"@ {
        Some(ToolbarAction::Cut)
    } else if name == "Copy"@ {
        Some(ToolbarAction::Copy)
    } else if name == "Paste"@ {
        Some(ToolbarAction::Paste)
    } else if name == "Duplicate"@ {
        Some(ToolbarAction::Duplicate)
    } else if name == "GapDelete"@ {
        Some(ToolbarAction::GapDelete)
    } else if name == "RippleDelete"@ {
        Some(ToolbarAction::RippleDelete)
    } else if name == "Crop"@ {
        Some(ToolbarAction::Crop)
    } else if name == "Reverse"@ {
        Some(ToolbarAction::Reverse)
    } else if name == "Normalize"@ {
        Some(ToolbarAction::Normalize)
    } else if name == "RemoveDC"@ {
        Some(ToolbarAction::RemoveDC)
    } else if name == "ToggleFade"@ {
        Some(ToolbarAction::ToggleFade)
    } else if name == "SelectAll"@ {
        Some(ToolbarAction::SelectAll)
    } else if name == "Quit"@ {
        Some(ToolbarAction::Quit)
    } else if name == "PlaySelection"@ {
        Some(ToolbarAction::PlaySelection)
    } else if name == "ZoomIn"@ {
        Some(ToolbarAction::ZoomIn)
    } else if name == "ZoomOut"@ {
        Some(ToolbarAction::ZoomOut)
    } else if name == "ZoomToFit"@ {
        Some(ToolbarAction::ZoomToFit)
    } else {
        None
    }
}

/// The action that the menu item `name` triggers.
pub fn menu_action(name: &str) -> (r: Option<ToolbarAction>)
    ensures
        r == menu_action_named(name@),
{
    if same_text(name, "OpenFile") {
        return Some(ToolbarAction::OpenFile);
    }
    if same_text(name, "Export") {
        return Some(ToolbarAction::Export);
    }
    if same_text(name, "Undo") {
        return Some(ToolbarAction::Undo);
    }
    if same_text(name, "Redo") {
        return Some(ToolbarAction::Redo);
    }
    if same_text(name, "Cut") {
        return Some(ToolbarAction::Cut);
    }
    if same_text(name, "Copy") {
        return Some(ToolbarAction::Copy);
    }
    if same_text(name, "Paste") {
        return Some(ToolbarAction::Paste);
    }
    if same_text(name, "Duplicate") {
        return Some(ToolbarAction::Duplicate);
    }
    if same_text(name, "GapDelete") {
        return Some(ToolbarAction::GapDelete);
    }
    if same_text(name, "RippleDelete") {
        return Some(ToolbarAction::RippleDelete);
    }
    if same_text(name, "Crop") {
        return Some(ToolbarAction::Crop);
    }
    if same_text(name, "Reverse") {
        return Some(ToolbarAction::Reverse);
    }
    if same_text(name, "Normalize") {
        return Some(ToolbarAction::Normalize);
    }
    if same_text(name, "RemoveDC") {
        return Some(ToolbarAction::RemoveDC);
    }
    if same_text(name, "ToggleFade") {
        return Some(ToolbarAction::ToggleFade);
    }
    if same_text(name, "SelectAll") {
        return Some(ToolbarAction::SelectAll);
    }
    if same_text(name, "Quit") {
        return Some(ToolbarAction::Quit);
    }
    if same_text(name, "PlaySelection") {
        return Some(ToolbarAction::PlaySelection);
    }
    if same_text(name, "ZoomIn") {
        return Some(ToolbarAction::ZoomIn);
    }
    if same_text(name, "ZoomOut") {
        return Some(ToolbarAction::ZoomOut);
    }
    if same_text(name, "ZoomToFit") {
        return Some(ToolbarAction::ZoomToFit);
    }
    None
}

fn key_is_pressed(input: &InputSnapshot, key: KeyName) -> (r: bool)
    ensures
        r == input.pressed@.contains(key),
{
    let mut i: usize = 0;
    while i < input.pressed.len()
        invariant
            i <= input.pressed@.len(),
            forall|j: int| 0 <= j < i ==> input.pressed@[j] != key,
        decreases input.pressed@.len() - i,
    {
        if input.pressed[i] == key {
            return true;
        }
        i += 1;
    }
    false
}

impl Keybinds {
    /// Brings a loaded configuration up to date: the bindings it holds stay as they are and
    /// in their order, and every default binding whose name it lacks is added after them,
    /// in default order. Names stay distinct when they were.
    pub fn add_missing_defaults(&mut self)
        ensures
            final(self).bindings@.len() == old(self).bindings@.len() + missing_defaults(
                old(self).bindings@,
                default_bindings(),
            ).len(),
            final(self).bindings@.take(old(self).bindings@.len() as int) == old(self).bindings@,
            forall|i: int| 0 <= i < missing_defaults(old(self).bindings@, default_bindings()).len()
                ==> binding_view(#[trigger] final(self).bindings@[old(self).bindings@.len() + i])
                == missing_defaults(old(self).bindings@, default_bindings())[i],
            names_distinct(old(self).bindings@) ==> names_distinct(final(self).bindings@),
    {
        let ghost old_b = self.bindings@;
        let defaults = Keybinds::default();
        let n0 = self.bindings.len();
        let mut k: usize = 0;
        proof {
            assert(default_bindings().take(0) =~= Seq::empty());
            assert(self.bindings@.take(n0 as int) =~= old_b);
        }
        while k < defaults.bindings.len()
            invariant
                defaults.bindings@.len() == default_bindings().len(),
                forall|i: int| 0 <= i < defaults.bindings@.len() ==> binding_view(#[trigger] defaults.bindings@[i])
                    == default_bindings()[i],
                k <= defaults.bindings@.len(),
                n0 == old_b.len(),
                n0 <= self.bindings@.len(),
                self.bindings@.take(n0 as int) == old_b,
                self.bindings@.len() == n0 + missing_defaults(old_b, default_bindings().take(k as int)).len(),
                forall|i: int| 0 <= i < missing_defaults(old_b, default_bindings().take(k as int)).len()
                    ==> binding_view(#[trigger] self.bindings@[n0 + i]) == missing_defaults(
                    old_b,
                    default_bindings().take(k as int),
                )[i],
                forall|i: int| n0 <= i < self.bindings@.len() ==> !has_name(old_b, #[trigger] self.bindings@[i].0@),
                forall|i: int| n0 <= i < self.bindings@.len() ==> exists|j: int| 0 <= j < k
                    && #[trigger] self.bindings@[i].0@ == default_bindings()[j].0,
                names_distinct(old_b) ==> names_distinct(self.bindings@),
            decreases defaults.bindings@.len() - k,
        {
            proof {
                lemma_default_names_distinct();
                assert(default_bindings().take(k as int + 1).drop_last() =~= default_bindings().take(k as int));
                assert(default_bindings().take(k as int + 1).last() == default_bindings()[k as int]);
                assert(binding_view(defaults.bindings@[k as int]) == default_bindings()[k as int]);
            }
            let present = name_bound(&self.bindings, n0, defaults.bindings[k].0.as_str());
            if !present {
                let d = &defaults.bindings[k];
                let entry = (
                    d.0.clone(),
                    KeyCombo { command: d.1.command, shift: d.1.shift, alt: d.1.alt, key: d.1.key.clone() },
                );
                let ghost before = self.bindings@;
                self.bindings.push(entry);
                proof {
                    let m = self.bindings@.len() - 1;
                    assert(self.bindings@.take(n0 as int) =~= before.take(n0 as int));
                    assert forall|i: int| n0 <= i < self.bindings@.len() implies exists|j: int| 0 <= j < k + 1
                        && #[trigger] self.bindings@[i].0@ == default_bindings()[j].0 by {
                        if i < m {
                            assert(before[i] == self.bindings@[i]);
                            let j = choose|j: int| 0 <= j < k && #[trigger] before[i].0@ == default_bindings()[j].0;
                            assert(0 <= j < k + 1 && self.bindings@[i].0@ == default_bindings()[j].0);
                        } else {
                            assert(self.bindings@[i].0@ == default_bindings()[k as int].0);
                        }
                    }
                    assert forall|i: int| n0 <= i < self.bindings@.len() implies !has_name(old_b, #[trigger] self.bindings@[i].0@) by {
                        if i < m {
                            assert(before[i] == self.bindings@[i]);
                        }
                    }
                    if names_distinct(old_b) {
                        assert forall|i: int, j: int| 0 <= i < j < self.bindings@.len() implies #[trigger] self.bindings@[i].0@
                            != #[trigger] self.bindings@[j].0@ by {
                            if j < m {
                                assert(before[i] == self.bindings@[i]);
                                assert(before[j] == self.bindings@[j]);
                            } else if i < n0 {
                                assert(self.bindings@[i] == old_b[i]);
                            } else {
                                assert(before[i] == self.bindings@[i]);
                                let jj = choose|jj: int| 0 <= jj < k && #[trigger] before[i].0@ == default_bindings()[jj].0;
                                assert(default_bindings()[jj].0 != default_bindings()[k as int].0);
                            }
                        }
                    }
                    assert forall|i: int| 0 <= i < missing_defaults(old_b, default_bindings().take(k as int + 1)).len()
                        implies binding_view(#[trigger] self.bindings@[n0 + i]) == missing_defaults(
                        old_b,
                        default_bindings().take(k as int + 1),
                    )[i] by {
                        if n0 + i < m {
                            assert(before[n0 + i] == self.bindings@[n0 + i]);
                        }
                    }
                }
            } else {
                proof {
                    assert(self.bindings@.len() == n0 + missing_defaults(old_b, default_bindings().take(k as int + 1)).len());
                }
            }
            k += 1;
        }
        proof {
            assert(default_bindings().take(k as int) =~= default_bindings());
        }
    }

    /// How the combination bound to `action` is shown; empty when nothing is bound to it.
    pub fn format_shortcut(&self, action: &str) -> (r: String)
        ensures
            r@ == match lookup(self.bindings@, action@) {
                Some(c) => shortcut_text(c),
                None => Seq::empty(),
            },
    {
        let mut i: usize = 0;
        proof {
            assert(self.bindings@.skip(0) =~= self.bindings@);
        }
        while i < self.bindings.len()
            invariant
                i <= self.bindings@.len(),
                lookup(self.bindings@, action@) == lookup(self.bindings@.skip(i as int), action@),
            decreases self.bindings@.len() - i,
        {
            proof {
                assert(self.bindings@.skip(i as int)[0] == self.bindings@[i as int]);
                assert(self.bindings@.skip(i as int).drop_first() =~= self.bindings@.skip(i as int + 1));
            }
            if same_text(self.bindings[i].0.as_str(), action) {
                let combo = &self.bindings[i].1;
                let mut text = String::new();
                if combo.command {
                    text.append("\u{2318}");
                }
                if combo.shift {
                    text.append("\u{21e7}");
                }
                if combo.alt {
                    text.append("\u{2325}");
                }
                text.append(combo.key.as_str());
                proof {
                    assert(text@ =~= shortcut_text(*combo));
                }
                return text;
            }
            i += 1;
        }
        proof {
            assert(self.bindings@.skip(i as int) =~= Seq::<(String, KeyCombo)>::empty());
        }
        String::new()
    }

    /// The action that an input frame triggers: a cut, copy or paste event first (when
    /// available), then the first pressed binding whose action is available.
    pub fn check_input(&self, input: &InputSnapshot, is_playing: bool, has_selection: bool, has_file: bool, can_undo: bool, can_redo: bool, has_clipboard: bool) -> (r: Option<ToolbarAction>)
        ensures
            r == if input.cut && has_selection {
                Some(ToolbarAction::Cut)
            } else if input.copy && has_selection {
                Some(ToolbarAction::Copy)
            } else if input.paste && has_clipboard {
                Some(ToolbarAction::Paste)
            } else {
                first_binding_action(self.bindings@, *input, is_playing, has_selection, has_file, can_undo, can_redo, has_clipboard)
            },
    {
        if input.cut && has_selection {
            return Some(ToolbarAction::Cut);
        }
        if input.copy && has_selection {
            return Some(ToolbarAction::Copy);
        }
        if input.paste && has_clipboard {
            return Some(ToolbarAction::Paste);
        }
        let mut i: usize = 0;
        proof {
            assert(self.bindings@.skip(0) =~= self.bindings@);
        }
        while i < self.bindings.len()
            invariant
                i <= self.bindings@.len(),
                !(input.cut && has_selection),
                !(input.copy && has_selection),
                !(input.paste && has_clipboard),
                first_binding_action(self.bindings@, *input, is_playing, has_selection, has_file, can_undo, can_redo, has_clipboard)
                    == first_binding_action(self.bindings@.skip(i as int), *input, is_playing, has_selection, has_file, can_undo, can_redo, has_clipboard),
            decreases self.bindings@.len() - i,
        {
            proof {
                assert(self.bindings@.skip(i as int)[0] == self.bindings@[i as int]);
                assert(self.bindings@.skip(i as int).drop_first() =~= self.bindings@.skip(i as int + 1));
            }
            let combo = &self.bindings[i].1;
            match parse_key(combo.key.as_str()) {
                Some(key) => {
                    let pressed = key_is_pressed(input, key) && input.command == combo.command
                        && input.shift == combo.shift && input.alt == combo.alt;
                    if pressed {
                        let action = action_for(self.bindings[i].0.as_str(), is_playing, has_selection, has_file, can_undo, can_redo, has_clipboard);
                        proof {
                            let bs = self.bindings@.skip(i as int);
                            assert(bs[0] == self.bindings@[i as int]);
                            assert(combo_pressed(*input, bs[0].1));
                            if action.is_some() {
                                assert(first_binding_action(bs, *input, is_playing, has_selection, has_file, can_undo, can_redo, has_clipboard) == action);
                            }
                        }
                        if action.is_some() {
                            return action;
                        }
                    }
                },
                None => {},
            }
            i += 1;
        }
        proof {
            assert(self.bindings@.skip(i as int) =~= Seq::<(String, KeyCombo)>::empty());
        }
        None
    }
}

} // verus!

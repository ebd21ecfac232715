//! The key bindings the key-bindings dialog lists, and how a binding such
//! as `cmd-alt-down` is shown as a row of key chips.
use vstd::prelude::*;
use crate::text::{push_char, to_uppercase, uppercased};

verus! {

/// The bindings on macOS: each action with the keys that trigger it.
pub open spec fn mac_bindings() -> Seq<(Seq<char>, Seq<char>)> {
    seq![
        ("Send Request"@, "cmd-enter"@),
        ("Send Request"@, "cmd-r"@),
        ("New Request"@, "cmd-n"@),
        ("Duplicate Selected Item"@, "cmd-d"@),
        ("Rename Selected Item"@, "f2"@),
        ("Delete Selected Item"@, "cmd-backspace"@),
        ("Focus URL"@, "cmd-l"@),
        ("Open Settings"@, "cmd-,"@),
        ("Open Command Palette"@, "cmd-p"@),
        ("Next Item in Tree"@, "cmd-alt-down"@),
        ("Previous Item in Tree"@, "cmd-alt-up"@),
        ("Next Item in Tree"@, "ctrl-j"@),
        ("Previous Item in Tree"@, "ctrl-k"@),
        ("Expand/Collapse Selected Folder"@, "space"@),
        ("Next Request in History"@, "cmd-alt-right"@),
        ("Previous Request in History"@, "cmd-alt-left"@),
        ("Quit Beam"@, "cmd-q"@),
    ]
}

/// The bindings on other systems.
pub open spec fn other_bindings() -> Seq<(Seq<char>, Seq<char>)> {
    seq![
        ("Send Request"@, "ctrl-enter"@),
        ("Send Request"@, "ctrl-r"@),
        ("New Request"@, "ctrl-n"@),
        ("Duplicate Selected Item"@, "ctrl-d"@),
        ("Rename Selected Item"@, "f2"@),
        ("Delete Selected Item"@, "ctrl-delete"@),
        ("Focus URL"@, "ctrl-l"@),
        ("Open Settings"@, "ctrl-,"@),
        ("Open Command Palette"@, "ctrl-p"@),
        ("Next Item in Tree"@, "ctrl-j"@),
        ("Previous Item in Tree"@, "ctrl-k"@),
        ("Next Item in Tree"@, "ctrl-alt-down"@),
        ("Previous Item in Tree"@, "ctrl-alt-up"@),
        ("Expand/Collapse Selected Folder"@, "space"@),
        ("Next Request in History"@, "ctrl-alt-right"@),
        ("Previous Request in History"@, "ctrl-alt-left"@),
        ("Quit Beam"@, "alt-f4"@),
    ]
}

/// Pairs of texts as pairs of character sequences.
pub open spec fn pairs_view(v: Seq<(&str, &str)>) -> Seq<(Seq<char>, Seq<char>)> {
    v.map_values(|p: (&str, &str)| (p.0@, p.1@))
}

/// The key bindings, in the order the dialog lists them, for macOS or for
/// other systems.
pub fn key_bindings_list(is_mac: bool) -> (r: Vec<(&'static str, &'static str)>)
    ensures
        pairs_view(r@) == if is_mac {
            mac_bindings()
        } else {
            other_bindings()
        },
{
    let mut r: Vec<(&'static str, &'static str)> = Vec::new();
    if is_mac {
        r.push(("Send Request", "cmd-enter"));
        r.push(("Send Request", "cmd-r"));
        r.push(("New Request", "cmd-n"));
        r.push(("Duplicate Selected Item", "cmd-d"));
        r.push(("Rename Selected Item", "f2"));
        r.push(("Delete Selected Item", "cmd-backspace"));
        r.push(("Focus URL", "cmd-l"));
        r.push(("Open Settings", "cmd-,"));
        r.push(("Open Command Palette", "cmd-p"));
        r.push(("Next Item in Tree", "cmd-alt-down"));
        r.push(("Previous Item in Tree", "cmd-alt-up"));
        r.push(("Next Item in Tree", "ctrl-j"));
        r.push(("Previous Item in Tree", "ctrl-k"));
        r.push(("Expand/Collapse Selected Folder", "space"));
        r.push(("Next Request in History", "cmd-alt-right"));
        r.push(("Previous Request in History", "cmd-alt-left"));
        r.push(("Quit Beam", "cmd-q"));
        assert(pairs_view(r@) =~= mac_bindings());
    } else {
        r.push(("Send Request", "ctrl-enter"));
        r.push(("Send Request", "ctrl-r"));
        r.push(("New Request", "ctrl-n"));
        r.push(("Duplicate Selected Item", "ctrl-d"));
        r.push(("Rename Selected Item", "f2"));
        r.push(("Delete Selected Item", "ctrl-delete"));
        r.push(("Focus URL", "ctrl-l"));
        r.push(("Open Settings", "ctrl-,"));
        r.push(("Open Command Palette", "ctrl-p"));
        r.push(("Next Item in Tree", "ctrl-j"));
        r.push(("Previous Item in Tree", "ctrl-k"));
        r.push(("Next Item in Tree", "ctrl-alt-down"));
        r.push(("Previous Item in Tree", "ctrl-alt-up"));
        r.push(("Expand/Collapse Selected Folder", "space"));
        r.push(("Next Request in History", "ctrl-alt-right"));
        r.push(("Previous Request in History", "ctrl-alt-left"));
        r.push(("Quit Beam", "alt-f4"));
        assert(pairs_view(r@) =~= other_bindings());
    }
    r
}

/// The pieces of `s` between the occurrences of `sep`, as `str::split`
/// gives them (an empty text is one empty piece).
pub open spec fn split_on(s: Seq<char>, sep: char) -> Seq<Seq<char>>
    decreases s.len(),
{
    if s.len() == 0 {
        seq![Seq::empty()]
    } else {
        let prev = split_on(s.drop_last(), sep);
        if s.last() == sep {
            prev.push(Seq::empty())
        } else {
            prev.update(prev.len() - 1, prev.last().push(s.last()))
        }
    }
}

proof fn lemma_split_on_nonempty(s: Seq<char>, sep: char)
    ensures
        split_on(s, sep).len() >= 1,
    decreases s.len(),
{
    if s.len() > 0 {
        lemma_split_on_nonempty(s.drop_last(), sep);
    }
}

/// How one key of a binding is shown: modifier and arrow names become
/// their symbols on macOS (`⌘`, `⌥`, `⇧`) or words elsewhere, arrows
/// become arrows, both delete keys read `Delete`, and any other key is
/// upper-cased.
pub open spec fn key_display(part: Seq<char>, is_mac: bool) -> Seq<char> {
    if part == "cmd"@ {
        if is_mac {
            "\u{2318}"@
        } else {
            "Cmd"@
        }
    } else if part == "ctrl"@ {
        "Ctrl"@
    } else if part == "alt"@ {
        if is_mac {
            "\u{2325}"@
        } else {
            "Alt"@
        }
    } else if part == "shift"@ {
        if is_mac {
            "\u{21e7}"@
        } else {
            "Shift"@
        }
    } else if part == "enter"@ {
        "Enter"@
    } else if part == "down"@ {
        "\u{2193}"@
    } else if part == "up"@ {
        "\u{2191}"@
    } else if part == "left"@ {
        "\u{2190}"@
    } else if part == "right"@ {
        "\u{2192}"@
    } else if part == "backspace"@ || part == "delete"@ {
        "Delete"@
    } else if part == ","@ {
        ","@
    } else {
        uppercased(part)
    }
}

/// How one key of a binding is shown (see `key_display`).
fn key_display_text(part: &String, is_mac: bool) -> (r: String)
    ensures
        r@ == key_display(part@, is_mac),
{
    if *part == "cmd".to_owned() {
        if is_mac {
            "\u{2318}".to_owned()
        } else {
            "Cmd".to_owned()
        }
    } else if *part == "ctrl".to_owned() {
        "Ctrl".to_owned()
    } else if *part == "alt".to_owned() {
        if is_mac {
            "\u{2325}".to_owned()
        } else {
            "Alt".to_owned()
        }
    } else if *part == "shift".to_owned() {
        if is_mac {
            "\u{21e7}".to_owned()
        } else {
            "Shift".to_owned()
        }
    } else if *part == "enter".to_owned() {
        "Enter".to_owned()
    } else if *part == "down".to_owned() {
        "\u{2193}".to_owned()
    } else if *part == "up".to_owned() {
        "\u{2191}".to_owned()
    } else if *part == "left".to_owned() {
        "\u{2190}".to_owned()
    } else if *part == "right".to_owned() {
        "\u{2192}".to_owned()
    } else if *part == "backspace".to_owned() || *part == "delete".to_owned() {
        "Delete".to_owned()
    } else if *part == ",".to_owned() {
        ",".to_owned()
    } else {
        to_uppercase(part.as_str())
    }
}

/// The pieces of `s` between dashes (see `split_on`).
fn split_dashes(s: &str) -> (r: Vec<String>)
    ensures
        r@.len() == split_on(s@, '-').len(),
        forall|i: int| 0 <= i < r@.len() ==> (#[trigger] r@[i])@ == split_on(s@, '-')[i],
{
    let mut pieces: Vec<String> = Vec::new();
    let mut current = String::new();
    assert(s@.take(0) =~= Seq::<char>::empty());
    for c in it: s.chars()
        invariant
            it.seq() == s@,
            pieces@.len() + 1 == split_on(s@.take(it.index() as int), '-').len(),
            forall|i: int|
                0 <= i < pieces@.len() ==> (#[trigger] pieces@[i])@ == split_on(
                    s@.take(it.index() as int),
                    '-',
                )[i],
            current@ == split_on(s@.take(it.index() as int), '-').last(),
    {
        let ghost k = it.index() as int;
        let ghost before = s@.take(k);
        proof {
            lemma_split_on_nonempty(before, '-');
            assert(s@.take(k + 1).drop_last() =~= before);
            assert(s@.take(k + 1).last() == c);
        }
        if c == '-' {
            pieces.push(current);
            current = String::new();
        } else {
            push_char(&mut current, c);
        }
    }
    proof {
        assert(s@.take(s@.len() as int) =~= s@);
        lemma_split_on_nonempty(s@, '-');
    }
    pieces.push(current);
    pieces
}

/// The key chips of a binding: its dash-separated keys, each shown as
/// `key_display` says.
pub fn key_binding_display_tokens(binding: &str, is_mac: bool) -> (r: Vec<String>)
    ensures
        r@.len() == split_on(binding@, '-').len(),
        forall|i: int|
            0 <= i < r@.len() ==> (#[trigger] r@[i])@ == key_display(split_on(binding@, '-')[i], is_mac),
{
    let pieces = split_dashes(binding);
    let mut r: Vec<String> = Vec::new();
    let mut i: usize = 0;
    while i < pieces.len()
        invariant
            i <= pieces@.len(),
            pieces@.len() == split_on(binding@, '-').len(),
            forall|j: int| 0 <= j < pieces@.len() ==> (#[trigger] pieces@[j])@ == split_on(binding@, '-')[j],
            r@.len() == i,
            forall|j: int|
                0 <= j < i ==> (#[trigger] r@[j])@ == key_display(split_on(binding@, '-')[j], is_mac),
        decreases pieces@.len() - i,
    {
        let shown = key_display_text(&pieces[i], is_mac);
        r.push(shown);
        i = i + 1;
    }
    r
}

} // verus!

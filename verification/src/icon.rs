//! The icons the panel front end draws, by name.
use vstd::prelude::*;

verus! {

/// The icons there are.
#[derive(Debug, Clone, Copy, PartialEq, Eq, Structural)]
pub enum IconName {
    Cancel,
    Send,
    ChevronDown,
    ChevronRight,
}

/// The SVG file an icon is drawn from.
pub open spec fn icon_file(name: IconName) -> Seq<char> {
    match name {
        IconName::Cancel => "cancel.svg"@,
        IconName::Send => "send.svg"@,
        IconName::ChevronDown => "chevron-down.svg"@,
        IconName::ChevronRight => "chevron-right.svg"@,
    }
}

impl IconName {
    /// The SVG file the icon is drawn from (see `icon_file`).
    pub fn filename(&self) -> (r: &'static str)
        ensures
            r@ == icon_file(*self),
    {
        match self {
            IconName::Cancel => "cancel.svg",
            IconName::Send => "send.svg",
            IconName::ChevronDown => "chevron-down.svg",
            IconName::ChevronRight => "chevron-right.svg",
        }
    }
}

} // verus!

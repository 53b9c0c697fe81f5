//! The table of call-style actions: each name with the kinds of its
//! positional parameters.
use vstd::prelude::*;
use crate::text::chars_eq;

verus! {

/// The name of a call-style action.
#[derive(Clone, Copy, PartialEq, Eq, Structural, Debug)]
pub enum ActionName {
    Layer,
    Oneshot,
    Swap,
    SetLayout,
    Clear,
    Toggle,
    Layerm,
    Oneshotm,
    Swapm,
    Togglem,
    Clearm,
    Overload,
    Overloadt,
    Overloadt2,
    Timeout,
    Macro2,
    Command,
}

/// What one positional parameter of an action accepts.
#[derive(Clone, Copy, PartialEq, Eq, Structural, Debug)]
pub enum ParamKind {
    /// A key name, see `valid_ident`.
    LayerName,
    /// Any text.
    LayoutName,
    /// One character, a key combination, or a `macro(...)` block.
    MacroSeq,
    /// An unsigned 16-bit number.
    Timeout,
    /// Any text.
    Command,
    /// An expression of the reduced grammar.
    NestedAction,
}

/// The name under which an action is written.
pub open spec fn name_chars(a: ActionName) -> Seq<char> {
    match a {
        ActionName::Layer => seq!['l', 'a', 'y', 'e', 'r'],
        ActionName::Oneshot => seq!['o', 'n', 'e', 's', 'h', 'o', 't'],
        ActionName::Swap => seq!['s', 'w', 'a', 'p'],
        ActionName::SetLayout => seq!['s', 'e', 't', 'l', 'a', 'y', 'o', 'u', 't'],
        ActionName::Clear => seq!['c', 'l', 'e', 'a', 'r'],
        ActionName::Toggle => seq!['t', 'o', 'g', 'g', 'l', 'e'],
        ActionName::Layerm => seq!['l', 'a', 'y', 'e', 'r', 'm'],
        ActionName::Oneshotm => seq!['o', 'n', 'e', 's', 'h', 'o', 't', 'm'],
        ActionName::Swapm => seq!['s', 'w', 'a', 'p', 'm'],
        ActionName::Togglem => seq!['t', 'o', 'g', 'g', 'l', 'e', 'm'],
        ActionName::Clearm => seq!['c', 'l', 'e', 'a', 'r', 'm'],
        ActionName::Overload => seq!['o', 'v', 'e', 'r', 'l', 'o', 'a', 'd'],
        ActionName::Overloadt => seq!['o', 'v', 'e', 'r', 'l', 'o', 'a', 'd', 't'],
        ActionName::Overloadt2 => seq!['o', 'v', 'e', 'r', 'l', 'o', 'a', 'd', 't', '2'],
        ActionName::Timeout => seq!['t', 'i', 'm', 'e', 'o', 'u', 't'],
        ActionName::Macro2 => seq!['m', 'a', 'c', 'r', 'o', '2'],
        ActionName::Command => seq!['c', 'o', 'm', 'm', 'a', 'n', 'd'],
    }
}

/// The kinds of an action's parameters, in order.
pub open spec fn params_of(a: ActionName) -> Seq<ParamKind> {
    match a {
        ActionName::Layer => seq![ParamKind::LayerName],
        ActionName::Oneshot => seq![ParamKind::LayerName],
        ActionName::Swap => seq![ParamKind::LayerName],
        ActionName::SetLayout => seq![ParamKind::LayoutName],
        ActionName::Clear => seq![],
        ActionName::Toggle => seq![ParamKind::LayoutName],
        ActionName::Layerm => seq![ParamKind::LayerName, ParamKind::MacroSeq],
        ActionName::Oneshotm => seq![ParamKind::LayerName, ParamKind::MacroSeq],
        ActionName::Swapm => seq![ParamKind::LayerName, ParamKind::MacroSeq],
        ActionName::Togglem => seq![ParamKind::LayerName, ParamKind::MacroSeq],
        ActionName::Clearm => seq![ParamKind::MacroSeq],
        ActionName::Overload => seq![ParamKind::LayerName, ParamKind::NestedAction],
        ActionName::Overloadt => seq![ParamKind::LayerName, ParamKind::NestedAction, ParamKind::Timeout],
        ActionName::Overloadt2 => seq![ParamKind::LayerName, ParamKind::NestedAction, ParamKind::Timeout],
        ActionName::Timeout => seq![ParamKind::NestedAction, ParamKind::Timeout, ParamKind::NestedAction],
        ActionName::Macro2 => seq![ParamKind::Timeout, ParamKind::Timeout, ParamKind::MacroSeq],
        ActionName::Command => seq![ParamKind::Command],
    }
}

/// The action written as `name`, if there is one.
pub open spec fn lookup_spec(name: Seq<char>) -> Option<ActionName> {
    if name == name_chars(ActionName::Layer) {
        Some(ActionName::Layer)
    } else if name == name_chars(ActionName::Oneshot) {
        Some(ActionName::Oneshot)
    } else if name == name_chars(ActionName::Swap) {
        Some(ActionName::Swap)
    } else if name == name_chars(ActionName::SetLayout) {
        Some(ActionName::SetLayout)
    } else if name == name_chars(ActionName::Clear) {
        Some(ActionName::Clear)
    } else if name == name_chars(ActionName::Toggle) {
        Some(ActionName::Toggle)
    } else if name == name_chars(ActionName::Layerm) {
        Some(ActionName::Layerm)
    } else if name == name_chars(ActionName::Oneshotm) {
        Some(ActionName::Oneshotm)
    } else if name == name_chars(ActionName::Swapm) {
        Some(ActionName::Swapm)
    } else if name == name_chars(ActionName::Togglem) {
        Some(ActionName::Togglem)
    } else if name == name_chars(ActionName::Clearm) {
        Some(ActionName::Clearm)
    } else if name == name_chars(ActionName::Overload) {
        Some(ActionName::Overload)
    } else if name == name_chars(ActionName::Overloadt) {
        Some(ActionName::Overloadt)
    } else if name == name_chars(ActionName::Overloadt2) {
        Some(ActionName::Overloadt2)
    } else if name == name_chars(ActionName::Timeout) {
        Some(ActionName::Timeout)
    } else if name == name_chars(ActionName::Macro2) {
        Some(ActionName::Macro2)
    } else if name == name_chars(ActionName::Command) {
        Some(ActionName::Command)
    } else {
        None
    }
}

impl ActionName {
    /// The kinds of the action's parameters, in order.
    pub fn params(self) -> (r: Vec<ParamKind>)
        ensures
            r@ == params_of(self),
    {
        let r = match self {
            ActionName::Layer => vec![ParamKind::LayerName],
            ActionName::Oneshot => vec![ParamKind::LayerName],
            ActionName::Swap => vec![ParamKind::LayerName],
            ActionName::SetLayout => vec![ParamKind::LayoutName],
            ActionName::Clear => Vec::new(),
            ActionName::Toggle => vec![ParamKind::LayoutName],
            ActionName::Layerm => vec![ParamKind::LayerName, ParamKind::MacroSeq],
            ActionName::Oneshotm => vec![ParamKind::LayerName, ParamKind::MacroSeq],
            ActionName::Swapm => vec![ParamKind::LayerName, ParamKind::MacroSeq],
            ActionName::Togglem => vec![ParamKind::LayerName, ParamKind::MacroSeq],
            ActionName::Clearm => vec![ParamKind::MacroSeq],
            ActionName::Overload => vec![ParamKind::LayerName, ParamKind::NestedAction],
            ActionName::Overloadt => vec![ParamKind::LayerName, ParamKind::NestedAction, ParamKind::Timeout],
            ActionName::Overloadt2 => vec![ParamKind::LayerName, ParamKind::NestedAction, ParamKind::Timeout],
            ActionName::Timeout => vec![ParamKind::NestedAction, ParamKind::Timeout, ParamKind::NestedAction],
            ActionName::Macro2 => vec![ParamKind::Timeout, ParamKind::Timeout, ParamKind::MacroSeq],
            ActionName::Command => vec![ParamKind::Command],
        };
        assert(r@ =~= params_of(self));
        r
    }
}

/// The action whose name is `cs[lo..hi]`.
pub fn lookup(cs: &Vec<char>, lo: usize, hi: usize) -> (r: Option<ActionName>)
    requires
        lo <= hi <= cs@.len(),
    ensures
        r == lookup_spec(cs@.subrange(lo as int, hi as int)),
{
    let w = ['l', 'a', 'y', 'e', 'r'];
    assert(w@ =~= name_chars(ActionName::Layer));
    if chars_eq(cs, lo, hi, &w) {
        return Some(ActionName::Layer);
    }
    let w = ['o', 'n', 'e', 's', 'h', 'o', 't'];
    assert(w@ =~= name_chars(ActionName::Oneshot));
    if chars_eq(cs, lo, hi, &w) {
        return Some(ActionName::Oneshot);
    }
    let w = ['s', 'w', 'a', 'p'];
    assert(w@ =~= name_chars(ActionName::Swap));
    if chars_eq(cs, lo, hi, &w) {
        return Some(ActionName::Swap);
    }
    let w = ['s', 'e', 't', 'l', 'a', 'y', 'o', 'u', 't'];
    assert(w@ =~= name_chars(ActionName::SetLayout));
    if chars_eq(cs, lo, hi, &w) {
        return Some(ActionName::SetLayout);
    }
    let w = ['c', 'l', 'e', 'a', 'r'];
    assert(w@ =~= name_chars(ActionName::Clear));
    if chars_eq(cs, lo, hi, &w) {
        return Some(ActionName::Clear);
    }
    let w = ['t', 'o', 'g', 'g', 'l', 'e'];
    assert(w@ =~= name_chars(ActionName::Toggle));
    if chars_eq(cs, lo, hi, &w) {
        return Some(ActionName::Toggle);
    }
    let w = ['l', 'a', 'y', 'e', 'r', 'm'];
    assert(w@ =~= name_chars(ActionName::Layerm));
    if chars_eq(cs, lo, hi, &w) {
        return Some(ActionName::Layerm);
    }
    let w = ['o', 'n', 'e', 's', 'h', 'o', 't', 'm'];
    assert(w@ =~= name_chars(ActionName::Oneshotm));
    if chars_eq(cs, lo, hi, &w) {
        return Some(ActionName::Oneshotm);
    }
    let w = ['s', 'w', 'a', 'p', 'm'];
    assert(w@ =~= name_chars(ActionName::Swapm));
    if chars_eq(cs, lo, hi, &w) {
        return Some(ActionName::Swapm);
    }
    let w = ['t', 'o', 'g', 'g', 'l', 'e', 'm'];
    assert(w@ =~= name_chars(ActionName::Togglem));
    if chars_eq(cs, lo, hi, &w) {
        return Some(ActionName::Togglem);
    }
    let w = ['c', 'l', 'e', 'a', 'r', 'm'];
    assert(w@ =~= name_chars(ActionName::Clearm));
    if chars_eq(cs, lo, hi, &w) {
        return Some(ActionName::Clearm);
    }
    let w = ['o', 'v', 'e', 'r', 'l', 'o', 'a', 'd'];
    assert(w@ =~= name_chars(ActionName::Overload));
    if chars_eq(cs, lo, hi, &w) {
        return Some(ActionName::Overload);
    }
    let w = ['o', 'v', 'e', 'r', 'l', 'o', 'a', 'd', 't'];
    assert(w@ =~= name_chars(ActionName::Overloadt));
    if chars_eq(cs, lo, hi, &w) {
        return Some(ActionName::Overloadt);
    }
    let w = ['o', 'v', 'e', 'r', 'l', 'o', 'a', 'd', 't', '2'];
    assert(w@ =~= name_chars(ActionName::Overloadt2));
    if chars_eq(cs, lo, hi, &w) {
        return Some(ActionName::Overloadt2);
    }
    let w = ['t', 'i', 'm', 'e', 'o', 'u', 't'];
    assert(w@ =~= name_chars(ActionName::Timeout));
    if chars_eq(cs, lo, hi, &w) {
        return Some(ActionName::Timeout);
    }
    let w = ['m', 'a', 'c', 'r', 'o', '2'];
    assert(w@ =~= name_chars(ActionName::Macro2));
    if chars_eq(cs, lo, hi, &w) {
        return Some(ActionName::Macro2);
    }
    let w = ['c', 'o', 'm', 'm', 'a', 'n', 'd'];
    assert(w@ =~= name_chars(ActionName::Command));
    if chars_eq(cs, lo, hi, &w) {
        return Some(ActionName::Command);
    }
    None
}

} // verus!

//! The client's animation setting and its round trip through the text
//! stored in the browser's local storage.

use vstd::prelude::*;

verus! {

/// How much animation the client renders.
#[derive(Clone, PartialEq, Eq, Structural)]
pub enum AnimationLevel {
    Off,
    Low,
    High,
}

/// The stored text of a level.
pub open spec fn level_text(level: AnimationLevel) -> Seq<char> {
    match level {
        AnimationLevel::High => "High"@,
        AnimationLevel::Low => "Low"@,
        AnimationLevel::Off => "None"@,
    }
}

/// The level a stored text names; any unknown text falls back to `None`.
pub open spec fn level_of_text(s: Seq<char>) -> AnimationLevel {
    if s == "High"@ {
        AnimationLevel::High
    } else if s == "Low"@ {
        AnimationLevel::Low
    } else {
        AnimationLevel::Off
    }
}

/// Conversion of a level to its stored text.
pub trait ToStringify {
    /// The stored text of this value.
    fn convert_to_string(&self) -> String;
}

impl ToStringify for AnimationLevel {
    fn convert_to_string(&self) -> (r: String)
        ensures
            r@ == level_text(*self),
    {
        match self {
            AnimationLevel::High => String::from_str("High"),
            AnimationLevel::Low => String::from_str("Low"),
            AnimationLevel::Off => String::from_str("None"),
        }
    }
}

/// Conversion of a stored text back to a level.
pub trait FromStringify {
    /// The level this text names, with `Off` as the fallback.
    fn convert_from_string(&self) -> AnimationLevel;
}

impl FromStringify for String {
    fn convert_from_string(&self) -> (r: AnimationLevel)
        ensures
            r == level_of_text(self@),
    {
        if self.eq(&String::from_str("High")) {
            AnimationLevel::High
        } else if self.eq(&String::from_str("Low")) {
            AnimationLevel::Low
        } else {
            AnimationLevel::Off
        }
    }
}

} // verus!

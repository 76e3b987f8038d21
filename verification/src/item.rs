use vstd::prelude::*;
use crate::text::{ascii_lower, is_ascii_text, lowercase, str_eq, to_lowercase};

verus! {

/// The radius of a jewel.
#[derive(Debug, Clone, Copy, PartialEq, Eq, Structural)]
pub enum JewelRadius {
    Small,
    Medium,
    Large,
    VeryLarge,
    Massive,
    Variable,
}

/// The radius named by a lower-case word.
pub open spec fn spec_radius_named(s: Seq<char>) -> Option<JewelRadius> {
    if s == "small"@ {
        Some(JewelRadius::Small)
    } else if s == "medium"@ {
        Some(JewelRadius::Medium)
    } else if s == "large"@ {
        Some(JewelRadius::Large)
    } else if s == "very large"@ {
        Some(JewelRadius::VeryLarge)
    } else if s == "massive"@ {
        Some(JewelRadius::Massive)
    } else if s == "variable"@ {
        Some(JewelRadius::Variable)
    } else {
        None
    }
}

/// The display name of a radius.
pub open spec fn spec_radius_name(r: JewelRadius) -> Seq<char> {
    match r {
        JewelRadius::Small => "Small"@,
        JewelRadius::Medium => "Medium"@,
        JewelRadius::Large => "Large"@,
        JewelRadius::VeryLarge => "Very Large"@,
        JewelRadius::Massive => "Massive"@,
        JewelRadius::Variable => "Variable"@,
    }
}

/// A radius is read back from its name whatever the case of its letters: an ASCII text
/// whose lower case is that of a radius's name names that radius.
pub proof fn law_radius_name_any_case(r: JewelRadius, s: Seq<char>)
    requires
        ascii_lower(s) == ascii_lower(spec_radius_name(r)),
    ensures
        spec_radius_named(ascii_lower(s)) == Some(r),
{
    reveal_strlit("Small");
    reveal_strlit("Medium");
    reveal_strlit("Large");
    reveal_strlit("Very Large");
    reveal_strlit("Massive");
    reveal_strlit("Variable");
    reveal_strlit("small");
    reveal_strlit("medium");
    reveal_strlit("large");
    reveal_strlit("very large");
    reveal_strlit("massive");
    reveal_strlit("variable");
    assert("medium"@ != "small"@) by { assert("medium"@[0] != "small"@[0]); }
    assert("large"@ != "small"@) by { assert("large"@[0] != "small"@[0]); }
    assert("large"@ != "medium"@) by { assert("large"@[0] != "medium"@[0]); }
    assert("very large"@ != "small"@) by { assert("very large"@[0] != "small"@[0]); }
    assert("very large"@ != "medium"@) by { assert("very large"@[0] != "medium"@[0]); }
    assert("very large"@ != "large"@) by { assert("very large"@[0] != "large"@[0]); }
    assert("massive"@ != "small"@) by { assert("massive"@[0] != "small"@[0]); }
    assert("massive"@ != "medium"@) by { assert("massive"@[1] != "medium"@[1]); }
    assert("massive"@ != "large"@) by { assert("massive"@[0] != "large"@[0]); }
    assert("massive"@ != "very large"@) by { assert("massive"@[0] != "very large"@[0]); }
    assert("variable"@ != "small"@) by { assert("variable"@[0] != "small"@[0]); }
    assert("variable"@ != "medium"@) by { assert("variable"@[0] != "medium"@[0]); }
    assert("variable"@ != "large"@) by { assert("variable"@[0] != "large"@[0]); }
    assert("variable"@ != "very large"@) by { assert("variable"@[1] != "very large"@[1]); }
    assert("variable"@ != "massive"@) by { assert("variable"@[0] != "massive"@[0]); }
    match r {
        JewelRadius::Small => {
            assert(ascii_lower("Small"@) =~= "small"@);
            assert(ascii_lower(s) == "small"@);
        },
        JewelRadius::Medium => {
            assert(ascii_lower("Medium"@) =~= "medium"@);
            assert(ascii_lower(s) == "medium"@);
        },
        JewelRadius::Large => {
            assert(ascii_lower("Large"@) =~= "large"@);
            assert(ascii_lower(s) == "large"@);
        },
        JewelRadius::VeryLarge => {
            assert(ascii_lower("Very Large"@) =~= "very large"@);
            assert(ascii_lower(s) == "very large"@);
        },
        JewelRadius::Massive => {
            assert(ascii_lower("Massive"@) =~= "massive"@);
            assert(ascii_lower(s) == "massive"@);
        },
        JewelRadius::Variable => {
            assert(ascii_lower("Variable"@) =~= "variable"@);
            assert(ascii_lower(s) == "variable"@);
        },
    }
}

impl JewelRadius {
    /// The radius a lower-cased name stands for.
    pub fn from_lowercase(s: &str) -> (r: Option<Self>)
        ensures
            r == spec_radius_named(s@),
    {
        if str_eq(s, "small") {
            Some(JewelRadius::Small)
        } else if str_eq(s, "medium") {
            Some(JewelRadius::Medium)
        } else if str_eq(s, "large") {
            Some(JewelRadius::Large)
        } else if str_eq(s, "very large") {
            Some(JewelRadius::VeryLarge)
        } else if str_eq(s, "massive") {
            Some(JewelRadius::Massive)
        } else if str_eq(s, "variable") {
            Some(JewelRadius::Variable)
        } else {
            None
        }
    }

    /// The radius named by `from`, whatever its case.
    pub fn from_str(from: &str) -> (r: Option<Self>)
        ensures
            r == spec_radius_named(lowercase(from@)),
            is_ascii_text(from@) ==> r == spec_radius_named(ascii_lower(from@)),
    {
        let lower = to_lowercase(from);
        JewelRadius::from_lowercase(lower.as_str())
    }

    pub fn to_string(&self) -> (r: &'static str)
        ensures
            r@ == spec_radius_name(*self),
    {
        match self {
            JewelRadius::Small => "Small",
            JewelRadius::Medium => "Medium",
            JewelRadius::Large => "Large",
            JewelRadius::VeryLarge => "Very Large",
            JewelRadius::Massive => "Massive",
            JewelRadius::Variable => "Variable",
        }
    }
}

/// The inner and outer radius of a jewel's area.
#[derive(Debug, Clone, Copy, PartialEq, Eq, Structural, Hash)]
pub struct JewelRadiusData {
    pub inner: u32,
    pub outer: u32,
}

} // verus!

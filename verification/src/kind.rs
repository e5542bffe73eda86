//! The `type` attribute value: the conference type of a session. The five
//! names are case-sensitive.

use vstd::prelude::*;
use crate::text::str_eq;

verus! {

/// Conference type: `broadcast`, `meeting`, `moderated`, `test` or `H332`.
#[derive(Clone, Copy, PartialEq, Eq, Debug)]
pub enum Kind {
    Broadcast,
    Meeting,
    Moderated,
    Test,
    H332,
}

/// The conference type a value names, if any; names are case-sensitive.
pub open spec fn kind_of(s: Seq<char>) -> Option<Kind> {
    if s == "broadcast"@ {
        Some(Kind::Broadcast)
    } else if s == "meeting"@ {
        Some(Kind::Meeting)
    } else if s == "moderated"@ {
        Some(Kind::Moderated)
    } else if s == "test"@ {
        Some(Kind::Test)
    } else if s == "H332"@ {
        Some(Kind::H332)
    } else {
        None
    }
}

impl Kind {
    /// Parse a conference type name.
    pub fn parse(value: &str) -> (r: Option<Kind>)
        ensures
            r == kind_of(value@),
    {
        if str_eq(value, "broadcast") {
            Some(Kind::Broadcast)
        } else if str_eq(value, "meeting") {
            Some(Kind::Meeting)
        } else if str_eq(value, "moderated") {
            Some(Kind::Moderated)
        } else if str_eq(value, "test") {
            Some(Kind::Test)
        } else if str_eq(value, "H332") {
            Some(Kind::H332)
        } else {
            None
        }
    }
}

} // verus!

//! The `orient` attribute value: the orientation of a video stream. The
//! three names are case-sensitive.

use vstd::prelude::*;
use crate::text::str_eq;

verus! {

/// Video orientation: `portrait`, `landscape` or `seascape`.
#[derive(Clone, Copy, PartialEq, Eq, Debug)]
pub enum Orient {
    Portrait,
    Landscape,
    Seascape,
}

/// The orientation a value names, if any; names are case-sensitive.
pub open spec fn orient_of(s: Seq<char>) -> Option<Orient> {
    if s == "portrait"@ {
        Some(Orient::Portrait)
    } else if s == "landscape"@ {
        Some(Orient::Landscape)
    } else if s == "seascape"@ {
        Some(Orient::Seascape)
    } else {
        None
    }
}

impl Orient {
    /// Parse an orientation name.
    pub fn parse(value: &str) -> (r: Option<Orient>)
        ensures
            r == orient_of(value@),
    {
        if str_eq(value, "portrait") {
            Some(Orient::Portrait)
        } else if str_eq(value, "landscape") {
            Some(Orient::Landscape)
        } else if str_eq(value, "seascape") {
            Some(Orient::Seascape)
        } else {
            None
        }
    }
}

} // verus!

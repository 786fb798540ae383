//! Display colors: the color hex code associated with each note duration.

use vstd::prelude::*;
use crate::text::str_eq;

verus! {

/// The color assigned to a duration label, if it names a known duration.
pub open spec fn spec_color_for_duration(d: Seq<char>) -> Option<Seq<char>> {
    if d == "64th"@ {
        Some("#B13B8E"@)
    } else if d == "32nd"@ {
        Some("#4B348B"@)
    } else if d == "16th"@ {
        Some("#4563AC"@)
    } else if d == "eighth"@ {
        Some("#32CD32"@)
    } else if d == "quarter"@ {
        Some("#DAA520"@)
    } else if d == "half"@ {
        Some("#FF4500"@)
    } else if d == "whole"@ {
        Some("#8B0000"@)
    } else {
        None
    }
}

/// The color hex code for a note duration; unknown durations have none.
pub fn get_color_for_duration(duration: &str) -> (r: Option<&'static str>)
    ensures
        match r {
            Some(c) => spec_color_for_duration(duration@) == Some(c@),
            None => spec_color_for_duration(duration@) is None,
        },
{
    if str_eq(duration, "64th") {
        Some("#B13B8E")
    } else if str_eq(duration, "32nd") {
        Some("#4B348B")
    } else if str_eq(duration, "16th") {
        Some("#4563AC")
    } else if str_eq(duration, "eighth") {
        Some("#32CD32")
    } else if str_eq(duration, "quarter") {
        Some("#DAA520")
    } else if str_eq(duration, "half") {
        Some("#FF4500")
    } else if str_eq(duration, "whole") {
        Some("#8B0000")
    } else {
        None
    }
}

} // verus!

//! The generation request's form data, and the plain options it encodes.

use vstd::prelude::*;
use crate::text::{parse_i32, spec_parse_i32, str_eq};

verus! {

/// The form data of a generation request: the stored document's path, the
/// chosen part and scale, and the raw transposition options as submitted.
pub struct GenerateForm {
    pub mscx_path: String,
    pub part_name: String,
    pub part_id: u32,
    pub scale: usize,
    pub auto_transpose: Option<String>,
    pub play_only_inscale: Option<String>,
    pub transpose: Option<String>,
}

impl GenerateForm {
    /// The options the raw form fields encode: auto-transposition when its
    /// field is present at all, play-only-in-scale when its field is
    /// exactly "1", and the shift parsed as a signed decimal, zero when
    /// the field is absent or not a number.
    pub fn effective_options(&self) -> (r: (bool, bool, i32))
        ensures
            r.0 == self.auto_transpose is Some,
            r.1 == match self.play_only_inscale {
                Some(v) => v@ == "1"@,
                None => false,
            },
            r.2 == match self.transpose {
                Some(t) => match spec_parse_i32(t@) {
                    Some(v) => v,
                    None => 0i32,
                },
                None => 0i32,
            },
    {
        let auto = self.auto_transpose.is_some();
        let inscale = match &self.play_only_inscale {
            Some(v) => str_eq(v.as_str(), "1"),
            None => false,
        };
        let shift: i32 = match &self.transpose {
            Some(t) => match parse_i32(t.as_str()) {
                Some(v) => v,
                None => 0,
            },
            None => 0,
        };
        (auto, inscale, shift)
    }
}

} // verus!

//! The shapes of JSON output.

use vstd::prelude::*;

verus! {

/// How JSON is laid out.
#[derive(Debug, Clone, Copy, PartialEq, Eq, Structural)]
pub enum JsonFormat {
    /// Indented, one member a line; the default.
    Pretty,
    /// Without whitespace.
    Compact,
}

impl Default for JsonFormat {
    fn default() -> (r: JsonFormat)
        ensures
            r == JsonFormat::Pretty,
    {
        JsonFormat::Pretty
    }
}

} // verus!

//! The line injector's decision: which lines of a feed are worth
//! publishing. Reading the file and publishing on the bus are I/O and live
//! with the process around the library; the library decides, per line,
//! whether it carries anything.

use vstd::prelude::*;
use crate::keyed::str_trim;
use crate::keyed::trimmed;

verus! {

/// A line is injected exactly when something remains after trimming.
pub fn should_inject(line: &str) -> (r: bool)
    ensures
        r == (trimmed(line@).len() != 0),
{
    let t = str_trim(line);
    !t.is_empty()
}

} // verus!

//! The listening port, read from the arguments.

use vstd::prelude::*;

use crate::arguments::{port_spec, Arguments};
use crate::text::views_of;

verus! {

pub struct Port;

impl Port {
    /// The configured port, or the default when none is given or the value
    /// does not parse as a number.
    pub fn find_port_argument_or_get_default(args: &Vec<String>) -> (r: usize)
        ensures
            r == port_spec(views_of(args@)),
    {
        Arguments::find_port_argument_or_get_default(args)
    }
}

} // verus!

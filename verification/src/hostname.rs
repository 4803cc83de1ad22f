//! The host address to bind, read from the arguments.

use vstd::prelude::*;

use crate::arguments::{host_spec, Arguments};
use crate::text::views_of;

verus! {

pub struct Hostname;

impl Hostname {
    /// The configured host, or the default when none is given.
    pub fn find_host_argument_or_get_default(args: &Vec<String>) -> (r: String)
        ensures
            r@ == host_spec(views_of(args@)),
    {
        Arguments::find_host_argument_or_get_default(args)
    }
}

} // verus!

//! The command line, as plain values.
//!
//! Parsing the real command line is the application shell's job; the shell
//! hands the values over in this form.

use vstd::prelude::*;

verus! {

/// The command line: the image to open, and an optional path to a
/// configuration file.
#[derive(Clone, Debug)]
pub struct Args {
    pub img: String,
    pub config: Option<String>,
}

impl Default for Args {
    /// An empty image path and no configuration file.
    fn default() -> (r: Self)
        ensures
            r.img@ == Seq::<char>::empty(),
            r.config is None,
    {
        Args { img: String::new(), config: None }
    }
}

} // verus!

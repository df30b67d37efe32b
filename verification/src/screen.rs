//! What a module's own admin screen is given at boot.

use vstd::prelude::*;

use crate::routes::{below, join};

verus! {

/// What a screen is given at boot. Deliberately narrow: the admin's own state
/// stays private, so its composition can change without breaking a screen.
pub struct ScreenCtx {
    base_path: String,
}

impl View for ScreenCtx {
    type V = Seq<char>;

    closed spec fn view(&self) -> Seq<char> {
        self.base_path@
    }
}

impl ScreenCtx {
    pub fn new(base_path: &str) -> (r: Self)
        ensures
            r@ == base_path@,
    {
        ScreenCtx { base_path: base_path.to_owned() }
    }

    /// Where this screen actually mounted.
    pub fn base_path(&self) -> (r: &str)
        ensures
            r@ == self@,
    {
        self.base_path.as_str()
    }

    /// An absolute admin URL under this screen.
    pub fn url(&self, relative: &str) -> (r: String)
        ensures
            r@ == below(self@, relative@),
    {
        join(self.base_path.as_str(), relative)
    }
}

} // verus!

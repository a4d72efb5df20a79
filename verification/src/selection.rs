//! The currently selected demo.

use vstd::prelude::*;

verus! {

/// The navigation selection: the route segment of the demo currently shown,
/// or the empty string while no demo is selected.
pub struct NavigationSelection {
    pub demo_name: String,
}

impl View for NavigationSelection {
    type V = Seq<char>;

    open spec fn view(&self) -> Seq<char> {
        self.demo_name@
    }
}

impl NavigationSelection {
    /// A selection of the given demo name.
    pub fn new(demo_name: &str) -> (s: Self)
        ensures
            s@ == demo_name@,
    {
        NavigationSelection { demo_name: demo_name.to_owned() }
    }

    /// The selection before any navigation: the empty demo name.
    pub fn empty() -> (s: Self)
        ensures
            s@ == Seq::<char>::empty(),
    {
        NavigationSelection { demo_name: String::new() }
    }

    /// The selected demo name.
    pub fn demo_name(self) -> (r: String)
        ensures
            r@ == self@,
    {
        self.demo_name
    }

    /// A copy of the selection.
    pub fn duplicate(&self) -> (s: Self)
        ensures
            s@ == self@,
    {
        NavigationSelection { demo_name: self.demo_name.clone() }
    }
}

impl Default for NavigationSelection {
    /// The default selection is empty.
    fn default() -> (s: Self)
        ensures
            s@ == Seq::<char>::empty(),
    {
        NavigationSelection::empty()
    }
}

} // verus!

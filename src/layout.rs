//! The matrix view layouts.
use vstd::prelude::*;

verus! {

/// An arrangement of views on screen.
#[derive(Debug, Clone, Copy, PartialEq, Eq, Structural)]
pub enum Layout {
    /// A 2x2 grid.
    Grid2x2,
    /// A 3x3 grid.
    Grid3x3,
    /// A 4x4 grid.
    Grid4x4,
    /// One main view with one small view inset.
    PiP,
    /// One main view with seven small views.
    OneAndSeven,
    /// One main view with nine small views.
    OneAndNine,
}

/// The number of views a layout shows.
pub open spec fn spec_view_count(l: Layout) -> nat {
    match l {
        Layout::Grid2x2 => 4,
        Layout::Grid3x3 => 9,
        Layout::Grid4x4 => 16,
        Layout::PiP => 2,
        Layout::OneAndSeven => 8,
        Layout::OneAndNine => 10,
    }
}

/// The display name of a layout.
pub open spec fn spec_name(l: Layout) -> Seq<char> {
    match l {
        Layout::Grid2x2 => "2x2 Grid"@,
        Layout::Grid3x3 => "3x3 Grid"@,
        Layout::Grid4x4 => "4x4 Grid"@,
        Layout::PiP => "Picture in Picture"@,
        Layout::OneAndSeven => "1+7 Layout"@,
        Layout::OneAndNine => "1+9 Layout"@,
    }
}

impl Default for Layout {
    fn default() -> (r: Layout)
        ensures
            r == Layout::Grid2x2,
    {
        Layout::Grid2x2
    }
}

impl Layout {
    /// The number of views this layout shows.
    pub fn view_count(&self) -> (r: usize)
        ensures
            r == spec_view_count(*self),
    {
        match self {
            Layout::Grid2x2 => 4,
            Layout::Grid3x3 => 9,
            Layout::Grid4x4 => 16,
            Layout::PiP => 2,
            Layout::OneAndSeven => 8,
            Layout::OneAndNine => 10,
        }
    }

    /// The display name of this layout.
    pub fn name(&self) -> (r: &'static str)
        ensures
            r@ == spec_name(*self),
    {
        match self {
            Layout::Grid2x2 => "2x2 Grid",
            Layout::Grid3x3 => "3x3 Grid",
            Layout::Grid4x4 => "4x4 Grid",
            Layout::PiP => "Picture in Picture",
            Layout::OneAndSeven => "1+7 Layout",
            Layout::OneAndNine => "1+9 Layout",
        }
    }

    /// Every layout, in menu order.
    pub fn all() -> (r: Vec<Layout>)
        ensures
            r@ == seq![
                Layout::Grid2x2,
                Layout::Grid3x3,
                Layout::Grid4x4,
                Layout::PiP,
                Layout::OneAndSeven,
                Layout::OneAndNine,
            ],
    {
        let r = vec![
            Layout::Grid2x2,
            Layout::Grid3x3,
            Layout::Grid4x4,
            Layout::PiP,
            Layout::OneAndSeven,
            Layout::OneAndNine,
        ];
        assert(r@ =~= seq![
            Layout::Grid2x2,
            Layout::Grid3x3,
            Layout::Grid4x4,
            Layout::PiP,
            Layout::OneAndSeven,
            Layout::OneAndNine,
        ]);
        r
    }
}

} // verus!

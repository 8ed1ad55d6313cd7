//! The spacing and sizing scale of the audio processor GUI design system, in logical pixels.
use vstd::prelude::*;

verus! {

pub struct Spacing;

impl Spacing {
    pub fn base_spacing() -> (r: u16)
        ensures
            r == 8,
    {
        8
    }

    pub fn medium_spacing() -> (r: u16)
        ensures
            r == 2,
    {
        2
    }

    pub fn small_spacing() -> (r: u16)
        ensures
            r == 1,
    {
        1
    }

    pub fn default_font_size() -> (r: u16)
        ensures
            r == 16,
    {
        16
    }

    pub fn small_font_size() -> (r: u16)
        ensures
            r == 14,
    {
        14
    }

    pub fn base_control_size() -> (r: u16)
        ensures
            r == 35,
    {
        35
    }

    pub fn small_control_size() -> (r: u16)
        ensures
            r == 12,
    {
        12
    }
}

} // verus!

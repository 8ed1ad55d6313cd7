//! The metronome's command surface as seen from a foreign caller: sound selection arrives as an
//! integer tag and is validated at the boundary.
use vstd::prelude::*;

verus! {

/// The metronome click sounds.
#[derive(Clone, Copy, Debug, PartialEq, Eq, Structural)]
pub enum MetronomeSoundTypeTag {
    Sine,
    Tube,
    Glass,
    Snap,
}

/// A sound tag outside the closed set of sounds; it carries the value received.
#[derive(Clone, Copy, Debug, PartialEq, Eq, Structural)]
pub struct InvalidSoundTag {
    pub value: i32,
}

/// The sound that wire value `value` selects: 0 sine, 1 tube, 2 glass, 3 snap.
pub open spec fn sound_for(value: i32) -> Option<MetronomeSoundTypeTag> {
    if value == 0 {
        Some(MetronomeSoundTypeTag::Sine)
    } else if value == 1 {
        Some(MetronomeSoundTypeTag::Tube)
    } else if value == 2 {
        Some(MetronomeSoundTypeTag::Glass)
    } else if value == 3 {
        Some(MetronomeSoundTypeTag::Snap)
    } else {
        None
    }
}

/// Decodes a sound tag received from a foreign caller; any value outside `0..=3` is rejected.
pub fn sound_tag_from_wire(value: i32) -> (r: Result<MetronomeSoundTypeTag, InvalidSoundTag>)
    ensures
        match sound_for(value) {
            Some(tag) => r == Ok::<MetronomeSoundTypeTag, InvalidSoundTag>(tag),
            None => r == Err::<MetronomeSoundTypeTag, InvalidSoundTag>(InvalidSoundTag { value }),
        },
{
    match value {
        0 => Ok(MetronomeSoundTypeTag::Sine),
        1 => Ok(MetronomeSoundTypeTag::Tube),
        2 => Ok(MetronomeSoundTypeTag::Glass),
        3 => Ok(MetronomeSoundTypeTag::Snap),
        _ => Err(InvalidSoundTag { value }),
    }
}

} // verus!

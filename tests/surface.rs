use audio_processor_core::metronome::{
    sound_tag_from_wire, InvalidSoundTag, MetronomeSoundTypeTag,
};
use audio_processor_core::options::RunOptions;
use audio_processor_core::spacing::Spacing;

#[test]
fn sound_tags_decode() {
    assert_eq!(sound_tag_from_wire(0), Ok(MetronomeSoundTypeTag::Sine));
    assert_eq!(sound_tag_from_wire(1), Ok(MetronomeSoundTypeTag::Tube));
    assert_eq!(sound_tag_from_wire(2), Ok(MetronomeSoundTypeTag::Glass));
    assert_eq!(sound_tag_from_wire(3), Ok(MetronomeSoundTypeTag::Snap));
}

#[test]
fn out_of_range_sound_tags_are_rejected() {
    assert_eq!(sound_tag_from_wire(4), Err(InvalidSoundTag { value: 4 }));
    assert_eq!(sound_tag_from_wire(-1), Err(InvalidSoundTag { value: -1 }));
}

#[test]
fn spacing_scale() {
    assert_eq!(Spacing::base_spacing(), 8);
    assert_eq!(Spacing::medium_spacing(), 2);
    assert_eq!(Spacing::small_spacing(), 1);
    assert_eq!(Spacing::default_font_size(), 16);
    assert_eq!(Spacing::small_font_size(), 14);
    assert_eq!(Spacing::base_control_size(), 35);
    assert_eq!(Spacing::small_control_size(), 12);
}

#[test]
fn run_options_getters() {
    let options = RunOptions::new(
        String::from("plugin.vst"),
        String::from("in.wav"),
        Some(String::from("out.wav")),
        true,
    );
    assert_eq!(options.plugin_path(), "plugin.vst");
    assert_eq!(options.input_audio(), "in.wav");
    assert_eq!(options.output_audio(), &Some(String::from("out.wav")));
    assert!(options.playback());
}

use audio_processor_core::buffer::{AudioBuffer, InterleavedAudioBuffer, VSTAudioBuffer};
use audio_processor_core::processor::{
    map_frames, map_processor, AudioProcessor, AudioProcessorSettings,
};

/// Writes one constant into every output sample.
struct ConstantProcessor {
    value: f32,
    prepared: Option<AudioProcessorSettings>,
}

impl AudioProcessor for ConstantProcessor {
    type SampleType = f32;

    fn prepare(&mut self, settings: AudioProcessorSettings) {
        self.prepared = Some(settings);
    }

    fn process<B: AudioBuffer<SampleType = f32>>(&mut self, buffer: &mut B) {
        for sample in 0..buffer.num_samples() {
            for channel in 0..buffer.num_channels() {
                buffer.set(channel, sample, self.value);
            }
        }
    }
}

#[test]
fn test_map_processor() {
    let input_p = ConstantProcessor { value: 0.5, prepared: None };
    let mut output = map_processor(input_p, |frame: &[f32]| {
        let mut out = frame.to_vec();
        out[0] = 2.0;
        out
    });
    let mut storage = vec![0.0; 6];
    let mut output_buffer = InterleavedAudioBuffer::new(2, storage.as_mut_slice());
    output.process(&mut output_buffer);
    assert_eq!(
        output_buffer.inner(),
        [
            2.0, 0.5, // 1
            2.0, 0.5, // 2
            2.0, 0.5, // 3
        ]
    );
}

#[test]
fn map_processor_prepare_reaches_inner_processor() {
    let settings = AudioProcessorSettings::new(44100, 1, 2, 512);
    let mut processor = map_processor(ConstantProcessor { value: 0.0, prepared: None }, |frame: &[f32]| {
        frame.to_vec()
    });
    processor.prepare(settings);
    let mut storage = vec![3.0f32; 2];
    let mut buffer = InterleavedAudioBuffer::new(2, storage.as_mut_slice());
    processor.process(&mut buffer);
    assert_eq!(buffer.inner(), [0.0, 0.0]);
}

#[test]
fn map_frames_transforms_each_frame_in_order() {
    let mut storage = vec![1.0f32, 2.0, 3.0, 4.0];
    let mut buffer = InterleavedAudioBuffer::new(2, storage.as_mut_slice());
    map_frames(&mut buffer, &|frame: &[f32]| vec![frame[1], frame[0]]);
    assert_eq!(buffer.inner(), [2.0, 1.0, 4.0, 3.0]);
}

#[test]
fn map_frames_short_result_leaves_remaining_channels() {
    let mut storage = vec![1.0f32, 2.0, 3.0, 4.0, 5.0, 6.0];
    let mut buffer = InterleavedAudioBuffer::new(3, storage.as_mut_slice());
    map_frames(&mut buffer, &|frame: &[f32]| vec![frame[0] * 10.0]);
    assert_eq!(buffer.inner(), [10.0, 2.0, 3.0, 40.0, 5.0, 6.0]);
}

#[test]
fn map_frames_on_split_buffer_reads_outputs() {
    let input = [1.0f32, 1.0];
    let inputs = [&input[..]];
    let mut output = vec![3.0f32, 4.0];
    let mut outputs = [output.as_mut_slice()];
    let mut buffer = VSTAudioBuffer::new(&inputs, &mut outputs);
    map_frames(&mut buffer, &|frame: &[f32]| vec![frame[0] + 1.0]);
    assert_eq!(*buffer.get_mut(0, 0), 4.0);
    assert_eq!(*buffer.get_mut(0, 1), 5.0);
    assert_eq!(*buffer.get(0, 1), 1.0);
}

#[test]
fn settings_getters_return_fields() {
    let settings = AudioProcessorSettings::new(48000, 1, 2, 256);
    assert_eq!(settings.sample_rate(), 48000);
    assert_eq!(settings.input_channels(), 1);
    assert_eq!(settings.output_channels(), 2);
    assert_eq!(settings.block_size(), 256);
}

#[test]
fn process_mapped_transforms_inner_output() {
    let mut processor = map_processor(ConstantProcessor { value: 1.5, prepared: None }, |frame: &[f32]| {
        frame.iter().map(|v| v * 2.0).collect()
    });
    let mut storage = vec![0.0f32; 4];
    let mut buffer = InterleavedAudioBuffer::new(1, storage.as_mut_slice());
    processor.process_mapped(&mut buffer);
    assert_eq!(buffer.inner(), [3.0, 3.0, 3.0, 3.0]);
}

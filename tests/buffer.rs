use audio_processor_core::buffer::{
    collect_frames, AudioBuffer, AudioBufferIterator, InterleavedAudioBuffer, SliceAudioBuffer,
    VSTAudioBuffer,
};

#[test]
fn interleaved_set_then_get_mut_observes_value() {
    let mut storage = vec![0.0f32; 6];
    let mut buffer = InterleavedAudioBuffer::new(2, storage.as_mut_slice());
    buffer.set(1, 2, 0.25);
    assert_eq!(*buffer.get_mut(1, 2), 0.25);
    assert_eq!(*buffer.get(1, 2), 0.25);
    assert_eq!(*buffer.get_mut(0, 2), 0.0);
    assert_eq!(buffer.inner(), &[0.0, 0.0, 0.0, 0.0, 0.0, 0.25]);
}

#[test]
fn interleaved_index_is_sample_times_channels_plus_channel() {
    let mut storage = vec![1.0f32, 2.0, 3.0, 4.0, 5.0, 6.0];
    let buffer = InterleavedAudioBuffer::new(3, storage.as_mut_slice());
    assert_eq!(*buffer.get(0, 1), 4.0);
    assert_eq!(*buffer.get(2, 0), 3.0);
    assert_eq!(*buffer.get(1, 1), 5.0);
}

#[test]
fn interleaved_num_samples_is_length_over_channels() {
    let mut storage = vec![0.0f32; 12];
    let buffer = InterleavedAudioBuffer::new(3, storage.as_mut_slice());
    assert_eq!(buffer.num_channels(), 3);
    assert_eq!(buffer.num_samples(), 4);
    let mut mono = vec![0.0f32; 5];
    let buffer = InterleavedAudioBuffer::new(1, mono.as_mut_slice());
    assert_eq!(buffer.num_samples(), 5);
}

#[test]
fn interleaved_empty_storage_has_no_samples() {
    let mut storage: Vec<f32> = Vec::new();
    let buffer = InterleavedAudioBuffer::new(2, storage.as_mut_slice());
    assert_eq!(buffer.num_samples(), 0);
    assert_eq!(collect_frames(&buffer).len(), 0);
}

#[test]
fn interleaved_inner_mut_writes_through() {
    let mut storage = vec![0.0f32; 4];
    let mut buffer = InterleavedAudioBuffer::new(2, storage.as_mut_slice());
    buffer.inner_mut()[3] = 9.0;
    assert_eq!(*buffer.get(1, 1), 9.0);
}

#[test]
fn slice_set_then_get_mut_observes_value() {
    let mut left = vec![0.0f32; 3];
    let mut right = vec![0.0f32; 3];
    let mut channels = [left.as_mut_slice(), right.as_mut_slice()];
    let mut buffer = SliceAudioBuffer::new(&mut channels);
    assert_eq!(buffer.num_channels(), 2);
    assert_eq!(buffer.num_samples(), 3);
    buffer.set(1, 0, 0.5);
    assert_eq!(*buffer.get_mut(1, 0), 0.5);
    *buffer.get_mut(0, 2) = -1.0;
    assert_eq!(*buffer.get(0, 2), -1.0);
    drop(buffer);
    assert_eq!(left, vec![0.0, 0.0, -1.0]);
    assert_eq!(right, vec![0.5, 0.0, 0.0]);
}

#[test]
fn slice_without_channels_has_no_samples() {
    let mut channels: [&mut [f32]; 0] = [];
    let buffer = SliceAudioBuffer::new(&mut channels);
    assert_eq!(buffer.num_channels(), 0);
    assert_eq!(buffer.num_samples(), 0);
}

#[test]
fn split_buffer_reads_inputs_and_writes_outputs() {
    let input_left = [1.0f32, 2.0];
    let input_right = [3.0f32, 4.0];
    let inputs = [&input_left[..], &input_right[..]];
    let mut output_left = vec![0.0f32; 2];
    let mut output_right = vec![0.0f32; 2];
    let mut outputs = [output_left.as_mut_slice(), output_right.as_mut_slice()];
    let mut buffer = VSTAudioBuffer::new(&inputs, &mut outputs);
    assert_eq!(buffer.num_channels(), 2);
    assert_eq!(buffer.num_samples(), 2);
    buffer.set(0, 1, 7.0);
    assert_eq!(*buffer.get_mut(0, 1), 7.0);
    assert_eq!(*buffer.get(0, 1), 2.0);
    assert_eq!(*buffer.get(1, 0), 3.0);
    assert_eq!(*buffer.get_mut(1, 0), 0.0);
}

#[test]
fn frames_visit_every_sample_in_channel_order() {
    let mut storage = vec![1.0f32, 2.0, 3.0, 4.0, 5.0, 6.0];
    let buffer = InterleavedAudioBuffer::new(2, storage.as_mut_slice());
    let mut frames = buffer.iter();
    let mut seen = Vec::new();
    while let Some(frame) = frames.next() {
        let mut values = Vec::new();
        let mut channels = frame.iter();
        while let Some(value) = channels.next() {
            values.push(*value);
        }
        seen.push(values);
    }
    assert_eq!(seen, vec![vec![1.0, 2.0], vec![3.0, 4.0], vec![5.0, 6.0]]);
    assert!(frames.next().is_none());
}

#[test]
fn iterator_over_empty_buffer_ends_at_once() {
    let mut storage: Vec<f32> = Vec::new();
    let buffer = InterleavedAudioBuffer::new(2, storage.as_mut_slice());
    let mut frames = AudioBufferIterator::new(&buffer);
    assert!(frames.next().is_none());
}

#[test]
fn collect_frames_on_planar_buffer() {
    let mut left = vec![1.0f32, 2.0, 3.0, 4.0];
    let mut centre = vec![5.0f32, 6.0, 7.0, 8.0];
    let mut right = vec![9.0f32, 10.0, 11.0, 12.0];
    let mut channels = [left.as_mut_slice(), centre.as_mut_slice(), right.as_mut_slice()];
    let buffer = SliceAudioBuffer::new(&mut channels);
    let frames = collect_frames(&buffer);
    assert_eq!(frames.len(), 4);
    for frame in &frames {
        assert_eq!(frame.len(), 3);
    }
    assert_eq!(frames[0], vec![1.0, 5.0, 9.0]);
    assert_eq!(frames[3], vec![4.0, 8.0, 12.0]);
}

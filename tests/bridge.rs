use audio_processor_core::bridge::{create_bridge, pop_into, push_samples, SampleBridge};
use audio_processor_core::buffer::InterleavedAudioBuffer;
use audio_processor_core::engine::{bridge_capacity, BUFFER_SIZE};

fn words(samples: &[f32]) -> Vec<u32> {
    samples.iter().map(|s| s.to_bits()).collect()
}

#[test]
fn bridge_delivers_pushed_samples_in_order() {
    let (mut producer, mut consumer) = create_bridge(8);
    let samples = words(&[0.1, 0.2, 0.3, 0.4, 0.5, 0.6]);
    assert_eq!(push_samples(&mut producer, &samples, 1), 6);
    let mut storage = vec![0u32; 6];
    let mut buffer = InterleavedAudioBuffer::new(2, storage.as_mut_slice());
    assert_eq!(pop_into(&mut consumer, &mut buffer), None);
    assert_eq!(buffer.inner(), samples.as_slice());
}

#[test]
fn popping_beyond_what_was_pushed_yields_no_data() {
    let (mut producer, mut consumer) = create_bridge(8);
    assert_eq!(push_samples(&mut producer, &[1, 2, 3], 1), 3);
    let mut storage = vec![99u32; 6];
    let mut buffer = InterleavedAudioBuffer::new(2, storage.as_mut_slice());
    assert_eq!(pop_into(&mut consumer, &mut buffer), Some((1, 1)));
    assert_eq!(buffer.inner(), [1, 2, 3, 99, 99, 99]);
    assert!(consumer.pop().is_none());
}

#[test]
fn full_bridge_drops_samples_without_blocking() {
    let (mut producer, mut consumer) = create_bridge(2);
    assert_eq!(push_samples(&mut producer, &[1, 2, 3, 4], 3), 2);
    assert_eq!(consumer.pop(), Some(1));
    assert_eq!(consumer.pop(), Some(2));
    assert_eq!(consumer.pop(), None);
}

#[test]
fn no_attempts_pushes_nothing() {
    let (mut producer, mut consumer) = create_bridge(4);
    assert_eq!(push_samples(&mut producer, &[1, 2], 0), 0);
    assert_eq!(consumer.pop(), None);
}

#[test]
fn bridge_sized_for_ten_blocks() {
    let capacity = bridge_capacity(BUFFER_SIZE).unwrap();
    assert_eq!(capacity, 5120);
    let (mut producer, mut consumer) = create_bridge(capacity);
    assert_eq!(producer.capacity(), capacity);
    let block = vec![7u32; capacity];
    assert_eq!(push_samples(&mut producer, &block, 1), capacity);
    assert_eq!(push_samples(&mut producer, &[1], 1), 0);
    assert_eq!(consumer.pop(), Some(7));
}

#[test]
fn samples_round_trip_through_their_bits() {
    let (mut producer, mut consumer) = create_bridge(4);
    let samples = [0.5f32, -0.25];
    push_samples(&mut producer, &words(&samples), 1);
    let out: Vec<f32> = (0..2).map(|_| f32::from_bits(consumer.pop().unwrap())).collect();
    assert_eq!(out, samples);
}

#[test]
fn sample_bridge_pops_in_push_order_then_nothing() {
    let mut bridge = SampleBridge::new(4);
    let words = [10u32, 20, 30, 40];
    for word in words {
        assert_eq!(bridge.push(word), Ok(()));
    }
    for word in words {
        assert_eq!(bridge.pop(), Some(word));
    }
    assert_eq!(bridge.pop(), None);
    assert_eq!(bridge.pop(), None);
}

#[test]
fn sample_bridge_refuses_when_full() {
    let mut bridge = SampleBridge::new(2);
    assert_eq!(bridge.push(1), Ok(()));
    assert_eq!(bridge.push(2), Ok(()));
    assert_eq!(bridge.push(3), Err(3));
    assert_eq!(bridge.pop(), Some(1));
    assert_eq!(bridge.push(4), Ok(()));
    assert_eq!(bridge.pop(), Some(2));
    assert_eq!(bridge.pop(), Some(4));
    assert_eq!(bridge.pop(), None);
}

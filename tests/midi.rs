use audio_processor_core::buffer::{AudioBuffer, InterleavedAudioBuffer};
use audio_processor_core::midi::{render_block, MidiEventHandler, MidiMessage, MidiMessageQueue};
use audio_processor_core::processor::{AudioProcessor, AudioProcessorSettings};

/// Records what it was handed, and at which point of the block.
struct Recorder {
    log: Vec<String>,
}

impl AudioProcessor for Recorder {
    type SampleType = f32;

    fn prepare(&mut self, _settings: AudioProcessorSettings) {}

    fn process<B: AudioBuffer<SampleType = f32>>(&mut self, buffer: &mut B) {
        self.log.push(format!("process {}", buffer.num_samples()));
    }
}

impl MidiEventHandler for Recorder {
    fn process_midi_events(&mut self, events: &[MidiMessage]) {
        for event in events {
            self.log.push(format!("midi {} {:?}", event.timestamp(), event.bytes()));
        }
    }
}

#[test]
fn queue_keeps_arrival_order() {
    let mut queue = MidiMessageQueue::new(4);
    assert!(!queue.push(MidiMessage::new(1, vec![0x90, 60, 100])));
    assert!(!queue.push(MidiMessage::new(2, vec![0x80, 60, 0])));
    assert_eq!(queue.len(), 2);
    let drained = queue.drain();
    assert_eq!(drained.iter().map(|m| m.timestamp()).collect::<Vec<_>>(), vec![1, 2]);
    assert_eq!(drained[0].bytes(), &[0x90, 60, 100]);
    assert_eq!(queue.len(), 0);
    assert_eq!(queue.capacity(), 4);
}

#[test]
fn full_queue_drops_oldest() {
    let mut queue = MidiMessageQueue::new(2);
    queue.push(MidiMessage::new(1, vec![1]));
    queue.push(MidiMessage::new(2, vec![2]));
    assert!(queue.push(MidiMessage::new(3, vec![3])));
    let drained = queue.drain();
    assert_eq!(drained.iter().map(|m| m.timestamp()).collect::<Vec<_>>(), vec![2, 3]);
}

#[test]
fn render_block_flushes_midi_before_processing() {
    let mut queue = MidiMessageQueue::new(8);
    queue.push(MidiMessage::new(10, vec![0x90, 64, 90]));
    queue.push(MidiMessage::new(11, vec![0x80, 64, 0]));
    let mut recorder = Recorder { log: Vec::new() };
    let mut storage = vec![0.0f32; 8];
    let mut buffer = InterleavedAudioBuffer::new(2, storage.as_mut_slice());
    assert_eq!(render_block(&mut recorder, &mut queue, &mut buffer), 2);
    assert_eq!(
        recorder.log,
        vec!["midi 10 [144, 64, 90]", "midi 11 [128, 64, 0]", "process 4"]
    );
    assert_eq!(queue.len(), 0);
    assert_eq!(render_block(&mut recorder, &mut queue, &mut buffer), 0);
    assert_eq!(recorder.log.len(), 4);
}

//! MIDI intake: events captured off the real-time thread wait in a bounded queue, and the render
//! step drains the whole queue into the processor, in arrival order, before rendering the block.
use vstd::prelude::*;

use crate::buffer::{AudioBuffer, same_layout};
use crate::processor::{AudioProcessor, output_matrix};

verus! {

/// One captured MIDI event: its raw bytes and when it arrived.
#[derive(Clone, Debug)]
pub struct MidiMessage {
    /// Arrival time, as the MIDI input reports it.
    pub timestamp: u64,
    pub bytes: Vec<u8>,
}

impl MidiMessage {
    pub fn new(timestamp: u64, bytes: Vec<u8>) -> (r: Self)
        ensures
            r.timestamp == timestamp,
            r.bytes@ == bytes@,
    {
        MidiMessage { timestamp, bytes }
    }

    pub fn timestamp(&self) -> (r: u64)
        ensures
            r == self.timestamp,
    {
        self.timestamp
    }

    pub fn bytes(&self) -> (r: &[u8])
        ensures
            r@ == self.bytes@,
    {
        self.bytes.as_slice()
    }
}

/// A bounded queue of captured events in arrival order. When it is full, a new event pushes out
/// the oldest unread one.
pub struct MidiMessageQueue {
    events: Vec<MidiMessage>,
    capacity: usize,
}

impl MidiMessageQueue {
    /// The queued events, oldest first.
    pub closed spec fn events(&self) -> Seq<MidiMessage> {
        self.events@
    }

    pub closed spec fn spec_capacity(&self) -> nat {
        self.capacity as nat
    }

    pub open spec fn wf(&self) -> bool {
        0 < self.spec_capacity() && self.events().len() <= self.spec_capacity()
    }

    /// An empty queue that holds up to `capacity` events.
    pub fn new(capacity: usize) -> (r: Self)
        requires
            capacity > 0,
        ensures
            r.wf(),
            r.events() == Seq::<MidiMessage>::empty(),
            r.spec_capacity() == capacity,
    {
        MidiMessageQueue { events: Vec::new(), capacity }
    }

    pub fn capacity(&self) -> (r: usize)
        ensures
            r == self.spec_capacity(),
    {
        self.capacity
    }

    pub fn len(&self) -> (r: usize)
        ensures
            r == self.events().len(),
    {
        self.events.len()
    }

    /// Appends `message`; when the queue is full the oldest event is dropped first. Returns
    /// whether an event was dropped.
    pub fn push(&mut self, message: MidiMessage) -> (r: bool)
        requires
            old(self).wf(),
        ensures
            final(self).wf(),
            final(self).spec_capacity() == old(self).spec_capacity(),
            r == (old(self).events().len() == old(self).spec_capacity()),
            !r ==> final(self).events() == old(self).events().push(message),
            r ==> final(self).events() == old(self).events().drop_first().push(message),
    {
        let full = self.events.len() == self.capacity;
        if full {
            self.events.remove(0);
        }
        self.events.push(message);
        full
    }

    /// Removes and returns every queued event, oldest first.
    pub fn drain(&mut self) -> (r: Vec<MidiMessage>)
        requires
            old(self).wf(),
        ensures
            final(self).wf(),
            final(self).spec_capacity() == old(self).spec_capacity(),
            r@ == old(self).events(),
            final(self).events() == Seq::<MidiMessage>::empty(),
    {
        let mut drained: Vec<MidiMessage> = Vec::new();
        core::mem::swap(&mut self.events, &mut drained);
        drained
    }
}

/// A processor that also takes MIDI events.
pub trait MidiEventHandler: AudioProcessor {
    /// Handles the events of one block, oldest first: they are added to what the processor has
    /// received.
    fn process_midi_events(&mut self, events: &[MidiMessage])
        requires
            old(self).wf(),
        ensures
            final(self).wf(),
            final(self).midi_received() == old(self).midi_received() + events@,
    ;
}

/// Renders one block: drains the whole queue into the processor's MIDI hook in arrival order,
/// then processes the block. Returns the number of events handed over.
///
/// The processor has received exactly the queued events, oldest first, and `process` (which
/// receives no events) ran on the block after them.
pub fn render_block<P: MidiEventHandler, B: AudioBuffer<SampleType = P::SampleType>>(
    processor: &mut P,
    queue: &mut MidiMessageQueue,
    buffer: &mut B,
) -> (r: usize)
    requires
        old(processor).wf(),
        old(queue).wf(),
        old(buffer).wf(),
    ensures
        final(processor).wf(),
        final(queue).wf(),
        final(queue).spec_capacity() == old(queue).spec_capacity(),
        final(queue).events() == Seq::<MidiMessage>::empty(),
        r == old(queue).events().len(),
        same_layout(old(buffer), final(buffer)),
        final(processor).midi_received() == old(processor).midi_received() + old(queue).events(),
        exists|after_midi: P|
            {
                &&& after_midi.midi_received() == old(processor).midi_received() + old(
                    queue,
                ).events()
                &&& after_midi.processed(
                    final(processor),
                    output_matrix(old(buffer)),
                    output_matrix(final(buffer)),
                )
            },
{
    let events = queue.drain();
    processor.process_midi_events(events.as_slice());
    let ghost after_midi = *processor;
    processor.process(buffer);
    assert(after_midi.processed(processor, output_matrix(old(buffer)), output_matrix(buffer)));
    events.len()
}

} // verus!

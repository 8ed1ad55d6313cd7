//! Layout-agnostic addressing over audio sample storage.
//!
//! Every buffer is addressed by `(channel, sample)`. Reads (`get`) come from the input side and
//! writes (`set`, `get_mut`) go to the output side; for most layouts both sides are the same
//! storage, for host-split buffers they are distinct.
use vstd::prelude::*;

verus! {

/// Whether `(channel, sample)` addresses a sample of `b`.
pub open spec fn in_bounds<B: AudioBuffer>(b: &B, channel: int, sample: int) -> bool {
    0 <= channel < b.channel_count() && 0 <= sample < b.sample_count()
}

/// `after` has the same shape as `before` and is well formed.
pub open spec fn same_layout<B: AudioBuffer>(before: &B, after: &B) -> bool {
    &&& after.wf()
    &&& after.channel_count() == before.channel_count()
    &&& after.sample_count() == before.sample_count()
    &&& after.io_shared() == before.io_shared()
}

/// `after` is `before` with output sample `(channel, sample)` replaced by `value`.
///
/// When input and output share storage the input side observes the write too; otherwise the
/// input side is left as it was.
pub open spec fn output_written<B: AudioBuffer>(
    before: &B,
    after: &B,
    channel: int,
    sample: int,
    value: B::SampleType,
) -> bool {
    &&& same_layout(before, after)
    &&& after.output_at(channel, sample) == value
    &&& forall|c: int, s: int|
        #![trigger after.output_at(c, s)]
        in_bounds(before, c, s) && (c != channel || s != sample) ==> after.output_at(c, s)
            == before.output_at(c, s)
    &&& forall|c: int, s: int|
        #![trigger after.input_at(c, s)]
        in_bounds(before, c, s) ==> after.input_at(c, s) == if before.io_shared() {
            after.output_at(c, s)
        } else {
            before.input_at(c, s)
        }
}

/// The frame at `sample`: one input sample per channel, in channel order.
pub open spec fn frame_view<B: AudioBuffer>(b: &B, sample: int) -> Seq<B::SampleType> {
    Seq::new(b.channel_count(), |c: int| b.input_at(c, sample))
}

/// Uniform access to a block of samples, whatever its physical layout.
pub trait AudioBuffer: Sized {
    type SampleType: Copy;

    /// The buffer's internal invariant.
    spec fn wf(&self) -> bool;

    spec fn channel_count(&self) -> nat;

    spec fn sample_count(&self) -> nat;

    /// The sample that `get(channel, sample)` reads.
    spec fn input_at(&self, channel: int, sample: int) -> Self::SampleType;

    /// The sample that `get_mut(channel, sample)` refers to.
    spec fn output_at(&self, channel: int, sample: int) -> Self::SampleType;

    /// Whether reads and writes go to the same storage.
    spec fn io_shared(&self) -> bool;

    /// What writing `value` to output sample `(channel, sample)` does to the layout's own
    /// storage, taking `self` to `after`. Layouts that state nothing are described by the
    /// sample-level clauses alone.
    open spec fn stored(&self, after: &Self, channel: int, sample: int, value: Self::SampleType) -> bool {
        true
    }

    /// The number of channels in this buffer.
    fn num_channels(&self) -> (r: usize)
        requires
            self.wf(),
        ensures
            r == self.channel_count(),
    ;

    /// The number of samples per channel in this buffer.
    fn num_samples(&self) -> (r: usize)
        requires
            self.wf(),
        ensures
            r == self.sample_count(),
    ;

    /// A reference to an input sample.
    fn get(&self, channel: usize, sample: usize) -> (r: &Self::SampleType)
        requires
            self.wf(),
            channel < self.channel_count(),
            sample < self.sample_count(),
        ensures
            *r == self.input_at(channel as int, sample as int),
    ;

    /// A mutable reference to an output sample; on split buffers it may differ from `get`.
    fn get_mut(&mut self, channel: usize, sample: usize) -> (r: &mut Self::SampleType)
        requires
            old(self).wf(),
            channel < old(self).channel_count(),
            sample < old(self).sample_count(),
        ensures
            *r == old(self).output_at(channel as int, sample as int),
            old(self).stored(final(self), channel as int, sample as int, *final(r)),
            final(self).wf(),
            final(self).channel_count() == old(self).channel_count(),
            final(self).sample_count() == old(self).sample_count(),
            final(self).io_shared() == old(self).io_shared(),
            final(self).output_at(channel as int, sample as int) == *final(r),
            forall|c: int, s: int|
                #![trigger final(self).output_at(c, s)]
                0 <= c < old(self).channel_count() && 0 <= s < old(self).sample_count()
                    && (c != channel || s != sample)
                    ==> final(self).output_at(c, s) == old(self).output_at(c, s),
            forall|c: int, s: int|
                #![trigger final(self).input_at(c, s)]
                0 <= c < old(self).channel_count() && 0 <= s < old(self).sample_count()
                    ==> final(self).input_at(c, s) == if old(self).io_shared() {
                    final(self).output_at(c, s)
                } else {
                    old(self).input_at(c, s)
                },
    ;

    /// A read-only walk over the frames of this buffer, from the first.
    fn iter(&self) -> (r: AudioBufferIterator<'_, Self>)
        ensures
            r.position() == 0,
            r.buffer() == *self,
    {
        AudioBufferIterator::new(self)
    }

    /// Writes an output sample.
    fn set(&mut self, channel: usize, sample: usize, value: Self::SampleType)
        requires
            old(self).wf(),
            channel < old(self).channel_count(),
            sample < old(self).sample_count(),
        ensures
            old(self).stored(final(self), channel as int, sample as int, value),
            final(self).wf(),
            final(self).channel_count() == old(self).channel_count(),
            final(self).sample_count() == old(self).sample_count(),
            final(self).io_shared() == old(self).io_shared(),
            final(self).output_at(channel as int, sample as int) == value,
            forall|c: int, s: int|
                #![trigger final(self).output_at(c, s)]
                0 <= c < old(self).channel_count() && 0 <= s < old(self).sample_count()
                    && (c != channel || s != sample)
                    ==> final(self).output_at(c, s) == old(self).output_at(c, s),
            forall|c: int, s: int|
                #![trigger final(self).input_at(c, s)]
                0 <= c < old(self).channel_count() && 0 <= s < old(self).sample_count()
                    ==> final(self).input_at(c, s) == if old(self).io_shared() {
                    final(self).output_at(c, s)
                } else {
                    old(self).input_at(c, s)
                },
    ;
}

/// Writing an output sample and then reading it back through `get_mut` observes the written
/// value, on every layout.
pub proof fn lemma_set_then_get_mut<B: AudioBuffer>(
    before: &B,
    after_set: &B,
    channel: int,
    sample: int,
    value: B::SampleType,
)
    requires
        before.wf(),
        in_bounds(before, channel, sample),
        output_written(before, after_set, channel, sample, value),
    ensures
        after_set.wf(),
        in_bounds(after_set, channel, sample),
        after_set.output_at(channel, sample) == value,
{
}

/// Distinct `(channel, sample)` pairs have distinct interleaved positions.
proof fn lemma_interleaved_index_injective(n: int, c1: int, s1: int, c2: int, s2: int)
    requires
        0 <= c1 < n,
        0 <= c2 < n,
        0 <= s1,
        0 <= s2,
        s1 * n + c1 == s2 * n + c2,
    ensures
        c1 == c2,
        s1 == s2,
{
    if s1 < s2 {
        assert(s1 * n + n <= s2 * n) by (nonlinear_arith)
            requires
                s1 < s2,
                0 <= n,
        ;
    } else if s2 < s1 {
        assert(s2 * n + n <= s1 * n) by (nonlinear_arith)
            requires
                s2 < s1,
                0 <= n,
        ;
    }
}

/// Positions of in-bounds samples fall inside the interleaved storage.
proof fn lemma_interleaved_index_in_range(n: int, len: int, c: int, s: int)
    requires
        0 <= c < n,
        0 <= s < len / n,
        0 <= len,
    ensures
        0 <= s * n + c < len,
        s * n + c <= s * n + n,
{
    assert(s * n + n <= (len / n) * n) by (nonlinear_arith)
        requires
            s < len / n,
            0 < n,
    ;
    assert((len / n) * n <= len) by (nonlinear_arith)
        requires
            0 < n,
            0 <= len,
    ;
    assert(0 <= s * n) by (nonlinear_arith)
        requires
            0 <= s,
            0 < n,
    ;
}

/// An interleaved buffer: frames stored one after another, as device callbacks hand them over.
///
/// Sample `s` of channel `c` is at position `s * num_channels + c`.
pub struct InterleavedAudioBuffer<'a, SampleType> {
    num_channels: usize,
    inner: &'a mut [SampleType],
}

impl<'a, SampleType: Copy> InterleavedAudioBuffer<'a, SampleType> {
    /// The interleaved storage.
    pub closed spec fn storage(&self) -> Seq<SampleType> {
        self.inner@
    }

    pub closed spec fn spec_num_channels(&self) -> nat {
        self.num_channels as nat
    }

    pub fn new(num_channels: usize, inner: &'a mut [SampleType]) -> (r: Self)
        ensures
            r.spec_num_channels() == num_channels,
            r.storage() == old(inner)@,
            num_channels > 0 ==> r.wf(),
            num_channels > 0 ==> r.sample_count() == old(inner)@.len() / (num_channels as nat),
    {
        Self { num_channels, inner }
    }

    /// The underlying interleaved samples.
    pub fn inner(&self) -> (r: &[SampleType])
        ensures
            r@ == self.storage(),
    {
        &*self.inner
    }

    /// The underlying interleaved samples, for writing.
    pub fn inner_mut(&mut self) -> (r: &mut [SampleType])
        ensures
            r@ == old(self).storage(),
            final(self).storage() == final(r)@,
            final(self).spec_num_channels() == old(self).spec_num_channels(),
    {
        &mut *self.inner
    }
}

impl<'a, SampleType: Copy> AudioBuffer for InterleavedAudioBuffer<'a, SampleType> {
    type SampleType = SampleType;

    open spec fn wf(&self) -> bool {
        self.spec_num_channels() > 0
    }

    open spec fn channel_count(&self) -> nat {
        self.spec_num_channels()
    }

    open spec fn sample_count(&self) -> nat {
        self.storage().len() / self.spec_num_channels()
    }

    open spec fn input_at(&self, channel: int, sample: int) -> SampleType {
        self.storage()[sample * self.spec_num_channels() + channel]
    }

    open spec fn output_at(&self, channel: int, sample: int) -> SampleType {
        self.storage()[sample * self.spec_num_channels() + channel]
    }

    open spec fn io_shared(&self) -> bool {
        true
    }

    /// The storage keeps its length and channel count, and only position
    /// `sample * num_channels + channel` changes.
    open spec fn stored(&self, after: &Self, channel: int, sample: int, value: SampleType) -> bool {
        &&& after.spec_num_channels() == self.spec_num_channels()
        &&& after.storage() == self.storage().update(
            sample * self.spec_num_channels() + channel,
            value,
        )
    }

    fn num_channels(&self) -> (r: usize) {
        self.num_channels
    }

    fn num_samples(&self) -> (r: usize) {
        self.inner.len() / self.num_channels
    }

    fn get(&self, channel: usize, sample: usize) -> (r: &SampleType) {
        let len = self.inner.len();
        proof {
            lemma_interleaved_index_in_range(
                self.num_channels as int,
                self.inner@.len() as int,
                channel as int,
                sample as int,
            );
        }
        &self.inner[sample * self.num_channels + channel]
    }

    fn get_mut(&mut self, channel: usize, sample: usize) -> (r: &mut SampleType) {
        let n = self.num_channels;
        let len = self.inner.len();
        proof {
            lemma_interleaved_index_in_range(
                n as int,
                self.inner@.len() as int,
                channel as int,
                sample as int,
            );
            assert forall|c: int, s: int|
                0 <= c < n && 0 <= s < self.sample_count() && (c != channel || s != sample)
                    implies #[trigger] self.output_at(c, s) == self.inner@[s * n + c] && s * n + c
                != sample * n + channel && 0 <= s * n + c < len by {
                lemma_interleaved_index_in_range(n as int, self.inner@.len() as int, c, s);
                if s * n + c == sample * n + channel {
                    lemma_interleaved_index_injective(n as int, c, s, channel as int, sample as int);
                }
            }
        }
        &mut self.inner[sample * n + channel]
    }

    fn set(&mut self, channel: usize, sample: usize, value: SampleType) {
        let sample_ref = self.get_mut(channel, sample);
        *sample_ref = value;
    }
}

/// An interleaved buffer whose storage holds `frames` whole frames has exactly `frames` samples
/// per channel.
pub proof fn lemma_interleaved_num_samples<'a, T: Copy>(
    buffer: &InterleavedAudioBuffer<'a, T>,
    frames: nat,
)
    requires
        buffer.wf(),
        buffer.storage().len() == buffer.channel_count() * frames,
    ensures
        buffer.sample_count() == frames,
{
    let n = buffer.spec_num_channels();
    assert((n * frames) / n == frames) by (nonlinear_arith)
        requires
            n > 0,
    ;
}

/// `after` is `before` (one sequence per channel) with sample `sample` of channel `channel`
/// replaced by `value`: same channels, same lengths, every other sample unchanged.
pub open spec fn slot_replaced<T>(
    before: Seq<Seq<T>>,
    after: Seq<Seq<T>>,
    channel: int,
    sample: int,
    value: T,
) -> bool {
    &&& after.len() == before.len()
    &&& forall|c: int| 0 <= c < before.len() ==> (#[trigger] after[c]).len() == before[c].len()
    &&& forall|c: int, s: int|
        0 <= c < before.len() && 0 <= s < before[c].len() ==> #[trigger] after[c][s] == if c
            == channel && s == sample {
            value
        } else {
            before[c][s]
        }
}

/// A planar buffer: one independent slice per channel.
///
/// All channels hold the same number of samples; `num_samples` is the length of channel 0.
pub struct SliceAudioBuffer<'a, SampleType> {
    channels: &'a mut [&'a mut [SampleType]],
}

/// Every channel of `channels` has the length of the first one.
pub open spec fn channels_agree<SampleType>(channels: Seq<Seq<SampleType>>) -> bool {
    forall|c: int| 0 <= c < channels.len() ==> (#[trigger] channels[c]).len() == channels[0].len()
}

impl<'a, SampleType: Copy> SliceAudioBuffer<'a, SampleType> {
    /// The samples of each channel.
    pub closed spec fn channel_data(&self) -> Seq<Seq<SampleType>> {
        Seq::new(self.channels@.len(), |c: int| self.channels@[c]@)
    }

    pub fn new(channels: &'a mut [&'a mut [SampleType]]) -> (r: Self)
        ensures
            r.channel_data() == Seq::new(old(channels)@.len(), |c: int| old(channels)@[c]@),
    {
        Self { channels }
    }
}

impl<'a, SampleType: Copy> AudioBuffer for SliceAudioBuffer<'a, SampleType> {
    type SampleType = SampleType;

    open spec fn wf(&self) -> bool {
        channels_agree(self.channel_data())
    }

    open spec fn channel_count(&self) -> nat {
        self.channel_data().len()
    }

    open spec fn sample_count(&self) -> nat {
        if self.channel_data().len() == 0 {
            0
        } else {
            self.channel_data()[0].len()
        }
    }

    open spec fn input_at(&self, channel: int, sample: int) -> SampleType {
        self.channel_data()[channel][sample]
    }

    open spec fn output_at(&self, channel: int, sample: int) -> SampleType {
        self.channel_data()[channel][sample]
    }

    open spec fn io_shared(&self) -> bool {
        true
    }

    /// Every channel keeps its length and only sample `sample` of channel `channel` changes.
    open spec fn stored(&self, after: &Self, channel: int, sample: int, value: SampleType) -> bool {
        slot_replaced(self.channel_data(), after.channel_data(), channel, sample, value)
    }

    fn num_channels(&self) -> (r: usize) {
        self.channels.len()
    }

    fn num_samples(&self) -> (r: usize) {
        if self.channels.len() == 0 {
            0
        } else {
            self.channels[0].len()
        }
    }

    fn get(&self, channel: usize, sample: usize) -> (r: &SampleType) {
        proof {
            assert forall|c: int| 0 <= c < self.channels@.len() implies (#[trigger] self.channels@[
                c
            ]@).len() == self.channels@[0]@.len() by {
                assert(self.channel_data()[c].len() == self.channel_data()[0].len());
            }
        }
        &self.channels[channel][sample]
    }

    fn get_mut(&mut self, channel: usize, sample: usize) -> (r: &mut SampleType) {
        proof {
            assert forall|c: int| 0 <= c < self.channels@.len() implies (#[trigger] self.channels@[
                c
            ]@).len() == self.channels@[0]@.len() by {
                assert(self.channel_data()[c].len() == self.channel_data()[0].len());
            }
        }
        &mut self.channels[channel][sample]
    }

    fn set(&mut self, channel: usize, sample: usize, value: SampleType) {
        proof {
            assert forall|c: int| 0 <= c < self.channels@.len() implies (#[trigger] self.channels@[
                c
            ]@).len() == self.channels@[0]@.len() by {
                assert(self.channel_data()[c].len() == self.channel_data()[0].len());
            }
        }
        self.channels[channel][sample] = value;
    }
}

/// A host-split buffer: reads come from the host's input slices, writes go to its output slices.
///
/// `get(channel, sample)` and `get_mut(channel, sample)` therefore refer to different samples;
/// this asymmetry is intended. Inputs and outputs have the same channel count and every channel
/// has the same length.
pub struct VSTAudioBuffer<'a, SampleType> {
    inputs: &'a [&'a [SampleType]],
    outputs: &'a mut [&'a mut [SampleType]],
}

impl<'a, SampleType: Copy> VSTAudioBuffer<'a, SampleType> {
    /// The samples of each input channel.
    pub closed spec fn input_data(&self) -> Seq<Seq<SampleType>> {
        Seq::new(self.inputs@.len(), |c: int| self.inputs@[c]@)
    }

    /// The samples of each output channel.
    pub closed spec fn output_data(&self) -> Seq<Seq<SampleType>> {
        Seq::new(self.outputs@.len(), |c: int| self.outputs@[c]@)
    }

    pub fn new(inputs: &'a [&'a [SampleType]], outputs: &'a mut [&'a mut [SampleType]]) -> (r: Self)
        ensures
            r.input_data() == Seq::new(inputs@.len(), |c: int| inputs@[c]@),
            r.output_data() == Seq::new(old(outputs)@.len(), |c: int| old(outputs)@[c]@),
    {
        Self { inputs, outputs }
    }
}

impl<'a, SampleType: Copy> AudioBuffer for VSTAudioBuffer<'a, SampleType> {
    type SampleType = SampleType;

    open spec fn wf(&self) -> bool {
        &&& channels_agree(self.output_data())
        &&& self.input_data().len() == self.output_data().len()
        &&& forall|c: int|
            0 <= c < self.input_data().len() ==> (#[trigger] self.input_data()[c]).len()
                == self.sample_count()
    }

    open spec fn channel_count(&self) -> nat {
        self.output_data().len()
    }

    open spec fn sample_count(&self) -> nat {
        if self.output_data().len() == 0 {
            0
        } else {
            self.output_data()[0].len()
        }
    }

    open spec fn input_at(&self, channel: int, sample: int) -> SampleType {
        self.input_data()[channel][sample]
    }

    open spec fn output_at(&self, channel: int, sample: int) -> SampleType {
        self.output_data()[channel][sample]
    }

    open spec fn io_shared(&self) -> bool {
        false
    }

    /// The inputs are untouched, every output channel keeps its length and only sample
    /// `sample` of output channel `channel` changes.
    open spec fn stored(&self, after: &Self, channel: int, sample: int, value: SampleType) -> bool {
        &&& after.input_data() == self.input_data()
        &&& slot_replaced(self.output_data(), after.output_data(), channel, sample, value)
    }

    fn num_channels(&self) -> (r: usize) {
        self.outputs.len()
    }

    fn num_samples(&self) -> (r: usize) {
        if self.outputs.len() == 0 {
            0
        } else {
            self.outputs[0].len()
        }
    }

    fn get(&self, channel: usize, sample: usize) -> (r: &SampleType) {
        assert(self.input_data()[channel as int].len() == self.sample_count());
        &self.inputs[channel][sample]
    }

    fn get_mut(&mut self, channel: usize, sample: usize) -> (r: &mut SampleType) {
        proof {
            assert forall|c: int| 0 <= c < self.outputs@.len() implies (#[trigger] self.outputs@[
                c
            ]@).len() == self.outputs@[0]@.len() by {
                assert(self.output_data()[c].len() == self.output_data()[0].len());
            }
            assert forall|c: int| 0 <= c < self.inputs@.len() implies (#[trigger] self.inputs@[
                c
            ]@).len() == self.sample_count() by {
                assert(self.input_data()[c].len() == self.sample_count());
            }
        }
        &mut self.outputs[channel][sample]
    }

    fn set(&mut self, channel: usize, sample: usize, value: SampleType) {
        proof {
            assert forall|c: int| 0 <= c < self.outputs@.len() implies (#[trigger] self.outputs@[
                c
            ]@).len() == self.outputs@[0]@.len() by {
                assert(self.output_data()[c].len() == self.output_data()[0].len());
            }
            assert forall|c: int| 0 <= c < self.inputs@.len() implies (#[trigger] self.inputs@[
                c
            ]@).len() == self.sample_count() by {
                assert(self.input_data()[c].len() == self.sample_count());
            }
        }
        self.outputs[channel][sample] = value;
    }
}

/// A read-only walk over the frames of a buffer, in sample order.
pub struct AudioBufferIterator<'a, BufferType> {
    position: usize,
    buffer: &'a BufferType,
}

impl<'a, BufferType> AudioBufferIterator<'a, BufferType> {
    /// The index of the next frame.
    pub closed spec fn position(&self) -> nat {
        self.position as nat
    }

    pub closed spec fn buffer(&self) -> BufferType {
        *self.buffer
    }

    pub fn new(buffer: &'a BufferType) -> (r: Self)
        ensures
            r.position() == 0,
            r.buffer() == *buffer,
    {
        AudioBufferIterator { position: 0, buffer }
    }
}

impl<'a, BufferType: AudioBuffer> AudioBufferIterator<'a, BufferType> {
    /// The next frame, or `None` once all `num_samples` frames have been visited.
    pub fn next(&mut self) -> (r: Option<AudioFrameReference<'a, BufferType>>)
        requires
            old(self).buffer().wf(),
        ensures
            final(self).buffer() == old(self).buffer(),
            old(self).position() < old(self).buffer().sample_count() ==> {
                &&& r is Some
                &&& r->0.sample_index() == old(self).position()
                &&& r->0.buffer() == old(self).buffer()
                &&& final(self).position() == old(self).position() + 1
            },
            old(self).position() >= old(self).buffer().sample_count() ==> {
                &&& r is None
                &&& final(self).position() == old(self).position()
            },
    {
        if self.position >= self.buffer.num_samples() {
            return None;
        }
        let reference = AudioFrameReference::new(self.buffer, self.position);
        self.position += 1;
        Some(reference)
    }
}

/// One frame of a buffer: the sample at one index, across all channels.
pub struct AudioFrameReference<'a, BufferType> {
    sample_index: usize,
    buffer: &'a BufferType,
}

impl<'a, BufferType: AudioBuffer> AudioFrameReference<'a, BufferType> {
    pub closed spec fn sample_index(&self) -> nat {
        self.sample_index as nat
    }

    pub closed spec fn buffer(&self) -> BufferType {
        *self.buffer
    }

    fn new(buffer: &'a BufferType, sample_index: usize) -> (r: Self)
        ensures
            r.sample_index() == sample_index,
            r.buffer() == *buffer,
    {
        AudioFrameReference { sample_index, buffer }
    }

    /// The samples of this frame, one per channel in channel order.
    pub fn iter(&self) -> (r: AudioFrameReferenceIterator<'a, BufferType>)
        ensures
            r.buffer() == self.buffer(),
            r.sample_index() == self.sample_index(),
            r.channel_index() == 0,
    {
        AudioFrameReferenceIterator::new(self.buffer, self.sample_index)
    }
}

/// A walk over the channels of one frame.
pub struct AudioFrameReferenceIterator<'a, BufferType> {
    buffer: &'a BufferType,
    sample_index: usize,
    channel_index: usize,
}

impl<'a, BufferType: AudioBuffer> AudioFrameReferenceIterator<'a, BufferType> {
    pub closed spec fn buffer(&self) -> BufferType {
        *self.buffer
    }

    pub closed spec fn sample_index(&self) -> nat {
        self.sample_index as nat
    }

    /// The index of the next channel.
    pub closed spec fn channel_index(&self) -> nat {
        self.channel_index as nat
    }

    fn new(buffer: &'a BufferType, sample_index: usize) -> (r: Self)
        ensures
            r.buffer() == *buffer,
            r.sample_index() == sample_index,
            r.channel_index() == 0,
    {
        AudioFrameReferenceIterator { buffer, sample_index, channel_index: 0 }
    }

    /// The next channel's input sample, or `None` after the last channel.
    pub fn next(&mut self) -> (r: Option<&'a BufferType::SampleType>)
        requires
            old(self).buffer().wf(),
            old(self).sample_index() < old(self).buffer().sample_count(),
        ensures
            final(self).buffer() == old(self).buffer(),
            final(self).sample_index() == old(self).sample_index(),
            old(self).channel_index() < old(self).buffer().channel_count() ==> {
                &&& r is Some
                &&& *r->0 == old(self).buffer().input_at(
                    old(self).channel_index() as int,
                    old(self).sample_index() as int,
                )
                &&& final(self).channel_index() == old(self).channel_index() + 1
            },
            old(self).channel_index() >= old(self).buffer().channel_count() ==> {
                &&& r is None
                &&& final(self).channel_index() == old(self).channel_index()
            },
    {
        if self.channel_index >= self.buffer.num_channels() {
            None
        } else {
            let r = self.buffer.get(self.channel_index, self.sample_index);
            self.channel_index += 1;
            Some(r)
        }
    }
}

/// The frames of `buffer`, read through the frame iterators: one `Vec` per sample index, each
/// holding that sample of every channel in channel order.
pub fn collect_frames<B: AudioBuffer>(buffer: &B) -> (r: Vec<Vec<B::SampleType>>)
    requires
        buffer.wf(),
    ensures
        r@.len() == buffer.sample_count(),
        forall|i: int| 0 <= i < r@.len() ==> (#[trigger] r@[i])@ == frame_view(buffer, i),
{
    let mut frames: Vec<Vec<B::SampleType>> = Vec::new();
    let mut it = buffer.iter();
    loop
        invariant
            it.buffer() == *buffer,
            buffer.wf(),
            it.position() <= buffer.sample_count(),
            frames@.len() == it.position(),
            forall|i: int| 0 <= i < frames@.len() ==> (#[trigger] frames@[i])@ == frame_view(buffer, i),
        ensures
            frames@.len() == buffer.sample_count(),
            forall|i: int| 0 <= i < frames@.len() ==> (#[trigger] frames@[i])@ == frame_view(buffer, i),
        decreases buffer.sample_count() - it.position(),
    {
        match it.next() {
            Some(frame) => {
                let mut values: Vec<B::SampleType> = Vec::new();
                let mut channels = frame.iter();
                loop
                    invariant
                        channels.buffer() == *buffer,
                        buffer.wf(),
                        channels.sample_index() == frames@.len(),
                        frames@.len() < buffer.sample_count(),
                        channels.channel_index() <= buffer.channel_count(),
                        values@.len() == channels.channel_index(),
                        forall|c: int|
                            0 <= c < values@.len() ==> #[trigger] values@[c] == buffer.input_at(
                                c,
                                frames@.len() as int,
                            ),
                    ensures
                        values@.len() == buffer.channel_count(),
                        forall|c: int|
                            0 <= c < values@.len() ==> #[trigger] values@[c] == buffer.input_at(
                                c,
                                frames@.len() as int,
                            ),
                    decreases buffer.channel_count() - channels.channel_index(),
                {
                    match channels.next() {
                        Some(value) => values.push(*value),
                        None => break,
                    }
                }
                assert(values@ =~= frame_view(buffer, frames@.len() as int));
                frames.push(values);
            },
            None => break,
        }
    }
    frames
}

/// Reads an output sample through `get_mut`, leaving the buffer as it was.
pub fn read_output<B: AudioBuffer>(buffer: &mut B, channel: usize, sample: usize) -> (r:
    B::SampleType)
    requires
        old(buffer).wf(),
        channel < old(buffer).channel_count(),
        sample < old(buffer).sample_count(),
    ensures
        r == old(buffer).output_at(channel as int, sample as int),
        output_written(old(buffer), final(buffer), channel as int, sample as int, r),
{
    let slot = buffer.get_mut(channel, sample);
    *slot
}

} // verus!

//! The processor contract: `prepare` once with the negotiated settings, then `process` once per
//! block; and composition of a processor with a per-frame transform.
use vstd::prelude::*;

use crate::buffer::{AudioBuffer, read_output, same_layout};
use crate::midi::MidiMessage;

verus! {

/// The parameters negotiated with the device or host, handed to a processor by `prepare`.
#[derive(Clone, Copy, Debug, PartialEq, Eq, Structural)]
pub struct AudioProcessorSettings {
    /// Frames per second.
    pub sample_rate: u32,
    pub input_channels: usize,
    pub output_channels: usize,
    /// Frames per block.
    pub block_size: usize,
}

impl AudioProcessorSettings {
    pub fn new(
        sample_rate: u32,
        input_channels: usize,
        output_channels: usize,
        block_size: usize,
    ) -> (r: Self)
        ensures
            r == (AudioProcessorSettings {
                sample_rate,
                input_channels,
                output_channels,
                block_size,
            }),
    {
        AudioProcessorSettings { sample_rate, input_channels, output_channels, block_size }
    }

    pub fn sample_rate(&self) -> (r: u32)
        ensures
            r == self.sample_rate,
    {
        self.sample_rate
    }

    pub fn input_channels(&self) -> (r: usize)
        ensures
            r == self.input_channels,
    {
        self.input_channels
    }

    pub fn output_channels(&self) -> (r: usize)
        ensures
            r == self.output_channels,
    {
        self.output_channels
    }

    pub fn block_size(&self) -> (r: usize)
        ensures
            r == self.block_size,
    {
        self.block_size
    }
}

/// A streaming transform over blocks of samples.
///
/// `prepare` runs before any `process` call, off the real-time thread, and may allocate.
/// `process` runs once per block on the real-time thread and leaves the buffer's shape as it
/// found it.
pub trait AudioProcessor {
    type SampleType: Copy;

    /// The processor's internal invariant, kept by `prepare` and `process`.
    open spec fn wf(&self) -> bool {
        true
    }

    /// The MIDI events this processor has been handed so far, oldest first; processors that
    /// take no MIDI have none.
    open spec fn midi_received(&self) -> Seq<MidiMessage> {
        Seq::empty()
    }

    /// What one call of `process` does: the processor goes from `self` to `after` while the
    /// block's output samples (channel by channel, see `output_matrix`) go from `input` to
    /// `output`. Processors that state nothing allow any effect that keeps the block's shape.
    open spec fn processed(
        &self,
        after: &Self,
        input: Seq<Seq<Self::SampleType>>,
        output: Seq<Seq<Self::SampleType>>,
    ) -> bool {
        true
    }

    fn prepare(&mut self, settings: AudioProcessorSettings)
        requires
            old(self).wf(),
        ensures
            final(self).wf(),
    ;

    fn process<B: AudioBuffer<SampleType = Self::SampleType>>(&mut self, buffer: &mut B)
        requires
            old(self).wf(),
            old(buffer).wf(),
        ensures
            final(self).wf(),
            same_layout(old(buffer), final(buffer)),
            final(self).midi_received() == old(self).midi_received(),
            old(self).processed(
                final(self),
                output_matrix(old(buffer)),
                output_matrix(final(buffer)),
            ),
    ;
}

/// The output samples of `b`, channel by channel.
pub open spec fn output_matrix<B: AudioBuffer>(b: &B) -> Seq<Seq<B::SampleType>> {
    Seq::new(b.channel_count(), |c: int| Seq::new(b.sample_count(), |s: int| b.output_at(c, s)))
}

/// The number of samples per channel of a block given channel by channel.
pub open spec fn matrix_samples<T>(m: Seq<Seq<T>>) -> nat {
    if m.len() == 0 {
        0
    } else {
        m[0].len()
    }
}

/// Frame `sample` of a block given channel by channel.
pub open spec fn matrix_frame<T>(m: Seq<Seq<T>>, sample: int) -> Seq<T> {
    Seq::new(m.len(), |c: int| m[c][sample])
}

/// `ys` holds, for each of the `samples` frames of `before` (given channel by channel), a
/// result that `f` may return for that frame.
pub open spec fn frame_results<T, F: Fn(&[T]) -> Vec<T>>(
    f: F,
    samples: nat,
    before: Seq<Seq<T>>,
    ys: Seq<Seq<T>>,
) -> bool {
    &&& ys.len() == samples
    &&& forall|s: int| 0 <= s < samples ==> matrix_frame_result(f, before, s, #[trigger] ys[s])
}

/// `y` is a value that `f` may return when handed frame `sample` of `m` (given channel by
/// channel).
pub open spec fn matrix_frame_result<T, F: Fn(&[T]) -> Vec<T>>(
    f: F,
    m: Seq<Seq<T>>,
    sample: int,
    y: Seq<T>,
) -> bool {
    exists|x: &[T], r: Vec<T>|
        #![trigger call_ensures(f, (x,), r)]
        x@ == matrix_frame(m, sample) && r@ == y && call_ensures(f, (x,), r)
}

/// `after` is `before` (both channel by channel, `samples` samples per channel) with every
/// frame replaced by a result of `f` on it: where the result is shorter than the frame the
/// remaining channels keep their samples.
pub open spec fn matrix_mapped<T, F: Fn(&[T]) -> Vec<T>>(
    f: F,
    samples: nat,
    before: Seq<Seq<T>>,
    after: Seq<Seq<T>>,
) -> bool {
    &&& after.len() == before.len()
    &&& forall|c: int| 0 <= c < after.len() ==> (#[trigger] after[c]).len() == samples
    &&& exists|ys: Seq<Seq<T>>|
        #![trigger frame_results(f, samples, before, ys)]
        {
            &&& frame_results(f, samples, before, ys)
            &&& forall|c: int, s: int|
                0 <= c < after.len() && 0 <= s < samples ==> #[trigger] after[c][s] == if c
                    < ys[s].len() {
                    ys[s][c]
                } else {
                    before[c][s]
                }
        }
}

/// `frames_mapped` read over the output matrices of the two blocks.
proof fn lemma_frames_mapped_matrix<B: AudioBuffer, F: Fn(&[B::SampleType]) -> Vec<B::SampleType>>(
    f: F,
    before: &B,
    after: &B,
)
    requires
        frames_mapped(f, before, after),
        same_layout(before, after),
    ensures
        matrix_mapped(
            f,
            matrix_samples(output_matrix(before)),
            output_matrix(before),
            output_matrix(after),
        ),
{
    let mb = output_matrix(before);
    let ma = output_matrix(after);
    let n = matrix_samples(mb);
    if before.channel_count() == 0 {
        let ys = Seq::<Seq<B::SampleType>>::empty();
        assert(frame_results(f, n, mb, ys));
    } else {
        let ys = choose|ys: Seq<Seq<B::SampleType>>|
            {
                &&& ys.len() == before.sample_count()
                &&& forall|s: int|
                    0 <= s < ys.len() ==> frame_result(f, before, s, #[trigger] ys[s])
                &&& forall|c: int, s: int|
                    0 <= c < before.channel_count() && 0 <= s < ys.len()
                        ==> #[trigger] after.output_at(c, s) == mapped_sample(before, ys[s], c, s)
            };
        assert(n == before.sample_count());
        assert forall|s: int| 0 <= s < n implies matrix_frame_result(f, mb, s, #[trigger] ys[s]) by {
            assert(frame_result(f, before, s, ys[s]));
            assert(output_frame(before, s) =~= matrix_frame(mb, s));
        }
        assert forall|c: int, s: int|
            0 <= c < ma.len() && 0 <= s < n implies #[trigger] ma[c][s] == if c < ys[s].len() {
                ys[s][c]
            } else {
                mb[c][s]
            } by {
            assert(after.output_at(c, s) == mapped_sample(before, ys[s], c, s));
        }
        assert(frame_results(f, n, mb, ys));
        assert forall|c: int| 0 <= c < ma.len() implies (#[trigger] ma[c]).len() == n by {}
    }
}

/// Output frame `sample` of `b`: one output sample per channel, in channel order.
pub open spec fn output_frame<B: AudioBuffer>(b: &B, sample: int) -> Seq<B::SampleType> {
    Seq::new(b.channel_count(), |c: int| b.output_at(c, sample))
}

/// `y` is a value that `f` may return when handed output frame `sample` of `before`.
pub open spec fn frame_result<B: AudioBuffer, F: Fn(&[B::SampleType]) -> Vec<B::SampleType>>(
    f: F,
    before: &B,
    sample: int,
    y: Seq<B::SampleType>,
) -> bool {
    exists|x: &[B::SampleType], r: Vec<B::SampleType>|
        #![trigger call_ensures(f, (x,), r)]
        x@ == output_frame(before, sample) && r@ == y && call_ensures(f, (x,), r)
}

/// The sample that channel `channel` of frame `sample` holds once the transform's result `y`
/// has been written: `y`'s value where `y` has one, else the sample as it was.
pub open spec fn mapped_sample<B: AudioBuffer>(
    before: &B,
    y: Seq<B::SampleType>,
    channel: int,
    sample: int,
) -> B::SampleType {
    if channel < y.len() {
        y[channel]
    } else {
        before.output_at(channel, sample)
    }
}

/// `after` holds, in every output frame of `before`, the result that `f` gave for that frame
/// (see `mapped_sample`).
pub open spec fn frames_mapped<B: AudioBuffer, F: Fn(&[B::SampleType]) -> Vec<B::SampleType>>(
    f: F,
    before: &B,
    after: &B,
) -> bool {
    exists|ys: Seq<Seq<B::SampleType>>|
        {
            &&& ys.len() == before.sample_count()
            &&& forall|s: int| 0 <= s < ys.len() ==> frame_result(f, before, s, #[trigger] ys[s])
            &&& forall|c: int, s: int|
                0 <= c < before.channel_count() && 0 <= s < ys.len() ==> #[trigger] after.output_at(
                    c,
                    s,
                ) == mapped_sample(before, ys[s], c, s)
        }
}

/// Replaces every output frame of `buffer` by what `f` returns for it, frame by frame in
/// sample order. A result shorter than the frame leaves the remaining channels as they were;
/// values beyond the channel count are ignored.
pub fn map_frames<B: AudioBuffer, F: Fn(&[B::SampleType]) -> Vec<B::SampleType>>(
    buffer: &mut B,
    f: &F,
)
    requires
        old(buffer).wf(),
        forall|x: &[B::SampleType]| #[trigger] f.requires((x,)),
    ensures
        same_layout(old(buffer), final(buffer)),
        frames_mapped(*f, old(buffer), final(buffer)),
{
    let num_channels = buffer.num_channels();
    let num_samples = buffer.num_samples();
    let ghost results: Seq<Seq<B::SampleType>> = Seq::empty();
    let mut s: usize = 0;
    while s < num_samples
        invariant
            buffer.wf(),
            same_layout(old(buffer), buffer),
            num_channels == old(buffer).channel_count(),
            num_samples == old(buffer).sample_count(),
            forall|x: &[B::SampleType]| #[trigger] f.requires((x,)),
            s <= num_samples,
            results.len() == s,
            forall|t: int| 0 <= t < s ==> frame_result(*f, old(buffer), t, #[trigger] results[t]),
            forall|c: int, t: int|
                0 <= c < num_channels && 0 <= t < s ==> #[trigger] buffer.output_at(c, t)
                    == mapped_sample(old(buffer), results[t], c, t),
            forall|c: int, t: int|
                0 <= c < num_channels && s <= t < num_samples ==> #[trigger] buffer.output_at(c, t)
                    == old(buffer).output_at(c, t),
        decreases num_samples - s,
    {
        let mut frame: Vec<B::SampleType> = Vec::new();
        let mut c: usize = 0;
        while c < num_channels
            invariant
                buffer.wf(),
                same_layout(old(buffer), buffer),
                num_channels == old(buffer).channel_count(),
                num_samples == old(buffer).sample_count(),
                s < num_samples,
                c <= num_channels,
                frame@.len() == c,
                forall|d: int| 0 <= d < c ==> #[trigger] frame@[d] == old(buffer).output_at(d, s as int),
                forall|d: int, t: int|
                    0 <= d < num_channels && 0 <= t < s ==> #[trigger] buffer.output_at(d, t)
                        == mapped_sample(old(buffer), results[t], d, t),
                forall|d: int, t: int|
                    0 <= d < num_channels && s <= t < num_samples ==> #[trigger] buffer.output_at(
                        d,
                        t,
                    ) == old(buffer).output_at(d, t),
            decreases num_channels - c,
        {
            let value = read_output(buffer, c, s);
            frame.push(value);
            c += 1;
        }
        let x = frame.as_slice();
        assert(x@ =~= output_frame(old(buffer), s as int));
        let y = f(x);
        proof {
            assert(frame_result(*f, old(buffer), s as int, y@));
        }
        let mut c: usize = 0;
        while c < num_channels
            invariant
                buffer.wf(),
                same_layout(old(buffer), buffer),
                num_channels == old(buffer).channel_count(),
                num_samples == old(buffer).sample_count(),
                s < num_samples,
                c <= num_channels,
                forall|d: int|
                    0 <= d < c ==> #[trigger] buffer.output_at(d, s as int) == mapped_sample(
                        old(buffer),
                        y@,
                        d,
                        s as int,
                    ),
                forall|d: int, t: int|
                    0 <= d < num_channels && 0 <= t < s ==> #[trigger] buffer.output_at(d, t)
                        == mapped_sample(old(buffer), results[t], d, t),
                forall|d: int, t: int|
                    0 <= d < num_channels && (s < t < num_samples || (t == s && c <= d))
                        ==> #[trigger] buffer.output_at(d, t) == old(buffer).output_at(d, t),
            decreases num_channels - c,
        {
            if c < y.len() {
                buffer.set(c, s, y[c]);
            }
            c += 1;
        }
        proof {
            results = results.push(y@);
        }
        s += 1;
    }
    assert(results.len() == old(buffer).sample_count());
}

/// A processor followed by a per-frame transform: each block is first processed by the inner
/// processor, then every output frame is replaced by what the transform returns for it.
pub struct MapProcessor<P: AudioProcessor, F: Fn(&[P::SampleType]) -> Vec<P::SampleType>> {
    processor: P,
    f: F,
}

impl<P: AudioProcessor, F: Fn(&[P::SampleType]) -> Vec<P::SampleType>> MapProcessor<P, F> {
    /// The inner processor.
    pub closed spec fn inner(&self) -> P {
        self.processor
    }

    /// The per-frame transform.
    pub closed spec fn transform(&self) -> F {
        self.f
    }

    /// Processes the block with the inner processor, then maps every output frame of what the
    /// inner processor left: the transform sees the inner processor's output.
    pub fn process_mapped<B: AudioBuffer<SampleType = P::SampleType>>(&mut self, buffer: &mut B)
        requires
            old(self).wf(),
            old(buffer).wf(),
        ensures
            final(self).wf(),
            same_layout(old(buffer), final(buffer)),
            old(self).mapped_process(
                final(self),
                output_matrix(old(buffer)),
                output_matrix(final(buffer)),
            ),
    {
        let ghost inner_before = self.processor;
        self.processor.process(buffer);
        let ghost inner_output = *buffer;
        map_frames(buffer, &self.f);
        proof {
            lemma_frames_mapped_matrix(self.f, &inner_output, buffer);
            let m = output_matrix(&inner_output);
            assert(old(self).inner().processed(&self.inner(), output_matrix(old(buffer)), m));
            assert(matrix_samples(m) == matrix_samples(output_matrix(old(buffer))));
            assert(old(self).transform() == self.transform());
        }
    }

    /// The effect of `process`, over output matrices: the inner processor goes from its state
    /// in `self` to its state in `after` while processing `input` into some block `inner_output`
    /// of the same shape, and `output` is `inner_output` with every frame mapped by the
    /// transform, which is unchanged.
    pub open spec fn mapped_process(
        &self,
        after: &Self,
        input: Seq<Seq<P::SampleType>>,
        output: Seq<Seq<P::SampleType>>,
    ) -> bool {
        &&& after.transform() == self.transform()
        &&& exists|inner_output: Seq<Seq<P::SampleType>>|
            #![trigger self.inner().processed(&after.inner(), input, inner_output)]
            {
                &&& self.inner().processed(&after.inner(), input, inner_output)
                &&& inner_output.len() == input.len()
                &&& matrix_samples(inner_output) == matrix_samples(input)
                &&& matrix_mapped(self.transform(), matrix_samples(input), inner_output, output)
            }
    }
}

impl<P: AudioProcessor, F: Fn(&[P::SampleType]) -> Vec<P::SampleType>> AudioProcessor for MapProcessor<
    P,
    F,
> {
    type SampleType = P::SampleType;

    /// The inner processor keeps its invariant and the transform accepts every frame.
    closed spec fn wf(&self) -> bool {
        &&& self.processor.wf()
        &&& forall|x: &[P::SampleType]| #[trigger] self.f.requires((x,))
    }

    open spec fn processed(
        &self,
        after: &Self,
        input: Seq<Seq<P::SampleType>>,
        output: Seq<Seq<P::SampleType>>,
    ) -> bool {
        self.mapped_process(after, input, output)
    }

    fn prepare(&mut self, settings: AudioProcessorSettings) {
        self.processor.prepare(settings);
    }

    /// Delegates to the inner processor, then maps every output frame (see `map_frames`).
    fn process<B: AudioBuffer<SampleType = Self::SampleType>>(&mut self, buffer: &mut B) {
        self.process_mapped(buffer);
    }
}

/// Composes `processor` with the per-frame transform `f`.
pub fn map_processor<P: AudioProcessor, F: Fn(&[P::SampleType]) -> Vec<P::SampleType>>(
    processor: P,
    f: F,
) -> (r: MapProcessor<P, F>)
    requires
        processor.wf(),
        forall|x: &[P::SampleType]| #[trigger] f.requires((x,)),
    ensures
        r.wf(),
        r.inner() == processor,
        r.transform() == f,
{
    MapProcessor { processor, f }
}

} // verus!

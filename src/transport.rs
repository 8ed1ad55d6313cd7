//! The transport clock: a sample-accurate playhead with an optional tempo, and the snapshots
//! it hands to processors.
//!
//! Positions are kept exactly: in samples as an integer, in beats as the fraction
//! `position_samples * tempo / (60 * sample_rate)`.
use vstd::prelude::*;

verus! {

/// A position in beats, as the exact fraction `numerator / denominator`.
///
/// The denominator is zero while the sample rate is unset; the position then has no value.
#[derive(Clone, Copy, Debug, PartialEq, Eq, Structural)]
pub struct BeatPosition {
    pub numerator: u128,
    pub denominator: u64,
}

impl BeatPosition {
    pub fn numerator(&self) -> (r: u128)
        ensures
            r == self.numerator,
    {
        self.numerator
    }

    pub fn denominator(&self) -> (r: u64)
        ensures
            r == self.denominator,
    {
        self.denominator
    }

    /// The number of whole beats elapsed, or `None` while the sample rate is unset.
    pub fn whole_beats(&self) -> (r: Option<u128>)
        ensures
            self.denominator == 0 ==> r is None,
            self.denominator != 0 ==> r == Some(self.numerator / (self.denominator as u128)),
    {
        if self.denominator == 0 {
            None
        } else {
            Some(self.numerator / (self.denominator as u128))
        }
    }
}

/// The beat position of `position_samples` at `tempo` beats per minute and `sample_rate` frames
/// per second: `position_samples / sample_rate / 60 * tempo`.
pub open spec fn beats_at(position_samples: u64, tempo: u32, sample_rate: u32) -> BeatPosition {
    BeatPosition {
        numerator: (position_samples * tempo) as u128,
        denominator: (60 * sample_rate) as u64,
    }
}

/// A snapshot of the transport: the tempo if known, the position in samples, and the position
/// in beats, present exactly when the tempo is known.
#[derive(Clone, Copy, Debug, PartialEq, Eq, Structural)]
pub struct TimeInfo {
    pub tempo: Option<u32>,
    pub position_samples: u64,
    pub position_beats: Option<BeatPosition>,
}

impl TimeInfo {
    pub fn new(tempo: Option<u32>, position_samples: u64, position_beats: Option<BeatPosition>) -> (r:
        Self)
        ensures
            r == (TimeInfo { tempo, position_samples, position_beats }),
    {
        TimeInfo { tempo, position_samples, position_beats }
    }

    pub fn tempo(&self) -> (r: Option<u32>)
        ensures
            r == self.tempo,
    {
        self.tempo
    }

    pub fn position_samples(&self) -> (r: u64)
        ensures
            r == self.position_samples,
    {
        self.position_samples
    }

    pub fn position_beats(&self) -> (r: Option<BeatPosition>)
        ensures
            r == self.position_beats,
    {
        self.position_beats
    }
}

/// The snapshot that a playhead at `position_samples`, `sample_rate` and `tempo` reports.
pub open spec fn time_info_at(position_samples: u64, sample_rate: u32, tempo: Option<u32>) -> TimeInfo {
    TimeInfo {
        tempo,
        position_samples,
        position_beats: match tempo {
            Some(t) => Some(beats_at(position_samples, t, sample_rate)),
            None => None,
        },
    }
}

/// The mutable transport clock: the current position in samples, the sample rate (zero while
/// unset) and the tempo in beats per minute, if any.
pub struct Playhead {
    position_samples: u64,
    sample_rate: u32,
    tempo: Option<u32>,
}

impl Playhead {
    pub closed spec fn spec_position_samples(&self) -> u64 {
        self.position_samples
    }

    pub closed spec fn spec_sample_rate(&self) -> u32 {
        self.sample_rate
    }

    pub closed spec fn spec_tempo(&self) -> Option<u32> {
        self.tempo
    }

    /// A stopped clock at position zero, with no sample rate and no tempo.
    pub fn new() -> (r: Self)
        ensures
            r.spec_position_samples() == 0,
            r.spec_sample_rate() == 0,
            r.spec_tempo() is None,
    {
        Playhead { position_samples: 0, sample_rate: 0, tempo: None }
    }

    /// Advances the position by `num_samples`.
    pub fn accept_samples(&mut self, num_samples: u32)
        requires
            old(self).spec_position_samples() + num_samples <= u64::MAX,
        ensures
            final(self).spec_position_samples() == old(self).spec_position_samples() + num_samples,
            final(self).spec_sample_rate() == old(self).spec_sample_rate(),
            final(self).spec_tempo() == old(self).spec_tempo(),
    {
        self.position_samples = self.position_samples + num_samples as u64;
    }

    pub fn set_tempo(&mut self, tempo: u32)
        ensures
            final(self).spec_tempo() == Some(tempo),
            final(self).spec_position_samples() == old(self).spec_position_samples(),
            final(self).spec_sample_rate() == old(self).spec_sample_rate(),
    {
        self.tempo = Some(tempo);
    }

    pub fn set_sample_rate(&mut self, sample_rate: u32)
        ensures
            final(self).spec_sample_rate() == sample_rate,
            final(self).spec_position_samples() == old(self).spec_position_samples(),
            final(self).spec_tempo() == old(self).spec_tempo(),
    {
        self.sample_rate = sample_rate;
    }

    pub fn position_samples(&self) -> (r: u64)
        ensures
            r == self.spec_position_samples(),
    {
        self.position_samples
    }

    pub fn sample_rate(&self) -> (r: u32)
        ensures
            r == self.spec_sample_rate(),
    {
        self.sample_rate
    }

    pub fn tempo(&self) -> (r: Option<u32>)
        ensures
            r == self.spec_tempo(),
    {
        self.tempo
    }

    /// The position in beats, present exactly when a tempo is set.
    pub fn position_beats(&self) -> (r: Option<BeatPosition>)
        ensures
            r == time_info_at(
                self.spec_position_samples(),
                self.spec_sample_rate(),
                self.spec_tempo(),
            ).position_beats,
    {
        match self.tempo {
            Some(t) => {
                let p = self.position_samples;
                assert((p as int) * (t as int) <= u64::MAX * u32::MAX) by (nonlinear_arith)
                    requires
                        p <= u64::MAX,
                        t <= u32::MAX,
                ;
                let numerator = (p as u128) * (t as u128);
                let denominator = 60 * (self.sample_rate as u64);
                Some(BeatPosition { numerator, denominator })
            },
            None => None,
        }
    }
}

/// The transport clock of a running engine: a playhead that advances one sample per tick.
pub struct TimeInfoProviderImpl {
    playhead: Playhead,
}

impl TimeInfoProviderImpl {
    /// The playhead that this provider reads.
    pub closed spec fn spec_playhead(&self) -> Playhead {
        self.playhead
    }

    /// The snapshot that `get_time_info` returns.
    pub open spec fn spec_time_info(&self) -> TimeInfo {
        time_info_at(
            self.spec_playhead().spec_position_samples(),
            self.spec_playhead().spec_sample_rate(),
            self.spec_playhead().spec_tempo(),
        )
    }

    /// A provider at position zero, with no sample rate and no tempo.
    pub fn new() -> (r: Self)
        ensures
            r.spec_playhead().spec_position_samples() == 0,
            r.spec_playhead().spec_sample_rate() == 0,
            r.spec_playhead().spec_tempo() is None,
    {
        TimeInfoProviderImpl { playhead: Playhead::new() }
    }

    pub fn playhead(&self) -> (r: &Playhead)
        ensures
            *r == self.spec_playhead(),
    {
        &self.playhead
    }

    pub fn set_tempo(&mut self, tempo: u32)
        ensures
            final(self).spec_playhead().spec_tempo() == Some(tempo),
            final(self).spec_playhead().spec_position_samples() == old(
                self,
            ).spec_playhead().spec_position_samples(),
            final(self).spec_playhead().spec_sample_rate() == old(
                self,
            ).spec_playhead().spec_sample_rate(),
    {
        self.playhead.set_tempo(tempo);
    }

    pub fn set_sample_rate(&mut self, sample_rate: u32)
        ensures
            final(self).spec_playhead().spec_sample_rate() == sample_rate,
            final(self).spec_playhead().spec_position_samples() == old(
                self,
            ).spec_playhead().spec_position_samples(),
            final(self).spec_playhead().spec_tempo() == old(self).spec_playhead().spec_tempo(),
    {
        self.playhead.set_sample_rate(sample_rate);
    }

    /// Advances the clock by one sample.
    pub fn tick(&mut self)
        requires
            old(self).spec_playhead().spec_position_samples() < u64::MAX,
        ensures
            final(self).spec_playhead().spec_position_samples() == old(
                self,
            ).spec_playhead().spec_position_samples() + 1,
            final(self).spec_playhead().spec_sample_rate() == old(
                self,
            ).spec_playhead().spec_sample_rate(),
            final(self).spec_playhead().spec_tempo() == old(self).spec_playhead().spec_tempo(),
    {
        self.playhead.accept_samples(1);
    }

    /// A snapshot of the clock: the position in beats is present exactly when a tempo is set.
    pub fn get_time_info(&self) -> (r: TimeInfo)
        ensures
            r == self.spec_time_info(),
    {
        let tempo = self.playhead.tempo();
        let position_samples = self.playhead.position_samples();
        let position_beats = self.playhead.position_beats();
        TimeInfo { tempo, position_samples, position_beats }
    }

    /// The snapshot for one render call: what the host reports where it reports anything, else
    /// this provider's own clock.
    pub fn get_time_info_with_host(&self, host: Option<TimeInfo>) -> (r: TimeInfo)
        ensures
            host is Some ==> r == host->0,
            host is None ==> r == self.spec_time_info(),
    {
        match host {
            Some(info) => info,
            None => self.get_time_info(),
        }
    }
}

} // verus!

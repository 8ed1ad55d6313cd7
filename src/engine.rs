//! The decisions of the standalone engine runtime.
//!
//! The runtime negotiates device parameters, prepares the processor, sizes the bridge between
//! the capture and render callbacks, starts the streams and stops them again. The device calls,
//! the audio thread and the streams themselves are driven by the caller; this module decides,
//! from the current state and what happened, the next state and what to do.
use vstd::prelude::*;

use crate::processor::AudioProcessorSettings;

verus! {

/// Frames per block requested from the device.
pub const BUFFER_SIZE: usize = 512;

/// The sample rate requested from the device on desktop platforms.
pub const DEFAULT_SAMPLE_RATE: u32 = 44100;

/// The sample rate requested from the device on iOS.
pub const IOS_SAMPLE_RATE: u32 = 48000;

/// The bridge between capture and render holds this many blocks.
pub const BRIDGE_BLOCKS: usize = 10;

/// A stream configuration as the device reports it after negotiation.
#[derive(Clone, Copy, Debug, PartialEq, Eq, Structural)]
pub struct StreamConfig {
    pub channels: u16,
    pub sample_rate: u32,
}

/// Why the engine could not start.
#[derive(Clone, Copy, Debug, PartialEq, Eq, Structural)]
pub enum EngineError {
    /// The host has no default device of the needed direction.
    NoDevice,
    /// The device supports no configuration close to the requested one.
    UnsupportedConfiguration,
    /// The input stream could not be built or started.
    InputStreamError,
    /// The output stream could not be built or started.
    OutputStreamError,
}

/// The sample rate requested from the device.
pub fn requested_sample_rate(on_ios: bool) -> (r: u32)
    ensures
        r == if on_ios {
            IOS_SAMPLE_RATE
        } else {
            DEFAULT_SAMPLE_RATE
        },
{
    if on_ios {
        IOS_SAMPLE_RATE
    } else {
        DEFAULT_SAMPLE_RATE
    }
}

/// The settings handed to the processor: the sample rate and channel counts that the device
/// actually negotiated, with the input channel count defaulting to the output channel count when
/// there is no input stream.
pub fn negotiate_settings(output: StreamConfig, input: Option<StreamConfig>, buffer_size: usize) -> (r:
    AudioProcessorSettings)
    ensures
        r.sample_rate == output.sample_rate,
        r.output_channels == output.channels as usize,
        r.input_channels == match input {
            Some(config) => config.channels as usize,
            None => output.channels as usize,
        },
        r.block_size == buffer_size,
{
    let output_channels = output.channels as usize;
    let input_channels = match input {
        Some(config) => config.channels as usize,
        None => output_channels,
    };
    AudioProcessorSettings::new(output.sample_rate, input_channels, output_channels, buffer_size)
}

/// The number of samples the bridge holds for blocks of `buffer_size` frames, or `None` where
/// that number does not fit in a `usize`.
pub fn bridge_capacity(buffer_size: usize) -> (r: Option<usize>)
    ensures
        buffer_size * BRIDGE_BLOCKS <= usize::MAX ==> r == Some((buffer_size * BRIDGE_BLOCKS) as usize),
        buffer_size * BRIDGE_BLOCKS > usize::MAX ==> r is None,
{
    buffer_size.checked_mul(BRIDGE_BLOCKS)
}

/// The lifecycle of the engine.
#[derive(Clone, Copy, Debug, PartialEq, Eq, Structural)]
pub enum EngineState {
    Idle,
    Negotiating,
    Running,
    Stopped,
    Failed,
}

/// What happened, as reported to the runtime.
#[derive(Clone, Copy, Debug, PartialEq, Eq, Structural)]
pub enum EngineEvent {
    /// The caller asked the engine to start.
    StartRequested,
    /// The devices were negotiated; these are the settings for the processor.
    Negotiated(AudioProcessorSettings),
    /// Negotiation failed.
    NegotiationFailed(EngineError),
    /// Starting a stream failed.
    StreamStartFailed(EngineError),
    /// The caller asked the engine to stop.
    StopRequested,
}

/// What the runtime should do next.
#[derive(Clone, Copy, Debug, PartialEq, Eq, Structural)]
pub enum EngineAction {
    /// Nothing.
    Nothing,
    /// Query the default devices and negotiate their configuration.
    NegotiateDevices,
    /// Prepare the processor with these settings, build a bridge of this many samples, spawn
    /// the audio thread and start the streams.
    StartStreams { settings: AudioProcessorSettings, bridge_capacity: usize },
    /// Report this error to the caller; the engine does not retry.
    ReportError(EngineError),
    /// Wake and join the audio thread, handing the processor back to the caller.
    JoinAudioThread,
}

/// The state that follows `state` on `event`, and the action to take.
pub open spec fn transition(state: EngineState, event: EngineEvent) -> (EngineState, EngineAction) {
    match (state, event) {
        (EngineState::Idle, EngineEvent::StartRequested) => (
            EngineState::Negotiating,
            EngineAction::NegotiateDevices,
        ),
        (EngineState::Negotiating, EngineEvent::Negotiated(settings)) => {
            if settings.block_size * BRIDGE_BLOCKS <= usize::MAX {
                (
                    EngineState::Running,
                    EngineAction::StartStreams {
                        settings,
                        bridge_capacity: (settings.block_size * BRIDGE_BLOCKS) as usize,
                    },
                )
            } else {
                (
                    EngineState::Failed,
                    EngineAction::ReportError(EngineError::UnsupportedConfiguration),
                )
            }
        },
        (EngineState::Negotiating, EngineEvent::NegotiationFailed(error)) => (
            EngineState::Failed,
            EngineAction::ReportError(error),
        ),
        (EngineState::Running, EngineEvent::StreamStartFailed(error)) => (
            EngineState::Failed,
            EngineAction::ReportError(error),
        ),
        (EngineState::Running, EngineEvent::StopRequested) => (
            EngineState::Stopped,
            EngineAction::JoinAudioThread,
        ),
        _ => (state, EngineAction::Nothing),
    }
}

/// The runtime's state machine: `Idle -> Negotiating -> Running -> Stopped`, with `Failed`
/// reachable from `Negotiating` and `Running`.
pub struct EngineLifecycle {
    state: EngineState,
}

impl EngineLifecycle {
    pub closed spec fn spec_state(&self) -> EngineState {
        self.state
    }

    pub fn new() -> (r: Self)
        ensures
            r.spec_state() == EngineState::Idle,
    {
        EngineLifecycle { state: EngineState::Idle }
    }

    pub fn state(&self) -> (r: EngineState)
        ensures
            r == self.spec_state(),
    {
        self.state
    }

    /// Moves to the state that follows `event` and returns the action to take.
    pub fn handle(&mut self, event: EngineEvent) -> (r: EngineAction)
        ensures
            (final(self).spec_state(), r) == transition(old(self).spec_state(), event),
    {
        let (next, action) = match (self.state, event) {
            (EngineState::Idle, EngineEvent::StartRequested) => (
                EngineState::Negotiating,
                EngineAction::NegotiateDevices,
            ),
            (EngineState::Negotiating, EngineEvent::Negotiated(settings)) => {
                match bridge_capacity(settings.block_size) {
                    Some(capacity) => (
                        EngineState::Running,
                        EngineAction::StartStreams { settings, bridge_capacity: capacity },
                    ),
                    None => (
                        EngineState::Failed,
                        EngineAction::ReportError(EngineError::UnsupportedConfiguration),
                    ),
                }
            },
            (EngineState::Negotiating, EngineEvent::NegotiationFailed(error)) => (
                EngineState::Failed,
                EngineAction::ReportError(error),
            ),
            (EngineState::Running, EngineEvent::StreamStartFailed(error)) => (
                EngineState::Failed,
                EngineAction::ReportError(error),
            ),
            (EngineState::Running, EngineEvent::StopRequested) => (
                EngineState::Stopped,
                EngineAction::JoinAudioThread,
            ),
            (state, _) => (state, EngineAction::Nothing),
        };
        self.state = next;
        action
    }
}

/// Stopping is idempotent: a second stop request does nothing, and across any two requests the
/// audio thread is joined (and the processor handed back) exactly once when the engine was
/// running, and never otherwise.
pub proof fn lemma_stop_twice(state: EngineState)
    ensures
        ({
            let (after_first, first) = transition(state, EngineEvent::StopRequested);
            let (after_second, second) = transition(after_first, EngineEvent::StopRequested);
            &&& second == EngineAction::Nothing
            &&& after_second == after_first
            &&& (first == EngineAction::JoinAudioThread) == (state == EngineState::Running)
            &&& first != EngineAction::JoinAudioThread ==> first == EngineAction::Nothing
        }),
{
}

/// The handle through which a caller gets the running processor back.
///
/// `H` is whatever owns the processor while the audio thread runs (the thread's join handle).
pub struct StandaloneHandles<H> {
    handle: Option<H>,
}

impl<H> StandaloneHandles<H> {
    /// The owner of the running processor, until it has been handed back.
    pub closed spec fn spec_handle(&self) -> Option<H> {
        self.handle
    }

    pub fn new(handle: H) -> (r: Self)
        ensures
            r.spec_handle() == Some(handle),
    {
        StandaloneHandles { handle: Some(handle) }
    }

    /// Hands back the owner of the processor on the first call, and nothing on later calls.
    pub fn stop(&mut self) -> (r: Option<H>)
        ensures
            r == old(self).spec_handle(),
            final(self).spec_handle() is None,
    {
        self.handle.take()
    }
}

} // verus!

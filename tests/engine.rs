use audio_processor_core::engine::{
    bridge_capacity, negotiate_settings, requested_sample_rate, EngineAction, EngineError,
    EngineEvent, EngineLifecycle, EngineState, StandaloneHandles, StreamConfig, BUFFER_SIZE,
};
use audio_processor_core::processor::AudioProcessorSettings;

#[test]
fn input_channels_default_to_output_channels() {
    let output = StreamConfig { channels: 2, sample_rate: 48000 };
    let settings = negotiate_settings(output, None, BUFFER_SIZE);
    assert_eq!(settings, AudioProcessorSettings::new(48000, 2, 2, 512));
    let input = StreamConfig { channels: 1, sample_rate: 44100 };
    let settings = negotiate_settings(output, Some(input), BUFFER_SIZE);
    assert_eq!(settings, AudioProcessorSettings::new(48000, 1, 2, 512));
}

#[test]
fn requested_sample_rates() {
    assert_eq!(requested_sample_rate(false), 44100);
    assert_eq!(requested_sample_rate(true), 48000);
}

#[test]
fn bridge_capacity_overflow_is_none() {
    assert_eq!(bridge_capacity(512), Some(5120));
    assert_eq!(bridge_capacity(usize::MAX / 5), None);
    assert_eq!(bridge_capacity(0), Some(0));
}

#[test]
fn lifecycle_runs_and_stops() {
    let mut engine = EngineLifecycle::new();
    assert_eq!(engine.state(), EngineState::Idle);
    assert_eq!(engine.handle(EngineEvent::StartRequested), EngineAction::NegotiateDevices);
    assert_eq!(engine.state(), EngineState::Negotiating);
    let settings = AudioProcessorSettings::new(44100, 2, 2, 512);
    assert_eq!(
        engine.handle(EngineEvent::Negotiated(settings)),
        EngineAction::StartStreams { settings, bridge_capacity: 5120 }
    );
    assert_eq!(engine.state(), EngineState::Running);
    assert_eq!(engine.handle(EngineEvent::StopRequested), EngineAction::JoinAudioThread);
    assert_eq!(engine.state(), EngineState::Stopped);
    assert_eq!(engine.handle(EngineEvent::StopRequested), EngineAction::Nothing);
    assert_eq!(engine.state(), EngineState::Stopped);
}

#[test]
fn negotiation_failure_is_reported_and_final() {
    let mut engine = EngineLifecycle::new();
    engine.handle(EngineEvent::StartRequested);
    assert_eq!(
        engine.handle(EngineEvent::NegotiationFailed(EngineError::NoDevice)),
        EngineAction::ReportError(EngineError::NoDevice)
    );
    assert_eq!(engine.state(), EngineState::Failed);
    assert_eq!(engine.handle(EngineEvent::StartRequested), EngineAction::Nothing);
    assert_eq!(engine.handle(EngineEvent::StopRequested), EngineAction::Nothing);
    assert_eq!(engine.state(), EngineState::Failed);
}

#[test]
fn stream_start_failure_fails_the_engine() {
    let mut engine = EngineLifecycle::new();
    engine.handle(EngineEvent::StartRequested);
    engine.handle(EngineEvent::Negotiated(AudioProcessorSettings::new(44100, 2, 2, 512)));
    assert_eq!(
        engine.handle(EngineEvent::StreamStartFailed(EngineError::OutputStreamError)),
        EngineAction::ReportError(EngineError::OutputStreamError)
    );
    assert_eq!(engine.state(), EngineState::Failed);
}

#[test]
fn oversized_block_is_an_unsupported_configuration() {
    let mut engine = EngineLifecycle::new();
    engine.handle(EngineEvent::StartRequested);
    let settings = AudioProcessorSettings::new(44100, 2, 2, usize::MAX);
    assert_eq!(
        engine.handle(EngineEvent::Negotiated(settings)),
        EngineAction::ReportError(EngineError::UnsupportedConfiguration)
    );
    assert_eq!(engine.state(), EngineState::Failed);
}

#[test]
fn stop_before_start_does_nothing() {
    let mut engine = EngineLifecycle::new();
    assert_eq!(engine.handle(EngineEvent::StopRequested), EngineAction::Nothing);
    assert_eq!(engine.state(), EngineState::Idle);
}

#[test]
fn handles_return_the_processor_exactly_once() {
    let mut handles = StandaloneHandles::new(String::from("processor"));
    assert_eq!(handles.stop(), Some(String::from("processor")));
    assert_eq!(handles.stop(), None);
    assert_eq!(handles.stop(), None);
}

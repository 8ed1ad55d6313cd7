use audio_processor_core::transport::{BeatPosition, Playhead, TimeInfo, TimeInfoProviderImpl};

fn beats(position: BeatPosition) -> f64 {
    position.numerator() as f64 / position.denominator() as f64
}

#[test]
fn test_time_info_provider_without_tempo_doesnt_move() {
    let mut time_info_provider = TimeInfoProviderImpl::new();
    time_info_provider.set_sample_rate(1000);
    time_info_provider.tick();
    time_info_provider.tick();
    time_info_provider.tick();
    time_info_provider.tick();
    assert!(time_info_provider.get_time_info().position_beats().is_none());
    assert_eq!(time_info_provider.get_time_info().position_samples() as f64, 4.0);
}

#[test]
fn test_time_info_provider_with_tempo_keep_track_of_beats() {
    let mut time_info_provider = TimeInfoProviderImpl::new();
    time_info_provider.set_sample_rate(100);
    time_info_provider.set_tempo(60);

    let time_info = time_info_provider.get_time_info();
    assert!(time_info.position_beats().is_some());
    assert_eq!(time_info.position_beats().map(beats), Some(0.0));
    assert_eq!(time_info.position_samples() as f64, 0.0);

    for _i in 0..100 {
        time_info_provider.tick();
    }
    let time_info = time_info_provider.get_time_info();
    assert!(time_info.position_beats().is_some());
    assert!((beats(time_info.position_beats().unwrap()) - 1.0).abs() < 1e-9);
    assert_eq!(time_info.position_samples() as f64, 100.0);
}

#[test]
fn beats_follow_the_formula() {
    let mut playhead = Playhead::new();
    playhead.set_sample_rate(44100);
    playhead.set_tempo(120);
    playhead.accept_samples(22050);
    let position = playhead.position_beats().unwrap();
    assert_eq!(position.numerator(), 22050 * 120);
    assert_eq!(position.denominator(), 60 * 44100);
    assert_eq!(position.whole_beats(), Some(1));
    assert_eq!(beats(position), 1.0);
}

#[test]
fn beats_without_sample_rate_have_no_value() {
    let mut playhead = Playhead::new();
    playhead.set_tempo(120);
    playhead.accept_samples(10);
    let position = playhead.position_beats().unwrap();
    assert_eq!(position.denominator(), 0);
    assert_eq!(position.whole_beats(), None);
}

#[test]
fn tempo_is_reported_once_set() {
    let mut provider = TimeInfoProviderImpl::new();
    assert_eq!(provider.get_time_info().tempo(), None);
    provider.set_tempo(90);
    assert_eq!(provider.get_time_info().tempo(), Some(90));
    assert_eq!(provider.playhead().tempo(), Some(90));
    assert_eq!(provider.playhead().sample_rate(), 0);
}

#[test]
fn host_time_info_takes_precedence() {
    let mut provider = TimeInfoProviderImpl::new();
    provider.set_sample_rate(100);
    provider.tick();
    let host = TimeInfo::new(Some(140), 5000, None);
    assert_eq!(provider.get_time_info_with_host(Some(host)), host);
    assert_eq!(provider.get_time_info_with_host(None), provider.get_time_info());
    assert_eq!(provider.get_time_info_with_host(None).position_samples(), 1);
}

use audio_processor_core::player::{concat_buffers, AudioFileProcessor};

#[test]
fn concat_joins_each_channel_in_packet_order() {
    let packets = vec![
        vec![vec![1.0f32, 2.0], vec![10.0, 20.0]],
        vec![vec![3.0], vec![30.0]],
        vec![vec![4.0, 5.0, 6.0], vec![40.0, 50.0, 60.0]],
    ];
    let joined = concat_buffers(&packets);
    assert_eq!(joined, vec![vec![1.0, 2.0, 3.0, 4.0, 5.0, 6.0], vec![10.0, 20.0, 30.0, 40.0, 50.0, 60.0]]);
}

#[test]
fn concat_of_no_packets_is_empty() {
    let packets: Vec<Vec<Vec<f32>>> = Vec::new();
    assert!(concat_buffers(&packets).is_empty());
}

#[test]
fn player_loops_over_its_contents() {
    let contents = vec![vec![1.0f32, 2.0, 3.0], vec![-1.0, -2.0, -3.0]];
    let mut player = AudioFileProcessor::new(2, contents);
    let mut block = vec![0.0f32; 8];
    player.process(&mut block);
    assert_eq!(block, vec![1.0, -1.0, 2.0, -2.0, 3.0, -3.0, 1.0, -1.0]);
    assert_eq!(player.audio_file_cursor(), 1);
    player.process(&mut block);
    assert_eq!(block, vec![2.0, -2.0, 3.0, -3.0, 1.0, -1.0, 2.0, -2.0]);
    assert_eq!(player.audio_file_cursor(), 2);
}

#[test]
fn partial_frame_consumes_a_frame() {
    let contents = vec![vec![1.0f32, 2.0], vec![5.0, 6.0]];
    let mut player = AudioFileProcessor::new(2, contents);
    let mut block = vec![0.0f32; 3];
    player.process(&mut block);
    assert_eq!(block, vec![1.0, 5.0, 2.0]);
    assert_eq!(player.audio_file_cursor(), 0);
    assert_eq!(player.num_channels(), 2);
}

use sanzu::sound::{
    append_decoded, collect_encoded, dequeue_to_sink, pack_raw_sound, select_input_config, select_output_config,
    sound_max_len, take_20ms_blocks, BufferingQueue, SampleFormat, SoundConfigRange, MONO_20MS,
};
use std::collections::VecDeque;

#[test]
fn max_buffer_length() {
    assert_eq!(sound_max_len(0), 0);
    assert_eq!(sound_max_len(200), 19200);
    assert_eq!(sound_max_len(1), 96);
}

#[test]
fn queue_drops_the_oldest_chunks() {
    let mut q = BufferingQueue::new();
    q.enqueue(vec![1; 50], 1);
    assert_eq!(q.total(), 50);
    q.enqueue(vec![2; 40], 1);
    // 90 samples, limit 96
    assert_eq!(q.total(), 90);
    q.enqueue(vec![3; 30], 1);
    // 120 > 96: the first chunk goes
    assert_eq!(q.total(), 70);
    let chunks = q.drain();
    assert_eq!(chunks, vec![vec![2; 40], vec![3; 30]]);
    assert_eq!(q.total(), 0);
    assert!(q.drain().is_empty());
}

#[test]
fn oversized_chunk_is_dropped_too() {
    let mut q = BufferingQueue::new();
    q.enqueue(vec![7; 200], 1);
    assert_eq!(q.total(), 0);
    assert!(q.drain().is_empty());
}

#[test]
fn blocks_of_20ms() {
    let mut data: Vec<i16> = (0..(2 * MONO_20MS as i32 + 5)).map(|x| x as i16).collect();
    let blocks = take_20ms_blocks(&mut data);
    assert_eq!(blocks.len(), 2);
    assert_eq!(blocks[0][0], 0);
    assert_eq!(blocks[1][0], MONO_20MS as i16);
    assert_eq!(data.len(), 5);
    assert_eq!(data[0], 2 * MONO_20MS as i16);
    // exactly one block is kept for later
    let mut data = vec![1i16; MONO_20MS];
    assert!(take_20ms_blocks(&mut data).is_empty());
    assert_eq!(data.len(), MONO_20MS);
    let mut data = vec![1i16; 2 * MONO_20MS];
    assert_eq!(take_20ms_blocks(&mut data).len(), 1);
    assert_eq!(data.len(), MONO_20MS);
}

#[test]
fn raw_sound_is_little_endian() {
    assert_eq!(pack_raw_sound(&[1, -2, 0x1234]), vec![1, 0, 0xfe, 0xff, 0x34, 0x12]);
    assert!(pack_raw_sound(&[]).is_empty());
}

#[test]
fn playback_takes_from_the_queue() {
    let mut q: VecDeque<i16> = vec![1, 2, 3, 4].into();
    assert_eq!(dequeue_to_sink(3, &mut q, 150), vec![1, 2, 3]);
    assert_eq!(q, VecDeque::from(vec![4]));
}

#[test]
fn playback_pads_with_silence_and_refills() {
    let mut q: VecDeque<i16> = vec![5].into();
    assert_eq!(dequeue_to_sink(3, &mut q, 150), vec![5, 0, 0]);
    // a quarter of 150 ms (37 ms) of silence at 96 samples per ms
    assert_eq!(q.len(), 37 * 96000 / 1000);
    assert!(q.iter().all(|&s| s == 0));
}

#[test]
fn playback_queue_forgets_the_oldest_samples() {
    let mut q: VecDeque<i16> = vec![1, 2].into();
    append_decoded(&mut q, &[3, 4], 1);
    assert_eq!(q, VecDeque::from(vec![1, 2, 3, 4]));
    let mut q: VecDeque<i16> = (0..90).collect();
    append_decoded(&mut q, &[100; 10], 1);
    // 100 samples, at most 96 kept: the 4 oldest go
    assert_eq!(q.len(), 96);
    assert_eq!(q[0], 4);
    assert_eq!(q[95], 100);
}

fn range(channels: u16, format: SampleFormat, min: u32, max: u32) -> SoundConfigRange {
    SoundConfigRange { channels, sample_format: format, min_sample_rate: min, max_sample_rate: max }
}

#[test]
fn capture_configuration() {
    let configs = [
        range(1, SampleFormat::I16, 8000, 96000),
        range(2, SampleFormat::F32, 8000, 44100),
        range(2, SampleFormat::F32, 8000, 96000),
    ];
    assert_eq!(select_input_config(&configs, 2, SampleFormat::F32, 48000), Some(2));
    assert_eq!(select_input_config(&configs, 2, SampleFormat::F32, 22050), Some(1));
    assert_eq!(select_input_config(&configs, 2, SampleFormat::I16, 48000), None);
    assert_eq!(select_input_config(&configs, 1, SampleFormat::I16, 192000), None);
}

#[test]
fn playback_configuration() {
    let configs = [
        range(1, SampleFormat::I16, 8000, 96000),
        range(2, SampleFormat::F32, 8000, 44100),
        range(2, SampleFormat::F32, 8000, 96000),
    ];
    assert_eq!(select_output_config(&configs, 2, SampleFormat::F32, None), Some((1, 44100)));
    assert_eq!(select_output_config(&configs, 2, SampleFormat::F32, Some(48000)), Some((2, 48000)));
    assert_eq!(select_output_config(&configs, 1, SampleFormat::I16, None), Some((0, 48000)));
    assert_eq!(select_output_config(&configs, 1, SampleFormat::U8, None), None);
    let high = [range(2, SampleFormat::F32, 88200, 96000)];
    assert_eq!(select_output_config(&high, 2, SampleFormat::F32, None), Some((0, 88200)));
}

#[test]
fn encoded_blocks_in_call_order() {
    assert_eq!(
        collect_encoded(vec![Some(vec![1, 2]), None, Some(vec![3])]),
        Some(vec![vec![1, 2], vec![3]])
    );
    assert_eq!(collect_encoded(vec![None, None]), None);
    assert_eq!(collect_encoded(vec![]), None);
}

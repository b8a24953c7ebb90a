use lifelogging::audio::buffer::{capacity_for, AudioBuffer, CircularBuffer};
use std::time::Duration;

fn blend(a: f32, b: f32, k: u32, n: u32) -> f32 {
    let frac = k as f32 / n as f32;
    a * (1.0 - frac) + b * frac
}

#[test]
fn ring_keeps_last_four_of_five() {
    let mut buffer: AudioBuffer<f32> = AudioBuffer::new(4, 4);
    buffer.write(&[1.0, 2.0, 3.0]);
    buffer.write(&[4.0, 5.0]);
    assert_eq!(buffer.read(None), vec![2.0, 3.0, 4.0, 5.0]);
}

#[test]
fn new_buffer_is_silent() {
    let buffer: AudioBuffer<f32> = AudioBuffer::new(3, 8000);
    assert_eq!(buffer.read(None), vec![0.0, 0.0, 0.0]);
    assert_eq!(buffer.capacity(), 3);
    assert_eq!(buffer.sample_rate(), 8000);
    assert_eq!(buffer.get_sample_rate(), 8000);
}

#[test]
fn partly_filled_buffer_keeps_silence_in_front() {
    let mut buffer: AudioBuffer<f32> = AudioBuffer::new(5, 5);
    buffer.write(&[1.0, 2.0]);
    assert_eq!(buffer.read(None), vec![0.0, 0.0, 0.0, 1.0, 2.0]);
}

#[test]
fn block_longer_than_the_ring_leaves_its_tail() {
    let mut buffer: AudioBuffer<f32> = AudioBuffer::new(3, 3);
    buffer.write(&[1.0, 2.0, 3.0, 4.0, 5.0, 6.0, 7.0, 8.0]);
    assert_eq!(buffer.read(None), vec![6.0, 7.0, 8.0]);
    buffer.write(&[9.0]);
    assert_eq!(buffer.read(None), vec![7.0, 8.0, 9.0]);
}

#[test]
fn ring_holds_the_latest_however_the_samples_are_cut() {
    let samples: Vec<f32> = (0..37).map(|i| i as f32).collect();
    for cut in 1..12 {
        let mut buffer: AudioBuffer<f32> = AudioBuffer::new(7, 7);
        for block in samples.chunks(cut) {
            buffer.write(block);
        }
        assert_eq!(buffer.read(None), samples[30..].to_vec());
    }
}

#[test]
fn empty_write_changes_nothing() {
    let mut buffer: AudioBuffer<f32> = AudioBuffer::new(3, 3);
    buffer.write(&[1.0, 2.0]);
    buffer.write(&[]);
    assert_eq!(buffer.read(None), vec![0.0, 1.0, 2.0]);
}

#[test]
fn read_by_duration_rounds_down() {
    let mut buffer: AudioBuffer<f32> = AudioBuffer::new(8, 4);
    buffer.write(&[1.0, 2.0, 3.0, 4.0, 5.0, 6.0, 7.0, 8.0, 9.0]);
    assert_eq!(buffer.read(Some(Duration::from_millis(600))), vec![8.0, 9.0]);
    assert_eq!(buffer.read(Some(Duration::from_secs(1))), vec![6.0, 7.0, 8.0, 9.0]);
    assert_eq!(buffer.read(Some(Duration::from_millis(1999))).len(), 7);
    assert_eq!(buffer.read(Some(Duration::from_secs(2))).len(), 8);
    assert_eq!(buffer.read(Some(Duration::from_secs(100))).len(), 8);
    assert_eq!(buffer.read(Some(Duration::from_millis(0))), Vec::<f32>::new());
    assert_eq!(buffer.read(Some(Duration::MAX)).len(), 8);
}

#[test]
fn read_by_duration_gives_the_most_recent() {
    let mut buffer: AudioBuffer<f32> = AudioBuffer::new(48000, 48000);
    let samples: Vec<f32> = (0..50000).map(|i| i as f32).collect();
    buffer.write(&samples);
    let last = buffer.read(Some(Duration::from_millis(250)));
    assert_eq!(last.len(), 12000);
    assert_eq!(last[0], 38000.0);
    assert_eq!(last[11999], 49999.0);
}

#[test]
fn same_rate_is_a_no_op() {
    let mut buffer: AudioBuffer<f32> = AudioBuffer::new(4, 4);
    buffer.write(&[1.0, 2.0, 3.0]);
    buffer.update_sample_rate(4, blend);
    assert_eq!(buffer.capacity(), 4);
    assert_eq!(buffer.sample_rate(), 4);
    buffer.write(&[4.0, 5.0]);
    assert_eq!(buffer.read(None), vec![2.0, 3.0, 4.0, 5.0]);
}

#[test]
fn doubling_the_rate_doubles_the_capacity() {
    let mut buffer: AudioBuffer<f32> = AudioBuffer::new(4, 4);
    buffer.write(&[1.0, 2.0, 3.0, 4.0]);
    buffer.update_sample_rate(8, blend);
    assert_eq!(buffer.sample_rate(), 8);
    assert_eq!(buffer.capacity(), 8);
    assert_eq!(buffer.read(None), vec![1.0, 1.5, 2.0, 2.5, 3.0, 3.5, 4.0, 4.0]);
    buffer.write(&[9.0]);
    assert_eq!(buffer.read(None), vec![1.5, 2.0, 2.5, 3.0, 3.5, 4.0, 4.0, 9.0]);
}

#[test]
fn halving_the_rate_halves_the_capacity() {
    let mut buffer: AudioBuffer<f32> = AudioBuffer::new(6, 6);
    buffer.write(&[1.0, 2.0, 3.0, 4.0, 5.0, 6.0]);
    buffer.update_sample_rate(3, blend);
    assert_eq!(buffer.capacity(), 3);
    assert_eq!(buffer.read(None), vec![1.0, 3.0, 5.0]);
}

#[test]
fn rate_change_rounds_the_capacity_up() {
    let mut buffer: AudioBuffer<f32> = AudioBuffer::new(10, 44100);
    buffer.update_sample_rate(48000, blend);
    assert_eq!(buffer.capacity(), 11);
    assert_eq!(buffer.sample_rate(), 48000);
    let mut buffer: AudioBuffer<f32> = AudioBuffer::new(441000, 44100);
    buffer.update_sample_rate(48000, blend);
    assert_eq!(buffer.capacity(), 480000);
    buffer.update_sample_rate(44100, blend);
    assert_eq!(buffer.capacity(), 441000);
}

#[test]
fn rate_change_keeps_the_duration() {
    let rates = [8000u32, 11025, 16000, 22050, 44100, 48000, 96000];
    for &from in rates.iter() {
        for &to in rates.iter() {
            let mut buffer: AudioBuffer<f32> = AudioBuffer::new(1234, from);
            buffer.update_sample_rate(to, blend);
            let before = 1234u64 * to as u64;
            let after = buffer.capacity() as u64 * from as u64;
            assert!(before <= after && after < before + from as u64);
            assert_eq!(buffer.sample_rate(), to);
        }
    }
}

#[test]
fn circular_buffer_write_fast_matches_write() {
    let mut a: CircularBuffer<i16> = CircularBuffer::new(5);
    let mut b: CircularBuffer<i16> = CircularBuffer::new(5);
    a.write(&[1, 2, 3]);
    b.write_fast(&[1, 2, 3]);
    a.write(&[4, 5, 6, 7]);
    b.write_fast(&[4, 5, 6, 7]);
    assert_eq!(a.read(5), vec![3, 4, 5, 6, 7]);
    assert_eq!(b.read(5), vec![3, 4, 5, 6, 7]);
    assert_eq!(a.read(2), vec![6, 7]);
    a.write(&[8, 9, 10, 11, 12]);
    b.write_fast(&[8, 9, 10, 11, 12]);
    assert_eq!(a.read(5), b.read(5));
    assert_eq!(b.read(0), Vec::<i16>::new());
}

#[test]
fn circular_buffer_from_samples_and_filled() {
    let mut a: CircularBuffer<u8> = CircularBuffer::from_samples(vec![1, 2, 3]);
    assert_eq!(a.capacity(), 3);
    assert_eq!(a.read(3), vec![1, 2, 3]);
    a.write(&[4]);
    assert_eq!(a.read(3), vec![2, 3, 4]);
    let b: CircularBuffer<u8> = CircularBuffer::filled(2, 7);
    assert_eq!(b.read(2), vec![7, 7]);
}

#[test]
fn update_capacity_grows_and_shrinks() {
    let mut a: CircularBuffer<i32> = CircularBuffer::new(3);
    a.write(&[1, 2, 3, 4]);
    a.update_capacity(5);
    assert_eq!(a.capacity(), 5);
    assert_eq!(a.read(5), vec![0, 0, 2, 3, 4]);
    a.write(&[5]);
    assert_eq!(a.read(5), vec![0, 2, 3, 4, 5]);
    a.update_capacity(2);
    assert_eq!(a.read(2), vec![4, 5]);
    a.write(&[6]);
    assert_eq!(a.read(2), vec![5, 6]);
}

#[test]
fn capacity_for_is_the_product() {
    assert_eq!(capacity_for(3600, 44100), Some(158_760_000));
    assert_eq!(capacity_for(0, 44100), Some(0));
    assert_eq!(capacity_for(u64::MAX, 2), None);
}

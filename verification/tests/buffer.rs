use pngtuber_core::buffer::AudioBuffer;

#[test]
fn fresh_buffer_is_silent() {
    let b = AudioBuffer::new();
    assert_eq!(b.rms(), 0);
    let d = AudioBuffer::default();
    assert_eq!(d.rms(), 0);
}

#[test]
fn rms_exact_after_full_fill() {
    // 4096 samples of 100 units: mean of squares is 10000, rms exactly 100.
    let mut b = AudioBuffer::new();
    let mut k = 0;
    while k < 4096 {
        b.push(100);
        k += 1;
    }
    assert_eq!(b.rms(), 100);
}

#[test]
fn rms_counts_prefill_zeros() {
    // Half filled with 100 units: mean of squares is 5000, rms floor(sqrt) 70.
    let mut b = AudioBuffer::new();
    let mut k = 0;
    while k < 2048 {
        b.push(100);
        k += 1;
    }
    assert_eq!(b.rms(), 70);
}

#[test]
fn chunking_does_not_matter() {
    // Pushing one by one and pushing the same samples in blocks leave the
    // same buffer contents, so the same rms.
    let samples: Vec<i32> = (0..5000).map(|k| (k % 331) - 165).collect();

    let mut one_by_one = AudioBuffer::new();
    for s in &samples {
        one_by_one.push(*s);
    }

    let mut blocks = AudioBuffer::new();
    blocks.push_block(&samples[..1234]);
    blocks.push_block(&samples[1234..1235]);
    blocks.push_block(&samples[1235..]);

    assert_eq!(one_by_one.rms(), blocks.rms());
}

#[test]
fn ring_overwrite_drops_oldest() {
    // After more than 4096 pushes only the most recent 4096 samples count:
    // a full window of 300s overwritten by a full window of 400s reads 400.
    let mut b = AudioBuffer::new();
    let mut k = 0;
    while k < 4096 {
        b.push(300);
        k += 1;
    }
    assert_eq!(b.rms(), 300);
    let block: Vec<i32> = vec![400; 4096];
    b.push_block(&block);
    assert_eq!(b.rms(), 400);
}

#[test]
fn one_excess_sample_has_no_effect() {
    // 4097 pushes: the first sample falls out of the window entirely.
    let mut loud_first = AudioBuffer::new();
    loud_first.push(30000);
    let quiet: Vec<i32> = vec![500; 4096];
    loud_first.push_block(&quiet);
    assert_eq!(loud_first.rms(), 500);
}

#[test]
fn rms_is_idempotent() {
    let mut b = AudioBuffer::new();
    let block: Vec<i32> = (0..4096).map(|k| k % 997).collect();
    b.push_block(&block);
    let first = b.rms();
    let second = b.rms();
    let third = b.rms();
    assert_eq!(first, second);
    assert_eq!(second, third);
}

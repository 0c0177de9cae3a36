use rsfract::buffer::PixelBuffer;
use rsfract::noise::concat_uniform;
use rsfract::noise::fill_noise_rows;
use rsfract::noise::generate_noise;
use rsfract::noise::generate_noise_block_parallel;
use rsfract::noise::generate_noise_element_parallel;
use rsfract::shared::generate_noise_shared_lock;

fn assert_noise_shape(b: &PixelBuffer, rows: usize, cols: usize) {
    assert_eq!(b.rows, rows);
    assert_eq!(b.cols, cols);
    assert_eq!(b.bytes().len(), rows * cols * 3);
}

fn assert_not_constant(b: &PixelBuffer) {
    let bytes = b.bytes();
    let first = bytes[0];
    assert!(bytes.iter().any(|&v| v != first), "buffer is a constant fill");
}

#[test]
fn sequential_shape_and_range() {
    let b = generate_noise(8);
    assert_noise_shape(&b, 8, 8);
    assert!(b.bytes().iter().all(|&v| v < 255));
}

#[test]
fn sequential_size_one() {
    let b = generate_noise(1);
    assert_noise_shape(&b, 1, 1);
}

#[test]
fn sequential_values_vary() {
    let b = generate_noise(10);
    assert_not_constant(&b);
}

#[test]
fn fill_rows_shape() {
    let b = fill_noise_rows(2, 5);
    assert_noise_shape(&b, 2, 5);
    assert!(b.bytes().iter().all(|&v| v < 255));
}

#[test]
fn block_parallel_divisible() {
    let b = generate_noise_block_parallel(8, 4);
    assert_noise_shape(&b, 8, 8);
    assert!(b.bytes().iter().all(|&v| v < 255));
}

#[test]
fn block_parallel_truncates_remainder_rows() {
    // 10 rows over 4 workers: each gets 2, the final 2 rows are never made.
    let b = generate_noise_block_parallel(10, 4);
    assert_eq!(b.rows, 8);
    assert!(b.rows < 10);
    assert_eq!(b.cols, 10);
    assert_eq!(b.bytes().len(), 8 * 10 * 3);
}

#[test]
fn block_parallel_single_worker_keeps_all_rows() {
    let b = generate_noise_block_parallel(5, 1);
    assert_noise_shape(&b, 5, 5);
}

#[test]
fn block_parallel_values_vary() {
    let b = generate_noise_block_parallel(12, 4);
    assert_not_constant(&b);
}

#[test]
fn shared_lock_full_coverage_when_not_divisible() {
    // The strided partition covers every row even when 4 does not divide 6.
    let b = generate_noise_shared_lock(6, 4);
    assert_noise_shape(&b, 6, 6);
}

#[test]
fn shared_lock_values_vary() {
    let b = generate_noise_shared_lock(10, 3);
    assert_not_constant(&b);
}

#[test]
fn element_parallel_shape_and_range() {
    let b = generate_noise_element_parallel(7);
    assert_noise_shape(&b, 7, 7);
    assert!(b.bytes().iter().all(|&v| v < 255));
}

#[test]
fn element_parallel_values_vary() {
    let b = generate_noise_element_parallel(10);
    assert_not_constant(&b);
}

#[test]
fn concat_keeps_worker_order() {
    // Marker fill: two one-row blocks with distinct bytes must come back in
    // worker order, bytes unchanged.
    let first = PixelBuffer { data: vec![1, 2, 3, 4, 5, 6], rows: 1, cols: 2 };
    let second = PixelBuffer { data: vec![10, 11, 12, 13, 14, 15], rows: 1, cols: 2 };
    let joined = concat_uniform(&vec![first, second], 1, 2);
    assert_eq!(joined.rows, 2);
    assert_eq!(joined.cols, 2);
    assert_eq!(joined.bytes(), &vec![1, 2, 3, 4, 5, 6, 10, 11, 12, 13, 14, 15]);
}

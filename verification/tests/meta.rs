use gpu_dispatch::layout::to_word;
use gpu_dispatch::layout::Layout;
use gpu_dispatch::meta::next_divisible_by_n;
use gpu_dispatch::meta::round_to_next_divisible;
use gpu_dispatch::meta::MetaArray;

#[test]
fn next_divisible_rounds_up_to_a_multiple() {
    assert_eq!(next_divisible_by_n(0, 64), 0);
    assert_eq!(next_divisible_by_n(1, 64), 64);
    assert_eq!(next_divisible_by_n(64, 64), 64);
    assert_eq!(next_divisible_by_n(65, 64), 128);
    assert_eq!(next_divisible_by_n(7, 1), 7);
    assert_eq!(next_divisible_by_n(10, 3), 12);
}

#[test]
fn next_divisible_follows_the_truncated_remainder_for_negative_operands() {
    assert_eq!(next_divisible_by_n(-3, 2), 0);
    assert_eq!(next_divisible_by_n(-4, 2), -4);
    assert_eq!(next_divisible_by_n(5, -3), 0);
}

#[test]
fn round_to_next_divisible_rounds_up() {
    assert_eq!(round_to_next_divisible(63, 16), 64);
    assert_eq!(round_to_next_divisible(64, 16), 64);
    assert_eq!(round_to_next_divisible(0, 16), 0);
    assert_eq!(round_to_next_divisible(1, 128), 128);
    assert_eq!(round_to_next_divisible(129, 128), 256);
}

#[test]
fn to_word_keeps_the_low_bits() {
    assert_eq!(to_word(0), 0);
    assert_eq!(to_word(4_294_967_295), 4_294_967_295);
    assert_eq!(to_word(4_294_967_296usize), 0);
    assert_eq!(to_word(4_294_967_299usize), 3);
}

#[test]
fn layout_counts_elements_and_knows_contiguity() {
    let layout = Layout::contiguous(vec![2, 3, 4]);
    assert_eq!(layout.stride, vec![12, 4, 1]);
    assert_eq!(layout.start_offset, 0);
    assert_eq!(layout.elem_count(), 24);
    assert!(layout.is_contiguous());
    let transposed = Layout::new(vec![2, 3], vec![1, 2], 0);
    assert!(!transposed.is_contiguous());
    assert_eq!(transposed.elem_count(), 6);
    let broadcast = Layout::new(vec![1, 5], vec![77, 1], 3);
    assert!(broadcast.is_contiguous());
    let empty = Layout::contiguous(vec![]);
    assert_eq!(empty.elem_count(), 1);
    assert!(empty.is_contiguous());
    let zero = Layout::new(vec![0, 3], vec![3, 1], 0);
    assert_eq!(zero.elem_count(), 0);
    assert!(zero.is_contiguous());
}

#[test]
fn layout_dims_of_fixed_rank() {
    let layout = Layout::contiguous(vec![2, 3, 4]);
    assert_eq!(layout.dims3(), Ok((2, 3, 4)));
    assert_eq!(
        layout.dims4(),
        Err(gpu_dispatch::dtype::WebGpuError::UnexpectedNumberOfDims { expected: 4, got: 3 })
    );
    let four = Layout::contiguous(vec![1, 2, 3, 4]);
    assert_eq!(four.dims4(), Ok((1, 2, 3, 4)));
    assert_eq!(
        four.dims3(),
        Err(gpu_dispatch::dtype::WebGpuError::UnexpectedNumberOfDims { expected: 3, got: 4 })
    );
}

#[test]
fn meta_array_describes_a_contiguous_layout() {
    let mut meta = MetaArray::new(16);
    meta.add(7);
    meta.add_layout(&Layout::new(vec![2, 3], vec![3, 1], 5));
    assert_eq!(meta.0, vec![7, 2, 5, 6, 2, 3, 3, 1]);
}

#[test]
fn meta_array_describes_a_strided_layout() {
    let mut meta = MetaArray::new(0);
    meta.add_layout(&Layout::new(vec![2, 3], vec![1, 2], 0));
    assert_eq!(meta.0, vec![2, 0, 0, 2, 3, 1, 2]);
}

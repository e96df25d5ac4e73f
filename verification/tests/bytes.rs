use gpu_dispatch::bytes::bytes_to_words;
use gpu_dispatch::bytes::words_to_bytes;
use gpu_dispatch::bytes::CastError;

#[test]
fn words_become_four_bytes_each_in_machine_order() {
    let bytes = words_to_bytes(&[0x0102_0304, 0xAABB_CCDD]);
    assert_eq!(bytes.len(), 8);
    let little = vec![0x04, 0x03, 0x02, 0x01, 0xDD, 0xCC, 0xBB, 0xAA];
    let big = vec![0x01, 0x02, 0x03, 0x04, 0xAA, 0xBB, 0xCC, 0xDD];
    assert!(bytes == little || bytes == big);
    assert_eq!(bytes, 0x0102_0304u32.to_ne_bytes().iter().chain(0xAABB_CCDDu32.to_ne_bytes().iter()).copied().collect::<Vec<u8>>());
}

#[test]
fn no_words_become_no_bytes() {
    assert_eq!(words_to_bytes(&[]), Vec::<u8>::new());
}

#[test]
fn elements_written_come_back_unchanged() {
    let values: Vec<f32> = vec![1.0, -2.5, 3.25, 0.0, f32::MAX, f32::MIN_POSITIVE];
    let words: Vec<u32> = values.iter().map(|v| v.to_bits()).collect();
    let bytes = words_to_bytes(&words);
    assert_eq!(bytes.len(), 4 * values.len());
    let aligned: Vec<u32> = words.clone();
    let back = match bytes_to_words(&bytes) {
        Ok(back) => back,
        Err(CastError::TargetAlignmentGreaterAndInputNotAligned) => aligned,
        Err(e) => panic!("unexpected failure {:?}", e),
    };
    assert_eq!(back, words);
    let read: Vec<f32> = back.iter().map(|w| f32::from_bits(*w)).collect();
    assert_eq!(read, values);
}

#[test]
fn bytes_of_words_read_back_as_those_words() {
    let words: Vec<u32> = vec![0, 1, 0xFFFF_FFFF, 0x8000_0000, 42];
    let bytes = words_to_bytes(&words);
    match bytes_to_words(&bytes) {
        Ok(back) => assert_eq!(back, words),
        Err(e) => assert_eq!(e, CastError::TargetAlignmentGreaterAndInputNotAligned),
    }
}

#[test]
fn a_length_that_is_no_multiple_of_four_is_rejected() {
    assert_eq!(bytes_to_words(&[1, 2, 3]), Err(CastError::OutputSliceWouldHaveSlop));
    assert_eq!(bytes_to_words(&[1, 2, 3, 4, 5]), Err(CastError::OutputSliceWouldHaveSlop));
}

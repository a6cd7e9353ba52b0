use convert_tools::convert::{
    check_resize, contains_nan, encoding_outcome, ConvertError, OutputFormat,
};

#[test]
fn encoder_answer_is_passed_on() {
    assert_eq!(encoding_outcome(OutputFormat::Png, Ok(vec![1, 2, 3])), Ok(vec![1, 2, 3]));
    assert_eq!(
        encoding_outcome(OutputFormat::Ico, Err("too large".to_string())),
        Err(ConvertError::Encode { format: OutputFormat::Ico, detail: "too large".to_string() })
    );
}

#[test]
fn resize_needs_pixels_and_room() {
    assert!(check_resize(1, 1, 1, 1));
    assert!(check_resize(4000, 3000, 1920, 1080));
    assert!(!check_resize(0, 5, 10, 10));
    assert!(!check_resize(5, 0, 10, 10));
    assert!(!check_resize(1, 1, u32::MAX, u32::MAX));
    assert!(!check_resize(u32::MAX, 1, 1, u32::MAX));
    let widest = (isize::MAX as u128 / 16) as u128;
    if widest <= u32::MAX as u128 {
        assert!(check_resize(1, 1, widest as u32, 1));
        assert!(!check_resize(1, 1, widest as u32 + 1, 1));
    }
}

#[test]
fn not_a_number_patterns_are_found() {
    assert!(!contains_nan(&vec![]));
    assert!(!contains_nan(&vec![0, 0x3f80_0000, 0x7f80_0000, 0xff80_0000, 0x7f7f_ffff]));
    assert!(contains_nan(&vec![0, 0x7fc0_0000]));
    assert!(contains_nan(&vec![0xffc0_0001, 1]));
    assert!(contains_nan(&vec![1, 2, 0x7f80_0001]));
    for bits in [0u32, 1, 0x3f00_0000, 0x7f80_0000, 0x7f80_0001, 0x7fff_ffff, 0xff80_0000, 0xffff_ffff] {
        assert_eq!(contains_nan(&vec![bits]), f32::from_bits(bits).is_nan());
    }
}

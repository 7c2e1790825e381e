use john_wick_parse::reader::ReaderCursor;
use john_wick_parse::dispatch::align_value;

#[test]
fn reads_little_endian_words() {
    let data = [0x01u8, 0x02, 0x03, 0x04, 0x05];
    let mut r = ReaderCursor::new(&data);
    assert_eq!(r.read_u32(), Some(0x04030201));
    assert_eq!(r.position(), 4);
    assert_eq!(r.read_u32(), None);
    assert_eq!(r.position(), 4);
    assert_eq!(r.read_u8(), Some(5));
}

#[test]
fn align_value_rounds_up_to_sixteen() {
    assert_eq!(align_value(0, 16), 0);
    assert_eq!(align_value(1, 16), 16);
    assert_eq!(align_value(16, 16), 16);
    assert_eq!(align_value(17, 7), 32);
}

use um::errors::VmError;
use um::program::get_program;

#[test]
fn test_get_program() {
    let source: Vec<u8> = vec![0xca, 0xfe, 0xba, 0xbe, 0xde, 0xad, 0xbe, 0xef];
    let expected: Vec<u32> = vec![0xcafebabe, 0xdeadbeef];
    let got = get_program(source).unwrap();
    assert_eq!(expected, got);
}

#[test]
fn image_bytes_pack_big_endian() {
    let source: Vec<u8> = vec![0xde, 0xad, 0xbe, 0xef, 0xba, 0xbe, 0xca, 0xfe];
    let expected: Vec<u32> = vec![0xdeadbeef, 0xbabecafe];
    assert_eq!(get_program(source).unwrap(), expected);
}

#[test]
fn empty_image_gives_empty_program() {
    assert_eq!(get_program(Vec::new()).unwrap(), Vec::<u32>::new());
}

#[test]
fn trailing_bytes_are_malformed() {
    assert_eq!(get_program(vec![1, 2, 3]), Err(VmError::MalformedImage));
    assert_eq!(get_program(vec![1, 2, 3, 4, 5]), Err(VmError::MalformedImage));
}

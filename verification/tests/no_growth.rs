use greeting_buffer::buffer::{SharedBuffer, MEMORY_BUFFER_SIZE, MSG_OFFSET, NAME_OFFSET, SALUT_OFFSET};
use greeting_buffer::no_growth::{get_msg_ptr, get_name_ptr, get_salutation_ptr, set_name};

/// Plays the host: writes both input fields at the addresses handed out.
fn write_inputs(buf: &mut SharedBuffer, salutation: &[u8], name: &[u8]) {
    let sal_at = get_salutation_ptr();
    let name_at = get_name_ptr();
    buf.bytes[sal_at..sal_at + salutation.len()].copy_from_slice(salutation);
    buf.bytes[name_at..name_at + name.len()].copy_from_slice(name);
}

/// Plays the host: reads `len` bytes at the message address.
fn read_message(buf: &SharedBuffer, len: i32) -> Vec<u8> {
    let at = get_msg_ptr();
    buf.bytes[at..at + len as usize].to_vec()
}

#[test]
fn in_place_hello_world() {
    let mut buf = SharedBuffer::new();
    write_inputs(&mut buf, b"Hello", b"World");
    let len = set_name(&mut buf, 5, 5);
    assert_eq!(len, 13);
    let msg = read_message(&buf, len);
    assert_eq!(std::str::from_utf8(&msg).unwrap(), "Hello, World!");
}

#[test]
fn in_place_hi_a() {
    let mut buf = SharedBuffer::new();
    write_inputs(&mut buf, b"Hi", b"A");
    let len = set_name(&mut buf, 2, 1);
    assert_eq!(len, 6);
    assert_eq!(read_message(&buf, len), b"Hi, A!".to_vec());
}

#[test]
fn in_place_empty_salutation() {
    let mut buf = SharedBuffer::new();
    write_inputs(&mut buf, b"", b"Bob");
    let len = set_name(&mut buf, 0, 3);
    assert_eq!(len, 6);
    assert_eq!(read_message(&buf, len), b", Bob!".to_vec());
}

#[test]
fn in_place_empty_name() {
    let mut buf = SharedBuffer::new();
    write_inputs(&mut buf, b"Hey", b"");
    let len = set_name(&mut buf, 3, 0);
    assert_eq!(len, 6);
    assert_eq!(read_message(&buf, len), b"Hey, !".to_vec());
}

#[test]
fn in_place_both_empty() {
    let mut buf = SharedBuffer::new();
    let len = set_name(&mut buf, 0, 0);
    assert_eq!(len, 3);
    assert_eq!(read_message(&buf, len), b", !".to_vec());
}

#[test]
fn in_place_full_fields() {
    let mut buf = SharedBuffer::new();
    write_inputs(&mut buf, b"0123456789abcdef", b"ABCDEFGHIJKLMNOP");
    let len = set_name(&mut buf, 16, 16);
    assert_eq!(len, 35);
    assert_eq!(read_message(&buf, len), b"0123456789abcdef, ABCDEFGHIJKLMNOP!".to_vec());
}

#[test]
fn in_place_reads_only_the_given_lengths() {
    let mut buf = SharedBuffer::new();
    write_inputs(&mut buf, b"Hello there", b"World wide");
    let len = set_name(&mut buf, 5, 5);
    assert_eq!(len, 13);
    assert_eq!(read_message(&buf, len), b"Hello, World!".to_vec());
}

#[test]
fn in_place_multibyte_text() {
    let mut buf = SharedBuffer::new();
    let salutation = "Grüß".as_bytes();
    let name = "Zoë".as_bytes();
    write_inputs(&mut buf, salutation, name);
    let len = set_name(&mut buf, salutation.len() as i32, name.len() as i32);
    assert_eq!(len, 13);
    let msg = read_message(&buf, len);
    assert_eq!(std::str::from_utf8(&msg).unwrap(), "Grüß, Zoë!");
}

#[test]
fn in_place_copies_bytes_that_are_no_text() {
    let mut buf = SharedBuffer::new();
    write_inputs(&mut buf, &[0xff, 0x80], &[0xc0]);
    let len = set_name(&mut buf, 2, 1);
    assert_eq!(len, 6);
    assert_eq!(read_message(&buf, len), vec![0xff, 0x80, 44, 32, 0xc0, 33]);
}

#[test]
fn in_place_leaves_the_rest_untouched() {
    let mut buf = SharedBuffer::new();
    for i in 0..MEMORY_BUFFER_SIZE {
        buf.bytes[i] = 200 + (i % 50) as u8;
    }
    write_inputs(&mut buf, b"Hi", b"A");
    let before = buf.bytes;
    let len = set_name(&mut buf, 2, 1);
    assert_eq!(len, 6);
    assert_eq!(buf.bytes[..MSG_OFFSET], before[..MSG_OFFSET]);
    assert_eq!(buf.bytes[MSG_OFFSET..MSG_OFFSET + 6], *b"Hi, A!");
    assert_eq!(buf.bytes[MSG_OFFSET + 6..], before[MSG_OFFSET + 6..]);
}

#[test]
fn in_place_twice_gives_the_same() {
    let mut buf = SharedBuffer::new();
    write_inputs(&mut buf, b"Hello", b"World");
    let first_len = set_name(&mut buf, 5, 5);
    let first = buf.bytes;
    write_inputs(&mut buf, b"Hello", b"World");
    let second_len = set_name(&mut buf, 5, 5);
    assert_eq!(first_len, second_len);
    assert_eq!(first, buf.bytes);
    assert_eq!(read_message(&buf, second_len), b"Hello, World!".to_vec());
}

#[test]
fn in_place_shorter_greeting_overwrites_only_its_length() {
    let mut buf = SharedBuffer::new();
    write_inputs(&mut buf, b"Hello", b"World");
    assert_eq!(set_name(&mut buf, 5, 5), 13);
    write_inputs(&mut buf, b"Hi", b"A");
    assert_eq!(set_name(&mut buf, 2, 1), 6);
    assert_eq!(buf.bytes[MSG_OFFSET..MSG_OFFSET + 13], *b"Hi, A! World!");
}

#[test]
fn in_place_addresses_are_stable() {
    let salutation = get_salutation_ptr();
    let name = get_name_ptr();
    let msg = get_msg_ptr();
    assert_eq!((salutation, name, msg), (SALUT_OFFSET, NAME_OFFSET, MSG_OFFSET));
    assert_eq!((salutation, name, msg), (0, 16, 32));

    let mut buf = SharedBuffer::new();
    for round in 0..10 {
        write_inputs(&mut buf, b"Hello", b"World");
        assert_eq!(set_name(&mut buf, 5, round % 6), 8 + round % 6);
        assert_eq!(get_salutation_ptr(), salutation);
        assert_eq!(get_name_ptr(), name);
        assert_eq!(get_msg_ptr(), msg);
        assert_eq!(buf.bytes.len(), MEMORY_BUFFER_SIZE);
    }
}

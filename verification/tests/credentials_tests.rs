use eventstore::credentials::Credentials;
use eventstore::external::buffer_new;

#[test]
fn credentials_frame_and_read_back() {
    let c = Credentials::new(b"admin".to_vec(), b"changeit".to_vec());
    assert_eq!(c.network_size(), 15);
    let mut buf = buffer_new();
    buf.extend_from_slice(b"xy");
    c.write_to_bytes_mut(&mut buf);
    let mut expected = b"xy".to_vec();
    expected.push(5);
    expected.extend_from_slice(b"admin");
    expected.push(8);
    expected.extend_from_slice(b"changeit");
    assert_eq!(&buf[..], &expected[..]);

    let mut wire = buf[2..].to_vec();
    wire.extend_from_slice(b"rest");
    let (read, used) = Credentials::parse_from_buf(&wire);
    assert_eq!(read.login, b"admin".to_vec());
    assert_eq!(read.password, b"changeit".to_vec());
    assert_eq!(used, 15);
}

#[test]
fn credentials_short_password_takes_what_is_left() {
    let wire = [2u8, b'a', b'b', 9, b'p', b'w'];
    let (read, used) = Credentials::parse_from_buf(&wire);
    assert_eq!(read.login, b"ab".to_vec());
    assert_eq!(read.password, b"pw".to_vec());
    assert_eq!(used, 6);
}

#[test]
fn credentials_empty_fields() {
    let c = Credentials::new(vec![], vec![]);
    let mut buf = buffer_new();
    c.write_to_bytes_mut(&mut buf);
    assert_eq!(&buf[..], &[0u8, 0u8][..]);
    let (read, used) = Credentials::parse_from_buf(&buf[..]);
    assert!(read.login.is_empty() && read.password.is_empty());
    assert_eq!(used, 2);
}

#[test]
fn credentials_written_into_empty_buffer_read_back() {
    let c = Credentials::new(b"ops".to_vec(), b"s3cret!".to_vec());
    let mut buf = buffer_new();
    c.write_to_bytes_mut(&mut buf);
    let (read, used) = Credentials::parse_from_bytes_mut(&buf);
    assert_eq!(read.login, b"ops".to_vec());
    assert_eq!(read.password, b"s3cret!".to_vec());
    assert_eq!(used, c.network_size());
    assert_eq!(used, buf.len());
}

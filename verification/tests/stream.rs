use binary_rw::{BinaryError, MemoryStream, SeekStream};

#[test]
fn new_stream_is_empty() {
    let mut stream = MemoryStream::new();
    assert_eq!(stream.len(), Ok(0));
    assert_eq!(stream.tell(), Ok(0));
    assert_eq!(stream.get_buffer(), Vec::<u8>::new());
    assert!(stream.is_growable());
}

#[test]
fn owned_stream_holds_its_buffer() {
    let mut stream = MemoryStream::new_owned(vec![1, 2, 3]);
    assert_eq!(stream.len(), Ok(3));
    assert_eq!(stream.tell(), Ok(0));
    assert_eq!(stream.get_buffer(), vec![1, 2, 3]);
    assert_eq!(stream.into_vec(), vec![1, 2, 3]);
}

#[test]
fn seek_then_tell() {
    let mut stream = MemoryStream::new_owned(vec![1, 2, 3]);
    assert_eq!(stream.seek(2), Ok(2));
    assert_eq!(stream.tell(), Ok(2));
    assert_eq!(stream.seek(0), Ok(0));
    assert_eq!(stream.tell(), Ok(0));
}

#[test]
fn seek_past_the_end_is_legal() {
    let mut stream = MemoryStream::new_owned(vec![1, 2, 3]);
    assert_eq!(stream.seek(1000), Ok(1000));
    assert_eq!(stream.tell(), Ok(1000));
    assert_eq!(stream.len(), Ok(3));
    let mut none: [u8; 0] = [];
    assert_eq!(stream.read(&mut none), Err(BinaryError::ReadPastEnd));
    let mut one = [0u8; 1];
    assert_eq!(stream.read(&mut one), Err(BinaryError::ReadPastEnd));
    assert_eq!(stream.tell(), Ok(1000));
}

#[test]
fn len_does_not_depend_on_cursor() {
    let mut stream = MemoryStream::new_owned(vec![9; 7]);
    assert_eq!(stream.len(), Ok(7));
    assert_eq!(stream.seek(5), Ok(5));
    assert_eq!(stream.len(), Ok(7));
}

#[test]
fn read_copies_and_advances() {
    let mut stream = MemoryStream::new_owned(vec![10, 20, 30, 40, 50]);
    let mut two = [0u8; 2];
    assert_eq!(stream.read(&mut two), Ok(2));
    assert_eq!(two, [10, 20]);
    assert_eq!(stream.tell(), Ok(2));
    let mut three = [0u8; 3];
    assert_eq!(stream.read(&mut three), Ok(3));
    assert_eq!(three, [30, 40, 50]);
    assert_eq!(stream.tell(), Ok(5));
    assert_eq!(stream.get_buffer(), vec![10, 20, 30, 40, 50]);
}

#[test]
fn read_past_end_leaves_cursor_and_buffer() {
    let mut stream = MemoryStream::new_owned(vec![10, 20, 30]);
    assert_eq!(stream.seek(1), Ok(1));
    let mut three = [7u8; 3];
    assert_eq!(stream.read(&mut three), Err(BinaryError::ReadPastEnd));
    assert_eq!(three, [7, 7, 7]);
    assert_eq!(stream.tell(), Ok(1));
}

#[test]
fn read_exactly_the_rest_ends_at_end() {
    let mut stream = MemoryStream::new_owned(vec![10, 20, 30]);
    assert_eq!(stream.seek(1), Ok(1));
    let mut two = [0u8; 2];
    assert_eq!(stream.read(&mut two), Ok(2));
    assert_eq!(two, [20, 30]);
    assert_eq!(stream.tell(), Ok(3));
    let mut none: [u8; 0] = [];
    assert_eq!(stream.read(&mut none), Ok(0));
    assert_eq!(stream.tell(), Ok(3));
}

#[test]
fn read_of_huge_count_is_refused() {
    let mut stream = MemoryStream::new_owned(vec![1, 2]);
    assert_eq!(stream.seek(usize::MAX), Ok(usize::MAX));
    let mut two = [0u8; 2];
    assert_eq!(stream.read(&mut two), Err(BinaryError::ReadPastEnd));
    assert_eq!(stream.tell(), Ok(usize::MAX));
}

#[test]
fn owned_write_appends_wherever_the_cursor_is() {
    let mut stream = MemoryStream::new_owned(vec![1, 2, 3]);
    assert_eq!(stream.seek(1), Ok(1));
    assert_eq!(stream.write(&[8, 9]), Ok(2));
    assert_eq!(stream.get_buffer(), vec![1, 2, 3, 8, 9]);
    assert_eq!(stream.tell(), Ok(3));
    assert_eq!(stream.len(), Ok(5));
}

#[test]
fn borrowed_growable_write_reaches_the_owner() {
    let mut buffer = vec![1u8, 2];
    {
        let mut stream = MemoryStream::new_vec(&mut buffer);
        assert!(stream.is_growable());
        assert_eq!(stream.write(&[3, 4, 5]), Ok(3));
        assert_eq!(stream.tell(), Ok(3));
        assert_eq!(stream.get_buffer(), vec![1, 2, 3, 4, 5]);
    }
    assert_eq!(buffer, vec![1, 2, 3, 4, 5]);
}

#[test]
fn fixed_write_overwrites_from_the_start() {
    let mut range = [1u8, 2, 3];
    {
        let mut stream = MemoryStream::new_slice(&mut range);
        assert!(!stream.is_growable());
        assert_eq!(stream.seek(2), Ok(2));
        assert!(stream.can_write(3));
        assert_eq!(stream.write(&[7, 8, 9]), Ok(3));
        assert_eq!(stream.tell(), Ok(5));
        assert_eq!(stream.len(), Ok(3));
        assert_eq!(stream.get_buffer(), vec![7, 8, 9]);
    }
    assert_eq!(range, [7, 8, 9]);
}

#[test]
fn fixed_stream_takes_only_its_own_length() {
    let mut range = [1u8, 2, 3];
    let stream = MemoryStream::new_slice(&mut range);
    assert!(stream.can_write(3));
    assert!(!stream.can_write(2));
    assert!(!stream.can_write(4));
    assert!(!stream.can_write(0));
}

#[test]
fn can_write_guards_the_cursor() {
    let mut stream = MemoryStream::new();
    assert!(stream.can_write(0));
    assert!(stream.can_write(usize::MAX));
    assert_eq!(stream.seek(usize::MAX - 1), Ok(usize::MAX - 1));
    assert!(stream.can_write(1));
    assert!(!stream.can_write(2));
}

#[test]
fn empty_write_changes_nothing_on_growable() {
    let mut stream = MemoryStream::new_owned(vec![1]);
    assert_eq!(stream.write(&[]), Ok(0));
    assert_eq!(stream.get_buffer(), vec![1]);
    assert_eq!(stream.tell(), Ok(0));
}

#[test]
fn into_vec_copies_a_borrowed_buffer() {
    let mut buffer = vec![1u8, 2];
    let copy = {
        let mut stream = MemoryStream::new_vec(&mut buffer);
        assert_eq!(stream.write(&[3]), Ok(1));
        stream.into_vec()
    };
    assert_eq!(copy, vec![1, 2, 3]);
    assert_eq!(buffer, vec![1, 2, 3]);
    let mut range = [5u8, 6];
    let fixed: Vec<u8> = MemoryStream::new_slice(&mut range).into_vec();
    assert_eq!(fixed, vec![5, 6]);
}

#[test]
fn stream_converts_into_vec() {
    let mut stream = MemoryStream::new();
    assert_eq!(stream.write(&[1, 2, 3]), Ok(3));
    let bytes: Vec<u8> = stream.into();
    assert_eq!(bytes, vec![1, 2, 3]);
}

#[test]
fn write_then_read_back() {
    let mut stream = MemoryStream::new_owned(vec![1, 2]);
    assert_eq!(stream.write(&[3, 4, 5]), Ok(3));
    assert_eq!(stream.seek(2), Ok(2));
    let mut three = [0u8; 3];
    assert_eq!(stream.read(&mut three), Ok(3));
    assert_eq!(three, [3, 4, 5]);
    assert_eq!(stream.tell(), stream.len());
}

#[test]
fn errors_compare_by_variant_and_description() {
    assert_eq!(BinaryError::Io(String::from("disk")), BinaryError::Io(String::from("disk")));
    assert_ne!(BinaryError::Io(String::from("disk")), BinaryError::Io(String::from("net")));
    assert_ne!(BinaryError::ReadPastEnd, BinaryError::InvalidChar);
    assert_ne!(BinaryError::InvalidChar, BinaryError::TextEncodingError);
    assert_eq!(format!("{:?}", BinaryError::ReadPastEnd), "ReadPastEnd");
}

use binary_rw::text::decode_text;
use binary_rw::{
    BinaryError, BinaryReader, BinaryWriter, Endian, MemoryStream, PrefixWidth, SeekStream,
};

const ORDERS: [Endian; 2] = [Endian::Little, Endian::Big];

const WIDTHS: [PrefixWidth; 2] = [PrefixWidth::Native, PrefixWidth::Fixed32];

const TEXTS: [&str; 5] = ["", "ab", "hello, world", "héllo wörld", "日本語 😀 €"];

#[test]
fn write_string_fixed32_bytes() {
    let mut buffer: Vec<u8> = Vec::new();
    {
        let mut writer = BinaryWriter::new_vec(&mut buffer, Endian::Little)
            .with_prefix_width(PrefixWidth::Fixed32);
        assert!(writer.can_write_string("ab"));
        assert_eq!(writer.write_string("ab"), Ok(2));
        assert_eq!(writer.stream.tell(), Ok(6));
    }
    assert_eq!(buffer, vec![0x02, 0x00, 0x00, 0x00, b'a', b'b']);
}

#[test]
fn read_string_fixed32_bytes() {
    let mut buffer: Vec<u8> = vec![0x02, 0x00, 0x00, 0x00, b'a', b'b'];
    let mut reader =
        BinaryReader::new_vec(&mut buffer, Endian::Little).with_prefix_width(PrefixWidth::Fixed32);
    assert_eq!(reader.read_string(), Ok(String::from("ab")));
    assert_eq!(reader.stream.tell(), Ok(6));
}

#[test]
fn write_string_fixed32_big_endian_bytes() {
    let mut writer = BinaryWriter::new_stream(MemoryStream::new(), Endian::Big)
        .with_prefix_width(PrefixWidth::Fixed32);
    assert_eq!(writer.write_string("é"), Ok(2));
    assert_eq!(writer.stream.into_vec(), vec![0, 0, 0, 2, 0xc3, 0xa9]);
}

#[test]
fn write_string_native_prefix_is_a_word() {
    let word = std::mem::size_of::<usize>();
    let mut writer = BinaryWriter::new_stream(MemoryStream::new(), Endian::Little);
    assert_eq!(writer.write_string("abc"), Ok(3));
    assert_eq!(writer.stream.tell(), Ok(word + 3));
    let bytes = writer.stream.into_vec();
    assert_eq!(&bytes[..word], &3usize.to_le_bytes()[..]);
    assert_eq!(&bytes[word..], b"abc");
}

#[test]
fn string_round_trip_native() {
    for endian in ORDERS {
        for text in TEXTS {
            let mut writer = BinaryWriter::new_stream(MemoryStream::new(), endian);
            assert!(writer.can_write_string(text));
            assert_eq!(writer.write_string(text), Ok(text.len()));
            let bytes = writer.stream.into_vec();
            let total = bytes.len();
            let mut reader = BinaryReader::new_stream(MemoryStream::new_owned(bytes), endian);
            assert_eq!(reader.read_string(), Ok(String::from(text)));
            assert_eq!(reader.stream.tell(), Ok(total));
        }
    }
}

#[test]
fn string_round_trip_fixed32() {
    for endian in ORDERS {
        for text in TEXTS {
            let mut writer = BinaryWriter::new_stream(MemoryStream::new(), endian)
                .with_prefix_width(PrefixWidth::Fixed32);
            assert_eq!(writer.write_string(text), Ok(text.len()));
            let bytes = writer.stream.into_vec();
            assert_eq!(bytes.len(), 4 + text.len());
            let mut reader = BinaryReader::new_stream(MemoryStream::new_owned(bytes), endian)
                .with_prefix_width(PrefixWidth::Fixed32);
            assert_eq!(reader.read_string(), Ok(String::from(text)));
            assert_eq!(reader.stream.tell(), Ok(4 + text.len()));
        }
    }
}

#[test]
fn strings_follow_one_another() {
    for width in WIDTHS {
        let mut writer =
            BinaryWriter::new_stream(MemoryStream::new(), Endian::Big).with_prefix_width(width);
        assert_eq!(writer.write_string("first"), Ok(5));
        assert_eq!(writer.write_u8(7), Ok(1));
        assert_eq!(writer.write_string(""), Ok(0));
        assert_eq!(writer.write_string("third"), Ok(5));
        let mut reader =
            BinaryReader::new_stream(MemoryStream::new_owned(writer.stream.into_vec()), Endian::Big)
                .with_prefix_width(width);
        assert_eq!(reader.read_string(), Ok(String::from("first")));
        assert_eq!(reader.read_u8(), Ok(7));
        assert_eq!(reader.read_string(), Ok(String::new()));
        assert_eq!(reader.read_string(), Ok(String::from("third")));
        assert_eq!(reader.read_string(), Err(BinaryError::ReadPastEnd));
    }
}

#[test]
fn read_string_missing_prefix_keeps_cursor() {
    let mut buffer: Vec<u8> = vec![2, 0, 0];
    let mut reader =
        BinaryReader::new_vec(&mut buffer, Endian::Little).with_prefix_width(PrefixWidth::Fixed32);
    assert_eq!(reader.read_string(), Err(BinaryError::ReadPastEnd));
    assert_eq!(reader.stream.tell(), Ok(0));
}

#[test]
fn read_string_missing_bytes_stays_behind_prefix() {
    let mut buffer: Vec<u8> = vec![3, 0, 0, 0, b'a', b'b'];
    let mut reader =
        BinaryReader::new_vec(&mut buffer, Endian::Little).with_prefix_width(PrefixWidth::Fixed32);
    assert_eq!(reader.read_string(), Err(BinaryError::ReadPastEnd));
    assert_eq!(reader.stream.tell(), Ok(4));
}

#[test]
fn read_string_huge_length_is_refused() {
    let mut buffer: Vec<u8> = vec![0xff; 12];
    let mut reader = BinaryReader::new_vec(&mut buffer, Endian::Little);
    assert_eq!(reader.read_string(), Err(BinaryError::ReadPastEnd));
    assert_eq!(reader.stream.tell(), Ok(std::mem::size_of::<usize>()));
}

#[test]
fn read_string_invalid_utf8() {
    let mut buffer: Vec<u8> = vec![2, 0, 0, 0, 0xc3, 0x28, 9];
    let mut reader =
        BinaryReader::new_vec(&mut buffer, Endian::Little).with_prefix_width(PrefixWidth::Fixed32);
    assert_eq!(reader.read_string(), Err(BinaryError::TextEncodingError));
    assert_eq!(reader.stream.tell(), Ok(6));
    assert_eq!(reader.read_u8(), Ok(9));
}

#[test]
fn read_string_under_the_other_width_differs() {
    let mut writer = BinaryWriter::new_stream(MemoryStream::new(), Endian::Big);
    assert_eq!(writer.write_string("ab"), Ok(2));
    let mut reader =
        BinaryReader::new_stream(MemoryStream::new_owned(writer.stream.into_vec()), Endian::Big)
            .with_prefix_width(PrefixWidth::Fixed32);
    let word = std::mem::size_of::<usize>();
    if word == 8 {
        assert_eq!(reader.read_string(), Ok(String::new()));
        assert_eq!(reader.stream.tell(), Ok(4));
    } else {
        assert_eq!(reader.read_string(), Ok(String::from("ab")));
    }
}

#[test]
fn read_big_string_with_signed_prefix() {
    for endian in ORDERS {
        for text in TEXTS {
            let mut writer = BinaryWriter::new_stream(MemoryStream::new(), endian);
            assert_eq!(writer.write_i32(text.len() as i32), Ok(4));
            assert_eq!(writer.write_big_string(text.as_bytes(), None), Ok(text.len()));
            let mut reader =
                BinaryReader::new_stream(MemoryStream::new_owned(writer.stream.into_vec()), endian);
            assert_eq!(reader.read_big_string(), Ok(String::from(text)));
            assert_eq!(reader.stream.tell(), Ok(4 + text.len()));
        }
    }
}

#[test]
fn read_big_string_exact_bytes() {
    let mut buffer: Vec<u8> = vec![0, 0, 0, 2, b'o', b'k', b'!'];
    let mut reader = BinaryReader::new_vec(&mut buffer, Endian::Big);
    assert_eq!(reader.read_big_string(), Ok(String::from("ok")));
    assert_eq!(reader.stream.tell(), Ok(6));
}

#[test]
fn read_big_string_negative_prefix() {
    let mut buffer: Vec<u8> = vec![0xff, 0xff, 0xff, 0xff, b'a'];
    let mut reader = BinaryReader::new_vec(&mut buffer, Endian::Little);
    assert_eq!(reader.read_big_string(), Err(BinaryError::ReadPastEnd));
    assert_eq!(reader.stream.tell(), Ok(4));
    let mut lowest: Vec<u8> = vec![0x80, 0, 0, 0, b'a'];
    let mut reader = BinaryReader::new_vec(&mut lowest, Endian::Big);
    assert_eq!(reader.read_big_string(), Err(BinaryError::ReadPastEnd));
    assert_eq!(reader.stream.tell(), Ok(4));
}

#[test]
fn read_big_string_errors() {
    let mut short: Vec<u8> = vec![1, 0, 0];
    let mut reader = BinaryReader::new_vec(&mut short, Endian::Little);
    assert_eq!(reader.read_big_string(), Err(BinaryError::ReadPastEnd));
    assert_eq!(reader.stream.tell(), Ok(0));
    let mut missing: Vec<u8> = vec![2, 0, 0, 0, b'a'];
    let mut reader = BinaryReader::new_vec(&mut missing, Endian::Little);
    assert_eq!(reader.read_big_string(), Err(BinaryError::ReadPastEnd));
    assert_eq!(reader.stream.tell(), Ok(4));
    let mut invalid: Vec<u8> = vec![1, 0, 0, 0, 0xff];
    let mut reader = BinaryReader::new_vec(&mut invalid, Endian::Little);
    assert_eq!(reader.read_big_string(), Err(BinaryError::TextEncodingError));
    assert_eq!(reader.stream.tell(), Ok(5));
}

#[test]
fn decode_text_accepts_utf8_only() {
    assert_eq!(decode_text(vec![]), Ok(String::new()));
    assert_eq!(decode_text(b"plain".to_vec()), Ok(String::from("plain")));
    assert_eq!(decode_text("日本語".as_bytes().to_vec()), Ok(String::from("日本語")));
    assert_eq!(decode_text(vec![0x80]), Err(BinaryError::TextEncodingError));
    assert_eq!(decode_text(vec![0xed, 0xa0, 0x80]), Err(BinaryError::TextEncodingError));
    assert_eq!(decode_text(vec![0xc0, 0x80]), Err(BinaryError::TextEncodingError));
    assert_eq!(decode_text(vec![0xe2, 0x82]), Err(BinaryError::TextEncodingError));
}

#[test]
fn can_write_string_on_fixed_range() {
    let mut range = [0u8; 4];
    let writer = BinaryWriter::new_stream(MemoryStream::new_slice(&mut range), Endian::Little)
        .with_prefix_width(PrefixWidth::Fixed32);
    assert!(writer.can_write_string("abcd"));
    assert!(!writer.can_write_string("abc"));
    assert!(!writer.can_write_string(""));
}

#[test]
fn write_string_on_fixed_range_leaves_the_text() {
    let mut range = [0u8; 4];
    {
        let mut writer =
            BinaryWriter::new_stream(MemoryStream::new_slice(&mut range), Endian::Little)
                .with_prefix_width(PrefixWidth::Fixed32);
        assert_eq!(writer.write_string("abcd"), Ok(4));
        assert_eq!(writer.stream.tell(), Ok(8));
    }
    assert_eq!(&range, b"abcd");
}

#[test]
fn can_write_string_guards_the_cursor() {
    let mut writer = BinaryWriter::new_stream(MemoryStream::new(), Endian::Little)
        .with_prefix_width(PrefixWidth::Fixed32);
    assert_eq!(writer.stream.seek(usize::MAX - 5), Ok(usize::MAX - 5));
    assert!(writer.can_write_string("a"));
    assert!(!writer.can_write_string("ab"));
}

use vtkio::basic::{
    integer, parse_ascii_ints, parse_binary_buffer, parse_data_bit_vec, parse_data_buffer,
    parse_data_buffer_i8, parse_data_buffer_u8, parse_data_vec_i8, parse_data_vec_u8, parse_real,
    parse_real_spans, reinterpret_i8, unsigned, FileType, IResult, Needed,
};
use vtkio::endian::ByteOrder;
use vtkio::model::{DataType, IOBuffer};

fn real_f32(input: &[u8]) -> f32 {
    match parse_real(input) {
        IResult::Done(_, len) => std::str::from_utf8(&input[..len]).unwrap().parse::<f32>().unwrap(),
        other => panic!("no real number in {:?}: {:?}", input, other),
    }
}

fn reals_f32(input: &[u8], n: usize) -> IResult<Vec<f32>> {
    match parse_real_spans(input, n) {
        IResult::Done(p, spans) => IResult::Done(
            p,
            spans
                .iter()
                .map(|&(a, b)| std::str::from_utf8(&input[a..b]).unwrap().parse::<f32>().unwrap())
                .collect(),
        ),
        IResult::Incomplete(x) => IResult::Incomplete(x),
        IResult::Error => IResult::Error,
    }
}

fn reals_f64(input: &[u8], n: usize) -> IResult<Vec<f64>> {
    match parse_real_spans(input, n) {
        IResult::Done(p, spans) => IResult::Done(
            p,
            spans
                .iter()
                .map(|&(a, b)| std::str::from_utf8(&input[a..b]).unwrap().parse::<f64>().unwrap())
                .collect(),
        ),
        IResult::Incomplete(x) => IResult::Incomplete(x),
        IResult::Error => IResult::Error,
    }
}

fn float_bits(v: &[f32]) -> Vec<u32> {
    v.iter().map(|x| x.to_bits()).collect()
}

#[test]
fn can_parse_float() {
    assert_eq!(real_f32(&b"-0.00005"[..]), -0.00005);
    assert_eq!(real_f32(&b"4."[..]), 4.0);
    assert_eq!(real_f32(&b"3"[..]), 3.0);
    assert_eq!(real_f32(&b"-.3"[..]), -0.3);
    assert_eq!(real_f32(&b"3e3"[..]), 3000.0);
    assert_eq!(real_f32(&b"-3.2e2"[..]), -320.0);
}

#[test]
fn can_parse_int() {
    assert_eq!(integer(&b"-1"[..]), IResult::Done(2, -1));
    assert_eq!(integer(&b"1"[..]), IResult::Done(1, 1));
    assert_eq!(integer(&b"43242"[..]), IResult::Done(5, 43242));
    assert_eq!(integer(&b"255"[..]), IResult::Done(3, 255));
    assert_eq!(
        parse_ascii_ints(&b"255"[..], 1, DataType::UnsignedChar),
        IResult::Done(3, IOBuffer::U8(vec![255]))
    );
}

#[test]
fn can_parse_binary_float() {
    match parse_binary_buffer(&[0u8, 0, 0, 0], 1, DataType::Float, ByteOrder::BigEndian) {
        IResult::Done(4, IOBuffer::F32(v)) => assert_eq!(f32::from_bits(v[0]), 0.0_f32),
        other => panic!("{:?}", other),
    }
    match parse_binary_buffer(&[62u8, 32, 0, 0], 1, DataType::Float, ByteOrder::BigEndian) {
        IResult::Done(4, IOBuffer::F32(v)) => assert_eq!(f32::from_bits(v[0]), 0.15625_f32),
        other => panic!("{:?}", other),
    }
}

#[test]
fn data_test() {
    assert_eq!(reals_f32("".as_bytes(), 0), IResult::Done(0, Vec::<f32>::new()));
    assert_eq!(reals_f32("3".as_bytes(), 1), IResult::Done(1, vec![3.0f32]));
    assert_eq!(reals_f32("3 32".as_bytes(), 2), IResult::Done(4, vec![3.0f32, 32.0]));
    assert_eq!(
        reals_f32("3 32 32.0 4e3".as_bytes(), 4),
        IResult::Done(13, vec![3.0f32, 32.0, 32.0, 4.0e3])
    );
    assert_eq!(
        reals_f64("3 32 32.0 4e3".as_bytes(), 4),
        IResult::Done(13, vec![3.0f64, 32.0, 32.0, 4.0e3])
    );
}

#[test]
fn binary_big_endian_float() {
    let r = parse_data_buffer(&[62u8, 32, 0, 0], 1, FileType::Binary, DataType::Float, ByteOrder::BigEndian);
    assert_eq!(r, IResult::Done(4, IOBuffer::F32(float_bits(&[0.15625]))));
}

#[test]
fn binary_signed_byte_reinterprets() {
    assert_eq!(parse_data_vec_i8(&[0xFF], 1, FileType::Binary), IResult::Done(1, vec![-1i8]));
    assert_eq!(
        parse_data_buffer(&[0xFF], 1, FileType::Binary, DataType::Char, ByteOrder::LittleEndian),
        IResult::Done(1, IOBuffer::I8(vec![-1]))
    );
    assert_eq!(parse_data_buffer_i8(&[0x80, 0x7F], 2, FileType::Binary), IResult::Done(2, IOBuffer::I8(vec![-128, 127])));
    assert_eq!(reinterpret_i8(0xFF), -1);
    assert_eq!(reinterpret_i8(0x7F), 127);
}

#[test]
fn binary_multibyte_byte_orders() {
    let bytes = [1u8, 2, 3, 4];
    assert_eq!(
        parse_data_buffer(&bytes, 2, FileType::Binary, DataType::UnsignedShort, ByteOrder::BigEndian),
        IResult::Done(4, IOBuffer::U16(vec![0x0102, 0x0304]))
    );
    assert_eq!(
        parse_data_buffer(&bytes, 2, FileType::Binary, DataType::UnsignedShort, ByteOrder::LittleEndian),
        IResult::Done(4, IOBuffer::U16(vec![0x0201, 0x0403]))
    );
    assert_eq!(
        parse_data_buffer(&[0xFF, 0xFE], 1, FileType::Binary, DataType::Short, ByteOrder::BigEndian),
        IResult::Done(2, IOBuffer::I16(vec![-2]))
    );
    assert_eq!(
        parse_data_buffer(&[0, 0, 0, 0, 0, 0, 0xF0, 0x3F], 1, FileType::Binary, DataType::Double, ByteOrder::LittleEndian),
        IResult::Done(8, IOBuffer::F64(vec![1.0f64.to_bits()]))
    );
}

#[test]
fn binary_needs_more_input() {
    assert_eq!(
        parse_data_buffer(&[1, 2, 3], 1, FileType::Binary, DataType::Int, ByteOrder::BigEndian),
        IResult::Incomplete(Needed::Size(4))
    );
    assert_eq!(
        parse_data_buffer(&[1, 2, 3, 4, 5], 2, FileType::Binary, DataType::Int, ByteOrder::BigEndian),
        IResult::Incomplete(Needed::Size(8))
    );
    assert_eq!(parse_data_vec_u8(&[1, 2], 3, FileType::Binary), IResult::Incomplete(Needed::Size(3)));
}

#[test]
fn binary_consumes_exactly_its_values() {
    assert_eq!(
        parse_data_buffer(&[0, 0, 0, 7, 9, 9], 1, FileType::Binary, DataType::UnsignedInt, ByteOrder::BigEndian),
        IResult::Done(4, IOBuffer::U32(vec![7]))
    );
    assert_eq!(parse_data_vec_u8(&[5, 6, 7], 2, FileType::Binary), IResult::Done(2, vec![5, 6]));
    assert_eq!(parse_data_buffer_u8(&[5, 6, 7], 2, FileType::Binary), IResult::Done(2, IOBuffer::U8(vec![5, 6])));
}

#[test]
fn bit_vector_packs_eight_per_byte() {
    assert_eq!(parse_data_bit_vec(&[0xAA, 0x01, 0x02], 9, FileType::Binary), IResult::Done(2, vec![0xAA, 0x01]));
    assert_eq!(parse_data_bit_vec(&[0xAA, 0x01], 8, FileType::Binary), IResult::Done(1, vec![0xAA]));
    assert_eq!(parse_data_bit_vec(&[0xAA], 9, FileType::Binary), IResult::Incomplete(Needed::Size(2)));
    assert_eq!(parse_data_bit_vec(&b"1 0 1"[..], 3, FileType::ASCII), IResult::Done(5, vec![1, 0, 1]));
}

#[test]
fn ascii_integers_across_lines() {
    assert_eq!(
        parse_data_buffer(&b" -3\n+4\t5 \n"[..], 3, FileType::ASCII, DataType::Int, ByteOrder::BigEndian),
        IResult::Done(10, IOBuffer::I32(vec![-3, 4, 5]))
    );
    assert_eq!(parse_data_vec_u8(&b"0 255"[..], 2, FileType::ASCII), IResult::Done(5, vec![0, 255]));
    assert_eq!(parse_data_vec_i8(&b"-128 127"[..], 2, FileType::ASCII), IResult::Done(8, vec![-128, 127]));
}

#[test]
fn ascii_integer_failures() {
    assert_eq!(parse_ascii_ints(&b"256"[..], 1, DataType::UnsignedChar), IResult::Error);
    assert_eq!(parse_ascii_ints(&b"-1"[..], 1, DataType::UnsignedInt), IResult::Error);
    assert_eq!(parse_ascii_ints(&b"abc"[..], 1, DataType::Int), IResult::Error);
    assert_eq!(parse_ascii_ints(&b"1 2"[..], 3, DataType::Int), IResult::Incomplete(Needed::Unknown));
    assert_eq!(parse_ascii_ints(&b""[..], 1, DataType::Long), IResult::Incomplete(Needed::Unknown));
    assert_eq!(
        parse_ascii_ints(&b"18446744073709551615"[..], 1, DataType::UnsignedLong),
        IResult::Done(20, IOBuffer::U64(vec![u64::MAX]))
    );
    assert_eq!(parse_ascii_ints(&b"18446744073709551616"[..], 1, DataType::UnsignedLong), IResult::Error);
    assert_eq!(
        parse_ascii_ints(&b"-9223372036854775808"[..], 1, DataType::Long),
        IResult::Done(20, IOBuffer::I64(vec![i64::MIN]))
    );
    assert_eq!(parse_ascii_ints(&b"99999999999999999999999999"[..], 1, DataType::Long), IResult::Error);
}

#[test]
fn single_tokens() {
    assert_eq!(unsigned(&b"42 x"[..]), IResult::Done(2, 42));
    assert_eq!(unsigned(&b"+42"[..]), IResult::Error);
    assert_eq!(unsigned(&b""[..]), IResult::Incomplete(Needed::Unknown));
    assert_eq!(integer(&b"+7"[..]), IResult::Done(2, 7));
    assert_eq!(integer(&b"-"[..]), IResult::Incomplete(Needed::Unknown));
    assert_eq!(parse_real(&b"1.5e"[..]), IResult::Done(3, 3));
    assert_eq!(parse_real(&b"2E-3,"[..]), IResult::Done(4, 4));
    assert_eq!(parse_real(&b"."[..]), IResult::Error);
    assert_eq!(parse_real(&b"x"[..]), IResult::Error);
}

#[test]
fn ascii_reals_spans() {
    assert_eq!(parse_real_spans(&b" 1.5\n-2e1 "[..], 2), IResult::Done(10, vec![(1, 4), (5, 9)]));
    assert_eq!(parse_real_spans(&b"1.5 x"[..], 2), IResult::Error);
    assert_eq!(parse_real_spans(&b"1.5 "[..], 2), IResult::Incomplete(Needed::Unknown));
}

use vstd::prelude::*;
use crate::endian::{lemma_pow256_8, pow256, read_word, word_value, ByteOrder};
use crate::model::{DataType, IOBuffer};

verus! {

/// Whether bulk data is stored in binary or as ASCII text.
///
/// A file is ASCII keywords throughout; in binary files the bulk data of a
/// section follows its keyword line directly, right after the newline.
#[derive(Copy, Clone, Debug, PartialEq, Eq, Structural)]
pub enum FileType {
    Binary,
    ASCII,
}

/// How much input a parser still needs.
#[derive(Copy, Clone, Debug, PartialEq, Eq, Structural)]
pub enum Needed {
    /// More input is needed, but not known how much.
    Unknown,
    /// The parser needs this many bytes of input in all, counted from where it
    /// started.
    Size(usize),
}

/// The outcome of a parser.
#[derive(Clone, Debug, PartialEq)]
pub enum IResult<T> {
    /// Success: the number of bytes consumed, and the value.
    Done(usize, T),
    /// The input ended too soon; more may make it succeed.
    Incomplete(Needed),
    /// The input does not match the grammar.
    Error,
}

/// An integer type that the format can store, with its type tag. Real
/// values are carried as their bits (see `IOBuffer`).
pub trait Scalar {
    /// The tag of the type in a file.
    fn data_type() -> DataType;
}

impl Scalar for u8 {
    fn data_type() -> DataType {
        DataType::UnsignedChar
    }
}

impl Scalar for i8 {
    fn data_type() -> DataType {
        DataType::Char
    }
}

impl Scalar for u16 {
    fn data_type() -> DataType {
        DataType::UnsignedShort
    }
}

impl Scalar for i16 {
    fn data_type() -> DataType {
        DataType::Short
    }
}

impl Scalar for u32 {
    fn data_type() -> DataType {
        DataType::UnsignedInt
    }
}

impl Scalar for i32 {
    fn data_type() -> DataType {
        DataType::Int
    }
}

impl Scalar for u64 {
    fn data_type() -> DataType {
        DataType::UnsignedLong
    }
}

impl Scalar for i64 {
    fn data_type() -> DataType {
        DataType::Long
    }
}

/// The signed byte with the same bits as `b` (two's complement): `0xFF` is
/// `-1`.
pub fn reinterpret_i8(b: u8) -> (r: i8)
    ensures
        r as u8 == b,
        r as int == if b < 0x80 { b as int } else { b - 0x100 },
{
    let r = #[verifier::truncate] (b as i8);
    assert(r as u8 == b) by (bit_vector)
        requires
            r == b as i8,
    ;
    assert(b < 0x80 ==> r as int == b as int) by (bit_vector)
        requires
            r == b as i8,
    ;
    assert(b >= 0x80 ==> r as int == b - 0x100) by (bit_vector)
        requires
            r == b as i8,
    ;
    r
}

/// The 16-bit signed value with the same bits as `w`.
fn reinterpret_i16(w: u16) -> (r: i16)
    ensures
        r as u16 == w,
{
    let r = #[verifier::truncate] (w as i16);
    assert(r as u16 == w) by (bit_vector)
        requires
            r == w as i16,
    ;
    r
}

/// The 32-bit signed value with the same bits as `w`.
fn reinterpret_i32(w: u32) -> (r: i32)
    ensures
        r as u32 == w,
{
    let r = #[verifier::truncate] (w as i32);
    assert(r as u32 == w) by (bit_vector)
        requires
            r == w as i32,
    ;
    r
}

/// The 64-bit signed value with the same bits as `w`.
fn reinterpret_i64(w: u64) -> (r: i64)
    ensures
        r as u64 == w,
{
    let r = #[verifier::truncate] (w as i64);
    assert(r as u64 == w) by (bit_vector)
        requires
            r == w as i64,
    ;
    r
}

/// The words that `n` consecutive `k`-byte values at the start of `s` encode.
pub open spec fn words_at(s: Seq<u8>, n: nat, k: nat, bo: ByteOrder) -> Seq<u64> {
    Seq::new(n, |i: int| word_value(s.subrange(i * k, i * k + k), bo) as u64)
}

/// Reads `n` words of `k` bytes from the start of `input`.
fn read_words(input: &[u8], n: usize, k: usize, bo: ByteOrder) -> (r: Vec<u64>)
    requires
        1 <= k <= 8,
        n * k <= input@.len(),
    ensures
        r@ == words_at(input@, n as nat, k as nat, bo),
        forall|j: int| 0 <= j < r@.len() ==> #[trigger] r@[j] < pow256(k as nat),
{
    let len = input.len();
    let mut r: Vec<u64> = Vec::new();
    let mut i: usize = 0;
    while i < n
        invariant
            len == input@.len(),
            1 <= k <= 8,
            n * k <= input@.len(),
            i <= n,
            r@ == words_at(input@, i as nat, k as nat, bo),
            forall|j: int| 0 <= j < r@.len() ==> #[trigger] r@[j] < pow256(k as nat),
        decreases n - i,
    {
        assert(i * k + k <= n * k) by (nonlinear_arith)
            requires
                i < n,
        ;
        let w = read_word(input, i * k, k, bo);
        proof {
            crate::endian::lemma_word_value_bound(input@.subrange(i * k, i * k + k), bo);
        }
        r.push(w);
        assert(r@ =~= words_at(input@, (i + 1) as nat, k as nat, bo));
        i = i + 1;
    }
    r
}

/// The buffer of type `dt` whose words are `ws`.
fn from_words(dt: DataType, ws: &Vec<u64>) -> (r: IOBuffer)
    requires
        dt != DataType::Bit,
        forall|j: int| 0 <= j < ws@.len() ==> #[trigger] ws@[j] < pow256(dt.width_spec()),
    ensures
        r.data_type_spec() == dt,
        r.words() == ws@,
{
    let n = ws.len();
    proof {
        reveal_with_fuel(pow256, 9);
    }
    match dt {
        DataType::Bit => {
            assert(false);
            IOBuffer::U8(Vec::new())
        },
        DataType::UnsignedChar => {
            let mut v: Vec<u8> = Vec::new();
            let mut i: usize = 0;
            while i < n
                invariant
                    n == ws@.len(),
                    i <= n,
                    forall|j: int| 0 <= j < ws@.len() ==> #[trigger] ws@[j] < 0x100,
                    forall|j: int| 0 <= j < i ==> IOBuffer::U8(v).words()[j] == ws@[j],
                    v@.len() == i,
                decreases n - i,
            {
                let w = ws[i];
                assert((w as u8) as u64 == w) by (bit_vector)
                    requires
                        w < 0x100,
                ;
                v.push(w as u8);
                i = i + 1;
            }
            assert(IOBuffer::U8(v).words() =~= ws@);
            IOBuffer::U8(v)
        },
        DataType::Char => {
            let mut v: Vec<i8> = Vec::new();
            let mut i: usize = 0;
            while i < n
                invariant
                    n == ws@.len(),
                    i <= n,
                    forall|j: int| 0 <= j < ws@.len() ==> #[trigger] ws@[j] < 0x100,
                    forall|j: int| 0 <= j < i ==> IOBuffer::I8(v).words()[j] == ws@[j],
                    v@.len() == i,
                decreases n - i,
            {
                let w = ws[i];
            assert((w as u8) as u64 == w) by (bit_vector)
                requires
                    w < 0x100,
            ;
                v.push(reinterpret_i8(w as u8));
                i = i + 1;
            }
            assert(IOBuffer::I8(v).words() =~= ws@);
            IOBuffer::I8(v)
        },
        DataType::UnsignedShort => {
            let mut v: Vec<u16> = Vec::new();
            let mut i: usize = 0;
            while i < n
                invariant
                    n == ws@.len(),
                    i <= n,
                    forall|j: int| 0 <= j < ws@.len() ==> #[trigger] ws@[j] < 0x1_0000,
                    forall|j: int| 0 <= j < i ==> IOBuffer::U16(v).words()[j] == ws@[j],
                    v@.len() == i,
                decreases n - i,
            {
                let w = ws[i];
                assert((w as u16) as u64 == w) by (bit_vector)
                    requires
                        w < 0x1_0000,
                ;
                v.push(w as u16);
                i = i + 1;
            }
            assert(IOBuffer::U16(v).words() =~= ws@);
            IOBuffer::U16(v)
        },
        DataType::Short => {
            let mut v: Vec<i16> = Vec::new();
            let mut i: usize = 0;
            while i < n
                invariant
                    n == ws@.len(),
                    i <= n,
                    forall|j: int| 0 <= j < ws@.len() ==> #[trigger] ws@[j] < 0x1_0000,
                    forall|j: int| 0 <= j < i ==> IOBuffer::I16(v).words()[j] == ws@[j],
                    v@.len() == i,
                decreases n - i,
            {
                let w = ws[i];
            assert((w as u16) as u64 == w) by (bit_vector)
                requires
                    w < 0x1_0000,
            ;
                v.push(reinterpret_i16(w as u16));
                i = i + 1;
            }
            assert(IOBuffer::I16(v).words() =~= ws@);
            IOBuffer::I16(v)
        },
        DataType::UnsignedInt => {
            let mut v: Vec<u32> = Vec::new();
            let mut i: usize = 0;
            while i < n
                invariant
                    n == ws@.len(),
                    i <= n,
                    forall|j: int| 0 <= j < ws@.len() ==> #[trigger] ws@[j] < 0x1_0000_0000,
                    forall|j: int| 0 <= j < i ==> IOBuffer::U32(v).words()[j] == ws@[j],
                    v@.len() == i,
                decreases n - i,
            {
                let w = ws[i];
                assert((w as u32) as u64 == w) by (bit_vector)
                    requires
                        w < 0x1_0000_0000,
                ;
                v.push(w as u32);
                i = i + 1;
            }
            assert(IOBuffer::U32(v).words() =~= ws@);
            IOBuffer::U32(v)
        },
        DataType::Int => {
            let mut v: Vec<i32> = Vec::new();
            let mut i: usize = 0;
            while i < n
                invariant
                    n == ws@.len(),
                    i <= n,
                    forall|j: int| 0 <= j < ws@.len() ==> #[trigger] ws@[j] < 0x1_0000_0000,
                    forall|j: int| 0 <= j < i ==> IOBuffer::I32(v).words()[j] == ws@[j],
                    v@.len() == i,
                decreases n - i,
            {
                let w = ws[i];
            assert((w as u32) as u64 == w) by (bit_vector)
                requires
                    w < 0x1_0000_0000,
            ;
                v.push(reinterpret_i32(w as u32));
                i = i + 1;
            }
            assert(IOBuffer::I32(v).words() =~= ws@);
            IOBuffer::I32(v)
        },
        DataType::UnsignedLong => {
            let mut v: Vec<u64> = Vec::new();
            let mut i: usize = 0;
            while i < n
                invariant
                    n == ws@.len(),
                    i <= n,
                    forall|j: int| 0 <= j < i ==> IOBuffer::U64(v).words()[j] == ws@[j],
                    v@.len() == i,
                decreases n - i,
            {
                let w = ws[i];
                v.push(w);
                i = i + 1;
            }
            assert(IOBuffer::U64(v).words() =~= ws@);
            IOBuffer::U64(v)
        },
        DataType::Long => {
            let mut v: Vec<i64> = Vec::new();
            let mut i: usize = 0;
            while i < n
                invariant
                    n == ws@.len(),
                    i <= n,
                    forall|j: int| 0 <= j < i ==> IOBuffer::I64(v).words()[j] == ws@[j],
                    v@.len() == i,
                decreases n - i,
            {
                let w = ws[i];
            v.push(reinterpret_i64(w));
                i = i + 1;
            }
            assert(IOBuffer::I64(v).words() =~= ws@);
            IOBuffer::I64(v)
        },
        DataType::Float => {
            let mut v: Vec<u32> = Vec::new();
            let mut i: usize = 0;
            while i < n
                invariant
                    n == ws@.len(),
                    i <= n,
                    forall|j: int| 0 <= j < ws@.len() ==> #[trigger] ws@[j] < 0x1_0000_0000,
                    forall|j: int| 0 <= j < i ==> IOBuffer::F32(v).words()[j] == ws@[j],
                    v@.len() == i,
                decreases n - i,
            {
                let w = ws[i];
                assert((w as u32) as u64 == w) by (bit_vector)
                    requires
                        w < 0x1_0000_0000,
                ;
                v.push(w as u32);
                i = i + 1;
            }
            assert(IOBuffer::F32(v).words() =~= ws@);
            IOBuffer::F32(v)
        },
        DataType::Double => {
            let mut v: Vec<u64> = Vec::new();
            let mut i: usize = 0;
            while i < n
                invariant
                    n == ws@.len(),
                    i <= n,
                    forall|j: int| 0 <= j < i ==> IOBuffer::F64(v).words()[j] == ws@[j],
                    v@.len() == i,
                decreases n - i,
            {
                let w = ws[i];
                v.push(w);
                i = i + 1;
            }
            assert(IOBuffer::F64(v).words() =~= ws@);
            IOBuffer::F64(v)
        },
    }
}

/// Decodes `n` values of type `dt` from `input` in the encoding `ft`.
///
/// In binary, the values are `n` consecutive fixed-width values at byte order
/// `bo`, with no padding; when fewer than `n` times the width remain, more
/// input is needed. In ASCII, see `parse_ascii_ints`; real values in ASCII are
/// read with `parse_real_spans`.
pub fn parse_data_buffer(input: &[u8], n: usize, ft: FileType, dt: DataType, bo: ByteOrder) -> (r: IResult<IOBuffer>)
    requires
        dt != DataType::Bit,
        ft == FileType::Binary || (dt != DataType::Float && dt != DataType::Double),
    ensures
        ft == FileType::Binary ==> binary_outcome(r, input@, n as nat, dt, bo),
        ft == FileType::ASCII ==> ascii_outcome(r, input@, n as nat, dt),
{
    match ft {
        FileType::Binary => parse_binary_buffer(input, n, dt, bo),
        FileType::ASCII => parse_ascii_ints(input, n, dt),
    }
}

/// What decoding `n` binary values of type `dt` from `s` gives: the values
/// when `n` times the width of `dt` bytes are there, else a demand for that
/// many bytes.
pub open spec fn binary_outcome(r: IResult<IOBuffer>, s: Seq<u8>, n: nat, dt: DataType, bo: ByteOrder) -> bool {
    let need = n * dt.width_spec();
    if need <= s.len() {
        match r {
            IResult::Done(p, b) => p == need && b.data_type_spec() == dt && b.words() == words_at(s, n, dt.width_spec(), bo),
            _ => false,
        }
    } else {
        r == IResult::<IOBuffer>::Incomplete(if need <= usize::MAX { Needed::Size(need as usize) } else { Needed::Unknown })
    }
}

/// Decodes `n` binary values of type `dt` from `input` at byte order `bo`.
pub fn parse_binary_buffer(input: &[u8], n: usize, dt: DataType, bo: ByteOrder) -> (r: IResult<IOBuffer>)
    requires
        dt != DataType::Bit,
    ensures
        binary_outcome(r, input@, n as nat, dt, bo),
{
    let k = dt.width();
    let len = input.len();
    match n.checked_mul(k) {
        None => IResult::Incomplete(Needed::Unknown),
        Some(need) => {
            if len < need {
                IResult::Incomplete(Needed::Size(need))
            } else {
                let ws = read_words(input, n, k, bo);
                IResult::Done(need, from_words(dt, &ws))
            }
        },
    }
}

/// Whether `b` is a decimal digit.
pub open spec fn is_digit(b: u8) -> bool {
    48 <= b <= 57
}

/// Whether `b` separates tokens in bulk ASCII data: space, tab, line feed or
/// carriage return.
pub open spec fn is_space(b: u8) -> bool {
    b == 32 || b == 9 || b == 10 || b == 13
}

/// Whether `b` is a sign.
pub open spec fn is_sign(b: u8) -> bool {
    b == 43 || b == 45
}

/// The end of the run of digits of `s` that starts at `i`.
pub open spec fn digits_end(s: Seq<u8>, i: int) -> int
    decreases s.len() - i,
{
    if 0 <= i < s.len() && is_digit(s[i]) {
        digits_end(s, i + 1)
    } else {
        i
    }
}

/// The end of the run of separators of `s` that starts at `i`.
pub open spec fn spaces_end(s: Seq<u8>, i: int) -> int
    decreases s.len() - i,
{
    if 0 <= i < s.len() && is_space(s[i]) {
        spaces_end(s, i + 1)
    } else {
        i
    }
}

/// The number that the decimal digits `s` spell.
pub open spec fn dec_value(s: Seq<u8>) -> nat
    decreases s.len(),
{
    if s.len() == 0 {
        0
    } else {
        dec_value(s.drop_last()) * 10 + (s.last() - 48) as nat
    }
}

/// The outcome of reading one token: its end and value, or a need for more
/// input, or a mismatch.
pub enum TokenOutcome {
    Done(int, int),
    Incomplete,
    Error,
}

/// Reads an unsigned integer at `i`: one or more digits.
pub open spec fn unsigned_token(s: Seq<u8>, i: int) -> TokenOutcome {
    let e = digits_end(s, i);
    if e > i {
        TokenOutcome::Done(e, dec_value(s.subrange(i, e)) as int)
    } else if i >= s.len() {
        TokenOutcome::Incomplete
    } else {
        TokenOutcome::Error
    }
}

/// Reads a signed integer at `i`: an optional `+` or `-`, then one or more
/// digits.
pub open spec fn integer_token(s: Seq<u8>, i: int) -> TokenOutcome {
    let signed = 0 <= i < s.len() && is_sign(s[i]);
    let start = if signed { i + 1 } else { i };
    let e = digits_end(s, start);
    if e > start {
        let m = dec_value(s.subrange(start, e)) as int;
        TokenOutcome::Done(e, if signed && s[i] == 45 { -m } else { m })
    } else if start >= s.len() {
        TokenOutcome::Incomplete
    } else {
        TokenOutcome::Error
    }
}

/// Whether `dt` is a signed integer type.
pub open spec fn is_signed(dt: DataType) -> bool {
    dt == DataType::Char || dt == DataType::Short || dt == DataType::Int || dt == DataType::Long
}

/// Whether `v` is a value of the integer type `dt`.
pub open spec fn in_range(v: int, dt: DataType) -> bool {
    match dt {
        DataType::UnsignedChar => 0 <= v <= u8::MAX,
        DataType::Char => i8::MIN <= v <= i8::MAX,
        DataType::UnsignedShort => 0 <= v <= u16::MAX,
        DataType::Short => i16::MIN <= v <= i16::MAX,
        DataType::UnsignedInt => 0 <= v <= u32::MAX,
        DataType::Int => i32::MIN <= v <= i32::MAX,
        DataType::UnsignedLong => 0 <= v <= u64::MAX,
        DataType::Long => i64::MIN <= v <= i64::MAX,
        _ => false,
    }
}

/// The outcome of reading bulk ASCII values.
pub enum AsciiOutcome {
    /// The bytes consumed and the values read.
    Done(nat, Seq<int>),
    Incomplete,
    Error,
}

/// Reads one integer of type `dt` at `i`: signed types take a sign, unsigned
/// ones do not; a value outside the type is a mismatch.
pub open spec fn int_of_type(s: Seq<u8>, i: int, dt: DataType) -> TokenOutcome {
    match if is_signed(dt) { integer_token(s, i) } else { unsigned_token(s, i) } {
        TokenOutcome::Done(e, v) => if in_range(v, dt) { TokenOutcome::Done(e, v) } else { TokenOutcome::Error },
        o => o,
    }
}

/// Reading `n` integers of type `dt` from `s`: each is preceded and followed
/// by any number of separators.
pub open spec fn ascii_ints_spec(s: Seq<u8>, n: nat, dt: DataType) -> AsciiOutcome
    decreases n,
{
    if n == 0 {
        AsciiOutcome::Done(0, Seq::empty())
    } else {
        match ascii_ints_spec(s, (n - 1) as nat, dt) {
            AsciiOutcome::Done(p, vs) => match int_of_type(s, spaces_end(s, p as int), dt) {
                TokenOutcome::Done(e, v) => AsciiOutcome::Done(spaces_end(s, e) as nat, vs.push(v)),
                TokenOutcome::Incomplete => AsciiOutcome::Incomplete,
                TokenOutcome::Error => AsciiOutcome::Error,
            },
            o => o,
        }
    }
}

impl IOBuffer {
    /// The elements as integers (real values as their bits).
    pub open spec fn values(&self) -> Seq<int> {
        match self {
            IOBuffer::U8(v) => v@.map_values(|x: u8| x as int),
            IOBuffer::I8(v) => v@.map_values(|x: i8| x as int),
            IOBuffer::U16(v) => v@.map_values(|x: u16| x as int),
            IOBuffer::I16(v) => v@.map_values(|x: i16| x as int),
            IOBuffer::U32(v) => v@.map_values(|x: u32| x as int),
            IOBuffer::I32(v) => v@.map_values(|x: i32| x as int),
            IOBuffer::U64(v) => v@.map_values(|x: u64| x as int),
            IOBuffer::I64(v) => v@.map_values(|x: i64| x as int),
            IOBuffer::F32(v) => v@.map_values(|x: u32| x as int),
            IOBuffer::F64(v) => v@.map_values(|x: u64| x as int),
        }
    }
}

/// The buffer of integer type `dt` holding `vals`.
fn from_values(dt: DataType, vals: &Vec<i128>) -> (r: IOBuffer)
    requires
        dt != DataType::Bit && dt != DataType::Float && dt != DataType::Double,
        forall|j: int| 0 <= j < vals@.len() ==> in_range(#[trigger] vals@[j] as int, dt),
    ensures
        r.data_type_spec() == dt,
        r.values() == vals@.map_values(|x: i128| x as int),
{
    let n = vals.len();
    match dt {
        DataType::UnsignedChar => {
            let mut v: Vec<u8> = Vec::new();
            let mut i: usize = 0;
            while i < n
                invariant
                    n == vals@.len(),
                    i <= n,
                    dt == DataType::UnsignedChar,
                    forall|j: int| 0 <= j < n ==> in_range(#[trigger] vals@[j] as int, dt),
                    forall|j: int| 0 <= j < i ==> IOBuffer::U8(v).values()[j] == vals@[j] as int,
                    v@.len() == i,
                decreases n - i,
            {
                let x = vals[i];
                assert(in_range(vals@[i as int] as int, dt));
                assert((x as u8) as i128 == x) by (bit_vector)
                    requires
                        0 <= x <= 0xff,
                ;
                v.push(x as u8);
                i = i + 1;
            }
            assert(IOBuffer::U8(v).values() =~= vals@.map_values(|x: i128| x as int));
            IOBuffer::U8(v)
        },
        DataType::Char => {
            let mut v: Vec<i8> = Vec::new();
            let mut i: usize = 0;
            while i < n
                invariant
                    n == vals@.len(),
                    i <= n,
                    dt == DataType::Char,
                    forall|j: int| 0 <= j < n ==> in_range(#[trigger] vals@[j] as int, dt),
                    forall|j: int| 0 <= j < i ==> IOBuffer::I8(v).values()[j] == vals@[j] as int,
                    v@.len() == i,
                decreases n - i,
            {
                let x = vals[i];
                assert(in_range(vals@[i as int] as int, dt));
                assert((x as i8) as i128 == x) by (bit_vector)
                    requires
                        -0x80 <= x <= 0x7f,
                ;
                v.push(x as i8);
                i = i + 1;
            }
            assert(IOBuffer::I8(v).values() =~= vals@.map_values(|x: i128| x as int));
            IOBuffer::I8(v)
        },
        DataType::UnsignedShort => {
            let mut v: Vec<u16> = Vec::new();
            let mut i: usize = 0;
            while i < n
                invariant
                    n == vals@.len(),
                    i <= n,
                    dt == DataType::UnsignedShort,
                    forall|j: int| 0 <= j < n ==> in_range(#[trigger] vals@[j] as int, dt),
                    forall|j: int| 0 <= j < i ==> IOBuffer::U16(v).values()[j] == vals@[j] as int,
                    v@.len() == i,
                decreases n - i,
            {
                let x = vals[i];
                assert(in_range(vals@[i as int] as int, dt));
                assert((x as u16) as i128 == x) by (bit_vector)
                    requires
                        0 <= x <= 0xffff,
                ;
                v.push(x as u16);
                i = i + 1;
            }
            assert(IOBuffer::U16(v).values() =~= vals@.map_values(|x: i128| x as int));
            IOBuffer::U16(v)
        },
        DataType::Short => {
            let mut v: Vec<i16> = Vec::new();
            let mut i: usize = 0;
            while i < n
                invariant
                    n == vals@.len(),
                    i <= n,
                    dt == DataType::Short,
                    forall|j: int| 0 <= j < n ==> in_range(#[trigger] vals@[j] as int, dt),
                    forall|j: int| 0 <= j < i ==> IOBuffer::I16(v).values()[j] == vals@[j] as int,
                    v@.len() == i,
                decreases n - i,
            {
                let x = vals[i];
                assert(in_range(vals@[i as int] as int, dt));
                assert((x as i16) as i128 == x) by (bit_vector)
                    requires
                        -0x8000 <= x <= 0x7fff,
                ;
                v.push(x as i16);
                i = i + 1;
            }
            assert(IOBuffer::I16(v).values() =~= vals@.map_values(|x: i128| x as int));
            IOBuffer::I16(v)
        },
        DataType::UnsignedInt => {
            let mut v: Vec<u32> = Vec::new();
            let mut i: usize = 0;
            while i < n
                invariant
                    n == vals@.len(),
                    i <= n,
                    dt == DataType::UnsignedInt,
                    forall|j: int| 0 <= j < n ==> in_range(#[trigger] vals@[j] as int, dt),
                    forall|j: int| 0 <= j < i ==> IOBuffer::U32(v).values()[j] == vals@[j] as int,
                    v@.len() == i,
                decreases n - i,
            {
                let x = vals[i];
                assert(in_range(vals@[i as int] as int, dt));
                assert((x as u32) as i128 == x) by (bit_vector)
                    requires
                        0 <= x <= 0xffff_ffff,
                ;
                v.push(x as u32);
                i = i + 1;
            }
            assert(IOBuffer::U32(v).values() =~= vals@.map_values(|x: i128| x as int));
            IOBuffer::U32(v)
        },
        DataType::Int => {
            let mut v: Vec<i32> = Vec::new();
            let mut i: usize = 0;
            while i < n
                invariant
                    n == vals@.len(),
                    i <= n,
                    dt == DataType::Int,
                    forall|j: int| 0 <= j < n ==> in_range(#[trigger] vals@[j] as int, dt),
                    forall|j: int| 0 <= j < i ==> IOBuffer::I32(v).values()[j] == vals@[j] as int,
                    v@.len() == i,
                decreases n - i,
            {
                let x = vals[i];
                assert(in_range(vals@[i as int] as int, dt));
                assert((x as i32) as i128 == x) by (bit_vector)
                    requires
                        -0x8000_0000 <= x <= 0x7fff_ffff,
                ;
                v.push(x as i32);
                i = i + 1;
            }
            assert(IOBuffer::I32(v).values() =~= vals@.map_values(|x: i128| x as int));
            IOBuffer::I32(v)
        },
        DataType::UnsignedLong => {
            let mut v: Vec<u64> = Vec::new();
            let mut i: usize = 0;
            while i < n
                invariant
                    n == vals@.len(),
                    i <= n,
                    dt == DataType::UnsignedLong,
                    forall|j: int| 0 <= j < n ==> in_range(#[trigger] vals@[j] as int, dt),
                    forall|j: int| 0 <= j < i ==> IOBuffer::U64(v).values()[j] == vals@[j] as int,
                    v@.len() == i,
                decreases n - i,
            {
                let x = vals[i];
                assert(in_range(vals@[i as int] as int, dt));
                assert((x as u64) as i128 == x) by (bit_vector)
                    requires
                        0 <= x <= 0xffff_ffff_ffff_ffff,
                ;
                v.push(x as u64);
                i = i + 1;
            }
            assert(IOBuffer::U64(v).values() =~= vals@.map_values(|x: i128| x as int));
            IOBuffer::U64(v)
        },
        DataType::Long => {
            let mut v: Vec<i64> = Vec::new();
            let mut i: usize = 0;
            while i < n
                invariant
                    n == vals@.len(),
                    i <= n,
                    dt == DataType::Long,
                    forall|j: int| 0 <= j < n ==> in_range(#[trigger] vals@[j] as int, dt),
                    forall|j: int| 0 <= j < i ==> IOBuffer::I64(v).values()[j] == vals@[j] as int,
                    v@.len() == i,
                decreases n - i,
            {
                let x = vals[i];
                assert(in_range(vals@[i as int] as int, dt));
                assert((x as i64) as i128 == x) by (bit_vector)
                    requires
                        -0x8000_0000_0000_0000 <= x <= 0x7fff_ffff_ffff_ffff,
                ;
                v.push(x as i64);
                i = i + 1;
            }
            assert(IOBuffer::I64(v).values() =~= vals@.map_values(|x: i128| x as int));
            IOBuffer::I64(v)
        },
        _ => {
            assert(false);
            IOBuffer::U8(Vec::new())
        },
    }
}

/// The outcome of reading one token, as code sees it.
enum Scanned {
    /// The end of the token and its value.
    Value(usize, i128),
    /// The end of the token, whose value is beyond every integer type.
    Huge(usize),
    Incomplete,
    Error,
}

/// The end of the run of digits of `input` that starts at `i`.
fn scan_digits(input: &[u8], i: usize) -> (r: usize)
    requires
        i <= input@.len(),
    ensures
        r == digits_end(input@, i as int),
        i <= r <= input@.len(),
    decreases input@.len() - i,
{
    if i < input.len() && 48 <= input[i] && input[i] <= 57 {
        scan_digits(input, i + 1)
    } else {
        i
    }
}

/// The end of the run of separators of `input` that starts at `i`.
fn scan_spaces(input: &[u8], i: usize) -> (r: usize)
    requires
        i <= input@.len(),
    ensures
        r == spaces_end(input@, i as int),
        i <= r <= input@.len(),
    decreases input@.len() - i,
{
    if i < input.len() && (input[i] == 32 || input[i] == 9 || input[i] == 10 || input[i] == 13) {
        scan_spaces(input, i + 1)
    } else {
        i
    }
}

const HUGE: u128 = 0x1_0000_0000_0000_0000;

/// The value of the digits `input[a..e]`, or `None` when it exceeds `2^64`.
fn digits_value(input: &[u8], a: usize, e: usize) -> (r: Option<u128>)
    requires
        a <= e <= input@.len(),
        forall|j: int| a <= j < e ==> is_digit(#[trigger] input@[j]),
    ensures
        match r {
            Some(v) => v == dec_value(input@.subrange(a as int, e as int)) && v <= HUGE,
            None => dec_value(input@.subrange(a as int, e as int)) > HUGE,
        },
{
    let mut acc: u128 = 0;
    let mut big = false;
    let mut j: usize = a;
    while j < e
        invariant
            a <= j <= e <= input@.len(),
            forall|k: int| a <= k < e ==> is_digit(#[trigger] input@[k]),
            !big ==> acc == dec_value(input@.subrange(a as int, j as int)) && acc <= HUGE,
            big ==> dec_value(input@.subrange(a as int, j as int)) > HUGE,
        decreases e - j,
    {
        assert(input@.subrange(a as int, j + 1).drop_last() =~= input@.subrange(a as int, j as int));
        let d = (input[j] - 48) as u128;
        if !big {
            if acc * 10 + d > HUGE {
                big = true;
            } else {
                acc = acc * 10 + d;
            }
        }
        j = j + 1;
    }
    if big {
        None
    } else {
        Some(acc)
    }
}

/// Reads an integer token at `i`, with a sign where `signed`.
fn scan_integer(input: &[u8], i: usize, signed: bool) -> (r: Scanned)
    requires
        i <= input@.len(),
    ensures
        match (if signed { integer_token(input@, i as int) } else { unsigned_token(input@, i as int) }) {
            TokenOutcome::Done(e, v) => match r {
                Scanned::Value(e2, v2) => e2 == e && v2 == v,
                Scanned::Huge(e2) => e2 == e && (v > HUGE || v < -HUGE),
                _ => false,
            },
            TokenOutcome::Incomplete => r is Incomplete,
            TokenOutcome::Error => r is Error,
        },
        match r {
            Scanned::Value(e, _) => e <= input@.len(),
            Scanned::Huge(e) => e <= input@.len(),
            _ => true,
        },
{
    let has_sign = signed && i < input.len() && (input[i] == 43 || input[i] == 45);
    let start = if has_sign { i + 1 } else { i };
    let e = scan_digits(input, start);
    proof {
        lemma_digits_end_all(input@, start as int);
    }
    if e > start {
        match digits_value(input, start, e) {
            Some(m) => {
                let v: i128 = if has_sign && input[i] == 45 { -(m as i128) } else { m as i128 };
                Scanned::Value(e, v)
            },
            None => Scanned::Huge(e),
        }
    } else if start >= input.len() {
        Scanned::Incomplete
    } else {
        Scanned::Error
    }
}

proof fn lemma_digits_end_all(s: Seq<u8>, i: int)
    requires
        0 <= i <= s.len(),
    ensures
        i <= digits_end(s, i) <= s.len(),
        forall|j: int| i <= j < digits_end(s, i) ==> is_digit(#[trigger] s[j]),
    decreases s.len() - i,
{
    if i < s.len() && is_digit(s[i]) {
        lemma_digits_end_all(s, i + 1);
    }
}

/// Whether `v` is a value of the integer type `dt`.
fn check_range(v: i128, dt: DataType) -> (r: bool)
    ensures
        r == in_range(v as int, dt),
{
    match dt {
        DataType::UnsignedChar => 0 <= v && v <= 0xff,
        DataType::Char => -0x80 <= v && v <= 0x7f,
        DataType::UnsignedShort => 0 <= v && v <= 0xffff,
        DataType::Short => -0x8000 <= v && v <= 0x7fff,
        DataType::UnsignedInt => 0 <= v && v <= 0xffff_ffff,
        DataType::Int => -0x8000_0000 <= v && v <= 0x7fff_ffff,
        DataType::UnsignedLong => 0 <= v && v <= 0xffff_ffff_ffff_ffff,
        DataType::Long => -0x8000_0000_0000_0000 <= v && v <= 0x7fff_ffff_ffff_ffff,
        _ => false,
    }
}

/// Once reading fails, reading more values fails the same way.
proof fn lemma_ascii_stuck(s: Seq<u8>, i: nat, n: nat, dt: DataType)
    requires
        i <= n,
        !(ascii_ints_spec(s, i, dt) is Done),
    ensures
        ascii_ints_spec(s, n, dt) == ascii_ints_spec(s, i, dt),
    decreases n - i,
{
    if i < n {
        lemma_ascii_stuck(s, i, (n - 1) as nat, dt);
    }
}

/// Reads `n` integers of type `dt` from `input`: each may be preceded and
/// followed by spaces, tabs and line breaks; signed types accept a leading
/// `+` or `-`. A token that does not fit the type is a mismatch.
pub fn parse_ascii_ints(input: &[u8], n: usize, dt: DataType) -> (r: IResult<IOBuffer>)
    requires
        dt != DataType::Bit && dt != DataType::Float && dt != DataType::Double,
    ensures
        match r {
            IResult::Done(p, b) => b.data_type_spec() == dt && ascii_ints_spec(input@, n as nat, dt)
                == AsciiOutcome::Done(p as nat, b.values()),
            IResult::Incomplete(_) => ascii_ints_spec(input@, n as nat, dt) == AsciiOutcome::Incomplete,
            IResult::Error => ascii_ints_spec(input@, n as nat, dt) == AsciiOutcome::Error,
        },
{
    let signed = match dt {
        DataType::Char | DataType::Short | DataType::Int | DataType::Long => true,
        _ => false,
    };
    let mut vals: Vec<i128> = Vec::new();
    let mut p: usize = 0;
    let mut i: usize = 0;
    assert(vals@.map_values(|x: i128| x as int) =~= Seq::<int>::empty());
    while i < n
        invariant
            signed == is_signed(dt),
            i <= n,
            p <= input@.len(),
            ascii_ints_spec(input@, i as nat, dt) == AsciiOutcome::Done(p as nat, vals@.map_values(|x: i128| x as int)),
            forall|j: int| 0 <= j < vals@.len() ==> in_range(#[trigger] vals@[j] as int, dt),
        decreases n - i,
    {
        let q = scan_spaces(input, p);
        match scan_integer(input, q, signed) {
            Scanned::Value(e, v) => {
                if !check_range(v, dt) {
                    proof {
                        lemma_ascii_stuck(input@, (i + 1) as nat, n as nat, dt);
                    }
                    return IResult::Error;
                }
                proof {
                    lemma_digits_end_all(input@, q as int);
                }
                let e2 = scan_spaces(input, e);
                let ghost old_vals = vals@;
                vals.push(v);
                assert(vals@.map_values(|x: i128| x as int) =~= old_vals.map_values(|x: i128| x as int).push(v as int));
                p = e2;
            },
            Scanned::Huge(_) => {
                proof {
                    lemma_ascii_stuck(input@, (i + 1) as nat, n as nat, dt);
                }
                return IResult::Error;
            },
            Scanned::Incomplete => {
                proof {
                    lemma_ascii_stuck(input@, (i + 1) as nat, n as nat, dt);
                }
                return IResult::Incomplete(Needed::Unknown);
            },
            Scanned::Error => {
                proof {
                    lemma_ascii_stuck(input@, (i + 1) as nat, n as nat, dt);
                }
                return IResult::Error;
            },
        }
        i = i + 1;
    }
    IResult::Done(p, from_values(dt, &vals))
}

/// The end of an optional exponent `(e|E)(+|-)?digits` at `m`; `m` itself
/// when none is there.
pub open spec fn exponent_end(s: Seq<u8>, m: int) -> int {
    if 0 <= m < s.len() && (s[m] == 101 || s[m] == 69) {
        let j = if m + 1 < s.len() && is_sign(s[m + 1]) { m + 2 } else { m + 1 };
        let k = digits_end(s, j);
        if k > j { k } else { m }
    } else {
        m
    }
}

/// The end of the mantissa of a real number whose digits start at `a`:
/// `digits '.' digits?`, `'.' digits` or `digits`.
pub open spec fn mantissa_end(s: Seq<u8>, a: int) -> Option<int> {
    let d = digits_end(s, a);
    if d > a {
        if d < s.len() && s[d] == 46 { Some(digits_end(s, d + 1)) } else { Some(d) }
    } else if 0 <= a < s.len() && s[a] == 46 && digits_end(s, a + 1) > a + 1 {
        Some(digits_end(s, a + 1))
    } else {
        None
    }
}

/// The outcome of reading one real number: the end of its token, a need for
/// more input, or a mismatch.
pub enum RealOutcome {
    Done(int),
    Incomplete,
    Error,
}

/// Reads a real number at `i`: an optional sign, a mantissa, an optional
/// exponent. An exponent needs no decimal point (`3e3`).
pub open spec fn real_token(s: Seq<u8>, i: int) -> RealOutcome {
    let a = if 0 <= i < s.len() && is_sign(s[i]) { i + 1 } else { i };
    match mantissa_end(s, a) {
        Some(m) => RealOutcome::Done(exponent_end(s, m)),
        None => if a >= s.len() { RealOutcome::Incomplete } else { RealOutcome::Error },
    }
}

/// The outcome of reading bulk ASCII real numbers.
pub enum SpanOutcome {
    /// The bytes consumed and, for each number, where its token starts and ends.
    Done(nat, Seq<(int, int)>),
    Incomplete,
    Error,
}

/// Reading `n` real numbers from `s`: each is preceded and followed by any
/// number of separators.
pub open spec fn ascii_reals_spec(s: Seq<u8>, n: nat) -> SpanOutcome
    decreases n,
{
    if n == 0 {
        SpanOutcome::Done(0, Seq::empty())
    } else {
        match ascii_reals_spec(s, (n - 1) as nat) {
            SpanOutcome::Done(p, ts) => {
                let q = spaces_end(s, p as int);
                match real_token(s, q) {
                    RealOutcome::Done(e) => SpanOutcome::Done(spaces_end(s, e) as nat, ts.push((q, e))),
                    RealOutcome::Incomplete => SpanOutcome::Incomplete,
                    RealOutcome::Error => SpanOutcome::Error,
                }
            },
            o => o,
        }
    }
}

/// The spans `v` as pairs of integers.
pub open spec fn spans_view(v: Seq<(usize, usize)>) -> Seq<(int, int)> {
    v.map_values(|p: (usize, usize)| (p.0 as int, p.1 as int))
}

/// Reads a real number token at `i`.
fn scan_real(input: &[u8], i: usize) -> (r: IResult<usize>)
    requires
        i <= input@.len(),
    ensures
        match real_token(input@, i as int) {
            RealOutcome::Done(e) => i <= e <= input@.len() && match r {
                IResult::Done(a, b) => a == e && b == e,
                _ => false,
            },
            RealOutcome::Incomplete => r is Incomplete,
            RealOutcome::Error => r is Error,
        },
{
    let len = input.len();
    let a = if i < len && (input[i] == 43 || input[i] == 45) { i + 1 } else { i };
    let d = scan_digits(input, a);
    let m: usize;
    if d > a {
        if d < len && input[d] == 46 {
            m = scan_digits(input, d + 1);
        } else {
            m = d;
        }
    } else if a < len && input[a] == 46 && scan_digits(input, a + 1) > a + 1 {
        m = scan_digits(input, a + 1);
    } else if a >= len {
        return IResult::Incomplete(Needed::Unknown);
    } else {
        return IResult::Error;
    }
    let mut e = m;
    if m < len && (input[m] == 101 || input[m] == 69) {
        let j = if m + 1 < len && (input[m + 1] == 43 || input[m + 1] == 45) { m + 2 } else { m + 1 };
        let k = scan_digits(input, j);
        if k > j {
            e = k;
        }
    }
    IResult::Done(e, e)
}

proof fn lemma_reals_stuck(s: Seq<u8>, i: nat, n: nat)
    requires
        i <= n,
        !(ascii_reals_spec(s, i) is Done),
    ensures
        ascii_reals_spec(s, n) == ascii_reals_spec(s, i),
    decreases n - i,
{
    if i < n {
        lemma_reals_stuck(s, i, (n - 1) as nat);
    }
}

/// Finds `n` real numbers in ASCII: each may be preceded and followed by
/// spaces, tabs and line breaks. On success, gives the bytes consumed and
/// where each number's token starts and ends; turning a token into a value
/// is left to the caller.
pub fn parse_real_spans(input: &[u8], n: usize) -> (r: IResult<Vec<(usize, usize)>>)
    ensures
        match r {
            IResult::Done(p, v) => ascii_reals_spec(input@, n as nat) == SpanOutcome::Done(p as nat, spans_view(v@)),
            IResult::Incomplete(_) => ascii_reals_spec(input@, n as nat) == SpanOutcome::Incomplete,
            IResult::Error => ascii_reals_spec(input@, n as nat) == SpanOutcome::Error,
        },
{
    let mut spans: Vec<(usize, usize)> = Vec::new();
    let mut p: usize = 0;
    let mut i: usize = 0;
    assert(spans_view(spans@) =~= Seq::<(int, int)>::empty());
    while i < n
        invariant
            i <= n,
            p <= input@.len(),
            ascii_reals_spec(input@, i as nat) == SpanOutcome::Done(p as nat, spans_view(spans@)),
        decreases n - i,
    {
        let q = scan_spaces(input, p);
        match scan_real(input, q) {
            IResult::Done(e, _) => {
                let e2 = scan_spaces(input, e);
                let ghost old_spans = spans@;
                spans.push((q, e));
                assert(spans_view(spans@) =~= spans_view(old_spans).push((q as int, e as int)));
                p = e2;
            },
            IResult::Incomplete(_) => {
                proof {
                    lemma_reals_stuck(input@, (i + 1) as nat, n as nat);
                }
                return IResult::Incomplete(Needed::Unknown);
            },
            IResult::Error => {
                proof {
                    lemma_reals_stuck(input@, (i + 1) as nat, n as nat);
                }
                return IResult::Error;
            },
        }
        i = i + 1;
    }
    IResult::Done(p, spans)
}

/// Reads one real number at the start of `input`; on success the value is
/// the length of its token.
pub fn parse_real(input: &[u8]) -> (r: IResult<usize>)
    ensures
        match real_token(input@, 0) {
            RealOutcome::Done(e) => match r {
                IResult::Done(a, b) => a == e && b == e,
                _ => false,
            },
            RealOutcome::Incomplete => r is Incomplete,
            RealOutcome::Error => r is Error,
        },
{
    scan_real(input, 0)
}

/// Reads an unsigned integer (one or more digits) at the start of `input`.
/// A value beyond `u64` is a mismatch.
pub fn unsigned(input: &[u8]) -> (r: IResult<u64>)
    ensures
        match unsigned_token(input@, 0) {
            TokenOutcome::Done(e, v) => if v <= u64::MAX {
                r == IResult::Done(e as usize, v as u64)
            } else {
                r is Error
            },
            TokenOutcome::Incomplete => r is Incomplete,
            TokenOutcome::Error => r is Error,
        },
{
    match scan_integer(input, 0, false) {
        Scanned::Value(e, v) => {
            if v <= 0xffff_ffff_ffff_ffff {
                IResult::Done(e, v as u64)
            } else {
                IResult::Error
            }
        },
        Scanned::Huge(_) => IResult::Error,
        Scanned::Incomplete => IResult::Incomplete(Needed::Unknown),
        Scanned::Error => IResult::Error,
    }
}

/// Reads a signed integer (an optional `+` or `-`, then digits) at the start
/// of `input`. A value beyond `i64` is a mismatch.
pub fn integer(input: &[u8]) -> (r: IResult<i64>)
    ensures
        match integer_token(input@, 0) {
            TokenOutcome::Done(e, v) => if i64::MIN <= v <= i64::MAX {
                r == IResult::Done(e as usize, v as i64)
            } else {
                r is Error
            },
            TokenOutcome::Incomplete => r is Incomplete,
            TokenOutcome::Error => r is Error,
        },
{
    match scan_integer(input, 0, true) {
        Scanned::Value(e, v) => {
            if -0x8000_0000_0000_0000 <= v && v <= 0x7fff_ffff_ffff_ffff {
                IResult::Done(e, v as i64)
            } else {
                IResult::Error
            }
        },
        Scanned::Huge(_) => IResult::Error,
        Scanned::Incomplete => IResult::Incomplete(Needed::Unknown),
        Scanned::Error => IResult::Error,
    }
}

/// The first `n` bytes of `input`.
fn copy_prefix(input: &[u8], n: usize) -> (r: Vec<u8>)
    requires
        n <= input@.len(),
    ensures
        r@ == input@.subrange(0, n as int),
{
    let mut r: Vec<u8> = Vec::new();
    let mut i: usize = 0;
    while i < n
        invariant
            n <= input@.len(),
            i <= n,
            r@ == input@.subrange(0, i as int),
        decreases n - i,
    {
        r.push(input[i]);
        assert(r@ =~= input@.subrange(0, i + 1));
        i = i + 1;
    }
    r
}

/// What reading `n` raw bytes in binary gives: the first `n` bytes, or a
/// demand for `n` bytes.
pub open spec fn raw_bytes_outcome(r: IResult<Vec<u8>>, s: Seq<u8>, n: nat) -> bool {
    if n <= s.len() {
        match r {
            IResult::Done(p, v) => p == n && v@ == s.subrange(0, n as int),
            _ => false,
        }
    } else {
        r == IResult::<Vec<u8>>::Incomplete(Needed::Size(n as usize))
    }
}

/// Reads `n` raw bytes in binary.
fn raw_bytes(input: &[u8], n: usize) -> (r: IResult<Vec<u8>>)
    ensures
        raw_bytes_outcome(r, input@, n as nat),
{
    if input.len() < n {
        IResult::Incomplete(Needed::Size(n))
    } else {
        IResult::Done(n, copy_prefix(input, n))
    }
}

/// Reads `n` unsigned bytes as decimal ASCII values.
fn ascii_u8s(input: &[u8], n: usize) -> (r: IResult<Vec<u8>>)
    ensures
        match r {
            IResult::Done(p, v) => ascii_ints_spec(input@, n as nat, DataType::UnsignedChar)
                == AsciiOutcome::Done(p as nat, v@.map_values(|x: u8| x as int)),
            IResult::Incomplete(_) => ascii_ints_spec(input@, n as nat, DataType::UnsignedChar) == AsciiOutcome::Incomplete,
            IResult::Error => ascii_ints_spec(input@, n as nat, DataType::UnsignedChar) == AsciiOutcome::Error,
        },
{
    match parse_ascii_ints(input, n, DataType::UnsignedChar) {
        IResult::Done(p, IOBuffer::U8(v)) => IResult::Done(p, v),
        IResult::Done(_, _) => {
            assert(false);
            IResult::Error
        },
        IResult::Incomplete(x) => IResult::Incomplete(x),
        IResult::Error => IResult::Error,
    }
}

/// Reads `n` unsigned bytes: in binary, the next `n` bytes as they are; in
/// ASCII, `n` decimal values from 0 to 255.
pub fn parse_data_vec_u8(input: &[u8], n: usize, ft: FileType) -> (r: IResult<Vec<u8>>)
    ensures
        ft == FileType::Binary ==> raw_bytes_outcome(r, input@, n as nat),
        ft == FileType::ASCII ==> match r {
            IResult::Done(p, v) => ascii_ints_spec(input@, n as nat, DataType::UnsignedChar)
                == AsciiOutcome::Done(p as nat, v@.map_values(|x: u8| x as int)),
            IResult::Incomplete(_) => ascii_ints_spec(input@, n as nat, DataType::UnsignedChar) == AsciiOutcome::Incomplete,
            IResult::Error => ascii_ints_spec(input@, n as nat, DataType::UnsignedChar) == AsciiOutcome::Error,
        },
{
    match ft {
        FileType::Binary => raw_bytes(input, n),
        FileType::ASCII => ascii_u8s(input, n),
    }
}

/// Reads `n` signed bytes: in binary, the next `n` bytes, each reinterpreted
/// bit for bit (`0xFF` is `-1`); in ASCII, `n` decimal values from -128 to
/// 127.
pub fn parse_data_vec_i8(input: &[u8], n: usize, ft: FileType) -> (r: IResult<Vec<i8>>)
    ensures
        ft == FileType::Binary ==> if n <= input@.len() {
            match r {
                IResult::Done(p, v) => p == n && v@.len() == n && forall|j: int| 0 <= j < n ==> #[trigger] v@[j] as u8 == input@[j],
                _ => false,
            }
        } else {
            r == IResult::<Vec<i8>>::Incomplete(Needed::Size(n))
        },
        ft == FileType::ASCII ==> match r {
            IResult::Done(p, v) => ascii_ints_spec(input@, n as nat, DataType::Char)
                == AsciiOutcome::Done(p as nat, v@.map_values(|x: i8| x as int)),
            IResult::Incomplete(_) => ascii_ints_spec(input@, n as nat, DataType::Char) == AsciiOutcome::Incomplete,
            IResult::Error => ascii_ints_spec(input@, n as nat, DataType::Char) == AsciiOutcome::Error,
        },
{
    match ft {
        FileType::Binary => {
            if input.len() < n {
                return IResult::Incomplete(Needed::Size(n));
            }
            let mut v: Vec<i8> = Vec::new();
            let mut i: usize = 0;
            while i < n
                invariant
                    n <= input@.len(),
                    i <= n,
                    v@.len() == i,
                    forall|j: int| 0 <= j < i ==> #[trigger] v@[j] as u8 == input@[j],
                decreases n - i,
            {
                v.push(reinterpret_i8(input[i]));
                i = i + 1;
            }
            IResult::Done(n, v)
        },
        FileType::ASCII => match parse_ascii_ints(input, n, DataType::Char) {
            IResult::Done(p, IOBuffer::I8(v)) => IResult::Done(p, v),
            IResult::Done(_, _) => {
                assert(false);
                IResult::Error
            },
            IResult::Incomplete(x) => IResult::Incomplete(x),
            IResult::Error => IResult::Error,
        },
    }
}

/// Number of bytes that hold `n` packed bits.
pub open spec fn bit_bytes(n: nat) -> nat {
    n / 8 + if n % 8 == 0 { 0nat } else { 1nat }
}

/// Reads `n` bits: in binary, the `ceil(n / 8)` bytes that pack them; in
/// ASCII, one decimal value per bit.
pub fn parse_data_bit_vec(input: &[u8], n: usize, ft: FileType) -> (r: IResult<Vec<u8>>)
    ensures
        ft == FileType::Binary ==> raw_bytes_outcome(r, input@, bit_bytes(n as nat)),
        ft == FileType::ASCII ==> match r {
            IResult::Done(p, v) => ascii_ints_spec(input@, n as nat, DataType::UnsignedChar)
                == AsciiOutcome::Done(p as nat, v@.map_values(|x: u8| x as int)),
            IResult::Incomplete(_) => ascii_ints_spec(input@, n as nat, DataType::UnsignedChar) == AsciiOutcome::Incomplete,
            IResult::Error => ascii_ints_spec(input@, n as nat, DataType::UnsignedChar) == AsciiOutcome::Error,
        },
{
    match ft {
        FileType::Binary => {
            let nbytes = n / 8 + if n % 8 == 0 { 0 } else { 1 };
            raw_bytes(input, nbytes)
        },
        FileType::ASCII => ascii_u8s(input, n),
    }
}

/// What reading `n` ASCII integers of type `dt` as a buffer gives.
pub open spec fn ascii_outcome(r: IResult<IOBuffer>, s: Seq<u8>, n: nat, dt: DataType) -> bool {
    match r {
        IResult::Done(p, b) => b.data_type_spec() == dt && ascii_ints_spec(s, n, dt) == AsciiOutcome::Done(p as nat, b.values()),
        IResult::Incomplete(_) => ascii_ints_spec(s, n, dt) == AsciiOutcome::Incomplete,
        IResult::Error => ascii_ints_spec(s, n, dt) == AsciiOutcome::Error,
    }
}

/// What reading `n` raw bytes in binary as an unsigned byte buffer gives.
pub open spec fn raw_buffer_outcome(r: IResult<IOBuffer>, s: Seq<u8>, n: nat) -> bool {
    if n <= s.len() {
        match r {
            IResult::Done(p, b) => p == n && b.data_type_spec() == DataType::UnsignedChar
                && b.values() == s.subrange(0, n as int).map_values(|x: u8| x as int),
            _ => false,
        }
    } else {
        r == IResult::<IOBuffer>::Incomplete(Needed::Size(n as usize))
    }
}

/// `parse_data_vec_u8`, as a buffer.
pub fn parse_data_buffer_u8(input: &[u8], n: usize, ft: FileType) -> (r: IResult<IOBuffer>)
    ensures
        ft == FileType::Binary ==> raw_buffer_outcome(r, input@, n as nat),
        ft == FileType::ASCII ==> ascii_outcome(r, input@, n as nat, DataType::UnsignedChar),
{
    match parse_data_vec_u8(input, n, ft) {
        IResult::Done(p, v) => {
            assert(IOBuffer::U8(v).values() == v@.map_values(|x: u8| x as int));
            IResult::Done(p, IOBuffer::U8(v))
        },
        IResult::Incomplete(x) => IResult::Incomplete(x),
        IResult::Error => IResult::Error,
    }
}

/// `parse_data_vec_i8`, as a buffer.
pub fn parse_data_buffer_i8(input: &[u8], n: usize, ft: FileType) -> (r: IResult<IOBuffer>)
    ensures
        ft == FileType::Binary ==> if n <= input@.len() {
            match r {
                IResult::Done(p, b) => p == n && b.data_type_spec() == DataType::Char
                    && b.words() == input@.subrange(0, n as int).map_values(|x: u8| x as u64),
                _ => false,
            }
        } else {
            r == IResult::<IOBuffer>::Incomplete(Needed::Size(n))
        },
        ft == FileType::ASCII ==> ascii_outcome(r, input@, n as nat, DataType::Char),
{
    match parse_data_vec_i8(input, n, ft) {
        IResult::Done(p, v) => {
            assert(ft == FileType::Binary ==> IOBuffer::I8(v).words() =~= input@.subrange(0, n as int).map_values(|x: u8| x as u64));
            IResult::Done(p, IOBuffer::I8(v))
        },
        IResult::Incomplete(x) => IResult::Incomplete(x),
        IResult::Error => IResult::Error,
    }
}

/// `parse_data_bit_vec`, as a buffer of the packed bytes.
pub fn parse_data_bit_buffer(input: &[u8], n: usize, ft: FileType) -> (r: IResult<IOBuffer>)
    ensures
        ft == FileType::Binary ==> raw_buffer_outcome(r, input@, bit_bytes(n as nat)),
        ft == FileType::ASCII ==> ascii_outcome(r, input@, n as nat, DataType::UnsignedChar),
{
    let r = parse_data_bit_vec(input, n, ft);
    match r {
        IResult::Done(p, v) => {
            assert(IOBuffer::U8(v).values() == v@.map_values(|x: u8| x as int));
            proof {
                if ft == FileType::Binary {
                    assert(v@.map_values(|x: u8| x as int) =~= input@.subrange(0, bit_bytes(n as nat) as int).map_values(|x: u8| x as int));
                }
            }
            IResult::Done(p, IOBuffer::U8(v))
        },
        IResult::Incomplete(x) => IResult::Incomplete(x),
        IResult::Error => IResult::Error,
    }
}

} // verus!

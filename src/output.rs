use vstd::prelude::*;
use vstd::string::*;
use crate::endian::{be_bytes, le_bytes, word_bytes, ByteOrder};
use crate::model::{string_bytes, text};

verus! {

/// One unit of writer output: a byte, or a real value that a text sink
/// renders in decimal (given by its IEEE-754 bits).
#[derive(Copy, Clone, Debug, PartialEq, Eq, Structural)]
pub enum Token {
    Byte(u8),
    Float(u32),
    Double(u64),
}

/// The tokens for the bytes `s`.
pub open spec fn bytes_tokens(s: Seq<u8>) -> Seq<Token> {
    s.map_values(|b: u8| Token::Byte(b))
}

/// The tokens for the text `s`.
pub open spec fn text_tokens(s: &str) -> Seq<Token> {
    bytes_tokens(text(s))
}

/// The decimal digits of `n`, most significant first, with no leading zero.
pub open spec fn dec(n: nat) -> Seq<u8>
    decreases n,
{
    if n < 10 {
        seq![(48 + n) as u8]
    } else {
        dec(n / 10).push((48 + n % 10) as u8)
    }
}

/// The decimal form of `i`, with a leading `-` when it is negative.
pub open spec fn dec_int(i: int) -> Seq<u8> {
    if i < 0 {
        seq![45u8] + dec((-i) as nat)
    } else {
        dec(i as nat)
    }
}

/// The tokens of the decimal form of `n`.
pub open spec fn num_tokens(n: int) -> Seq<Token> {
    bytes_tokens(dec_int(n))
}

proof fn lemma_bytes_tokens_push(s: Seq<u8>, b: u8)
    ensures
        bytes_tokens(s.push(b)) == bytes_tokens(s).push(Token::Byte(b)),
{
    assert(bytes_tokens(s.push(b)) =~= bytes_tokens(s).push(Token::Byte(b)));
}

pub proof fn lemma_bytes_tokens_add(a: Seq<u8>, b: Seq<u8>)
    ensures
        bytes_tokens(a + b) == bytes_tokens(a) + bytes_tokens(b),
{
    assert(bytes_tokens(a + b) =~= bytes_tokens(a) + bytes_tokens(b));
}

pub proof fn lemma_add3(o: Seq<Token>, a: Seq<Token>, b: Seq<Token>, c: Seq<Token>)
    ensures
        o + (a + b + c) == o + a + b + c,
{
    assert(o + (a + b + c) =~= o + a + b + c);
}

/// Appends the bytes `s`.
pub fn emit_bytes(out: &mut Vec<Token>, s: &[u8])
    ensures
        final(out)@ == old(out)@ + bytes_tokens(s@),
{
    let n = s.len();
    let mut i: usize = 0;
    while i < n
        invariant
            n == s@.len(),
            i <= n,
            out@ == old(out)@ + bytes_tokens(s@.subrange(0, i as int)),
        decreases n - i,
    {
        proof {
            assert(s@.subrange(0, i + 1) =~= s@.subrange(0, i as int).push(s@[i as int]));
            lemma_bytes_tokens_push(s@.subrange(0, i as int), s@[i as int]);
        }
        out.push(Token::Byte(s[i]));
        i = i + 1;
    }
    assert(s@.subrange(0, n as int) =~= s@);
}

/// Appends the text `s`.
pub fn emit(out: &mut Vec<Token>, s: &str)
    ensures
        final(out)@ == old(out)@ + text_tokens(s),
{
    reveal(text);
    emit_bytes(out, s.as_bytes());
}

/// Appends the string `s` verbatim.
pub fn emit_string(out: &mut Vec<Token>, s: &String)
    ensures
        final(out)@ == old(out)@ + bytes_tokens(string_bytes(*s)),
{
    emit_bytes(out, s.as_str().as_bytes());
}

/// Appends the decimal form of `n`.
pub fn emit_u64(out: &mut Vec<Token>, n: u64)
    ensures
        final(out)@ == old(out)@ + num_tokens(n as int),
    decreases n,
{
    if n >= 10 {
        emit_u64(out, n / 10);
    }
    let d: u8 = (n % 10) as u8;
    out.push(Token::Byte(48 + d));
    proof {
        if n >= 10 {
            lemma_bytes_tokens_push(dec((n / 10) as nat), (48 + n % 10) as u8);
        }
        assert(final(out)@ =~= old(out)@ + num_tokens(n as int));
    }
}

/// Appends the decimal form of `n`.
pub fn emit_i64(out: &mut Vec<Token>, n: i64)
    ensures
        final(out)@ == old(out)@ + num_tokens(n as int),
{
    if n < 0 {
        out.push(Token::Byte(45));
        let m: u64 = if n == i64::MIN {
            0x8000_0000_0000_0000u64
        } else {
            (-n) as u64
        };
        emit_u64(out, m);
        proof {
            lemma_bytes_tokens_add(seq![45u8], dec(m as nat));
            assert(bytes_tokens(seq![45u8]) =~= seq![Token::Byte(45)]);
            assert(final(out)@ =~= old(out)@ + num_tokens(n as int));
        }
    } else {
        emit_u64(out, n as u64);
    }
}

/// Appends the `k`-byte binary form of the word `w` at byte order `bo`.
pub fn emit_word(out: &mut Vec<Token>, w: u64, k: usize, bo: ByteOrder)
    ensures
        final(out)@ == old(out)@ + bytes_tokens(word_bytes(w as nat, k as nat, bo)),
    decreases k,
{
    if k > 0 {
        let low: u8 = (w % 256) as u8;
        match bo {
            ByteOrder::BigEndian => {
                emit_word(out, w / 256, k - 1, bo);
                out.push(Token::Byte(low));
                proof {
                    lemma_bytes_tokens_push(be_bytes((w / 256) as nat, (k - 1) as nat), low);
                }
            },
            ByteOrder::LittleEndian => {
                out.push(Token::Byte(low));
                emit_word(out, w / 256, k - 1, bo);
                proof {
                    lemma_bytes_tokens_add(seq![low], le_bytes((w / 256) as nat, (k - 1) as nat));
                    assert(bytes_tokens(seq![low]) =~= seq![Token::Byte(low)]);
                }
            },
        }
        assert(final(out)@ =~= old(out)@ + bytes_tokens(word_bytes(w as nat, k as nat, bo)));
    } else {
        assert(final(out)@ =~= old(out)@ + bytes_tokens(word_bytes(w as nat, k as nat, bo)));
    }
}

} // verus!

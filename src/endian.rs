use vstd::prelude::*;

verus! {

/// Byte order of multi-byte values in binary data.
#[derive(Copy, Clone, Debug, PartialEq, Eq, Structural)]
pub enum ByteOrder {
    BigEndian,
    LittleEndian,
}

/// `256` to the power `k`.
pub open spec fn pow256(k: nat) -> nat
    decreases k,
{
    if k == 0 {
        1
    } else {
        256 * pow256((k - 1) as nat)
    }
}

/// The `k` bytes of the low `k` bytes of `w`, most significant first.
pub open spec fn be_bytes(w: nat, k: nat) -> Seq<u8>
    decreases k,
{
    if k == 0 {
        Seq::empty()
    } else {
        be_bytes(w / 256, (k - 1) as nat).push((w % 256) as u8)
    }
}

/// The `k` bytes of the low `k` bytes of `w`, least significant first.
pub open spec fn le_bytes(w: nat, k: nat) -> Seq<u8>
    decreases k,
{
    if k == 0 {
        Seq::empty()
    } else {
        seq![(w % 256) as u8] + le_bytes(w / 256, (k - 1) as nat)
    }
}

/// The binary form of the word `w` in `k` bytes at byte order `bo`.
pub open spec fn word_bytes(w: nat, k: nat, bo: ByteOrder) -> Seq<u8> {
    match bo {
        ByteOrder::BigEndian => be_bytes(w, k),
        ByteOrder::LittleEndian => le_bytes(w, k),
    }
}

/// The number whose bytes, most significant first, are `s`.
pub open spec fn be_value(s: Seq<u8>) -> nat
    decreases s.len(),
{
    if s.len() == 0 {
        0
    } else {
        be_value(s.drop_last()) * 256 + s.last() as nat
    }
}

/// The number whose bytes, least significant first, are `s`.
pub open spec fn le_value(s: Seq<u8>) -> nat
    decreases s.len(),
{
    if s.len() == 0 {
        0
    } else {
        le_value(s.drop_first()) * 256 + s[0] as nat
    }
}

/// The number that the bytes `s` encode at byte order `bo`.
pub open spec fn word_value(s: Seq<u8>, bo: ByteOrder) -> nat {
    match bo {
        ByteOrder::BigEndian => be_value(s),
        ByteOrder::LittleEndian => le_value(s),
    }
}

pub proof fn lemma_pow256_pos(k: nat)
    ensures
        pow256(k) >= 1,
    decreases k,
{
    if k > 0 {
        lemma_pow256_pos((k - 1) as nat);
    }
}

pub proof fn lemma_pow256_8()
    ensures
        pow256(8) == 0x1_0000_0000_0000_0000,
{
    reveal_with_fuel(pow256, 9);
}

pub proof fn lemma_be_value_bound(s: Seq<u8>)
    ensures
        be_value(s) < pow256(s.len()),
    decreases s.len(),
{
    if s.len() > 0 {
        lemma_be_value_bound(s.drop_last());
        let a = be_value(s.drop_last());
        let p = pow256((s.len() - 1) as nat);
        let b = s.last() as nat;
        assert(a * 256 + b < 256 * p) by (nonlinear_arith)
            requires
                a < p,
                b < 256,
        ;
    }
}

pub proof fn lemma_le_value_bound(s: Seq<u8>)
    ensures
        le_value(s) < pow256(s.len()),
    decreases s.len(),
{
    if s.len() > 0 {
        lemma_le_value_bound(s.drop_first());
        let a = le_value(s.drop_first());
        let p = pow256((s.len() - 1) as nat);
        let b = s[0] as nat;
        assert(a * 256 + b < 256 * p) by (nonlinear_arith)
            requires
                a < p,
                b < 256,
        ;
    }
}

pub proof fn lemma_word_value_bound(s: Seq<u8>, bo: ByteOrder)
    ensures
        word_value(s, bo) < pow256(s.len()),
{
    lemma_be_value_bound(s);
    lemma_le_value_bound(s);
}

pub proof fn lemma_word_bytes_len(w: nat, k: nat, bo: ByteOrder)
    ensures
        word_bytes(w, k, bo).len() == k,
    decreases k,
{
    if k > 0 {
        lemma_word_bytes_len(w / 256, (k - 1) as nat, bo);
    }
}

/// Reading back the `k`-byte form of `w` gives `w` modulo `256^k`.
pub proof fn lemma_word_round_trip(w: nat, k: nat, bo: ByteOrder)
    ensures
        word_value(word_bytes(w, k, bo), bo) == w % pow256(k),
    decreases k,
{
    if k == 0 {
    } else {
        let k1 = (k - 1) as nat;
        lemma_word_round_trip(w / 256, k1, bo);
        lemma_pow256_pos(k1);
        let p = pow256(k1);
        match bo {
            ByteOrder::BigEndian => {
                let s = be_bytes(w, k);
                assert(s.drop_last() =~= be_bytes(w / 256, k1));
            },
            ByteOrder::LittleEndian => {
                let s = le_bytes(w, k);
                assert(s.drop_first() =~= le_bytes(w / 256, k1));
            },
        }
        assert(((w / 256) % p) * 256 + w % 256 == w % (256 * p)) by (nonlinear_arith)
            requires
                p >= 1,
        {
            vstd::arithmetic::div_mod::lemma_breakdown(w as int, 256, p as int);
        }
    }
}

/// Reads the `k`-byte word at `pos` in `input`.
pub fn read_word(input: &[u8], pos: usize, k: usize, bo: ByteOrder) -> (r: u64)
    requires
        k <= 8,
        pos + k <= input@.len(),
    ensures
        r == word_value(input@.subrange(pos as int, pos + k), bo),
    decreases k,
{
    let ghost s = input@.subrange(pos as int, pos + k);
    let n = input.len();
    proof {
        lemma_word_value_bound(s, bo);
        lemma_pow256_8();
        assert(pow256(k as nat) <= pow256(8)) by {
            lemma_pow256_mono(k as nat, 8);
        }
    }
    if k == 0 {
        0
    } else {
        match bo {
            ByteOrder::BigEndian => {
                let a = read_word(input, pos, k - 1, bo);
                assert(s.drop_last() =~= input@.subrange(pos as int, pos + k - 1));
                a * 256 + input[pos + (k - 1)] as u64
            },
            ByteOrder::LittleEndian => {
                let a = read_word(input, pos + 1, k - 1, bo);
                assert(s.drop_first() =~= input@.subrange(pos + 1, pos + k));
                a * 256 + input[pos] as u64
            },
        }
    }
}

pub proof fn lemma_pow256_mono(a: nat, b: nat)
    requires
        a <= b,
    ensures
        pow256(a) <= pow256(b),
    decreases b,
{
    if a < b {
        lemma_pow256_mono(a, (b - 1) as nat);
        lemma_pow256_pos((b - 1) as nat);
    }
}

/// Relies on `u16::to_ne_bytes`: the machine's byte order shows in how `1`
/// is laid out.
#[verifier::external_body]
fn native_layout_of_one() -> (r: [u8; 2])
    ensures
        (r[0] == 1 && r[1] == 0) || (r[0] == 0 && r[1] == 1),
{
    1u16.to_ne_bytes()
}

impl ByteOrder {
    /// The byte order of the machine the program runs on.
    pub fn native() -> ByteOrder {
        let b = native_layout_of_one();
        if b[0] == 1 {
            ByteOrder::LittleEndian
        } else {
            ByteOrder::BigEndian
        }
    }
}

} // verus!

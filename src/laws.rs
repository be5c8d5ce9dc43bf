use vstd::prelude::*;
use crate::basic::{
    ascii_ints_spec, dec_value, digits_end, in_range, integer_token, is_digit, is_signed, is_space,
    spaces_end, unsigned_token, words_at, AsciiOutcome, TokenOutcome,
};
use crate::endian::{
    lemma_pow256_pos, lemma_word_bytes_len, lemma_word_round_trip, pow256, word_bytes, ByteOrder,
};
use crate::basic::FileType;
use crate::model::{Attributes, CellType, Cells, DataType, Extent, IOBuffer, Vec3, Version};
use crate::output::{bytes_tokens, dec, dec_int, lemma_bytes_tokens_add, num_tokens, text_tokens, Token};
use crate::writer::{
    attributes_tokens, buf_tokens, buffer_texts, cell_types_section_tokens, cells_section_tokens,
    dims_tokens, points_tokens, tag_tokens, unstructured_grid_tokens, image_data_tokens, joined, lookup_line_tokens, nl,
    vec3_tokens, words_bytes,
};

verus! {

proof fn lemma_words_bytes_len(ws: Seq<u64>, k: nat, bo: ByteOrder)
    ensures
        words_bytes(ws, k, bo).len() == ws.len() * k,
    decreases ws.len(),
{
    if ws.len() > 0 {
        lemma_words_bytes_len(ws.drop_last(), k, bo);
        lemma_word_bytes_len(ws.last() as nat, k, bo);
        assert((ws.len() - 1) * k + k == ws.len() * k) by (nonlinear_arith);
    }
}

proof fn lemma_words_bytes_slice(ws: Seq<u64>, k: nat, bo: ByteOrder, i: int)
    requires
        0 <= i < ws.len(),
    ensures
        words_bytes(ws, k, bo).subrange(i * k, i * k + k) == word_bytes(ws[i] as nat, k, bo),
    decreases ws.len(),
{
    let pre = ws.drop_last();
    lemma_words_bytes_len(pre, k, bo);
    lemma_word_bytes_len(ws.last() as nat, k, bo);
    let all = words_bytes(ws, k, bo);
    if i < ws.len() - 1 {
        lemma_words_bytes_slice(pre, k, bo, i);
        assert(i * k + k <= (ws.len() - 1) * k) by (nonlinear_arith)
            requires
                i < ws.len() - 1,
        ;
        assert(all.subrange(i * k, i * k + k) =~= words_bytes(pre, k, bo).subrange(i * k, i * k + k));
    } else {
        assert(i * k == (ws.len() - 1) * k);
        assert(all.subrange(i * k, i * k + k) =~= word_bytes(ws.last() as nat, k, bo));
    }
}

/// Every word of a buffer fits in the width of its element type.
pub proof fn lemma_words_fit(b: IOBuffer, i: int)
    requires
        0 <= i < b.words().len(),
    ensures
        b.words()[i] < pow256(b.data_type_spec().width_spec()),
{
    reveal_with_fuel(pow256, 9);
}

/// Decoding the binary form of values gives the values back: for any words
/// that fit in `k` bytes and either byte order, reading `ws.len()` words of
/// `k` bytes from their encoding yields `ws`, and consumes exactly the
/// encoding.
pub proof fn lemma_words_round_trip(ws: Seq<u64>, k: nat, bo: ByteOrder)
    requires
        forall|i: int| 0 <= i < ws.len() ==> #[trigger] ws[i] < pow256(k),
    ensures
        words_bytes(ws, k, bo).len() == ws.len() * k,
        words_at(words_bytes(ws, k, bo), ws.len(), k, bo) == ws,
{
    lemma_words_bytes_len(ws, k, bo);
    let s = words_bytes(ws, k, bo);
    assert forall|i: int| 0 <= i < ws.len() implies words_at(s, ws.len(), k, bo)[i] == ws[i] by {
        lemma_words_bytes_slice(ws, k, bo, i);
        lemma_word_round_trip(ws[i] as nat, k, bo);
        lemma_pow256_pos(k);
        vstd::arithmetic::div_mod::lemma_small_mod(ws[i] as nat, pow256(k));
    }
    assert(words_at(s, ws.len(), k, bo) =~= ws);
}

/// The binary round trip of a buffer: for every element type but packed
/// bits and either byte order, decoding `b.len()` values of `b`'s type from
/// the bytes that writing `b` in binary produces yields exactly `b`'s values,
/// bit for bit, and consumes all of those bytes.
pub proof fn lemma_buffer_round_trip(b: IOBuffer, bo: ByteOrder)
    ensures
        ({
            let k = b.data_type_spec().width_spec();
            let s = words_bytes(b.words(), k, bo);
            &&& s.len() == b.len_spec() * k
            &&& words_at(s, b.len_spec(), k, bo) == b.words()
        }),
{
    let k = b.data_type_spec().width_spec();
    assert forall|i: int| 0 <= i < b.words().len() implies #[trigger] b.words()[i] < pow256(k) by {
        lemma_words_fit(b, i);
    }
    lemma_words_round_trip(b.words(), k, bo);
}

/// The attribute block always carries both headers: with no point and no
/// cell attributes it is exactly `POINT_DATA {points}` and
/// `CELL_DATA {cells}`, each on a line of its own after a blank line.
pub proof fn lemma_empty_attributes_headers(
    data: Attributes,
    num_points: int,
    num_cells: int,
    ft: FileType,
    bo: ByteOrder,
)
    requires
        data.point@.len() == 0,
        data.cell@.len() == 0,
    ensures
        attributes_tokens(data, num_points, num_cells, ft, bo) == text_tokens("\nPOINT_DATA ")
            + num_tokens(num_points) + nl() + text_tokens("\nCELL_DATA ") + num_tokens(num_cells)
            + nl(),
{
    assert(attributes_tokens(data, num_points, num_cells, ft, bo) =~= text_tokens("\nPOINT_DATA ")
        + num_tokens(num_points) + nl() + text_tokens("\nCELL_DATA ") + num_tokens(num_cells)
        + nl());
}

/// A scalars attribute without a lookup table names the table `default`.
pub proof fn lemma_default_lookup_table()
    ensures
        lookup_line_tokens(None) == text_tokens("LOOKUP_TABLE ") + text_tokens("default") + nl(),
{
}

/// Image data of a file before version 2 and of a later one differ only in
/// the keyword of the spacing line: `ASPECT_RATIO` for the former, `SPACING`
/// for the latter.
pub proof fn lemma_spacing_keyword_by_version(
    extent: Extent,
    origin: Vec3,
    spacing: Vec3,
    data: Attributes,
    old_version: Version,
    new_version: Version,
    ft: FileType,
    bo: ByteOrder,
)
    requires
        old_version.major < 2,
        new_version.major >= 2,
    ensures
        ({
            let before = text_tokens("DATASET STRUCTURED_POINTS\n") + dims_tokens(extent)
                + text_tokens("ORIGIN ") + vec3_tokens(origin);
            let after = text_tokens(" ") + vec3_tokens(spacing) + attributes_tokens(
                data,
                extent.num_points_spec(),
                0,
                ft,
                bo,
            );
            &&& image_data_tokens(extent, origin, spacing, data, old_version, ft, bo) == before
                + text_tokens("ASPECT_RATIO") + after
            &&& image_data_tokens(extent, origin, spacing, data, new_version, ft, bo) == before
                + text_tokens("SPACING") + after
        }),
{
    let before = text_tokens("DATASET STRUCTURED_POINTS\n") + dims_tokens(extent) + text_tokens(
        "ORIGIN ",
    ) + vec3_tokens(origin);
    let after = text_tokens(" ") + vec3_tokens(spacing) + attributes_tokens(
        data,
        extent.num_points_spec(),
        0,
        ft,
        bo,
    );
    assert(image_data_tokens(extent, origin, spacing, data, old_version, ft, bo) =~= before
        + text_tokens("ASPECT_RATIO") + after);
    assert(image_data_tokens(extent, origin, spacing, data, new_version, ft, bo) =~= before
        + text_tokens("SPACING") + after);
}

proof fn lemma_dec_digits(n: nat)
    ensures
        dec(n).len() >= 1,
        forall|i: int| 0 <= i < dec(n).len() ==> is_digit(#[trigger] dec(n)[i]),
        dec_value(dec(n)) == n,
    decreases n,
{
    if n >= 10 {
        lemma_dec_digits(n / 10);
        assert(dec(n).drop_last() =~= dec(n / 10));
        vstd::arithmetic::div_mod::lemma_fundamental_div_mod(n as int, 10);
        assert(dec_value(dec(n)) == dec_value(dec(n / 10)) * 10 + (dec(n).last() - 48) as nat);
        assert((n / 10) * 10 + n % 10 == n) by (nonlinear_arith)
            requires
                n == 10 * (n / 10) + n % 10,
        ;
    } else {
        assert(dec(n).drop_last() =~= Seq::<u8>::empty());
        assert(dec_value(Seq::<u8>::empty()) == 0);
        assert(dec_value(dec(n)) == dec_value(dec(n).drop_last()) * 10 + (dec(n).last() - 48) as nat);
    }
}

proof fn lemma_digits_end_run(s: Seq<u8>, i: int, j: int)
    requires
        0 <= i <= j <= s.len(),
        forall|k: int| i <= k < j ==> is_digit(#[trigger] s[k]),
        j == s.len() || !is_digit(s[j]),
    ensures
        digits_end(s, i) == j,
    decreases j - i,
{
    if i < j {
        lemma_digits_end_run(s, i + 1, j);
    }
}

/// Reading back the decimal text of a natural number gives the number: for
/// any `n` and any following bytes that do not start with a digit, the
/// unsigned-integer token at the start is exactly the text of `n`.
pub proof fn lemma_unsigned_text_round_trip(n: nat, rest: Seq<u8>)
    requires
        rest.len() == 0 || !is_digit(rest[0]),
    ensures
        unsigned_token(dec(n) + rest, 0) == TokenOutcome::Done(dec(n).len() as int, n as int),
{
    let t = dec(n);
    let s = t + rest;
    lemma_dec_digits(n);
    lemma_digits_end_run(s, 0, t.len() as int);
    assert(s.subrange(0, t.len() as int) =~= t);
}

/// Reading back the decimal text of an integer, as the writer emits it,
/// gives the integer: for any `v` and any following bytes that do not start
/// with a digit, the signed-integer token at the start is exactly the text
/// of `v`.
pub proof fn lemma_integer_text_round_trip(v: int, rest: Seq<u8>)
    requires
        rest.len() == 0 || !is_digit(rest[0]),
    ensures
        integer_token(dec_int(v) + rest, 0) == TokenOutcome::Done(dec_int(v).len() as int, v),
{
    let m: nat = if v < 0 { (-v) as nat } else { v as nat };
    let t = dec(m);
    lemma_dec_digits(m);
    if v < 0 {
        let s = dec_int(v) + rest;
        assert(s =~= seq![45u8] + (t + rest));
        lemma_digits_end_run(s, 1, t.len() as int + 1);
        assert(s.subrange(1, t.len() as int + 1) =~= t);
    } else {
        let s = t + rest;
        assert(!is_digit(45u8));
        lemma_digits_end_run(s, 0, t.len() as int);
        assert(s.subrange(0, t.len() as int) =~= t);
        assert(is_digit(s[0]));
    }
}

/// The decimal texts of `vs` separated by single spaces.
pub open spec fn values_text(vs: Seq<int>) -> Seq<u8>
    decreases vs.len(),
{
    if vs.len() == 0 {
        Seq::empty()
    } else if vs.len() == 1 {
        dec_int(vs[0])
    } else {
        values_text(vs.drop_last()) + seq![32u8] + dec_int(vs.last())
    }
}

proof fn lemma_dec_int_shape(v: int)
    ensures
        dec_int(v).len() >= 1,
        !is_space(dec_int(v)[0]),
        v >= 0 ==> dec_int(v) == dec(v as nat),
{
    let m: nat = if v < 0 { (-v) as nat } else { v as nat };
    lemma_dec_digits(m);
    if v < 0 {
        assert(dec_int(v)[0] == 45u8);
    } else {
        assert(is_digit(dec_int(v)[0]));
    }
}

/// An integer token whose text is `dec_int(v)` at `q`, followed by a byte
/// that is not a digit, reads as `v`.
proof fn lemma_token_at(s: Seq<u8>, q: int, v: int, signed: bool)
    requires
        0 <= q,
        q + dec_int(v).len() < s.len(),
        s.subrange(q, q + dec_int(v).len()) == dec_int(v),
        !is_digit(s[q + dec_int(v).len()]),
        signed || v >= 0,
    ensures
        (if signed { integer_token(s, q) } else { unsigned_token(s, q) }) == TokenOutcome::Done(
            q + dec_int(v).len(),
            v,
        ),
{
    let t = dec_int(v);
    let e = q + t.len();
    let m: nat = if v < 0 { (-v) as nat } else { v as nat };
    let d = dec(m);
    lemma_dec_digits(m);
    if v < 0 {
        assert(t =~= seq![45u8] + d);
        assert(s[q] == t[0]);
        assert forall|k: int| q + 1 <= k < e implies is_digit(#[trigger] s[k]) by {
            assert(s[k] == s.subrange(q, e)[k - q]);
            assert(t[k - q] == d[k - q - 1]);
        }
        lemma_digits_end_run(s, q + 1, e);
        assert(s.subrange(q + 1, e) =~= d) by {
            assert forall|k: int| 0 <= k < d.len() implies s.subrange(q + 1, e)[k] == d[k] by {
                assert(s[q + 1 + k] == s.subrange(q, e)[k + 1]);
            }
        }
    } else {
        assert(t == d);
        assert forall|k: int| q <= k < e implies is_digit(#[trigger] s[k]) by {
            assert(s[k] == s.subrange(q, e)[k - q]);
        }
        assert(!is_digit(45u8));
        assert(s[q] == t[0]);
        lemma_digits_end_run(s, q, e);
    }
}

/// Where the text of the first `i` values ends in `values_text(vs)`.
proof fn lemma_values_text_prefix(vs: Seq<int>, i: int)
    requires
        1 <= i <= vs.len(),
    ensures
        values_text(vs).subrange(0, values_text(vs.subrange(0, i)).len() as int) == values_text(
            vs.subrange(0, i),
        ),
        values_text(vs.subrange(0, i)).len() <= values_text(vs).len(),
        i < vs.len() ==> values_text(vs.subrange(0, i + 1)) == values_text(vs.subrange(0, i)) + seq![32u8]
            + dec_int(vs[i]),
    decreases vs.len(),
{
    if i < vs.len() {
        assert(vs.subrange(0, i + 1).drop_last() =~= vs.subrange(0, i));
        if i + 1 < vs.len() {
            lemma_values_text_prefix(vs.drop_last(), i);
            assert(vs.drop_last().subrange(0, i) =~= vs.subrange(0, i));
            assert(vs.drop_last().subrange(0, i + 1) =~= vs.subrange(0, i + 1));
            lemma_values_text_prefix(vs.drop_last(), i + 1);
        } else {
            assert(vs.subrange(0, i + 1) =~= vs);
        }
        let a = values_text(vs.subrange(0, i));
        let b = values_text(vs.subrange(0, i + 1));
        let w = values_text(vs);
        if i + 1 < vs.len() {
            assert(vs.drop_last().subrange(0, i + 1) =~= vs.subrange(0, i + 1));
            assert(w.subrange(0, b.len() as int) =~= values_text(vs.drop_last()).subrange(0, b.len() as int));
        }
        assert(w.subrange(0, b.len() as int) == b);
        assert(w.subrange(0, a.len() as int) =~= b.subrange(0, a.len() as int));
    } else {
        assert(vs.subrange(0, i) =~= vs);
        assert(values_text(vs).subrange(0, values_text(vs).len() as int) =~= values_text(vs));
    }
}

/// What writing integer values in ASCII produces: their texts separated by
/// spaces, then a line break.
pub open spec fn values_line(vs: Seq<int>) -> Seq<u8> {
    values_text(vs) + seq![10u8]
}

/// Where reading the `i`-th value of `values_line(vs)` starts.
pub open spec fn value_start(vs: Seq<int>, i: int) -> int {
    if i == 0 {
        0
    } else {
        values_text(vs.subrange(0, i)).len() as int + 1
    }
}

proof fn lemma_read_step(vs: Seq<int>, dt: DataType, i: int)
    requires
        0 <= i < vs.len(),
        forall|j: int| 0 <= j < vs.len() ==> in_range(#[trigger] vs[j], dt),
    ensures
        ({
            let s = values_line(vs);
            let st = value_start(vs, i);
            let e = values_text(vs.subrange(0, i + 1)).len() as int;
            &&& spaces_end(s, st) == st
            &&& int_of_type_done(s, st, dt, e, vs[i])
            &&& spaces_end(s, e) == e + 1
            &&& e + 1 == value_start(vs, i + 1)
        }),
{
    let s = values_line(vs);
    let w = values_text(vs);
    let n = vs.len();
    let st = value_start(vs, i);
    let d = dec_int(vs[i]);
    let b = values_text(vs.subrange(0, i + 1));
    let e = b.len() as int;
    lemma_dec_int_shape(vs[i]);
    lemma_values_text_prefix(vs, i + 1);
    if i > 0 {
        lemma_values_text_prefix(vs, i);
    } else {
        assert(vs.subrange(0, 1) =~= seq![vs[0]]);
    }
    assert(st + d.len() == e);
    assert(b.subrange(st, e) =~= d);
    assert forall|k: int| 0 <= k < e implies s[k] == b[k] by {
        assert(s[k] == w[k]);
        assert(w.subrange(0, e)[k] == w[k]);
    }
    assert(s.subrange(st, e) =~= d) by {
        assert forall|k: int| 0 <= k < d.len() implies s.subrange(st, e)[k] == d[k] by {
            assert(s[st + k] == b[st + k]);
        }
    }
    if i + 1 < n {
        lemma_values_text_prefix(vs, i + 2);
        let c = values_text(vs.subrange(0, i + 2));
        lemma_dec_int_shape(vs[i + 1]);
        assert(c[e] == 32u8);
        assert(s[e] == w[e]);
        assert(w.subrange(0, c.len() as int)[e] == w[e]);
        assert(c[e + 1] == dec_int(vs[i + 1])[0]);
        assert(s[e + 1] == w[e + 1]);
        assert(w.subrange(0, c.len() as int)[e + 1] == w[e + 1]);
    } else {
        assert(vs.subrange(0, i + 1) =~= vs);
        assert(s[e] == 10u8);
    }
    assert(!is_digit(s[e]));
    assert(is_space(s[e]));
    assert(!is_space(s[st]));
    let signed = is_signed(dt);
    assert(signed || vs[i] >= 0) by {
        assert(in_range(vs[i], dt));
    }
    lemma_token_at(s, st, vs[i], signed);
    assert(in_range(vs[i], dt));
    assert(int_of_type_done(s, st, dt, e, vs[i]));
    assert(st < s.len());
    assert(spaces_end(s, st) == st);
    if i + 1 < n {
        assert(!is_space(s[e + 1]));
        assert(spaces_end(s, e + 1) == e + 1);
    } else {
        assert(e + 1 == s.len());
        assert(spaces_end(s, e + 1) == e + 1);
    }
    assert(spaces_end(s, e) == e + 1);
    assert(e + 1 == value_start(vs, i + 1));
}

/// Reading the integer of type `dt` at `st` ends at `e` with value `v`.
pub open spec fn int_of_type_done(s: Seq<u8>, st: int, dt: DataType, e: int, v: int) -> bool {
    crate::basic::int_of_type(s, st, dt) == TokenOutcome::Done(e, v)
}

proof fn lemma_read_prefix(vs: Seq<int>, dt: DataType, i: int)
    requires
        1 <= i <= vs.len(),
        forall|j: int| 0 <= j < vs.len() ==> in_range(#[trigger] vs[j], dt),
    ensures
        ascii_ints_spec(values_line(vs), i as nat, dt) == AsciiOutcome::Done(
            value_start(vs, i) as nat,
            vs.subrange(0, i),
        ),
    decreases i,
{
    let s = values_line(vs);
    lemma_read_step(vs, dt, i - 1);
    if i > 1 {
        lemma_read_prefix(vs, dt, i - 1);
    } else {
        assert(ascii_ints_spec(s, 0, dt) == AsciiOutcome::Done(0, Seq::<int>::empty()));
    }
    assert(vs.subrange(0, i) =~= vs.subrange(0, i - 1).push(vs[i - 1]));
    let p = value_start(vs, i - 1);
    let e = values_text(vs.subrange(0, i)).len() as int;
    assert(p >= 0);
    assert((p as nat) as int == p);
    assert(vs.subrange(0, 0) =~= Seq::<int>::empty());
    assert(ascii_ints_spec(s, (i - 1) as nat, dt) == AsciiOutcome::Done(p as nat, vs.subrange(0, i - 1)));
    assert(((i as nat) - 1) as nat == (i - 1) as nat);
    assert(crate::basic::int_of_type(s, spaces_end(s, p), dt) == TokenOutcome::Done(e, vs[i - 1]));
    assert(ascii_ints_spec(s, i as nat, dt) == AsciiOutcome::Done(
        spaces_end(s, e) as nat,
        vs.subrange(0, i - 1).push(vs[i - 1]),
    ));
}

/// The ASCII round trip of integer values: reading `vs.len()` integers of
/// type `dt` from the line that writing them produces gives `vs` back and
/// consumes the whole line, for any values of the type.
pub proof fn lemma_values_line_round_trip(vs: Seq<int>, dt: DataType)
    requires
        vs.len() >= 1,
        forall|j: int| 0 <= j < vs.len() ==> in_range(#[trigger] vs[j], dt),
    ensures
        ascii_ints_spec(values_line(vs), vs.len(), dt) == AsciiOutcome::Done(
            values_line(vs).len(),
            vs,
        ),
{
    lemma_read_prefix(vs, dt, vs.len() as int);
    assert(vs.subrange(0, vs.len() as int) =~= vs);
}

/// A one-character ASCII text is its single byte.
proof fn lemma_ascii_text(s: &str, b: Seq<u8>)
    requires
        s@.len() == 1,
        b.len() == 1,
        s@[0] as u8 == b[0],
        '\0' <= s@[0] <= '\u{7f}',
    ensures
        text_tokens(s) == bytes_tokens(b),
{
    reveal(crate::model::text);
    assert(vstd::utf8::is_ascii_chars(s@));
    vstd::utf8::is_ascii_chars_encode_utf8(s@);
    assert(crate::model::text(s) =~= b);
}

proof fn lemma_joined_values(vs: Seq<int>)
    ensures
        joined(vs.map_values(|v: int| num_tokens(v))) == bytes_tokens(values_text(vs)),
    decreases vs.len(),
{
    let es = vs.map_values(|v: int| num_tokens(v));
    if vs.len() > 1 {
        lemma_joined_values(vs.drop_last());
        assert(es.drop_last() =~= vs.drop_last().map_values(|v: int| num_tokens(v)));
        lemma_bytes_tokens_add(values_text(vs.drop_last()), seq![32u8]);
        lemma_bytes_tokens_add(values_text(vs.drop_last()) + seq![32u8], dec_int(vs.last()));
        assert(text_tokens(" ") == bytes_tokens(seq![32u8])) by {
            reveal_strlit(" ");
            lemma_ascii_text(" ", seq![32u8]);
        }
    } else if vs.len() == 0 {
        assert(bytes_tokens(Seq::<u8>::empty()) =~= Seq::<Token>::empty());
    }
}

/// The ASCII round trip of an integer buffer: writing `b` in ASCII emits the
/// bytes of `values_line(b.values())`, and reading `b.len()` integers of
/// `b`'s type from those bytes gives back exactly `b`'s values, consuming
/// them all.
pub proof fn lemma_integer_buffer_text_round_trip(b: IOBuffer, bo: ByteOrder)
    requires
        b.len_spec() >= 1,
        !(b is F32),
        !(b is F64),
    ensures
        crate::writer::buf_tokens(b, FileType::ASCII, bo) == bytes_tokens(values_line(b.values())),
        ascii_ints_spec(values_line(b.values()), b.len_spec(), b.data_type_spec()) == AsciiOutcome::Done(
            values_line(b.values()).len(),
            b.values(),
        ),
{
    let vs = b.values();
    let dt = b.data_type_spec();
    assert(buffer_texts(b) =~= vs.map_values(|v: int| num_tokens(v)));
    lemma_joined_values(vs);
    lemma_bytes_tokens_add(values_text(vs), seq![10u8]);
    assert(nl() == bytes_tokens(seq![10u8])) by {
        reveal_strlit("\n");
        lemma_ascii_text("\n", seq![10u8]);
    }
    assert forall|j: int| 0 <= j < vs.len() implies in_range(#[trigger] vs[j], dt) by {}
    assert(vs.len() == b.len_spec());
    lemma_values_line_round_trip(vs, dt);
}

/// A reader recovers the points of a binary unstructured grid: after the
/// dataset keyword and the `POINTS {n} {type}` line come exactly the binary
/// forms of the points' values, and decoding `3 n` values of that type there
/// gives the points back, followed by the line break and the `CELLS` section.
pub proof fn lemma_unstructured_points_recoverable(
    points: IOBuffer,
    cells: Cells,
    cell_types: Seq<CellType>,
    data: Attributes,
    bo: ByteOrder,
)
    requires
        points.len_spec() % 3 == 0,
    ensures
        ({
            let k = points.data_type_spec().width_spec();
            let payload = words_bytes(points.words(), k, bo);
            let header = text_tokens("DATASET UNSTRUCTURED_GRID\n") + text_tokens("POINTS ")
                + num_tokens(points.len_spec() as int / 3) + text_tokens(" ") + tag_tokens(points)
                + nl();
            &&& unstructured_grid_tokens(points, cells, cell_types, data, FileType::Binary, bo)
                == header + bytes_tokens(payload) + nl() + cells_section_tokens(
                cells,
                FileType::Binary,
                bo,
            ) + cell_types_section_tokens(cell_types, FileType::Binary, bo) + attributes_tokens(
                data,
                points.len_spec() as int / 3,
                cells.num_cells as int,
                FileType::Binary,
                bo,
            )
            &&& words_at(payload, 3 * (points.len_spec() / 3), k, bo) == points.words()
        }),
{
    let k = points.data_type_spec().width_spec();
    let payload = words_bytes(points.words(), k, bo);
    let header = text_tokens("DATASET UNSTRUCTURED_GRID\n") + text_tokens("POINTS ") + num_tokens(
        points.len_spec() as int / 3,
    ) + text_tokens(" ") + tag_tokens(points) + nl();
    assert(buf_tokens(points, FileType::Binary, bo) == bytes_tokens(payload) + nl());
    assert(unstructured_grid_tokens(points, cells, cell_types, data, FileType::Binary, bo) =~= header
        + bytes_tokens(payload) + nl() + cells_section_tokens(cells, FileType::Binary, bo)
        + cell_types_section_tokens(cell_types, FileType::Binary, bo) + attributes_tokens(
        data,
        points.len_spec() as int / 3,
        cells.num_cells as int,
        FileType::Binary,
        bo,
    ));
    lemma_buffer_round_trip(points, bo);
    assert(3 * (points.len_spec() / 3) == points.len_spec());
}

} // verus!

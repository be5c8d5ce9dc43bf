use vstd::prelude::*;
use crate::basic::FileType;
use crate::endian::{word_bytes, ByteOrder};
use crate::error::{AttributeError, DataSetError, DataSetPart, EntryPart, Error};
use crate::model::{
    arrays_wf, attrib_list_wf, string_bytes, total_cells, Attribute, Attributes, CellType, Cells,
    DataSet, Extent, FieldArray, IOBuffer, PolyDataTopology, Vec3, Version, Vtk,
};
use crate::output::{
    bytes_tokens, emit, emit_i64, emit_string, lemma_add3, emit_u64, emit_word, lemma_bytes_tokens_add, num_tokens,
    text_tokens, Token,
};

verus! {

/// A line break.
pub open spec fn nl() -> Seq<Token> {
    text_tokens("\n")
}

/// The binary forms of the words `ws`, each in `k` bytes, one after another.
pub open spec fn words_bytes(ws: Seq<u64>, k: nat, bo: ByteOrder) -> Seq<u8>
    decreases ws.len(),
{
    if ws.len() == 0 {
        Seq::empty()
    } else {
        words_bytes(ws.drop_last(), k, bo) + word_bytes(ws.last() as nat, k, bo)
    }
}

/// The texts `es` separated by single spaces.
pub open spec fn joined(es: Seq<Seq<Token>>) -> Seq<Token>
    decreases es.len(),
{
    if es.len() == 0 {
        Seq::empty()
    } else if es.len() == 1 {
        es[0]
    } else {
        joined(es.drop_last()) + text_tokens(" ") + es.last()
    }
}

/// Bulk data followed by a line break: in binary, each word in `k` bytes at
/// byte order `bo`; in ASCII, the element texts separated by spaces.
pub open spec fn data_tokens(
    words: Seq<u64>,
    texts: Seq<Seq<Token>>,
    k: nat,
    ft: FileType,
    bo: ByteOrder,
) -> Seq<Token> {
    match ft {
        FileType::Binary => bytes_tokens(words_bytes(words, k, bo)) + nl(),
        FileType::ASCII => joined(texts) + nl(),
    }
}

/// The text of each element of `b`: integers in decimal, reals as a token
/// holding their bits.
pub open spec fn buffer_texts(b: IOBuffer) -> Seq<Seq<Token>> {
    match b {
        IOBuffer::U8(v) => v@.map_values(|x: u8| num_tokens(x as int)),
        IOBuffer::I8(v) => v@.map_values(|x: i8| num_tokens(x as int)),
        IOBuffer::U16(v) => v@.map_values(|x: u16| num_tokens(x as int)),
        IOBuffer::I16(v) => v@.map_values(|x: i16| num_tokens(x as int)),
        IOBuffer::U32(v) => v@.map_values(|x: u32| num_tokens(x as int)),
        IOBuffer::I32(v) => v@.map_values(|x: i32| num_tokens(x as int)),
        IOBuffer::U64(v) => v@.map_values(|x: u64| num_tokens(x as int)),
        IOBuffer::I64(v) => v@.map_values(|x: i64| num_tokens(x as int)),
        IOBuffer::F32(v) => v@.map_values(|x: u32| seq![Token::Float(x)]),
        IOBuffer::F64(v) => v@.map_values(|x: u64| seq![Token::Double(x)]),
    }
}

/// What writing the buffer `b` emits.
pub open spec fn buf_tokens(b: IOBuffer, ft: FileType, bo: ByteOrder) -> Seq<Token> {
    data_tokens(b.words(), buffer_texts(b), b.data_type_spec().width_spec(), ft, bo)
}

/// What writing the index list `v` emits.
pub open spec fn u32s_tokens(v: Seq<u32>, ft: FileType, bo: ByteOrder) -> Seq<Token> {
    data_tokens(
        v.map_values(|x: u32| x as u64),
        v.map_values(|x: u32| num_tokens(x as int)),
        4,
        ft,
        bo,
    )
}

/// The cell type codes of `ts`, one per line.
pub open spec fn cell_type_lines(ts: Seq<CellType>) -> Seq<Token>
    decreases ts.len(),
{
    if ts.len() == 0 {
        Seq::empty()
    } else {
        cell_type_lines(ts.drop_last()) + num_tokens(ts.last().code_spec() as int) + nl()
    }
}

/// What writing the cell types `ts` emits: in binary, each code as a
/// four-byte integer then a line break; in ASCII, one code per line then an
/// empty line.
pub open spec fn cell_types_tokens(ts: Seq<CellType>, ft: FileType, bo: ByteOrder) -> Seq<Token> {
    match ft {
        FileType::Binary => bytes_tokens(
            words_bytes(ts.map_values(|t: CellType| t.code_spec() as u64), 4, bo),
        ) + nl(),
        FileType::ASCII => cell_type_lines(ts) + nl(),
    }
}

proof fn lemma_words_bytes_step(ws: Seq<u64>, i: int, k: nat, bo: ByteOrder)
    requires
        0 <= i < ws.len(),
    ensures
        words_bytes(ws.subrange(0, i + 1), k, bo) == words_bytes(ws.subrange(0, i), k, bo)
            + word_bytes(ws[i] as nat, k, bo),
{
    assert(ws.subrange(0, i + 1).drop_last() =~= ws.subrange(0, i));
}

proof fn lemma_joined_step(es: Seq<Seq<Token>>, i: int)
    requires
        0 <= i < es.len(),
    ensures
        joined(es.subrange(0, i + 1)) == if i == 0 {
            es[0]
        } else {
            joined(es.subrange(0, i)) + text_tokens(" ") + es[i]
        },
{
    assert(es.subrange(0, i + 1).drop_last() =~= es.subrange(0, i));
}

/// Appends the text of the `i`-th element of `b`.
fn emit_elem(out: &mut Vec<Token>, b: &IOBuffer, i: usize)
    requires
        i < b.len_spec(),
    ensures
        final(out)@ == old(out)@ + buffer_texts(*b)[i as int],
{
    match b {
        IOBuffer::U8(v) => emit_u64(out, v[i] as u64),
        IOBuffer::I8(v) => emit_i64(out, v[i] as i64),
        IOBuffer::U16(v) => emit_u64(out, v[i] as u64),
        IOBuffer::I16(v) => emit_i64(out, v[i] as i64),
        IOBuffer::U32(v) => emit_u64(out, v[i] as u64),
        IOBuffer::I32(v) => emit_i64(out, v[i] as i64),
        IOBuffer::U64(v) => emit_u64(out, v[i]),
        IOBuffer::I64(v) => emit_i64(out, v[i]),
        IOBuffer::F32(v) => {
            out.push(Token::Float(v[i]));
            assert(final(out)@ =~= old(out)@ + seq![Token::Float(v@[i as int])]);
        },
        IOBuffer::F64(v) => {
            out.push(Token::Double(v[i]));
            assert(final(out)@ =~= old(out)@ + seq![Token::Double(v@[i as int])]);
        },
    }
}

/// Appends the bulk data of `b` and a line break.
pub fn write_buf(out: &mut Vec<Token>, b: &IOBuffer, ft: FileType, bo: ByteOrder)
    ensures
        final(out)@ == old(out)@ + buf_tokens(*b, ft, bo),
{
    let n = b.len();
    let ghost ws = b.words();
    let ghost ts = buffer_texts(*b);
    assert(ts.len() == n);
    match ft {
        FileType::Binary => {
            let k = b.data_type().width();
            let mut i: usize = 0;
            while i < n
                invariant
                    n == ws.len(),
                    ws == b.words(),
                    k == b.data_type_spec().width_spec(),
                    i <= n,
                    out@ == old(out)@ + bytes_tokens(words_bytes(ws.subrange(0, i as int), k as nat, bo)),
                decreases n - i,
            {
                let w = b.word(i);
                emit_word(out, w, k, bo);
                proof {
                    lemma_words_bytes_step(ws, i as int, k as nat, bo);
                    lemma_bytes_tokens_add(
                        words_bytes(ws.subrange(0, i as int), k as nat, bo),
                        word_bytes(w as nat, k as nat, bo),
                    );
                }
                i = i + 1;
            }
            assert(ws.subrange(0, n as int) =~= ws);
        },
        FileType::ASCII => {
            let mut i: usize = 0;
            while i < n
                invariant
                    n == ts.len(),
                    n == b.len_spec(),
                    ts == buffer_texts(*b),
                    i <= n,
                    out@ == old(out)@ + joined(ts.subrange(0, i as int)),
                decreases n - i,
            {
                if i > 0 {
                    emit(out, " ");
                }
                emit_elem(out, b, i);
                proof {
                    lemma_joined_step(ts, i as int);
                }
                assert(out@ =~= old(out)@ + joined(ts.subrange(0, i + 1)));
                i = i + 1;
            }
            assert(ts.subrange(0, n as int) =~= ts);
        },
    }
    emit(out, "\n");
    assert(final(out)@ =~= old(out)@ + buf_tokens(*b, ft, bo));
}

/// Appends the index list `v` and a line break.
pub fn write_u32_vec(out: &mut Vec<Token>, v: &Vec<u32>, ft: FileType, bo: ByteOrder)
    ensures
        final(out)@ == old(out)@ + u32s_tokens(v@, ft, bo),
{
    let n = v.len();
    let ghost ws = v@.map_values(|x: u32| x as u64);
    let ghost ts = v@.map_values(|x: u32| num_tokens(x as int));
    match ft {
        FileType::Binary => {
            let mut i: usize = 0;
            while i < n
                invariant
                    n == v@.len(),
                    ws == v@.map_values(|x: u32| x as u64),
                    i <= n,
                    out@ == old(out)@ + bytes_tokens(words_bytes(ws.subrange(0, i as int), 4, bo)),
                decreases n - i,
            {
                emit_word(out, v[i] as u64, 4, bo);
                proof {
                    lemma_words_bytes_step(ws, i as int, 4, bo);
                    lemma_bytes_tokens_add(
                        words_bytes(ws.subrange(0, i as int), 4, bo),
                        word_bytes(v@[i as int] as nat, 4, bo),
                    );
                }
                i = i + 1;
            }
            assert(ws.subrange(0, n as int) =~= ws);
        },
        FileType::ASCII => {
            let mut i: usize = 0;
            while i < n
                invariant
                    n == v@.len(),
                    ts == v@.map_values(|x: u32| num_tokens(x as int)),
                    i <= n,
                    out@ == old(out)@ + joined(ts.subrange(0, i as int)),
                decreases n - i,
            {
                if i > 0 {
                    emit(out, " ");
                }
                emit_u64(out, v[i] as u64);
                proof {
                    lemma_joined_step(ts, i as int);
                }
                assert(out@ =~= old(out)@ + joined(ts.subrange(0, i + 1)));
                i = i + 1;
            }
            assert(ts.subrange(0, n as int) =~= ts);
        },
    }
    emit(out, "\n");
    assert(final(out)@ =~= old(out)@ + u32s_tokens(v@, ft, bo));
}

/// Appends the cell type codes `ts`.
pub fn write_cell_types(out: &mut Vec<Token>, ts: &Vec<CellType>, ft: FileType, bo: ByteOrder)
    ensures
        final(out)@ == old(out)@ + cell_types_tokens(ts@, ft, bo),
{
    let n = ts.len();
    let ghost ws = ts@.map_values(|t: CellType| t.code_spec() as u64);
    match ft {
        FileType::Binary => {
            let mut i: usize = 0;
            while i < n
                invariant
                    n == ts@.len(),
                    ws == ts@.map_values(|t: CellType| t.code_spec() as u64),
                    i <= n,
                    out@ == old(out)@ + bytes_tokens(words_bytes(ws.subrange(0, i as int), 4, bo)),
                decreases n - i,
            {
                let c = ts[i].code();
                emit_word(out, c as u64, 4, bo);
                proof {
                    lemma_words_bytes_step(ws, i as int, 4, bo);
                    lemma_bytes_tokens_add(
                        words_bytes(ws.subrange(0, i as int), 4, bo),
                        word_bytes(c as nat, 4, bo),
                    );
                }
                i = i + 1;
            }
            assert(ws.subrange(0, n as int) =~= ws);
        },
        FileType::ASCII => {
            let mut i: usize = 0;
            while i < n
                invariant
                    n == ts@.len(),
                    i <= n,
                    out@ == old(out)@ + cell_type_lines(ts@.subrange(0, i as int)),
                decreases n - i,
            {
                let c = ts[i].code();
                emit_u64(out, c as u64);
                emit(out, "\n");
                assert(ts@.subrange(0, i + 1).drop_last() =~= ts@.subrange(0, i as int));
                assert(out@ =~= old(out)@ + cell_type_lines(ts@.subrange(0, i + 1)));
                i = i + 1;
            }
            assert(ts@.subrange(0, n as int) =~= ts@);
        },
    }
    emit(out, "\n");
    assert(final(out)@ =~= old(out)@ + cell_types_tokens(ts@, ft, bo));
}

/// The tokens of a name, written verbatim.
pub open spec fn str_tokens(s: String) -> Seq<Token> {
    bytes_tokens(string_bytes(s))
}

/// The type keyword of the buffer `b`.
pub open spec fn tag_tokens(b: IOBuffer) -> Seq<Token> {
    bytes_tokens(b.data_type_spec().tag_spec())
}

/// What writing one field array emits: its header line, then its data.
pub open spec fn array_tokens(f: FieldArray, ft: FileType, bo: ByteOrder) -> Seq<Token> {
    str_tokens(f.name) + text_tokens(" ") + num_tokens(f.num_comp as int) + text_tokens(" ")
        + num_tokens(f.data.len_spec() as int / f.num_comp as int) + text_tokens(" ")
        + tag_tokens(f.data) + nl() + buf_tokens(f.data, ft, bo)
}

/// What writing the field arrays `fs` emits.
pub open spec fn arrays_tokens(fs: Seq<FieldArray>, ft: FileType, bo: ByteOrder) -> Seq<Token>
    decreases fs.len(),
{
    if fs.len() == 0 {
        Seq::empty()
    } else {
        arrays_tokens(fs.drop_last(), ft, bo) + array_tokens(fs.last(), ft, bo)
    }
}

/// What writing the field named `name` with arrays `fs` emits.
pub open spec fn field_tokens(name: String, fs: Seq<FieldArray>, ft: FileType, bo: ByteOrder) -> Seq<
    Token,
> {
    text_tokens("FIELD ") + str_tokens(name) + text_tokens(" ") + num_tokens(fs.len() as int) + nl()
        + arrays_tokens(fs, ft, bo)
}

/// A header line `{kw}{name} {type}` followed by the data of `data`.
pub open spec fn typed_entry_tokens(kw: &str, name: String, data: IOBuffer, ft: FileType, bo: ByteOrder) -> Seq<Token> {
    text_tokens(kw) + str_tokens(name) + text_tokens(" ") + tag_tokens(data) + nl() + buf_tokens(data, ft, bo)
}

/// A header line `{kw}{name} {n}` followed by the data of `data`.
pub open spec fn counted_entry_tokens(kw: &str, name: String, n: int, data: IOBuffer, ft: FileType, bo: ByteOrder) -> Seq<Token> {
    text_tokens(kw) + str_tokens(name) + text_tokens(" ") + num_tokens(n) + nl() + buf_tokens(data, ft, bo)
}

/// The lookup table line of a scalars attribute, `default` when none is named.
pub open spec fn lookup_line_tokens(lookup_table: Option<String>) -> Seq<Token> {
    text_tokens("LOOKUP_TABLE ") + match lookup_table {
        Some(t) => str_tokens(t),
        None => text_tokens("default"),
    } + nl()
}

/// A scalars attribute: its header line, its lookup table line, its data.
pub open spec fn scalars_tokens(
    name: String,
    num_comp: u32,
    lookup_table: Option<String>,
    data: IOBuffer,
    ft: FileType,
    bo: ByteOrder,
) -> Seq<Token> {
    text_tokens("SCALARS ") + str_tokens(name) + text_tokens(" ") + tag_tokens(data) + text_tokens(" ")
        + num_tokens(num_comp as int) + nl() + lookup_line_tokens(lookup_table) + buf_tokens(data, ft, bo)
}

/// A texture coordinates attribute: its header line, then its data.
pub open spec fn texture_tokens(name: String, dim: u32, data: IOBuffer, ft: FileType, bo: ByteOrder) -> Seq<Token> {
    text_tokens("TEXTURE_COORDINATES ") + str_tokens(name) + text_tokens(" ") + num_tokens(dim as int)
        + text_tokens(" ") + tag_tokens(data) + nl() + buf_tokens(data, ft, bo)
}

/// What writing the attribute `a` named `name` emits, from the blank line
/// before it.
pub open spec fn attrib_tokens(name: String, a: Attribute, ft: FileType, bo: ByteOrder) -> Seq<Token> {
    nl() + match a {
        Attribute::Scalars { num_comp, lookup_table, data } => scalars_tokens(name, num_comp, lookup_table, data, ft, bo),
        Attribute::ColorScalars { num_comp, data } => counted_entry_tokens("COLOR_SCALARS ", name, num_comp as int, data, ft, bo),
        Attribute::LookupTable { data } => counted_entry_tokens("LOOKUP_TABLE ", name, data.len_spec() as int / 4, data, ft, bo),
        Attribute::Vectors { data } => typed_entry_tokens("VECTORS ", name, data, ft, bo),
        Attribute::Normals { data } => typed_entry_tokens("NORMALS ", name, data, ft, bo),
        Attribute::TextureCoordinates { dim, data } => texture_tokens(name, dim, data, ft, bo),
        Attribute::Tensors { data } => typed_entry_tokens("TENSORS ", name, data, ft, bo),
        Attribute::Field { data_array } => field_tokens(name, data_array@, ft, bo),
    }
}

/// What writing the named attributes `list` emits.
pub open spec fn attribs_tokens(list: Seq<(String, Attribute)>, ft: FileType, bo: ByteOrder) -> Seq<
    Token,
>
    decreases list.len(),
{
    if list.len() == 0 {
        Seq::empty()
    } else {
        attribs_tokens(list.drop_last(), ft, bo) + attrib_tokens(list.last().0, list.last().1, ft, bo)
    }
}

/// What writing the attribute block emits: both headers always, each
/// followed by its attributes.
pub open spec fn attributes_tokens(
    data: Attributes,
    num_points: int,
    num_cells: int,
    ft: FileType,
    bo: ByteOrder,
) -> Seq<Token> {
    text_tokens("\nPOINT_DATA ") + num_tokens(num_points) + nl() + attribs_tokens(data.point@, ft, bo)
        + text_tokens("\nCELL_DATA ") + num_tokens(num_cells) + nl() + attribs_tokens(
        data.cell@,
        ft,
        bo,
    )
}

/// Appends the type keyword of `b`.
fn write_tag(out: &mut Vec<Token>, b: &IOBuffer)
    ensures
        final(out)@ == old(out)@ + tag_tokens(*b),
{
    emit(out, b.data_type().tag());
}

/// Appends a space and the decimal form of `n`.
fn write_spaced_u64(out: &mut Vec<Token>, n: u64)
    ensures
        final(out)@ == old(out)@ + text_tokens(" ") + num_tokens(n as int),
{
    emit(out, " ");
    emit_u64(out, n);
}

/// Appends one field array: its header line and its data.
fn write_field_array(out: &mut Vec<Token>, f: &FieldArray, ft: FileType, bo: ByteOrder)
    requires
        f.num_comp > 0,
    ensures
        final(out)@ == old(out)@ + array_tokens(*f, ft, bo),
{
    emit_string(out, &f.name);
    write_spaced_u64(out, f.num_comp as u64);
    write_spaced_u64(out, (f.data.len() / f.num_comp as usize) as u64);
    emit(out, " ");
    write_tag(out, &f.data);
    emit(out, "\n");
    write_buf(out, &f.data, ft, bo);
    assert(final(out)@ =~= old(out)@ + array_tokens(*f, ft, bo));
}

/// Appends a field: its header line and each of its arrays.
fn write_field(out: &mut Vec<Token>, name: &String, fs: &Vec<FieldArray>, ft: FileType, bo: ByteOrder)
    requires
        arrays_wf(fs@),
    ensures
        final(out)@ == old(out)@ + field_tokens(*name, fs@, ft, bo),
{
    emit(out, "FIELD ");
    emit_string(out, name);
    write_spaced_u64(out, fs.len() as u64);
    emit(out, "\n");
    let ghost head = out@;
    let n = fs.len();
    let mut i: usize = 0;
    while i < n
        invariant
            n == fs@.len(),
            arrays_wf(fs@),
            i <= n,
            out@ == head + arrays_tokens(fs@.subrange(0, i as int), ft, bo),
        decreases n - i,
    {
        write_field_array(out, &fs[i], ft, bo);
        assert(fs@.subrange(0, i + 1).drop_last() =~= fs@.subrange(0, i as int));
        assert(out@ =~= head + arrays_tokens(fs@.subrange(0, i + 1), ft, bo));
        i = i + 1;
    }
    assert(fs@.subrange(0, n as int) =~= fs@);
    assert(final(out)@ =~= old(out)@ + field_tokens(*name, fs@, ft, bo));
}

fn write_typed_entry(out: &mut Vec<Token>, kw: &str, name: &String, data: &IOBuffer, ft: FileType, bo: ByteOrder)
    ensures
        final(out)@ == old(out)@ + typed_entry_tokens(kw, *name, *data, ft, bo),
{
    emit(out, kw);
    emit_string(out, name);
    emit(out, " ");
    write_tag(out, data);
    emit(out, "\n");
    write_buf(out, data, ft, bo);
    assert(final(out)@ =~= old(out)@ + typed_entry_tokens(kw, *name, *data, ft, bo));
}

fn write_counted_entry(out: &mut Vec<Token>, kw: &str, name: &String, n: u64, data: &IOBuffer, ft: FileType, bo: ByteOrder)
    ensures
        final(out)@ == old(out)@ + counted_entry_tokens(kw, *name, n as int, *data, ft, bo),
{
    emit(out, kw);
    emit_string(out, name);
    write_spaced_u64(out, n);
    emit(out, "\n");
    write_buf(out, data, ft, bo);
    assert(final(out)@ =~= old(out)@ + counted_entry_tokens(kw, *name, n as int, *data, ft, bo));
}

fn write_scalars(
    out: &mut Vec<Token>,
    name: &String,
    num_comp: u32,
    lookup_table: &Option<String>,
    data: &IOBuffer,
    ft: FileType,
    bo: ByteOrder,
)
    ensures
        final(out)@ == old(out)@ + scalars_tokens(*name, num_comp, *lookup_table, *data, ft, bo),
{
    emit(out, "SCALARS ");
    emit_string(out, name);
    emit(out, " ");
    write_tag(out, data);
    write_spaced_u64(out, num_comp as u64);
    emit(out, "\n");
    let ghost mid = out@;
    emit(out, "LOOKUP_TABLE ");
    match lookup_table {
        Some(t) => emit_string(out, t),
        None => emit(out, "default"),
    }
    emit(out, "\n");
    assert(out@ =~= mid + lookup_line_tokens(*lookup_table));
    write_buf(out, data, ft, bo);
    assert(final(out)@ =~= old(out)@ + scalars_tokens(*name, num_comp, *lookup_table, *data, ft, bo));
}

fn write_texture(out: &mut Vec<Token>, name: &String, dim: u32, data: &IOBuffer, ft: FileType, bo: ByteOrder)
    ensures
        final(out)@ == old(out)@ + texture_tokens(*name, dim, *data, ft, bo),
{
    emit(out, "TEXTURE_COORDINATES ");
    emit_string(out, name);
    write_spaced_u64(out, dim as u64);
    emit(out, " ");
    write_tag(out, data);
    emit(out, "\n");
    write_buf(out, data, ft, bo);
    assert(final(out)@ =~= old(out)@ + texture_tokens(*name, dim, *data, ft, bo));
}

/// Appends one named attribute, from the blank line before it.
fn write_attrib_entry(out: &mut Vec<Token>, name: &String, a: &Attribute, ft: FileType, bo: ByteOrder)
    requires
        a.wf(),
    ensures
        final(out)@ == old(out)@ + attrib_tokens(*name, *a, ft, bo),
{
    emit(out, "\n");
    match a {
        Attribute::Scalars { num_comp, lookup_table, data } => {
            write_scalars(out, name, *num_comp, lookup_table, data, ft, bo);
        },
        Attribute::ColorScalars { num_comp, data } => {
            write_counted_entry(out, "COLOR_SCALARS ", name, *num_comp as u64, data, ft, bo);
        },
        Attribute::LookupTable { data } => {
            write_counted_entry(out, "LOOKUP_TABLE ", name, (data.len() / 4) as u64, data, ft, bo);
        },
        Attribute::Vectors { data } => {
            write_typed_entry(out, "VECTORS ", name, data, ft, bo);
        },
        Attribute::Normals { data } => {
            write_typed_entry(out, "NORMALS ", name, data, ft, bo);
        },
        Attribute::TextureCoordinates { dim, data } => {
            write_texture(out, name, *dim, data, ft, bo);
        },
        Attribute::Tensors { data } => {
            write_typed_entry(out, "TENSORS ", name, data, ft, bo);
        },
        Attribute::Field { data_array } => {
            write_field(out, name, data_array, ft, bo);
        },
    }
    assert(final(out)@ =~= old(out)@ + attrib_tokens(*name, *a, ft, bo));
}

/// Appends the named attributes `list` in order.
pub fn write_attrib_data(
    out: &mut Vec<Token>,
    list: &Vec<(String, Attribute)>,
    ft: FileType,
    bo: ByteOrder,
)
    requires
        attrib_list_wf(list@),
    ensures
        final(out)@ == old(out)@ + attribs_tokens(list@, ft, bo),
{
    let n = list.len();
    let mut i: usize = 0;
    while i < n
        invariant
            n == list@.len(),
            attrib_list_wf(list@),
            i <= n,
            out@ == old(out)@ + attribs_tokens(list@.subrange(0, i as int), ft, bo),
        decreases n - i,
    {
        let entry = &list[i];
        assert(entry.1.wf());
        write_attrib_entry(out, &entry.0, &entry.1, ft, bo);
        assert(list@.subrange(0, i + 1).drop_last() =~= list@.subrange(0, i as int));
        assert(out@ =~= old(out)@ + attribs_tokens(list@.subrange(0, i + 1), ft, bo));
        i = i + 1;
    }
    assert(list@.subrange(0, n as int) =~= list@);
}

/// Appends the attribute block: the point data header and attributes, then
/// the cell data header and attributes. Both headers are written even where
/// a list is empty.
#[verifier::rlimit(60)]
pub fn write_attrib(
    out: &mut Vec<Token>,
    data: &Attributes,
    num_points: u64,
    num_cells: u64,
    ft: FileType,
    bo: ByteOrder,
)
    requires
        data.wf(),
    ensures
        final(out)@ == old(out)@ + attributes_tokens(
            *data,
            num_points as int,
            num_cells as int,
            ft,
            bo,
        ),
{
    emit(out, "\nPOINT_DATA ");
    emit_u64(out, num_points);
    emit(out, "\n");
    write_attrib_data(out, &data.point, ft, bo);
    emit(out, "\nCELL_DATA ");
    emit_u64(out, num_cells);
    emit(out, "\n");
    write_attrib_data(out, &data.cell, ft, bo);
    assert(final(out)@ =~= old(out)@ + attributes_tokens(
        *data,
        num_points as int,
        num_cells as int,
        ft,
        bo,
    ));
}

/// The `POINTS` header line and the point coordinates.
pub open spec fn points_tokens(points: IOBuffer, ft: FileType, bo: ByteOrder) -> Seq<Token> {
    text_tokens("POINTS ") + num_tokens(points.len_spec() as int / 3) + text_tokens(" ") + tag_tokens(
        points,
    ) + nl() + buf_tokens(points, ft, bo)
}

/// The `DIMENSIONS` line of an extent.
pub open spec fn dims_tokens(e: Extent) -> Seq<Token> {
    text_tokens("DIMENSIONS ") + num_tokens(e.dims_spec().0) + text_tokens(" ") + num_tokens(
        e.dims_spec().1,
    ) + text_tokens(" ") + num_tokens(e.dims_spec().2) + nl()
}

/// Three real values separated by spaces, then a line break.
pub open spec fn vec3_tokens(v: Vec3) -> Seq<Token> {
    seq![Token::Double(v.x)] + text_tokens(" ") + seq![Token::Double(v.y)] + text_tokens(" ") + seq![
        Token::Double(v.z),
    ] + nl()
}

/// The keyword of the spacing line: `ASPECT_RATIO` before version 2,
/// `SPACING` from then on.
pub open spec fn spacing_keyword(version: Version) -> Seq<Token> {
    if version.major < 2 {
        text_tokens("ASPECT_RATIO")
    } else {
        text_tokens("SPACING")
    }
}

/// The keyword of a polygonal-data cell group.
pub open spec fn group_keyword(g: PolyDataTopology) -> Seq<Token> {
    match g {
        PolyDataTopology::Vertices(_) => text_tokens("VERTICES"),
        PolyDataTopology::Lines(_) => text_tokens("LINES"),
        PolyDataTopology::Polygons(_) => text_tokens("POLYGONS"),
        PolyDataTopology::TriangleStrips(_) => text_tokens("TRIANGLE_STRIPS"),
    }
}

/// One cell group: `{KEYWORD} {cells} {connectivity size}`, then the
/// connectivity.
pub open spec fn group_tokens(g: PolyDataTopology, ft: FileType, bo: ByteOrder) -> Seq<Token> {
    let c = g.cells_spec();
    group_keyword(g) + text_tokens(" ") + num_tokens(c.num_cells as int) + text_tokens(" ")
        + num_tokens(c.vertices@.len() as int) + nl() + u32s_tokens(c.vertices@, ft, bo)
}

/// The groups of `topo` whose kind has rank `k`, in list order.
pub open spec fn topo_rank_tokens(topo: Seq<PolyDataTopology>, k: nat, ft: FileType, bo: ByteOrder) -> Seq<
    Token,
>
    decreases topo.len(),
{
    if topo.len() == 0 {
        Seq::empty()
    } else {
        topo_rank_tokens(topo.drop_last(), k, ft, bo) + if topo.last().rank_spec() == k {
            group_tokens(topo.last(), ft, bo)
        } else {
            Seq::empty()
        }
    }
}

/// The cell groups `topo` in the order the format fixes: all vertex groups,
/// then lines, then polygons, then triangle strips, each kind in list order.
pub open spec fn topo_tokens(topo: Seq<PolyDataTopology>, ft: FileType, bo: ByteOrder) -> Seq<Token> {
    topo_rank_tokens(topo, 0, ft, bo) + topo_rank_tokens(topo, 1, ft, bo) + topo_rank_tokens(
        topo,
        2,
        ft,
        bo,
    ) + topo_rank_tokens(topo, 3, ft, bo)
}

/// One coordinate list of a rectilinear grid: `{kw}{n} {type}`, then the
/// values.
pub open spec fn coords_tokens(kw: &str, c: IOBuffer, ft: FileType, bo: ByteOrder) -> Seq<Token> {
    text_tokens(kw) + num_tokens(c.len_spec() as int) + text_tokens(" ") + tag_tokens(c) + nl()
        + buf_tokens(c, ft, bo)
}

/// The `CELLS` section of an unstructured grid.
pub open spec fn cells_section_tokens(cells: Cells, ft: FileType, bo: ByteOrder) -> Seq<Token> {
    text_tokens("\nCELLS ") + num_tokens(cells.num_cells as int) + text_tokens(" ") + num_tokens(
        cells.vertices@.len() as int,
    ) + nl() + u32s_tokens(cells.vertices@, ft, bo)
}

/// The `CELL_TYPES` section of an unstructured grid.
pub open spec fn cell_types_section_tokens(ts: Seq<CellType>, ft: FileType, bo: ByteOrder) -> Seq<Token> {
    text_tokens("\nCELL_TYPES ") + num_tokens(ts.len() as int) + nl() + cell_types_tokens(ts, ft, bo)
}

/// A polygonal dataset.
pub open spec fn poly_data_tokens(
    points: IOBuffer,
    topo: Seq<PolyDataTopology>,
    data: Attributes,
    ft: FileType,
    bo: ByteOrder,
) -> Seq<Token> {
    text_tokens("DATASET POLYDATA\n") + points_tokens(points, ft, bo) + nl() + topo_tokens(topo, ft, bo)
        + attributes_tokens(data, points.len_spec() as int / 3, total_cells(topo) as int, ft, bo)
}

/// An unstructured grid.
pub open spec fn unstructured_grid_tokens(
    points: IOBuffer,
    cells: Cells,
    cell_types: Seq<CellType>,
    data: Attributes,
    ft: FileType,
    bo: ByteOrder,
) -> Seq<Token> {
    text_tokens("DATASET UNSTRUCTURED_GRID\n") + points_tokens(points, ft, bo) + cells_section_tokens(
        cells,
        ft,
        bo,
    ) + cell_types_section_tokens(cell_types, ft, bo) + attributes_tokens(
        data,
        points.len_spec() as int / 3,
        cells.num_cells as int,
        ft,
        bo,
    )
}

/// Image data, under its legacy keyword `STRUCTURED_POINTS`; it has no cell
/// count of its own.
pub open spec fn image_data_tokens(
    extent: Extent,
    origin: Vec3,
    spacing: Vec3,
    data: Attributes,
    version: Version,
    ft: FileType,
    bo: ByteOrder,
) -> Seq<Token> {
    text_tokens("DATASET STRUCTURED_POINTS\n") + dims_tokens(extent) + text_tokens("ORIGIN ")
        + vec3_tokens(origin) + spacing_keyword(version) + text_tokens(" ") + vec3_tokens(spacing)
        + attributes_tokens(data, extent.num_points_spec(), 0, ft, bo)
}

/// A structured grid; its attribute block always states one cell.
pub open spec fn structured_grid_tokens(
    extent: Extent,
    points: IOBuffer,
    data: Attributes,
    ft: FileType,
    bo: ByteOrder,
) -> Seq<Token> {
    text_tokens("DATASET STRUCTURED_GRID\n") + dims_tokens(extent) + points_tokens(points, ft, bo)
        + attributes_tokens(data, points.len_spec() as int / 3, 1, ft, bo)
}

/// A rectilinear grid: its three coordinate lists, then its attributes for
/// `nx * ny * nz` points and `(nx - 1) * (ny - 1) * (nz - 1)` cells.
pub open spec fn rectilinear_grid_tokens(
    extent: Extent,
    x: IOBuffer,
    y: IOBuffer,
    z: IOBuffer,
    data: Attributes,
    ft: FileType,
    bo: ByteOrder,
) -> Seq<Token> {
    let nx = x.len_spec() as int;
    let ny = y.len_spec() as int;
    let nz = z.len_spec() as int;
    text_tokens("DATASET RECTILINEAR_GRID\n") + dims_tokens(extent) + coords_tokens(
        "X_COORDINATES ",
        x,
        ft,
        bo,
    ) + coords_tokens("Y_COORDINATES ", y, ft, bo) + coords_tokens("Z_COORDINATES ", z, ft, bo)
        + attributes_tokens(data, nx * ny * nz, (nx - 1) * (ny - 1) * (nz - 1), ft, bo)
}

/// What writing the dataset `d` of a file of version `version` emits.
pub open spec fn dataset_tokens(d: DataSet, version: Version, ft: FileType, bo: ByteOrder) -> Seq<
    Token,
> {
    match d {
        DataSet::Field { name, data_array } => field_tokens(name, data_array@, ft, bo),
        DataSet::PolyData { points, topo, data } => poly_data_tokens(points, topo@, data, ft, bo),
        DataSet::UnstructuredGrid { points, cells, cell_types, data } => unstructured_grid_tokens(
            points,
            cells,
            cell_types@,
            data,
            ft,
            bo,
        ),
        DataSet::ImageData { extent, origin, spacing, data } => image_data_tokens(
            extent,
            origin,
            spacing,
            data,
            version,
            ft,
            bo,
        ),
        DataSet::StructuredGrid { extent, points, data } => structured_grid_tokens(
            extent,
            points,
            data,
            ft,
            bo,
        ),
        DataSet::RectilinearGrid { extent, x_coords, y_coords, z_coords, data } =>
            rectilinear_grid_tokens(extent, x_coords, y_coords, z_coords, data, ft, bo),
    }
}

/// The file header: version line, title line, encoding line and a blank line.
pub open spec fn header_tokens(vtk: Vtk) -> Seq<Token> {
    text_tokens("# vtk DataFile Version ") + num_tokens(vtk.version.major as int) + text_tokens(".")
        + num_tokens(vtk.version.minor as int) + nl() + str_tokens(vtk.title) + nl() + match vtk.file_type {
        FileType::Binary => text_tokens("BINARY\n\n"),
        FileType::ASCII => text_tokens("ASCII\n\n"),
    }
}

/// What writing the file `vtk` at byte order `bo` emits.
pub open spec fn vtk_tokens(vtk: Vtk, bo: ByteOrder) -> Seq<Token> {
    header_tokens(vtk) + dataset_tokens(vtk.data, vtk.version, vtk.file_type, bo) + nl()
}

/// `a * b * c`, where it fits in 64 bits.
pub fn product3(a: u64, b: u64, c: u64) -> (r: Option<u64>)
    ensures
        r is Some <==> a * b * c <= u64::MAX,
        r is Some ==> r->0 == a * b * c,
{
    if a == 0 || b == 0 || c == 0 {
        assert(a * b * c == 0) by (nonlinear_arith)
            requires
                a == 0 || b == 0 || c == 0,
        ;
        return Some(0);
    }
    assert(a * b <= a * b * c) by (nonlinear_arith)
        requires
            c >= 1,
    ;
    match a.checked_mul(b) {
        None => {
            assert(a * b * c > u64::MAX) by (nonlinear_arith)
                requires
                    a * b > u64::MAX,
                    c >= 1,
            ;
            None
        },
        Some(ab) => ab.checked_mul(c),
    }
}

fn write_points(out: &mut Vec<Token>, points: &IOBuffer, ft: FileType, bo: ByteOrder)
    ensures
        final(out)@ == old(out)@ + points_tokens(*points, ft, bo),
{
    emit(out, "POINTS ");
    emit_u64(out, (points.len() / 3) as u64);
    emit(out, " ");
    write_tag(out, points);
    emit(out, "\n");
    write_buf(out, points, ft, bo);
    assert(final(out)@ =~= old(out)@ + points_tokens(*points, ft, bo));
}

fn write_dims(out: &mut Vec<Token>, e: Extent)
    requires
        e.wf(),
    ensures
        final(out)@ == old(out)@ + dims_tokens(e),
{
    let d = e.into_dims();
    emit(out, "DIMENSIONS ");
    emit_u64(out, d.0);
    write_spaced_u64(out, d.1);
    write_spaced_u64(out, d.2);
    emit(out, "\n");
    assert(final(out)@ =~= old(out)@ + dims_tokens(e));
}

fn write_vec3(out: &mut Vec<Token>, v: Vec3)
    ensures
        final(out)@ == old(out)@ + vec3_tokens(v),
{
    out.push(Token::Double(v.x));
    emit(out, " ");
    out.push(Token::Double(v.y));
    emit(out, " ");
    out.push(Token::Double(v.z));
    emit(out, "\n");
    assert(final(out)@ =~= old(out)@ + vec3_tokens(v));
}

fn write_group(out: &mut Vec<Token>, g: &PolyDataTopology, ft: FileType, bo: ByteOrder)
    ensures
        final(out)@ == old(out)@ + group_tokens(*g, ft, bo),
{
    match g {
        PolyDataTopology::Vertices(_) => emit(out, "VERTICES"),
        PolyDataTopology::Lines(_) => emit(out, "LINES"),
        PolyDataTopology::Polygons(_) => emit(out, "POLYGONS"),
        PolyDataTopology::TriangleStrips(_) => emit(out, "TRIANGLE_STRIPS"),
    }
    let c = g.cells();
    write_spaced_u64(out, c.num_cells as u64);
    write_spaced_u64(out, c.vertices.len() as u64);
    emit(out, "\n");
    write_u32_vec(out, &c.vertices, ft, bo);
    assert(final(out)@ =~= old(out)@ + group_tokens(*g, ft, bo));
}

#[verifier::rlimit(100)]
fn write_poly_data(
    out: &mut Vec<Token>,
    points: &IOBuffer,
    topo: &Vec<PolyDataTopology>,
    data: &Attributes,
    ft: FileType,
    bo: ByteOrder,
)
    requires
        data.wf(),
        total_cells(topo@) <= u64::MAX,
    ensures
        final(out)@ == old(out)@ + poly_data_tokens(*points, topo@, *data, ft, bo),
{
    emit(out, "DATASET POLYDATA\n");
    write_points(out, points, ft, bo);
    emit(out, "\n");
    let ghost head = out@;
    write_groups_of_rank(out, topo, 0, ft, bo);
    write_groups_of_rank(out, topo, 1, ft, bo);
    write_groups_of_rank(out, topo, 2, ft, bo);
    write_groups_of_rank(out, topo, 3, ft, bo);
    assert(out@ =~= head + topo_tokens(topo@, ft, bo));
    let n = topo.len();
    let mut num_cells: u64 = 0;
    let mut i: usize = 0;
    while i < n
        invariant
            n == topo@.len(),
            total_cells(topo@) <= u64::MAX,
            i <= n,
            num_cells == total_cells(topo@.subrange(0, i as int)),
        decreases n - i,
    {
        assert(topo@.subrange(0, i + 1).drop_last() =~= topo@.subrange(0, i as int));
        proof {
            lemma_total_cells_prefix(topo@, i + 1);
        }
        num_cells = num_cells + topo[i].cells().num_cells as u64;
        i = i + 1;
    }
    assert(topo@.subrange(0, n as int) =~= topo@);
    write_attrib(out, data, (points.len() / 3) as u64, num_cells, ft, bo);
    assert(final(out)@ =~= old(out)@ + poly_data_tokens(*points, topo@, *data, ft, bo));
}

/// Appends, in list order, the groups of `topo` whose kind has rank `k`.
fn write_groups_of_rank(out: &mut Vec<Token>, topo: &Vec<PolyDataTopology>, k: u8, ft: FileType, bo: ByteOrder)
    ensures
        final(out)@ == old(out)@ + topo_rank_tokens(topo@, k as nat, ft, bo),
{
    let n = topo.len();
    let mut i: usize = 0;
    while i < n
        invariant
            n == topo@.len(),
            i <= n,
            out@ == old(out)@ + topo_rank_tokens(topo@.subrange(0, i as int), k as nat, ft, bo),
        decreases n - i,
    {
        assert(topo@.subrange(0, i + 1).drop_last() =~= topo@.subrange(0, i as int));
        if topo[i].rank() == k {
            write_group(out, &topo[i], ft, bo);
        }
        assert(out@ =~= old(out)@ + topo_rank_tokens(topo@.subrange(0, i + 1), k as nat, ft, bo));
        i = i + 1;
    }
    assert(topo@.subrange(0, n as int) =~= topo@);
}

proof fn lemma_total_cells_prefix(topo: Seq<PolyDataTopology>, i: int)
    requires
        0 <= i <= topo.len(),
    ensures
        total_cells(topo.subrange(0, i)) <= total_cells(topo),
    decreases topo.len(),
{
    if i < topo.len() {
        assert(topo.drop_last().subrange(0, i) =~= topo.subrange(0, i));
        lemma_total_cells_prefix(topo.drop_last(), i);
    } else {
        assert(topo.subrange(0, i) =~= topo);
    }
}

#[verifier::rlimit(100)]
fn write_unstructured_grid(
    out: &mut Vec<Token>,
    points: &IOBuffer,
    cells: &Cells,
    cell_types: &Vec<CellType>,
    data: &Attributes,
    ft: FileType,
    bo: ByteOrder,
)
    requires
        data.wf(),
    ensures
        final(out)@ == old(out)@ + unstructured_grid_tokens(*points, *cells, cell_types@, *data, ft, bo),
{
    emit(out, "DATASET UNSTRUCTURED_GRID\n");
    write_points(out, points, ft, bo);
    let ghost a = out@;
    emit(out, "\nCELLS ");
    emit_u64(out, cells.num_cells as u64);
    write_spaced_u64(out, cells.vertices.len() as u64);
    emit(out, "\n");
    write_u32_vec(out, &cells.vertices, ft, bo);
    assert(out@ =~= a + cells_section_tokens(*cells, ft, bo));
    let ghost b = out@;
    emit(out, "\nCELL_TYPES ");
    emit_u64(out, cell_types.len() as u64);
    emit(out, "\n");
    write_cell_types(out, cell_types, ft, bo);
    assert(out@ =~= b + cell_types_section_tokens(cell_types@, ft, bo));
    write_attrib(out, data, (points.len() / 3) as u64, cells.num_cells as u64, ft, bo);
    assert(final(out)@ =~= old(out)@ + unstructured_grid_tokens(*points, *cells, cell_types@, *data, ft, bo));
}

#[verifier::rlimit(100)]
fn write_image_data(
    out: &mut Vec<Token>,
    extent: Extent,
    origin: Vec3,
    spacing: Vec3,
    data: &Attributes,
    version: Version,
    ft: FileType,
    bo: ByteOrder,
)
    requires
        data.wf(),
        extent.wf(),
        extent.num_points_spec() <= u64::MAX,
    ensures
        final(out)@ == old(out)@ + image_data_tokens(extent, origin, spacing, *data, version, ft, bo),
{
    emit(out, "DATASET STRUCTURED_POINTS\n");
    write_dims(out, extent);
    let ghost a = out@;
    emit(out, "ORIGIN ");
    write_vec3(out, origin);
    if version.major < 2 {
        emit(out, "ASPECT_RATIO");
    } else {
        emit(out, "SPACING");
    }
    emit(out, " ");
    write_vec3(out, spacing);
    assert(out@ =~= a + text_tokens("ORIGIN ") + vec3_tokens(origin) + spacing_keyword(version)
        + text_tokens(" ") + vec3_tokens(spacing));
    let d = extent.into_dims();
    let num_points = product3(d.0, d.1, d.2);
    write_attrib(out, data, num_points.unwrap(), 0, ft, bo);
    assert(final(out)@ =~= old(out)@ + image_data_tokens(extent, origin, spacing, *data, version, ft, bo));
}

fn write_structured_grid(
    out: &mut Vec<Token>,
    extent: Extent,
    points: &IOBuffer,
    data: &Attributes,
    ft: FileType,
    bo: ByteOrder,
)
    requires
        data.wf(),
        extent.wf(),
    ensures
        final(out)@ == old(out)@ + structured_grid_tokens(extent, *points, *data, ft, bo),
{
    emit(out, "DATASET STRUCTURED_GRID\n");
    write_dims(out, extent);
    write_points(out, points, ft, bo);
    write_attrib(out, data, (points.len() / 3) as u64, 1, ft, bo);
    assert(final(out)@ =~= old(out)@ + structured_grid_tokens(extent, *points, *data, ft, bo));
}

fn write_coords(out: &mut Vec<Token>, kw: &str, c: &IOBuffer, ft: FileType, bo: ByteOrder)
    ensures
        final(out)@ == old(out)@ + coords_tokens(kw, *c, ft, bo),
{
    emit(out, kw);
    emit_u64(out, c.len() as u64);
    emit(out, " ");
    write_tag(out, c);
    emit(out, "\n");
    write_buf(out, c, ft, bo);
    assert(final(out)@ =~= old(out)@ + coords_tokens(kw, *c, ft, bo));
}

#[verifier::rlimit(100)]
fn write_rectilinear_grid(
    out: &mut Vec<Token>,
    extent: Extent,
    x: &IOBuffer,
    y: &IOBuffer,
    z: &IOBuffer,
    data: &Attributes,
    ft: FileType,
    bo: ByteOrder,
)
    requires
        data.wf(),
        extent.wf(),
        x.len_spec() >= 1,
        y.len_spec() >= 1,
        z.len_spec() >= 1,
        x.len_spec() * y.len_spec() * z.len_spec() <= u64::MAX,
    ensures
        final(out)@ == old(out)@ + rectilinear_grid_tokens(extent, *x, *y, *z, *data, ft, bo),
{
    emit(out, "DATASET RECTILINEAR_GRID\n");
    write_dims(out, extent);
    write_coords(out, "X_COORDINATES ", x, ft, bo);
    write_coords(out, "Y_COORDINATES ", y, ft, bo);
    write_coords(out, "Z_COORDINATES ", z, ft, bo);
    let ghost head = out@;
    assert(head =~= old(out)@ + (text_tokens("DATASET RECTILINEAR_GRID\n") + dims_tokens(extent)
        + coords_tokens("X_COORDINATES ", *x, ft, bo) + coords_tokens("Y_COORDINATES ", *y, ft, bo)
        + coords_tokens("Z_COORDINATES ", *z, ft, bo)));
    let nx = x.len() as u64;
    let ny = y.len() as u64;
    let nz = z.len() as u64;
    let num_points = product3(nx, ny, nz).unwrap();
    assert((nx - 1) * (ny - 1) * (nz - 1) <= nx * ny * nz) by (nonlinear_arith)
        requires
            nx >= 1,
            ny >= 1,
            nz >= 1,
    ;
    let num_cells = product3(nx - 1, ny - 1, nz - 1).unwrap();
    write_attrib(out, data, num_points, num_cells, ft, bo);
    assert(final(out)@ =~= old(out)@ + rectilinear_grid_tokens(extent, *x, *y, *z, *data, ft, bo));
}

fn write_header(out: &mut Vec<Token>, vtk: &Vtk)
    ensures
        final(out)@ == old(out)@ + header_tokens(*vtk),
{
    emit(out, "# vtk DataFile Version ");
    emit_u64(out, vtk.version.major as u64);
    emit(out, ".");
    emit_u64(out, vtk.version.minor as u64);
    emit(out, "\n");
    emit_string(out, &vtk.title);
    emit(out, "\n");
    match vtk.file_type {
        FileType::Binary => emit(out, "BINARY\n\n"),
        FileType::ASCII => emit(out, "ASCII\n\n"),
    }
    assert(final(out)@ =~= old(out)@ + header_tokens(*vtk));
}

fn write_dataset(out: &mut Vec<Token>, d: &DataSet, version: Version, ft: FileType, bo: ByteOrder)
    requires
        d.wf(),
    ensures
        final(out)@ == old(out)@ + dataset_tokens(*d, version, ft, bo),
{
    match d {
        DataSet::Field { name, data_array } => write_field(out, name, data_array, ft, bo),
        DataSet::PolyData { points, topo, data } => write_poly_data(out, points, topo, data, ft, bo),
        DataSet::UnstructuredGrid { points, cells, cell_types, data } => write_unstructured_grid(
            out,
            points,
            cells,
            cell_types,
            data,
            ft,
            bo,
        ),
        DataSet::ImageData { extent, origin, spacing, data } => write_image_data(
            out,
            *extent,
            *origin,
            *spacing,
            data,
            version,
            ft,
            bo,
        ),
        DataSet::StructuredGrid { extent, points, data } => write_structured_grid(
            out,
            *extent,
            points,
            data,
            ft,
            bo,
        ),
        DataSet::RectilinearGrid { extent, x_coords, y_coords, z_coords, data } =>
            write_rectilinear_grid(out, *extent, x_coords, y_coords, z_coords, data, ft, bo),
    }
}

/// Appends the whole file `vtk` at byte order `bo`, in the encoding that
/// `vtk.file_type` names.
pub fn write_vtk_impl(out: &mut Vec<Token>, vtk: &Vtk, bo: ByteOrder)
    requires
        vtk.data.wf(),
    ensures
        final(out)@ == old(out)@ + vtk_tokens(*vtk, bo),
{
    write_header(out, vtk);
    write_dataset(out, &vtk.data, vtk.version, vtk.file_type, bo);
    emit(out, "\n");
    proof {
        lemma_add3(
            old(out)@,
            header_tokens(*vtk),
            dataset_tokens(vtk.data, vtk.version, vtk.file_type, bo),
            nl(),
        );
    }
}

/// Whether every array of `fs` has at least one component.
fn check_arrays(fs: &Vec<FieldArray>) -> (r: bool)
    ensures
        r == arrays_wf(fs@),
{
    let n = fs.len();
    let mut i: usize = 0;
    while i < n
        invariant
            n == fs@.len(),
            i <= n,
            forall|j: int| 0 <= j < i ==> #[trigger] fs@[j].num_comp > 0,
        decreases n - i,
    {
        if fs[i].num_comp == 0 {
            return false;
        }
        i = i + 1;
    }
    true
}

/// Whether every attribute of `list` is well formed.
fn check_attrib_list(list: &Vec<(String, Attribute)>) -> (r: bool)
    ensures
        r == attrib_list_wf(list@),
{
    let n = list.len();
    let mut i: usize = 0;
    while i < n
        invariant
            n == list@.len(),
            i <= n,
            forall|j: int| 0 <= j < i ==> (#[trigger] list@[j]).1.wf(),
        decreases n - i,
    {
        match &list[i].1 {
            Attribute::Field { data_array } => {
                if !check_arrays(data_array) {
                    return false;
                }
            },
            _ => {},
        }
        i = i + 1;
    }
    true
}

/// Checks the attribute block of a dataset.
fn check_attributes(data: &Attributes) -> (r: Result<(), Error>)
    ensures
        r is Ok <==> data.wf(),
        r == result_of(attributes_error(*data)),
{
    if check_attrib_list(&data.point) && check_attrib_list(&data.cell) {
        Ok(())
    } else {
        Err(Error::Attribute(AttributeError::FieldArray(EntryPart::Sizes)))
    }
}

/// Sum of the cell counts of the groups `topo`.
fn count_cells(topo: &Vec<PolyDataTopology>) -> (r: u128)
    ensures
        r == total_cells(topo@),
{
    let n = topo.len();
    let mut sum: u128 = 0;
    let mut i: usize = 0;
    while i < n
        invariant
            n == topo@.len(),
            i <= n,
            sum == total_cells(topo@.subrange(0, i as int)),
            sum <= i * 0xffff_ffff,
        decreases n - i,
    {
        assert(topo@.subrange(0, i + 1).drop_last() =~= topo@.subrange(0, i as int));
        sum = sum + topo[i].cells().num_cells as u128;
        i = i + 1;
    }
    assert(topo@.subrange(0, n as int) =~= topo@);
    sum
}

/// The error of an attribute block that cannot be written, if any.
pub open spec fn attributes_error(data: Attributes) -> Option<Error> {
    if data.wf() {
        None
    } else {
        Some(Error::Attribute(AttributeError::FieldArray(EntryPart::Sizes)))
    }
}

/// The error of polygonal data that cannot be written, if any.
pub open spec fn poly_data_error(topo: Seq<PolyDataTopology>, data: Attributes) -> Option<Error> {
    if !data.wf() {
        attributes_error(data)
    } else if total_cells(topo) > u64::MAX {
        Some(Error::DataSet(DataSetError::PolyData(DataSetPart::Cells(EntryPart::Sizes))))
    } else {
        None
    }
}

/// The error of image data that cannot be written, if any.
pub open spec fn image_data_error(extent: Extent, data: Attributes) -> Option<Error> {
    if !data.wf() {
        attributes_error(data)
    } else if !extent.wf() || extent.num_points_spec() > u64::MAX {
        Some(Error::DataSet(DataSetError::StructuredPoints(DataSetPart::Dimensions)))
    } else {
        None
    }
}

/// The error of a structured grid that cannot be written, if any.
pub open spec fn structured_grid_error(extent: Extent, points: IOBuffer, data: Attributes) -> Option<Error> {
    if !data.wf() {
        attributes_error(data)
    } else if !extent.wf() {
        Some(Error::DataSet(DataSetError::StructuredGrid(DataSetPart::Dimensions)))
    } else if extent.num_points_spec() != points.len_spec() / 3 {
        Some(Error::DataSet(DataSetError::StructuredGrid(DataSetPart::Points(EntryPart::Sizes))))
    } else {
        None
    }
}

/// The error of a rectilinear grid that cannot be written, if any.
pub open spec fn rectilinear_grid_error(
    extent: Extent,
    x: IOBuffer,
    y: IOBuffer,
    z: IOBuffer,
    data: Attributes,
) -> Option<Error> {
    if !data.wf() {
        attributes_error(data)
    } else if !extent.wf() {
        Some(Error::DataSet(DataSetError::RectilinearGrid(DataSetPart::Dimensions)))
    } else if x.len_spec() == 0 {
        Some(Error::DataSet(DataSetError::RectilinearGrid(DataSetPart::XCoordinates(EntryPart::Sizes))))
    } else if y.len_spec() == 0 {
        Some(Error::DataSet(DataSetError::RectilinearGrid(DataSetPart::YCoordinates(EntryPart::Sizes))))
    } else if z.len_spec() == 0 {
        Some(Error::DataSet(DataSetError::RectilinearGrid(DataSetPart::ZCoordinates(EntryPart::Sizes))))
    } else if x.len_spec() * y.len_spec() * z.len_spec() > u64::MAX {
        Some(Error::DataSet(DataSetError::RectilinearGrid(DataSetPart::Dimensions)))
    } else {
        None
    }
}

/// The error that writing the dataset `d` fails with, if any: the first
/// section, in writing order, that cannot be written.
pub open spec fn dataset_error(d: DataSet) -> Option<Error> {
    match d {
        DataSet::Field { data_array, .. } => if arrays_wf(data_array@) {
            None
        } else {
            Some(Error::DataSet(DataSetError::FieldArray(EntryPart::Sizes)))
        },
        DataSet::PolyData { topo, data, .. } => poly_data_error(topo@, data),
        DataSet::UnstructuredGrid { data, .. } => attributes_error(data),
        DataSet::ImageData { extent, data, .. } => image_data_error(extent, data),
        DataSet::StructuredGrid { extent, points, data } => structured_grid_error(extent, points, data),
        DataSet::RectilinearGrid { extent, x_coords, y_coords, z_coords, data } =>
            rectilinear_grid_error(extent, x_coords, y_coords, z_coords, data),
    }
}

/// `Ok` where `e` is `None`, else the error.
pub open spec fn result_of(e: Option<Error>) -> Result<(), Error> {
    match e {
        None => Ok(()),
        Some(e) => Err(e),
    }
}

/// Checks that the dataset `d` can be written: see `DataSet::wf`. The error
/// names the section at fault.
pub fn validate(d: &DataSet) -> (r: Result<(), Error>)
    ensures
        r is Ok <==> d.wf(),
        r == result_of(dataset_error(*d)),
{
    match d {
        DataSet::Field { data_array, .. } => {
            if check_arrays(data_array) {
                Ok(())
            } else {
                Err(Error::DataSet(DataSetError::FieldArray(EntryPart::Sizes)))
            }
        },
        DataSet::PolyData { topo, data, .. } => validate_poly_data(topo, data),
        DataSet::UnstructuredGrid { data, .. } => check_attributes(data),
        DataSet::ImageData { extent, data, .. } => validate_image_data(*extent, data),
        DataSet::StructuredGrid { extent, points, data } => validate_structured_grid(*extent, points, data),
        DataSet::RectilinearGrid { extent, x_coords, y_coords, z_coords, data } =>
            validate_rectilinear_grid(*extent, x_coords, y_coords, z_coords, data),
    }
}

fn validate_poly_data(topo: &Vec<PolyDataTopology>, data: &Attributes) -> (r: Result<(), Error>)
    ensures
        r == result_of(poly_data_error(topo@, *data)),
        r is Ok <==> (data.wf() && total_cells(topo@) <= u64::MAX),
{
    if let Err(e) = check_attributes(data) {
        return Err(e);
    }
    if count_cells(topo) > u64::MAX as u128 {
        return Err(Error::DataSet(DataSetError::PolyData(DataSetPart::Cells(EntryPart::Sizes))));
    }
    Ok(())
}

fn validate_image_data(extent: Extent, data: &Attributes) -> (r: Result<(), Error>)
    ensures
        r == result_of(image_data_error(extent, *data)),
        r is Ok <==> (data.wf() && extent.wf() && extent.num_points_spec() <= u64::MAX),
{
    if let Err(e) = check_attributes(data) {
        return Err(e);
    }
    if !check_extent(extent) {
        return Err(Error::DataSet(DataSetError::StructuredPoints(DataSetPart::Dimensions)));
    }
    let dims = extent.into_dims();
    assert(extent.num_points_spec() == dims.0 * dims.1 * dims.2);
    match product3(dims.0, dims.1, dims.2) {
        Some(_) => Ok(()),
        None => Err(Error::DataSet(DataSetError::StructuredPoints(DataSetPart::Dimensions))),
    }
}

fn validate_structured_grid(extent: Extent, points: &IOBuffer, data: &Attributes) -> (r: Result<(), Error>)
    ensures
        r == result_of(structured_grid_error(extent, *points, *data)),
        r is Ok <==> (data.wf() && extent.wf() && extent.num_points_spec() == points.len_spec() / 3),
{
    if let Err(e) = check_attributes(data) {
        return Err(e);
    }
    if !check_extent(extent) {
        return Err(Error::DataSet(DataSetError::StructuredGrid(DataSetPart::Dimensions)));
    }
    let dims = extent.into_dims();
    assert(extent.num_points_spec() == dims.0 * dims.1 * dims.2);
    let n = points.len() / 3;
    match product3(dims.0, dims.1, dims.2) {
        Some(p) => {
            if p as u128 == n as u128 {
                Ok(())
            } else {
                Err(Error::DataSet(DataSetError::StructuredGrid(DataSetPart::Points(EntryPart::Sizes))))
            }
        },
        None => Err(Error::DataSet(DataSetError::StructuredGrid(DataSetPart::Points(EntryPart::Sizes)))),
    }
}

fn validate_rectilinear_grid(
    extent: Extent,
    x: &IOBuffer,
    y: &IOBuffer,
    z: &IOBuffer,
    data: &Attributes,
) -> (r: Result<(), Error>)
    ensures
        r == result_of(rectilinear_grid_error(extent, *x, *y, *z, *data)),
        r is Ok <==> (data.wf() && extent.wf() && x.len_spec() >= 1 && y.len_spec() >= 1
            && z.len_spec() >= 1 && x.len_spec() * y.len_spec() * z.len_spec() <= u64::MAX),
{
    if let Err(e) = check_attributes(data) {
        return Err(e);
    }
    if !check_extent(extent) {
        return Err(Error::DataSet(DataSetError::RectilinearGrid(DataSetPart::Dimensions)));
    }
    if x.is_empty() {
        return Err(Error::DataSet(DataSetError::RectilinearGrid(DataSetPart::XCoordinates(EntryPart::Sizes))));
    }
    if y.is_empty() {
        return Err(Error::DataSet(DataSetError::RectilinearGrid(DataSetPart::YCoordinates(EntryPart::Sizes))));
    }
    if z.is_empty() {
        return Err(Error::DataSet(DataSetError::RectilinearGrid(DataSetPart::ZCoordinates(EntryPart::Sizes))));
    }
    match product3(x.len() as u64, y.len() as u64, z.len() as u64) {
        Some(_) => Ok(()),
        None => Err(Error::DataSet(DataSetError::RectilinearGrid(DataSetPart::Dimensions))),
    }
}

/// Whether every range of `e` is non-decreasing.
fn check_extent(e: Extent) -> (r: bool)
    ensures
        r == e.wf(),
{
    match e {
        Extent::Dims(..) => true,
        Extent::Ranges(x, y, z) => x.start <= x.end && y.start <= y.end && z.start <= z.end,
    }
}

/// Checks `vtk`, then appends it at byte order `bo`. On an error nothing is
/// appended.
fn write_checked(out: &mut Vec<Token>, vtk: &Vtk, bo: ByteOrder) -> (r: Result<(), Error>)
    ensures
        r is Ok <==> vtk.data.wf(),
        r is Ok ==> final(out)@ == old(out)@ + vtk_tokens(*vtk, bo),
        r is Err ==> final(out)@ == old(out)@,
{
    validate(&vtk.data)?;
    write_vtk_impl(out, vtk, bo);
    Ok(())
}

/// Appends the file `vtk` with multi-byte binary values little-endian.
/// Fails, appending nothing, exactly when the dataset is not well formed.
pub fn write_vtk_le(out: &mut Vec<Token>, vtk: Vtk) -> (r: Result<(), Error>)
    ensures
        r is Ok <==> vtk.data.wf(),
        r is Ok ==> final(out)@ == old(out)@ + vtk_tokens(vtk, ByteOrder::LittleEndian),
        r is Err ==> final(out)@ == old(out)@,
{
    write_checked(out, &vtk, ByteOrder::LittleEndian)
}

/// Appends the file `vtk` with multi-byte binary values big-endian.
/// Fails, appending nothing, exactly when the dataset is not well formed.
pub fn write_vtk_be(out: &mut Vec<Token>, vtk: Vtk) -> (r: Result<(), Error>)
    ensures
        r is Ok <==> vtk.data.wf(),
        r is Ok ==> final(out)@ == old(out)@ + vtk_tokens(vtk, ByteOrder::BigEndian),
        r is Err ==> final(out)@ == old(out)@,
{
    write_checked(out, &vtk, ByteOrder::BigEndian)
}

/// Appends the file `vtk` with multi-byte binary values in the machine's
/// byte order. Fails, appending nothing, exactly when the dataset is not
/// well formed.
pub fn write_vtk(out: &mut Vec<Token>, vtk: Vtk) -> (r: Result<(), Error>)
    ensures
        r is Ok <==> vtk.data.wf(),
        r is Ok ==> final(out)@ == old(out)@ + vtk_tokens(vtk, ByteOrder::BigEndian)
            || final(out)@ == old(out)@ + vtk_tokens(vtk, ByteOrder::LittleEndian),
        r is Err ==> final(out)@ == old(out)@,
{
    write_checked(out, &vtk, ByteOrder::native())
}

} // verus!

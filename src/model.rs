use vstd::prelude::*;
use vstd::string::*;
use vstd::utf8::encode_utf8;
use crate::basic::FileType;

verus! {

/// The element type of a numeric buffer, with the legacy format's type tags.
#[derive(Copy, Clone, Debug, PartialEq, Eq, Structural)]
pub enum DataType {
    Bit,
    UnsignedChar,
    Char,
    UnsignedShort,
    Short,
    UnsignedInt,
    Int,
    UnsignedLong,
    Long,
    Float,
    Double,
}

/// The bytes of a piece of text as it stands in a file.
#[verifier::opaque]
pub open spec fn text(s: &str) -> Seq<u8> {
    s.spec_bytes()
}

/// The bytes of an owned string.
pub open spec fn string_bytes(s: String) -> Seq<u8> {
    encode_utf8(s@)
}

impl DataType {
    /// The keyword that names this type in a file.
    pub open spec fn tag_spec(self) -> Seq<u8> {
        match self {
            DataType::Bit => text("bit"),
            DataType::UnsignedChar => text("unsigned_char"),
            DataType::Char => text("char"),
            DataType::UnsignedShort => text("unsigned_short"),
            DataType::Short => text("short"),
            DataType::UnsignedInt => text("unsigned_int"),
            DataType::Int => text("int"),
            DataType::UnsignedLong => text("unsigned_long"),
            DataType::Long => text("long"),
            DataType::Float => text("float"),
            DataType::Double => text("double"),
        }
    }

    /// The keyword that names this type in a file.
    pub fn tag(self) -> (r: &'static str)
        ensures
            text(r) == self.tag_spec(),
    {
        reveal(text);
        match self {
            DataType::Bit => "bit",
            DataType::UnsignedChar => "unsigned_char",
            DataType::Char => "char",
            DataType::UnsignedShort => "unsigned_short",
            DataType::Short => "short",
            DataType::UnsignedInt => "unsigned_int",
            DataType::Int => "int",
            DataType::UnsignedLong => "unsigned_long",
            DataType::Long => "long",
            DataType::Float => "float",
            DataType::Double => "double",
        }
    }

    /// Width in bytes of one element in binary form; 0 for packed bits.
    pub open spec fn width_spec(self) -> nat {
        match self {
            DataType::Bit => 0,
            DataType::UnsignedChar | DataType::Char => 1,
            DataType::UnsignedShort | DataType::Short => 2,
            DataType::UnsignedInt | DataType::Int | DataType::Float => 4,
            DataType::UnsignedLong | DataType::Long | DataType::Double => 8,
        }
    }

    /// Width in bytes of one element in binary form; 0 for packed bits.
    pub fn width(self) -> (r: usize)
        ensures
            r == self.width_spec(),
    {
        match self {
            DataType::Bit => 0,
            DataType::UnsignedChar | DataType::Char => 1,
            DataType::UnsignedShort | DataType::Short => 2,
            DataType::UnsignedInt | DataType::Int | DataType::Float => 4,
            DataType::UnsignedLong | DataType::Long | DataType::Double => 8,
        }
    }
}

/// A homogeneous numeric buffer over one of ten element types.
///
/// Real values are stored as IEEE-754 bit patterns: `F32` holds the bits of
/// single-precision values, `F64` those of double-precision values.
#[derive(Clone, Debug, PartialEq)]
pub enum IOBuffer {
    U8(Vec<u8>),
    I8(Vec<i8>),
    U16(Vec<u16>),
    I16(Vec<i16>),
    U32(Vec<u32>),
    I32(Vec<i32>),
    U64(Vec<u64>),
    I64(Vec<i64>),
    F32(Vec<u32>),
    F64(Vec<u64>),
}

impl IOBuffer {
    /// The element type of the buffer.
    pub open spec fn data_type_spec(&self) -> DataType {
        match self {
            IOBuffer::U8(_) => DataType::UnsignedChar,
            IOBuffer::I8(_) => DataType::Char,
            IOBuffer::U16(_) => DataType::UnsignedShort,
            IOBuffer::I16(_) => DataType::Short,
            IOBuffer::U32(_) => DataType::UnsignedInt,
            IOBuffer::I32(_) => DataType::Int,
            IOBuffer::U64(_) => DataType::UnsignedLong,
            IOBuffer::I64(_) => DataType::Long,
            IOBuffer::F32(_) => DataType::Float,
            IOBuffer::F64(_) => DataType::Double,
        }
    }

    /// The elements as words: each element's two's-complement (or IEEE-754)
    /// bit pattern read as an unsigned number of the element's width.
    pub open spec fn words(&self) -> Seq<u64> {
        match self {
            IOBuffer::U8(v) => v@.map_values(|x: u8| x as u64),
            IOBuffer::I8(v) => v@.map_values(|x: i8| x as u8 as u64),
            IOBuffer::U16(v) => v@.map_values(|x: u16| x as u64),
            IOBuffer::I16(v) => v@.map_values(|x: i16| x as u16 as u64),
            IOBuffer::U32(v) => v@.map_values(|x: u32| x as u64),
            IOBuffer::I32(v) => v@.map_values(|x: i32| x as u32 as u64),
            IOBuffer::U64(v) => v@,
            IOBuffer::I64(v) => v@.map_values(|x: i64| x as u64),
            IOBuffer::F32(v) => v@.map_values(|x: u32| x as u64),
            IOBuffer::F64(v) => v@,
        }
    }

    /// Number of elements.
    pub open spec fn len_spec(&self) -> nat {
        self.words().len()
    }

    /// The element type of the buffer.
    pub fn data_type(&self) -> (r: DataType)
        ensures
            r == self.data_type_spec(),
    {
        match self {
            IOBuffer::U8(_) => DataType::UnsignedChar,
            IOBuffer::I8(_) => DataType::Char,
            IOBuffer::U16(_) => DataType::UnsignedShort,
            IOBuffer::I16(_) => DataType::Short,
            IOBuffer::U32(_) => DataType::UnsignedInt,
            IOBuffer::I32(_) => DataType::Int,
            IOBuffer::U64(_) => DataType::UnsignedLong,
            IOBuffer::I64(_) => DataType::Long,
            IOBuffer::F32(_) => DataType::Float,
            IOBuffer::F64(_) => DataType::Double,
        }
    }

    /// Number of elements.
    pub fn len(&self) -> (r: usize)
        ensures
            r == self.len_spec(),
    {
        match self {
            IOBuffer::U8(v) => v.len(),
            IOBuffer::I8(v) => v.len(),
            IOBuffer::U16(v) => v.len(),
            IOBuffer::I16(v) => v.len(),
            IOBuffer::U32(v) => v.len(),
            IOBuffer::I32(v) => v.len(),
            IOBuffer::U64(v) => v.len(),
            IOBuffer::I64(v) => v.len(),
            IOBuffer::F32(v) => v.len(),
            IOBuffer::F64(v) => v.len(),
        }
    }

    /// Whether the buffer holds no element.
    pub fn is_empty(&self) -> (r: bool)
        ensures
            r == (self.len_spec() == 0),
    {
        self.len() == 0
    }

    /// The elements as words, provided the buffer holds elements of type
    /// `dt`; `None` on any other type, with no conversion.
    pub fn words_if(&self, dt: DataType) -> (r: Option<Vec<u64>>)
        ensures
            r is Some <==> dt == self.data_type_spec(),
            r is Some ==> r->0@ == self.words(),
    {
        if self.data_type() != dt {
            return None;
        }
        let n = self.len();
        let mut v: Vec<u64> = Vec::new();
        let mut i: usize = 0;
        while i < n
            invariant
                n == self.len_spec(),
                i <= n,
                v@ == self.words().subrange(0, i as int),
            decreases n - i,
        {
            v.push(self.word(i));
            assert(v@ =~= self.words().subrange(0, i + 1));
            i = i + 1;
        }
        assert(self.words().subrange(0, n as int) =~= self.words());
        Some(v)
    }

    /// The `i`-th element as a word (see `words`).
    pub fn word(&self, i: usize) -> (r: u64)
        requires
            i < self.len_spec(),
        ensures
            r == self.words()[i as int],
    {
        match self {
            IOBuffer::U8(v) => v[i] as u64,
            IOBuffer::I8(v) => v[i] as u8 as u64,
            IOBuffer::U16(v) => v[i] as u64,
            IOBuffer::I16(v) => v[i] as u16 as u64,
            IOBuffer::U32(v) => v[i] as u64,
            IOBuffer::I32(v) => v[i] as u32 as u64,
            IOBuffer::U64(v) => v[i],
            IOBuffer::I64(v) => v[i] as u64,
            IOBuffer::F32(v) => v[i] as u64,
            IOBuffer::F64(v) => v[i],
        }
    }
}

/// The shape of a cell of an unstructured grid.
#[derive(Copy, Clone, Debug, PartialEq, Eq, Structural)]
pub enum CellType {
    Vertex,
    PolyVertex,
    Line,
    PolyLine,
    Triangle,
    TriangleStrip,
    Polygon,
    Pixel,
    Quad,
    Tetra,
    Voxel,
    Hexahedron,
    Wedge,
    Pyramid,
    QuadraticEdge,
    QuadraticTriangle,
    QuadraticQuad,
    QuadraticTetra,
    QuadraticHexahedron,
}

impl CellType {
    /// The numeric code of the cell shape in a file.
    pub open spec fn code_spec(self) -> u8 {
        match self {
            CellType::Vertex => 1,
            CellType::PolyVertex => 2,
            CellType::Line => 3,
            CellType::PolyLine => 4,
            CellType::Triangle => 5,
            CellType::TriangleStrip => 6,
            CellType::Polygon => 7,
            CellType::Pixel => 8,
            CellType::Quad => 9,
            CellType::Tetra => 10,
            CellType::Voxel => 11,
            CellType::Hexahedron => 12,
            CellType::Wedge => 13,
            CellType::Pyramid => 14,
            CellType::QuadraticEdge => 21,
            CellType::QuadraticTriangle => 22,
            CellType::QuadraticQuad => 23,
            CellType::QuadraticTetra => 24,
            CellType::QuadraticHexahedron => 25,
        }
    }

    /// The numeric code of the cell shape in a file.
    pub fn code(self) -> (r: u8)
        ensures
            r == self.code_spec(),
    {
        match self {
            CellType::Vertex => 1,
            CellType::PolyVertex => 2,
            CellType::Line => 3,
            CellType::PolyLine => 4,
            CellType::Triangle => 5,
            CellType::TriangleStrip => 6,
            CellType::Polygon => 7,
            CellType::Pixel => 8,
            CellType::Quad => 9,
            CellType::Tetra => 10,
            CellType::Voxel => 11,
            CellType::Hexahedron => 12,
            CellType::Wedge => 13,
            CellType::Pyramid => 14,
            CellType::QuadraticEdge => 21,
            CellType::QuadraticTriangle => 22,
            CellType::QuadraticQuad => 23,
            CellType::QuadraticTetra => 24,
            CellType::QuadraticHexahedron => 25,
        }
    }
}

/// Cells as a count and a flattened connectivity list: for each cell, the
/// number of its vertices followed by their indices.
#[derive(Clone, Debug, PartialEq)]
pub struct Cells {
    pub num_cells: u32,
    pub vertices: Vec<u32>,
}

/// One group of polygonal-data cells.
#[derive(Clone, Debug, PartialEq)]
pub enum PolyDataTopology {
    Vertices(Cells),
    Lines(Cells),
    Polygons(Cells),
    TriangleStrips(Cells),
}

impl PolyDataTopology {
    /// The cells of the group.
    pub open spec fn cells_spec(&self) -> Cells {
        match self {
            PolyDataTopology::Vertices(c) => *c,
            PolyDataTopology::Lines(c) => *c,
            PolyDataTopology::Polygons(c) => *c,
            PolyDataTopology::TriangleStrips(c) => *c,
        }
    }

    /// The position of the group's kind in a file: vertices, lines,
    /// polygons, then triangle strips.
    pub open spec fn rank_spec(&self) -> nat {
        match self {
            PolyDataTopology::Vertices(_) => 0,
            PolyDataTopology::Lines(_) => 1,
            PolyDataTopology::Polygons(_) => 2,
            PolyDataTopology::TriangleStrips(_) => 3,
        }
    }

    /// The position of the group's kind in a file: vertices, lines,
    /// polygons, then triangle strips.
    pub fn rank(&self) -> (r: u8)
        ensures
            r == self.rank_spec(),
    {
        match self {
            PolyDataTopology::Vertices(_) => 0,
            PolyDataTopology::Lines(_) => 1,
            PolyDataTopology::Polygons(_) => 2,
            PolyDataTopology::TriangleStrips(_) => 3,
        }
    }

    /// The cells of the group.
    pub fn cells(&self) -> (r: &Cells)
        ensures
            *r == self.cells_spec(),
    {
        match self {
            PolyDataTopology::Vertices(c) => c,
            PolyDataTopology::Lines(c) => c,
            PolyDataTopology::Polygons(c) => c,
            PolyDataTopology::TriangleStrips(c) => c,
        }
    }
}

/// Total number of cells over the groups `topo`.
pub open spec fn total_cells(topo: Seq<PolyDataTopology>) -> nat
    decreases topo.len(),
{
    if topo.len() == 0 {
        0
    } else {
        total_cells(topo.drop_last()) + topo.last().cells_spec().num_cells as nat
    }
}

/// An inclusive range of indices along one axis.
#[derive(Copy, Clone, Debug, PartialEq, Eq, Structural)]
pub struct AxisRange {
    pub start: i32,
    pub end: i32,
}

/// Inclusive integer bounds of a structured dataset, given either as the
/// number of points along each axis or as a range per axis.
#[derive(Copy, Clone, Debug, PartialEq, Eq, Structural)]
pub enum Extent {
    Dims(u32, u32, u32),
    Ranges(AxisRange, AxisRange, AxisRange),
}

/// Number of points in the inclusive range `r`.
pub open spec fn range_len(r: AxisRange) -> int {
    r.end - r.start + 1
}

impl Extent {
    /// Every range is non-decreasing.
    pub open spec fn wf(self) -> bool {
        match self {
            Extent::Dims(..) => true,
            Extent::Ranges(x, y, z) => x.start <= x.end && y.start <= y.end && z.start <= z.end,
        }
    }

    /// Number of points along each axis.
    pub open spec fn dims_spec(self) -> (int, int, int) {
        match self {
            Extent::Dims(x, y, z) => (x as int, y as int, z as int),
            Extent::Ranges(x, y, z) => (range_len(x), range_len(y), range_len(z)),
        }
    }

    /// Number of points of the whole grid.
    pub open spec fn num_points_spec(self) -> int {
        let d = self.dims_spec();
        d.0 * d.1 * d.2
    }

    /// Number of points along each axis.
    pub fn into_dims(self) -> (r: (u64, u64, u64))
        requires
            self.wf(),
        ensures
            r.0 == self.dims_spec().0,
            r.1 == self.dims_spec().1,
            r.2 == self.dims_spec().2,
    {
        match self {
            Extent::Dims(x, y, z) => (x as u64, y as u64, z as u64),
            Extent::Ranges(x, y, z) => (
                (x.end as i64 - x.start as i64 + 1) as u64,
                (y.end as i64 - y.start as i64 + 1) as u64,
                (z.end as i64 - z.start as i64 + 1) as u64,
            ),
        }
    }
}

/// File format version.
#[derive(Copy, Clone, Debug, PartialEq, Eq, Structural)]
pub struct Version {
    pub major: u32,
    pub minor: u32,
}

/// A named array of tuples of `num_comp` components.
#[derive(Clone, Debug, PartialEq)]
pub struct FieldArray {
    pub name: String,
    pub num_comp: u32,
    pub data: IOBuffer,
}

/// Every array of `arrays` has at least one component per tuple.
pub open spec fn arrays_wf(arrays: Seq<FieldArray>) -> bool {
    forall|i: int| 0 <= i < arrays.len() ==> #[trigger] arrays[i].num_comp > 0
}

/// Data attached to points or cells.
#[derive(Clone, Debug, PartialEq)]
pub enum Attribute {
    Scalars { num_comp: u32, lookup_table: Option<String>, data: IOBuffer },
    ColorScalars { num_comp: u32, data: IOBuffer },
    LookupTable { data: IOBuffer },
    Vectors { data: IOBuffer },
    Normals { data: IOBuffer },
    TextureCoordinates { dim: u32, data: IOBuffer },
    Tensors { data: IOBuffer },
    Field { data_array: Vec<FieldArray> },
}

impl Attribute {
    pub open spec fn wf(&self) -> bool {
        match self {
            Attribute::Field { data_array } => arrays_wf(data_array@),
            _ => true,
        }
    }
}

/// Every attribute of `list` is well formed.
pub open spec fn attrib_list_wf(list: Seq<(String, Attribute)>) -> bool {
    forall|i: int| 0 <= i < list.len() ==> (#[trigger] list[i]).1.wf()
}

/// Named attributes of the points and of the cells, in order.
#[derive(Clone, Debug, PartialEq)]
pub struct Attributes {
    pub point: Vec<(String, Attribute)>,
    pub cell: Vec<(String, Attribute)>,
}

impl Attributes {
    pub open spec fn wf(&self) -> bool {
        attrib_list_wf(self.point@) && attrib_list_wf(self.cell@)
    }

    /// No attribute at all.
    pub fn new() -> (r: Attributes)
        ensures
            r.point@.len() == 0,
            r.cell@.len() == 0,
    {
        Attributes { point: Vec::new(), cell: Vec::new() }
    }
}

/// Three double-precision values, one per axis, held as their bits.
#[derive(Copy, Clone, Debug, PartialEq, Eq, Structural)]
pub struct Vec3 {
    pub x: u64,
    pub y: u64,
    pub z: u64,
}

/// The geometry, topology and data of a file.
///
/// `origin` and `spacing` of image data hold the bits of double-precision
/// values.
#[derive(Clone, Debug, PartialEq)]
pub enum DataSet {
    Field { name: String, data_array: Vec<FieldArray> },
    PolyData { points: IOBuffer, topo: Vec<PolyDataTopology>, data: Attributes },
    UnstructuredGrid {
        points: IOBuffer,
        cells: Cells,
        cell_types: Vec<CellType>,
        data: Attributes,
    },
    ImageData { extent: Extent, origin: Vec3, spacing: Vec3, data: Attributes },
    StructuredGrid { extent: Extent, points: IOBuffer, data: Attributes },
    RectilinearGrid {
        extent: Extent,
        x_coords: IOBuffer,
        y_coords: IOBuffer,
        z_coords: IOBuffer,
        data: Attributes,
    },
}

impl DataSet {
    /// What writing needs of the dataset: field arrays with components,
    /// non-decreasing extents, point and cell counts that fit in 64 bits, a
    /// structured grid whose extent agrees with its points, and coordinate
    /// lists that are not empty.
    pub open spec fn wf(&self) -> bool {
        match self {
            DataSet::Field { data_array, .. } => arrays_wf(data_array@),
            DataSet::PolyData { topo, data, .. } => data.wf() && total_cells(topo@) <= u64::MAX,
            DataSet::UnstructuredGrid { data, .. } => data.wf(),
            DataSet::ImageData { extent, data, .. } => data.wf() && extent.wf()
                && extent.num_points_spec() <= u64::MAX,
            DataSet::StructuredGrid { extent, points, data } => data.wf() && extent.wf()
                && extent.num_points_spec() == points.len_spec() / 3,
            DataSet::RectilinearGrid { extent, x_coords, y_coords, z_coords, data } => data.wf()
                && extent.wf() && x_coords.len_spec() >= 1 && y_coords.len_spec() >= 1
                && z_coords.len_spec() >= 1 && x_coords.len_spec() * y_coords.len_spec()
                * z_coords.len_spec() <= u64::MAX,
        }
    }
}

/// A whole file: version, one-line title, encoding of bulk data, dataset.
#[derive(Clone, Debug, PartialEq)]
pub struct Vtk {
    pub version: Version,
    pub title: String,
    pub file_type: FileType,
    pub data: DataSet,
}

} // verus!

use vstd::prelude::*;

verus! {

/// The part of an entry in which writing failed.
#[derive(Copy, Clone, Debug, PartialEq, Eq, Hash, PartialOrd, Ord, Structural)]
pub enum EntryPart {
    /// The part of a header with just tags.
    Tags,
    /// The part of the header with sizes.
    Sizes,
    /// Tags and sizes together.
    Header,
    /// The data of the entry, with the operating system's error code where
    /// the sink reported one.
    Data(Option<i32>),
    /// The lookup table name of a scalars attribute.
    LookupTable,
}

/// The attribute in which writing failed.
#[derive(Copy, Clone, Debug, PartialEq, Eq, Hash, PartialOrd, Ord, Structural)]
pub enum AttributeError {
    Scalars(EntryPart),
    ColorScalars(EntryPart),
    LookupTable(EntryPart),
    Vectors(EntryPart),
    Normals(EntryPart),
    TextureCoordinates(EntryPart),
    Tensors(EntryPart),
    Field(EntryPart),
    FieldArray(EntryPart),
}

/// The header line in which writing failed.
#[derive(Copy, Clone, Debug, PartialEq, Eq, Hash, PartialOrd, Ord, Structural)]
pub enum Header {
    Version,
    Title,
    /// Binary or ASCII.
    FileType,
}

/// The section of a dataset in which writing failed.
#[derive(Copy, Clone, Debug, PartialEq, Eq, Hash, PartialOrd, Ord, Structural)]
pub enum DataSetPart {
    /// The keyword naming the kind of dataset.
    Tags,
    Points(EntryPart),
    Cells(EntryPart),
    CellTypes(EntryPart),
    Dimensions,
    Origin,
    Spacing(EntryPart),
    XCoordinates(EntryPart),
    YCoordinates(EntryPart),
    ZCoordinates(EntryPart),
}

/// The dataset section in which writing failed.
#[derive(Copy, Clone, Debug, PartialEq, Eq, Hash, PartialOrd, Ord, Structural)]
pub enum DataSetError {
    FieldDataHeader,
    FieldArray(EntryPart),
    PolyData(DataSetPart),
    UnstructuredGrid(DataSetPart),
    StructuredGrid(DataSetPart),
    StructuredPoints(DataSetPart),
    RectilinearGrid(DataSetPart),
}

/// Why writing a file failed, tagged with the section where it did.
#[derive(Copy, Clone, Debug, PartialEq, Eq, Hash, PartialOrd, Ord, Structural)]
pub enum Error {
    PointDataHeader,
    CellDataHeader,
    Attribute(AttributeError),
    Header(Header),
    DataSet(DataSetError),
    NewLine,
    /// A buffer holds another element type than its section needs.
    DataMismatchError,
    /// A value could not be formatted.
    FormatError,
    /// The sink failed, with the operating system's error code where there
    /// is one.
    IOError(Option<i32>),
}

impl Error {
    /// The operating system's error code that the error carries, if any.
    pub fn io_code(self) -> (r: Option<i32>)
        ensures
            r == match self {
                Error::IOError(c) => c,
                _ => None,
            },
    {
        match self {
            Error::IOError(c) => c,
            _ => None,
        }
    }
}

} // verus!

use vtkio::basic::{parse_ascii_ints, parse_binary_buffer, FileType, IResult};
use vtkio::endian::ByteOrder;
use vtkio::error::{AttributeError, DataSetError, DataSetPart, EntryPart, Error};
use vtkio::model::{
    Attribute, Attributes, AxisRange, CellType, Cells, DataSet, Extent, FieldArray, IOBuffer,
    PolyDataTopology, Vec3, Version, Vtk,
};
use vtkio::output::Token;
use vtkio::writer::{product3, validate, write_buf, write_vtk, write_vtk_be, write_vtk_le};

fn render(tokens: &[Token]) -> Vec<u8> {
    let mut out = Vec::new();
    for t in tokens {
        match *t {
            Token::Byte(b) => out.push(b),
            Token::Float(bits) => out.extend_from_slice(f32::from_bits(bits).to_string().as_bytes()),
            Token::Double(bits) => out.extend_from_slice(f64::from_bits(bits).to_string().as_bytes()),
        }
    }
    out
}

fn text_of(vtk: Vtk) -> String {
    let mut out = Vec::new();
    write_vtk_le(&mut out, vtk).unwrap();
    String::from_utf8(render(&out)).unwrap()
}

fn f32s(v: &[f32]) -> IOBuffer {
    IOBuffer::F32(v.iter().map(|x| x.to_bits()).collect())
}

fn vec3(x: f64, y: f64, z: f64) -> Vec3 {
    Vec3 { x: x.to_bits(), y: y.to_bits(), z: z.to_bits() }
}

fn image(major: u32) -> Vtk {
    Vtk {
        version: Version { major, minor: 0 },
        title: String::from("img"),
        file_type: FileType::ASCII,
        data: DataSet::ImageData {
            extent: Extent::Dims(2, 3, 1),
            origin: vec3(0.0, 0.5, 1.0),
            spacing: vec3(1.0, 1.0, 2.5),
            data: Attributes::new(),
        },
    }
}

fn tri(file_type: FileType) -> Vtk {
    Vtk {
        version: Version { major: 4, minor: 2 },
        title: String::from("Triangle example"),
        file_type,
        data: DataSet::PolyData {
            points: f32s(&[0.0, 0.0, 0.0, 1.0, 0.0, 0.0, 0.0, 1.0, 0.0]),
            topo: vec![PolyDataTopology::Polygons(Cells { num_cells: 1, vertices: vec![3, 0, 1, 2] })],
            data: Attributes {
                point: vec![(
                    String::from("temp"),
                    Attribute::Scalars { num_comp: 1, lookup_table: None, data: IOBuffer::U8(vec![1, 2, 3]) },
                )],
                cell: vec![],
            },
        },
    }
}

#[test]
fn scalars_default_lookup_table() {
    let text = text_of(tri(FileType::ASCII));
    assert!(text.contains("SCALARS temp unsigned_char 1\nLOOKUP_TABLE default\n1 2 3\n"));
}

#[test]
fn scalars_named_lookup_table() {
    let mut vtk = tri(FileType::ASCII);
    if let DataSet::PolyData { data, .. } = &mut vtk.data {
        data.point[0].1 = Attribute::Scalars {
            num_comp: 1,
            lookup_table: Some(String::from("my_table")),
            data: IOBuffer::U8(vec![1, 2, 3]),
        };
    }
    let text = text_of(vtk);
    assert!(text.contains("LOOKUP_TABLE my_table\n"));
    assert!(!text.contains("LOOKUP_TABLE default"));
}

#[test]
fn image_data_spacing_keyword_by_version() {
    let old = text_of(image(1));
    let new = text_of(image(2));
    assert!(old.contains("ASPECT_RATIO 1 1 2.5\n"));
    assert!(!old.contains("SPACING"));
    assert!(new.contains("SPACING 1 1 2.5\n"));
    assert!(!new.contains("ASPECT_RATIO"));
    assert_eq!(old.replace("ASPECT_RATIO", "SPACING").replace("Version 1.0", "Version 2.0"), new);
}

#[test]
fn image_data_exact_text() {
    let text = text_of(image(2));
    assert_eq!(
        text,
        "# vtk DataFile Version 2.0\nimg\nASCII\n\nDATASET STRUCTURED_POINTS\nDIMENSIONS 2 3 1\n\
         ORIGIN 0 0.5 1\nSPACING 1 1 2.5\n\nPOINT_DATA 6\n\nCELL_DATA 0\n\n"
    );
}

#[test]
fn empty_attributes_still_have_headers() {
    let vtk = Vtk {
        version: Version { major: 3, minor: 0 },
        title: String::from("grid"),
        file_type: FileType::ASCII,
        data: DataSet::StructuredGrid {
            extent: Extent::Ranges(
                AxisRange { start: 0, end: 1 },
                AxisRange { start: 0, end: 0 },
                AxisRange { start: -1, end: -1 },
            ),
            points: f32s(&[0.0, 0.0, 0.0, 1.0, 0.0, 0.0]),
            data: Attributes::new(),
        },
    };
    let text = text_of(vtk);
    assert!(text.contains("DIMENSIONS 2 1 1\n"));
    assert!(text.contains("POINT_DATA 2\n"));
    assert!(text.contains("CELL_DATA 1\n"));
}

#[test]
fn poly_data_ascii_exact_text() {
    let text = text_of(tri(FileType::ASCII));
    assert_eq!(
        text,
        "# vtk DataFile Version 4.2\nTriangle example\nASCII\n\nDATASET POLYDATA\nPOINTS 3 float\n\
         0 0 0 1 0 0 0 1 0\n\nPOLYGONS 1 4\n3 0 1 2\n\nPOINT_DATA 3\n\nSCALARS temp unsigned_char 1\n\
         LOOKUP_TABLE default\n1 2 3\n\nCELL_DATA 1\n\n"
    );
}

#[test]
fn poly_data_binary_bytes() {
    let mut le = Vec::new();
    write_vtk_le(&mut le, tri(FileType::Binary)).unwrap();
    let le = render(&le);
    let mut be = Vec::new();
    write_vtk_be(&mut be, tri(FileType::Binary)).unwrap();
    let be = render(&be);
    let head = b"# vtk DataFile Version 4.2\nTriangle example\nBINARY\n\nDATASET POLYDATA\nPOINTS 3 float\n";
    assert!(le.starts_with(head));
    assert!(be.starts_with(head));
    let one_le = 1.0f32.to_le_bytes();
    let one_be = 1.0f32.to_be_bytes();
    assert_eq!(&le[head.len() + 12..head.len() + 16], &one_le[..]);
    assert_eq!(&be[head.len() + 12..head.len() + 16], &one_be[..]);
    let conn = b"POLYGONS 1 4\n";
    let at = be.windows(conn.len()).position(|w| w == conn).unwrap() + conn.len();
    assert_eq!(&be[at..at + 17], &[0, 0, 0, 3, 0, 0, 0, 0, 0, 0, 0, 1, 0, 0, 0, 2, b'\n'][..]);
}

#[test]
fn native_order_is_one_of_the_two() {
    let mut out = Vec::new();
    write_vtk(&mut out, tri(FileType::Binary)).unwrap();
    let mut le = Vec::new();
    write_vtk_le(&mut le, tri(FileType::Binary)).unwrap();
    let mut be = Vec::new();
    write_vtk_be(&mut be, tri(FileType::Binary)).unwrap();
    assert!(out == le || out == be);
}

#[test]
fn unstructured_grid_text() {
    let vtk = Vtk {
        version: Version { major: 4, minor: 2 },
        title: String::from("ug"),
        file_type: FileType::ASCII,
        data: DataSet::UnstructuredGrid {
            points: IOBuffer::I32(vec![0, 0, 0, 1, 0, 0, 0, -1, 0]),
            cells: Cells { num_cells: 1, vertices: vec![3, 0, 1, 2] },
            cell_types: vec![CellType::Triangle],
            data: Attributes {
                point: vec![],
                cell: vec![(String::from("n"), Attribute::Normals { data: IOBuffer::I8(vec![0, 0, -1]) })],
            },
        },
    };
    let text = text_of(vtk);
    assert!(text.contains("POINTS 3 int\n0 0 0 1 0 0 0 -1 0\n\nCELLS 1 4\n3 0 1 2\n\nCELL_TYPES 1\n5\n\n"));
    assert!(text.contains("CELL_DATA 1\n\nNORMALS n char\n0 0 -1\n"));
}

#[test]
fn unstructured_grid_binary_cell_types() {
    let vtk = Vtk {
        version: Version { major: 4, minor: 2 },
        title: String::from("ug"),
        file_type: FileType::Binary,
        data: DataSet::UnstructuredGrid {
            points: IOBuffer::U8(vec![0, 0, 0]),
            cells: Cells { num_cells: 1, vertices: vec![1, 0] },
            cell_types: vec![CellType::Hexahedron],
            data: Attributes::new(),
        },
    };
    let mut out = Vec::new();
    write_vtk_be(&mut out, vtk).unwrap();
    let bytes = render(&out);
    let key = b"CELL_TYPES 1\n";
    let at = bytes.windows(key.len()).position(|w| w == key).unwrap() + key.len();
    assert_eq!(&bytes[at..at + 5], &[0, 0, 0, 12, b'\n'][..]);
}

#[test]
fn rectilinear_grid_counts() {
    let vtk = Vtk {
        version: Version { major: 4, minor: 2 },
        title: String::from("rg"),
        file_type: FileType::ASCII,
        data: DataSet::RectilinearGrid {
            extent: Extent::Dims(3, 2, 1),
            x_coords: f32s(&[0.0, 1.0, 2.0]),
            y_coords: f32s(&[0.0, 1.5]),
            z_coords: IOBuffer::F64(vec![0.0f64.to_bits()]),
            data: Attributes::new(),
        },
    };
    let text = text_of(vtk);
    assert!(text.contains("X_COORDINATES 3 float\n0 1 2\nY_COORDINATES 2 float\n0 1.5\nZ_COORDINATES 1 double\n0\n"));
    assert!(text.contains("POINT_DATA 6\n"));
    assert!(text.contains("CELL_DATA 0\n"));
}

#[test]
fn field_data_and_attributes() {
    let vtk = Vtk {
        version: Version { major: 4, minor: 2 },
        title: String::from("f"),
        file_type: FileType::ASCII,
        data: DataSet::Field {
            name: String::from("FieldData"),
            data_array: vec![FieldArray { name: String::from("a"), num_comp: 2, data: IOBuffer::I16(vec![1, -2, 3, 4]) }],
        },
    };
    assert_eq!(
        text_of(vtk),
        "# vtk DataFile Version 4.2\nf\nASCII\n\nFIELD FieldData 1\na 2 2 short\n1 -2 3 4\n\n"
    );
    let mut vtk = tri(FileType::ASCII);
    if let DataSet::PolyData { data, .. } = &mut vtk.data {
        data.cell = vec![
            (String::from("c"), Attribute::ColorScalars { num_comp: 3, data: f32s(&[1.0, 0.5, 0.0]) }),
            (String::from("lut"), Attribute::LookupTable { data: IOBuffer::U8(vec![0; 8]) }),
            (String::from("v"), Attribute::Vectors { data: IOBuffer::U16(vec![1, 2, 3]) }),
            (String::from("t"), Attribute::TextureCoordinates { dim: 2, data: IOBuffer::U32(vec![1, 2]) }),
            (String::from("s"), Attribute::Tensors { data: IOBuffer::U64(vec![9]) }),
            (
                String::from("fd"),
                Attribute::Field {
                    data_array: vec![FieldArray { name: String::from("x"), num_comp: 1, data: IOBuffer::I64(vec![-5]) }],
                },
            ),
        ];
    }
    let text = text_of(vtk);
    assert!(text.contains(
        "CELL_DATA 1\n\nCOLOR_SCALARS c 3\n1 0.5 0\n\nLOOKUP_TABLE lut 2\n0 0 0 0 0 0 0 0\n\nVECTORS v unsigned_short\n1 2 3\n\n\
         TEXTURE_COORDINATES t 2 unsigned_int\n1 2\n\nTENSORS s unsigned_long\n9\n\nFIELD fd 1\nx 1 1 long\n-5\n"
    ));
}

#[test]
fn invalid_datasets_are_rejected() {
    let zero_comp = DataSet::Field {
        name: String::from("f"),
        data_array: vec![FieldArray { name: String::from("a"), num_comp: 0, data: IOBuffer::U8(vec![]) }],
    };
    assert_eq!(validate(&zero_comp), Err(Error::DataSet(DataSetError::FieldArray(EntryPart::Sizes))));
    let empty_x = DataSet::RectilinearGrid {
        extent: Extent::Dims(0, 1, 1),
        x_coords: f32s(&[]),
        y_coords: f32s(&[0.0]),
        z_coords: f32s(&[0.0]),
        data: Attributes::new(),
    };
    assert_eq!(
        validate(&empty_x),
        Err(Error::DataSet(DataSetError::RectilinearGrid(DataSetPart::XCoordinates(EntryPart::Sizes))))
    );
    let mismatch = DataSet::StructuredGrid {
        extent: Extent::Dims(2, 2, 1),
        points: f32s(&[0.0, 0.0, 0.0]),
        data: Attributes::new(),
    };
    assert_eq!(
        validate(&mismatch),
        Err(Error::DataSet(DataSetError::StructuredGrid(DataSetPart::Points(EntryPart::Sizes))))
    );
    let backwards = DataSet::ImageData {
        extent: Extent::Ranges(AxisRange { start: 2, end: 1 }, AxisRange { start: 0, end: 0 }, AxisRange { start: 0, end: 0 }),
        origin: vec3(0.0, 0.0, 0.0),
        spacing: vec3(1.0, 1.0, 1.0),
        data: Attributes::new(),
    };
    assert_eq!(validate(&backwards), Err(Error::DataSet(DataSetError::StructuredPoints(DataSetPart::Dimensions))));
    let huge = DataSet::ImageData {
        extent: Extent::Dims(u32::MAX, u32::MAX, u32::MAX),
        origin: vec3(0.0, 0.0, 0.0),
        spacing: vec3(1.0, 1.0, 1.0),
        data: Attributes::new(),
    };
    assert_eq!(validate(&huge), Err(Error::DataSet(DataSetError::StructuredPoints(DataSetPart::Dimensions))));
    let bad_attr = DataSet::UnstructuredGrid {
        points: IOBuffer::U8(vec![]),
        cells: Cells { num_cells: 0, vertices: vec![] },
        cell_types: vec![],
        data: Attributes {
            point: vec![(
                String::from("fd"),
                Attribute::Field { data_array: vec![FieldArray { name: String::from("x"), num_comp: 0, data: IOBuffer::U8(vec![]) }] },
            )],
            cell: vec![],
        },
    };
    assert_eq!(validate(&bad_attr), Err(Error::Attribute(AttributeError::FieldArray(EntryPart::Sizes))));
    let mut out = vec![Token::Byte(b'x')];
    let vtk = Vtk { version: Version { major: 4, minor: 2 }, title: String::from("t"), file_type: FileType::ASCII, data: mismatch };
    assert!(write_vtk_le(&mut out, vtk).is_err());
    assert_eq!(out, vec![Token::Byte(b'x')]);
}

#[test]
fn binary_buffers_round_trip() {
    let buffers = vec![
        IOBuffer::U8(vec![0, 1, 255]),
        IOBuffer::I8(vec![-128, -1, 0, 127]),
        IOBuffer::U16(vec![0, 0x1234, u16::MAX]),
        IOBuffer::I16(vec![i16::MIN, -2, 3]),
        IOBuffer::U32(vec![7, u32::MAX]),
        IOBuffer::I32(vec![i32::MIN, -1, 5]),
        IOBuffer::U64(vec![u64::MAX, 3]),
        IOBuffer::I64(vec![i64::MIN, -9, 9]),
        f32s(&[0.15625, -1.5e-7, f32::MAX]),
        IOBuffer::F64(vec![(-0.1f64).to_bits(), f64::MIN_POSITIVE.to_bits()]),
    ];
    for bo in [ByteOrder::BigEndian, ByteOrder::LittleEndian] {
        for b in &buffers {
            let mut out = Vec::new();
            write_buf(&mut out, b, FileType::Binary, bo);
            let bytes = render(&out);
            assert_eq!(bytes.last(), Some(&b'\n'));
            let body = &bytes[..bytes.len() - 1];
            assert_eq!(parse_binary_buffer(body, b.len(), b.data_type(), bo), IResult::Done(body.len(), b.clone()));
        }
    }
}

#[test]
fn text_buffers_are_space_separated() {
    let mut out = Vec::new();
    write_buf(&mut out, &IOBuffer::I64(vec![-3, 0, 12]), FileType::ASCII, ByteOrder::BigEndian);
    assert_eq!(render(&out), b"-3 0 12\n".to_vec());
    let mut out = Vec::new();
    write_buf(&mut out, &IOBuffer::U8(vec![]), FileType::ASCII, ByteOrder::BigEndian);
    assert_eq!(render(&out), b"\n".to_vec());
}

#[test]
fn products_that_fit() {
    assert_eq!(product3(2, 3, 4), Some(24));
    assert_eq!(product3(u64::MAX, u64::MAX, 0), Some(0));
    assert_eq!(product3(u64::MAX, 2, 1), None);
    assert_eq!(Extent::Ranges(AxisRange { start: -2, end: 2 }, AxisRange { start: 0, end: 0 }, AxisRange { start: 5, end: 6 }).into_dims(), (5, 1, 2));
}

#[test]
fn typed_extraction_does_not_convert() {
    let b = IOBuffer::I16(vec![-1, 2]);
    assert_eq!(b.words_if(vtkio::model::DataType::Short), Some(vec![0xFFFF, 2]));
    assert_eq!(b.words_if(vtkio::model::DataType::UnsignedShort), None);
    assert_eq!(b.words_if(vtkio::model::DataType::Int), None);
    assert_eq!(b.len(), 2);
    assert!(!b.is_empty());
}

#[test]
fn poly_data_groups_in_fixed_order() {
    let cells = |n: u32, v: Vec<u32>| Cells { num_cells: n, vertices: v };
    let vtk = Vtk {
        version: Version { major: 4, minor: 2 },
        title: String::from("groups"),
        file_type: FileType::ASCII,
        data: DataSet::PolyData {
            points: IOBuffer::U8(vec![0, 0, 0, 1, 0, 0, 0, 1, 0]),
            topo: vec![
                PolyDataTopology::TriangleStrips(cells(1, vec![3, 0, 1, 2])),
                PolyDataTopology::Lines(cells(1, vec![2, 0, 1])),
                PolyDataTopology::Vertices(cells(2, vec![1, 0, 1, 1])),
                PolyDataTopology::Lines(cells(1, vec![2, 1, 2])),
                PolyDataTopology::Polygons(cells(1, vec![3, 2, 1, 0])),
            ],
            data: Attributes::new(),
        },
    };
    let text = text_of(vtk);
    assert!(text.contains(
        "\n\nVERTICES 2 4\n1 0 1 1\nLINES 1 3\n2 0 1\nLINES 1 3\n2 1 2\nPOLYGONS 1 4\n3 2 1 0\n\
         TRIANGLE_STRIPS 1 4\n3 0 1 2\n\nPOINT_DATA 3\n"
    ));
    assert!(text.contains("CELL_DATA 6\n"));
}

#[test]
fn ascii_integer_buffers_round_trip() {
    let buffers = vec![
        IOBuffer::U8(vec![0, 255, 7]),
        IOBuffer::I8(vec![-128, 127]),
        IOBuffer::I16(vec![i16::MIN, 0]),
        IOBuffer::U32(vec![u32::MAX]),
        IOBuffer::I64(vec![i64::MIN, -1, i64::MAX]),
        IOBuffer::U64(vec![u64::MAX, 10]),
    ];
    for b in &buffers {
        let mut out = Vec::new();
        write_buf(&mut out, b, FileType::ASCII, ByteOrder::LittleEndian);
        let bytes = render(&out);
        assert_eq!(parse_ascii_ints(&bytes, b.len(), b.data_type()), IResult::Done(bytes.len(), b.clone()));
    }
}

use dash_viewer::parse_gaussian_ply_bytes;
use dash_viewer::ply::{
    classify_ply_payload, find_bytes, find_header_end, parse_ply_format, parse_ply_header,
    parse_scalar_type, Gaussian3dLayout, Gaussian4dLayout, PlyError, PlyFormat, PlyPayloadKind,
    PlyScalarType, RawGaussians, Scalar, VertexLayout, VertexProp,
};

const CORE: [&str; 14] = [
    "x", "y", "z", "opacity", "scale_0", "scale_1", "scale_2", "rot_0", "rot_1", "rot_2", "rot_3",
    "f_dc_0", "f_dc_1", "f_dc_2",
];

const STG: [&str; 15] = [
    "trbf_center", "trbf_scale", "motion_0", "motion_1", "motion_2", "motion_3", "motion_4",
    "motion_5", "motion_6", "motion_7", "motion_8", "omega_0", "omega_1", "omega_2", "omega_3",
];

fn header(format: &str, count: usize, props: &[(&str, &str)], newline: &str) -> Vec<u8> {
    let mut h = String::new();
    h.push_str(&format!("ply{newline}"));
    h.push_str(&format!("format {format} 1.0{newline}"));
    h.push_str(&format!("comment made for a test{newline}"));
    h.push_str(&format!("element vertex {count}{newline}"));
    for (ty, name) in props {
        h.push_str(&format!("property {ty} {name}{newline}"));
    }
    h.push_str(&format!("end_header{newline}"));
    h.into_bytes()
}

fn float_props(names: &[&str]) -> Vec<(&'static str, String)> {
    names.iter().map(|n| ("float", n.to_string())).collect()
}

/// A binary little-endian file with float properties; vertex `i`, property `k`
/// holds `100 * i + k`.
fn float_file(names: &[&str], count: usize) -> Vec<u8> {
    let props = float_props(names);
    let refs: Vec<(&str, &str)> = props.iter().map(|(t, n)| (*t, n.as_str())).collect();
    let mut data = header("binary_little_endian", count, &refs, "\n");
    for i in 0..count {
        for k in 0..names.len() {
            data.extend_from_slice(&((100 * i + k) as f32).to_le_bytes());
        }
    }
    data
}

fn as_f32(s: &Scalar) -> f32 {
    assert_eq!(s.ty, PlyScalarType::Float);
    f32::from_bits(s.bits as u32)
}

#[test]
fn loads_3dgs_core_properties() {
    let data = float_file(&CORE, 2);
    let g = match parse_gaussian_ply_bytes(&data).unwrap() {
        RawGaussians::Gaussian3d(v) => v,
        other => panic!("unexpected {other:?}"),
    };
    assert_eq!(g.len(), 2);
    assert_eq!(g[1].position.iter().map(as_f32).collect::<Vec<_>>(), vec![100.0, 101.0, 102.0]);
    assert_eq!(as_f32(&g[1].opacity), 103.0);
    assert_eq!(g[0].scale.iter().map(as_f32).collect::<Vec<_>>(), vec![4.0, 5.0, 6.0]);
    assert_eq!(g[0].rotation.iter().map(as_f32).collect::<Vec<_>>(), vec![7.0, 8.0, 9.0, 10.0]);
    assert_eq!(g[0].sh.len(), 48);
    assert_eq!(as_f32(g[0].sh[0].as_ref().unwrap()), 11.0);
    assert_eq!(as_f32(g[0].sh[2].as_ref().unwrap()), 13.0);
    assert!(g[0].sh[3..].iter().all(|s| s.is_none()));
}

#[test]
fn loads_3dgs_sh_rest_and_extra_properties() {
    let mut names: Vec<String> = CORE.iter().map(|s| s.to_string()).collect();
    names.push("nx".to_string());
    for j in 0..45 {
        names.push(format!("f_rest_{j}"));
    }
    let refs: Vec<&str> = names.iter().map(|s| s.as_str()).collect();
    let data = float_file(&refs, 1);
    let g = match parse_gaussian_ply_bytes(&data).unwrap() {
        RawGaussians::Gaussian3d(v) => v,
        other => panic!("unexpected {other:?}"),
    };
    assert_eq!(as_f32(g[0].sh[3].as_ref().unwrap()), 15.0);
    assert_eq!(as_f32(g[0].sh[47].as_ref().unwrap()), 59.0);
}

#[test]
fn loads_stg_lite_as_4d() {
    let mut names: Vec<&str> = CORE.to_vec();
    names.extend_from_slice(&STG);
    let data = float_file(&names, 3);
    let g = match parse_gaussian_ply_bytes(&data).unwrap() {
        RawGaussians::Gaussian4d(v) => v,
        other => panic!("unexpected {other:?}"),
    };
    assert_eq!(g.len(), 3);
    let v = &g[2];
    assert_eq!(v.position.iter().map(as_f32).collect::<Vec<_>>(), vec![200.0, 201.0, 202.0]);
    assert_eq!(as_f32(&v.opacity), 203.0);
    assert_eq!(v.base_color.iter().map(as_f32).collect::<Vec<_>>(), vec![211.0, 212.0, 213.0]);
    assert_eq!(as_f32(&v.trbf_center), 214.0);
    assert_eq!(as_f32(&v.trbf_scale), 215.0);
    assert_eq!(
        v.motion.iter().map(as_f32).collect::<Vec<_>>(),
        (216..225).map(|k| k as f32).collect::<Vec<_>>()
    );
    assert_eq!(v.omega.iter().map(as_f32).collect::<Vec<_>>(), vec![225.0, 226.0, 227.0, 228.0]);
}

#[test]
fn partial_stg_lite_is_unsupported() {
    let mut names: Vec<&str> = CORE.to_vec();
    names.push("motion_0");
    let data = float_file(&names, 1);
    assert_eq!(parse_gaussian_ply_bytes(&data).unwrap_err(), PlyError::UnsupportedPayload);
}

#[test]
fn missing_core_field_is_unsupported() {
    let data = float_file(&CORE[..13], 1);
    assert_eq!(parse_gaussian_ply_bytes(&data).unwrap_err(), PlyError::UnsupportedPayload);
}

#[test]
fn mixed_scalar_types_are_read_little_endian() {
    let mut props: Vec<(&str, &str)> = vec![("uchar", "red"), ("double", "x"), ("short", "y"), ("int", "z")];
    for n in &CORE[3..] {
        props.push(("ushort", n));
    }
    let mut data = header("binary_little_endian", 1, &props, "\r\n");
    data.push(0xff);
    data.extend_from_slice(&1.5f64.to_le_bytes());
    data.extend_from_slice(&(-2i16).to_le_bytes());
    data.extend_from_slice(&(-70000i32).to_le_bytes());
    for k in 0..11u16 {
        data.extend_from_slice(&(1000 + k).to_le_bytes());
    }
    let g = match parse_gaussian_ply_bytes(&data).unwrap() {
        RawGaussians::Gaussian3d(v) => v,
        other => panic!("unexpected {other:?}"),
    };
    let p = &g[0].position;
    assert_eq!(p[0], Scalar { ty: PlyScalarType::Double, bits: 1.5f64.to_bits() });
    assert_eq!(p[1], Scalar { ty: PlyScalarType::Short, bits: 0xfffe });
    assert_eq!(p[2], Scalar { ty: PlyScalarType::Int, bits: (-70000i32) as u32 as u64 });
    assert_eq!(g[0].opacity, Scalar { ty: PlyScalarType::UShort, bits: 1000 });
    assert_eq!(g[0].sh[2], Some(Scalar { ty: PlyScalarType::UShort, bits: 1010 }));
}

#[test]
fn type_aliases_are_accepted() {
    let mut props: Vec<(&str, &str)> = Vec::new();
    let aliases = ["int8", "uint8", "int16", "uint16", "int32", "uint32", "float32", "float64", "char", "uchar", "float", "float", "float", "float"];
    for (k, n) in CORE.iter().enumerate() {
        props.push((aliases[k], n));
    }
    let mut data = header("binary_little_endian", 1, &props, "\n");
    let sizes = [1, 1, 2, 2, 4, 4, 4, 8, 1, 1, 4, 4, 4, 4];
    for s in sizes {
        data.extend(std::iter::repeat(1u8).take(s));
    }
    let g = match parse_gaussian_ply_bytes(&data).unwrap() {
        RawGaussians::Gaussian3d(v) => v,
        other => panic!("unexpected {other:?}"),
    };
    assert_eq!(g[0].position[0], Scalar { ty: PlyScalarType::Char, bits: 1 });
    assert_eq!(g[0].position[1], Scalar { ty: PlyScalarType::UChar, bits: 1 });
    assert_eq!(g[0].position[2], Scalar { ty: PlyScalarType::Short, bits: 0x0101 });
    assert_eq!(g[0].scale[2], Scalar { ty: PlyScalarType::Float, bits: 0x0101_0101 });
    assert_eq!(g[0].rotation[0], Scalar { ty: PlyScalarType::Double, bits: 0x0101_0101_0101_0101 });
}

#[test]
fn format_errors() {
    let props = float_props(&CORE);
    let refs: Vec<(&str, &str)> = props.iter().map(|(t, n)| (*t, n.as_str())).collect();
    let ascii = header("ascii", 0, &refs, "\n");
    assert_eq!(parse_gaussian_ply_bytes(&ascii).unwrap_err(), PlyError::AsciiUnsupported);
    let be = header("binary_big_endian", 0, &refs, "\n");
    assert_eq!(parse_gaussian_ply_bytes(&be).unwrap_err(), PlyError::BigEndianUnsupported);
    let odd = header("binary_middle_endian", 0, &refs, "\n");
    assert_eq!(parse_gaussian_ply_bytes(&odd).unwrap_err(), PlyError::UnsupportedFormat);
    let v2 = b"ply\nformat ascii 2.0\nend_header\n".to_vec();
    assert_eq!(parse_gaussian_ply_bytes(&v2).unwrap_err(), PlyError::UnsupportedFormatVersion);
    let no_format = b"ply\nelement vertex 0\nend_header\n".to_vec();
    assert_eq!(parse_gaussian_ply_bytes(&no_format).unwrap_err(), PlyError::MissingFormatLine);
    let no_vertex = b"ply\nformat binary_little_endian 1.0\nend_header\n".to_vec();
    assert_eq!(parse_gaussian_ply_bytes(&no_vertex).unwrap_err(), PlyError::MissingVertexElement);
    assert_eq!(parse_gaussian_ply_bytes(b"ply\nformat").unwrap_err(), PlyError::MissingEndHeader);
    let bad_utf8 = b"ply\n\xff\nend_header\n".to_vec();
    assert_eq!(parse_gaussian_ply_bytes(&bad_utf8).unwrap_err(), PlyError::HeaderNotUtf8);
}

#[test]
fn element_and_property_errors() {
    let base = "ply\nformat binary_little_endian 1.0\n";
    let cases: Vec<(String, PlyError)> = vec![
        (format!("{base}element vertex\nend_header\n"), PlyError::MissingVertexCount),
        (format!("{base}element vertex -1\nend_header\n"), PlyError::InvalidVertexCount),
        (format!("{base}element vertex 99999999999999999999999\nend_header\n"), PlyError::InvalidVertexCount),
        (format!("{base}element vertex 1\nproperty list uchar int vertex_indices\nend_header\n"), PlyError::ListProperty),
        (format!("{base}element vertex 1\nproperty float\nend_header\n"), PlyError::UnsupportedPropertyLine),
        (format!("{base}element vertex 1\nproperty half x\nend_header\n"), PlyError::UnknownScalarType),
    ];
    for (text, err) in cases {
        assert_eq!(parse_gaussian_ply_bytes(text.as_bytes()).unwrap_err(), err, "{text}");
    }
}

#[test]
fn properties_of_other_elements_are_ignored() {
    let mut text = String::from("ply\nformat binary_little_endian 1.0\nelement vertex +1\n");
    for n in CORE {
        text.push_str(&format!("property float {n}\n"));
    }
    text.push_str("element face 0\nproperty list uchar int vertex_indices\nend_header\n");
    let mut data = text.into_bytes();
    for k in 0..14 {
        data.extend_from_slice(&(k as f32).to_le_bytes());
    }
    match parse_gaussian_ply_bytes(&data).unwrap() {
        RawGaussians::Gaussian3d(v) => assert_eq!(v.len(), 1),
        other => panic!("unexpected {other:?}"),
    }
}

#[test]
fn body_size_errors() {
    let data = float_file(&CORE, 2);
    let short = &data[..data.len() - 1];
    let header_len = data.len() - 2 * 14 * 4;
    assert_eq!(
        parse_gaussian_ply_bytes(short).unwrap_err(),
        PlyError::BodyTooShort { expected: header_len + 112, actual: data.len() - 1 }
    );
    let props = float_props(&CORE);
    let refs: Vec<(&str, &str)> = props.iter().map(|(t, n)| (*t, n.as_str())).collect();
    let huge = header("binary_little_endian", usize::MAX / 2, &refs, "\n");
    assert_eq!(parse_gaussian_ply_bytes(&huge).unwrap_err(), PlyError::BodySizeOverflow);
    let near = header("binary_little_endian", (usize::MAX - 10) / 56, &refs, "\n");
    assert_eq!(parse_gaussian_ply_bytes(&near).unwrap_err(), PlyError::TotalSizeOverflow);
}

#[test]
fn crlf_end_header_is_preferred() {
    // an `end_header\n` comes first, but `end_header\r\n` decides where the body starts
    let props = float_props(&CORE);
    let refs: Vec<(&str, &str)> = props.iter().map(|(t, n)| (*t, n.as_str())).collect();
    let mut data = header("binary_little_endian", 0, &refs, "\r\n");
    match parse_gaussian_ply_bytes(&data).unwrap() {
        RawGaussians::Gaussian3d(v) => assert!(v.is_empty()),
        other => panic!("unexpected {other:?}"),
    }
    data.extend_from_slice(b"junk");
    assert!(parse_gaussian_ply_bytes(&data).is_ok());
}

#[test]
fn later_vertex_element_replaces_earlier() {
    let mut text = String::from("ply\nformat binary_little_endian 1.0\nelement vertex 5\nproperty float q\n");
    text.push_str("element vertex 1\n");
    for n in CORE {
        text.push_str(&format!("property float {n}\n"));
    }
    text.push_str("end_header\n");
    let mut data = text.into_bytes();
    for k in 0..14 {
        data.extend_from_slice(&(k as f32).to_le_bytes());
    }
    match parse_gaussian_ply_bytes(&data).unwrap() {
        RawGaussians::Gaussian3d(v) => {
            assert_eq!(v.len(), 1);
            assert_eq!(as_f32(&v[0].position[0]), 0.0);
        }
        other => panic!("unexpected {other:?}"),
    }
}

#[test]
fn missing_4d_property_error_names_it() {
    let data = float_file(&CORE, 0);
    let h = parse_ply_header(&data).unwrap();
    let e = Gaussian4dLayout::from_vertex_layout(&h.vertex_layout).unwrap_err();
    assert_eq!(e, PlyError::MissingProperty("motion_0"));
}

#[test]
fn format_lines() {
    assert_eq!(parse_ply_format("format ascii 1.0"), Ok(PlyFormat::Ascii));
    assert_eq!(parse_ply_format("format   binary_little_endian\t1.0"), Ok(PlyFormat::BinaryLittleEndian));
    assert_eq!(parse_ply_format("format binary_big_endian 1.0 extra"), Ok(PlyFormat::BinaryBigEndian));
    assert_eq!(parse_ply_format("formats ascii 1.0"), Err(PlyError::InvalidFormatLine));
    assert_eq!(parse_ply_format(""), Err(PlyError::InvalidFormatLine));
    assert_eq!(parse_ply_format("format ascii"), Err(PlyError::UnsupportedFormatVersion));
    assert_eq!(parse_ply_format("format ascii 1.1"), Err(PlyError::UnsupportedFormatVersion));
    assert_eq!(parse_ply_format("format utf8 1.0"), Err(PlyError::UnsupportedFormat));
}

#[test]
fn scalar_type_names_and_sizes() {
    let table = [
        ("char", PlyScalarType::Char, 1),
        ("int8", PlyScalarType::Char, 1),
        ("uchar", PlyScalarType::UChar, 1),
        ("uint8", PlyScalarType::UChar, 1),
        ("short", PlyScalarType::Short, 2),
        ("int16", PlyScalarType::Short, 2),
        ("ushort", PlyScalarType::UShort, 2),
        ("uint16", PlyScalarType::UShort, 2),
        ("int", PlyScalarType::Int, 4),
        ("int32", PlyScalarType::Int, 4),
        ("uint", PlyScalarType::UInt, 4),
        ("uint32", PlyScalarType::UInt, 4),
        ("float", PlyScalarType::Float, 4),
        ("float32", PlyScalarType::Float, 4),
        ("double", PlyScalarType::Double, 8),
        ("float64", PlyScalarType::Double, 8),
    ];
    for (name, ty, size) in table {
        assert_eq!(parse_scalar_type(name), Ok(ty));
        assert_eq!(ty.size(), size);
    }
    assert_eq!(parse_scalar_type("Float"), Err(PlyError::UnknownScalarType));
    assert_eq!(parse_scalar_type(""), Err(PlyError::UnknownScalarType));
}

fn layout(names: &[&str]) -> VertexLayout {
    let props: Vec<VertexProp> = names
        .iter()
        .enumerate()
        .map(|(k, n)| VertexProp { name: n.chars().collect(), ty: PlyScalarType::Float, offset: 4 * k })
        .collect();
    VertexLayout { count: 1, stride: 4 * names.len(), props }
}

#[test]
fn layout_lookup_takes_first_match() {
    let l = layout(&["x", "y", "x"]);
    assert_eq!(l.find("x").unwrap().offset, 0);
    assert_eq!(l.find("y").unwrap().offset, 4);
    assert!(l.find("z").is_none());
    assert!(l.has("y"));
    assert!(!l.has("z"));
    assert_eq!(l.required("z"), Err(PlyError::MissingProperty("z")));
    assert_eq!(l.required("x").unwrap().offset, 0);
}

#[test]
fn payload_classification() {
    assert_eq!(classify_ply_payload(&layout(&CORE)), PlyPayloadKind::Gaussian3d);
    let mut all: Vec<&str> = CORE.to_vec();
    all.extend_from_slice(&STG);
    assert_eq!(classify_ply_payload(&layout(&all)), PlyPayloadKind::Gaussian4d);
    let mut some: Vec<&str> = CORE.to_vec();
    some.push("omega_3");
    assert_eq!(classify_ply_payload(&layout(&some)), PlyPayloadKind::Unknown);
    assert_eq!(classify_ply_payload(&layout(&STG)), PlyPayloadKind::Unknown);
}

#[test]
fn gaussian_layouts() {
    let l3 = Gaussian3dLayout::from_vertex_layout(&layout(&CORE)).unwrap();
    assert_eq!(l3.required.len(), 11);
    assert_eq!(l3.required[3].offset, 12); // opacity
    assert_eq!(l3.sh.len(), 48);
    assert_eq!(l3.sh[1].unwrap().offset, 48); // f_dc_1
    assert!(l3.sh[3].is_none());
    assert_eq!(
        Gaussian3dLayout::from_vertex_layout(&layout(&CORE[1..])).unwrap_err(),
        PlyError::MissingProperty("x")
    );
    let mut all: Vec<&str> = CORE.to_vec();
    all.extend_from_slice(&STG);
    let l4 = Gaussian4dLayout::from_vertex_layout(&layout(&all)).unwrap();
    assert_eq!(l4.required.len(), 29);
    assert_eq!(l4.required[0].offset, 4 * 16); // motion_0
    let without_omega: Vec<&str> = all.iter().copied().filter(|n| *n != "omega_2").collect();
    assert_eq!(
        Gaussian4dLayout::from_vertex_layout(&layout(&without_omega)).unwrap_err(),
        PlyError::MissingProperty("omega_2")
    );
}

#[test]
fn byte_search() {
    assert_eq!(find_bytes(b"abcabc", b"ca"), Some(2));
    assert_eq!(find_bytes(b"abc", b"abcd"), None);
    assert_eq!(find_bytes(b"abc", b"x"), None);
    assert_eq!(find_header_end(b"ply\nend_header\nBODY"), Some(15));
    assert_eq!(find_header_end(b"ply\r\nend_header\r\nBODY"), Some(17));
    assert_eq!(find_header_end(b"end_header\nxx end_header\r\n"), Some(26));
    assert_eq!(find_header_end(b"end_header"), None);
}

#[test]
fn header_fields() {
    let data = float_file(&CORE, 3);
    let h = parse_ply_header(&data).unwrap();
    assert_eq!(h.format, PlyFormat::BinaryLittleEndian);
    assert_eq!(h.vertex_layout.count, 3);
    assert_eq!(h.vertex_layout.stride, 56);
    assert_eq!(h.vertex_layout.props.len(), 14);
    assert_eq!(h.vertex_layout.props[13].offset, 52);
    assert_eq!(h.payload_kind, PlyPayloadKind::Gaussian3d);
    assert_eq!(h.header_end, data.len() - 3 * 56);
}

#[test]
fn unicode_white_space_separates_words() {
    // U+3000 and U+00A0 are white space to `str::split_whitespace` and `str::trim`
    let mut text = String::from("ply\r\n\u{a0}format binary_little_endian\u{3000}1.0\u{a0}\r\n");
    text.push_str("element vertex\u{2003}1\n");
    for n in CORE {
        text.push_str(&format!("property float\u{3000}{n}\u{85}\n"));
    }
    text.push_str("end_header\n");
    let mut data = text.into_bytes();
    for k in 0..14 {
        data.extend_from_slice(&(k as f32).to_le_bytes());
    }
    match parse_gaussian_ply_bytes(&data).unwrap() {
        RawGaussians::Gaussian3d(v) => assert_eq!(as_f32(&v[0].opacity), 3.0),
        other => panic!("unexpected {other:?}"),
    }
}

#[test]
fn non_vertex_property_and_unknown_lines_are_skipped() {
    let mut text = String::from("ply\nformat binary_little_endian 1.0\nobj_info generated\nproperty float stray\n");
    text.push_str("element vertex 1\n");
    for n in CORE {
        text.push_str(&format!("property float {n}\n"));
    }
    text.push_str("whatever this is\nend_header\n");
    let mut data = text.into_bytes();
    for k in 0..14 {
        data.extend_from_slice(&(k as f32).to_le_bytes());
    }
    let h = parse_ply_header(&data).unwrap();
    assert_eq!(h.vertex_layout.props.len(), 14);
    assert!(parse_gaussian_ply_bytes(&data).is_ok());
}

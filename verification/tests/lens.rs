use telemetry_parser::gpmf_lens::{
    extract_lens, lens_key_of, merge_opt, merge_vec, scalar_number, tag_number, tag_string,
    tag_vec_number, tag_vec_string, LensJson, LensKey,
};
use telemetry_parser::tags::{
    GroupId, Input, Number, SampleInfo, Scalar, TagDescription, TagGroup, TagId, TagValue,
};

fn tag(name: &str, value: TagValue) -> (TagId, TagDescription) {
    (TagId::Other, TagDescription { description: name.to_string(), value })
}

fn sample(tags: Vec<(TagId, TagDescription)>) -> SampleInfo {
    SampleInfo {
        duration_ms: 1000.0f64.to_bits(),
        gps_fix: 3,
        gps_precision: 150,
        tag_map: Some(vec![TagGroup { group: GroupId::Other, tags }]),
    }
}

fn text(s: &str) -> TagValue {
    TagValue::Text(s.to_string())
}

#[test]
fn merge_opt_keeps_first_value() {
    let mut dst: Option<u32> = None;
    merge_opt(&mut dst, None);
    assert_eq!(dst, None);
    merge_opt(&mut dst, Some(4));
    assert_eq!(dst, Some(4));
    merge_opt(&mut dst, Some(9));
    assert_eq!(dst, Some(4));
}

#[test]
fn merge_vec_keeps_first_nonempty_value() {
    let mut dst: Vec<u32> = Vec::new();
    merge_vec(&mut dst, Vec::new());
    assert!(dst.is_empty());
    merge_vec(&mut dst, vec![1, 2]);
    assert_eq!(dst, vec![1, 2]);
    merge_vec(&mut dst, vec![3]);
    assert_eq!(dst, vec![1, 2]);
}

#[test]
fn lens_keys_are_exact_fourccs() {
    assert_eq!(lens_key_of("VFOV"), Some(LensKey::Vfov));
    assert_eq!(lens_key_of("MAPY"), Some(LensKey::Mapy));
    assert_eq!(lens_key_of("DVID"), Some(LensKey::Dvid));
    assert_eq!(lens_key_of("vfov"), None);
    assert_eq!(lens_key_of("VFOVX"), None);
    assert_eq!(lens_key_of("GPS5"), None);
}

#[test]
fn tag_string_trims_and_drops_blank() {
    assert_eq!(tag_string(&text("  W \t")), Some("W".to_string()));
    assert_eq!(tag_string(&text(" \u{3000}\n ")), None);
    assert_eq!(tag_string(&TagValue::U8(7)), None);
}

#[test]
fn tag_vec_string_splits_on_commas() {
    assert_eq!(
        tag_vec_string(&text(" x0, y1 ,, x2y0 ")),
        Some(vec!["x0".to_string(), "y1".to_string(), "x2y0".to_string()])
    );
    assert_eq!(tag_vec_string(&text(" , ,")), None);
    assert_eq!(tag_vec_string(&text("  single ")), Some(vec!["single".to_string()]));
    assert_eq!(tag_vec_string(&text("   ")), None);
    assert_eq!(
        tag_vec_string(&TagValue::VecText(vec![" a ".to_string(), "".to_string(), "b".to_string()])),
        Some(vec!["a".to_string(), "b".to_string()])
    );
    assert_eq!(tag_vec_string(&TagValue::VecText(vec![" ".to_string()])), None);
    assert_eq!(tag_vec_string(&TagValue::F32(1.0f32.to_bits())), None);
}

#[test]
fn numbers_of_single_tags() {
    assert_eq!(tag_number(&TagValue::F64(2.5f64.to_bits())), Some(Number::F64(2.5f64.to_bits())));
    assert_eq!(tag_number(&TagValue::I16(-3)), Some(Number::I16(-3)));
    assert_eq!(tag_number(&text("1")), None);
    assert_eq!(scalar_number(&Scalar::U32(9)), Some(Number::U32(9)));
    assert_eq!(scalar_number(&Scalar::Other), None);
}

#[test]
fn coefficient_lists() {
    let a = 1.5f32.to_bits();
    let b = 2.5f32.to_bits();
    assert_eq!(tag_vec_number(&TagValue::F32(a)), Some(vec![Number::F32(a)]));
    assert_eq!(tag_vec_number(&TagValue::I32(4)), None);
    assert_eq!(
        tag_vec_number(&TagValue::VecF32(vec![a, b])),
        Some(vec![Number::F32(a), Number::F32(b)])
    );
    assert_eq!(
        tag_vec_number(&TagValue::VecVecF32(vec![vec![], vec![b], vec![a]])),
        Some(vec![Number::F32(b)])
    );
    assert_eq!(tag_vec_number(&TagValue::VecVecF64(vec![vec![], vec![]])), None);
    assert_eq!(
        tag_vec_number(&TagValue::VecScalar(vec![Scalar::I8(-1), Scalar::U16(2)])),
        Some(vec![Number::I8(-1), Number::U16(2)])
    );
    assert_eq!(tag_vec_number(&TagValue::VecScalar(vec![Scalar::I8(-1), Scalar::Other])), None);
    assert_eq!(
        tag_vec_number(&TagValue::VecVecScalar(vec![vec![], vec![Scalar::U8(1)]])),
        Some(vec![Number::U8(1)])
    );
    assert_eq!(tag_vec_number(&TagValue::VecF64(vec![])), Some(vec![]));
}

#[test]
fn extract_lens_without_samples_is_none() {
    assert_eq!(extract_lens(&Input { samples: None }), None);
    assert_eq!(extract_lens(&Input { samples: Some(vec![]) }), None);
    let no_lens = sample(vec![tag("GPSU", TagValue::U64(5)), tag("ACCL", TagValue::I32(1))]);
    assert_eq!(extract_lens(&Input { samples: Some(vec![no_lens]) }), None);
}

#[test]
fn extract_lens_first_value_wins() {
    let z1 = 118.2f64.to_bits();
    let z2 = 90.0f64.to_bits();
    let s1 = sample(vec![
        tag("VFOV", text(" W ")),
        tag("ZFOV", TagValue::F64(z1)),
        tag("PYCF", text("r0,r1, r2")),
        tag("POLY", TagValue::VecF32(vec![])),
        tag("DVID", text("1")),
    ]);
    let s2 = sample(vec![
        tag("VFOV", text("L")),
        tag("ZFOV", TagValue::F64(z2)),
        tag("PYCF", text("q")),
        tag("POLY", TagValue::VecF64(vec![z2])),
        tag("DVID", text(" HLMT ")),
        tag("DVID", text("FOVL")),
    ]);
    let lens = extract_lens(&Input { samples: Some(vec![s1, s2]) }).unwrap();
    let mut expected = LensJson::default();
    expected.vfov_mode = "W".to_string();
    expected.zfov_deg = Some(Number::F64(z1));
    expected.pycf_terms = vec!["r0".to_string(), "r1".to_string(), "r2".to_string()];
    expected.poly_coeffs = vec![Number::F64(z2)];
    expected.dvid_primary = Some("HLMT".to_string());
    assert_eq!(lens, expected);
}

#[test]
fn extract_lens_skips_unusable_values() {
    let s = sample(vec![
        tag("VFOV", text("   ")),
        tag("ABSC", text("not a number")),
        tag("ABSC", TagValue::U16(7)),
        tag("MAPX", TagValue::VecScalar(vec![Scalar::Other])),
        tag("MAPX", TagValue::VecScalar(vec![Scalar::I32(1), Scalar::I32(0)])),
        tag("MXCF", TagValue::VecText(vec!["x".to_string(), " y ".to_string()])),
    ]);
    let lens = extract_lens(&Input { samples: Some(vec![s]) }).unwrap();
    assert_eq!(lens.vfov_mode, "");
    assert_eq!(lens.absc, Some(Number::U16(7)));
    assert_eq!(lens.mapx_coeffs, vec![Number::I32(1), Number::I32(0)]);
    assert_eq!(lens.mxcf_terms, vec!["x".to_string(), "y".to_string()]);
    assert_eq!(lens.dvid_primary, None);
}

#[test]
fn extract_lens_placeholder_device_id_alone_is_no_lens() {
    let s = sample(vec![tag("DVID", text(" 1 "))]);
    assert_eq!(extract_lens(&Input { samples: Some(vec![s]) }), None);
}

#[test]
fn extract_lens_skips_samples_without_tag_map() {
    let empty = SampleInfo { duration_ms: 0, gps_fix: 0, gps_precision: 0, tag_map: None };
    let s = sample(vec![tag("ZMPL", TagValue::I64(-12))]);
    let lens = extract_lens(&Input { samples: Some(vec![empty, s]) }).unwrap();
    assert_eq!(lens.zmpl, Some(Number::I64(-12)));
}

use telemetry_parser::ios::LastError;
use telemetry_parser::mobile::{
    close, gps_readings, open, with_handle, GpsReading, GpsSource, HandleRegistry, VideoInfoJson,
};
use telemetry_parser::tags::{
    GpsData, GroupId, Input, SampleInfo, TagDescription, TagGroup, TagId, TagValue,
};
use telemetry_parser::text::{split_clean, trim_text};

fn entry(id: TagId, name: &str, value: TagValue) -> (TagId, TagDescription) {
    (id, TagDescription { description: name.to_string(), value })
}

fn fix(acquired: bool) -> GpsData {
    GpsData {
        lat: 47.1f64.to_bits(),
        lon: 8.5f64.to_bits(),
        altitude: 400.0f64.to_bits(),
        speed: 36.0f64.to_bits(),
        track: 90.0f64.to_bits(),
        unix_timestamp: 1_700_000_000.0f64.to_bits(),
        is_acquired: acquired,
    }
}

#[test]
fn registry_open_read_close() {
    let mut reg: HandleRegistry<String> = HandleRegistry::new();
    let h1 = open(&mut reg, Ok("first".to_string())).unwrap();
    let h2 = open(&mut reg, Ok("second".to_string())).unwrap();
    assert_eq!(h1, 1);
    assert_eq!(h2, 2);
    assert_eq!(with_handle(&reg, h1, |d| d.clone()), Some("first".to_string()));
    assert_eq!(with_handle(&reg, h2, |d| d.len()), Some(6));
    close(&mut reg, h1);
    assert_eq!(with_handle(&reg, h1, |d| d.clone()), None);
    assert_eq!(with_handle(&reg, h2, |d| d.clone()), Some("second".to_string()));
    let h3 = open(&mut reg, Ok("third".to_string())).unwrap();
    assert_eq!(h3, 3);
}

#[test]
fn registry_error_consumes_no_handle() {
    let mut reg: HandleRegistry<u8> = HandleRegistry::new();
    let e = open(&mut reg, Err("Failed to open file: missing".to_string()));
    assert_eq!(e, Err("Failed to open file: missing".to_string()));
    assert_eq!(open(&mut reg, Ok(9)), Ok(1));
}

#[test]
fn registry_handle_zero_is_never_live() {
    let mut reg: HandleRegistry<u8> = HandleRegistry::new();
    let h = open(&mut reg, Ok(9)).unwrap();
    close(&mut reg, 0);
    assert_eq!(with_handle(&reg, 0, |d| *d), None);
    assert_eq!(with_handle(&reg, h, |d| *d), Some(9));
    assert_eq!(with_handle(&reg, 77, |d| *d), None);
}

#[test]
fn last_error_slot() {
    let mut slot = LastError::new();
    assert_eq!(slot.last_error(), None);
    slot.set_last_error("Path is null".to_string());
    assert_eq!(slot.last_error(), Some("Path is null".to_string()));
    slot.set_last_error("Invalid UTF-8 path".to_string());
    assert_eq!(slot.last_error(), Some("Invalid UTF-8 path".to_string()));
    slot.clear_last_error();
    assert_eq!(slot.last_error(), None);
}

#[test]
fn video_info_rates() {
    let ntsc = VideoInfoJson::from_rate(370, 30, true);
    assert_eq!((ntsc.frame_count, ntsc.fps_numerator, ntsc.fps_denominator), (370, 30, 1001));
    let whole = VideoInfoJson::from_rate(2400, 24, false);
    assert_eq!((whole.frame_count, whole.fps_numerator, whole.fps_denominator), (2400, 24, 1));
}

#[test]
fn gps_readings_from_gps5_rows() {
    let dur = 1001.0f64.to_bits();
    let gps = TagGroup {
        group: GroupId::Gps,
        tags: vec![
            entry(TagId::Data, "GPS5", TagValue::VecVecI32(vec![
                vec![471234567, 85432100, 400123, 1500, 1600],
                vec![1, 2, 3],
                vec![471234568, 85432101, 400124, 1501, 1601, 99],
            ])),
            entry(TagId::Other, "GPSU", TagValue::U64(1_700_000_000_500)),
        ],
    };
    let other = TagGroup {
        group: GroupId::Other,
        tags: vec![entry(TagId::Data, "ACCL", TagValue::VecVecI32(vec![vec![1, 2, 3, 4, 5]]))],
    };
    let info = SampleInfo {
        duration_ms: dur,
        gps_fix: 3,
        gps_precision: 120,
        tag_map: Some(vec![other, gps]),
    };
    let r = gps_readings(&Input { samples: Some(vec![info]) });
    let expect = |lat, lon, alt, s2, s3| GpsReading {
        source: GpsSource::Gps5 { lat, lon, alt, speed2d: s2, speed3d: s3 },
        duration_ms: dur,
        payload_len: 3,
        utc_time: Some(1_700_000_000_500),
        fix: 3,
        precision: 120,
    };
    assert_eq!(r, vec![
        expect(471234567, 85432100, 400123, 1500, 1600),
        expect(471234568, 85432101, 400124, 1501, 1601),
    ]);
}

#[test]
fn gps_readings_from_fixes() {
    let info = SampleInfo {
        duration_ms: 1000.0f64.to_bits(),
        gps_fix: 2,
        gps_precision: 300,
        tag_map: Some(vec![TagGroup {
            group: GroupId::Gps,
            tags: vec![
                entry(TagId::Other, "GPSU", TagValue::Text("250101120000.000".to_string())),
                entry(TagId::Data, "GPS9", TagValue::VecGpsData(vec![fix(true), fix(false)])),
            ],
        }]),
    };
    let r = gps_readings(&Input { samples: Some(vec![info]) });
    assert_eq!(r.len(), 2);
    assert_eq!(r[0].source, GpsSource::Fix(fix(true)));
    assert_eq!(r[0].fix, 2);
    assert_eq!(r[1].fix, 0);
    assert_eq!(r[1].precision, 300);
    assert_eq!(r[0].utc_time, None);
    assert_eq!(r[1].payload_len, 2);
}

#[test]
fn gps_readings_skip_payloads_without_gps() {
    assert!(gps_readings(&Input { samples: None }).is_empty());
    let no_map = SampleInfo { duration_ms: 0, gps_fix: 0, gps_precision: 0, tag_map: None };
    let no_data = SampleInfo {
        duration_ms: 0,
        gps_fix: 0,
        gps_precision: 0,
        tag_map: Some(vec![TagGroup {
            group: GroupId::Gps,
            tags: vec![entry(TagId::Other, "GPSF", TagValue::U32(3))],
        }]),
    };
    let wrong_kind = SampleInfo {
        duration_ms: 0,
        gps_fix: 0,
        gps_precision: 0,
        tag_map: Some(vec![TagGroup {
            group: GroupId::Gps,
            tags: vec![entry(TagId::Data, "GPS5", TagValue::VecF64(vec![1]))],
        }]),
    };
    assert!(gps_readings(&Input { samples: Some(vec![no_map, no_data, wrong_kind]) }).is_empty());
}

#[test]
fn text_trim_and_split() {
    assert_eq!(trim_text(" \u{a0}ab c\u{2029} "), "ab c".to_string());
    assert_eq!(trim_text(""), "".to_string());
    assert_eq!(
        split_clean("a, b ,,c", ','),
        vec!["a".to_string(), "b".to_string(), "c".to_string()]
    );
    assert_eq!(split_clean(",", ','), Vec::<String>::new());
}

#[test]
fn open_then_close_restores_live_handles() {
    let mut reg: HandleRegistry<u8> = HandleRegistry::new();
    let keep = open(&mut reg, Ok(1)).unwrap();
    let temp = open(&mut reg, Ok(2)).unwrap();
    close(&mut reg, temp);
    assert_eq!(with_handle(&reg, temp, |d| *d), None);
    assert_eq!(with_handle(&reg, keep, |d| *d), Some(1));
}

#[test]
fn gps_readings_split_by_payload() {
    let payload = |lat: i32| SampleInfo {
        duration_ms: 1000.0f64.to_bits(),
        gps_fix: 3,
        gps_precision: 99,
        tag_map: Some(vec![TagGroup {
            group: GroupId::Gps,
            tags: vec![entry(TagId::Data, "GPS5", TagValue::VecVecI32(vec![vec![lat, 0, 0, 0, 0]]))],
        }]),
    };
    let both = gps_readings(&Input { samples: Some(vec![payload(10), payload(20)]) });
    let mut parts = gps_readings(&Input { samples: Some(vec![payload(10)]) });
    parts.extend(gps_readings(&Input { samples: Some(vec![payload(20)]) }));
    assert_eq!(both, parts);
    assert_eq!(both.len(), 2);
}

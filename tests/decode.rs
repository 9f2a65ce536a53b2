use hwinfo_prometheus::error::ReaderError;
use hwinfo_prometheus::hwinfo_types::{
    decode_readings, decode_sensors, HWiNFOSharedMemory, SensorReadingType, READING_RECORD_SIZE,
    SENSOR_RECORD_SIZE,
};
use hwinfo_prometheus::layout::{read_i64, read_u32, read_u64};
use hwinfo_prometheus::text::{raw_field, utf8_to_str};

struct SensorIn {
    id: u32,
    instance: u32,
    original: &'static str,
    user: &'static str,
    utf8: &'static str,
}

struct ReadingIn {
    tag: u8,
    sensor_index: u32,
    id: u32,
    original: &'static str,
    user: &'static str,
    unit: &'static str,
    values: [f64; 4],
    label_utf8: &'static str,
    unit_utf8: &'static str,
}

fn put_text(out: &mut Vec<u8>, text: &str, width: usize) {
    let mut field = vec![0u8; width];
    field[..text.len()].copy_from_slice(text.as_bytes());
    out.extend_from_slice(&field);
}

fn region(poll_time: i64, period: u32, sensors: &[SensorIn], readings: &[ReadingIn]) -> Vec<u8> {
    let sensor_offset = 48u32;
    let reading_offset = sensor_offset + (sensors.len() * SENSOR_RECORD_SIZE) as u32;
    let mut out = Vec::new();
    for v in [0x5753_4948u32, 2, 1] {
        out.extend_from_slice(&v.to_le_bytes());
    }
    out.extend_from_slice(&poll_time.to_le_bytes());
    for v in [
        sensor_offset,
        SENSOR_RECORD_SIZE as u32,
        sensors.len() as u32,
        reading_offset,
        READING_RECORD_SIZE as u32,
        readings.len() as u32,
        period,
    ] {
        out.extend_from_slice(&v.to_le_bytes());
    }
    for s in sensors {
        out.extend_from_slice(&s.id.to_le_bytes());
        out.extend_from_slice(&s.instance.to_le_bytes());
        put_text(&mut out, s.original, 128);
        put_text(&mut out, s.user, 128);
        put_text(&mut out, s.utf8, 128);
    }
    for r in readings {
        out.push(r.tag);
        out.extend_from_slice(&r.sensor_index.to_le_bytes());
        out.extend_from_slice(&r.id.to_le_bytes());
        put_text(&mut out, r.original, 128);
        put_text(&mut out, r.user, 128);
        put_text(&mut out, r.unit, 16);
        for v in r.values {
            out.extend_from_slice(&v.to_le_bytes());
        }
        put_text(&mut out, r.label_utf8, 128);
        put_text(&mut out, r.unit_utf8, 16);
    }
    out
}

fn two_sensors() -> Vec<SensorIn> {
    vec![
        SensorIn { id: 0xF000_0001, instance: 0, original: "CPU [#0]", user: "CPU", utf8: "CPU Ø" },
        SensorIn { id: 0xE000_0002, instance: 3, original: "GPU [#0]", user: "GPU", utf8: "GPU" },
    ]
}

fn three_readings() -> Vec<ReadingIn> {
    vec![
        ReadingIn {
            tag: 1,
            sensor_index: 0,
            id: 10,
            original: "Core Max",
            user: "Core Max",
            unit: "C",
            values: [55.5, 30.25, 90.0, 47.125],
            label_utf8: "Core Max",
            unit_utf8: "°C",
        },
        ReadingIn {
            tag: 3,
            sensor_index: 1,
            id: 11,
            original: "Fan1",
            user: "Fan 1",
            unit: "RPM",
            values: [1200.0, 800.0, 2000.0, 1100.0],
            label_utf8: "Fan 1",
            unit_utf8: "RPM",
        },
        ReadingIn {
            tag: 8,
            sensor_index: 1,
            id: 12,
            original: "Frames",
            user: "Frames",
            unit: "FPS",
            values: [-1.5, -2.0, 0.0, -1.0],
            label_utf8: "Frames",
            unit_utf8: "FPS",
        },
    ]
}

#[test]
fn round_trip_of_sensors_and_readings() {
    let sensors = two_sensors();
    let readings = three_readings();
    let b = region(1_700_000_000, 2000, &sensors, &readings);
    let h = HWiNFOSharedMemory::read(&b).unwrap();
    assert_eq!(h.poll_time, 1_700_000_000);
    assert_eq!(h.polling_period, 2000);
    assert_eq!(h.signature, 0x5753_4948);
    assert_eq!(h.version, 2);
    assert_eq!(h.revision, 1);
    let ds = decode_sensors(&b, &h).unwrap();
    assert_eq!(ds.len(), 2);
    for (d, s) in ds.iter().zip(sensors.iter()) {
        assert_eq!(d.sensor_id, s.id);
        assert_eq!(d.sensor_instance, s.instance);
        assert_eq!(d.original_name, s.original.as_bytes().to_vec());
        assert_eq!(d.user_name, s.user.as_bytes().to_vec());
        assert_eq!(d.user_name_utf8, s.utf8);
    }
    let dr = decode_readings(&b, &h).unwrap();
    assert_eq!(dr.len(), 3);
    for (d, r) in dr.iter().zip(readings.iter()) {
        assert_eq!(d.reading_type, SensorReadingType::from_tag(r.tag));
        assert_eq!(d.sensor_index, r.sensor_index);
        assert_eq!(d.reading_id, r.id);
        assert_eq!(d.original_label, r.original.as_bytes().to_vec());
        assert_eq!(d.user_label, r.user.as_bytes().to_vec());
        assert_eq!(d.unit, r.unit.as_bytes().to_vec());
        assert_eq!(f64::from_bits(d.value_bits), r.values[0]);
        assert_eq!(f64::from_bits(d.min_value_bits), r.values[1]);
        assert_eq!(f64::from_bits(d.max_value_bits), r.values[2]);
        assert_eq!(f64::from_bits(d.avg_value_bits), r.values[3]);
        assert_eq!(d.user_label_utf8, r.label_utf8);
        assert_eq!(d.unit_utf8, r.unit_utf8);
    }
    assert_eq!(dr[0].reading_type, SensorReadingType::Temp);
    assert_eq!(dr[1].reading_type, SensorReadingType::Fan);
    assert_eq!(dr[2].reading_type, SensorReadingType::Other);
}

#[test]
fn arrays_past_the_end_are_corrupt() {
    let b = region(5, 1000, &two_sensors(), &three_readings());
    let h = HWiNFOSharedMemory::read(&b).unwrap();
    let mut more = h;
    more.sensor_elements_number = 3 + (b.len() / SENSOR_RECORD_SIZE) as u32;
    assert!(matches!(decode_sensors(&b, &more), Err(ReaderError::CorruptLayout)));
    let mut shifted = h;
    shifted.reading_section_offset += 1;
    assert!(matches!(decode_readings(&b, &shifted), Err(ReaderError::CorruptLayout)));
    let mut narrow = h;
    narrow.reading_element_size = READING_RECORD_SIZE as u32 - 1;
    assert!(matches!(decode_readings(&b, &narrow), Err(ReaderError::CorruptLayout)));
    let mut huge = h;
    huge.sensor_elements_number = u32::MAX;
    huge.sensor_element_size = u32::MAX;
    huge.sensor_section_offset = u32::MAX;
    assert!(matches!(decode_sensors(&b, &huge), Err(ReaderError::CorruptLayout)));
    // one byte short of the last record
    let truncated = &b[..b.len() - 1];
    assert!(matches!(decode_readings(truncated, &h), Err(ReaderError::CorruptLayout)));
    assert_eq!(decode_readings(&b, &h).unwrap().len(), 3);
}

#[test]
fn empty_arrays_decode_to_nothing() {
    let b = region(5, 1000, &[], &[]);
    let h = HWiNFOSharedMemory::read(&b).unwrap();
    assert_eq!(decode_sensors(&b, &h).unwrap().len(), 0);
    assert_eq!(decode_readings(&b, &h).unwrap().len(), 0);
}

#[test]
fn short_region_has_no_header() {
    assert!(HWiNFOSharedMemory::read(&[0u8; 47]).is_none());
    assert!(HWiNFOSharedMemory::read(&[0u8; 48]).is_some());
}

#[test]
fn little_endian_integers() {
    let b = [0x78u8, 0x56, 0x34, 0x12, 0xff, 0xff, 0xff, 0xff, 0xff, 0xff, 0xff, 0xff];
    assert_eq!(read_u32(&b, 0), 0x1234_5678);
    assert_eq!(read_i64(&b, 4), -1);
    assert_eq!(read_u64(&b, 4), u64::MAX);
    assert_eq!(read_u64(&b, 0), 0xffff_ffff_1234_5678);
    let m = i64::MIN.to_le_bytes();
    assert_eq!(read_i64(&m, 0), i64::MIN);
    let p = i64::MAX.to_le_bytes();
    assert_eq!(read_i64(&p, 0), i64::MAX);
}

#[test]
fn text_fields_are_trimmed_at_the_terminator() {
    assert_eq!(utf8_to_str(b"abc\0def"), "abc");
    assert_eq!(utf8_to_str(b"\0abc"), "");
    assert_eq!(utf8_to_str("°C\0\0".as_bytes()), "°C");
    assert_eq!(raw_field(b"ab\0c"), b"ab".to_vec());
}

#[test]
fn text_without_terminator_or_bad_utf8_is_empty() {
    assert_eq!(utf8_to_str(b"abc"), "");
    assert_eq!(utf8_to_str(b""), "");
    assert_eq!(utf8_to_str(&[0xff, 0xfe, 0]), "");
    assert_eq!(raw_field(b"abc"), Vec::<u8>::new());
}

#[test]
fn unknown_tags_are_unused() {
    assert_eq!(SensorReadingType::from_tag(0), SensorReadingType::Unused);
    assert_eq!(SensorReadingType::from_tag(9), SensorReadingType::Unused);
    assert_eq!(SensorReadingType::from_tag(2), SensorReadingType::Volt);
    assert_eq!(SensorReadingType::from_tag(4), SensorReadingType::Current);
    assert_eq!(SensorReadingType::from_tag(5), SensorReadingType::Power);
    assert_eq!(SensorReadingType::from_tag(6), SensorReadingType::Clock);
    assert_eq!(SensorReadingType::from_tag(7), SensorReadingType::Usage);
}

#[test]
fn category_names_print_as_the_variants() {
    let all = [
        (SensorReadingType::Unused, "None"),
        (SensorReadingType::Temp, "Temp"),
        (SensorReadingType::Volt, "Volt"),
        (SensorReadingType::Fan, "Fan"),
        (SensorReadingType::Current, "Current"),
        (SensorReadingType::Power, "Power"),
        (SensorReadingType::Clock, "Clock"),
        (SensorReadingType::Usage, "Usage"),
        (SensorReadingType::Other, "Other"),
    ];
    for (t, name) in all {
        assert_eq!(t.name(), name);
    }
}

#[test]
fn utf8_field_reads_back_its_text() {
    let mut field = "CPU Package".as_bytes().to_vec();
    field.push(0);
    field.extend_from_slice(&[0xff, b'x', 0x80]);
    assert_eq!(utf8_to_str(&field), "CPU Package");
    let mut wide = "Température °C ✓ 𝄞".as_bytes().to_vec();
    wide.push(0);
    assert_eq!(utf8_to_str(&wide), "Température °C ✓ 𝄞");
}

//! The header and the two record arrays of the shared region, and their decoding.

use vstd::prelude::*;
use crate::error::ReaderError;
use crate::layout::{
    le_bytes, le_i64, le_u32, le_u64, lemma_u32_round_trip, lemma_u64_round_trip, read_i64, read_u32,
    read_u64,
};
use crate::text::{
    lemma_padded_round_trip, nul_free, padded, raw_field, raw_text, utf8_or_empty, utf8_text, utf8_to_str,
};

verus! {

/// Size of the header at offset 0.
pub const HEADER_SIZE: usize = 48;

/// Size of the fields of a sensor record; its stride may be larger.
pub const SENSOR_RECORD_SIZE: usize = 392;

/// Size of the fields of a reading record; its stride may be larger.
pub const READING_RECORD_SIZE: usize = 457;

/// Width of the name and label fields.
pub const NAME_WIDTH: usize = 128;

/// Width of the unit fields.
pub const UNIT_WIDTH: usize = 16;

/// The category of a reading.
#[derive(Debug, Clone, Copy, PartialEq, Eq, Structural)]
pub enum SensorReadingType {
    Unused,
    Temp,
    Volt,
    Fan,
    Current,
    Power,
    Clock,
    Usage,
    Other,
}

/// The category that a tag byte stands for; an unknown tag is read as `Unused`,
/// an unused slot.
pub open spec fn reading_type_of(tag: u8) -> SensorReadingType {
    if tag == 1 {
        SensorReadingType::Temp
    } else if tag == 2 {
        SensorReadingType::Volt
    } else if tag == 3 {
        SensorReadingType::Fan
    } else if tag == 4 {
        SensorReadingType::Current
    } else if tag == 5 {
        SensorReadingType::Power
    } else if tag == 6 {
        SensorReadingType::Clock
    } else if tag == 7 {
        SensorReadingType::Usage
    } else if tag == 8 {
        SensorReadingType::Other
    } else {
        SensorReadingType::Unused
    }
}

impl SensorReadingType {
    /// The category of tag byte `tag`.
    pub fn from_tag(tag: u8) -> (r: SensorReadingType)
        ensures
            r == reading_type_of(tag),
    {
        match tag {
            1 => SensorReadingType::Temp,
            2 => SensorReadingType::Volt,
            3 => SensorReadingType::Fan,
            4 => SensorReadingType::Current,
            5 => SensorReadingType::Power,
            6 => SensorReadingType::Clock,
            7 => SensorReadingType::Usage,
            8 => SensorReadingType::Other,
            _ => SensorReadingType::Unused,
        }
    }

    /// The category's printed name; the unused category prints as "None".
    pub fn name(&self) -> (r: &'static str)
        ensures
            r@ == match *self {
                SensorReadingType::Unused => "None"@,
                SensorReadingType::Temp => "Temp"@,
                SensorReadingType::Volt => "Volt"@,
                SensorReadingType::Fan => "Fan"@,
                SensorReadingType::Current => "Current"@,
                SensorReadingType::Power => "Power"@,
                SensorReadingType::Clock => "Clock"@,
                SensorReadingType::Usage => "Usage"@,
                SensorReadingType::Other => "Other"@,
            },
    {
        match self {
            SensorReadingType::Unused => "None",
            SensorReadingType::Temp => "Temp",
            SensorReadingType::Volt => "Volt",
            SensorReadingType::Fan => "Fan",
            SensorReadingType::Current => "Current",
            SensorReadingType::Power => "Power",
            SensorReadingType::Clock => "Clock",
            SensorReadingType::Usage => "Usage",
            SensorReadingType::Other => "Other",
        }
    }
}

/// The header at the start of the shared region.
#[derive(Debug, Clone, Copy, PartialEq, Eq, Structural)]
pub struct HWiNFOSharedMemory {
    pub signature: u32,
    pub version: u32,
    pub revision: u32,
    /// Seconds since the epoch, on the producer's clock.
    pub poll_time: i64,
    pub sensor_section_offset: u32,
    pub sensor_element_size: u32,
    pub sensor_elements_number: u32,
    pub reading_section_offset: u32,
    pub reading_element_size: u32,
    pub reading_elements_number: u32,
    /// Milliseconds between two updates of the producer.
    pub polling_period: u32,
}

/// The header stored at the start of `b`.
pub open spec fn header_of(b: Seq<u8>) -> HWiNFOSharedMemory {
    HWiNFOSharedMemory {
        signature: le_u32(b, 0),
        version: le_u32(b, 4),
        revision: le_u32(b, 8),
        poll_time: le_i64(b, 12),
        sensor_section_offset: le_u32(b, 20),
        sensor_element_size: le_u32(b, 24),
        sensor_elements_number: le_u32(b, 28),
        reading_section_offset: le_u32(b, 32),
        reading_element_size: le_u32(b, 36),
        reading_elements_number: le_u32(b, 40),
        polling_period: le_u32(b, 44),
    }
}

/// An array of `count` records of `stride` bytes from `offset` on, each with
/// `record` bytes of fields, lies inside a region of `len` bytes.
pub open spec fn section_fits(len: nat, offset: u32, stride: u32, count: u32, record: nat) -> bool {
    &&& stride >= record
    &&& offset + count * stride <= len
}

/// Start of element `i` of an array at `offset` with `stride`.
pub open spec fn element_start(offset: u32, stride: u32, i: int) -> int {
    offset + i * stride
}

impl HWiNFOSharedMemory {
    /// The sensor array lies inside a region of `len` bytes.
    pub open spec fn sensors_fit(&self, len: nat) -> bool {
        section_fits(len, self.sensor_section_offset, self.sensor_element_size,
            self.sensor_elements_number, SENSOR_RECORD_SIZE as nat)
    }

    /// The reading array lies inside a region of `len` bytes.
    pub open spec fn readings_fit(&self, len: nat) -> bool {
        section_fits(len, self.reading_section_offset, self.reading_element_size,
            self.reading_elements_number, READING_RECORD_SIZE as nat)
    }

    /// Reads the header at the start of `region`; `None` where the region is
    /// shorter than a header.
    pub fn read(region: &[u8]) -> (r: Option<HWiNFOSharedMemory>)
        ensures
            r is Some <==> region@.len() >= HEADER_SIZE,
            r is Some ==> r.unwrap() == header_of(region@),
    {
        if region.len() < HEADER_SIZE {
            return None;
        }
        Some(
            HWiNFOSharedMemory {
                signature: read_u32(region, 0),
                version: read_u32(region, 4),
                revision: read_u32(region, 8),
                poll_time: read_i64(region, 12),
                sensor_section_offset: read_u32(region, 20),
                sensor_element_size: read_u32(region, 24),
                sensor_elements_number: read_u32(region, 28),
                reading_section_offset: read_u32(region, 32),
                reading_element_size: read_u32(region, 36),
                reading_elements_number: read_u32(region, 40),
                polling_period: read_u32(region, 44),
            },
        )
    }
}

/// A sensor: one chip or device. Text fields hold what precedes their
/// terminator.
#[derive(Debug)]
pub struct HWiNFOSensorElement {
    pub sensor_id: u32,
    pub sensor_instance: u32,
    pub original_name: Vec<u8>,
    pub user_name: Vec<u8>,
    pub user_name_utf8: String,
}

/// A reading: one monitored value. The four values are the bit patterns of
/// IEEE 754 doubles, as stored.
#[derive(Debug)]
pub struct HWiNFOReadingElement {
    pub reading_type: SensorReadingType,
    pub sensor_index: u32,
    pub reading_id: u32,
    pub original_label: Vec<u8>,
    pub user_label: Vec<u8>,
    pub unit: Vec<u8>,
    pub value_bits: u64,
    pub min_value_bits: u64,
    pub max_value_bits: u64,
    pub avg_value_bits: u64,
    pub user_label_utf8: String,
    pub unit_utf8: String,
}

/// `e` is the sensor record stored at `base` in `b`.
pub open spec fn sensor_at(e: HWiNFOSensorElement, b: Seq<u8>, base: int) -> bool {
    &&& e.sensor_id == le_u32(b, base)
    &&& e.sensor_instance == le_u32(b, base + 4)
    &&& e.original_name@ == raw_text(b.subrange(base + 8, base + 136))
    &&& e.user_name@ == raw_text(b.subrange(base + 136, base + 264))
    &&& e.user_name_utf8@ == utf8_text(b.subrange(base + 264, base + 392))
}

/// `e` is the reading record stored at `base` in `b`.
pub open spec fn reading_at(e: HWiNFOReadingElement, b: Seq<u8>, base: int) -> bool {
    &&& e.reading_type == reading_type_of(b[base])
    &&& e.sensor_index == le_u32(b, base + 1)
    &&& e.reading_id == le_u32(b, base + 5)
    &&& e.original_label@ == raw_text(b.subrange(base + 9, base + 137))
    &&& e.user_label@ == raw_text(b.subrange(base + 137, base + 265))
    &&& e.unit@ == raw_text(b.subrange(base + 265, base + 281))
    &&& e.value_bits == le_u64(b, base + 281)
    &&& e.min_value_bits == le_u64(b, base + 289)
    &&& e.max_value_bits == le_u64(b, base + 297)
    &&& e.avg_value_bits == le_u64(b, base + 305)
    &&& e.user_label_utf8@ == utf8_text(b.subrange(base + 313, base + 441))
    &&& e.unit_utf8@ == utf8_text(b.subrange(base + 441, base + 457))
}

/// `s` are the sensor records that `h` declares in `b`, in order.
pub open spec fn sensors_decoded(s: Seq<HWiNFOSensorElement>, b: Seq<u8>, h: HWiNFOSharedMemory) -> bool {
    &&& s.len() == h.sensor_elements_number
    &&& forall|i: int| 0 <= i < s.len() ==> sensor_at(#[trigger] s[i], b,
        element_start(h.sensor_section_offset, h.sensor_element_size, i))
}

/// `r` are the reading records that `h` declares in `b`, in order.
pub open spec fn readings_decoded(r: Seq<HWiNFOReadingElement>, b: Seq<u8>, h: HWiNFOSharedMemory) -> bool {
    &&& r.len() == h.reading_elements_number
    &&& forall|i: int| 0 <= i < r.len() ==> reading_at(#[trigger] r[i], b,
        element_start(h.reading_section_offset, h.reading_element_size, i))
}

pub(crate) proof fn lemma_element_inside(offset: u32, stride: u32, count: u32, i: int)
    requires
        0 <= i < count,
    ensures
        element_start(offset, stride, i) + stride <= offset + count * stride,
        element_start(offset, stride, i) >= offset,
{
    assert(i * stride + stride <= count * stride) by (nonlinear_arith)
        requires
            0 <= i < count,
            stride >= 0,
    ;
    assert(i * stride >= 0) by (nonlinear_arith)
        requires
            0 <= i,
            stride >= 0,
    ;
}

/// Every record of an array that fits in a region lies wholly inside it.
pub proof fn lemma_records_inside(len: nat, offset: u32, stride: u32, count: u32, record: nat, i: int)
    requires
        section_fits(len, offset, stride, count, record),
        0 <= i < count,
    ensures
        0 <= element_start(offset, stride, i),
        element_start(offset, stride, i) + record <= len,
{
    lemma_element_inside(offset, stride, count, i);
}

/// Region `b` holds at `base` a sensor record written with these values, its
/// text fields zero-padded.
pub open spec fn sensor_written(
    b: Seq<u8>,
    base: int,
    id: u32,
    instance: u32,
    original: Seq<u8>,
    user: Seq<u8>,
    utf8: Seq<u8>,
) -> bool {
    &&& 0 <= base
    &&& base + SENSOR_RECORD_SIZE <= b.len()
    &&& b.subrange(base, base + 4) == le_bytes(id as nat, 4)
    &&& b.subrange(base + 4, base + 8) == le_bytes(instance as nat, 4)
    &&& b.subrange(base + 8, base + 136) == padded(original, 128)
    &&& b.subrange(base + 136, base + 264) == padded(user, 128)
    &&& b.subrange(base + 264, base + 392) == padded(utf8, 128)
}

/// Text that fits a field of `width` bytes with its terminator.
pub open spec fn fits_field(t: Seq<u8>, width: nat) -> bool {
    nul_free(t) && t.len() < width
}

/// A sensor record decoded from where one was written holds the values
/// written: the integers, and the text fields after their terminator is cut.
pub proof fn lemma_sensor_round_trip(
    b: Seq<u8>,
    base: int,
    id: u32,
    instance: u32,
    original: Seq<u8>,
    user: Seq<u8>,
    utf8: Seq<u8>,
    e: HWiNFOSensorElement,
)
    requires
        sensor_written(b, base, id, instance, original, user, utf8),
        fits_field(original, 128),
        fits_field(user, 128),
        fits_field(utf8, 128),
        sensor_at(e, b, base),
    ensures
        e.sensor_id == id,
        e.sensor_instance == instance,
        e.original_name@ == original,
        e.user_name@ == user,
        e.user_name_utf8@ == utf8_or_empty(utf8),
{
    lemma_u32_round_trip(b, base, id);
    lemma_u32_round_trip(b, base + 4, instance);
    lemma_padded_round_trip(original, 128);
    lemma_padded_round_trip(user, 128);
    lemma_padded_round_trip(utf8, 128);
}

/// Region `b` holds at `base` a reading record written with these values,
/// its text fields zero-padded.
pub open spec fn reading_written(
    b: Seq<u8>,
    base: int,
    tag: u8,
    sensor_index: u32,
    id: u32,
    labels: (Seq<u8>, Seq<u8>, Seq<u8>),
    values: (u64, u64, u64, u64),
    utf8: (Seq<u8>, Seq<u8>),
) -> bool {
    &&& 0 <= base
    &&& base + READING_RECORD_SIZE <= b.len()
    &&& b[base] == tag
    &&& b.subrange(base + 1, base + 5) == le_bytes(sensor_index as nat, 4)
    &&& b.subrange(base + 5, base + 9) == le_bytes(id as nat, 4)
    &&& b.subrange(base + 9, base + 137) == padded(labels.0, 128)
    &&& b.subrange(base + 137, base + 265) == padded(labels.1, 128)
    &&& b.subrange(base + 265, base + 281) == padded(labels.2, 16)
    &&& b.subrange(base + 281, base + 289) == le_bytes(values.0 as nat, 8)
    &&& b.subrange(base + 289, base + 297) == le_bytes(values.1 as nat, 8)
    &&& b.subrange(base + 297, base + 305) == le_bytes(values.2 as nat, 8)
    &&& b.subrange(base + 305, base + 313) == le_bytes(values.3 as nat, 8)
    &&& b.subrange(base + 313, base + 441) == padded(utf8.0, 128)
    &&& b.subrange(base + 441, base + 457) == padded(utf8.1, 16)
}

/// A reading record decoded from where one was written holds the values
/// written: the category of its tag, the integers, the bit patterns of the
/// values, and the text fields after their terminator is cut.
pub proof fn lemma_reading_round_trip(
    b: Seq<u8>,
    base: int,
    tag: u8,
    sensor_index: u32,
    id: u32,
    labels: (Seq<u8>, Seq<u8>, Seq<u8>),
    values: (u64, u64, u64, u64),
    utf8: (Seq<u8>, Seq<u8>),
    e: HWiNFOReadingElement,
)
    requires
        reading_written(b, base, tag, sensor_index, id, labels, values, utf8),
        fits_field(labels.0, 128),
        fits_field(labels.1, 128),
        fits_field(labels.2, 16),
        fits_field(utf8.0, 128),
        fits_field(utf8.1, 16),
        reading_at(e, b, base),
    ensures
        e.reading_type == reading_type_of(tag),
        e.sensor_index == sensor_index,
        e.reading_id == id,
        e.original_label@ == labels.0,
        e.user_label@ == labels.1,
        e.unit@ == labels.2,
        e.value_bits == values.0,
        e.min_value_bits == values.1,
        e.max_value_bits == values.2,
        e.avg_value_bits == values.3,
        e.user_label_utf8@ == utf8_or_empty(utf8.0),
        e.unit_utf8@ == utf8_or_empty(utf8.1),
{
    lemma_u32_round_trip(b, base + 1, sensor_index);
    lemma_u32_round_trip(b, base + 5, id);
    lemma_padded_round_trip(labels.0, 128);
    lemma_padded_round_trip(labels.1, 128);
    lemma_padded_round_trip(labels.2, 16);
    lemma_u64_round_trip(b, base + 281, values.0);
    lemma_u64_round_trip(b, base + 289, values.1);
    lemma_u64_round_trip(b, base + 297, values.2);
    lemma_u64_round_trip(b, base + 305, values.3);
    lemma_padded_round_trip(utf8.0, 128);
    lemma_padded_round_trip(utf8.1, 16);
}

/// Values of a sensor record: id, instance, and the three text fields.
pub type SensorValues = (u32, u32, Seq<u8>, Seq<u8>, Seq<u8>);

/// Values of a reading record: tag, sensor index, id, the three raw text
/// fields, the four value bit patterns, and the two UTF-8 text fields.
pub type ReadingValues = (u8, u32, u32, (Seq<u8>, Seq<u8>, Seq<u8>), (u64, u64, u64, u64), (Seq<u8>, Seq<u8>));

/// Where each sensor slot that `h` declares holds a written record, the decoded
/// sensors are as many as were written and hold their values, in order.
pub proof fn lemma_sensors_round_trip(
    b: Seq<u8>,
    h: HWiNFOSharedMemory,
    written: Seq<SensorValues>,
    decoded: Seq<HWiNFOSensorElement>,
)
    requires
        written.len() == h.sensor_elements_number,
        forall|i: int|
            0 <= i < written.len() ==> {
                let w = #[trigger] written[i];
                &&& sensor_written(b, element_start(h.sensor_section_offset, h.sensor_element_size, i), w.0, w.1, w.2, w.3, w.4)
                &&& fits_field(w.2, 128)
                &&& fits_field(w.3, 128)
                &&& fits_field(w.4, 128)
            },
        sensors_decoded(decoded, b, h),
    ensures
        decoded.len() == written.len(),
        forall|i: int|
            0 <= i < decoded.len() ==> {
                let e = #[trigger] decoded[i];
                let w = written[i];
                &&& e.sensor_id == w.0
                &&& e.sensor_instance == w.1
                &&& e.original_name@ == w.2
                &&& e.user_name@ == w.3
                &&& e.user_name_utf8@ == utf8_or_empty(w.4)
            },
{
    assert forall|i: int| 0 <= i < decoded.len() implies {
        let e = #[trigger] decoded[i];
        let w = written[i];
        &&& e.sensor_id == w.0
        &&& e.sensor_instance == w.1
        &&& e.original_name@ == w.2
        &&& e.user_name@ == w.3
        &&& e.user_name_utf8@ == utf8_or_empty(w.4)
    } by {
        let w = written[i];
        lemma_sensor_round_trip(b, element_start(h.sensor_section_offset, h.sensor_element_size, i), w.0, w.1, w.2, w.3, w.4, decoded[i]);
    }
}

/// Where each reading slot that `h` declares holds a written record, the
/// decoded readings are as many as were written and hold their values, in order.
pub proof fn lemma_readings_round_trip(
    b: Seq<u8>,
    h: HWiNFOSharedMemory,
    written: Seq<ReadingValues>,
    decoded: Seq<HWiNFOReadingElement>,
)
    requires
        written.len() == h.reading_elements_number,
        forall|i: int|
            0 <= i < written.len() ==> {
                let w = #[trigger] written[i];
                &&& reading_written(b, element_start(h.reading_section_offset, h.reading_element_size, i), w.0, w.1, w.2, w.3, w.4, w.5)
                &&& fits_field(w.3.0, 128)
                &&& fits_field(w.3.1, 128)
                &&& fits_field(w.3.2, 16)
                &&& fits_field(w.5.0, 128)
                &&& fits_field(w.5.1, 16)
            },
        readings_decoded(decoded, b, h),
    ensures
        decoded.len() == written.len(),
        forall|i: int|
            0 <= i < decoded.len() ==> {
                let e = #[trigger] decoded[i];
                let w = written[i];
                &&& e.reading_type == reading_type_of(w.0)
                &&& e.sensor_index == w.1
                &&& e.reading_id == w.2
                &&& e.original_label@ == w.3.0
                &&& e.user_label@ == w.3.1
                &&& e.unit@ == w.3.2
                &&& e.value_bits == w.4.0
                &&& e.min_value_bits == w.4.1
                &&& e.max_value_bits == w.4.2
                &&& e.avg_value_bits == w.4.3
                &&& e.user_label_utf8@ == utf8_or_empty(w.5.0)
                &&& e.unit_utf8@ == utf8_or_empty(w.5.1)
            },
{
    assert forall|i: int| 0 <= i < decoded.len() implies {
        let e = #[trigger] decoded[i];
        let w = written[i];
        &&& e.reading_type == reading_type_of(w.0)
        &&& e.sensor_index == w.1
        &&& e.reading_id == w.2
        &&& e.original_label@ == w.3.0
        &&& e.user_label@ == w.3.1
        &&& e.unit@ == w.3.2
        &&& e.value_bits == w.4.0
        &&& e.min_value_bits == w.4.1
        &&& e.max_value_bits == w.4.2
        &&& e.avg_value_bits == w.4.3
        &&& e.user_label_utf8@ == utf8_or_empty(w.5.0)
        &&& e.unit_utf8@ == utf8_or_empty(w.5.1)
    } by {
        let w = written[i];
        lemma_reading_round_trip(b, element_start(h.reading_section_offset, h.reading_element_size, i), w.0, w.1, w.2, w.3, w.4, w.5, decoded[i]);
    }
}

/// Checks that an array lies inside a region of `len` bytes, without overflow.
fn check_section(len: usize, offset: u32, stride: u32, count: u32, record: usize) -> (r: bool)
    ensures
        r == section_fits(len as nat, offset, stride, count, record as nat),
{
    assert((count as int) * (stride as int) <= 0xffff_ffffint * 0xffff_ffffint) by (nonlinear_arith)
        requires
            count <= 0xffff_ffffint,
            stride <= 0xffff_ffffint,
            count >= 0,
            stride >= 0,
    ;
    let end: u64 = offset as u64 + (count as u64) * (stride as u64);
    (stride as usize) >= record && end <= len as u64
}

/// Decodes the sensor record at `base`.
fn sensor_record(region: &[u8], base: usize) -> (e: HWiNFOSensorElement)
    requires
        base + SENSOR_RECORD_SIZE <= region@.len(),
    ensures
        sensor_at(e, region@, base as int),
{
    let _len = region.len();
    let original_name = raw_field(&region[base + 8..base + 136]);
    let user_name = raw_field(&region[base + 136..base + 264]);
    let user_name_utf8 = utf8_to_str(&region[base + 264..base + 392]);
    HWiNFOSensorElement {
        sensor_id: read_u32(region, base),
        sensor_instance: read_u32(region, base + 4),
        original_name,
        user_name,
        user_name_utf8,
    }
}

/// Decodes the reading record at `base`.
fn reading_record(region: &[u8], base: usize) -> (e: HWiNFOReadingElement)
    requires
        base + READING_RECORD_SIZE <= region@.len(),
    ensures
        reading_at(e, region@, base as int),
{
    let _len = region.len();
    let original_label = raw_field(&region[base + 9..base + 137]);
    let user_label = raw_field(&region[base + 137..base + 265]);
    let unit = raw_field(&region[base + 265..base + 281]);
    let user_label_utf8 = utf8_to_str(&region[base + 313..base + 441]);
    let unit_utf8 = utf8_to_str(&region[base + 441..base + 457]);
    HWiNFOReadingElement {
        reading_type: SensorReadingType::from_tag(region[base]),
        sensor_index: read_u32(region, base + 1),
        reading_id: read_u32(region, base + 5),
        original_label,
        user_label,
        unit,
        value_bits: read_u64(region, base + 281),
        min_value_bits: read_u64(region, base + 289),
        max_value_bits: read_u64(region, base + 297),
        avg_value_bits: read_u64(region, base + 305),
        user_label_utf8,
        unit_utf8,
    }
}

/// Decodes the sensor array that `header` declares. Fails with `CorruptLayout`,
/// and yields no record, where the array does not lie inside `region`.
pub fn decode_sensors(region: &[u8], header: &HWiNFOSharedMemory) -> (r: Result<
    Vec<HWiNFOSensorElement>,
    ReaderError,
>)
    ensures
        r is Ok <==> header.sensors_fit(region@.len()),
        r is Err ==> r == Err::<Vec<HWiNFOSensorElement>, ReaderError>(ReaderError::CorruptLayout),
        r is Ok ==> sensors_decoded(r.unwrap()@, region@, *header),
{
    let offset = header.sensor_section_offset;
    let stride = header.sensor_element_size;
    let count = header.sensor_elements_number;
    if !check_section(region.len(), offset, stride, count, SENSOR_RECORD_SIZE) {
        return Err(ReaderError::CorruptLayout);
    }
    let mut out: Vec<HWiNFOSensorElement> = Vec::new();
    let len = region.len();
    let mut i: u32 = 0;
    while i < count
        invariant
            len == region@.len(),
            i <= count,
            section_fits(region@.len(), offset, stride, count, SENSOR_RECORD_SIZE as nat),
            count == header.sensor_elements_number,
            offset == header.sensor_section_offset,
            stride == header.sensor_element_size,
            out@.len() == i,
            forall|j: int| 0 <= j < i ==> sensor_at(#[trigger] out@[j], region@,
                element_start(offset, stride, j)),
        decreases count - i,
    {
        proof {
            lemma_element_inside(offset, stride, count, i as int);
        }
        let base = offset as usize + (i as usize) * (stride as usize);
        out.push(sensor_record(region, base));
        i = i + 1;
    }
    Ok(out)
}

/// Decodes the reading array that `header` declares. Fails with `CorruptLayout`,
/// and yields no record, where the array does not lie inside `region`.
pub fn decode_readings(region: &[u8], header: &HWiNFOSharedMemory) -> (r: Result<
    Vec<HWiNFOReadingElement>,
    ReaderError,
>)
    ensures
        r is Ok <==> header.readings_fit(region@.len()),
        r is Err ==> r == Err::<Vec<HWiNFOReadingElement>, ReaderError>(ReaderError::CorruptLayout),
        r is Ok ==> readings_decoded(r.unwrap()@, region@, *header),
{
    let offset = header.reading_section_offset;
    let stride = header.reading_element_size;
    let count = header.reading_elements_number;
    if !check_section(region.len(), offset, stride, count, READING_RECORD_SIZE) {
        return Err(ReaderError::CorruptLayout);
    }
    let mut out: Vec<HWiNFOReadingElement> = Vec::new();
    let len = region.len();
    let mut i: u32 = 0;
    while i < count
        invariant
            len == region@.len(),
            i <= count,
            section_fits(region@.len(), offset, stride, count, READING_RECORD_SIZE as nat),
            count == header.reading_elements_number,
            offset == header.reading_section_offset,
            stride == header.reading_element_size,
            out@.len() == i,
            forall|j: int| 0 <= j < i ==> reading_at(#[trigger] out@[j], region@,
                element_start(offset, stride, j)),
        decreases count - i,
    {
        proof {
            lemma_element_inside(offset, stride, count, i as int);
        }
        let base = offset as usize + (i as usize) * (stride as usize);
        out.push(reading_record(region, base));
        i = i + 1;
    }
    Ok(out)
}

} // verus!

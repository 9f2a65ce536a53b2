//! The gauges that the readings are published into: one family per category,
//! each gauge keyed by sensor and reading label, and, for the category `Other`,
//! by unit too.

use vstd::prelude::*;
use crate::hwinfo_reader::Reader;
use crate::hwinfo_types::{HWiNFOReadingElement, HWiNFOSensorElement, SensorReadingType};

verus! {

/// The labels of a gauge.
#[derive(Debug, Clone)]
pub struct HWiNFOLabels {
    pub sensor: String,
    pub reading: String,
    pub unit: String,
}

/// A gauge as the store identifies it: family, sensor, reading, unit.
pub type GaugeKey = (SensorReadingType, Seq<char>, Seq<char>, Seq<char>);

/// The key of a reading of category `kind`: the unit counts only for `Other`.
pub open spec fn gauge_key(kind: SensorReadingType, sensor: Seq<char>, reading: Seq<char>, unit: Seq<char>) -> GaugeKey {
    (kind, sensor, reading, if kind == SensorReadingType::Other { unit } else { Seq::empty() })
}

/// The gauges `m` after recording `value` for a reading of category `kind`: an
/// unused category records nothing.
pub open spec fn recorded(
    m: Map<GaugeKey, u64>,
    kind: SensorReadingType,
    sensor: Seq<char>,
    reading: Seq<char>,
    unit: Seq<char>,
    value: u64,
) -> Map<GaugeKey, u64> {
    if kind == SensorReadingType::Unused {
        m
    } else {
        m.insert(gauge_key(kind, sensor, reading, unit), value)
    }
}

/// The gauges `m` after recording `readings` in order, each labelled with the
/// name of the sensor that it names.
pub open spec fn published(
    m: Map<GaugeKey, u64>,
    sensors: Seq<HWiNFOSensorElement>,
    readings: Seq<HWiNFOReadingElement>,
) -> Map<GaugeKey, u64>
    decreases readings.len(),
{
    if readings.len() == 0 {
        m
    } else {
        let last = readings.last();
        recorded(
            published(m, sensors, readings.drop_last()),
            last.reading_type,
            sensors[last.sensor_index as int].user_name_utf8@,
            last.user_label_utf8@,
            last.unit_utf8@,
            last.value_bits,
        )
    }
}

/// One gauge: its family, its labels and the bit pattern of its IEEE 754 value.
#[derive(Debug, Clone)]
pub struct GaugeEntry {
    pub family: SensorReadingType,
    pub labels: HWiNFOLabels,
    pub value_bits: u64,
}

impl GaugeEntry {
    pub open spec fn key(&self) -> GaugeKey {
        (self.family, self.labels.sensor@, self.labels.reading@, self.labels.unit@)
    }
}

/// The gauge table. Gauges are created on first use and never removed.
pub struct Metrics {
    entries: Vec<GaugeEntry>,
    gauges: Ghost<Map<GaugeKey, u64>>,
}

impl View for Metrics {
    type V = Map<GaugeKey, u64>;

    closed spec fn view(&self) -> Map<GaugeKey, u64> {
        self.gauges@
    }
}

impl Metrics {
    /// The entries hold the gauges of the view, one entry per gauge.
    pub closed spec fn wf(&self) -> bool {
        &&& forall|i: int|
            0 <= i < self.entries@.len() ==> {
                let e = #[trigger] self.entries@[i];
                &&& self.gauges@.contains_key(e.key())
                &&& self.gauges@[e.key()] == e.value_bits
            }
        &&& forall|k: GaugeKey|
            #[trigger] self.gauges@.contains_key(k) ==> exists|i: int|
                0 <= i < self.entries@.len() && (#[trigger] self.entries@[i]).key() == k
        &&& forall|i: int, j: int|
            0 <= i < j < self.entries@.len() ==> (#[trigger] self.entries@[i]).key()
                != (#[trigger] self.entries@[j]).key()
    }

    /// An empty table.
    pub fn new() -> (r: Metrics)
        ensures
            r.wf(),
            r@ == Map::<GaugeKey, u64>::empty(),
    {
        Metrics { entries: Vec::new(), gauges: Ghost(Map::empty()) }
    }

    /// Number of gauges.
    pub fn len(&self) -> (r: usize)
        requires
            self.wf(),
        ensures
            r == self@.len(),
    {
        proof {
            self.lemma_len();
        }
        self.entries.len()
    }

    /// The gauge kept at position `i`.
    pub closed spec fn entry_at(&self, i: int) -> GaugeEntry {
        self.entries@[i]
    }

    /// Positions `0..len` hold each gauge of the table exactly once.
    pub proof fn lemma_positions(&self)
        requires
            self.wf(),
        ensures
            forall|i: int|
                0 <= i < self@.len() ==> self@.contains_key(#[trigger] self.entry_at(i).key())
                    && self@[self.entry_at(i).key()] == self.entry_at(i).value_bits,
            forall|k: GaugeKey|
                #[trigger] self@.contains_key(k) ==> exists|i: int|
                    0 <= i < self@.len() && (#[trigger] self.entry_at(i)).key() == k,
            forall|i: int, j: int|
                0 <= i < j < self@.len() ==> (#[trigger] self.entry_at(i)).key() != (
                #[trigger] self.entry_at(j)).key(),
    {
        self.lemma_len();
        assert forall|k: GaugeKey| #[trigger] self@.contains_key(k) implies exists|i: int|
            0 <= i < self@.len() && (#[trigger] self.entry_at(i)).key() == k by {
            let i = choose|i: int| 0 <= i < self.entries@.len() && (#[trigger] self.entries@[i]).key() == k;
            assert(self.entry_at(i).key() == k);
        }
    }

    /// The gauge at position `i`, of `len` gauges.
    pub fn entry(&self, i: usize) -> (r: &GaugeEntry)
        requires
            self.wf(),
            i < self@.len(),
        ensures
            *r == self.entry_at(i as int),
            self@.contains_key(r.key()),
            self@[r.key()] == r.value_bits,
    {
        proof {
            self.lemma_len();
        }
        &self.entries[i]
    }

    proof fn lemma_len(&self)
        requires
            self.wf(),
        ensures
            self@.len() == self.entries@.len(),
            self@.dom().finite(),
        decreases self.entries@.len(),
    {
        let keys = Seq::new(self.entries@.len(), |i: int| self.entries@[i].key());
        assert(keys.no_duplicates());
        assert(self@.dom() =~= keys.to_set()) by {
            assert forall|k: GaugeKey| #[trigger] self@.dom().contains(k) implies keys.to_set().contains(k) by {
                let i = choose|i: int| 0 <= i < self.entries@.len() && (#[trigger] self.entries@[i]).key() == k;
                assert(keys[i] == k);
            }
        }
        keys.unique_seq_to_set();
    }

    /// Records `value_bits` for a reading of category `reading_type` labelled
    /// `label`: updates its gauge, creating it on first use. An unused category
    /// records nothing.
    pub fn gauge_reading(&mut self, label: HWiNFOLabels, reading_type: SensorReadingType, value_bits: u64)
        requires
            old(self).wf(),
        ensures
            final(self).wf(),
            final(self)@ == recorded(old(self)@, reading_type, label.sensor@, label.reading@, label.unit@, value_bits),
    {
        if reading_type == SensorReadingType::Unused {
            return;
        }
        let unit = if reading_type == SensorReadingType::Other {
            label.unit
        } else {
            String::new()
        };
        let labels = HWiNFOLabels { sensor: label.sensor, reading: label.reading, unit };
        let ghost key = gauge_key(reading_type, label.sensor@, label.reading@, label.unit@);
        assert(key == (reading_type, labels.sensor@, labels.reading@, labels.unit@));
        let n = self.entries.len();
        let mut i: usize = 0;
        while i < n
            invariant
                n == self.entries@.len(),
                i <= n,
                reading_type != SensorReadingType::Unused,
                self.wf(),
                self.gauges@ == old(self).gauges@,
                self.entries@ == old(self).entries@,
                key == (reading_type, labels.sensor@, labels.reading@, labels.unit@),
                key == gauge_key(reading_type, label.sensor@, label.reading@, label.unit@),
                forall|j: int| 0 <= j < i ==> (#[trigger] self.entries@[j]).key() != key,
            decreases n - i,
        {
            let e = &self.entries[i];
            if e.family == reading_type && e.labels.sensor == labels.sensor && e.labels.reading
                == labels.reading && e.labels.unit == labels.unit {
                let ghost before = self.entries@;
                self.entries[i].value_bits = value_bits;
                proof {
                    self.gauges@ = self.gauges@.insert(key, value_bits);
                    assert forall|j: int| 0 <= j < self.entries@.len() && j != i implies
                        #[trigger] self.entries@[j] == before[j] by {}
                    assert forall|k: GaugeKey| #[trigger] self.gauges@.contains_key(k) implies exists|j: int|
                        0 <= j < self.entries@.len() && (#[trigger] self.entries@[j]).key() == k by {
                        if k != key {
                            let j = choose|j: int| 0 <= j < before.len() && (#[trigger] before[j]).key() == k;
                            assert(self.entries@[j].key() == k);
                        } else {
                            assert(self.entries@[i as int].key() == k);
                        }
                    }
                }
                return;
            }
            i = i + 1;
        }
        let ghost before = self.entries@;
        self.entries.push(GaugeEntry { family: reading_type, labels, value_bits });
        proof {
            self.gauges@ = self.gauges@.insert(key, value_bits);
            assert forall|j: int| 0 <= j < before.len() implies #[trigger] self.entries@[j] == before[j] by {}
            assert forall|k: GaugeKey| #[trigger] self.gauges@.contains_key(k) implies exists|j: int|
                0 <= j < self.entries@.len() && (#[trigger] self.entries@[j]).key() == k by {
                if k != key {
                    let j = choose|j: int| 0 <= j < before.len() && (#[trigger] before[j]).key() == k;
                    assert(self.entries@[j].key() == k);
                } else {
                    assert(self.entries@[n as int].key() == k);
                }
            }
        }
    }
    /// Records every reading of `reader`, in order, labelled with the user's
    /// names of its sensor, its label and its unit.
    pub fn record_readings(&mut self, reader: &Reader)
        requires
            old(self).wf(),
            reader.wf(),
        ensures
            final(self).wf(),
            final(self)@ == published(old(self)@, reader.sensors@, reader.readings@),
    {
        let n = reader.readings.len();
        let mut i: usize = 0;
        while i < n
            invariant
                n == reader.readings@.len(),
                i <= n,
                reader.wf(),
                self.wf(),
                self@ == published(old(self)@, reader.sensors@, reader.readings@.take(i as int)),
            decreases n - i,
        {
            let reading = &reader.readings[i];
            let sensor = &reader.sensors[reading.sensor_index as usize];
            let label = HWiNFOLabels {
                sensor: sensor.user_name_utf8.clone(),
                reading: reading.user_label_utf8.clone(),
                unit: reading.unit_utf8.clone(),
            };
            self.gauge_reading(label, reading.reading_type, reading.value_bits);
            proof {
                let next = reader.readings@.take(i + 1);
                assert(next.drop_last() =~= reader.readings@.take(i as int));
                assert(next.last() == reader.readings@[i as int]);
            }
            i = i + 1;
        }
        assert(reader.readings@.take(n as int) =~= reader.readings@);
    }
}

/// Two readings of category `Other` with the same sensor and label but
/// different units go to two distinct gauges, each with its own value; two
/// readings of another used category with the same sensor and label go to one
/// gauge, which keeps the second value.
pub proof fn lemma_label_collision(
    m: Map<GaugeKey, u64>,
    kind: SensorReadingType,
    sensor: Seq<char>,
    reading: Seq<char>,
    unit_a: Seq<char>,
    unit_b: Seq<char>,
    value_a: u64,
    value_b: u64,
)
    requires
        kind != SensorReadingType::Unused,
    ensures
        kind == SensorReadingType::Other && unit_a != unit_b ==> {
            let after = recorded(
                recorded(m, kind, sensor, reading, unit_a, value_a),
                kind,
                sensor,
                reading,
                unit_b,
                value_b,
            );
            &&& gauge_key(kind, sensor, reading, unit_a) != gauge_key(kind, sensor, reading, unit_b)
            &&& after[gauge_key(kind, sensor, reading, unit_a)] == value_a
            &&& after[gauge_key(kind, sensor, reading, unit_b)] == value_b
            &&& after.dom() == m.dom().insert(gauge_key(kind, sensor, reading, unit_a)).insert(
                gauge_key(kind, sensor, reading, unit_b),
            )
        },
        kind != SensorReadingType::Other ==> recorded(
            recorded(m, kind, sensor, reading, unit_a, value_a),
            kind,
            sensor,
            reading,
            unit_b,
            value_b,
        ) == m.insert(gauge_key(kind, sensor, reading, unit_a), value_b),
{
    let ka = gauge_key(kind, sensor, reading, unit_a);
    let kb = gauge_key(kind, sensor, reading, unit_b);
    if kind == SensorReadingType::Other && unit_a != unit_b {
        assert(ka.3 != kb.3);
        let after = m.insert(ka, value_a).insert(kb, value_b);
        assert(after.dom() =~= m.dom().insert(ka).insert(kb));
    }
    if kind != SensorReadingType::Other {
        assert(ka == kb);
        assert(m.insert(ka, value_a).insert(kb, value_b) =~= m.insert(ka, value_b));
    }
}

} // verus!

//! Rows of the console tables of sensors and readings.

use vstd::prelude::*;
use crate::hwinfo_reader::Reader;
use crate::hwinfo_types::SensorReadingType;

verus! {

/// A row of the sensor table.
#[derive(Debug, Clone)]
pub struct Sensor {
    pub id: u32,
    pub instance: u32,
    pub name: String,
}

/// A row of the reading table. The values are bit patterns of IEEE 754 doubles.
#[derive(Debug, Clone)]
pub struct Reading {
    pub id: u32,
    pub sensor_name: String,
    pub label: String,
    pub unit: String,
    pub value_bits: u64,
    pub min_value_bits: u64,
    pub avg_value_bits: u64,
    pub max_value_bits: u64,
    pub reading_type: SensorReadingType,
}

impl Reader {
    /// One row per sensor, in order.
    pub fn sensor_rows(&self) -> (r: Vec<Sensor>)
        ensures
            r@.len() == self.sensors@.len(),
            forall|i: int|
                0 <= i < r@.len() ==> {
                    let s = #[trigger] self.sensors@[i];
                    &&& r@[i].id == s.sensor_id
                    &&& r@[i].instance == s.sensor_instance
                    &&& r@[i].name@ == s.user_name_utf8@
                },
    {
        let n = self.sensors.len();
        let mut rows: Vec<Sensor> = Vec::new();
        let mut i: usize = 0;
        while i < n
            invariant
                n == self.sensors@.len(),
                i <= n,
                rows@.len() == i,
                forall|j: int|
                    0 <= j < i ==> {
                        let s = #[trigger] self.sensors@[j];
                        &&& rows@[j].id == s.sensor_id
                        &&& rows@[j].instance == s.sensor_instance
                        &&& rows@[j].name@ == s.user_name_utf8@
                    },
            decreases n - i,
        {
            let s = &self.sensors[i];
            rows.push(
                Sensor {
                    id: s.sensor_id,
                    instance: s.sensor_instance,
                    name: s.user_name_utf8.clone(),
                },
            );
            i = i + 1;
        }
        rows
    }

    /// One row per reading, in order, each with the user's name of its sensor.
    pub fn reading_rows(&self) -> (r: Vec<Reading>)
        requires
            self.wf(),
        ensures
            r@.len() == self.readings@.len(),
            forall|i: int|
                0 <= i < r@.len() ==> {
                    let e = #[trigger] self.readings@[i];
                    &&& r@[i].id == e.reading_id
                    &&& r@[i].sensor_name@ == self.sensors@[e.sensor_index as int].user_name_utf8@
                    &&& r@[i].label@ == e.user_label_utf8@
                    &&& r@[i].unit@ == e.unit_utf8@
                    &&& r@[i].value_bits == e.value_bits
                    &&& r@[i].min_value_bits == e.min_value_bits
                    &&& r@[i].avg_value_bits == e.avg_value_bits
                    &&& r@[i].max_value_bits == e.max_value_bits
                    &&& r@[i].reading_type == e.reading_type
                },
    {
        let n = self.readings.len();
        let mut rows: Vec<Reading> = Vec::new();
        let mut i: usize = 0;
        while i < n
            invariant
                n == self.readings@.len(),
                self.wf(),
                i <= n,
                rows@.len() == i,
                forall|j: int|
                    0 <= j < i ==> {
                        let e = #[trigger] self.readings@[j];
                        &&& rows@[j].id == e.reading_id
                        &&& rows@[j].sensor_name@ == self.sensors@[e.sensor_index as int].user_name_utf8@
                        &&& rows@[j].label@ == e.user_label_utf8@
                        &&& rows@[j].unit@ == e.unit_utf8@
                        &&& rows@[j].value_bits == e.value_bits
                        &&& rows@[j].min_value_bits == e.min_value_bits
                        &&& rows@[j].avg_value_bits == e.avg_value_bits
                        &&& rows@[j].max_value_bits == e.max_value_bits
                        &&& rows@[j].reading_type == e.reading_type
                    },
            decreases n - i,
        {
            let e = &self.readings[i];
            let sensor = &self.sensors[e.sensor_index as usize];
            rows.push(
                Reading {
                    id: e.reading_id,
                    sensor_name: sensor.user_name_utf8.clone(),
                    label: e.user_label_utf8.clone(),
                    unit: e.unit_utf8.clone(),
                    value_bits: e.value_bits,
                    min_value_bits: e.min_value_bits,
                    avg_value_bits: e.avg_value_bits,
                    max_value_bits: e.max_value_bits,
                    reading_type: e.reading_type,
                },
            );
            i = i + 1;
        }
        rows
    }
}

} // verus!

//! The reader of the shared region: the decoded snapshot, and the state machine
//! that tells a live producer from a stale one.
//!
//! The caller owns the mapping of the region and hands the reader its bytes on
//! each call. Timestamps have a resolution of seconds and polling periods one of
//! milliseconds: the reader compares in milliseconds, converting the whole
//! seconds by which the timestamp moved.

use vstd::prelude::*;
use crate::error::{ReaderError, SVMOpenError};
use crate::hwinfo_types::{
    decode_readings, decode_sensors, element_start, header_of, readings_decoded, sensors_decoded,
    HWiNFOReadingElement, HWiNFOSensorElement, HWiNFOSharedMemory, HEADER_SIZE,
};
use crate::layout::{le_u32, read_u32};

verus! {

/// Consecutive failed updates after which the next update remaps the region.
pub const REINIT_THRESHOLD: u32 = 3;

/// Attempts at opening the region and building the reader before the caller
/// gives up.
pub const OPEN_ATTEMPTS: u32 = 7;

/// What the caller does after an attempt at building the reader.
#[derive(Debug, Clone, Copy, PartialEq, Eq, Structural)]
pub enum StartupAction {
    /// The reader is built: start serving.
    Proceed,
    /// Wait, then try again.
    Retry,
    /// The producer stayed unavailable: stop.
    GiveUp,
}

/// What to do after attempt number `attempt`, counted from 1, ended with `built`.
pub fn startup_action(attempt: u32, built: &Result<Reader, ReaderError>) -> (r: StartupAction)
    ensures
        built is Ok ==> r == StartupAction::Proceed,
        built is Err && attempt < OPEN_ATTEMPTS ==> r == StartupAction::Retry,
        built is Err && attempt >= OPEN_ATTEMPTS ==> r == StartupAction::GiveUp,
{
    match built {
        Ok(_) => StartupAction::Proceed,
        Err(_) => if attempt < OPEN_ATTEMPTS {
            StartupAction::Retry
        } else {
            StartupAction::GiveUp
        },
    }
}

/// The decoded snapshot of the region and the liveness bookkeeping.
#[derive(Debug)]
pub struct Reader {
    /// The header of the last accepted snapshot.
    pub info: HWiNFOSharedMemory,
    /// The sensors, decoded when the region was mapped.
    pub sensors: Vec<HWiNFOSensorElement>,
    /// The readings of the last accepted snapshot.
    pub readings: Vec<HWiNFOReadingElement>,
    /// The producer's timestamp of the last accepted snapshot.
    pub previous_update: i64,
    /// Updates that failed since the last accepted one.
    pub failed_updates: u32,
}

/// The timestamp moved, either way, by at least one polling period.
pub open spec fn advanced(previous: i64, now: i64, period_ms: u32) -> bool {
    let d = now - previous;
    let magnitude = if d < 0 { -d } else { d };
    magnitude * 1000 >= period_ms
}

/// Every reading that `h` declares in `b` names one of `n_sensors` sensors.
pub open spec fn sensor_indices_valid(b: Seq<u8>, h: HWiNFOSharedMemory, n_sensors: nat) -> bool {
    forall|i: int|
        0 <= i < h.reading_elements_number ==> (#[trigger] le_u32(
            b,
            element_start(h.reading_section_offset, h.reading_element_size, i) + 1,
        )) < n_sensors
}

/// `b` holds a header whose two arrays lie inside `b` and whose readings name
/// its sensors.
pub open spec fn region_valid(b: Seq<u8>) -> bool {
    let h = header_of(b);
    &&& b.len() >= HEADER_SIZE
    &&& h.sensors_fit(b.len())
    &&& h.readings_fit(b.len())
    &&& sensor_indices_valid(b, h, h.sensor_elements_number as nat)
}

impl Reader {
    /// Every reading names one of the sensors, and the failure count has not
    /// passed the threshold.
    pub open spec fn wf(&self) -> bool {
        &&& forall|i: int|
            0 <= i < self.readings@.len() ==> (#[trigger] self.readings@[i]).sensor_index
                < self.sensors@.len()
        &&& self.failed_updates <= REINIT_THRESHOLD
    }

    /// The reader is freshly built from region `b`: both arrays decoded, its
    /// timestamp accepted, no failure counted.
    pub open spec fn loaded_from(&self, b: Seq<u8>) -> bool {
        &&& self.info == header_of(b)
        &&& sensors_decoded(self.sensors@, b, self.info)
        &&& readings_decoded(self.readings@, b, self.info)
        &&& self.previous_update == self.info.poll_time
        &&& self.failed_updates == 0
    }

    /// The update that `self` is due for remaps the region.
    pub open spec fn due_for_reinit(&self) -> bool {
        self.failed_updates >= REINIT_THRESHOLD
    }

    /// `new` is `old` after an update that failed: one more failure, nothing
    /// else changed.
    pub open spec fn failed_from(new: Reader, old: Reader) -> bool {
        &&& new.failed_updates == old.failed_updates + 1
        &&& new.info == old.info
        &&& new.sensors@ == old.sensors@
        &&& new.readings@ == old.readings@
        &&& new.previous_update == old.previous_update
    }

    /// `new` and `old` hold the same state.
    pub open spec fn same_state(new: Reader, old: Reader) -> bool {
        &&& new.failed_updates == old.failed_updates
        &&& new.info == old.info
        &&& new.sensors@ == old.sensors@
        &&& new.readings@ == old.readings@
        &&& new.previous_update == old.previous_update
    }

    /// What an update does: `old` is the state before, `region` what the caller
    /// read for it (`Err` where the region could not be opened), `new` the state
    /// after and `r` the result.
    pub open spec fn update_post(
        old: Reader,
        region: Result<Seq<u8>, SVMOpenError>,
        new: Reader,
        r: Result<(), ReaderError>,
    ) -> bool {
        if old.due_for_reinit() {
            match region {
                Ok(b) => if region_valid(b) {
                    r is Ok && new.loaded_from(b)
                } else {
                    r == Err::<(), ReaderError>(ReaderError::ReinitFailed) && Reader::same_state(new, old)
                },
                Err(_) => r == Err::<(), ReaderError>(ReaderError::ReinitFailed) && Reader::same_state(new, old),
            }
        } else {
            match region {
                Err(_) => r == Err::<(), ReaderError>(ReaderError::NotAvailable) && Reader::failed_from(new, old),
                Ok(b) => {
                    let h = header_of(b);
                    if b.len() < HEADER_SIZE {
                        r == Err::<(), ReaderError>(ReaderError::CorruptLayout) && Reader::failed_from(new, old)
                    } else if !advanced(old.previous_update, h.poll_time, h.polling_period) {
                        r == Err::<(), ReaderError>(ReaderError::StaleUpdate) && Reader::failed_from(new, old)
                    } else if !h.readings_fit(b.len()) || !sensor_indices_valid(
                        b,
                        h,
                        old.sensors@.len(),
                    ) {
                        r == Err::<(), ReaderError>(ReaderError::CorruptLayout) && Reader::failed_from(new, old)
                    } else {
                        &&& r is Ok
                        &&& new.info == h
                        &&& new.sensors@ == old.sensors@
                        &&& readings_decoded(new.readings@, b, h)
                        &&& new.previous_update == h.poll_time
                        &&& new.failed_updates == 0
                    }
                },
            }
        }
    }
}

/// Whether the timestamp moved by at least one polling period.
pub fn has_advanced(previous: i64, now: i64, period_ms: u32) -> (r: bool)
    ensures
        r == advanced(previous, now, period_ms),
{
    let d: i128 = now as i128 - previous as i128;
    let magnitude: i128 = if d < 0 {
        -d
    } else {
        d
    };
    magnitude * 1000 >= period_ms as i128
}

/// Checks that every reading that `h` declares in `region` names one of
/// `n_sensors` sensors.
fn check_sensor_indices(region: &[u8], h: &HWiNFOSharedMemory, n_sensors: usize) -> (r: bool)
    requires
        h.readings_fit(region@.len()),
    ensures
        r == sensor_indices_valid(region@, *h, n_sensors as nat),
{
    let len = region.len();
    let offset = h.reading_section_offset;
    let stride = h.reading_element_size;
    let count = h.reading_elements_number;
    let mut i: u32 = 0;
    while i < count
        invariant
            len == region@.len(),
            h.readings_fit(region@.len()),
            offset == h.reading_section_offset,
            stride == h.reading_element_size,
            count == h.reading_elements_number,
            i <= count,
            forall|j: int|
                0 <= j < i ==> (#[trigger] le_u32(
                    region@,
                    element_start(offset, stride, j) + 1,
                )) < n_sensors,
        decreases count - i,
    {
        proof {
            crate::hwinfo_types::lemma_element_inside(offset, stride, count, i as int);
        }
        let base = offset as usize + (i as usize) * (stride as usize);
        if read_u32(region, base + 1) as usize >= n_sensors {
            return false;
        }
        i = i + 1;
    }
    true
}

/// Decodes a whole region: its header and both arrays.
fn load(region: &[u8]) -> (r: Result<Reader, ReaderError>)
    ensures
        r is Ok <==> region_valid(region@),
        r is Err ==> r == Err::<Reader, ReaderError>(ReaderError::CorruptLayout),
        r is Ok ==> r.unwrap().loaded_from(region@) && r.unwrap().wf(),
{
    let info = match HWiNFOSharedMemory::read(region) {
        Some(h) => h,
        None => return Err(ReaderError::CorruptLayout),
    };
    let sensors = match decode_sensors(region, &info) {
        Ok(s) => s,
        Err(e) => return Err(e),
    };
    let readings = match decode_readings(region, &info) {
        Ok(rs) => rs,
        Err(e) => return Err(e),
    };
    if !check_sensor_indices(region, &info, sensors.len()) {
        return Err(ReaderError::CorruptLayout);
    }
    let reader = Reader {
        info,
        sensors,
        readings,
        previous_update: info.poll_time,
        failed_updates: 0,
    };
    proof {
        assert forall|i: int| 0 <= i < reader.readings@.len() implies (
        #[trigger] reader.readings@[i]).sensor_index < reader.sensors@.len() by {
            assert(le_u32(
                region@,
                element_start(info.reading_section_offset, info.reading_element_size, i) + 1,
            ) < info.sensor_elements_number);
        }
    }
    Ok(reader)
}

impl Reader {
    /// Builds a reader from the result of opening the region: `Err` where it
    /// could not be opened, else its bytes.
    pub fn new(region: Result<&[u8], SVMOpenError>) -> (r: Result<Reader, ReaderError>)
        ensures
            region is Err ==> r == Err::<Reader, ReaderError>(ReaderError::NotAvailable),
            region is Ok ==> (r is Ok <==> region_valid(region.unwrap()@)),
            region is Ok && r is Err ==> r == Err::<Reader, ReaderError>(
                ReaderError::CorruptLayout,
            ),
            r is Ok ==> r.unwrap().loaded_from(region.unwrap()@) && r.unwrap().wf(),
    {
        match region {
            Ok(b) => load(b),
            Err(_) => Err(ReaderError::NotAvailable),
        }
    }

    /// Whether the next update remaps the region, so that the caller hands it
    /// the bytes of a freshly opened region.
    pub fn needs_reinit(&self) -> (r: bool)
        ensures
            r == self.due_for_reinit(),
    {
        self.failed_updates >= REINIT_THRESHOLD
    }

    fn count_failure(&mut self)
        requires
            old(self).failed_updates < REINIT_THRESHOLD,
        ensures
            Reader::failed_from(*final(self), *old(self)),
    {
        self.failed_updates = self.failed_updates + 1;
    }

    /// Refreshes the snapshot. `region` is what the caller read for this call:
    /// the bytes of the current mapping, or, where `needs_reinit` holds, of a
    /// freshly opened one (`Err` where it could not be opened).
    ///
    /// An ordinary update accepts the snapshot where its timestamp moved by a
    /// polling period, and then decodes the readings anew; else it counts a
    /// failure and keeps the last good readings. An update due for reinit
    /// decodes the whole fresh region and replaces the whole state, or fails
    /// with `ReinitFailed` and changes nothing.
    pub fn update_readings(&mut self, region: Result<&[u8], SVMOpenError>) -> (r: Result<
        (),
        ReaderError,
    >)
        requires
            old(self).wf(),
        ensures
            final(self).wf(),
            Reader::update_post(*old(self), region_view(region), *final(self), r),
    {
        if self.failed_updates >= REINIT_THRESHOLD {
            let b = match region {
                Ok(b) => b,
                Err(_) => return Err(ReaderError::ReinitFailed),
            };
            return match load(b) {
                Ok(fresh) => {
                    *self = fresh;
                    Ok(())
                },
                Err(_) => Err(ReaderError::ReinitFailed),
            };
        }
        let b = match region {
            Ok(b) => b,
            Err(_) => {
                self.count_failure();
                return Err(ReaderError::NotAvailable);
            },
        };
        let h = match HWiNFOSharedMemory::read(b) {
            Some(h) => h,
            None => {
                self.count_failure();
                return Err(ReaderError::CorruptLayout);
            },
        };
        if !has_advanced(self.previous_update, h.poll_time, h.polling_period) {
            self.count_failure();
            return Err(ReaderError::StaleUpdate);
        }
        let readings = match decode_readings(b, &h) {
            Ok(rs) => rs,
            Err(e) => {
                self.count_failure();
                return Err(e);
            },
        };
        if !check_sensor_indices(b, &h, self.sensors.len()) {
            self.count_failure();
            return Err(ReaderError::CorruptLayout);
        }
        proof {
            assert forall|i: int| 0 <= i < readings@.len() implies (
            #[trigger] readings@[i]).sensor_index < self.sensors@.len() by {
                assert(le_u32(
                    b@,
                    element_start(h.reading_section_offset, h.reading_element_size, i) + 1,
                ) < self.sensors@.len());
            }
        }
        self.info = h;
        self.readings = readings;
        self.previous_update = h.poll_time;
        self.failed_updates = 0;
        Ok(())
    }
}

/// Two updates in a row on a region whose timestamp is the one last accepted,
/// with a nonzero polling period, each count exactly one failure and leave the
/// readings as they were, while the threshold is not reached in between.
pub proof fn lemma_stale_updates_count_once(
    r0: Reader,
    b: Seq<u8>,
    r1: Reader,
    res1: Result<(), ReaderError>,
    r2: Reader,
    res2: Result<(), ReaderError>,
)
    requires
        r0.failed_updates + 2 <= REINIT_THRESHOLD,
        b.len() >= HEADER_SIZE,
        header_of(b).poll_time == r0.previous_update,
        header_of(b).polling_period > 0,
        Reader::update_post(r0, Ok(b), r1, res1),
        Reader::update_post(r1, Ok(b), r2, res2),
    ensures
        r1.failed_updates == r0.failed_updates + 1,
        r2.failed_updates == r1.failed_updates + 1,
        r1.readings@ == r0.readings@,
        r2.readings@ == r1.readings@,
        res1 == Err::<(), ReaderError>(ReaderError::StaleUpdate),
        res2 == Err::<(), ReaderError>(ReaderError::StaleUpdate),
{
}

/// After three failed updates in a row from a reader with no failure counted,
/// the next update remaps: given a valid fresh region it decodes both arrays
/// anew and resets the failure count.
pub proof fn lemma_reinit_after_three_failures(
    r0: Reader,
    reg1: Result<Seq<u8>, SVMOpenError>,
    r1: Reader,
    e1: Result<(), ReaderError>,
    reg2: Result<Seq<u8>, SVMOpenError>,
    r2: Reader,
    e2: Result<(), ReaderError>,
    reg3: Result<Seq<u8>, SVMOpenError>,
    r3: Reader,
    e3: Result<(), ReaderError>,
    b4: Seq<u8>,
    r4: Reader,
    res4: Result<(), ReaderError>,
)
    requires
        r0.failed_updates == 0,
        Reader::update_post(r0, reg1, r1, e1),
        e1 is Err,
        Reader::update_post(r1, reg2, r2, e2),
        e2 is Err,
        Reader::update_post(r2, reg3, r3, e3),
        e3 is Err,
        Reader::update_post(r3, Ok(b4), r4, res4),
        region_valid(b4),
    ensures
        !r2.due_for_reinit(),
        r3.due_for_reinit(),
        res4 is Ok,
        r4.loaded_from(b4),
        r4.failed_updates == 0,
{
}

/// The bytes of what the caller read, for contracts.
pub open spec fn region_view(region: Result<&[u8], SVMOpenError>) -> Result<Seq<u8>, SVMOpenError> {
    match region {
        Ok(b) => Ok(b@),
        Err(e) => Err(e),
    }
}

} // verus!

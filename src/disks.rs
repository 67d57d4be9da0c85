use vstd::prelude::*;

use crate::guard::DiskError;

verus! {

/// What opening device `i` and asking for its length gave.
#[derive(Copy, Clone, Debug, PartialEq, Eq, Structural)]
pub enum DeviceProbe {
    /// The device could not be opened: no device has that index.
    Absent,
    /// The device opened but its length query failed.
    QueryFailed,
    /// The length the device reported, in bytes.
    Length(i64),
}

/// One present device.
#[derive(Copy, Clone, Debug, PartialEq, Eq, Structural)]
pub struct DiskRecord {
    pub index: u32,
    pub size_bytes: u64,
    pub is_system: bool,
}

/// The records that probes of indices `0, 1, ...` give, in index order: one for
/// each device that reported a positive length.
pub open spec fn records_of(probes: Seq<DeviceProbe>, system_disk: u32) -> Seq<DiskRecord>
    decreases probes.len(),
{
    if probes.len() == 0 {
        seq![]
    } else {
        let prev = records_of(probes.drop_last(), system_disk);
        let i = probes.len() - 1;
        match probes.last() {
            DeviceProbe::Length(n) => if n > 0 {
                prev.push(DiskRecord { index: i as u32, size_bytes: n as u64, is_system: i == system_disk })
            } else {
                prev
            },
            _ => prev,
        }
    }
}

/// The records whose index is not `system_disk`, in the same order.
pub open spec fn candidates_of(disks: Seq<DiskRecord>, system_disk: u32) -> Seq<DiskRecord>
    decreases disks.len(),
{
    if disks.len() == 0 {
        seq![]
    } else {
        let prev = candidates_of(disks.drop_last(), system_disk);
        if disks.last().index != system_disk { prev.push(disks.last()) } else { prev }
    }
}

/// Builds the device list from the probes of indices `0 .. probes.len()`.
/// An absent device or a failed query skips that index; a non-positive
/// length is treated as no device.
pub fn collect_disks(probes: &Vec<DeviceProbe>, system_disk: u32) -> (r: Vec<DiskRecord>)
    requires
        probes@.len() <= 0x1_0000_0000,
    ensures
        r@ == records_of(probes@, system_disk),
{
    let mut r: Vec<DiskRecord> = Vec::new();
    let mut i: usize = 0;
    while i < probes.len()
        invariant
            i <= probes@.len() <= 0x1_0000_0000,
            r@ == records_of(probes@.take(i as int), system_disk),
        decreases probes@.len() - i,
    {
        assert(probes@.take(i as int + 1).drop_last() =~= probes@.take(i as int));
        match probes[i] {
            DeviceProbe::Length(n) => {
                if n > 0 {
                    r.push(DiskRecord { index: i as u32, size_bytes: n as u64, is_system: i as u32 == system_disk });
                }
            },
            _ => {},
        }
        i = i + 1;
    }
    assert(probes@.take(probes@.len() as int) =~= probes@);
    r
}

/// Every listed device reported a positive length, and that length is its size;
/// every index that reported a positive length is listed, whatever the other
/// indices gave; indices rise strictly.
pub proof fn lemma_enumeration(probes: Seq<DeviceProbe>, system_disk: u32)
    requires
        probes.len() <= 0x1_0000_0000,
    ensures
        forall|k: int| 0 <= k < records_of(probes, system_disk).len() ==> {
            let d = #[trigger] records_of(probes, system_disk)[k];
            &&& d.index < probes.len()
            &&& probes[d.index as int] == DeviceProbe::Length(d.size_bytes as i64)
            &&& d.size_bytes > 0
            &&& d.is_system == (d.index == system_disk)
        },
        forall|k: int, l: int| 0 <= k < l < records_of(probes, system_disk).len()
            ==> records_of(probes, system_disk)[k].index < records_of(probes, system_disk)[l].index,
        forall|i: int, n: i64| 0 <= i < probes.len() && probes[i] == DeviceProbe::Length(n) && n > 0
            ==> exists|k: int| 0 <= k < records_of(probes, system_disk).len()
                && #[trigger] records_of(probes, system_disk)[k].index == i,
    decreases probes.len(),
{
    if probes.len() > 0 {
        let prev = probes.drop_last();
        lemma_enumeration(prev, system_disk);
        let rs = records_of(probes, system_disk);
        let ps = records_of(prev, system_disk);
        assert forall|i: int, n: i64| 0 <= i < probes.len() && probes[i] == DeviceProbe::Length(n) && n > 0
            implies exists|k: int| 0 <= k < rs.len() && #[trigger] rs[k].index == i by {
            if i < prev.len() {
                assert(prev[i] == probes[i]);
                let k = choose|k: int| 0 <= k < ps.len() && #[trigger] ps[k].index == i;
                assert(rs[k] == ps[k]);
            } else {
                assert(rs[ps.len() as int].index == i);
            }
        }
        assert forall|k: int| 0 <= k < rs.len() implies {
            let d = #[trigger] rs[k];
            &&& d.index < probes.len()
            &&& probes[d.index as int] == DeviceProbe::Length(d.size_bytes as i64)
            &&& d.size_bytes > 0
            &&& d.is_system == (d.index == system_disk)
        } by {
            if k < ps.len() {
                assert(rs[k] == ps[k]);
                assert(prev[ps[k].index as int] == probes[ps[k].index as int]);
            }
        }
        assert forall|k: int, l: int| 0 <= k < l < rs.len() implies rs[k].index < rs[l].index by {
            if l < ps.len() {
                assert(rs[k] == ps[k] && rs[l] == ps[l]);
            } else {
                assert(rs[k] == ps[k]);
                assert(ps[k].index < prev.len());
            }
        }
    }
}

/// The devices offered for a whole-device wipe: all but the system disk.
pub fn wipe_candidates(disks: &Vec<DiskRecord>, system_disk: u32) -> (r: Vec<DiskRecord>)
    ensures
        r@ == candidates_of(disks@, system_disk),
        forall|k: int| 0 <= k < r@.len() ==> r@[k].index != system_disk,
{
    let mut r: Vec<DiskRecord> = Vec::new();
    let mut i: usize = 0;
    while i < disks.len()
        invariant
            i <= disks@.len(),
            r@ == candidates_of(disks@.take(i as int), system_disk),
        decreases disks@.len() - i,
    {
        assert(disks@.take(i as int + 1).drop_last() =~= disks@.take(i as int));
        let d = disks[i];
        if d.index != system_disk {
            r.push(d);
        }
        i = i + 1;
    }
    assert(disks@.take(disks@.len() as int) =~= disks@);
    proof { lemma_candidates(disks@, system_disk); }
    r
}

/// The system disk is never a wipe candidate; every candidate is a listed
/// device, and every listed device other than the system disk is a candidate.
pub proof fn lemma_candidates(disks: Seq<DiskRecord>, system_disk: u32)
    ensures
        forall|k: int| 0 <= k < candidates_of(disks, system_disk).len()
            ==> (#[trigger] candidates_of(disks, system_disk)[k]).index != system_disk,
        forall|k: int| 0 <= k < candidates_of(disks, system_disk).len()
            ==> disks.contains(#[trigger] candidates_of(disks, system_disk)[k]),
        forall|k: int| 0 <= k < disks.len() && (#[trigger] disks[k]).index != system_disk
            ==> candidates_of(disks, system_disk).contains(disks[k]),
    decreases disks.len(),
{
    if disks.len() > 0 {
        let prev = disks.drop_last();
        lemma_candidates(prev, system_disk);
        let cs = candidates_of(disks, system_disk);
        let ps = candidates_of(prev, system_disk);
        assert forall|k: int| 0 <= k < cs.len() implies disks.contains(#[trigger] cs[k]) by {
            if k < ps.len() {
                assert(cs[k] == ps[k]);
                let j = choose|j: int| 0 <= j < prev.len() && prev[j] == ps[k];
                assert(disks[j] == prev[j]);
            } else {
                assert(disks[disks.len() - 1] == cs[k]);
            }
        }
        assert forall|k: int| 0 <= k < cs.len() implies (#[trigger] cs[k]).index != system_disk by {
            if k < ps.len() {
                assert(cs[k] == ps[k]);
            }
        }
        assert forall|k: int| 0 <= k < disks.len() && (#[trigger] disks[k]).index != system_disk
            implies cs.contains(disks[k]) by {
            if k < prev.len() {
                assert(prev[k] == disks[k]);
                let j = choose|j: int| 0 <= j < ps.len() && ps[j] == prev[k];
                assert(cs[j] == ps[j]);
            } else {
                assert(cs[cs.len() - 1] == disks[k]);
            }
        }
    }
}

/// The candidates of a device wipe, or why there are none: no device was
/// found, or the only ones found are the system disk.
pub fn checked_candidates(disks: &Vec<DiskRecord>, system_disk: u32) -> (r: Result<Vec<DiskRecord>, DiskError>)
    ensures
        disks@.len() == 0 ==> r == Err::<Vec<DiskRecord>, DiskError>(DiskError::NoDisks),
        disks@.len() > 0 && candidates_of(disks@, system_disk).len() == 0
            ==> r == Err::<Vec<DiskRecord>, DiskError>(DiskError::NoCandidates),
        candidates_of(disks@, system_disk).len() > 0
            ==> (r matches Ok(c) && c@ == candidates_of(disks@, system_disk)),
{
    if disks.len() == 0 {
        return Err(DiskError::NoDisks);
    }
    let c = wipe_candidates(disks, system_disk);
    if c.len() == 0 {
        Err(DiskError::NoCandidates)
    } else {
        Ok(c)
    }
}

/// Why the size of one named device could not be given.
#[derive(Copy, Clone, Debug, PartialEq, Eq, Structural)]
pub enum DeviceError {
    /// No device has that index.
    Absent,
    /// The device opened but its length query failed.
    QueryFailed,
    /// The device reported a negative length.
    NegativeLength,
}

/// The size of one device the caller asked about; unlike a scan, every
/// failure is returned.
pub fn device_size(probe: DeviceProbe) -> (r: Result<u64, DeviceError>)
    ensures
        r == (match probe {
            DeviceProbe::Absent => Err::<u64, DeviceError>(DeviceError::Absent),
            DeviceProbe::QueryFailed => Err(DeviceError::QueryFailed),
            DeviceProbe::Length(n) => if n < 0 { Err(DeviceError::NegativeLength) } else { Ok(n as u64) },
        }),
{
    match probe {
        DeviceProbe::Absent => Err(DeviceError::Absent),
        DeviceProbe::QueryFailed => Err(DeviceError::QueryFailed),
        DeviceProbe::Length(n) => if n < 0 { Err(DeviceError::NegativeLength) } else { Ok(n as u64) },
    }
}

} // verus!

use vstd::prelude::*;

use crate::info::{is_mirabox_vendor, spec_is_mirabox_vendor, Kind};

verus! {

/// A HID device as enumerated by the transport.
pub struct DeviceCandidate {
    /// USB vendor id
    pub vendor_id: u16,
    /// USB product id
    pub product_id: u16,
    /// Serial number, when the device reports one
    pub serial_number: Option<String>,
}

/// Model of a candidate: vendor id, product id and serial number.
pub open spec fn candidate_view(c: DeviceCandidate) -> (u16, u16, Option<Seq<char>>) {
    (
        c.vendor_id,
        c.product_id,
        match c.serial_number {
            Some(s) => Some(s@),
            None => None,
        },
    )
}

/// The device that a candidate stands for, if it is a known one with a
/// serial number.
pub open spec fn recognized(c: (u16, u16, Option<Seq<char>>)) -> Option<(Kind, Seq<char>)> {
    if spec_is_mirabox_vendor(c.0) && c.2 is Some && Kind::spec_from_vid_pid(c.0, c.1) is Some {
        Some((Kind::spec_from_vid_pid(c.0, c.1)->0, c.2->0))
    } else {
        None
    }
}

/// The known devices among candidates, each (kind, serial) pair once, in
/// order of first appearance.
pub open spec fn spec_selected(cs: Seq<(u16, u16, Option<Seq<char>>)>) -> Seq<(Kind, Seq<char>)>
    decreases cs.len(),
{
    if cs.len() == 0 {
        Seq::empty()
    } else {
        let prev = spec_selected(cs.drop_last());
        match recognized(cs.last()) {
            Some(d) => if prev.contains(d) {
                prev
            } else {
                prev.push(d)
            },
            None => prev,
        }
    }
}

/// The byte contents of a device list.
pub open spec fn devices_view(v: Seq<(Kind, String)>) -> Seq<(Kind, Seq<char>)> {
    v.map_values(|d: (Kind, String)| (d.0, d.1@))
}

/// Picks the known devices among the enumerated ones, as (kind, serial
/// number) pairs without repetition. Devices of an unknown vendor or
/// product, or without a serial number, are left out.
pub fn select_devices(candidates: &Vec<DeviceCandidate>) -> (r: Vec<(Kind, String)>)
    ensures
        devices_view(r@) == spec_selected(candidates@.map_values(|c: DeviceCandidate| candidate_view(c))),
{
    let ghost cs = candidates@.map_values(|c: DeviceCandidate| candidate_view(c));
    let mut out: Vec<(Kind, String)> = Vec::new();
    let mut i: usize = 0;
    while i < candidates.len()
        invariant
            cs == candidates@.map_values(|c: DeviceCandidate| candidate_view(c)),
            i <= candidates@.len(),
            devices_view(out@) == spec_selected(cs.subrange(0, i as int)),
        decreases candidates@.len() - i,
    {
        let c = &candidates[i];
        assert(cs.subrange(0, i + 1).drop_last() =~= cs.subrange(0, i as int));
        assert(cs.subrange(0, i + 1).last() == candidate_view(*c));
        if is_mirabox_vendor(c.vendor_id) {
            if let Some(serial) = &c.serial_number {
                if let Some(kind) = Kind::from_vid_pid(c.vendor_id, c.product_id) {
                    let ghost d = (kind, serial@);
                    let mut seen = false;
                    let mut j: usize = 0;
                    while j < out.len()
                        invariant
                            d == (kind, serial@),
                            j <= out@.len(),
                            seen <==> exists|k: int| 0 <= k < j && devices_view(out@)[k] == d,
                        decreases out@.len() - j,
                    {
                        let ghost dv = devices_view(out@);
                        let ghost old_seen = seen;
                        assert(dv[j as int] == (out@[j as int].0, out@[j as int].1@));
                        let same_kind = out[j].0 == kind;
                        let same_serial = out[j].1 == *serial;
                        if same_kind && same_serial {
                            seen = true;
                        }
                        proof {
                            assert(same_kind == (out@[j as int].0 == kind));
                            assert(same_serial == (out@[j as int].1@ == serial@));
                            assert((same_kind && same_serial) == (dv[j as int] == d));
                            if exists|k: int| 0 <= k < j + 1 && dv[k] == d {
                                let k = choose|k: int| 0 <= k < j + 1 && dv[k] == d;
                                if k < j {
                                    assert(old_seen);
                                }
                            }
                            if seen && !old_seen {
                                assert(dv[j as int] == d);
                            }
                        }
                        j = j + 1;
                    }
                    assert(seen <==> spec_selected(cs.subrange(0, i as int)).contains(d));
                    if !seen {
                        let ghost before = out@;
                        out.push((kind, serial.clone()));
                        assert(devices_view(out@) =~= devices_view(before).push(d));
                    }
                }
            }
        }
        i = i + 1;
    }
    assert(cs.subrange(0, candidates@.len() as int) =~= cs);
    out
}

/// Candidates that are not known devices never reach the device list:
/// every listed device is recognized from some candidate.
pub proof fn lemma_selected_are_recognized(cs: Seq<(u16, u16, Option<Seq<char>>)>, k: int)
    requires
        0 <= k < spec_selected(cs).len(),
    ensures
        exists|i: int| 0 <= i < cs.len() && recognized(cs[i]) == Some(#[trigger] spec_selected(cs)[k]),
    decreases cs.len(),
{
    let prev = spec_selected(cs.drop_last());
    if k < prev.len() {
        lemma_selected_are_recognized(cs.drop_last(), k);
        let i = choose|i: int| 0 <= i < cs.drop_last().len() && recognized(cs.drop_last()[i]) == Some(
            prev[k],
        );
        assert(cs[i] == cs.drop_last()[i]);
        assert(spec_selected(cs)[k] == prev[k]);
    } else {
        assert(recognized(cs[cs.len() - 1]) == Some(spec_selected(cs)[k]));
    }
}

} // verus!

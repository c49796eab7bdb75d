//! Registry-wide laws, proved once over the models.
//!
//! Together with the operation contracts in [`crate::home`] and
//! [`crate::devices`], these pin down the behaviour of call sequences: a room
//! just added can be looked up unchanged, a removed room stays removed,
//! inserting under an existing name keeps exactly the latest entry, and
//! switching a socket twice restores it.

use crate::devices::DeviceModel;
use crate::home::{lemma_room_add_device, lemma_room_index_unique, room_index};
use crate::home::{HomeModel, RoomModel};
use vstd::prelude::*;

verus! {

/// Adding a room and then looking that name up finds exactly the added room,
/// its device set unchanged — whether the name was fresh or replaced an
/// older room.
pub proof fn law_add_room_then_get_room(h: HomeModel, r: RoomModel)
    requires
        h.wf(),
        r.wf(),
    ensures
        h.add_room(r).wf(),
        h.add_room(r).has_room(r.name),
        h.add_room(r).room_at(r.name) == r,
{
    let h2 = h.add_room(r);
    if h.has_room(r.name) {
        let i = room_index(h.rooms, r.name);
        assert(0 <= i < h.rooms.len() && h.rooms[i].name == r.name);
        assert forall|p: int, q: int|
            0 <= p < q < h2.rooms.len() implies h2.rooms[p].name != h2.rooms[q].name by {
            assert(h.rooms[p].name != h.rooms[q].name);
        }
        assert forall|j: int| 0 <= j < h2.rooms.len() implies h2.rooms[j].wf() by {
            assert(h.rooms[j].wf());
        }
        lemma_room_index_unique(h2.rooms, r.name, i);
    } else {
        let i = h.rooms.len() as int;
        assert forall|p: int, q: int|
            0 <= p < q < h2.rooms.len() implies h2.rooms[p].name != h2.rooms[q].name by {
            if q < i {
                assert(h.rooms[p].name != h.rooms[q].name);
            }
        }
        assert forall|j: int| 0 <= j < h2.rooms.len() implies h2.rooms[j].wf() by {
            if j < i {
                assert(h.rooms[j].wf());
            }
        }
        lemma_room_index_unique(h2.rooms, r.name, i);
    }
}

/// A removed room is gone: the home stays well formed and no room of that
/// name remains, so removing it a second time must fail with `NoRoomInHome`.
pub proof fn law_removed_room_stays_removed(h: HomeModel, n: Seq<char>)
    requires
        h.wf(),
        h.has_room(n),
    ensures
        h.remove_room(n).wf(),
        !h.remove_room(n).has_room(n),
{
    let i = room_index(h.rooms, n);
    assert(0 <= i < h.rooms.len() && h.rooms[i].name == n);
    let h2 = h.remove_room(n);
    assert forall|p: int, q: int|
        0 <= p < q < h2.rooms.len() implies h2.rooms[p].name != h2.rooms[q].name by {
        let p0 = if p < i {
            p
        } else {
            p + 1
        };
        let q0 = if q < i {
            q
        } else {
            q + 1
        };
        assert(h.rooms[p0].name != h.rooms[q0].name);
    }
    assert forall|j: int| 0 <= j < h2.rooms.len() implies h2.rooms[j].wf() by {
        let j0 = if j < i {
            j
        } else {
            j + 1
        };
        assert(h.rooms[j0].wf());
    }
    assert forall|j: int| 0 <= j < h2.rooms.len() implies h2.rooms[j].name != n by {
        let j0 = if j < i {
            j
        } else {
            j + 1
        };
        assert(h2.rooms[j] == h.rooms[j0]);
        if j0 != i {
            assert(h.rooms[j0].name != h.rooms[i].name);
        }
    }
}

/// Inserting two devices under one name keeps exactly one device under that
/// name — the latest — and the second insert adds nothing to the count.
pub proof fn law_same_name_keeps_latest(r: RoomModel, d1: DeviceModel, d2: DeviceModel)
    requires
        r.wf(),
        d1.name() == d2.name(),
    ensures
        ({
            let r2 = r.add_device(d1).add_device(d2);
            &&& r2.wf()
            &&& r2.has_device(d2.name())
            &&& r2.device_at(d2.name()) == d2
            &&& r2.devices.len() == r.add_device(d1).devices.len()
        }),
{
    lemma_room_add_device(r, d1);
    lemma_room_add_device(r.add_device(d1), d2);
}

/// Switching any device twice restores its original state: a socket's
/// on/off flag is flipped back, and a thermometer is never changed at all.
pub proof fn law_switch_twice_restores(m: DeviceModel)
    ensures
        m.switched().switched() == m,
{
}

} // verus!

//! A room: a fixed-capacity sequence of device slots.
//!
//! Capacity is fixed at construction. Devices are added into the lowest
//! empty slot, removed by name, and no two occupied slots may ever hold
//! devices with the same name; that invariant is `wf` and every operation
//! preserves it.

use crate::device::Device;
use vstd::prelude::*;

verus! {

/// Whether a slot holds a device with the given name.
pub open spec fn slot_holds(s: Option<Device>, name: Seq<char>) -> bool {
    match s {
        Some(d) => d.name_spec() == name,
        None => false,
    }
}

/// The name held in an occupied slot (the empty sequence for a free one).
pub open spec fn slot_name(s: Option<Device>) -> Seq<char> {
    match s {
        Some(d) => d.name_spec(),
        None => Seq::empty(),
    }
}

/// How many slots of the sequence are occupied.
pub open spec fn occupied_count_of(s: Seq<Option<Device>>) -> nat
    decreases s.len(),
{
    if s.len() == 0 {
        0
    } else {
        occupied_count_of(s.drop_last()) + if s.last() is Some {
            1nat
        } else {
            0nat
        }
    }
}

/// The names of the occupied slots, in slot order.
pub open spec fn occupied_names_of(s: Seq<Option<Device>>) -> Seq<Seq<char>>
    decreases s.len(),
{
    if s.len() == 0 {
        Seq::empty()
    } else {
        occupied_names_of(s.drop_last()) + (match s.last() {
            Some(d) => seq![d.name_spec()],
            None => Seq::<Seq<char>>::empty(),
        })
    }
}

/// The least index of an empty slot, or the slot count when every slot is
/// occupied.
pub open spec fn first_empty_index(s: Seq<Option<Device>>) -> int
    decreases s.len(),
{
    if s.len() == 0 {
        0
    } else if s[0] is None {
        0
    } else {
        1 + first_empty_index(s.skip(1))
    }
}

/// The least index of a slot holding the given name, or the slot count when
/// no slot holds it.
pub open spec fn first_index_named(s: Seq<Option<Device>>, name: Seq<char>) -> int
    decreases s.len(),
{
    if s.len() == 0 {
        0
    } else if slot_holds(s[0], name) {
        0
    } else {
        1 + first_index_named(s.skip(1), name)
    }
}

/// What can go wrong inside one room.
#[derive(Debug, Clone, Copy, PartialEq, Eq, Structural)]
pub enum RoomError {
    /// An occupied slot already holds a device with the name being added.
    DuplicateDeviceName,
    /// Every slot is occupied.
    RoomFull,
    /// No occupied slot holds the requested name.
    DeviceNotFound,
}

/// A named, fixed-capacity container of device slots.
pub struct Room {
    pub name: String,
    pub slots: Vec<Option<Device>>,
}

impl Room {
    /// The room's capacity: the fixed number of slots.
    pub open spec fn capacity_spec(self) -> nat {
        self.slots@.len()
    }

    /// Whether some occupied slot holds the given name.
    pub open spec fn has_device_named(self, name: Seq<char>) -> bool {
        exists|i: int| 0 <= i < self.slots@.len() && slot_holds(#[trigger] self.slots@[i], name)
    }

    /// Whether some slot is free.
    pub open spec fn has_empty_slot(self) -> bool {
        exists|i: int| 0 <= i < self.slots@.len() && (#[trigger] self.slots@[i]) is None
    }

    /// Well-formed: no two occupied slots hold devices with the same name.
    pub open spec fn wf(self) -> bool {
        forall|i: int, j: int|
            0 <= i < j < self.slots@.len() && (#[trigger] self.slots@[i]) is Some
                && (#[trigger] self.slots@[j]) is Some ==> slot_name(self.slots@[i])
                != slot_name(self.slots@[j])
    }

    /// Allocates a room with the given number of empty slots.
    pub fn new(name: &str, volume: u32) -> (r: Room)
        ensures
            r.name@ == name@,
            r.slots@.len() == volume,
            forall|i: int| 0 <= i < r.slots@.len() ==> (#[trigger] r.slots@[i]) is None,
            occupied_count_of(r.slots@) == 0,
            r.wf(),
    {
        let mut slots: Vec<Option<Device>> = Vec::new();
        let mut k: u32 = 0;
        while k < volume
            invariant
                k <= volume,
                slots@.len() == k,
                forall|i: int| 0 <= i < slots@.len() ==> (#[trigger] slots@[i]) is None,
            decreases volume - k,
        {
            slots.push(None);
            k = k + 1;
        }
        proof {
            lemma_occupied_count_when_all_none(slots@);
        }
        Room { name: name.to_owned(), slots }
    }

    /// Puts the device into the lowest empty slot and hands back a handle
    /// into that slot.
    ///
    /// Fails with `DuplicateDeviceName` exactly when an occupied slot already
    /// holds the device's name, with `RoomFull` exactly when no slot is free
    /// (and the name is new); a failure leaves the room unchanged. Whatever
    /// the caller does through the handle lands back in the slot, and as long
    /// as the device keeps its name the room stays well-formed.
    pub fn add_device(&mut self, device: Device) -> (r: Result<&mut Device, RoomError>)
        requires
            old(self).wf(),
        ensures
            match r {
                Ok(m) => {
                    let i = first_empty_index(old(self).slots@);
                    &&& !old(self).has_device_named(device.name_spec())
                    &&& old(self).has_empty_slot()
                    &&& 0 <= i < old(self).slots@.len()
                    &&& old(self).slots@[i] is None
                    &&& *m == device
                    &&& final(self).name == old(self).name
                    &&& final(self).slots@ == old(self).slots@.update(i, Some(*final(m)))
                    &&& occupied_count_of(final(self).slots@) == occupied_count_of(
                        old(self).slots@,
                    ) + 1
                    &&& ((*final(m)).name_spec() == device.name_spec() ==> final(self).wf()
                        && final(self).has_device_named(device.name_spec()))
                },
                Err(e) => {
                    &&& *final(self) == *old(self)
                    &&& (e == RoomError::DuplicateDeviceName <==> old(self).has_device_named(
                        device.name_spec(),
                    ))
                    &&& (e == RoomError::RoomFull <==> !old(self).has_device_named(
                        device.name_spec(),
                    ) && !old(self).has_empty_slot())
                    &&& e != RoomError::DeviceNotFound
                },
            },
    {
        let new_name = device.name().clone();
        let n = self.slots.len();
        let mut i: usize = 0;
        while i < n
            invariant
                *self == *old(self),
                n == self.slots@.len(),
                new_name@ == device.name_spec(),
                i <= n,
                forall|j: int| 0 <= j < i ==> !slot_holds(#[trigger] self.slots@[j], device.name_spec()),
            decreases n - i,
        {
            let dup = match &self.slots[i] {
                Some(d) => d.name().eq(&new_name),
                None => false,
            };
            if dup {
                proof {
                    assert(slot_holds(self.slots@[i as int], device.name_spec()));
                }
                return Err(RoomError::DuplicateDeviceName);
            }
            i = i + 1;
        }
        let mut k: usize = 0;
        while k < n
            invariant
                *self == *old(self),
                old(self).wf(),
                n == self.slots@.len(),
                new_name@ == device.name_spec(),
                k <= n,
                forall|j: int| 0 <= j < n ==> !slot_holds(#[trigger] self.slots@[j], device.name_spec()),
                forall|j: int| 0 <= j < k ==> (#[trigger] self.slots@[j]) is Some,
            decreases n - k,
        {
            let free = match &self.slots[k] {
                Some(_) => false,
                None => true,
            };
            if free {
                proof {
                    lemma_first_empty_index_at(self.slots@, k as int);
                }
                let ghost prior = self.slots@;
                self.slots.set(k, Some(device));
                let m = match &mut self.slots[k] {
                    Some(d) => d,
                    None => {
                        proof {
                            assert(false);
                        }
                        return Err(RoomError::RoomFull);
                    },
                };
                proof {
                    assert(prior.update(k as int, Some(device)).update(
                        k as int,
                        Some(*final(m)),
                    ) =~= prior.update(k as int, Some(*final(m))));
                    lemma_occupied_count_fill(prior, k as int, *final(m));
                    assert((*final(m)).name_spec() == device.name_spec() ==> slot_holds(
                        prior.update(k as int, Some(*final(m)))[k as int],
                        device.name_spec(),
                    ));
                    assert forall|a: int, b: int|
                        (*final(m)).name_spec() == device.name_spec() && 0 <= a < b < prior.len()
                            && (#[trigger] prior.update(k as int, Some(*final(m)))[a]) is Some && (
                        #[trigger] prior.update(k as int, Some(*final(m)))[b])
                        is Some implies slot_name(prior.update(k as int, Some(*final(m)))[a])
                        != slot_name(prior.update(k as int, Some(*final(m)))[b]) by {
                        if a != k && b != k {
                            assert(prior.update(k as int, Some(*final(m)))[a] == prior[a]);
                            assert(prior.update(k as int, Some(*final(m)))[b] == prior[b]);
                        } else if a == k {
                            assert(!slot_holds(prior[b], device.name_spec()));
                        } else {
                            assert(!slot_holds(prior[a], device.name_spec()));
                        }
                    }
                }
                return Ok(m);
            }
            k = k + 1;
        }
        Err(RoomError::RoomFull)
    }

    /// Hands out the device with the given name, if an occupied slot holds
    /// it; the room is otherwise untouched, and whatever the caller does
    /// through the handle lands back in that same slot.
    pub fn find_device_by_name(&mut self, name: &str) -> (r: Option<&mut Device>)
        ensures
            match r {
                None => {
                    &&& !old(self).has_device_named(name@)
                    &&& *final(self) == *old(self)
                },
                Some(d) => {
                    let i = first_index_named(old(self).slots@, name@);
                    &&& old(self).has_device_named(name@)
                    &&& 0 <= i < old(self).slots@.len()
                    &&& old(self).slots@[i] == Some(*d)
                    &&& (*d).name_spec() == name@
                    &&& final(self).name == old(self).name
                    &&& final(self).slots@ == old(self).slots@.update(i, Some(*final(d)))
                    &&& (old(self).wf() && (*final(d)).name_spec() == name@ ==> final(self).wf())
                },
            },
    {
        let name_owned = name.to_owned();
        let n = self.slots.len();
        let mut i: usize = 0;
        while i < n
            invariant
                *self == *old(self),
                n == self.slots@.len(),
                name_owned@ == name@,
                i <= n,
                forall|j: int| 0 <= j < i ==> !slot_holds(#[trigger] self.slots@[j], name@),
            decreases n - i,
        {
            let found = match &self.slots[i] {
                Some(d) => d.name().eq(&name_owned),
                None => false,
            };
            if found {
                proof {
                    assert(slot_holds(self.slots@[i as int], name@));
                    lemma_first_index_named_at(self.slots@, name@, i as int);
                }
                return (match &mut self.slots[i] {
                    Some(d) => Some(d),
                    None => None,
                });
            }
            i = i + 1;
        }
        None
    }

    /// The names of the devices the room holds, in slot order.
    pub fn find_device_all(&self) -> (r: Vec<String>)
        ensures
            r.deep_view() == occupied_names_of(self.slots@),
            r@.len() == occupied_count_of(self.slots@),
    {
        let n = self.slots.len();
        let mut r: Vec<String> = Vec::new();
        let mut i: usize = 0;
        while i < n
            invariant
                n == self.slots@.len(),
                i <= n,
                r.deep_view() == occupied_names_of(self.slots@.take(i as int)),
                r@.len() == occupied_count_of(self.slots@.take(i as int)),
            decreases n - i,
        {
            match &self.slots[i] {
                Some(d) => {
                    r.push(d.name().clone());
                },
                None => {},
            }
            proof {
                assert(self.slots@.take(i + 1).drop_last() =~= self.slots@.take(i as int));
                assert(r.deep_view() =~= occupied_names_of(self.slots@.take(i + 1)));
            }
            i = i + 1;
        }
        proof {
            assert(self.slots@.take(n as int) =~= self.slots@);
        }
        r
    }

    /// Vacates the slot holding the given name, dropping its device.
    ///
    /// Fails with `DeviceNotFound` exactly when no occupied slot holds the
    /// name, leaving the room unchanged. After success no slot holds the
    /// name any more.
    pub fn remove_device_by_name(&mut self, name: &str) -> (r: Result<(), RoomError>)
        requires
            old(self).wf(),
        ensures
            match r {
                Ok(_) => {
                    let i = first_index_named(old(self).slots@, name@);
                    &&& old(self).has_device_named(name@)
                    &&& 0 <= i < old(self).slots@.len()
                    &&& final(self).name == old(self).name
                    &&& final(self).slots@ == old(self).slots@.update(i, None)
                    &&& !final(self).has_device_named(name@)
                    &&& occupied_count_of(final(self).slots@) + 1 == occupied_count_of(
                        old(self).slots@,
                    )
                    &&& final(self).wf()
                },
                Err(e) => {
                    &&& e == RoomError::DeviceNotFound
                    &&& !old(self).has_device_named(name@)
                    &&& *final(self) == *old(self)
                },
            },
    {
        let name_owned = name.to_owned();
        let n = self.slots.len();
        let mut i: usize = 0;
        while i < n
            invariant
                *self == *old(self),
                old(self).wf(),
                n == self.slots@.len(),
                name_owned@ == name@,
                i <= n,
                forall|j: int| 0 <= j < i ==> !slot_holds(#[trigger] self.slots@[j], name@),
            decreases n - i,
        {
            let found = match &self.slots[i] {
                Some(d) => d.name().eq(&name_owned),
                None => false,
            };
            if found {
                proof {
                    assert(slot_holds(self.slots@[i as int], name@));
                    lemma_first_index_named_at(self.slots@, name@, i as int);
                }
                self.slots.set(i, None);
                proof {
                    lemma_removed_device_not_found(*old(self), *self, name@);
                }
                return Ok(());
            }
            i = i + 1;
        }
        Err(RoomError::DeviceNotFound)
    }
}

/// A sequence of empty slots has occupied count zero.
proof fn lemma_occupied_count_when_all_none(s: Seq<Option<Device>>)
    requires
        forall|i: int| 0 <= i < s.len() ==> (#[trigger] s[i]) is None,
    ensures
        occupied_count_of(s) == 0,
    decreases s.len(),
{
    if s.len() > 0 {
        lemma_occupied_count_when_all_none(s.drop_last());
    }
}

/// Filling an empty slot raises the occupied count by one.
proof fn lemma_occupied_count_fill(s: Seq<Option<Device>>, i: int, d: Device)
    requires
        0 <= i < s.len(),
        s[i] is None,
    ensures
        occupied_count_of(s.update(i, Some(d))) == occupied_count_of(s) + 1,
    decreases s.len(),
{
    let t = s.update(i, Some(d));
    if i == s.len() - 1 {
        assert(t.drop_last() =~= s.drop_last());
    } else {
        assert(t.drop_last() =~= s.drop_last().update(i, Some(d)));
        lemma_occupied_count_fill(s.drop_last(), i, d);
    }
}

/// Vacating an occupied slot lowers the occupied count by one.
proof fn lemma_occupied_count_clear(s: Seq<Option<Device>>, i: int)
    requires
        0 <= i < s.len(),
        s[i] is Some,
    ensures
        occupied_count_of(s.update(i, None)) + 1 == occupied_count_of(s),
    decreases s.len(),
{
    let t = s.update(i, None);
    if i == s.len() - 1 {
        assert(t.drop_last() =~= s.drop_last());
    } else {
        assert(t.drop_last() =~= s.drop_last().update(i, None));
        lemma_occupied_count_clear(s.drop_last(), i);
    }
}

/// The occupied count never exceeds the slot count.
pub proof fn lemma_occupied_count_le_len(s: Seq<Option<Device>>)
    ensures
        occupied_count_of(s) <= s.len(),
    decreases s.len(),
{
    if s.len() > 0 {
        lemma_occupied_count_le_len(s.drop_last());
    }
}

/// When the occupied count reaches the slot count, every slot is occupied.
pub proof fn lemma_occupied_count_full(s: Seq<Option<Device>>)
    requires
        occupied_count_of(s) == s.len(),
    ensures
        forall|i: int| 0 <= i < s.len() ==> (#[trigger] s[i]) is Some,
    decreases s.len(),
{
    if s.len() > 0 {
        lemma_occupied_count_le_len(s.drop_last());
        lemma_occupied_count_full(s.drop_last());
        assert forall|i: int| 0 <= i < s.len() implies (#[trigger] s[i]) is Some by {
            if i < s.len() - 1 {
                assert(s.drop_last()[i] is Some);
            }
        }
    }
}

/// `first_empty_index` is the position of the first empty slot: everything
/// before it is occupied, and it lands inside the sequence exactly when an
/// empty slot exists.
proof fn lemma_first_empty_index_at(s: Seq<Option<Device>>, i: int)
    requires
        0 <= i < s.len(),
        s[i] is None,
        forall|j: int| 0 <= j < i ==> (#[trigger] s[j]) is Some,
    ensures
        first_empty_index(s) == i,
    decreases s.len(),
{
    if s[0] is None {
    } else {
        assert forall|j: int| 0 <= j < i - 1 implies (#[trigger] s.skip(1)[j]) is Some by {
            assert(s[j + 1] is Some);
        }
        assert(s.skip(1)[i - 1] is None);
        lemma_first_empty_index_at(s.skip(1), i - 1);
    }
}

/// `first_index_named` is the position of the first slot holding the name:
/// no earlier slot holds it.
proof fn lemma_first_index_named_at(s: Seq<Option<Device>>, name: Seq<char>, i: int)
    requires
        0 <= i < s.len(),
        slot_holds(s[i], name),
        forall|j: int| 0 <= j < i ==> !slot_holds(#[trigger] s[j], name),
    ensures
        first_index_named(s, name) == i,
    decreases s.len(),
{
    if slot_holds(s[0], name) {
    } else {
        assert forall|j: int| 0 <= j < i - 1 implies !slot_holds(#[trigger] s.skip(1)[j], name) by {
            assert(!slot_holds(s[j + 1], name));
        }
        assert(slot_holds(s.skip(1)[i - 1], name));
        lemma_first_index_named_at(s.skip(1), name, i - 1);
    }
}

/// When some slot holds the name, `first_index_named` lands on the first
/// one: in bounds, holding the name, with no earlier match.
pub proof fn lemma_first_index_named_props(s: Seq<Option<Device>>, name: Seq<char>)
    requires
        exists|i: int| 0 <= i < s.len() && slot_holds(#[trigger] s[i], name),
    ensures
        0 <= first_index_named(s, name) < s.len(),
        slot_holds(s[first_index_named(s, name)], name),
        forall|j: int| 0 <= j < first_index_named(s, name) ==> !slot_holds(#[trigger] s[j], name),
    decreases s.len(),
{
    let w = choose|i: int| 0 <= i < s.len() && slot_holds(#[trigger] s[i], name);
    if slot_holds(s[0], name) {
    } else {
        assert(slot_holds(s.skip(1)[w - 1], name));
        lemma_first_index_named_props(s.skip(1), name);
        let idx = first_index_named(s.skip(1), name);
        assert(s[idx + 1] == s.skip(1)[idx]);
        assert forall|j: int| 0 <= j < idx + 1 implies !slot_holds(#[trigger] s[j], name) by {
            if j > 0 {
                assert(!slot_holds(s.skip(1)[j - 1], name));
            }
        }
    }
}

/// Law: removing a device by name and then querying that name again: the
/// removal vacates the one slot that held the name, so no slot holds it any
/// more and `find_device_by_name`'s contract owes the caller `None`. The
/// room stays well-formed and its occupancy drops by one.
pub proof fn lemma_removed_device_not_found(r0: Room, r1: Room, name: Seq<char>)
    requires
        r0.wf(),
        r0.has_device_named(name),
        r1.name == r0.name,
        r1.slots@ == r0.slots@.update(first_index_named(r0.slots@, name), None),
    ensures
        !r1.has_device_named(name),
        r1.wf(),
        occupied_count_of(r1.slots@) + 1 == occupied_count_of(r0.slots@),
{
    let idx = first_index_named(r0.slots@, name);
    lemma_first_index_named_props(r0.slots@, name);
    lemma_occupied_count_clear(r0.slots@, idx);
    assert forall|j: int|
        0 <= j < r1.slots@.len() implies !slot_holds(#[trigger] r1.slots@[j], name) by {
        if j != idx {
            assert(r1.slots@[j] == r0.slots@[j]);
            if r0.slots@[j] is Some {
                if j < idx {
                    assert(slot_name(r0.slots@[j]) != slot_name(r0.slots@[idx]));
                } else {
                    assert(slot_name(r0.slots@[idx]) != slot_name(r0.slots@[j]));
                }
            }
        }
    }
    assert forall|a: int, b: int|
        0 <= a < b < r1.slots@.len() && (#[trigger] r1.slots@[a]) is Some
            && (#[trigger] r1.slots@[b]) is Some implies slot_name(r1.slots@[a]) != slot_name(
        r1.slots@[b],
    ) by {
        assert(r1.slots@[a] == r0.slots@[a]);
        assert(r1.slots@[b] == r0.slots@[b]);
    }
}

/// Law: adding a device and then a second one with the same name into one
/// room: after the first add lands in a slot, the room holds that name, so
/// `add_device`'s contract refuses the second add as a duplicate and leaves
/// the occupancy unchanged.
pub proof fn lemma_second_device_with_same_name_rejected(
    r0: Room,
    r1: Room,
    d: Device,
    idx: int,
)
    requires
        r0.wf(),
        !r0.has_device_named(d.name_spec()),
        0 <= idx < r0.slots@.len(),
        r0.slots@[idx] is None,
        r1.name == r0.name,
        r1.slots@ == r0.slots@.update(idx, Some(d)),
    ensures
        r1.wf(),
        r1.has_device_named(d.name_spec()),
        occupied_count_of(r1.slots@) == occupied_count_of(r0.slots@) + 1,
{
    lemma_occupied_count_fill(r0.slots@, idx, d);
    assert(slot_holds(r1.slots@[idx], d.name_spec()));
    assert forall|a: int, b: int|
        0 <= a < b < r1.slots@.len() && (#[trigger] r1.slots@[a]) is Some
            && (#[trigger] r1.slots@[b]) is Some implies slot_name(r1.slots@[a]) != slot_name(
        r1.slots@[b],
    ) by {
        if a != idx && b != idx {
            assert(r1.slots@[a] == r0.slots@[a]);
            assert(r1.slots@[b] == r0.slots@[b]);
        } else if a == idx {
            assert(!slot_holds(r0.slots@[b], d.name_spec()));
        } else {
            assert(!slot_holds(r0.slots@[a], d.name_spec()));
        }
    }
}

/// Law: a room holds at most as many devices as its capacity, and once the
/// occupied count reaches the capacity no empty slot remains, so the next
/// add is refused (`RoomFull` by `add_device`'s contract when the name is
/// new).
pub proof fn lemma_full_room_has_no_empty_slot(r: Room)
    requires
        occupied_count_of(r.slots@) == r.capacity_spec(),
    ensures
        !r.has_empty_slot(),
{
    lemma_occupied_count_full(r.slots@);
}

} // verus!

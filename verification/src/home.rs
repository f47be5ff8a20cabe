//! A home: a named collection of rooms with home-wide unique room names.
//!
//! The home is the sole entry point for cross-room device lookup. Its
//! invariant `wf` says that no two rooms share a name and that every room
//! is itself well-formed; every operation preserves it, and a failed
//! operation leaves the home unchanged.

use crate::device::Device;
use crate::room::Room;
use crate::room::RoomError;
use crate::room::first_index_named;
use vstd::prelude::*;

verus! {

/// What can go wrong at the home level.
#[derive(Debug, Clone, Copy, PartialEq, Eq, Structural)]
pub enum HomeError {
    /// A room with the name being added already exists.
    DuplicateRoomName,
    /// No room bears the requested name.
    RoomNotFound,
    /// Propagated from a room: an occupied slot already holds the name.
    DuplicateDeviceName,
    /// Propagated from a room: every slot is occupied.
    RoomFull,
    /// Propagated from a room: no occupied slot holds the requested name.
    DeviceNotFound,
    /// Reserved for report building; no operation produces it today.
    ReportError,
}

/// The home-level rendering of a room's error.
pub open spec fn home_error_of_spec(e: RoomError) -> HomeError {
    match e {
        RoomError::DuplicateDeviceName => HomeError::DuplicateDeviceName,
        RoomError::RoomFull => HomeError::RoomFull,
        RoomError::DeviceNotFound => HomeError::DeviceNotFound,
    }
}

/// Lifts a room's error to the home level.
pub fn home_error_of(e: RoomError) -> (r: HomeError)
    ensures
        r == home_error_of_spec(e),
{
    match e {
        RoomError::DuplicateDeviceName => HomeError::DuplicateDeviceName,
        RoomError::RoomFull => HomeError::RoomFull,
        RoomError::DeviceNotFound => HomeError::DeviceNotFound,
    }
}

/// The room names of the sequence, in order.
pub open spec fn room_names_of(s: Seq<Room>) -> Seq<Seq<char>> {
    s.map_values(|r: Room| r.name@)
}

/// The least index of a room bearing the given name, or the room count when
/// none does.
pub open spec fn first_room_index(s: Seq<Room>, name: Seq<char>) -> int
    decreases s.len(),
{
    if s.len() == 0 {
        0
    } else if s[0].name@ == name {
        0
    } else {
        1 + first_room_index(s.skip(1), name)
    }
}

/// How many rooms of the sequence bear the given name.
pub open spec fn count_rooms_named(s: Seq<Room>, name: Seq<char>) -> nat
    decreases s.len(),
{
    if s.len() == 0 {
        0
    } else {
        count_rooms_named(s.drop_last(), name) + if s.last().name@ == name {
            1nat
        } else {
            0nat
        }
    }
}

/// A named collection of rooms.
pub struct Home {
    pub name: String,
    pub rooms: Vec<Room>,
}

impl Home {
    /// Whether some room bears the given name.
    pub open spec fn has_room_named(self, name: Seq<char>) -> bool {
        exists|i: int| 0 <= i < self.rooms@.len() && (#[trigger] self.rooms@[i]).name@ == name
    }

    /// Well-formed: no two rooms share a name, and every room is itself
    /// well-formed.
    pub open spec fn wf(self) -> bool {
        &&& forall|i: int, j: int|
            0 <= i < j < self.rooms@.len() ==> (#[trigger] self.rooms@[i]).name@ != (
            #[trigger] self.rooms@[j]).name@
        &&& forall|i: int| 0 <= i < self.rooms@.len() ==> (#[trigger] self.rooms@[i]).wf()
    }

    /// Builds an empty home with the given name.
    pub fn new(name: String) -> (r: Home)
        ensures
            r.name == name,
            r.rooms@.len() == 0,
            r.wf(),
    {
        Home { name, rooms: Vec::new() }
    }

    /// Inserts the room and hands back a handle to it.
    ///
    /// Fails with `DuplicateRoomName` exactly when a room with that name
    /// already exists, leaving the home unchanged. On success the room is
    /// appended; whatever the caller does through the handle lands back in
    /// that place, and as long as the room keeps its name and stays
    /// well-formed the home does too.
    pub fn add_room(&mut self, room: Room) -> (r: Result<&mut Room, HomeError>)
        requires
            old(self).wf(),
            room.wf(),
        ensures
            match r {
                Ok(m) => {
                    &&& !old(self).has_room_named(room.name@)
                    &&& *m == room
                    &&& final(self).name == old(self).name
                    &&& final(self).rooms@ == old(self).rooms@.push(*final(m))
                    &&& (final(m).wf() && final(m).name@ == room.name@ ==> final(self).wf()
                        && final(self).has_room_named(room.name@))
                },
                Err(e) => {
                    &&& e == HomeError::DuplicateRoomName
                    &&& old(self).has_room_named(room.name@)
                    &&& *final(self) == *old(self)
                },
            },
    {
        let n = self.rooms.len();
        let mut i: usize = 0;
        while i < n
            invariant
                *self == *old(self),
                n == self.rooms@.len(),
                i <= n,
                forall|j: int| 0 <= j < i ==> (#[trigger] self.rooms@[j]).name@ != room.name@,
            decreases n - i,
        {
            if self.rooms[i].name.eq(&room.name) {
                return Err(HomeError::DuplicateRoomName);
            }
            i = i + 1;
        }
        let ghost room_g = room;
        let ghost before = self.rooms@;
        self.rooms.push(room);
        let m = &mut self.rooms[n];
        proof {
            assert(before.push(room_g).update(n as int, *final(m)) =~= before.push(*final(m)));
        }
        Ok(m)
    }

    /// Hands out the room bearing the given name, if one exists; the home is
    /// otherwise untouched, and whatever the caller does through the handle
    /// lands back in the same place.
    pub fn find_room_by_name(&mut self, name: &str) -> (r: Option<&mut Room>)
        ensures
            match r {
                None => {
                    &&& !old(self).has_room_named(name@)
                    &&& *final(self) == *old(self)
                },
                Some(m) => {
                    let i = first_room_index(old(self).rooms@, name@);
                    &&& old(self).has_room_named(name@)
                    &&& 0 <= i < old(self).rooms@.len()
                    &&& *m == old(self).rooms@[i]
                    &&& (*m).name@ == name@
                    &&& final(self).name == old(self).name
                    &&& final(self).rooms@ == old(self).rooms@.update(i, *final(m))
                    &&& (old(self).wf() && final(m).wf() && final(m).name@ == name@
                        ==> final(self).wf())
                },
            },
    {
        let name_owned = name.to_owned();
        let n = self.rooms.len();
        let mut i: usize = 0;
        while i < n
            invariant
                *self == *old(self),
                n == self.rooms@.len(),
                name_owned@ == name@,
                i <= n,
                forall|j: int| 0 <= j < i ==> (#[trigger] self.rooms@[j]).name@ != name@,
            decreases n - i,
        {
            if self.rooms[i].name.eq(&name_owned) {
                proof {
                    lemma_first_room_index_at(self.rooms@, name@, i as int);
                }
                return Some(&mut self.rooms[i]);
            }
            i = i + 1;
        }
        None
    }

    /// The names of all rooms, in the home's storage order.
    pub fn find_room_all(&self) -> (r: Vec<String>)
        ensures
            r.deep_view() == room_names_of(self.rooms@),
            r@.len() == self.rooms@.len(),
    {
        let n = self.rooms.len();
        let mut r: Vec<String> = Vec::new();
        let mut i: usize = 0;
        while i < n
            invariant
                n == self.rooms@.len(),
                i <= n,
                r@.len() == i,
                forall|j: int| 0 <= j < i ==> (#[trigger] r@[j])@ == self.rooms@[j].name@,
            decreases n - i,
        {
            r.push(self.rooms[i].name.clone());
            i = i + 1;
        }
        proof {
            assert forall|j: int| 0 <= j < n implies r.deep_view()[j] == room_names_of(
                self.rooms@,
            )[j] by {
                assert(r.deep_view()[j] == r@[j]@);
            }
            assert(r.deep_view() =~= room_names_of(self.rooms@));
        }
        r
    }

    /// Removes the room bearing the given name, dropping it and every device
    /// it owns.
    ///
    /// Fails with `RoomNotFound` exactly when no room bears the name,
    /// leaving the home unchanged. After success no room bears the name any
    /// more, so nothing the room owned can be reached again.
    pub fn remove_room_by_name(&mut self, name: &str) -> (r: Result<(), HomeError>)
        requires
            old(self).wf(),
        ensures
            match r {
                Ok(_) => {
                    let i = first_room_index(old(self).rooms@, name@);
                    &&& old(self).has_room_named(name@)
                    &&& 0 <= i < old(self).rooms@.len()
                    &&& final(self).name == old(self).name
                    &&& final(self).rooms@ == old(self).rooms@.remove(i)
                    &&& !final(self).has_room_named(name@)
                    &&& final(self).wf()
                },
                Err(e) => {
                    &&& e == HomeError::RoomNotFound
                    &&& !old(self).has_room_named(name@)
                    &&& *final(self) == *old(self)
                },
            },
    {
        let name_owned = name.to_owned();
        let n = self.rooms.len();
        let mut i: usize = 0;
        while i < n
            invariant
                *self == *old(self),
                old(self).wf(),
                n == self.rooms@.len(),
                name_owned@ == name@,
                i <= n,
                forall|j: int| 0 <= j < i ==> (#[trigger] self.rooms@[j]).name@ != name@,
            decreases n - i,
        {
            if self.rooms[i].name.eq(&name_owned) {
                proof {
                    lemma_first_room_index_at(self.rooms@, name@, i as int);
                }
                self.rooms.remove(i);
                proof {
                    lemma_removed_room_unreachable(*old(self), *self, name@);
                }
                return Ok(());
            }
            i = i + 1;
        }
        Err(HomeError::RoomNotFound)
    }

    /// Removes the named device from the named room.
    ///
    /// Fails with `RoomNotFound` exactly when no room bears the room name,
    /// and with the room's own error, lifted, when the room refuses; a
    /// failure leaves the home unchanged.
    pub fn remove_device_by_name(&mut self, room_name: &str, device_name: &str) -> (r: Result<
        (),
        HomeError,
    >)
        requires
            old(self).wf(),
        ensures
            match r {
                Ok(_) => {
                    let i = first_room_index(old(self).rooms@, room_name@);
                    let j = first_index_named(old(self).rooms@[i].slots@, device_name@);
                    &&& old(self).has_room_named(room_name@)
                    &&& 0 <= i < old(self).rooms@.len()
                    &&& old(self).rooms@[i].has_device_named(device_name@)
                    &&& final(self).name == old(self).name
                    &&& final(self).rooms@.len() == old(self).rooms@.len()
                    &&& final(self).rooms@[i].name == old(self).rooms@[i].name
                    &&& final(self).rooms@[i].slots@ == old(self).rooms@[i].slots@.update(j, None)
                    &&& !final(self).rooms@[i].has_device_named(device_name@)
                    &&& forall|k: int|
                        0 <= k < final(self).rooms@.len() && k != i ==> final(self).rooms@[k]
                            == old(self).rooms@[k]
                    &&& final(self).wf()
                },
                Err(e) => {
                    &&& final(self).name == old(self).name
                    &&& final(self).rooms@ == old(self).rooms@
                    &&& (e == HomeError::RoomNotFound <==> !old(self).has_room_named(room_name@))
                    &&& (e == HomeError::DeviceNotFound <==> old(self).has_room_named(room_name@)
                        && !old(self).rooms@[first_room_index(old(self).rooms@, room_name@)]
                        .has_device_named(device_name@))
                    &&& (e == HomeError::RoomNotFound || e == HomeError::DeviceNotFound)
                },
            },
    {
        let room_name_owned = room_name.to_owned();
        let n = self.rooms.len();
        let mut i: usize = 0;
        while i < n
            invariant
                *self == *old(self),
                old(self).wf(),
                n == self.rooms@.len(),
                room_name_owned@ == room_name@,
                i <= n,
                forall|j: int| 0 <= j < i ==> (#[trigger] self.rooms@[j]).name@ != room_name@,
            decreases n - i,
        {
            if self.rooms[i].name.eq(&room_name_owned) {
                proof {
                    lemma_first_room_index_at(self.rooms@, room_name@, i as int);
                }
                let ghost prior = self.rooms@;
                let mut room = self.rooms.remove(i);
                let res = room.remove_device_by_name(device_name);
                self.rooms.insert(i, room);
                proof {
                    assert(self.rooms@ =~= prior.update(i as int, self.rooms@[i as int]));
                }
                match res {
                    Ok(_) => {
                        return Ok(());
                    },
                    Err(e) => {
                        proof {
                            assert(self.rooms@ =~= prior);
                        }
                        return Err(home_error_of(e));
                    },
                }
            }
            i = i + 1;
        }
        Err(HomeError::RoomNotFound)
    }

    /// A snapshot report over the devices of the home. Building the report
    /// is delegated to an outside layer; this minimal form always succeeds
    /// with a placeholder line.
    pub fn device_report(&self) -> (r: Result<String, HomeError>)
        ensures
            match r {
                Ok(s) => s@ == "-"@,
                Err(_) => false,
            },
    {
        Ok("-".to_owned())
    }

    /// Hands out the device with the given name inside the room with the
    /// given name. A missing room and a missing device both come back as
    /// `None`, undistinguished; the home is otherwise untouched, and
    /// whatever the caller does through the handle lands back in the same
    /// slot.
    pub fn find_device_by_name(&mut self, room_name: &str, device_name: &str) -> (r: Option<
        &mut Device,
    >)
        ensures
            match r {
                None => {
                    &&& (!old(self).has_room_named(room_name@) || !old(self).rooms@[
                        first_room_index(old(self).rooms@, room_name@)
                    ].has_device_named(device_name@))
                    &&& final(self).name == old(self).name
                    &&& final(self).rooms@ == old(self).rooms@
                },
                Some(d) => {
                    let i = first_room_index(old(self).rooms@, room_name@);
                    let j = first_index_named(old(self).rooms@[i].slots@, device_name@);
                    &&& old(self).has_room_named(room_name@)
                    &&& 0 <= i < old(self).rooms@.len()
                    &&& old(self).rooms@[i].has_device_named(device_name@)
                    &&& old(self).rooms@[i].slots@[j] == Some(*d)
                    &&& (*d).name_spec() == device_name@
                    &&& final(self).name == old(self).name
                    &&& final(self).rooms@.len() == old(self).rooms@.len()
                    &&& final(self).rooms@[i].name == old(self).rooms@[i].name
                    &&& final(self).rooms@[i].slots@ == old(self).rooms@[i].slots@.update(
                        j,
                        Some(*final(d)),
                    )
                    &&& forall|k: int|
                        0 <= k < final(self).rooms@.len() && k != i ==> final(self).rooms@[k]
                            == old(self).rooms@[k]
                    &&& (old(self).wf() && (*final(d)).name_spec() == device_name@
                        ==> final(self).wf())
                },
            },
    {
        let room_name_owned = room_name.to_owned();
        let n = self.rooms.len();
        let mut i: usize = 0;
        while i < n
            invariant
                *self == *old(self),
                n == self.rooms@.len(),
                room_name_owned@ == room_name@,
                i <= n,
                forall|j: int| 0 <= j < i ==> (#[trigger] self.rooms@[j]).name@ != room_name@,
            decreases n - i,
        {
            if self.rooms[i].name.eq(&room_name_owned) {
                proof {
                    lemma_first_room_index_at(self.rooms@, room_name@, i as int);
                }
                let ghost prior = self.rooms@;
                let room = &mut self.rooms[i];
                let found = room.find_device_by_name(device_name);
                match found {
                    Some(d) => {
                        return Some(d);
                    },
                    None => {
                        proof {
                            assert(prior.update(i as int, prior[i as int]) =~= prior);
                        }
                        return None;
                    },
                }
            }
            i = i + 1;
        }
        None
    }
}

/// `first_room_index` is the position of the first room bearing the name:
/// no earlier room bears it.
proof fn lemma_first_room_index_at(s: Seq<Room>, name: Seq<char>, i: int)
    requires
        0 <= i < s.len(),
        s[i].name@ == name,
        forall|j: int| 0 <= j < i ==> (#[trigger] s[j]).name@ != name,
    ensures
        first_room_index(s, name) == i,
    decreases s.len(),
{
    if s[0].name@ == name {
    } else {
        assert forall|j: int| 0 <= j < i - 1 implies (#[trigger] s.skip(1)[j]).name@ != name by {
            assert(s[j + 1].name@ != name);
        }
        assert(s.skip(1)[i - 1].name@ == name);
        lemma_first_room_index_at(s.skip(1), name, i - 1);
    }
}

/// A sequence without the name counts zero rooms of that name.
proof fn lemma_count_rooms_named_zero(s: Seq<Room>, name: Seq<char>)
    requires
        forall|i: int| 0 <= i < s.len() ==> (#[trigger] s[i]).name@ != name,
    ensures
        count_rooms_named(s, name) == 0,
    decreases s.len(),
{
    if s.len() > 0 {
        lemma_count_rooms_named_zero(s.drop_last(), name);
    }
}

/// When some room bears the name, `first_room_index` lands on the first one:
/// in bounds, bearing the name, with no earlier match.
pub proof fn lemma_first_room_index_props(s: Seq<Room>, name: Seq<char>)
    requires
        exists|i: int| 0 <= i < s.len() && (#[trigger] s[i]).name@ == name,
    ensures
        0 <= first_room_index(s, name) < s.len(),
        s[first_room_index(s, name)].name@ == name,
        forall|j: int| 0 <= j < first_room_index(s, name) ==> (#[trigger] s[j]).name@ != name,
    decreases s.len(),
{
    let w = choose|i: int| 0 <= i < s.len() && (#[trigger] s[i]).name@ == name;
    if s[0].name@ == name {
    } else {
        assert(s.skip(1)[w - 1].name@ == name);
        lemma_first_room_index_props(s.skip(1), name);
        let idx = first_room_index(s.skip(1), name);
        assert(s[idx + 1] == s.skip(1)[idx]);
        assert forall|j: int| 0 <= j < idx + 1 implies (#[trigger] s[j]).name@ != name by {
            if j > 0 {
                assert(s.skip(1)[j - 1].name@ != name);
            }
        }
    }
}

/// Law: removing a room removes everything it owned: once the one room
/// bearing the name is gone, no room bears it, so a room lookup and every
/// device lookup through that room name are owed `None` by their contracts.
/// The home stays well-formed.
pub proof fn lemma_removed_room_unreachable(h0: Home, h1: Home, name: Seq<char>)
    requires
        h0.wf(),
        h0.has_room_named(name),
        h1.name == h0.name,
        h1.rooms@ == h0.rooms@.remove(first_room_index(h0.rooms@, name)),
    ensures
        !h1.has_room_named(name),
        h1.wf(),
        h1.rooms@.len() + 1 == h0.rooms@.len(),
{
    let idx = first_room_index(h0.rooms@, name);
    lemma_first_room_index_props(h0.rooms@, name);
    assert forall|j: int|
        0 <= j < h1.rooms@.len() implies (#[trigger] h1.rooms@[j]).name@ != name by {
        if j < idx {
            assert(h1.rooms@[j] == h0.rooms@[j]);
            assert(h0.rooms@[j].name@ != h0.rooms@[idx].name@);
        } else {
            assert(h1.rooms@[j] == h0.rooms@[j + 1]);
            assert(h0.rooms@[idx].name@ != h0.rooms@[j + 1].name@);
        }
    }
    assert forall|i: int, j: int|
        0 <= i < j < h1.rooms@.len() implies (#[trigger] h1.rooms@[i]).name@ != (
    #[trigger] h1.rooms@[j]).name@ by {
        let i0: int = if i < idx {
            i
        } else {
            i + 1
        };
        let j0: int = if j < idx {
            j
        } else {
            j + 1
        };
        assert(h1.rooms@[i] == h0.rooms@[i0]);
        assert(h1.rooms@[j] == h0.rooms@[j0]);
    }
    assert forall|i: int| 0 <= i < h1.rooms@.len() implies (#[trigger] h1.rooms@[i]).wf() by {
        if i < idx {
            assert(h1.rooms@[i] == h0.rooms@[i]);
        } else {
            assert(h1.rooms@[i] == h0.rooms@[i + 1]);
        }
    }
}

/// Law: adding a room and then a second room with the same name: after the
/// first add the home holds that name, so `add_room`'s contract refuses the
/// second add and leaves the home unchanged — exactly one room with that
/// name remains.
pub proof fn lemma_second_room_with_same_name_rejected(
    h0: Home,
    h1: Home,
    first: Room,
    second: Room,
)
    requires
        h0.wf(),
        first.wf(),
        second.name@ == first.name@,
        !h0.has_room_named(first.name@),
        h1.name == h0.name,
        h1.rooms@ == h0.rooms@.push(first),
    ensures
        h1.wf(),
        h1.has_room_named(second.name@),
        count_rooms_named(h1.rooms@, second.name@) == 1,
{
    let n = h0.rooms@.len() as int;
    assert(h1.rooms@[n] == first);
    assert forall|i: int, j: int|
        0 <= i < j < h1.rooms@.len() implies (#[trigger] h1.rooms@[i]).name@ != (
    #[trigger] h1.rooms@[j]).name@ by {
        if j < n {
            assert(h1.rooms@[i] == h0.rooms@[i]);
            assert(h1.rooms@[j] == h0.rooms@[j]);
        } else {
            assert(h1.rooms@[i] == h0.rooms@[i]);
        }
    }
    assert forall|i: int| 0 <= i < h1.rooms@.len() implies (#[trigger] h1.rooms@[i]).wf() by {
        if i < n {
            assert(h1.rooms@[i] == h0.rooms@[i]);
        }
    }
    lemma_count_rooms_named_zero(h0.rooms@, first.name@);
    assert(h1.rooms@.drop_last() =~= h0.rooms@);
}

} // verus!

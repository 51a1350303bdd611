//! The house registry: rooms keyed by name, each room holding devices keyed
//! by the device's own name, with text reports over the contents.
//!
//! A house is modelled as the sequence of its rooms in insertion order; each
//! room is its name together with the sequence of its devices in insertion
//! order. Room names are unique across the house, and device names are
//! unique within a room.

use vstd::prelude::*;
use vstd::string::StringExecFns;

use crate::smartdevice::DynamicSmartDevice;
use crate::smartdevice::SmartDevice;

verus! {

/// What a house holds: for each room in insertion order, its name and its
/// devices in insertion order.
pub type HouseModel = Seq<(Seq<char>, Seq<DynamicSmartDevice>)>;

/// The failures that the registry reports. Every failure is returned as a
/// value; no operation panics, retries or changes the house on failure.
#[derive(Debug)]
pub enum SmartHouseError {
    /// A room with this name is already present.
    RoomAlreadyExists(String),
    /// No room with this name is present.
    RoomNotFound(String),
    /// The room is present but holds no device with this name.
    DeviceNotFound(String),
    /// The room already holds a device with this name.
    DeviceAlreadyExists(String),
}

/// The human-readable line for a failure.
pub open spec fn error_text(e: SmartHouseError) -> Seq<char> {
    match e {
        SmartHouseError::RoomAlreadyExists(n) => "room "@ + n@ + " already exists"@,
        SmartHouseError::RoomNotFound(n) => "room "@ + n@ + " does not found"@,
        SmartHouseError::DeviceNotFound(n) => "device "@ + n@ + " does not found"@,
        SmartHouseError::DeviceAlreadyExists(n) => "device "@ + n@ + " already exists"@,
    }
}

impl SmartHouseError {
    /// Renders the failure as its human-readable line.
    pub fn message(&self) -> (r: String)
        ensures
            r@ == error_text(*self),
    {
        let mut s = String::new();
        match self {
            SmartHouseError::RoomAlreadyExists(n) => {
                s.append("room ");
                s.append(n.as_str());
                s.append(" already exists");
            },
            SmartHouseError::RoomNotFound(n) => {
                s.append("room ");
                s.append(n.as_str());
                s.append(" does not found");
            },
            SmartHouseError::DeviceNotFound(n) => {
                s.append("device ");
                s.append(n.as_str());
                s.append(" does not found");
            },
            SmartHouseError::DeviceAlreadyExists(n) => {
                s.append("device ");
                s.append(n.as_str());
                s.append(" already exists");
            },
        }
        proof {
            assert(s@ =~= error_text(*self));
        }
        s
    }
}

/// Whether the house holds a room with this name.
pub open spec fn has_room(m: HouseModel, name: Seq<char>) -> bool {
    exists|i: int| 0 <= i < m.len() && (#[trigger] m[i]).0 == name
}

/// The position of the room with this name (unique in a valid house).
pub open spec fn room_at(m: HouseModel, name: Seq<char>) -> int {
    choose|i: int| 0 <= i < m.len() && (#[trigger] m[i]).0 == name
}

/// The devices of the room with this name.
pub open spec fn room_devices(m: HouseModel, name: Seq<char>) -> Seq<DynamicSmartDevice> {
    m[room_at(m, name)].1
}

/// Whether the sequence holds a device with this name.
pub open spec fn has_device(ds: Seq<DynamicSmartDevice>, name: Seq<char>) -> bool {
    exists|i: int| 0 <= i < ds.len() && (#[trigger] ds[i]).spec_name() == name
}

/// The device with this name (unique in a valid room).
pub open spec fn device_at(ds: Seq<DynamicSmartDevice>, name: Seq<char>) -> DynamicSmartDevice {
    ds[choose|i: int| 0 <= i < ds.len() && (#[trigger] ds[i]).spec_name() == name]
}

/// Room names are unique across the house.
pub open spec fn rooms_unique(m: HouseModel) -> bool {
    forall|i: int, j: int| 0 <= i < j < m.len() ==> (#[trigger] m[i]).0 != (#[trigger] m[j]).0
}

/// Device names are unique within the sequence.
pub open spec fn devices_unique(ds: Seq<DynamicSmartDevice>) -> bool {
    forall|i: int, j: int|
        0 <= i < j < ds.len() ==> (#[trigger] ds[i]).spec_name() != (#[trigger] ds[j]).spec_name()
}

/// Validity of a house: unique room names, and unique device names within
/// each room.
pub open spec fn house_wf(m: HouseModel) -> bool {
    &&& rooms_unique(m)
    &&& forall|i: int| 0 <= i < m.len() ==> devices_unique((#[trigger] m[i]).1)
}

/// Whether `add_room` succeeds on this house and name.
pub open spec fn room_addable(m: HouseModel, name: Seq<char>) -> bool {
    !has_room(m, name)
}

/// The house after a successful `add_room`: one more room, empty, last.
pub open spec fn with_room(m: HouseModel, name: Seq<char>) -> HouseModel {
    m.push((name, Seq::empty()))
}

/// Whether `add_device` succeeds on this house, room name and device.
pub open spec fn device_addable(m: HouseModel, room: Seq<char>, d: DynamicSmartDevice) -> bool {
    has_room(m, room) && !has_device(room_devices(m, room), d.spec_name())
}

/// The house after a successful `add_device`: the named room holds the
/// device as its last entry; everything else is unchanged.
pub open spec fn with_device(m: HouseModel, room: Seq<char>, d: DynamicSmartDevice) -> HouseModel {
    m.update(room_at(m, room), (room, room_devices(m, room).push(d)))
}

/// The report line of one device.
pub open spec fn device_line(d: DynamicSmartDevice) -> Seq<char> {
    "    "@ + d.spec_describe() + "\n"@
}

/// The report lines of a sequence of devices, in order.
pub open spec fn devices_text(ds: Seq<DynamicSmartDevice>) -> Seq<char>
    decreases ds.len(),
{
    if ds.len() == 0 {
        Seq::empty()
    } else {
        devices_text(ds.drop_last()) + device_line(ds.last())
    }
}

/// The report block of one room: its header line, then its device lines.
pub open spec fn room_text(room: (Seq<char>, Seq<DynamicSmartDevice>)) -> Seq<char> {
    "Room: "@ + room.0 + " Devices list:\n"@ + devices_text(room.1)
}

/// The full report: the blocks of all rooms, in order.
pub open spec fn report_text(m: HouseModel) -> Seq<char>
    decreases m.len(),
{
    if m.len() == 0 {
        Seq::empty()
    } else {
        report_text(m.drop_last()) + room_text(m.last())
    }
}

/// The single-device report that `get_device_info` returns.
pub open spec fn info_text(d: DynamicSmartDevice, room: Seq<char>) -> Seq<char> {
    "it is report for ["@ + d.spec_describe() + "] in room ["@ + room + "]"@
}

/// The registry: it exclusively owns every room and every device added to it.
pub struct SmartHouse {
    rooms: Vec<(String, Vec<DynamicSmartDevice>)>,
}

impl View for SmartHouse {
    type V = HouseModel;

    closed spec fn view(&self) -> HouseModel {
        Seq::new(self.rooms@.len(), |i: int| (self.rooms@[i].0@, self.rooms@[i].1@))
    }
}

impl Default for SmartHouse {
    /// An empty house.
    fn default() -> (r: SmartHouse)
        ensures
            r@ == Seq::<(Seq<char>, Seq<DynamicSmartDevice>)>::empty(),
    {
        let r = SmartHouse { rooms: Vec::new() };
        proof {
            assert(r@ =~= Seq::<(Seq<char>, Seq<DynamicSmartDevice>)>::empty());
        }
        r
    }
}

impl SmartHouse {
    #[verifier::type_invariant]
    spec fn wf(&self) -> bool {
        house_wf(self@)
    }

    /// The position of the room with this name, if present.
    fn room_index(&self, name: &String) -> (r: Option<usize>)
        ensures
            match r {
                Some(i) => i < self@.len() && self@[i as int].0 == name@,
                None => !has_room(self@, name@),
            },
    {
        let n = self.rooms.len();
        let mut i: usize = 0;
        while i < n
            invariant
                n == self.rooms@.len(),
                i <= n,
                forall|k: int| 0 <= k < i ==> (#[trigger] self@[k]).0 != name@,
            decreases n - i,
        {
            if self.rooms[i].0 == *name {
                return Some(i);
            }
            i = i + 1;
        }
        None
    }

    /// The position of the device with this name, if present.
    fn device_index(ds: &Vec<DynamicSmartDevice>, name: &String) -> (r: Option<usize>)
        ensures
            match r {
                Some(j) => j < ds@.len() && ds@[j as int].spec_name() == name@,
                None => !has_device(ds@, name@),
            },
    {
        let n = ds.len();
        let mut j: usize = 0;
        while j < n
            invariant
                n == ds@.len(),
                j <= n,
                forall|k: int| 0 <= k < j ==> (#[trigger] ds@[k]).spec_name() != name@,
            decreases n - j,
        {
            let dev_name: String = ds[j].get_name().to_owned();
            if dev_name == *name {
                return Some(j);
            }
            j = j + 1;
        }
        None
    }

    /// Creates an empty room keyed by `name`. Fails, and changes nothing,
    /// exactly when the key is already present.
    pub fn add_room(&mut self, name: &str) -> (r: Result<(), SmartHouseError>)
        ensures
            match r {
                Ok(()) => room_addable(old(self)@, name@) && final(self)@ == with_room(
                    old(self)@,
                    name@,
                ),
                Err(SmartHouseError::RoomAlreadyExists(n)) => n@ == name@ && !room_addable(
                    old(self)@,
                    name@,
                ) && final(self)@ == old(self)@,
                Err(_) => false,
            },
            house_wf(final(self)@),
    {
        proof {
            use_type_invariant(&*self);
        }
        let name_owned: String = name.to_owned();
        match self.room_index(&name_owned) {
            Some(_) => Err(SmartHouseError::RoomAlreadyExists(name_owned)),
            None => {
                let ghost m0 = self@;
                let mut rooms: Vec<(String, Vec<DynamicSmartDevice>)> = Vec::new();
                std::mem::swap(&mut rooms, &mut self.rooms);
                proof {
                    assert(self@ =~= Seq::<(Seq<char>, Seq<DynamicSmartDevice>)>::empty());
                }
                rooms.push((name_owned, Vec::new()));
                proof {
                    let h1 = (SmartHouse { rooms: rooms });
                    assert(h1@ =~= with_room(m0, name@));
                    lemma_with_room_wf(m0, name@);
                    assert(h1.wf());
                }
                self.rooms = rooms;
                proof {
                    assert(self@ =~= with_room(m0, name@));
                }
                Ok(())
            },
        }
    }

    /// Transfers ownership of `device` into the named room, keyed by the
    /// device's own name. Fails, and changes nothing, exactly when the room
    /// is absent or the room already holds a device with that name.
    pub fn add_device(&mut self, room: &str, device: DynamicSmartDevice) -> (r: Result<
        (),
        SmartHouseError,
    >)
        ensures
            match r {
                Ok(()) => device_addable(old(self)@, room@, device) && final(self)@ == with_device(
                    old(self)@,
                    room@,
                    device,
                ),
                Err(SmartHouseError::RoomNotFound(n)) => n@ == room@ && !has_room(
                    old(self)@,
                    room@,
                ) && final(self)@ == old(self)@,
                Err(SmartHouseError::DeviceAlreadyExists(n)) => n@ == device.spec_name()
                    && has_room(old(self)@, room@) && has_device(
                    room_devices(old(self)@, room@),
                    device.spec_name(),
                ) && final(self)@ == old(self)@,
                Err(_) => false,
            },
            house_wf(final(self)@),
    {
        proof {
            use_type_invariant(&*self);
        }
        let room_owned: String = room.to_owned();
        match self.room_index(&room_owned) {
            None => Err(SmartHouseError::RoomNotFound(room_owned)),
            Some(i) => {
                proof {
                    lemma_room_at_unique(self@, room@, i as int);
                }
                let dev_name: String = device.get_name().to_owned();
                match Self::device_index(&self.rooms[i].1, &dev_name) {
                    Some(_) => Err(SmartHouseError::DeviceAlreadyExists(dev_name)),
                    None => {
                        let ghost m0 = self@;
                        let mut rooms: Vec<(String, Vec<DynamicSmartDevice>)> = Vec::new();
                        std::mem::swap(&mut rooms, &mut self.rooms);
                        proof {
                            assert(self@ =~= Seq::<(Seq<char>, Seq<DynamicSmartDevice>)>::empty());
                        }
                        let (room_name, mut devs) = rooms.remove(i);
                        devs.push(device);
                        rooms.insert(i, (room_name, devs));
                        proof {
                            let h1 = (SmartHouse { rooms: rooms });
                            assert(h1@ =~= with_device(m0, room@, device));
                            lemma_with_device_wf(m0, room@, device);
                            assert(h1.wf());
                        }
                        self.rooms = rooms;
                        proof {
                            assert(self@ =~= with_device(m0, room@, device));
                        }
                        Ok(())
                    },
                }
            },
        }
    }

    /// A snapshot of the room names, in insertion order.
    pub fn get_rooms(&self) -> (r: Vec<String>)
        ensures
            r@.len() == self@.len(),
            forall|i: int| 0 <= i < r@.len() ==> (#[trigger] r@[i])@ == self@[i].0,
    {
        let n = self.rooms.len();
        let mut names: Vec<String> = Vec::new();
        let mut i: usize = 0;
        while i < n
            invariant
                n == self.rooms@.len(),
                i <= n,
                names@.len() == i,
                forall|k: int| 0 <= k < i ==> (#[trigger] names@[k])@ == self@[k].0,
            decreases n - i,
        {
            names.push(self.rooms[i].0.clone());
            i = i + 1;
        }
        names
    }

    /// A read-only view of the named room's devices. Fails exactly when the
    /// room is absent.
    pub fn devices(&self, room: &str) -> (r: Result<&Vec<DynamicSmartDevice>, SmartHouseError>)
        ensures
            match r {
                Ok(ds) => has_room(self@, room@) && ds@ == room_devices(self@, room@),
                Err(SmartHouseError::RoomNotFound(n)) => n@ == room@ && !has_room(self@, room@),
                Err(_) => false,
            },
    {
        proof {
            use_type_invariant(&*self);
        }
        let room_owned: String = room.to_owned();
        match self.room_index(&room_owned) {
            None => Err(SmartHouseError::RoomNotFound(room_owned)),
            Some(i) => {
                proof {
                    lemma_room_at_unique(self@, room@, i as int);
                }
                Ok(&self.rooms[i].1)
            },
        }
    }

    /// The single-device report. Fails exactly when the room is absent
    /// (`RoomNotFound`) or the room holds no device with that name
    /// (`DeviceNotFound`).
    pub fn get_device_info(&self, room: &str, device_name: &str) -> (r: Result<
        String,
        SmartHouseError,
    >)
        ensures
            match r {
                Ok(s) => has_room(self@, room@) && has_device(
                    room_devices(self@, room@),
                    device_name@,
                ) && s@ == info_text(device_at(room_devices(self@, room@), device_name@), room@),
                Err(SmartHouseError::RoomNotFound(n)) => n@ == room@ && !has_room(self@, room@),
                Err(SmartHouseError::DeviceNotFound(n)) => n@ == device_name@ && has_room(
                    self@,
                    room@,
                ) && !has_device(room_devices(self@, room@), device_name@),
                Err(_) => false,
            },
    {
        proof {
            use_type_invariant(&*self);
        }
        let room_owned: String = room.to_owned();
        match self.room_index(&room_owned) {
            None => Err(SmartHouseError::RoomNotFound(room_owned)),
            Some(i) => {
                proof {
                    lemma_room_at_unique(self@, room@, i as int);
                }
                let device_owned: String = device_name.to_owned();
                match Self::device_index(&self.rooms[i].1, &device_owned) {
                    None => Err(SmartHouseError::DeviceNotFound(device_owned)),
                    Some(j) => {
                        proof {
                            lemma_device_at_unique(self@[i as int].1, device_name@, j as int);
                        }
                        let mut s = String::new();
                        s.append("it is report for [");
                        let t = self.rooms[i].1[j].describe();
                        s.append(t.as_str());
                        s.append("] in room [");
                        s.append(room);
                        s.append("]");
                        proof {
                            assert(s@ =~= info_text(
                                device_at(room_devices(self@, room@), device_name@),
                                room@,
                            ));
                        }
                        Ok(s)
                    },
                }
            },
        }
    }

    /// The full report: for every room in insertion order, a header line
    /// followed by one indented line per device in insertion order. An empty
    /// house yields the empty string.
    pub fn create_full_report(&self) -> (r: String)
        ensures
            r@ == report_text(self@),
    {
        let mut result = String::new();
        let n = self.rooms.len();
        proof {
            assert(result@ =~= report_text(self@.take(0)));
        }
        let mut i: usize = 0;
        while i < n
            invariant
                n == self.rooms@.len(),
                i <= n,
                result@ == report_text(self@.take(i as int)),
            decreases n - i,
        {
            result.append("Room: ");
            result.append(self.rooms[i].0.as_str());
            result.append(" Devices list:\n");
            let ds = &self.rooms[i].1;
            let m = ds.len();
            let ghost header = report_text(self@.take(i as int)) + "Room: "@ + self@[i as int].0
                + " Devices list:\n"@;
            proof {
                assert(result@ =~= header + devices_text(self@[i as int].1.take(0)));
            }
            let mut j: usize = 0;
            while j < m
                invariant
                    n == self.rooms@.len(),
                    i < n,
                    m == ds@.len(),
                    ds@ == self@[i as int].1,
                    j <= m,
                    result@ == header + devices_text(self@[i as int].1.take(j as int)),
                decreases m - j,
            {
                result.append("    ");
                let t = ds[j].describe();
                result.append(t.as_str());
                result.append("\n");
                proof {
                    let dseq = self@[i as int].1;
                    assert(dseq.take(j + 1).drop_last() =~= dseq.take(j as int));
                    assert(dseq.take(j + 1).last() == dseq[j as int]);
                    assert(result@ =~= header + devices_text(dseq.take(j + 1)));
                }
                j = j + 1;
            }
            proof {
                let dseq = self@[i as int].1;
                assert(dseq.take(m as int) =~= dseq);
                assert(self@.take(i + 1).drop_last() =~= self@.take(i as int));
                assert(self@.take(i + 1).last() == self@[i as int]);
                assert(result@ =~= report_text(self@.take(i + 1)));
            }
            i = i + 1;
        }
        proof {
            assert(self@.take(n as int) =~= self@);
        }
        result
    }
}

/// Law: in a house with unique room names, the room found at position `i`
/// is the room that `room_at` names.
pub proof fn lemma_room_at_unique(m: HouseModel, name: Seq<char>, i: int)
    requires
        rooms_unique(m),
        0 <= i < m.len(),
        m[i].0 == name,
    ensures
        has_room(m, name),
        room_at(m, name) == i,
        room_devices(m, name) == m[i].1,
{
    assert(has_room(m, name));
    let j = room_at(m, name);
    assert(0 <= j < m.len() && m[j].0 == name);
    if i < j {
        assert(m[i].0 != m[j].0);
    } else if j < i {
        assert(m[j].0 != m[i].0);
    }
}

/// Law: in a room with unique device names, the device found at position
/// `j` is the device that `device_at` names.
pub proof fn lemma_device_at_unique(ds: Seq<DynamicSmartDevice>, name: Seq<char>, j: int)
    requires
        devices_unique(ds),
        0 <= j < ds.len(),
        ds[j].spec_name() == name,
    ensures
        has_device(ds, name),
        device_at(ds, name) == ds[j],
{
    assert(has_device(ds, name));
    let k = choose|i: int| 0 <= i < ds.len() && (#[trigger] ds[i]).spec_name() == name;
    if j < k {
        assert(ds[j].spec_name() != ds[k].spec_name());
    } else if k < j {
        assert(ds[k].spec_name() != ds[j].spec_name());
    }
}

/// Law: on a house without the room, adding it succeeds; adding the same
/// name again is then refused; and the house holds one more room — exactly
/// one room when it started empty.
pub proof fn lemma_add_room_twice(m: HouseModel, name: Seq<char>)
    requires
        room_addable(m, name),
    ensures
        !room_addable(with_room(m, name), name),
        with_room(m, name).len() == m.len() + 1,
        m.len() == 0 ==> with_room(m, name).len() == 1,
{
    let m1 = with_room(m, name);
    assert(m1[m.len() as int].0 == name);
    assert(has_room(m1, name));
}

/// Law: a valid house stays valid when a fresh room is added.
pub proof fn lemma_with_room_wf(m: HouseModel, name: Seq<char>)
    requires
        house_wf(m),
        room_addable(m, name),
    ensures
        house_wf(with_room(m, name)),
{
    let m1 = with_room(m, name);
    assert forall|i: int, j: int| 0 <= i < j < m1.len() implies (#[trigger] m1[i]).0 != (
    #[trigger] m1[j]).0 by {
        if j == m.len() {
            assert(m1[i] == m[i]);
            if m[i].0 == name {
                assert(has_room(m, name));
            }
        }
    }
    assert(devices_unique(m1[m.len() as int].1));
}

/// Law: a valid house stays valid when a device with a fresh name is added
/// to an existing room.
pub proof fn lemma_with_device_wf(m: HouseModel, room: Seq<char>, d: DynamicSmartDevice)
    requires
        house_wf(m),
        device_addable(m, room, d),
    ensures
        house_wf(with_device(m, room, d)),
{
    let i = room_at(m, room);
    assert(0 <= i < m.len() && m[i].0 == room);
    let ds = m[i].1;
    let m1 = with_device(m, room, d);
    assert forall|p: int, q: int| 0 <= p < q < m1.len() implies (#[trigger] m1[p]).0 != (
    #[trigger] m1[q]).0 by {
        assert(m1[p].0 == m[p].0);
        assert(m1[q].0 == m[q].0);
    }
    assert forall|k: int| 0 <= k < m1.len() implies devices_unique((#[trigger] m1[k]).1) by {
        if k == i {
            let ds1 = ds.push(d);
            assert forall|p: int, q: int| 0 <= p < q < ds1.len() implies (
            #[trigger] ds1[p]).spec_name() != (#[trigger] ds1[q]).spec_name() by {
                if q == ds.len() {
                    assert(ds1[p] == ds[p]);
                    if ds[p].spec_name() == d.spec_name() {
                        assert(has_device(ds, d.spec_name()));
                    }
                }
            }
        }
    }
}

/// Law: in a valid house, two devices with distinct fresh names both enter
/// the same room in turn, and a third device that reuses the first name is
/// then refused.
pub proof fn lemma_distinct_devices(
    m: HouseModel,
    room: Seq<char>,
    a: DynamicSmartDevice,
    b: DynamicSmartDevice,
)
    requires
        house_wf(m),
        has_room(m, room),
        !has_device(room_devices(m, room), a.spec_name()),
        !has_device(room_devices(m, room), b.spec_name()),
        a.spec_name() != b.spec_name(),
    ensures
        device_addable(m, room, a),
        device_addable(with_device(m, room, a), room, b),
        forall|c: DynamicSmartDevice|
            c.spec_name() == a.spec_name() ==> !device_addable(
                with_device(with_device(m, room, a), room, b),
                room,
                c,
            ),
{
    let i = room_at(m, room);
    assert(0 <= i < m.len() && m[i].0 == room);
    let ds = m[i].1;
    let m1 = with_device(m, room, a);
    lemma_with_device_wf(m, room, a);
    assert(m1[i].0 == room);
    lemma_room_at_unique(m1, room, i);
    assert(room_devices(m1, room) == ds.push(a));
    assert forall|k: int| 0 <= k < ds.push(a).len() implies (#[trigger] ds.push(
        a,
    )[k]).spec_name() != b.spec_name() by {
        if k < ds.len() {
            assert(ds.push(a)[k] == ds[k]);
            if ds[k].spec_name() == b.spec_name() {
                assert(has_device(ds, b.spec_name()));
            }
        }
    }
    assert(device_addable(m1, room, b));
    let m2 = with_device(m1, room, b);
    lemma_with_device_wf(m1, room, b);
    lemma_room_at_unique(m2, room, i);
    assert(room_devices(m2, room) == ds.push(a).push(b));
    assert(ds.push(a).push(b)[ds.len() as int].spec_name() == a.spec_name());
    assert(has_device(ds.push(a).push(b), a.spec_name()));
}

/// Law: the report of an empty house is the empty string.
pub proof fn lemma_empty_report(m: HouseModel)
    requires
        m.len() == 0,
    ensures
        report_text(m) == Seq::<char>::empty(),
{
}

} // verus!

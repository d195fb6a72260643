//! Dispatch of addressed accesses to the devices mapped into the address
//! space.
//!
//! Regions are searched from the most recently mapped to the oldest, and the
//! first one that contains the address is selected: a later mapping shadows
//! an earlier one where they overlap.

use vstd::prelude::*;
use crate::device::Device;
use crate::fault::Fault;
use crate::memory::Memory;
use crate::screen_device::ScreenDevice;

verus! {

/// A device that can be mapped into the address space.
pub enum MappedDevice {
    Memory(Memory),
    Screen(ScreenDevice),
}

/// The state of a mapped device.
pub enum DeviceState {
    /// The bytes that a memory holds.
    Memory(Seq<u8>),
    /// The bytes that a screen has yet to send.
    Screen(Seq<u8>),
}

impl View for MappedDevice {
    type V = DeviceState;

    open spec fn view(&self) -> DeviceState {
        match self {
            MappedDevice::Memory(memory) => DeviceState::Memory(memory@),
            MappedDevice::Screen(screen) => DeviceState::Screen(screen@),
        }
    }
}

impl Device for MappedDevice {
    open spec fn spec_get_u8(state: DeviceState, address: usize) -> Result<u8, Fault> {
        match state {
            DeviceState::Memory(bytes) => Memory::spec_get_u8(bytes, address),
            DeviceState::Screen(pending) => ScreenDevice::spec_get_u8(pending, address),
        }
    }

    open spec fn spec_get_u16(state: DeviceState, address: usize) -> Result<u16, Fault> {
        match state {
            DeviceState::Memory(bytes) => Memory::spec_get_u16(bytes, address),
            DeviceState::Screen(pending) => ScreenDevice::spec_get_u16(pending, address),
        }
    }

    open spec fn spec_set_u8(
        state: DeviceState,
        address: usize,
        value: u8,
    ) -> (DeviceState, Result<(), Fault>) {
        match state {
            DeviceState::Memory(bytes) => {
                let (after, result) = Memory::spec_set_u8(bytes, address, value);
                (DeviceState::Memory(after), result)
            },
            DeviceState::Screen(pending) => {
                let (after, result) = ScreenDevice::spec_set_u8(pending, address, value);
                (DeviceState::Screen(after), result)
            },
        }
    }

    open spec fn spec_set_u16(
        state: DeviceState,
        address: usize,
        value: u16,
    ) -> (DeviceState, Result<(), Fault>) {
        match state {
            DeviceState::Memory(bytes) => {
                let (after, result) = Memory::spec_set_u16(bytes, address, value);
                (DeviceState::Memory(after), result)
            },
            DeviceState::Screen(pending) => {
                let (after, result) = ScreenDevice::spec_set_u16(pending, address, value);
                (DeviceState::Screen(after), result)
            },
        }
    }

    fn get_u16(&self, address: usize) -> (result: Result<u16, Fault>) {
        match self {
            MappedDevice::Memory(memory) => memory.get_u16(address),
            MappedDevice::Screen(screen) => screen.get_u16(address),
        }
    }

    fn get_u8(&self, address: usize) -> (result: Result<u8, Fault>) {
        match self {
            MappedDevice::Memory(memory) => memory.get_u8(address),
            MappedDevice::Screen(screen) => screen.get_u8(address),
        }
    }

    fn set_u16(&mut self, address: usize, value: u16) -> (result: Result<(), Fault>) {
        match self {
            MappedDevice::Memory(memory) => memory.set_u16(address, value),
            MappedDevice::Screen(screen) => screen.set_u16(address, value),
        }
    }

    fn set_u8(&mut self, address: usize, value: u8) -> (result: Result<(), Fault>) {
        match self {
            MappedDevice::Memory(memory) => memory.set_u8(address, value),
            MappedDevice::Screen(screen) => screen.set_u8(address, value),
        }
    }
}

/// A device together with the range of addresses at which it is mapped.
pub struct Region {
    device: MappedDevice,
    start: u16,
    end: u16,
    remap: bool,
}

/// The state of a region: that of its device, the first and the last address
/// of the range, and whether the device is handed offsets from `start`
/// rather than the addresses themselves.
pub struct RegionState {
    pub device: DeviceState,
    pub start: u16,
    pub end: u16,
    pub remap: bool,
}

impl View for Region {
    type V = RegionState;

    closed spec fn view(&self) -> RegionState {
        RegionState { device: self.device@, start: self.start, end: self.end, remap: self.remap }
    }
}

impl RegionState {
    /// Whether `address` lies in the range of the region, both ends included.
    pub open spec fn contains(self, address: u16) -> bool {
        self.start <= address <= self.end
    }

    /// The address that the device is handed for `address`.
    pub open spec fn local(self, address: u16) -> usize {
        if self.remap {
            (address - self.start) as usize
        } else {
            address as usize
        }
    }

    /// The region with another state of its device.
    pub open spec fn with_device(self, device: DeviceState) -> RegionState {
        RegionState { device, start: self.start, end: self.end, remap: self.remap }
    }
}

/// The index of the first region from `from` on that contains `address`.
pub open spec fn first_match(regions: Seq<RegionState>, address: u16, from: int) -> Option<int>
    decreases regions.len() - from,
{
    if from < 0 || from >= regions.len() {
        None
    } else if regions[from].contains(address) {
        Some(from)
    } else {
        first_match(regions, address, from + 1)
    }
}

/// The index of the region that is selected for `address`: the first one,
/// in the order of the search, that contains it.
pub open spec fn selected(regions: Seq<RegionState>, address: u16) -> Option<int> {
    first_match(regions, address, 0)
}

/// What reading a byte at `address` returns.
pub open spec fn read_u8(regions: Seq<RegionState>, address: u16) -> Result<u8, Fault> {
    match selected(regions, address) {
        Some(i) => MappedDevice::spec_get_u8(regions[i].device, regions[i].local(address)),
        None => Err(Fault::Unmapped { address }),
    }
}

/// What reading a word at `address` returns.
pub open spec fn read_u16(regions: Seq<RegionState>, address: u16) -> Result<u16, Fault> {
    match selected(regions, address) {
        Some(i) => MappedDevice::spec_get_u16(regions[i].device, regions[i].local(address)),
        None => Err(Fault::Unmapped { address }),
    }
}

/// The regions after writing a byte at `address`, and what the write returns.
pub open spec fn write_u8(
    regions: Seq<RegionState>,
    address: u16,
    value: u8,
) -> (Seq<RegionState>, Result<(), Fault>) {
    match selected(regions, address) {
        Some(i) => {
            let (device, result) = MappedDevice::spec_set_u8(
                regions[i].device,
                regions[i].local(address),
                value,
            );
            (regions.update(i, regions[i].with_device(device)), result)
        },
        None => (regions, Err(Fault::Unmapped { address })),
    }
}

/// The regions after writing a word at `address`, and what the write returns.
pub open spec fn write_u16(
    regions: Seq<RegionState>,
    address: u16,
    value: u16,
) -> (Seq<RegionState>, Result<(), Fault>) {
    match selected(regions, address) {
        Some(i) => {
            let (device, result) = MappedDevice::spec_set_u16(
                regions[i].device,
                regions[i].local(address),
                value,
            );
            (regions.update(i, regions[i].with_device(device)), result)
        },
        None => (regions, Err(Fault::Unmapped { address })),
    }
}

/// The regions after mapping one more: it is searched first.
pub open spec fn mapped(regions: Seq<RegionState>, region: RegionState) -> Seq<RegionState> {
    seq![region] + regions
}

/// What a search from `from` finds is the first region from there on that
/// contains the address, and it finds nothing only where no such region is.
pub proof fn lemma_first_match(regions: Seq<RegionState>, address: u16, from: int)
    requires
        0 <= from <= regions.len(),
    ensures
        match first_match(regions, address, from) {
            Some(i) => from <= i < regions.len() && regions[i].contains(address) && forall|j: int|
                from <= j < i ==> !(#[trigger] regions[j]).contains(address),
            None => forall|j: int|
                from <= j < regions.len() ==> !(#[trigger] regions[j]).contains(address),
        },
    decreases regions.len() - from,
{
    if from < regions.len() && !regions[from].contains(address) {
        lemma_first_match(regions, address, from + 1);
    }
}

/// The selected region contains the address and no region that is searched
/// before it does; no region is selected only where none contains the
/// address.
pub proof fn lemma_selected(regions: Seq<RegionState>, address: u16)
    ensures
        match selected(regions, address) {
            Some(i) => 0 <= i < regions.len() && regions[i].contains(address) && forall|j: int|
                0 <= j < i ==> !(#[trigger] regions[j]).contains(address),
            None => forall|j: int|
                0 <= j < regions.len() ==> !(#[trigger] regions[j]).contains(address),
        },
{
    lemma_first_match(regions, address, 0);
}

/// Searching the regions with one more in front, from `from + 1` on, finds
/// what searching the regions without it finds from `from` on.
proof fn lemma_first_match_shift(
    regions: Seq<RegionState>,
    region: RegionState,
    address: u16,
    from: int,
)
    requires
        0 <= from <= regions.len(),
    ensures
        first_match(mapped(regions, region), address, from + 1) == match first_match(
            regions,
            address,
            from,
        ) {
            Some(i) => Some(i + 1),
            None => None,
        },
    decreases regions.len() - from,
{
    let after = mapped(regions, region);
    if from < regions.len() {
        assert(after[from + 1] == regions[from]);
        if !regions[from].contains(address) {
            lemma_first_match_shift(regions, region, address, from + 1);
        }
    }
}

/// A region shadows those mapped before it: once it is mapped, it is
/// selected for every address that it contains, whatever was mapped there,
/// and every other address selects the region that it selected before.
pub proof fn lemma_shadowing(regions: Seq<RegionState>, region: RegionState, address: u16)
    ensures
        region.contains(address) ==> selected(mapped(regions, region), address) == Some(0int),
        region.contains(address) ==> mapped(regions, region)[0] == region,
        !region.contains(address) ==> selected(mapped(regions, region), address) == match selected(
            regions,
            address,
        ) {
            Some(i) => Some(i + 1),
            None => None,
        },
        forall|i: int| 0 <= i < regions.len() ==> #[trigger] mapped(regions, region)[i + 1] == regions[i],
{
    let after = mapped(regions, region);
    assert(after[0] == region);
    if !region.contains(address) {
        lemma_first_match_shift(regions, region, address, 0);
    }
}

/// Whether the word at `address` is held by a memory: the region selected
/// for the address is one, and it holds both bytes of the word.
pub open spec fn holds_word(regions: Seq<RegionState>, address: u16) -> bool {
    match selected(regions, address) {
        Some(i) => regions[i].device matches DeviceState::Memory(bytes) && regions[i].local(address)
            + 1 < bytes.len(),
        None => false,
    }
}

/// Whether the words at `a` and `b` share no byte.
pub open spec fn apart(a: u16, b: u16) -> bool {
    a - b >= 2 || b - a >= 2
}

/// A search finds the same region after the devices have changed, as long
/// as the ranges have not.
proof fn lemma_first_match_same_ranges(
    regions: Seq<RegionState>,
    after: Seq<RegionState>,
    address: u16,
    from: int,
)
    requires
        0 <= from <= regions.len(),
        after.len() == regions.len(),
        forall|i: int|
            0 <= i < regions.len() ==> (#[trigger] after[i]).start == regions[i].start && after[i].end
                == regions[i].end,
    ensures
        first_match(after, address, from) == first_match(regions, address, from),
    decreases regions.len() - from,
{
    if from < regions.len() {
        assert(after[from].start == regions[from].start && after[from].end == regions[from].end);
        if !regions[from].contains(address) {
            lemma_first_match_same_ranges(regions, after, address, from + 1);
        }
    }
}

/// A write changes at most the device of the region that is selected for
/// its address: every address selects the same region after it as before.
pub proof fn lemma_write_keeps_selection(
    regions: Seq<RegionState>,
    address: u16,
    value: u16,
    other: u16,
)
    ensures
        selected(write_u16(regions, address, value).0, other) == selected(regions, other),
        write_u16(regions, address, value).0.len() == regions.len(),
{
    lemma_selected(regions, address);
    lemma_first_match_same_ranges(regions, write_u16(regions, address, value).0, other, 0);
}

/// A word that a memory holds can be written, is read back as it was
/// written, and stays held by the memory.
pub proof fn lemma_word_round_trip(regions: Seq<RegionState>, address: u16, value: u16)
    requires
        holds_word(regions, address),
    ensures
        write_u16(regions, address, value).1 is Ok,
        read_u16(write_u16(regions, address, value).0, address) == Ok::<u16, Fault>(value),
        holds_word(write_u16(regions, address, value).0, address),
{
    lemma_selected(regions, address);
    lemma_write_keeps_selection(regions, address, value, address);
    let i = selected(regions, address)->0;
    let bytes = regions[i].device->Memory_0;
    crate::memory::lemma_memory_round_trip(bytes, regions[i].local(address), value);
}

/// Writing a word that a memory holds leaves every other word that a
/// memory holds as it was, provided the two share no byte.
pub proof fn lemma_write_elsewhere(regions: Seq<RegionState>, address: u16, value: u16, other: u16)
    requires
        holds_word(regions, address),
        holds_word(regions, other),
        apart(address, other),
    ensures
        read_u16(write_u16(regions, address, value).0, other) == read_u16(regions, other),
        holds_word(write_u16(regions, address, value).0, other),
{
    lemma_selected(regions, address);
    lemma_selected(regions, other);
    lemma_write_keeps_selection(regions, address, value, other);
}

/// What the screens among the first `count` regions have yet to send, in
/// the order in which the regions are searched.
pub open spec fn pending_output(regions: Seq<RegionState>, count: int) -> Seq<u8>
    decreases count,
{
    if count <= 0 || count > regions.len() {
        Seq::empty()
    } else {
        pending_output(regions, count - 1) + match regions[count - 1].device {
            DeviceState::Screen(pending) => pending,
            DeviceState::Memory(_) => Seq::empty(),
        }
    }
}

/// A region once its screen, if it is one, has nothing left to send.
pub open spec fn sent(region: RegionState) -> RegionState {
    match region.device {
        DeviceState::Screen(_) => region.with_device(DeviceState::Screen(Seq::empty())),
        DeviceState::Memory(_) => region,
    }
}

/// The regions once the screens among them have nothing left to send.
pub open spec fn all_sent(regions: Seq<RegionState>) -> Seq<RegionState> {
    Seq::new(regions.len(), |i: int| sent(regions[i]))
}

/// The devices of the machine, each mapped at a range of addresses.
pub struct MemoryMapper {
    regions: Vec<Region>,
}

impl View for MemoryMapper {
    type V = Seq<RegionState>;

    /// The regions in the order in which they are searched.
    closed spec fn view(&self) -> Seq<RegionState> {
        Seq::new(self.regions@.len(), |i: int| self.regions@[i]@)
    }
}

impl MemoryMapper {
    /// A mapper with no region.
    pub fn new() -> (mapper: MemoryMapper)
        ensures
            mapper@ == Seq::<RegionState>::empty(),
    {
        let mapper = MemoryMapper { regions: Vec::new() };
        assert(mapper@ =~= Seq::<RegionState>::empty());
        mapper
    }

    /// Maps `device` at the addresses from `start` to `end`, both included,
    /// in front of the regions mapped so far. With `remap` the device is
    /// handed offsets from `start`, without it the addresses themselves.
    pub fn map(&mut self, device: MappedDevice, start: u16, end: u16, remap: bool)
        ensures
            final(self)@ == mapped(
                old(self)@,
                (RegionState { device: device@, start, end, remap }),
            ),
    {
        let region = Region { device, start, end, remap };
        self.regions.insert(0, region);
        assert(final(self)@ =~= mapped(
            old(self)@,
            (RegionState { device: device@, start, end, remap }),
        ));
    }

    /// Finds the region for `address` and returns its index in the order of
    /// the search.
    pub fn find_region(&self, address: u16) -> (result: Result<usize, Fault>)
        ensures
            match result {
                Ok(index) => selected(self@, address) == Some(index as int),
                Err(fault) => selected(self@, address) is None && fault == (Fault::Unmapped {
                    address,
                }),
            },
    {
        let mut index: usize = 0;
        while index < self.regions.len()
            invariant
                index <= self.regions.len(),
                self@.len() == self.regions.len(),
                selected(self@, address) == first_match(self@, address, index as int),
            decreases self.regions.len() - index,
        {
            let region = &self.regions[index];
            assert(self@[index as int] == region@);
            if address >= region.start && address <= region.end {
                return Ok(index);
            }
            index += 1;
        }
        Err(Fault::Unmapped { address })
    }

    /// Returns the word at `address`.
    pub fn get_u16(&mut self, address: u16) -> (result: Result<u16, Fault>)
        ensures
            result == read_u16(old(self)@, address),
            final(self)@ == old(self)@,
    {
        let index = match self.find_region(address) {
            Ok(index) => index,
            Err(fault) => { return Err(fault); },
        };
        proof {
            lemma_selected(self@, address);
        }
        let region = &self.regions[index];
        assert(self@[index as int] == region@);
        let local: usize = if region.remap {
            (address - region.start) as usize
        } else {
            address as usize
        };
        region.device.get_u16(local)
    }

    /// Returns the byte at `address`.
    pub fn get_u8(&mut self, address: u16) -> (result: Result<u8, Fault>)
        ensures
            result == read_u8(old(self)@, address),
            final(self)@ == old(self)@,
    {
        let index = match self.find_region(address) {
            Ok(index) => index,
            Err(fault) => { return Err(fault); },
        };
        proof {
            lemma_selected(self@, address);
        }
        let region = &self.regions[index];
        assert(self@[index as int] == region@);
        let local: usize = if region.remap {
            (address - region.start) as usize
        } else {
            address as usize
        };
        region.device.get_u8(local)
    }

    /// Sets the word at `address` to `value`.
    pub fn set_u16(&mut self, address: u16, value: u16) -> (result: Result<(), Fault>)
        ensures
            final(self)@ == write_u16(old(self)@, address, value).0,
            result == write_u16(old(self)@, address, value).1,
    {
        let index = match self.find_region(address) {
            Ok(index) => index,
            Err(fault) => { return Err(fault); },
        };
        proof {
            lemma_selected(self@, address);
        }
        assert(self@[index as int] == self.regions[index as int]@);
        let region = &mut self.regions[index];
        let local: usize = if region.remap {
            (address - region.start) as usize
        } else {
            address as usize
        };
        let result = region.device.set_u16(local, value);
        assert(final(self)@ =~= write_u16(old(self)@, address, value).0);
        result
    }

    /// Sets the byte at `address` to `value`.
    pub fn set_u8(&mut self, address: u16, value: u8) -> (result: Result<(), Fault>)
        ensures
            final(self)@ == write_u8(old(self)@, address, value).0,
            result == write_u8(old(self)@, address, value).1,
    {
        let index = match self.find_region(address) {
            Ok(index) => index,
            Err(fault) => { return Err(fault); },
        };
        proof {
            lemma_selected(self@, address);
        }
        assert(self@[index as int] == self.regions[index as int]@);
        let region = &mut self.regions[index];
        let local: usize = if region.remap {
            (address - region.start) as usize
        } else {
            address as usize
        };
        let result = region.device.set_u8(local, value);
        assert(final(self)@ =~= write_u8(old(self)@, address, value).0);
        result
    }

    /// Hands out the bytes that the mapped screens have yet to send to the
    /// terminal, in the order in which the regions are searched, and
    /// forgets them.
    pub fn take_output(&mut self) -> (output: Vec<u8>)
        ensures
            output@ == pending_output(old(self)@, old(self)@.len() as int),
            final(self)@ == all_sent(old(self)@),
    {
        let mut output: Vec<u8> = Vec::new();
        let mut index: usize = 0;
        while index < self.regions.len()
            invariant
                index <= self.regions.len(),
                self@.len() == old(self)@.len(),
                self@.len() == self.regions.len(),
                output@ == pending_output(old(self)@, index as int),
                forall|i: int| 0 <= i < index ==> self@[i] == sent(old(self)@[i]),
                forall|i: int| index <= i < self@.len() ==> self@[i] == old(self)@[i],
            decreases self.regions.len() - index,
        {
            let ghost before = self@;
            assert(self@[index as int] == self.regions[index as int]@);
            let region = &mut self.regions[index];
            match &mut region.device {
                MappedDevice::Screen(screen) => {
                    let mut pending = screen.take_output();
                    output.append(&mut pending);
                },
                MappedDevice::Memory(_) => {},
            }
            assert(self@ =~= before.update(index as int, sent(before[index as int])));
            index += 1;
        }
        assert(final(self)@ =~= all_sent(old(self)@));
        output
    }
}

} // verus!

//! The memory of the machine: a flat array of bytes, read and written in
//! little-endian order, and the bus that lays the devices over it.

use vstd::prelude::*;
use crate::mmio_device::{device_models, DeviceModel, MmioDevice, MmioDeviceInterface};
use crate::semantics::{accessible, Width};

verus! {

/// One mebibyte.
pub const DEFAULT_RAM_SIZE: u32 = 0x10_0000;

/// The byte at `addr`.
pub open spec fn read8(mem: Seq<u8>, addr: int) -> u8 {
    mem[addr]
}

/// The halfword whose low byte is at `addr` and whose high byte follows.
pub open spec fn read16(mem: Seq<u8>, addr: int) -> u16 {
    (mem[addr] + 0x100 * mem[addr + 1]) as u16
}

/// The word whose four bytes start at `addr`, lowest first.
pub open spec fn read32(mem: Seq<u8>, addr: int) -> u32 {
    (mem[addr] + 0x100 * mem[addr + 1] + 0x1_0000 * mem[addr + 2] + 0x100_0000 * mem[addr
        + 3]) as u32
}

/// The memory after a byte was stored at `addr`.
pub open spec fn write8(mem: Seq<u8>, addr: int, value: u8) -> Seq<u8> {
    mem.update(addr, value)
}

/// The memory after a halfword was stored at `addr`, low byte first.
pub open spec fn write16(mem: Seq<u8>, addr: int, value: u16) -> Seq<u8> {
    mem.update(addr, (value % 0x100) as u8).update(addr + 1, (value / 0x100) as u8)
}

/// The memory after a word was stored at `addr`, lowest byte first.
pub open spec fn write32(mem: Seq<u8>, addr: int, value: u32) -> Seq<u8> {
    mem.update(addr, (value % 0x100) as u8).update(
        addr + 1,
        (value / 0x100 % 0x100) as u8,
    ).update(addr + 2, (value / 0x1_0000 % 0x100) as u8).update(
        addr + 3,
        (value / 0x100_0000) as u8,
    )
}

/// A byte that was stored is the byte that is loaded, and the store touches
/// no other byte.
pub proof fn lemma_store8_load8(mem: Seq<u8>, addr: int, value: u8)
    requires
        0 <= addr < mem.len(),
    ensures
        read8(write8(mem, addr, value), addr) == value,
        write8(mem, addr, value).len() == mem.len(),
        forall|other: int|
            0 <= other < mem.len() && other != addr ==> write8(mem, addr, value)[other]
                == mem[other],
{
}

/// A halfword that was stored is the halfword that is loaded, and the store
/// touches no byte but its two.
pub proof fn lemma_store16_load16(mem: Seq<u8>, addr: int, value: u16)
    requires
        0 <= addr,
        addr + 1 < mem.len(),
    ensures
        read16(write16(mem, addr, value), addr) == value,
        write16(mem, addr, value).len() == mem.len(),
        forall|other: int|
            0 <= other < mem.len() && !(addr <= other <= addr + 1) ==> write16(
                mem,
                addr,
                value,
            )[other] == mem[other],
{
    let byte0 = (value % 0x100) as u8;
    let byte1 = (value / 0x100) as u8;
    assert(value == ((value % 0x100) as u8 + 0x100 * ((value / 0x100) as u8)) as u16)
        by (bit_vector);
    let stored = write16(mem, addr, value);
    assert(stored[addr] == byte0 && stored[addr + 1] == byte1);
}

/// A word that was stored is the word that is loaded, and the store touches
/// no byte but its four.
pub proof fn lemma_store32_load32(mem: Seq<u8>, addr: int, value: u32)
    requires
        0 <= addr,
        addr + 3 < mem.len(),
    ensures
        read32(write32(mem, addr, value), addr) == value,
        write32(mem, addr, value).len() == mem.len(),
        forall|other: int|
            0 <= other < mem.len() && !(addr <= other <= addr + 3) ==> write32(
                mem,
                addr,
                value,
            )[other] == mem[other],
{
    let byte0 = (value % 0x100) as u8;
    let byte1 = (value / 0x100 % 0x100) as u8;
    let byte2 = (value / 0x1_0000 % 0x100) as u8;
    let byte3 = (value / 0x100_0000) as u8;
    assert(value == ((value % 0x100) as u8 + 0x100 * ((value / 0x100 % 0x100) as u8) + 0x1_0000
        * ((value / 0x1_0000 % 0x100) as u8) + 0x100_0000 * ((value / 0x100_0000) as u8)) as u32)
        by (bit_vector);
    let stored = write32(mem, addr, value);
    assert(stored[addr] == byte0 && stored[addr + 1] == byte1 && stored[addr + 2] == byte2
        && stored[addr + 3] == byte3);
}

/// The first device from index `start` on whose window holds `addr`.
pub open spec fn route_from(devices: Seq<DeviceModel>, addr: u32, start: int) -> Option<int>
    decreases devices.len() - start,
{
    if start < 0 || start >= devices.len() {
        None
    } else if devices[start].contains(addr) {
        Some(start)
    } else {
        route_from(devices, addr, start + 1)
    }
}

/// The device that an access to `addr` goes to: the first one, in
/// registration order, whose window holds `addr`.  `None` where the access
/// goes to RAM.
pub open spec fn route(devices: Seq<DeviceModel>, addr: u32) -> Option<int> {
    route_from(devices, addr, 0)
}

/// `route_from` finds a device whose window holds the address and skips
/// none that does.
pub proof fn lemma_route_from(devices: Seq<DeviceModel>, addr: u32, start: int)
    requires
        0 <= start <= devices.len(),
    ensures
        match route_from(devices, addr, start) {
            Some(i) => start <= i < devices.len() && devices[i].contains(addr) && forall|j: int|
                start <= j < i ==> !(#[trigger] devices[j]).contains(addr),
            None => forall|j: int|
                start <= j < devices.len() ==> !(#[trigger] devices[j]).contains(addr),
        },
    decreases devices.len() - start,
{
    if start < devices.len() && !devices[start].contains(addr) {
        lemma_route_from(devices, addr, start + 1);
    }
}

/// The first match wins: an access goes to device `i` exactly if `i` is the
/// least index of a device whose window holds the address, and to RAM
/// exactly if there is no such device.
pub proof fn lemma_route(devices: Seq<DeviceModel>, addr: u32)
    ensures
        match route(devices, addr) {
            Some(i) => 0 <= i < devices.len() && devices[i].contains(addr) && forall|j: int|
                0 <= j < i ==> !(#[trigger] devices[j]).contains(addr),
            None => forall|j: int|
                0 <= j < devices.len() ==> !(#[trigger] devices[j]).contains(addr),
        },
{
    lemma_route_from(devices, addr, 0);
}

/// The devices after a byte store to `addr` that device `i` claims.
pub open spec fn store8_to_device(devices: Seq<DeviceModel>, i: int, addr: u32, value: u8) -> Seq<
    DeviceModel,
> {
    devices.update(i, devices[i].after_store8((addr - devices[i].base_addr) as usize, value))
}

/// The memory of the machine.
#[derive(Debug)]
pub struct Ram(pub Vec<u8>);

impl View for Ram {
    type V = Seq<u8>;

    open spec fn view(&self) -> Seq<u8> {
        self.0@
    }
}

impl Default for Ram {
    /// One mebibyte of zeros.
    fn default() -> (ram: Self)
        ensures
            ram@.len() == DEFAULT_RAM_SIZE,
            forall|i: int| 0 <= i < ram@.len() ==> ram@[i] == 0,
    {
        Self::new(DEFAULT_RAM_SIZE)
    }
}

impl Ram {
    /// `size` bytes of zeros.
    pub fn new(size: u32) -> (ram: Self)
        ensures
            ram@.len() == size,
            forall|i: int| 0 <= i < ram@.len() ==> ram@[i] == 0,
    {
        Self(vec![0u8; size as usize])
    }

    /// A memory that holds `data`.
    pub fn new_with_data(data: Vec<u8>) -> (ram: Self)
        ensures
            ram@ == data@,
    {
        Self(data)
    }

    pub fn load8(&self, addr: u32) -> (value: u8)
        requires
            addr < self@.len(),
        ensures
            value == read8(self@, addr as int),
    {
        self.0[addr as usize]
    }

    pub fn store8(&mut self, addr: u32, value: u8)
        requires
            addr < old(self)@.len(),
        ensures
            final(self)@ == write8(old(self)@, addr as int, value),
    {
        self.0[addr as usize] = value;
    }

    pub fn load16(&self, addr: u32) -> (value: u16)
        requires
            addr + 1 < self@.len(),
        ensures
            value == read16(self@, addr as int),
    {
        assert(self.0.len() == self@.len());
        let addr: usize = addr as usize;
        let data1: u8 = self.0[addr];
        let data2: u8 = self.0[addr + 1];

        let value: u16 = (data1 as u16) | ((data2 as u16) << 8);
        assert(value == (data1 + 0x100 * data2) as u16) by (bit_vector)
            requires
                value == (data1 as u16) | ((data2 as u16) << 8),
        ;
        value
    }

    pub fn store16(&mut self, addr: u32, value: u16)
        requires
            addr + 1 < old(self)@.len(),
        ensures
            final(self)@ == write16(old(self)@, addr as int, value),
    {
        let byte0: u8 = (value & 0xff) as u8;
        let byte1: u8 = (value >> 8) as u8;
        assert(byte0 == (value % 0x100) as u8 && byte1 == (value / 0x100) as u8) by (bit_vector)
            requires
                byte0 == (value & 0xff) as u8,
                byte1 == (value >> 8) as u8,
        ;
        assert(self.0.len() == self@.len());
        let addr: usize = addr as usize;
        self.0[addr] = byte0;
        self.0[addr + 1] = byte1;
    }

    pub fn load32(&self, addr: u32) -> (value: u32)
        requires
            addr + 3 < self@.len(),
        ensures
            value == read32(self@, addr as int),
    {
        assert(self.0.len() == self@.len());
        let addr: usize = addr as usize;
        let data1: u8 = self.0[addr];
        let data2: u8 = self.0[addr + 1];
        let data3: u8 = self.0[addr + 2];
        let data4: u8 = self.0[addr + 3];

        let value: u32 = (data1 as u32) | ((data2 as u32) << 8) | ((data3 as u32) << 16) | ((
        data4 as u32) << 24);
        assert(value == (data1 + 0x100 * data2 + 0x1_0000 * data3 + 0x100_0000 * data4) as u32)
            by (bit_vector)
            requires
                value == (data1 as u32) | ((data2 as u32) << 8) | ((data3 as u32) << 16) | ((
                data4 as u32) << 24),
        ;
        value
    }

    pub fn store32(&mut self, addr: u32, value: u32)
        requires
            addr + 3 < old(self)@.len(),
        ensures
            final(self)@ == write32(old(self)@, addr as int, value),
    {
        let byte0: u8 = (value & 0xff) as u8;
        let byte1: u8 = ((value >> 8) & 0xff) as u8;
        let byte2: u8 = ((value >> 16) & 0xff) as u8;
        let byte3: u8 = (value >> 24) as u8;
        assert(byte0 == (value % 0x100) as u8 && byte1 == (value / 0x100 % 0x100) as u8 && byte2
            == (value / 0x1_0000 % 0x100) as u8 && byte3 == (value / 0x100_0000) as u8)
            by (bit_vector)
            requires
                byte0 == (value & 0xff) as u8,
                byte1 == ((value >> 8) & 0xff) as u8,
                byte2 == ((value >> 16) & 0xff) as u8,
                byte3 == (value >> 24) as u8,
        ;
        assert(self.0.len() == self@.len());
        let addr: usize = addr as usize;
        self.0[addr] = byte0;
        self.0[addr + 1] = byte1;
        self.0[addr + 2] = byte2;
        self.0[addr + 3] = byte3;
    }

    /// The index of the device that an access to `addr` goes to, if one
    /// claims it.
    pub fn find_device(addr: u32, mmio_devices: &Vec<MmioDevice>) -> (found:
        Option<usize>)
        ensures
            match found {
                Some(i) => route(device_models(mmio_devices@), addr) == Some(i as int),
                None => route(device_models(mmio_devices@), addr) is None,
            },
    {
        let ghost models = device_models(mmio_devices@);
        let mut i: usize = 0;
        while i < mmio_devices.len()
            invariant
                i <= mmio_devices.len(),
                models == device_models(mmio_devices@),
                route(models, addr) == route_from(models, addr, i as int),
            decreases mmio_devices.len() - i,
        {
            if mmio_devices[i].is_available_addr(addr) {
                return Some(i);
            }
            i += 1;
        }
        None
    }

    /// Whether an access of `width` at `addr` can be carried out over the
    /// bus.
    pub fn can_access(
        &self,
        addr: u32,
        width: Width,
        mmio_devices: &Vec<MmioDevice>,
    ) -> (ok: bool)
        ensures
            ok == accessible(self@, device_models(mmio_devices@), addr, width),
    {
        if Self::find_device(addr, mmio_devices).is_some() {
            return true;
        }
        let end: u64 = addr as u64 + width.size() as u64;
        end <= 0x1_0000_0000 && end <= self.size() as u64
    }

    /// Loads a byte over the bus: from the device that claims `addr`, else
    /// from RAM.
    pub fn load8_with_mmio(
        &self,
        addr: u32,
        mmio_devices: &mut Vec<MmioDevice>,
    ) -> (value: u8)
        requires
            route(device_models(old(mmio_devices)@), addr) is None ==> addr < self@.len(),
        ensures
            final(mmio_devices)@ == old(mmio_devices)@,
            value == (match route(device_models(old(mmio_devices)@), addr) {
                Some(_) => 0u8,
                None => read8(self@, addr as int),
            }),
    {
        match Self::find_device(addr, mmio_devices) {
            Some(i) => {
                proof {
                    lemma_route(device_models(mmio_devices@), addr);
                }
                let bytes_offset: usize = (addr - mmio_devices[i].base_addr()) as usize;
                mmio_devices[i].load8(bytes_offset)
            },
            None => self.load8(addr),
        }
    }

    /// Stores a byte over the bus: to the device that claims `addr`, else
    /// to RAM.
    pub fn store8_with_mmio(
        &mut self,
        addr: u32,
        value: u8,
        mmio_devices: &mut Vec<MmioDevice>,
    )
        requires
            route(device_models(old(mmio_devices)@), addr) is None ==> addr < old(self)@.len(),
        ensures
            final(mmio_devices)@.len() == old(mmio_devices)@.len(),
            match route(device_models(old(mmio_devices)@), addr) {
                Some(i) => final(self)@ == old(self)@ && device_models(final(mmio_devices)@)
                    == store8_to_device(device_models(old(mmio_devices)@), i, addr, value),
                None => final(self)@ == write8(old(self)@, addr as int, value) && final(mmio_devices)@ == old(mmio_devices)@,
            },
    {
        match Self::find_device(addr, mmio_devices) {
            Some(i) => {
                proof {
                    lemma_route(device_models(mmio_devices@), addr);
                }
                let bytes_offset: usize = (addr - mmio_devices[i].base_addr()) as usize;
                mmio_devices[i].store8(bytes_offset, value);
                assert(device_models(mmio_devices@) =~= store8_to_device(
                    device_models(old(mmio_devices)@),
                    i as int,
                    addr,
                    value,
                ));
            },
            None => {
                self.store8(addr, value);
            },
        }
    }

    /// Loads a halfword over the bus.  The device is chosen by `addr` alone.
    pub fn load16_with_mmio(
        &self,
        addr: u32,
        mmio_devices: &mut Vec<MmioDevice>,
    ) -> (value: u16)
        requires
            route(device_models(old(mmio_devices)@), addr) is None ==> addr + 1 < self@.len(),
        ensures
            final(mmio_devices)@ == old(mmio_devices)@,
            value == (match route(device_models(old(mmio_devices)@), addr) {
                Some(_) => 0u16,
                None => read16(self@, addr as int),
            }),
    {
        match Self::find_device(addr, mmio_devices) {
            Some(i) => {
                proof {
                    lemma_route(device_models(mmio_devices@), addr);
                }
                let bytes_offset: usize = (addr - mmio_devices[i].base_addr()) as usize;
                mmio_devices[i].load16(bytes_offset)
            },
            None => self.load16(addr),
        }
    }

    /// Stores a halfword over the bus.  A device ignores it.
    pub fn store16_with_mmio(
        &mut self,
        addr: u32,
        value: u16,
        mmio_devices: &mut Vec<MmioDevice>,
    )
        requires
            route(device_models(old(mmio_devices)@), addr) is None ==> addr + 1 < old(self)@.len(),
        ensures
            final(mmio_devices)@.len() == old(mmio_devices)@.len(),
            device_models(final(mmio_devices)@) == device_models(old(mmio_devices)@),
            match route(device_models(old(mmio_devices)@), addr) {
                Some(_) => final(self)@ == old(self)@,
                None => final(self)@ == write16(old(self)@, addr as int, value) && final(mmio_devices)@ == old(mmio_devices)@,
            },
    {
        match Self::find_device(addr, mmio_devices) {
            Some(i) => {
                proof {
                    lemma_route(device_models(mmio_devices@), addr);
                }
                let bytes_offset: usize = (addr - mmio_devices[i].base_addr()) as usize;
                mmio_devices[i].store16(bytes_offset, value);
                assert(device_models(mmio_devices@) =~= device_models(old(mmio_devices)@));
            },
            None => {
                self.store16(addr, value);
            },
        }
    }

    /// Loads a word over the bus.  The device is chosen by `addr` alone.
    pub fn load32_with_mmio(
        &self,
        addr: u32,
        mmio_devices: &mut Vec<MmioDevice>,
    ) -> (value: u32)
        requires
            route(device_models(old(mmio_devices)@), addr) is None ==> addr + 3 < self@.len(),
        ensures
            final(mmio_devices)@ == old(mmio_devices)@,
            value == (match route(device_models(old(mmio_devices)@), addr) {
                Some(_) => 0u32,
                None => read32(self@, addr as int),
            }),
    {
        match Self::find_device(addr, mmio_devices) {
            Some(i) => {
                proof {
                    lemma_route(device_models(mmio_devices@), addr);
                }
                let bytes_offset: usize = (addr - mmio_devices[i].base_addr()) as usize;
                mmio_devices[i].load32(bytes_offset)
            },
            None => self.load32(addr),
        }
    }

    /// Stores a word over the bus.  A device ignores it.
    pub fn store32_with_mmio(
        &mut self,
        addr: u32,
        value: u32,
        mmio_devices: &mut Vec<MmioDevice>,
    )
        requires
            route(device_models(old(mmio_devices)@), addr) is None ==> addr + 3 < old(self)@.len(),
        ensures
            final(mmio_devices)@ == old(mmio_devices)@,
            match route(device_models(old(mmio_devices)@), addr) {
                Some(_) => final(self)@ == old(self)@,
                None => final(self)@ == write32(old(self)@, addr as int, value),
            },
    {
        match Self::find_device(addr, mmio_devices) {
            Some(i) => {
                proof {
                    lemma_route(device_models(mmio_devices@), addr);
                }
                let bytes_offset: usize = (addr - mmio_devices[i].base_addr()) as usize;
                mmio_devices[i].store32(bytes_offset, value);
            },
            None => {
                self.store32(addr, value);
            },
        }
    }

    /// The number of bytes.
    pub fn size(&self) -> (size: usize)
        ensures
            size == self@.len(),
    {
        self.0.len()
    }
}

} // verus!

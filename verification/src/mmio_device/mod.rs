//! Memory-mapped devices: what every device offers to the bus, and the
//! model by which the contracts speak of a device.

use vstd::prelude::*;

use self::debug_exit::DebugExit;
use self::simple_uart::SimpleUart;

pub mod debug_exit;
pub mod simple_uart;

verus! {

/// What every device holds: its name and its window in the address space.
#[derive(Debug)]
pub struct MmioDeviceBase {
    pub device_name: String,
    pub base_addr: u32,
    pub used_mem_bytes_len: usize,
}

/// What a device may ask of the driver when it is polled.
#[derive(Debug, Clone, Copy, PartialEq, Eq, Structural)]
pub enum RequestFromDevice {
    /// End the run with this exit code.
    Exit(u8),
}

/// How a device behaves.
pub enum DeviceKind {
    /// A byte stored at offset 0 is latched as the exit code, and every
    /// poll from then on asks to exit with it.
    DebugExit,
    /// A byte stored at offset 0 is transmitted; a poll asks for nothing.
    SimpleUart,
}

/// A device as the contracts see it.
pub struct DeviceModel {
    pub kind: DeviceKind,
    pub name: Seq<char>,
    /// The first address of the window.
    pub base_addr: u32,
    /// The number of addresses in the window.
    pub window_len: usize,
    /// The exit code that was latched, if one was.
    pub exit_code: Option<u8>,
    /// The bytes transmitted and not yet taken, oldest first.
    pub transmitted: Seq<u8>,
}

impl DeviceModel {
    /// `addr` lies in the window: `base_addr <= addr < base_addr + window_len`.
    pub open spec fn contains(self, addr: u32) -> bool {
        self.base_addr <= addr && addr < self.base_addr + self.window_len
    }

    /// What a poll of the device returns.
    pub open spec fn pending(self) -> Option<RequestFromDevice> {
        match (self.kind, self.exit_code) {
            (DeviceKind::DebugExit, Some(code)) => Some(RequestFromDevice::Exit(code)),
            _ => None,
        }
    }

    /// The device after a byte store.  Only offset 0 is a register; a store
    /// to another offset is ignored.
    pub open spec fn after_store8(self, bytes_offset: usize, value: u8) -> DeviceModel {
        if bytes_offset != 0 {
            self
        } else {
            match self.kind {
                DeviceKind::DebugExit => DeviceModel { exit_code: Some(value), ..self },
                DeviceKind::SimpleUart => DeviceModel {
                    transmitted: self.transmitted.push(value),
                    ..self
                },
            }
        }
    }

    /// The device after its transmitted bytes were taken.
    pub open spec fn drained(self) -> DeviceModel {
        DeviceModel { transmitted: Seq::empty(), ..self }
    }
}

/// What a device offers to the bus and to the driver.  All loads return 0,
/// and stores wider than a byte are ignored.
pub trait MmioDeviceInterface {
    /// The device as the contracts see it.
    spec fn model(&self) -> DeviceModel;

    /// Asks the device whether it wants anything.  The device is not
    /// changed by being asked: a latched request is returned by every poll.
    fn poll_request(&mut self) -> (request: Option<RequestFromDevice>)
        ensures
            request == old(self).model().pending(),
            final(self).model() == old(self).model(),
    ;

    fn load8(&self, bytes_offset: usize) -> (value: u8)
        ensures
            value == 0,
    ;

    fn store8(&mut self, bytes_offset: usize, value: u8)
        ensures
            final(self).model() == old(self).model().after_store8(bytes_offset, value),
    ;

    fn load16(&self, bytes_offset: usize) -> (value: u16)
        ensures
            value == 0,
    ;

    fn store16(&mut self, bytes_offset: usize, value: u16)
        ensures
            final(self).model() == old(self).model(),
    ;

    fn load32(&self, bytes_offset: usize) -> (value: u32)
        ensures
            value == 0,
    ;

    fn store32(&self, bytes_offset: usize, value: u32);

    /// Whether `addr` lies in the window of the device.
    fn is_available_addr(&self, addr: u32) -> (available: bool)
        ensures
            available == self.model().contains(addr),
    ;

    fn device_name(&self) -> (name: &str)
        ensures
            name@ == self.model().name,
    ;

    fn base_addr(&self) -> (addr: u32)
        ensures
            addr == self.model().base_addr,
    ;

    fn used_mem_bytes_len(&self) -> (len: usize)
        ensures
            len == self.model().window_len,
    ;

    /// Hands out the bytes that the device has transmitted since they were
    /// last taken, oldest first, for the host to write to its console.
    fn take_transmitted(&mut self) -> (bytes: Vec<u8>)
        ensures
            bytes@ == old(self).model().transmitted,
            final(self).model() == old(self).model().drained(),
    ;
}

/// A device of the bus: one of the kinds that this machine has.
#[derive(Debug)]
pub enum MmioDevice {
    DebugExit(DebugExit),
    SimpleUart(SimpleUart),
}

impl MmioDeviceInterface for MmioDevice {
    open spec fn model(&self) -> DeviceModel {
        match self {
            MmioDevice::DebugExit(device) => device.model(),
            MmioDevice::SimpleUart(device) => device.model(),
        }
    }

    fn poll_request(&mut self) -> (request: Option<RequestFromDevice>) {
        match self {
            MmioDevice::DebugExit(device) => device.poll_request(),
            MmioDevice::SimpleUart(device) => device.poll_request(),
        }
    }

    fn load8(&self, bytes_offset: usize) -> (value: u8) {
        match self {
            MmioDevice::DebugExit(device) => device.load8(bytes_offset),
            MmioDevice::SimpleUart(device) => device.load8(bytes_offset),
        }
    }

    fn store8(&mut self, bytes_offset: usize, value: u8) {
        match self {
            MmioDevice::DebugExit(device) => device.store8(bytes_offset, value),
            MmioDevice::SimpleUart(device) => device.store8(bytes_offset, value),
        }
    }

    fn load16(&self, bytes_offset: usize) -> (value: u16) {
        match self {
            MmioDevice::DebugExit(device) => device.load16(bytes_offset),
            MmioDevice::SimpleUart(device) => device.load16(bytes_offset),
        }
    }

    fn store16(&mut self, bytes_offset: usize, value: u16) {
        match self {
            MmioDevice::DebugExit(device) => device.store16(bytes_offset, value),
            MmioDevice::SimpleUart(device) => device.store16(bytes_offset, value),
        }
    }

    fn load32(&self, bytes_offset: usize) -> (value: u32) {
        match self {
            MmioDevice::DebugExit(device) => device.load32(bytes_offset),
            MmioDevice::SimpleUart(device) => device.load32(bytes_offset),
        }
    }

    fn store32(&self, bytes_offset: usize, value: u32) {
        match self {
            MmioDevice::DebugExit(device) => device.store32(bytes_offset, value),
            MmioDevice::SimpleUart(device) => device.store32(bytes_offset, value),
        }
    }

    fn is_available_addr(&self, addr: u32) -> (available: bool) {
        match self {
            MmioDevice::DebugExit(device) => device.is_available_addr(addr),
            MmioDevice::SimpleUart(device) => device.is_available_addr(addr),
        }
    }

    fn device_name(&self) -> (name: &str) {
        match self {
            MmioDevice::DebugExit(device) => device.device_name(),
            MmioDevice::SimpleUart(device) => device.device_name(),
        }
    }

    fn base_addr(&self) -> (addr: u32) {
        match self {
            MmioDevice::DebugExit(device) => device.base_addr(),
            MmioDevice::SimpleUart(device) => device.base_addr(),
        }
    }

    fn used_mem_bytes_len(&self) -> (len: usize) {
        match self {
            MmioDevice::DebugExit(device) => device.used_mem_bytes_len(),
            MmioDevice::SimpleUart(device) => device.used_mem_bytes_len(),
        }
    }

    fn take_transmitted(&mut self) -> (bytes: Vec<u8>) {
        match self {
            MmioDevice::DebugExit(device) => device.take_transmitted(),
            MmioDevice::SimpleUart(device) => device.take_transmitted(),
        }
    }
}

/// The devices of a bus as the contracts see them, in registration order.
pub open spec fn device_models(devices: Seq<MmioDevice>) -> Seq<DeviceModel> {
    Seq::new(devices.len(), |i: int| devices[i].model())
}

/// Whether `addr` lies in `window_len` addresses from `base_addr`.
pub fn window_contains(base_addr: u32, window_len: usize, addr: u32) -> (inside: bool)
    ensures
        inside == (base_addr <= addr && addr < base_addr + window_len),
{
    addr >= base_addr && ((addr - base_addr) as usize) < window_len
}

} // verus!

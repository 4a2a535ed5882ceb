use vstd::prelude::*;
use super::{DeviceKind, DeviceModel, MmioDeviceBase, MmioDeviceInterface, RequestFromDevice};
use super::window_contains;

verus! {

/// The address of the first serial port of a PC.
pub const DEFAULT_BASE_ADDR: u32 = 0x3f8;

pub const DEFAULT_MEM_BYTES_LEN: usize = 5;

/// A transmit-only serial port: the byte stored at its offset 0 is
/// transmitted.  The device keeps the transmitted bytes until the host takes
/// them to write them to its console.
#[derive(Debug)]
pub struct SimpleUart {
    device_base: MmioDeviceBase,
    transmitted: Vec<u8>,
}

impl SimpleUart {
    /// A device that has transmitted nothing yet.
    pub fn new(device_name: String, base_addr: u32, used_mem_bytes_len: usize) -> (device: Self)
        ensures
            device.model() == (DeviceModel {
                kind: DeviceKind::SimpleUart,
                name: device_name@,
                base_addr,
                window_len: used_mem_bytes_len,
                exit_code: None,
                transmitted: Seq::empty(),
            }),
    {
        Self {
            device_base: MmioDeviceBase { device_name, base_addr, used_mem_bytes_len },
            transmitted: Vec::new(),
        }
    }
}

impl MmioDeviceInterface for SimpleUart {
    closed spec fn model(&self) -> DeviceModel {
        DeviceModel {
            kind: DeviceKind::SimpleUart,
            name: self.device_base.device_name@,
            base_addr: self.device_base.base_addr,
            window_len: self.device_base.used_mem_bytes_len,
            exit_code: None,
            transmitted: self.transmitted@,
        }
    }

    fn poll_request(&mut self) -> (request: Option<RequestFromDevice>) {
        None
    }

    fn load8(&self, _bytes_offset: usize) -> (value: u8) {
        0
    }

    fn store8(&mut self, bytes_offset: usize, value: u8) {
        if bytes_offset == 0 {
            self.transmitted.push(value);
        }
    }

    fn load16(&self, _bytes_offset: usize) -> (value: u16) {
        0
    }

    fn store16(&mut self, _bytes_offset: usize, _value: u16) {
    }

    fn load32(&self, _bytes_offset: usize) -> (value: u32) {
        0
    }

    fn store32(&self, _bytes_offset: usize, _value: u32) {
    }

    fn is_available_addr(&self, addr: u32) -> (available: bool) {
        window_contains(self.base_addr(), self.used_mem_bytes_len(), addr)
    }

    fn device_name(&self) -> (name: &str) {
        self.device_base.device_name.as_str()
    }

    fn base_addr(&self) -> (addr: u32) {
        self.device_base.base_addr
    }

    fn used_mem_bytes_len(&self) -> (len: usize) {
        self.device_base.used_mem_bytes_len
    }

    fn take_transmitted(&mut self) -> (bytes: Vec<u8>) {
        let mut bytes: Vec<u8> = Vec::new();
        core::mem::swap(&mut self.transmitted, &mut bytes);
        bytes
    }
}

impl Default for SimpleUart {
    /// The device named `simple-uart`, five bytes wide at address 0x3f8.
    fn default() -> (device: Self)
        ensures
            device.model() == (DeviceModel {
                kind: DeviceKind::SimpleUart,
                name: "simple-uart"@,
                base_addr: DEFAULT_BASE_ADDR,
                window_len: DEFAULT_MEM_BYTES_LEN,
                exit_code: None,
                transmitted: Seq::empty(),
            }),
    {
        Self::new("simple-uart".to_owned(), DEFAULT_BASE_ADDR, DEFAULT_MEM_BYTES_LEN)
    }
}

} // verus!

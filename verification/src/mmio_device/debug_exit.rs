use vstd::prelude::*;
use super::{DeviceKind, DeviceModel, MmioDeviceBase, MmioDeviceInterface, RequestFromDevice};
use super::window_contains;

verus! {

pub const DEFAULT_BASE_ADDR: u32 = 0xf4;

pub const DEFAULT_MEM_BYTES_LEN: usize = 1;

/// A device that ends the run: the byte stored at its offset 0 becomes the
/// exit code.
#[derive(Debug)]
pub struct DebugExit {
    device_base: MmioDeviceBase,
    exit_code: Option<u8>,
}

impl DebugExit {
    /// A device that has latched nothing yet.
    pub fn new(device_name: String, base_addr: u32, used_mem_bytes_len: usize) -> (device: Self)
        ensures
            device.model() == (DeviceModel {
                kind: DeviceKind::DebugExit,
                name: device_name@,
                base_addr,
                window_len: used_mem_bytes_len,
                exit_code: None,
                transmitted: Seq::empty(),
            }),
    {
        Self {
            device_base: MmioDeviceBase { device_name, base_addr, used_mem_bytes_len },
            exit_code: None,
        }
    }
}

impl MmioDeviceInterface for DebugExit {
    closed spec fn model(&self) -> DeviceModel {
        DeviceModel {
            kind: DeviceKind::DebugExit,
            name: self.device_base.device_name@,
            base_addr: self.device_base.base_addr,
            window_len: self.device_base.used_mem_bytes_len,
            exit_code: self.exit_code,
            transmitted: Seq::empty(),
        }
    }

    fn poll_request(&mut self) -> (request: Option<RequestFromDevice>) {
        if let Some(exit_code) = self.exit_code {
            return Some(RequestFromDevice::Exit(exit_code));
        }
        None
    }

    fn load8(&self, _bytes_offset: usize) -> (value: u8) {
        0
    }

    fn store8(&mut self, bytes_offset: usize, value: u8) {
        if bytes_offset == 0 {
            self.exit_code = Some(value);
        }
    }

    fn load16(&self, _bytes_offset: usize) -> (value: u16) {
        0
    }

    fn store16(&mut self, _bytes_offset: usize, _value: u16) {
    }

    fn load32(&self, _bytes_offset: usize) -> (value: u32) {
        0
    }

    fn store32(&self, _bytes_offset: usize, _value: u32) {
    }

    fn is_available_addr(&self, addr: u32) -> (available: bool) {
        window_contains(self.base_addr(), self.used_mem_bytes_len(), addr)
    }

    fn device_name(&self) -> (name: &str) {
        self.device_base.device_name.as_str()
    }

    fn base_addr(&self) -> (addr: u32) {
        self.device_base.base_addr
    }

    fn used_mem_bytes_len(&self) -> (len: usize) {
        self.device_base.used_mem_bytes_len
    }

    fn take_transmitted(&mut self) -> (bytes: Vec<u8>) {
        assert(self.model().drained() == self.model());
        Vec::new()
    }
}

impl Default for DebugExit {
    /// The device named `debug-exit`, one byte wide at address 0xf4.
    fn default() -> (device: Self)
        ensures
            device.model() == (DeviceModel {
                kind: DeviceKind::DebugExit,
                name: "debug-exit"@,
                base_addr: DEFAULT_BASE_ADDR,
                window_len: DEFAULT_MEM_BYTES_LEN,
                exit_code: None,
                transmitted: Seq::empty(),
            }),
    {
        Self::new("debug-exit".to_owned(), DEFAULT_BASE_ADDR, DEFAULT_MEM_BYTES_LEN)
    }
}

} // verus!

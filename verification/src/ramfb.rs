//! RAMFB: a framebuffer in guest memory that the display device is told
//! about through the fw_cfg file `etc/ramfb`.

use crate::error::BringupError;
use crate::fw_cfg::{select_control, FWCfgFile, FW_CFG_DMA_CONTROL_WRITE};
use crate::wire::{be32_bytes, be64_bytes, le32_bytes, u32_to_be, u32_to_le, u64_to_be};
use vstd::prelude::*;

verus! {

/// Name of the fw_cfg file that takes the framebuffer's description.
pub const RAMFB_FW_CFW_NAME: &'static str = "etc/ramfb";

/// Pixels per row.
pub const RAM_FB_WIDTH: usize = 1280;

/// Rows.
pub const RAM_FB_HEIGHT: usize = 720;

/// Bytes per pixel.
pub const RAM_FB_BPP: usize = 4;

/// Bytes per row: rows follow each other without padding.
pub const RAM_FB_STRIDE: usize = RAM_FB_BPP * RAM_FB_WIDTH;

/// Bytes of the whole framebuffer.
pub const RAM_FB_SIZE: usize = RAM_FB_HEIGHT * RAM_FB_STRIDE;

/// Pixel format code `AR24`: alpha, red, green, blue of 8 bits each, the
/// 32-bit pixel stored little-endian.
pub const FOURCC_ARGB8888: u32 = 0x3432_5241;

/// Bytes of the framebuffer's description on the wire.
pub const RAMFB_CFG_SIZE: usize = 28;

/// The pixel format code made of four characters, the first in the lowest
/// byte.
pub fn fourcc_code(a: u8, b: u8, c: u8, d: u8) -> (code: u32)
    ensures
        code == a + 0x100 * b + 0x1_0000 * c + 0x100_0000 * d,
{
    a as u32 + 0x100 * (b as u32) + 0x1_0000 * (c as u32) + 0x100_0000 * (d as u32)
}

/// The description of a framebuffer.
#[derive(Clone, Copy, Debug, PartialEq, Eq, Structural)]
pub struct RAMFBCfg {
    pub addr: u64,
    pub fourcc: u32,
    pub flags: u32,
    pub width: u32,
    pub height: u32,
    pub stride: u32,
}

impl RAMFBCfg {
    /// The description as the device reads it: the 64-bit address and the
    /// five 32-bit words in order, each big-endian, with nothing between
    /// them.
    pub open spec fn wire(&self) -> Seq<u8> {
        be64_bytes(self.addr) + be32_bytes(self.fourcc) + be32_bytes(self.flags) + be32_bytes(
            self.width,
        ) + be32_bytes(self.height) + be32_bytes(self.stride)
    }

    /// The description of the framebuffer of this library's fixed geometry at
    /// the address `addr`.
    pub open spec fn spec_for_framebuffer(addr: u64) -> RAMFBCfg {
        RAMFBCfg {
            addr,
            fourcc: FOURCC_ARGB8888,
            flags: 0,
            width: 1280,
            height: 720,
            stride: 5120,
        }
    }

    /// Describes the framebuffer at `addr`: 1280 by 720 pixels of format
    /// `AR24`, 5120 bytes per row.
    pub fn for_framebuffer(addr: u64) -> (cfg: RAMFBCfg)
        ensures
            cfg == Self::spec_for_framebuffer(addr),
    {
        RAMFBCfg {
            addr,
            fourcc: FOURCC_ARGB8888,
            flags: 0,
            width: RAM_FB_WIDTH as u32,
            height: RAM_FB_HEIGHT as u32,
            stride: RAM_FB_STRIDE as u32,
        }
    }

    /// Lays the description out for the device.
    pub fn to_wire(&self) -> (bytes: [u8; 28])
        ensures
            bytes@ == self.wire(),
    {
        let a: [u8; 8] = u64_to_be(self.addr);
        let c: [u8; 4] = u32_to_be(self.fourcc);
        let f: [u8; 4] = u32_to_be(self.flags);
        let w: [u8; 4] = u32_to_be(self.width);
        let h: [u8; 4] = u32_to_be(self.height);
        let s: [u8; 4] = u32_to_be(self.stride);
        [
            a[0],
            a[1],
            a[2],
            a[3],
            a[4],
            a[5],
            a[6],
            a[7],
            c[0],
            c[1],
            c[2],
            c[3],
            f[0],
            f[1],
            f[2],
            f[3],
            w[0],
            w[1],
            w[2],
            w[3],
            h[0],
            h[1],
            h[2],
            h[3],
            s[0],
            s[1],
            s[2],
            s[3],
        ]
    }
}

/// The DMA transfer that hands a framebuffer's description to the device.
#[derive(Clone, Copy, Debug, PartialEq, Eq)]
pub struct RamfbTransfer {
    /// Control word: write, after selecting the file.
    pub control: u32,
    /// Number of bytes of the payload.
    pub length: u32,
    /// The description, laid out for the device.
    pub payload: [u8; 28],
}

/// What has happened in the setup of the framebuffer.
#[derive(Clone, Copy, Debug, PartialEq, Eq)]
pub enum RamfbEvent {
    /// Nothing yet: the setup begins.
    Begin,
    /// The file directory was searched for the file asked for, with this
    /// result.
    FileLookup(Option<FWCfgFile>),
    /// The transfer of the description ended, with this result.
    Transferred(Result<(), BringupError>),
}

/// What to do next in the setup of the framebuffer.
#[derive(Clone, Copy, Debug, PartialEq, Eq)]
pub enum RamfbStep {
    /// Search the file directory for the file of this name and come back
    /// with the result.
    FindFile(&'static str),
    /// Perform this transfer and come back with its result.
    Transfer(RamfbTransfer),
    /// The setup has ended. The device shows the framebuffer exactly if the
    /// result is `Ok`.
    Finished(Result<(), BringupError>),
}

/// The control word of the transfer that writes to the file with key
/// `select`.
pub open spec fn ramfb_control(select: u16) -> int {
    0x1_0000 * select + 0x18
}

/// Decides the next step of the setup of the framebuffer at
/// `framebuffer_addr`. The setup begins with the search for the file
/// `etc/ramfb`. When the file was found, its key is selected and the
/// description written to it. When there is no such file the device is absent
/// and the setup ends; when the transfer has ended, the setup ends with the
/// transfer's result.
pub fn setup_ramfb(event: RamfbEvent, framebuffer_addr: u64) -> (step: RamfbStep)
    ensures
        match event {
            RamfbEvent::Begin => step matches RamfbStep::FindFile(name) && name@
                == RAMFB_FW_CFW_NAME@,
            RamfbEvent::FileLookup(Some(file)) => {
                &&& step matches RamfbStep::Transfer(transfer)
                &&& transfer.control == ramfb_control(file.select)
                &&& transfer.length == 28
                &&& transfer.payload@ == RAMFBCfg::spec_for_framebuffer(framebuffer_addr).wire()
            },
            RamfbEvent::FileLookup(None) => step == RamfbStep::Finished(
                Err(BringupError::DeviceAbsent),
            ),
            RamfbEvent::Transferred(outcome) => step == RamfbStep::Finished(outcome),
        },
{
    match event {
        RamfbEvent::Begin => RamfbStep::FindFile(RAMFB_FW_CFW_NAME),
        RamfbEvent::FileLookup(Some(file)) => {
            let select: u16 = file.select;
            assert(0x10u32 & 0xFFFF | 0x08u32 == 0x18) by (bit_vector);
            RamfbStep::Transfer(
                RamfbTransfer {
                    control: select_control(FW_CFG_DMA_CONTROL_WRITE, select),
                    length: RAMFB_CFG_SIZE as u32,
                    payload: RAMFBCfg::for_framebuffer(framebuffer_addr).to_wire(),
                },
            )
        },
        RamfbEvent::FileLookup(None) => RamfbStep::Finished(Err(BringupError::DeviceAbsent)),
        RamfbEvent::Transferred(outcome) => RamfbStep::Finished(outcome),
    }
}

/// Fills every pixel of the framebuffer with `color`, stored little-endian.
/// Bytes after the last whole pixel stay as they are.
pub fn ramfb_clear(framebuffer: &mut [u8], color: u32)
    ensures
        final(framebuffer)@.len() == old(framebuffer)@.len(),
        forall|i: int|
            0 <= i < old(framebuffer)@.len() ==> #[trigger] final(framebuffer)@[i] == if i / 4 < old(
                framebuffer,
            )@.len() / 4 {
                le32_bytes(color)[i % 4]
            } else {
                old(framebuffer)@[i]
            },
{
    let color_bytes: [u8; 4] = u32_to_le(color);
    let pixels: usize = framebuffer.len() / RAM_FB_BPP;
    let mut x: usize = 0;
    while x < pixels
        invariant
            x <= pixels,
            pixels == old(framebuffer)@.len() / 4,
            old(framebuffer)@.len() <= usize::MAX,
            color_bytes@ == le32_bytes(color),
            framebuffer@.len() == old(framebuffer)@.len(),
            forall|i: int|
                0 <= i < framebuffer@.len() ==> #[trigger] framebuffer@[i] == if i / 4 < x {
                    le32_bytes(color)[i % 4]
                } else {
                    old(framebuffer)@[i]
                },
        decreases pixels - x,
    {
        framebuffer[x * RAM_FB_BPP] = color_bytes[0];
        framebuffer[x * RAM_FB_BPP + 1] = color_bytes[1];
        framebuffer[x * RAM_FB_BPP + 2] = color_bytes[2];
        framebuffer[x * RAM_FB_BPP + 3] = color_bytes[3];
        x += 1;
    }
}

} // verus!

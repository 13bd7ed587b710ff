//! The fw_cfg channel: items selected by key and streamed byte by byte, the
//! file directory, and DMA descriptors.
//!
//! Everything on the fw_cfg wire is big-endian. The data register has no seek:
//! a reader takes the directory's count, then entry after entry, and stops at
//! the entry it was looking for. [`FileSearch`] holds that reader's state; the
//! caller feeds it the entries it reads from the device.

use crate::error::BringupError;
use crate::wire::{
    be16, be16_bytes, be32, be32_bytes, be64, be64_bytes, lemma_be32_round_trip,
    lemma_be64_round_trip, read_be16, read_be32, read_be64, u16_to_be, u32_to_be, u64_to_be,
};
use vstd::prelude::*;
use vstd::string::StringSliceAdditionalSpecFns;

verus! {

/// Key of the signature item.
pub const FW_CFG_SIGNATURE: u16 = 0x0000;

/// Key of the revision item.
pub const FW_CFG_FW_CFG_ID: u16 = 0x0001;

/// Key of the file directory.
pub const FW_CFG_FILE_DIR: u16 = 0x0019;

/// What the signature item reads as: the ASCII letters `QEMU`.
pub const FW_CFG_SIGNATURE_VAL: [u8; 4] = [0x51, 0x45, 0x4D, 0x55];

/// Bytes of the name field of a directory entry.
pub const FWCFG_NAME_LEN: usize = 56;

/// Bytes of a directory entry.
pub const FWCFG_ENTRY_SIZE: usize = 64;

/// Control bit 0: the device reports that the transfer failed.
pub const FW_CFG_DMA_CONTROL_ERROR: u32 = 0x01;

/// Control bit 1: transfer from the item to memory.
pub const FW_CFG_DMA_CONTROL_READ: u32 = 0x02;

/// Control bit 2: skip bytes of the item.
pub const FW_CFG_DMA_CONTROL_SKIP: u32 = 0x04;

/// Control bit 3: select the item whose key is in bits 16 to 31.
pub const FW_CFG_DMA_CONTROL_SELECT: u32 = 0x08;

/// Control bit 4: transfer from memory to the item.
pub const FW_CFG_DMA_CONTROL_WRITE: u32 = 0x10;

/// Bit 0 of the revision item: the device has the DMA interface.
pub const FW_CFG_VERSION_DMA: u32 = 0x01;

/// The bytes to store in the selector register to select `key`.
pub fn selector_bytes(key: u16) -> (b: [u8; 2])
    ensures
        b@ == be16_bytes(key),
{
    u16_to_be(key)
}

/// Whether the four bytes read from the signature item are `QEMU`.
pub fn test_fw_cfg(signature: &[u8; 4]) -> (present: bool)
    ensures
        present == (signature@ == seq![0x51u8, 0x45u8, 0x4Du8, 0x55u8]),
{
    let mut i: usize = 0;
    while i < 4
        invariant
            i <= 4,
            forall|k: int| 0 <= k < i ==> signature@[k] == seq![0x51u8, 0x45u8, 0x4Du8, 0x55u8][k],
        decreases 4 - i,
    {
        if signature[i] != FW_CFG_SIGNATURE_VAL[i] {
            return false;
        }
        i += 1;
    }
    proof {
        assert(signature@ =~= seq![0x51u8, 0x45u8, 0x4Du8, 0x55u8]);
    }
    true
}

/// Whether a device with this value of the revision item has the DMA
/// interface: bit 0 is set.
pub fn test_fw_cfg_dma(revision: u32) -> (dma: bool)
    ensures
        dma == (revision % 2 == 1),
{
    assert(revision & 0x01u32 == revision % 2) by (bit_vector);
    (revision & FW_CFG_VERSION_DMA) != 0
}

/// An entry of the file directory.
#[derive(Clone, Copy, Debug, PartialEq, Eq)]
pub struct FWCfgFile {
    /// Size of the file in bytes.
    pub size: u32,
    /// Key that selects the file.
    pub select: u16,
    pub reserved: u16,
    /// Name of the file, padded with NUL bytes.
    pub name: [u8; 56],
}

/// Where the first NUL byte of `name` stands, or the length of `name` if it
/// has none.
pub open spec fn nul_position(name: Seq<u8>) -> int
    decreases name.len(),
{
    if name.len() == 0 || name[0] == 0 {
        0
    } else {
        1 + nul_position(name.drop_first())
    }
}

/// The bytes of a name field that come before its first NUL byte.
pub open spec fn entry_name(name: Seq<u8>) -> Seq<u8> {
    name.subrange(0, nul_position(name))
}

/// Whether the file that the directory entry `entry` describes is named
/// `name`.
pub open spec fn entry_matches(entry: Seq<u8>, name: Seq<u8>) -> bool {
    entry_name(entry.subrange(8, 64)) == name
}

proof fn lemma_nul_position(name: Seq<u8>, at: int)
    requires
        0 <= at <= name.len(),
        forall|k: int| 0 <= k < at ==> name[k] != 0,
        at == name.len() || name[at] == 0,
    ensures
        nul_position(name) == at,
    decreases at,
{
    if at > 0 {
        lemma_nul_position(name.drop_first(), at - 1);
    }
}

impl FWCfgFile {
    /// Whether the fields hold what the 64 bytes of `entry` say: size, key and
    /// reserved word big-endian, then the name.
    pub open spec fn is_entry(&self, entry: Seq<u8>) -> bool {
        &&& self.size == be32(entry, 0)
        &&& self.select == be16(entry, 4)
        &&& self.reserved == be16(entry, 6)
        &&& self.name@ == entry.subrange(8, 64)
    }

    /// Reads a directory entry from its 64 bytes.
    pub fn from_wire(entry: &[u8; 64]) -> (file: FWCfgFile)
        ensures
            file.is_entry(entry@),
    {
        let mut name: [u8; 56] = [0u8; 56];
        let mut i: usize = 0;
        while i < FWCFG_NAME_LEN
            invariant
                i <= 56,
                forall|k: int| 0 <= k < i ==> name@[k] == entry@[8 + k],
            decreases 56 - i,
        {
            name[i] = entry[8 + i];
            i += 1;
        }
        proof {
            assert(name@ =~= entry@.subrange(8, 64));
        }
        FWCfgFile {
            size: read_be32(entry.as_slice(), 0),
            select: read_be16(entry.as_slice(), 4),
            reserved: read_be16(entry.as_slice(), 6),
            name,
        }
    }

    /// Length of the file's name: the bytes before the first NUL.
    pub fn name_len(&self) -> (len: usize)
        ensures
            len == nul_position(self.name@),
            len <= 56,
    {
        let mut i: usize = 0;
        while i < FWCFG_NAME_LEN && self.name[i] != 0
            invariant
                i <= 56,
                forall|k: int| 0 <= k < i ==> self.name@[k] != 0,
            decreases 56 - i,
        {
            i += 1;
        }
        proof {
            lemma_nul_position(self.name@, i as int);
        }
        i
    }

    /// The file's name: the bytes of the name field before the first NUL.
    pub fn file_name(&self) -> (name: Vec<u8>)
        ensures
            name@ == entry_name(self.name@),
    {
        let len: usize = self.name_len();
        let mut name: Vec<u8> = Vec::new();
        let mut i: usize = 0;
        while i < len
            invariant
                i <= len <= 56,
                name@ == self.name@.subrange(0, i as int),
            decreases len - i,
        {
            name.push(self.name[i]);
            i += 1;
        }
        name
    }

    /// Whether the file is named `name`: the bytes before the first NUL of
    /// the name field are the bytes of `name`.
    pub fn name_matches(&self, name: &str) -> (same: bool)
        ensures
            same == (entry_name(self.name@) == name.spec_bytes()),
    {
        let wanted: &[u8] = name.as_bytes();
        let len: usize = self.name_len();
        if wanted.len() != len {
            return false;
        }
        let mut i: usize = 0;
        while i < len
            invariant
                i <= len <= 56,
                len == nul_position(self.name@),
                wanted@ == name.spec_bytes(),
                wanted@.len() == len,
                forall|k: int| 0 <= k < i ==> wanted@[k] == self.name@[k],
            decreases len - i,
        {
            if wanted[i] != self.name[i] {
                return false;
            }
            i += 1;
        }
        proof {
            assert(entry_name(self.name@) =~= wanted@);
        }
        true
    }
}

/// The number of entries that a directory announces in its first four bytes.
pub fn file_count(count: &[u8; 4]) -> (n: u32)
    ensures
        n == be32(count@, 0),
{
    read_be32(count.as_slice(), 0)
}

/// A search of the file directory for one name, entry by entry.
#[derive(Clone, Copy, Debug, PartialEq, Eq)]
pub struct FileSearch {
    /// Entries of the directory that have not been read.
    pub remaining: u32,
    /// Entries that have been read.
    pub entries_read: u32,
    /// The entry with the wanted name, once it has been read.
    pub found: Option<FWCfgFile>,
}

impl FileSearch {
    /// Whether the two counts add up to a directory's count, which fits in 32
    /// bits.
    pub open spec fn wf(&self) -> bool {
        self.remaining + self.entries_read <= u32::MAX
    }

    /// Whether the search goes on: nothing was found yet and entries are
    /// left.
    pub open spec fn spec_wants_entry(&self) -> bool {
        self.found is None && self.remaining > 0
    }

    /// Starts a search of a directory that announces `count` entries.
    pub fn begin(count: u32) -> (search: FileSearch)
        ensures
            search == (FileSearch { remaining: count, entries_read: 0, found: None }),
            search.wf(),
    {
        FileSearch { remaining: count, entries_read: 0, found: None }
    }

    /// Whether the next entry should be read and fed to the search.
    pub fn wants_entry(&self) -> (wants: bool)
        ensures
            wants == self.spec_wants_entry(),
    {
        self.found.is_none() && self.remaining > 0
    }

    /// Takes the next entry of the directory. If it has the wanted name the
    /// search has found its file and wants no more entries. A search that
    /// wants no entry is left as it is.
    pub fn feed(&mut self, entry: &[u8; 64], name: &str)
        requires
            old(self).wf(),
        ensures
            final(self).wf(),
            !old(self).spec_wants_entry() ==> *final(self) == *old(self),
            old(self).spec_wants_entry() ==> {
                &&& final(self).remaining == old(self).remaining - 1
                &&& final(self).entries_read == old(self).entries_read + 1
                &&& match final(self).found {
                    Some(file) => entry_matches(entry@, name.spec_bytes()) && file.is_entry(entry@),
                    None => !entry_matches(entry@, name.spec_bytes()),
                }
            },
    {
        if self.wants_entry() {
            let file: FWCfgFile = FWCfgFile::from_wire(entry);
            self.remaining = self.remaining - 1;
            self.entries_read = self.entries_read + 1;
            if file.name_matches(name) {
                self.found = Some(file);
            }
        }
    }
}

/// Byte `at` of the stream that the data register yields for an item with the
/// content `item`: the item's bytes, then zeros without end.
pub open spec fn stream_byte(item: Seq<u8>, at: int) -> u8 {
    if 0 <= at < item.len() {
        item[at]
    } else {
        0
    }
}

/// The number of entries that the directory `directory` announces.
pub open spec fn directory_count(directory: Seq<u8>) -> int {
    be32(Seq::new(4, |k: int| stream_byte(directory, k)), 0)
}

/// The 64 bytes of entry `index` of the directory `directory`.
pub open spec fn directory_entry(directory: Seq<u8>, index: int) -> Seq<u8> {
    Seq::new(64, |k: int| stream_byte(directory, 4 + 64 * index + k))
}

fn stream_read(item: &[u8], at: u64) -> (b: u8)
    ensures
        b == stream_byte(item@, at as int),
{
    if at < item.len() as u64 {
        item[at as usize]
    } else {
        0
    }
}

fn read_count(directory: &[u8]) -> (count: [u8; 4])
    ensures
        count@ == Seq::new(4, |k: int| stream_byte(directory@, k)),
{
    [
        stream_read(directory, 0),
        stream_read(directory, 1),
        stream_read(directory, 2),
        stream_read(directory, 3),
    ]
}

fn read_entry(directory: &[u8], index: u32) -> (entry: [u8; 64])
    ensures
        entry@ == directory_entry(directory@, index as int),
{
    let mut entry: [u8; 64] = [0u8; 64];
    let start: u64 = 4 + 64 * (index as u64);
    let mut k: usize = 0;
    while k < FWCFG_ENTRY_SIZE
        invariant
            k <= 64,
            start == 4 + 64 * index,
            forall|j: int| 0 <= j < k ==> entry@[j] == stream_byte(directory@, start + j),
        decreases 64 - k,
    {
        entry[k] = stream_read(directory, start + k as u64);
        k += 1;
    }
    entry
}

/// Whether entry `index` of the directory is the first that is named `name`.
pub open spec fn first_match_at(directory: Seq<u8>, name: Seq<u8>, index: int) -> bool {
    &&& 0 <= index < directory_count(directory)
    &&& entry_matches(directory_entry(directory, index), name)
    &&& forall|j: int|
        0 <= j < index ==> !entry_matches(#[trigger] directory_entry(directory, j), name)
}

/// Whether none of the entries that the directory announces is named `name`.
pub open spec fn no_entry_matches(directory: Seq<u8>, name: Seq<u8>) -> bool {
    forall|j: int|
        0 <= j < directory_count(directory) ==> !entry_matches(
            #[trigger] directory_entry(directory, j),
            name,
        )
}

/// A directory has at most one first entry of a name: the entry that a
/// search finds, and with it the number of entries that it reads, is fixed by
/// the directory and the name.
pub proof fn lemma_first_match_is_unique(directory: Seq<u8>, name: Seq<u8>, i: int, j: int)
    requires
        first_match_at(directory, name, i),
        first_match_at(directory, name, j),
    ensures
        i == j,
{
    if i < j {
        assert(!entry_matches(directory_entry(directory, i), name));
    } else if j < i {
        assert(!entry_matches(directory_entry(directory, j), name));
    }
}

/// Searches the file directory with the content `directory` for the file
/// named `name`, as a reader of the data register does: the count first, then
/// entry after entry until one has the name or the announced count is
/// reached. Bytes past the end of `directory` read as zero. The search that
/// is returned holds the entry found, if any, and the number of entries read:
/// one more than the index of the entry found, or all of them.
pub fn search_directory(directory: &[u8], name: &str) -> (search: FileSearch)
    ensures
        search.wf(),
        search.remaining + search.entries_read == directory_count(directory@),
        match search.found {
            Some(file) => exists|i: int|
                {
                    &&& #[trigger] first_match_at(directory@, name.spec_bytes(), i)
                    &&& file.is_entry(directory_entry(directory@, i))
                    &&& search.entries_read == i + 1
                },
            None => {
                &&& no_entry_matches(directory@, name.spec_bytes())
                &&& search.entries_read == directory_count(directory@)
            },
        },
{
    let count: [u8; 4] = read_count(directory);
    let mut search: FileSearch = FileSearch::begin(file_count(&count));
    while search.wants_entry()
        invariant
            search.wf(),
            search.remaining + search.entries_read == directory_count(directory@),
            match search.found {
                Some(file) => {
                    &&& first_match_at(directory@, name.spec_bytes(), search.entries_read - 1)
                    &&& file.is_entry(directory_entry(directory@, search.entries_read - 1))
                },
                None => forall|j: int|
                    0 <= j < search.entries_read ==> !entry_matches(
                        #[trigger] directory_entry(directory@, j),
                        name.spec_bytes(),
                    ),
            },
        decreases search.remaining,
    {
        let entry: [u8; 64] = read_entry(directory, search.entries_read);
        search.feed(&entry, name);
    }
    search
}

/// Looks the file named `name` up in the file directory with the content
/// `directory`. Returns the first entry with that name, or `None` if the
/// directory has none.
pub fn fw_cfw_find_file(directory: &[u8], name: &str) -> (r: Option<FWCfgFile>)
    ensures
        match r {
            Some(file) => exists|i: int|
                {
                    &&& #[trigger] first_match_at(directory@, name.spec_bytes(), i)
                    &&& file.is_entry(directory_entry(directory@, i))
                },
            None => no_entry_matches(directory@, name.spec_bytes()),
        },
{
    search_directory(directory, name).found
}

/// A DMA descriptor: what to do, on how many bytes, at which address of
/// memory.
#[derive(Clone, Copy, Debug, PartialEq, Eq, Structural)]
pub struct FWCfgDmaAccess {
    pub control: u32,
    pub length: u32,
    pub address: u64,
}

impl FWCfgDmaAccess {
    /// The descriptor as the device reads it: control, length and address,
    /// each big-endian, with nothing between them.
    pub open spec fn wire(&self) -> Seq<u8> {
        be32_bytes(self.control) + be32_bytes(self.length) + be64_bytes(self.address)
    }

    /// The descriptor that the sixteen bytes `bytes` hold.
    pub open spec fn spec_from_wire(bytes: Seq<u8>) -> FWCfgDmaAccess {
        FWCfgDmaAccess {
            control: be32(bytes, 0) as u32,
            length: be32(bytes, 4) as u32,
            address: be64(bytes, 8) as u64,
        }
    }

    /// Lays the descriptor out for the device.
    pub fn to_wire(&self) -> (bytes: [u8; 16])
        ensures
            bytes@ == self.wire(),
    {
        let c: [u8; 4] = u32_to_be(self.control);
        let l: [u8; 4] = u32_to_be(self.length);
        let a: [u8; 8] = u64_to_be(self.address);
        [
            c[0],
            c[1],
            c[2],
            c[3],
            l[0],
            l[1],
            l[2],
            l[3],
            a[0],
            a[1],
            a[2],
            a[3],
            a[4],
            a[5],
            a[6],
            a[7],
        ]
    }

    /// Reads a descriptor back from its sixteen bytes.
    pub fn from_wire(bytes: &[u8; 16]) -> (descriptor: FWCfgDmaAccess)
        ensures
            descriptor == Self::spec_from_wire(bytes@),
    {
        FWCfgDmaAccess {
            control: read_be32(bytes.as_slice(), 0),
            length: read_be32(bytes.as_slice(), 4),
            address: read_be64(bytes.as_slice(), 8),
        }
    }
}

/// A descriptor that is laid out for the device and read back is the same
/// descriptor: no field is lost or reordered on the wire.
pub proof fn lemma_dma_descriptor_round_trip(descriptor: FWCfgDmaAccess)
    ensures
        descriptor.wire().len() == 16,
        FWCfgDmaAccess::spec_from_wire(descriptor.wire()) == descriptor,
{
    let wire = descriptor.wire();
    lemma_be32_round_trip(descriptor.control);
    lemma_be32_round_trip(descriptor.length);
    lemma_be64_round_trip(descriptor.address);
    let c = be32_bytes(descriptor.control);
    let l = be32_bytes(descriptor.length);
    let a = be64_bytes(descriptor.address);
    assert forall|k: int| 0 <= k < 4 implies wire[k] == c[k] && wire[4 + k] == l[k] by {}
    assert forall|k: int| 0 <= k < 8 implies wire[8 + k] == a[k] by {}
    assert(be32(wire, 0) == be32(c, 0));
    assert(be32(wire, 4) == be32(l, 0));
    assert(be32(wire, 8) == be32(a, 0));
    assert(be32(wire, 12) == be32(a, 4));
}

/// The control word of a transfer that first selects the item `key`: the key
/// in bits 16 to 31, and below it the low half of `action` with the select
/// bit set.
pub open spec fn spec_select_control(action: u32, key: u16) -> int {
    0x1_0000 * key + (action & 0xFFFF | FW_CFG_DMA_CONTROL_SELECT)
}

/// The control word of a transfer that first selects the item `key`.
pub fn select_control(action: u32, key: u16) -> (control: u32)
    ensures
        control == spec_select_control(action, key),
{
    assert((action & 0xFFFF | 0x08u32 | (key as u32) << 16) == 0x1_0000 * key + (action & 0xFFFF
        | 0x08u32)) by (bit_vector);
    action & 0xFFFF | FW_CFG_DMA_CONTROL_SELECT | (key as u32) << 16
}

/// Builds the descriptor of a transfer and lays it out for the device. The
/// caller keeps the sixteen bytes in memory, stores their address in the DMA
/// address register ([`dma_register_bytes`]) and watches the first four of
/// them ([`fw_cfg_dma_poll`]).
pub fn fw_cfg_dma_transfer(control: u32, length: u32, address: u64) -> (descriptor: [u8; 16])
    ensures
        descriptor@ == (FWCfgDmaAccess { control, length, address }).wire(),
{
    let access = FWCfgDmaAccess { control, length, address };
    access.to_wire()
}

/// The bytes to store in the DMA address register to start the transfer
/// whose descriptor lies at `descriptor_address`.
pub fn dma_register_bytes(descriptor_address: u64) -> (bytes: [u8; 8])
    ensures
        bytes@ == be64_bytes(descriptor_address),
{
    u64_to_be(descriptor_address)
}

/// What a control word says of its transfer: the device is still at work
/// while any bit but the error bit is set; after that the error bit tells
/// failure from success.
pub open spec fn spec_dma_poll(control: int) -> Option<Result<(), BringupError>> {
    if control == 0 {
        Some(Ok(()))
    } else if control == 1 {
        Some(Err(BringupError::DmaTransferError))
    } else {
        None
    }
}

/// Judges the control word of a descriptor as it stands in memory, first
/// four bytes of the descriptor, big-endian. `None` while the transfer is
/// under way.
pub fn fw_cfg_dma_poll(control: &[u8; 4]) -> (r: Option<Result<(), BringupError>>)
    ensures
        r == spec_dma_poll(be32(control@, 0)),
{
    let word: u32 = read_be32(control.as_slice(), 0);
    assert((word & !0x01u32 != 0) == (word > 1)) by (bit_vector);
    assert((word & 0x01u32 != 0) == (word % 2 == 1)) by (bit_vector);
    if (word & !FW_CFG_DMA_CONTROL_ERROR) != 0 {
        None
    } else if (word & FW_CFG_DMA_CONTROL_ERROR) != 0 {
        Some(Err(BringupError::DmaTransferError))
    } else {
        Some(Ok(()))
    }
}

} // verus!

//! The header shared by every system description table.

use vstd::prelude::*;

use crate::bytes::{copy_range, le_at, read_u32, read_u8};

verus! {

/// Size in bytes of the common table header.
pub const SDT_SIZE: usize = 36;

/// A system description table: its decoded header, the physical address it
/// was read from, and the bytes of its data region.
#[derive(Clone, Debug, PartialEq, Eq)]
pub struct Sdt {
    pub signature: [u8; 4],
    pub length: u32,
    pub revision: u8,
    pub checksum: u8,
    pub oem_id: [u8; 6],
    pub oem_table_id: [u8; 8],
    pub oem_revision: u32,
    pub creator_id: u32,
    pub creator_revision: u32,
    /// Physical address of the first header byte.
    pub address: usize,
    /// The bytes in `[SDT_SIZE, length)` of the table.
    pub data: Vec<u8>,
}

/// Whether `b` holds a table: a whole header, and a declared length that
/// covers the header and lies within `b`.
pub open spec fn is_table(b: Seq<u8>) -> bool {
    &&& b.len() >= SDT_SIZE
    &&& le_at(b, 4, 4) >= SDT_SIZE
    &&& le_at(b, 4, 4) <= b.len()
}

impl Sdt {
    /// The data region matches the declared length.
    pub open spec fn wf(&self) -> bool {
        &&& self.length >= SDT_SIZE
        &&& self.data@.len() == self.length - SDT_SIZE
    }

    /// `self` is the table held by `b`, read at `address`.
    pub open spec fn decodes(&self, b: Seq<u8>, address: usize) -> bool {
        &&& self.signature@ == b.subrange(0, 4)
        &&& self.length as nat == le_at(b, 4, 4)
        &&& self.revision == b[8]
        &&& self.checksum == b[9]
        &&& self.oem_id@ == b.subrange(10, 16)
        &&& self.oem_table_id@ == b.subrange(16, 24)
        &&& self.oem_revision as nat == le_at(b, 24, 4)
        &&& self.creator_id as nat == le_at(b, 28, 4)
        &&& self.creator_revision as nat == le_at(b, 32, 4)
        &&& self.address == address
        &&& self.data@ == b.subrange(SDT_SIZE as int, le_at(b, 4, 4) as int)
    }

    /// Decodes the table held by `b`, which was read at physical `address`.
    /// Fails when `b` is shorter than a header, or when the declared length
    /// is below the header size or beyond `b`.
    pub fn from_bytes(b: &[u8], address: usize) -> (r: Option<Sdt>)
        ensures
            r is Some <==> is_table(b@),
            r matches Some(t) ==> t.decodes(b@, address) && t.wf(),
    {
        if b.len() < SDT_SIZE {
            return None;
        }
        let length = read_u32(b, 4);
        if (length as usize) < SDT_SIZE || length as usize > b.len() {
            return None;
        }
        let signature: [u8; 4] = [b[0], b[1], b[2], b[3]];
        let oem_id: [u8; 6] = [b[10], b[11], b[12], b[13], b[14], b[15]];
        let oem_table_id: [u8; 8] = [b[16], b[17], b[18], b[19], b[20], b[21], b[22], b[23]];
        let t = Sdt {
            signature,
            length,
            revision: read_u8(b, 8),
            checksum: read_u8(b, 9),
            oem_id,
            oem_table_id,
            oem_revision: read_u32(b, 24),
            creator_id: read_u32(b, 28),
            creator_revision: read_u32(b, 32),
            address,
            data: copy_range(b, SDT_SIZE, length as usize),
        };
        proof {
            assert(t.signature@ =~= b@.subrange(0, 4));
            assert(t.oem_id@ =~= b@.subrange(10, 16));
            assert(t.oem_table_id@ =~= b@.subrange(16, 24));
        }
        Some(t)
    }

    /// The declared total length of the table whose header starts `b`, so
    /// that the rest of the table can be read.
    pub fn declared_length(b: &[u8]) -> (r: Option<usize>)
        ensures
            r is Some <==> b@.len() >= SDT_SIZE,
            r matches Some(n) ==> n as nat == le_at(b@, 4, 4),
    {
        if b.len() < SDT_SIZE {
            None
        } else {
            Some(read_u32(b, 4) as usize)
        }
    }

    /// Whether the table carries the signature `sig`.
    pub fn signature_is(&self, sig: &[u8; 4]) -> (r: bool)
        ensures
            r == (self.signature@ == sig@),
    {
        let r = self.signature[0] == sig[0] && self.signature[1] == sig[1]
            && self.signature[2] == sig[2] && self.signature[3] == sig[3];
        proof {
            if r {
                assert(self.signature@ =~= sig@);
            }
        }
        r
    }

    /// Physical address of the first byte of the data region.
    pub fn data_address(&self) -> (r: usize)
        requires
            self.address + SDT_SIZE <= usize::MAX,
        ensures
            r == self.address + SDT_SIZE,
    {
        self.address + SDT_SIZE
    }

    /// Length of the data region: the declared length less the header, or
    /// zero where the declared length is below the header size.
    pub fn data_len(&self) -> (r: usize)
        ensures
            r == if self.length >= SDT_SIZE {
                (self.length - SDT_SIZE) as usize
            } else {
                0usize
            },
    {
        let total = self.length as usize;
        if total >= SDT_SIZE {
            total - SDT_SIZE
        } else {
            0
        }
    }
}

} // verus!

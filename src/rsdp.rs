//! The root system description pointer: where the root list lies.

use vstd::prelude::*;

use crate::bytes::{le_at, read_u32, read_u64};

verus! {

/// Size of the descriptor in bytes.
pub const RSDP_SIZE: usize = 36;

/// Number of leading bytes that the checksum covers.
pub const CHECKSUM_LEN: usize = 20;

/// Offset of the checksum byte.
pub const CHECKSUM_OFFSET: usize = 8;

/// Distance between two candidate positions of a scan.
pub const SCAN_STEP: usize = 16;

/// First physical address of the scan window.
pub const SCAN_START: usize = 0xE_0000;

/// Last physical address of the scan window.
pub const SCAN_END: usize = 0xF_FFFF;

/// The signature "RSD PTR ".
pub open spec fn rsdp_signature() -> Seq<u8> {
    seq![0x52u8, 0x53, 0x44, 0x20, 0x50, 0x54, 0x52, 0x20]
}

/// Sum of the bytes of `s`.
pub open spec fn byte_sum(s: Seq<u8>) -> nat
    decreases s.len(),
{
    if s.len() == 0 {
        0
    } else {
        byte_sum(s.drop_last()) + s.last() as nat
    }
}

/// The first `CHECKSUM_LEN` bytes of `s` sum to zero modulo 256.
pub open spec fn checksum_valid(s: Seq<u8>) -> bool {
    byte_sum(s.take(CHECKSUM_LEN as int)) % 256 == 0
}

/// Whether a descriptor starts at offset `o` of the scanned window `w`: a
/// multiple of the scan step, with a whole descriptor inside `w` that carries
/// the signature and a valid checksum.
pub open spec fn is_candidate(w: Seq<u8>, o: int) -> bool {
    &&& 0 <= o
    &&& o % SCAN_STEP as int == 0
    &&& o + RSDP_SIZE <= w.len()
    &&& w.subrange(o, o + 8) == rsdp_signature()
    &&& checksum_valid(w.subrange(o, o + RSDP_SIZE))
}

/// The first descriptor of `w` at or after offset `o` (a multiple of the step).
pub open spec fn first_candidate(w: Seq<u8>, o: int) -> Option<int>
    decreases w.len() - o,
{
    if o < 0 || o + RSDP_SIZE > w.len() {
        None
    } else if is_candidate(w, o) {
        Some(o)
    } else {
        first_candidate(w, o + SCAN_STEP)
    }
}

/// The checksum byte that makes the checksummed bytes of `s` sum to zero
/// modulo 256.
pub open spec fn repair_byte(s: Seq<u8>) -> u8 {
    let rest = byte_sum(s.take(CHECKSUM_LEN as int)) - s[CHECKSUM_OFFSET as int];
    ((256 - rest % 256) % 256) as u8
}

/// `s` with its checksum byte set to `repair_byte(s)`.
pub open spec fn repaired(s: Seq<u8>) -> Seq<u8> {
    s.update(CHECKSUM_OFFSET as int, repair_byte(s))
}

/// Changing one byte changes the sum by the difference.
pub proof fn lemma_byte_sum_update(s: Seq<u8>, i: int, x: u8)
    requires
        0 <= i < s.len(),
    ensures
        byte_sum(s.update(i, x)) + s[i] == byte_sum(s) + x,
        byte_sum(s) >= s[i],
    decreases s.len(),
{
    let t = s.update(i, x);
    if i == s.len() - 1 {
        assert(t.drop_last() =~= s.drop_last());
    } else {
        assert(t.drop_last() =~= s.drop_last().update(i, x));
        lemma_byte_sum_update(s.drop_last(), i, x);
    }
}

/// Changing any one checksummed byte of a descriptor whose checksum holds
/// makes the checksum fail; setting the checksum byte of the changed bytes
/// to its repair value makes the checksum hold again.
pub proof fn lemma_checksum_round_trip(b: Seq<u8>, i: int, x: u8)
    requires
        b.len() >= CHECKSUM_LEN,
        checksum_valid(b),
        0 <= i < CHECKSUM_LEN,
        x != b[i],
    ensures
        !checksum_valid(b.update(i, x)),
        checksum_valid(repaired(b.update(i, x))),
{
    let t = b.take(CHECKSUM_LEN as int);
    let c = b.update(i, x);
    assert(c.take(CHECKSUM_LEN as int) =~= t.update(i, x));
    lemma_byte_sum_update(t, i, x);
    let sum = byte_sum(t);
    let a = b[i] as int;
    let xi = x as int;
    assert((sum - a + xi) % 256 != 0) by (nonlinear_arith)
        requires
            sum % 256 == 0,
            0 <= a < 256,
            0 <= xi < 256,
            a != xi,
            sum >= a,
    {
        let q = sum / 256;
        assert(sum == 256 * q);
        if xi > a {
            assert(256 * q < sum - a + xi < 256 * q + 256);
        } else {
            assert(256 * (q - 1) < sum - a + xi < 256 * q);
        }
    }
    let u = c.take(CHECKSUM_LEN as int);
    let y = repair_byte(c);
    let rest = byte_sum(u) - u[CHECKSUM_OFFSET as int];
    lemma_byte_sum_update(u, CHECKSUM_OFFSET as int, y);
    assert(repaired(c).take(CHECKSUM_LEN as int) =~= u.update(CHECKSUM_OFFSET as int, y));
    assert((rest + (256 - rest % 256) % 256) % 256 == 0) by (nonlinear_arith)
        requires
            rest >= 0,
    {
        let q = rest / 256;
        let m = rest % 256;
        assert(rest == 256 * q + m);
        if m == 0 {
            assert(rest + (256 - m) % 256 == 256 * q);
        } else {
            assert(rest + (256 - m) % 256 == 256 * (q + 1));
        }
    }
}

/// The root system description pointer.
#[derive(Clone, Copy, Debug, PartialEq, Eq)]
pub struct RSDP {
    pub signature: [u8; 8],
    pub checksum: u8,
    pub oem_id: [u8; 6],
    pub revision: u8,
    pub rsdt_address: u32,
    pub length: u32,
    pub xsdt_address: u64,
    pub extended_checksum: u8,
}

/// Whether the sum of the checksummed bytes of `b` is zero modulo 256.
pub fn validate_checksum(b: &[u8]) -> (r: bool)
    requires
        b@.len() >= CHECKSUM_LEN,
    ensures
        r == checksum_valid(b@),
{
    let mut sum: u32 = 0;
    let mut i: usize = 0;
    while i < CHECKSUM_LEN
        invariant
            i <= CHECKSUM_LEN <= b@.len(),
            sum as nat == byte_sum(b@.take(i as int)),
            sum <= 255 * i,
        decreases CHECKSUM_LEN - i,
    {
        proof {
            assert(b@.take(i + 1).drop_last() =~= b@.take(i as int));
        }
        sum = sum + b[i] as u32;
        i = i + 1;
    }
    sum % 256 == 0
}

impl RSDP {
    /// `self` is the descriptor held by the first `RSDP_SIZE` bytes of `b`.
    pub open spec fn decodes(&self, b: Seq<u8>) -> bool {
        &&& self.signature@ == b.subrange(0, 8)
        &&& self.checksum == b[8]
        &&& self.oem_id@ == b.subrange(9, 15)
        &&& self.revision == b[15]
        &&& self.rsdt_address as nat == le_at(b, 16, 4)
        &&& self.length as nat == le_at(b, 20, 4)
        &&& self.xsdt_address as nat == le_at(b, 24, 8)
        &&& self.extended_checksum == b[32]
    }

    /// Decodes the descriptor at offset `o` of `b`, checking nothing.
    fn decode_at(b: &[u8], o: usize) -> (r: RSDP)
        requires
            o + RSDP_SIZE <= b@.len(),
        ensures
            r.decodes(b@.subrange(o as int, o + RSDP_SIZE)),
    {
        let ghost s = b@.subrange(o as int, o + RSDP_SIZE);
        let signature: [u8; 8] = [b[o], b[o + 1], b[o + 2], b[o + 3], b[o + 4], b[o + 5], b[o + 6], b[o + 7]];
        let oem_id: [u8; 6] = [b[o + 9], b[o + 10], b[o + 11], b[o + 12], b[o + 13], b[o + 14]];
        let rsdt_address = read_u32(b, o + 16);
        let length = read_u32(b, o + 20);
        let xsdt_address = read_u64(b, o + 24);
        proof {
            assert(signature@ =~= s.subrange(0, 8));
            assert(oem_id@ =~= s.subrange(9, 15));
            assert(s.subrange(16, 20) =~= b@.subrange(o + 16, o + 20));
            assert(s.subrange(20, 24) =~= b@.subrange(o + 20, o + 24));
            assert(s.subrange(24, 32) =~= b@.subrange(o + 24, o + 32));
        }
        RSDP {
            signature,
            checksum: b[o + 8],
            oem_id,
            revision: b[o + 15],
            rsdt_address,
            length,
            xsdt_address,
            extended_checksum: b[o + 32],
        }
    }

    /// Accepts the descriptor that an earlier boot stage handed over, read
    /// into `b`, when its checksum holds.
    pub fn get_already_supplied_rsdp(b: &[u8]) -> (r: Option<RSDP>)
        ensures
            r is Some <==> b@.len() >= RSDP_SIZE && checksum_valid(b@),
            r matches Some(p) ==> p.decodes(b@),
    {
        if b.len() >= RSDP_SIZE && validate_checksum(b) {
            let r = Self::decode_at(b, 0);
            proof {
                assert(b@.subrange(0, RSDP_SIZE as int) =~= b@.subrange(0, 36));
                let s = b@.subrange(0, 36);
                assert(s.subrange(0, 8) =~= b@.subrange(0, 8));
                assert(s.subrange(9, 15) =~= b@.subrange(9, 15));
                assert(s.subrange(16, 20) =~= b@.subrange(16, 20));
                assert(s.subrange(20, 24) =~= b@.subrange(20, 24));
                assert(s.subrange(24, 32) =~= b@.subrange(24, 32));
            }
            Some(r)
        } else {
            None
        }
    }

    /// Scans `w`, the bytes of the scan window, in steps of `SCAN_STEP` for the
    /// first position that holds the signature and a valid checksum.
    pub fn search(w: &[u8]) -> (r: Option<RSDP>)
        ensures
            r is Some <==> first_candidate(w@, 0) is Some,
            r matches Some(p) ==> p.decodes(w@.subrange(first_candidate(w@, 0)->0, first_candidate(w@, 0)->0 + RSDP_SIZE)),
    {
        let len = w.len();
        let mut o: usize = 0;
        while o <= len && RSDP_SIZE <= len - o
            invariant
                len == w@.len(),
                o % SCAN_STEP == 0,
                first_candidate(w@, 0) == first_candidate(w@, o as int),
            decreases len + SCAN_STEP - o,
        {
            let sig_ok = w[o] == 0x52 && w[o + 1] == 0x53 && w[o + 2] == 0x44 && w[o + 3] == 0x20
                && w[o + 4] == 0x50 && w[o + 5] == 0x54 && w[o + 6] == 0x52 && w[o + 7] == 0x20;
            let ghost cand = w@.subrange(o as int, o + RSDP_SIZE);
            proof {
                if sig_ok {
                    assert(w@.subrange(o as int, o + 8) =~= rsdp_signature());
                } else {
                    assert(w@.subrange(o as int, o + 8) != rsdp_signature()) by {
                        let t = w@.subrange(o as int, o + 8);
                        if t == rsdp_signature() {
                            assert(t[0] == w@[o as int]);
                            assert(t[1] == w@[o + 1]);
                            assert(t[2] == w@[o + 2]);
                            assert(t[3] == w@[o + 3]);
                            assert(t[4] == w@[o + 4]);
                            assert(t[5] == w@[o + 5]);
                            assert(t[6] == w@[o + 6]);
                            assert(t[7] == w@[o + 7]);
                        }
                    }
                }
            }
            if sig_ok {
                let c = crate::bytes::copy_range(w, o, o + RSDP_SIZE);
                if validate_checksum(c.as_slice()) {
                    let p = Self::decode_at(w, o);
                    return Some(p);
                }
            }
            if len - o < SCAN_STEP {
                proof {
                    assert(first_candidate(w@, o + SCAN_STEP) is None);
                }
                return None;
            }
            o = o + SCAN_STEP;
        }
        None
    }

    /// Finds the root descriptor: the one handed over by an earlier boot
    /// stage if there is one (its checksum is checked, nothing is scanned),
    /// else the first one found in the bytes of the scan window `w`.
    pub fn get_rsdp(supplied: Option<&[u8]>, w: &[u8]) -> (r: Option<RSDP>)
        ensures
            supplied matches Some(b) ==> {
                &&& (r is Some <==> b@.len() >= RSDP_SIZE && checksum_valid(b@))
                &&& (r matches Some(p) ==> p.decodes(b@))
            },
            supplied is None ==> {
                &&& (r is Some <==> first_candidate(w@, 0) is Some)
                &&& (r matches Some(p) ==> p.decodes(
                    w@.subrange(first_candidate(w@, 0)->0, first_candidate(w@, 0)->0 + RSDP_SIZE),
                ))
            },
    {
        match supplied {
            Some(b) => Self::get_already_supplied_rsdp(b),
            None => Self::search(w),
        }
    }

    /// Physical address of the root list: the wide one from revision 2 on,
    /// else the narrow one.
    pub open spec fn spec_sdt_address(&self) -> usize {
        if self.revision >= 2 {
            self.xsdt_address as usize
        } else {
            self.rsdt_address as usize
        }
    }

    /// Physical address of the root list: the wide one from revision 2 on,
    /// else the narrow one.
    #[verifier::when_used_as_spec(spec_sdt_address)]
    pub fn sdt_address(&self) -> (r: usize)
        ensures
            r == self.spec_sdt_address(),
    {
        if self.revision >= 2 {
            self.xsdt_address as usize
        } else {
            self.rsdt_address as usize
        }
    }
}

} // verus!

//! The root list: physical addresses of every other table, stored in the
//! data region of the root table as 4-byte (narrow) or 8-byte (wide) entries.

use vstd::prelude::*;

use crate::bytes::{le_at, le_encode, lemma_le_round_trip, lemma_pow256_values, pow256};
use crate::rsdt::Rsdt;
use crate::sdt::Sdt;
use crate::xsdt::Xsdt;

verus! {

/// The addresses held by `d` as entries of `w` bytes; bytes that do not make
/// a whole entry at the end are not read.
pub open spec fn root_entries(d: Seq<u8>, w: nat) -> Seq<usize> {
    Seq::new(d.len() / w, |i: int| le_at(d, w * i, w as int) as usize)
}

/// `a` written as consecutive little-endian entries of `w` bytes.
pub open spec fn encode_entries(a: Seq<usize>, w: nat) -> Seq<u8> {
    Seq::new(a.len() * w, |j: int| le_encode(a[j / w as int] as nat, w)[j % w as int])
}

proof fn lemma_decode_encoded(a: Seq<usize>, w: nat)
    requires
        w > 0,
        forall|i: int| 0 <= i < a.len() ==> (#[trigger] a[i] as nat) < pow256(w),
    ensures
        root_entries(encode_entries(a, w), w) == a,
{
    let e = encode_entries(a, w);
    assert(e.len() / w == a.len()) by (nonlinear_arith)
        requires
            e.len() == a.len() * w,
            w > 0,
    ;
    let r = root_entries(e, w);
    assert forall|i: int| 0 <= i < a.len() implies #[trigger] r[i] == a[i] by {
        lemma_le_round_trip(a[i] as nat, w);
        assert(w * i + w <= a.len() * w) by (nonlinear_arith)
            requires
                0 <= i < a.len(),
        ;
        let part = e.subrange(w * i, w * i + w);
        assert forall|k: int| 0 <= k < w implies #[trigger] part[k] == le_encode(a[i] as nat, w)[k] by {
            assert(w * i + k < a.len() * w) by (nonlinear_arith)
                requires
                    0 <= k < w,
                    0 <= i < a.len(),
            ;
            assert(w * i + k == i * w + k) by (nonlinear_arith);
            vstd::arithmetic::div_mod::lemma_fundamental_div_mod_converse(w * i + k, w as int, i, k);
            assert(part[k] == e[w * i + k]);
            assert(w * i + k < a.len() * w) by (nonlinear_arith)
                requires
                    0 <= k < w,
                    0 <= i < a.len(),
            ;
        }
        assert(part =~= le_encode(a[i] as nat, w));
    }
    assert(r =~= a);
}

/// Encoding addresses below 2^32 as narrow entries or as wide entries, and
/// decoding each list with its own width, gives the same addresses back.
pub proof fn lemma_narrow_wide_agree(a: Seq<usize>)
    requires
        forall|i: int| 0 <= i < a.len() ==> (#[trigger] a[i] as nat) < 0x1_0000_0000,
    ensures
        root_entries(encode_entries(a, 4), 4) == a,
        root_entries(encode_entries(a, 8), 8) == a,
        root_entries(encode_entries(a, 4), 4) == root_entries(encode_entries(a, 8), 8),
{
    lemma_pow256_values();
    lemma_decode_encoded(a, 4);
    lemma_decode_encoded(a, 8);
}

/// The root table in either of its two encodings.
pub enum RxsdtEnum<'a> {
    Rsdt(Rsdt<'a>),
    Xsdt(Xsdt<'a>),
}

impl<'a> RxsdtEnum<'a> {
    /// The addresses that the root table lists.
    pub open spec fn spec_addresses(&self) -> Seq<usize> {
        match self {
            RxsdtEnum::Rsdt(t) => root_entries(t.0.data@, 4),
            RxsdtEnum::Xsdt(t) => root_entries(t.0.data@, 8),
        }
    }

    /// Views `sdt` as a narrow root list if it is signed "RSDT", else as a
    /// wide one if it is signed "XSDT".
    pub fn new(sdt: &'a Sdt) -> (r: Option<RxsdtEnum<'a>>)
        ensures
            sdt.signature@ == crate::rsdt::rsdt_signature() ==> r == Some(RxsdtEnum::Rsdt(Rsdt(sdt))),
            sdt.signature@ != crate::rsdt::rsdt_signature() && sdt.signature@ == crate::xsdt::xsdt_signature()
                ==> r == Some(RxsdtEnum::Xsdt(Xsdt(sdt))),
            sdt.signature@ != crate::rsdt::rsdt_signature() && sdt.signature@ != crate::xsdt::xsdt_signature()
                ==> r is None,
    {
        match (Rsdt::new(sdt), Xsdt::new(sdt)) {
            (Some(rsdt), _) => Some(RxsdtEnum::Rsdt(rsdt)),
            (_, Some(xsdt)) => Some(RxsdtEnum::Xsdt(xsdt)),
            _ => None,
        }
    }

    /// The listed addresses, in order.
    pub fn iter(&self) -> (r: Vec<usize>)
        ensures
            r@ == self.spec_addresses(),
    {
        match self {
            RxsdtEnum::Rsdt(t) => {
                assert(self.spec_addresses() == root_entries(t.0.data@, 4));
                let mut it = t.iter();
                let mut r: Vec<usize> = Vec::new();
                loop
                    invariant
                        it.sdt == t.0,
                        self.spec_addresses() == root_entries(t.0.data@, 4),
                        r@ + it.remaining() == root_entries(t.0.data@, 4),
                    decreases it.remaining().len(),
                {
                    let ghost before = it.remaining();
                    match it.next() {
                        Some(a) => {
                            r.push(a);
                            proof {
                                assert(r@ + it.remaining() =~= root_entries(t.0.data@, 4));
                            }
                        },
                        None => {
                            proof {
                                assert(r@ =~= r@ + before);
                                assert(r@ =~= root_entries(t.0.data@, 4));
                            }
                            return r;
                        },
                    }
                }
            },
            RxsdtEnum::Xsdt(t) => {
                assert(self.spec_addresses() == root_entries(t.0.data@, 8));
                let mut it = t.iter();
                let mut r: Vec<usize> = Vec::new();
                loop
                    invariant
                        it.sdt == t.0,
                        self.spec_addresses() == root_entries(t.0.data@, 8),
                        r@ + it.remaining() == root_entries(t.0.data@, 8),
                    decreases it.remaining().len(),
                {
                    let ghost before = it.remaining();
                    match it.next() {
                        Some(a) => {
                            r.push(a);
                            proof {
                                assert(r@ + it.remaining() =~= root_entries(t.0.data@, 8));
                            }
                        },
                        None => {
                            proof {
                                assert(r@ =~= r@ + before);
                                assert(r@ =~= root_entries(t.0.data@, 8));
                            }
                            return r;
                        },
                    }
                }
            },
        }
    }
}

} // verus!

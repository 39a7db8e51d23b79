//! The wide root list, signed "XSDT": 8-byte physical addresses.

use vstd::prelude::*;

use crate::bytes::read_u64;
use crate::rxsdt::root_entries;
use crate::sdt::Sdt;

verus! {

/// The "XSDT" signature.
pub open spec fn xsdt_signature() -> Seq<u8> {
    seq![0x58u8, 0x53, 0x44, 0x54]
}

/// A root table whose entries are 8-byte addresses.
#[derive(Clone, Copy, Debug)]
pub struct Xsdt<'a>(pub &'a Sdt);

impl<'a> Xsdt<'a> {
    /// Views `sdt` as this kind of root list when it carries its signature.
    pub fn new(sdt: &'a Sdt) -> (r: Option<Xsdt<'a>>)
        ensures
            r is Some <==> sdt.signature@ == xsdt_signature(),
            r matches Some(t) ==> t.0 == sdt,
    {
        if sdt.signature_is(&[0x58, 0x53, 0x44, 0x54]) {
            Some(Xsdt(sdt))
        } else {
            None
        }
    }

    /// A walk over the listed addresses, from the first.
    pub fn iter(&self) -> (r: XsdtIter<'a>)
        ensures
            r.sdt == self.0,
            r.remaining() == root_entries(self.0.data@, 8),
    {
        let r = XsdtIter { sdt: self.0, i: 0 };
        proof {
            assert(r.remaining() =~= root_entries(self.0.data@, 8));
        }
        r
    }
}

/// A walk over the entries of a wide root list.
pub struct XsdtIter<'a> {
    pub sdt: &'a Sdt,
    pub i: usize,
}

impl<'a> XsdtIter<'a> {
    /// The addresses that the walk has still to yield.
    pub open spec fn remaining(&self) -> Seq<usize> {
        let all = root_entries(self.sdt.data@, 8);
        if self.i <= all.len() {
            all.skip(self.i as int)
        } else {
            Seq::empty()
        }
    }

    /// Yields the next address, or `None` after the last whole entry.
    pub fn next(&mut self) -> (r: Option<usize>)
        ensures
            final(self).sdt == old(self).sdt,
            old(self).remaining().len() == 0 ==> r is None && final(self).remaining().len() == 0,
            old(self).remaining().len() > 0 ==> {
                &&& r == Some(old(self).remaining()[0])
                &&& final(self).remaining() == old(self).remaining().drop_first()
            },
    {
        let d = self.sdt.data.as_slice();
        let count = d.len() / 8;
        if self.i < count {
            let i = self.i;
            proof {
                assert(i * 8 + 8 <= d@.len()) by (nonlinear_arith)
                    requires
                        i < d@.len() / 8,
                ;
                assert(i * 8 == 8 * i);
            }
            let item = read_u64(d, i * 8) as usize;
            self.i = i + 1;
            proof {
                assert(self.remaining() =~= old(self).remaining().drop_first());
            }
            Some(item)
        } else {
            None
        }
    }
}

} // verus!

//! The narrow root list, signed "RSDT": 4-byte physical addresses.

use vstd::prelude::*;

use crate::bytes::read_u32;
use crate::rxsdt::root_entries;
use crate::sdt::Sdt;

verus! {

/// The "RSDT" signature.
pub open spec fn rsdt_signature() -> Seq<u8> {
    seq![0x52u8, 0x53, 0x44, 0x54]
}

/// A root table whose entries are 4-byte addresses.
#[derive(Clone, Copy, Debug)]
pub struct Rsdt<'a>(pub &'a Sdt);

impl<'a> Rsdt<'a> {
    /// Views `sdt` as this kind of root list when it carries its signature.
    pub fn new(sdt: &'a Sdt) -> (r: Option<Rsdt<'a>>)
        ensures
            r is Some <==> sdt.signature@ == rsdt_signature(),
            r matches Some(t) ==> t.0 == sdt,
    {
        if sdt.signature_is(&[0x52, 0x53, 0x44, 0x54]) {
            Some(Rsdt(sdt))
        } else {
            None
        }
    }

    /// A walk over the listed addresses, from the first.
    pub fn iter(&self) -> (r: RsdtIter<'a>)
        ensures
            r.sdt == self.0,
            r.remaining() == root_entries(self.0.data@, 4),
    {
        let r = RsdtIter { sdt: self.0, i: 0 };
        proof {
            assert(r.remaining() =~= root_entries(self.0.data@, 4));
        }
        r
    }
}

/// A walk over the entries of a narrow root list.
pub struct RsdtIter<'a> {
    pub sdt: &'a Sdt,
    pub i: usize,
}

impl<'a> RsdtIter<'a> {
    /// The addresses that the walk has still to yield.
    pub open spec fn remaining(&self) -> Seq<usize> {
        let all = root_entries(self.sdt.data@, 4);
        if self.i <= all.len() {
            all.skip(self.i as int)
        } else {
            Seq::empty()
        }
    }

    /// Yields the next address, or `None` after the last whole entry.
    pub fn next(&mut self) -> (r: Option<usize>)
        ensures
            final(self).sdt == old(self).sdt,
            old(self).remaining().len() == 0 ==> r is None && final(self).remaining().len() == 0,
            old(self).remaining().len() > 0 ==> {
                &&& r == Some(old(self).remaining()[0])
                &&& final(self).remaining() == old(self).remaining().drop_first()
            },
    {
        let d = self.sdt.data.as_slice();
        let count = d.len() / 4;
        if self.i < count {
            let i = self.i;
            proof {
                assert(i * 4 + 4 <= d@.len()) by (nonlinear_arith)
                    requires
                        i < d@.len() / 4,
                ;
                assert(i * 4 == 4 * i);
            }
            let item = read_u32(d, i * 4) as usize;
            self.i = i + 1;
            proof {
                assert(self.remaining() =~= old(self).remaining().drop_first());
            }
            Some(item)
        } else {
            None
        }
    }
}

} // verus!

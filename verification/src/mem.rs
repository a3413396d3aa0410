//! The memory/MMIO bus: a flat RAM window plus a list of device regions.
//!
//! RAM is a zeroed byte buffer logically based at `memory_base`. Devices are
//! mapped as half-open address ranges that must not overlap each other or
//! RAM. After mapping, the regions are sorted by base address and lookups
//! use binary search. Accesses whose first byte falls inside RAM are
//! bounds-checked against the RAM window and served little-endian from the
//! buffer; otherwise the covering region's device is asked; anything else is
//! out of bounds. A single-shot flag records whether the last access touched
//! a device.

use vstd::prelude::*;
use vstd::bytes::*;
use vstd::slice::{slice_subrange, slice_to_vec};

use crate::config::DeviceFile;
use crate::device::DeviceError;
use crate::device::MmioDevice;

verus! {

/// An error from the bus.
#[derive(Debug)]
pub enum MemoryError {
    /// The access lies outside RAM and every mapped region.
    OutOfBounds { addr: u64, size: usize },
    /// An alignment requirement was not met.
    Misaligned { addr: u64, alignment: usize },
    /// A new region would overlap RAM or an already mapped region.
    MmioOverlap { addr: u64 },
    /// The device rejected the access.
    Device(DeviceError),
}

/// A device mapped over the half-open address range `[base, base + size)`.
pub struct MmioRegion<D> {
    pub base: u64,
    pub size: u64,
    pub device: D,
    pub name: String,
}

/// Whether `addr` falls inside the region.
pub open spec fn region_contains<D>(r: MmioRegion<D>, addr: u64) -> bool {
    r.base <= addr && (addr as int) < r.base + r.size
}

/// Whether the half-open ranges `[b1, b1 + s1)` and `[b2, b2 + s2)` are
/// disjoint.
pub open spec fn ranges_disjoint(b1: u64, s1: u64, b2: u64, s2: u64) -> bool {
    b1 + s1 <= b2 || b2 + s2 <= b1
}

/// `s` with the bytes starting at `off` replaced by `b`.
pub open spec fn spec_store(s: Seq<u8>, off: int, b: Seq<u8>) -> Seq<u8> {
    s.take(off) + b + s.skip(off + b.len())
}

/// Storing back the bytes just read leaves RAM unchanged.
pub proof fn lemma_store_read_back(s: Seq<u8>, off: int, n: nat)
    requires
        0 <= off,
        off + n <= s.len(),
    ensures
        spec_store(s, off, s.subrange(off, off + n)) == s,
{
    assert(spec_store(s, off, s.subrange(off, off + n)) =~= s);
}

/// The bytes just stored are what a load of the same range returns.
pub proof fn lemma_store_then_load(s: Seq<u8>, off: int, b: Seq<u8>)
    requires
        0 <= off,
        off + b.len() <= s.len(),
    ensures
        spec_store(s, off, b).len() == s.len(),
        spec_store(s, off, b).subrange(off, off + b.len()) == b,
        forall|k: int|
            0 <= k < s.len() && !(off <= k < off + b.len()) ==> spec_store(s, off, b)[k] == s[k],
{
    assert(spec_store(s, off, b).subrange(off, off + b.len()) =~= b);
}

/// Writing a word of any width and reading it back through the little-endian
/// encoding yields the value that was written.
pub proof fn lemma_write_read_round_trip(s: Seq<u8>, off: int, v8: u8, v16: u16, v32: u32, v64: u64)
    requires
        0 <= off,
        off + 8 <= s.len(),
    ensures
        spec_store(s, off, seq![v8]).subrange(off, off + 1) == seq![v8],
        spec_u16_from_le_bytes(
            spec_store(s, off, spec_u16_to_le_bytes(v16)).subrange(off, off + 2),
        ) == v16,
        spec_u32_from_le_bytes(
            spec_store(s, off, spec_u32_to_le_bytes(v32)).subrange(off, off + 4),
        ) == v32,
        spec_u64_from_le_bytes(
            spec_store(s, off, spec_u64_to_le_bytes(v64)).subrange(off, off + 8),
        ) == v64,
{
    lemma_auto_spec_u16_to_from_le_bytes();
    lemma_auto_spec_u32_to_from_le_bytes();
    lemma_auto_spec_u64_to_from_le_bytes();
    lemma_store_then_load(s, off, seq![v8]);
    lemma_store_then_load(s, off, spec_u16_to_le_bytes(v16));
    lemma_store_then_load(s, off, spec_u32_to_le_bytes(v32));
    lemma_store_then_load(s, off, spec_u64_to_le_bytes(v64));
}

/// Swapping two adjacent elements of a sequence leaves its multiset of
/// elements unchanged.
proof fn lemma_swap_adjacent_multiset<A>(s1: Seq<A>, s2: Seq<A>, p: int)
    requires
        0 <= p,
        p + 1 < s1.len(),
        s2.len() == s1.len(),
        s2[p] == s1[p + 1],
        s2[p + 1] == s1[p],
        forall|k: int| 0 <= k < s1.len() && k != p && k != p + 1 ==> s2[k] == s1[k],
    ensures
        s1.to_multiset() == s2.to_multiset(),
{
    broadcast use vstd::seq_lib::lemma_multiset_commutative;
    broadcast use vstd::seq_lib::to_multiset_build;
    broadcast use vstd::multiset::group_multiset_axioms;

    let l = s1.take(p);
    let r = s1.skip(p + 2);
    let a = s1[p];
    let b = s1[p + 1];
    assert(s1 =~= (l + seq![a, b]) + r);
    assert(s2 =~= (l + seq![b, a]) + r);
    assert(seq![a, b] =~= Seq::<A>::empty().push(a).push(b));
    assert(seq![b, a] =~= Seq::<A>::empty().push(b).push(a));
    assert(seq![a, b].to_multiset() =~= seq![b, a].to_multiset());
    assert((l + seq![a, b]).to_multiset() =~= (l + seq![b, a]).to_multiset());
    assert(((l + seq![a, b]) + r).to_multiset() =~= ((l + seq![b, a]) + r).to_multiset());
}

/// The bus.
pub struct Memory<D> {
    data: Vec<u8>,
    memory_base: u64,
    memory_size: usize,
    mmio_regions: Vec<MmioRegion<D>>,
    last_mmio: bool,
}

impl<D> Memory<D> {
    /// The RAM contents.
    pub closed spec fn ram(&self) -> Seq<u8> {
        self.data@
    }

    /// The address RAM is based at.
    pub closed spec fn base_addr(&self) -> u64 {
        self.memory_base
    }

    /// The RAM size in bytes.
    pub closed spec fn ram_size(&self) -> nat {
        self.memory_size as nat
    }

    /// The mapped regions, in storage order.
    pub closed spec fn regions(&self) -> Seq<MmioRegion<D>> {
        self.mmio_regions@
    }

    /// Whether the last access dispatched to a device.
    pub closed spec fn mmio_touched(&self) -> bool {
        self.last_mmio
    }

    /// Whether `addr` falls inside the RAM window.
    pub open spec fn addr_in_ram(&self, addr: u64) -> bool {
        self.base_addr() <= addr && (addr as int) < self.base_addr() + self.ram_size()
    }

    /// Whether the `n`-byte range starting at `addr` lies wholly inside RAM.
    pub open spec fn range_in_ram(&self, addr: u64, n: nat) -> bool {
        self.base_addr() <= addr && addr + n <= self.base_addr() + self.ram_size()
    }

    /// The RAM offset of `addr`.
    pub open spec fn ram_off(&self, addr: u64) -> int {
        addr - self.base_addr()
    }

    /// Whether some mapped region contains `addr`.
    pub open spec fn covered(&self, addr: u64) -> bool {
        exists|i: int| 0 <= i < self.regions().len() && region_contains(self.regions()[i], addr)
    }

    /// No two mapped regions overlap.
    pub open spec fn regions_pairwise_disjoint(&self) -> bool {
        forall|i: int, j: int|
            0 <= i < self.regions().len() && 0 <= j < self.regions().len() && i != j
                ==> ranges_disjoint(
                #[trigger] self.regions()[i].base,
                self.regions()[i].size,
                #[trigger] self.regions()[j].base,
                self.regions()[j].size,
            )
    }

    /// No mapped region overlaps the RAM window.
    pub open spec fn regions_disjoint_from_ram(&self) -> bool {
        forall|i: int|
            0 <= i < self.regions().len() ==> ranges_disjoint(
                #[trigger] self.regions()[i].base,
                self.regions()[i].size,
                self.base_addr(),
                self.ram_size() as u64,
            )
    }

    /// The regions are in ascending address order: each ends at or before the
    /// next begins.
    pub open spec fn regions_sorted(&self) -> bool {
        forall|i: int, j: int|
            0 <= i < j < self.regions().len() ==> #[trigger] self.regions()[i].base
                + self.regions()[i].size <= #[trigger] self.regions()[j].base
    }

    /// Well-formedness: the buffer matches the declared RAM size, every
    /// range's end is representable, every region has at least one byte, and
    /// the regions overlap neither each other nor RAM.
    pub closed spec fn wf(&self) -> bool {
        &&& self.data@.len() == self.memory_size
        &&& self.base_addr() + self.ram_size() <= u64::MAX
        &&& self.ram_size() <= usize::MAX
        &&& forall|i: int|
            0 <= i < self.regions().len() ==> (#[trigger] self.regions()[i].base)
                + self.regions()[i].size <= u64::MAX
        &&& forall|i: int| 0 <= i < self.regions().len() ==> (#[trigger] self.regions()[i].size) >= 1
        &&& self.regions_pairwise_disjoint()
        &&& self.regions_disjoint_from_ram()
    }

    /// The other bus has the same region layout: as many regions, at the
    /// same addresses, with the same names; only the devices may differ.
    pub open spec fn same_region_layout(&self, other: &Memory<D>) -> bool {
        &&& self.regions().len() == other.regions().len()
        &&& forall|i: int|
            0 <= i < self.regions().len() ==> (#[trigger] self.regions()[i]).base
                == other.regions()[i].base && self.regions()[i].size == other.regions()[i].size
                && self.regions()[i].name == other.regions()[i].name
    }

    /// The other bus is identical but for the single-shot device-touch flag.
    pub open spec fn same_but_flag(&self, other: &Memory<D>) -> bool {
        &&& self.ram() == other.ram()
        &&& self.base_addr() == other.base_addr()
        &&& self.ram_size() == other.ram_size()
        &&& self.regions() == other.regions()
    }

    /// Whether a new region `[base, base + size)` would overlap an existing
    /// region or RAM.
    pub open spec fn new_region_conflicts(&self, base: u64, size: u64) -> bool {
        ||| exists|i: int|
            0 <= i < self.regions().len() && !ranges_disjoint(
                base,
                size,
                (#[trigger] self.regions()[i]).base,
                self.regions()[i].size,
            )
        ||| !ranges_disjoint(base, size, self.base_addr(), self.ram_size() as u64)
    }
}

/// Whether `n` is a power of two.
pub open spec fn spec_is_pow2(n: nat) -> bool
    decreases n,
{
    if n == 0 {
        false
    } else if n == 1 {
        true
    } else {
        n % 2 == 0 && spec_is_pow2(n / 2)
    }
}

/// Decide whether `n` is a power of two.
pub fn is_pow2(n: usize) -> (r: bool)
    ensures
        r == spec_is_pow2(n as nat),
{
    if n == 0 {
        return false;
    }
    let mut m: usize = n;
    while m > 1
        invariant
            m >= 1,
            spec_is_pow2(n as nat) == spec_is_pow2(m as nat),
        decreases m,
    {
        if m % 2 != 0 {
            return false;
        }
        m = m / 2;
    }
    true
}

impl<D: MmioDevice> Memory<D> {
    /// Build the bus from the device configuration: a zeroed RAM buffer of
    /// `memory_size` MiB based at `memory_base`, and no regions yet. Fails
    /// with a misalignment error when the byte size is not a power of two.
    pub fn new(device_file: &DeviceFile) -> (r: Result<Memory<D>, MemoryError>)
        requires
            device_file.memory.memory_size * 0x100000 <= usize::MAX,
            device_file.memory.memory_base + device_file.memory.memory_size * 0x100000
                <= u64::MAX,
        ensures
            spec_is_pow2((device_file.memory.memory_size * 0x100000) as nat) ==> (r matches Ok(m)
                && m.wf() && m.base_addr() == device_file.memory.memory_base && m.ram_size()
                == device_file.memory.memory_size * 0x100000 && m.ram() == Seq::new(
                (device_file.memory.memory_size * 0x100000) as nat,
                |i: int| 0u8,
            ) && m.regions().len() == 0 && !m.mmio_touched()),
            !spec_is_pow2((device_file.memory.memory_size * 0x100000) as nat) ==> r matches Err(
                MemoryError::Misaligned { addr: 0u64, alignment: 2usize },
            ),
    {
        let size: usize = device_file.memory.memory_size * 0x100000;
        if !is_pow2(size) {
            return Err(MemoryError::Misaligned { addr: 0, alignment: 2 });
        }
        let data: Vec<u8> = vec![0u8; size];
        proof {
            assert(data@ =~= Seq::new(size as nat, |i: int| 0u8));
        }
        Ok(
            Memory {
                data,
                memory_base: device_file.memory.memory_base,
                memory_size: size,
                mmio_regions: Vec::new(),
                last_mmio: false,
            },
        )
    }


    /// The RAM sequence is exactly `ram_size` bytes long; public so that
    /// callers can combine the store/load lemmas with the bus contracts.
    pub proof fn lemma_ram_len(&self)
        requires
            self.wf(),
        ensures
            self.ram().len() == self.ram_size(),
    {
    }

    /// Whether `addr` falls inside the RAM window.
    pub fn is_mem_region(&self, addr: u64) -> (r: bool)
        requires
            self.wf(),
        ensures
            r == self.addr_in_ram(addr),
    {
        addr >= self.memory_base && addr < self.memory_base + self.memory_size as u64
    }

    /// Whether the `size`-byte range starting at `addr` lies wholly inside
    /// RAM.
    pub fn is_mem_region_range(&self, addr: u64, size: usize) -> (r: bool)
        requires
            self.wf(),
        ensures
            r == self.range_in_ram(addr, size as nat),
    {
        addr >= self.memory_base && size as u64 <= u64::MAX - addr && addr + size as u64
            <= self.memory_base + self.memory_size as u64
    }

    /// Map a device over `[base, base + size)`, rejecting any overlap with
    /// an existing region or with RAM. An empty region would be
    /// unreachable, so a region spans at least one byte.
    pub fn map_mmio(&mut self, base: u64, size: u64, device: D, name: String) -> (r: Result<
        (),
        MemoryError,
    >)
        requires
            old(self).wf(),
            size >= 1,
            base + size <= u64::MAX,
        ensures
            final(self).wf(),
            old(self).new_region_conflicts(base, size) ==> (r matches Err(
                MemoryError::MmioOverlap { addr },
            ) && addr == base && final(self).same_but_flag(old(self)) && final(self).mmio_touched()
                == old(self).mmio_touched()),
            !old(self).new_region_conflicts(base, size) ==> (r matches Ok(_) && final(self).ram()
                == old(self).ram() && final(self).base_addr() == old(self).base_addr() && final(self).ram_size() == old(self).ram_size() && final(self).mmio_touched() == old(self).mmio_touched() && final(self).regions().len() == old(self).regions().len() + 1
                && final(self).regions().subrange(0, old(self).regions().len() as int) == old(self).regions() && final(self).regions().last().base == base && final(self).regions().last().size == size && final(self).regions().last().name == name),
    {
        let new_end = base + size;
        let n = self.mmio_regions.len();
        let mut i: usize = 0;
        while i < n
            invariant
                n == self.regions().len(),
                forall|k: int|
                    0 <= k < i ==> ranges_disjoint(
                        base,
                        size,
                        (#[trigger] self.regions()[k]).base,
                        self.regions()[k].size,
                    ),
                self.wf(),
                new_end == base + size,
                i <= n,
            decreases n - i,
        {
            let region_end = self.mmio_regions[i].base + self.mmio_regions[i].size;
            if base < region_end && new_end > self.mmio_regions[i].base {
                return Err(MemoryError::MmioOverlap { addr: base });
            }
            i = i + 1;
        }
        if base < self.memory_base + self.memory_size as u64 && new_end > self.memory_base {
            return Err(MemoryError::MmioOverlap { addr: base });
        }
        self.mmio_regions.push(MmioRegion { base, size, device, name });
        proof {
            assert(final(self).regions().subrange(0, old(self).regions().len() as int) =~= old(self).regions());
        }
        Ok(())
    }

    /// Remove the first region mapped at exactly `base`; report whether one
    /// existed.
    pub fn unmap_mmio(&mut self, base: u64) -> (r: bool)
        requires
            old(self).wf(),
        ensures
            final(self).wf(),
            final(self).ram() == old(self).ram(),
            final(self).base_addr() == old(self).base_addr(),
            final(self).ram_size() == old(self).ram_size(),
            r == exists|i: int|
                0 <= i < old(self).regions().len() && (#[trigger] old(self).regions()[i]).base
                    == base,
            r ==> exists|i: int|
                0 <= i < old(self).regions().len() && (#[trigger] old(self).regions()[i]).base
                    == base && (forall|j: int| 0 <= j < i ==> old(self).regions()[j].base != base)
                    && final(self).regions() == old(self).regions().remove(i),
            !r ==> final(self).regions() == old(self).regions(),
    {
        let n = self.mmio_regions.len();
        let mut i: usize = 0;
        while i < n
            invariant
                n == self.regions().len(),
                i <= n,
                old(self).wf(),
                *self == *old(self),
                forall|j: int| 0 <= j < i ==> (#[trigger] self.regions()[j]).base != base,
            decreases n - i,
        {
            if self.mmio_regions[i].base == base {
                self.mmio_regions.remove(i);
                proof {
                    let before = old(self).regions();
                    assert forall|p: int| 0 <= p < self.regions().len() implies self.regions()[p]
                        == (if p < i { before[p] } else { before[p + 1] }) by {
                        assert(self.regions()[p] == before.remove(i as int)[p]);
                    }
                    assert forall|p: int, q: int|
                        0 <= p < self.regions().len() && 0 <= q < self.regions().len() && p
                            != q implies ranges_disjoint(
                        (#[trigger] self.regions()[p]).base,
                        self.regions()[p].size,
                        (#[trigger] self.regions()[q]).base,
                        self.regions()[q].size,
                    ) by {
                        let p0 = if p < i { p } else { p + 1 };
                        let q0 = if q < i { q } else { q + 1 };
                        assert(ranges_disjoint(
                            before[p0].base,
                            before[p0].size,
                            before[q0].base,
                            before[q0].size,
                        ));
                    }
                    assert forall|p: int| 0 <= p < self.regions().len() implies ranges_disjoint(
                        (#[trigger] self.regions()[p]).base,
                        self.regions()[p].size,
                        self.base_addr(),
                        self.ram_size() as u64,
                    ) && self.regions()[p].size >= 1 && self.regions()[p].base
                        + self.regions()[p].size <= u64::MAX by {
                        let p0 = if p < i { p } else { p + 1 };
                        assert(ranges_disjoint(
                            before[p0].base,
                            before[p0].size,
                            old(self).base_addr(),
                            old(self).ram_size() as u64,
                        ));
                        assert(before[p0].size >= 1);
                        assert(before[p0].base + before[p0].size <= u64::MAX);
                    }
                }
                return true;
            }
            i = i + 1;
        }
        false
    }

    /// Sort the regions by ascending base address. Afterwards lookups may
    /// use binary search; the regions still overlap neither each other nor
    /// RAM, and hold the same devices.
    pub fn sort_mmio_regions(&mut self)
        requires
            old(self).wf(),
        ensures
            final(self).wf(),
            final(self).regions_sorted(),
            final(self).regions_pairwise_disjoint(),
            final(self).regions_disjoint_from_ram(),
            final(self).ram() == old(self).ram(),
            final(self).base_addr() == old(self).base_addr(),
            final(self).ram_size() == old(self).ram_size(),
            final(self).mmio_touched() == old(self).mmio_touched(),
            final(self).regions().to_multiset() == old(self).regions().to_multiset(),
    {
        let n = self.mmio_regions.len();
        if n < 2 {
            return ;
        }
        let mut i: usize = 1;
        while i < n
            invariant
                n == self.regions().len(),
                1 <= i <= n,
                self.wf(),
                self.ram() == old(self).ram(),
                self.base_addr() == old(self).base_addr(),
                self.ram_size() == old(self).ram_size(),
                self.mmio_touched() == old(self).mmio_touched(),
                self.regions().to_multiset() == old(self).regions().to_multiset(),
                forall|p: int, q: int| 0 <= p < q < i ==> (#[trigger] self.regions()[p]).base <= (
                #[trigger] self.regions()[q]).base,
            decreases n - i,
        {
            let mut j: usize = i;
            while j > 0 && self.mmio_regions[j - 1].base > self.mmio_regions[j].base
                invariant
                    n == self.regions().len(),
                    j <= i < n,
                    self.wf(),
                    self.ram() == old(self).ram(),
                    self.base_addr() == old(self).base_addr(),
                    self.ram_size() == old(self).ram_size(),
                    self.mmio_touched() == old(self).mmio_touched(),
                    self.regions().to_multiset() == old(self).regions().to_multiset(),
                    forall|p: int, q: int|
                        0 <= p < q <= i && q != j ==> (#[trigger] self.regions()[p]).base <= (
                        #[trigger] self.regions()[q]).base,
                    forall|p: int, q: int|
                        j < p < q <= i ==> (#[trigger] self.regions()[p]).base <= (
                        #[trigger] self.regions()[q]).base,
                decreases j,
            {
                let ghost before = self.regions();
                let moved = self.mmio_regions.remove(j - 1);
                self.mmio_regions.insert(j, moved);
                proof {
                    assert(self.regions() =~= before.remove(j - 1).insert(j as int, before[j - 1]));
                    assert forall|k: int| 0 <= k < n implies self.regions()[k] == (if k == j - 1 {
                        before[j as int]
                    } else if k == j {
                        before[j - 1]
                    } else {
                        before[k]
                    }) by {
                        assert(self.regions()[k] == before.remove(j - 1).insert(
                            j as int,
                            before[j - 1],
                        )[k]);
                    }
                    lemma_swap_adjacent_multiset(before, self.regions(), j - 1);
                }
                j = j - 1;
            }
            i = i + 1;
        }
        proof {
            if n > 0 {
                assert forall|p: int, q: int|
                    0 <= p < q < self.regions().len() implies #[trigger] self.regions()[p].base
                    + self.regions()[p].size <= #[trigger] self.regions()[q].base by {
                    assert(self.regions()[p].base <= self.regions()[q].base);
                    assert(ranges_disjoint(
                        self.regions()[p].base,
                        self.regions()[p].size,
                        self.regions()[q].base,
                        self.regions()[q].size,
                    ));
                }
            }
        }
    }

    /// Find the index of the region containing `addr` by binary search over
    /// the sorted regions.
    fn find_mmio_region(&self, addr: u64) -> (r: Option<usize>)
        requires
            self.wf(),
            self.regions_sorted(),
        ensures
            match r {
                Some(i) => i < self.regions().len() && region_contains(self.regions()[i as int], addr),
                None => !self.covered(addr),
            },
    {
        let mut lo: usize = 0;
        let mut hi: usize = self.mmio_regions.len();
        while lo < hi
            invariant
                self.wf(),
                self.regions_sorted(),
                lo <= hi <= self.regions().len(),
                forall|k: int|
                    0 <= k < lo ==> !region_contains(#[trigger] self.regions()[k], addr),
                forall|k: int|
                    hi <= k < self.regions().len() ==> !region_contains(
                        #[trigger] self.regions()[k],
                        addr,
                    ),
            decreases hi - lo,
        {
            let mid = lo + (hi - lo) / 2;
            let start = self.mmio_regions[mid].base;
            let end = self.mmio_regions[mid].base + self.mmio_regions[mid].size;
            if addr < start {
                proof {
                    assert forall|k: int|
                        mid <= k < self.regions().len() implies !region_contains(
                        #[trigger] self.regions()[k],
                        addr,
                    ) by {
                        if k > mid {
                            assert(self.regions()[mid as int].base
                                + self.regions()[mid as int].size <= self.regions()[k].base);
                        }
                    }
                }
                hi = mid;
            } else if addr >= end {
                proof {
                    assert forall|k: int| 0 <= k <= mid implies !region_contains(
                        #[trigger] self.regions()[k],
                        addr,
                    ) by {
                        if k < mid {
                            assert(self.regions()[k].base + self.regions()[k].size
                                <= self.regions()[mid as int].base);
                        }
                    }
                }
                lo = mid + 1;
            } else {
                return Some(mid);
            }
        }
        None
    }

    /// Read and clear the single-shot flag that records whether the last
    /// access dispatched to a device.
    pub fn is_last_mmio(&mut self) -> (r: bool)
        ensures
            r == old(self).mmio_touched(),
            !final(self).mmio_touched(),
            final(self).same_but_flag(old(self)),
    {
        let res = self.last_mmio;
        self.last_mmio = false;
        res
    }
}

impl<D: MmioDevice> Memory<D> {
    /// Well-formedness carries over to a bus with the same regions, base and
    /// size, whatever happened to the RAM contents byte-wise.
    proof fn lemma_wf_like(&self, pre: &Memory<D>)
        requires
            pre.wf(),
            self.regions() == pre.regions(),
            self.base_addr() == pre.base_addr(),
            self.ram_size() == pre.ram_size(),
            self.data@.len() == pre.data@.len(),
            self.memory_size == pre.memory_size,
        ensures
            self.wf(),
            pre.regions_sorted() ==> self.regions_sorted(),
    {
        assert forall|p: int| 0 <= p < self.regions().len() implies (#[trigger] self.regions()[p]).size
            >= 1 && self.regions()[p].base + self.regions()[p].size <= u64::MAX
            && ranges_disjoint(
            self.regions()[p].base,
            self.regions()[p].size,
            self.base_addr(),
            self.ram_size() as u64,
        ) by {
            assert((#[trigger] pre.regions()[p]).size >= 1);
            assert(pre.regions()[p].base + pre.regions()[p].size <= u64::MAX);
            assert(ranges_disjoint(
                pre.regions()[p].base,
                pre.regions()[p].size,
                pre.base_addr(),
                pre.ram_size() as u64,
            ));
        }
        assert forall|p: int, q: int|
            0 <= p < self.regions().len() && 0 <= q < self.regions().len() && p != q implies ranges_disjoint(
            (#[trigger] self.regions()[p]).base,
            self.regions()[p].size,
            (#[trigger] self.regions()[q]).base,
            self.regions()[q].size,
        ) by {
            assert(ranges_disjoint(
                (#[trigger] pre.regions()[p]).base,
                pre.regions()[p].size,
                (#[trigger] pre.regions()[q]).base,
                pre.regions()[q].size,
            ));
        }
        if pre.regions_sorted() {
            assert forall|p: int, q: int| 0 <= p < q < self.regions().len() implies (
            #[trigger] self.regions()[p]).base + self.regions()[p].size <= (
            #[trigger] self.regions()[q]).base by {
                assert((#[trigger] pre.regions()[p]).base + pre.regions()[p].size <= (
                #[trigger] pre.regions()[q]).base);
            }
        }
    }

    /// Dispatch a read of `size` bytes at absolute address `addr` to the
    /// device of region `i`. Only that device's state may change.
    fn mmio_dispatch_read(&mut self, i: usize, addr: u64, size: usize) -> (r: Result<
        Vec<u8>,
        DeviceError,
    >)
        requires
            old(self).wf(),
            old(self).regions_sorted(),
            i < old(self).regions().len(),
            old(self).regions()[i as int].base <= addr,
        ensures
            final(self).wf(),
            final(self).regions_sorted(),
            final(self).ram() == old(self).ram(),
            final(self).base_addr() == old(self).base_addr(),
            final(self).ram_size() == old(self).ram_size(),
            final(self).mmio_touched() == old(self).mmio_touched(),
            old(self).same_region_layout(final(self)),
    {
        let offset = addr - self.mmio_regions[i].base;
        let mut region = self.mmio_regions.remove(i);
        let res = region.device.read(offset, size);
        self.mmio_regions.insert(i, region);
        proof {
            self.lemma_same_layout_after_device_access(old(self), i as int);
        }
        res
    }

    /// Dispatch a write of `data` at absolute address `addr` to the device
    /// of region `i`. Only that device's state may change.
    fn mmio_dispatch_write(&mut self, i: usize, addr: u64, data: &[u8]) -> (r: Result<
        (),
        DeviceError,
    >)
        requires
            old(self).wf(),
            old(self).regions_sorted(),
            i < old(self).regions().len(),
            old(self).regions()[i as int].base <= addr,
        ensures
            final(self).wf(),
            final(self).regions_sorted(),
            final(self).ram() == old(self).ram(),
            final(self).base_addr() == old(self).base_addr(),
            final(self).ram_size() == old(self).ram_size(),
            final(self).mmio_touched() == old(self).mmio_touched(),
            old(self).same_region_layout(final(self)),
    {
        let offset = addr - self.mmio_regions[i].base;
        let mut region = self.mmio_regions.remove(i);
        let res = region.device.write(offset, data);
        self.mmio_regions.insert(i, region);
        proof {
            self.lemma_same_layout_after_device_access(old(self), i as int);
        }
        res
    }

    /// After removing region `i`, letting its device act, and putting it
    /// back in place, the bus has the same region layout and is still
    /// well-formed and sorted.
    proof fn lemma_same_layout_after_device_access(&self, pre: &Memory<D>, i: int)
        requires
            pre.wf(),
            pre.regions_sorted(),
            0 <= i < pre.regions().len(),
            self.regions().len() == pre.regions().len(),
            forall|k: int|
                0 <= k < self.regions().len() && k != i ==> #[trigger] self.regions()[k]
                    == pre.regions()[k],
            self.regions()[i].base == pre.regions()[i].base,
            self.regions()[i].size == pre.regions()[i].size,
            self.regions()[i].name == pre.regions()[i].name,
            self.ram() == pre.ram(),
            self.base_addr() == pre.base_addr(),
            self.ram_size() == pre.ram_size(),
            self.data@.len() == pre.data@.len(),
        ensures
            self.wf(),
            self.regions_sorted(),
            pre.same_region_layout(self),
    {
        let before = pre.regions();
        let after = self.regions();
        assert forall|k: int| 0 <= k < after.len() implies (#[trigger] after[k]).base
            == before[k].base && after[k].size == before[k].size && after[k].name
            == before[k].name by {
            if k != i {
                assert(after[k] == before[k]);
            }
        }
        assert forall|p: int, q: int|
            0 <= p < after.len() && 0 <= q < after.len() && p != q implies ranges_disjoint(
            (#[trigger] after[p]).base,
            after[p].size,
            (#[trigger] after[q]).base,
            after[q].size,
        ) by {
            assert(ranges_disjoint(before[p].base, before[p].size, before[q].base, before[q].size));
        }
        assert forall|p: int| 0 <= p < after.len() implies ranges_disjoint(
            (#[trigger] after[p]).base,
            after[p].size,
            self.base_addr(),
            self.ram_size() as u64,
        ) && after[p].size >= 1 && after[p].base + after[p].size <= u64::MAX by {
            assert(ranges_disjoint(
                before[p].base,
                before[p].size,
                pre.base_addr(),
                pre.ram_size() as u64,
            ));
            assert(before[p].size >= 1);
            assert(before[p].base + before[p].size <= u64::MAX);
        }
        assert forall|p: int, q: int| 0 <= p < q < after.len() implies (#[trigger] after[p]).base
            + after[p].size <= (#[trigger] after[q]).base by {
            assert(before[p].base + before[p].size <= before[q].base);
        }
    }

    /// Read `size` bytes at `addr`: from RAM when the first byte falls in
    /// the RAM window (bounds-checked against it), else through the covering
    /// device region, else out of bounds.
    pub fn read(&mut self, addr: u64, size: usize) -> (r: Result<Vec<u8>, MemoryError>)
        requires
            old(self).wf(),
            old(self).regions_sorted(),
        ensures
            final(self).wf(),
            final(self).regions_sorted(),
            old(self).addr_in_ram(addr) && old(self).range_in_ram(addr, size as nat) ==> (r
                matches Ok(v) && v@ == old(self).ram().subrange(
                old(self).ram_off(addr),
                old(self).ram_off(addr) + size,
            ) && *final(self) == *old(self)),
            old(self).addr_in_ram(addr) && !old(self).range_in_ram(addr, size as nat) ==> (r
                matches Err(MemoryError::OutOfBounds { addr: a, size: n }) && a == addr && n == size
                && *final(self) == *old(self)),
            !old(self).addr_in_ram(addr) && old(self).covered(addr) ==> (final(self).ram() == old(self).ram() && final(self).base_addr() == old(self).base_addr() && final(self).ram_size()
                == old(self).ram_size() && old(self).same_region_layout(final(self)) && ((
            r matches Ok(v) && v@.len() == size && final(self).mmio_touched()) || (r matches Err(
                MemoryError::Device(_),
            ) && final(self).mmio_touched() == old(self).mmio_touched()))),
            !old(self).addr_in_ram(addr) && !old(self).covered(addr) ==> (r matches Err(
                MemoryError::OutOfBounds { addr: a, size: n },
            ) && a == addr && n == size && *final(self) == *old(self)),
    {
        if self.is_mem_region(addr) {
            if self.is_mem_region_range(addr, size) {
                let off = (addr - self.memory_base) as usize;
                let sl = slice_subrange(self.data.as_slice(), off, off + size);
                Ok(slice_to_vec(sl))
            } else {
                Err(MemoryError::OutOfBounds { addr, size })
            }
        } else {
            match self.find_mmio_region(addr) {
                Some(i) => {
                    match self.mmio_dispatch_read(i, addr, size) {
                        Ok(v) => {
                            if v.len() != size {
                                return Err(
                                    MemoryError::Device(
                                        DeviceError::Internal(
                                            "device returned the wrong number of bytes".to_owned(),
                                        ),
                                    ),
                                );
                            }
                            self.last_mmio = true;
                            Ok(v)
                        },
                        Err(e) => Err(MemoryError::Device(e)),
                    }
                },
                None => Err(MemoryError::OutOfBounds { addr, size }),
            }
        }
    }

    /// Write the bytes of `data` at `addr`: into RAM when the first byte
    /// falls in the RAM window (bounds-checked against it), else through the
    /// covering device region, else out of bounds.
    pub fn write(&mut self, addr: u64, data: &[u8]) -> (r: Result<(), MemoryError>)
        requires
            old(self).wf(),
            old(self).regions_sorted(),
        ensures
            final(self).wf(),
            final(self).regions_sorted(),
            final(self).base_addr() == old(self).base_addr(),
            final(self).ram_size() == old(self).ram_size(),
            old(self).addr_in_ram(addr) && old(self).range_in_ram(addr, data@.len()) ==> (r
                matches Ok(_) && final(self).ram() == spec_store(
                old(self).ram(),
                old(self).ram_off(addr),
                data@,
            ) && final(self).regions() == old(self).regions() && final(self).mmio_touched() == old(self).mmio_touched()),
            old(self).addr_in_ram(addr) && !old(self).range_in_ram(addr, data@.len()) ==> (r
                matches Err(MemoryError::OutOfBounds { addr: a, size: n }) && a == addr && n
                == data@.len() && *final(self) == *old(self)),
            !old(self).addr_in_ram(addr) && old(self).covered(addr) ==> (final(self).ram() == old(self).ram() && old(self).same_region_layout(final(self)) && ((r matches Ok(_) && final(self).mmio_touched()) || (r matches Err(MemoryError::Device(_)) && final(self).mmio_touched() == old(self).mmio_touched()))),
            !old(self).addr_in_ram(addr) && !old(self).covered(addr) ==> (r matches Err(
                MemoryError::OutOfBounds { addr: a, size: n },
            ) && a == addr && n == data@.len() && *final(self) == *old(self)),
    {
        if self.is_mem_region(addr) {
            if self.is_mem_region_range(addr, data.len()) {
                let off = (addr - self.memory_base) as usize;
                let n = data.len();
                let mut k: usize = 0;
                while k < n
                    invariant
                        old(self).wf(),
                        old(self).regions_sorted(),
                        n == data@.len(),
                        k <= n,
                        off + n <= self.data@.len(),
                        off == old(self).ram_off(addr),
                        self.data@.len() == old(self).data@.len(),
                        self.memory_base == old(self).memory_base,
                        self.memory_size == old(self).memory_size,
                        self.mmio_regions@ == old(self).mmio_regions@,
                        self.last_mmio == old(self).last_mmio,
                        forall|m: int|
                            0 <= m < self.data@.len() && !(off <= m < off + k)
                                ==> #[trigger] self.data@[m] == old(self).data@[m],
                        forall|m: int|
                            off <= m < off + k ==> #[trigger] self.data@[m] == data@[m - off],
                    decreases n - k,
                {
                    self.data.set(off + k, data[k]);
                    k = k + 1;
                }
                proof {
                    assert(self.ram() =~= spec_store(
                        old(self).ram(),
                        old(self).ram_off(addr),
                        data@,
                    ));
                    self.lemma_wf_like(old(self));
                }
                Ok(())
            } else {
                Err(MemoryError::OutOfBounds { addr, size: data.len() })
            }
        } else {
            match self.find_mmio_region(addr) {
                Some(i) => {
                    match self.mmio_dispatch_write(i, addr, data) {
                        Ok(_) => {
                            self.last_mmio = true;
                            Ok(())
                        },
                        Err(e) => Err(MemoryError::Device(e)),
                    }
                },
                None => Err(MemoryError::OutOfBounds { addr, size: data.len() }),
            }
        }
    }
}

impl<D: MmioDevice> Memory<D> {
    /// Read one byte at `addr`.
    pub fn read_byte(&mut self, addr: u64) -> (r: Result<u8, MemoryError>)
        requires
            old(self).wf(),
            old(self).regions_sorted(),
        ensures
            final(self).wf(),
            final(self).regions_sorted(),
            final(self).base_addr() == old(self).base_addr(),
            final(self).ram_size() == old(self).ram_size(),
            old(self).addr_in_ram(addr) ==> (r matches Ok(v) && v == old(self).ram()[old(self).ram_off(addr)] && *final(self) == *old(self)),
            !old(self).addr_in_ram(addr) && old(self).covered(addr) ==> (final(self).ram() == old(self).ram() && old(self).same_region_layout(final(self)) && (r matches Ok(_)
                ==> final(self).mmio_touched()) && (r matches Err(e) ==> e is Device)),
            !old(self).addr_in_ram(addr) && !old(self).covered(addr) ==> (r matches Err(
                MemoryError::OutOfBounds { addr: a, size: n },
            ) && a == addr && n == 1 && *final(self) == *old(self)),
    {
        match self.read(addr, 1) {
            Ok(v) => {
                if v.len() == 1 {
                    Ok(v[0])
                } else {
                    Err(
                        MemoryError::Device(
                            DeviceError::Internal("device returned the wrong number of bytes".to_owned()),
                        ),
                    )
                }
            },
            Err(e) => Err(e),
        }
    }

    /// Read a little-endian halfword at `addr`.
    pub fn read_halfword(&mut self, addr: u64) -> (r: Result<u16, MemoryError>)
        requires
            old(self).wf(),
            old(self).regions_sorted(),
        ensures
            final(self).wf(),
            final(self).regions_sorted(),
            final(self).base_addr() == old(self).base_addr(),
            final(self).ram_size() == old(self).ram_size(),
            old(self).range_in_ram(addr, 2) ==> (r matches Ok(v) && v == spec_u16_from_le_bytes(
                old(self).ram().subrange(old(self).ram_off(addr), old(self).ram_off(addr) + 2),
            ) && *final(self) == *old(self)),
            old(self).addr_in_ram(addr) && !old(self).range_in_ram(addr, 2) ==> (r matches Err(
                MemoryError::OutOfBounds { addr: a, size: n },
            ) && a == addr && n == 2 && *final(self) == *old(self)),
            !old(self).addr_in_ram(addr) && old(self).covered(addr) ==> (final(self).ram() == old(self).ram() && old(self).same_region_layout(final(self)) && (r matches Ok(_)
                ==> final(self).mmio_touched()) && (r matches Err(e) ==> e is Device)),
            !old(self).addr_in_ram(addr) && !old(self).covered(addr) ==> (r matches Err(
                MemoryError::OutOfBounds { addr: a, size: n },
            ) && a == addr && n == 2 && *final(self) == *old(self)),
    {
        match self.read(addr, 2) {
            Ok(v) => {
                if v.len() == 2 {
                    Ok(u16_from_le_bytes(v.as_slice()))
                } else {
                    Err(
                        MemoryError::Device(
                            DeviceError::Internal("device returned the wrong number of bytes".to_owned()),
                        ),
                    )
                }
            },
            Err(e) => Err(e),
        }
    }

    /// Read a little-endian word at `addr`.
    pub fn read_word(&mut self, addr: u64) -> (r: Result<u32, MemoryError>)
        requires
            old(self).wf(),
            old(self).regions_sorted(),
        ensures
            final(self).wf(),
            final(self).regions_sorted(),
            final(self).base_addr() == old(self).base_addr(),
            final(self).ram_size() == old(self).ram_size(),
            old(self).range_in_ram(addr, 4) ==> (r matches Ok(v) && v == spec_u32_from_le_bytes(
                old(self).ram().subrange(old(self).ram_off(addr), old(self).ram_off(addr) + 4),
            ) && *final(self) == *old(self)),
            old(self).addr_in_ram(addr) && !old(self).range_in_ram(addr, 4) ==> (r matches Err(
                MemoryError::OutOfBounds { addr: a, size: n },
            ) && a == addr && n == 4 && *final(self) == *old(self)),
            !old(self).addr_in_ram(addr) && old(self).covered(addr) ==> (final(self).ram() == old(self).ram() && old(self).same_region_layout(final(self)) && (r matches Ok(_)
                ==> final(self).mmio_touched()) && (r matches Err(e) ==> e is Device)),
            !old(self).addr_in_ram(addr) && !old(self).covered(addr) ==> (r matches Err(
                MemoryError::OutOfBounds { addr: a, size: n },
            ) && a == addr && n == 4 && *final(self) == *old(self)),
    {
        match self.read(addr, 4) {
            Ok(v) => {
                if v.len() == 4 {
                    Ok(u32_from_le_bytes(v.as_slice()))
                } else {
                    Err(
                        MemoryError::Device(
                            DeviceError::Internal("device returned the wrong number of bytes".to_owned()),
                        ),
                    )
                }
            },
            Err(e) => Err(e),
        }
    }

    /// Read a little-endian doubleword at `addr`.
    pub fn read_doubleword(&mut self, addr: u64) -> (r: Result<u64, MemoryError>)
        requires
            old(self).wf(),
            old(self).regions_sorted(),
        ensures
            final(self).wf(),
            final(self).regions_sorted(),
            final(self).base_addr() == old(self).base_addr(),
            final(self).ram_size() == old(self).ram_size(),
            old(self).range_in_ram(addr, 8) ==> (r matches Ok(v) && v == spec_u64_from_le_bytes(
                old(self).ram().subrange(old(self).ram_off(addr), old(self).ram_off(addr) + 8),
            ) && *final(self) == *old(self)),
            old(self).addr_in_ram(addr) && !old(self).range_in_ram(addr, 8) ==> (r matches Err(
                MemoryError::OutOfBounds { addr: a, size: n },
            ) && a == addr && n == 8 && *final(self) == *old(self)),
            !old(self).addr_in_ram(addr) && old(self).covered(addr) ==> (final(self).ram() == old(self).ram() && old(self).same_region_layout(final(self)) && (r matches Ok(_)
                ==> final(self).mmio_touched()) && (r matches Err(e) ==> e is Device)),
            !old(self).addr_in_ram(addr) && !old(self).covered(addr) ==> (r matches Err(
                MemoryError::OutOfBounds { addr: a, size: n },
            ) && a == addr && n == 8 && *final(self) == *old(self)),
    {
        match self.read(addr, 8) {
            Ok(v) => {
                if v.len() == 8 {
                    Ok(u64_from_le_bytes(v.as_slice()))
                } else {
                    Err(
                        MemoryError::Device(
                            DeviceError::Internal("device returned the wrong number of bytes".to_owned()),
                        ),
                    )
                }
            },
            Err(e) => Err(e),
        }
    }

    /// Write one byte at `addr`.
    pub fn write_byte(&mut self, addr: u64, value: u8) -> (r: Result<(), MemoryError>)
        requires
            old(self).wf(),
            old(self).regions_sorted(),
        ensures
            final(self).wf(),
            final(self).regions_sorted(),
            final(self).base_addr() == old(self).base_addr(),
            final(self).ram_size() == old(self).ram_size(),
            old(self).addr_in_ram(addr) ==> (r matches Ok(_) && final(self).ram() == spec_store(
                old(self).ram(),
                old(self).ram_off(addr),
                seq![value],
            ) && final(self).regions() == old(self).regions() && final(self).mmio_touched() == old(self).mmio_touched() && final(self).base_addr() == old(self).base_addr() && final(self).ram_size() == old(self).ram_size()),
            !old(self).addr_in_ram(addr) && old(self).covered(addr) ==> (final(self).ram() == old(self).ram() && old(self).same_region_layout(final(self)) && (r matches Ok(_)
                ==> final(self).mmio_touched()) && (r matches Err(e) ==> e is Device)),
            !old(self).addr_in_ram(addr) && !old(self).covered(addr) ==> (r matches Err(
                MemoryError::OutOfBounds { addr: a, size: n },
            ) && a == addr && n == 1 && *final(self) == *old(self)),
    {
        let mut bytes: Vec<u8> = Vec::new();
        bytes.push(value);
        proof {
            assert(bytes@ =~= seq![value]);
        }
        self.write(addr, bytes.as_slice())
    }

    /// Write a little-endian halfword at `addr`.
    pub fn write_halfword(&mut self, addr: u64, value: u16) -> (r: Result<(), MemoryError>)
        requires
            old(self).wf(),
            old(self).regions_sorted(),
        ensures
            final(self).wf(),
            final(self).regions_sorted(),
            final(self).base_addr() == old(self).base_addr(),
            final(self).ram_size() == old(self).ram_size(),
            old(self).range_in_ram(addr, 2) ==> (r matches Ok(_) && final(self).ram()
                == spec_store(
                old(self).ram(),
                old(self).ram_off(addr),
                spec_u16_to_le_bytes(value),
            ) && final(self).regions() == old(self).regions() && final(self).mmio_touched() == old(self).mmio_touched() && final(self).base_addr() == old(self).base_addr() && final(self).ram_size() == old(self).ram_size()),
            old(self).addr_in_ram(addr) && !old(self).range_in_ram(addr, 2) ==> (r matches Err(
                MemoryError::OutOfBounds { addr: a, size: n },
            ) && a == addr && n == 2 && *final(self) == *old(self)),
            !old(self).addr_in_ram(addr) && old(self).covered(addr) ==> (final(self).ram() == old(self).ram() && old(self).same_region_layout(final(self)) && (r matches Ok(_)
                ==> final(self).mmio_touched()) && (r matches Err(e) ==> e is Device)),
            !old(self).addr_in_ram(addr) && !old(self).covered(addr) ==> (r matches Err(
                MemoryError::OutOfBounds { addr: a, size: n },
            ) && a == addr && n == 2 && *final(self) == *old(self)),
    {
        let bytes = u16_to_le_bytes(value);
        self.write(addr, bytes.as_slice())
    }

    /// Write a little-endian word at `addr`.
    pub fn write_word(&mut self, addr: u64, value: u32) -> (r: Result<(), MemoryError>)
        requires
            old(self).wf(),
            old(self).regions_sorted(),
        ensures
            final(self).wf(),
            final(self).regions_sorted(),
            final(self).base_addr() == old(self).base_addr(),
            final(self).ram_size() == old(self).ram_size(),
            old(self).range_in_ram(addr, 4) ==> (r matches Ok(_) && final(self).ram()
                == spec_store(
                old(self).ram(),
                old(self).ram_off(addr),
                spec_u32_to_le_bytes(value),
            ) && final(self).regions() == old(self).regions() && final(self).mmio_touched() == old(self).mmio_touched() && final(self).base_addr() == old(self).base_addr() && final(self).ram_size() == old(self).ram_size()),
            old(self).addr_in_ram(addr) && !old(self).range_in_ram(addr, 4) ==> (r matches Err(
                MemoryError::OutOfBounds { addr: a, size: n },
            ) && a == addr && n == 4 && *final(self) == *old(self)),
            !old(self).addr_in_ram(addr) && old(self).covered(addr) ==> (final(self).ram() == old(self).ram() && old(self).same_region_layout(final(self)) && (r matches Ok(_)
                ==> final(self).mmio_touched()) && (r matches Err(e) ==> e is Device)),
            !old(self).addr_in_ram(addr) && !old(self).covered(addr) ==> (r matches Err(
                MemoryError::OutOfBounds { addr: a, size: n },
            ) && a == addr && n == 4 && *final(self) == *old(self)),
    {
        let bytes = u32_to_le_bytes(value);
        self.write(addr, bytes.as_slice())
    }

    /// Write a little-endian doubleword at `addr`.
    pub fn write_doubleword(&mut self, addr: u64, value: u64) -> (r: Result<(), MemoryError>)
        requires
            old(self).wf(),
            old(self).regions_sorted(),
        ensures
            final(self).wf(),
            final(self).regions_sorted(),
            final(self).base_addr() == old(self).base_addr(),
            final(self).ram_size() == old(self).ram_size(),
            old(self).range_in_ram(addr, 8) ==> (r matches Ok(_) && final(self).ram()
                == spec_store(
                old(self).ram(),
                old(self).ram_off(addr),
                spec_u64_to_le_bytes(value),
            ) && final(self).regions() == old(self).regions() && final(self).mmio_touched() == old(self).mmio_touched() && final(self).base_addr() == old(self).base_addr() && final(self).ram_size() == old(self).ram_size()),
            old(self).addr_in_ram(addr) && !old(self).range_in_ram(addr, 8) ==> (r matches Err(
                MemoryError::OutOfBounds { addr: a, size: n },
            ) && a == addr && n == 8 && *final(self) == *old(self)),
            !old(self).addr_in_ram(addr) && old(self).covered(addr) ==> (final(self).ram() == old(self).ram() && old(self).same_region_layout(final(self)) && (r matches Ok(_)
                ==> final(self).mmio_touched()) && (r matches Err(e) ==> e is Device)),
            !old(self).addr_in_ram(addr) && !old(self).covered(addr) ==> (r matches Err(
                MemoryError::OutOfBounds { addr: a, size: n },
            ) && a == addr && n == 8 && *final(self) == *old(self)),
    {
        let bytes = u64_to_le_bytes(value);
        self.write(addr, bytes.as_slice())
    }

    /// Fast instruction fetch: read a word from RAM with no region dispatch
    /// and no bounds check of its own. The caller must already know the
    /// 4-byte range lies in RAM; the execution loop checks this before
    /// taking this path.
    pub fn read_u32_fast(&self, addr: u64) -> (r: u32)
        requires
            self.wf(),
            self.range_in_ram(addr, 4),
        ensures
            r == spec_u32_from_le_bytes(
                self.ram().subrange(self.ram_off(addr), self.ram_off(addr) + 4),
            ),
    {
        let off = (addr - self.memory_base) as usize;
        u32_from_le_bytes(slice_subrange(self.data.as_slice(), off, off + 4))
    }

    /// Translate `addr` into a RAM offset, checking alignment and that the
    /// whole `size`-byte range lies inside the buffer.
    pub fn translate_address(&self, addr: u64, size: usize, alignment: usize) -> (r: Result<
        u64,
        MemoryError,
    >)
        requires
            self.wf(),
            alignment >= 1,
        ensures
            r matches Ok(off) ==> off == addr - self.base_addr() && (addr - self.base_addr()) as int
                + size <= self.ram_size() && (alignment > 1 ==> (addr - self.base_addr()) as int
                % alignment as int == 0),
    {
        let real_addr = addr.wrapping_sub(self.memory_base);
        if alignment > 1 && real_addr % alignment as u64 != 0 {
            return Err(MemoryError::Misaligned { addr: real_addr, alignment });
        }
        if size as u64 > u64::MAX - real_addr {
            return Err(MemoryError::OutOfBounds { addr, size });
        }
        let end = real_addr + size as u64;
        if end > self.data.len() as u64 {
            return Err(MemoryError::OutOfBounds { addr, size });
        }
        Ok(real_addr)
    }
}

impl<D: MmioDevice> Memory<D> {
    /// The RAM size in bytes.
    pub fn ram_len(&self) -> (r: usize)
        requires
            self.wf(),
        ensures
            r == self.ram_size(),
    {
        self.data.len()
    }

    /// How many regions are mapped.
    pub fn mmio_region_count(&self) -> (r: usize)
        ensures
            r == self.regions().len(),
    {
        self.mmio_regions.len()
    }

    /// The base address of region `i`.
    pub fn mmio_region_base(&self, i: usize) -> (r: u64)
        requires
            i < self.regions().len(),
        ensures
            r == self.regions()[i as int].base,
    {
        self.mmio_regions[i].base
    }

    /// The size of region `i`.
    pub fn mmio_region_size(&self, i: usize) -> (r: u64)
        requires
            i < self.regions().len(),
        ensures
            r == self.regions()[i as int].size,
    {
        self.mmio_regions[i].size
    }

    /// The name of region `i`.
    pub fn mmio_region_name(&self, i: usize) -> (r: &String)
        requires
            i < self.regions().len(),
        ensures
            r == &self.regions()[i as int].name,
    {
        &self.mmio_regions[i].name
    }

    /// A borrow of the device of region `i`.
    pub fn mmio_device(&self, i: usize) -> (r: &D)
        requires
            i < self.regions().len(),
        ensures
            r == &self.regions()[i as int].device,
    {
        &self.mmio_regions[i].device
    }
}

} // verus!

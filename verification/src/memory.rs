//! Memory as the machine sees it: patches laid over a frozen image.
//!
//! A read names an address. The patches of the overlay are asked first, in
//! the order of their start addresses, and the first that holds the address
//! answers. If none does, the regions of the base image are asked in the
//! order in which the image lists them. The answer is the bytes from the
//! address to the end of the region that answered; a read never runs on
//! into another region.
//!
//! A region of the base image answers for every address from its start up
//! to and including the address just past its declared size. That last
//! address has no byte behind it unless the region holds more bytes than it
//! declares, so a read there fails; but the region still answers it, and no
//! later region is asked.

use crate::error::DwarfVmError;
use std::collections::BTreeMap;
use vstd::prelude::*;
use vstd::std_specs::iter::IteratorSpec;

verus! {

broadcast use vstd::std_specs::btree::group_btree_axioms;

/// A run of bytes of the base image, with the address of its first byte
/// and the size that the image declares for it.
#[derive(Clone, Copy, Debug)]
pub struct Region<'a> {
    pub start: u64,
    pub size: u64,
    pub data: &'a [u8],
}

/// What a [`Region`] stands for.
#[verifier::ext_equal]
pub struct RegionView {
    pub start: u64,
    pub size: u64,
    pub data: Seq<u8>,
}

impl<'a> View for Region<'a> {
    type V = RegionView;

    open spec fn view(&self) -> RegionView {
        RegionView { start: self.start, size: self.size, data: self.data@ }
    }
}

impl RegionView {
    /// Whether the region answers for the address: the address lies between
    /// the region's start and the address just past its declared size, both
    /// included.
    pub open spec fn holds(self, a: u64) -> bool {
        self.start <= a <= self.start + self.size
    }

    /// The bytes of the region from the address on, if the region has that
    /// many bytes.
    pub open spec fn tail(self, a: u64) -> Option<Seq<u8>> {
        if a - self.start <= self.data.len() {
            Some(self.data.skip(a - self.start))
        } else {
            None
        }
    }
}

/// Whether a patch that starts at `s` and is `len` bytes long holds `a`.
pub open spec fn covers(s: u64, len: nat, a: u64) -> bool {
    s <= a < s + len
}

/// The number that a run of bytes stands for, least significant byte first.
pub open spec fn le_value(bytes: Seq<u8>) -> nat
    decreases bytes.len(),
{
    if bytes.len() == 0 {
        0
    } else {
        bytes[0] as nat + 256 * le_value(bytes.skip(1))
    }
}

/// 256 to the power of `k`: the number of values that `k` bytes can take.
pub open spec fn span(k: nat) -> nat
    decreases k,
{
    if k == 0 {
        1
    } else {
        256 * span((k - 1) as nat)
    }
}

/// Whether region `i` is the first of the regions that answers for `a`.
pub open spec fn first_holding(base: Seq<RegionView>, i: int, a: u64) -> bool {
    &&& 0 <= i < base.len()
    &&& base[i].holds(a)
    &&& forall|j: int| 0 <= j < i ==> !(#[trigger] base[j]).holds(a)
}

/// The memory of a machine: the patches of the overlay, each under its
/// start address, and the regions of the base image in their order.
#[verifier::ext_equal]
pub struct Memory {
    pub overlay: Map<u64, Seq<u8>>,
    pub base: Seq<RegionView>,
}

impl Memory {
    /// Whether the overlay has a patch at `s` that holds `a`.
    pub open spec fn patched(self, s: u64, a: u64) -> bool {
        self.overlay.contains_key(s) && covers(s, self.overlay[s].len(), a)
    }

    /// Whether the patch at `s` is the first, by start address, that holds
    /// `a`.
    pub open spec fn first_patch(self, s: u64, a: u64) -> bool {
        self.patched(s, a) && forall|t: u64| self.patched(t, a) ==> s <= t
    }

    /// The start of the patch that answers for `a`, if one does.
    pub open spec fn patch_at(self, a: u64) -> Option<u64> {
        if exists|s: u64| self.patched(s, a) {
            Some(choose|s: u64| self.first_patch(s, a))
        } else {
            None
        }
    }

    /// Whether region `i` is the first of the base image that answers for
    /// `a`.
    pub open spec fn first_region(self, i: int, a: u64) -> bool {
        first_holding(self.base, i, a)
    }

    /// The index of the region of the base image that answers for `a`, if
    /// one does.
    pub open spec fn region_at(self, a: u64) -> Option<int> {
        if exists|i: int| self.first_region(i, a) {
            Some(choose|i: int| self.first_region(i, a))
        } else {
            None
        }
    }

    /// What the base image alone has at `a`.
    pub open spec fn image_at(self, a: u64) -> Option<Seq<u8>> {
        match self.region_at(a) {
            Some(i) => self.base[i].tail(a),
            None => None,
        }
    }

    /// The bytes that a read at `a` sees: from `a` to the end of the patch
    /// or region that answers for it.
    pub open spec fn bytes_at(self, a: u64) -> Option<Seq<u8>> {
        match self.patch_at(a) {
            Some(s) => Some(self.overlay[s].skip(a - s)),
            None => self.image_at(a),
        }
    }

    /// The value of the `width` bytes at `a`, least significant byte first,
    /// if that many bytes can be read there.
    pub open spec fn read(self, a: u64, width: nat) -> Option<nat> {
        match self.bytes_at(a) {
            Some(bytes) => if width <= bytes.len() {
                Some(le_value(bytes.take(width as int)))
            } else {
                None
            },
            None => None,
        }
    }

    /// The memory without the patch at `s`.
    pub open spec fn without_patch(self, s: u64) -> Memory {
        Memory { overlay: self.overlay.remove(s), base: self.base }
    }

    /// Among the patches that hold an address, one comes first.
    pub proof fn lemma_first_patch_exists(self, s: u64, a: u64)
        requires
            self.patched(s, a),
        ensures
            exists|t: u64| self.first_patch(t, a),
        decreases s,
    {
        if exists|t: u64| t < s && self.patched(t, a) {
            let t = choose|t: u64| t < s && self.patched(t, a);
            self.lemma_first_patch_exists(t, a);
        } else {
            assert(self.first_patch(s, a));
        }
    }

    /// The first patch that holds an address is the one that answers for
    /// it.
    pub proof fn lemma_first_patch_answers(self, s: u64, a: u64)
        requires
            self.first_patch(s, a),
        ensures
            self.patch_at(a) == Some(s),
    {
        let t = choose|t: u64| self.first_patch(t, a);
        assert(self.patched(t, a));
        assert(self.patched(s, a));
    }

    /// Where no patch holds an address, none answers for it.
    pub proof fn lemma_no_patch(self, a: u64)
        requires
            forall|t: u64| !self.patched(t, a),
        ensures
            self.patch_at(a) is None,
            self.bytes_at(a) == self.image_at(a),
    {
    }

    /// The first region that answers for an address is the one that the
    /// base image reads from.
    pub proof fn lemma_first_region_answers(self, i: int, a: u64)
        requires
            self.first_region(i, a),
        ensures
            self.region_at(a) == Some(i),
    {
        let k = choose|k: int| self.first_region(k, a);
        assert(self.base[i].holds(a));
        assert(self.base[k].holds(a));
    }

    /// A patch takes precedence over the base image. Where a patch holds an
    /// address, a read there sees the bytes of the first such patch,
    /// whatever the base image has at that address.
    pub proof fn lemma_patch_shadows_image(self, s: u64, a: u64)
        requires
            self.patched(s, a),
        ensures
            self.patch_at(a) matches Some(t) && self.first_patch(t, a) && t <= s && self.bytes_at(
                a,
            ) == Some(self.overlay[t].skip(a - t)),
            (forall|t: u64| self.patched(t, a) ==> t == s) ==> self.bytes_at(a) == Some(
                self.overlay[s].skip(a - s),
            ),
    {
        self.lemma_first_patch_exists(s, a);
        let t = choose|t: u64| self.first_patch(t, a);
        self.lemma_first_patch_answers(t, a);
    }

    /// Removing the only patch that holds an address makes the base image
    /// visible there again.
    pub proof fn lemma_unpatched_shows_image(self, s: u64, a: u64)
        requires
            self.patched(s, a),
            forall|t: u64| self.patched(t, a) ==> t == s,
        ensures
            self.without_patch(s).bytes_at(a) == self.image_at(a),
            self.without_patch(s).image_at(a) == self.image_at(a),
    {
        let m = self.without_patch(s);
        assert forall|t: u64| !m.patched(t, a) by {
            if m.patched(t, a) {
                assert(self.patched(t, a));
            }
        }
        m.lemma_no_patch(a);
        assert forall|i: int| m.first_region(i, a) == self.first_region(i, a) by {}
    }
}

/// The patches that an overlay holds.
pub open spec fn patches(overlay: Map<u64, Vec<u8>>) -> Map<u64, Seq<u8>> {
    Map::new(|s: u64| overlay.contains_key(s), |s: u64| overlay[s]@)
}

/// Putting a patch into an overlay puts its bytes into the memory, and
/// taking one out takes them out.
pub proof fn lemma_patches_follow(overlay: Map<u64, Vec<u8>>, s: u64, bytes: Vec<u8>)
    ensures
        patches(overlay.insert(s, bytes)) == patches(overlay).insert(s, bytes@),
        patches(overlay.remove(s)) == patches(overlay).remove(s),
{
    assert(patches(overlay.insert(s, bytes)) =~= patches(overlay).insert(s, bytes@));
    assert(patches(overlay.remove(s)) =~= patches(overlay).remove(s));
}

/// The regions that a base image lists.
pub open spec fn regions<'a>(base: Seq<Region<'a>>) -> Seq<RegionView> {
    Seq::new(base.len(), |i: int| base[i]@)
}

/// The memory that an overlay and a base image make up.
pub open spec fn memory_of<'a>(overlay: Map<u64, Vec<u8>>, base: Seq<Region<'a>>) -> Memory {
    Memory { overlay: patches(overlay), base: regions(base) }
}

/// Looks for the patch that answers for `a`. Returns its start address and
/// its bytes from `a` on.
pub fn find_patch<'m>(overlay: &'m BTreeMap<u64, Vec<u8>>, a: u64) -> (r: Option<
    (u64, &'m [u8]),
>)
    ensures
        match r {
            Some((s, tail)) => {
                &&& overlay@.contains_key(s)
                &&& covers(s, overlay@[s]@.len(), a)
                &&& forall|t: u64|
                    overlay@.contains_key(t) && covers(t, overlay@[t]@.len(), a) ==> s <= t
                &&& tail@ == overlay@[s]@.skip(a - s)
            },
            None => forall|t: u64| overlay@.contains_key(t) ==> !covers(t, overlay@[t]@.len(), a),
        },
{
    let iter = overlay.iter();
    proof {
        let keys = iter.remaining().map_values(|kv: (&u64, &Vec<u8>)| *kv.0);
        crate::sorted::lemma_increasing_is_ascending(keys);
        assert forall|i: int, j: int| 0 <= i < j < iter.remaining().len() implies *iter.remaining()[i].0
            < *iter.remaining()[j].0 by {
            assert(keys[i] == *iter.remaining()[i].0);
            assert(keys[j] == *iter.remaining()[j].0);
        }
    }
    for kv in it: iter
        invariant
            forall|j: int|
                0 <= j < it.index() ==> !covers(*it.seq()[j].0, (*it.seq()[j].1)@.len(), a),
            forall|i: int, j: int| 0 <= i < j < it.seq().len() ==> *it.seq()[i].0 < *it.seq()[j].0,
            forall|j: int|
                0 <= j < it.seq().len() ==> overlay@.contains_key(*it.seq()[j].0)
                    && overlay@[*it.seq()[j].0] == *it.seq()[j].1,
            forall|t: u64|
                overlay@.contains_key(t) ==> exists|j: int|
                    0 <= j < it.seq().len() && *it.seq()[j].0 == t,
    {
        let (start, v) = kv;
        if *start <= a && a - *start < v.len() as u64 {
            let off: usize = (a - *start) as usize;
            let tail = vstd::slice::slice_subrange(v.as_slice(), off, v.len());
            return Some((*start, tail));
        }
    }
    None
}

/// Looks for the region of the base image that answers for `a`. Returns
/// its index.
pub fn find_region<'a>(base: &Vec<Region<'a>>, a: u64) -> (r: Option<usize>)
    ensures
        match r {
            Some(i) => first_holding(regions(base@), i as int, a),
            None => forall|j: int| 0 <= j < base@.len() ==> !(#[trigger] regions(base@)[j]).holds(a),
        },
{
    let mut i: usize = 0;
    while i < base.len()
        invariant
            i <= base@.len(),
            forall|j: int| 0 <= j < i ==> !(#[trigger] regions(base@)[j]).holds(a),
        decreases base@.len() - i,
    {
        let r = &base[i];
        if r.start <= a && a - r.start <= r.size {
            assert(regions(base@)[i as int] == r@);
            return Some(i);
        }
        assert(regions(base@)[i as int] == r@);
        i += 1;
    }
    None
}

/// The bytes that a read at `a` sees, from `a` to the end of the patch or
/// region that answers for it.
///
/// Fails with `AddressFault` where neither a patch nor a region answers
/// for `a`, and where the region that answers has no bytes as far out as
/// `a`.
pub fn bytes_at<'m, 'a: 'm>(
    overlay: &'m BTreeMap<u64, Vec<u8>>,
    base: &'m Vec<Region<'a>>,
    a: u64,
) -> (r: Result<&'m [u8], DwarfVmError>)
    ensures
        match r {
            Ok(bytes) => memory_of(overlay@, base@).bytes_at(a) == Some(bytes@),
            Err(e) => e == DwarfVmError::AddressFault && memory_of(overlay@, base@).bytes_at(a)
                is None,
        },
{
    let ghost m = memory_of(overlay@, base@);
    match find_patch(overlay, a) {
        Some((s, tail)) => {
            proof {
                assert(m.patched(s, a));
                assert forall|t: u64| m.patched(t, a) implies s <= t by {}
                m.lemma_first_patch_answers(s, a);
            }
            Ok(tail)
        },
        None => {
            proof {
                assert forall|t: u64| !m.patched(t, a) by {}
                m.lemma_no_patch(a);
            }
            match find_region(base, a) {
                Some(i) => {
                    proof {
                        m.lemma_first_region_answers(i as int, a);
                        assert(m.base[i as int] == base@[i as int]@);
                    }
                    let r = &base[i];
                    let off: u64 = a - r.start;
                    if off <= r.data.len() as u64 {
                        Ok(vstd::slice::slice_subrange(r.data, off as usize, r.data.len()))
                    } else {
                        Err(DwarfVmError::AddressFault)
                    }
                },
                None => {
                    assert forall|i: int| !m.first_region(i, a) by {}
                    Err(DwarfVmError::AddressFault)
                },
            }
        },
    }
}

/// The value of `k` bytes is below 256 to the power of `k`.
pub proof fn lemma_le_value_bound(bytes: Seq<u8>)
    ensures
        le_value(bytes) < span(bytes.len()),
    decreases bytes.len(),
{
    if bytes.len() > 0 {
        lemma_le_value_bound(bytes.skip(1));
    }
}

/// The value of the first `width` of the given bytes, least significant
/// byte first.
pub fn le_word(bytes: &[u8], width: usize) -> (r: u64)
    requires
        width <= 8,
        width <= bytes@.len(),
    ensures
        r == le_value(bytes@.take(width as int)),
{
    let ghost taken = bytes@.take(width as int);
    let mut acc: u64 = 0;
    let mut i: usize = width;
    while i > 0
        invariant
            i <= width <= 8,
            width <= bytes@.len(),
            taken == bytes@.take(width as int),
            acc == le_value(taken.skip(i as int)),
        decreases i,
    {
        i -= 1;
        let b: u8 = bytes[i];
        proof {
            let rest = taken.skip(i as int);
            assert(rest.skip(1) =~= taken.skip(i + 1));
            assert(rest[0] == b);
            lemma_le_value_bound(taken.skip(i + 1));
            reveal_with_fuel(span, 8);
            assert(span(7) == 0x100_0000_0000_0000);
            lemma_span_grows((width - i - 1) as nat, 7);
        }
        acc = acc * 256 + b as u64;
    }
    proof {
        assert(taken.skip(0) =~= taken);
    }
    acc
}

/// More bytes can take more values.
pub proof fn lemma_span_grows(j: nat, k: nat)
    requires
        j <= k,
    ensures
        span(j) <= span(k),
    decreases k,
{
    if j < k {
        lemma_span_grows(j, (k - 1) as nat);
    }
}

/// Reads the `width` bytes at `a` as a number, least significant byte
/// first.
///
/// Fails with `AddressFault` where fewer than `width` bytes can be read at
/// `a`.
pub fn read<'a>(overlay: &BTreeMap<u64, Vec<u8>>, base: &Vec<Region<'a>>, a: u64, width: usize) -> (r:
    Result<u64, DwarfVmError>)
    requires
        width <= 8,
    ensures
        match r {
            Ok(v) => memory_of(overlay@, base@).read(a, width as nat) == Some(v as nat),
            Err(e) => e == DwarfVmError::AddressFault && memory_of(overlay@, base@).read(
                a,
                width as nat,
            ) is None,
        },
{
    match bytes_at(overlay, base, a) {
        Ok(bytes) => {
            if width <= bytes.len() {
                Ok(le_word(bytes, width))
            } else {
                Err(DwarfVmError::AddressFault)
            }
        },
        Err(e) => Err(e),
    }
}

} // verus!

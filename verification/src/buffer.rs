//! A host-mirrored device buffer. The host side is an ordered sequence of
//! logical values; the device side holds their packed little-endian byte
//! image. The two are reconciled only by an explicit [`SyncedBuffer::sync`]
//! call, which reallocates (at most once, with amortized growth) when the
//! host side has outgrown the device allocation and then rewrites the whole
//! packed image.

use vstd::prelude::*;

verus! {

/// The bit pattern a device scalar reads as one.
pub const SCALAR_ONE_BITS: u32 = 0x3F80_0000;

/// Usage class a device buffer is created with.
#[derive(Clone, Copy, Debug, PartialEq, Eq, Structural)]
pub enum BufferUsage {
    Uniform,
    Storage,
    Vertex,
    Index,
}

/// What a bind-group entry exposes to the shaders: a two-dimensional
/// float texture, a filtering sampler, or a read-only storage buffer.
#[derive(Clone, Copy, Debug, PartialEq, Eq, Structural)]
pub enum BindingType {
    Texture2D,
    FilteringSampler,
    StorageBufferReadOnly,
}

/// One entry of a bind-group layout: its binding index, whether only the
/// fragment stage sees it, and what it exposes.
#[derive(Clone, Copy, Debug, PartialEq, Eq, Structural)]
pub struct BindGroupLayoutEntry {
    pub binding: u32,
    pub fragment_only: bool,
    pub ty: BindingType,
}

/// The four bytes of a 32-bit word, least significant first: the byte order
/// the device consumes buffer data in.
pub open spec fn le4(w: u32) -> Seq<u8> {
    seq![
        (w & 0xff) as u8,
        ((w >> 8) & 0xff) as u8,
        ((w >> 16) & 0xff) as u8,
        ((w >> 24) & 0xff) as u8,
    ]
}

/// The two bytes of a 16-bit value, least significant first.
pub open spec fn le2(x: u16) -> Seq<u8> {
    seq![(x & 0xff) as u8, ((x >> 8) & 0xff) as u8]
}

/// The byte image of a word sequence: each word's four bytes, in order.
pub open spec fn words_le(s: Seq<u32>) -> Seq<u8>
    decreases s.len(),
{
    if s.len() == 0 {
        Seq::empty()
    } else {
        le4(s[0]) + words_le(s.drop_first())
    }
}

pub proof fn lemma_words_le_len(s: Seq<u32>)
    ensures
        words_le(s).len() == 4 * s.len(),
    decreases s.len(),
{
    if s.len() > 0 {
        lemma_words_le_len(s.drop_first());
    }
}

pub proof fn lemma_words_le_snoc(s: Seq<u32>, w: u32)
    ensures
        words_le(s.push(w)) == words_le(s) + le4(w),
    decreases s.len(),
{
    if s.len() == 0 {
        assert(s.push(w)[0] == w);
        assert(s.push(w).drop_first() =~= Seq::<u32>::empty());
        assert(words_le(s.push(w)) == le4(w) + words_le(Seq::<u32>::empty()));
        assert(le4(w) + words_le(Seq::<u32>::empty()) =~= words_le(s) + le4(w));
    } else {
        assert(s.push(w)[0] == s[0]);
        assert(s.push(w).drop_first() =~= s.drop_first().push(w));
        lemma_words_le_snoc(s.drop_first(), w);
        assert(words_le(s.push(w)) == le4(s[0]) + (words_le(s.drop_first()) + le4(w)));
        assert(le4(s[0]) + (words_le(s.drop_first()) + le4(w))
            =~= (le4(s[0]) + words_le(s.drop_first())) + le4(w));
        assert(words_le(s) == le4(s[0]) + words_le(s.drop_first()));
    }
}

/// A host value that packs to a fixed-size device representation.
///
/// `pod_bytes` is the packed byte image, a pure function of the value;
/// every value of the type packs to exactly `pod_size` bytes.
pub trait GpuPod: Sized {
    /// The packed byte image the device reads for this value.
    spec fn pod_bytes(&self) -> Seq<u8>;

    /// The packed size in bytes, the same for every value of the type.
    spec fn pod_size() -> nat;

    /// Law: the byte image has exactly the packed size.
    proof fn pod_size_agrees(&self)
        ensures
            self.pod_bytes().len() == Self::pod_size(),
    ;

    /// Computes the packed byte image.
    fn pod(&self) -> (r: Vec<u8>)
        ensures
            r@ == self.pod_bytes(),
    ;
}

/// The packed byte image of a whole value sequence, element images in order.
pub open spec fn packed<T: GpuPod>(s: Seq<T>) -> Seq<u8>
    decreases s.len(),
{
    if s.len() == 0 {
        Seq::empty()
    } else {
        s[0].pod_bytes() + packed(s.drop_first())
    }
}

pub proof fn lemma_packed_snoc<T: GpuPod>(s: Seq<T>, v: T)
    ensures
        packed(s.push(v)) == packed(s) + v.pod_bytes(),
    decreases s.len(),
{
    if s.len() == 0 {
        assert(s.push(v)[0] == v);
        assert(s.push(v).drop_first() =~= Seq::<T>::empty());
        assert(packed(s.push(v)) == v.pod_bytes() + packed(Seq::<T>::empty()));
        assert(v.pod_bytes() + packed(Seq::<T>::empty()) =~= packed(s) + v.pod_bytes());
    } else {
        assert(s.push(v)[0] == s[0]);
        assert(s.push(v).drop_first() =~= s.drop_first().push(v));
        lemma_packed_snoc(s.drop_first(), v);
        assert(packed(s.push(v)) == s[0].pod_bytes() + (packed(s.drop_first()) + v.pod_bytes()));
        assert(s[0].pod_bytes() + (packed(s.drop_first()) + v.pod_bytes())
            =~= (s[0].pod_bytes() + packed(s.drop_first())) + v.pod_bytes());
        assert(packed(s) == s[0].pod_bytes() + packed(s.drop_first()));
    }
}

pub proof fn lemma_packed_len<T: GpuPod>(s: Seq<T>)
    ensures
        packed::<T>(s).len() == s.len() * T::pod_size(),
    decreases s.len(),
{
    if s.len() == 0 {
    } else {
        s[0].pod_size_agrees();
        lemma_packed_len::<T>(s.drop_first());
        assert((s.len() - 1) * T::pod_size() + T::pod_size() == s.len() * T::pod_size())
            by (nonlinear_arith);
    }
}

/// Every element's packed image sits at its slot of the packed sequence:
/// element `i` occupies bytes `i * pod_size` up to `(i + 1) * pod_size`,
/// in element order.
pub proof fn lemma_packed_element<T: GpuPod>(s: Seq<T>, i: int)
    requires
        0 <= i < s.len(),
    ensures
        ({
            let k = T::pod_size() as int;
            &&& (i + 1) * k <= packed::<T>(s).len()
            &&& packed::<T>(s).subrange(i * k, (i + 1) * k) == s[i].pod_bytes()
        }),
    decreases i,
{
    let k = T::pod_size() as int;
    lemma_packed_len::<T>(s);
    assert((i + 1) * k <= s.len() * k) by (nonlinear_arith)
        requires 0 <= i < s.len() && k >= 0;
    s[0].pod_size_agrees();
    let head = s[0].pod_bytes();
    let tail = packed::<T>(s.drop_first());
    assert(packed::<T>(s) == head + tail);
    if i == 0 {
        assert(i * k == 0) by (nonlinear_arith)
            requires i == 0;
        assert((i + 1) * k == k) by (nonlinear_arith)
            requires i == 0;
        assert(packed::<T>(s).subrange(0, k) =~= head);
    } else {
        let rest = s.drop_first();
        lemma_packed_element::<T>(rest, i - 1);
        lemma_packed_len::<T>(rest);
        assert(i * k - k == (i - 1) * k) by (nonlinear_arith);
        assert((i + 1) * k - k == i * k) by (nonlinear_arith);
        assert(i * k >= k) by (nonlinear_arith)
            requires i >= 1 && k >= 0;
        assert(rest.len() == s.len() - 1);
        assert(0 <= i - 1 < rest.len());
        assert(rest[i - 1] == s[i]);
        assert(tail.subrange((i - 1) * k, i * k) == rest[i - 1].pod_bytes());
        assert(packed::<T>(s).subrange(i * k, (i + 1) * k)
            =~= tail.subrange((i - 1) * k, i * k));
        assert(packed::<T>(s).subrange(i * k, (i + 1) * k) == s[i].pod_bytes());
    }
}

/// The device actions one `sync` decided on: at most one reallocation, and
/// the packed bytes to write into the (possibly new) device buffer.
pub struct SyncPlan {
    /// `Some(n)`: the device buffer is reallocated to hold `n` elements,
    /// and the old buffer is discarded only once the new one is populated
    /// from `upload`. `None`: the existing buffer is kept.
    pub realloc: Option<usize>,
    /// The full packed image written to the device buffer.
    pub upload: Vec<u8>,
}

/// The element capacity after an allocation that must cover `len`: the old
/// capacity doubled (growth is amortized, never one element at a time),
/// or `len` itself if doubling still falls short.
pub open spec fn grown_capacity(cap: int, len: int) -> int {
    let doubled = if 2 * cap <= usize::MAX { 2 * cap } else { usize::MAX as int };
    if doubled >= len {
        doubled
    } else {
        len
    }
}

/// A host-resident value sequence mirrored into a device buffer.
///
/// Host-side edits go directly to `values` and never touch the device;
/// one explicit [`Self::sync`] per frame reconciles the device side.
pub struct SyncedBuffer<T: GpuPod> {
    /// The logical values, freely editable between syncs.
    pub values: Vec<T>,
    /// Element capacity of the current device allocation.
    pub capacity: usize,
    /// The byte image the device buffer holds (as of the last sync).
    pub device: Vec<u8>,
    /// Usage class the device buffer was created with.
    pub usage: BufferUsage,
}

impl<T: GpuPod> SyncedBuffer<T> {
    /// The device mirror is current: it holds exactly the packed image of
    /// every host value, in order, and the allocation covers them all.
    pub open spec fn synced(self) -> bool {
        &&& self.device@ == packed::<T>(self.values@)
        &&& self.capacity >= self.values@.len()
    }

    /// Direct host-side mutation access. Edits through it never touch the
    /// device side; the next [`Self::sync`] reconciles them.
    pub fn values_mut(&mut self) -> (r: &mut Vec<T>)
        ensures
            *r == old(self).values,
            final(self).values == *final(r),
            final(self).capacity == old(self).capacity,
            final(self).device == old(self).device,
            final(self).usage == old(self).usage,
    {
        &mut self.values
    }

    /// Creates the mirror with a device allocation sized to the initial
    /// values and the packed image already uploaded.
    pub fn new(initial: Vec<T>, usage: BufferUsage) -> (buf: Self)
        ensures
            buf.values@ == initial@,
            buf.usage == usage,
            buf.capacity == initial@.len(),
            buf.synced(),
    {
        let capacity = initial.len();
        let device = pack_all(&initial);
        SyncedBuffer { values: initial, capacity, device, usage }
    }

    /// Reconciles the device buffer with the host values: grows the
    /// allocation (in one step) if the values have outgrown it, then
    /// rewrites the whole packed image. Returns the device actions taken.
    pub fn sync(&mut self) -> (plan: SyncPlan)
        ensures
            final(self).values@ == old(self).values@,
            final(self).usage == old(self).usage,
            final(self).synced(),
            final(self).device@ == packed::<T>(old(self).values@),
            plan.upload@ == final(self).device@,
            old(self).values@.len() <= old(self).capacity ==> plan.realloc is None
                && final(self).capacity == old(self).capacity,
            old(self).values@.len() > old(self).capacity ==> {
                &&& plan.realloc == Some(final(self).capacity)
                &&& final(self).capacity
                    == grown_capacity(old(self).capacity as int, old(self).values@.len() as int)
            },
    {
        let len = self.values.len();
        let realloc: Option<usize> = if len > self.capacity {
            let doubled: usize = if self.capacity <= usize::MAX / 2 {
                self.capacity * 2
            } else {
                usize::MAX
            };
            let new_cap: usize = if doubled >= len {
                doubled
            } else {
                len
            };
            self.capacity = new_cap;
            Some(new_cap)
        } else {
            None
        };
        let upload = pack_all(&self.values);
        self.device = pack_all(&self.values);
        SyncPlan { realloc, upload }
    }
}

/// In a synchronized buffer every host value's packed image sits at its
/// own element slot of the device image, in host order: element `i`
/// occupies device bytes `i * pod_size` up to `(i + 1) * pod_size`.
pub proof fn lemma_synced_element<T: GpuPod>(buf: SyncedBuffer<T>, i: int)
    requires
        buf.synced(),
        0 <= i < buf.values@.len(),
    ensures
        ({
            let k = T::pod_size() as int;
            buf.device@.subrange(i * k, (i + 1) * k) == buf.values@[i].pod_bytes()
        }),
{
    lemma_packed_element::<T>(buf.values@, i);
}

/// Packs a word sequence to its little-endian byte image.
pub fn pack_words_le(words: &Vec<u32>) -> (r: Vec<u8>)
    ensures
        r@ == words_le(words@),
{
    let mut r: Vec<u8> = Vec::new();
    let n = words.len();
    for i in 0..n
        invariant
            n == words@.len(),
            r@ == words_le(words@.take(i as int)),
    {
        let w = words[i];
        r.push((w & 0xff) as u8);
        r.push(((w >> 8) & 0xff) as u8);
        r.push(((w >> 16) & 0xff) as u8);
        r.push(((w >> 24) & 0xff) as u8);
        proof {
            assert(words@.take(i + 1) =~= words@.take(i as int).push(words@[i as int]));
            lemma_words_le_snoc(words@.take(i as int), words@[i as int]);
            assert(r@ =~= words_le(words@.take(i + 1)));
        }
    }
    proof {
        assert(words@.take(n as int) =~= words@);
    }
    r
}

/// The column-major words of the identity matrix: ones on the diagonal.
pub open spec fn identity_words() -> Seq<u32> {
    seq![
        SCALAR_ONE_BITS, 0u32, 0u32, 0u32,
        0u32, SCALAR_ONE_BITS, 0u32, 0u32,
        0u32, 0u32, SCALAR_ONE_BITS, 0u32,
        0u32, 0u32, 0u32, SCALAR_ONE_BITS,
    ]
}

/// One instance transform: a 4×4 matrix in column-major order, each entry
/// held as the 32-bit pattern of the scalar the device reads. Also the
/// packed form the camera uploads after its projection is recomputed.
#[derive(Clone, Copy, Debug, PartialEq, Eq)]
pub struct Transform {
    pub matrix: [u32; 16],
}

impl Transform {
    /// The identity transform.
    pub fn identity() -> (t: Self)
        ensures
            t.matrix@ == identity_words(),
    {
        let m: [u32; 16] = [
            SCALAR_ONE_BITS, 0, 0, 0,
            0, SCALAR_ONE_BITS, 0, 0,
            0, 0, SCALAR_ONE_BITS, 0,
            0, 0, 0, SCALAR_ONE_BITS,
        ];
        proof {
            assert(m@ =~= identity_words());
        }
        Transform { matrix: m }
    }
}

impl Default for Transform {
    /// The identity transform.
    fn default() -> (t: Self)
        ensures
            t.matrix@ == identity_words(),
    {
        Transform::identity()
    }
}

impl GpuPod for Transform {
    open spec fn pod_bytes(&self) -> Seq<u8> {
        words_le(self.matrix@)
    }

    open spec fn pod_size() -> nat {
        64
    }

    proof fn pod_size_agrees(&self) {
        lemma_words_le_len(self.matrix@);
    }

    fn pod(&self) -> (r: Vec<u8>) {
        let mut ws: Vec<u32> = Vec::new();
        for i in 0..16usize
            invariant
                ws@ == self.matrix@.take(i as int),
        {
            ws.push(self.matrix[i]);
            proof {
                assert(self.matrix@.take(i + 1)
                    =~= self.matrix@.take(i as int).push(self.matrix@[i as int]));
            }
        }
        proof {
            assert(self.matrix@.take(16) =~= self.matrix@);
        }
        pack_words_le(&ws)
    }
}

impl GpuPod for u16 {
    open spec fn pod_bytes(&self) -> Seq<u8> {
        le2(*self)
    }

    open spec fn pod_size() -> nat {
        2
    }

    proof fn pod_size_agrees(&self) {
    }

    fn pod(&self) -> (r: Vec<u8>) {
        let mut r: Vec<u8> = Vec::new();
        r.push((*self & 0xff) as u8);
        r.push(((*self >> 8) & 0xff) as u8);
        proof {
            assert(r@ =~= le2(*self));
        }
        r
    }
}

/// Packs every value, element images concatenated in order.
pub fn pack_all<T: GpuPod>(values: &Vec<T>) -> (r: Vec<u8>)
    ensures
        r@ == packed::<T>(values@),
{
    let mut r: Vec<u8> = Vec::new();
    let n = values.len();
    for i in 0..n
        invariant
            n == values@.len(),
            r@ == packed::<T>(values@.take(i as int)),
    {
        let mut bytes = values[i].pod();
        r.append(&mut bytes);
        proof {
            assert(values@.take(i + 1) =~= values@.take(i as int).push(values@[i as int]));
            lemma_packed_snoc::<T>(values@.take(i as int), values@[i as int]);
        }
    }
    proof {
        assert(values@.take(n as int) =~= values@);
    }
    r
}

} // verus!

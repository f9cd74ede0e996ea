//! The typed chunk codec: the closed set of scalar element types a chunk can
//! hold, the tagged storage form of a chunk's payload, and rectangular
//! buffers of any rank.
//!
//! Floating-point chunks are carried as their bit patterns (`F32Bits`,
//! `F64Bits`); the numeric interpretation of those bits belongs to the
//! caller.

use vstd::prelude::*;

use crate::GSDType;

verus! {

/// The payload of one chunk: a flat vector of scalar elements together with
/// the storage tag that identifies their type.
///
/// The two floating-point tags store raw bit patterns, so that the payload is
/// always a vector of plain integers.
#[derive(Debug)]
pub enum ChunkData {
    U8(Vec<u8>),
    U16(Vec<u16>),
    U32(Vec<u32>),
    U64(Vec<u64>),
    I8(Vec<i8>),
    I16(Vec<i16>),
    I32(Vec<i32>),
    I64(Vec<i64>),
    F32Bits(Vec<u32>),
    F64Bits(Vec<u64>),
}

impl ChunkData {
    /// The storage tag of this payload.
    pub open spec fn tag(&self) -> GSDType {
        match self {
            ChunkData::U8(_) => GSDType::UINT8,
            ChunkData::U16(_) => GSDType::UINT16,
            ChunkData::U32(_) => GSDType::UINT32,
            ChunkData::U64(_) => GSDType::UINT64,
            ChunkData::I8(_) => GSDType::INT8,
            ChunkData::I16(_) => GSDType::INT16,
            ChunkData::I32(_) => GSDType::INT32,
            ChunkData::I64(_) => GSDType::INT64,
            ChunkData::F32Bits(_) => GSDType::FLOAT,
            ChunkData::F64Bits(_) => GSDType::DOUBLE,
        }
    }

    /// The elements of this payload as mathematical integers (bit patterns
    /// for the floating-point tags).
    pub open spec fn values(&self) -> Seq<int> {
        match self {
            ChunkData::U8(v) => v@.map_values(|x: u8| x as int),
            ChunkData::U16(v) => v@.map_values(|x: u16| x as int),
            ChunkData::U32(v) => v@.map_values(|x: u32| x as int),
            ChunkData::U64(v) => v@.map_values(|x: u64| x as int),
            ChunkData::I8(v) => v@.map_values(|x: i8| x as int),
            ChunkData::I16(v) => v@.map_values(|x: i16| x as int),
            ChunkData::I32(v) => v@.map_values(|x: i32| x as int),
            ChunkData::I64(v) => v@.map_values(|x: i64| x as int),
            ChunkData::F32Bits(v) => v@.map_values(|x: u32| x as int),
            ChunkData::F64Bits(v) => v@.map_values(|x: u64| x as int),
        }
    }

    /// The number of elements.
    pub open spec fn spec_len(&self) -> int {
        self.values().len() as int
    }

    pub fn len(&self) -> (n: usize)
        ensures
            n == self.spec_len(),
    {
        match self {
            ChunkData::U8(v) => v.len(),
            ChunkData::U16(v) => v.len(),
            ChunkData::U32(v) => v.len(),
            ChunkData::U64(v) => v.len(),
            ChunkData::I8(v) => v.len(),
            ChunkData::I16(v) => v.len(),
            ChunkData::I32(v) => v.len(),
            ChunkData::I64(v) => v.len(),
            ChunkData::F32Bits(v) => v.len(),
            ChunkData::F64Bits(v) => v.len(),
        }
    }

    pub fn tag_exec(&self) -> (t: GSDType)
        ensures
            t == self.tag(),
    {
        match self {
            ChunkData::U8(_) => GSDType::UINT8,
            ChunkData::U16(_) => GSDType::UINT16,
            ChunkData::U32(_) => GSDType::UINT32,
            ChunkData::U64(_) => GSDType::UINT64,
            ChunkData::I8(_) => GSDType::INT8,
            ChunkData::I16(_) => GSDType::INT16,
            ChunkData::I32(_) => GSDType::INT32,
            ChunkData::I64(_) => GSDType::INT64,
            ChunkData::F32Bits(_) => GSDType::FLOAT,
            ChunkData::F64Bits(_) => GSDType::DOUBLE,
        }
    }

    /// A fresh payload with the same tag and the same elements.
    pub fn duplicate(&self) -> (r: ChunkData)
        ensures
            r.tag() == self.tag(),
            r.values() == self.values(),
            payload_matches(*self, r),
    {
        match self {
            ChunkData::U8(v) => ChunkData::U8(copy_vec(v)),
            ChunkData::U16(v) => ChunkData::U16(copy_vec(v)),
            ChunkData::U32(v) => ChunkData::U32(copy_vec(v)),
            ChunkData::U64(v) => ChunkData::U64(copy_vec(v)),
            ChunkData::I8(v) => ChunkData::I8(copy_vec(v)),
            ChunkData::I16(v) => ChunkData::I16(copy_vec(v)),
            ChunkData::I32(v) => ChunkData::I32(copy_vec(v)),
            ChunkData::I64(v) => ChunkData::I64(copy_vec(v)),
            ChunkData::F32Bits(v) => ChunkData::F32Bits(copy_vec(v)),
            ChunkData::F64Bits(v) => ChunkData::F64Bits(copy_vec(v)),
        }
    }
}

/// Two payloads carry the same tag and exactly the same elements.
pub open spec fn payload_matches(a: ChunkData, b: ChunkData) -> bool {
    match (a, b) {
        (ChunkData::U8(x), ChunkData::U8(y)) => x@ == y@,
        (ChunkData::U16(x), ChunkData::U16(y)) => x@ == y@,
        (ChunkData::U32(x), ChunkData::U32(y)) => x@ == y@,
        (ChunkData::U64(x), ChunkData::U64(y)) => x@ == y@,
        (ChunkData::I8(x), ChunkData::I8(y)) => x@ == y@,
        (ChunkData::I16(x), ChunkData::I16(y)) => x@ == y@,
        (ChunkData::I32(x), ChunkData::I32(y)) => x@ == y@,
        (ChunkData::I64(x), ChunkData::I64(y)) => x@ == y@,
        (ChunkData::F32Bits(x), ChunkData::F32Bits(y)) => x@ == y@,
        (ChunkData::F64Bits(x), ChunkData::F64Bits(y)) => x@ == y@,
        _ => false,
    }
}

/// Copies a vector of plain scalars element by element.
pub fn copy_vec<T: Copy>(v: &Vec<T>) -> (r: Vec<T>)
    ensures
        r@ == v@,
{
    let mut r: Vec<T> = Vec::new();
    let mut i: usize = 0;
    while i < v.len()
        invariant
            i <= v@.len(),
            r@ == v@.subrange(0, i as int),
        decreases v@.len() - i,
    {
        r.push(v[i]);
        proof {
            assert(v@.subrange(0, i + 1 as int) =~= v@.subrange(0, i as int).push(v@[i as int]));
        }
        i += 1;
    }
    proof {
        assert(v@.subrange(0, v@.len() as int) =~= v@);
    }
    r
}

/// The number of elements of a rectangular buffer of the given shape.
pub open spec fn shape_product(s: Seq<usize>) -> int
    decreases s.len(),
{
    if s.len() == 0 {
        1
    } else {
        s[0] * shape_product(s.drop_first())
    }
}

/// A rectangular, row-major buffer of scalar elements, of any rank.
///
/// Rank 1 and rank 2 buffers are the storable ones; higher ranks exist only
/// to be rejected by a chunk write.
pub struct Buffer<T: GsdElement> {
    pub shape: Vec<usize>,
    pub data: Vec<T>,
}

impl<T: GsdElement> Buffer<T> {
    /// The data holds exactly one element per cell of the shape.
    pub open spec fn wf(&self) -> bool {
        shape_product(self.shape@) == self.data@.len()
    }

    /// A rank-1 buffer over the whole vector.
    pub fn new_1d(data: Vec<T>) -> (b: Buffer<T>)
        ensures
            b.wf(),
            b.shape@ =~= seq![data@.len() as usize],
            b.data@ == data@,
    {
        let n = data.len();
        let b = Buffer { shape: vec![n], data };
        proof {
            assert(b.shape@.drop_first() =~= Seq::<usize>::empty());
            assert(shape_product(b.shape@.drop_first()) == 1);
        }
        b
    }

    /// A rank-2 buffer of `rows` rows and `cols` columns.
    pub fn new_2d(rows: usize, cols: usize, data: Vec<T>) -> (b: Buffer<T>)
        requires
            rows * cols == data@.len(),
        ensures
            b.wf(),
            b.shape@ =~= seq![rows, cols],
            b.data@ == data@,
    {
        let b = Buffer { shape: vec![rows, cols], data };
        proof {
            assert(b.shape@.drop_first().drop_first() =~= Seq::<usize>::empty());
            assert(shape_product(b.shape@.drop_first().drop_first()) == 1);
            assert(b.shape@.drop_first()[0] == cols);
            assert(shape_product(b.shape@.drop_first()) == cols * 1);
        }
        b
    }

    /// A buffer of arbitrary rank.
    pub fn new_nd(shape: Vec<usize>, data: Vec<T>) -> (b: Buffer<T>)
        requires
            shape_product(shape@) == data@.len(),
        ensures
            b.wf(),
            b.shape@ == shape@,
            b.data@ == data@,
    {
        Buffer { shape, data }
    }

    /// The rank of the buffer.
    pub fn ndim(&self) -> (r: usize)
        ensures
            r == self.shape@.len(),
    {
        self.shape.len()
    }
}

/// A scalar element type a chunk can hold.  This is the closed set of types
/// the storage format can represent; the two floating-point tags are reached
/// through their bit patterns instead (`F32Bits`, `F64Bits` of
/// [`ChunkData`]).
pub trait GsdElement: Sized + Copy {
    /// The storage tag of this element type.
    spec fn tag_spec() -> GSDType;

    /// This element as a mathematical integer.
    spec fn to_int(self) -> int;

    /// Two elements with the same integer value are the same element.
    proof fn to_int_injective(a: Self, b: Self)
        ensures
            a.to_int() == b.to_int() ==> a == b,
    ;

    /// The storage tag of this element type.
    fn tag_of() -> (t: GSDType)
        ensures
            t == Self::tag_spec(),
    ;

    /// Packs a vector of elements into a tagged payload.
    fn wrap(v: Vec<Self>) -> (d: ChunkData)
        ensures
            d.tag() == Self::tag_spec(),
            d.values() == v@.map_values(|x: Self| x.to_int()),
    ;

    /// Unpacks a payload into a vector of elements; `None` exactly when the
    /// payload's tag is not the tag of this type.
    fn unwrap_vec(d: &ChunkData) -> (r: Option<Vec<Self>>)
        ensures
            match r {
                Some(v) => d.tag() == Self::tag_spec() && v@.map_values(|x: Self| x.to_int())
                    == d.values(),
                None => d.tag() != Self::tag_spec(),
            },
    ;
}

impl GsdElement for u8 {
    open spec fn tag_spec() -> GSDType {
        GSDType::UINT8
    }

    open spec fn to_int(self) -> int {
        self as int
    }

    proof fn to_int_injective(a: Self, b: Self) {
    }

    fn tag_of() -> (t: GSDType) {
        GSDType::UINT8
    }

    fn wrap(v: Vec<Self>) -> (d: ChunkData) {
        let d = ChunkData::U8(v);
        proof {
            assert(d.values() =~= v@.map_values(|x: Self| x.to_int()));
        }
        d
    }

    fn unwrap_vec(d: &ChunkData) -> (r: Option<Vec<Self>>) {
        match d {
            ChunkData::U8(v) => {
                let c = copy_vec(v);
                proof {
                    assert(c@.map_values(|x: Self| x.to_int()) =~= d.values());
                }
                Some(c)
            },
            _ => None,
        }
    }
}


impl GsdElement for u16 {
    open spec fn tag_spec() -> GSDType {
        GSDType::UINT16
    }

    open spec fn to_int(self) -> int {
        self as int
    }

    proof fn to_int_injective(a: Self, b: Self) {
    }

    fn tag_of() -> (t: GSDType) {
        GSDType::UINT16
    }

    fn wrap(v: Vec<Self>) -> (d: ChunkData) {
        let d = ChunkData::U16(v);
        proof {
            assert(d.values() =~= v@.map_values(|x: Self| x.to_int()));
        }
        d
    }

    fn unwrap_vec(d: &ChunkData) -> (r: Option<Vec<Self>>) {
        match d {
            ChunkData::U16(v) => {
                let c = copy_vec(v);
                proof {
                    assert(c@.map_values(|x: Self| x.to_int()) =~= d.values());
                }
                Some(c)
            },
            _ => None,
        }
    }
}

impl GsdElement for u32 {
    open spec fn tag_spec() -> GSDType {
        GSDType::UINT32
    }

    open spec fn to_int(self) -> int {
        self as int
    }

    proof fn to_int_injective(a: Self, b: Self) {
    }

    fn tag_of() -> (t: GSDType) {
        GSDType::UINT32
    }

    fn wrap(v: Vec<Self>) -> (d: ChunkData) {
        let d = ChunkData::U32(v);
        proof {
            assert(d.values() =~= v@.map_values(|x: Self| x.to_int()));
        }
        d
    }

    fn unwrap_vec(d: &ChunkData) -> (r: Option<Vec<Self>>) {
        match d {
            ChunkData::U32(v) => {
                let c = copy_vec(v);
                proof {
                    assert(c@.map_values(|x: Self| x.to_int()) =~= d.values());
                }
                Some(c)
            },
            _ => None,
        }
    }
}

impl GsdElement for u64 {
    open spec fn tag_spec() -> GSDType {
        GSDType::UINT64
    }

    open spec fn to_int(self) -> int {
        self as int
    }

    proof fn to_int_injective(a: Self, b: Self) {
    }

    fn tag_of() -> (t: GSDType) {
        GSDType::UINT64
    }

    fn wrap(v: Vec<Self>) -> (d: ChunkData) {
        let d = ChunkData::U64(v);
        proof {
            assert(d.values() =~= v@.map_values(|x: Self| x.to_int()));
        }
        d
    }

    fn unwrap_vec(d: &ChunkData) -> (r: Option<Vec<Self>>) {
        match d {
            ChunkData::U64(v) => {
                let c = copy_vec(v);
                proof {
                    assert(c@.map_values(|x: Self| x.to_int()) =~= d.values());
                }
                Some(c)
            },
            _ => None,
        }
    }
}

impl GsdElement for i8 {
    open spec fn tag_spec() -> GSDType {
        GSDType::INT8
    }

    open spec fn to_int(self) -> int {
        self as int
    }

    proof fn to_int_injective(a: Self, b: Self) {
    }

    fn tag_of() -> (t: GSDType) {
        GSDType::INT8
    }

    fn wrap(v: Vec<Self>) -> (d: ChunkData) {
        let d = ChunkData::I8(v);
        proof {
            assert(d.values() =~= v@.map_values(|x: Self| x.to_int()));
        }
        d
    }

    fn unwrap_vec(d: &ChunkData) -> (r: Option<Vec<Self>>) {
        match d {
            ChunkData::I8(v) => {
                let c = copy_vec(v);
                proof {
                    assert(c@.map_values(|x: Self| x.to_int()) =~= d.values());
                }
                Some(c)
            },
            _ => None,
        }
    }
}

impl GsdElement for i16 {
    open spec fn tag_spec() -> GSDType {
        GSDType::INT16
    }

    open spec fn to_int(self) -> int {
        self as int
    }

    proof fn to_int_injective(a: Self, b: Self) {
    }

    fn tag_of() -> (t: GSDType) {
        GSDType::INT16
    }

    fn wrap(v: Vec<Self>) -> (d: ChunkData) {
        let d = ChunkData::I16(v);
        proof {
            assert(d.values() =~= v@.map_values(|x: Self| x.to_int()));
        }
        d
    }

    fn unwrap_vec(d: &ChunkData) -> (r: Option<Vec<Self>>) {
        match d {
            ChunkData::I16(v) => {
                let c = copy_vec(v);
                proof {
                    assert(c@.map_values(|x: Self| x.to_int()) =~= d.values());
                }
                Some(c)
            },
            _ => None,
        }
    }
}

impl GsdElement for i32 {
    open spec fn tag_spec() -> GSDType {
        GSDType::INT32
    }

    open spec fn to_int(self) -> int {
        self as int
    }

    proof fn to_int_injective(a: Self, b: Self) {
    }

    fn tag_of() -> (t: GSDType) {
        GSDType::INT32
    }

    fn wrap(v: Vec<Self>) -> (d: ChunkData) {
        let d = ChunkData::I32(v);
        proof {
            assert(d.values() =~= v@.map_values(|x: Self| x.to_int()));
        }
        d
    }

    fn unwrap_vec(d: &ChunkData) -> (r: Option<Vec<Self>>) {
        match d {
            ChunkData::I32(v) => {
                let c = copy_vec(v);
                proof {
                    assert(c@.map_values(|x: Self| x.to_int()) =~= d.values());
                }
                Some(c)
            },
            _ => None,
        }
    }
}

impl GsdElement for i64 {
    open spec fn tag_spec() -> GSDType {
        GSDType::INT64
    }

    open spec fn to_int(self) -> int {
        self as int
    }

    proof fn to_int_injective(a: Self, b: Self) {
    }

    fn tag_of() -> (t: GSDType) {
        GSDType::INT64
    }

    fn wrap(v: Vec<Self>) -> (d: ChunkData) {
        let d = ChunkData::I64(v);
        proof {
            assert(d.values() =~= v@.map_values(|x: Self| x.to_int()));
        }
        d
    }

    fn unwrap_vec(d: &ChunkData) -> (r: Option<Vec<Self>>) {
        match d {
            ChunkData::I64(v) => {
                let c = copy_vec(v);
                proof {
                    assert(c@.map_values(|x: Self| x.to_int()) =~= d.values());
                }
                Some(c)
            },
            _ => None,
        }
    }
}

} // verus!

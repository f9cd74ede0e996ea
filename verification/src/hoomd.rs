//! The snapshot and trajectory layer: a structured per-frame record over
//! the hoomd schema's chunk names, sparse-frame inheritance from frame 0,
//! and range-plus-stride views with lazy iteration.
//!
//! Floating-point chunks (positions, velocities, the box, …) are carried as
//! their raw bit patterns, one `u32` per stored `f32`; the numeric reading
//! of those bits belongs to the caller.  Name-table chunks (`…/types`) are
//! carried as their raw byte rectangles.

use vstd::prelude::*;
use vstd::arithmetic::div_mod::lemma_fundamental_div_mod;
use vstd::arithmetic::div_mod::lemma_fundamental_div_mod_converse;
use vstd::arithmetic::div_mod::lemma_mod_bound;
use vstd::arithmetic::mul::lemma_mul_inequality;
use vstd::arithmetic::mul::lemma_mul_is_associative;
use vstd::arithmetic::mul::lemma_mul_is_commutative;

use crate::GSDType;
use crate::GsdError;
use crate::element::ChunkData;
use crate::element::copy_vec;
use crate::fl::GSDFile;

verus! {

/// The errors a frame read can surface besides `IndexOutOfBounds`: a chunk
/// stored under a schema name with the wrong tag, a scalar chunk with no
/// element, or a file whose mode forbids reading.
pub open spec fn spec_read_err(e: GsdError) -> bool {
    e == GsdError::TypeMismatch || e == GsdError::FileCorrupt || e == GsdError::FileMustBeReadable
}

/// The elements of an optional vector.
pub open spec fn opt_view<T>(o: Option<Vec<T>>) -> Option<Seq<T>> {
    match o {
        Some(v) => Some(v@),
        None => None,
    }
}

// A present chunk under a schema name is usable when the file may be read
// and the stored tag is the expected one; an absent chunk is always fine
// (the field is inherited instead).

/// A scalar field's chunk is absent or readable, carries the tag, and has
/// at least one element.
pub open spec fn scalar_ok(file: GSDFile, idx: int, name: Seq<char>, tag: GSDType) -> bool {
    match file.chunk_at(idx, name) {
        None => true,
        Some(c) => file.readable() && c.data.tag() == tag && c.data.values().len() >= 1,
    }
}

/// A vector field's chunk is absent or readable and carries the tag.
pub open spec fn vec_ok(file: GSDFile, idx: int, name: Seq<char>, tag: GSDType) -> bool {
    match file.chunk_at(idx, name) {
        None => true,
        Some(c) => file.readable() && c.data.tag() == tag,
    }
}

/// The resolved value of a one-element `u64` chunk: the stored element if
/// the chunk is present, the fallback otherwise.
pub open spec fn scalar_u64_value(file: GSDFile, idx: int, name: Seq<char>, fallback: u64) -> u64 {
    match file.chunk_at(idx, name) {
        Some(c) => match c.data {
            ChunkData::U64(v) => if v@.len() >= 1 {
                v@[0]
            } else {
                fallback
            },
            _ => fallback,
        },
        None => fallback,
    }
}

/// The resolved value of a one-element `u8` chunk.
pub open spec fn scalar_u8_value(file: GSDFile, idx: int, name: Seq<char>, fallback: u8) -> u8 {
    match file.chunk_at(idx, name) {
        Some(c) => match c.data {
            ChunkData::U8(v) => if v@.len() >= 1 {
                v@[0]
            } else {
                fallback
            },
            _ => fallback,
        },
        None => fallback,
    }
}

/// The resolved value of a one-element `u32` chunk.
pub open spec fn scalar_u32_value(file: GSDFile, idx: int, name: Seq<char>, fallback: u32) -> u32 {
    match file.chunk_at(idx, name) {
        Some(c) => match c.data {
            ChunkData::U32(v) => if v@.len() >= 1 {
                v@[0]
            } else {
                fallback
            },
            _ => fallback,
        },
        None => fallback,
    }
}

/// The resolved elements of a `u32`-payload chunk (plain `u32` data or
/// `f32` bit patterns): the stored elements if present, the fallback
/// otherwise.
pub open spec fn vec_u32_value(file: GSDFile, idx: int, name: Seq<char>, fallback: Seq<u32>) -> Seq<
    u32,
> {
    match file.chunk_at(idx, name) {
        Some(c) => match c.data {
            ChunkData::U32(v) => v@,
            ChunkData::F32Bits(v) => v@,
            _ => fallback,
        },
        None => fallback,
    }
}

/// The resolved elements of an optional `u32`-payload chunk.
pub open spec fn opt_vec_u32_value(
    file: GSDFile,
    idx: int,
    name: Seq<char>,
    fallback: Option<Seq<u32>>,
) -> Option<Seq<u32>> {
    match file.chunk_at(idx, name) {
        Some(c) => match c.data {
            ChunkData::U32(v) => Some(v@),
            ChunkData::F32Bits(v) => Some(v@),
            _ => fallback,
        },
        None => fallback,
    }
}

/// The resolved elements of an optional `i32` chunk.
pub open spec fn opt_vec_i32_value(
    file: GSDFile,
    idx: int,
    name: Seq<char>,
    fallback: Option<Seq<i32>>,
) -> Option<Seq<i32>> {
    match file.chunk_at(idx, name) {
        Some(c) => match c.data {
            ChunkData::I32(v) => Some(v@),
            _ => fallback,
        },
        None => fallback,
    }
}

/// The resolved elements of an optional `i8` chunk.
pub open spec fn opt_vec_i8_value(
    file: GSDFile,
    idx: int,
    name: Seq<char>,
    fallback: Option<Seq<i8>>,
) -> Option<Seq<i8>> {
    match file.chunk_at(idx, name) {
        Some(c) => match c.data {
            ChunkData::I8(v) => Some(v@),
            _ => fallback,
        },
        None => fallback,
    }
}

/// The resolved elements of an `i8` chunk with a plain fallback.
pub open spec fn vec_i8_value(file: GSDFile, idx: int, name: Seq<char>, fallback: Seq<i8>) -> Seq<
    i8,
> {
    match file.chunk_at(idx, name) {
        Some(c) => match c.data {
            ChunkData::I8(v) => v@,
            _ => fallback,
        },
        None => fallback,
    }
}

/// Reads a one-element `u64` chunk, inheriting `fallback` when the chunk is
/// absent.
fn read_scalar_u64(file: &GSDFile, idx: usize, name: &str, fallback: u64) -> (r: Result<
    u64,
    GsdError,
>)
    requires
        file.inv(),
    ensures
        scalar_ok(*file, idx as int, name@, GSDType::UINT64) ==> r == Ok::<u64, GsdError>(
            scalar_u64_value(*file, idx as int, name@, fallback),
        ),
        !scalar_ok(*file, idx as int, name@, GSDType::UINT64) ==> (r matches Err(e)
            && spec_read_err(e)),
{
    if !file.chunk_exists(idx, name) {
        return Ok(fallback);
    }
    let c = match file.read_chunk_raw(idx, name) {
        Ok(c) => c,
        Err(e) => {
            return Err(e);
        },
    };
    match c.data {
        ChunkData::U64(v) => {
            if v.len() >= 1 {
                Ok(v[0])
            } else {
                Err(GsdError::FileCorrupt)
            }
        },
        _ => Err(GsdError::TypeMismatch),
    }
}

/// Reads a one-element `u8` chunk, inheriting `fallback` when absent.
fn read_scalar_u8(file: &GSDFile, idx: usize, name: &str, fallback: u8) -> (r: Result<
    u8,
    GsdError,
>)
    requires
        file.inv(),
    ensures
        scalar_ok(*file, idx as int, name@, GSDType::UINT8) ==> r == Ok::<u8, GsdError>(
            scalar_u8_value(*file, idx as int, name@, fallback),
        ),
        !scalar_ok(*file, idx as int, name@, GSDType::UINT8) ==> (r matches Err(e)
            && spec_read_err(e)),
{
    if !file.chunk_exists(idx, name) {
        return Ok(fallback);
    }
    let c = match file.read_chunk_raw(idx, name) {
        Ok(c) => c,
        Err(e) => {
            return Err(e);
        },
    };
    match c.data {
        ChunkData::U8(v) => {
            if v.len() >= 1 {
                Ok(v[0])
            } else {
                Err(GsdError::FileCorrupt)
            }
        },
        _ => Err(GsdError::TypeMismatch),
    }
}

/// Reads a one-element `u32` chunk, inheriting `fallback` when absent.
fn read_scalar_u32(file: &GSDFile, idx: usize, name: &str, fallback: u32) -> (r: Result<
    u32,
    GsdError,
>)
    requires
        file.inv(),
    ensures
        scalar_ok(*file, idx as int, name@, GSDType::UINT32) ==> r == Ok::<u32, GsdError>(
            scalar_u32_value(*file, idx as int, name@, fallback),
        ),
        !scalar_ok(*file, idx as int, name@, GSDType::UINT32) ==> (r matches Err(e)
            && spec_read_err(e)),
{
    if !file.chunk_exists(idx, name) {
        return Ok(fallback);
    }
    let c = match file.read_chunk_raw(idx, name) {
        Ok(c) => c,
        Err(e) => {
            return Err(e);
        },
    };
    match c.data {
        ChunkData::U32(v) => {
            if v.len() >= 1 {
                Ok(v[0])
            } else {
                Err(GsdError::FileCorrupt)
            }
        },
        _ => Err(GsdError::TypeMismatch),
    }
}

/// Reads a `u32`-payload chunk (`tag` picks plain `u32` data or `f32` bit
/// patterns), inheriting a copy of `fallback` when absent.
fn read_vec_u32(file: &GSDFile, idx: usize, name: &str, tag: GSDType, fallback: &Vec<u32>) -> (r:
    Result<Vec<u32>, GsdError>)
    requires
        file.inv(),
        tag == GSDType::UINT32 || tag == GSDType::FLOAT,
    ensures
        vec_ok(*file, idx as int, name@, tag) ==> (r matches Ok(v) && v@ == vec_u32_value(
            *file,
            idx as int,
            name@,
            fallback@,
        )),
        !vec_ok(*file, idx as int, name@, tag) ==> (r matches Err(e) && spec_read_err(e)),
{
    if !file.chunk_exists(idx, name) {
        return Ok(copy_vec(fallback));
    }
    let c = match file.read_chunk_raw(idx, name) {
        Ok(c) => c,
        Err(e) => {
            return Err(e);
        },
    };
    if c.data.tag_exec() != tag {
        return Err(GsdError::TypeMismatch);
    }
    match c.data {
        ChunkData::U32(v) => Ok(v),
        ChunkData::F32Bits(v) => Ok(v),
        _ => Err(GsdError::TypeMismatch),
    }
}

/// Reads an optional `u32`-payload chunk, inheriting a copy of `fallback`
/// when absent.
fn read_opt_vec_u32(
    file: &GSDFile,
    idx: usize,
    name: &str,
    tag: GSDType,
    fallback: &Option<Vec<u32>>,
) -> (r: Result<Option<Vec<u32>>, GsdError>)
    requires
        file.inv(),
        tag == GSDType::UINT32 || tag == GSDType::FLOAT,
    ensures
        vec_ok(*file, idx as int, name@, tag) ==> (r matches Ok(o) && opt_view(o)
            == opt_vec_u32_value(*file, idx as int, name@, opt_view(*fallback))),
        !vec_ok(*file, idx as int, name@, tag) ==> (r matches Err(e) && spec_read_err(e)),
{
    if !file.chunk_exists(idx, name) {
        let o = match fallback {
            None => None,
            Some(v) => Some(copy_vec(v)),
        };
        return Ok(o);
    }
    let c = match file.read_chunk_raw(idx, name) {
        Ok(c) => c,
        Err(e) => {
            return Err(e);
        },
    };
    if c.data.tag_exec() != tag {
        return Err(GsdError::TypeMismatch);
    }
    match c.data {
        ChunkData::U32(v) => Ok(Some(v)),
        ChunkData::F32Bits(v) => Ok(Some(v)),
        _ => Err(GsdError::TypeMismatch),
    }
}

/// Reads an optional `i32` chunk, inheriting a copy of `fallback` when
/// absent.
fn read_opt_vec_i32(file: &GSDFile, idx: usize, name: &str, fallback: &Option<Vec<i32>>) -> (r:
    Result<Option<Vec<i32>>, GsdError>)
    requires
        file.inv(),
    ensures
        vec_ok(*file, idx as int, name@, GSDType::INT32) ==> (r matches Ok(o) && opt_view(o)
            == opt_vec_i32_value(*file, idx as int, name@, opt_view(*fallback))),
        !vec_ok(*file, idx as int, name@, GSDType::INT32) ==> (r matches Err(e) && spec_read_err(
            e,
        )),
{
    if !file.chunk_exists(idx, name) {
        let o = match fallback {
            None => None,
            Some(v) => Some(copy_vec(v)),
        };
        return Ok(o);
    }
    let c = match file.read_chunk_raw(idx, name) {
        Ok(c) => c,
        Err(e) => {
            return Err(e);
        },
    };
    match c.data {
        ChunkData::I32(v) => Ok(Some(v)),
        _ => Err(GsdError::TypeMismatch),
    }
}

/// Reads an optional `i8` chunk, inheriting a copy of `fallback` when
/// absent.
fn read_opt_vec_i8(file: &GSDFile, idx: usize, name: &str, fallback: &Option<Vec<i8>>) -> (r:
    Result<Option<Vec<i8>>, GsdError>)
    requires
        file.inv(),
    ensures
        vec_ok(*file, idx as int, name@, GSDType::INT8) ==> (r matches Ok(o) && opt_view(o)
            == opt_vec_i8_value(*file, idx as int, name@, opt_view(*fallback))),
        !vec_ok(*file, idx as int, name@, GSDType::INT8) ==> (r matches Err(e) && spec_read_err(
            e,
        )),
{
    if !file.chunk_exists(idx, name) {
        let o = match fallback {
            None => None,
            Some(v) => Some(copy_vec(v)),
        };
        return Ok(o);
    }
    let c = match file.read_chunk_raw(idx, name) {
        Ok(c) => c,
        Err(e) => {
            return Err(e);
        },
    };
    match c.data {
        ChunkData::I8(v) => Ok(Some(v)),
        _ => Err(GsdError::TypeMismatch),
    }
}

/// Reads an `i8` chunk with a plain fallback.
fn read_vec_i8(file: &GSDFile, idx: usize, name: &str, fallback: &Vec<i8>) -> (r: Result<
    Vec<i8>,
    GsdError,
>)
    requires
        file.inv(),
    ensures
        vec_ok(*file, idx as int, name@, GSDType::INT8) ==> (r matches Ok(v) && v@ == vec_i8_value(
            *file,
            idx as int,
            name@,
            fallback@,
        )),
        !vec_ok(*file, idx as int, name@, GSDType::INT8) ==> (r matches Err(e) && spec_read_err(
            e,
        )),
{
    if !file.chunk_exists(idx, name) {
        return Ok(copy_vec(fallback));
    }
    let c = match file.read_chunk_raw(idx, name) {
        Ok(c) => c,
        Err(e) => {
            return Err(e);
        },
    };
    match c.data {
        ChunkData::I8(v) => Ok(v),
        _ => Err(GsdError::TypeMismatch),
    }
}


/// The configuration group of one frame: the timestep, the spatial
/// dimensionality, and the six box parameters as `f32` bit patterns.
#[derive(Debug)]
pub struct ConfigurationData {
    pub step: u64,
    pub dimensions: u8,
    pub box_: Vec<u32>,
}

/// The per-particle group of one frame.  Vector fields hold row-major
/// rectangles; the `f32`-typed ones carry bit patterns.  `types` carries
/// the raw byte rectangle of the stored name table.
#[derive(Debug)]
pub struct ParticleData {
    pub n: u32,
    pub position: Option<Vec<u32>>,
    pub orientation: Option<Vec<u32>>,
    pub typeid: Option<Vec<u32>>,
    pub mass: Option<Vec<u32>>,
    pub charge: Option<Vec<u32>>,
    pub diameter: Option<Vec<u32>>,
    pub body: Option<Vec<i32>>,
    pub moment_inertia: Option<Vec<u32>>,
    pub velocity: Option<Vec<u32>>,
    pub angmom: Option<Vec<u32>>,
    pub image: Option<Vec<u32>>,
    pub types: Option<Vec<i8>>,
}

/// One topology group (bonds, angles, dihedrals, impropers or pairs): the
/// member count, the raw name table, the per-member type indices and the
/// flattened member tuples.
#[derive(Debug)]
pub struct BondData {
    pub n: u32,
    pub types: Vec<i8>,
    pub typeid: Vec<u32>,
    pub group: Vec<u32>,
}

/// The constraints group: the count, the constraint values and the
/// flattened member pairs, both as `f32` bit patterns.
#[derive(Debug)]
pub struct ConstraintData {
    pub n: u32,
    pub value: Vec<u32>,
    pub group: Vec<u32>,
}

/// The fully resolved record of one frame.
#[derive(Debug)]
pub struct Snapshot {
    pub configuration: ConfigurationData,
    pub particles: ParticleData,
    pub bonds: BondData,
    pub angles: BondData,
    pub dihedrals: BondData,
    pub impropers: BondData,
    pub constraints: ConstraintData,
    pub pairs: BondData,
}

/// The mathematical value of a configuration group.
pub ghost struct ConfigurationV {
    pub step: u64,
    pub dimensions: u8,
    pub box_: Seq<u32>,
}

/// The mathematical value of a particle group.
pub ghost struct ParticleV {
    pub n: u32,
    pub position: Option<Seq<u32>>,
    pub orientation: Option<Seq<u32>>,
    pub typeid: Option<Seq<u32>>,
    pub mass: Option<Seq<u32>>,
    pub charge: Option<Seq<u32>>,
    pub diameter: Option<Seq<u32>>,
    pub body: Option<Seq<i32>>,
    pub moment_inertia: Option<Seq<u32>>,
    pub velocity: Option<Seq<u32>>,
    pub angmom: Option<Seq<u32>>,
    pub image: Option<Seq<u32>>,
    pub types: Option<Seq<i8>>,
}

/// The mathematical value of a topology group.
pub ghost struct BondV {
    pub n: u32,
    pub types: Seq<i8>,
    pub typeid: Seq<u32>,
    pub group: Seq<u32>,
}

/// The mathematical value of the constraints group.
pub ghost struct ConstraintV {
    pub n: u32,
    pub value: Seq<u32>,
    pub group: Seq<u32>,
}

/// The mathematical value of a snapshot.
pub ghost struct SnapshotV {
    pub configuration: ConfigurationV,
    pub particles: ParticleV,
    pub bonds: BondV,
    pub angles: BondV,
    pub dihedrals: BondV,
    pub impropers: BondV,
    pub constraints: ConstraintV,
    pub pairs: BondV,
}

impl View for ConfigurationData {
    type V = ConfigurationV;

    open spec fn view(&self) -> ConfigurationV {
        ConfigurationV { step: self.step, dimensions: self.dimensions, box_: self.box_@ }
    }
}

impl View for ParticleData {
    type V = ParticleV;

    open spec fn view(&self) -> ParticleV {
        ParticleV {
            n: self.n,
            position: opt_view(self.position),
            orientation: opt_view(self.orientation),
            typeid: opt_view(self.typeid),
            mass: opt_view(self.mass),
            charge: opt_view(self.charge),
            diameter: opt_view(self.diameter),
            body: opt_view(self.body),
            moment_inertia: opt_view(self.moment_inertia),
            velocity: opt_view(self.velocity),
            angmom: opt_view(self.angmom),
            image: opt_view(self.image),
            types: opt_view(self.types),
        }
    }
}

impl View for BondData {
    type V = BondV;

    open spec fn view(&self) -> BondV {
        BondV { n: self.n, types: self.types@, typeid: self.typeid@, group: self.group@ }
    }
}

impl View for ConstraintData {
    type V = ConstraintV;

    open spec fn view(&self) -> ConstraintV {
        ConstraintV { n: self.n, value: self.value@, group: self.group@ }
    }
}

impl View for Snapshot {
    type V = SnapshotV;

    open spec fn view(&self) -> SnapshotV {
        SnapshotV {
            configuration: self.configuration@,
            particles: self.particles@,
            bonds: self.bonds@,
            angles: self.angles@,
            dihedrals: self.dihedrals@,
            impropers: self.impropers@,
            constraints: self.constraints@,
            pairs: self.pairs@,
        }
    }
}

/// The configuration a frame inherits when frame 0 itself lacks a chunk: a
/// zero step, zero dimensions and a zero box.
pub open spec fn default_configuration_v() -> ConfigurationV {
    ConfigurationV { step: 0, dimensions: 0, box_: Seq::new(6, |i: int| 0u32) }
}

/// The particle group a frame inherits when frame 0 itself lacks a chunk.
pub open spec fn default_particle_v() -> ParticleV {
    ParticleV {
        n: 0,
        position: None,
        orientation: None,
        typeid: None,
        mass: None,
        charge: None,
        diameter: None,
        body: None,
        moment_inertia: None,
        velocity: None,
        angmom: None,
        image: None,
        types: None,
    }
}

/// The empty topology group.
pub open spec fn default_bond_v() -> BondV {
    BondV { n: 0, types: Seq::empty(), typeid: Seq::empty(), group: Seq::empty() }
}

/// The empty constraints group.
pub open spec fn default_constraint_v() -> ConstraintV {
    ConstraintV { n: 0, value: Seq::empty(), group: Seq::empty() }
}

/// The snapshot every field falls back to when frame 0 itself lacks the
/// chunk.
pub open spec fn default_snapshot_v() -> SnapshotV {
    SnapshotV {
        configuration: default_configuration_v(),
        particles: default_particle_v(),
        bonds: default_bond_v(),
        angles: default_bond_v(),
        dihedrals: default_bond_v(),
        impropers: default_bond_v(),
        constraints: default_constraint_v(),
        pairs: default_bond_v(),
    }
}

impl Default for ConfigurationData {
    fn default() -> (r: ConfigurationData)
        ensures
            r@ == default_configuration_v(),
    {
        let mut box_: Vec<u32> = Vec::new();
        let mut i: usize = 0;
        while i < 6
            invariant
                i <= 6,
                box_@ =~= Seq::new(i as nat, |j: int| 0u32),
            decreases 6 - i,
        {
            box_.push(0);
            i += 1;
        }
        let r = ConfigurationData { step: 0, dimensions: 0, box_ };
        proof {
            assert(r.box_@ =~= default_configuration_v().box_);
        }
        r
    }
}

impl Default for ParticleData {
    fn default() -> (r: ParticleData)
        ensures
            r@ == default_particle_v(),
    {
        ParticleData {
            n: 0,
            position: None,
            orientation: None,
            typeid: None,
            mass: None,
            charge: None,
            diameter: None,
            body: None,
            moment_inertia: None,
            velocity: None,
            angmom: None,
            image: None,
            types: None,
        }
    }
}

impl Default for BondData {
    fn default() -> (r: BondData)
        ensures
            r@ == default_bond_v(),
    {
        let r = BondData { n: 0, types: Vec::new(), typeid: Vec::new(), group: Vec::new() };
        proof {
            assert(r.types@ =~= Seq::<i8>::empty());
            assert(r.typeid@ =~= Seq::<u32>::empty());
            assert(r.group@ =~= Seq::<u32>::empty());
        }
        r
    }
}

impl Default for ConstraintData {
    fn default() -> (r: ConstraintData)
        ensures
            r@ == default_constraint_v(),
    {
        let r = ConstraintData { n: 0, value: Vec::new(), group: Vec::new() };
        proof {
            assert(r.value@ =~= Seq::<u32>::empty());
            assert(r.group@ =~= Seq::<u32>::empty());
        }
        r
    }
}

impl Default for Snapshot {
    fn default() -> (r: Snapshot)
        ensures
            r@ == default_snapshot_v(),
    {
        Snapshot {
            configuration: ConfigurationData::default(),
            particles: ParticleData::default(),
            bonds: BondData::default(),
            angles: BondData::default(),
            dihedrals: BondData::default(),
            impropers: BondData::default(),
            constraints: ConstraintData::default(),
            pairs: BondData::default(),
        }
    }
}

/// Every configuration chunk of the frame is absent or carries its
/// schema tag.
pub open spec fn config_ok(file: GSDFile, idx: int) -> bool {
    &&& scalar_ok(file, idx, "configuration/step"@, GSDType::UINT64)
    &&& scalar_ok(file, idx, "configuration/dimensions"@, GSDType::UINT8)
    &&& vec_ok(file, idx, "configuration/box"@, GSDType::FLOAT)
}

/// The configuration of frame `idx`, each field taken from the frame's
/// chunk when present and from `base` otherwise.
pub open spec fn resolve_config(file: GSDFile, idx: int, base: ConfigurationV) -> ConfigurationV {
    ConfigurationV {
        step: scalar_u64_value(file, idx, "configuration/step"@, base.step),
        dimensions: scalar_u8_value(file, idx, "configuration/dimensions"@, base.dimensions),
        box_: vec_u32_value(file, idx, "configuration/box"@, base.box_),
    }
}

/// Every particle chunk of the frame is absent or carries its schema tag.
pub open spec fn particles_ok(file: GSDFile, idx: int) -> bool {
    &&& scalar_ok(file, idx, "particles/N"@, GSDType::UINT32)
    &&& vec_ok(file, idx, "particles/position"@, GSDType::FLOAT)
    &&& vec_ok(file, idx, "particles/orientation"@, GSDType::FLOAT)
    &&& vec_ok(file, idx, "particles/typeid"@, GSDType::UINT32)
    &&& vec_ok(file, idx, "particles/mass"@, GSDType::FLOAT)
    &&& vec_ok(file, idx, "particles/charge"@, GSDType::FLOAT)
    &&& vec_ok(file, idx, "particles/diameter"@, GSDType::FLOAT)
    &&& vec_ok(file, idx, "particles/body"@, GSDType::INT32)
    &&& vec_ok(file, idx, "particles/moment_inertia"@, GSDType::FLOAT)
    &&& vec_ok(file, idx, "particles/velocity"@, GSDType::FLOAT)
    &&& vec_ok(file, idx, "particles/angmom"@, GSDType::FLOAT)
    &&& vec_ok(file, idx, "particles/image"@, GSDType::FLOAT)
    &&& vec_ok(file, idx, "particles/types"@, GSDType::INT8)
}

/// The particle group of frame `idx`, with fallback to `base`.
pub open spec fn resolve_particles(file: GSDFile, idx: int, base: ParticleV) -> ParticleV {
    ParticleV {
        n: scalar_u32_value(file, idx, "particles/N"@, base.n),
        position: opt_vec_u32_value(file, idx, "particles/position"@, base.position),
        orientation: opt_vec_u32_value(file, idx, "particles/orientation"@, base.orientation),
        typeid: opt_vec_u32_value(file, idx, "particles/typeid"@, base.typeid),
        mass: opt_vec_u32_value(file, idx, "particles/mass"@, base.mass),
        charge: opt_vec_u32_value(file, idx, "particles/charge"@, base.charge),
        diameter: opt_vec_u32_value(file, idx, "particles/diameter"@, base.diameter),
        body: opt_vec_i32_value(file, idx, "particles/body"@, base.body),
        moment_inertia: opt_vec_u32_value(file, idx, "particles/moment_inertia"@, base.moment_inertia),
        velocity: opt_vec_u32_value(file, idx, "particles/velocity"@, base.velocity),
        angmom: opt_vec_u32_value(file, idx, "particles/angmom"@, base.angmom),
        image: opt_vec_u32_value(file, idx, "particles/image"@, base.image),
        types: opt_vec_i8_value(file, idx, "particles/types"@, base.types),
    }
}

/// Every chunk of one topology group is absent or carries its schema tag.
pub open spec fn bond_ok(
    file: GSDFile,
    idx: int,
    n_name: Seq<char>,
    types_name: Seq<char>,
    typeid_name: Seq<char>,
    group_name: Seq<char>,
) -> bool {
    &&& scalar_ok(file, idx, n_name, GSDType::UINT32)
    &&& vec_ok(file, idx, types_name, GSDType::INT8)
    &&& vec_ok(file, idx, typeid_name, GSDType::UINT32)
    &&& vec_ok(file, idx, group_name, GSDType::UINT32)
}

/// One topology group of frame `idx`, with fallback to `base`.
pub open spec fn resolve_bond(
    file: GSDFile,
    idx: int,
    n_name: Seq<char>,
    types_name: Seq<char>,
    typeid_name: Seq<char>,
    group_name: Seq<char>,
    base: BondV,
) -> BondV {
    BondV {
        n: scalar_u32_value(file, idx, n_name, base.n),
        types: vec_i8_value(file, idx, types_name, base.types),
        typeid: vec_u32_value(file, idx, typeid_name, base.typeid),
        group: vec_u32_value(file, idx, group_name, base.group),
    }
}

/// Every constraints chunk of the frame is absent or carries its schema
/// tag.
pub open spec fn constraints_ok(file: GSDFile, idx: int) -> bool {
    &&& scalar_ok(file, idx, "constraints/N"@, GSDType::UINT32)
    &&& vec_ok(file, idx, "constraints/value"@, GSDType::FLOAT)
    &&& vec_ok(file, idx, "constraints/group"@, GSDType::FLOAT)
}

/// The constraints group of frame `idx`, with fallback to `base`.
pub open spec fn resolve_constraints(file: GSDFile, idx: int, base: ConstraintV) -> ConstraintV {
    ConstraintV {
        n: scalar_u32_value(file, idx, "constraints/N"@, base.n),
        value: vec_u32_value(file, idx, "constraints/value"@, base.value),
        group: vec_u32_value(file, idx, "constraints/group"@, base.group),
    }
}

/// Every chunk the snapshot layer reads from the frame is absent or
/// readable under its schema tag (with at least one element for the
/// scalar chunks).
pub open spec fn frame_ok(file: GSDFile, idx: int) -> bool {
    &&& config_ok(file, idx)
    &&& particles_ok(file, idx)
    &&& bond_ok(file, idx, "bonds/N"@, "bonds/types"@, "bonds/typeid"@, "bonds/group"@)
    &&& bond_ok(file, idx, "angles/N"@, "angles/types"@, "angles/typeid"@, "angles/group"@)
    &&& bond_ok(
        file,
        idx,
        "dihedrals/N"@,
        "dihedrals/types"@,
        "dihedrals/typeid"@,
        "dihedrals/group"@,
    )
    &&& bond_ok(
        file,
        idx,
        "impropers/N"@,
        "impropers/types"@,
        "impropers/typeid"@,
        "impropers/group"@,
    )
    &&& bond_ok(file, idx, "pairs/N"@, "pairs/types"@, "pairs/typeid"@, "pairs/group"@)
    &&& constraints_ok(file, idx)
}

/// The snapshot of frame `idx`: every field is the frame's own chunk when
/// present, and `base`'s value otherwise.
pub open spec fn resolve_snapshot(file: GSDFile, idx: int, base: SnapshotV) -> SnapshotV {
    SnapshotV {
        configuration: resolve_config(file, idx, base.configuration),
        particles: resolve_particles(file, idx, base.particles),
        bonds: resolve_bond(
            file,
            idx,
            "bonds/N"@,
            "bonds/types"@,
            "bonds/typeid"@,
            "bonds/group"@,
            base.bonds,
        ),
        angles: resolve_bond(
            file,
            idx,
            "angles/N"@,
            "angles/types"@,
            "angles/typeid"@,
            "angles/group"@,
            base.angles,
        ),
        dihedrals: resolve_bond(
            file,
            idx,
            "dihedrals/N"@,
            "dihedrals/types"@,
            "dihedrals/typeid"@,
            "dihedrals/group"@,
            base.dihedrals,
        ),
        impropers: resolve_bond(
            file,
            idx,
            "impropers/N"@,
            "impropers/types"@,
            "impropers/typeid"@,
            "impropers/group"@,
            base.impropers,
        ),
        constraints: resolve_constraints(file, idx, base.constraints),
        pairs: resolve_bond(
            file,
            idx,
            "pairs/N"@,
            "pairs/types"@,
            "pairs/typeid"@,
            "pairs/group"@,
            base.pairs,
        ),
    }
}

/// Reads the configuration group of frame `idx`, inheriting absent fields
/// from `base`.
fn read_configuration(file: &GSDFile, idx: usize, base: &ConfigurationData) -> (r: Result<
    ConfigurationData,
    GsdError,
>)
    requires
        file.inv(),
    ensures
        config_ok(*file, idx as int) ==> (r matches Ok(c) && c@ == resolve_config(
            *file,
            idx as int,
            (*base)@,
        )),
        !config_ok(*file, idx as int) ==> (r matches Err(e) && spec_read_err(e)),
{
    let step = match read_scalar_u64(file, idx, "configuration/step", base.step) {
        Ok(v) => v,
        Err(e) => {
            return Err(e);
        },
    };
    let dimensions = match read_scalar_u8(file, idx, "configuration/dimensions", base.dimensions) {
        Ok(v) => v,
        Err(e) => {
            return Err(e);
        },
    };
    let box_ = match read_vec_u32(file, idx, "configuration/box", GSDType::FLOAT, &base.box_) {
        Ok(v) => v,
        Err(e) => {
            return Err(e);
        },
    };
    Ok(ConfigurationData { step, dimensions, box_ })
}

/// Reads the particle group of frame `idx`, inheriting absent fields from
/// `base`.
fn read_particles(file: &GSDFile, idx: usize, base: &ParticleData) -> (r: Result<
    ParticleData,
    GsdError,
>)
    requires
        file.inv(),
    ensures
        particles_ok(*file, idx as int) ==> (r matches Ok(p) && p@ == resolve_particles(
            *file,
            idx as int,
            (*base)@,
        )),
        !particles_ok(*file, idx as int) ==> (r matches Err(e) && spec_read_err(e)),
{
    let n = match read_scalar_u32(file, idx, "particles/N", base.n) {
        Ok(v) => v,
        Err(e) => {
            return Err(e);
        },
    };
    let position = match read_opt_vec_u32(
        file,
        idx,
        "particles/position",
        GSDType::FLOAT,
        &base.position,
    ) {
        Ok(v) => v,
        Err(e) => {
            return Err(e);
        },
    };
    let orientation = match read_opt_vec_u32(
        file,
        idx,
        "particles/orientation",
        GSDType::FLOAT,
        &base.orientation,
    ) {
        Ok(v) => v,
        Err(e) => {
            return Err(e);
        },
    };
    let typeid = match read_opt_vec_u32(
        file,
        idx,
        "particles/typeid",
        GSDType::UINT32,
        &base.typeid,
    ) {
        Ok(v) => v,
        Err(e) => {
            return Err(e);
        },
    };
    let mass = match read_opt_vec_u32(file, idx, "particles/mass", GSDType::FLOAT, &base.mass) {
        Ok(v) => v,
        Err(e) => {
            return Err(e);
        },
    };
    let charge = match read_opt_vec_u32(file, idx, "particles/charge", GSDType::FLOAT, &base.charge)
        {
        Ok(v) => v,
        Err(e) => {
            return Err(e);
        },
    };
    let diameter = match read_opt_vec_u32(
        file,
        idx,
        "particles/diameter",
        GSDType::FLOAT,
        &base.diameter,
    ) {
        Ok(v) => v,
        Err(e) => {
            return Err(e);
        },
    };
    let body = match read_opt_vec_i32(file, idx, "particles/body", &base.body) {
        Ok(v) => v,
        Err(e) => {
            return Err(e);
        },
    };
    let moment_inertia = match read_opt_vec_u32(
        file,
        idx,
        "particles/moment_inertia",
        GSDType::FLOAT,
        &base.moment_inertia,
    ) {
        Ok(v) => v,
        Err(e) => {
            return Err(e);
        },
    };
    let velocity = match read_opt_vec_u32(
        file,
        idx,
        "particles/velocity",
        GSDType::FLOAT,
        &base.velocity,
    ) {
        Ok(v) => v,
        Err(e) => {
            return Err(e);
        },
    };
    let angmom = match read_opt_vec_u32(file, idx, "particles/angmom", GSDType::FLOAT, &base.angmom)
        {
        Ok(v) => v,
        Err(e) => {
            return Err(e);
        },
    };
    let image = match read_opt_vec_u32(file, idx, "particles/image", GSDType::FLOAT, &base.image) {
        Ok(v) => v,
        Err(e) => {
            return Err(e);
        },
    };
    let types = match read_opt_vec_i8(file, idx, "particles/types", &base.types) {
        Ok(v) => v,
        Err(e) => {
            return Err(e);
        },
    };
    Ok(
        ParticleData {
            n,
            position,
            orientation,
            typeid,
            mass,
            charge,
            diameter,
            body,
            moment_inertia,
            velocity,
            angmom,
            image,
            types,
        },
    )
}

/// Reads one topology group of frame `idx` under its four chunk names,
/// inheriting absent fields from `base`.
fn read_bond_data(
    file: &GSDFile,
    idx: usize,
    n_name: &str,
    types_name: &str,
    typeid_name: &str,
    group_name: &str,
    base: &BondData,
) -> (r: Result<BondData, GsdError>)
    requires
        file.inv(),
    ensures
        bond_ok(*file, idx as int, n_name@, types_name@, typeid_name@, group_name@) ==> (r matches
            Ok(b) && b@ == resolve_bond(
            *file,
            idx as int,
            n_name@,
            types_name@,
            typeid_name@,
            group_name@,
            (*base)@,
        )),
        !bond_ok(*file, idx as int, n_name@, types_name@, typeid_name@, group_name@) ==> (r matches
            Err(e) && spec_read_err(e)),
{
    let n = match read_scalar_u32(file, idx, n_name, base.n) {
        Ok(v) => v,
        Err(e) => {
            return Err(e);
        },
    };
    let types = match read_vec_i8(file, idx, types_name, &base.types) {
        Ok(v) => v,
        Err(e) => {
            return Err(e);
        },
    };
    let typeid = match read_vec_u32(file, idx, typeid_name, GSDType::UINT32, &base.typeid) {
        Ok(v) => v,
        Err(e) => {
            return Err(e);
        },
    };
    let group = match read_vec_u32(file, idx, group_name, GSDType::UINT32, &base.group) {
        Ok(v) => v,
        Err(e) => {
            return Err(e);
        },
    };
    Ok(BondData { n, types, typeid, group })
}

/// Reads the constraints group of frame `idx`, inheriting absent fields
/// from `base`.
fn read_constraints(file: &GSDFile, idx: usize, base: &ConstraintData) -> (r: Result<
    ConstraintData,
    GsdError,
>)
    requires
        file.inv(),
    ensures
        constraints_ok(*file, idx as int) ==> (r matches Ok(c) && c@ == resolve_constraints(
            *file,
            idx as int,
            (*base)@,
        )),
        !constraints_ok(*file, idx as int) ==> (r matches Err(e) && spec_read_err(e)),
{
    let n = match read_scalar_u32(file, idx, "constraints/N", base.n) {
        Ok(v) => v,
        Err(e) => {
            return Err(e);
        },
    };
    let value = match read_vec_u32(file, idx, "constraints/value", GSDType::FLOAT, &base.value) {
        Ok(v) => v,
        Err(e) => {
            return Err(e);
        },
    };
    let group = match read_vec_u32(file, idx, "constraints/group", GSDType::FLOAT, &base.group) {
        Ok(v) => v,
        Err(e) => {
            return Err(e);
        },
    };
    Ok(ConstraintData { n, value, group })
}

/// Reads the full snapshot of frame `idx`, resolving every field from the
/// frame's own chunk when present and from `base` otherwise.
fn read_snapshot(file: &GSDFile, idx: usize, base: &Snapshot) -> (r: Result<Snapshot, GsdError>)
    requires
        file.inv(),
    ensures
        frame_ok(*file, idx as int) ==> (r matches Ok(s) && s@ == resolve_snapshot(
            *file,
            idx as int,
            (*base)@,
        )),
        !frame_ok(*file, idx as int) ==> (r matches Err(e) && spec_read_err(e)),
{
    let configuration = match read_configuration(file, idx, &base.configuration) {
        Ok(v) => v,
        Err(e) => {
            return Err(e);
        },
    };
    let particles = match read_particles(file, idx, &base.particles) {
        Ok(v) => v,
        Err(e) => {
            return Err(e);
        },
    };
    let bonds = match read_bond_data(
        file,
        idx,
        "bonds/N",
        "bonds/types",
        "bonds/typeid",
        "bonds/group",
        &base.bonds,
    ) {
        Ok(v) => v,
        Err(e) => {
            return Err(e);
        },
    };
    let angles = match read_bond_data(
        file,
        idx,
        "angles/N",
        "angles/types",
        "angles/typeid",
        "angles/group",
        &base.angles,
    ) {
        Ok(v) => v,
        Err(e) => {
            return Err(e);
        },
    };
    let dihedrals = match read_bond_data(
        file,
        idx,
        "dihedrals/N",
        "dihedrals/types",
        "dihedrals/typeid",
        "dihedrals/group",
        &base.dihedrals,
    ) {
        Ok(v) => v,
        Err(e) => {
            return Err(e);
        },
    };
    let impropers = match read_bond_data(
        file,
        idx,
        "impropers/N",
        "impropers/types",
        "impropers/typeid",
        "impropers/group",
        &base.impropers,
    ) {
        Ok(v) => v,
        Err(e) => {
            return Err(e);
        },
    };
    let constraints = match read_constraints(file, idx, &base.constraints) {
        Ok(v) => v,
        Err(e) => {
            return Err(e);
        },
    };
    let pairs = match read_bond_data(
        file,
        idx,
        "pairs/N",
        "pairs/types",
        "pairs/typeid",
        "pairs/group",
        &base.pairs,
    ) {
        Ok(v) => v,
        Err(e) => {
            return Err(e);
        },
    };
    Ok(Snapshot { configuration, particles, bonds, angles, dihedrals, impropers, constraints, pairs })
}


/// The snapshot that serves as the source of defaults: frame 0 resolved
/// against the type defaults.
pub open spec fn spec_frame0(file: GSDFile) -> SnapshotV {
    resolve_snapshot(file, 0, default_snapshot_v())
}

/// A trajectory: exclusive owner of one file handle, with a lazily filled
/// cache of the frame-0 snapshot that sparse frames inherit from.
#[derive(Debug)]
pub struct HOOMDTrajectory {
    pub file: GSDFile,
    pub initial_frame: Option<Snapshot>,
}

/// What one frame read does: `IndexOutOfBounds` at or beyond the frame
/// count; otherwise, when every chunk it touches is usable, the snapshot of
/// the frame with absent fields inherited from frame 0 (itself resolved
/// against the type defaults), filling the frame-0 cache on first need and
/// leaving the file untouched throughout.
pub open spec fn read_frame_spec(
    t0: HOOMDTrajectory,
    t1: HOOMDTrajectory,
    idx: int,
    r: Result<Snapshot, GsdError>,
) -> bool {
    &&& t1.file == t0.file
    &&& idx >= t0.file.data.frames@.len() ==> (r == Err::<Snapshot, GsdError>(
        GsdError::IndexOutOfBounds,
    ) && t1 == t0)
    &&& idx < t0.file.data.frames@.len() ==> {
        let base = if idx == 0 {
            default_snapshot_v()
        } else {
            spec_frame0(t0.file)
        };
        &&& (t0.initial_frame is None && !frame_ok(t0.file, 0)) ==> (r matches Err(e)
            && spec_read_err(e) && t1 == t0)
        &&& (t0.initial_frame is Some || frame_ok(t0.file, 0)) ==> {
            &&& t1.initial_frame matches Some(s0) && s0@ == spec_frame0(t0.file)
            &&& frame_ok(t0.file, idx) ==> (r matches Ok(s) && s@ == resolve_snapshot(
                t0.file,
                idx,
                base,
            ))
            &&& !frame_ok(t0.file, idx) ==> (r matches Err(e) && spec_read_err(e))
        }
    }
}

impl HOOMDTrajectory {
    /// The file is well formed, and a filled frame-0 cache holds exactly
    /// the frame-0 snapshot resolved against the type defaults.
    pub open spec fn inv(&self) -> bool {
        &&& self.file.inv()
        &&& self.initial_frame matches Some(s) ==> (frame_ok(self.file, 0) && s@ == spec_frame0(
            self.file,
        ))
    }

    /// Wraps a handle; no chunk is read until a frame is first asked for.
    pub fn new(file: GSDFile) -> (r: HOOMDTrajectory)
        requires
            file.inv(),
        ensures
            r.inv(),
            r.file == file,
            r.initial_frame is None,
    {
        HOOMDTrajectory { file, initial_frame: None }
    }

    /// Validates the handle before wrapping it: the append mode is not
    /// supported (`AppendUnsupported`), the schema must be the trajectory
    /// schema (`WrongSchema`), and the schema version must lie in the
    /// supported range (`UnsupportedSchemaVersion`).
    pub fn try_new(file: GSDFile) -> (r: Result<HOOMDTrajectory, GsdError>)
        requires
            file.inv(),
        ensures
            file.mode_str@ == "ab"@ ==> r == Err::<HOOMDTrajectory, GsdError>(
                GsdError::AppendUnsupported,
            ),
            file.mode_str@ != "ab"@ && file.data.schema@ != "hoomd"@ ==> r == Err::<
                HOOMDTrajectory,
                GsdError,
            >(GsdError::WrongSchema),
            (file.mode_str@ != "ab"@ && file.data.schema@ == "hoomd"@ && !version_supported(
                file.data.schema_version,
            )) ==> r == Err::<HOOMDTrajectory, GsdError>(GsdError::UnsupportedSchemaVersion),
            (file.mode_str@ != "ab"@ && file.data.schema@ == "hoomd"@ && version_supported(
                file.data.schema_version,
            )) ==> (r matches Ok(t) && t.inv() && t.file == file && t.initial_frame is None),
    {
        if file.mode().to_owned() == "ab".to_owned() {
            return Err(GsdError::AppendUnsupported);
        }
        if !(file.schema().to_owned() == "hoomd".to_owned()) {
            return Err(GsdError::WrongSchema);
        }
        let version = file.schema_version();
        if !(version.0 >= 1 && version.0 < 2) {
            return Err(GsdError::UnsupportedSchemaVersion);
        }
        Ok(HOOMDTrajectory::new(file))
    }

    /// The number of committed frames of the underlying file.
    pub fn len(&self) -> (r: usize)
        ensures
            r == self.file.data.frames@.len(),
    {
        self.file.nframes()
    }

    /// Reads the snapshot of one frame.
    ///
    /// Fails with `IndexOutOfBounds` at or beyond [`HOOMDTrajectory::len`].
    /// On the first read the frame-0 snapshot is resolved against the type
    /// defaults and cached; every later frame inherits each absent chunk's
    /// field from that cache.
    pub fn _read_frame(&mut self, idx: usize) -> (r: Result<Snapshot, GsdError>)
        requires
            old(self).inv(),
        ensures
            final(self).inv(),
            read_frame_spec(*old(self), *final(self), idx as int, r),
    {
        if idx >= self.file.nframes() {
            return Err(GsdError::IndexOutOfBounds);
        }
        if self.initial_frame.is_none() {
            let base0 = Snapshot::default();
            match read_snapshot(&self.file, 0, &base0) {
                Ok(s0) => {
                    self.initial_frame = Some(s0);
                },
                Err(e) => {
                    return Err(e);
                },
            }
        }
        if idx == 0 {
            let base0 = Snapshot::default();
            read_snapshot(&self.file, 0, &base0)
        } else {
            match &self.initial_frame {
                Some(base) => read_snapshot(&self.file, idx, base),
                None => Err(GsdError::FileCorrupt),
            }
        }
    }

    /// Reads the snapshot of one frame, as [`HOOMDTrajectory::_read_frame`].
    pub fn index(&mut self, idx: usize) -> (r: Result<Snapshot, GsdError>)
        requires
            old(self).inv(),
        ensures
            final(self).inv(),
            read_frame_spec(*old(self), *final(self), idx as int, r),
    {
        self._read_frame(idx)
    }

    /// A view over the frame positions `start..end` (the end clamped to the
    /// frame count) visited with the given stride; a zero stride fails with
    /// `InvalidStride`.
    pub fn view(&self, start: usize, end: usize, stride: usize) -> (r: Result<
        HOOMDTrajectoryView,
        GsdError,
    >)
        ensures
            stride == 0 ==> r == Err::<HOOMDTrajectoryView, GsdError>(GsdError::InvalidStride),
            stride >= 1 ==> (r matches Ok(v) && v.wf() && v.start == start && v.stride == stride
                && v.end == (if end <= self.file.data.frames@.len() {
                end as int
            } else {
                self.file.data.frames@.len() as int
            })),
    {
        if stride == 0 {
            return Err(GsdError::InvalidStride);
        }
        let n = self.file.nframes();
        let e = if end <= n {
            end
        } else {
            n
        };
        Ok(HOOMDTrajectoryView { start, end: e, stride })
    }

    /// A fresh forward iterator over every frame, in order.
    pub fn iter(&self) -> (it: HOOMDTrajectoryIterator)
        ensures
            it.wf(),
            it.pos == 0,
            it.end == self.file.data.frames@.len(),
            it.stride == 1,
    {
        HOOMDTrajectoryIterator { pos: 0, end: self.file.nframes(), stride: 1 }
    }
}

/// The supported trajectory schema versions: at least 1.0 and below 2.0,
/// in ordinary pair order.
pub open spec fn version_supported(v: (u32, u32)) -> bool {
    pair_le((1u32, 0u32), v) && pair_lt(v, (2u32, 0u32))
}

/// Ordinary pair order on versions.
pub open spec fn pair_lt(a: (u32, u32), b: (u32, u32)) -> bool {
    a.0 < b.0 || (a.0 == b.0 && a.1 < b.1)
}

pub open spec fn pair_le(a: (u32, u32), b: (u32, u32)) -> bool {
    a == b || pair_lt(a, b)
}

/// A range-plus-stride cursor over a trajectory's absolute frame
/// positions: item `i` stands for frame `start + i * stride`, and items
/// stop at `end`.
#[derive(Clone, Copy, Debug, PartialEq, Eq, Structural)]
pub struct HOOMDTrajectoryView {
    pub start: usize,
    pub end: usize,
    pub stride: usize,
}

impl HOOMDTrajectoryView {
    /// The stride is positive.
    pub open spec fn wf(&self) -> bool {
        self.stride >= 1
    }

    /// The declared item count: the length of the underlying range divided
    /// by the stride.
    pub open spec fn spec_len(&self) -> int {
        if self.start >= self.end {
            0
        } else {
            (self.end - self.start) / (self.stride as int)
        }
    }

    /// The absolute frame position of item `i`.
    pub open spec fn abs_of(&self, i: int) -> int {
        self.start + i * self.stride
    }

    /// The declared item count.
    pub fn len(&self) -> (r: usize)
        requires
            self.wf(),
        ensures
            r == self.spec_len(),
    {
        if self.start >= self.end {
            0
        } else {
            (self.end - self.start) / self.stride
        }
    }

    /// Reads the snapshot of item `idx`: the frame at `start + idx *
    /// stride`, failing with `IndexOutOfBounds` when that position is at or
    /// beyond `end`.
    pub fn index(&self, traj: &mut HOOMDTrajectory, idx: usize) -> (r: Result<Snapshot, GsdError>)
        requires
            self.wf(),
            old(traj).inv(),
        ensures
            final(traj).inv(),
            self.abs_of(idx as int) >= self.end ==> (r == Err::<Snapshot, GsdError>(
                GsdError::IndexOutOfBounds,
            ) && *final(traj) == *old(traj)),
            self.abs_of(idx as int) < self.end ==> read_frame_spec(
                *old(traj),
                *final(traj),
                self.abs_of(idx as int),
                r,
            ),
    {
        let step = match idx.checked_mul(self.stride) {
            Some(p) => p,
            None => {
                proof {
                    lemma_mul_inequality(
                        usize::MAX as int + 1,
                        idx as int * self.stride as int,
                        1,
                    );
                }
                return Err(GsdError::IndexOutOfBounds);
            },
        };
        let abs = match step.checked_add(self.start) {
            Some(a) => a,
            None => {
                return Err(GsdError::IndexOutOfBounds);
            },
        };
        if abs >= self.end {
            return Err(GsdError::IndexOutOfBounds);
        }
        traj._read_frame(abs)
    }

    /// A sub-view in this view's item coordinates: item `i` of the result
    /// stands for item `start + i * stride` of this view, with the given
    /// end clamped to this view's item count.  A zero stride fails with
    /// `InvalidStride`.
    pub fn view(&self, start: usize, end: usize, stride: usize) -> (r: Result<
        HOOMDTrajectoryView,
        GsdError,
    >)
        requires
            self.wf(),
            stride as int * self.stride as int <= usize::MAX as int,
            self.start as int + (self.end as int - self.start as int) * stride as int
                <= usize::MAX as int,
        ensures
            stride == 0 ==> r == Err::<HOOMDTrajectoryView, GsdError>(GsdError::InvalidStride),
            stride >= 1 ==> (r matches Ok(v) && v.wf() && ({
                let items = self.spec_len();
                let ce = if end as int <= items {
                    end as int
                } else {
                    items
                };
                &&& v.stride == stride as int * self.stride as int
                &&& v.end == self.start as int + ce * (stride as int * self.stride as int)
                &&& (start as int) < ce ==> v.start == self.start as int + start as int
                    * self.stride as int
                &&& (start as int) >= ce ==> v.start == v.end
            })),
    {
        if stride == 0 {
            return Err(GsdError::InvalidStride);
        }
        let items = self.len();
        let ce = if end <= items {
            end
        } else {
            items
        };
        proof {
            lemma_view_len_bound(*self);
            lemma_mul_inequality(1, stride as int, self.stride as int);
            lemma_mul_is_commutative(stride as int, self.stride as int);
            // ce * (stride * self.stride) stays within the bound of the
            // requires: ce <= items and items * self.stride <= end - start.
            if self.start < self.end {
                lemma_mul_inequality(ce as int, items as int, self.stride as int);
                lemma_mul_inequality(
                    ce as int * self.stride as int,
                    self.end as int - self.start as int,
                    stride as int,
                );
                lemma_mul_is_associative(ce as int, self.stride as int, stride as int);
                lemma_mul_is_associative(ce as int, stride as int, self.stride as int);
                assert(ce as int * self.stride as int <= self.end as int - self.start as int);
                assert((ce as int * self.stride as int) * stride as int <= (self.end as int
                    - self.start as int) * stride as int);
                assert(ce as int * (stride as int * self.stride as int) == (ce as int
                    * self.stride as int) * stride as int);
            } else {
                assert(items == 0);
                assert(ce == 0);
            }
        }
        let ns = stride * self.stride;
        let ne_scaled = ce * ns;
        let ne = self.start + ne_scaled;
        let vs = if start < ce {
            proof {
                lemma_mul_inequality(start as int, ce as int, self.stride as int);
                lemma_mul_inequality(
                    start as int * self.stride as int,
                    self.end as int - self.start as int,
                    stride as int,
                );
                lemma_mul_inequality(1, stride as int, start as int * self.stride as int);
            }
            self.start + start * self.stride
        } else {
            ne
        };
        Ok(HOOMDTrajectoryView { start: vs, end: ne, stride: ns })
    }

    /// A fresh forward iterator over this view's items.  Each call starts
    /// an independent traversal from `start`: the view is restartable even
    /// though a single iterator is not.
    pub fn iter(&self) -> (it: HOOMDTrajectoryIterator)
        requires
            self.wf(),
        ensures
            it.wf(),
            it.pos == self.start,
            it.end == self.end,
            it.stride == self.stride,
    {
        HOOMDTrajectoryIterator { pos: self.start, end: self.end, stride: self.stride }
    }
}

/// The item count the view's stride bound guarantees: the items times the
/// stride fit in the underlying range.
pub proof fn lemma_view_len_bound(v: HOOMDTrajectoryView)
    requires
        v.wf(),
    ensures
        v.spec_len() >= 0,
        v.spec_len() * v.stride <= (if v.start <= v.end {
            v.end - v.start
        } else {
            0int
        }),
{
    if v.start < v.end {
        let d = v.end - v.start;
        let s = v.stride as int;
        lemma_fundamental_div_mod(d, s);
        lemma_mod_bound(d, s);
        lemma_mul_is_commutative(s, d / s);
    }
}

/// A forward-only iterator over a view's items: it visits `pos`, `pos +
/// stride`, … and stops at `end`.  It holds no reference; each step is
/// handed the trajectory it reads from.
#[derive(Clone, Copy, Debug, PartialEq, Eq, Structural)]
pub struct HOOMDTrajectoryIterator {
    pub pos: usize,
    pub end: usize,
    pub stride: usize,
}

impl HOOMDTrajectoryIterator {
    /// The stride is positive.
    pub open spec fn wf(&self) -> bool {
        self.stride >= 1
    }

    /// A fresh iterator over `start..end` with the given stride.
    pub fn new(start: usize, end: usize, stride: usize) -> (it: HOOMDTrajectoryIterator)
        requires
            stride >= 1,
        ensures
            it.wf(),
            it.pos == start,
            it.end == end,
            it.stride == stride,
    {
        HOOMDTrajectoryIterator { pos: start, end, stride }
    }

    /// The declared count of items still ahead.
    pub fn len(&self) -> (r: usize)
        requires
            self.wf(),
        ensures
            r == (if self.pos >= self.end {
                0int
            } else {
                (self.end - self.pos) / (self.stride as int)
            }),
    {
        if self.pos >= self.end {
            0
        } else {
            (self.end - self.pos) / self.stride
        }
    }

    /// Reads the snapshot at the current position and advances by the
    /// stride; `None` once the position has reached `end`.  One frame is
    /// read per step.
    pub fn next(&mut self, traj: &mut HOOMDTrajectory) -> (r: Option<Result<Snapshot, GsdError>>)
        requires
            old(self).wf(),
            old(traj).inv(),
        ensures
            final(self).wf(),
            final(traj).inv(),
            old(self).pos >= old(self).end ==> (r is None && *final(self) == *old(self)
                && *final(traj) == *old(traj)),
            old(self).pos < old(self).end ==> ({
                &&& r matches Some(res) && read_frame_spec(
                    *old(traj),
                    *final(traj),
                    old(self).pos as int,
                    res,
                )
                &&& final(self).end == old(self).end
                &&& final(self).stride == old(self).stride
                &&& old(self).pos + old(self).stride <= usize::MAX ==> final(self).pos
                    == old(self).pos + old(self).stride
                &&& old(self).pos + old(self).stride > usize::MAX ==> final(self).pos
                    >= final(self).end
            }),
    {
        if self.pos >= self.end {
            return None;
        }
        let res = traj._read_frame(self.pos);
        self.pos = match self.pos.checked_add(self.stride) {
            Some(p) => p,
            None => self.end,
        };
        Some(res)
    }
}

/// The number of items a full traversal visits: the positions `start`,
/// `start + stride`, … that lie before `end`.
pub open spec fn iter_count(start: int, end: int, stride: int) -> int {
    if start >= end {
        0
    } else {
        (end - start + stride - 1) / stride
    }
}

/// One step of a traversal consumes exactly one item.
pub proof fn lemma_iter_count_step(start: int, end: int, stride: int)
    requires
        stride >= 1,
        start < end,
    ensures
        iter_count(start, end, stride) == 1 + iter_count(start + stride, end, stride),
{
    let d = end - start;
    if start + stride >= end {
        lemma_fundamental_div_mod_converse(d + stride - 1, stride, 1, d - 1);
    } else {
        let x2 = d - 1;
        let q2 = x2 / stride;
        let r2 = x2 % stride;
        lemma_fundamental_div_mod(x2, stride);
        lemma_mod_bound(x2, stride);
        lemma_mul_is_commutative(stride, q2);
        assert((q2 + 1) * stride == q2 * stride + stride) by (nonlinear_arith);
        lemma_fundamental_div_mod_converse(d + stride - 1, stride, q2 + 1, r2);
    }
}

/// Iteration is exhaustive: when the stride divides the range, a full
/// traversal visits exactly the declared item count, the length of the
/// range divided by the stride.
pub proof fn lemma_iteration_exhausts_len(v: HOOMDTrajectoryView)
    requires
        v.wf(),
        v.start <= v.end,
        (v.end - v.start) % (v.stride as int) == 0,
    ensures
        iter_count(v.start as int, v.end as int, v.stride as int) == v.spec_len(),
{
    if v.start < v.end {
        let d = v.end - v.start;
        let s = v.stride as int;
        lemma_fundamental_div_mod(d, s);
        let q = d / s;
        lemma_mod_bound(d, s);
        lemma_mul_is_commutative(s, q);
        lemma_fundamental_div_mod_converse(d + s - 1, s, q, s - 1);
    }
}

/// Sub-view composition maps items back to the parent: item `i` of a
/// sub-view built with offset `cs` and stride `sc` is item `cs + i * sc`
/// of the parent, at the same absolute frame position.
pub proof fn lemma_view_compose_absolute(p_start: int, p_stride: int, cs: int, sc: int, i: int)
    ensures
        (p_start + cs * p_stride) + i * (sc * p_stride) == p_start + (cs + i * sc) * p_stride,
{
    assert((p_start + cs * p_stride) + i * (sc * p_stride) == p_start + (cs + i * sc) * p_stride)
        by (nonlinear_arith);
}


/// Sparse-frame inheritance: a field whose chunk the frame omits keeps the
/// base value, and a field whose chunk the frame carries takes the stored
/// value, shown here for the step chunk and one particle chunk.
pub proof fn lemma_sparse_inheritance(file: GSDFile, idx: int, base: SnapshotV)
    ensures
        file.chunk_at(idx, "configuration/step"@) is None ==> resolve_snapshot(
            file,
            idx,
            base,
        ).configuration.step == base.configuration.step,
        file.chunk_at(idx, "particles/position"@) is None ==> resolve_snapshot(
            file,
            idx,
            base,
        ).particles.position == base.particles.position,
        file.chunk_at(idx, "configuration/step"@) matches Some(c) ==> (c.data matches
            ChunkData::U64(v) ==> (v@.len() >= 1 ==> resolve_snapshot(
            file,
            idx,
            base,
        ).configuration.step == v@[0])),
{
}


/// The index of the first zero byte of a row, or the row's length if none.
pub open spec fn first_zero(row: Seq<u8>) -> int
    decreases row.len(),
{
    if row.len() == 0 {
        0
    } else if row[0] == 0 {
        0
    } else {
        1 + first_zero(row.drop_first())
    }
}

/// `first_zero` marks the end of a name: everything before it is nonzero,
/// and it points at a zero byte unless the row has none.
pub proof fn lemma_first_zero(row: Seq<u8>)
    ensures
        ({
            let k = first_zero(row);
            &&& 0 <= k <= row.len()
            &&& forall|j: int| 0 <= j < k ==> row[j] != 0
            &&& k < row.len() ==> row[k] == 0
        }),
    decreases row.len(),
{
    if row.len() == 0 {
    } else if row[0] == 0 {
    } else {
        lemma_first_zero(row.drop_first());
        assert(forall|j: int| 0 <= j < row.len() - 1 ==> row.drop_first()[j] == row[j + 1]);
        let fz = first_zero(row);
        assert(fz == 1 + first_zero(row.drop_first()));
        assert forall|j: int| 0 <= j < fz implies row[j] != 0 by {
            if j > 0 {
                assert(row.drop_first()[j - 1] != 0);
            }
        }
        if fz < row.len() {
            assert(row[fz] == row.drop_first()[fz - 1]);
        }
    }
}

/// One row of an `n` by `width` name table, as bytes, cut at its first
/// zero byte.
pub open spec fn spec_row_name(raw: Seq<i8>, width: int, r: int) -> Seq<u8> {
    let row = raw.subrange(r * width, r * width + width).map_values(|b: i8| b as u8);
    row.take(first_zero(row))
}

/// Decodes a type-name table chunk: the raw `i8` rectangle holds one
/// zero-padded name per row of `width` bytes; each decoded name is the
/// row's bytes up to its first zero.
pub fn decode_names(raw: &Vec<i8>, width: usize) -> (r: Vec<Vec<u8>>)
    requires
        width >= 1,
        raw@.len() as int % (width as int) == 0,
    ensures
        r@.len() == raw@.len() as int / (width as int),
        forall|i: int|
            0 <= i < r@.len() ==> (#[trigger] r@[i])@ == spec_row_name(raw@, width as int, i),
{
    let total = raw.len();
    let nrows = raw.len() / width;
    proof {
        lemma_fundamental_div_mod(raw@.len() as int, width as int);
        lemma_mul_is_commutative(width as int, nrows as int);
        assert(nrows as int * width as int == raw@.len());
    }
    let mut result: Vec<Vec<u8>> = Vec::new();
    let mut row_idx: usize = 0;
    let mut pos: usize = 0;
    while row_idx < nrows
        invariant
            width >= 1,
            raw@.len() as int % (width as int) == 0,
            total == raw@.len(),
            nrows as int * width as int == raw@.len(),
            nrows == raw@.len() as int / (width as int),
            row_idx <= nrows,
            pos == row_idx as int * width as int,
            result@.len() == row_idx,
            forall|i: int|
                0 <= i < result@.len() ==> (#[trigger] result@[i])@ == spec_row_name(
                    raw@,
                    width as int,
                    i,
                ),
        decreases nrows - row_idx,
    {
        proof {
            lemma_mul_inequality(row_idx as int + 1, nrows as int, width as int);
            assert((row_idx as int + 1) * width as int == row_idx as int * width as int
                + width as int) by (nonlinear_arith);
        }
        let ghost row = raw@.subrange(pos as int, pos as int + width as int).map_values(
            |b: i8| b as u8,
        );
        let mut name: Vec<u8> = Vec::new();
        let mut k: usize = 0;
        let mut done = false;
        while !done && k < width
            invariant
                width >= 1,
                total == raw@.len(),
                pos + width <= total,
                row == raw@.subrange(pos as int, pos as int + width as int).map_values(
                    |b: i8| b as u8,
                ),
                k <= width,
                name@.len() == k,
                forall|j: int| 0 <= j < k ==> name@[j] == row[j],
                forall|j: int| 0 <= j < k ==> row[j] != 0,
                done ==> (k < width && row[k as int] == 0),
            decreases width - k + (if done {
                0int
            } else {
                1int
            }),
        {
            proof {
                assert(pos + k < total);
            }
            let b = raw[pos + k];
            proof {
                assert(row[k as int] == b as u8);
            }
            if b == 0 {
                done = true;
            } else {
                proof {
                    assert(b as u8 != 0) by (bit_vector)
                        requires
                            b != 0,
                    ;
                }
                name.push(b as u8);
                k += 1;
            }
        }
        proof {
            lemma_first_zero(row);
            let fz = first_zero(row);
            assert(fz == k as int);
            assert(name@ =~= row.take(fz));
            assert(name@ == spec_row_name(raw@, width as int, row_idx as int));
        }
        result.push(name);
        row_idx += 1;
        proof {
            assert(pos + width <= total);
        }
        pos = pos + width;
    }
    result
}

} // verus!

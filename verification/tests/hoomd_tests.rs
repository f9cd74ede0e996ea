use gsd::GsdError;
use gsd::element::Buffer;
use gsd::fl::FileSystem;
use gsd::fl::GSDFile;
use gsd::hoomd::HOOMDTrajectory;
use gsd::hoomd::Snapshot;

fn hoomd_file(fs: &mut FileSystem, name: &str) -> GSDFile {
    GSDFile::try_new(
        fs,
        String::from(name),
        String::from("wb+"),
        Some(String::from("app")),
        Some(String::from("hoomd")),
        Some((1, 4)),
    )
    .unwrap()
}

fn write_step(f: &mut GSDFile, step: u64) {
    f.write_chunk("configuration/step", Buffer::new_1d(vec![step])).unwrap();
}

#[test]
fn hoomd_module_api() {
    let mut fs = FileSystem::new();
    let mut f = hoomd_file(&mut fs, "h.gsd");
    write_step(&mut f, 42);
    f.end_frame().unwrap();
    let mut traj = HOOMDTrajectory::try_new(f).unwrap();
    assert_eq!(traj.len(), 1);
    let snap = traj._read_frame(0).unwrap();
    assert_eq!(snap.configuration.step, 42);
}

#[test]
fn trajectory_rejects_bad_handles() {
    let mut fs = FileSystem::new();
    let f = hoomd_file(&mut fs, "r1.gsd");
    f.close(&mut fs);
    let f = GSDFile::try_new(&mut fs, String::from("r1.gsd"), String::from("ab"), None, None, None)
        .unwrap();
    assert_eq!(HOOMDTrajectory::try_new(f).err().unwrap(), GsdError::AppendUnsupported);

    let f = GSDFile::try_new(
        &mut fs,
        String::from("r2.gsd"),
        String::from("wb+"),
        Some(String::from("app")),
        Some(String::from("other")),
        Some((1, 0)),
    )
    .unwrap();
    assert_eq!(HOOMDTrajectory::try_new(f).err().unwrap(), GsdError::WrongSchema);

    for bad in [(2u32, 0u32), (0, 5), (3, 1)] {
        let f = GSDFile::try_new(
            &mut fs,
            String::from("r3.gsd"),
            String::from("wb+"),
            Some(String::from("app")),
            Some(String::from("hoomd")),
            Some(bad),
        )
        .unwrap();
        assert_eq!(
            HOOMDTrajectory::try_new(f).err().unwrap(),
            GsdError::UnsupportedSchemaVersion
        );
    }

    let mut fs2 = FileSystem::new();
    let f = hoomd_file(&mut fs2, "ok.gsd");
    assert!(HOOMDTrajectory::try_new(f).is_ok());
}

#[test]
fn sparse_frames_inherit_from_frame_zero() {
    let mut fs = FileSystem::new();
    let mut f = hoomd_file(&mut fs, "sp.gsd");
    // Frame 0 defines the step and a particle field.
    write_step(&mut f, 0);
    let pos_bits: Vec<u32> = vec![1.0f32, 2.0, 3.0].iter().map(|x| x.to_bits()).collect();
    f.write_chunk_raw(
        "particles/position",
        vec![1, 3],
        gsd::element::ChunkData::F32Bits(pos_bits.clone()),
    )
    .unwrap();
    f.end_frame().unwrap();
    // Frames 1 and 2 omit everything.
    f.end_frame().unwrap();
    f.end_frame().unwrap();
    // Frame 3 omits the step but carries its own dimensionality.
    f.write_chunk("configuration/dimensions", Buffer::new_1d(vec![3u8])).unwrap();
    f.end_frame().unwrap();

    let mut traj = HOOMDTrajectory::try_new(f).unwrap();
    let snap = traj._read_frame(3).unwrap();
    // Inherited from frame 0.
    assert_eq!(snap.configuration.step, 0);
    assert_eq!(snap.particles.position, Some(pos_bits.clone()));
    // Present in frame 3: overrides the inherited value.
    assert_eq!(snap.configuration.dimensions, 3);

    // Frame 0 itself resolves against the type defaults.
    let snap0 = traj._read_frame(0).unwrap();
    assert_eq!(snap0.configuration.step, 0);
    assert_eq!(snap0.configuration.dimensions, 0);
    assert_eq!(snap0.particles.position, Some(pos_bits));
    assert_eq!(snap0.particles.typeid, None);
    assert_eq!(snap0.bonds.n, 0);
}

#[test]
fn default_snapshot_fields() {
    let snap = Snapshot::default();
    assert_eq!(snap.configuration.step, 0);
    assert_eq!(snap.configuration.dimensions, 0);
    assert_eq!(snap.configuration.box_, vec![0u32; 6]);
    assert_eq!(snap.particles.n, 0);
    assert!(snap.particles.position.is_none());
    assert!(snap.particles.types.is_none());
    assert_eq!(snap.bonds.n, 0);
    assert!(snap.bonds.typeid.is_empty());
    assert!(snap.angles.group.is_empty());
    assert_eq!(snap.constraints.n, 0);
}

#[test]
fn frame_read_reports_type_mismatch() {
    let mut fs = FileSystem::new();
    let mut f = hoomd_file(&mut fs, "tm.gsd");
    // The step chunk must be u64; a u32 chunk under that name is refused.
    f.write_chunk("configuration/step", Buffer::new_1d(vec![1u32])).unwrap();
    f.end_frame().unwrap();
    let mut traj = HOOMDTrajectory::try_new(f).unwrap();
    assert_eq!(traj._read_frame(0).err().unwrap(), GsdError::TypeMismatch);
}

#[test]
fn out_of_bounds_index_fails() {
    let mut fs = FileSystem::new();
    let mut f = hoomd_file(&mut fs, "ob.gsd");
    write_step(&mut f, 1);
    f.end_frame().unwrap();
    let mut traj = HOOMDTrajectory::try_new(f).unwrap();
    assert_eq!(traj.len(), 1);
    assert_eq!(traj._read_frame(1).err().unwrap(), GsdError::IndexOutOfBounds);
    assert_eq!(traj.index(7).err().unwrap(), GsdError::IndexOutOfBounds);
    let v = traj.view(0, 1, 1).unwrap();
    assert_eq!(v.index(&mut traj, 1).err().unwrap(), GsdError::IndexOutOfBounds);
    assert!(v.index(&mut traj, 0).is_ok());
}

#[test]
fn view_composition_yields_expected_frames() {
    let mut fs = FileSystem::new();
    let mut f = hoomd_file(&mut fs, "vc.gsd");
    for i in 0..10u64 {
        write_step(&mut f, i);
        f.end_frame().unwrap();
    }
    let mut traj = HOOMDTrajectory::try_new(f).unwrap();
    assert_eq!(traj.len(), 10);

    let base = traj.view(0, 10, 1).unwrap();
    assert_eq!(base.len(), 10);

    // Items 0..5 of the base, every second: frames 0, 2, 4, 6, 8.
    let sub = base.view(0, 5, 2).unwrap();
    assert_eq!(sub.len(), 5);
    let mut got: Vec<u64> = Vec::new();
    for i in 0..sub.len() {
        got.push(sub.index(&mut traj, i).unwrap().configuration.step);
    }
    assert_eq!(got, vec![0, 2, 4, 6, 8]);

    // Items 1..3 of that: frames 2 and 4.
    let sub2 = sub.view(1, 3, 1).unwrap();
    assert_eq!(sub2.len(), 2);
    let mut got: Vec<u64> = Vec::new();
    for i in 0..sub2.len() {
        got.push(sub2.index(&mut traj, i).unwrap().configuration.step);
    }
    assert_eq!(got, vec![2, 4]);
}

#[test]
fn view_clamps_end_to_frame_count() {
    let mut fs = FileSystem::new();
    let mut f = hoomd_file(&mut fs, "cl.gsd");
    for i in 0..3u64 {
        write_step(&mut f, i);
        f.end_frame().unwrap();
    }
    let traj = HOOMDTrajectory::try_new(f).unwrap();
    let v = traj.view(0, 100, 1).unwrap();
    assert_eq!(v.len(), 3);
    assert_eq!(traj.view(0, 3, 0).err().unwrap(), GsdError::InvalidStride);
    let v = traj.view(1, 3, 1).unwrap();
    assert_eq!(v.len(), 2);
    assert_eq!(v.view(0, 2, 0).err().unwrap(), GsdError::InvalidStride);
}

#[test]
fn iteration_exhausts_and_views_restart() {
    let mut fs = FileSystem::new();
    let mut f = hoomd_file(&mut fs, "it.gsd");
    for i in 0..10u64 {
        write_step(&mut f, i);
        f.end_frame().unwrap();
    }
    let mut traj = HOOMDTrajectory::try_new(f).unwrap();
    let v = traj.view(0, 10, 2).unwrap();
    assert_eq!(v.len(), 5);

    let mut it = v.iter();
    let mut got: Vec<u64> = Vec::new();
    while let Some(res) = it.next(&mut traj) {
        got.push(res.unwrap().configuration.step);
    }
    // Forward only, exactly len() items.
    assert_eq!(got, vec![0, 2, 4, 6, 8]);
    // The exhausted iterator stays exhausted.
    assert!(it.next(&mut traj).is_none());

    // A second iter() on the same view starts a fresh traversal.
    let mut it2 = v.iter();
    let first = it2.next(&mut traj).unwrap().unwrap();
    assert_eq!(first.configuration.step, 0);

    // The whole-trajectory iterator visits every frame once.
    let mut it3 = traj.iter();
    let mut count = 0;
    while let Some(res) = it3.next(&mut traj) {
        res.unwrap();
        count += 1;
    }
    assert_eq!(count, 10);
}

#[test]
fn view_len_is_range_over_stride() {
    let mut fs = FileSystem::new();
    let mut f = hoomd_file(&mut fs, "fl.gsd");
    for i in 0..5u64 {
        write_step(&mut f, i);
        f.end_frame().unwrap();
    }
    let mut traj = HOOMDTrajectory::try_new(f).unwrap();
    // A range the stride does not divide: the declared count is the
    // floor, while a traversal visits one more item.
    let v = traj.view(0, 5, 2).unwrap();
    assert_eq!(v.len(), 2);
    let mut it = v.iter();
    let mut got: Vec<u64> = Vec::new();
    while let Some(res) = it.next(&mut traj) {
        got.push(res.unwrap().configuration.step);
    }
    assert_eq!(got, vec![0, 2, 4]);
}

#[test]
fn decode_type_names_cuts_rows_at_zero() {
    let raw: Vec<i8> = vec![65, 66, 0, 0, 67, 0, 0, 0, 87, 88, 89, 90];
    let names = gsd::hoomd::decode_names(&raw, 4);
    assert_eq!(names, vec![vec![65u8, 66], vec![67], vec![87, 88, 89, 90]]);
    let empty: Vec<i8> = Vec::new();
    assert!(gsd::hoomd::decode_names(&empty, 4).is_empty());
}

#[test]
fn bond_types_round_trip_through_snapshot() {
    let mut fs = FileSystem::new();
    let mut f = hoomd_file(&mut fs, "bt.gsd");
    // Two names, three bytes per row: "ab" and "c".
    let table: Vec<i8> = vec![97, 98, 0, 99, 0, 0];
    f.write_chunk("bonds/types", Buffer::new_2d(2, 3, table.clone())).unwrap();
    f.write_chunk("bonds/N", Buffer::new_1d(vec![2u32])).unwrap();
    f.write_chunk("bonds/group", Buffer::new_2d(2, 2, vec![0u32, 1, 1, 2])).unwrap();
    f.end_frame().unwrap();
    let mut traj = HOOMDTrajectory::try_new(f).unwrap();
    let snap = traj._read_frame(0).unwrap();
    assert_eq!(snap.bonds.n, 2);
    assert_eq!(snap.bonds.types, table);
    assert_eq!(snap.bonds.group, vec![0u32, 1, 1, 2]);
    let names = gsd::hoomd::decode_names(&snap.bonds.types, 3);
    assert_eq!(names, vec![vec![97u8, 98], vec![99]]);
}

#[test]
fn empty_scalar_chunk_is_corrupt() {
    let mut fs = FileSystem::new();
    let mut f = hoomd_file(&mut fs, "co.gsd");
    let none: Vec<u64> = Vec::new();
    f.write_chunk("configuration/step", Buffer::new_1d(none)).unwrap();
    f.end_frame().unwrap();
    let mut traj = HOOMDTrajectory::try_new(f).unwrap();
    assert_eq!(traj._read_frame(0).err().unwrap(), GsdError::FileCorrupt);
}

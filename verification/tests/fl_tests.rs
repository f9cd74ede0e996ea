use gsd::GSDType;
use gsd::GsdError;
use gsd::check_gsd_errors;
use gsd::element::Buffer;
use gsd::element::ChunkData;
use gsd::fl::FileSystem;
use gsd::fl::GSDFile;
use gsd::fl::OpenFlag;
use gsd::fl::parse_mode;

fn fresh_file(fs: &mut FileSystem, name: &str, mode: &str, schema: &str) -> GSDFile {
    GSDFile::try_new(
        fs,
        String::from(name),
        String::from(mode),
        Some(String::from("app")),
        Some(String::from(schema)),
        Some((1, 0)),
    )
    .unwrap()
}

fn f32_bits(c: ChunkData) -> Vec<u32> {
    match c {
        ChunkData::F32Bits(v) => v,
        _ => panic!("expected an f32 chunk"),
    }
}

fn f64_bits(c: ChunkData) -> Vec<u64> {
    match c {
        ChunkData::F64Bits(v) => v,
        _ => panic!("expected an f64 chunk"),
    }
}

#[test]
fn fl_module_api() {
    let mut fs = FileSystem::new();
    let mut gsd_file = GSDFile::try_new(
        &mut fs,
        String::from("file.gsd"),
        String::from("wb+"),
        Some(String::from("My application")),
        Some(String::from("My Schema")),
        Some((1, 0)),
    )
    .unwrap();

    let data: Vec<u32> = vec![1.0f32, 2.0, 3.0, 4.0].iter().map(|x| x.to_bits()).collect();
    gsd_file
        .write_chunk_raw("chunk1", vec![4], ChunkData::F32Bits(data))
        .unwrap();
    gsd_file.end_frame().unwrap();

    let data: Vec<u32> = vec![9.0f32, 10.0, 11.0, 12.0].iter().map(|x| x.to_bits()).collect();
    gsd_file
        .write_chunk_raw("chunk1", vec![4], ChunkData::F32Bits(data))
        .unwrap();
    gsd_file.end_frame().unwrap();

    let data: Vec<u32> = vec![13.0f32, 14.0].iter().map(|x| x.to_bits()).collect();
    gsd_file
        .write_chunk_raw("chunk1", vec![2], ChunkData::F32Bits(data))
        .unwrap();
    gsd_file.end_frame().unwrap();

    let output = gsd_file.read_chunk_raw(2, "chunk1").unwrap();
    assert!(output.n == 2 && output.m == 1);
    let expected: Vec<u32> = vec![13.0f32, 14.0].iter().map(|x| x.to_bits()).collect();
    assert_eq!(f32_bits(output.data), expected);
    assert!(gsd_file.nframes() == 3);
}

#[test]
fn invalid_mode_touches_nothing() {
    let mut fs = FileSystem::new();
    let r = GSDFile::try_new(
        &mut fs,
        String::from("a.gsd"),
        String::from("qb"),
        Some(String::from("app")),
        Some(String::from("s")),
        Some((1, 0)),
    );
    assert_eq!(r.err().unwrap(), GsdError::InvalidMode);
    for mode in ["", "w", "rb++", "WB", "ab+", "r", "x"] {
        let r = GSDFile::try_new(
            &mut fs,
            String::from("a.gsd"),
            String::from(mode),
            Some(String::from("app")),
            Some(String::from("s")),
            Some((1, 0)),
        );
        assert_eq!(r.err().unwrap(), GsdError::InvalidMode);
    }
    assert!(!fs.contains_file(&String::from("a.gsd")));
}

#[test]
fn parse_mode_all_supported() {
    assert_eq!(
        parse_mode("wb").unwrap(),
        gsd::fl::OpenMode { flag: OpenFlag::Append, overwrite: true, exclusive: false }
    );
    assert_eq!(
        parse_mode("wb+").unwrap(),
        gsd::fl::OpenMode { flag: OpenFlag::Readwrite, overwrite: true, exclusive: false }
    );
    assert_eq!(
        parse_mode("rb").unwrap(),
        gsd::fl::OpenMode { flag: OpenFlag::Readonly, overwrite: false, exclusive: false }
    );
    assert_eq!(
        parse_mode("rb+").unwrap(),
        gsd::fl::OpenMode { flag: OpenFlag::Readwrite, overwrite: false, exclusive: false }
    );
    assert_eq!(
        parse_mode("xb").unwrap(),
        gsd::fl::OpenMode { flag: OpenFlag::Append, overwrite: true, exclusive: true }
    );
    assert_eq!(
        parse_mode("xb+").unwrap(),
        gsd::fl::OpenMode { flag: OpenFlag::Readwrite, overwrite: true, exclusive: true }
    );
    assert_eq!(
        parse_mode("ab").unwrap(),
        gsd::fl::OpenMode { flag: OpenFlag::Append, overwrite: false, exclusive: false }
    );
    assert_eq!(parse_mode("zb").err().unwrap(), GsdError::InvalidMode);
}

#[test]
fn round_trip_integer_types() {
    let mut fs = FileSystem::new();
    let mut f = fresh_file(&mut fs, "rt.gsd", "wb+", "s");
    f.write_chunk("u8", Buffer::new_2d(2, 2, vec![1u8, 2, 3, 255])).unwrap();
    f.write_chunk("u16", Buffer::new_2d(2, 2, vec![1u16, 2, 3, 65535])).unwrap();
    f.write_chunk("u32", Buffer::new_2d(2, 2, vec![1u32, 2, 3, 4000000000])).unwrap();
    f.write_chunk("u64", Buffer::new_2d(2, 2, vec![1u64, 2, 3, u64::MAX])).unwrap();
    f.write_chunk("i8", Buffer::new_2d(2, 2, vec![-1i8, 2, -3, 127])).unwrap();
    f.write_chunk("i16", Buffer::new_2d(2, 2, vec![-1i16, 2, -3, 32767])).unwrap();
    f.write_chunk("i32", Buffer::new_2d(2, 2, vec![-1i32, 2, -3, i32::MIN])).unwrap();
    f.write_chunk("i64", Buffer::new_2d(2, 2, vec![-1i64, 2, -3, i64::MIN])).unwrap();
    f.end_frame().unwrap();

    let b = f.read_chunk::<u8>(0, "u8").unwrap();
    assert_eq!(b.shape, vec![2, 2]);
    assert_eq!(b.data, vec![1u8, 2, 3, 255]);
    let b = f.read_chunk::<u16>(0, "u16").unwrap();
    assert_eq!(b.data, vec![1u16, 2, 3, 65535]);
    let b = f.read_chunk::<u32>(0, "u32").unwrap();
    assert_eq!(b.data, vec![1u32, 2, 3, 4000000000]);
    let b = f.read_chunk::<u64>(0, "u64").unwrap();
    assert_eq!(b.data, vec![1u64, 2, 3, u64::MAX]);
    let b = f.read_chunk::<i8>(0, "i8").unwrap();
    assert_eq!(b.data, vec![-1i8, 2, -3, 127]);
    let b = f.read_chunk::<i16>(0, "i16").unwrap();
    assert_eq!(b.data, vec![-1i16, 2, -3, 32767]);
    let b = f.read_chunk::<i32>(0, "i32").unwrap();
    assert_eq!(b.data, vec![-1i32, 2, -3, i32::MIN]);
    let b = f.read_chunk::<i64>(0, "i64").unwrap();
    assert_eq!(b.shape, vec![2, 2]);
    assert_eq!(b.data, vec![-1i64, 2, -3, i64::MIN]);
}

#[test]
fn round_trip_float_bits() {
    let mut fs = FileSystem::new();
    let mut f = fresh_file(&mut fs, "rtf.gsd", "wb+", "s");
    let f32_in: Vec<f32> = vec![1.5, -2.25, 0.0, f32::MAX];
    let f64_in: Vec<f64> = vec![1.5, -2.25, 0.0, f64::MIN];
    let b32: Vec<u32> = f32_in.iter().map(|x| x.to_bits()).collect();
    let b64: Vec<u64> = f64_in.iter().map(|x| x.to_bits()).collect();
    f.write_chunk_raw("f32", vec![2, 2], ChunkData::F32Bits(b32.clone())).unwrap();
    f.write_chunk_raw("f64", vec![2, 2], ChunkData::F64Bits(b64.clone())).unwrap();
    f.end_frame().unwrap();

    let c = f.read_chunk_raw(0, "f32").unwrap();
    assert!(c.n == 2 && c.m == 2);
    let out: Vec<f32> = f32_bits(c.data).iter().map(|b| f32::from_bits(*b)).collect();
    assert_eq!(out, f32_in);
    let c = f.read_chunk_raw(0, "f64").unwrap();
    let out: Vec<f64> = f64_bits(c.data).iter().map(|b| f64::from_bits(*b)).collect();
    assert_eq!(out, f64_in);
}

#[test]
fn rank_one_is_normalized_to_one_column() {
    let mut fs = FileSystem::new();
    let mut f = fresh_file(&mut fs, "n.gsd", "wb+", "s");
    f.write_chunk("c", Buffer::new_1d(vec![7u32, 8, 9])).unwrap();
    f.end_frame().unwrap();
    let b = f.read_chunk::<u32>(0, "c").unwrap();
    assert_eq!(b.shape, vec![3, 1]);
    assert_eq!(b.data, vec![7u32, 8, 9]);
}

#[test]
fn type_mismatch_on_read() {
    let mut fs = FileSystem::new();
    let mut f = fresh_file(&mut fs, "tm.gsd", "wb+", "s");
    f.write_chunk("c", Buffer::new_1d(vec![7u32, 8])).unwrap();
    let bits: Vec<u32> = vec![1.0f32].iter().map(|x| x.to_bits()).collect();
    f.write_chunk_raw("fc", vec![1], ChunkData::F32Bits(bits)).unwrap();
    f.end_frame().unwrap();
    assert_eq!(f.read_chunk::<u64>(0, "c").err().unwrap(), GsdError::TypeMismatch);
    assert_eq!(f.read_chunk::<i32>(0, "c").err().unwrap(), GsdError::TypeMismatch);
    assert_eq!(f.read_chunk::<u8>(0, "c").err().unwrap(), GsdError::TypeMismatch);
    assert_eq!(f.read_chunk::<i8>(0, "c").err().unwrap(), GsdError::TypeMismatch);
    assert_eq!(f.read_chunk::<u32>(0, "fc").err().unwrap(), GsdError::TypeMismatch);
    assert_eq!(f.read_chunk::<i64>(0, "fc").err().unwrap(), GsdError::TypeMismatch);
    assert!(f.read_chunk::<u32>(0, "c").is_ok());
}

#[test]
fn check_match_accepts_only_its_own_tag() {
    assert!(GSDType::UINT8.check_match::<u8>().is_ok());
    assert!(GSDType::UINT16.check_match::<u16>().is_ok());
    assert!(GSDType::UINT32.check_match::<u32>().is_ok());
    assert!(GSDType::UINT64.check_match::<u64>().is_ok());
    assert!(GSDType::INT8.check_match::<i8>().is_ok());
    assert!(GSDType::INT16.check_match::<i16>().is_ok());
    assert!(GSDType::INT32.check_match::<i32>().is_ok());
    assert!(GSDType::INT64.check_match::<i64>().is_ok());
    assert_eq!(GSDType::UINT8.check_match::<u16>().err().unwrap(), GsdError::TypeMismatch);
    assert_eq!(GSDType::FLOAT.check_match::<u32>().err().unwrap(), GsdError::TypeMismatch);
    assert_eq!(GSDType::DOUBLE.check_match::<u64>().err().unwrap(), GsdError::TypeMismatch);
    assert_eq!(GSDType::INT64.check_match::<i32>().err().unwrap(), GsdError::TypeMismatch);
    assert_eq!(GSDType::from_type::<u8>(), GSDType::UINT8);
    assert_eq!(GSDType::from_type::<i64>(), GSDType::INT64);
    assert_eq!(GSDType::from_type::<u32>().tag_value(), 3);
    assert_eq!(GSDType::FLOAT.tag_value(), 9);
    assert_eq!(GSDType::DOUBLE.tag_value(), 10);
}

#[test]
fn unsupported_rank_writes_nothing() {
    let mut fs = FileSystem::new();
    let mut f = fresh_file(&mut fs, "r.gsd", "wb+", "s");
    let buf = Buffer::new_nd(vec![1, 2, 2], vec![1u32, 2, 3, 4]);
    assert_eq!(f.write_chunk("c", buf).err().unwrap(), GsdError::UnsupportedRank);
    let buf = Buffer::new_nd(vec![], vec![1u32]);
    assert_eq!(f.write_chunk("c", buf).err().unwrap(), GsdError::UnsupportedRank);
    f.end_frame().unwrap();
    assert!(!f.chunk_exists(0, "c"));
    assert!(f.find_matching_chunk_names("").is_empty());
}

#[test]
fn end_frame_commits_and_advances() {
    let mut fs = FileSystem::new();
    let mut f = fresh_file(&mut fs, "e.gsd", "wb+", "s");
    assert_eq!(f.nframes(), 0);
    f.write_chunk("c", Buffer::new_1d(vec![1u32])).unwrap();
    // Not yet committed: invisible to reads.
    assert!(!f.chunk_exists(0, "c"));
    assert_eq!(f.read_chunk::<u32>(0, "c").err().unwrap(), GsdError::ChunkNotFound);
    f.end_frame().unwrap();
    assert_eq!(f.nframes(), 1);
    assert!(f.chunk_exists(0, "c"));
    assert_eq!(f.read_chunk::<u32>(0, "c").unwrap().data, vec![1u32]);
    f.write_chunk("c", Buffer::new_1d(vec![2u32])).unwrap();
    f.end_frame().unwrap();
    assert_eq!(f.nframes(), 2);
    // The earlier frame still holds its own value.
    assert_eq!(f.read_chunk::<u32>(0, "c").unwrap().data, vec![1u32]);
    assert_eq!(f.read_chunk::<u32>(1, "c").unwrap().data, vec![2u32]);
    // An empty commit still advances the count.
    f.end_frame().unwrap();
    assert_eq!(f.nframes(), 3);
    assert_eq!(f.read_chunk::<u32>(2, "c").err().unwrap(), GsdError::ChunkNotFound);
}

#[test]
fn last_write_wins_within_a_frame() {
    let mut fs = FileSystem::new();
    let mut f = fresh_file(&mut fs, "lw.gsd", "wb+", "s");
    f.write_chunk("c", Buffer::new_1d(vec![1u32])).unwrap();
    f.write_chunk("c", Buffer::new_1d(vec![2u32, 3])).unwrap();
    f.end_frame().unwrap();
    assert_eq!(f.read_chunk::<u32>(0, "c").unwrap().data, vec![2u32, 3]);
}

#[test]
fn open_mode_errors() {
    let mut fs = FileSystem::new();
    // Overwrite modes demand the metadata.
    let r = GSDFile::try_new(&mut fs, String::from("m.gsd"), String::from("wb"), None, None, None);
    assert_eq!(r.err().unwrap(), GsdError::MissingMetadata);
    let r = GSDFile::try_new(
        &mut fs,
        String::from("m.gsd"),
        String::from("xb+"),
        Some(String::from("a")),
        None,
        Some((1, 0)),
    );
    assert_eq!(r.err().unwrap(), GsdError::MissingMetadata);
    // Plain opens need the file to exist.
    let r = GSDFile::try_new(&mut fs, String::from("m.gsd"), String::from("rb"), None, None, None);
    assert_eq!(r.err().unwrap(), GsdError::FileNotFound);
    // Exclusive create collides with a stored file.
    let f = fresh_file(&mut fs, "m.gsd", "wb+", "s");
    f.close(&mut fs);
    let r = GSDFile::try_new(
        &mut fs,
        String::from("m.gsd"),
        String::from("xb"),
        Some(String::from("a")),
        Some(String::from("s")),
        Some((1, 0)),
    );
    assert_eq!(r.err().unwrap(), GsdError::FileExists);
}

#[test]
fn close_persists_and_reopen_reads() {
    let mut fs = FileSystem::new();
    let mut f = fresh_file(&mut fs, "p.gsd", "wb+", "s");
    f.write_chunk("c", Buffer::new_1d(vec![5u32])).unwrap();
    f.end_frame().unwrap();
    // An uncommitted write is discarded by close, as the engine discards
    // an unfinished frame.
    f.write_chunk("lost", Buffer::new_1d(vec![9u32])).unwrap();
    f.close(&mut fs);
    let f2 = GSDFile::try_new(&mut fs, String::from("p.gsd"), String::from("rb"), None, None, None)
        .unwrap();
    assert_eq!(f2.nframes(), 1);
    assert_eq!(f2.read_chunk::<u32>(0, "c").unwrap().data, vec![5u32]);
    assert!(!f2.chunk_exists(0, "lost"));
    assert_eq!(f2.application(), "app");
    assert_eq!(f2.schema(), "s");
    assert_eq!(f2.schema_version(), (1, 0));
    assert_eq!(f2.mode(), "rb");
    assert_eq!(f2.name(), "p.gsd");
}

#[test]
fn overwrite_truncates_existing_file() {
    let mut fs = FileSystem::new();
    let mut f = fresh_file(&mut fs, "o.gsd", "wb+", "s");
    f.write_chunk("c", Buffer::new_1d(vec![5u32])).unwrap();
    f.end_frame().unwrap();
    f.close(&mut fs);
    let f2 = fresh_file(&mut fs, "o.gsd", "wb+", "s2");
    assert_eq!(f2.nframes(), 0);
    assert_eq!(f2.schema(), "s2");
    f2.close(&mut fs);
    let f3 = GSDFile::try_new(&mut fs, String::from("o.gsd"), String::from("rb"), None, None, None)
        .unwrap();
    assert_eq!(f3.schema(), "s2");
    assert_eq!(f3.nframes(), 0);
}

#[test]
fn read_only_refuses_writes() {
    let mut fs = FileSystem::new();
    let f = fresh_file(&mut fs, "ro.gsd", "wb+", "s");
    f.close(&mut fs);
    let mut f = GSDFile::try_new(&mut fs, String::from("ro.gsd"), String::from("rb"), None, None, None)
        .unwrap();
    assert_eq!(
        f.write_chunk("c", Buffer::new_1d(vec![1u32])).err().unwrap(),
        GsdError::FileMustBeWritable
    );
    assert_eq!(f.end_frame().err().unwrap(), GsdError::FileMustBeWritable);
    assert_eq!(f.truncate().err().unwrap(), GsdError::FileMustBeWritable);
    assert_eq!(f.upgrade().err().unwrap(), GsdError::FileMustBeWritable);
}

#[test]
fn append_mode_refuses_chunk_reads() {
    let mut fs = FileSystem::new();
    let mut f = fresh_file(&mut fs, "ap.gsd", "wb", "s");
    f.write_chunk("c", Buffer::new_1d(vec![1u32])).unwrap();
    f.end_frame().unwrap();
    f.close(&mut fs);
    let mut f = GSDFile::try_new(&mut fs, String::from("ap.gsd"), String::from("ab"), None, None, None)
        .unwrap();
    assert_eq!(f.read_chunk::<u32>(0, "c").err().unwrap(), GsdError::FileMustBeReadable);
    // Appending still works.
    f.write_chunk("c", Buffer::new_1d(vec![2u32])).unwrap();
    f.end_frame().unwrap();
    assert_eq!(f.nframes(), 2);
}

#[test]
fn truncate_keeps_metadata() {
    let mut fs = FileSystem::new();
    let mut f = fresh_file(&mut fs, "t.gsd", "wb+", "s");
    f.write_chunk("c", Buffer::new_1d(vec![1u32])).unwrap();
    f.end_frame().unwrap();
    assert_eq!(f.nframes(), 1);
    f.truncate().unwrap();
    assert_eq!(f.nframes(), 0);
    assert_eq!(f.schema(), "s");
    assert_eq!(f.application(), "app");
    assert!(!f.chunk_exists(0, "c"));
}

#[test]
fn gsd_version_and_upgrade() {
    let mut fs = FileSystem::new();
    let mut f = fresh_file(&mut fs, "v.gsd", "wb+", "s");
    assert_eq!(f.gsd_version(), (gsd::fl::GSD_VERSION_MAJOR, gsd::fl::GSD_VERSION_MINOR));
    f.upgrade().unwrap();
    assert_eq!(f.gsd_version(), (gsd::fl::GSD_VERSION_MAJOR, gsd::fl::GSD_VERSION_MINOR));
}

#[test]
fn read_chunk_with_dim_checks_columns() {
    let mut fs = FileSystem::new();
    let mut f = fresh_file(&mut fs, "d.gsd", "wb+", "s");
    f.write_chunk("c", Buffer::new_2d(2, 3, vec![1u32, 2, 3, 4, 5, 6])).unwrap();
    f.end_frame().unwrap();
    let b = f.read_chunk_with_dim::<u32>(0, "c", 3).unwrap();
    assert_eq!(b.shape, vec![2, 3]);
    assert_eq!(f.read_chunk_with_dim::<u32>(0, "c", 2).err().unwrap(), GsdError::ShapeMismatch);
    let b = f.read_chunk_dyn::<u32>(0, "c").unwrap();
    assert_eq!(b.shape, vec![2, 3]);
}

#[test]
fn find_matching_chunk_names_filters_prefix() {
    let mut fs = FileSystem::new();
    let mut f = fresh_file(&mut fs, "fm.gsd", "wb+", "s");
    f.write_chunk("particles/position", Buffer::new_1d(vec![1u32])).unwrap();
    f.write_chunk("particles/velocity", Buffer::new_1d(vec![2u32])).unwrap();
    f.write_chunk("bonds/group", Buffer::new_1d(vec![3u32])).unwrap();
    f.end_frame().unwrap();
    // The same name written again in a later frame appears once.
    f.write_chunk("particles/position", Buffer::new_1d(vec![4u32])).unwrap();
    f.end_frame().unwrap();
    let mut names = f.find_matching_chunk_names("particles/");
    names.sort();
    assert_eq!(names, vec![String::from("particles/position"), String::from("particles/velocity")]);
    let all = f.find_matching_chunk_names("");
    assert_eq!(all.len(), 3);
    assert!(f.find_matching_chunk_names("angles/").is_empty());
}

#[test]
fn engine_status_codes_map_one_to_one() {
    assert!(check_gsd_errors(0).is_ok());
    assert_eq!(check_gsd_errors(-1).err().unwrap(), GsdError::IoError);
    assert_eq!(check_gsd_errors(-2).err().unwrap(), GsdError::InvalidArgument);
    assert_eq!(check_gsd_errors(-3).err().unwrap(), GsdError::NotAGsdFile);
    assert_eq!(check_gsd_errors(-4).err().unwrap(), GsdError::InvalidFileVersion);
    assert_eq!(check_gsd_errors(-5).err().unwrap(), GsdError::FileCorrupt);
    assert_eq!(check_gsd_errors(-6).err().unwrap(), GsdError::MemoryAllocationFailed);
    assert_eq!(check_gsd_errors(-7).err().unwrap(), GsdError::NamelistFull);
    assert_eq!(check_gsd_errors(-8).err().unwrap(), GsdError::FileMustBeWritable);
    assert_eq!(check_gsd_errors(-9).err().unwrap(), GsdError::FileMustBeReadable);
    assert_eq!(check_gsd_errors(-10).err().unwrap(), GsdError::Unknown);
    assert_eq!(check_gsd_errors(7).err().unwrap(), GsdError::Unknown);
}

#[test]
fn open_flag_values() {
    assert_eq!(OpenFlag::Readwrite.flag_value(), 1);
    assert_eq!(OpenFlag::Readonly.flag_value(), 2);
    assert_eq!(OpenFlag::Append.flag_value(), 3);
}

#[test]
fn scenario_three_frames() {
    let mut fs = FileSystem::new();
    let mut f = GSDFile::try_new(
        &mut fs,
        String::from("s.gsd"),
        String::from("wb+"),
        Some(String::from("A")),
        Some(String::from("S")),
        Some((1, 0)),
    )
    .unwrap();
    for frame in [vec![1.0f32, 2.0, 3.0, 4.0], vec![9.0, 10.0, 11.0, 12.0], vec![13.0, 14.0]] {
        let bits: Vec<u32> = frame.iter().map(|x| x.to_bits()).collect();
        let n = bits.len();
        f.write_chunk_raw("c", vec![n], ChunkData::F32Bits(bits)).unwrap();
        f.end_frame().unwrap();
    }
    assert_eq!(f.nframes(), 3);
    let c = f.read_chunk_raw(2, "c").unwrap();
    assert!(c.n == 2 && c.m == 1);
    let out: Vec<f32> = f32_bits(c.data).iter().map(|b| f32::from_bits(*b)).collect();
    assert_eq!(out, vec![13.0f32, 14.0]);
}

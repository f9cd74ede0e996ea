//! The file layer: open-mode semantics, the frame and chunk store of one
//! file handle, typed chunk writes and reads, frame commits, and chunk-name
//! enumeration.
//!
//! The layer works over an in-memory model of the chunked storage engine: a
//! [`FileSystem`] maps file names to stored file contents, and a [`GSDFile`]
//! owns the contents of one opened file until it is closed back into the
//! file system.  The byte-level engine that persists the same contents on
//! disk is an outside collaborator; it performs input and output and is
//! driven from the unverified application shell, which reuses the mode,
//! tag and status-code logic of this crate.

use vstd::prelude::*;
use vstd::string::StrSliceExecFns;

use crate::GSDType;
use crate::GsdError;
use crate::element::Buffer;
use crate::element::ChunkData;
use crate::element::GsdElement;
use crate::element::payload_matches;
use crate::element::shape_product;

verus! {

/// The gsd file-layer version written into freshly created files.
pub const GSD_VERSION_MAJOR: u32 = 2;

pub const GSD_VERSION_MINOR: u32 = 0;

/// The engine-level open flag.
#[derive(Clone, Copy, Debug, PartialEq, Eq, Structural)]
pub enum OpenFlag {
    Readwrite,
    Readonly,
    Append,
}

impl OpenFlag {
    /// The numeric value under which the engine knows this flag.
    pub fn flag_value(&self) -> (v: u32)
        ensures
            v == (match self {
                OpenFlag::Readwrite => 1u32,
                OpenFlag::Readonly => 2u32,
                OpenFlag::Append => 3u32,
            }),
    {
        match self {
            OpenFlag::Readwrite => 1,
            OpenFlag::Readonly => 2,
            OpenFlag::Append => 3,
        }
    }
}

/// The parsed meaning of an open-mode string: the engine flag, whether the
/// file is created anew (truncating an existing one), and whether creation
/// insists that no file of that name exists yet.
#[derive(Clone, Copy, Debug, PartialEq, Eq, Structural)]
pub struct OpenMode {
    pub flag: OpenFlag,
    pub overwrite: bool,
    pub exclusive: bool,
}

/// The meaning of each supported open-mode string; `None` for every other
/// string.
pub open spec fn spec_parse_mode(s: Seq<char>) -> Option<OpenMode> {
    if s == "wb"@ {
        Some(OpenMode { flag: OpenFlag::Append, overwrite: true, exclusive: false })
    } else if s == "wb+"@ {
        Some(OpenMode { flag: OpenFlag::Readwrite, overwrite: true, exclusive: false })
    } else if s == "rb"@ {
        Some(OpenMode { flag: OpenFlag::Readonly, overwrite: false, exclusive: false })
    } else if s == "rb+"@ {
        Some(OpenMode { flag: OpenFlag::Readwrite, overwrite: false, exclusive: false })
    } else if s == "xb"@ {
        Some(OpenMode { flag: OpenFlag::Append, overwrite: true, exclusive: true })
    } else if s == "xb+"@ {
        Some(OpenMode { flag: OpenFlag::Readwrite, overwrite: true, exclusive: true })
    } else if s == "ab"@ {
        Some(OpenMode { flag: OpenFlag::Append, overwrite: false, exclusive: false })
    } else {
        None
    }
}

/// Parses an open-mode string; any string other than the seven supported
/// modes fails with [`GsdError::InvalidMode`].
pub fn parse_mode(mode: &str) -> (r: Result<OpenMode, GsdError>)
    ensures
        r == (match spec_parse_mode(mode@) {
            Some(m) => Ok::<OpenMode, GsdError>(m),
            None => Err::<OpenMode, GsdError>(GsdError::InvalidMode),
        }),
{
    let m = mode.to_owned();
    if m == "wb".to_owned() {
        Ok(OpenMode { flag: OpenFlag::Append, overwrite: true, exclusive: false })
    } else if m == "wb+".to_owned() {
        Ok(OpenMode { flag: OpenFlag::Readwrite, overwrite: true, exclusive: false })
    } else if m == "rb".to_owned() {
        Ok(OpenMode { flag: OpenFlag::Readonly, overwrite: false, exclusive: false })
    } else if m == "rb+".to_owned() {
        Ok(OpenMode { flag: OpenFlag::Readwrite, overwrite: false, exclusive: false })
    } else if m == "xb".to_owned() {
        Ok(OpenMode { flag: OpenFlag::Append, overwrite: true, exclusive: true })
    } else if m == "xb+".to_owned() {
        Ok(OpenMode { flag: OpenFlag::Readwrite, overwrite: true, exclusive: true })
    } else if m == "ab".to_owned() {
        Ok(OpenMode { flag: OpenFlag::Append, overwrite: false, exclusive: false })
    } else {
        Err(GsdError::InvalidMode)
    }
}

/// One stored chunk: a normalized `n` by `m` rectangle of tagged elements.
#[derive(Debug)]
pub struct Chunk {
    pub n: usize,
    pub m: usize,
    pub data: ChunkData,
}

impl Chunk {
    /// The payload holds exactly one element per cell.
    pub open spec fn wf(&self) -> bool {
        self.n * self.m == self.data.spec_len()
    }
}

/// One named chunk within a frame.
#[derive(Debug)]
pub struct Entry {
    pub name: String,
    pub chunk: Chunk,
}

/// The chunks of one frame, in the order they were written.
#[derive(Debug)]
pub struct Frame {
    pub entries: Vec<Entry>,
}

/// The chunk stored under a name within one frame: the latest write under
/// that name wins.
pub open spec fn frame_lookup(entries: Seq<Entry>, name: Seq<char>) -> Option<Chunk>
    decreases entries.len(),
{
    if entries.len() == 0 {
        None
    } else if entries.last().name@ == name {
        Some(entries.last().chunk)
    } else {
        frame_lookup(entries.drop_last(), name)
    }
}

/// `frame_lookup` yields the chunk of the latest entry under the name, and
/// `None` exactly when no entry carries the name.
pub proof fn lemma_frame_lookup(entries: Seq<Entry>, name: Seq<char>)
    ensures
        match frame_lookup(entries, name) {
            Some(c) => exists|j: int|
                0 <= j < entries.len() && entries[j].name@ == name && entries[j].chunk == c
                    && (forall|k: int| j < k < entries.len() ==> entries[k].name@ != name),
            None => forall|j: int| 0 <= j < entries.len() ==> entries[j].name@ != name,
        },
    decreases entries.len(),
{
    if entries.len() == 0 {
    } else if entries.last().name@ == name {
        let j = entries.len() - 1;
        assert(entries[j].name@ == name && entries[j].chunk == entries.last().chunk && (forall|
            k: int,
        | j < k < entries.len() ==> entries[k].name@ != name));
    } else {
        lemma_frame_lookup(entries.drop_last(), name);
        assert(forall|j: int|
            0 <= j < entries.len() - 1 ==> entries[j] == entries.drop_last()[j]);
        match frame_lookup(entries, name) {
            Some(c) => {
                let j = choose|j: int|
                    0 <= j < entries.drop_last().len() && entries.drop_last()[j].name@ == name
                        && entries.drop_last()[j].chunk == c && (forall|k: int|
                        j < k < entries.drop_last().len() ==> entries.drop_last()[k].name@ != name);
                assert(entries[j].name@ == name && entries[j].chunk == c && (forall|k: int|
                    j < k < entries.len() ==> entries[k].name@ != name));
            },
            None => {},
        }
    }
}

/// Finds the stored chunk under `key` within a frame's entries.
fn lookup_in_entries<'a>(entries: &'a Vec<Entry>, key: &String) -> (r: Option<&'a Chunk>)
    ensures
        match r {
            Some(c) => frame_lookup(entries@, key@) == Some(*c),
            None => frame_lookup(entries@, key@) is None,
        },
{
    let mut i: usize = entries.len();
    while i > 0
        invariant
            i <= entries@.len(),
            forall|j: int| i <= j < entries@.len() ==> entries@[j].name@ != key@,
        decreases i,
    {
        i = i - 1;
        if entries[i].name == *key {
            proof {
                lemma_frame_lookup(entries@, key@);
            }
            return Some(&entries[i].chunk);
        }
    }
    proof {
        lemma_frame_lookup(entries@, key@);
    }
    None
}

/// The stored contents of one file: its header metadata and its committed
/// frames.
#[derive(Debug)]
pub struct FileData {
    pub application: String,
    pub schema: String,
    pub schema_version: (u32, u32),
    pub gsd_version: (u32, u32),
    pub frames: Vec<Frame>,
}

/// One file of the model file system.
#[derive(Debug)]
pub struct StoredFile {
    pub name: String,
    pub data: FileData,
}

/// The model of the storage that open and close talk to: the files by name.
/// A handle takes a file's contents out on open and puts them back on close,
/// so an open file has exactly one owner.
#[derive(Debug)]
pub struct FileSystem {
    pub files: Vec<StoredFile>,
}

/// The index of the latest file stored under `name`, or -1 if there is
/// none.
pub open spec fn fs_find(files: Seq<StoredFile>, name: Seq<char>) -> int
    decreases files.len(),
{
    if files.len() == 0 {
        -1
    } else if files.last().name@ == name {
        files.len() - 1
    } else {
        fs_find(files.drop_last(), name)
    }
}

/// `fs_find` yields the latest index under the name, and -1 exactly when no
/// file carries the name.
pub proof fn lemma_fs_find(files: Seq<StoredFile>, name: Seq<char>)
    ensures
        ({
            let i = fs_find(files, name);
            &&& i == -1 || 0 <= i < files.len()
            &&& i == -1 ==> forall|j: int| 0 <= j < files.len() ==> files[j].name@ != name
            &&& i >= 0 ==> 0 <= i < files.len() && files[i].name@ == name && (forall|k: int|
                i < k < files.len() ==> files[k].name@ != name)
        }),
    decreases files.len(),
{
    if files.len() == 0 {
    } else if files.last().name@ == name {
    } else {
        lemma_fs_find(files.drop_last(), name);
        assert(forall|j: int| 0 <= j < files.len() - 1 ==> files[j] == files.drop_last()[j]);
    }
}

/// Removing one file preserves the well-formedness of every other stored
/// file.
pub proof fn lemma_remove_preserves_wf(files: Seq<StoredFile>, i: int)
    requires
        0 <= i < files.len(),
        forall|k: int| 0 <= k < files.len() ==> file_data_wf((#[trigger] files[k]).data),
    ensures
        forall|k: int|
            0 <= k < files.remove(i).len() ==> file_data_wf((#[trigger] files.remove(i)[k]).data),
{
    files.remove_ensures(i);
}

/// The file system after a file's contents were taken out by an open:
/// unchanged if the name was absent.
pub open spec fn fs_after_take(files: Seq<StoredFile>, name: Seq<char>) -> Seq<StoredFile> {
    if fs_find(files, name) >= 0 {
        files.remove(fs_find(files, name))
    } else {
        files
    }
}

impl FileSystem {
    /// A file system holding no files.
    pub fn new() -> (fs: FileSystem)
        ensures
            fs.files@.len() == 0,
    {
        FileSystem { files: Vec::new() }
    }

    /// Whether a file is stored under `name`.
    pub open spec fn has_file(&self, name: Seq<char>) -> bool {
        fs_find(self.files@, name) >= 0
    }

    /// Removes and returns the latest file stored under `name`.
    fn take_file(&mut self, name: &String) -> (r: Option<FileData>)
        ensures
            ({
                let i = fs_find(old(self).files@, name@);
                &&& i == -1 ==> r is None && *final(self) == *old(self)
                &&& i >= 0 ==> (r matches Some(d) && d == old(self).files@[i].data
                    && final(self).files@ == old(self).files@.remove(i))
            }),
    {
        let mut i: usize = self.files.len();
        while i > 0
            invariant
                i <= self.files@.len(),
                *self == *old(self),
                forall|j: int| i <= j < self.files@.len() ==> self.files@[j].name@ != name@,
            decreases i,
        {
            i = i - 1;
            if self.files[i].name == *name {
                proof {
                    lemma_fs_find(self.files@, name@);
                    assert(self.files@[i as int].name@ == name@);
                    assert(fs_find(self.files@, name@) == i);
                }
                let f = self.files.remove(i);
                return Some(f.data);
            }
        }
        proof {
            lemma_fs_find(self.files@, name@);
        }
        None
    }

    /// Whether a file is stored under `name`.
    pub fn contains_file(&self, name: &String) -> (r: bool)
        ensures
            r == self.has_file(name@),
    {
        let mut i: usize = self.files.len();
        while i > 0
            invariant
                i <= self.files@.len(),
                forall|j: int| i <= j < self.files@.len() ==> self.files@[j].name@ != name@,
            decreases i,
        {
            i = i - 1;
            if self.files[i].name == *name {
                proof {
                    lemma_fs_find(self.files@, name@);
                    assert(self.files@[i as int].name@ == name@);
                    assert(fs_find(self.files@, name@) >= 0);
                }
                return true;
            }
        }
        proof {
            lemma_fs_find(self.files@, name@);
        }
        false
    }
}

/// A chunk write appended exactly one entry, under the given name, with the
/// normalized shape `nm`, the element tag `tag` and the element values
/// `vals`, and changed nothing else of the handle.
pub open spec fn spec_wrote_chunk_data(
    pre: GSDFile,
    post: GSDFile,
    name: Seq<char>,
    nm: (usize, usize),
    tag: GSDType,
    vals: Seq<int>,
) -> bool {
    let e = post.pending.entries@.last();
    &&& post.pending.entries@ == pre.pending.entries@.push(e)
    &&& e.name@ == name
    &&& e.chunk.n == nm.0
    &&& e.chunk.m == nm.1
    &&& e.chunk.data.tag() == tag
    &&& e.chunk.data.values() == vals
    &&& e.chunk.wf()
    &&& post.data == pre.data
    &&& post.name == pre.name
    &&& post.mode == pre.mode
    &&& post.mode_str == pre.mode_str
}

/// A chunk write appended exactly one entry holding the elements of
/// `data` under `T`'s tag.
pub open spec fn spec_wrote_chunk<T: GsdElement>(
    pre: GSDFile,
    post: GSDFile,
    name: Seq<char>,
    nm: (usize, usize),
    data: Seq<T>,
) -> bool {
    spec_wrote_chunk_data(pre, post, name, nm, T::tag_spec(), data.map_values(|x: T| x.to_int()))
}

/// The normalized storable shape of a buffer: rank 1 becomes one column,
/// rank 2 stays, any other rank is not storable.
pub open spec fn spec_normalize(shape: Seq<usize>) -> Option<(usize, usize)> {
    if shape.len() == 2 {
        Some((shape[0], shape[1]))
    } else if shape.len() == 1 {
        Some((shape[0], 1usize))
    } else {
        None
    }
}

/// Every chunk of the frame holds one element per cell.
pub open spec fn frame_wf(f: Frame) -> bool {
    forall|j: int| 0 <= j < f.entries@.len() ==> (#[trigger] f.entries@[j].chunk).wf()
}

/// Every chunk of every committed frame holds one element per cell.
pub open spec fn file_data_wf(d: FileData) -> bool {
    forall|i: int| 0 <= i < d.frames@.len() ==> frame_wf(#[trigger] d.frames@[i])
}

impl FileSystem {
    /// Every stored file is well formed.
    pub open spec fn inv(&self) -> bool {
        forall|i: int| 0 <= i < self.files@.len() ==> file_data_wf((#[trigger] self.files@[i]).data)
    }
}

/// A handle on one open file: the file's metadata and committed frames,
/// the open mode, and the chunks written since the last commit.
#[derive(Debug)]
pub struct GSDFile {
    pub name: String,
    pub mode_str: String,
    pub mode: OpenMode,
    pub data: FileData,
    pub pending: Frame,
}

/// A freshly created handle: empty, with the given metadata, carrying the
/// current file-layer version.
pub open spec fn fresh_handle(
    f: GSDFile,
    name: Seq<char>,
    mode_str: Seq<char>,
    m: OpenMode,
    application: Seq<char>,
    schema: Seq<char>,
    schema_version: (u32, u32),
) -> bool {
    &&& f.name@ == name
    &&& f.mode_str@ == mode_str
    &&& f.mode == m
    &&& f.data.application@ == application
    &&& f.data.schema@ == schema
    &&& f.data.schema_version == schema_version
    &&& f.data.gsd_version == (GSD_VERSION_MAJOR, GSD_VERSION_MINOR)
    &&& f.data.frames@.len() == 0
    &&& f.pending.entries@.len() == 0
}

impl GSDFile {
    /// Chunks may be written and frames committed.
    pub open spec fn writable(&self) -> bool {
        self.mode.flag != OpenFlag::Readonly
    }

    /// Chunks may be read back.
    pub open spec fn readable(&self) -> bool {
        self.mode.flag != OpenFlag::Append
    }

    /// Every stored chunk, committed or pending, holds one element per
    /// cell.
    pub open spec fn inv(&self) -> bool {
        file_data_wf(self.data) && frame_wf(self.pending)
    }

    /// The chunk committed under `name` in the given frame, if any.
    pub open spec fn chunk_at(&self, frame: int, name: Seq<char>) -> Option<Chunk> {
        if 0 <= frame < self.data.frames@.len() {
            frame_lookup(self.data.frames@[frame].entries@, name)
        } else {
            None
        }
    }

    pub fn is_writable(&self) -> (r: bool)
        ensures
            r == self.writable(),
    {
        match self.mode.flag {
            OpenFlag::Readonly => false,
            _ => true,
        }
    }

    pub fn is_readable(&self) -> (r: bool)
        ensures
            r == self.readable(),
    {
        match self.mode.flag {
            OpenFlag::Append => false,
            _ => true,
        }
    }

    /// Opens a file of the model file system.
    ///
    /// The mode string decides everything: an unsupported string fails with
    /// `InvalidMode` before the store is touched; the overwriting modes
    /// (`wb`, `wb+`, `xb`, `xb+`) create the file anew and demand
    /// application, schema and schema version, failing with
    /// `MissingMetadata` otherwise; the exclusive ones among them (`xb`,
    /// `xb+`) fail with `FileExists` if the name is already stored; the
    /// plain modes (`rb`, `rb+`, `ab`) open what is stored, failing with
    /// `FileNotFound` otherwise.  The opened file's contents are taken out
    /// of the file system: a handle is the contents' only owner until
    /// [`GSDFile::close`] puts them back.
    pub fn try_new(
        fs: &mut FileSystem,
        name: String,
        mode: String,
        application: Option<String>,
        schema: Option<String>,
        schema_version: Option<(u32, u32)>,
    ) -> (r: Result<GSDFile, GsdError>)
        requires
            old(fs).inv(),
        ensures
            final(fs).inv(),
            r matches Ok(f) ==> f.inv(),
            ({
                let pm = spec_parse_mode(mode@);
                let i = fs_find(old(fs).files@, name@);
                &&& pm is None ==> r == Err::<GSDFile, GsdError>(GsdError::InvalidMode)
                    && *final(fs) == *old(fs)
                &&& pm matches Some(m) ==> (m.overwrite ==> {
                    if application is None || schema is None || schema_version is None {
                        &&& r == Err::<GSDFile, GsdError>(GsdError::MissingMetadata)
                        &&& *final(fs) == *old(fs)
                    } else if m.exclusive && i >= 0 {
                        &&& r == Err::<GSDFile, GsdError>(GsdError::FileExists)
                        &&& *final(fs) == *old(fs)
                    } else {
                        &&& r matches Ok(f) && fresh_handle(
                            f,
                            name@,
                            mode@,
                            m,
                            (application->0)@,
                            (schema->0)@,
                            schema_version->0,
                        )
                        &&& final(fs).files@ == fs_after_take(old(fs).files@, name@)
                    }
                })
                &&& pm matches Some(m) ==> (!m.overwrite ==> {
                    if i == -1 {
                        &&& r == Err::<GSDFile, GsdError>(GsdError::FileNotFound)
                        &&& *final(fs) == *old(fs)
                    } else {
                        &&& r matches Ok(f) && f.name@ == name@ && f.mode_str@ == mode@ && f.mode
                            == m && f.data == old(fs).files@[i].data && f.pending.entries@.len()
                            == 0
                        &&& final(fs).files@ == old(fs).files@.remove(i)
                    }
                })
            }),
    {
        let m = match parse_mode(mode.as_str()) {
            Ok(m) => m,
            Err(e) => {
                return Err(e);
            },
        };
        if m.overwrite {
            if application.is_none() || schema.is_none() || schema_version.is_none() {
                return Err(GsdError::MissingMetadata);
            }
            if m.exclusive && fs.contains_file(&name) {
                proof {
                    lemma_fs_find(fs.files@, name@);
                }
                return Err(GsdError::FileExists);
            }
            proof {
                lemma_fs_find(fs.files@, name@);
                if fs_find(fs.files@, name@) >= 0 {
                    lemma_remove_preserves_wf(fs.files@, fs_find(fs.files@, name@));
                }
            }
            let _previous = fs.take_file(&name);
            Ok(
                GSDFile {
                    name,
                    mode_str: mode,
                    mode: m,
                    data: FileData {
                        application: application.unwrap(),
                        schema: schema.unwrap(),
                        schema_version: schema_version.unwrap(),
                        gsd_version: (GSD_VERSION_MAJOR, GSD_VERSION_MINOR),
                        frames: Vec::new(),
                    },
                    pending: Frame { entries: Vec::new() },
                },
            )
        } else {
            proof {
                lemma_fs_find(fs.files@, name@);
                if fs_find(fs.files@, name@) >= 0 {
                    lemma_remove_preserves_wf(fs.files@, fs_find(fs.files@, name@));
                }
            }
            match fs.take_file(&name) {
                None => Err(GsdError::FileNotFound),
                Some(d) => Ok(
                    GSDFile {
                        name,
                        mode_str: mode,
                        mode: m,
                        data: d,
                        pending: Frame { entries: Vec::new() },
                    },
                ),
            }
        }
    }

    /// Closes the handle, storing the file's metadata and committed frames
    /// back into the file system.  Chunks written since the last commit are
    /// discarded, as the engine discards an uncommitted frame.
    pub fn close(self, fs: &mut FileSystem)
        requires
            old(fs).inv(),
            self.inv(),
        ensures
            final(fs).inv(),
            final(fs).files@ == old(fs).files@.push(
                StoredFile { name: self.name, data: self.data },
            ),
    {
        fs.files.push(StoredFile { name: self.name, data: self.data });
    }

    /// The number of committed frames.  This always reflects the store;
    /// nothing is cached.
    pub fn nframes(&self) -> (r: usize)
        ensures
            r == self.data.frames@.len(),
    {
        self.data.frames.len()
    }

    /// Resets the file to zero frames, discarding pending chunks too, while
    /// preserving the header metadata.
    pub fn truncate(&mut self) -> (r: Result<(), GsdError>)
        requires
            old(self).inv(),
        ensures
            final(self).inv(),
            !old(self).writable() ==> r == Err::<(), GsdError>(GsdError::FileMustBeWritable)
                && *final(self) == *old(self),
            old(self).writable() ==> {
                &&& r == Ok::<(), GsdError>(())
                &&& final(self).data.frames@.len() == 0
                &&& final(self).pending.entries@.len() == 0
                &&& final(self).data.application == old(self).data.application
                &&& final(self).data.schema == old(self).data.schema
                &&& final(self).data.schema_version == old(self).data.schema_version
                &&& final(self).data.gsd_version == old(self).data.gsd_version
                &&& final(self).name == old(self).name
                &&& final(self).mode == old(self).mode
                &&& final(self).mode_str == old(self).mode_str
            },
    {
        if !self.is_writable() {
            return Err(GsdError::FileMustBeWritable);
        }
        self.data.frames = Vec::new();
        self.pending = Frame { entries: Vec::new() };
        Ok(())
    }

    /// Writes one named chunk, in its tagged storage form, into the
    /// current, not yet committed frame.
    ///
    /// The shape is normalized first: rank 1 becomes `(N, 1)`, rank 2 stays
    /// `(rows, cols)`, and any other rank fails with `UnsupportedRank`
    /// before anything is stored.
    pub fn write_chunk_raw(&mut self, name: &str, shape: Vec<usize>, data: ChunkData) -> (r: Result<
        (),
        GsdError,
    >)
        requires
            old(self).inv(),
            shape_product(shape@) == data.spec_len(),
        ensures
            final(self).inv(),
            ({
                let norm = spec_normalize(shape@);
                &&& norm is None ==> r == Err::<(), GsdError>(GsdError::UnsupportedRank)
                    && *final(self) == *old(self)
                &&& (norm is Some && !old(self).writable()) ==> r == Err::<(), GsdError>(
                    GsdError::FileMustBeWritable,
                ) && *final(self) == *old(self)
                &&& norm matches Some(nm) ==> (old(self).writable() ==> (r == Ok::<(), GsdError>(())
                    && spec_wrote_chunk_data(
                    *old(self),
                    *final(self),
                    name@,
                    nm,
                    data.tag(),
                    data.values(),
                )))
            }),
    {
        let n: usize;
        let m: usize;
        if shape.len() == 2 {
            n = shape[0];
            m = shape[1];
        } else if shape.len() == 1 {
            n = shape[0];
            m = 1;
        } else {
            return Err(GsdError::UnsupportedRank);
        }
        if !self.is_writable() {
            return Err(GsdError::FileMustBeWritable);
        }
        proof {
            if shape@.len() == 2 {
                assert(shape@.drop_first().drop_first() =~= Seq::<usize>::empty());
                assert(shape_product(shape@.drop_first().drop_first()) == 1);
                assert(shape@.drop_first()[0] == m);
                assert(shape_product(shape@.drop_first()) == m * 1);
            } else {
                assert(shape@.drop_first() =~= Seq::<usize>::empty());
                assert(shape_product(shape@.drop_first()) == 1);
            }
        }
        let entry = Entry { name: name.to_owned(), chunk: Chunk { n, m, data } };
        self.pending.entries.push(entry);
        Ok(())
    }

    /// Writes one named typed chunk into the current, not yet committed
    /// frame, as [`GSDFile::write_chunk_raw`] does with `T`'s storage tag.
    pub fn write_chunk<T: GsdElement>(&mut self, name: &str, buf: Buffer<T>) -> (r: Result<
        (),
        GsdError,
    >)
        requires
            old(self).inv(),
            buf.wf(),
        ensures
            final(self).inv(),
            ({
                let norm = spec_normalize(buf.shape@);
                &&& norm is None ==> r == Err::<(), GsdError>(GsdError::UnsupportedRank)
                    && *final(self) == *old(self)
                &&& (norm is Some && !old(self).writable()) ==> r == Err::<(), GsdError>(
                    GsdError::FileMustBeWritable,
                ) && *final(self) == *old(self)
                &&& norm matches Some(nm) ==> (old(self).writable() ==> (r == Ok::<(), GsdError>(())
                    && spec_wrote_chunk::<T>(*old(self), *final(self), name@, nm, buf.data@)))
            }),
    {
        self.write_chunk_raw(name, buf.shape, T::wrap(buf.data))
    }

    /// Commits the chunks written since the last commit as the next frame;
    /// later chunk writes target a new frame.
    pub fn end_frame(&mut self) -> (r: Result<(), GsdError>)
        requires
            old(self).inv(),
        ensures
            final(self).inv(),
            !old(self).writable() ==> r == Err::<(), GsdError>(GsdError::FileMustBeWritable)
                && *final(self) == *old(self),
            old(self).writable() ==> {
                &&& r == Ok::<(), GsdError>(())
                &&& final(self).data.frames@ == old(self).data.frames@.push(old(self).pending)
                &&& final(self).pending.entries@.len() == 0
                &&& final(self).data.application == old(self).data.application
                &&& final(self).data.schema == old(self).data.schema
                &&& final(self).data.schema_version == old(self).data.schema_version
                &&& final(self).data.gsd_version == old(self).data.gsd_version
                &&& final(self).name == old(self).name
                &&& final(self).mode == old(self).mode
                &&& final(self).mode_str == old(self).mode_str
            },
    {
        if !self.is_writable() {
            return Err(GsdError::FileMustBeWritable);
        }
        let mut p = Frame { entries: Vec::new() };
        core::mem::swap(&mut self.pending, &mut p);
        self.data.frames.push(p);
        Ok(())
    }

    /// Whether a chunk is committed under `name` in the given frame.  This
    /// never fails: absence, and a frame index beyond the committed count,
    /// are `false`.
    pub fn chunk_exists(&self, frame: usize, name: &str) -> (r: bool)
        ensures
            r == (self.chunk_at(frame as int, name@) is Some),
    {
        if frame >= self.data.frames.len() {
            return false;
        }
        let key = name.to_owned();
        lookup_in_entries(&self.data.frames[frame].entries, &key).is_some()
    }

    /// Reads the chunk committed under `name` in the given frame, in its
    /// stored tagged form.
    pub fn read_chunk_raw(&self, frame: usize, name: &str) -> (r: Result<Chunk, GsdError>)
        requires
            self.inv(),
        ensures
            ({
                let c = self.chunk_at(frame as int, name@);
                &&& !self.readable() ==> r == Err::<Chunk, GsdError>(GsdError::FileMustBeReadable)
                &&& self.readable() && c is None ==> r == Err::<Chunk, GsdError>(
                    GsdError::ChunkNotFound,
                )
                &&& c matches Some(cc) ==> (self.readable() ==> (r matches Ok(k) && k.n == cc.n
                    && k.m == cc.m && k.data.tag() == cc.data.tag() && k.data.values()
                    == cc.data.values() && payload_matches(cc.data, k.data) && k.wf()))
            }),
    {
        if !self.is_readable() {
            return Err(GsdError::FileMustBeReadable);
        }
        if frame >= self.data.frames.len() {
            return Err(GsdError::ChunkNotFound);
        }
        let key = name.to_owned();
        match lookup_in_entries(&self.data.frames[frame].entries, &key) {
            None => Err(GsdError::ChunkNotFound),
            Some(c) => {
                proof {
                    lemma_frame_lookup(self.data.frames@[frame as int].entries@, key@);
                }
                Ok(Chunk { n: c.n, m: c.m, data: c.data.duplicate() })
            },
        }
    }

    /// Reads the chunk committed under `name` in the given frame as a
    /// freshly allocated `(N, M)` buffer of elements of `T`; fails with
    /// `ChunkNotFound` if absent and with `TypeMismatch` if the stored tag
    /// is not the tag of `T`.
    pub fn read_chunk<T: GsdElement>(&self, frame: usize, name: &str) -> (r: Result<
        Buffer<T>,
        GsdError,
    >)
        requires
            self.inv(),
        ensures
            ({
                let c = self.chunk_at(frame as int, name@);
                &&& !self.readable() ==> r == Err::<Buffer<T>, GsdError>(
                    GsdError::FileMustBeReadable,
                )
                &&& self.readable() && c is None ==> r == Err::<Buffer<T>, GsdError>(
                    GsdError::ChunkNotFound,
                )
                &&& c matches Some(cc) ==> (self.readable() && cc.data.tag() != T::tag_spec()
                    ==> r == Err::<Buffer<T>, GsdError>(GsdError::TypeMismatch))
                &&& c matches Some(cc) ==> (self.readable() && cc.data.tag() == T::tag_spec()
                    ==> (r matches Ok(b) && b.wf() && b.shape@ =~= seq![cc.n, cc.m]
                    && b.data@.map_values(|x: T| x.to_int()) == cc.data.values()))
            }),
    {
        let c = match self.read_chunk_raw(frame, name) {
            Ok(c) => c,
            Err(e) => {
                return Err(e);
            },
        };
        match T::unwrap_vec(&c.data) {
            None => Err(GsdError::TypeMismatch),
            Some(v) => {
                let b = Buffer { shape: vec![c.n, c.m], data: v };
                proof {
                    assert(b.shape@.drop_first().drop_first() =~= Seq::<usize>::empty());
                    assert(shape_product(b.shape@.drop_first().drop_first()) == 1);
                    assert(b.shape@.drop_first()[0] == c.m);
                    assert(shape_product(b.shape@.drop_first()) == c.m * 1);
                    assert(b.data@.map_values(|x: T| x.to_int()).len() == b.data@.len());
                }
                Ok(b)
            },
        }
    }
}


/// `pattern` is a prefix of `name`, character by character.
pub open spec fn spec_name_matches(pattern: Seq<char>, name: Seq<char>) -> bool {
    pattern.len() <= name.len() && (forall|i: int| 0 <= i < pattern.len() ==> pattern[i] == name[i])
}

/// Whether `pattern` is a prefix of `name`.
pub fn str_matches(pattern: &str, name: &str) -> (r: bool)
    ensures
        r == spec_name_matches(pattern@, name@),
{
    let pl = pattern.unicode_len();
    let nl = name.unicode_len();
    if pl > nl {
        return false;
    }
    let mut i: usize = 0;
    while i < pl
        invariant
            i <= pl,
            pl == pattern@.len(),
            nl == name@.len(),
            pl <= nl,
            forall|j: int| 0 <= j < i ==> pattern@[j] == name@[j],
        decreases pl - i,
    {
        if pattern.get_char(i) != name.get_char(i) {
            return false;
        }
        i += 1;
    }
    true
}

/// One of the strings views as `n`.
pub open spec fn seq_contains_name(s: Seq<String>, n: Seq<char>) -> bool {
    exists|i: int| 0 <= i < s.len() && (#[trigger] s[i])@ == n
}

/// Whether one of the strings equals `s`.
fn vec_contains_string(v: &Vec<String>, s: &String) -> (r: bool)
    ensures
        r == seq_contains_name(v@, s@),
{
    let mut i: usize = 0;
    while i < v.len()
        invariant
            i <= v@.len(),
            forall|j: int| 0 <= j < i ==> (#[trigger] v@[j])@ != s@,
        decreases v@.len() - i,
    {
        if v[i] == *s {
            return true;
        }
        i += 1;
    }
    false
}

impl GSDFile {
    /// A chunk name occurs somewhere in the file: in a committed frame or
    /// among the pending writes.
    pub open spec fn has_chunk_name(&self, n: Seq<char>) -> bool {
        (exists|f: int, j: int|
            0 <= f < self.data.frames@.len() && 0 <= j < (#[trigger] self.data.frames@[f]).entries@.len()
                && (#[trigger] self.data.frames@[f].entries@[j]).name@ == n) || (exists|j: int|
            0 <= j < self.pending.entries@.len() && (#[trigger] self.pending.entries@[j]).name@
                == n)
    }

    /// Enumerates, without duplicates and in order of first appearance, the
    /// chunk names of the file that begin with `pattern`.  Committed frames
    /// are walked first, then the pending writes.
    pub fn find_matching_chunk_names(&self, pattern: &str) -> (r: Vec<String>)
        ensures
            forall|i: int|
                0 <= i < r@.len() ==> spec_name_matches(pattern@, (#[trigger] r@[i])@)
                    && self.has_chunk_name(r@[i]@),
            forall|n: Seq<char>|
                self.has_chunk_name(n) && spec_name_matches(pattern@, n) ==> seq_contains_name(
                    r@,
                    n,
                ),
            forall|i: int, j: int| 0 <= i < j < r@.len() ==> r@[i]@ != r@[j]@,
    {
        let mut r: Vec<String> = Vec::new();
        let frames_len = self.data.frames.len();
        let mut f: usize = 0;
        while f < frames_len
            invariant
                frames_len == self.data.frames@.len(),
                f <= frames_len,
                forall|i: int|
                    0 <= i < r@.len() ==> spec_name_matches(pattern@, (#[trigger] r@[i])@)
                        && self.has_chunk_name(r@[i]@),
                forall|f2: int, j2: int|
                    0 <= f2 < f && 0 <= j2 < (#[trigger] self.data.frames@[f2]).entries@.len()
                        && spec_name_matches(
                        pattern@,
                        (#[trigger] self.data.frames@[f2].entries@[j2]).name@,
                    ) ==> seq_contains_name(r@, self.data.frames@[f2].entries@[j2].name@),
                forall|i: int, j: int| 0 <= i < j < r@.len() ==> r@[i]@ != r@[j]@,
            decreases frames_len - f,
        {
            let entries = &self.data.frames[f].entries;
            let entries_len = entries.len();
            let mut j: usize = 0;
            while j < entries_len
                invariant
                    frames_len == self.data.frames@.len(),
                    f < frames_len,
                    entries == &self.data.frames@[f as int].entries,
                    entries_len == entries@.len(),
                    j <= entries_len,
                    forall|i: int|
                        0 <= i < r@.len() ==> spec_name_matches(pattern@, (#[trigger] r@[i])@)
                            && self.has_chunk_name(r@[i]@),
                    forall|f2: int, j2: int|
                        0 <= f2 < f && 0 <= j2 < (#[trigger] self.data.frames@[f2]).entries@.len()
                            && spec_name_matches(
                            pattern@,
                            (#[trigger] self.data.frames@[f2].entries@[j2]).name@,
                        ) ==> seq_contains_name(r@, self.data.frames@[f2].entries@[j2].name@),
                    forall|j2: int|
                        0 <= j2 < j && spec_name_matches(
                            pattern@,
                            (#[trigger] entries@[j2]).name@,
                        ) ==> seq_contains_name(r@, entries@[j2].name@),
                    forall|i: int, j2: int| 0 <= i < j2 < r@.len() ==> r@[i]@ != r@[j2]@,
                decreases entries_len - j,
            {
                let e_name = &entries[j].name;
                if str_matches(pattern, e_name.as_str()) && !vec_contains_string(&r, e_name) {
                    let ghost r_old = r@;
                    r.push(e_name.clone());
                    proof {
                        assert(forall|i: int| 0 <= i < r_old.len() ==> r@[i] == r_old[i]);
                        assert(r@[r_old.len() as int]@ == entries@[j as int].name@);
                        assert(forall|n: Seq<char>|
                            seq_contains_name(r_old, n) ==> seq_contains_name(r@, n));
                    }
                }
                j += 1;
            }
            f += 1;
        }
        let pending_len = self.pending.entries.len();
        let mut j: usize = 0;
        while j < pending_len
            invariant
                pending_len == self.pending.entries@.len(),
                j <= pending_len,
                forall|i: int|
                    0 <= i < r@.len() ==> spec_name_matches(pattern@, (#[trigger] r@[i])@)
                        && self.has_chunk_name(r@[i]@),
                forall|f2: int, j2: int|
                    0 <= f2 < self.data.frames@.len() && 0 <= j2 < (
                    #[trigger] self.data.frames@[f2]).entries@.len() && spec_name_matches(
                        pattern@,
                        (#[trigger] self.data.frames@[f2].entries@[j2]).name@,
                    ) ==> seq_contains_name(r@, self.data.frames@[f2].entries@[j2].name@),
                forall|j2: int|
                    0 <= j2 < j && spec_name_matches(
                        pattern@,
                        (#[trigger] self.pending.entries@[j2]).name@,
                    ) ==> seq_contains_name(r@, self.pending.entries@[j2].name@),
                forall|i: int, j2: int| 0 <= i < j2 < r@.len() ==> r@[i]@ != r@[j2]@,
            decreases pending_len - j,
        {
            let e_name = &self.pending.entries[j].name;
            if str_matches(pattern, e_name.as_str()) && !vec_contains_string(&r, e_name) {
                let ghost r_old = r@;
                r.push(e_name.clone());
                proof {
                    assert(forall|i: int| 0 <= i < r_old.len() ==> r@[i] == r_old[i]);
                    assert(r@[r_old.len() as int]@ == self.pending.entries@[j as int].name@);
                    assert(forall|n: Seq<char>|
                        seq_contains_name(r_old, n) ==> seq_contains_name(r@, n));
                }
            }
            j += 1;
        }
        r
    }

    /// Migrates the file's layer version forward to the current one,
    /// leaving everything else untouched.
    pub fn upgrade(&mut self) -> (r: Result<(), GsdError>)
        requires
            old(self).inv(),
        ensures
            final(self).inv(),
            !old(self).writable() ==> r == Err::<(), GsdError>(GsdError::FileMustBeWritable)
                && *final(self) == *old(self),
            old(self).writable() ==> {
                &&& r == Ok::<(), GsdError>(())
                &&& final(self).data.gsd_version == (GSD_VERSION_MAJOR, GSD_VERSION_MINOR)
                &&& final(self).data.frames == old(self).data.frames
                &&& final(self).pending == old(self).pending
                &&& final(self).data.application == old(self).data.application
                &&& final(self).data.schema == old(self).data.schema
                &&& final(self).data.schema_version == old(self).data.schema_version
                &&& final(self).name == old(self).name
                &&& final(self).mode == old(self).mode
                &&& final(self).mode_str == old(self).mode_str
            },
    {
        if !self.is_writable() {
            return Err(GsdError::FileMustBeWritable);
        }
        self.data.gsd_version = (GSD_VERSION_MAJOR, GSD_VERSION_MINOR);
        Ok(())
    }

    /// The file's name.
    pub fn name(&self) -> (r: &str)
        ensures
            r@ == self.name@,
    {
        self.name.as_str()
    }

    /// The open-mode string the file was opened with.
    pub fn mode(&self) -> (r: &str)
        ensures
            r@ == self.mode_str@,
    {
        self.mode_str.as_str()
    }

    /// The file-layer version recorded in the header.
    pub fn gsd_version(&self) -> (r: (u32, u32))
        ensures
            r == self.data.gsd_version,
    {
        self.data.gsd_version
    }

    /// The schema version recorded in the header.
    pub fn schema_version(&self) -> (r: (u32, u32))
        ensures
            r == self.data.schema_version,
    {
        self.data.schema_version
    }

    /// The schema name recorded in the header.
    pub fn schema(&self) -> (r: &str)
        ensures
            r@ == self.data.schema@,
    {
        self.data.schema.as_str()
    }

    /// The application name recorded in the header.
    pub fn application(&self) -> (r: &str)
        ensures
            r@ == self.data.application@,
    {
        self.data.application.as_str()
    }

    /// Reads a chunk like [`GSDFile::read_chunk`]; the result's rank is
    /// carried in the buffer's shape rather than fixed by the caller.
    pub fn read_chunk_dyn<T: GsdElement>(&self, frame: usize, name: &str) -> (r: Result<
        Buffer<T>,
        GsdError,
    >)
        requires
            self.inv(),
        ensures
            ({
                let c = self.chunk_at(frame as int, name@);
                &&& !self.readable() ==> r == Err::<Buffer<T>, GsdError>(
                    GsdError::FileMustBeReadable,
                )
                &&& self.readable() && c is None ==> r == Err::<Buffer<T>, GsdError>(
                    GsdError::ChunkNotFound,
                )
                &&& c matches Some(cc) ==> (self.readable() && cc.data.tag() != T::tag_spec()
                    ==> r == Err::<Buffer<T>, GsdError>(GsdError::TypeMismatch))
                &&& c matches Some(cc) ==> (self.readable() && cc.data.tag() == T::tag_spec()
                    ==> (r matches Ok(b) && b.wf() && b.shape@ =~= seq![cc.n, cc.m]
                    && b.data@.map_values(|x: T| x.to_int()) == cc.data.values()))
            }),
    {
        self.read_chunk::<T>(frame, name)
    }

    /// Reads a chunk like [`GSDFile::read_chunk`], additionally demanding
    /// that the stored chunk has exactly `cols` columns; fails with
    /// `ShapeMismatch` otherwise.
    pub fn read_chunk_with_dim<T: GsdElement>(&self, frame: usize, name: &str, cols: usize) -> (r:
        Result<Buffer<T>, GsdError>)
        requires
            self.inv(),
        ensures
            ({
                let c = self.chunk_at(frame as int, name@);
                &&& !self.readable() ==> r == Err::<Buffer<T>, GsdError>(
                    GsdError::FileMustBeReadable,
                )
                &&& self.readable() && c is None ==> r == Err::<Buffer<T>, GsdError>(
                    GsdError::ChunkNotFound,
                )
                &&& c matches Some(cc) ==> (self.readable() && cc.data.tag() != T::tag_spec()
                    ==> r == Err::<Buffer<T>, GsdError>(GsdError::TypeMismatch))
                &&& c matches Some(cc) ==> (self.readable() && cc.data.tag() == T::tag_spec()
                    && cc.m != cols ==> r == Err::<Buffer<T>, GsdError>(GsdError::ShapeMismatch))
                &&& c matches Some(cc) ==> (self.readable() && cc.data.tag() == T::tag_spec()
                    && cc.m == cols ==> (r matches Ok(b) && b.wf() && b.shape@ =~= seq![cc.n, cc.m]
                    && b.data@.map_values(|x: T| x.to_int()) == cc.data.values()))
            }),
    {
        match self.read_chunk::<T>(frame, name) {
            Err(e) => Err(e),
            Ok(b) => {
                if b.shape[1] != cols {
                    Err(GsdError::ShapeMismatch)
                } else {
                    Ok(b)
                }
            },
        }
    }
}

/// The chunk written latest under a name is the one a lookup of that name
/// yields.
pub proof fn lemma_lookup_after_write(entries: Seq<Entry>, e: Entry)
    ensures
        frame_lookup(entries.push(e), e.name@) == Some(e.chunk),
{
    assert(entries.push(e).last() == e);
}

/// Committing a frame leaves every earlier frame's chunks as they were, and
/// makes the committed chunks visible under the next frame index.
pub proof fn lemma_commit_visibility(pre: GSDFile, post: GSDFile, name: Seq<char>)
    requires
        post.data.frames@ == pre.data.frames@.push(pre.pending),
    ensures
        forall|i: int|
            0 <= i < pre.data.frames@.len() ==> post.chunk_at(i, name) == pre.chunk_at(i, name),
        post.chunk_at(pre.data.frames@.len() as int, name) == frame_lookup(
            pre.pending.entries@,
            name,
        ),
{
    assert(forall|i: int|
        0 <= i < pre.data.frames@.len() ==> post.data.frames@[i] == pre.data.frames@[i]);
    assert(post.data.frames@[pre.data.frames@.len() as int] == pre.pending);
}

/// The round trip of the store: a chunk write followed by a frame commit
/// leaves, under the written name and the newly committed frame index,
/// exactly the written rectangle: its normalized shape, its element tag and
/// its element values.
pub proof fn lemma_write_commit_round_trip<T: GsdElement>(
    f0: GSDFile,
    f1: GSDFile,
    f2: GSDFile,
    name: Seq<char>,
    nm: (usize, usize),
    data: Seq<T>,
)
    requires
        spec_wrote_chunk::<T>(f0, f1, name, nm, data),
        f2.data.frames@ == f1.data.frames@.push(f1.pending),
    ensures
        ({
            let c = f2.chunk_at(f1.data.frames@.len() as int, name);
            &&& c matches Some(cc)
            &&& cc.n == nm.0
            &&& cc.m == nm.1
            &&& cc.data.tag() == T::tag_spec()
            &&& cc.data.values() == data.map_values(|x: T| x.to_int())
        }),
{
    let e = f1.pending.entries@.last();
    assert(f1.pending.entries@ == f0.pending.entries@.push(e));
    lemma_lookup_after_write(f0.pending.entries@, e);
    lemma_commit_visibility(f1, f2, name);
}

/// Two element vectors with the same integer values are the same vector:
/// reading back the values a write stored recovers the written elements
/// exactly.
pub proof fn lemma_values_determine_elements<T: GsdElement>(a: Seq<T>, b: Seq<T>)
    requires
        a.map_values(|x: T| x.to_int()) == b.map_values(|x: T| x.to_int()),
    ensures
        a == b,
{
    assert(a.map_values(|x: T| x.to_int()).len() == a.len());
    assert(b.map_values(|x: T| x.to_int()).len() == b.len());
    assert forall|i: int| 0 <= i < a.len() implies a[i] == b[i] by {
        assert(a.map_values(|x: T| x.to_int())[i] == a[i].to_int());
        assert(b.map_values(|x: T| x.to_int())[i] == b[i].to_int());
        T::to_int_injective(a[i], b[i]);
    }
    assert(a =~= b);
}

} // verus!

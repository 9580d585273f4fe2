//! The parts of a build manifest that follow from the database rows: which
//! files go into it and how, the kind of each artifact, the client loader and
//! the recommended client settings.

use crate::text::{chars_of, ends_with, has_suffix, push_str, str_eq, string_from_chars};
use vstd::prelude::*;

verus! {

/// What an artifact of a build is.
#[derive(Clone, Copy, Debug, PartialEq, Eq, Structural)]
pub enum ArtifactKind {
    ClientJar,
    Library,
    Runtime,
    Native,
    Asset,
    AssetIndex,
    Java,
    Mod,
    Config,
    Other,
}

/// Which side of the game needs a file.
#[derive(Clone, Copy, Debug, PartialEq, Eq, Structural)]
pub enum FileSide {
    Client,
    Server,
    Both,
}

/// The stored name of each artifact kind.
pub open spec fn kind_name(k: ArtifactKind) -> Seq<char> {
    match k {
        ArtifactKind::ClientJar => "client_jar"@,
        ArtifactKind::Library => "library"@,
        ArtifactKind::Runtime => "runtime"@,
        ArtifactKind::Native => "native"@,
        ArtifactKind::Asset => "asset"@,
        ArtifactKind::AssetIndex => "asset_index"@,
        ArtifactKind::Java => "java"@,
        ArtifactKind::Mod => "mod"@,
        ArtifactKind::Config => "config"@,
        ArtifactKind::Other => "other"@,
    }
}

/// The kind a stored name stands for; any name that is not one of the
/// known ones is `Other`.
pub open spec fn kind_of_name(s: Seq<char>) -> ArtifactKind {
    if s == "client_jar"@ {
        ArtifactKind::ClientJar
    } else if s == "library"@ {
        ArtifactKind::Library
    } else if s == "runtime"@ {
        ArtifactKind::Runtime
    } else if s == "native"@ {
        ArtifactKind::Native
    } else if s == "asset"@ {
        ArtifactKind::Asset
    } else if s == "asset_index"@ {
        ArtifactKind::AssetIndex
    } else if s == "java"@ {
        ArtifactKind::Java
    } else if s == "mod"@ {
        ArtifactKind::Mod
    } else if s == "config"@ {
        ArtifactKind::Config
    } else {
        ArtifactKind::Other
    }
}

/// The artifact kind a stored name stands for.
pub fn kind_from_str(s: &str) -> (r: ArtifactKind)
    ensures
        r == kind_of_name(s@),
{
    if str_eq(s, "client_jar") {
        ArtifactKind::ClientJar
    } else if str_eq(s, "library") {
        ArtifactKind::Library
    } else if str_eq(s, "runtime") {
        ArtifactKind::Runtime
    } else if str_eq(s, "native") {
        ArtifactKind::Native
    } else if str_eq(s, "asset") {
        ArtifactKind::Asset
    } else if str_eq(s, "asset_index") {
        ArtifactKind::AssetIndex
    } else if str_eq(s, "java") {
        ArtifactKind::Java
    } else if str_eq(s, "mod") {
        ArtifactKind::Mod
    } else if str_eq(s, "config") {
        ArtifactKind::Config
    } else {
        ArtifactKind::Other
    }
}

/// The stored name of an artifact kind.
pub fn kind_to_str(k: ArtifactKind) -> (r: &'static str)
    ensures
        r@ == kind_name(k),
{
    match k {
        ArtifactKind::ClientJar => "client_jar",
        ArtifactKind::Library => "library",
        ArtifactKind::Runtime => "runtime",
        ArtifactKind::Native => "native",
        ArtifactKind::Asset => "asset",
        ArtifactKind::AssetIndex => "asset_index",
        ArtifactKind::Java => "java",
        ArtifactKind::Mod => "mod",
        ArtifactKind::Config => "config",
        ArtifactKind::Other => "other",
    }
}

/// Reading back the stored name of a kind gives the kind again.
pub proof fn lemma_kind_name_round_trip(k: ArtifactKind)
    ensures
        kind_of_name(kind_name(k)) == k,
{
    reveal_strlit("client_jar");
    reveal_strlit("library");
    reveal_strlit("runtime");
    reveal_strlit("native");
    reveal_strlit("asset");
    reveal_strlit("asset_index");
    reveal_strlit("java");
    reveal_strlit("mod");
    reveal_strlit("config");
    reveal_strlit("other");
    // Each name differs from every earlier one in its length or its first
    // characters.
    assert("client_jar"@[0] == 'c' && "library"@[0] == 'l' && "runtime"@[0] == 'r');
    assert("native"@[0] == 'n' && "asset"@[0] == 'a' && "asset_index"@.len() == 11);
    assert("java"@[0] == 'j' && "mod"@[0] == 'm' && "config"@[0] == 'c' && "other"@[0] == 'o');
    assert("config"@.len() != "client_jar"@.len() && "asset"@.len() != "asset_index"@.len());
}


/// The loader a client runs the game with.
#[derive(Clone, Copy, Debug, PartialEq, Eq, Structural)]
pub enum Modloader {
    Vanilla,
    Forge,
    NeoForge,
    Fabric,
    Quilt,
}

/// The name of each loader, as builds and servers store it.
pub open spec fn loader_name(m: Modloader) -> Seq<char> {
    match m {
        Modloader::Vanilla => "vanilla"@,
        Modloader::Forge => "forge"@,
        Modloader::NeoForge => "neoforge"@,
        Modloader::Fabric => "fabric"@,
        Modloader::Quilt => "quilt"@,
    }
}

/// The loader a stored name stands for, if it is one.
pub open spec fn loader_of_name(s: Seq<char>) -> Option<Modloader> {
    if s == "vanilla"@ {
        Some(Modloader::Vanilla)
    } else if s == "forge"@ {
        Some(Modloader::Forge)
    } else if s == "neoforge"@ {
        Some(Modloader::NeoForge)
    } else if s == "fabric"@ {
        Some(Modloader::Fabric)
    } else if s == "quilt"@ {
        Some(Modloader::Quilt)
    } else {
        None
    }
}

impl Modloader {
    /// The stored name of the loader.
    pub fn as_str(&self) -> (r: &'static str)
        ensures
            r@ == loader_name(*self),
    {
        match self {
            Modloader::Vanilla => "vanilla",
            Modloader::Forge => "forge",
            Modloader::NeoForge => "neoforge",
            Modloader::Fabric => "fabric",
            Modloader::Quilt => "quilt",
        }
    }
}

/// The loader a stored name stands for; `None` for any other name.
pub fn modloader_from_str(s: &str) -> (r: Option<Modloader>)
    ensures
        r == loader_of_name(s@),
{
    if str_eq(s, "vanilla") {
        Some(Modloader::Vanilla)
    } else if str_eq(s, "forge") {
        Some(Modloader::Forge)
    } else if str_eq(s, "neoforge") {
        Some(Modloader::NeoForge)
    } else if str_eq(s, "fabric") {
        Some(Modloader::Fabric)
    } else if str_eq(s, "quilt") {
        Some(Modloader::Quilt)
    } else {
        None
    }
}

/// Reading back the name of a loader gives the loader again.
pub proof fn lemma_loader_name_round_trip(m: Modloader)
    ensures
        loader_of_name(loader_name(m)) == Some(m),
{
    reveal_strlit("vanilla");
    reveal_strlit("forge");
    reveal_strlit("neoforge");
    reveal_strlit("fabric");
    reveal_strlit("quilt");
    assert("vanilla"@[0] == 'v' && "forge"@[0] == 'f' && "neoforge"@[0] == 'n');
    assert("fabric"@[0] == 'f' && "quilt"@[0] == 'q' && "forge"@.len() != "fabric"@.len());
}

/// The loader a manifest names for a stored loader name: the stored one, or
/// vanilla where the name is not a loader's.
pub open spec fn manifest_loader(raw: Seq<char>) -> Modloader {
    match loader_of_name(raw) {
        Some(m) => m,
        None => Modloader::Vanilla,
    }
}

/// The loader a manifest names for a build.
pub fn manifest_modloader(raw: &str) -> (r: Modloader)
    ensures
        r == manifest_loader(raw@),
{
    match modloader_from_str(raw) {
        Some(m) => m,
        None => Modloader::Vanilla,
    }
}

/// The side a stored name stands for: `client`, `server`, or else both.
pub open spec fn side_of_name(s: Seq<char>) -> FileSide {
    if s == "client"@ {
        FileSide::Client
    } else if s == "server"@ {
        FileSide::Server
    } else {
        FileSide::Both
    }
}

fn side_from_str(s: &str) -> (r: FileSide)
    ensures
        r == side_of_name(s@),
{
    if str_eq(s, "client") {
        FileSide::Client
    } else if str_eq(s, "server") {
        FileSide::Server
    } else {
        FileSide::Both
    }
}

/// A file of a build or of the base build it stands on, as stored.
#[derive(Clone, Debug)]
pub struct ManifestFileRow {
    pub path: String,
    pub sha1: String,
    pub size: i64,
    pub side: String,
    pub kind: String,
    /// The platform the file is for; `None`: every platform.
    pub platform: Option<String>,
}

/// A file as the manifest lists it.
#[derive(Clone, Debug)]
pub struct FileEntry {
    pub path: String,
    pub sha1: String,
    pub size: u64,
    pub url: String,
    pub side: FileSide,
    /// Set on the Java binaries, which must be made executable on unix.
    pub executable: bool,
    pub platform: Option<String>,
}

/// The path names a Java launcher binary.
pub open spec fn is_java_binary(path: Seq<char>) -> bool {
    ||| has_suffix(path, "/java"@)
    ||| has_suffix(path, "/javaw"@)
    ||| has_suffix(path, "/java.exe"@)
}

/// `e` is how the manifest lists `row`, with `files_base` followed by the
/// sha1 as the download address and `platform` as the file's platform.
pub open spec fn entry_of(e: FileEntry, row: ManifestFileRow, files_base: Seq<char>, platform: Option<String>) -> bool {
    &&& e.path == row.path
    &&& e.sha1 == row.sha1
    &&& e.size == row.size as u64
    &&& e.url@ == files_base + row.sha1@
    &&& e.side == side_of_name(row.side@)
    &&& e.executable == (kind_of_name(row.kind@) == ArtifactKind::Java && is_java_binary(row.path@))
    &&& e.platform == platform
}

fn is_java_binary_exec(path: &str) -> (r: bool)
    ensures
        r == is_java_binary(path@),
{
    let p = chars_of(path);
    let a = chars_of("/java");
    let b = chars_of("/javaw");
    let c = chars_of("/java.exe");
    ends_with(p.as_slice(), a.as_slice()) || ends_with(p.as_slice(), b.as_slice()) || ends_with(
        p.as_slice(),
        c.as_slice(),
    )
}

fn file_entry(row: &ManifestFileRow, files_base: &str, keep_platform: bool) -> (r: (FileEntry, ArtifactKind))
    ensures
        entry_of(r.0, *row, files_base@, if keep_platform { row.platform } else { None }),
        r.1 == kind_of_name(row.kind@),
{
    let kind = kind_from_str(row.kind.as_str());
    let executable = kind == ArtifactKind::Java && is_java_binary_exec(row.path.as_str());
    let mut url: Vec<char> = Vec::new();
    push_str(&mut url, files_base);
    push_str(&mut url, row.sha1.as_str());
    let platform = if keep_platform {
        match &row.platform {
            Some(p) => Some(p.clone()),
            None => None,
        }
    } else {
        None
    };
    let e = FileEntry {
        path: row.path.clone(),
        sha1: row.sha1.clone(),
        size: row.size as u64,
        url: string_from_chars(url.as_slice()),
        side: side_from_str(row.side.as_str()),
        executable,
        platform,
    };
    (e, kind)
}

/// `files` lists the base build's files, each with its own platform, then
/// the build's own, with no platform; `kinds` gives the path and kind of
/// each in the same order.
pub open spec fn manifest_lists(
    files: Seq<FileEntry>,
    kinds: Seq<(String, ArtifactKind)>,
    base_files: Seq<ManifestFileRow>,
    build_files: Seq<ManifestFileRow>,
    files_base: Seq<char>,
) -> bool {
    &&& files.len() == base_files.len() + build_files.len()
    &&& kinds.len() == files.len()
    &&& forall|i: int|
        0 <= i < base_files.len() ==> entry_of(
            #[trigger] files[i],
            base_files[i],
            files_base,
            base_files[i].platform,
        )
    &&& forall|j: int|
        0 <= j < build_files.len() ==> entry_of(
            #[trigger] files[base_files.len() + j],
            build_files[j],
            files_base,
            None,
        )
    &&& forall|i: int|
        0 <= i < base_files.len() ==> #[trigger] kinds[i] == (
            base_files[i].path,
            kind_of_name(base_files[i].kind@),
        )
    &&& forall|j: int|
        0 <= j < build_files.len() ==> #[trigger] kinds[base_files.len() + j] == (
            build_files[j].path,
            kind_of_name(build_files[j].kind@),
        )
}

/// The files of a manifest: those of the base build, each with its own
/// platform, then those of the build itself, which are the same on every
/// platform. Beside them, the kind of each file by path, in the same order;
/// inserted one after the other into a map, a later path overrides an
/// earlier one.
pub fn manifest_files(
    base_files: &[ManifestFileRow],
    build_files: &[ManifestFileRow],
    files_base: &str,
) -> (r: (Vec<FileEntry>, Vec<(String, ArtifactKind)>))
    ensures
        manifest_lists(r.0@, r.1@, base_files@, build_files@, files_base@),
        r.0@.len() == base_files@.len() + build_files@.len(),
        r.1@.len() == r.0@.len(),
        forall|i: int|
            0 <= i < base_files@.len() ==> entry_of(
                #[trigger] r.0@[i],
                base_files@[i],
                files_base@,
                base_files@[i].platform,
            ),
        forall|j: int|
            0 <= j < build_files@.len() ==> entry_of(
                #[trigger] r.0@[base_files@.len() + j],
                build_files@[j],
                files_base@,
                None,
            ),
        forall|i: int|
            0 <= i < base_files@.len() ==> #[trigger] r.1@[i] == (
                base_files@[i].path,
                kind_of_name(base_files@[i].kind@),
            ),
        forall|j: int|
            0 <= j < build_files@.len() ==> #[trigger] r.1@[base_files@.len() + j] == (
                build_files@[j].path,
                kind_of_name(build_files@[j].kind@),
            ),
{
    let mut files: Vec<FileEntry> = Vec::new();
    let mut kinds: Vec<(String, ArtifactKind)> = Vec::new();
    let nb = base_files.len();
    for i in 0..nb
        invariant
            nb == base_files@.len(),
            files@.len() == i,
            kinds@.len() == i,
            forall|k: int|
                0 <= k < i ==> entry_of(
                    #[trigger] files@[k],
                    base_files@[k],
                    files_base@,
                    base_files@[k].platform,
                ),
            forall|k: int|
                0 <= k < i ==> #[trigger] kinds@[k] == (
                    base_files@[k].path,
                    kind_of_name(base_files@[k].kind@),
                ),
    {
        let (e, k) = file_entry(&base_files[i], files_base, true);
        kinds.push((e.path.clone(), k));
        files.push(e);
    }
    let nd = build_files.len();
    for j in 0..nd
        invariant
            nb == base_files@.len(),
            nd == build_files@.len(),
            files@.len() == nb + j,
            kinds@.len() == nb + j,
            forall|k: int|
                0 <= k < nb ==> entry_of(
                    #[trigger] files@[k],
                    base_files@[k],
                    files_base@,
                    base_files@[k].platform,
                ),
            forall|k: int|
                0 <= k < j ==> entry_of(
                    #[trigger] files@[nb + k],
                    build_files@[k],
                    files_base@,
                    None,
                ),
            forall|k: int|
                0 <= k < nb ==> #[trigger] kinds@[k] == (
                    base_files@[k].path,
                    kind_of_name(base_files@[k].kind@),
                ),
            forall|k: int|
                0 <= k < j ==> #[trigger] kinds@[nb + k] == (
                    build_files@[k].path,
                    kind_of_name(build_files@[k].kind@),
                ),
    {
        let (e, k) = file_entry(&build_files[j], files_base, false);
        kinds.push((e.path.clone(), k));
        files.push(e);
    }
    (files, kinds)
}

/// Memory and console settings the launcher proposes to players.
#[derive(Clone, Debug)]
pub struct RecommendedClientSettings {
    pub memory_min_mb: u32,
    pub memory_max_mb: u32,
    pub jvm_flags: String,
    pub show_console_on_launch: bool,
}

/// The smallest heap the launcher is ever told to use, in MiB.
pub const MIN_MEMORY_MB: i32 = 512;

/// The lower memory bound a build recommends, raised to `MIN_MEMORY_MB`.
pub open spec fn memory_floor(memory_min_mb: i32) -> int {
    if memory_min_mb >= MIN_MEMORY_MB {
        memory_min_mb as int
    } else {
        MIN_MEMORY_MB as int
    }
}

/// The upper memory bound a build recommends, raised to the lower one and
/// to `MIN_MEMORY_MB`.
pub open spec fn memory_ceiling(memory_min_mb: i32, memory_max_mb: i32) -> int {
    if memory_max_mb >= memory_min_mb && memory_max_mb >= MIN_MEMORY_MB {
        memory_max_mb as int
    } else {
        memory_floor(memory_min_mb)
    }
}

/// Whatever a build stores, the recommended upper bound is at least the
/// lower one, and the lower one at least `MIN_MEMORY_MB`.
pub proof fn lemma_memory_bounds_ordered(memory_min_mb: i32, memory_max_mb: i32)
    ensures
        MIN_MEMORY_MB <= memory_floor(memory_min_mb) <= memory_ceiling(memory_min_mb, memory_max_mb),
        memory_ceiling(memory_min_mb, memory_max_mb) <= i32::MAX,
{
}

/// The recommended settings of a build: neither bound goes below
/// `MIN_MEMORY_MB`, and the upper one not below the lower one.
pub fn recommended_settings(
    memory_min_mb: i32,
    memory_max_mb: i32,
    jvm_flags: &String,
    show_console_on_launch: bool,
) -> (r: RecommendedClientSettings)
    ensures
        r.memory_min_mb == (if memory_min_mb >= MIN_MEMORY_MB {
            memory_min_mb as int
        } else {
            MIN_MEMORY_MB as int
        }),
        r.memory_max_mb == (if memory_max_mb >= memory_min_mb && memory_max_mb >= MIN_MEMORY_MB {
            memory_max_mb as int
        } else if memory_min_mb >= MIN_MEMORY_MB {
            memory_min_mb as int
        } else {
            MIN_MEMORY_MB as int
        }),
        r.jvm_flags == *jvm_flags,
        r.show_console_on_launch == show_console_on_launch,
{
    let min = if memory_min_mb >= MIN_MEMORY_MB {
        memory_min_mb
    } else {
        MIN_MEMORY_MB
    };
    let upper = if memory_max_mb >= memory_min_mb {
        memory_max_mb
    } else {
        memory_min_mb
    };
    let max = if upper >= MIN_MEMORY_MB {
        upper
    } else {
        MIN_MEMORY_MB
    };
    RecommendedClientSettings {
        memory_min_mb: min as u32,
        memory_max_mb: max as u32,
        jvm_flags: jvm_flags.clone(),
        show_console_on_launch,
    }
}

/// The total size of the files a manifest lists.
pub open spec fn files_size(files: Seq<FileEntry>) -> nat
    decreases files.len(),
{
    if files.len() == 0 {
        0
    } else {
        files_size(files.drop_last()) + files.last().size as nat
    }
}

/// The total size of the files a manifest lists, where it fits in a `u64`.
pub fn total_size(files: &[FileEntry]) -> (r: u64)
    requires
        files_size(files@) <= u64::MAX,
    ensures
        r == files_size(files@),
{
    let mut total: u64 = 0;
    let n = files.len();
    for i in 0..n
        invariant
            n == files@.len(),
            total == files_size(files@.take(i as int)),
            files_size(files@) <= u64::MAX,
    {
        proof {
            lemma_files_size_prefix(files@, i as int + 1);
            assert(files@.take(i as int + 1).drop_last() =~= files@.take(i as int));
        }
        total = total + files[i].size;
    }
    assert(files@.take(n as int) =~= files@);
    total
}

proof fn lemma_files_size_prefix(files: Seq<FileEntry>, k: int)
    requires
        0 <= k <= files.len(),
    ensures
        files_size(files.take(k)) <= files_size(files),
    decreases files.len() - k,
{
    if k < files.len() {
        lemma_files_size_prefix(files, k + 1);
        assert(files.take(k + 1).drop_last() =~= files.take(k));
    } else {
        assert(files.take(k) =~= files);
    }
}

/// The path and kind a stored file row gives the manifest's kind map.
pub open spec fn row_kind(row: ManifestFileRow) -> (String, ArtifactKind) {
    (row.path, kind_of_name(row.kind@))
}

/// The path and kind of each file, base build first, in listing order.
pub open spec fn file_kinds(base_files: Seq<ManifestFileRow>, build_files: Seq<ManifestFileRow>) -> Seq<
    (String, ArtifactKind),
> {
    base_files.map_values(|r: ManifestFileRow| row_kind(r)) + build_files.map_values(
        |r: ManifestFileRow| row_kind(r),
    )
}

/// A later entry has the same path as entry `i`.
pub open spec fn shadowed(k: Seq<(String, ArtifactKind)>, i: int) -> bool {
    exists|j: int| i < j < k.len() && (#[trigger] k[j]).0@ == k[i].0@
}

/// The entries that no later entry overrides, in order: what is left of
/// the pairs once they are inserted one after the other into a map keyed
/// by path, each path once, with the kind it was given last.
pub open spec fn last_entries(k: Seq<(String, ArtifactKind)>) -> Seq<(String, ArtifactKind)>
    decreases k.len(),
{
    if k.len() == 0 {
        k
    } else if shadowed(k, 0) {
        last_entries(k.drop_first())
    } else {
        seq![k[0]] + last_entries(k.drop_first())
    }
}

proof fn lemma_shadowed_skip(k: Seq<(String, ArtifactKind)>, i: int)
    requires
        0 <= i < k.len(),
    ensures
        shadowed(k.skip(i), 0) == shadowed(k, i),
        k.skip(i).drop_first() == k.skip(i + 1),
        k.skip(i)[0] == k[i],
{
    assert(k.skip(i).drop_first() =~= k.skip(i + 1));
    if shadowed(k, i) {
        let j = choose|j: int| i < j < k.len() && (#[trigger] k[j]).0@ == k[i].0@;
        assert(k.skip(i)[j - i] == k[j]);
    }
    if shadowed(k.skip(i), 0) {
        let t = k.skip(i);
        let j = choose|j: int| 0 < j < t.len() && (#[trigger] t[j]).0@ == t[0].0@;
        assert(t[j] == k[i + j]);
    }
}

proof fn lemma_last_entries_within(k: Seq<(String, ArtifactKind)>, x: int)
    requires
        0 <= x < last_entries(k).len(),
    ensures
        exists|i: int| 0 <= i < k.len() && !shadowed(k, i) && k[i] == #[trigger] last_entries(k)[x],
    decreases k.len(),
{
    let rest = k.drop_first();
    if !shadowed(k, 0) && x == 0 {
        assert(k[0] == last_entries(k)[0]);
    } else {
        let y = if shadowed(k, 0) { x } else { x - 1 };
        assert(last_entries(k)[x] == last_entries(rest)[y]);
        lemma_last_entries_within(rest, y);
        let i = choose|i: int| 0 <= i < rest.len() && !shadowed(rest, i) && rest[i] == #[trigger] last_entries(rest)[y];
        assert(k[i + 1] == rest[i]);
        if shadowed(k, i + 1) {
            let j = choose|j: int| i + 1 < j < k.len() && (#[trigger] k[j]).0@ == k[i + 1].0@;
            assert(rest[j - 1] == k[j]);
        }
    }
}

/// Each path is kept once, with the kind its last entry gives it: no two
/// kept entries share a path, and a kept entry is overridden by none.
pub proof fn lemma_last_entries_unique(k: Seq<(String, ArtifactKind)>)
    ensures
        forall|a: int, b: int|
            0 <= a < b < last_entries(k).len() ==> (#[trigger] last_entries(k)[a]).0@ != (
            #[trigger] last_entries(k)[b]).0@,
        forall|x: int|
            0 <= x < last_entries(k).len() ==> exists|i: int|
                0 <= i < k.len() && !shadowed(k, i) && k[i] == #[trigger] last_entries(k)[x],
    decreases k.len(),
{
    assert forall|x: int| 0 <= x < last_entries(k).len() implies exists|i: int|
        0 <= i < k.len() && !shadowed(k, i) && k[i] == #[trigger] last_entries(k)[x] by {
        lemma_last_entries_within(k, x);
    }
    if k.len() > 0 {
        let rest = k.drop_first();
        lemma_last_entries_unique(rest);
        if !shadowed(k, 0) {
            let l = last_entries(k);
            assert forall|a: int, b: int| 0 <= a < b < l.len() implies (#[trigger] l[a]).0@ != (
            #[trigger] l[b]).0@ by {
                if a == 0 {
                    lemma_last_entries_within(rest, b - 1);
                    let i = choose|i: int| 0 <= i < rest.len() && !shadowed(rest, i) && rest[i]
                        == #[trigger] last_entries(rest)[b - 1];
                    assert(l[b] == last_entries(rest)[b - 1]);
                    assert(k[i + 1] == rest[i]);
                    if l[a].0@ == l[b].0@ {
                        assert(k[i + 1].0@ == k[0].0@);
                    }
                } else {
                    assert(l[a] == last_entries(rest)[a - 1]);
                    assert(l[b] == last_entries(rest)[b - 1]);
                }
            }
        }
    }
}

/// The kinds by path, as inserting the pairs in order into a map keeps
/// them: each path once, with the kind given last, in the order of the
/// last entries.
pub fn kinds_by_path(kinds: &[(String, ArtifactKind)]) -> (r: Vec<(String, ArtifactKind)>)
    ensures
        r@ == last_entries(kinds@),
{
    let n = kinds.len();
    let mut out: Vec<(String, ArtifactKind)> = Vec::new();
    assert(kinds@.skip(0) =~= kinds@);
    for i in 0..n
        invariant
            n == kinds@.len(),
            out@ + last_entries(kinds@.skip(i as int)) == last_entries(kinds@),
    {
        let mut later = false;
        let mut j = i + 1;
        while j < n
            invariant
                n == kinds@.len(),
                i < n,
                i + 1 <= j <= n,
                later == exists|m: int| i < m < j && (#[trigger] kinds@[m]).0@ == kinds@[i as int].0@,
            decreases n - j,
        {
            if str_eq(kinds[j].0.as_str(), kinds[i].0.as_str()) {
                later = true;
            }
            j = j + 1;
        }
        proof {
            lemma_shadowed_skip(kinds@, i as int);
        }
        assert(later == shadowed(kinds@, i as int));
        if !later {
            let ghost before = out@;
            out.push((kinds[i].0.clone(), kinds[i].1));
            assert(out@ == before + seq![kinds@[i as int]]);
            assert(before + seq![kinds@[i as int]] + last_entries(kinds@.skip(i + 1)) =~= before
                + last_entries(kinds@.skip(i as int)));
        }
    }
    assert(kinds@.skip(n as int) =~= Seq::<(String, ArtifactKind)>::empty());
    assert(out@ + last_entries(kinds@.skip(n as int)) =~= out@);
    out
}

/// What a manifest takes from the build it describes.
#[derive(Clone, Debug)]
pub struct BuildInfo {
    pub id: u128,
    pub server_id: u128,
    pub version: String,
    pub mc_version: String,
    /// The stored loader name.
    pub modloader: String,
    pub modloader_version: Option<String>,
    pub recommended_memory_min_mb: i32,
    pub recommended_memory_max_mb: i32,
    pub recommended_jvm_flags: String,
    pub recommended_show_console_on_launch: bool,
    /// The mods a player may switch on or off, as stored: a JSON array.
    pub optional_mods: String,
}

/// What a manifest takes from the base build (the vanilla or loader
/// installation) that a build stands on.
#[derive(Clone, Debug)]
pub struct BaseBuildInfo {
    pub main_class: String,
    pub assets_index_name: String,
    /// The JVM arguments of the launch, as stored: a JSON array.
    pub jvm_args: String,
    /// The game arguments of the launch, as stored: a JSON array.
    pub game_args: String,
}

/// The manifest of a build, before it is signed. The launch arguments and
/// the optional mods are carried as the JSON arrays they are stored as.
#[derive(Clone, Debug)]
pub struct BuildManifest {
    pub build_id: u128,
    pub server_id: u128,
    pub version: String,
    pub mc_version: String,
    pub modloader: Modloader,
    pub modloader_version: Option<String>,
    pub main_class: String,
    pub jvm_args: String,
    pub game_args: String,
    pub assets_index_name: String,
    pub verified_files: Vec<FileEntry>,
    /// The kind of each listed path, each path once with the kind its
    /// last listed file gives it.
    pub artifact_kinds: Vec<(String, ArtifactKind)>,
    pub unmanaged_paths: Vec<String>,
    pub user_managed_paths: Vec<String>,
    pub optional_mods: String,
    pub recommended_client_settings: RecommendedClientSettings,
    /// Empty until the manifest is signed.
    pub signature: Vec<u8>,
}

/// Why a manifest cannot be assembled.
#[derive(Clone, Copy, Debug, PartialEq, Eq, Structural)]
pub enum ManifestError {
    /// No base build is installed for the build's game version and loader.
    MissingBaseBuild,
}

/// Assemble the unsigned manifest of `build` from the base build it stands
/// on and the files of both: an error where no base build is installed,
/// else a manifest that carries the build's identity, the base build's
/// launch data, the files as `manifest_files` lists them and the
/// recommended settings. The manifest comes back unsigned: what of it is
/// signed, and with which key, is up to the signer, which this library does
/// not hold, and it goes into `signature`.
pub fn assemble_manifest(
    build: &BuildInfo,
    base: &Option<BaseBuildInfo>,
    base_files: &[ManifestFileRow],
    build_files: &[ManifestFileRow],
    files_base: &str,
    unmanaged_paths: Vec<String>,
    user_managed_paths: Vec<String>,
) -> (r: Result<BuildManifest, ManifestError>)
    ensures
        base.is_none() <==> r == Err::<BuildManifest, ManifestError>(ManifestError::MissingBaseBuild),
        r is Ok <==> base.is_some(),
        r matches Ok(m) ==> {
            &&& m.build_id == build.id
            &&& m.server_id == build.server_id
            &&& m.version == build.version
            &&& m.mc_version == build.mc_version
            &&& m.modloader == manifest_loader(build.modloader@)
            &&& m.modloader_version == build.modloader_version
            &&& m.main_class == base.unwrap().main_class
            &&& m.assets_index_name == base.unwrap().assets_index_name
            &&& m.jvm_args == base.unwrap().jvm_args
            &&& m.game_args == base.unwrap().game_args
            &&& manifest_lists(
                m.verified_files@,
                file_kinds(base_files@, build_files@),
                base_files@,
                build_files@,
                files_base@,
            )
            &&& m.artifact_kinds@ == last_entries(file_kinds(base_files@, build_files@))
            &&& m.optional_mods == build.optional_mods
            &&& m.unmanaged_paths == unmanaged_paths
            &&& m.user_managed_paths == user_managed_paths
            &&& m.recommended_client_settings.memory_min_mb == memory_floor(build.recommended_memory_min_mb)
            &&& m.recommended_client_settings.memory_max_mb == memory_ceiling(
                build.recommended_memory_min_mb,
                build.recommended_memory_max_mb,
            )
            &&& m.recommended_client_settings.jvm_flags == build.recommended_jvm_flags
            &&& m.recommended_client_settings.show_console_on_launch
                == build.recommended_show_console_on_launch
            &&& m.signature@ == Seq::<u8>::empty()
        },
{
    let b = match base {
        Some(b) => b,
        None => {
            return Err(ManifestError::MissingBaseBuild);
        },
    };
    let (verified_files, listed_kinds) = manifest_files(base_files, build_files, files_base);
    proof {
        let fk = file_kinds(base_files@, build_files@);
        let nb = base_files@.len();
        assert forall|k: int| 0 <= k < fk.len() implies #[trigger] listed_kinds@[k] == fk[k] by {
            if k >= nb {
                let j = k - nb;
                assert(listed_kinds@[nb + j] == row_kind(build_files@[j]));
            } else {
                assert(listed_kinds@[k] == row_kind(base_files@[k]));
            }
        }
        assert(listed_kinds@ =~= fk);
    }
    let artifact_kinds = kinds_by_path(listed_kinds.as_slice());
    let settings = recommended_settings(
        build.recommended_memory_min_mb,
        build.recommended_memory_max_mb,
        &build.recommended_jvm_flags,
        build.recommended_show_console_on_launch,
    );
    let modloader_version = match &build.modloader_version {
        Some(v) => Some(v.clone()),
        None => None,
    };
    Ok(BuildManifest {
        build_id: build.id,
        server_id: build.server_id,
        version: build.version.clone(),
        mc_version: build.mc_version.clone(),
        modloader: manifest_modloader(build.modloader.as_str()),
        modloader_version,
        main_class: b.main_class.clone(),
        jvm_args: b.jvm_args.clone(),
        game_args: b.game_args.clone(),
        assets_index_name: b.assets_index_name.clone(),
        verified_files,
        artifact_kinds,
        unmanaged_paths,
        user_managed_paths,
        optional_mods: build.optional_mods.clone(),
        recommended_client_settings: settings,
        signature: Vec::new(),
    })
}

} // verus!

//! Linux OS image catalog and on-disk layout.
//!
//! Provides the built-in catalog of downloadable Linux distributions
//! (kernel + initrd + rootfs) for VM booting, where their files live, and
//! what their recorded status means. Reading the status files is the
//! caller's part: the functions here take the statuses that were read.
use vstd::prelude::*;
use sha2::Digest;
use crate::store::{join, join_path, law_join2_keeps_base, relative};
use crate::text::has_prefix;
use crate::text::{chars_of, clone_string, concat, owned, str_eq};

verus! {

// ---------------------------------------------------------------------------
// Errors
// ---------------------------------------------------------------------------

#[derive(Debug)]
pub enum ImageError {
    NotFound(String),
    AlreadyExists(String),
    DownloadFailed(String),
    ChecksumMismatch { expected: String, actual: String },
    /// An I/O failure, carrying the operating system's message.
    Io(String),
}

pub open spec fn image_error_text(e: ImageError) -> Seq<char> {
    match e {
        ImageError::NotFound(m) => "image not found: "@ + m@,
        ImageError::AlreadyExists(m) => "image already exists: "@ + m@,
        ImageError::DownloadFailed(m) => "download failed: "@ + m@,
        ImageError::ChecksumMismatch { expected, actual } => "checksum mismatch: expected "@
            + expected@ + ", got "@ + actual@,
        ImageError::Io(m) => "IO error: "@ + m@,
    }
}

impl ImageError {
    /// The human-readable message of this error.
    pub fn describe(&self) -> (s: String)
        ensures
            s@ == image_error_text(*self),
    {
        match self {
            ImageError::NotFound(m) => concat("image not found: ", m.as_str()),
            ImageError::AlreadyExists(m) => concat("image already exists: ", m.as_str()),
            ImageError::DownloadFailed(m) => concat("download failed: ", m.as_str()),
            ImageError::ChecksumMismatch { expected, actual } => {
                let a = concat("checksum mismatch: expected ", expected.as_str());
                let b = concat(a.as_str(), ", got ");
                concat(b.as_str(), actual.as_str())
            },
            ImageError::Io(m) => concat("IO error: ", m.as_str()),
        }
    }
}

// ---------------------------------------------------------------------------
// Types
// ---------------------------------------------------------------------------

/// Status of an OS image on disk.
#[derive(Debug, Clone, Copy, PartialEq, Eq, Structural)]
pub enum ImageStatus {
    /// Not yet downloaded.
    NotDownloaded,
    /// Currently downloading.
    Downloading,
    /// Downloaded and ready to use.
    Ready,
}

/// The status an image has when nothing is recorded for it.
pub fn default_status() -> (s: ImageStatus)
    ensures
        s == ImageStatus::NotDownloaded,
{
    ImageStatus::NotDownloaded
}

/// Lowercase name of a status, as the GUI shows it.
pub fn image_status_name(status: ImageStatus) -> (s: String)
    ensures
        s@ == match status {
            ImageStatus::NotDownloaded => "not_downloaded"@,
            ImageStatus::Downloading => "downloading"@,
            ImageStatus::Ready => "ready"@,
        },
{
    match status {
        ImageStatus::NotDownloaded => owned("not_downloaded"),
        ImageStatus::Downloading => owned("downloading"),
        ImageStatus::Ready => owned("ready"),
    }
}

/// A single downloadable Linux OS image entry.
#[derive(Debug, Clone)]
pub struct OsImageEntry {
    /// Short identifier, e.g. "alpine-3.19".
    pub id: String,
    /// Human-readable name, e.g. "Alpine Linux 3.19".
    pub name: String,
    /// Distribution version string.
    pub version: String,
    /// CPU architecture (aarch64 / x86_64).
    pub arch: String,
    /// URL to download the kernel (vmlinuz).
    pub kernel_url: String,
    /// URL to download the initrd / initramfs.
    pub initrd_url: String,
    /// URL to download the root filesystem image (optional).
    pub rootfs_url: String,
    /// Approximate total download size in bytes.
    pub size_bytes: u64,
    /// SHA-256 checksum of the kernel file (hex).
    pub kernel_sha256: String,
    /// SHA-256 checksum of the initrd file (hex).
    pub initrd_sha256: String,
    /// SHA-256 checksum of the rootfs file (hex).
    pub rootfs_sha256: String,
    /// Default kernel command line.
    pub default_cmdline: String,
    /// Current status on disk.
    pub status: ImageStatus,
}

pub struct OsImageEntryView {
    pub id: Seq<char>,
    pub name: Seq<char>,
    pub version: Seq<char>,
    pub arch: Seq<char>,
    pub kernel_url: Seq<char>,
    pub initrd_url: Seq<char>,
    pub rootfs_url: Seq<char>,
    pub size_bytes: u64,
    pub kernel_sha256: Seq<char>,
    pub initrd_sha256: Seq<char>,
    pub rootfs_sha256: Seq<char>,
    pub default_cmdline: Seq<char>,
    pub status: ImageStatus,
}

impl View for OsImageEntry {
    type V = OsImageEntryView;

    open spec fn view(&self) -> OsImageEntryView {
        OsImageEntryView {
            id: self.id@,
            name: self.name@,
            version: self.version@,
            arch: self.arch@,
            kernel_url: self.kernel_url@,
            initrd_url: self.initrd_url@,
            rootfs_url: self.rootfs_url@,
            size_bytes: self.size_bytes,
            kernel_sha256: self.kernel_sha256@,
            initrd_sha256: self.initrd_sha256@,
            rootfs_sha256: self.rootfs_sha256@,
            default_cmdline: self.default_cmdline@,
            status: self.status,
        }
    }
}

impl OsImageEntry {
    /// A copy with the same contents.
    pub fn duplicate(&self) -> (r: OsImageEntry)
        ensures
            r@ == self@,
    {
        OsImageEntry {
            id: clone_string(&self.id),
            name: clone_string(&self.name),
            version: clone_string(&self.version),
            arch: clone_string(&self.arch),
            kernel_url: clone_string(&self.kernel_url),
            initrd_url: clone_string(&self.initrd_url),
            rootfs_url: clone_string(&self.rootfs_url),
            size_bytes: self.size_bytes,
            kernel_sha256: clone_string(&self.kernel_sha256),
            initrd_sha256: clone_string(&self.initrd_sha256),
            rootfs_sha256: clone_string(&self.rootfs_sha256),
            default_cmdline: clone_string(&self.default_cmdline),
            status: self.status,
        }
    }
}

pub open spec fn entries_view(v: Seq<OsImageEntry>) -> Seq<OsImageEntryView> {
    v.map_values(|e: OsImageEntry| e@)
}

/// Progress information for an ongoing download.
#[derive(Debug, Clone)]
pub struct DownloadProgress {
    pub image_id: String,
    /// Which file is being downloaded: "kernel", "initrd", or "rootfs".
    pub current_file: String,
    /// Bytes downloaded so far (across all files).
    pub bytes_downloaded: u64,
    /// Total bytes to download (across all files).
    pub bytes_total: u64,
    /// true when the download is complete.
    pub done: bool,
    /// Error message if something went wrong.
    pub error: Option<String>,
}

/// Paths to the downloaded image files on disk.
#[derive(Debug, Clone)]
pub struct ImagePaths {
    pub kernel_path: String,
    pub initrd_path: String,
    pub rootfs_path: String,
}

// ---------------------------------------------------------------------------
// Built-in catalog
// ---------------------------------------------------------------------------

/// The catalog entry with the given fields, not yet downloaded, without
/// checksums.
pub open spec fn catalog_entry(
    id: Seq<char>,
    name: Seq<char>,
    version: Seq<char>,
    kernel_url: Seq<char>,
    initrd_url: Seq<char>,
    rootfs_url: Seq<char>,
    size_bytes: u64,
    cmdline: Seq<char>,
) -> OsImageEntryView {
    OsImageEntryView {
        id,
        name,
        version,
        arch: "aarch64"@,
        kernel_url,
        initrd_url,
        rootfs_url,
        size_bytes,
        kernel_sha256: ""@,
        initrd_sha256: ""@,
        rootfs_sha256: ""@,
        default_cmdline: cmdline,
        status: ImageStatus::NotDownloaded,
    }
}

/// The built-in catalog: Alpine 3.19, Ubuntu 24.04 and Debian 12 for
/// aarch64.
pub open spec fn catalog_spec() -> Seq<OsImageEntryView> {
    seq![
        catalog_entry(
            "alpine-3.19"@,
            "Alpine Linux 3.19"@,
            "3.19"@,
            "https://dl-cdn.alpinelinux.org/alpine/v3.19/releases/aarch64/netboot/vmlinuz-lts"@,
            "https://dl-cdn.alpinelinux.org/alpine/v3.19/releases/aarch64/netboot/initramfs-lts"@,
            "https://dl-cdn.alpinelinux.org/alpine/v3.19/releases/aarch64/alpine-minirootfs-3.19.0-aarch64.tar.gz"@,
            50_000_000,
            "console=hvc0 root=/dev/vda rw"@,
        ),
        catalog_entry(
            "ubuntu-24.04"@,
            "Ubuntu Server 24.04 LTS"@,
            "24.04"@,
            "https://cloud-images.ubuntu.com/releases/24.04/release/unpacked/ubuntu-24.04-server-cloudimg-arm64-vmlinuz-generic"@,
            "https://cloud-images.ubuntu.com/releases/24.04/release/unpacked/ubuntu-24.04-server-cloudimg-arm64-initrd-generic"@,
            "https://cloud-images.ubuntu.com/releases/24.04/release/ubuntu-24.04-server-cloudimg-arm64.img"@,
            300_000_000,
            "console=hvc0 root=/dev/vda1 rw"@,
        ),
        catalog_entry(
            "debian-12"@,
            "Debian 12 (Bookworm)"@,
            "12"@,
            "https://cloud.debian.org/images/cloud/bookworm/latest/debian-12-nocloud-arm64-vmlinuz"@,
            "https://cloud.debian.org/images/cloud/bookworm/latest/debian-12-nocloud-arm64-initrd"@,
            "https://cloud.debian.org/images/cloud/bookworm/latest/debian-12-nocloud-arm64.raw"@,
            250_000_000,
            "console=hvc0 root=/dev/vda1 rw"@,
        ),
    ]
}

fn make_entry(
    id: &str,
    name: &str,
    version: &str,
    kernel_url: &str,
    initrd_url: &str,
    rootfs_url: &str,
    size_bytes: u64,
    cmdline: &str,
) -> (e: OsImageEntry)
    ensures
        e@ == catalog_entry(
            id@,
            name@,
            version@,
            kernel_url@,
            initrd_url@,
            rootfs_url@,
            size_bytes,
            cmdline@,
        ),
{
    OsImageEntry {
        id: owned(id),
        name: owned(name),
        version: owned(version),
        arch: owned("aarch64"),
        kernel_url: owned(kernel_url),
        initrd_url: owned(initrd_url),
        rootfs_url: owned(rootfs_url),
        size_bytes,
        kernel_sha256: owned(""),
        initrd_sha256: owned(""),
        rootfs_sha256: owned(""),
        default_cmdline: owned(cmdline),
        status: ImageStatus::NotDownloaded,
    }
}

/// Return the built-in catalog of available Linux images.
pub fn builtin_catalog() -> (c: Vec<OsImageEntry>)
    ensures
        entries_view(c@) == catalog_spec(),
{
    let mut c: Vec<OsImageEntry> = Vec::new();
    c.push(
        make_entry(
            "alpine-3.19",
            "Alpine Linux 3.19",
            "3.19",
            "https://dl-cdn.alpinelinux.org/alpine/v3.19/releases/aarch64/netboot/vmlinuz-lts",
            "https://dl-cdn.alpinelinux.org/alpine/v3.19/releases/aarch64/netboot/initramfs-lts",
            "https://dl-cdn.alpinelinux.org/alpine/v3.19/releases/aarch64/alpine-minirootfs-3.19.0-aarch64.tar.gz",
            50_000_000,
            "console=hvc0 root=/dev/vda rw",
        ),
    );
    c.push(
        make_entry(
            "ubuntu-24.04",
            "Ubuntu Server 24.04 LTS",
            "24.04",
            "https://cloud-images.ubuntu.com/releases/24.04/release/unpacked/ubuntu-24.04-server-cloudimg-arm64-vmlinuz-generic",
            "https://cloud-images.ubuntu.com/releases/24.04/release/unpacked/ubuntu-24.04-server-cloudimg-arm64-initrd-generic",
            "https://cloud-images.ubuntu.com/releases/24.04/release/ubuntu-24.04-server-cloudimg-arm64.img",
            300_000_000,
            "console=hvc0 root=/dev/vda1 rw",
        ),
    );
    c.push(
        make_entry(
            "debian-12",
            "Debian 12 (Bookworm)",
            "12",
            "https://cloud.debian.org/images/cloud/bookworm/latest/debian-12-nocloud-arm64-vmlinuz",
            "https://cloud.debian.org/images/cloud/bookworm/latest/debian-12-nocloud-arm64-initrd",
            "https://cloud.debian.org/images/cloud/bookworm/latest/debian-12-nocloud-arm64.raw",
            250_000_000,
            "console=hvc0 root=/dev/vda1 rw",
        ),
    );
    proof {
        assert(entries_view(c@) =~= catalog_spec());
    }
    c
}

// ---------------------------------------------------------------------------
// Path helpers
// ---------------------------------------------------------------------------

pub open spec fn images_dir_spec(data_dir: Seq<char>) -> Seq<char> {
    join(data_dir, "images"@)
}

pub open spec fn image_dir_spec(data_dir: Seq<char>, image_id: Seq<char>) -> Seq<char> {
    join(images_dir_spec(data_dir), image_id)
}

/// Directory where OS images are stored: `<data_dir>/images/`
pub fn images_dir(data_dir: &str) -> (r: String)
    ensures
        r@ == images_dir_spec(data_dir@),
{
    join_path(data_dir, "images")
}

/// Directory for a specific image: `<data_dir>/images/<image_id>/`
pub fn image_dir(data_dir: &str, image_id: &str) -> (r: String)
    ensures
        r@ == image_dir_spec(data_dir@, image_id@),
{
    let d = images_dir(data_dir);
    join_path(d.as_str(), image_id)
}

/// Return the on-disk paths for a given image id (whether or not the files exist).
pub fn image_paths(data_dir: &str, image_id: &str) -> (p: ImagePaths)
    ensures
        p.kernel_path@ == join(image_dir_spec(data_dir@, image_id@), "vmlinuz"@),
        p.initrd_path@ == join(image_dir_spec(data_dir@, image_id@), "initramfs"@),
        p.rootfs_path@ == join(image_dir_spec(data_dir@, image_id@), "rootfs.img"@),
{
    let dir = image_dir(data_dir, image_id);
    ImagePaths {
        kernel_path: join_path(dir.as_str(), "vmlinuz"),
        initrd_path: join_path(dir.as_str(), "initramfs"),
        rootfs_path: join_path(dir.as_str(), "rootfs.img"),
    }
}

/// The metadata file that tracks download state.
pub fn metadata_path(data_dir: &str, image_id: &str) -> (r: String)
    ensures
        r@ == join(image_dir_spec(data_dir@, image_id@), "metadata.json"@),
{
    let d = image_dir(data_dir, image_id);
    join_path(d.as_str(), "metadata.json")
}

// ---------------------------------------------------------------------------
// Recorded statuses
// ---------------------------------------------------------------------------

/// The status recorded for `id` in `recorded` (the first record for it);
/// `NotDownloaded` when there is none.
pub open spec fn status_of(recorded: Seq<(String, ImageStatus)>, id: Seq<char>) -> ImageStatus
    decreases recorded.len(),
{
    if recorded.len() == 0 {
        ImageStatus::NotDownloaded
    } else if recorded[0].0@ == id {
        recorded[0].1
    } else {
        status_of(recorded.drop_first(), id)
    }
}

/// The status recorded for `image_id`.
pub fn recorded_status(recorded: &Vec<(String, ImageStatus)>, image_id: &str) -> (s: ImageStatus)
    ensures
        s == status_of(recorded@, image_id@),
{
    let mut i: usize = 0;
    proof {
        assert(recorded@.skip(0) =~= recorded@);
    }
    while i < recorded.len()
        invariant
            i <= recorded.len(),
            status_of(recorded@, image_id@) == status_of(recorded@.skip(i as int), image_id@),
        decreases recorded.len() - i,
    {
        proof {
            assert(recorded@.skip(i as int).drop_first() =~= recorded@.skip(i as int + 1));
            assert(recorded@.skip(i as int)[0] == recorded@[i as int]);
        }
        if str_eq(recorded[i].0.as_str(), image_id) {
            return recorded[i].1;
        }
        i = i + 1;
    }
    ImageStatus::NotDownloaded
}

/// The catalog with each entry's recorded status.
pub open spec fn available_spec(recorded: Seq<(String, ImageStatus)>) -> Seq<OsImageEntryView> {
    catalog_spec().map_values(
        |e: OsImageEntryView| OsImageEntryView { status: status_of(recorded, e.id), ..e },
    )
}

/// List all available OS images, with their recorded status.
pub fn list_available_images(recorded: &Vec<(String, ImageStatus)>) -> (c: Vec<OsImageEntry>)
    ensures
        entries_view(c@) == available_spec(recorded@),
{
    let catalog = builtin_catalog();
    let mut c: Vec<OsImageEntry> = Vec::new();
    let mut i: usize = 0;
    while i < catalog.len()
        invariant
            i <= catalog.len(),
            entries_view(catalog@) == catalog_spec(),
            entries_view(c@) == available_spec(recorded@).take(i as int),
        decreases catalog.len() - i,
    {
        let mut e = catalog[i].duplicate();
        e.status = recorded_status(recorded, e.id.as_str());
        let ghost prev = c@;
        proof {
            assert(catalog_spec()[i as int] == entries_view(catalog@)[i as int]);
            assert(entries_view(catalog@)[i as int] == catalog@[i as int]@);
            let ce = catalog_spec()[i as int];
            assert(e@ == OsImageEntryView { status: status_of(recorded@, ce.id), ..ce });
            assert(available_spec(recorded@)[i as int] == OsImageEntryView { status: status_of(recorded@, ce.id), ..ce });
            lemma_entries_push(prev, e);
            assert(available_spec(recorded@).take(i as int + 1) =~= available_spec(recorded@).take(i as int).push(e@));
        }
        c.push(e);
        i = i + 1;
    }
    proof {
        assert(available_spec(recorded@).take(i as int) =~= available_spec(recorded@));
    }
    c
}

proof fn lemma_entries_push(s: Seq<OsImageEntry>, x: OsImageEntry)
    ensures
        entries_view(s.push(x)) == entries_view(s).push(x@),
{
    assert(entries_view(s.push(x)) =~= entries_view(s).push(x@));
}

/// The available entries that are `Ready`, in catalog order.
pub open spec fn ready_only(s: Seq<OsImageEntryView>) -> Seq<OsImageEntryView>
    decreases s.len(),
{
    if s.len() == 0 {
        s
    } else if s.last().status == ImageStatus::Ready {
        ready_only(s.drop_last()).push(s.last())
    } else {
        ready_only(s.drop_last())
    }
}

/// The test for a downloaded image: its status is `Ready`.
pub open spec fn is_ready_entry() -> spec_fn(OsImageEntryView) -> bool {
    |e: OsImageEntryView| e.status == ImageStatus::Ready
}

proof fn lemma_ready_only_is_filter(s: Seq<OsImageEntryView>)
    ensures
        ready_only(s) == s.filter(is_ready_entry()),
    decreases s.len(),
{
    reveal(Seq::filter);
    if s.len() > 0 {
        lemma_ready_only_is_filter(s.drop_last());
    }
}

/// The downloaded images are exactly the catalog entries whose recorded
/// status is `Ready`, in catalog order: the catalog filtered by status;
/// every ready entry is among them, and each of them is a ready catalog
/// entry.
pub proof fn law_downloaded_are_the_ready_entries(recorded: Seq<(String, ImageStatus)>)
    ensures
        ready_only(available_spec(recorded)) == available_spec(recorded).filter(is_ready_entry()),
        forall|i: int|
            0 <= i < available_spec(recorded).len() && (#[trigger] available_spec(recorded)[i]).status
                == ImageStatus::Ready ==> ready_only(available_spec(recorded)).contains(available_spec(recorded)[i]),
        forall|j: int|
            0 <= j < ready_only(available_spec(recorded)).len() ==> (#[trigger] ready_only(
                available_spec(recorded),
            )[j]).status == ImageStatus::Ready && available_spec(recorded).contains(
                ready_only(available_spec(recorded))[j],
            ),
{
    let a = available_spec(recorded);
    let p = is_ready_entry();
    lemma_ready_only_is_filter(a);
    assert forall|i: int| 0 <= i < a.len() && (#[trigger] a[i]).status == ImageStatus::Ready implies a.filter(
        p,
    ).contains(a[i]) by {
        a.lemma_filter_contains(p, i);
    }
    assert forall|j: int| 0 <= j < a.filter(p).len() implies (#[trigger] a.filter(p)[j]).status
        == ImageStatus::Ready && a.contains(a.filter(p)[j]) by {
        a.lemma_filter_pred(p, j);
        assert(a.filter(p).contains(a.filter(p)[j]));
        a.lemma_filter_contains_rev(p, a.filter(p)[j]);
    }
}

/// List only images that have been downloaded and are ready.
pub fn list_downloaded_images(recorded: &Vec<(String, ImageStatus)>) -> (c: Vec<OsImageEntry>)
    ensures
        entries_view(c@) == ready_only(available_spec(recorded@)),
        entries_view(c@) == available_spec(recorded@).filter(is_ready_entry()),
        forall|i: int|
            0 <= i < available_spec(recorded@).len() && (#[trigger] available_spec(recorded@)[i]).status
                == ImageStatus::Ready ==> entries_view(c@).contains(available_spec(recorded@)[i]),
        forall|j: int|
            0 <= j < c@.len() ==> (#[trigger] entries_view(c@)[j]).status == ImageStatus::Ready
                && available_spec(recorded@).contains(entries_view(c@)[j]),
{
    proof {
        law_downloaded_are_the_ready_entries(recorded@);
    }
    let all = list_available_images(recorded);
    let ghost a = entries_view(all@);
    let mut c: Vec<OsImageEntry> = Vec::new();
    let mut i: usize = 0;
    while i < all.len()
        invariant
            i <= all.len(),
            a == entries_view(all@),
            entries_view(c@) == ready_only(a.take(i as int)),
        decreases all.len() - i,
    {
        proof {
            assert(a.take(i as int + 1).drop_last() =~= a.take(i as int));
            assert(a.take(i as int + 1).last() == all@[i as int]@);
        }
        if all[i].status == ImageStatus::Ready {
            let ghost prev = c@;
            let x = all[i].duplicate();
            proof {
                lemma_entries_push(prev, x);
            }
            c.push(x);
        }
        i = i + 1;
    }
    proof {
        assert(a.take(i as int) =~= a);
    }
    c
}

/// The first available entry with id `id`.
pub open spec fn find_spec(s: Seq<OsImageEntryView>, id: Seq<char>) -> Option<OsImageEntryView>
    decreases s.len(),
{
    if s.len() == 0 {
        None
    } else if s[0].id == id {
        Some(s[0])
    } else {
        find_spec(s.drop_first(), id)
    }
}

/// Find a catalog entry by id, with its recorded status.
pub fn find_image(id: &str, recorded: &Vec<(String, ImageStatus)>) -> (r: Option<OsImageEntry>)
    ensures
        match r {
            Some(e) => find_spec(available_spec(recorded@), id@) == Some(e@),
            None => find_spec(available_spec(recorded@), id@) is None,
        },
{
    let all = list_available_images(recorded);
    let ghost a = entries_view(all@);
    let mut i: usize = 0;
    proof {
        assert(a.skip(0) =~= a);
    }
    while i < all.len()
        invariant
            i <= all.len(),
            a == entries_view(all@),
            a == available_spec(recorded@),
            find_spec(a, id@) == find_spec(a.skip(i as int), id@),
        decreases all.len() - i,
    {
        proof {
            assert(a.skip(i as int).drop_first() =~= a.skip(i as int + 1));
            assert(a.skip(i as int)[0] == all@[i as int]@);
        }
        if str_eq(all[i].id.as_str(), id) {
            return Some(all[i].duplicate());
        }
        i = i + 1;
    }
    None
}

/// Check if an image is downloaded and ready.
pub fn is_image_ready(image_id: &str, recorded: &Vec<(String, ImageStatus)>) -> (b: bool)
    ensures
        b == (status_of(recorded@, image_id@) == ImageStatus::Ready),
{
    recorded_status(recorded, image_id) == ImageStatus::Ready
}

// ---------------------------------------------------------------------------
// Download progress
// ---------------------------------------------------------------------------

/// Sum of a sequence of sizes.
pub open spec fn total_size(s: Seq<u64>) -> nat
    decreases s.len(),
{
    if s.len() == 0 {
        0
    } else {
        total_size(s.drop_last()) + s.last() as nat
    }
}

/// The catalog size of `image_id`, 0 for an image not in the catalog.
pub open spec fn catalog_size(image_id: Seq<char>) -> u64 {
    match find_spec(catalog_spec(), image_id) {
        Some(e) => e.size_bytes,
        None => 0,
    }
}

fn catalog_size_of(image_id: &str) -> (n: u64)
    ensures
        n == catalog_size(image_id@),
{
    let empty: Vec<(String, ImageStatus)> = Vec::new();
    match find_image(image_id, &empty) {
        Some(e) => {
            proof {
                lemma_find_available_size(empty@, image_id@, catalog_spec());
            }
            e.size_bytes
        },
        None => {
            proof {
                lemma_find_available_size(empty@, image_id@, catalog_spec());
            }
            0
        },
    }
}

proof fn lemma_find_available_size(
    recorded: Seq<(String, ImageStatus)>,
    id: Seq<char>,
    c: Seq<OsImageEntryView>,
)
    ensures
        match (
            find_spec(
                c.map_values(
                    |e: OsImageEntryView| OsImageEntryView { status: status_of(recorded, e.id), ..e },
                ),
                id,
            ),
            find_spec(c, id),
        ) {
            (Some(a), Some(b)) => a.size_bytes == b.size_bytes,
            (None, None) => true,
            _ => false,
        },
    decreases c.len(),
{
    let f = |e: OsImageEntryView| OsImageEntryView { status: status_of(recorded, e.id), ..e };
    if c.len() > 0 {
        assert(c.map_values(f).drop_first() =~= c.drop_first().map_values(f));
        lemma_find_available_size(recorded, id, c.drop_first());
    }
}

/// Progress of an image download as the status and the file sizes on disk
/// show it: complete when `Ready`, the sum of the sizes of the files
/// present while `Downloading`, nothing otherwise.
pub fn read_download_progress(image_id: &str, status: ImageStatus, file_sizes: &Vec<u64>) -> (p:
    DownloadProgress)
    requires
        total_size(file_sizes@) <= u64::MAX,
    ensures
        p.image_id@ == image_id@,
        p.bytes_total == catalog_size(image_id@),
        p.error is None,
        match status {
            ImageStatus::Ready => {
                &&& p.current_file@ == "done"@
                &&& p.bytes_downloaded == p.bytes_total
                &&& p.done
            },
            ImageStatus::Downloading => {
                &&& p.current_file@ == "downloading"@
                &&& p.bytes_downloaded == total_size(file_sizes@)
                &&& !p.done
            },
            ImageStatus::NotDownloaded => {
                &&& p.current_file@ == ""@
                &&& p.bytes_downloaded == 0
                &&& !p.done
            },
        },
{
    let total = catalog_size_of(image_id);
    match status {
        ImageStatus::Ready => DownloadProgress {
            image_id: owned(image_id),
            current_file: owned("done"),
            bytes_downloaded: total,
            bytes_total: total,
            done: true,
            error: None,
        },
        ImageStatus::Downloading => {
            let mut downloaded: u64 = 0;
            let mut i: usize = 0;
            while i < file_sizes.len()
                invariant
                    i <= file_sizes.len(),
                    downloaded as nat == total_size(file_sizes@.take(i as int)),
                    total_size(file_sizes@) <= u64::MAX,
                decreases file_sizes.len() - i,
            {
                proof {
                    assert(file_sizes@.take(i as int + 1).drop_last() =~= file_sizes@.take(i as int));
                    lemma_total_size_prefix(file_sizes@, i as int + 1);
                }
                downloaded = downloaded + file_sizes[i];
                i = i + 1;
            }
            proof {
                assert(file_sizes@.take(i as int) =~= file_sizes@);
            }
            DownloadProgress {
                image_id: owned(image_id),
                current_file: owned("downloading"),
                bytes_downloaded: downloaded,
                bytes_total: total,
                done: false,
                error: None,
            }
        },
        ImageStatus::NotDownloaded => DownloadProgress {
            image_id: owned(image_id),
            current_file: owned(""),
            bytes_downloaded: 0,
            bytes_total: total,
            done: false,
            error: None,
        },
    }
}

proof fn lemma_total_size_prefix(s: Seq<u64>, k: int)
    requires
        0 <= k <= s.len(),
    ensures
        total_size(s.take(k)) <= total_size(s),
    decreases s.len() - k,
{
    if k < s.len() {
        lemma_total_size_prefix(s, k + 1);
        assert(s.take(k + 1).drop_last() =~= s.take(k));
    } else {
        assert(s.take(k) =~= s);
    }
}

/// A download whose expected checksum is given (non-empty) must match the
/// digest that was computed; an empty expectation accepts any digest.
pub fn check_checksum(expected: &str, actual: &str) -> (r: Result<(), ImageError>)
    ensures
        match r {
            Ok(()) => expected@.len() == 0 || expected@ == actual@,
            Err(e) => {
                &&& expected@.len() != 0
                &&& expected@ != actual@
                &&& e matches ImageError::ChecksumMismatch { expected: x, actual: y }
                &&& x@ == expected@
                &&& y@ == actual@
            },
        },
{
    let ev = crate::text::chars_of(expected);
    if ev.len() == 0 || str_eq(expected, actual) {
        return Ok(());
    }
    Err(ImageError::ChecksumMismatch { expected: owned(expected), actual: owned(actual) })
}

// ---------------------------------------------------------------------------
// Checksums
// ---------------------------------------------------------------------------

/// The SHA-256 digest of `data`.
pub uninterp spec fn sha256_digest(data: Seq<u8>) -> Seq<u8>;

/// SHA-256 of `data`, by `sha2::Sha256::digest`. Claims that the result is
/// the digest that `sha256_digest` names and that it has 32 bytes (the
/// hasher's `OutputSize` is `U32`); the hash function itself is not
/// restated.
#[verifier::external_body]
fn sha256(data: &[u8]) -> (r: Vec<u8>)
    ensures
        r@ == sha256_digest(data@),
        r@.len() == 32,
{
    sha2::Sha256::digest(data).to_vec()
}

/// A lowercase hexadecimal digit.
pub open spec fn hex_digit(n: nat) -> char {
    if n < 10 {
        (48 + n) as char
    } else {
        (87 + n) as char
    }
}

/// Bytes as lowercase hexadecimal, two digits per byte, as `{:x}` prints a
/// digest.
pub open spec fn hex_of(s: Seq<u8>) -> Seq<char>
    decreases s.len(),
{
    if s.len() == 0 {
        Seq::empty()
    } else {
        hex_of(s.drop_last()) + seq![hex_digit((s.last() / 16) as nat), hex_digit((s.last() % 16) as nat)]
    }
}

fn hex_char(n: u8) -> (c: char)
    requires
        n < 16,
    ensures
        c == hex_digit(n as nat),
{
    if n < 10 {
        let b: u8 = 48 + n;
        b as char
    } else {
        let b: u8 = 87 + n;
        b as char
    }
}

/// Bytes as lowercase hexadecimal.
pub fn hex_lower(bytes: &Vec<u8>) -> (r: String)
    ensures
        r@ == hex_of(bytes@),
        r@.len() == 2 * bytes@.len(),
{
    let mut out: Vec<char> = Vec::new();
    let mut i: usize = 0;
    while i < bytes.len()
        invariant
            i <= bytes.len(),
            out@ == hex_of(bytes@.take(i as int)),
            out@.len() == 2 * i,
        decreases bytes.len() - i,
    {
        let b = bytes[i];
        proof {
            assert(bytes@.take(i as int + 1).drop_last() =~= bytes@.take(i as int));
        }
        out.push(hex_char(b / 16));
        out.push(hex_char(b % 16));
        proof {
            assert(out@ =~= hex_of(bytes@.take(i as int + 1)));
        }
        i = i + 1;
    }
    proof {
        assert(bytes@.take(i as int) =~= bytes@);
    }
    crate::text::string_of(&out)
}

/// The SHA-256 digest of `data` in lowercase hexadecimal.
pub fn sha256_hex(data: &[u8]) -> (r: String)
    ensures
        r@ == hex_of(sha256_digest(data@)),
        r@.len() == 64,
{
    let d = sha256(data);
    hex_lower(&d)
}

/// Checks a downloaded file against the checksum of its catalog entry: an
/// empty checksum accepts anything; otherwise the file's SHA-256 must be
/// it, else `ChecksumMismatch` with both values.
pub fn verify_image_file(expected: &str, contents: &[u8]) -> (r: Result<(), ImageError>)
    ensures
        expected@.len() == 0 ==> r is Ok,
        expected@.len() != 0 ==> match r {
            Ok(()) => expected@ == hex_of(sha256_digest(contents@)),
            Err(e) => {
                &&& expected@ != hex_of(sha256_digest(contents@))
                &&& e matches ImageError::ChecksumMismatch { expected: x, actual: y }
                &&& x@ == expected@
                &&& y@ == hex_of(sha256_digest(contents@))
            },
        },
{
    if crate::text::chars_of(expected).len() == 0 {
        return Ok(());
    }
    let actual = sha256_hex(contents);
    check_checksum(expected, actual.as_str())
}

// ---------------------------------------------------------------------------
// Downloads
// ---------------------------------------------------------------------------

/// One file of an image download: where it comes from, where it goes, the
/// checksum it must have (empty for none) and how progress names it.
#[derive(Debug)]
pub struct DownloadFile {
    pub url: String,
    pub dest: String,
    pub sha256: String,
    pub label: String,
}

pub open spec fn download_file_matches(
    f: DownloadFile,
    url: Seq<char>,
    dest: Seq<char>,
    sha: Seq<char>,
    label: Seq<char>,
) -> bool {
    f.url@ == url && f.dest@ == dest && f.sha256@ == sha && f.label@ == label
}

/// A planned download: the files to fetch, the total size that progress
/// is reported against, and the paths the download yields.
#[derive(Debug)]
pub struct DownloadPlan {
    pub files: Vec<DownloadFile>,
    pub total: u64,
    pub paths: ImagePaths,
}

/// What a download of `image_id` fetches: kernel, initrd and root file
/// system, in that order, into the image's directory; progress is reported
/// against the catalog entry's size, and a completed download yields the
/// image's paths. Refused with `NotFound` for an id outside the catalog and
/// with `DownloadFailed` while a download of it is in progress.
pub fn plan_download(image_id: &str, recorded: &Vec<(String, ImageStatus)>, data_dir: &str) -> (r:
    Result<DownloadPlan, ImageError>)
    ensures
        match find_spec(catalog_spec(), image_id@) {
            None => r matches Err(ImageError::NotFound(m)) && m@ == image_id@,
            Some(e) => if status_of(recorded@, image_id@) == ImageStatus::Downloading {
                r matches Err(ImageError::DownloadFailed(m)) && m@ == "Download already in progress"@
            } else {
                &&& r matches Ok(plan)
                &&& plan.total == e.size_bytes
                &&& plan.paths.kernel_path@ == join(image_dir_spec(data_dir@, image_id@), "vmlinuz"@)
                &&& plan.paths.initrd_path@ == join(image_dir_spec(data_dir@, image_id@), "initramfs"@)
                &&& plan.paths.rootfs_path@ == join(image_dir_spec(data_dir@, image_id@), "rootfs.img"@)
                &&& plan.files@.len() == 3
                &&& download_file_matches(
                    plan.files@[0],
                    e.kernel_url,
                    join(image_dir_spec(data_dir@, image_id@), "vmlinuz"@),
                    e.kernel_sha256,
                    "kernel"@,
                )
                &&& download_file_matches(
                    plan.files@[1],
                    e.initrd_url,
                    join(image_dir_spec(data_dir@, image_id@), "initramfs"@),
                    e.initrd_sha256,
                    "initrd"@,
                )
                &&& download_file_matches(
                    plan.files@[2],
                    e.rootfs_url,
                    join(image_dir_spec(data_dir@, image_id@), "rootfs.img"@),
                    e.rootfs_sha256,
                    "rootfs"@,
                )
            },
        },
{
    let empty: Vec<(String, ImageStatus)> = Vec::new();
    let entry = match find_image(image_id, &empty) {
        Some(e) => e,
        None => {
            proof {
                lemma_find_available(empty@, image_id@, catalog_spec());
            }
            return Err(ImageError::NotFound(owned(image_id)));
        },
    };
    proof {
        lemma_find_available(empty@, image_id@, catalog_spec());
    }
    if recorded_status(recorded, image_id) == ImageStatus::Downloading {
        return Err(ImageError::DownloadFailed(owned("Download already in progress")));
    }
    let paths = image_paths(data_dir, image_id);
    let result_paths = image_paths(data_dir, image_id);
    let total = entry.size_bytes;
    let mut files: Vec<DownloadFile> = Vec::new();
    files.push(
        DownloadFile {
            url: entry.kernel_url,
            dest: paths.kernel_path,
            sha256: entry.kernel_sha256,
            label: owned("kernel"),
        },
    );
    files.push(
        DownloadFile {
            url: entry.initrd_url,
            dest: paths.initrd_path,
            sha256: entry.initrd_sha256,
            label: owned("initrd"),
        },
    );
    files.push(
        DownloadFile {
            url: entry.rootfs_url,
            dest: paths.rootfs_path,
            sha256: entry.rootfs_sha256,
            label: owned("rootfs"),
        },
    );
    Ok(DownloadPlan { files, total, paths: result_paths })
}

/// Looking an id up among the available images finds the catalog entry
/// with that id, with its recorded status.
proof fn lemma_find_available(
    recorded: Seq<(String, ImageStatus)>,
    id: Seq<char>,
    c: Seq<OsImageEntryView>,
)
    ensures
        match find_spec(c, id) {
            None => find_spec(
                c.map_values(|e: OsImageEntryView| OsImageEntryView { status: status_of(recorded, e.id), ..e }),
                id,
            ) is None,
            Some(e) => find_spec(
                c.map_values(|e: OsImageEntryView| OsImageEntryView { status: status_of(recorded, e.id), ..e }),
                id,
            ) == Some(OsImageEntryView { status: status_of(recorded, e.id), ..e }),
        },
    decreases c.len(),
{
    let f = |e: OsImageEntryView| OsImageEntryView { status: status_of(recorded, e.id), ..e };
    if c.len() > 0 {
        assert(c.map_values(f).drop_first() =~= c.drop_first().map_values(f));
        lemma_find_available(recorded, id, c.drop_first());
    }
}

// ---------------------------------------------------------------------------
// Laws
// ---------------------------------------------------------------------------

/// An image id is found in a list that holds an entry with that id.
proof fn lemma_find_present(s: Seq<OsImageEntryView>, k: int)
    requires
        0 <= k < s.len(),
    ensures
        find_spec(s, s[k].id) matches Some(e) && e.id == s[k].id,
    decreases s.len(),
{
    if s[0].id != s[k].id {
        assert(s.drop_first()[k - 1] == s[k]);
        lemma_find_present(s.drop_first(), k - 1);
    }
}

/// Every catalog entry can be looked up by its id, whatever the recorded
/// statuses.
pub proof fn law_catalog_entries_are_found(recorded: Seq<(String, ImageStatus)>, k: int)
    requires
        0 <= k < catalog_spec().len(),
    ensures
        find_spec(available_spec(recorded), catalog_spec()[k].id) matches Some(e) && e.id
            == catalog_spec()[k].id,
{
    let s = available_spec(recorded);
    assert(s[k].id == catalog_spec()[k].id);
    lemma_find_present(s, k);
}

/// The files of an image lie under the data directory (for an id that is
/// not an absolute path).
pub proof fn law_image_paths_under_data_dir(data_dir: Seq<char>, image_id: Seq<char>)
    requires
        relative(image_id),
    ensures
        has_prefix(join(image_dir_spec(data_dir, image_id), "vmlinuz"@), data_dir),
        has_prefix(join(image_dir_spec(data_dir, image_id), "initramfs"@), data_dir),
        has_prefix(join(image_dir_spec(data_dir, image_id), "rootfs.img"@), data_dir),
{
    reveal_strlit("images");
    reveal_strlit("vmlinuz");
    reveal_strlit("initramfs");
    reveal_strlit("rootfs.img");
    let dir = image_dir_spec(data_dir, image_id);
    law_join2_keeps_base(data_dir, "images"@, image_id);
    crate::store::law_join_keeps_base(dir, "vmlinuz"@);
    crate::store::law_join_keeps_base(dir, "initramfs"@);
    crate::store::law_join_keeps_base(dir, "rootfs.img"@);
    crate::store::lemma_prefix_trans(data_dir, dir, join(dir, "vmlinuz"@));
    crate::store::lemma_prefix_trans(data_dir, dir, join(dir, "initramfs"@));
    crate::store::lemma_prefix_trans(data_dir, dir, join(dir, "rootfs.img"@));
}

// ---------------------------------------------------------------------------
// Following a download
// ---------------------------------------------------------------------------

/// Where a download stands: the file being fetched (an index into the
/// plan) and the bytes received over all files so far.
#[derive(Debug, Clone, Copy, PartialEq, Eq, Structural)]
pub struct DownloadState {
    pub file: usize,
    pub downloaded: u64,
}

/// What happened to the file being fetched.
#[derive(Debug)]
pub enum DownloadEvent {
    /// The server answered; `status` is how the HTTP status prints.
    Response { success: bool, status: String },
    /// A chunk of this many bytes arrived and was written.
    Chunk(u64),
    /// Reading the body failed.
    StreamError(String),
    /// The body is complete; `digest` is its SHA-256 in lowercase hex.
    Finished { digest: String },
}

/// What the download does next.
#[derive(Debug)]
pub enum DownloadAction {
    /// Report progress: the label of the file being fetched, the bytes so
    /// far and the total expected.
    Report { label: String, downloaded: u64, total: u64 },
    /// Stop with this error; `reset` says whether the image is to be marked
    /// not downloaded again.
    Fail { error: ImageError, reset: bool },
    /// The server accepted the request: read the body.
    Receive,
    /// Every file is in: mark the image ready, make this last report
    /// (`done`, the total, the total) and yield the planned paths.
    Complete { label: String, downloaded: u64, total: u64 },
}

/// The first report of a download.
pub fn download_start(files: &Vec<DownloadFile>, total: u64) -> (r: (DownloadState, DownloadAction))
    requires
        files@.len() > 0,
    ensures
        r.0 == (DownloadState { file: 0, downloaded: 0 }),
        r.1 matches DownloadAction::Report { label, downloaded, total: t } && label@ == files@[0].label@
            && downloaded == 0 && t == total,
{
    (
        DownloadState { file: 0, downloaded: 0 },
        DownloadAction::Report { label: clone_string(&files[0].label), downloaded: 0, total },
    )
}

/// Advances a download by one event: an accepted response lets the body be
/// read; a failed response stops it (marking
/// the image not downloaded) with the file's label and the status; each
/// chunk adds to the bytes received and is reported; a failed read stops
/// it (leaving the status as it is); a finished file whose checksum is
/// given and differs stops it (marking the image not downloaded), else
/// the next file is reported, or the download completes after the last
/// with the report (`done`, total, total).
pub fn download_step(files: &Vec<DownloadFile>, total: u64, state: DownloadState, event: DownloadEvent) -> (r: (
    DownloadState,
    DownloadAction,
))
    requires
        state.file < files@.len(),
        event matches DownloadEvent::Chunk(n) ==> state.downloaded + n <= u64::MAX,
    ensures
        ({
            let label = files@[state.file as int].label@;
            match event {
                DownloadEvent::Response { success, status } => if success {
                    r.0 == state && r.1 is Receive
                } else {
                    r.0 == state && (r.1 matches DownloadAction::Fail { error: ImageError::DownloadFailed(m), reset }
                        && reset && m@ == label + ": HTTP "@ + status@)
                },
                DownloadEvent::Chunk(n) => r.0 == (DownloadState { file: state.file, downloaded: (state.downloaded + n) as u64 })
                    && (r.1 matches DownloadAction::Report { label: l, downloaded, total: t } && l@ == label
                    && downloaded == state.downloaded + n && t == total),
                DownloadEvent::StreamError(e) => r.0 == state && (r.1 matches DownloadAction::Fail {
                    error: ImageError::DownloadFailed(m),
                    reset,
                } && !reset && m@ == label + ": "@ + e@),
                DownloadEvent::Finished { digest } => {
                    let expected = files@[state.file as int].sha256@;
                    if expected.len() != 0 && expected != digest@ {
                        r.0 == state && (r.1 matches DownloadAction::Fail {
                            error: ImageError::ChecksumMismatch { expected: x, actual: y },
                            reset,
                        } && reset && x@ == expected && y@ == digest@)
                    } else if state.file + 1 < files@.len() {
                        r.0 == (DownloadState { file: (state.file + 1) as usize, downloaded: state.downloaded })
                            && (r.1 matches DownloadAction::Report { label: l, downloaded, total: t } && l@
                            == files@[state.file + 1].label@ && downloaded == state.downloaded && t == total)
                    } else {
                        r.0 == state && (r.1 matches DownloadAction::Complete { label: l, downloaded, total: t }
                            && l@ == "done"@ && downloaded == total && t == total)
                    }
                },
            }
        }),
{
    let label = &files[state.file].label;
    match event {
        DownloadEvent::Response { success, status } => {
            if success {
                (state, DownloadAction::Receive)
            } else {
                let a = concat(label.as_str(), ": HTTP ");
                (
                    state,
                    DownloadAction::Fail {
                        error: ImageError::DownloadFailed(concat(a.as_str(), status.as_str())),
                        reset: true,
                    },
                )
            }
        },
        DownloadEvent::Chunk(n) => {
            let next = DownloadState { file: state.file, downloaded: state.downloaded + n };
            (next, DownloadAction::Report { label: clone_string(label), downloaded: next.downloaded, total })
        },
        DownloadEvent::StreamError(e) => {
            let a = concat(label.as_str(), ": ");
            (
                state,
                DownloadAction::Fail { error: ImageError::DownloadFailed(concat(a.as_str(), e.as_str())), reset: false },
            )
        },
        DownloadEvent::Finished { digest } => {
            let expected = &files[state.file].sha256;
            if crate::text::chars_of(expected.as_str()).len() != 0 && !str_eq(expected.as_str(), digest.as_str()) {
                (
                    state,
                    DownloadAction::Fail {
                        error: ImageError::ChecksumMismatch { expected: clone_string(expected), actual: digest },
                        reset: true,
                    },
                )
            } else if state.file < files.len() - 1 {
                let next = DownloadState { file: state.file + 1, downloaded: state.downloaded };
                (
                    next,
                    DownloadAction::Report {
                        label: clone_string(&files[state.file + 1].label),
                        downloaded: state.downloaded,
                        total,
                    },
                )
            } else {
                (state, DownloadAction::Complete { label: owned("done"), downloaded: total, total })
            }
        },
    }
}

// ---------------------------------------------------------------------------
// A whole download
// ---------------------------------------------------------------------------

/// What fetching one file gave: whether the server accepted the request
/// (and how its status prints), the sizes of the chunks that arrived, the
/// error that ended the body early (if any), and the SHA-256 of the body
/// in lowercase hex. [`file_fetch`] makes one from the body's chunks.
#[derive(Debug)]
pub struct FileFetch {
    pub accepted: bool,
    pub status: String,
    pub chunks: Vec<u64>,
    pub stream_error: Option<String>,
    pub digest: String,
}

/// How a download ended.
pub enum DownloadEnd {
    /// Every file is in.
    Done,
    /// The server refused a file: the file's label and the status.
    Refused(Seq<char>, Seq<char>),
    /// Reading a body failed: the file's label and the error.
    Broken(Seq<char>, Seq<char>),
    /// A body had the wrong checksum: expected and actual.
    Mismatch(Seq<char>, Seq<char>),
}

/// The bytes of `chunks` up to (not including) index `j`.
pub open spec fn chunk_sum(chunks: Seq<u64>, j: int) -> nat
    decreases j,
{
    if j <= 0 || chunks.len() == 0 {
        0
    } else {
        chunk_sum(chunks, j - 1) + chunks[j - 1] as nat
    }
}

/// The progress reports of one file: one before it is requested, then one
/// after each chunk, with the bytes received over all files.
pub open spec fn file_reports(label: Seq<char>, before: nat, chunks: Seq<u64>, total: u64, accepted: bool) -> Seq<
    (Seq<char>, nat, u64),
> {
    seq![(label, before, total)] + if accepted {
        Seq::new(chunks.len(), |j: int| (label, before + chunk_sum(chunks, j + 1), total))
    } else {
        Seq::empty()
    }
}

/// The reports and the end of a download of `files` from file `k` on, with
/// `before` bytes received so far: each file is reported, requested and
/// read; a refusal, a broken body or a wrong checksum (when one is given)
/// ends it; after the last file comes the report (`done`, total, total).
pub open spec fn download_run(
    files: Seq<DownloadFile>,
    fetches: Seq<FileFetch>,
    k: int,
    before: nat,
    total: u64,
) -> (Seq<(Seq<char>, nat, u64)>, DownloadEnd)
    decreases files.len() - k,
{
    if k < 0 || k >= files.len() {
        (seq![("done"@, total as nat, total)], DownloadEnd::Done)
    } else {
        let f = fetches[k];
        let label = files[k].label@;
        let reports = file_reports(label, before, f.chunks@, total, f.accepted);
        let after = before + chunk_sum(f.chunks@, f.chunks@.len() as int);
        if !f.accepted {
            (reports, DownloadEnd::Refused(label, f.status@))
        } else if f.stream_error is Some {
            (reports, DownloadEnd::Broken(label, f.stream_error->0@))
        } else if files[k].sha256@.len() != 0 && files[k].sha256@ != f.digest@ {
            (reports, DownloadEnd::Mismatch(files[k].sha256@, f.digest@))
        } else {
            let rest = download_run(files, fetches, k + 1, after, total);
            (reports + rest.0, rest.1)
        }
    }
}

/// All the bytes that the fetches received.
pub open spec fn fetched_bytes(fetches: Seq<FileFetch>, k: int) -> nat
    decreases k,
{
    if k <= 0 || fetches.len() == 0 {
        0
    } else {
        fetched_bytes(fetches, k - 1) + chunk_sum(fetches[k - 1].chunks@, fetches[k - 1].chunks@.len() as int)
    }
}

pub open spec fn reports_view(r: Seq<(String, u64, u64)>) -> Seq<(Seq<char>, nat, u64)> {
    r.map_values(|x: (String, u64, u64)| (x.0@, x.1 as nat, x.2))
}

proof fn lemma_chunk_sum_mono(chunks: Seq<u64>, a: int, b: int)
    requires
        0 <= a <= b <= chunks.len(),
    ensures
        chunk_sum(chunks, a) <= chunk_sum(chunks, b),
    decreases b - a,
{
    if a < b {
        lemma_chunk_sum_mono(chunks, a, b - 1);
    }
}

proof fn lemma_fetched_mono(fetches: Seq<FileFetch>, a: int, b: int)
    requires
        0 <= a <= b <= fetches.len(),
    ensures
        fetched_bytes(fetches, a) <= fetched_bytes(fetches, b),
    decreases b - a,
{
    if a < b {
        lemma_fetched_mono(fetches, a, b - 1);
    }
}

/// Runs a whole download of `plan` over what fetching each file gave, in
/// order: the progress reports it makes, whether the image ends ready, and
/// the result: the planned paths when every file is in, else the error of
/// the file that ended it. `reset` says whether the image is then marked
/// not downloaded again (a refusal or a wrong checksum), as opposed to left
/// as it was (a broken body).
pub fn run_download(plan: DownloadPlan, fetches: &Vec<FileFetch>) -> (r: (
    Vec<(String, u64, u64)>,
    Result<ImagePaths, ImageError>,
    bool,
))
    requires
        fetches@.len() == plan.files@.len(),
        fetched_bytes(fetches@, fetches@.len() as int) <= u64::MAX,
    ensures
        ({
            let run = download_run(plan.files@, fetches@, 0, 0, plan.total);
            &&& reports_view(r.0@) == run.0
            &&& match run.1 {
                DownloadEnd::Done => r.1 matches Ok(p) && p.kernel_path@ == plan.paths.kernel_path@
                    && p.initrd_path@ == plan.paths.initrd_path@ && p.rootfs_path@ == plan.paths.rootfs_path@,
                DownloadEnd::Refused(l, st) => r.1 matches Err(ImageError::DownloadFailed(m)) && m@ == l
                    + ": HTTP "@ + st && r.2,
                DownloadEnd::Broken(l, e) => r.1 matches Err(ImageError::DownloadFailed(m)) && m@ == l + ": "@
                    + e && !r.2,
                DownloadEnd::Mismatch(x, y) => r.1 matches Err(ImageError::ChecksumMismatch { expected, actual })
                    && expected@ == x && actual@ == y && r.2,
            }
        }),
{
    let files = &plan.files;
    let total = plan.total;
    let mut reports: Vec<(String, u64, u64)> = Vec::new();
    let mut before: u64 = 0;
    let mut k: usize = 0;
    while k < files.len()
        invariant
            fetches@.len() == files@.len(),
            files@ == plan.files@,
            total == plan.total,
            fetched_bytes(fetches@, fetches@.len() as int) <= u64::MAX,
            k <= files@.len(),
            before as nat == fetched_bytes(fetches@, k as int),
            download_run(files@, fetches@, 0, 0, total) == (
                reports_view(reports@) + download_run(files@, fetches@, k as int, before as nat, total).0,
                download_run(files@, fetches@, k as int, before as nat, total).1,
            ),
        decreases files.len() - k,
    {
        let f = &fetches[k];
        let label = &files[k].label;
        let ghost rest = download_run(files@, fetches@, k as int, before as nat, total);
        let ghost start = reports@;
        reports.push((clone_string(label), before, total));
        proof {
            lemma_fetched_mono(fetches@, k as int + 1, fetches@.len() as int);
        }
        if !f.accepted {
            proof {
                assert(reports_view(reports@) =~= reports_view(start) + rest.0);
            }
            let a = concat(label.as_str(), ": HTTP ");
            return (reports, Err(ImageError::DownloadFailed(concat(a.as_str(), f.status.as_str()))), true);
        }
        let mut j: usize = 0;
        let mut cum: u64 = before;
        while j < f.chunks.len()
            invariant
                j <= f.chunks@.len(),
                cum as nat == before + chunk_sum(f.chunks@, j as int),
                before as nat + chunk_sum(f.chunks@, f.chunks@.len() as int) <= u64::MAX,
                reports_view(reports@) == reports_view(start) + file_reports(
                    label@,
                    before as nat,
                    f.chunks@,
                    total,
                    true,
                ).take(j as int + 1),
            decreases f.chunks.len() - j,
        {
            proof {
                lemma_chunk_sum_mono(f.chunks@, j as int + 1, f.chunks@.len() as int);
            }
            cum = cum + f.chunks[j];
            let ghost prev = reports@;
            reports.push((clone_string(label), cum, total));
            proof {
                assert(reports_view(reports@) =~= reports_view(prev).push((label@, cum as nat, total)));
                assert(file_reports(label@, before as nat, f.chunks@, total, true).take(j as int + 2) =~= file_reports(
                    label@,
                    before as nat,
                    f.chunks@,
                    total,
                    true,
                ).take(j as int + 1).push((label@, cum as nat, total)));
            }
            j = j + 1;
        }
        proof {
            assert(file_reports(label@, before as nat, f.chunks@, total, true).take(j as int + 1) =~= file_reports(
                label@,
                before as nat,
                f.chunks@,
                total,
                true,
            ));
        }
        match &f.stream_error {
            Some(e) => {
                let a = concat(label.as_str(), ": ");
                return (reports, Err(ImageError::DownloadFailed(concat(a.as_str(), e.as_str()))), false);
            },
            None => {},
        }
        let expected = &files[k].sha256;
        if chars_of(expected.as_str()).len() != 0 && !str_eq(expected.as_str(), f.digest.as_str()) {
            return (
                reports,
                Err(ImageError::ChecksumMismatch { expected: clone_string(expected), actual: clone_string(&f.digest) }),
                true,
            );
        }
        proof {
            let next = download_run(files@, fetches@, k as int + 1, cum as nat, total);
            assert(rest == (file_reports(label@, before as nat, f.chunks@, total, true) + next.0, next.1));
            assert(reports_view(start) + rest.0 =~= reports_view(reports@) + next.0);
        }
        before = cum;
        k = k + 1;
    }
    let ghost start = reports@;
    reports.push((owned("done"), total, total));
    proof {
        assert(reports_view(reports@) =~= reports_view(start) + download_run(files@, fetches@, k as int, before as nat, total).0);
    }
    let paths = ImagePaths {
        kernel_path: clone_string(&plan.paths.kernel_path),
        initrd_path: clone_string(&plan.paths.initrd_path),
        rootfs_path: clone_string(&plan.paths.rootfs_path),
    };
    (reports, Ok(paths), false)
}

/// The bytes of all `chunks`, in order.
pub open spec fn joined_bytes(chunks: Seq<Seq<u8>>) -> Seq<u8>
    decreases chunks.len(),
{
    if chunks.len() == 0 {
        Seq::empty()
    } else {
        joined_bytes(chunks.drop_last()) + chunks.last()
    }
}

pub open spec fn chunk_views(chunks: Seq<Vec<u8>>) -> Seq<Seq<u8>> {
    chunks.map_values(|c: Vec<u8>| c@)
}

/// What fetching one file gave, from the response and the body's chunks as
/// they arrived: the chunk sizes, and the SHA-256 of the whole body in
/// lowercase hex.
pub fn file_fetch(accepted: bool, status: String, chunks: &Vec<Vec<u8>>, stream_error: Option<String>) -> (f: FileFetch)
    ensures
        f.accepted == accepted,
        f.status@ == status@,
        f.stream_error == stream_error,
        f.chunks@.len() == chunks@.len(),
        forall|j: int| 0 <= j < chunks@.len() ==> #[trigger] f.chunks@[j] == chunks@[j]@.len(),
        f.digest@ == hex_of(sha256_digest(joined_bytes(chunk_views(chunks@)))),
{
    let ghost cv = chunk_views(chunks@);
    let mut sizes: Vec<u64> = Vec::new();
    let mut body: Vec<u8> = Vec::new();
    let mut i: usize = 0;
    while i < chunks.len()
        invariant
            i <= chunks@.len(),
            cv == chunk_views(chunks@),
            sizes@.len() == i,
            forall|j: int| 0 <= j < i ==> #[trigger] sizes@[j] == chunks@[j]@.len(),
            body@ == joined_bytes(cv.take(i as int)),
        decreases chunks.len() - i,
    {
        let c = &chunks[i];
        sizes.push(c.len() as u64);
        let ghost before = body@;
        let mut k: usize = 0;
        while k < c.len()
            invariant
                k <= c@.len(),
                body@ == before + c@.take(k as int),
            decreases c.len() - k,
        {
            body.push(c[k]);
            proof {
                assert(c@.take(k as int + 1) =~= c@.take(k as int).push(c@[k as int]));
            }
            k = k + 1;
        }
        proof {
            assert(c@.take(k as int) =~= c@);
            assert(cv[i as int] == c@);
            assert(cv.take(i as int + 1).drop_last() =~= cv.take(i as int));
        }
        i = i + 1;
    }
    proof {
        assert(cv.take(i as int) =~= cv);
    }
    let digest = sha256_hex(body.as_slice());
    FileFetch { accepted, status, chunks: sizes, stream_error, digest }
}

} // verus!

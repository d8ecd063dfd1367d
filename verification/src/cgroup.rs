//! The layout of the control-group filesystem: which API version and which
//! Docker driver are in use, where each resource's containers are listed, and
//! how a directory's name gives the container's identifier.

use vstd::prelude::*;
use vstd::string::*;
use vstd::utf8::*;
use crate::text::{chars_of, holds_text, views};

verus! {

/// The version of the control-group API.
#[derive(Copy, Clone, Debug, PartialEq, Eq, Structural)]
pub enum CgroupVersion {
    V1,
    V2,
}

/// The driver by which Docker names its containers' control groups.
#[derive(Copy, Clone, Debug, PartialEq, Eq, Structural)]
pub enum DockerCgroupDriver {
    Cgroupfs,
    Systemd,
}

/// A detected value and the one that is used: they differ where a
/// configured value has overridden the detection.
#[derive(Copy, Clone, Debug)]
pub struct VersionChoice {
    pub guess: CgroupVersion,
    pub chosen: CgroupVersion,
}

/// A detected driver and the one that is used.
#[derive(Copy, Clone, Debug)]
pub struct DriverChoice {
    pub guess: DockerCgroupDriver,
    pub chosen: DockerCgroupDriver,
}

/// The version that the entries of the control-group root point to: V1
/// where one of them is named `memory`.
pub open spec fn guessed_version(root_entries: Seq<Seq<char>>) -> CgroupVersion {
    if root_entries.contains("memory"@) {
        CgroupVersion::V1
    } else {
        CgroupVersion::V2
    }
}

/// The driver that the entries of the detection directory point to:
/// `Cgroupfs` where one of them is named `docker`.
pub open spec fn guessed_driver(base_entries: Seq<Seq<char>>) -> DockerCgroupDriver {
    if base_entries.contains("docker"@) {
        DockerCgroupDriver::Cgroupfs
    } else {
        DockerCgroupDriver::Systemd
    }
}

/// Detects the API version from the names of the entries of the
/// control-group root. A configured version always wins.
pub fn figure_out_cgroup_ver(root_entries: &Vec<String>, force: Option<CgroupVersion>) -> (choice:
    VersionChoice)
    ensures
        choice.guess == guessed_version(views(root_entries@)),
        choice.chosen == match force {
            Some(version) => version,
            None => choice.guess,
        },
{
    let guess = if holds_text(root_entries, "memory") {
        CgroupVersion::V1
    } else {
        CgroupVersion::V2
    };
    match force {
        Some(version) => VersionChoice { guess, chosen: version },
        None => VersionChoice { guess, chosen: guess },
    }
}

/// Detects the driver from the names of the entries of the detection
/// directory (see `detection_dir`). A configured driver always wins.
pub fn figure_out_docker_driver(
    base_entries: &Vec<String>,
    force: Option<DockerCgroupDriver>,
) -> (choice: DriverChoice)
    ensures
        choice.guess == guessed_driver(views(base_entries@)),
        choice.chosen == match force {
            Some(driver) => driver,
            None => choice.guess,
        },
{
    let guess = if holds_text(base_entries, "docker") {
        DockerCgroupDriver::Cgroupfs
    } else {
        DockerCgroupDriver::Systemd
    };
    match force {
        Some(driver) => DriverChoice { guess, chosen: driver },
        None => DriverChoice { guess, chosen: guess },
    }
}

impl VersionChoice {
    /// Whether the configured version contradicts the detected one.
    pub fn overridden(&self) -> (b: bool)
        ensures
            b == (self.guess != self.chosen),
    {
        self.guess != self.chosen
    }
}

impl DriverChoice {
    /// Whether the configured driver contradicts the detected one.
    pub fn overridden(&self) -> (b: bool)
        ensures
            b == (self.guess != self.chosen),
    {
        self.guess != self.chosen
    }
}

/// `base` with the path `rel` pushed onto it: an absolute `rel` replaces
/// `base`, any other follows it after exactly one separator.
pub open spec fn join_path(base: Seq<char>, rel: Seq<char>) -> Seq<char> {
    if rel.len() > 0 && rel[0] == '/' {
        rel
    } else if base.len() == 0 || base.last() == '/' {
        base + rel
    } else {
        base + seq!['/'] + rel
    }
}

/// Pushes `rel` onto `base`, as paths are joined on Unix.
pub fn push_path(base: &str, rel: &str) -> (path: String)
    ensures
        path@ == join_path(base@, rel@),
{
    let base_chars = chars_of(base);
    let rel_chars = chars_of(rel);
    if rel_chars.len() > 0 && rel_chars[0] == '/' {
        return String::from_str(rel);
    }
    let mut path = String::from_str(base);
    if base_chars.len() > 0 && base_chars[base_chars.len() - 1] != '/' {
        path.push('/');
    }
    path.append(rel);
    path
}

/// The directory below the control-group root that lists the containers of
/// `resource`.
pub open spec fn cgroup_subdir(
    version: CgroupVersion,
    driver: DockerCgroupDriver,
    resource: Seq<char>,
) -> Seq<char> {
    match (version, driver) {
        (CgroupVersion::V1, DockerCgroupDriver::Cgroupfs) => resource + "/docker"@,
        (CgroupVersion::V1, DockerCgroupDriver::Systemd) => resource + "/system.slice"@,
        (CgroupVersion::V2, DockerCgroupDriver::Cgroupfs) => "docker"@,
        (CgroupVersion::V2, DockerCgroupDriver::Systemd) => "system.slice"@,
    }
}

/// The directory that lists the containers of `resource` (`memory`, `cpu`
/// or `blkio`), below the control-group root `root`.
pub fn generate_cgroup_dir(
    root: &str,
    version: CgroupVersion,
    driver: DockerCgroupDriver,
    resource: &str,
) -> (dir: String)
    ensures
        dir@ == join_path(root@, cgroup_subdir(version, driver, resource@)),
{
    let sub = match (version, driver) {
        (CgroupVersion::V1, DockerCgroupDriver::Cgroupfs) => String::from_str(resource).concat(
            "/docker",
        ),
        (CgroupVersion::V1, DockerCgroupDriver::Systemd) => String::from_str(resource).concat(
            "/system.slice",
        ),
        (CgroupVersion::V2, DockerCgroupDriver::Cgroupfs) => String::from_str("docker"),
        (CgroupVersion::V2, DockerCgroupDriver::Systemd) => String::from_str("system.slice"),
    };
    push_path(root, sub.as_str())
}

/// The directory whose entries tell the driver: the root under V2, the
/// memory controller's directory under V1.
pub fn detection_dir(root: &str, version: CgroupVersion) -> (dir: String)
    ensures
        dir@ == match version {
            CgroupVersion::V1 => join_path(root@, "memory"@),
            CgroupVersion::V2 => root@,
        },
{
    match version {
        CgroupVersion::V1 => push_path(root, "memory"),
        CgroupVersion::V2 => String::from_str(root),
    }
}

/// The name of the version in reports.
pub open spec fn version_name(version: CgroupVersion) -> Seq<char> {
    match version {
        CgroupVersion::V1 => "V1"@,
        CgroupVersion::V2 => "V2"@,
    }
}

/// The name of the driver in reports.
pub open spec fn driver_name(driver: DockerCgroupDriver) -> Seq<char> {
    match driver {
        DockerCgroupDriver::Cgroupfs => "Cgroupfs"@,
        DockerCgroupDriver::Systemd => "Systemd"@,
    }
}

/// The line that reports what the collection goes by.
pub fn print_cgroup_detection_results(version: CgroupVersion, driver: DockerCgroupDriver) -> (line:
    String)
    ensures
        line@ == "Assuming: cgroup version "@ + version_name(version)
            + ", Docker cgroup driver "@ + driver_name(driver) + "."@,
{
    let mut line = String::from_str("Assuming: cgroup version ");
    match version {
        CgroupVersion::V1 => line.append("V1"),
        CgroupVersion::V2 => line.append("V2"),
    }
    line.append(", Docker cgroup driver ");
    match driver {
        DockerCgroupDriver::Cgroupfs => line.append("Cgroupfs"),
        DockerCgroupDriver::Systemd => line.append("Systemd"),
    }
    line.append(".");
    line
}

/// How many characters a container's identifier has.
pub const ID_LEN: usize = 64;

/// How long `docker-` is, which the systemd driver puts before the
/// identifier.
pub const SCOPE_PREFIX_LEN: usize = 7;

/// How long a scope unit's name is: `docker-`, the identifier, `.scope`.
pub const SCOPE_NAME_LEN: usize = 77;

/// How many bytes the name of a container's directory has.
pub open spec fn expected_dir_name_len(driver: DockerCgroupDriver) -> nat {
    match driver {
        DockerCgroupDriver::Cgroupfs => 64,
        DockerCgroupDriver::Systemd => 77,
    }
}

/// How many bytes the name of a container's directory has under the
/// driver.
pub fn dir_name_len(driver: DockerCgroupDriver) -> (len: usize)
    ensures
        len == expected_dir_name_len(driver),
{
    match driver {
        DockerCgroupDriver::Cgroupfs => ID_LEN,
        DockerCgroupDriver::Systemd => SCOPE_NAME_LEN,
    }
}

/// How many bytes `name` takes.
pub open spec fn byte_len(name: Seq<char>) -> nat {
    encode_utf8(name).len()
}

/// Whether `name` can be cut before its bytes 7 and 71: no character
/// reaches across either place.
pub open spec fn can_be_cut(name: Seq<char>) -> bool {
    is_char_boundary(encode_utf8(name), 7) && is_char_boundary(encode_utf8(name), 71)
}

/// Whether a directory of this name can be a container's: its name has the
/// driver's length and, under the systemd driver, can be cut at the
/// identifier's bounds.
pub open spec fn is_container_dir_name(driver: DockerCgroupDriver, name: Seq<char>) -> bool {
    byte_len(name) == expected_dir_name_len(driver) && (driver == DockerCgroupDriver::Systemd
        ==> can_be_cut(name))
}

/// The identifier that a container directory's name holds: the name
/// itself, or the text of its bytes 7 to 70, between `docker-` and
/// `.scope`.
pub open spec fn cont_id_of(driver: DockerCgroupDriver, name: Seq<char>) -> Seq<char> {
    match driver {
        DockerCgroupDriver::Cgroupfs => name,
        DockerCgroupDriver::Systemd => decode_utf8(encode_utf8(name).subrange(7, 71)),
    }
}

/// Whether a directory of this name can be a container's.
pub fn is_container_dir(driver: DockerCgroupDriver, name: &str) -> (b: bool)
    ensures
        b == is_container_dir_name(driver, name@),
{
    name.as_bytes().len() == dir_name_len(driver) && match driver {
        DockerCgroupDriver::Cgroupfs => true,
        DockerCgroupDriver::Systemd => name.is_char_boundary(SCOPE_PREFIX_LEN)
            && name.is_char_boundary(SCOPE_PREFIX_LEN + ID_LEN),
    }
}

/// The container's identifier, from the name of its directory. The name
/// must have passed `is_container_dir`.
pub fn dir_name_to_cont_id<'a>(driver: DockerCgroupDriver, dir_name: &'a str) -> (id: &'a str)
    requires
        driver == DockerCgroupDriver::Systemd ==> is_container_dir_name(driver, dir_name@),
    ensures
        id@ == cont_id_of(driver, dir_name@),
{
    match driver {
        DockerCgroupDriver::Cgroupfs => dir_name,
        DockerCgroupDriver::Systemd => {
            broadcast use vstd::utf8::group_utf8_lib;

            let ghost bytes = dir_name.spec_bytes();
            let (head, _) = dir_name.split_at(SCOPE_PREFIX_LEN + ID_LEN);
            proof {
                valid_utf8_split(bytes, 71);
                is_char_boundary_iff_not_is_continuation_byte(bytes, 7);
                is_char_boundary_iff_not_is_continuation_byte(head.spec_bytes(), 7);
            }
            let (_, id) = head.split_at(SCOPE_PREFIX_LEN);
            proof {
                assert(id.spec_bytes() =~= bytes.subrange(7, 71));
                encode_utf8_decode_utf8(id@);
            }
            id
        },
    }
}

/// The container's identifier where `name` can be a container directory's
/// name, nothing where it cannot.
pub fn container_id<'a>(driver: DockerCgroupDriver, name: &'a str) -> (id: Option<&'a str>)
    ensures
        match id {
            Some(id) => is_container_dir_name(driver, name@) && id@ == cont_id_of(driver, name@),
            None => !is_container_dir_name(driver, name@),
        },
{
    if is_container_dir(driver, name) {
        Some(dir_name_to_cont_id(driver, name))
    } else {
        None
    }
}

} // verus!

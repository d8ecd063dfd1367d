//! The metric families: from the listing of a resource's directory to the
//! samples of its containers, and from the samples to the family's text.

use vstd::prelude::*;
use vstd::string::*;
use append_only_vec::AppendOnlyVec;
use prometheus_exporter_base::PrometheusMetric;
use crate::cgroup::{
    cont_id_of, container_id, is_container_dir_name, CgroupVersion, DockerCgroupDriver,
};
use crate::containers::{
    after_lookup, details_views, known, label_views, refresh_containers_map, refresh_due,
    CacheView, ContainerCache, ContainerDetails, DetailsView,
};
use crate::exporter::{
    append_instance, held_items, instance_view, item_at, kind_text, metric_view, new_instance,
    new_items, new_metric, push_item, render_metric, with_label, with_timestamp, InstanceView,
    MetricKind, MetricView,
};
use crate::exposition::{decimal, instance_text, metric_text};
use crate::labels::{
    id_key, image_key, keeps, kept_labels, label_key, name_key, sample_labels, sanitized_key,
    LabelPolicy, PolicyView,
};
use crate::readings::{
    counter_of, cpu_stat_of, io_service_bytes_of, io_stat_of, parse_counter, parse_cpu_stat,
    parse_io_service_bytes, parse_io_stat, ReadError,
};

verus! {

/// The version and the driver that the collection goes by, fixed at
/// startup.
#[derive(Copy, Clone, Debug)]
pub struct Environment {
    pub version: CgroupVersion,
    pub driver: DockerCgroupDriver,
}

/// The resources whose use is reported.
#[derive(Copy, Clone, Debug, PartialEq, Eq, Structural)]
pub enum Resource {
    Memory,
    Cpu,
    Blkio,
}

/// The name of the resource's controller.
pub open spec fn resource_name(resource: Resource) -> Seq<char> {
    match resource {
        Resource::Memory => "memory"@,
        Resource::Cpu => "cpu"@,
        Resource::Blkio => "blkio"@,
    }
}

impl Resource {
    /// The name of the resource's controller.
    pub fn name(&self) -> (name: &'static str)
        ensures
            name@ == resource_name(*self),
    {
        match self {
            Resource::Memory => "memory",
            Resource::Cpu => "cpu",
            Resource::Blkio => "blkio",
        }
    }
}

/// The names of the files that hold a resource's metrics, in the order in
/// which a container directory's `files` give their contents.
pub open spec fn metric_file_names(resource: Resource, version: CgroupVersion) -> Seq<Seq<char>> {
    match (resource, version) {
        (Resource::Memory, CgroupVersion::V1) => seq!["memory.usage_in_bytes"@],
        (Resource::Memory, CgroupVersion::V2) => seq!["memory.current"@],
        (Resource::Cpu, CgroupVersion::V1) => seq!["cpuacct.usage_user"@, "cpuacct.usage_sys"@],
        (Resource::Cpu, CgroupVersion::V2) => seq!["cpu.stat"@],
        (Resource::Blkio, CgroupVersion::V1) => seq!["blkio.throttle.io_service_bytes"@],
        (Resource::Blkio, CgroupVersion::V2) => seq!["io.stat"@],
    }
}

/// The names of the files that hold a resource's metrics in a
/// container's directory.
pub fn metric_files(resource: Resource, version: CgroupVersion) -> (names: Vec<&'static str>)
    ensures
        names@.len() == metric_file_names(resource, version).len(),
        forall|i: int| 0 <= i < names@.len() ==> names@[i]@ == metric_file_names(resource, version)[i],
{
    let mut names: Vec<&'static str> = Vec::new();
    match (resource, version) {
        (Resource::Memory, CgroupVersion::V1) => {
            names.push("memory.usage_in_bytes");
        },
        (Resource::Memory, CgroupVersion::V2) => {
            names.push("memory.current");
        },
        (Resource::Cpu, CgroupVersion::V1) => {
            names.push("cpuacct.usage_user");
            names.push("cpuacct.usage_sys");
        },
        (Resource::Cpu, CgroupVersion::V2) => {
            names.push("cpu.stat");
        },
        (Resource::Blkio, CgroupVersion::V1) => {
            names.push("blkio.throttle.io_service_bytes");
        },
        (Resource::Blkio, CgroupVersion::V2) => {
            names.push("io.stat");
        },
    }
    names
}

/// How many of the units in which the CPU files count make one second:
/// nanoseconds under V1, microseconds under V2.
pub open spec fn ticks_per_second(version: CgroupVersion) -> nat {
    match version {
        CgroupVersion::V1 => 1_000_000_000,
        CgroupVersion::V2 => 1_000_000,
    }
}

/// How many of the units in which CPU time is counted make one second.
pub fn cpu_ticks_per_second(version: CgroupVersion) -> (ticks: u64)
    ensures
        ticks == ticks_per_second(version),
{
    match version {
        CgroupVersion::V1 => 1_000_000_000,
        CgroupVersion::V2 => 1_000_000,
    }
}

/// An entry of a resource's directory: its name, whether it is a
/// directory, and what its metric files hold (nothing for a file that
/// could not be read).
#[derive(Debug)]
pub struct ContainerDir {
    pub name: String,
    pub is_dir: bool,
    pub files: Vec<Option<String>>,
}

/// An entry of a resource's directory as texts.
pub struct DirView {
    pub name: Seq<char>,
    pub is_dir: bool,
    pub files: Seq<Option<Seq<char>>>,
}

/// What the files hold, as texts.
pub open spec fn file_views(files: Seq<Option<String>>) -> Seq<Option<Seq<char>>> {
    Seq::new(
        files.len(),
        |i: int|
            match files[i] {
                Some(text) => Some(text@),
                None => None,
            },
    )
}

impl View for ContainerDir {
    type V = DirView;

    open spec fn view(&self) -> DirView {
        DirView { name: self.name@, is_dir: self.is_dir, files: file_views(self.files@) }
    }
}

/// The entries of a listing as texts.
pub open spec fn dir_views(dirs: Seq<ContainerDir>) -> Seq<DirView> {
    Seq::new(dirs.len(), |i: int| dirs[i]@)
}

/// What the file at `index` holds, if it was read.
pub open spec fn file_text(dir: DirView, index: int) -> Option<Seq<char>> {
    if 0 <= index < dir.files.len() {
        dir.files[index]
    } else {
        None
    }
}

impl ContainerDir {
    fn file(&self, index: usize) -> (text: Option<&String>)
        ensures
            match text {
                Some(t) => file_text(self@, index as int) == Some(t@),
                None => file_text(self@, index as int).is_none(),
            },
    {
        if index < self.files.len() {
            match &self.files[index] {
                Some(text) => Some(text),
                None => None,
            }
        } else {
            None
        }
    }
}

/// Whether an entry is taken for a container's directory: it is a
/// directory, and its name has the form that the driver gives.
pub open spec fn is_candidate(driver: DockerCgroupDriver, dir: DirView) -> bool {
    dir.is_dir && is_container_dir_name(driver, dir.name)
}

/// What a file with one number says, or that it is missing.
pub open spec fn counter_file(dir: DirView, index: int) -> Result<u64, ReadError> {
    match file_text(dir, index) {
        Some(text) => counter_of(text),
        None => Err(ReadError::MissingFile),
    }
}

/// The memory that a container uses, in bytes.
pub open spec fn memory_reading(dir: DirView) -> Result<u64, ReadError> {
    counter_file(dir, 0)
}

/// The CPU time that a container has used in user and in system mode.
pub open spec fn cpu_reading(version: CgroupVersion, dir: DirView) -> Result<(u64, u64), ReadError> {
    match version {
        CgroupVersion::V1 => match counter_file(dir, 0) {
            Err(e) => Err(e),
            Ok(user) => match counter_file(dir, 1) {
                Err(e) => Err(e),
                Ok(system) => Ok((user, system)),
            },
        },
        CgroupVersion::V2 => match file_text(dir, 0) {
            Some(text) => cpu_stat_of(text),
            None => Err(ReadError::MissingFile),
        },
    }
}

/// The bytes that a container has read from and written to block devices.
pub open spec fn blkio_reading(version: CgroupVersion, dir: DirView) -> Result<
    (u64, u64),
    ReadError,
> {
    match file_text(dir, 0) {
        None => Err(ReadError::MissingFile),
        Some(text) => match version {
            CgroupVersion::V1 => io_service_bytes_of(text),
            CgroupVersion::V2 => io_stat_of(text),
        },
    }
}

fn read_counter_file(dir: &ContainerDir, index: usize) -> (value: Result<u64, ReadError>)
    ensures
        value == counter_file(dir@, index as int),
{
    match dir.file(index) {
        Some(text) => parse_counter(text.as_str()),
        None => Err(ReadError::MissingFile),
    }
}

/// The memory that the container of `dir` uses, in bytes.
pub fn read_memory(dir: &ContainerDir) -> (value: Result<u64, ReadError>)
    ensures
        value == memory_reading(dir@),
{
    read_counter_file(dir, 0)
}

/// The CPU time that the container of `dir` has used in user and in
/// system mode, in the version's unit.
pub fn read_cpu(version: CgroupVersion, dir: &ContainerDir) -> (times: Result<
    (u64, u64),
    ReadError,
>)
    ensures
        times == cpu_reading(version, dir@),
{
    match version {
        CgroupVersion::V1 => {
            let user = match read_counter_file(dir, 0) {
                Ok(user) => user,
                Err(e) => {
                    return Err(e);
                },
            };
            match read_counter_file(dir, 1) {
                Ok(system) => Ok((user, system)),
                Err(e) => Err(e),
            }
        },
        CgroupVersion::V2 => match dir.file(0) {
            Some(text) => parse_cpu_stat(text.as_str()),
            None => Err(ReadError::MissingFile),
        },
    }
}

/// The bytes that the container of `dir` has read from and written to
/// block devices.
pub fn read_blkio(version: CgroupVersion, dir: &ContainerDir) -> (bytes: Result<
    (u64, u64),
    ReadError,
>)
    ensures
        bytes == blkio_reading(version, dir@),
{
    match dir.file(0) {
        None => Err(ReadError::MissingFile),
        Some(text) => match version {
            CgroupVersion::V1 => parse_io_service_bytes(text.as_str()),
            CgroupVersion::V2 => parse_io_stat(text.as_str()),
        },
    }
}

/// One value of one container.
#[derive(Debug)]
pub struct MetricSample {
    pub container_id: String,
    pub value: u64,
}

/// Two values of one container: user and system time, or bytes read and
/// bytes written.
#[derive(Debug)]
pub struct PairedSample {
    pub container_id: String,
    pub first: u64,
    pub second: u64,
}

/// A sample as texts.
pub struct SampleView {
    pub container_id: Seq<char>,
    pub value: u64,
}

/// A paired sample as texts.
pub struct PairView {
    pub container_id: Seq<char>,
    pub first: u64,
    pub second: u64,
}

impl View for MetricSample {
    type V = SampleView;

    open spec fn view(&self) -> SampleView {
        SampleView { container_id: self.container_id@, value: self.value }
    }
}

impl View for PairedSample {
    type V = PairView;

    open spec fn view(&self) -> PairView {
        PairView { container_id: self.container_id@, first: self.first, second: self.second }
    }
}

/// The samples as texts.
pub open spec fn sample_views(samples: Seq<MetricSample>) -> Seq<SampleView> {
    Seq::new(samples.len(), |i: int| samples[i]@)
}

/// The paired samples as texts.
pub open spec fn pair_views(samples: Seq<PairedSample>) -> Seq<PairView> {
    Seq::new(samples.len(), |i: int| samples[i]@)
}

/// The memory samples of a listing: one for each candidate whose usage
/// file holds a number, in the listing's order. Every other entry is passed
/// over.
pub open spec fn memory_samples_of(driver: DockerCgroupDriver, dirs: Seq<DirView>) -> Seq<
    SampleView,
>
    decreases dirs.len(),
{
    if dirs.len() == 0 {
        Seq::empty()
    } else {
        let before = memory_samples_of(driver, dirs.drop_last());
        let dir = dirs.last();
        match memory_reading(dir) {
            Ok(value) if is_candidate(driver, dir) => before.push(
                SampleView { container_id: cont_id_of(driver, dir.name), value },
            ),
            _ => before,
        }
    }
}

/// The paired samples of a listing, by the reading `reading`: one for
/// each candidate of which the reading succeeds.
pub open spec fn paired_samples_of(
    driver: DockerCgroupDriver,
    dirs: Seq<DirView>,
    reading: spec_fn(DirView) -> Result<(u64, u64), ReadError>,
) -> Seq<PairView>
    decreases dirs.len(),
{
    if dirs.len() == 0 {
        Seq::empty()
    } else {
        let before = paired_samples_of(driver, dirs.drop_last(), reading);
        let dir = dirs.last();
        match reading(dir) {
            Ok((first, second)) if is_candidate(driver, dir) => before.push(
                PairView { container_id: cont_id_of(driver, dir.name), first, second },
            ),
            _ => before,
        }
    }
}

/// The CPU samples of a listing: user and system time, in the version's
/// unit.
pub open spec fn cpu_samples_of(env: Environment, dirs: Seq<DirView>) -> Seq<PairView> {
    paired_samples_of(env.driver, dirs, |dir: DirView| cpu_reading(env.version, dir))
}

/// The block I/O samples of a listing: bytes read and bytes written.
pub open spec fn blkio_samples_of(env: Environment, dirs: Seq<DirView>) -> Seq<PairView> {
    paired_samples_of(env.driver, dirs, |dir: DirView| blkio_reading(env.version, dir))
}

/// The memory samples of a listing: one for each container directory
/// whose usage file holds a number.
pub fn memory_samples(env: Environment, dirs: &Vec<ContainerDir>) -> (samples: Vec<MetricSample>)
    ensures
        sample_views(samples@) == memory_samples_of(env.driver, dir_views(dirs@)),
{
    let mut samples: Vec<MetricSample> = Vec::new();
    let ghost all = dir_views(dirs@);
    let mut i: usize = 0;
    while i < dirs.len()
        invariant
            i <= dirs.len(),
            all == dir_views(dirs@),
            sample_views(samples@) == memory_samples_of(env.driver, all.take(i as int)),
        decreases dirs.len() - i,
    {
        let dir = &dirs[i];
        assert(all.take(i + 1).drop_last() =~= all.take(i as int));
        if dir.is_dir {
            match container_id(env.driver, dir.name.as_str()) {
                Some(id) => match read_memory(dir) {
                    Ok(value) => {
                        samples.push(MetricSample { container_id: String::from_str(id), value });
                    },
                    Err(_) => {},
                },
                None => {},
            }
        }
        i += 1;
    }
    assert(all.take(i as int) =~= all);
    samples
}

/// The CPU samples of a listing: one for each container directory whose
/// files give user and system time.
pub fn cpu_samples(env: Environment, dirs: &Vec<ContainerDir>) -> (samples: Vec<PairedSample>)
    ensures
        pair_views(samples@) == cpu_samples_of(env, dir_views(dirs@)),
{
    let mut samples: Vec<PairedSample> = Vec::new();
    let ghost all = dir_views(dirs@);
    let ghost reading = |dir: DirView| cpu_reading(env.version, dir);
    let mut i: usize = 0;
    while i < dirs.len()
        invariant
            i <= dirs.len(),
            all == dir_views(dirs@),
            reading == |dir: DirView| cpu_reading(env.version, dir),
            pair_views(samples@) == paired_samples_of(env.driver, all.take(i as int), reading),
        decreases dirs.len() - i,
    {
        let dir = &dirs[i];
        assert(all.take(i + 1).drop_last() =~= all.take(i as int));
        if dir.is_dir {
            match container_id(env.driver, dir.name.as_str()) {
                Some(id) => match read_cpu(env.version, dir) {
                    Ok((first, second)) => {
                        samples.push(
                            PairedSample { container_id: String::from_str(id), first, second },
                        );
                    },
                    Err(_) => {},
                },
                None => {},
            }
        }
        i += 1;
    }
    assert(all.take(i as int) =~= all);
    samples
}

/// The block I/O samples of a listing: one for each container directory
/// whose file gives the bytes read and written.
pub fn blkio_samples(env: Environment, dirs: &Vec<ContainerDir>) -> (samples: Vec<PairedSample>)
    ensures
        pair_views(samples@) == blkio_samples_of(env, dir_views(dirs@)),
{
    let mut samples: Vec<PairedSample> = Vec::new();
    let ghost all = dir_views(dirs@);
    let ghost reading = |dir: DirView| blkio_reading(env.version, dir);
    let mut i: usize = 0;
    while i < dirs.len()
        invariant
            i <= dirs.len(),
            all == dir_views(dirs@),
            reading == |dir: DirView| blkio_reading(env.version, dir),
            pair_views(samples@) == paired_samples_of(env.driver, all.take(i as int), reading),
        decreases dirs.len() - i,
    {
        let dir = &dirs[i];
        assert(all.take(i + 1).drop_last() =~= all.take(i as int));
        if dir.is_dir {
            match container_id(env.driver, dir.name.as_str()) {
                Some(id) => match read_blkio(env.version, dir) {
                    Ok((first, second)) => {
                        samples.push(
                            PairedSample { container_id: String::from_str(id), first, second },
                        );
                    },
                    Err(_) => {},
                },
                None => {},
            }
        }
        i += 1;
    }
    assert(all.take(i as int) =~= all);
    samples
}

/// The metric families, in the order in which a scrape gives them.
#[derive(Copy, Clone, Debug, PartialEq, Eq, Structural)]
pub enum Family {
    MemoryUsage,
    CpuUser,
    CpuSystem,
    BlkioRead,
    BlkioWrite,
}

/// The name under which the family is exported.
pub open spec fn family_name(family: Family) -> Seq<char> {
    match family {
        Family::MemoryUsage => "container_memory_usage"@,
        Family::CpuUser => "container_cpu_user_total"@,
        Family::CpuSystem => "container_cpu_system_total"@,
        Family::BlkioRead => "container_blkio_read_total"@,
        Family::BlkioWrite => "container_blkio_write_total"@,
    }
}

/// What the family's `HELP` line says.
pub open spec fn family_help(family: Family) -> Seq<char> {
    match family {
        Family::MemoryUsage => "Memory used by the container, in bytes"@,
        Family::CpuUser => "CPU seconds used by the container in userspace"@,
        Family::CpuSystem => "CPU seconds used by the container in kernelspace"@,
        Family::BlkioRead => "Bytes read from disk by the container"@,
        Family::BlkioWrite => "Bytes written to disk by the container"@,
    }
}

/// The family's kind: memory in use is a gauge, the others count up.
pub open spec fn family_kind(family: Family) -> MetricKind {
    match family {
        Family::MemoryUsage => MetricKind::Gauge,
        _ => MetricKind::Counter,
    }
}

impl Family {
    /// The name under which the family is exported.
    pub fn name(&self) -> (name: &'static str)
        ensures
            name@ == family_name(*self),
    {
        match self {
            Family::MemoryUsage => "container_memory_usage",
            Family::CpuUser => "container_cpu_user_total",
            Family::CpuSystem => "container_cpu_system_total",
            Family::BlkioRead => "container_blkio_read_total",
            Family::BlkioWrite => "container_blkio_write_total",
        }
    }

    /// What the family's `HELP` line says.
    pub fn help(&self) -> (help: &'static str)
        ensures
            help@ == family_help(*self),
    {
        match self {
            Family::MemoryUsage => "Memory used by the container, in bytes",
            Family::CpuUser => "CPU seconds used by the container in userspace",
            Family::CpuSystem => "CPU seconds used by the container in kernelspace",
            Family::BlkioRead => "Bytes read from disk by the container",
            Family::BlkioWrite => "Bytes written to disk by the container",
        }
    }

    /// The family's kind.
    pub fn kind(&self) -> (kind: MetricKind)
        ensures
            kind == family_kind(*self),
    {
        match self {
            Family::MemoryUsage => MetricKind::Gauge,
            _ => MetricKind::Counter,
        }
    }
}

/// What follows the family's name on the line of one sample: the labels
/// of the container, the value, the timestamp in milliseconds.
pub open spec fn sample_line(
    id: Seq<char>,
    details: Option<DetailsView>,
    policy: PolicyView,
    value: u64,
    timestamp: u128,
) -> Seq<char> {
    instance_text(
        sample_labels(id, details, policy),
        decimal(value as nat),
        Some(decimal(timestamp as nat)),
    )
}

/// A family's metric with these instances.
pub open spec fn family_view(family: Family, instances: Seq<Seq<char>>) -> MetricView {
    MetricView {
        name: family_name(family),
        help: family_help(family),
        kind: kind_text(family_kind(family)),
        instances,
    }
}

/// A family as text: header, samples, and an empty line after them.
pub open spec fn family_text(family: Family, instances: Seq<Seq<char>>) -> Seq<char> {
    metric_text(
        family_name(family),
        family_help(family),
        kind_text(family_kind(family)),
        instances,
    ) + seq!['\n']
}

/// The labels of a sample, each a key and a value: the container's
/// identifier, looked up in the cache, decides them. An unknown identifier
/// asks the cache for a refresh from `descriptors` first.
pub fn sample_label_list(
    cont_id: &str,
    cache: &mut ContainerCache,
    descriptors: &Vec<ContainerDetails>,
    now: u64,
    policy: &LabelPolicy,
) -> (labels: Vec<(String, String)>)
    requires
        old(cache).wf(),
    ensures
        final(cache).wf(),
        final(cache)@ == after_lookup(old(cache)@, cont_id@, details_views(descriptors@), now),
        label_views(labels@) == sample_labels(cont_id@, known(final(cache)@, cont_id@), policy@),
{
    if !cache.contains(cont_id) {
        refresh_containers_map(cache, descriptors, now, false);
    }
    let mut labels: Vec<(String, String)> = Vec::new();
    labels.push((String::from_str("id"), String::from_str(cont_id)));
    proof {
        reveal_strlit("id");
        reveal_strlit("name");
        reveal_strlit("image");
        assert("id"@ =~= id_key());
        assert("name"@ =~= name_key());
        assert("image"@ =~= image_key());
    }
    if let Some(cont) = cache.get(cont_id) {
        labels.push((String::from_str("name"), cont.name.clone()));
        labels.push((String::from_str("image"), cont.config.image.clone()));
        let ghost base = seq![
            (id_key(), cont_id@),
            (name_key(), cont.name@),
            (image_key(), cont.config.image@),
        ];
        let ghost all = label_views(cont.config.labels@);
        let mut i: usize = 0;
        while i < cont.config.labels.len()
            invariant
                i <= cont.config.labels.len(),
                all == label_views(cont.config.labels@),
                label_views(labels@) == base + kept_labels(all.take(i as int), policy@),
            decreases cont.config.labels.len() - i,
        {
            let key = cont.config.labels[i].0.as_str();
            assert(all.take(i + 1).drop_last() =~= all.take(i as int));
            if policy.keeps(key) {
                let ghost before = label_views(labels@);
                let value = cont.config.labels[i].1.clone();
                labels.push((sanitized_key(key), value));
                assert(base + kept_labels(all.take(i as int), policy@).push(
                    (label_key(key@), cont.config.labels[i as int].1@),
                ) =~= before.push((label_key(key@), cont.config.labels[i as int].1@)));
            }
            i += 1;
        }
        assert(all.take(i as int) =~= all);
    }
    labels
}

/// Whether `keys` and the values of the labels at the indices `kept` make
/// up the labels `wanted`.
spec fn kept_match(
    keys: Seq<Seq<char>>,
    kept: Seq<usize>,
    labels: Seq<(String, String)>,
    wanted: Seq<(Seq<char>, Seq<char>)>,
) -> bool {
    &&& keys.len() == kept.len()
    &&& kept.len() == wanted.len()
    &&& forall|k: int|
        0 <= k < kept.len() ==> (#[trigger] kept[k]) < labels.len() && (
            keys[k],
            labels[kept[k] as int].1@,
        ) == wanted[k]
}

/// The metric keys of the labels that the policy keeps go into `keys`;
/// returned is, for each of them, the index of its label.
fn keep_labels(
    labels: &Vec<(String, String)>,
    policy: &LabelPolicy,
    keys: &mut AppendOnlyVec<String>,
) -> (kept: Vec<usize>)
    requires
        held_items(*old(keys)).len() == 0,
    ensures
        kept_match(
            held_items(*final(keys)),
            kept@,
            labels@,
            kept_labels(label_views(labels@), policy@),
        ),
{
    let mut kept: Vec<usize> = Vec::new();
    let ghost all = label_views(labels@);
    let mut i: usize = 0;
    while i < labels.len()
        invariant
            i <= labels.len(),
            all == label_views(labels@),
            kept_match(held_items(*keys), kept@, labels@, kept_labels(all.take(i as int), policy@)),
        decreases labels.len() - i,
    {
        let key = labels[i].0.as_str();
        assert(all.take(i + 1).drop_last() =~= all.take(i as int));
        if policy.keeps(key) {
            push_item(keys, sanitized_key(key));
            kept.push(i);
        }
        i += 1;
    }
    assert(all.take(i as int) =~= all);
    kept
}

/// Renders one sample and appends it to `metric`. The container's
/// identifier is always attached; its name, its image and the labels that
/// the policy keeps are attached where the cache knows the container. An
/// unknown identifier asks the cache for a refresh from `descriptors`
/// first, and is rendered with its identifier alone if it stays unknown.
pub fn render_and_append_instance(
    metric: &mut PrometheusMetric<'_>,
    value: u64,
    cont_id: &str,
    cache: &mut ContainerCache,
    descriptors: &Vec<ContainerDetails>,
    now: u64,
    policy: &LabelPolicy,
    timestamp: u128,
)
    requires
        old(cache).wf(),
    ensures
        final(cache).wf(),
        final(cache)@ == after_lookup(old(cache)@, cont_id@, details_views(descriptors@), now),
        metric_view(*final(metric)) == (MetricView {
            instances: metric_view(*old(metric)).instances.push(
                sample_line(cont_id@, known(final(cache)@, cont_id@), policy@, value, timestamp),
            ),
            ..metric_view(*old(metric))
        }),
{
    if !cache.contains(cont_id) {
        refresh_containers_map(cache, descriptors, now, false);
    }
    proof {
        reveal_strlit("id");
        reveal_strlit("name");
        reveal_strlit("image");
        assert("id"@ =~= id_key());
        assert("name"@ =~= name_key());
        assert("image"@ =~= image_key());
    }
    let details = cache.get(cont_id);
    let mut keys = new_items();
    let kept = match details {
        Some(cont) => keep_labels(&cont.config.labels, policy, &mut keys),
        None => Vec::new(),
    };
    let mut instance = new_instance(value);
    instance = with_label(instance, "id", cont_id);
    instance = with_timestamp(instance, timestamp);
    if let Some(cont) = details {
        instance = with_label(instance, "name", cont.name.as_str());
        instance = with_label(instance, "image", cont.config.image.as_str());
        let ghost base = seq![
            (id_key(), cont_id@),
            (name_key(), cont.name@),
            (image_key(), cont.config.image@),
        ];
        let ghost wanted = kept_labels(label_views(cont.config.labels@), policy@);
        assert(instance_view(instance).labels =~= base + wanted.take(0));
        let mut k: usize = 0;
        while k < kept.len()
            invariant
                k <= kept.len(),
                wanted == kept_labels(label_views(cont.config.labels@), policy@),
                kept_match(held_items(keys), kept@, cont.config.labels@, wanted),
                instance_view(instance) == (InstanceView {
                    labels: base + wanted.take(k as int),
                    value,
                    timestamp: Some(timestamp),
                }),
            decreases kept.len() - k,
        {
            let at = kept[k];
            instance = with_label(
                instance,
                item_at(&keys, k).as_str(),
                cont.config.labels[at].1.as_str(),
            );
            assert(base + wanted.take(k + 1) =~= (base + wanted.take(k as int)).push(
                wanted[k as int],
            ));
            k += 1;
        }
        assert(wanted.take(k as int) =~= wanted);
    }
    append_instance(metric, &instance);
}

/// What a family's instances and the cache are after a run of samples.
pub struct Rendered {
    pub instances: Seq<Seq<char>>,
    pub cache: CacheView,
}

/// The instances of the samples, in order, and the cache after the
/// look-ups that they took.
pub open spec fn rendered_samples(
    samples: Seq<SampleView>,
    cache: CacheView,
    descriptors: Seq<DetailsView>,
    now: u64,
    policy: PolicyView,
    timestamp: u128,
) -> Rendered
    decreases samples.len(),
{
    if samples.len() == 0 {
        Rendered { instances: Seq::empty(), cache }
    } else {
        let before = rendered_samples(
            samples.drop_last(),
            cache,
            descriptors,
            now,
            policy,
            timestamp,
        );
        let sample = samples.last();
        let after = after_lookup(before.cache, sample.container_id, descriptors, now);
        Rendered {
            instances: before.instances.push(
                sample_line(
                    sample.container_id,
                    known(after, sample.container_id),
                    policy,
                    sample.value,
                    timestamp,
                ),
            ),
            cache: after,
        }
    }
}

/// What two families' instances and the cache are after a run of paired
/// samples.
pub struct RenderedPairs {
    pub first: Seq<Seq<char>>,
    pub second: Seq<Seq<char>>,
    pub cache: CacheView,
}

/// The instances of the paired samples: each sample is looked up for its
/// first value, then again for its second.
pub open spec fn rendered_pairs(
    samples: Seq<PairView>,
    cache: CacheView,
    descriptors: Seq<DetailsView>,
    now: u64,
    policy: PolicyView,
    timestamp: u128,
) -> RenderedPairs
    decreases samples.len(),
{
    if samples.len() == 0 {
        RenderedPairs { first: Seq::empty(), second: Seq::empty(), cache }
    } else {
        let before = rendered_pairs(samples.drop_last(), cache, descriptors, now, policy, timestamp);
        let sample = samples.last();
        let id = sample.container_id;
        let middle = after_lookup(before.cache, id, descriptors, now);
        let after = after_lookup(middle, id, descriptors, now);
        RenderedPairs {
            first: before.first.push(
                sample_line(id, known(middle, id), policy, sample.first, timestamp),
            ),
            second: before.second.push(
                sample_line(id, known(after, id), policy, sample.second, timestamp),
            ),
            cache: after,
        }
    }
}

/// The text of the memory family for the samples.
pub fn render_memory(
    samples: &Vec<MetricSample>,
    cache: &mut ContainerCache,
    descriptors: &Vec<ContainerDetails>,
    now: u64,
    policy: &LabelPolicy,
    timestamp: u128,
) -> (text: String)
    requires
        old(cache).wf(),
    ensures
        final(cache).wf(),
        ({
            let r = rendered_samples(
                sample_views(samples@),
                old(cache)@,
                details_views(descriptors@),
                now,
                policy@,
                timestamp,
            );
            &&& final(cache)@ == r.cache
            &&& text@ == family_text(Family::MemoryUsage, r.instances)
        }),
{
    let family = Family::MemoryUsage;
    let mut metric = new_metric(family.name(), family.kind(), family.help());
    let ghost all = sample_views(samples@);
    let ghost start = cache@;
    let ghost known_descriptors = details_views(descriptors@);
    let mut i: usize = 0;
    while i < samples.len()
        invariant
            i <= samples.len(),
            cache.wf(),
            all == sample_views(samples@),
            known_descriptors == details_views(descriptors@),
            ({
                let r = rendered_samples(
                    all.take(i as int),
                    start,
                    known_descriptors,
                    now,
                    policy@,
                    timestamp,
                );
                &&& cache@ == r.cache
                &&& metric_view(metric) == family_view(family, r.instances)
            }),
        decreases samples.len() - i,
    {
        assert(all.take(i + 1).drop_last() =~= all.take(i as int));
        render_and_append_instance(
            &mut metric,
            samples[i].value,
            samples[i].container_id.as_str(),
            cache,
            descriptors,
            now,
            policy,
            timestamp,
        );
        i += 1;
    }
    assert(all.take(i as int) =~= all);
    let mut text = render_metric(&metric);
    text.push('\n');
    text
}

/// The text of the block I/O families for the samples: bytes read, then
/// bytes written.
pub fn render_blkio(
    samples: &Vec<PairedSample>,
    cache: &mut ContainerCache,
    descriptors: &Vec<ContainerDetails>,
    now: u64,
    policy: &LabelPolicy,
    timestamp: u128,
) -> (text: String)
    requires
        old(cache).wf(),
    ensures
        final(cache).wf(),
        ({
            let r = rendered_pairs(
                pair_views(samples@),
                old(cache)@,
                details_views(descriptors@),
                now,
                policy@,
                timestamp,
            );
            &&& final(cache)@ == r.cache
            &&& text@ == family_text(Family::BlkioRead, r.first) + family_text(
                Family::BlkioWrite,
                r.second,
            )
        }),
{
    let read = Family::BlkioRead;
    let write = Family::BlkioWrite;
    let mut metric_read = new_metric(read.name(), read.kind(), read.help());
    let mut metric_write = new_metric(write.name(), write.kind(), write.help());
    let ghost all = pair_views(samples@);
    let ghost start = cache@;
    let ghost known_descriptors = details_views(descriptors@);
    let mut i: usize = 0;
    while i < samples.len()
        invariant
            i <= samples.len(),
            cache.wf(),
            all == pair_views(samples@),
            known_descriptors == details_views(descriptors@),
            read == Family::BlkioRead,
            write == Family::BlkioWrite,
            ({
                let r = rendered_pairs(
                    all.take(i as int),
                    start,
                    known_descriptors,
                    now,
                    policy@,
                    timestamp,
                );
                &&& cache@ == r.cache
                &&& metric_view(metric_read) == family_view(read, r.first)
                &&& metric_view(metric_write) == family_view(write, r.second)
            }),
        decreases samples.len() - i,
    {
        assert(all.take(i + 1).drop_last() =~= all.take(i as int));
        let id = samples[i].container_id.as_str();
        render_and_append_instance(
            &mut metric_read,
            samples[i].first,
            id,
            cache,
            descriptors,
            now,
            policy,
            timestamp,
        );
        render_and_append_instance(
            &mut metric_write,
            samples[i].second,
            id,
            cache,
            descriptors,
            now,
            policy,
            timestamp,
        );
        i += 1;
    }
    assert(all.take(i as int) =~= all);
    let mut text = render_metric(&metric_read);
    text.push('\n');
    text.append(render_metric(&metric_write).as_str());
    text.push('\n');
    text
}

/// Why a scrape gives no text.
#[derive(Copy, Clone, Debug, PartialEq, Eq, Structural)]
pub enum ScrapeError {
    /// The directory that lists the resource's containers could not be
    /// read.
    Unreadable(Resource),
}

/// The memory family: usage in bytes, one sample for each container
/// directory of `listing` whose usage file holds a number. Without a
/// listing the section fails, and the cache stays as it is.
pub fn get_memory_metric(
    env: Environment,
    listing: Option<&Vec<ContainerDir>>,
    cache: &mut ContainerCache,
    descriptors: &Vec<ContainerDetails>,
    now: u64,
    policy: &LabelPolicy,
    timestamp: u128,
) -> (section: Result<String, ScrapeError>)
    requires
        old(cache).wf(),
    ensures
        final(cache).wf(),
        match listing {
            None => section == Err::<String, ScrapeError>(ScrapeError::Unreadable(Resource::Memory))
                && final(cache)@ == old(cache)@,
            Some(dirs) => {
                let r = rendered_samples(
                    memory_samples_of(env.driver, dir_views(dirs@)),
                    old(cache)@,
                    details_views(descriptors@),
                    now,
                    policy@,
                    timestamp,
                );
                &&& final(cache)@ == r.cache
                &&& section matches Ok(text) && text@ == family_text(
                    Family::MemoryUsage,
                    r.instances,
                )
            },
        },
{
    match listing {
        None => Err(ScrapeError::Unreadable(Resource::Memory)),
        Some(dirs) => {
            let samples = memory_samples(env, dirs);
            Ok(render_memory(&samples, cache, descriptors, now, policy, timestamp))
        },
    }
}

/// A container's CPU time, with the labels under which each of the two
/// values is reported.
#[derive(Debug)]
pub struct CpuInstance {
    pub user_labels: Vec<(String, String)>,
    pub user_ticks: u64,
    pub system_labels: Vec<(String, String)>,
    pub system_ticks: u64,
}

/// A container's CPU time and labels as texts.
pub struct CpuInstanceView {
    pub user_labels: Seq<(Seq<char>, Seq<char>)>,
    pub user_ticks: u64,
    pub system_labels: Seq<(Seq<char>, Seq<char>)>,
    pub system_ticks: u64,
}

impl View for CpuInstance {
    type V = CpuInstanceView;

    open spec fn view(&self) -> CpuInstanceView {
        CpuInstanceView {
            user_labels: label_views(self.user_labels@),
            user_ticks: self.user_ticks,
            system_labels: label_views(self.system_labels@),
            system_ticks: self.system_ticks,
        }
    }
}

/// The CPU instances as texts.
pub open spec fn cpu_instance_views(instances: Seq<CpuInstance>) -> Seq<CpuInstanceView> {
    Seq::new(instances.len(), |i: int| instances[i]@)
}

/// What the CPU instances and the cache are after a run of samples.
pub struct Labelled {
    pub instances: Seq<CpuInstanceView>,
    pub cache: CacheView,
}

/// The CPU instances of the samples: each sample is looked up for its
/// user time, then again for its system time.
pub open spec fn labelled_pairs(
    samples: Seq<PairView>,
    cache: CacheView,
    descriptors: Seq<DetailsView>,
    now: u64,
    policy: PolicyView,
) -> Labelled
    decreases samples.len(),
{
    if samples.len() == 0 {
        Labelled { instances: Seq::empty(), cache }
    } else {
        let before = labelled_pairs(samples.drop_last(), cache, descriptors, now, policy);
        let sample = samples.last();
        let id = sample.container_id;
        let middle = after_lookup(before.cache, id, descriptors, now);
        let after = after_lookup(middle, id, descriptors, now);
        Labelled {
            instances: before.instances.push(
                CpuInstanceView {
                    user_labels: sample_labels(id, known(middle, id), policy),
                    user_ticks: sample.first,
                    system_labels: sample_labels(id, known(after, id), policy),
                    system_ticks: sample.second,
                },
            ),
            cache: after,
        }
    }
}

/// The CPU time of the containers, with their labels: user and system
/// time of each container directory of `listing` whose files give both, in
/// the unit of `cpu_ticks_per_second`. Without a listing the section
/// fails, and the cache stays as it is.
pub fn get_cpu_instances(
    env: Environment,
    listing: Option<&Vec<ContainerDir>>,
    cache: &mut ContainerCache,
    descriptors: &Vec<ContainerDetails>,
    now: u64,
    policy: &LabelPolicy,
) -> (section: Result<Vec<CpuInstance>, ScrapeError>)
    requires
        old(cache).wf(),
    ensures
        final(cache).wf(),
        match listing {
            None => section matches Err(e) && e == ScrapeError::Unreadable(Resource::Cpu)
                && final(cache)@ == old(cache)@,
            Some(dirs) => {
                let r = labelled_pairs(
                    cpu_samples_of(env, dir_views(dirs@)),
                    old(cache)@,
                    details_views(descriptors@),
                    now,
                    policy@,
                );
                &&& final(cache)@ == r.cache
                &&& section matches Ok(found) && cpu_instance_views(found@) == r.instances
            },
        },
{
    let dirs = match listing {
        None => {
            return Err(ScrapeError::Unreadable(Resource::Cpu));
        },
        Some(dirs) => dirs,
    };
    let samples = cpu_samples(env, dirs);
    let mut instances: Vec<CpuInstance> = Vec::new();
    let ghost all = pair_views(samples@);
    let ghost start = cache@;
    let ghost known_descriptors = details_views(descriptors@);
    let mut i: usize = 0;
    while i < samples.len()
        invariant
            i <= samples.len(),
            cache.wf(),
            all == pair_views(samples@),
            known_descriptors == details_views(descriptors@),
            ({
                let r = labelled_pairs(all.take(i as int), start, known_descriptors, now, policy@);
                &&& cache@ == r.cache
                &&& cpu_instance_views(instances@) == r.instances
            }),
        decreases samples.len() - i,
    {
        assert(all.take(i + 1).drop_last() =~= all.take(i as int));
        let id = samples[i].container_id.as_str();
        let user_labels = sample_label_list(id, cache, descriptors, now, policy);
        let system_labels = sample_label_list(id, cache, descriptors, now, policy);
        let instance = CpuInstance {
            user_labels,
            user_ticks: samples[i].first,
            system_labels,
            system_ticks: samples[i].second,
        };
        instances.push(instance);
        i += 1;
    }
    assert(all.take(i as int) =~= all);
    Ok(instances)
}

/// The block I/O families: bytes read and bytes written, summed over the
/// devices, one sample in each for every container directory of `listing`
/// whose file can be read. Without a listing the section fails, and the
/// cache stays as it is.
pub fn get_blkio_metrics(
    env: Environment,
    listing: Option<&Vec<ContainerDir>>,
    cache: &mut ContainerCache,
    descriptors: &Vec<ContainerDetails>,
    now: u64,
    policy: &LabelPolicy,
    timestamp: u128,
) -> (section: Result<String, ScrapeError>)
    requires
        old(cache).wf(),
    ensures
        final(cache).wf(),
        match listing {
            None => section == Err::<String, ScrapeError>(ScrapeError::Unreadable(Resource::Blkio))
                && final(cache)@ == old(cache)@,
            Some(dirs) => {
                let r = rendered_pairs(
                    blkio_samples_of(env, dir_views(dirs@)),
                    old(cache)@,
                    details_views(descriptors@),
                    now,
                    policy@,
                    timestamp,
                );
                &&& final(cache)@ == r.cache
                &&& section matches Ok(text) && text@ == family_text(Family::BlkioRead, r.first)
                    + family_text(Family::BlkioWrite, r.second)
            },
        },
{
    match listing {
        None => Err(ScrapeError::Unreadable(Resource::Blkio)),
        Some(dirs) => {
            let samples = blkio_samples(env, dirs);
            Ok(render_blkio(&samples, cache, descriptors, now, policy, timestamp))
        },
    }
}

/// What a scrape answers for its three sections: the first failure in the
/// order memory, CPU, block I/O, or else the sections' texts in that order.
pub open spec fn scrape_of(
    memory: Result<Seq<char>, ScrapeError>,
    cpu: Result<Seq<char>, ScrapeError>,
    blkio: Result<Seq<char>, ScrapeError>,
) -> Result<Seq<char>, ScrapeError> {
    match (memory, cpu, blkio) {
        (Err(e), _, _) => Err(e),
        (Ok(_), Err(e), _) => Err(e),
        (Ok(_), Ok(_), Err(e)) => Err(e),
        (Ok(m), Ok(c), Ok(b)) => Ok(m + c + b),
    }
}

/// A section's outcome, its text as characters.
pub open spec fn section_view(section: Result<String, ScrapeError>) -> Result<
    Seq<char>,
    ScrapeError,
> {
    match section {
        Ok(text) => Ok(text@),
        Err(e) => Err(e),
    }
}

/// The text of a scrape, from the texts of its three sections.
pub fn join_sections(
    memory: Result<String, ScrapeError>,
    cpu: Result<String, ScrapeError>,
    blkio: Result<String, ScrapeError>,
) -> (output: Result<String, ScrapeError>)
    ensures
        section_view(output) == scrape_of(
            section_view(memory),
            section_view(cpu),
            section_view(blkio),
        ),
{
    let mut output = match memory {
        Ok(text) => text,
        Err(e) => {
            return Err(e);
        },
    };
    match cpu {
        Ok(text) => {
            output.append(text.as_str());
        },
        Err(e) => {
            return Err(e);
        },
    }
    match blkio {
        Ok(text) => {
            output.append(text.as_str());
        },
        Err(e) => {
            return Err(e);
        },
    }
    Ok(output)
}

/// What was found in the directories of the three resources: of each its
/// entries, or nothing where the directory could not be read.
#[derive(Debug)]
pub struct Listings {
    pub memory: Option<Vec<ContainerDir>>,
    pub cpu: Option<Vec<ContainerDir>>,
    pub blkio: Option<Vec<ContainerDir>>,
}

/// A listing as texts, where there is one.
pub open spec fn listing_view(listing: Option<Vec<ContainerDir>>) -> Option<Seq<DirView>> {
    match listing {
        Some(dirs) => Some(dir_views(dirs@)),
        None => None,
    }
}

/// The memory section of a scrape and the cache after it.
pub open spec fn memory_section(
    env: Environment,
    listing: Option<Seq<DirView>>,
    cache: CacheView,
    descriptors: Seq<DetailsView>,
    now: u64,
    policy: PolicyView,
    timestamp: u128,
) -> (Result<Seq<char>, ScrapeError>, CacheView) {
    match listing {
        None => (Err(ScrapeError::Unreadable(Resource::Memory)), cache),
        Some(dirs) => {
            let r = rendered_samples(
                memory_samples_of(env.driver, dirs),
                cache,
                descriptors,
                now,
                policy,
                timestamp,
            );
            (Ok(family_text(Family::MemoryUsage, r.instances)), r.cache)
        },
    }
}

/// The CPU instances of a scrape and the cache after them.
pub open spec fn cpu_section(
    env: Environment,
    listing: Option<Seq<DirView>>,
    cache: CacheView,
    descriptors: Seq<DetailsView>,
    now: u64,
    policy: PolicyView,
) -> (Result<Seq<CpuInstanceView>, ScrapeError>, CacheView) {
    match listing {
        None => (Err(ScrapeError::Unreadable(Resource::Cpu)), cache),
        Some(dirs) => {
            let r = labelled_pairs(cpu_samples_of(env, dirs), cache, descriptors, now, policy);
            (Ok(r.instances), r.cache)
        },
    }
}

/// The block I/O section of a scrape and the cache after it.
pub open spec fn blkio_section(
    env: Environment,
    listing: Option<Seq<DirView>>,
    cache: CacheView,
    descriptors: Seq<DetailsView>,
    now: u64,
    policy: PolicyView,
    timestamp: u128,
) -> (Result<Seq<char>, ScrapeError>, CacheView) {
    match listing {
        None => (Err(ScrapeError::Unreadable(Resource::Blkio)), cache),
        Some(dirs) => {
            let r = rendered_pairs(
                blkio_samples_of(env, dirs),
                cache,
                descriptors,
                now,
                policy,
                timestamp,
            );
            (
                Ok(family_text(Family::BlkioRead, r.first) + family_text(Family::BlkioWrite, r.second)),
                r.cache,
            )
        },
    }
}

fn as_listing(listing: &Option<Vec<ContainerDir>>) -> (dirs: Option<&Vec<ContainerDir>>)
    ensures
        match dirs {
            Some(d) => *listing == Some(*d),
            None => listing.is_none(),
        },
{
    match listing {
        Some(dirs) => Some(dirs),
        None => None,
    }
}

/// Whether the listing holds a container directory whose identifier the
/// cache does not know.
pub open spec fn has_unknown_container(
    driver: DockerCgroupDriver,
    dirs: Seq<DirView>,
    cache: CacheView,
) -> bool {
    exists|i: int|
        0 <= i < dirs.len() && is_candidate(driver, #[trigger] dirs[i])
            && !cache.entries.dom().contains(cont_id_of(driver, dirs[i].name))
}

/// Whether there is a listing, and it holds a container directory whose
/// identifier the cache does not know.
pub open spec fn listing_has_unknown(
    driver: DockerCgroupDriver,
    listing: Option<Seq<DirView>>,
    cache: CacheView,
) -> bool {
    match listing {
        Some(dirs) => has_unknown_container(driver, dirs, cache),
        None => false,
    }
}

/// Whether a scrape at `now` can make use of the descriptors: a refresh
/// would be carried out, and a container directory with an identifier
/// that the cache does not know is listed.
pub open spec fn descriptors_wanted(
    env: Environment,
    memory: Option<Seq<DirView>>,
    cpu: Option<Seq<DirView>>,
    blkio: Option<Seq<DirView>>,
    cache: CacheView,
    now: u64,
) -> bool {
    refresh_due(cache, now, false) && (listing_has_unknown(env.driver, memory, cache)
        || listing_has_unknown(env.driver, cpu, cache) || listing_has_unknown(
        env.driver,
        blkio,
        cache,
    ))
}

fn holds_unknown_container(
    driver: DockerCgroupDriver,
    listing: &Option<Vec<ContainerDir>>,
    cache: &ContainerCache,
) -> (found: bool)
    requires
        cache.wf(),
    ensures
        found == listing_has_unknown(driver, listing_view(*listing), cache@),
{
    let dirs = match listing {
        Some(dirs) => dirs,
        None => {
            return false;
        },
    };
    let ghost all = dir_views(dirs@);
    let mut i: usize = 0;
    while i < dirs.len()
        invariant
            i <= dirs.len(),
            cache.wf(),
            all == dir_views(dirs@),
            listing_view(*listing) == Some(all),
            forall|j: int|
                0 <= j < i ==> !(is_candidate(driver, #[trigger] all[j])
                    && !cache@.entries.dom().contains(cont_id_of(driver, all[j].name))),
        decreases dirs.len() - i,
    {
        let dir = &dirs[i];
        if dir.is_dir {
            match container_id(driver, dir.name.as_str()) {
                Some(id) => {
                    if !cache.contains(id) {
                        assert(is_candidate(driver, all[i as int]));
                        return true;
                    }
                },
                None => {},
            }
        }
        i += 1;
    }
    false
}

/// Whether the scrape of `listings` at `now` can make use of the
/// descriptors. Where it cannot, the scrape is the same whatever
/// descriptors it is given, and the runtime's directory need not be read.
pub fn wants_descriptors(
    env: Environment,
    listings: &Listings,
    cache: &ContainerCache,
    now: u64,
) -> (wanted: bool)
    requires
        cache.wf(),
    ensures
        wanted == descriptors_wanted(
            env,
            listing_view(listings.memory),
            listing_view(listings.cpu),
            listing_view(listings.blkio),
            cache@,
            now,
        ),
{
    cache.refresh_due(now, false) && (holds_unknown_container(env.driver, &listings.memory, cache)
        || holds_unknown_container(env.driver, &listings.cpu, cache) || holds_unknown_container(
        env.driver,
        &listings.blkio,
        cache,
    ))
}

/// One scrape: the memory family, the two CPU families, the two block I/O
/// families, in this order, each with one sample for every container found
/// in `listings`. All three sections are worked through, the cache going
/// from one to the next; the first that could not be listed fails the
/// scrape.
///
/// CPU time is reported in seconds, with a fraction. `render_cpu` lays the
/// two CPU families out from the containers' times, given in the unit of
/// `cpu_ticks_per_second`, and the timestamp; their text stands between
/// the memory section and the block I/O section as it is returned.
pub fn get_metrics_string<F>(
    env: Environment,
    listings: &Listings,
    cache: &mut ContainerCache,
    descriptors: &Vec<ContainerDetails>,
    now: u64,
    policy: &LabelPolicy,
    timestamp: u128,
    render_cpu: F,
) -> (output: Result<String, ScrapeError>) where F: FnOnce(Vec<CpuInstance>, u128) -> String
    requires
        old(cache).wf(),
        forall|instances: Vec<CpuInstance>| render_cpu.requires((instances, timestamp)),
    ensures
        final(cache).wf(),
        ({
            let known = details_views(descriptors@);
            let m = memory_section(
                env,
                listing_view(listings.memory),
                old(cache)@,
                known,
                now,
                policy@,
                timestamp,
            );
            let c = cpu_section(env, listing_view(listings.cpu), m.1, known, now, policy@);
            let b = blkio_section(
                env,
                listing_view(listings.blkio),
                c.1,
                known,
                now,
                policy@,
                timestamp,
            );
            &&& final(cache)@ == b.1
            &&& match (m.0, c.0, b.0) {
                (Err(e), _, _) => output matches Err(f) && f == e,
                (Ok(_), Err(e), _) => output matches Err(f) && f == e,
                (Ok(_), Ok(_), Err(e)) => output matches Err(f) && f == e,
                (Ok(memory), Ok(cpu), Ok(blkio)) => output matches Ok(text) && exists|
                    instances: Vec<CpuInstance>,
                    seconds: String,
                |
                    cpu_instance_views(instances@) == cpu && render_cpu.ensures(
                        (instances, timestamp),
                        seconds,
                    ) && text@ == memory + seconds@ + blkio,
            }
        }),
{
    let memory = get_memory_metric(
        env,
        as_listing(&listings.memory),
        cache,
        descriptors,
        now,
        policy,
        timestamp,
    );
    let cpu = match get_cpu_instances(
        env,
        as_listing(&listings.cpu),
        cache,
        descriptors,
        now,
        policy,
    ) {
        Ok(instances) => Ok(render_cpu(instances, timestamp)),
        Err(e) => Err(e),
    };
    let blkio = get_blkio_metrics(
        env,
        as_listing(&listings.blkio),
        cache,
        descriptors,
        now,
        policy,
        timestamp,
    );
    join_sections(memory, cpu, blkio)
}

} // verus!

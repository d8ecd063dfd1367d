use cgroup_metrics::cgroup::{CgroupVersion, DockerCgroupDriver};
use cgroup_metrics::containers::{ContainerCache, ContainerConfig, ContainerDetails};
use cgroup_metrics::labels::LabelPolicy;
use cgroup_metrics::metrics::{
    blkio_samples, cpu_samples, cpu_ticks_per_second, get_blkio_metrics, get_cpu_instances,
    get_memory_metric, get_metrics_string, join_sections, memory_samples, metric_files,
    read_blkio, read_cpu, read_memory, render_blkio, render_memory, sample_label_list,
    wants_descriptors, ContainerDir, CpuInstance, Environment, Family, Listings, MetricSample, PairedSample, Resource,
    ScrapeError,
};
use cgroup_metrics::readings::ReadError;
use prometheus_exporter_base::{MetricType, PrometheusInstance, PrometheusMetric};

const ID: &str = "0123456789abcdef0123456789abcdef0123456789abcdef0123456789abcdef";
const ID2: &str = "fedcba9876543210fedcba9876543210fedcba9876543210fedcba9876543210";

fn env(version: CgroupVersion, driver: DockerCgroupDriver) -> Environment {
    Environment { version, driver }
}

fn dir(name: &str, files: &[Option<&str>]) -> ContainerDir {
    ContainerDir {
        name: name.to_string(),
        is_dir: true,
        files: files.iter().map(|f| f.map(|t| t.to_string())).collect(),
    }
}

fn details(id: &str, name: &str, image: &str, labels: &[(&str, &str)]) -> ContainerDetails {
    ContainerDetails {
        id: id.to_string(),
        name: name.to_string(),
        config: ContainerConfig {
            image: image.to_string(),
            labels: labels.iter().map(|(k, v)| (k.to_string(), v.to_string())).collect(),
        },
    }
}

fn pairs(labels: &[(&str, &str)]) -> Vec<(String, String)> {
    labels.iter().map(|(k, v)| (k.to_string(), v.to_string())).collect()
}

fn strings(items: &[&str]) -> Vec<String> {
    items.iter().map(|s| s.to_string()).collect()
}

#[test]
fn metric_files_by_resource_and_version() {
    assert_eq!(metric_files(Resource::Memory, CgroupVersion::V1), vec!["memory.usage_in_bytes"]);
    assert_eq!(metric_files(Resource::Memory, CgroupVersion::V2), vec!["memory.current"]);
    assert_eq!(
        metric_files(Resource::Cpu, CgroupVersion::V1),
        vec!["cpuacct.usage_user", "cpuacct.usage_sys"]
    );
    assert_eq!(metric_files(Resource::Cpu, CgroupVersion::V2), vec!["cpu.stat"]);
    assert_eq!(
        metric_files(Resource::Blkio, CgroupVersion::V1),
        vec!["blkio.throttle.io_service_bytes"]
    );
    assert_eq!(metric_files(Resource::Blkio, CgroupVersion::V2), vec!["io.stat"]);
    assert_eq!(Resource::Memory.name(), "memory");
    assert_eq!(Resource::Cpu.name(), "cpu");
    assert_eq!(Resource::Blkio.name(), "blkio");
}

#[test]
fn cpu_units() {
    assert_eq!(cpu_ticks_per_second(CgroupVersion::V1), 1_000_000_000);
    assert_eq!(cpu_ticks_per_second(CgroupVersion::V2), 1_000_000);
}

#[test]
fn memory_reader_yields_one_sample_for_one_container() {
    let listing = vec![dir(ID, &[Some("104857600\n")])];
    let samples = memory_samples(env(CgroupVersion::V2, DockerCgroupDriver::Cgroupfs), &listing);
    assert_eq!(samples.len(), 1);
    assert_eq!(samples[0].container_id, ID);
    assert_eq!(samples[0].value, 104857600);
}

#[test]
fn memory_reader_under_the_systemd_driver() {
    let listing = vec![
        dir("docker.service", &[Some("1\n")]),
        dir(&format!("docker-{}.scope", ID), &[Some("2048\n")]),
    ];
    let samples = memory_samples(env(CgroupVersion::V1, DockerCgroupDriver::Systemd), &listing);
    assert_eq!(samples.len(), 1);
    assert_eq!(samples[0].container_id, ID);
    assert_eq!(samples[0].value, 2048);
}

#[test]
fn entries_of_another_length_or_kind_give_no_sample() {
    let mut file = dir(ID2, &[Some("5\n")]);
    file.is_dir = false;
    let listing = vec![
        dir("system.slice", &[Some("1\n")]),
        dir(&ID[1..], &[Some("2\n")]),
        file,
        dir(&format!("{}0", ID), &[Some("3\n")]),
        dir(ID, &[Some("4\n")]),
    ];
    let e = env(CgroupVersion::V2, DockerCgroupDriver::Cgroupfs);
    let samples = memory_samples(e, &listing);
    assert_eq!(samples.len(), 1);
    assert_eq!(samples[0].container_id, ID);
    assert_eq!(samples[0].value, 4);
    let listing = vec![dir("system.slice", &[Some("user_usec 1\nsystem_usec 2\n")])];
    assert!(cpu_samples(e, &listing).is_empty());
    let listing = vec![dir("system.slice", &[Some("8:0 rbytes=1 wbytes=2\n")])];
    assert!(blkio_samples(e, &listing).is_empty());
}

#[test]
fn a_container_that_cannot_be_read_is_passed_over() {
    let listing = vec![
        dir(ID, &[None]),
        dir(ID2, &[Some("77\n")]),
        dir(ID, &[Some("garbage\n")]),
        dir(ID, &[]),
    ];
    let samples = memory_samples(env(CgroupVersion::V1, DockerCgroupDriver::Cgroupfs), &listing);
    assert_eq!(samples.len(), 1);
    assert_eq!(samples[0].container_id, ID2);
    assert_eq!(samples[0].value, 77);
}

#[test]
fn readings_of_one_directory() {
    assert_eq!(read_memory(&dir(ID, &[Some("12\n")])), Ok(12));
    assert_eq!(read_memory(&dir(ID, &[None])), Err(ReadError::MissingFile));
    assert_eq!(read_memory(&dir(ID, &[])), Err(ReadError::MissingFile));
    assert_eq!(read_memory(&dir(ID, &[Some("x")])), Err(ReadError::Malformed));
    assert_eq!(
        read_cpu(CgroupVersion::V1, &dir(ID, &[Some("3000000000\n"), Some("1500000000\n")])),
        Ok((3000000000, 1500000000))
    );
    assert_eq!(
        read_cpu(CgroupVersion::V1, &dir(ID, &[Some("3\n")])),
        Err(ReadError::MissingFile)
    );
    assert_eq!(
        read_cpu(CgroupVersion::V1, &dir(ID, &[None, Some("x")])),
        Err(ReadError::MissingFile)
    );
    assert_eq!(
        read_cpu(CgroupVersion::V1, &dir(ID, &[Some("x"), None])),
        Err(ReadError::Malformed)
    );
    assert_eq!(
        read_cpu(CgroupVersion::V1, &dir(ID, &[Some("1"), Some("1.5")])),
        Err(ReadError::Malformed)
    );
    assert_eq!(
        read_cpu(CgroupVersion::V2, &dir(ID, &[Some("user_usec 2000000\nsystem_usec 500000\n")])),
        Ok((2000000, 500000))
    );
    assert_eq!(read_cpu(CgroupVersion::V2, &dir(ID, &[None])), Err(ReadError::MissingFile));
    assert_eq!(
        read_cpu(CgroupVersion::V2, &dir(ID, &[Some("user_usec 1\n")])),
        Err(ReadError::MissingKey)
    );
    assert_eq!(
        read_blkio(CgroupVersion::V1, &dir(ID, &[Some("8:0 Read 100\n8:0 Write 50\n")])),
        Ok((100, 50))
    );
    assert_eq!(
        read_blkio(CgroupVersion::V2, &dir(ID, &[Some("8:0 rbytes=100 wbytes=50\n")])),
        Ok((100, 50))
    );
    assert_eq!(read_blkio(CgroupVersion::V2, &dir(ID, &[None])), Err(ReadError::MissingFile));
    assert_eq!(
        read_blkio(CgroupVersion::V1, &dir(ID, &[Some("8:0 Read 18446744073709551615\n8:1 Read 1\n")])),
        Err(ReadError::Overflow)
    );
}

#[test]
fn cpu_reader_v1_gives_nanoseconds() {
    let listing = vec![dir(ID, &[Some("3000000000\n"), Some("1500000000\n")])];
    let e = env(CgroupVersion::V1, DockerCgroupDriver::Cgroupfs);
    let samples = cpu_samples(e, &listing);
    assert_eq!(samples.len(), 1);
    let unit = cpu_ticks_per_second(e.version) as f64;
    assert_eq!(samples[0].first as f64 / unit, 3.0);
    assert_eq!(samples[0].second as f64 / unit, 1.5);
}

#[test]
fn cpu_reader_v2_gives_microseconds() {
    let listing = vec![dir(ID, &[Some("user_usec 2000000\nsystem_usec 500000\n")])];
    let e = env(CgroupVersion::V2, DockerCgroupDriver::Cgroupfs);
    let samples = cpu_samples(e, &listing);
    assert_eq!(samples.len(), 1);
    assert_eq!(samples[0].container_id, ID);
    let unit = cpu_ticks_per_second(e.version) as f64;
    assert_eq!(samples[0].first as f64 / unit, 2.0);
    assert_eq!(samples[0].second as f64 / unit, 0.5);
}

#[test]
fn blkio_reader_v1_sums_the_devices() {
    let listing = vec![dir(ID, &[Some("8:0 Read 100\n8:0 Write 50\n8:16 Read 100\n8:16 Write 50\n")])];
    let samples = blkio_samples(env(CgroupVersion::V1, DockerCgroupDriver::Cgroupfs), &listing);
    assert_eq!(samples.len(), 1);
    assert_eq!(samples[0].container_id, ID);
    assert_eq!(samples[0].first, 200);
    assert_eq!(samples[0].second, 100);
}

#[test]
fn family_names_help_and_kinds() {
    assert_eq!(Family::MemoryUsage.name(), "container_memory_usage");
    assert_eq!(Family::CpuUser.name(), "container_cpu_user_total");
    assert_eq!(Family::CpuSystem.name(), "container_cpu_system_total");
    assert_eq!(Family::BlkioRead.name(), "container_blkio_read_total");
    assert_eq!(Family::BlkioWrite.name(), "container_blkio_write_total");
    assert_eq!(Family::MemoryUsage.help(), "Memory used by the container, in bytes");
    assert_eq!(Family::CpuUser.help(), "CPU seconds used by the container in userspace");
    assert_eq!(Family::CpuSystem.help(), "CPU seconds used by the container in kernelspace");
    assert_eq!(Family::BlkioRead.help(), "Bytes read from disk by the container");
    assert_eq!(Family::BlkioWrite.help(), "Bytes written to disk by the container");
}

#[test]
fn memory_family_without_metadata_carries_the_identifier_alone() {
    let mut cache = ContainerCache::new(2000);
    let samples = vec![MetricSample { container_id: ID.to_string(), value: 104857600 }];
    let text = render_memory(&samples, &mut cache, &vec![], 0, &LabelPolicy::All, 1700000000123);
    assert_eq!(
        text,
        format!(
            "# HELP container_memory_usage Memory used by the container, in bytes\n\
             # TYPE container_memory_usage gauge\n\
             container_memory_usage{{id=\"{}\"}} 104857600 1700000000123\n\n",
            ID
        )
    );
}

#[test]
fn memory_family_without_samples_is_its_header() {
    let mut cache = ContainerCache::new(2000);
    let text = render_memory(&vec![], &mut cache, &vec![], 0, &LabelPolicy::All, 1);
    assert_eq!(
        text,
        "# HELP container_memory_usage Memory used by the container, in bytes\n\
         # TYPE container_memory_usage gauge\n\n"
    );
}

#[test]
fn memory_family_with_metadata_carries_name_image_and_labels() {
    let mut cache = ContainerCache::new(2000);
    let known = vec![details(
        ID,
        "/web",
        "nginx:1.25",
        &[("com.docker.compose.project", "shop"), ("tier-name", "front")],
    )];
    let samples = vec![
        MetricSample { container_id: ID.to_string(), value: 1 },
        MetricSample { container_id: ID2.to_string(), value: 0 },
    ];
    let text = render_memory(&samples, &mut cache, &known, 5, &LabelPolicy::All, 99);
    assert_eq!(
        text,
        format!(
            "# HELP container_memory_usage Memory used by the container, in bytes\n\
             # TYPE container_memory_usage gauge\n\
             container_memory_usage{{id=\"{}\",name=\"/web\",image=\"nginx:1.25\",container_label_com_docker_compose_project=\"shop\",container_label_tier_name=\"front\"}} 1 99\n\
             container_memory_usage{{id=\"{}\"}} 0 99\n\n",
            ID, ID2
        )
    );
}

#[test]
fn only_the_wanted_label_is_attached() {
    let mut cache = ContainerCache::new(2000);
    let known = vec![details(ID, "/web", "nginx", &[("env", "prod"), ("team", "x")])];
    let policy = LabelPolicy::Include(strings(&["env"]));
    let labels = sample_label_list(ID, &mut cache, &known, 0, &policy);
    assert_eq!(
        labels,
        pairs(&[("id", ID), ("name", "/web"), ("image", "nginx"), ("container_label_env", "prod")])
    );
    let samples = vec![MetricSample { container_id: ID.to_string(), value: 7 }];
    let text = render_memory(&samples, &mut cache, &known, 0, &policy, 1);
    assert!(text.contains("container_label_env=\"prod\""));
    assert!(!text.contains("team"));
    assert!(text.contains(&format!(
        "container_memory_usage{{id=\"{}\",name=\"/web\",image=\"nginx\",container_label_env=\"prod\"}} 7 1\n",
        ID
    )));
}

#[test]
fn the_unwanted_label_is_left_out() {
    let mut cache = ContainerCache::new(2000);
    let known = vec![details(ID, "/web", "nginx", &[("env", "prod"), ("team", "x")])];
    let policy = LabelPolicy::Exclude(strings(&["env"]));
    let labels = sample_label_list(ID, &mut cache, &known, 0, &policy);
    assert_eq!(
        labels,
        pairs(&[("id", ID), ("name", "/web"), ("image", "nginx"), ("container_label_team", "x")])
    );
    let samples = vec![MetricSample { container_id: ID.to_string(), value: 7 }];
    let text = render_memory(&samples, &mut cache, &known, 0, &policy, 1);
    assert!(text.contains(&format!(
        "container_memory_usage{{id=\"{}\",name=\"/web\",image=\"nginx\",container_label_team=\"x\"}} 7 1\n",
        ID
    )));
}

#[test]
fn labels_whose_keys_become_equal_are_both_attached() {
    let mut cache = ContainerCache::new(2000);
    let known = vec![details(ID, "n", "i", &[("a.b", "1"), ("a-b", "2")])];
    let samples = vec![MetricSample { container_id: ID.to_string(), value: 7 }];
    let text = render_memory(&samples, &mut cache, &known, 0, &LabelPolicy::All, 1);
    assert!(text.contains("container_label_a_b=\"1\",container_label_a_b=\"2\"} 7 1\n"));
}

#[test]
fn rendering_agrees_with_the_exporter_crate() {
    let mut metric = PrometheusMetric::build()
        .with_name("container_memory_usage")
        .with_metric_type(MetricType::Gauge)
        .with_help("Memory used by the container, in bytes")
        .build();
    metric.render_and_append_instance(
        &PrometheusInstance::new()
            .with_value(18446744073709551615u64)
            .with_label("id", ID)
            .with_timestamp(340282366920938463463374607431768211455u128)
            .with_label("name", "/db")
            .with_label("image", "postgres:16")
            .with_label("container_label_a_b", "c\"d, e} 5 6"),
    );
    metric.render_and_append_instance(
        &PrometheusInstance::new().with_value(0u64).with_label("id", ID2).with_timestamp(0),
    );
    let expected = metric.render() + "\n";

    let mut cache = ContainerCache::new(0);
    let known = vec![details(ID, "/db", "postgres:16", &[("a.b", "c\"d, e} 5 6")])];
    let samples = vec![MetricSample { container_id: ID.to_string(), value: u64::MAX }];
    let first = render_memory(&samples, &mut cache, &known, 0, &LabelPolicy::All, u128::MAX);
    let samples = vec![MetricSample { container_id: ID2.to_string(), value: 0 }];
    let second = render_memory(&samples, &mut cache, &known, 0, &LabelPolicy::All, 0);
    let header = "# HELP container_memory_usage Memory used by the container, in bytes\n# TYPE container_memory_usage gauge\n";
    let first_line = first.strip_prefix(header).unwrap().strip_suffix("\n\n").unwrap();
    let second_line = second.strip_prefix(header).unwrap().strip_suffix("\n\n").unwrap();
    assert_eq!(format!("{}{}\n{}\n\n", header, first_line, second_line), expected);
}

#[test]
fn blkio_families_read_then_written() {
    let mut cache = ContainerCache::new(2000);
    let samples = vec![PairedSample { container_id: ID.to_string(), first: 200, second: 100 }];
    let text = render_blkio(&samples, &mut cache, &vec![], 0, &LabelPolicy::All, 42);
    assert_eq!(
        text,
        format!(
            "# HELP container_blkio_read_total Bytes read from disk by the container\n\
             # TYPE container_blkio_read_total counter\n\
             container_blkio_read_total{{id=\"{}\"}} 200 42\n\n\
             # HELP container_blkio_write_total Bytes written to disk by the container\n\
             # TYPE container_blkio_write_total counter\n\
             container_blkio_write_total{{id=\"{}\"}} 100 42\n\n",
            ID, ID
        )
    );
}

#[test]
fn a_rendered_line_parses_back_to_name_identifier_and_value() {
    let mut cache = ContainerCache::new(2000);
    let known = vec![details(ID, "/web", "nginx", &[("note", "a} 1 2")])];
    let samples = vec![MetricSample { container_id: ID.to_string(), value: 104857600 }];
    let text = render_memory(&samples, &mut cache, &known, 0, &LabelPolicy::All, 1700000000123);
    let line = text.lines().nth(2).unwrap();
    let name = &line[..line.find('{').unwrap()];
    let after = &line[name.len() + "{id=\"".len()..];
    let id = &after[..after.find('"').unwrap()];
    let mut words = line.rsplit(' ');
    let timestamp: u128 = words.next().unwrap().parse().unwrap();
    let value: u64 = words.next().unwrap().parse().unwrap();
    assert_eq!(name, "container_memory_usage");
    assert_eq!(id, ID);
    assert_eq!(value, 104857600);
    assert_eq!(timestamp, 1700000000123);
}

#[test]
fn sections_from_listings() {
    let e = env(CgroupVersion::V2, DockerCgroupDriver::Cgroupfs);
    let mut cache = ContainerCache::new(2000);
    let known = vec![details(ID, "/web", "nginx", &[])];
    let memory = get_memory_metric(
        e,
        Some(&vec![dir(ID, &[Some("104857600\n")]), dir("init.scope", &[Some("1\n")])]),
        &mut cache,
        &known,
        10,
        &LabelPolicy::All,
        77,
    );
    assert_eq!(
        memory,
        Ok(format!(
            "# HELP container_memory_usage Memory used by the container, in bytes\n\
             # TYPE container_memory_usage gauge\n\
             container_memory_usage{{id=\"{}\",name=\"/web\",image=\"nginx\"}} 104857600 77\n\n",
            ID
        ))
    );
    let blkio = get_blkio_metrics(
        e,
        Some(&vec![dir(ID, &[Some("8:0 rbytes=100 wbytes=50\n8:16 rbytes=100 wbytes=50\n")])]),
        &mut cache,
        &known,
        10,
        &LabelPolicy::All,
        78,
    );
    assert_eq!(
        blkio,
        Ok(format!(
            "# HELP container_blkio_read_total Bytes read from disk by the container\n\
             # TYPE container_blkio_read_total counter\n\
             container_blkio_read_total{{id=\"{}\",name=\"/web\",image=\"nginx\"}} 200 78\n\n\
             # HELP container_blkio_write_total Bytes written to disk by the container\n\
             # TYPE container_blkio_write_total counter\n\
             container_blkio_write_total{{id=\"{}\",name=\"/web\",image=\"nginx\"}} 100 78\n\n",
            ID, ID
        ))
    );
    let cpu = get_cpu_instances(
        e,
        Some(&vec![dir(ID, &[Some("user_usec 2000000\nsystem_usec 500000\n")])]),
        &mut cache,
        &known,
        10,
        &LabelPolicy::All,
    )
    .unwrap();
    assert_eq!(cpu.len(), 1);
    assert_eq!(cpu[0].user_ticks, 2000000);
    assert_eq!(cpu[0].system_ticks, 500000);
    assert_eq!(cpu[0].user_labels, pairs(&[("id", ID), ("name", "/web"), ("image", "nginx")]));
    assert_eq!(cpu[0].system_labels, cpu[0].user_labels);
}

#[test]
fn a_section_without_listing_fails() {
    let e = env(CgroupVersion::V1, DockerCgroupDriver::Systemd);
    let mut cache = ContainerCache::new(2000);
    assert_eq!(
        get_memory_metric(e, None, &mut cache, &vec![], 0, &LabelPolicy::All, 0),
        Err(ScrapeError::Unreadable(Resource::Memory))
    );
    assert_eq!(
        get_blkio_metrics(e, None, &mut cache, &vec![], 0, &LabelPolicy::All, 0),
        Err(ScrapeError::Unreadable(Resource::Blkio))
    );
    assert_eq!(
        get_cpu_instances(e, None, &mut cache, &vec![], 0, &LabelPolicy::All).err(),
        Some(ScrapeError::Unreadable(Resource::Cpu))
    );
    assert_eq!(cache.len(), 0);
}

fn render_cpu(instances: Vec<CpuInstance>, unit: f64, timestamp: u128) -> String {
    let mut user = PrometheusMetric::build()
        .with_name(Family::CpuUser.name())
        .with_metric_type(MetricType::Counter)
        .with_help(Family::CpuUser.help())
        .build();
    let mut system = PrometheusMetric::build()
        .with_name(Family::CpuSystem.name())
        .with_metric_type(MetricType::Counter)
        .with_help(Family::CpuSystem.help())
        .build();
    for instance in &instances {
        let mut u = PrometheusInstance::new()
            .with_value(instance.user_ticks as f64 / unit)
            .with_timestamp(timestamp);
        for (k, v) in &instance.user_labels {
            u = u.with_label(k.as_str(), v.as_str());
        }
        user.render_and_append_instance(&u);
        let mut s = PrometheusInstance::new()
            .with_value(instance.system_ticks as f64 / unit)
            .with_timestamp(timestamp);
        for (k, v) in &instance.system_labels {
            s = s.with_label(k.as_str(), v.as_str());
        }
        system.render_and_append_instance(&s);
    }
    user.render() + "\n" + &system.render() + "\n"
}

#[test]
fn scrape_gives_the_five_families_in_order() {
    let e = env(CgroupVersion::V2, DockerCgroupDriver::Cgroupfs);
    let unit = cpu_ticks_per_second(e.version) as f64;
    let listings = Listings {
        memory: Some(vec![dir(ID, &[Some("104857600\n")])]),
        cpu: Some(vec![dir(ID, &[Some("user_usec 2000000\nsystem_usec 500000\n")])]),
        blkio: Some(vec![dir(ID, &[Some("8:0 rbytes=100 wbytes=50\n8:16 rbytes=100 wbytes=50\n")])]),
    };
    let mut cache = ContainerCache::new(2000);
    let known = vec![details(ID, "/web", "nginx", &[("env", "prod"), ("team", "x")])];
    let policy = LabelPolicy::Include(strings(&["env"]));
    let text = get_metrics_string(e, &listings, &mut cache, &known, 10, &policy, 1700000000123, |i, t| {
        render_cpu(i, unit, t)
    })
    .unwrap();
    let labels = format!(
        "{{id=\"{}\",name=\"/web\",image=\"nginx\",container_label_env=\"prod\"}}",
        ID
    );
    assert_eq!(
        text,
        format!(
            "# HELP container_memory_usage Memory used by the container, in bytes\n\
             # TYPE container_memory_usage gauge\n\
             container_memory_usage{l} 104857600 1700000000123\n\n\
             # HELP container_cpu_user_total CPU seconds used by the container in userspace\n\
             # TYPE container_cpu_user_total counter\n\
             container_cpu_user_total{l} 2 1700000000123\n\n\
             # HELP container_cpu_system_total CPU seconds used by the container in kernelspace\n\
             # TYPE container_cpu_system_total counter\n\
             container_cpu_system_total{l} 0.5 1700000000123\n\n\
             # HELP container_blkio_read_total Bytes read from disk by the container\n\
             # TYPE container_blkio_read_total counter\n\
             container_blkio_read_total{l} 200 1700000000123\n\n\
             # HELP container_blkio_write_total Bytes written to disk by the container\n\
             # TYPE container_blkio_write_total counter\n\
             container_blkio_write_total{l} 100 1700000000123\n\n",
            l = labels
        )
    );
    assert_eq!(cache.len(), 1);
}

#[test]
fn scrape_without_containers_gives_the_five_headers() {
    let e = env(CgroupVersion::V1, DockerCgroupDriver::Systemd);
    let listings = Listings { memory: Some(vec![]), cpu: Some(vec![]), blkio: Some(vec![]) };
    let mut cache = ContainerCache::new(2000);
    let text = get_metrics_string(e, &listings, &mut cache, &vec![], 0, &LabelPolicy::All, 0, |i, t| {
        render_cpu(i, 1e9, t)
    })
    .unwrap();
    let families: Vec<&str> = text.lines().filter(|l| l.starts_with("# TYPE ")).collect();
    assert_eq!(
        families,
        vec![
            "# TYPE container_memory_usage gauge",
            "# TYPE container_cpu_user_total counter",
            "# TYPE container_cpu_system_total counter",
            "# TYPE container_blkio_read_total counter",
            "# TYPE container_blkio_write_total counter",
        ]
    );
    assert_eq!(text.lines().filter(|l| l.starts_with("# HELP ")).count(), 5);
    assert_eq!(text.lines().filter(|l| !l.is_empty() && !l.starts_with('#')).count(), 0);
}

#[test]
fn scrape_fails_with_the_first_directory_that_could_not_be_listed() {
    let e = env(CgroupVersion::V2, DockerCgroupDriver::Cgroupfs);
    let mut cache = ContainerCache::new(2000);
    let known = vec![details(ID, "/web", "nginx", &[])];
    let full = || Some(vec![dir(ID, &[Some("1\n")])]);
    let run = |listings: Listings, cache: &mut ContainerCache| {
        get_metrics_string(e, &listings, cache, &known, 0, &LabelPolicy::All, 0, |_, _| String::new())
    };
    assert_eq!(
        run(Listings { memory: None, cpu: None, blkio: None }, &mut cache),
        Err(ScrapeError::Unreadable(Resource::Memory))
    );
    assert_eq!(cache.len(), 0);
    assert_eq!(
        run(Listings { memory: Some(vec![]), cpu: None, blkio: None }, &mut cache),
        Err(ScrapeError::Unreadable(Resource::Cpu))
    );
    assert_eq!(
        run(Listings { memory: Some(vec![]), cpu: Some(vec![]), blkio: None }, &mut cache),
        Err(ScrapeError::Unreadable(Resource::Blkio))
    );
    assert_eq!(cache.len(), 0);
    // the sections that can be listed are still worked through
    assert_eq!(
        run(Listings { memory: None, cpu: None, blkio: full() }, &mut cache),
        Err(ScrapeError::Unreadable(Resource::Memory))
    );
    assert_eq!(cache.len(), 1);
}

#[test]
fn descriptors_are_wanted_for_an_unknown_container_when_a_refresh_is_due() {
    let e = env(CgroupVersion::V2, DockerCgroupDriver::Cgroupfs);
    let known = vec![details(ID, "/web", "nginx", &[])];
    let with = |name: &str| Listings {
        memory: Some(vec![]),
        cpu: None,
        blkio: Some(vec![dir("system.slice", &[]), dir(name, &[None])]),
    };
    let mut cache = ContainerCache::new(2000);
    // never refreshed, but nothing listed that could be a container
    assert!(!wants_descriptors(e, &with("init.scope"), &cache, 0));
    // an unknown container and a refresh that is due
    assert!(wants_descriptors(e, &with(ID), &cache, 0));
    assert!(cache.lookup(ID, &known, 1000).is_some());
    // the container is known now
    assert!(!wants_descriptors(e, &with(ID), &cache, 5000));
    // another one is not, but the last attempt is too recent
    assert!(!wants_descriptors(e, &with(ID2), &cache, 2999));
    assert!(wants_descriptors(e, &with(ID2), &cache, 3000));
    // an entry that is no directory does not count
    let mut file = dir(ID2, &[]);
    file.is_dir = false;
    let listings = Listings { memory: Some(vec![file]), cpu: None, blkio: None };
    assert!(!wants_descriptors(e, &listings, &cache, 3000));
}

#[test]
fn a_scrape_that_wants_no_descriptors_ignores_them() {
    let e = env(CgroupVersion::V2, DockerCgroupDriver::Cgroupfs);
    let listings = Listings {
        memory: Some(vec![dir(ID, &[Some("1\n")])]),
        cpu: Some(vec![dir(ID, &[Some("user_usec 1\nsystem_usec 2\n")])]),
        blkio: Some(vec![dir(ID, &[Some("8:0 rbytes=1 wbytes=2\n")])]),
    };
    let mut cache = ContainerCache::new(2000);
    assert!(cache.lookup(ID, &vec![details(ID, "/web", "nginx", &[])], 0).is_some());
    assert!(!wants_descriptors(e, &listings, &cache, 10_000));
    let changed = vec![details(ID, "/other", "redis", &[]), details(ID2, "/x", "y", &[])];
    let mut first = ContainerCache::new(2000);
    assert!(first.lookup(ID, &vec![details(ID, "/web", "nginx", &[])], 0).is_some());
    let with = get_metrics_string(e, &listings, &mut first, &changed, 10_000, &LabelPolicy::All, 5, |i, t| {
        render_cpu(i, 1e6, t)
    });
    let without = get_metrics_string(e, &listings, &mut cache, &vec![], 10_000, &LabelPolicy::All, 5, |i, t| {
        render_cpu(i, 1e6, t)
    });
    assert_eq!(with, without);
    assert!(with.unwrap().contains("name=\"/web\""));
    assert_eq!(first.len(), 1);
    assert_eq!(cache.len(), 1);
}

#[test]
fn sections_are_joined_in_order() {
    assert_eq!(
        join_sections(Ok("m\n".to_string()), Ok("c\n".to_string()), Ok("b\n".to_string())),
        Ok("m\nc\nb\n".to_string())
    );
}

#[test]
fn joined_sections_fail_with_the_first_failure() {
    let memory = Err(ScrapeError::Unreadable(Resource::Memory));
    let cpu = Err(ScrapeError::Unreadable(Resource::Cpu));
    let blkio = Err(ScrapeError::Unreadable(Resource::Blkio));
    assert_eq!(join_sections(memory.clone(), cpu.clone(), blkio.clone()), memory);
    assert_eq!(join_sections(Ok("m".to_string()), cpu.clone(), blkio.clone()), cpu);
    assert_eq!(join_sections(Ok("m".to_string()), Ok("c".to_string()), blkio.clone()), blkio);
    assert_eq!(join_sections(memory.clone(), Ok("c".to_string()), Ok("b".to_string())), memory);
}

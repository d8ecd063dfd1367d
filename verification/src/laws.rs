//! What holds of the library as a whole, proved from the definitions that
//! its contracts use.

use vstd::prelude::*;
use vstd::utf8::{
    encode_utf8, encode_utf8_decode_utf8, encode_utf8_valid_utf8, is_ascii_chars,
    is_ascii_chars_encode_utf8, is_char_boundary_iff_not_is_continuation_byte,
};
use crate::cgroup::{
    cgroup_subdir, cont_id_of, is_container_dir_name, join_path, CgroupVersion,
    DockerCgroupDriver,
};
use crate::containers::{after_lookup, lookup_refreshes, refresh_due, CacheView, DetailsView};
use crate::metrics::{
    blkio_reading, blkio_section, cpu_reading, cpu_section, descriptors_wanted, family_name,
    is_candidate, labelled_pairs, memory_samples_of, memory_section, paired_samples_of,
    rendered_pairs, rendered_samples, sample_line, DirView, Environment, Family, PairView,
    SampleView,
};
use crate::exposition::{
    decimal, digit_char, label_text, labels_text, line_id, line_name, line_value,
};
use crate::labels::{sample_labels, PolicyView};
use crate::readings::ReadError;
use crate::text::{
    all_digits, before_first, digit_value, digits_value, is_ascii_space, is_digit, parse_u64,
    tail_word, unsigned_part,
};

verus! {

/// `root` with a separator at its end.
pub open spec fn as_dir(root: Seq<char>) -> Seq<char> {
    if root.len() > 0 && root.last() == '/' {
        root
    } else {
        root + seq!['/']
    }
}

/// The containers of a resource are listed in `<root>/<resource>/docker`
/// or `<root>/<resource>/system.slice` under V1, and in `<root>/docker` or
/// `<root>/system.slice` under V2, with one separator after the root
/// whether or not the root ends in one. (The root is not empty; a
/// resource's name is not empty and begins with no separator.)
pub proof fn law_cgroup_dirs(root: Seq<char>, resource: Seq<char>)
    requires
        root.len() > 0,
        resource.len() > 0,
        resource[0] != '/',
    ensures
        join_path(
            root,
            cgroup_subdir(CgroupVersion::V1, DockerCgroupDriver::Cgroupfs, resource),
        ) == as_dir(root) + resource + "/docker"@,
        join_path(
            root,
            cgroup_subdir(CgroupVersion::V1, DockerCgroupDriver::Systemd, resource),
        ) == as_dir(root) + resource + "/system.slice"@,
        join_path(
            root,
            cgroup_subdir(CgroupVersion::V2, DockerCgroupDriver::Cgroupfs, resource),
        ) == as_dir(root) + "docker"@,
        join_path(
            root,
            cgroup_subdir(CgroupVersion::V2, DockerCgroupDriver::Systemd, resource),
        ) == as_dir(root) + "system.slice"@,
{
    reveal_strlit("docker");
    reveal_strlit("system.slice");
}

/// A container's identifier: 64 hexadecimal digits.
pub open spec fn is_hex_id(id: Seq<char>) -> bool {
    &&& id.len() == 64
    &&& forall|i: int|
        0 <= i < id.len() ==> ('0' <= #[trigger] id[i] <= '9') || ('a' <= id[i] <= 'f')
}

/// Under the plain-path driver an identifier is the name of its container's
/// directory, and the name gives it back unchanged.
pub proof fn law_plain_name_is_the_id(id: Seq<char>)
    requires
        is_hex_id(id),
    ensures
        is_container_dir_name(DockerCgroupDriver::Cgroupfs, id),
        cont_id_of(DockerCgroupDriver::Cgroupfs, id) == id,
{
    is_ascii_chars_encode_utf8(id);
}

/// A name of 77 ASCII characters is a container directory's under the
/// systemd driver, and the identifier that it holds is made of its
/// characters 7 to 70.
pub proof fn law_ascii_scope_name(name: Seq<char>)
    requires
        name.len() == 77,
        is_ascii_chars(name),
    ensures
        is_container_dir_name(DockerCgroupDriver::Systemd, name),
        cont_id_of(DockerCgroupDriver::Systemd, name) == name.subrange(7, 71),
{
    let bytes = encode_utf8(name);
    let id = name.subrange(7, 71);
    is_ascii_chars_encode_utf8(name);
    encode_utf8_valid_utf8(name);
    is_char_boundary_iff_not_is_continuation_byte(bytes, 7);
    is_char_boundary_iff_not_is_continuation_byte(bytes, 71);
    is_ascii_chars_encode_utf8(id);
    assert(bytes.subrange(7, 71) =~= encode_utf8(id));
    encode_utf8_decode_utf8(id);
}

/// Under the systemd driver the name `docker-<id>.scope` is a container
/// directory's, and gives exactly the identifier that it was made of.
pub proof fn law_scope_name_holds_the_id(id: Seq<char>)
    requires
        is_hex_id(id),
    ensures
        is_container_dir_name(DockerCgroupDriver::Systemd, "docker-"@ + id + ".scope"@),
        cont_id_of(DockerCgroupDriver::Systemd, "docker-"@ + id + ".scope"@) == id,
{
    reveal_strlit("docker-");
    reveal_strlit(".scope");
    let name = "docker-"@ + id + ".scope"@;
    law_ascii_scope_name(name);
}

/// Two look-ups within the minimum interval attempt at most one refresh,
/// whatever identifier the second one asks for.
pub proof fn law_one_refresh_within_the_interval(
    cache: CacheView,
    id: Seq<char>,
    descriptors: Seq<DetailsView>,
    first: u64,
    other: Seq<char>,
    second: u64,
)
    requires
        first <= second,
        second - first < cache.min_interval,
    ensures
        !(lookup_refreshes(cache, id, first) && lookup_refreshes(
            after_lookup(cache, id, descriptors, first),
            other,
            second,
        )),
{
}

/// Once the minimum interval has passed since the last attempt, the
/// look-up of an unknown identifier attempts a refresh again.
pub proof fn law_refresh_after_the_interval(
    cache: CacheView,
    id: Seq<char>,
    descriptors: Seq<DetailsView>,
    last: u64,
    now: u64,
)
    requires
        cache.last_attempt == Some(last),
        last <= now,
        now - last >= cache.min_interval,
        !cache.entries.dom().contains(id),
    ensures
        lookup_refreshes(cache, id, now),
        after_lookup(cache, id, descriptors, now).last_attempt == Some(now),
{
}

/// Every memory sample comes from an entry of the listing that is a
/// directory with a name of the driver's form, and carries the identifier
/// that this name holds.
pub proof fn law_memory_samples_come_from_container_dirs(
    driver: DockerCgroupDriver,
    dirs: Seq<DirView>,
    k: int,
) -> (i: int)
    requires
        0 <= k < memory_samples_of(driver, dirs).len(),
    ensures
        0 <= i < dirs.len(),
        is_candidate(driver, dirs[i]),
        memory_samples_of(driver, dirs)[k].container_id == cont_id_of(driver, dirs[i].name),
    decreases dirs.len(),
{
    let before = memory_samples_of(driver, dirs.drop_last());
    if k < before.len() {
        law_memory_samples_come_from_container_dirs(driver, dirs.drop_last(), k)
    } else {
        dirs.len() - 1
    }
}

/// Every paired sample (CPU time, block I/O) comes from an entry of the
/// listing that is a directory with a name of the driver's form, and
/// carries the identifier that this name holds.
pub proof fn law_paired_samples_come_from_container_dirs(
    driver: DockerCgroupDriver,
    dirs: Seq<DirView>,
    reading: spec_fn(DirView) -> Result<(u64, u64), ReadError>,
    k: int,
) -> (i: int)
    requires
        0 <= k < paired_samples_of(driver, dirs, reading).len(),
    ensures
        0 <= i < dirs.len(),
        is_candidate(driver, dirs[i]),
        paired_samples_of(driver, dirs, reading)[k].container_id == cont_id_of(
            driver,
            dirs[i].name,
        ),
    decreases dirs.len(),
{
    let before = paired_samples_of(driver, dirs.drop_last(), reading);
    if k < before.len() {
        law_paired_samples_come_from_container_dirs(driver, dirs.drop_last(), reading, k)
    } else {
        dirs.len() - 1
    }
}

/// A listing without an entry of the driver's form gives no sample.
pub proof fn law_no_candidate_no_sample(
    driver: DockerCgroupDriver,
    dirs: Seq<DirView>,
    reading: spec_fn(DirView) -> Result<(u64, u64), ReadError>,
)
    requires
        forall|i: int| 0 <= i < dirs.len() ==> !is_candidate(driver, #[trigger] dirs[i]),
    ensures
        memory_samples_of(driver, dirs) == Seq::<SampleView>::empty(),
        paired_samples_of(driver, dirs, reading) == Seq::<PairView>::empty(),
    decreases dirs.len(),
{
    if dirs.len() > 0 {
        law_no_candidate_no_sample(driver, dirs.drop_last(), reading);
    }
}

/// Whether looking `id` up at `now` leaves the cache as it is: the
/// identifier is known, or no refresh would be carried out.
spec fn settled(cache: CacheView, id: Seq<char>, now: u64) -> bool {
    cache.entries.dom().contains(id) || !refresh_due(cache, now, false)
}

proof fn lemma_settled_samples(
    samples: Seq<SampleView>,
    cache: CacheView,
    one: Seq<DetailsView>,
    other: Seq<DetailsView>,
    now: u64,
    policy: PolicyView,
    timestamp: u128,
)
    requires
        forall|k: int| 0 <= k < samples.len() ==> settled(cache, (#[trigger] samples[k]).container_id, now),
    ensures
        rendered_samples(samples, cache, one, now, policy, timestamp) == rendered_samples(
            samples,
            cache,
            other,
            now,
            policy,
            timestamp,
        ),
        rendered_samples(samples, cache, one, now, policy, timestamp).cache == cache,
    decreases samples.len(),
{
    if samples.len() > 0 {
        lemma_settled_samples(samples.drop_last(), cache, one, other, now, policy, timestamp);
    }
}

proof fn lemma_settled_pairs(
    samples: Seq<PairView>,
    cache: CacheView,
    one: Seq<DetailsView>,
    other: Seq<DetailsView>,
    now: u64,
    policy: PolicyView,
    timestamp: u128,
)
    requires
        forall|k: int| 0 <= k < samples.len() ==> settled(cache, (#[trigger] samples[k]).container_id, now),
    ensures
        rendered_pairs(samples, cache, one, now, policy, timestamp) == rendered_pairs(
            samples,
            cache,
            other,
            now,
            policy,
            timestamp,
        ),
        rendered_pairs(samples, cache, one, now, policy, timestamp).cache == cache,
        labelled_pairs(samples, cache, one, now, policy) == labelled_pairs(
            samples,
            cache,
            other,
            now,
            policy,
        ),
        labelled_pairs(samples, cache, one, now, policy).cache == cache,
    decreases samples.len(),
{
    if samples.len() > 0 {
        lemma_settled_pairs(samples.drop_last(), cache, one, other, now, policy, timestamp);
    }
}

/// Where a scrape cannot make use of the descriptors (no refresh would be
/// carried out, or the cache knows every container directory that is
/// listed), it gives the same sections whatever descriptors it is given,
/// and leaves the cache as it is.
pub proof fn law_unwanted_descriptors_change_nothing(
    env: Environment,
    memory: Option<Seq<DirView>>,
    cpu: Option<Seq<DirView>>,
    blkio: Option<Seq<DirView>>,
    cache: CacheView,
    one: Seq<DetailsView>,
    other: Seq<DetailsView>,
    now: u64,
    policy: PolicyView,
    timestamp: u128,
)
    requires
        !descriptors_wanted(env, memory, cpu, blkio, cache, now),
    ensures
        memory_section(env, memory, cache, one, now, policy, timestamp) == memory_section(
            env,
            memory,
            cache,
            other,
            now,
            policy,
            timestamp,
        ),
        memory_section(env, memory, cache, one, now, policy, timestamp).1 == cache,
        cpu_section(env, cpu, cache, one, now, policy) == cpu_section(
            env,
            cpu,
            cache,
            other,
            now,
            policy,
        ),
        cpu_section(env, cpu, cache, one, now, policy).1 == cache,
        blkio_section(env, blkio, cache, one, now, policy, timestamp) == blkio_section(
            env,
            blkio,
            cache,
            other,
            now,
            policy,
            timestamp,
        ),
        blkio_section(env, blkio, cache, one, now, policy, timestamp).1 == cache,
{
    let driver = env.driver;
    if let Some(dirs) = memory {
        let samples = memory_samples_of(driver, dirs);
        assert forall|k: int| 0 <= k < samples.len() implies settled(
            cache,
            (#[trigger] samples[k]).container_id,
            now,
        ) by {
            law_memory_samples_come_from_container_dirs(driver, dirs, k);
        }
        lemma_settled_samples(samples, cache, one, other, now, policy, timestamp);
    }
    if let Some(dirs) = cpu {
        let reading = |dir: DirView| cpu_reading(env.version, dir);
        let samples = paired_samples_of(driver, dirs, reading);
        assert forall|k: int| 0 <= k < samples.len() implies settled(
            cache,
            (#[trigger] samples[k]).container_id,
            now,
        ) by {
            law_paired_samples_come_from_container_dirs(driver, dirs, reading, k);
        }
        lemma_settled_pairs(samples, cache, one, other, now, policy, timestamp);
    }
    if let Some(dirs) = blkio {
        let reading = |dir: DirView| blkio_reading(env.version, dir);
        let samples = paired_samples_of(driver, dirs, reading);
        assert forall|k: int| 0 <= k < samples.len() implies settled(
            cache,
            (#[trigger] samples[k]).container_id,
            now,
        ) by {
            law_paired_samples_come_from_container_dirs(driver, dirs, reading, k);
        }
        lemma_settled_pairs(samples, cache, one, other, now, policy, timestamp);
    }
}

proof fn lemma_before_first_of_prefix(s: Seq<char>, head: Seq<char>, c: char)
    requires
        !head.contains(c),
        head.len() < s.len(),
        s.take(head.len() as int) == head,
        s[head.len() as int] == c,
    ensures
        before_first(s, c) == head,
    decreases head.len(),
{
    if head.len() > 0 {
        assert(s[0] == head[0]);
        let rest = head.drop_first();
        assert(!rest.contains(c)) by {
            if rest.contains(c) {
                let i = choose|i: int| 0 <= i < rest.len() && rest[i] == c;
                assert(head[i + 1] == c);
            }
        }
        assert(s.drop_first().take(rest.len() as int) =~= rest);
        lemma_before_first_of_prefix(s.drop_first(), rest, c);
    }
}

proof fn lemma_first_label_leads(labels: Seq<(Seq<char>, Seq<char>)>)
    requires
        labels.len() > 0,
    ensures
        label_text(labels[0]).is_prefix_of(labels_text(labels)),
    decreases labels.len(),
{
    if labels.len() > 1 {
        lemma_first_label_leads(labels.drop_last());
        assert(labels_text(labels) == labels_text(labels.drop_last()) + seq![','] + label_text(
            labels.last(),
        ));
    }
}

proof fn lemma_tail_word_after_space(before: Seq<char>, word: Seq<char>)
    requires
        forall|i: int| 0 <= i < word.len() ==> !is_ascii_space(#[trigger] word[i]),
    ensures
        tail_word(before + seq![' '] + word) == word,
    decreases word.len(),
{
    if word.len() > 0 {
        assert((before + seq![' '] + word).drop_last() =~= before + seq![' '] + word.drop_last());
        lemma_tail_word_after_space(before, word.drop_last());
    }
}

proof fn lemma_digit_char(d: nat)
    requires
        d < 10,
    ensures
        is_digit(digit_char(d)),
        digit_value(digit_char(d)) == d,
        !is_ascii_space(digit_char(d)),
        digit_char(d) != '+',
{
}

/// The decimal digits of a number write that number.
pub proof fn law_decimal_reads_back(n: nat)
    ensures
        decimal(n).len() > 0,
        all_digits(decimal(n)),
        digits_value(decimal(n)) == n,
        n <= u64::MAX ==> parse_u64(decimal(n)) == Some(n as u64),
    decreases n,
{
    if n < 10 {
        lemma_digit_char(n);
        let s = decimal(n);
        assert(s.drop_last() =~= Seq::<char>::empty());
        assert(digits_value(s.drop_last()) == 0);
    } else {
        law_decimal_reads_back(n / 10);
        lemma_digit_char(n % 10);
        let s = decimal(n);
        assert(s.drop_last() =~= decimal(n / 10));
        assert forall|i: int| 0 <= i < s.len() implies is_digit(#[trigger] s[i]) by {
            if i < s.len() - 1 {
                assert(s[i] == decimal(n / 10)[i]);
            }
        }
    }
    let s = decimal(n);
    assert(is_digit(s[0]));
    assert(unsigned_part(s) == s);
}

/// A sample's line, read back, gives the metric's name, the container's
/// identifier and the value that it was rendered from. (The name holds no
/// opening brace and the identifier no double quote, as no family's name
/// and no hexadecimal identifier does.)
pub proof fn law_sample_line_reads_back(
    name: Seq<char>,
    id: Seq<char>,
    details: Option<DetailsView>,
    policy: PolicyView,
    value: u64,
    timestamp: u128,
)
    requires
        !name.contains('{'),
        !id.contains('"'),
    ensures
        line_name(name + sample_line(id, details, policy, value, timestamp)) == name,
        line_id(name + sample_line(id, details, policy, value, timestamp)) == id,
        line_value(name + sample_line(id, details, policy, value, timestamp)) == Some(value),
{
    let labels = sample_labels(id, details, policy);
    let number = decimal(value as nat);
    let stamp = decimal(timestamp as nat);
    let line = name + sample_line(id, details, policy, value, timestamp);
    let listed = labels_text(labels);

    // the name
    assert(line.take(name.len() as int) =~= name);
    lemma_before_first_of_prefix(line, name, '{');

    // the identifier
    lemma_first_label_leads(labels);
    let first = label_text(labels[0]);
    let after = line.skip(name.len() as int + 5);
    assert(after.take(id.len() as int) =~= id) by {
        assert forall|i: int| 0 <= i < id.len() implies after[i] == id[i] by {
            assert(first[4 + i] == id[i]);
        }
    }
    assert(after[id.len() as int] == '"') by {
        assert(first[4 + id.len() as int] == '"');
    }
    lemma_before_first_of_prefix(after, id, '"');

    // the value
    law_decimal_reads_back(value as nat);
    law_decimal_reads_back(timestamp as nat);
    let head = name + seq!['{'] + listed + seq!['}'];
    assert(line =~= (head + seq![' '] + number) + seq![' '] + stamp);
    lemma_tail_word_after_space(head + seq![' '] + number, stamp);
    assert(line.take(line.len() - stamp.len() - 1) =~= head + seq![' '] + number);
    lemma_tail_word_after_space(head, number);
}

/// No family's name holds an opening brace, and no hexadecimal identifier
/// a double quote: every line of every family reads back.
pub proof fn law_family_lines_read_back(
    family: Family,
    id: Seq<char>,
    details: Option<DetailsView>,
    policy: PolicyView,
    value: u64,
    timestamp: u128,
)
    requires
        is_hex_id(id),
    ensures
        line_name(family_name(family) + sample_line(id, details, policy, value, timestamp))
            == family_name(family),
        line_id(family_name(family) + sample_line(id, details, policy, value, timestamp)) == id,
        line_value(family_name(family) + sample_line(id, details, policy, value, timestamp))
            == Some(value),
{
    reveal_strlit("container_memory_usage");
    reveal_strlit("container_cpu_user_total");
    reveal_strlit("container_cpu_system_total");
    reveal_strlit("container_blkio_read_total");
    reveal_strlit("container_blkio_write_total");
    let name = family_name(family);
    assert(!name.contains('{')) by {
        assert forall|i: int| 0 <= i < name.len() implies name[i] != '{' by {}
    }
    law_sample_line_reads_back(name, id, details, policy, value, timestamp);
}

} // verus!

//! What is known of each container (its name, image and labels) and the
//! cache that holds it, refreshed from the runtime's descriptors no more
//! often than a minimum interval allows.

use vstd::prelude::*;
use vstd::string::*;

verus! {

/// A container's image and labels, as its descriptor gives them.
#[derive(Debug)]
pub struct ContainerConfig {
    pub image: String,
    /// The labels, each a key and a value; a key occurs once.
    pub labels: Vec<(String, String)>,
}

/// What the runtime's descriptor says of one container.
#[derive(Debug)]
pub struct ContainerDetails {
    pub id: String,
    pub name: String,
    pub config: ContainerConfig,
}

/// A container's image and labels as texts.
pub struct ConfigView {
    pub image: Seq<char>,
    pub labels: Seq<(Seq<char>, Seq<char>)>,
}

/// A container's details as texts.
pub struct DetailsView {
    pub id: Seq<char>,
    pub name: Seq<char>,
    pub config: ConfigView,
}

/// The labels as pairs of texts.
pub open spec fn label_views(labels: Seq<(String, String)>) -> Seq<(Seq<char>, Seq<char>)> {
    Seq::new(labels.len(), |i: int| (labels[i].0@, labels[i].1@))
}

impl View for ContainerConfig {
    type V = ConfigView;

    open spec fn view(&self) -> ConfigView {
        ConfigView { image: self.image@, labels: label_views(self.labels@) }
    }
}

impl View for ContainerDetails {
    type V = DetailsView;

    open spec fn view(&self) -> DetailsView {
        DetailsView { id: self.id@, name: self.name@, config: self.config@ }
    }
}

/// What each of `items` says.
pub open spec fn details_views(items: Seq<ContainerDetails>) -> Seq<DetailsView> {
    Seq::new(items.len(), |i: int| items[i]@)
}

impl Clone for ContainerConfig {
    fn clone(&self) -> (copy: ContainerConfig)
        ensures
            copy@ == self@,
    {
        let mut labels: Vec<(String, String)> = Vec::new();
        let mut i: usize = 0;
        while i < self.labels.len()
            invariant
                i <= self.labels.len(),
                labels@.len() == i,
                label_views(labels@) == label_views(self.labels@).take(i as int),
            decreases self.labels.len() - i,
        {
            let key = self.labels[i].0.clone();
            let value = self.labels[i].1.clone();
            labels.push((key, value));
            i += 1;
        }
        assert(label_views(labels@) =~= label_views(self.labels@));
        ContainerConfig { image: self.image.clone(), labels }
    }
}

impl Clone for ContainerDetails {
    fn clone(&self) -> (copy: ContainerDetails)
        ensures
            copy@ == self@,
    {
        ContainerDetails {
            id: self.id.clone(),
            name: self.name.clone(),
            config: self.config.clone(),
        }
    }
}

/// Above this many containers the cache is emptied before it is refreshed.
pub const CACHE_CEILING: usize = 2000;

/// The model of the cache: what it knows of each identifier, when a refresh
/// was last attempted, and how many milliseconds must pass between two
/// attempts (zero: none).
pub struct CacheView {
    pub entries: Map<Seq<char>, DetailsView>,
    pub last_attempt: Option<u64>,
    pub min_interval: u64,
}

/// The milliseconds from `last` to `now`, zero where the clock went back.
pub open spec fn elapsed(last: u64, now: u64) -> int {
    if now >= last {
        now - last
    } else {
        0
    }
}

/// Whether a refresh asked for at `now` is carried out.
pub open spec fn refresh_due(cache: CacheView, now: u64, force: bool) -> bool {
    force || match cache.last_attempt {
        None => true,
        Some(last) => elapsed(last, now) >= cache.min_interval,
    }
}

/// `entries` after each of `descriptors` has been entered under its
/// identifier, a later one in place of an earlier one.
pub open spec fn absorbed(
    entries: Map<Seq<char>, DetailsView>,
    descriptors: Seq<DetailsView>,
) -> Map<Seq<char>, DetailsView>
    decreases descriptors.len(),
{
    if descriptors.len() == 0 {
        entries
    } else {
        absorbed(entries, descriptors.drop_last()).insert(descriptors.last().id, descriptors.last())
    }
}

/// The entries that a refresh starts from: none where the cache has grown
/// beyond its ceiling.
pub open spec fn kept_entries(cache: CacheView) -> Map<Seq<char>, DetailsView> {
    if cache.entries.dom().len() > CACHE_CEILING {
        Map::empty()
    } else {
        cache.entries
    }
}

/// The cache after a refresh from `descriptors` at `now`.
pub open spec fn refreshed(cache: CacheView, descriptors: Seq<DetailsView>, now: u64) -> CacheView {
    CacheView {
        entries: absorbed(kept_entries(cache), descriptors),
        last_attempt: Some(now),
        min_interval: cache.min_interval,
    }
}

/// The cache after a refresh was asked for.
pub open spec fn after_refresh(
    cache: CacheView,
    descriptors: Seq<DetailsView>,
    now: u64,
    force: bool,
) -> CacheView {
    if refresh_due(cache, now, force) {
        refreshed(cache, descriptors, now)
    } else {
        cache
    }
}

/// Whether looking `id` up at `now` attempts a refresh.
pub open spec fn lookup_refreshes(cache: CacheView, id: Seq<char>, now: u64) -> bool {
    !cache.entries.dom().contains(id) && refresh_due(cache, now, false)
}

/// The cache after `id` was looked up: an unknown identifier asks for a
/// refresh.
pub open spec fn after_lookup(
    cache: CacheView,
    id: Seq<char>,
    descriptors: Seq<DetailsView>,
    now: u64,
) -> CacheView {
    if cache.entries.dom().contains(id) {
        cache
    } else {
        after_refresh(cache, descriptors, now, false)
    }
}

/// What the cache knows of `id`.
pub open spec fn known(cache: CacheView, id: Seq<char>) -> Option<DetailsView> {
    if cache.entries.dom().contains(id) {
        Some(cache.entries[id])
    } else {
        None
    }
}

/// The identifiers of `items`, in order.
pub open spec fn ids_of(items: Seq<ContainerDetails>) -> Seq<Seq<char>> {
    Seq::new(items.len(), |i: int| items[i].id@)
}

/// The map that lists `items` by identifier.
pub open spec fn listed(items: Seq<ContainerDetails>) -> Map<Seq<char>, DetailsView> {
    Map::new(
        |id: Seq<char>| ids_of(items).contains(id),
        |id: Seq<char>| items[ids_of(items).index_of(id)]@,
    )
}

proof fn lemma_listed_at(items: Seq<ContainerDetails>, i: int)
    requires
        ids_of(items).no_duplicates(),
        0 <= i < items.len(),
    ensures
        listed(items).dom().contains(items[i].id@),
        listed(items)[items[i].id@] == items[i]@,
{
    let ids = ids_of(items);
    assert(ids[i] == items[i].id@);
}

proof fn lemma_listed_push(items: Seq<ContainerDetails>, item: ContainerDetails)
    requires
        ids_of(items).no_duplicates(),
        !ids_of(items).contains(item.id@),
    ensures
        ids_of(items.push(item)).no_duplicates(),
        listed(items.push(item)) == listed(items).insert(item.id@, item@),
{
    let grown = items.push(item);
    let ids = ids_of(items);
    let grown_ids = ids_of(grown);
    assert(grown_ids.no_duplicates()) by {
        assert forall|i: int, j: int|
            0 <= i < grown_ids.len() && 0 <= j < grown_ids.len() && i != j implies grown_ids[i]
            != grown_ids[j] by {
            if i < ids.len() && j < ids.len() {
                assert(ids[i] != ids[j]);
            } else if i < ids.len() {
                assert(ids.contains(ids[i]));
            } else {
                assert(ids.contains(ids[j]));
            }
        }
    }
    assert(listed(grown) =~= listed(items).insert(item.id@, item@)) by {
        assert forall|id: Seq<char>| listed(grown).dom().contains(id) <==> listed(
            items,
        ).insert(item.id@, item@).dom().contains(id) by {
            if ids.contains(id) {
                let k = ids.index_of(id);
                assert(grown_ids[k] == id);
            }
            if grown_ids.contains(id) && id != item.id@ {
                let k = grown_ids.index_of(id);
                assert(ids[k] == id);
            }
            assert(grown_ids[ids.len() as int] == item.id@);
        }
        assert forall|id: Seq<char>| listed(grown).dom().contains(id) implies listed(grown)[id]
            == listed(items).insert(item.id@, item@)[id] by {
            let k = grown_ids.index_of(id);
            if id == item.id@ {
                lemma_listed_at(grown, ids.len() as int);
            } else {
                lemma_listed_at(grown, k);
                lemma_listed_at(items, k);
            }
        }
    }
}

proof fn lemma_listed_update(items: Seq<ContainerDetails>, at: int, item: ContainerDetails)
    requires
        ids_of(items).no_duplicates(),
        0 <= at < items.len(),
        items[at].id@ == item.id@,
    ensures
        ids_of(items.update(at, item)) == ids_of(items),
        listed(items.update(at, item)) == listed(items).insert(item.id@, item@),
{
    let changed = items.update(at, item);
    let ids = ids_of(items);
    assert(ids_of(changed) =~= ids);
    assert(ids[at] == item.id@);
    assert(listed(changed) =~= listed(items).insert(item.id@, item@)) by {
        assert forall|id: Seq<char>| listed(changed).dom().contains(id) implies listed(
            changed,
        )[id] == listed(items).insert(item.id@, item@)[id] by {
            let k = ids.index_of(id);
            lemma_listed_at(changed, k);
            lemma_listed_at(items, k);
        }
    }
}

proof fn lemma_listed_len(items: Seq<ContainerDetails>)
    requires
        ids_of(items).no_duplicates(),
    ensures
        listed(items).dom().finite(),
        listed(items).dom().len() == items.len(),
{
    let ids = ids_of(items);
    ids.unique_seq_to_set();
    vstd::seq_lib::seq_to_set_is_finite(ids);
}

/// The cache of container details.
pub struct ContainerCache {
    entries: Vec<ContainerDetails>,
    last_attempt: Option<u64>,
    min_interval_ms: u64,
}

impl View for ContainerCache {
    type V = CacheView;

    closed spec fn view(&self) -> CacheView {
        CacheView {
            entries: listed(self.entries@),
            last_attempt: self.last_attempt,
            min_interval: self.min_interval_ms,
        }
    }
}

impl ContainerCache {
    /// No identifier is listed twice.
    pub closed spec fn wf(&self) -> bool {
        ids_of(self.entries@).no_duplicates()
    }

    /// An empty cache that has never been refreshed. Between two refreshes
    /// it lets `min_interval_ms` milliseconds pass; with zero it refreshes
    /// whenever it is asked.
    pub fn new(min_interval_ms: u64) -> (cache: ContainerCache)
        ensures
            cache.wf(),
            cache@.entries == Map::<Seq<char>, DetailsView>::empty(),
            cache@.last_attempt.is_none(),
            cache@.min_interval == min_interval_ms,
    {
        let cache = ContainerCache { entries: Vec::new(), last_attempt: None, min_interval_ms };
        cache
    }

    /// How many containers the cache knows.
    pub fn len(&self) -> (n: usize)
        requires
            self.wf(),
        ensures
            self@.entries.dom().finite(),
            n == self@.entries.dom().len(),
    {
        proof {
            lemma_listed_len(self.entries@);
        }
        self.entries.len()
    }

    fn position(&self, id: &str) -> (at: Option<usize>)
        requires
            self.wf(),
        ensures
            match at {
                Some(i) => i < self.entries.len() && self.entries[i as int].id@ == id@
                    && self@.entries.dom().contains(id@) && self@.entries[id@]
                    == self.entries[i as int]@,
                None => !self@.entries.dom().contains(id@),
            },
    {
        let wanted = String::from_str(id);
        let mut i: usize = 0;
        while i < self.entries.len()
            invariant
                self.wf(),
                i <= self.entries.len(),
                wanted@ == id@,
                forall|j: int| 0 <= j < i ==> ids_of(self.entries@)[j] != id@,
            decreases self.entries.len() - i,
        {
            if self.entries[i].id == wanted {
                proof {
                    lemma_listed_at(self.entries@, i as int);
                }
                return Some(i);
            }
            i += 1;
        }
        None
    }

    /// Whether the cache knows `id`.
    pub fn contains(&self, id: &str) -> (b: bool)
        requires
            self.wf(),
        ensures
            b == self@.entries.dom().contains(id@),
    {
        self.position(id).is_some()
    }

    /// What the cache knows of `id`.
    pub fn get(&self, id: &str) -> (details: Option<&ContainerDetails>)
        requires
            self.wf(),
        ensures
            match details {
                Some(d) => known(self@, id@) == Some(d@),
                None => known(self@, id@).is_none(),
            },
    {
        match self.position(id) {
            Some(i) => Some(&self.entries[i]),
            None => None,
        }
    }

    /// Whether a refresh asked for at `now` would be carried out.
    pub fn refresh_due(&self, now: u64, force: bool) -> (due: bool)
        ensures
            due == refresh_due(self@, now, force),
    {
        if force {
            return true;
        }
        match self.last_attempt {
            None => true,
            Some(last) => {
                let passed: u64 = if now >= last {
                    now - last
                } else {
                    0
                };
                passed >= self.min_interval_ms
            },
        }
    }

    /// Enters `details` under its identifier, in place of what was known
    /// of it.
    pub fn insert(&mut self, details: ContainerDetails)
        requires
            old(self).wf(),
        ensures
            final(self).wf(),
            final(self)@.entries == old(self)@.entries.insert(details.id@, details@),
            final(self)@.last_attempt == old(self)@.last_attempt,
            final(self)@.min_interval == old(self)@.min_interval,
    {
        match self.position(details.id.as_str()) {
            Some(i) => {
                proof {
                    lemma_listed_update(self.entries@, i as int, details);
                }
                self.entries.set(i, details);
            },
            None => {
                proof {
                    lemma_listed_push(self.entries@, details);
                }
                self.entries.push(details);
            },
        }
    }

    fn clear(&mut self)
        ensures
            final(self).wf(),
            final(self)@.entries == Map::<Seq<char>, DetailsView>::empty(),
            final(self)@.last_attempt == old(self)@.last_attempt,
            final(self)@.min_interval == old(self)@.min_interval,
    {
        self.entries = Vec::new();
    }

    /// Looks `id` up. Where the cache does not know it, a refresh from
    /// `descriptors` is asked for first; that the identifier stays unknown
    /// after it is no error.
    pub fn lookup(&mut self, id: &str, descriptors: &Vec<ContainerDetails>, now: u64) -> (details:
        Option<ContainerDetails>)
        requires
            old(self).wf(),
        ensures
            final(self).wf(),
            final(self)@ == after_lookup(old(self)@, id@, details_views(descriptors@), now),
            match details {
                Some(d) => known(final(self)@, id@) == Some(d@),
                None => known(final(self)@, id@).is_none(),
            },
    {
        if !self.contains(id) {
            refresh_containers_map(self, descriptors, now, false);
        }
        match self.get(id) {
            Some(d) => Some(d.clone()),
            None => None,
        }
    }
}

/// Refreshes the cache from `descriptors`, the descriptors that the
/// runtime's directory holds at `now`, unless the last attempt is more
/// recent than the minimum interval allows and `force` is not set. A cache
/// beyond its ceiling is emptied first. Says whether the refresh was
/// carried out.
pub fn refresh_containers_map(
    cache: &mut ContainerCache,
    descriptors: &Vec<ContainerDetails>,
    now: u64,
    force: bool,
) -> (attempted: bool)
    requires
        old(cache).wf(),
    ensures
        final(cache).wf(),
        attempted == refresh_due(old(cache)@, now, force),
        final(cache)@ == after_refresh(old(cache)@, details_views(descriptors@), now, force),
{
    if !cache.refresh_due(now, force) {
        return false;
    }
    cache.last_attempt = Some(now);
    if cache.len() > CACHE_CEILING {
        cache.clear();
    }
    let ghost start = cache@.entries;
    let ghost all = details_views(descriptors@);
    let mut i: usize = 0;
    while i < descriptors.len()
        invariant
            i <= descriptors.len(),
            cache.wf(),
            all == details_views(descriptors@),
            cache@.entries == absorbed(start, all.take(i as int)),
            cache@.last_attempt == Some(now),
            cache@.min_interval == old(cache)@.min_interval,
        decreases descriptors.len() - i,
    {
        cache.insert(descriptors[i].clone());
        assert(all.take(i + 1).drop_last() =~= all.take(i as int));
        i += 1;
    }
    assert(all.take(i as int) =~= all);
    true
}

} // verus!

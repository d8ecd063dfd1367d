//! Which of a container's labels go onto its metrics, and under which keys.

use vstd::prelude::*;
use vstd::string::*;
use crate::containers::DetailsView;
use crate::text::{
    before_first, before_first_in, chars_of, holds_text, string_of, trim, trim_end_in,
    trim_start_in, views,
};

verus! {

/// The policy on a container's labels: all of them, only those named, or
/// all but those named.
#[derive(Debug)]
pub enum LabelPolicy {
    All,
    Include(Vec<String>),
    Exclude(Vec<String>),
}

/// A policy as the sets of names that it wants or leaves out.
pub enum PolicyView {
    All,
    Include(Set<Seq<char>>),
    Exclude(Set<Seq<char>>),
}

impl View for LabelPolicy {
    type V = PolicyView;

    open spec fn view(&self) -> PolicyView {
        match self {
            LabelPolicy::All => PolicyView::All,
            LabelPolicy::Include(keys) => PolicyView::Include(views(keys@).to_set()),
            LabelPolicy::Exclude(keys) => PolicyView::Exclude(views(keys@).to_set()),
        }
    }
}

/// Whether the label with this key goes onto the metrics.
pub open spec fn keeps(policy: PolicyView, key: Seq<char>) -> bool {
    match policy {
        PolicyView::All => true,
        PolicyView::Include(keys) => keys.contains(key),
        PolicyView::Exclude(keys) => !keys.contains(key),
    }
}

impl LabelPolicy {
    /// Whether the label with this key goes onto the metrics.
    pub fn keeps(&self, key: &str) -> (kept: bool)
        ensures
            kept == keeps(self@, key@),
    {
        match self {
            LabelPolicy::All => true,
            LabelPolicy::Include(keys) => holds_text(keys, key),
            LabelPolicy::Exclude(keys) => !holds_text(keys, key),
        }
    }
}

/// A character of a label's key as it stands in a metric's label: a dot
/// or a hyphen becomes an underscore.
pub open spec fn key_char(c: char) -> char {
    if c == '.' || c == '-' {
        '_'
    } else {
        c
    }
}

/// What stands before every label's key.
pub open spec fn key_prefix() -> Seq<char> {
    seq!['c', 'o', 'n', 't', 'a', 'i', 'n', 'e', 'r', '_', 'l', 'a', 'b', 'e', 'l', '_']
}

/// The key under which the label `key` goes onto a metric.
pub open spec fn label_key(key: Seq<char>) -> Seq<char> {
    key_prefix() + Seq::new(key.len(), |i: int| key_char(key[i]))
}

/// The key under which the label `key` goes onto a metric: prefixed,
/// with each dot and hyphen turned into an underscore.
pub fn sanitized_key(key: &str) -> (out: String)
    ensures
        out@ == label_key(key@),
{
    proof {
        reveal_strlit("container_label_");
    }
    let mut out = String::from_str("container_label_");
    let chars = chars_of(key);
    let mut i: usize = 0;
    while i < chars.len()
        invariant
            i <= chars.len(),
            chars@ == key@,
            out@ == key_prefix() + Seq::new(i as nat, |j: int| key_char(key@[j])),
        decreases chars.len() - i,
    {
        let c = chars[i];
        if c == '.' || c == '-' {
            out.push('_');
        } else {
            out.push(c);
        }
        i += 1;
    }
    out
}

/// The labels of `labels` that the policy keeps, under their metric keys.
pub open spec fn kept_labels(labels: Seq<(Seq<char>, Seq<char>)>, policy: PolicyView) -> Seq<
    (Seq<char>, Seq<char>),
>
    decreases labels.len(),
{
    if labels.len() == 0 {
        Seq::empty()
    } else {
        let before = kept_labels(labels.drop_last(), policy);
        if keeps(policy, labels.last().0) {
            before.push((label_key(labels.last().0), labels.last().1))
        } else {
            before
        }
    }
}

/// The key of the label that holds the container's identifier.
pub open spec fn id_key() -> Seq<char> {
    seq!['i', 'd']
}

/// The key of the label that holds the container's name.
pub open spec fn name_key() -> Seq<char> {
    seq!['n', 'a', 'm', 'e']
}

/// The key of the label that holds the container's image.
pub open spec fn image_key() -> Seq<char> {
    seq!['i', 'm', 'a', 'g', 'e']
}

/// The labels of a sample: always the container's identifier; where the
/// container's details are known, its name, its image and those of its
/// labels that the policy keeps.
pub open spec fn sample_labels(
    id: Seq<char>,
    details: Option<DetailsView>,
    policy: PolicyView,
) -> Seq<(Seq<char>, Seq<char>)> {
    match details {
        None => seq![(id_key(), id)],
        Some(d) => seq![(id_key(), id), (name_key(), d.name), (image_key(), d.config.image)]
            + kept_labels(d.config.labels, policy),
    }
}

/// The parts of `s` that `sep` separates: one more than `s` holds of `sep`.
pub open spec fn split(s: Seq<char>, sep: char) -> Seq<Seq<char>>
    decreases s.len(),
{
    let head = before_first(s, sep);
    if head.len() >= s.len() {
        seq![s]
    } else {
        seq![head] + split(s.skip(head.len() as int + 1), sep)
    }
}

/// `names` and, after them, each of `parts` that is not blank and not
/// there yet, trimmed.
pub open spec fn with_names(names: Seq<Seq<char>>, parts: Seq<Seq<char>>) -> Seq<Seq<char>>
    decreases parts.len(),
{
    if parts.len() == 0 {
        names
    } else {
        let before = with_names(names, parts.drop_last());
        let name = trim(parts.last());
        if name.len() > 0 && !before.contains(name) {
            before.push(name)
        } else {
            before
        }
    }
}

/// The label names that `args` give, each argument a list that commas
/// separate: in the order of their first mention, none of them twice.
pub open spec fn label_names(args: Seq<Seq<char>>) -> Seq<Seq<char>>
    decreases args.len(),
{
    if args.len() == 0 {
        Seq::empty()
    } else {
        with_names(label_names(args.drop_last()), split(args.last(), ','))
    }
}

/// Adds the names that the list `arg` gives to `names`.
fn add_names(names: &mut Vec<String>, arg: &str)
    ensures
        views(final(names)@) == with_names(views(old(names)@), split(arg@, ',')),
{
    let chars = chars_of(arg);
    let ghost start = views(names@);
    let ghost s = chars@;
    let ghost mut done: Seq<Seq<char>> = Seq::empty();
    let mut pos: usize = 0;
    let mut more = true;
    assert(s.subrange(0, s.len() as int) =~= s);
    while more
        invariant
            pos <= chars.len(),
            s == chars@,
            chars@ == arg@,
            more ==> split(s, ',') == done + split(s.subrange(pos as int, s.len() as int), ','),
            !more ==> split(s, ',') == done,
            views(names@) == with_names(start, done),
        decreases chars.len() - pos + (if more { 1int } else { 0int }),
    {
        let ghost rest = s.subrange(pos as int, s.len() as int);
        let end = before_first_in(&chars, pos, chars.len(), ',');
        let ghost part = s.subrange(pos as int, end as int);
        let ghost grown = done.push(part);
        assert(grown.drop_last() =~= done);
        let trimmed_end = trim_end_in(&chars, pos, end);
        let trimmed_start = trim_start_in(&chars, pos, trimmed_end);
        if trimmed_start < trimmed_end {
            let name = string_of(&chars, trimmed_start, trimmed_end);
            if !holds_text(names, name.as_str()) {
                names.push(name);
            }
        }
        if end < chars.len() {
            assert(rest.skip(part.len() as int + 1) =~= s.subrange(end + 1, s.len() as int));
            pos = end + 1;
        } else {
            more = false;
            pos = end;
        }
        proof {
            done = grown;
        }
    }
}

/// The label names that the arguments give: each argument is a list that
/// commas separate; blank names are dropped, and so is a name's second
/// mention.
pub fn process_labels(args: &Vec<String>) -> (names: Vec<String>)
    ensures
        views(names@) == label_names(views(args@)),
{
    let mut names: Vec<String> = Vec::new();
    let mut i: usize = 0;
    while i < args.len()
        invariant
            i <= args.len(),
            views(names@) == label_names(views(args@).take(i as int)),
        decreases args.len() - i,
    {
        add_names(&mut names, args[i].as_str());
        assert(views(args@).take(i + 1).drop_last() =~= views(args@).take(i as int));
        i += 1;
    }
    assert(views(args@).take(i as int) =~= views(args@));
    names
}

/// What is wrong with the configuration.
#[derive(Copy, Clone, Debug, PartialEq, Eq, Structural)]
pub enum ConfigError {
    /// Wanted labels and unwanted labels were both given.
    BothLabelLists,
}

/// The policy that the two lists of arguments resolve to. To give both is
/// an error. Wanted names make the policy even if the unwanted names are
/// all blank; where no name is left, all labels are kept.
pub fn resolve_label_policy(wanted: &Vec<String>, unwanted: &Vec<String>) -> (policy: Result<
    LabelPolicy,
    ConfigError,
>)
    ensures
        wanted@.len() > 0 && unwanted@.len() > 0 <==> policy is Err,
        policy matches Ok(p) ==> p@ == (if label_names(views(wanted@)).len() > 0 {
            PolicyView::Include(label_names(views(wanted@)).to_set())
        } else if label_names(views(unwanted@)).len() > 0 {
            PolicyView::Exclude(label_names(views(unwanted@)).to_set())
        } else {
            PolicyView::All
        }),
{
    if wanted.len() > 0 && unwanted.len() > 0 {
        return Err(ConfigError::BothLabelLists);
    }
    let included = process_labels(wanted);
    let excluded = process_labels(unwanted);
    if included.len() > 0 {
        Ok(LabelPolicy::Include(included))
    } else if excluded.len() > 0 {
        Ok(LabelPolicy::Exclude(excluded))
    } else {
        Ok(LabelPolicy::All)
    }
}

} // verus!

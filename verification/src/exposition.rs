//! The text exposition format: how a sample and a metric family are laid
//! out as text.

use vstd::prelude::*;
use crate::text::{before_first, parse_u64, tail_word};

verus! {

/// The decimal digit of a number below ten.
pub open spec fn digit_char(d: nat) -> char {
    if d == 0 {
        '0'
    } else if d == 1 {
        '1'
    } else if d == 2 {
        '2'
    } else if d == 3 {
        '3'
    } else if d == 4 {
        '4'
    } else if d == 5 {
        '5'
    } else if d == 6 {
        '6'
    } else if d == 7 {
        '7'
    } else if d == 8 {
        '8'
    } else {
        '9'
    }
}

/// `n` in decimal digits, without leading zeros.
pub open spec fn decimal(n: nat) -> Seq<char>
    decreases n,
{
    if n < 10 {
        seq![digit_char(n)]
    } else {
        decimal(n / 10).push(digit_char(n % 10))
    }
}

/// One label: its key, an equals sign, its value between double quotes.
pub open spec fn label_text(label: (Seq<char>, Seq<char>)) -> Seq<char> {
    label.0 + seq!['=', '"'] + label.1 + seq!['"']
}

/// The labels, with commas between them.
pub open spec fn labels_text(labels: Seq<(Seq<char>, Seq<char>)>) -> Seq<char>
    decreases labels.len(),
{
    if labels.len() == 0 {
        Seq::empty()
    } else if labels.len() == 1 {
        label_text(labels[0])
    } else {
        labels_text(labels.drop_last()) + seq![','] + label_text(labels.last())
    }
}

/// What follows a metric's name on a sample's line: the labels between
/// braces, where there are any; a space and the value; a space and the
/// timestamp, where there is one.
pub open spec fn instance_text(
    labels: Seq<(Seq<char>, Seq<char>)>,
    value: Seq<char>,
    timestamp: Option<Seq<char>>,
) -> Seq<char> {
    let head = if labels.len() == 0 {
        seq![' ']
    } else {
        seq!['{'] + labels_text(labels) + seq!['}', ' ']
    };
    let tail = match timestamp {
        Some(t) => seq![' '] + t,
        None => Seq::empty(),
    };
    head + value + tail
}

/// The two lines that head a metric family.
pub open spec fn header_text(name: Seq<char>, help: Seq<char>, kind: Seq<char>) -> Seq<char> {
    "# HELP "@ + name + seq![' '] + help + "\n# TYPE "@ + name + seq![' '] + kind + seq!['\n']
}

/// The samples' lines: on each the metric's name, then the instance.
pub open spec fn lines_text(name: Seq<char>, instances: Seq<Seq<char>>) -> Seq<char>
    decreases instances.len(),
{
    if instances.len() == 0 {
        Seq::empty()
    } else {
        lines_text(name, instances.drop_last()) + name + instances.last() + seq!['\n']
    }
}

/// A metric family as text: its header, then its samples.
pub open spec fn metric_text(
    name: Seq<char>,
    help: Seq<char>,
    kind: Seq<char>,
    instances: Seq<Seq<char>>,
) -> Seq<char> {
    header_text(name, help, kind) + lines_text(name, instances)
}

/// The metric's name that a sample's line gives: what stands before the
/// opening brace.
pub open spec fn line_name(line: Seq<char>) -> Seq<char> {
    before_first(line, '{')
}

/// The container's identifier that a sample's line gives: the value of
/// its first label, which is the text between the first two double quotes.
pub open spec fn line_id(line: Seq<char>) -> Seq<char> {
    before_first(line.skip(line_name(line).len() as int + 5), '"')
}

/// The value that a sample's line gives: the number that its last word
/// but one writes, before the timestamp.
pub open spec fn line_value(line: Seq<char>) -> Option<u64> {
    let stamp = tail_word(line);
    parse_u64(tail_word(line.take(line.len() - stamp.len() - 1)))
}

} // verus!

//! The readings, held against the same readings written with the standard
//! library's string functions, on many generated inputs.

use cgroup_metrics::labels::process_labels;
use cgroup_metrics::readings::{
    parse_counter, parse_cpu_stat, parse_io_service_bytes, parse_io_stat, ReadError,
};
use cgroup_metrics::text::{ascii_space, white_space};

/// A small generator of numbers that gives the same sequence on every run.
struct Lcg(u64);

impl Lcg {
    fn next(&mut self, bound: usize) -> usize {
        self.0 = self.0.wrapping_mul(6364136223846793005).wrapping_add(1442695040888963407);
        ((self.0 >> 33) as usize) % bound
    }

    fn text(&mut self, pieces: &[&str], max: usize) -> String {
        let n = self.next(max + 1);
        let mut out = String::new();
        for _ in 0..n {
            out.push_str(pieces[self.next(pieces.len())]);
        }
        out
    }
}

fn counter_by_std(content: &str) -> Result<u64, ReadError> {
    content.trim_end().parse::<u64>().map_err(|_| ReadError::Malformed)
}

fn cpu_stat_by_std(content: &str) -> Result<(u64, u64), ReadError> {
    let mut user: Option<u64> = None;
    let mut system: Option<u64> = None;
    for line in content.lines() {
        if line.starts_with("user_usec") {
            let word = line.split_ascii_whitespace().last().ok_or(ReadError::Malformed)?;
            user = Some(word.parse().map_err(|_| ReadError::Malformed)?);
        } else if line.starts_with("system_usec") {
            let word = line.split_ascii_whitespace().last().ok_or(ReadError::Malformed)?;
            system = Some(word.parse().map_err(|_| ReadError::Malformed)?);
        }
    }
    match (user, system) {
        (Some(user), Some(system)) => Ok((user, system)),
        _ => Err(ReadError::MissingKey),
    }
}

fn totals(fields: Vec<Result<(bool, u64), ReadError>>) -> Result<(u64, u64), ReadError> {
    let mut read: u128 = 0;
    let mut write: u128 = 0;
    for field in fields {
        let (is_read, value) = field?;
        if is_read {
            read += value as u128;
        } else {
            write += value as u128;
        }
    }
    if read > u64::MAX as u128 || write > u64::MAX as u128 {
        Err(ReadError::Overflow)
    } else {
        Ok((read as u64, write as u64))
    }
}

fn io_service_bytes_by_std(content: &str) -> Result<(u64, u64), ReadError> {
    let mut fields = Vec::new();
    for line in content.lines() {
        let is_read = line.contains("Read");
        if is_read || line.contains("Write") {
            let value = line
                .split_ascii_whitespace()
                .last()
                .and_then(|word| word.parse::<u64>().ok())
                .ok_or(ReadError::Malformed);
            fields.push(value.map(|v| (is_read, v)));
        }
    }
    totals(fields)
}

fn io_stat_by_std(content: &str) -> Result<(u64, u64), ReadError> {
    let mut fields = Vec::new();
    for line in content.lines() {
        for kv in line.split_ascii_whitespace() {
            if kv.contains('=') {
                let mut spl = kv.split('=');
                let first = spl.next().unwrap();
                match spl.last().unwrap().parse::<u64>() {
                    Err(_) => fields.push(Err(ReadError::Malformed)),
                    Ok(last) => match first {
                        "rbytes" => fields.push(Ok((true, last))),
                        "wbytes" => fields.push(Ok((false, last))),
                        _ => (),
                    },
                }
            }
        }
    }
    totals(fields)
}

fn labels_by_std(args: &Vec<String>) -> Vec<String> {
    let mut labels: Vec<String> = Vec::new();
    for arg in args {
        for label in arg.split(',') {
            let label = label.trim();
            if !label.is_empty() && !labels.iter().any(|l| l == label) {
                labels.push(label.to_owned());
            }
        }
    }
    labels
}

#[test]
fn character_classes_agree_with_std() {
    for code in 0..=0x10FFFFu32 {
        if let Some(c) = char::from_u32(code) {
            assert_eq!(white_space(c), c.is_whitespace(), "{:?}", c);
            assert_eq!(ascii_space(c), c.is_ascii_whitespace(), "{:?}", c);
        }
    }
}

#[test]
fn counters_agree_with_std() {
    let pieces = ["0", "1", "9", "42", "+", "-", " ", "\n", "\r", "\t", "\u{a0}", "x", "18446744073709551615"];
    let mut lcg = Lcg(1);
    for _ in 0..3000 {
        let text = lcg.text(&pieces, 5);
        assert_eq!(parse_counter(&text), counter_by_std(&text), "{:?}", text);
    }
}

#[test]
fn cpu_stat_agrees_with_std() {
    let pieces = [
        "user_usec", "system_usec", " ", " ", "\n", "\n", "\r", "\t", "0", "7", "31", "x", "+",
        "usage_usec", "_", "18446744073709551615", "\u{c}",
    ];
    let mut lcg = Lcg(2);
    for _ in 0..6000 {
        let text = lcg.text(&pieces, 10);
        assert_eq!(parse_cpu_stat(&text), cpu_stat_by_std(&text), "{:?}", text);
    }
}

#[test]
fn io_service_bytes_agrees_with_std() {
    let pieces = [
        "Read", "Write", "8:0", "Total", " ", " ", "\n", "\n", "\r", "\t", "0", "5", "64", "x",
        "Rea", "d", "18446744073709551615", "9223372036854775808",
    ];
    let mut lcg = Lcg(3);
    for _ in 0..6000 {
        let text = lcg.text(&pieces, 12);
        assert_eq!(parse_io_service_bytes(&text), io_service_bytes_by_std(&text), "{:?}", text);
    }
}

#[test]
fn io_stat_agrees_with_std() {
    let pieces = [
        "rbytes", "wbytes", "rios", "=", "=", "8:0", " ", " ", "\n", "\r", "\t", "0", "5", "64",
        "x", "+", "18446744073709551615", "9223372036854775808",
    ];
    let mut lcg = Lcg(4);
    for _ in 0..6000 {
        let text = lcg.text(&pieces, 12);
        assert_eq!(parse_io_stat(&text), io_stat_by_std(&text), "{:?}", text);
    }
}

#[test]
fn label_names_agree_with_std() {
    let pieces = ["a", "b", "env", ",", ",", " ", "\t", "\u{2003}", ".", "-", "\n"];
    let mut lcg = Lcg(5);
    for _ in 0..2000 {
        let count = lcg.next(4);
        let args: Vec<String> = (0..count).map(|_| lcg.text(&pieces, 8)).collect();
        assert_eq!(process_labels(&args), labels_by_std(&args), "{:?}", args);
    }
}

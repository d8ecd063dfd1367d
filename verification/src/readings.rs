//! What the metric files of one container say: memory in use, CPU time
//! used, bytes read from and written to block devices, under either version
//! of the control-group API.

use vstd::prelude::*;
use crate::text::{
    after_last, after_last_in, before_first, before_first_in, chars_of, contains, contains_in,
    is_ascii_space, ascii_space, last_token, last_token_in, lines, lines_from, next_line, parse_u64, parse_u64_in,
    same_text, starts_with, starts_with_in, tokens, trim_end, trim_end_in,
};

verus! {

/// Why a container's metric could not be read.
#[derive(Copy, Clone, Debug, PartialEq, Eq, Structural)]
pub enum ReadError {
    /// A metric file could not be read.
    MissingFile,
    /// A value is not a number of 64 bits.
    Malformed,
    /// `cpu.stat` lacks `user_usec` or `system_usec`.
    MissingKey,
    /// The values of all devices together exceed 64 bits.
    Overflow,
}

/// What a file with a single number says: the number that stands before
/// the white space at the file's end.
pub open spec fn counter_of(content: Seq<char>) -> Result<u64, ReadError> {
    match parse_u64(trim_end(content)) {
        Some(value) => Ok(value),
        None => Err(ReadError::Malformed),
    }
}

/// Reads a file that holds a single number.
pub fn parse_counter(content: &str) -> (value: Result<u64, ReadError>)
    ensures
        value == counter_of(content@),
{
    let chars = chars_of(content);
    assert(chars@.subrange(0, chars@.len() as int) =~= chars@);
    let end = trim_end_in(&chars, 0, chars.len());
    match parse_u64_in(&chars, 0, end) {
        Some(value) => Ok(value),
        None => Err(ReadError::Malformed),
    }
}

/// The number that a line's last word writes.
pub open spec fn last_number(line: Seq<char>) -> Option<u64> {
    match last_token(line) {
        Some(word) => parse_u64(word),
        None => None,
    }
}

/// The number that the last word of `chars[from..to]` writes.
pub fn last_number_in(chars: &Vec<char>, from: usize, to: usize) -> (number: Option<u64>)
    requires
        from <= to <= chars.len(),
    ensures
        number == last_number(chars@.subrange(from as int, to as int)),
{
    match last_token_in(chars, from, to) {
        Some((begin, end)) => parse_u64_in(chars, begin, end),
        None => None,
    }
}

/// What one line of `cpu.stat` says.
pub enum CpuField {
    User(u64),
    System(u64),
    Other,
    Malformed,
}

/// A line that begins with `user_usec` or `system_usec` gives that time
/// by the number that its last word writes.
pub open spec fn cpu_stat_line(line: Seq<char>) -> CpuField {
    if starts_with(line, "user_usec"@) {
        match last_number(line) {
            Some(value) => CpuField::User(value),
            None => CpuField::Malformed,
        }
    } else if starts_with(line, "system_usec"@) {
        match last_number(line) {
            Some(value) => CpuField::System(value),
            None => CpuField::Malformed,
        }
    } else {
        CpuField::Other
    }
}

/// The value of the last `user_usec` line among `lines`.
pub open spec fn last_user(lines: Seq<Seq<char>>) -> Option<u64>
    decreases lines.len(),
{
    if lines.len() == 0 {
        None
    } else {
        match cpu_stat_line(lines.last()) {
            CpuField::User(value) => Some(value),
            _ => last_user(lines.drop_last()),
        }
    }
}

/// The value of the last `system_usec` line among `lines`.
pub open spec fn last_system(lines: Seq<Seq<char>>) -> Option<u64>
    decreases lines.len(),
{
    if lines.len() == 0 {
        None
    } else {
        match cpu_stat_line(lines.last()) {
            CpuField::System(value) => Some(value),
            _ => last_system(lines.drop_last()),
        }
    }
}

/// Whether one of the lines is malformed.
pub open spec fn cpu_stat_malformed(lines: Seq<Seq<char>>) -> bool {
    exists|i: int| 0 <= i < lines.len() && cpu_stat_line(#[trigger] lines[i]) is Malformed
}

/// The user and system time, in microseconds, that `cpu.stat` gives: of
/// each the last line counts. A `user_usec` or `system_usec` line that ends
/// in no number makes the file malformed.
pub open spec fn cpu_stat_of(content: Seq<char>) -> Result<(u64, u64), ReadError> {
    let all = lines(content);
    if cpu_stat_malformed(all) {
        Err(ReadError::Malformed)
    } else {
        match (last_user(all), last_system(all)) {
            (Some(user), Some(system)) => Ok((user, system)),
            _ => Err(ReadError::MissingKey),
        }
    }
}

/// Reads `cpu.stat`: the user and the system time in microseconds.
pub fn parse_cpu_stat(content: &str) -> (times: Result<(u64, u64), ReadError>)
    ensures
        times == cpu_stat_of(content@),
{
    let chars = chars_of(content);
    let user_key = chars_of("user_usec");
    let system_key = chars_of("system_usec");
    let mut user: Option<u64> = None;
    let mut system: Option<u64> = None;
    let ghost mut done: Seq<Seq<char>> = Seq::empty();
    let mut pos: usize = 0;
    while pos < chars.len()
        invariant
            pos <= chars.len(),
            chars@ == content@,
            user_key@ == "user_usec"@,
            system_key@ == "system_usec"@,
            lines(chars@) == done + lines_from(chars@, pos as int),
            !cpu_stat_malformed(done),
            user == last_user(done),
            system == last_system(done),
        decreases chars.len() - pos,
    {
        let (end, next) = next_line(&chars, pos);
        let ghost line = chars@.subrange(pos as int, end as int);
        let ghost grown = done.push(line);
        assert(grown.drop_last() =~= done);
        if starts_with_in(&chars, pos, end, &user_key) {
            match last_number_in(&chars, pos, end) {
                Some(value) => {
                    user = Some(value);
                },
                None => {
                    assert(lines(chars@)[done.len() as int] == line);
                    return Err(ReadError::Malformed);
                },
            }
        } else if starts_with_in(&chars, pos, end, &system_key) {
            match last_number_in(&chars, pos, end) {
                Some(value) => {
                    system = Some(value);
                },
                None => {
                    assert(lines(chars@)[done.len() as int] == line);
                    return Err(ReadError::Malformed);
                },
            }
        }
        proof {
            done = grown;
        }
        pos = next;
    }
    match (user, system) {
        (Some(u), Some(s)) => Ok((u, s)),
        _ => Err(ReadError::MissingKey),
    }
}

/// What one line of `blkio.throttle.io_service_bytes`, or one word of
/// `io.stat`, adds to the bytes read or written.
pub enum IoField {
    Read(u64),
    Write(u64),
    Other,
    Malformed,
}

/// A line that names `Read` counts as read, one that names `Write` but not
/// `Read` as written, by the number that its last word writes.
pub open spec fn io_service_line(line: Seq<char>) -> IoField {
    if contains(line, "Read"@) {
        match last_number(line) {
            Some(value) => IoField::Read(value),
            None => IoField::Malformed,
        }
    } else if contains(line, "Write"@) {
        match last_number(line) {
            Some(value) => IoField::Write(value),
            None => IoField::Malformed,
        }
    } else {
        IoField::Other
    }
}

/// A word with an equals sign must end in a number after its last equals
/// sign; it counts as read where `rbytes` stands before its first equals
/// sign, as written where `wbytes` does.
pub open spec fn io_stat_word(word: Seq<char>) -> IoField {
    if !word.contains('=') {
        IoField::Other
    } else {
        match parse_u64(after_last(word, '=')) {
            None => IoField::Malformed,
            Some(value) => if before_first(word, '=') == "rbytes"@ {
                IoField::Read(value)
            } else if before_first(word, '=') == "wbytes"@ {
                IoField::Write(value)
            } else {
                IoField::Other
            },
        }
    }
}

/// The bytes read that a field adds.
pub open spec fn read_part(field: IoField) -> nat {
    match field {
        IoField::Read(value) => value as nat,
        _ => 0,
    }
}

/// The bytes written that a field adds.
pub open spec fn write_part(field: IoField) -> nat {
    match field {
        IoField::Write(value) => value as nat,
        _ => 0,
    }
}

/// The bytes read that `fields` add up to.
pub open spec fn read_total(fields: Seq<IoField>) -> nat
    decreases fields.len(),
{
    if fields.len() == 0 {
        0
    } else {
        read_total(fields.drop_last()) + read_part(fields.last())
    }
}

/// The bytes written that `fields` add up to.
pub open spec fn write_total(fields: Seq<IoField>) -> nat
    decreases fields.len(),
{
    if fields.len() == 0 {
        0
    } else {
        write_total(fields.drop_last()) + write_part(fields.last())
    }
}

/// Whether one of the fields is malformed.
pub open spec fn io_malformed(fields: Seq<IoField>) -> bool {
    exists|i: int| 0 <= i < fields.len() && #[trigger] fields[i] is Malformed
}

/// The bytes read and written over all devices. A malformed field spoils
/// the whole; a total beyond 64 bits is an overflow.
pub open spec fn io_totals(fields: Seq<IoField>) -> Result<(u64, u64), ReadError> {
    if io_malformed(fields) {
        Err(ReadError::Malformed)
    } else if read_total(fields) > u64::MAX || write_total(fields) > u64::MAX {
        Err(ReadError::Overflow)
    } else {
        Ok((read_total(fields) as u64, write_total(fields) as u64))
    }
}

/// What `blkio.throttle.io_service_bytes` says.
pub open spec fn io_service_bytes_of(content: Seq<char>) -> Result<(u64, u64), ReadError> {
    io_totals(lines(content).map_values(|line: Seq<char>| io_service_line(line)))
}

/// What `io.stat` says.
pub open spec fn io_stat_of(content: Seq<char>) -> Result<(u64, u64), ReadError> {
    io_totals(tokens(content).map_values(|word: Seq<char>| io_stat_word(word)))
}

proof fn lemma_totals_push(fields: Seq<IoField>, field: IoField)
    ensures
        read_total(fields.push(field)) == read_total(fields) + read_part(field),
        write_total(fields.push(field)) == write_total(fields) + write_part(field),
        io_malformed(fields.push(field)) == (io_malformed(fields) || field is Malformed),
{
    let grown = fields.push(field);
    assert(grown.drop_last() =~= fields);
    if io_malformed(fields) {
        let i = choose|i: int| 0 <= i < fields.len() && #[trigger] fields[i] is Malformed;
        assert(grown[i] is Malformed);
    }
    if field is Malformed {
        assert(grown[fields.len() as int] is Malformed);
    }
    if io_malformed(grown) {
        let i = choose|i: int| 0 <= i < grown.len() && #[trigger] grown[i] is Malformed;
        if i < fields.len() {
            assert(fields[i] is Malformed);
        }
    }
}

/// Running totals that cannot overflow: no file holds more fields than it
/// has characters.
struct Totals {
    read: u128,
    write: u128,
    malformed: bool,
}

impl Totals {
    spec fn stands_for(self, fields: Seq<IoField>, limit: nat) -> bool {
        &&& self.read == read_total(fields)
        &&& self.write == write_total(fields)
        &&& self.malformed == io_malformed(fields)
        &&& fields.len() <= limit
        &&& read_total(fields) <= fields.len() * 0xFFFF_FFFF_FFFF_FFFF
        &&& write_total(fields) <= fields.len() * 0xFFFF_FFFF_FFFF_FFFF
    }

    fn new() -> (totals: Totals)
        ensures
            totals.stands_for(Seq::empty(), 0),
    {
        Totals { read: 0, write: 0, malformed: false }
    }

    fn add(&mut self, field: IoField, Ghost(fields): Ghost<Seq<IoField>>, Ghost(limit): Ghost<nat>)
        requires
            old(self).stands_for(fields, limit),
            limit < usize::MAX,
        ensures
            final(self).stands_for(fields.push(field), limit + 1),
    {
        proof {
            lemma_totals_push(fields, field);
        }
        match field {
            IoField::Read(value) => {
                self.read = self.read + value as u128;
            },
            IoField::Write(value) => {
                self.write = self.write + value as u128;
            },
            IoField::Other => {},
            IoField::Malformed => {
                self.malformed = true;
            },
        }
    }

    fn finish(&self, Ghost(fields): Ghost<Seq<IoField>>, Ghost(limit): Ghost<nat>) -> (totals:
        Result<(u64, u64), ReadError>)
        requires
            self.stands_for(fields, limit),
        ensures
            totals == io_totals(fields),
    {
        if self.malformed {
            Err(ReadError::Malformed)
        } else if self.read > 0xFFFF_FFFF_FFFF_FFFF || self.write > 0xFFFF_FFFF_FFFF_FFFF {
            Err(ReadError::Overflow)
        } else {
            Ok((self.read as u64, self.write as u64))
        }
    }
}

/// Reads `blkio.throttle.io_service_bytes`: the bytes read and written
/// over all devices.
pub fn parse_io_service_bytes(content: &str) -> (totals: Result<(u64, u64), ReadError>)
    ensures
        totals == io_service_bytes_of(content@),
{
    let chars = chars_of(content);
    let read_key = chars_of("Read");
    let write_key = chars_of("Write");
    let mut totals = Totals::new();
    let ghost mut done: Seq<Seq<char>> = Seq::empty();
    let ghost classify = |line: Seq<char>| io_service_line(line);
    let mut pos: usize = 0;
    while pos < chars.len()
        invariant
            pos <= chars.len(),
            chars@ == content@,
            read_key@ == "Read"@,
            write_key@ == "Write"@,
            classify == |line: Seq<char>| io_service_line(line),
            lines(chars@) == done + lines_from(chars@, pos as int),
            totals.stands_for(done.map_values(classify), pos as nat),
        decreases chars.len() - pos,
    {
        let (end, next) = next_line(&chars, pos);
        let ghost line = chars@.subrange(pos as int, end as int);
        let ghost grown = done.push(line);
        assert(grown.map_values(classify) =~= done.map_values(classify).push(
            io_service_line(line),
        ));
        let field = if contains_in(&chars, pos, end, &read_key) {
            match last_number_in(&chars, pos, end) {
                Some(value) => IoField::Read(value),
                None => IoField::Malformed,
            }
        } else if contains_in(&chars, pos, end, &write_key) {
            match last_number_in(&chars, pos, end) {
                Some(value) => IoField::Write(value),
                None => IoField::Malformed,
            }
        } else {
            IoField::Other
        };
        totals.add(field, Ghost(done.map_values(classify)), Ghost(pos as nat));
        proof {
            done = grown;
        }
        pos = next;
    }
    totals.finish(Ghost(done.map_values(classify)), Ghost(pos as nat))
}

/// What the word `chars[from..to]` of `io.stat` says.
fn io_stat_word_in(
    chars: &Vec<char>,
    from: usize,
    to: usize,
    read_key: &Vec<char>,
    write_key: &Vec<char>,
) -> (field: IoField)
    requires
        from <= to <= chars.len(),
        read_key@ == "rbytes"@,
        write_key@ == "wbytes"@,
    ensures
        field == io_stat_word(chars@.subrange(from as int, to as int)),
{
    let ghost word = chars@.subrange(from as int, to as int);
    let key_end = before_first_in(chars, from, to, '=');
    if key_end == to {
        assert(!word.contains('=')) by {
            if word.contains('=') {
                let i = choose|i: int| 0 <= i < word.len() && word[i] == '=';
                assert(chars@[from + i] == '=');
            }
        }
        return IoField::Other;
    }
    assert(word[key_end - from] == '=');
    let value_start = after_last_in(chars, from, to, '=');
    match parse_u64_in(chars, value_start, to) {
        None => IoField::Malformed,
        Some(value) => if same_text(chars, from, key_end, read_key) {
            IoField::Read(value)
        } else if same_text(chars, from, key_end, write_key) {
            IoField::Write(value)
        } else {
            IoField::Other
        },
    }
}

/// Reads `io.stat`: the bytes read and written over all devices.
pub fn parse_io_stat(content: &str) -> (totals: Result<(u64, u64), ReadError>)
    ensures
        totals == io_stat_of(content@),
{
    let chars = chars_of(content);
    let read_key = chars_of("rbytes");
    let write_key = chars_of("wbytes");
    let mut totals = Totals::new();
    let ghost classify = |word: Seq<char>| io_stat_word(word);
    let ghost s = chars@;
    let mut pos: usize = 0;
    while pos < chars.len()
        invariant
            pos <= chars.len(),
            s == chars@,
            chars@ == content@,
            read_key@ == "rbytes"@,
            write_key@ == "wbytes"@,
            classify == |word: Seq<char>| io_stat_word(word),
            pos == 0 || is_ascii_space(s[pos - 1]) || (pos < s.len() ==> is_ascii_space(
                s[pos as int],
            )),
            totals.stands_for(tokens(s.take(pos as int)).map_values(classify), pos as nat),
        decreases chars.len() - pos,
    {
        let ghost done = tokens(s.take(pos as int));
        if ascii_space(chars[pos]) {
            assert(s.take(pos + 1).drop_last() =~= s.take(pos as int));
            pos += 1;
        } else {
            let begin: usize = pos;
            let mut end: usize = pos + 1;
            assert(s.take(begin + 1).drop_last() =~= s.take(begin as int));
            assert(seq![s[begin as int]] =~= s.subrange(begin as int, begin + 1));
            while end < chars.len() && !ascii_space(chars[end])
                invariant
                    begin < end <= chars.len(),
                    s == chars@,
                    !is_ascii_space(s[end - 1]),
                    tokens(s.take(end as int)) == done.push(s.subrange(begin as int, end as int)),
                decreases chars.len() - end,
            {
                let ghost before = tokens(s.take(end as int));
                assert(s.take(end + 1).drop_last() =~= s.take(end as int));
                assert(before.last().push(s[end as int]) =~= s.subrange(begin as int, end + 1));
                end += 1;
            }
            let field = io_stat_word_in(&chars, begin, end, &read_key, &write_key);
            assert(tokens(s.take(end as int)).map_values(classify) =~= done.map_values(
                classify,
            ).push(field));
            totals.add(field, Ghost(done.map_values(classify)), Ghost(pos as nat));
            pos = end;
        }
    }
    assert(s.take(pos as int) =~= s);
    totals.finish(Ghost(tokens(s).map_values(classify)), Ghost(pos as nat))
}

} // verus!

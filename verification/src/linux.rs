//! Resource readings from the text of the Linux process-accounting files
//! `/proc/<pid>/stat`, `/proc/<pid>/status`, `/proc/<pid>/net/dev` and
//! `/proc/<pid>/io`.
//!
//! Reading the files is the caller's part. What a file held is handed over
//! as text; a file that could not be read is handed over as `None`.

use vstd::prelude::*;
use crate::monitor::cpu_step;
use crate::monitor::memory_step;
use crate::monitor::network_step;
use crate::monitor::Monitor;
use crate::process::ProcessInfo;
use crate::process::ProcessView;
use crate::text::after_last;
use crate::text::begins_with;
use crate::text::chars_of;
use crate::text::fields;
use crate::text::lines;
use crate::text::parse_number;
use crate::text::parse_u64;
use crate::text::same_text;
use crate::text::split_lines;
use crate::text::split_whitespace;
use crate::text::starts_with;
use crate::text::text_after_last;
use crate::text::text_view;
use crate::text::word_views;

verus! {

/// The number that the field at `index` denotes, if there is such a field
/// and it denotes one.
pub open spec fn number_at(words: Seq<Seq<char>>, index: int) -> Option<u64> {
    if 0 <= index < words.len() {
        parse_u64(words[index])
    } else {
        None
    }
}

/// The first of `rows` that begins with `tag`.
pub open spec fn tagged_row(rows: Seq<Seq<char>>, tag: Seq<char>) -> Option<Seq<char>>
    decreases rows.len(),
{
    if rows.len() == 0 {
        None
    } else if starts_with(rows.first(), tag) {
        Some(rows.first())
    } else {
        tagged_row(rows.drop_first(), tag)
    }
}

/// The number in the second field of the first of `rows` that has two or
/// more fields of which the first is `key`.
pub open spec fn keyed_number(rows: Seq<Seq<char>>, key: Seq<char>) -> Option<u64>
    decreases rows.len(),
{
    if rows.len() == 0 {
        None
    } else if fields(rows.first()).len() >= 2 && fields(rows.first())[0] == key {
        parse_u64(fields(rows.first())[1])
    } else {
        keyed_number(rows.drop_first(), key)
    }
}

/// The received and transmitted byte counts of one interface row: its
/// second and its tenth field.
pub open spec fn interface_bytes(row: Seq<char>) -> Option<(u64, u64)> {
    match (number_at(fields(row), 1), number_at(fields(row), 9)) {
        (Some(received), Some(transmitted)) => Some((received, transmitted)),
        _ => None,
    }
}

/// The byte counts of those of `rows` that are readable interface rows, in
/// order.
pub open spec fn interface_rows(rows: Seq<Seq<char>>) -> Seq<(u64, u64)>
    decreases rows.len(),
{
    if rows.len() == 0 {
        Seq::empty()
    } else {
        match interface_bytes(rows.last()) {
            Some(bytes) => interface_rows(rows.drop_last()).push(bytes),
            None => interface_rows(rows.drop_last()),
        }
    }
}

/// The cumulative user and system tick counts in the text of a `stat`
/// file. The record starts with the process id and the process name in
/// round brackets; the name may itself hold white space and brackets. The
/// tick counts are the twelfth and the thirteenth field after the last
/// closing bracket. A record without a closing bracket gives nothing.
pub open spec fn stat_ticks(text: Seq<char>) -> Option<(u64, u64)> {
    match after_last(text, ')') {
        Some(rest) => match (number_at(fields(rest), 11), number_at(fields(rest), 12)) {
            (Some(user), Some(system)) => Some((user, system)),
            _ => None,
        },
        None => None,
    }
}

/// The resident memory in kilobytes in the text of a `status` file: the
/// second field of the first line that begins with `VmRSS:`.
pub open spec fn status_rss(text: Seq<char>) -> Option<u64> {
    match tagged_row(lines(text), "VmRSS:"@) {
        Some(row) => number_at(fields(row), 1),
        None => None,
    }
}

/// The byte counts per interface in the text of a `net/dev` file: those of
/// every readable interface row after the two header lines.
pub open spec fn net_dev_bytes(text: Seq<char>) -> Seq<(u64, u64)> {
    let rows = lines(text);
    if rows.len() <= 2 {
        Seq::empty()
    } else {
        interface_rows(rows.subrange(2, rows.len() as int))
    }
}

/// The cumulative bytes read and written in the text of an `io` file: the
/// numbers keyed `read_bytes:` and `write_bytes:`, where both are there.
pub open spec fn io_bytes(text: Seq<char>) -> Option<(u64, u64)> {
    match (keyed_number(lines(text), "read_bytes:"@), keyed_number(lines(text), "write_bytes:"@)) {
        (Some(read), Some(written)) => Some((read, written)),
        _ => None,
    }
}

/// Reads the field at `index` as a number.
fn field_number(words: &Vec<Vec<char>>, index: usize) -> (number: Option<u64>)
    ensures
        number == number_at(word_views(words@), index as int),
{
    if index < words.len() {
        parse_number(&words[index])
    } else {
        None
    }
}

/// Finds the number keyed `key` in `rows`.
fn find_keyed(rows: &Vec<Vec<char>>, key: &Vec<char>) -> (number: Option<u64>)
    ensures
        number == keyed_number(word_views(rows@), key@),
{
    let ghost all = word_views(rows@);
    let mut i: usize = 0;
    assert(all.skip(0) =~= all);
    while i < rows.len()
        invariant
            i <= rows@.len(),
            all == word_views(rows@),
            keyed_number(all, key@) == keyed_number(all.skip(i as int), key@),
        decreases rows@.len() - i,
    {
        let words = split_whitespace(&rows[i]);
        proof {
            assert(all.skip(i as int).drop_first() =~= all.skip(i as int + 1));
        }
        if words.len() >= 2 {
            if same_text(&words[0], key) {
                return field_number(&words, 1);
            }
        }
        i = i + 1;
    }
    None
}

/// Reads the user and system tick counts from the text of a `stat` file.
pub fn parse_stat(text: &str) -> (ticks: Option<(u64, u64)>)
    ensures
        ticks == stat_ticks(text@),
{
    let chars = chars_of(text);
    let rest = match text_after_last(&chars, ')') {
        Some(rest) => rest,
        None => {
            return None;
        },
    };
    let words = split_whitespace(&rest);
    match (field_number(&words, 11), field_number(&words, 12)) {
        (Some(user), Some(system)) => Some((user, system)),
        _ => None,
    }
}

/// Reads the resident memory from the text of a `status` file.
pub fn parse_status(text: &str) -> (kb: Option<u64>)
    ensures
        kb == status_rss(text@),
{
    let chars = chars_of(text);
    let rows = split_lines(&chars);
    let tag = chars_of("VmRSS:");
    let ghost all = word_views(rows@);
    let mut i: usize = 0;
    assert(all.skip(0) =~= all);
    while i < rows.len()
        invariant
            i <= rows@.len(),
            all == word_views(rows@),
            all == lines(text@),
            tag@ == "VmRSS:"@,
            tagged_row(all, tag@) == tagged_row(all.skip(i as int), tag@),
        decreases rows@.len() - i,
    {
        proof {
            assert(all.skip(i as int).drop_first() =~= all.skip(i as int + 1));
        }
        if begins_with(&rows[i], &tag) {
            let words = split_whitespace(&rows[i]);
            return field_number(&words, 1);
        }
        i = i + 1;
    }
    None
}

/// Reads the byte counts per interface from the text of a `net/dev` file.
pub fn parse_net_dev(text: &str) -> (bytes: Vec<(u64, u64)>)
    ensures
        bytes@ == net_dev_bytes(text@),
{
    let chars = chars_of(text);
    let rows = split_lines(&chars);
    let mut bytes: Vec<(u64, u64)> = Vec::new();
    if rows.len() <= 2 {
        return bytes;
    }
    let ghost all = word_views(rows@);
    let mut i: usize = 2;
    while i < rows.len()
        invariant
            2 <= i <= rows@.len(),
            all == word_views(rows@),
            all == lines(text@),
            bytes@ == interface_rows(all.subrange(2, i as int)),
        decreases rows@.len() - i,
    {
        let words = split_whitespace(&rows[i]);
        proof {
            assert(all.subrange(2, i as int + 1).drop_last() =~= all.subrange(2, i as int));
        }
        match (field_number(&words, 1), field_number(&words, 9)) {
            (Some(received), Some(transmitted)) => {
                bytes.push((received, transmitted));
            },
            _ => {},
        }
        i = i + 1;
    }
    bytes
}

/// Reads the bytes read and written from the text of an `io` file.
pub fn parse_io(text: &str) -> (bytes: Option<(u64, u64)>)
    ensures
        bytes == io_bytes(text@),
{
    let chars = chars_of(text);
    let rows = split_lines(&chars);
    let read = find_keyed(&rows, &chars_of("read_bytes:"));
    let written = find_keyed(&rows, &chars_of("write_bytes:"));
    match (read, written) {
        (Some(r), Some(w)) => Some((r, w)),
        _ => None,
    }
}

/// What the four accounting files of one process held at one moment. A
/// file that could not be read is absent.
#[derive(Debug, Clone)]
pub struct Snapshot {
    /// Text of `/proc/<pid>/stat`.
    pub stat: Option<String>,
    /// Text of `/proc/<pid>/status`.
    pub status: Option<String>,
    /// Text of `/proc/<pid>/net/dev`.
    pub net_dev: Option<String>,
    /// Text of `/proc/<pid>/io`.
    pub io: Option<String>,
}

/// Mathematical model of a [`Snapshot`].
pub struct SnapshotView {
    pub stat: Option<Seq<char>>,
    pub status: Option<Seq<char>>,
    pub net_dev: Option<Seq<char>>,
    pub io: Option<Seq<char>>,
}

impl SnapshotView {
    /// The snapshot of a process of which no file could be read.
    pub open spec fn unreadable() -> SnapshotView {
        SnapshotView { stat: None, status: None, net_dev: None, io: None }
    }

    /// The CPU reading that the snapshot gives.
    pub open spec fn cpu(self) -> Option<(u64, u64)> {
        match self.stat {
            Some(text) => stat_ticks(text),
            None => None,
        }
    }

    /// The memory reading that the snapshot gives.
    pub open spec fn memory(self) -> Option<u64> {
        match self.status {
            Some(text) => status_rss(text),
            None => None,
        }
    }

    /// The network readings that the snapshot gives.
    pub open spec fn network(self) -> Seq<(u64, u64)> {
        match self.net_dev {
            Some(text) => net_dev_bytes(text),
            None => Seq::empty(),
        }
    }

    /// The disk reading that the snapshot gives.
    pub open spec fn disk(self) -> Option<(u64, u64)> {
        match self.io {
            Some(text) => io_bytes(text),
            None => None,
        }
    }

    /// The run after one scan of the snapshot: its CPU, memory, network and
    /// disk readings taken in, in that order.
    pub open spec fn scanned(self, run: ProcessView) -> ProcessView {
        run.with_stat(
            run.stat.with_cpu(self.cpu()).with_memory(self.memory()).with_network(
                self.network(),
            ).with_disk(self.disk()),
        )
    }
}

impl View for Snapshot {
    type V = SnapshotView;

    open spec fn view(&self) -> SnapshotView {
        SnapshotView {
            stat: text_view(self.stat),
            status: text_view(self.status),
            net_dev: text_view(self.net_dev),
            io: text_view(self.io),
        }
    }
}

impl Snapshot {
    /// The snapshot of a process of which no file could be read.
    pub fn unreadable() -> (snapshot: Self)
        ensures
            snapshot@ == SnapshotView::unreadable(),
    {
        Snapshot { stat: None, status: None, net_dev: None, io: None }
    }
}

/// A reader that is handed, before each scan, a snapshot of the accounting
/// files of its process, and reads the samples from that text.
#[derive(Debug, Clone)]
pub struct PollBased {
    /// The process that the reader is bound to.
    pub pid: u32,
    /// What the files held when they were last polled.
    pub snapshot: Snapshot,
}

impl PollBased {
    /// Replaces the snapshot by a newer one.
    pub fn load(&mut self, snapshot: Snapshot)
        ensures
            final(self).pid == old(self).pid,
            final(self).snapshot == snapshot,
    {
        self.snapshot = snapshot;
    }
}

impl Monitor for PollBased {
    /// A reader bound to the process `pid`, with nothing polled yet.
    fn new(pid: u32) -> (monitor: Self)
        ensures
            monitor.pid == pid,
            monitor.snapshot@ == SnapshotView::unreadable(),
    {
        PollBased { pid, snapshot: Snapshot::unreadable() }
    }

    /// Takes in the tick counts of the polled `stat` file.
    fn read_cpu_usage(&mut self, process_info: &mut ProcessInfo)
        ensures
            *final(self) == *old(self),
            final(process_info)@ == old(process_info)@.with_stat(
                old(process_info)@.stat.with_cpu(old(self).snapshot@.cpu()),
            ),
    {
        let reading = match &self.snapshot.stat {
            Some(text) => parse_stat(text.as_str()),
            None => None,
        };
        process_info.stat.record_cpu(reading);
    }

    /// Takes in the resident memory of the polled `status` file.
    fn read_memory_usage(&mut self, process_info: &mut ProcessInfo)
        ensures
            *final(self) == *old(self),
            final(process_info)@ == old(process_info)@.with_stat(
                old(process_info)@.stat.with_memory(old(self).snapshot@.memory()),
            ),
    {
        let reading = match &self.snapshot.status {
            Some(text) => parse_status(text.as_str()),
            None => None,
        };
        process_info.stat.record_memory(reading);
    }

    /// Takes in the byte counts per interface of the polled `net/dev` file.
    fn read_network_usage(&mut self, process_info: &mut ProcessInfo)
        ensures
            *final(self) == *old(self),
            final(process_info)@ == old(process_info)@.with_stat(
                old(process_info)@.stat.with_network(old(self).snapshot@.network()),
            ),
    {
        let readings = match &self.snapshot.net_dev {
            Some(text) => parse_net_dev(text.as_str()),
            None => Vec::new(),
        };
        process_info.stat.record_network(&readings);
    }

    /// Takes in the bytes read and written of the polled `io` file.
    fn read_disk_usage(&mut self, process_info: &mut ProcessInfo)
        ensures
            *final(self) == *old(self),
            final(process_info)@ == old(process_info)@.with_stat(
                old(process_info)@.stat.with_disk(old(self).snapshot@.disk()),
            ),
    {
        let reading = match &self.snapshot.io {
            Some(text) => parse_io(text.as_str()),
            None => None,
        };
        process_info.stat.record_disk(reading);
    }

    /// One scan of the polled files: CPU, memory, network, disk, in that
    /// order.
    fn scan(&mut self, process_info: &mut ProcessInfo)
        ensures
            *final(self) == *old(self),
            final(process_info)@ == old(self).snapshot@.scanned(old(process_info)@),
    {
        self.read_cpu_usage(process_info);
        let ghost cpu = process_info@;
        self.read_memory_usage(process_info);
        let ghost memory = process_info@;
        self.read_network_usage(process_info);
        let ghost network = process_info@;
        self.read_disk_usage(process_info);
        assert(cpu_step(old(process_info)@, cpu) && memory_step(cpu, memory) && network_step(
            memory,
            network,
        ));
    }
}

} // verus!

//! The record of one execution of a command and the raw samples taken of it.
//!
//! Wall-clock markers are nanoseconds on a monotonic clock whose origin the
//! caller picks; a duration is a number of nanoseconds.

use vstd::prelude::*;
use crate::text::text_view;

verus! {

/// Raw samples accumulated over one run.
///
/// The CPU fields hold the most recent cumulative tick counts and are
/// overwritten by each scan. Every other field is a sequence in scan order
/// that grows only when a reading succeeds.
#[derive(Debug, Clone)]
pub struct Stat {
    /// Cumulative bytes read from storage, one entry per disk reading.
    pub read_bytes: Vec<u64>,
    /// Cumulative bytes written to storage, one entry per disk reading.
    pub write_bytes: Vec<u64>,
    /// Cumulative bytes received, one entry per interface and reading.
    pub received: Vec<u64>,
    /// Cumulative bytes transmitted, one entry per interface and reading.
    pub transmitted: Vec<u64>,
    /// Ticks spent in user mode, as last read.
    pub utime: u64,
    /// Ticks spent in kernel mode, as last read.
    pub stime: u64,
    /// Resident memory in kilobytes, one entry per memory reading.
    pub memory_kb: Vec<u64>,
    /// Sum of `utime` and `stime`, as last read.
    pub total_time: u64,
}

/// Mathematical model of a [`Stat`].
pub struct StatView {
    pub read_bytes: Seq<u64>,
    pub write_bytes: Seq<u64>,
    pub received: Seq<u64>,
    pub transmitted: Seq<u64>,
    pub utime: u64,
    pub stime: u64,
    pub memory_kb: Seq<u64>,
    pub total_time: u64,
}

impl StatView {
    /// The samples of a run that has not been scanned yet.
    pub open spec fn empty() -> StatView {
        StatView {
            read_bytes: Seq::empty(),
            write_bytes: Seq::empty(),
            received: Seq::empty(),
            transmitted: Seq::empty(),
            utime: 0,
            stime: 0,
            memory_kb: Seq::empty(),
            total_time: 0,
        }
    }

    /// The total tick count is the sum of the user and system tick counts.
    pub open spec fn wf(self) -> bool {
        self.total_time == self.utime + self.stime
    }

    /// The samples after a CPU reading: a reading of user and system ticks
    /// whose sum fits 64 bits replaces the CPU fields, any other leaves the
    /// samples as they are.
    pub open spec fn with_cpu(self, reading: Option<(u64, u64)>) -> StatView {
        match reading {
            Some((user, system)) if user + system <= u64::MAX => StatView {
                utime: user,
                stime: system,
                total_time: (user + system) as u64,
                ..self
            },
            _ => self,
        }
    }

    /// The samples after a memory reading: a reading is appended, none
    /// leaves the samples as they are.
    pub open spec fn with_memory(self, reading: Option<u64>) -> StatView {
        match reading {
            Some(kb) => StatView { memory_kb: self.memory_kb.push(kb), ..self },
            None => self,
        }
    }

    /// The samples after a network reading: for each interface read, in
    /// order, its received and transmitted byte counts are appended.
    pub open spec fn with_network(self, readings: Seq<(u64, u64)>) -> StatView {
        StatView {
            received: self.received + Seq::new(readings.len(), |i: int| readings[i].0),
            transmitted: self.transmitted + Seq::new(readings.len(), |i: int| readings[i].1),
            ..self
        }
    }

    /// The samples after a disk reading: a reading of bytes read and bytes
    /// written is appended, none leaves the samples as they are.
    pub open spec fn with_disk(self, reading: Option<(u64, u64)>) -> StatView {
        match reading {
            Some((read, written)) => StatView {
                read_bytes: self.read_bytes.push(read),
                write_bytes: self.write_bytes.push(written),
                ..self
            },
            None => self,
        }
    }
}

impl View for Stat {
    type V = StatView;

    open spec fn view(&self) -> StatView {
        StatView {
            read_bytes: self.read_bytes@,
            write_bytes: self.write_bytes@,
            received: self.received@,
            transmitted: self.transmitted@,
            utime: self.utime,
            stime: self.stime,
            memory_kb: self.memory_kb@,
            total_time: self.total_time,
        }
    }
}

impl Stat {
    /// The samples of a run that has not been scanned yet.
    pub fn new() -> (stat: Self)
        ensures
            stat@ == StatView::empty(),
            stat@.wf(),
    {
        Stat {
            read_bytes: Vec::new(),
            write_bytes: Vec::new(),
            received: Vec::new(),
            transmitted: Vec::new(),
            utime: 0,
            stime: 0,
            memory_kb: Vec::new(),
            total_time: 0,
        }
    }

    /// Takes in a CPU reading, if there is one and its sum fits 64 bits.
    pub fn record_cpu(&mut self, reading: Option<(u64, u64)>)
        ensures
            final(self)@ == old(self)@.with_cpu(reading),
            old(self)@.wf() ==> final(self)@.wf(),
    {
        if let Some((user, system)) = reading {
            if let Some(total) = user.checked_add(system) {
                self.utime = user;
                self.stime = system;
                self.total_time = total;
            }
        }
    }

    /// Takes in a memory reading, if there is one.
    pub fn record_memory(&mut self, reading: Option<u64>)
        ensures
            final(self)@ == old(self)@.with_memory(reading),
            old(self)@.wf() ==> final(self)@.wf(),
    {
        if let Some(kb) = reading {
            self.memory_kb.push(kb);
        }
    }

    /// Takes in the byte counts of each interface read.
    pub fn record_network(&mut self, readings: &Vec<(u64, u64)>)
        ensures
            final(self)@ == old(self)@.with_network(readings@),
            old(self)@.wf() ==> final(self)@.wf(),
    {
        let mut i: usize = 0;
        while i < readings.len()
            invariant
                i <= readings@.len(),
                self@ == old(self)@.with_network(readings@.take(i as int)),
            decreases readings@.len() - i,
        {
            let (received, transmitted) = readings[i];
            self.received.push(received);
            self.transmitted.push(transmitted);
            i = i + 1;
            proof {
                let done = readings@.take(i as int);
                assert(self.received@ =~= old(self).received@ + Seq::new(
                    done.len(),
                    |k: int| done[k].0,
                ));
                assert(self.transmitted@ =~= old(self).transmitted@ + Seq::new(
                    done.len(),
                    |k: int| done[k].1,
                ));
            }
        }
        assert(readings@.take(i as int) =~= readings@);
    }

    /// Takes in a disk reading, if there is one.
    pub fn record_disk(&mut self, reading: Option<(u64, u64)>)
        ensures
            final(self)@ == old(self)@.with_disk(reading),
            old(self)@.wf() ==> final(self)@.wf(),
    {
        if let Some((read, written)) = reading {
            self.read_bytes.push(read);
            self.write_bytes.push(written);
        }
    }
}

/// One execution of a command: what was run, when, how it ended, and the
/// samples taken while it ran.
#[derive(Debug, Clone)]
pub struct ProcessInfo {
    /// The process that ran the command.
    pub pid: u32,
    /// The program.
    pub command: Option<String>,
    /// The program's arguments.
    pub args: Vec<String>,
    /// The exit code, where the program ended with one.
    pub status: Option<i32>,
    /// When the program was started.
    pub start_time: Option<u64>,
    /// When the program was seen to have terminated.
    pub end_time: Option<u64>,
    /// The time from start to end.
    pub duration: Option<u64>,
    /// The samples taken while the program ran.
    pub stat: Stat,
}

/// Mathematical model of a [`ProcessInfo`].
pub struct ProcessView {
    pub pid: u32,
    pub command: Option<Seq<char>>,
    pub args: Seq<Seq<char>>,
    pub status: Option<i32>,
    pub start_time: Option<u64>,
    pub end_time: Option<u64>,
    pub duration: Option<u64>,
    pub stat: StatView,
}

impl ProcessView {
    /// The record of a run that has not been started.
    pub open spec fn empty() -> ProcessView {
        ProcessView {
            pid: 0,
            command: None,
            args: Seq::empty(),
            status: None,
            start_time: None,
            end_time: None,
            duration: None,
            stat: StatView::empty(),
        }
    }

    /// The record with `stat` as its samples.
    pub open spec fn with_stat(self, stat: StatView) -> ProcessView {
        ProcessView { stat, ..self }
    }

    /// The time markers are consistent: an end implies a start that is not
    /// later, and the duration is present exactly when the end is, as their
    /// difference.
    pub open spec fn wf(self) -> bool {
        &&& self.stat.wf()
        &&& self.end_time is Some ==> self.start_time is Some
        &&& self.duration is Some <==> self.end_time is Some
        &&& self.end_time matches Some(end) ==> {
            &&& self.start_time->0 <= end
            &&& self.duration == Some((end - self.start_time->0) as u64)
        }
    }
}

impl View for ProcessInfo {
    type V = ProcessView;

    open spec fn view(&self) -> ProcessView {
        ProcessView {
            pid: self.pid,
            command: text_view(self.command),
            args: self.args.deep_view(),
            status: self.status,
            start_time: self.start_time,
            end_time: self.end_time,
            duration: self.duration,
            stat: self.stat@,
        }
    }
}

impl ProcessInfo {
    /// The record of a run that has not been started.
    pub fn new() -> (info: Self)
        ensures
            info@ == ProcessView::empty(),
            info@.wf(),
    {
        let info = ProcessInfo {
            pid: 0,
            command: None,
            args: Vec::new(),
            status: None,
            start_time: None,
            end_time: None,
            duration: None,
            stat: Stat::new(),
        };
        assert(info.args.deep_view() =~= Seq::<Seq<char>>::empty());
        info
    }
}

} // verus!

//! The sampler's interface: four independent resource reads, and a scan
//! that makes them in a fixed order.

use vstd::prelude::*;
use crate::process::ProcessInfo;
use crate::process::ProcessView;

verus! {

/// What a CPU read may do to a run: take in some reading of user and system
/// ticks, or none. Nothing but the CPU fields changes.
pub open spec fn cpu_step(before: ProcessView, after: ProcessView) -> bool {
    exists|reading: Option<(u64, u64)>|
        after == before.with_stat(#[trigger] before.stat.with_cpu(reading))
}

/// What a memory read may do to a run: append some reading, or none.
pub open spec fn memory_step(before: ProcessView, after: ProcessView) -> bool {
    exists|reading: Option<u64>|
        after == before.with_stat(#[trigger] before.stat.with_memory(reading))
}

/// What a network read may do to a run: append the byte counts of some
/// number of interfaces, possibly of none.
pub open spec fn network_step(before: ProcessView, after: ProcessView) -> bool {
    exists|readings: Seq<(u64, u64)>|
        after == before.with_stat(#[trigger] before.stat.with_network(readings))
}

/// What a disk read may do to a run: append some reading of bytes read and
/// written, or none.
pub open spec fn disk_step(before: ProcessView, after: ProcessView) -> bool {
    exists|reading: Option<(u64, u64)>|
        after == before.with_stat(#[trigger] before.stat.with_disk(reading))
}

/// What a scan may do to a run: a CPU step, then a memory step, then a
/// network step, then a disk step.
pub open spec fn scan_step(before: ProcessView, after: ProcessView) -> bool {
    exists|cpu: ProcessView, memory: ProcessView, network: ProcessView|
        #![trigger cpu_step(before, cpu), memory_step(cpu, memory), network_step(memory, network)]
        {
            &&& cpu_step(before, cpu)
            &&& memory_step(cpu, memory)
            &&& network_step(memory, network)
            &&& disk_step(network, after)
        }
}

/// A reader of one process's resource use.
///
/// Each read is fallible on its own and fails silently: a read that gets
/// nothing leaves the run as it was.
pub trait Monitor: Sized {
    /// A reader bound to the process `pid`.
    fn new(pid: u32) -> Self;

    /// Overwrites the CPU fields with the current cumulative tick counts.
    fn read_cpu_usage(&mut self, process_info: &mut ProcessInfo)
        ensures
            cpu_step(old(process_info)@, final(process_info)@),
    ;

    /// Appends the current resident memory.
    fn read_memory_usage(&mut self, process_info: &mut ProcessInfo)
        ensures
            memory_step(old(process_info)@, final(process_info)@),
    ;

    /// Appends the current byte counts of each readable interface.
    fn read_network_usage(&mut self, process_info: &mut ProcessInfo)
        ensures
            network_step(old(process_info)@, final(process_info)@),
    ;

    /// Appends the current cumulative bytes read and written.
    fn read_disk_usage(&mut self, process_info: &mut ProcessInfo)
        ensures
            disk_step(old(process_info)@, final(process_info)@),
    ;

    /// One scan: CPU, memory, network, disk, in that order.
    fn scan(&mut self, process_info: &mut ProcessInfo)
        ensures
            scan_step(old(process_info)@, final(process_info)@),
    {
        self.read_cpu_usage(process_info);
        let ghost cpu = process_info@;
        self.read_memory_usage(process_info);
        let ghost memory = process_info@;
        self.read_network_usage(process_info);
        let ghost network = process_info@;
        self.read_disk_usage(process_info);
        assert(cpu_step(old(process_info)@, cpu) && memory_step(cpu, memory) && network_step(
            memory,
            network,
        ));
    }
}

} // verus!

//! Snapshots of the process table: one entry for each process, the busiest
//! first.

use crate::format::{
    byte_size_text, decimal, decimal_string, decimal_value, format_memory, format_run_time,
    is_digit, lemma_decimal_round_trip, run_time_text,
};
use crate::host::{
    cpu_count, cpu_sampling_interval_ms, process_records, refresh_process_table,
    system_with_everything, users_with_list, ProcessRecord,
};
use vstd::prelude::*;
use vstd::set_lib::{lemma_int_range, lemma_set_subset_finite, lemma_subset_equality, set_int_range};

verus! {

/// What one poll reports of one process.
///
/// The processor usage is carried as the bit pattern of the IEEE 754 single
/// that the host reported for the process over all cores, beside the number
/// of cores by which it is to be divided. For the values that a host
/// reports, finite and not negative, a larger pattern is a larger usage.
#[derive(Clone, Debug)]
pub struct ProcessInfo {
    pub id: String,
    pub name: String,
    pub owner: String,
    pub running_time_formatted: String,
    pub memory_used: String,
    pub status: String,
    pub cpu_usage_bits: u32,
    pub cpu_count: usize,
}

/// `after` holds the items of `before`, the one at `i` taken from place
/// `order[i]`, by falling usage; items of equal usage keep the order in
/// which they stood. No two places of `after` draw on the same place of
/// `before`, so with the equal lengths each item is there exactly once.
pub open spec fn stable_descending(
    before: Seq<ProcessInfo>,
    after: Seq<ProcessInfo>,
    order: Seq<int>,
) -> bool {
    &&& after.len() == before.len()
    &&& order.len() == before.len()
    &&& forall|i: int|
        0 <= i < after.len() ==> 0 <= #[trigger] order[i] < before.len() && after[i]
            == before[order[i]]
    &&& forall|i: int, j: int|
        0 <= i < j < after.len() ==> comes_before(
            after[i].cpu_usage_bits,
            #[trigger] order[i],
            after[j].cpu_usage_bits,
            #[trigger] order[j],
        )
}

/// The order of a snapshot: by falling usage, then by rising place.
pub open spec fn comes_before(usage_a: u32, place_a: int, usage_b: u32, place_b: int) -> bool {
    usage_a > usage_b || (usage_a == usage_b && place_a < place_b)
}

/// Usage never rises along `items`.
pub open spec fn descending_usage(items: Seq<ProcessInfo>) -> bool {
    forall|i: int, j: int|
        0 <= i < j < items.len() ==> (#[trigger] items[i]).cpu_usage_bits >= (
        #[trigger] items[j]).cpu_usage_bits
}

/// Orders a snapshot by falling usage and keeps the order of equals.
pub fn sort_by_cpu_usage(items: Vec<ProcessInfo>) -> (sorted: Vec<ProcessInfo>)
    ensures
        exists|order: Seq<int>| stable_descending(items@, sorted@, order),
        descending_usage(sorted@),
{
    let ghost before = items@;
    let mut rest = items;
    let mut out: Vec<ProcessInfo> = Vec::new();
    let ghost mut order: Seq<int> = Seq::empty();
    while rest.len() > 0
        invariant
            rest.len() <= before.len(),
            rest@ =~= before.subrange(0, rest.len() as int),
            out.len() + rest.len() == before.len(),
            order.len() == out.len(),
            forall|i: int|
                0 <= i < out.len() ==> rest.len() <= #[trigger] order[i] < before.len() && out[i]
                    == before[order[i]],
            forall|i: int, j: int|
                0 <= i < j < out.len() ==> comes_before(
                    out[i].cpu_usage_bits,
                    #[trigger] order[i],
                    out[j].cpu_usage_bits,
                    #[trigger] order[j],
                ),
        decreases rest.len(),
    {
        let ghost place: int = rest.len() - 1;
        let ghost old_out = out@;
        let ghost old_order = order;
        let item = rest.pop().unwrap();
        assert(item == before[place]);
        let mut at: usize = 0;
        while at < out.len() && out[at].cpu_usage_bits > item.cpu_usage_bits
            invariant
                at <= out.len(),
                out@ == old_out,
                forall|i: int| 0 <= i < at ==> out[i].cpu_usage_bits > item.cpu_usage_bits,
            decreases out.len() - at,
        {
            at += 1;
        }
        out.insert(at, item);
        proof {
            order = old_order.insert(at as int, place);
            assert forall|i: int| at <= i < old_out.len() implies old_out[i].cpu_usage_bits
                <= item.cpu_usage_bits by {
                if i > at {
                    assert(comes_before(
                        old_out[at as int].cpu_usage_bits,
                        old_order[at as int],
                        old_out[i].cpu_usage_bits,
                        old_order[i],
                    ));
                }
            }
            assert forall|i: int| 0 <= i < out.len() implies rest.len() <= #[trigger] order[i]
                < before.len() && out[i] == before[order[i]] by {
                if i < at {
                    assert(order[i] == old_order[i]);
                } else if i > at {
                    assert(order[i] == old_order[i - 1]);
                    assert(out[i] == old_out[i - 1]);
                }
            }
            assert forall|i: int, j: int| 0 <= i < j < out.len() implies comes_before(
                out[i].cpu_usage_bits,
                #[trigger] order[i],
                out[j].cpu_usage_bits,
                #[trigger] order[j],
            ) by {
                let oi = if i < at { i } else { i - 1 };
                let oj = if j < at { j } else { j - 1 };
                if i != at {
                    assert(order[i] == old_order[oi] && out[i] == old_out[oi]);
                }
                if j != at {
                    assert(order[j] == old_order[oj] && out[j] == old_out[oj]);
                }
                if i != at && j != at {
                    assert(comes_before(
                        old_out[oi].cpu_usage_bits,
                        old_order[oi],
                        old_out[oj].cpu_usage_bits,
                        old_order[oj],
                    ));
                }
            }
        }
    }
    proof {
        assert(stable_descending(before, out@, order));
        assert forall|i: int, j: int| 0 <= i < j < out.len() implies (#[trigger] out@[i]).cpu_usage_bits
            >= (#[trigger] out@[j]).cpu_usage_bits by {
            assert(comes_before(
                out[i].cpu_usage_bits,
                order[i],
                out[j].cpu_usage_bits,
                order[j],
            ));
        }
    }
    out
}

/// The owner shown for a process: the account's name, or nothing where the
/// owner is not known.
pub open spec fn owner_text(owner: Option<String>) -> Seq<char> {
    match owner {
        Some(name) => name@,
        None => Seq::empty(),
    }
}

/// `info` is the entry for the process of which the host reported `record`,
/// on a host of `cpus` cores.
pub open spec fn describes(info: ProcessInfo, record: ProcessRecord, cpus: usize) -> bool {
    &&& info.id@ == decimal(record.pid as nat)
    &&& info.name@ == record.name@
    &&& info.owner@ == owner_text(record.owner)
    &&& info.running_time_formatted@ == run_time_text(record.run_time as nat)
    &&& info.memory_used@ == byte_size_text(record.memory as nat)
    &&& info.status@ == record.status@
    &&& info.cpu_usage_bits == record.cpu_usage_bits
    &&& info.cpu_count == cpus
}

/// `procs` is the snapshot made of `records`: the entry at `i` describes
/// the record at place `order[i]`, and the entries stand by falling usage,
/// those of equal usage in the order of their records.
pub open spec fn snapshot_of(
    records: Seq<ProcessRecord>,
    cpus: usize,
    procs: Seq<ProcessInfo>,
    order: Seq<int>,
) -> bool {
    &&& procs.len() == records.len()
    &&& order.len() == records.len()
    &&& forall|i: int|
        0 <= i < procs.len() ==> 0 <= #[trigger] order[i] < records.len() && describes(
            procs[i],
            records[order[i]],
            cpus,
        )
    &&& forall|i: int, j: int|
        0 <= i < j < procs.len() ==> comes_before(
            procs[i].cpu_usage_bits,
            #[trigger] order[i],
            procs[j].cpu_usage_bits,
            #[trigger] order[j],
        )
}

/// Makes the entry of one process from what the host reported of it.
pub fn describe_process(record: ProcessRecord, cpus: usize) -> (info: ProcessInfo)
    ensures
        describes(info, record, cpus),
{
    let owner = match record.owner {
        Some(name) => name,
        None => String::new(),
    };
    ProcessInfo {
        id: decimal_string(record.pid as u64),
        name: record.name,
        owner,
        running_time_formatted: format_run_time(record.run_time),
        memory_used: format_memory(record.memory),
        status: record.status,
        cpu_usage_bits: record.cpu_usage_bits,
        cpu_count: cpus,
    }
}

/// Makes a snapshot of the records of one poll: one entry for each record,
/// the busiest first.
pub fn snapshot_processes(records: Vec<ProcessRecord>, cpus: usize) -> (procs: Vec<ProcessInfo>)
    ensures
        exists|order: Seq<int>| snapshot_of(records@, cpus, procs@, order),
        descending_usage(procs@),
{
    let ghost given = records@;
    let mut rest = records;
    let mut reversed: Vec<ProcessInfo> = Vec::new();
    while rest.len() > 0
        invariant
            rest.len() <= given.len(),
            rest@ =~= given.subrange(0, rest.len() as int),
            reversed.len() + rest.len() == given.len(),
            forall|i: int|
                0 <= i < reversed.len() ==> describes(
                    #[trigger] reversed[i],
                    given[given.len() - 1 - i],
                    cpus,
                ),
        decreases rest.len(),
    {
        let record = rest.pop().unwrap();
        reversed.push(describe_process(record, cpus));
    }
    let mut infos: Vec<ProcessInfo> = Vec::new();
    while reversed.len() > 0
        invariant
            reversed.len() + infos.len() == given.len(),
            forall|i: int|
                0 <= i < reversed.len() ==> describes(
                    #[trigger] reversed[i],
                    given[given.len() - 1 - i],
                    cpus,
                ),
            forall|i: int| 0 <= i < infos.len() ==> describes(#[trigger] infos[i], given[i], cpus),
        decreases reversed.len(),
    {
        let info = reversed.pop().unwrap();
        infos.push(info);
    }
    let ghost unsorted = infos@;
    let procs = sort_by_cpu_usage(infos);
    proof {
        let order = choose|order: Seq<int>| stable_descending(unsorted, procs@, order);
        assert forall|i: int| 0 <= i < procs.len() implies 0 <= #[trigger] order[i] < given.len()
            && describes(procs[i], given[order[i]], cpus) by {
            assert(procs[i] == unsorted[order[i]]);
        }
        assert(snapshot_of(given, cpus, procs@, order));
    }
    procs
}

/// Reads the process table and makes its snapshot. The table is loaded,
/// then `pause` is called with the milliseconds that have to pass before
/// usage can be told, then the table is read afresh. Whatever the host
/// reports, the result is the snapshot of some list of records: no entry is
/// lost or made up, each identifier is a decimal numeral, and usage never
/// rises along it.
pub fn get_current_processes<F: Fn(u64)>(pause: F) -> (procs: Vec<ProcessInfo>)
    requires
        forall|millis: u64| call_requires(pause, (millis,)),
    ensures
        exists|records: Seq<ProcessRecord>, cpus: usize, order: Seq<int>|
            snapshot_of(records, cpus, procs@, order),
        descending_usage(procs@),
{
    let mut sys = system_with_everything();
    let users = users_with_list();
    pause(cpu_sampling_interval_ms());
    refresh_process_table(&mut sys);
    let records = process_records(&sys, &users);
    let cpus = cpu_count(&sys);
    let procs = snapshot_processes(records, cpus);
    proof {
        let order = choose|order: Seq<int>| snapshot_of(records@, cpus, procs@, order);
        assert(snapshot_of(records@, cpus, procs@, order));
    }
    procs
}

/// A sorted snapshot holds each item of the unsorted one exactly once: no
/// two of its places draw on the same place.
pub proof fn lemma_sorting_keeps_every_item(
    before: Seq<ProcessInfo>,
    after: Seq<ProcessInfo>,
    order: Seq<int>,
)
    requires
        stable_descending(before, after, order),
    ensures
        forall|i: int, j: int|
            0 <= i < j < after.len() ==> #[trigger] order[i] != #[trigger] order[j],
        descending_usage(after),
{
    assert forall|i: int, j: int| 0 <= i < j < after.len() implies #[trigger] order[i]
        != #[trigger] order[j] by {
        assert(comes_before(
            after[i].cpu_usage_bits,
            order[i],
            after[j].cpu_usage_bits,
            order[j],
        ));
        assert(after[i] == before[order[i]]);
        assert(after[j] == before[order[j]]);
    }
    assert forall|i: int, j: int| 0 <= i < j < after.len() implies (#[trigger] after[i]).cpu_usage_bits
        >= (#[trigger] after[j]).cpu_usage_bits by {
        assert(comes_before(
            after[i].cpu_usage_bits,
            order[i],
            after[j].cpu_usage_bits,
            order[j],
        ));
    }
}

/// Of every snapshot: usage never rises along it, no record stands in it
/// twice, and each identifier is a decimal numeral, not empty, that reads
/// back as the identifier of its process.
pub proof fn lemma_snapshot_is_well_formed(
    records: Seq<ProcessRecord>,
    cpus: usize,
    procs: Seq<ProcessInfo>,
    order: Seq<int>,
)
    requires
        snapshot_of(records, cpus, procs, order),
    ensures
        descending_usage(procs),
        forall|i: int, j: int|
            0 <= i < j < procs.len() ==> #[trigger] order[i] != #[trigger] order[j],
        forall|i: int|
            0 <= i < procs.len() ==> (#[trigger] procs[i]).id@.len() >= 1 && decimal_value(
                procs[i].id@,
            ) == records[order[i]].pid,
        forall|i: int, k: int|
            0 <= i < procs.len() && 0 <= k < procs[i].id@.len() ==> is_digit(
                #[trigger] procs[i].id@[k],
            ),
{
    assert forall|i: int, j: int| 0 <= i < j < procs.len() implies #[trigger] order[i]
        != #[trigger] order[j] by {
        assert(comes_before(
            procs[i].cpu_usage_bits,
            order[i],
            procs[j].cpu_usage_bits,
            order[j],
        ));
        assert(describes(procs[i], records[order[i]], cpus));
        assert(describes(procs[j], records[order[j]], cpus));
    }
    assert forall|i: int, j: int| 0 <= i < j < procs.len() implies (#[trigger] procs[i]).cpu_usage_bits
        >= (#[trigger] procs[j]).cpu_usage_bits by {
        assert(comes_before(
            procs[i].cpu_usage_bits,
            order[i],
            procs[j].cpu_usage_bits,
            order[j],
        ));
    }
    assert forall|i: int| 0 <= i < procs.len() implies (#[trigger] procs[i]).id@.len() >= 1
        && decimal_value(procs[i].id@) == records[order[i]].pid && (forall|k: int|
        0 <= k < procs[i].id@.len() ==> is_digit(#[trigger] procs[i].id@[k])) by {
        assert(describes(procs[i], records[order[i]], cpus));
        lemma_decimal_round_trip(records[order[i]].pid as nat);
    }
}

/// `order` lists every place of `usage` by falling usage, places of equal
/// usage by rising place.
pub open spec fn arranged(usage: Seq<u32>, order: Seq<int>) -> bool {
    &&& order.len() == usage.len()
    &&& forall|i: int| 0 <= i < order.len() ==> 0 <= #[trigger] order[i] < usage.len()
    &&& forall|i: int, j: int|
        0 <= i < j < order.len() ==> comes_before(
            usage[#[trigger] order[i]],
            order[i],
            usage[#[trigger] order[j]],
            order[j],
        )
}

proof fn lemma_every_place_occurs(usage: Seq<u32>, order: Seq<int>, place: int)
    requires
        arranged(usage, order),
        0 <= place < usage.len(),
    ensures
        exists|j: int| 0 <= j < order.len() && order[j] == place,
{
    let n = usage.len() as int;
    assert(order.no_duplicates()) by {
        assert forall|i: int, j: int|
            0 <= i < order.len() && 0 <= j < order.len() && i != j implies order[i]
            != order[j] by {
            if i < j {
                assert(comes_before(usage[order[i]], order[i], usage[order[j]], order[j]));
            } else {
                assert(comes_before(usage[order[j]], order[j], usage[order[i]], order[i]));
            }
        }
    }
    order.unique_seq_to_set();
    lemma_int_range(0, n);
    let places = order.to_set();
    assert(places.subset_of(set_int_range(0, n))) by {
        assert forall|a: int| places.contains(a) implies set_int_range(0, n).contains(a) by {
            let i = choose|i: int| 0 <= i < order.len() && order[i] == a;
            assert(0 <= order[i] < n);
        }
    }
    lemma_set_subset_finite(set_int_range(0, n), places);
    lemma_subset_equality(places, set_int_range(0, n));
    assert(set_int_range(0, n).contains(place));
    assert(order.contains(place));
}

proof fn lemma_same_place(usage: Seq<u32>, first: Seq<int>, second: Seq<int>, at: int)
    requires
        arranged(usage, first),
        arranged(usage, second),
        0 <= at < usage.len(),
    ensures
        first[at] == second[at],
    decreases at,
{
    assert forall|k: int| 0 <= k < at implies first[k] == second[k] by {
        lemma_same_place(usage, first, second, k);
    }
    let p = first[at];
    let q = second[at];
    lemma_every_place_occurs(usage, second, p);
    lemma_every_place_occurs(usage, first, q);
    let j = choose|j: int| 0 <= j < second.len() && second[j] == p;
    let k = choose|k: int| 0 <= k < first.len() && first[k] == q;
    if j < at {
        assert(first[j] == second[j]);
        assert(comes_before(usage[first[j]], first[j], usage[first[at]], first[at]));
    }
    if k < at {
        assert(first[k] == second[k]);
        assert(comes_before(usage[second[k]], second[k], usage[second[at]], second[at]));
    }
    if j > at {
        assert(comes_before(usage[second[at]], second[at], usage[second[j]], second[j]));
    }
    if k > at {
        assert(comes_before(usage[first[at]], first[at], usage[first[k]], first[k]));
    }
}

/// There is one way only to arrange a list by falling usage with equals in
/// their order.
pub proof fn lemma_arrangement_is_unique(usage: Seq<u32>, first: Seq<int>, second: Seq<int>)
    requires
        arranged(usage, first),
        arranged(usage, second),
    ensures
        first == second,
{
    assert forall|i: int| 0 <= i < first.len() implies first[i] == second[i] by {
        lemma_same_place(usage, first, second, i);
    }
    assert(first =~= second);
}

/// Sorting has one result: two lists that both hold the items of `before`
/// by falling usage, equals in their order, are the same list.
pub proof fn lemma_sorted_is_unique(
    before: Seq<ProcessInfo>,
    first: Seq<ProcessInfo>,
    first_order: Seq<int>,
    second: Seq<ProcessInfo>,
    second_order: Seq<int>,
)
    requires
        stable_descending(before, first, first_order),
        stable_descending(before, second, second_order),
    ensures
        first == second,
        first_order == second_order,
{
    let usage = Seq::new(before.len(), |i: int| before[i].cpu_usage_bits);
    assert(arranged(usage, first_order)) by {
        assert forall|i: int, j: int| 0 <= i < j < first_order.len() implies comes_before(
            usage[#[trigger] first_order[i]],
            first_order[i],
            usage[#[trigger] first_order[j]],
            first_order[j],
        ) by {
            assert(first[i] == before[first_order[i]]);
            assert(first[j] == before[first_order[j]]);
        }
    }
    assert(arranged(usage, second_order)) by {
        assert forall|i: int, j: int| 0 <= i < j < second_order.len() implies comes_before(
            usage[#[trigger] second_order[i]],
            second_order[i],
            usage[#[trigger] second_order[j]],
            second_order[j],
        ) by {
            assert(second[i] == before[second_order[i]]);
            assert(second[j] == before[second_order[j]]);
        }
    }
    lemma_arrangement_is_unique(usage, first_order, second_order);
    assert forall|i: int| 0 <= i < first.len() implies first[i] == second[i] by {
        assert(first[i] == before[first_order[i]]);
        assert(second[i] == before[second_order[i]]);
    }
    assert(first =~= second);
}

/// Two entries that read the same.
pub open spec fn same_entry(a: ProcessInfo, b: ProcessInfo) -> bool {
    &&& a.id@ == b.id@
    &&& a.name@ == b.name@
    &&& a.owner@ == b.owner@
    &&& a.running_time_formatted@ == b.running_time_formatted@
    &&& a.memory_used@ == b.memory_used@
    &&& a.status@ == b.status@
    &&& a.cpu_usage_bits == b.cpu_usage_bits
    &&& a.cpu_count == b.cpu_count
}

/// A list of records has one snapshot: two snapshots of it show the same
/// records at the same places, and read the same.
pub proof fn lemma_snapshot_is_unique(
    records: Seq<ProcessRecord>,
    cpus: usize,
    first: Seq<ProcessInfo>,
    first_order: Seq<int>,
    second: Seq<ProcessInfo>,
    second_order: Seq<int>,
)
    requires
        snapshot_of(records, cpus, first, first_order),
        snapshot_of(records, cpus, second, second_order),
    ensures
        first_order == second_order,
        first.len() == second.len(),
        forall|i: int| 0 <= i < first.len() ==> same_entry(#[trigger] first[i], second[i]),
{
    let usage = Seq::new(records.len(), |i: int| records[i].cpu_usage_bits);
    assert(arranged(usage, first_order)) by {
        assert forall|i: int, j: int| 0 <= i < j < first_order.len() implies comes_before(
            usage[#[trigger] first_order[i]],
            first_order[i],
            usage[#[trigger] first_order[j]],
            first_order[j],
        ) by {
            assert(describes(first[i], records[first_order[i]], cpus));
            assert(describes(first[j], records[first_order[j]], cpus));
        }
    }
    assert(arranged(usage, second_order)) by {
        assert forall|i: int, j: int| 0 <= i < j < second_order.len() implies comes_before(
            usage[#[trigger] second_order[i]],
            second_order[i],
            usage[#[trigger] second_order[j]],
            second_order[j],
        ) by {
            assert(describes(second[i], records[second_order[i]], cpus));
            assert(describes(second[j], records[second_order[j]], cpus));
        }
    }
    lemma_arrangement_is_unique(usage, first_order, second_order);
    assert forall|i: int| 0 <= i < first.len() implies same_entry(
        #[trigger] first[i],
        second[i],
    ) by {
        assert(describes(first[i], records[first_order[i]], cpus));
        assert(describes(second[i], records[second_order[i]], cpus));
    }
}

} // verus!

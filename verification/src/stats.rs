//! What an instance uses, and whether it runs, as the API reports it.
use crate::client::instance_path;
use crate::json::{
    entries_map, lemma_no_entry, member_views, tokens, Json, JsonView, Members,
};
use crate::text::{chars_of, join3, same_text};
use vstd::prelude::*;

verus! {

/// The path of an instance's state.
pub open spec fn state_path(name: Seq<char>) -> Seq<char> {
    instance_path(name) + "/state"@
}

/// The path of an instance's state.
pub fn state_path_of(name: &str) -> (r: String)
    ensures
        r@ == state_path(name@),
{
    join3("/1.0/instances/", name, "/state")
}

/// What an instance uses.
#[derive(Debug, Clone, Copy, PartialEq, Eq)]
pub struct ResourceUsage {
    pub memory_bytes: u64,
    pub memory_limit_bytes: u64,
    pub disk_bytes: u64,
    pub rx_bytes: u64,
    pub tx_bytes: u64,
    pub uptime: u64,
}

/// `a` stands before `b` in the order of texts, which compares them character by character.
pub open spec fn stands_before(a: Seq<char>, b: Seq<char>) -> bool
    decreases a.len(),
{
    if b.len() == 0 {
        false
    } else if a.len() == 0 {
        true
    } else if a[0] == b[0] {
        stands_before(a.skip(1), b.skip(1))
    } else {
        a[0] < b[0]
    }
}

/// `a` stands before `b` in the order of texts.
fn text_before(a: &str, b: &str) -> (r: bool)
    ensures
        r == stands_before(a@, b@),
{
    let left = chars_of(a);
    let right = chars_of(b);
    let mut i: usize = 0;
    assert(a@.skip(0) =~= a@);
    assert(b@.skip(0) =~= b@);
    while i < left.len() && i < right.len() && left[i] == right[i]
        invariant
            left@ == a@,
            right@ == b@,
            i <= left@.len(),
            i <= right@.len(),
            stands_before(a@, b@) == stands_before(a@.skip(i as int), b@.skip(i as int)),
        decreases left@.len() - i,
    {
        assert(a@.skip(i as int).skip(1) =~= a@.skip(i + 1));
        assert(b@.skip(i as int).skip(1) =~= b@.skip(i + 1));
        i = i + 1;
    }
    if i >= right.len() {
        false
    } else if i >= left.len() {
        true
    } else {
        left[i] < right[i]
    }
}

/// No text stands before itself, and of two different texts one stands before the other.
proof fn lemma_order_is_total(a: Seq<char>, b: Seq<char>)
    ensures
        stands_before(a, b) ==> !stands_before(b, a),
        a == b <==> !stands_before(a, b) && !stands_before(b, a),
    decreases a.len(),
{
    if a.len() > 0 && b.len() > 0 {
        lemma_order_is_total(a.skip(1), b.skip(1));
        assert(a =~= seq![a[0]] + a.skip(1));
        assert(b =~= seq![b[0]] + b.skip(1));
    } else {
        assert(a.len() == 0 && b.len() == 0 ==> a =~= b);
    }
}

/// What stands before a text stands before all that the text stands before.
proof fn lemma_order_is_transitive(a: Seq<char>, b: Seq<char>, c: Seq<char>)
    requires
        stands_before(a, b),
        stands_before(b, c),
    ensures
        stands_before(a, c),
    decreases a.len(),
{
    if a.len() > 0 && a[0] == b[0] && b[0] == c[0] {
        lemma_order_is_transitive(a.skip(1), b.skip(1), c.skip(1));
    }
}

/// The name of the network interface whose traffic counts: the first in the order of names that is
/// not the loopback interface.
pub open spec fn is_first_interface(
    interfaces: Map<Seq<char>, JsonView>,
    name: Seq<char>,
) -> bool {
    &&& interfaces.contains_key(name)
    &&& name != "lo"@
    &&& forall|other: Seq<char>| #[trigger]
        interfaces.contains_key(other) && other != "lo"@ && other != name ==> stands_before(
            name,
            other,
        )
}

/// There is no network interface but the loopback interface.
pub open spec fn only_loopback(interfaces: Map<Seq<char>, JsonView>) -> bool {
    forall|name: Seq<char>| #[trigger] interfaces.contains_key(name) ==> name == "lo"@
}

/// There is one interface at most whose traffic counts.
pub proof fn law_first_interface_is_unique(
    interfaces: Map<Seq<char>, JsonView>,
    a: Seq<char>,
    b: Seq<char>,
)
    requires
        is_first_interface(interfaces, a),
        is_first_interface(interfaces, b),
    ensures
        a == b,
{
    lemma_order_is_total(a, b);
}

/// Every name in the map has an entry.
proof fn lemma_key_has_entry<V>(entries: Seq<(Seq<char>, V)>, key: Seq<char>)
    requires
        entries_map(entries).contains_key(key),
    ensures
        exists|i: int| 0 <= i < entries.len() && (#[trigger] entries[i]).0 == key,
{
    if forall|i: int| 0 <= i < entries.len() ==> (#[trigger] entries[i]).0 != key {
        lemma_no_entry(entries, key);
    }
}

/// Every entry's name is in the map.
proof fn lemma_entry_has_key<V>(entries: Seq<(Seq<char>, V)>, i: int)
    requires
        0 <= i < entries.len(),
    ensures
        entries_map(entries).contains_key(entries[i].0),
    decreases entries.len(),
{
    if i < entries.len() - 1 {
        lemma_entry_has_key(entries.drop_last(), i);
    }
}

/// The network interface whose traffic counts.
fn first_interface(interfaces: &Members) -> (r: Option<&str>)
    ensures
        match r {
            Some(name) => is_first_interface(interfaces@, name@),
            None => only_loopback(interfaces@),
        },
{
    let mut best: Option<usize> = None;
    let entries = &interfaces.entries;
    for i in 0..entries.len()
        invariant
            entries == interfaces.entries,
            best matches Some(b) ==> b < i && entries@[b as int].0@ != "lo"@ && forall|j: int|
                0 <= j < i && (#[trigger] entries@[j]).0@ != "lo"@ && entries@[j].0@
                    != entries@[b as int].0@ ==> stands_before(
                    entries@[b as int].0@,
                    entries@[j].0@,
                ),
            best is None ==> forall|j: int|
                0 <= j < i ==> (#[trigger] entries@[j]).0@ == "lo"@,
    {
        if !same_text(entries[i].0.as_str(), "lo") {
            match best {
                None => {
                    best = Some(i);
                },
                Some(b) => {
                    let ghost old_name = entries@[b as int].0@;
                    let ghost new_name = entries@[i as int].0@;
                    proof {
                        lemma_order_is_total(new_name, old_name);
                    }
                    if text_before(entries[i].0.as_str(), entries[b].0.as_str()) {
                        best = Some(i);
                        proof {
                            assert forall|j: int|
                                0 <= j < i + 1 && (#[trigger] entries@[j]).0@ != "lo"@
                                    && entries@[j].0@ != new_name implies stands_before(
                                new_name,
                                entries@[j].0@,
                            ) by {
                                if entries@[j].0@ != old_name {
                                    lemma_order_is_transitive(
                                        new_name,
                                        old_name,
                                        entries@[j].0@,
                                    );
                                }
                            }
                        }
                    }
                },
            }
        }
    }
    let ghost views = member_views(*interfaces);
    proof {
        assert forall|key: Seq<char>| interfaces@.contains_key(key) implies exists|j: int|
            0 <= j < entries@.len() && (#[trigger] entries@[j]).0@ == key by {
            lemma_key_has_entry(views, key);
            let j = choose|j: int| 0 <= j < views.len() && (#[trigger] views[j]).0 == key;
            assert(entries@[j].0@ == key);
        }
    }
    match best {
        Some(b) => {
            proof {
                lemma_entry_has_key(views, b as int);
                assert(views[b as int].0 == entries@[b as int].0@);
            }
            Some(entries[b].0.as_str())
        },
        None => None,
    }
}

/// `new`, where there is something new, and else `known`.
pub open spec fn or_known(new: Option<u64>, known: u64) -> u64 {
    match new {
        Some(n) => n,
        None => known,
    }
}

/// The network interfaces that a state reports.
pub open spec fn interfaces_of(state: JsonView) -> Option<Map<Seq<char>, JsonView>> {
    match state.at(seq!["metadata"@, "network"@]) {
        Some(JsonView::Object(interfaces)) => Some(interfaces),
        _ => None,
    }
}

/// A counter of a network interface.
pub open spec fn interface_counter(interface: JsonView, counter: Seq<char>) -> Option<u64> {
    interface.unsigned_at(seq!["counters"@, counter])
}

/// The interface's counters are those that the usage holds, as far as the interface has them.
pub open spec fn counts_traffic(
    before: ResourceUsage,
    after: ResourceUsage,
    interface: JsonView,
) -> bool {
    &&& after.rx_bytes == or_known(interface_counter(interface, "bytes_received"@), before.rx_bytes)
    &&& after.tx_bytes == or_known(interface_counter(interface, "bytes_sent"@), before.tx_bytes)
}

/// The traffic after a state has been read: that of the interface that counts, where there is one.
pub open spec fn traffic_read(
    before: ResourceUsage,
    after: ResourceUsage,
    state: JsonView,
) -> bool {
    match interfaces_of(state) {
        Some(interfaces) if !only_loopback(interfaces) => exists|name: Seq<char>| #[trigger]
            is_first_interface(interfaces, name) && counts_traffic(
                before,
                after,
                interfaces[name],
            ),
        _ => after.rx_bytes == before.rx_bytes && after.tx_bytes == before.tx_bytes,
    }
}

impl ResourceUsage {
    /// Nothing used yet.
    pub fn new(disk_bytes: u64) -> (r: Self)
        ensures
            r == (ResourceUsage {
                memory_bytes: 0,
                memory_limit_bytes: 0,
                disk_bytes,
                rx_bytes: 0,
                tx_bytes: 0,
                uptime: 0,
            }),
    {
        ResourceUsage {
            memory_bytes: 0,
            memory_limit_bytes: 0,
            disk_bytes,
            rx_bytes: 0,
            tx_bytes: 0,
            uptime: 0,
        }
    }

    /// Takes in what the state of an instance reports. What it does not report stays as it was.
    pub fn read_state(&mut self, state: &Json, disk_bytes: u64)
        ensures
            final(self).disk_bytes == disk_bytes,
            final(self).uptime == old(self).uptime,
            final(self).memory_bytes == or_known(
                state@.unsigned_at(seq!["metadata"@, "memory"@, "usage"@]),
                old(self).memory_bytes,
            ),
            final(self).memory_limit_bytes == or_known(
                state@.unsigned_at(seq!["metadata"@, "memory"@, "total"@]),
                old(self).memory_limit_bytes,
            ),
            traffic_read(*old(self), *final(self), state@),
    {
        self.disk_bytes = disk_bytes;
        let path: [&str; 3] = ["metadata", "memory", "usage"];
        assert(tokens(path@) =~= seq!["metadata"@, "memory"@, "usage"@]);
        match state.u64_at(&path) {
            Some(bytes) => {
                self.memory_bytes = bytes;
            },
            None => {},
        }
        let path: [&str; 3] = ["metadata", "memory", "total"];
        assert(tokens(path@) =~= seq!["metadata"@, "memory"@, "total"@]);
        match state.u64_at(&path) {
            Some(bytes) => {
                self.memory_limit_bytes = bytes;
            },
            None => {},
        }
        let path: [&str; 2] = ["metadata", "network"];
        assert(tokens(path@) =~= seq!["metadata"@, "network"@]);
        match state.pointer(&path) {
            Some(Json::Object(interfaces)) => {
                assert(interfaces_of(state@) == Some(interfaces@));
                match first_interface(interfaces) {
                    Some(name) => {
                        assert(interfaces@.contains_key(name@));
                        match interfaces.get(name) {
                            Some(interface) => self.read_interface(interface),
                            None => {},
                        }
                    },
                    None => {},
                }
            },
            _ => {
                assert(interfaces_of(state@) is None);
            },
        }
    }

    /// Takes in the traffic of a network interface.
    fn read_interface(&mut self, interface: &Json)
        ensures
            final(self).memory_bytes == old(self).memory_bytes,
            final(self).memory_limit_bytes == old(self).memory_limit_bytes,
            final(self).disk_bytes == old(self).disk_bytes,
            final(self).uptime == old(self).uptime,
            counts_traffic(*old(self), *final(self), interface@),
    {
        let path: [&str; 2] = ["counters", "bytes_received"];
        assert(tokens(path@) =~= seq!["counters"@, "bytes_received"@]);
        match interface.u64_at(&path) {
            Some(bytes) => {
                self.rx_bytes = bytes;
            },
            None => {},
        }
        let path: [&str; 2] = ["counters", "bytes_sent"];
        assert(tokens(path@) =~= seq!["counters"@, "bytes_sent"@]);
        match interface.u64_at(&path) {
            Some(bytes) => {
                self.tx_bytes = bytes;
            },
            None => {},
        }
    }
}

/// How busy an instance kept the processor between two readings.
#[derive(Debug, Clone, Copy, PartialEq, Eq)]
pub enum CpuLoad {
    /// The state does not say; what was known stays.
    Unreported,
    /// Not at all, as far as is known.
    Idle,
    /// This much processor time in this much time, both in nanoseconds and both above zero.
    Busy { cpu: u64, wall: u128 },
}

/// The last reading of an instance's processor time.
pub struct CpuMeter {
    /// The processor time at that reading, in nanoseconds.
    pub total: u64,
    /// When the reading was made, in nanoseconds since some moment.
    pub read_at: Option<u128>,
}

/// The processor time that a state reports, in nanoseconds.
pub open spec fn reported_cpu(state: JsonView) -> Option<u64> {
    state.unsigned_at(seq!["metadata"@, "cpu"@, "usage"@])
}

/// The load that a reading shows: the processor time since the reading before it, over the time
/// that has passed. Where nothing was read before, or one of the two is not above zero, there is
/// none.
pub open spec fn load_between(meter: CpuMeter, total: u64, now: u128) -> CpuLoad {
    match meter.read_at {
        Some(before) => if total > meter.total && now > before {
            CpuLoad::Busy { cpu: (total - meter.total) as u64, wall: (now - before) as u128 }
        } else {
            CpuLoad::Idle
        },
        None => CpuLoad::Idle,
    }
}

impl CpuMeter {
    /// Nothing read yet.
    pub fn new() -> (r: Self)
        ensures
            r.total == 0,
            r.read_at is None,
    {
        CpuMeter { total: 0, read_at: None }
    }

    /// Takes a reading from the state of an instance.
    pub fn read_state(&mut self, state: &Json, now: u128) -> (r: CpuLoad)
        ensures
            match reported_cpu(state@) {
                Some(total) => {
                    &&& r == load_between(*old(self), total, now)
                    &&& final(self).total == total
                    &&& final(self).read_at == Some(now)
                },
                None => r == CpuLoad::Unreported && *final(self) == *old(self),
            },
    {
        let path: [&str; 3] = ["metadata", "cpu", "usage"];
        assert(tokens(path@) =~= seq!["metadata"@, "cpu"@, "usage"@]);
        match state.u64_at(&path) {
            Some(total) => {
                let load: CpuLoad = match self.read_at {
                    Some(before) => if total > self.total && now > before {
                        CpuLoad::Busy { cpu: total - self.total, wall: now - before }
                    } else {
                        CpuLoad::Idle
                    },
                    None => CpuLoad::Idle,
                };
                self.total = total;
                self.read_at = Some(now);
                load
            },
            None => CpuLoad::Unreported,
        }
    }
}

/// A load is one of some processor time over some time, even where the processor time that is
/// reported went back.
pub proof fn law_load_is_positive(meter: CpuMeter, total: u64, now: u128)
    ensures
        load_between(meter, total, now) matches CpuLoad::Busy { cpu, wall } ==> cpu > 0 && wall > 0,
        total <= meter.total ==> load_between(meter, total, now) == CpuLoad::Idle,
{
}

/// The load between two readings is all of what was used between them: the processor time of the
/// first and the load's make that of the second, and so do the times. There is a load exactly where
/// both have grown since an earlier reading.
pub proof fn law_load_is_all_that_was_used(meter: CpuMeter, total: u64, now: u128)
    ensures
        load_between(meter, total, now) is Busy <==> meter.read_at is Some && meter.read_at->0
            < now && meter.total < total,
        load_between(meter, total, now) matches CpuLoad::Busy { cpu, wall } ==> meter.total + cpu
            == total && meter.read_at->0 + wall == now,
        !(load_between(meter, total, now) is Unreported),
{
}

/// The loads over readings that follow each other add up to the load over the whole time.
pub proof fn law_loads_add_up(first: CpuMeter, middle: u64, at: u128, last: u64, end: u128)
    requires
        first.read_at matches Some(start) && start < at < end,
        first.total < middle < last,
    ensures
        ({
            let second = CpuMeter { total: middle, read_at: Some(at) };
            let a = load_between(first, middle, at);
            let b = load_between(second, last, end);
            let whole = load_between(first, last, end);
            &&& a is Busy && b is Busy && whole is Busy
            &&& whole->cpu == a->cpu + b->cpu
            &&& whole->wall == a->wall + b->wall
        }),
{
}

/// Whether an instance runs.
#[derive(Debug, Clone, Copy, PartialEq, Eq)]
pub enum ProcessStatus {
    Running,
    Paused,
    Stopped { exit_code: i32, oom_killed: bool },
}

/// Whether an instance runs, as its state reports. One that neither runs nor is frozen is taken as
/// stopped, and so is one whose state does not say.
pub open spec fn status_of(state: JsonView) -> ProcessStatus {
    let status = state.text_at(seq!["metadata"@, "status"@]);
    if status == Some("Running"@) {
        ProcessStatus::Running
    } else if status == Some("Frozen"@) {
        ProcessStatus::Paused
    } else {
        ProcessStatus::Stopped { exit_code: (-1) as i32, oom_killed: false }
    }
}

/// Whether an instance runs, as its state reports. The uptime of one that is stopped is zero.
pub fn process_status(state: &Json, usage: &mut ResourceUsage) -> (r: ProcessStatus)
    ensures
        r == status_of(state@),
        *final(usage) == if r is Stopped {
            ResourceUsage { uptime: 0, ..*old(usage) }
        } else {
            *old(usage)
        },
{
    let path: [&str; 2] = ["metadata", "status"];
    assert(tokens(path@) =~= seq!["metadata"@, "status"@]);
    proof {
        reveal_strlit("Unknown");
        reveal_strlit("Running");
        reveal_strlit("Frozen");
        assert("Unknown"@[0] != "Running"@[0]);
        assert("Unknown"@[0] != "Frozen"@[0]);
        assert("Running"@[0] != "Frozen"@[0]);
    }
    let status: &str = match state.str_at(&path) {
        Some(status) => status,
        None => "Unknown",
    };
    if same_text(status, "Running") {
        ProcessStatus::Running
    } else if same_text(status, "Frozen") {
        ProcessStatus::Paused
    } else {
        usage.uptime = 0;
        ProcessStatus::Stopped { exit_code: -1, oom_killed: false }
    }
}

/// One text stands before another exactly where they agree up to some place, at which the one ends
/// or has the smaller character.
pub proof fn law_texts_are_ordered_by_their_first_difference(a: Seq<char>, b: Seq<char>)
    ensures
        stands_before(a, b) <==> exists|i: int|
            0 <= i <= a.len() && i < b.len() && #[trigger] a.take(i) == b.take(i) && (i == a.len()
                || a[i] < b[i]),
    decreases a.len(),
{
    if a.len() > 0 && b.len() > 0 && a[0] == b[0] {
        let c = a.skip(1);
        let d = b.skip(1);
        law_texts_are_ordered_by_their_first_difference(c, d);
        if stands_before(a, b) {
            let i = choose|i: int|
                0 <= i <= c.len() && i < d.len() && #[trigger] c.take(i) == d.take(i) && (i
                    == c.len() || c[i] < d[i]);
            assert(a.take(i + 1) =~= seq![a[0]] + c.take(i));
            assert(b.take(i + 1) =~= seq![b[0]] + d.take(i));
        }
        if exists|i: int|
            0 <= i <= a.len() && i < b.len() && #[trigger] a.take(i) == b.take(i) && (i == a.len()
                || a[i] < b[i]) {
            let i = choose|i: int|
                0 <= i <= a.len() && i < b.len() && #[trigger] a.take(i) == b.take(i) && (i
                    == a.len() || a[i] < b[i]);
            assert(c.take(i - 1) =~= a.take(i).skip(1));
            assert(d.take(i - 1) =~= b.take(i).skip(1));
        }
    } else if b.len() > 0 {
        assert(a.take(0) =~= b.take(0));
        if exists|i: int|
            0 <= i <= a.len() && i < b.len() && #[trigger] a.take(i) == b.take(i) && (i == a.len()
                || a[i] < b[i]) {
            let i = choose|i: int|
                0 <= i <= a.len() && i < b.len() && #[trigger] a.take(i) == b.take(i) && (i
                    == a.len() || a[i] < b[i]);
            if i > 0 {
                assert(a.take(i)[0] == b.take(i)[0]);
            }
        }
    }
}

/// Where a state reports network interfaces, the traffic is that of the one that comes first by name
/// among those other than `lo`, as far as it counts its bytes; otherwise the traffic stays as it was.
pub proof fn law_traffic_is_that_of_the_first_interface(
    before: ResourceUsage,
    after: ResourceUsage,
    state: JsonView,
    name: Seq<char>,
)
    requires
        traffic_read(before, after, state),
    ensures
        match state.at(seq!["metadata"@, "network"@]) {
            Some(JsonView::Object(interfaces)) => {
                &&& interfaces.contains_key(name) && name != "lo"@ && (forall|other: Seq<char>|
                    interfaces.contains_key(other) && other != "lo"@ && other != name
                        ==> #[trigger] stands_before(name, other)) ==> {
                    &&& after.rx_bytes == match interfaces[name].at(
                        seq!["counters"@, "bytes_received"@],
                    ) {
                        Some(JsonView::Unsigned(n)) => n,
                        _ => before.rx_bytes,
                    }
                    &&& after.tx_bytes == match interfaces[name].at(
                        seq!["counters"@, "bytes_sent"@],
                    ) {
                        Some(JsonView::Unsigned(n)) => n,
                        _ => before.tx_bytes,
                    }
                }
                &&& (forall|other: Seq<char>| #[trigger]
                    interfaces.contains_key(other) ==> other == "lo"@) ==> after.rx_bytes
                    == before.rx_bytes && after.tx_bytes == before.tx_bytes
            },
            _ => after.rx_bytes == before.rx_bytes && after.tx_bytes == before.tx_bytes,
        },
{
    match state.at(seq!["metadata"@, "network"@]) {
        Some(JsonView::Object(interfaces)) => {
            if interfaces.contains_key(name) && name != "lo"@ && (forall|other: Seq<char>|
                interfaces.contains_key(other) && other != "lo"@ && other != name
                    ==> #[trigger] stands_before(name, other)) {
                assert forall|other: Seq<char>| #[trigger]
                    interfaces.contains_key(other) && other != "lo"@ && other
                        != name implies stands_before(name, other) by {}
                assert(is_first_interface(interfaces, name));
                assert(!only_loopback(interfaces));
                let first = choose|first: Seq<char>| #[trigger]
                    is_first_interface(interfaces, first) && counts_traffic(
                        before,
                        after,
                        interfaces[first],
                    );
                law_first_interface_is_unique(interfaces, first, name);
            }
        },
        _ => {},
    }
}

/// A number that is reported takes the place of the one that was known, and one that is not
/// reported changes nothing.
pub proof fn law_reported_numbers_replace_known_ones(new: u64, known: u64)
    ensures
        or_known(Some(new), known) == new,
        or_known(None, known) == known,
{
}

/// The processor time and the status are those that a state reports under `metadata`. One that says
/// `Running` runs, one that says `Frozen` is paused, and any other is stopped.
pub proof fn law_state_is_what_is_reported(state: JsonView, name: Seq<char>)
    ensures
        reported_cpu(state) == match state.at(seq!["metadata"@, "cpu"@, "usage"@]) {
            Some(JsonView::Unsigned(n)) => Some(n),
            _ => None,
        },
        status_of(state) is Running <==> state.at(seq!["metadata"@, "status"@]) == Some(
            JsonView::Text("Running"@),
        ),
        status_of(state) is Paused <==> state.at(seq!["metadata"@, "status"@]) == Some(
            JsonView::Text("Frozen"@),
        ),
        status_of(state) matches ProcessStatus::Stopped { exit_code, oom_killed } ==> exit_code
            == -1 && !oom_killed,
        state_path(name) == "/1.0/instances/"@ + name + "/state"@,
{
    reveal_strlit("Running");
    reveal_strlit("Frozen");
    assert("Running"@.len() != "Frozen"@.len());
}

} // verus!

use crate::script::ScriptId;
use vstd::prelude::*;

verus! {

/// Where a stat contribution comes from.
#[derive(Hash, Eq, PartialEq, Structural, Clone, Copy, Debug)]
pub enum ServerStatSource {
    /// Part of the server itself; never purged.
    Innate,
    /// Appended by a running script; counts as a modification.
    Script(ScriptId),
}

/// The stats a server carries. The declaration order is the display order.
#[derive(Hash, Eq, PartialEq, Structural, Clone, Copy, Debug)]
pub enum ServerStatType {
    SiphonResist,
    ExfilResist,
}

/// One signed contribution to one stat of a server.
#[derive(Hash, Eq, PartialEq, Structural, Clone, Copy, Debug)]
pub struct ServerStatInstance(pub ServerStatSource, pub ServerStatType, pub i32);

impl ServerStatInstance {
    pub open spec fn spec_source(&self) -> ServerStatSource {
        self.0
    }

    pub open spec fn spec_stat_type(&self) -> ServerStatType {
        self.1
    }

    pub open spec fn spec_value(&self) -> i32 {
        self.2
    }

    pub fn new(source: ServerStatSource, stat_type: ServerStatType, value: i32) -> (r:
        ServerStatInstance)
        ensures
            r.spec_source() == source,
            r.spec_stat_type() == stat_type,
            r.spec_value() == value,
    {
        ServerStatInstance(source, stat_type, value)
    }

    pub fn source(&self) -> (r: &ServerStatSource)
        ensures
            *r == self.spec_source(),
    {
        &self.0
    }

    pub fn stat_type(&self) -> (r: &ServerStatType)
        ensures
            *r == self.spec_stat_type(),
    {
        &self.1
    }

    pub fn value(&self) -> (r: i32)
        ensures
            r == self.spec_value(),
    {
        self.2
    }
}

/// The nearest number to `value` that an `i32` can hold.
pub open spec fn clamp_i32(value: int) -> i32 {
    if value < i32::MIN {
        i32::MIN
    } else if value > i32::MAX {
        i32::MAX
    } else {
        value as i32
    }
}

/// What one entry adds to the sum of `stat`: its value if it is of that stat and, where
/// only modifications are asked for, comes from a script; zero otherwise.
pub open spec fn contribution(
    entry: ServerStatInstance,
    stat: ServerStatType,
    modifications_only: bool,
) -> int {
    if entry.1 == stat && (!modifications_only || entry.0 is Script) {
        entry.2 as int
    } else {
        0
    }
}

/// The sum of what the entries add to `stat`.
pub open spec fn ledger_sum(
    entries: Seq<ServerStatInstance>,
    stat: ServerStatType,
    modifications_only: bool,
) -> int
    decreases entries.len(),
{
    if entries.len() == 0 {
        0
    } else {
        ledger_sum(entries.drop_last(), stat, modifications_only) + contribution(
            entries.last(),
            stat,
            modifications_only,
        )
    }
}

/// The entries of `stat`, in ledger order.
pub open spec fn entries_of(entries: Seq<ServerStatInstance>, stat: ServerStatType) -> Seq<
    ServerStatInstance,
>
    decreases entries.len(),
{
    if entries.len() == 0 {
        Seq::empty()
    } else if entries.last().1 == stat {
        entries_of(entries.drop_last(), stat).push(entries.last())
    } else {
        entries_of(entries.drop_last(), stat)
    }
}

/// The aggregate value of `stat` as the ledger reports it.
pub open spec fn stat_value(entries: Seq<ServerStatInstance>, stat: ServerStatType) -> i32 {
    clamp_i32(ledger_sum(entries, stat, false))
}

/// The script-sourced part of `stat` as the ledger reports it.
pub open spec fn stat_modification(entries: Seq<ServerStatInstance>, stat: ServerStatType) -> i32 {
    clamp_i32(ledger_sum(entries, stat, true))
}

/// The value of `stat` paired with it, if the ledger has an entry of that stat.
pub open spec fn stat_value_group(entries: Seq<ServerStatInstance>, stat: ServerStatType) -> Seq<
    (ServerStatType, i32),
> {
    if entries_of(entries, stat).len() > 0 {
        seq![(stat, stat_value(entries, stat))]
    } else {
        Seq::empty()
    }
}

/// The values of the stats the ledger has entries of, in stat order.
pub open spec fn stat_value_groups(entries: Seq<ServerStatInstance>) -> Seq<(ServerStatType, i32)> {
    stat_value_group(entries, ServerStatType::SiphonResist) + stat_value_group(
        entries,
        ServerStatType::ExfilResist,
    )
}

/// The entries of `stat` paired with it, if the ledger has any.
pub open spec fn stat_instance_group(entries: Seq<ServerStatInstance>, stat: ServerStatType) -> Seq<
    (ServerStatType, Seq<ServerStatInstance>),
> {
    if entries_of(entries, stat).len() > 0 {
        seq![(stat, entries_of(entries, stat))]
    } else {
        Seq::empty()
    }
}

/// The entries of the stats the ledger has entries of, grouped in stat order.
pub open spec fn stat_instance_groups(entries: Seq<ServerStatInstance>) -> Seq<
    (ServerStatType, Seq<ServerStatInstance>),
> {
    stat_instance_group(entries, ServerStatType::SiphonResist) + stat_instance_group(
        entries,
        ServerStatType::ExfilResist,
    )
}

/// The content of a list of groups.
pub open spec fn group_views(groups: Seq<(ServerStatType, Vec<ServerStatInstance>)>) -> Seq<
    (ServerStatType, Seq<ServerStatInstance>),
> {
    Seq::new(groups.len(), |i: int| (groups[i].0, groups[i].1@))
}

/// Appending an entry adds its contribution to every sum.
pub proof fn lemma_ledger_sum_push(
    entries: Seq<ServerStatInstance>,
    entry: ServerStatInstance,
    stat: ServerStatType,
    modifications_only: bool,
)
    ensures
        ledger_sum(entries.push(entry), stat, modifications_only) == ledger_sum(
            entries,
            stat,
            modifications_only,
        ) + contribution(entry, stat, modifications_only),
{
    assert(entries.push(entry).drop_last() =~= entries);
}

/// The sum over two ledgers joined is the sum of their sums, so the order in which
/// entries arrive does not change any aggregate.
pub proof fn lemma_ledger_sum_concat(
    first: Seq<ServerStatInstance>,
    second: Seq<ServerStatInstance>,
    stat: ServerStatType,
    modifications_only: bool,
)
    ensures
        ledger_sum(first + second, stat, modifications_only) == ledger_sum(
            first,
            stat,
            modifications_only,
        ) + ledger_sum(second, stat, modifications_only),
        ledger_sum(first + second, stat, modifications_only) == ledger_sum(
            second + first,
            stat,
            modifications_only,
        ),
    decreases first.len() + second.len(),
{
    lemma_ledger_sum_concat_one_way(first, second, stat, modifications_only);
    lemma_ledger_sum_concat_one_way(second, first, stat, modifications_only);
}

proof fn lemma_ledger_sum_concat_one_way(
    first: Seq<ServerStatInstance>,
    second: Seq<ServerStatInstance>,
    stat: ServerStatType,
    modifications_only: bool,
)
    ensures
        ledger_sum(first + second, stat, modifications_only) == ledger_sum(
            first,
            stat,
            modifications_only,
        ) + ledger_sum(second, stat, modifications_only),
    decreases second.len(),
{
    if second.len() == 0 {
        assert(first + second =~= first);
    } else {
        lemma_ledger_sum_concat_one_way(first, second.drop_last(), stat, modifications_only);
        assert((first + second).drop_last() =~= first + second.drop_last());
    }
}

/// The modification of a stat is its value without the innate entries: an entry that
/// is not script-sourced adds to the value alone.
pub proof fn lemma_modification_excludes_innate(
    entries: Seq<ServerStatInstance>,
    entry: ServerStatInstance,
    stat: ServerStatType,
)
    ensures
        entry.0 is Innate ==> ledger_sum(entries.push(entry), stat, true) == ledger_sum(
            entries,
            stat,
            true,
        ),
        entry.0 is Script ==> ledger_sum(entries.push(entry), stat, true) - ledger_sum(
            entries,
            stat,
            true,
        ) == ledger_sum(entries.push(entry), stat, false) - ledger_sum(entries, stat, false),
        entry.1 == stat ==> ledger_sum(entries.push(entry), stat, false) == ledger_sum(
            entries,
            stat,
            false,
        ) + entry.2,
        entry.1 != stat ==> ledger_sum(entries.push(entry), stat, false) == ledger_sum(
            entries,
            stat,
            false,
        ),
{
    lemma_ledger_sum_push(entries, entry, stat, true);
    lemma_ledger_sum_push(entries, entry, stat, false);
}

/// No sum over a ledger exceeds what its length allows.
pub proof fn lemma_ledger_sum_bounds(
    entries: Seq<ServerStatInstance>,
    stat: ServerStatType,
    modifications_only: bool,
)
    ensures
        -0x8000_0000 * entries.len() <= ledger_sum(entries, stat, modifications_only)
            <= 0x8000_0000 * entries.len(),
    decreases entries.len(),
{
    if entries.len() > 0 {
        lemma_ledger_sum_bounds(entries.drop_last(), stat, modifications_only);
    }
}

/// The stat ledger of a server: signed contributions, appended and never changed.
#[derive(Clone, Debug)]
pub struct ServerStats {
    instances: Vec<ServerStatInstance>,
}

impl View for ServerStats {
    type V = Seq<ServerStatInstance>;

    /// The entries in the order in which they were appended.
    closed spec fn view(&self) -> Seq<ServerStatInstance> {
        self.instances@
    }
}

impl ServerStats {
    /// An empty ledger.
    pub fn new() -> (r: ServerStats)
        ensures
            r@.len() == 0,
    {
        ServerStats { instances: Vec::new() }
    }

    /// A ledger with the given entries, in their order.
    pub fn from(instances: Vec<ServerStatInstance>) -> (r: ServerStats)
        ensures
            r@ == instances@,
    {
        ServerStats { instances }
    }

    /// The entries in the order in which they were appended.
    pub fn instances(&self) -> (r: &Vec<ServerStatInstance>)
        ensures
            r@ == self@,
    {
        &self.instances
    }

    fn sum(&self, stat: ServerStatType, modifications_only: bool) -> (r: i32)
        ensures
            r == clamp_i32(ledger_sum(self@, stat, modifications_only)),
    {
        let mut total: i128 = 0;
        let mut i: usize = 0;
        while i < self.instances.len()
            invariant
                i <= self.instances.len(),
                total == ledger_sum(self@.take(i as int), stat, modifications_only),
            decreases self.instances.len() - i,
        {
            proof {
                lemma_ledger_sum_bounds(self@.take(i as int), stat, modifications_only);
                assert(self@.take(i + 1).drop_last() =~= self@.take(i as int));
                assert(self@.take(i + 1).last() == self@[i as int]);
            }
            let entry = &self.instances[i];
            let counted = match entry.0 {
                ServerStatSource::Innate => !modifications_only,
                ServerStatSource::Script(_) => true,
            };
            if entry.1 == stat && counted {
                total = total + entry.2 as i128;
            }
            i += 1;
        }
        assert(self@.take(i as int) =~= self@);
        if total < i32::MIN as i128 {
            i32::MIN
        } else if total > i32::MAX as i128 {
            i32::MAX
        } else {
            total as i32
        }
    }

    /// The aggregate value of `stat`: the sum of all entries of that stat, whatever
    /// their source. A sum beyond the range of `i32` is reported as the nearest bound.
    pub fn value_of(&self, stat_type: ServerStatType) -> (r: i32)
        ensures
            r == stat_value(self@, stat_type),
    {
        self.sum(stat_type, false)
    }

    /// The sum of the script-sourced entries of `stat`; innate entries are left out.
    /// A sum beyond the range of `i32` is reported as the nearest bound.
    pub fn modification_of(&self, stat_type: ServerStatType) -> (r: i32)
        ensures
            r == stat_modification(self@, stat_type),
    {
        self.sum(stat_type, true)
    }

    /// Appends `entry`. Nothing is ever cancelled against it: the ledger only grows,
    /// and the list of removed entries is always empty.
    pub fn apply_and_purge(&mut self, entry: ServerStatInstance) -> (removed: Vec<
        ServerStatInstance,
    >)
        ensures
            final(self)@ == old(self)@.push(entry),
            removed@.len() == 0,
    {
        self.instances.push(entry);
        Vec::new()
    }

    fn instances_of(&self, stat: ServerStatType) -> (r: Vec<ServerStatInstance>)
        ensures
            r@ == entries_of(self@, stat),
    {
        let mut found: Vec<ServerStatInstance> = Vec::new();
        let mut i: usize = 0;
        while i < self.instances.len()
            invariant
                i <= self.instances.len(),
                found@ == entries_of(self@.take(i as int), stat),
            decreases self.instances.len() - i,
        {
            proof {
                assert(self@.take(i + 1).drop_last() =~= self@.take(i as int));
                assert(self@.take(i + 1).last() == self@[i as int]);
            }
            if self.instances[i].1 == stat {
                found.push(self.instances[i]);
            }
            i += 1;
        }
        assert(self@.take(i as int) =~= self@);
        found
    }

    /// The value of each stat that has an entry, in stat order.
    pub fn stat_values(&self) -> (r: Vec<(ServerStatType, i32)>)
        ensures
            r@ == stat_value_groups(self@),
    {
        let mut values: Vec<(ServerStatType, i32)> = Vec::new();
        if self.instances_of(ServerStatType::SiphonResist).len() > 0 {
            values.push((ServerStatType::SiphonResist, self.value_of(ServerStatType::SiphonResist)));
        }
        assert(values@ =~= stat_value_group(self@, ServerStatType::SiphonResist));
        if self.instances_of(ServerStatType::ExfilResist).len() > 0 {
            values.push((ServerStatType::ExfilResist, self.value_of(ServerStatType::ExfilResist)));
        }
        assert(values@ =~= stat_value_groups(self@));
        values
    }

    /// The entries of each stat that has one, in stat order; within a stat, in the
    /// order in which they were appended.
    pub fn stat_instances(&self) -> (r: Vec<(ServerStatType, Vec<ServerStatInstance>)>)
        ensures
            group_views(r@) == stat_instance_groups(self@),
    {
        let mut groups: Vec<(ServerStatType, Vec<ServerStatInstance>)> = Vec::new();
        let siphon = self.instances_of(ServerStatType::SiphonResist);
        if siphon.len() > 0 {
            groups.push((ServerStatType::SiphonResist, siphon));
        }
        assert(group_views(groups@) =~= stat_instance_group(self@, ServerStatType::SiphonResist));
        let exfil = self.instances_of(ServerStatType::ExfilResist);
        if exfil.len() > 0 {
            groups.push((ServerStatType::ExfilResist, exfil));
        }
        assert(group_views(groups@) =~= stat_instance_groups(self@));
        groups
    }
}

/// A computing node that hosts exploits or is their target.
#[derive(Clone, Debug)]
pub struct Server {
    pub name: String,
    /// Number of concurrent processes available for all running scripts.
    pub threads: u32,
    /// Shared in equal parts among the exploits hosted here.
    pub clock_speed_hz: u64,
    pub stats: ServerStats,
}

impl Server {
    /// A nameless server without threads, clock speed or stats.
    pub fn empty() -> (r: Server)
        ensures
            r.name@.len() == 0,
            r.threads == 0,
            r.clock_speed_hz == 0,
            r.stats@.len() == 0,
    {
        Server { name: String::new(), threads: 0, clock_speed_hz: 0, stats: ServerStats::new() }
    }
}

} // verus!

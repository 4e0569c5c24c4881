//! The settings that instances are made from.
use crate::json::{
    entries_map, lemma_last_entry, lemma_no_entry, lemma_push_entry, lemma_replace_entry, Json,
    JsonView, Members,
};
use crate::text::same_text;
use vstd::prelude::*;

verus! {

/// The daemon's settings, as far as instances depend on them.
pub struct InnerConfig {
    pub incus: IncusConfig,
}

/// The settings of the Incus executor.
pub struct IncusConfig {
    /// The path of the Unix socket on which Incus serves its API.
    pub socket: String,
    pub network: IncusNetwork,
    /// The greatest number of processes in an instance; zero for no limit.
    pub container_pid_limit: u64,
    /// Whether the server's name becomes part of its instance's name.
    pub server_name_in_container_name: bool,
    /// The share of a processor that an installer gets, in percent.
    pub installer_cpu: u64,
}

/// The network that instances are connected to.
pub struct IncusNetwork {
    pub bridge: String,
}

/// The resources of a server.
pub struct ServerConfigurationBuild {
    /// The memory that the server may use.
    pub memory_limit: i64,
    /// The memory that it gets on top of that.
    pub overhead_memory: i64,
    /// In percent of a processor; zero or less for no limit.
    pub cpu_limit: i64,
    /// The processors that the server may use.
    pub threads: Option<String>,
}

/// The ports of a server, by address.
pub struct ServerConfigurationAllocations {
    pub mappings: Vec<(String, Vec<u16>)>,
}

/// A directory of the host that is mounted into an instance.
pub struct Mount {
    pub target: String,
    pub source: String,
    pub read_only: bool,
}

/// A server, as far as its instance depends on it.
pub struct ServerConfiguration {
    pub uuid: u128,
    pub name: String,
    pub build: ServerConfigurationBuild,
    pub allocations: ServerConfigurationAllocations,
    /// Variables, each written `NAME=value`.
    pub environment: Vec<String>,
    pub mounts: Vec<Mount>,
    pub image: String,
    pub entrypoint: Option<Vec<String>>,
    /// The server's directory on the host.
    pub base: String,
}

/// A script that is run in an instance of its own.
pub struct InstallationScript {
    pub container_image: String,
    pub entrypoint: String,
    pub script: String,
    pub environment: Vec<(String, Json)>,
}

/// The configuration keys of an instance, with their values.
#[derive(Debug, PartialEq)]
pub struct ConfigTable {
    pub entries: Vec<(String, String)>,
}

impl ConfigTable {
    /// The keys and values, in order.
    pub open spec fn named(self) -> Seq<(Seq<char>, Seq<char>)> {
        self.entries@.map_values(|entry: (String, String)| (entry.0@, entry.1@))
    }

    /// No keys.
    pub fn new() -> (r: Self)
        ensures
            r@ == Map::<Seq<char>, Seq<char>>::empty(),
    {
        ConfigTable { entries: Vec::new() }
    }

    /// Gives a key a value, in place of the one it had, if it had one.
    pub fn set(&mut self, key: &str, value: &str)
        ensures
            final(self)@ == old(self)@.insert(key@, value@),
    {
        let ghost before = self.named();
        let mut n: usize = self.entries.len();
        while n > 0 && !same_text(self.entries[n - 1].0.as_str(), key)
            invariant
                *self == *old(self),
                n <= self.entries@.len(),
                forall|j: int| n <= j < self.entries@.len() ==> self.entries@[j].0@ != key@,
            decreases n,
        {
            n = n - 1;
        }
        if n > 0 {
            self.entries.set(n - 1, (key.to_string(), value.to_string()));
            proof {
                assert(self.named() =~= before.update(n - 1, (before[n - 1].0, value@)));
                lemma_replace_entry(before, n - 1, value@);
            }
        } else {
            self.entries.push((key.to_string(), value.to_string()));
            proof {
                assert(self.named() =~= before.push((key@, value@)));
                lemma_push_entry(before, key@, value@);
            }
        }
    }

    /// The configuration as members of a JSON object.
    pub fn to_members(&self) -> (r: Members)
        ensures
            r@ == text_members(self@),
    {
        let mut r = Members::new();
        assert(self.named().take(0) =~= Seq::empty());
        assert(r@ =~= text_members(entries_map(self.named().take(0))));
        for i in 0..self.entries.len()
            invariant
                r@ == text_members(entries_map(self.named().take(i as int))),
        {
            let ghost before = self.named().take(i as int);
            r.set(self.entries[i].0.as_str(), Json::text(self.entries[i].1.as_str()));
            proof {
                let entry = self.named()[i as int];
                assert(self.named().take(i + 1) =~= before.push(entry));
                lemma_push_entry(before, entry.0, entry.1);
                assert(r@ =~= text_members(entries_map(before).insert(entry.0, entry.1)));
            }
        }
        assert(self.named().take(self.entries@.len() as int) =~= self.named());
        r
    }
}

/// Texts, as the members of a JSON object.
pub open spec fn text_members(table: Map<Seq<char>, Seq<char>>) -> Map<Seq<char>, JsonView> {
    Map::new(|key: Seq<char>| table.contains_key(key), |key: Seq<char>| JsonView::Text(table[key]))
}

impl View for ConfigTable {
    type V = Map<Seq<char>, Seq<char>>;

    open spec fn view(&self) -> Map<Seq<char>, Seq<char>> {
        entries_map(self.named())
    }
}

/// A key has the value of its last entry, and a key without an entry has none.
pub proof fn law_last_entry_of_a_key_counts(table: ConfigTable, key: Seq<char>, i: int)
    requires
        0 <= i < table.entries@.len(),
        forall|j: int|
            i < j < table.entries@.len() ==> (#[trigger] table.entries@[j]).0@
                != table.entries@[i].0@,
    ensures
        table@.contains_key(table.entries@[i].0@),
        table@[table.entries@[i].0@] == table.entries@[i].1@,
        (forall|j: int| 0 <= j < table.entries@.len() ==> (#[trigger] table.entries@[j]).0@ != key)
            ==> !table@.contains_key(key),
{
    let named = table.named();
    assert forall|j: int| i < j < named.len() implies #[trigger] named[j].0 != named[i].0 by {
        assert(table.entries@[j].0@ != table.entries@[i].0@);
    }
    lemma_last_entry(named, i);
    if forall|j: int| 0 <= j < table.entries@.len() ==> (#[trigger] table.entries@[j]).0@ != key {
        assert forall|j: int| 0 <= j < named.len() implies named[j].0 != key by {
            assert(table.entries@[j].0@ != key);
        }
        lemma_no_entry(named, key);
    }
}

} // verus!

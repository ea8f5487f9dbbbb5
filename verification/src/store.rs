//! The per-server log-channel configuration: a finite map from server
//! identifier to log-channel identifier, kept as a vector of entries with
//! pairwise-distinct keys. The hosting application persists the entries and
//! performs the opt-in, opt-out and startup-reconciliation commands through
//! `put`, `remove` and `retain_servers`.

use vstd::prelude::*;

verus! {

/// The map described by a sequence of (server id, channel id) entries, later
/// entries overriding earlier ones.
pub open spec fn entries_map(s: Seq<(u64, u64)>) -> Map<u64, u64>
    decreases s.len(),
{
    if s.len() == 0 {
        Map::empty()
    } else {
        entries_map(s.drop_last()).insert(s.last().0, s.last().1)
    }
}

/// No two entries share a server id.
pub open spec fn entries_distinct(s: Seq<(u64, u64)>) -> bool {
    forall|i: int, j: int| 0 <= i < j < s.len() ==> (#[trigger] s[i]).0 != (#[trigger] s[j]).0
}

/// Appending one entry inserts its pair into the described map.
proof fn lemma_entries_map_push(s: Seq<(u64, u64)>, p: (u64, u64))
    ensures
        entries_map(s.push(p)) == entries_map(s).insert(p.0, p.1),
{
    assert(s.push(p).drop_last() =~= s);
    assert(s.push(p).last() == p);
}

/// A key is in the described map exactly when some entry carries it.
proof fn lemma_entries_map_key(s: Seq<(u64, u64)>, k: u64)
    ensures
        entries_map(s).contains_key(k) <==> exists|i: int|
            0 <= i < s.len() && (#[trigger] s[i]).0 == k,
    decreases s.len(),
{
    if s.len() > 0 {
        lemma_entries_map_key(s.drop_last(), k);
        if s.last().0 == k {
            assert((s[s.len() - 1]).0 == k);
        } else {
            if exists|i: int| 0 <= i < s.len() && (#[trigger] s[i]).0 == k {
                let i = choose|i: int| 0 <= i < s.len() && (#[trigger] s[i]).0 == k;
                assert(s.drop_last()[i] == s[i]);
            }
        }
    }
}

/// With distinct keys, each entry gives its key's value in the described map.
proof fn lemma_entries_map_value(s: Seq<(u64, u64)>, i: int)
    requires
        entries_distinct(s),
        0 <= i < s.len(),
    ensures
        entries_map(s).contains_key(s[i].0),
        entries_map(s)[s[i].0] == s[i].1,
    decreases s.len(),
{
    if i < s.len() - 1 {
        assert(entries_distinct(s.drop_last())) by {
            assert forall|x: int, y: int|
                0 <= x < y < s.drop_last().len() implies (#[trigger] s.drop_last()[x]).0 != (
            #[trigger] s.drop_last()[y]).0 by {
                assert(s.drop_last()[x] == s[x]);
                assert(s.drop_last()[y] == s[y]);
            }
        }
        assert(s.drop_last()[i] == s[i]);
        lemma_entries_map_value(s.drop_last(), i);
        assert(s.last() == s[s.len() - 1]);
        assert(s.last().0 != s[i].0);
    }
}

/// The per-server log-channel configuration, modelled as the map from server
/// id to log-channel id.
pub struct LogConfig {
    entries: Vec<(u64, u64)>,
}

impl View for LogConfig {
    type V = Map<u64, u64>;

    closed spec fn view(&self) -> Map<u64, u64> {
        entries_map(self.entries@)
    }
}

/// Copy the entries whose key differs from `server_id`, in order.
fn without_key(entries: &Vec<(u64, u64)>, server_id: u64) -> (kept: Vec<(u64, u64)>)
    requires
        entries_distinct(entries@),
    ensures
        entries_distinct(kept@),
        entries_map(kept@) == entries_map(entries@).remove(server_id),
        forall|j: int| 0 <= j < kept@.len() ==> (#[trigger] kept@[j]).0 != server_id,
{
    let ghost all = entries@;
    let mut kept: Vec<(u64, u64)> = Vec::new();
    proof {
        assert(all.subrange(0, 0) =~= Seq::<(u64, u64)>::empty());
        assert(entries_map(kept@) =~= entries_map(all.subrange(0, 0)).remove(server_id));
    }
    let n = entries.len();
    let mut i: usize = 0;
    while i < n
        invariant
            i <= n,
            n == entries@.len(),
            all == entries@,
            entries_distinct(all),
            entries_map(kept@) == entries_map(all.subrange(0, i as int)).remove(server_id),
            forall|j: int| 0 <= j < kept@.len() ==> (#[trigger] kept@[j]).0 != server_id,
            forall|j: int|
                #![trigger kept@[j]]
                0 <= j < kept@.len() ==> exists|j2: int|
                    #![trigger all[j2]]
                    0 <= j2 < i && kept@[j] == all[j2],
            entries_distinct(kept@),
        decreases n - i,
    {
        let e = entries[i];
        proof {
            assert(all.subrange(0, i + 1) =~= all.subrange(0, i as int).push(e));
            lemma_entries_map_push(all.subrange(0, i as int), e);
        }
        if e.0 != server_id {
            let ghost kept0 = kept@;
            kept.push(e);
            proof {
                lemma_entries_map_push(kept0, e);
                assert(entries_map(all.subrange(0, i as int)).insert(e.0, e.1).remove(server_id)
                    =~= entries_map(all.subrange(0, i as int)).remove(server_id).insert(
                    e.0,
                    e.1,
                ));
            }
        } else {
            proof {
                assert(entries_map(all.subrange(0, i as int)).insert(e.0, e.1).remove(server_id)
                    =~= entries_map(all.subrange(0, i as int)).remove(server_id));
            }
        }
        i = i + 1;
    }
    proof {
        assert(all.subrange(0, n as int) =~= all);
    }
    kept
}

impl LogConfig {
    #[verifier::type_invariant]
    spec fn wf(self) -> bool {
        entries_distinct(self.entries@)
    }

    /// An empty configuration: no server has a log channel.
    pub fn new() -> (config: LogConfig)
        ensures
            config@ == Map::<u64, u64>::empty(),
    {
        let config = LogConfig { entries: Vec::new() };
        proof {
            assert(config.entries@ =~= Seq::<(u64, u64)>::empty());
        }
        config
    }

    /// A configuration holding the given entries, later entries overriding
    /// earlier ones on a shared server id.
    pub fn from_entries(entries: &Vec<(u64, u64)>) -> (config: LogConfig)
        ensures
            config@ == entries_map(entries@),
    {
        let ghost all = entries@;
        let mut config = LogConfig::new();
        let n = entries.len();
        let mut i: usize = 0;
        proof {
            assert(all.subrange(0, 0) =~= Seq::<(u64, u64)>::empty());
        }
        while i < n
            invariant
                i <= n,
                n == entries@.len(),
                all == entries@,
                config@ == entries_map(all.subrange(0, i as int)),
            decreases n - i,
        {
            let e = entries[i];
            proof {
                assert(all.subrange(0, i + 1) =~= all.subrange(0, i as int).push(e));
                lemma_entries_map_push(all.subrange(0, i as int), e);
            }
            config.put(e.0, e.1);
            i = i + 1;
        }
        proof {
            assert(all.subrange(0, n as int) =~= all);
        }
        config
    }

    /// The log channel configured for a server, if any.
    pub fn get(&self, server_id: u64) -> (channel_id: Option<u64>)
        ensures
            match channel_id {
                Some(c) => self@.contains_key(server_id) && self@[server_id] == c,
                None => !self@.contains_key(server_id),
            },
    {
        proof {
            use_type_invariant(self);
        }
        let n = self.entries.len();
        let mut i: usize = 0;
        while i < n
            invariant
                i <= n,
                n == self.entries@.len(),
                entries_distinct(self.entries@),
                forall|j: int| 0 <= j < i ==> (#[trigger] self.entries@[j]).0 != server_id,
            decreases n - i,
        {
            let e = self.entries[i];
            if e.0 == server_id {
                proof {
                    lemma_entries_map_value(self.entries@, i as int);
                }
                return Some(e.1);
            }
            i = i + 1;
        }
        proof {
            lemma_entries_map_key(self.entries@, server_id);
        }
        None
    }

    /// Configure (or reconfigure) the log channel of a server.
    pub fn put(&mut self, server_id: u64, channel_id: u64)
        ensures
            final(self)@ == old(self)@.insert(server_id, channel_id),
    {
        proof {
            use_type_invariant(&*self);
        }
        let mut kept = without_key(&self.entries, server_id);
        proof {
            lemma_entries_map_push(kept@, (server_id, channel_id));
            assert(entries_map(self.entries@).remove(server_id).insert(server_id, channel_id)
                =~= entries_map(self.entries@).insert(server_id, channel_id));
        }
        kept.push((server_id, channel_id));
        self.entries = kept;
    }

    /// Drop a server's log channel, returning it if one was configured.
    pub fn remove(&mut self, server_id: u64) -> (channel_id: Option<u64>)
        ensures
            final(self)@ == old(self)@.remove(server_id),
            match channel_id {
                Some(c) => old(self)@.contains_key(server_id) && old(self)@[server_id] == c,
                None => !old(self)@.contains_key(server_id),
            },
    {
        proof {
            use_type_invariant(&*self);
        }
        let previous = self.get(server_id);
        self.entries = without_key(&self.entries, server_id);
        previous
    }

    /// Keep only the servers that appear in `servers`: reconciliation against
    /// the list of servers the bot is a member of.
    pub fn retain_servers(&mut self, servers: &Vec<u64>)
        ensures
            final(self)@ == old(self)@.restrict(servers@.to_set()),
    {
        proof {
            use_type_invariant(&*self);
        }
        let ghost all = self.entries@;
        let ghost target = entries_map(all).restrict(servers@.to_set());
        let mut kept: Vec<(u64, u64)> = Vec::new();
        proof {
            assert(all.subrange(0, 0) =~= Seq::<(u64, u64)>::empty());
            assert(entries_map(kept@) =~= entries_map(all.subrange(0, 0)).restrict(
                servers@.to_set(),
            ));
        }
        let n = self.entries.len();
        let mut i: usize = 0;
        while i < n
            invariant
                i <= n,
                n == self.entries@.len(),
                all == self.entries@,
                entries_distinct(all),
                entries_map(kept@) == entries_map(all.subrange(0, i as int)).restrict(
                    servers@.to_set(),
                ),
                forall|j: int|
                    #![trigger kept@[j]]
                    0 <= j < kept@.len() ==> exists|j2: int|
                        #![trigger all[j2]]
                        0 <= j2 < i && kept@[j] == all[j2],
                entries_distinct(kept@),
            decreases n - i,
        {
            let e = self.entries[i];
            proof {
                assert(all.subrange(0, i + 1) =~= all.subrange(0, i as int).push(e));
                lemma_entries_map_push(all.subrange(0, i as int), e);
            }
            if contains_id(servers, e.0) {
                let ghost kept0 = kept@;
                kept.push(e);
                proof {
                    lemma_entries_map_push(kept0, e);
                    assert(entries_map(all.subrange(0, i as int)).insert(e.0, e.1).restrict(
                        servers@.to_set(),
                    ) =~= entries_map(all.subrange(0, i as int)).restrict(
                        servers@.to_set(),
                    ).insert(e.0, e.1));
                }
            } else {
                proof {
                    assert(entries_map(all.subrange(0, i as int)).insert(e.0, e.1).restrict(
                        servers@.to_set(),
                    ) =~= entries_map(all.subrange(0, i as int)).restrict(servers@.to_set()));
                }
            }
            i = i + 1;
        }
        proof {
            assert(all.subrange(0, n as int) =~= all);
        }
        self.entries = kept;
    }

    /// The configured servers, each exactly once.
    pub fn all_keys(&self) -> (keys: Vec<u64>)
        ensures
            forall|i: int| 0 <= i < keys@.len() ==> self@.contains_key(#[trigger] keys@[i]),
            forall|k: u64| self@.contains_key(k) ==> keys@.contains(k),
            forall|i: int, j: int| 0 <= i < j < keys@.len() ==> keys@[i] != keys@[j],
    {
        let entries = self.all_entries();
        let mut keys: Vec<u64> = Vec::new();
        let n = entries.len();
        let mut i: usize = 0;
        while i < n
            invariant
                i <= n,
                n == entries@.len(),
                keys@.len() == i,
                forall|j: int| 0 <= j < i ==> keys@[j] == (#[trigger] entries@[j]).0,
            decreases n - i,
        {
            keys.push(entries[i].0);
            i = i + 1;
        }
        proof {
            assert forall|i2: int| 0 <= i2 < keys@.len() implies self@.contains_key(
                #[trigger] keys@[i2],
            ) by {
                assert(keys@[i2] == entries@[i2].0);
            }
            assert forall|k: u64| self@.contains_key(k) implies keys@.contains(k) by {
                let j = choose|j: int| 0 <= j < entries@.len() && (#[trigger] entries@[j]).0 == k;
                assert(keys@[j] == k);
            }
            assert forall|i2: int, j2: int| 0 <= i2 < j2 < keys@.len() implies keys@[i2]
                != keys@[j2] by {
                assert(keys@[i2] == entries@[i2].0);
                assert(keys@[j2] == entries@[j2].0);
            }
        }
        keys
    }

    /// The configured (server id, channel id) entries, each server exactly
    /// once; what the hosting application persists.
    pub fn all_entries(&self) -> (entries: Vec<(u64, u64)>)
        ensures
            forall|i: int|
                0 <= i < entries@.len() ==> self@.contains_key((#[trigger] entries@[i]).0)
                    && self@[entries@[i].0] == entries@[i].1,
            forall|k: u64|
                self@.contains_key(k) ==> exists|i: int|
                    0 <= i < entries@.len() && (#[trigger] entries@[i]).0 == k,
            entries_distinct(entries@),
    {
        proof {
            use_type_invariant(self);
        }
        let n = self.entries.len();
        let mut out: Vec<(u64, u64)> = Vec::new();
        let mut i: usize = 0;
        while i < n
            invariant
                i <= n,
                n == self.entries@.len(),
                out@ == self.entries@.subrange(0, i as int),
            decreases n - i,
        {
            out.push(self.entries[i]);
            proof {
                assert(out@ =~= self.entries@.subrange(0, i + 1));
            }
            i = i + 1;
        }
        proof {
            assert(out@ =~= self.entries@);
            assert forall|i2: int|
                0 <= i2 < out@.len() implies self@.contains_key((#[trigger] out@[i2]).0)
                && self@[out@[i2].0] == out@[i2].1 by {
                lemma_entries_map_value(self.entries@, i2);
            }
            assert forall|k: u64| self@.contains_key(k) implies exists|i2: int|
                0 <= i2 < out@.len() && (#[trigger] out@[i2]).0 == k by {
                lemma_entries_map_key(self.entries@, k);
            }
        }
        out
    }
}

/// Decide whether `servers` holds `id`.
fn contains_id(servers: &Vec<u64>, id: u64) -> (r: bool)
    ensures
        r == servers@.contains(id),
{
    let n = servers.len();
    let mut i: usize = 0;
    while i < n
        invariant
            i <= n,
            n == servers@.len(),
            forall|j: int| 0 <= j < i ==> servers@[j] != id,
        decreases n - i,
    {
        if servers[i] == id {
            return true;
        }
        i = i + 1;
    }
    false
}

} // verus!

//! The channel directory: which channel id a published channel name stands
//! for, and back, as of the last playlist that was built.

use vstd::prelude::*;
use std::collections::HashMap;
use crate::channel::Channel;

verus! {

/// Name to id entries, in the order they were recorded; a later entry for
/// the same name replaces an earlier one.
pub struct NameTable {
    pub entries: Vec<(String, u64)>,
}

/// The name recorded for each channel id.
pub struct IdTable {
    pub entries: HashMap<u64, String>,
}

pub open spec fn name_entries(t: Seq<(String, u64)>) -> Seq<(Seq<char>, u64)> {
    t.map_values(|e: (String, u64)| (e.0@, e.1))
}

/// The id table of a catalog: each id with the name of the last channel
/// that has it.
pub open spec fn id_map(cs: Seq<Channel>) -> Map<u64, String>
    decreases cs.len(),
{
    if cs.len() == 0 {
        Map::empty()
    } else {
        id_map(cs.drop_last()).insert(cs.last().id, cs.last().name)
    }
}

/// The id recorded last for `name`.
pub open spec fn name_lookup(t: Seq<(Seq<char>, u64)>, name: Seq<char>) -> Option<u64>
    decreases t.len(),
{
    if t.len() == 0 {
        None
    } else if t.last().0 == name {
        Some(t.last().1)
    } else {
        name_lookup(t.drop_last(), name)
    }
}

/// The directory shared by the request handlers.
pub struct ChannelDirectory {
    pub names: NameTable,
    pub ids: IdTable,
}

impl ChannelDirectory {
    /// A directory that knows no channel.
    pub fn new() -> (r: ChannelDirectory)
        ensures
            r.names.entries@.len() == 0,
            r.ids.entries@ == Map::<u64, String>::empty(),
    {
        ChannelDirectory { names: NameTable { entries: Vec::new() }, ids: IdTable { entries: HashMap::new() } }
    }
}

/// The name and id tables of a catalog, one entry per channel, in catalog order.
pub fn build_mappings(channels: &Vec<Channel>) -> (r: (NameTable, IdTable))
    ensures
        name_entries(r.0.entries@) == channels@.map_values(|c: Channel| (c.name@, c.id)),
        r.1.entries@ == id_map(channels@),
{
    broadcast use vstd::std_specs::hash::group_hash_axioms;

    let mut names: Vec<(String, u64)> = Vec::new();
    let mut ids: HashMap<u64, String> = HashMap::new();
    let mut i: usize = 0;
    while i < channels.len()
        invariant
            i <= channels.len(),
            name_entries(names@) == channels@.subrange(0, i as int).map_values(|c: Channel| (c.name@, c.id)),
            ids@ == id_map(channels@.subrange(0, i as int)),
        decreases channels.len() - i,
    {
        let c = &channels[i];
        let ghost n0 = names@;
        names.push((c.name.clone(), c.id));
        ids.insert(c.id, c.name.clone());
        assert(name_entries(names@) == name_entries(n0).push((c.name@, c.id)));
        assert(channels@.subrange(0, i + 1) == channels@.subrange(0, i as int).push(channels@[i as int]));
        assert(channels@.subrange(0, i + 1).drop_last() == channels@.subrange(0, i as int));
        assert(id_map(channels@.subrange(0, i + 1)) == id_map(channels@.subrange(0, i as int)).insert(c.id, c.name));
        i += 1;
    }
    assert(channels@.subrange(0, channels.len() as int) == channels@);
    (NameTable { entries: names }, IdTable { entries: ids })
}

/// Replaces both tables of the directory.
pub fn update_global_mappings(dir: &mut ChannelDirectory, tvgname_to_id: NameTable, id_to_tvgname: IdTable)
    ensures
        final(dir).names == tvgname_to_id,
        final(dir).ids == id_to_tvgname,
{
    dir.names = tvgname_to_id;
    dir.ids = id_to_tvgname;
}

/// The channel id recorded last for the published name `tvgname`.
pub fn get_channel_id_by_tvgname(dir: &ChannelDirectory, tvgname: &str) -> (r: Option<u64>)
    ensures
        r == name_lookup(name_entries(dir.names.entries@), tvgname@),
{
    let t = &dir.names.entries;
    let key = tvgname.to_owned();
    let mut i: usize = t.len();
    assert(t@.subrange(0, t.len() as int) == t@);
    while i > 0
        invariant
            i <= t.len(),
            key@ == tvgname@,
            t@ == dir.names.entries@,
            name_lookup(name_entries(t@.subrange(0, i as int)), tvgname@)
                == name_lookup(name_entries(t@), tvgname@),
        decreases i,
    {
        let ghost pre = name_entries(t@.subrange(0, i as int));
        assert(pre.drop_last() == name_entries(t@.subrange(0, i - 1)));
        assert(pre.last() == (t@[i - 1].0@, t@[i - 1].1));
        if t[i - 1].0 == key {
            assert(pre.len() > 0 && pre.last().0 == tvgname@);
            return Some(t[i - 1].1);
        }
        i -= 1;
    }
    None
}

} // verus!

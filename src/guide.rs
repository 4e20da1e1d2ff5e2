//! Attaching guide entries to channels: the bulk mode, where each channel's
//! fetch may fail on its own, and the targeted single-day mode.

use vstd::prelude::*;
use crate::channel::{Channel, ChannelView, Program, ProgramView, programs_view};

verus! {

/// One guide entry as the backend lists it.
pub struct Bill {
    pub name: String,
    pub start_time: i64,
    pub end_time: i64,
}

/// The program that a guide entry becomes: its name is both title and
/// description.
pub open spec fn program_of_bill(b: Bill) -> ProgramView {
    ProgramView { start: b.start_time, stop: b.end_time, title: b.name@, desc: b.name@ }
}

pub open spec fn bills_programs(bs: Seq<Bill>) -> Seq<ProgramView> {
    bs.map_values(|b: Bill| program_of_bill(b))
}

/// The channel `c` after a guide fetch: with the fetched entries appended when
/// the fetch and its decoding succeeded, unchanged otherwise.
pub open spec fn with_fetched_guide(c: ChannelView, fetched: Option<Seq<Bill>>) -> ChannelView {
    match fetched {
        Some(bs) => ChannelView { epg: c.epg + bills_programs(bs), ..c },
        None => c,
    }
}

pub open spec fn fetched_view(f: Option<Vec<Bill>>) -> Option<Seq<Bill>> {
    match f {
        Some(v) => Some(v@),
        None => None,
    }
}

/// Appends the programs of `bills` to `epg`.
pub fn append_programs(epg: &mut Vec<Program>, bills: &Vec<Bill>)
    ensures
        programs_view(final(epg)@) == programs_view(old(epg)@) + bills_programs(bills@),
{
    let ghost start = programs_view(epg@);
    let mut i: usize = 0;
    while i < bills.len()
        invariant
            i <= bills.len(),
            programs_view(epg@) == start + bills_programs(bills@.subrange(0, i as int)),
        decreases bills.len() - i,
    {
        let b = &bills[i];
        let p = Program { start: b.start_time, stop: b.end_time, title: b.name.clone(), desc: b.name.clone() };
        let ghost before = epg@;
        epg.push(p);
        assert(programs_view(epg@) == programs_view(before).push(p@));
        assert(bills_programs(bills@.subrange(0, i + 1)) == bills_programs(bills@.subrange(0, i as int)).push(
            program_of_bill(bills@[i as int]),
        ));
        i += 1;
    }
    assert(bills@.subrange(0, bills.len() as int) == bills@);
}

/// Gathers the outcome of one guide fetch per channel, in the order the
/// fetches completed. Every channel is kept: one whose fetch failed keeps its
/// guide as it was.
pub fn merge_guide_results(completed: Vec<(Channel, Option<Vec<Bill>>)>) -> (r: Vec<Channel>)
    ensures
        r.len() == completed.len(),
        forall|i: int|
            0 <= i < r.len() ==> #[trigger] r[i]@ == with_fetched_guide(
                completed[i].0@,
                fetched_view(completed[i].1),
            ),
{
    let ghost all = completed@;
    let mut rest = completed;
    let mut out: Vec<Channel> = Vec::new();
    while rest.len() > 0
        invariant
            out.len() + rest.len() == all.len(),
            rest@ == all.subrange(out.len() as int, all.len() as int),
            forall|i: int|
                0 <= i < out.len() ==> #[trigger] out[i]@ == with_fetched_guide(all[i].0@, fetched_view(all[i].1)),
        decreases rest.len(),
    {
        let ghost k = out.len() as int;
        let (mut c, fetched) = rest.remove(0);
        assert(all[k] == (c, fetched));
        match fetched {
            Some(bills) => {
                append_programs(&mut c.epg, &bills);
            },
            None => {},
        }
        out.push(c);
        assert(rest@ == all.subrange(out.len() as int, all.len() as int));
    }
    out
}

/// Replaces the guide of `c` with the programs of `bills`; nothing else of
/// `c` changes.
pub fn replace_guide(c: &mut Channel, bills: &Vec<Bill>)
    ensures
        final(c)@ == (ChannelView { epg: bills_programs(bills@), ..old(c)@ }),
{
    c.epg.clear();
    append_programs(&mut c.epg, bills);
    assert(programs_view(Seq::<Program>::empty()) + bills_programs(bills@) == bills_programs(bills@));
}

/// The record for a targeted query: the channel id with the guide fetched for
/// that day, and no other details.
pub fn channel_date_guide(channel_id: u64, bills: &Vec<Bill>) -> (r: Channel)
    ensures
        r@ == (ChannelView {
            id: channel_id,
            user_channel_id: Seq::empty(),
            name: Seq::empty(),
            rtsp: Seq::empty(),
            igmp: Seq::empty(),
            epg: bills_programs(bills@),
        }),
{
    let mut c = Channel {
        id: channel_id,
        user_channel_id: String::new(),
        name: String::new(),
        rtsp: String::new(),
        igmp: String::new(),
        epg: Vec::new(),
    };
    replace_guide(&mut c, bills);
    c
}

/// The record served when a targeted query fails: the id and the name asked
/// for, channel number `0`, no addresses and no guide.
pub fn bare_channel(channel_id: u64, name: &str) -> (r: Channel)
    ensures
        r@ == (ChannelView {
            id: channel_id,
            user_channel_id: "0"@,
            name: name@,
            rtsp: Seq::empty(),
            igmp: Seq::empty(),
            epg: Seq::empty(),
        }),
{
    let r = Channel {
        id: channel_id,
        user_channel_id: "0".to_owned(),
        name: name.to_owned(),
        rtsp: String::new(),
        igmp: String::new(),
        epg: Vec::new(),
    };
    assert(programs_view(r.epg@) == Seq::<ProgramView>::empty());
    r
}

} // verus!

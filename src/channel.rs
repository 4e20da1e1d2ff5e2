//! Channel and program records, with their mathematical views.

use vstd::prelude::*;

verus! {

/// One guide entry. Times are epoch milliseconds; `start < stop` is not
/// guaranteed by the backend and is not assumed here.
pub struct Program {
    pub start: i64,
    pub stop: i64,
    pub title: String,
    pub desc: String,
}

/// The value a `Program` stands for.
pub struct ProgramView {
    pub start: i64,
    pub stop: i64,
    pub title: Seq<char>,
    pub desc: Seq<char>,
}

impl View for Program {
    type V = ProgramView;

    open spec fn view(&self) -> ProgramView {
        ProgramView { start: self.start, stop: self.stop, title: self.title@, desc: self.desc@ }
    }
}

/// One live channel of the catalog, with its guide entries.
pub struct Channel {
    pub id: u64,
    pub user_channel_id: String,
    pub name: String,
    pub rtsp: String,
    pub igmp: String,
    pub epg: Vec<Program>,
}

/// The value a `Channel` stands for.
pub struct ChannelView {
    pub id: u64,
    pub user_channel_id: Seq<char>,
    pub name: Seq<char>,
    pub rtsp: Seq<char>,
    pub igmp: Seq<char>,
    pub epg: Seq<ProgramView>,
}

/// The views of a sequence of programs.
pub open spec fn programs_view(ps: Seq<Program>) -> Seq<ProgramView> {
    ps.map_values(|p: Program| p@)
}

impl View for Channel {
    type V = ChannelView;

    open spec fn view(&self) -> ChannelView {
        ChannelView {
            id: self.id,
            user_channel_id: self.user_channel_id@,
            name: self.name@,
            rtsp: self.rtsp@,
            igmp: self.igmp@,
            epg: programs_view(self.epg@),
        }
    }
}

/// The views of a sequence of channels.
pub open spec fn channels_view(cs: Seq<Channel>) -> Seq<ChannelView> {
    cs.map_values(|c: Channel| c@)
}

} // verus!

use vstd::prelude::*;

use crate::keymap::{KeyMap, MapKey};

verus! {

/// A segment of a shard, by namespace, shard name and sequence number.
#[derive(Debug)]
pub struct SegmentIdentity {
    pub namespace: String,
    pub shard_name: String,
    pub segment_seq: u32,
}

/// Which offset record of a segment a key names.
#[derive(Clone, Copy, Debug, PartialEq, Eq, Structural)]
pub enum OffsetKind {
    Start,
    End,
    /// The file position of the record at this offset.
    Position(u64),
    /// The first offset at or after this timestamp.
    Timestamp(u64),
}

/// The key of one record of the offset index.
#[derive(Debug)]
pub struct OffsetKey {
    pub namespace: String,
    pub shard_name: String,
    pub segment_seq: u32,
    pub kind: OffsetKind,
}

pub type OffsetKeyView = (Seq<char>, Seq<char>, u32, OffsetKind);

impl View for OffsetKey {
    type V = OffsetKeyView;

    open spec fn view(&self) -> OffsetKeyView {
        (self.namespace@, self.shard_name@, self.segment_seq, self.kind)
    }
}

impl MapKey for OffsetKey {
    fn same_key(&self, other: &Self) -> (r: bool) {
        self.namespace == other.namespace && self.shard_name == other.shard_name
            && self.segment_seq == other.segment_seq && self.kind == other.kind
    }
}

pub open spec fn key_view(seg: SegmentIdentity, kind: OffsetKind) -> OffsetKeyView {
    (seg.namespace@, seg.shard_name@, seg.segment_seq, kind)
}

/// The value stored under `k`, or 0 when nothing is.
pub open spec fn read_or_zero(index: Map<OffsetKeyView, u64>, k: OffsetKeyView) -> u64 {
    if index.contains_key(k) {
        index[k]
    } else {
        0
    }
}

/// A journal server's offset index: per segment its start and end offsets,
/// the file position of offsets, and the offset at timestamps.
pub struct OffsetIndexManager {
    index: KeyMap<OffsetKey, u64>,
}

impl OffsetIndexManager {
    pub closed spec fn wf(&self) -> bool {
        self.index.wf()
    }

    pub closed spec fn records(&self) -> Map<OffsetKeyView, u64> {
        self.index@
    }

    pub fn new() -> (r: Self)
        ensures
            r.wf(),
            r.records() == Map::<OffsetKeyView, u64>::empty(),
    {
        OffsetIndexManager { index: KeyMap::new() }
    }

    fn key(seg: &SegmentIdentity, kind: OffsetKind) -> (r: OffsetKey)
        ensures
            r@ == key_view(*seg, kind),
    {
        OffsetKey {
            namespace: seg.namespace.clone(),
            shard_name: seg.shard_name.clone(),
            segment_seq: seg.segment_seq,
            kind,
        }
    }

    fn save(&mut self, seg: &SegmentIdentity, kind: OffsetKind, value: u64)
        requires
            old(self).wf(),
        ensures
            final(self).wf(),
            final(self).records() == old(self).records().insert(key_view(*seg, kind), value),
    {
        self.index.insert(Self::key(seg, kind), value);
    }

    fn read(&self, seg: &SegmentIdentity, kind: OffsetKind) -> (r: u64)
        requires
            self.wf(),
        ensures
            r == read_or_zero(self.records(), key_view(*seg, kind)),
    {
        match self.index.get(&Self::key(seg, kind)) {
            Some(v) => *v,
            None => 0,
        }
    }

    pub fn save_start_offset(&mut self, seg: &SegmentIdentity, start_offset: u64)
        requires
            old(self).wf(),
        ensures
            final(self).wf(),
            final(self).records() == old(self).records().insert(key_view(*seg, OffsetKind::Start), start_offset),
    {
        self.save(seg, OffsetKind::Start, start_offset);
    }

    /// The segment's start offset; 0 when not yet indexed.
    pub fn get_start_offset(&self, seg: &SegmentIdentity) -> (r: u64)
        requires
            self.wf(),
        ensures
            r == read_or_zero(self.records(), key_view(*seg, OffsetKind::Start)),
    {
        self.read(seg, OffsetKind::Start)
    }

    pub fn save_end_offset(&mut self, seg: &SegmentIdentity, end_offset: u64)
        requires
            old(self).wf(),
        ensures
            final(self).wf(),
            final(self).records() == old(self).records().insert(key_view(*seg, OffsetKind::End), end_offset),
    {
        self.save(seg, OffsetKind::End, end_offset);
    }

    /// The segment's end offset; 0 when not yet indexed.
    pub fn get_end_offset(&self, seg: &SegmentIdentity) -> (r: u64)
        requires
            self.wf(),
        ensures
            r == read_or_zero(self.records(), key_view(*seg, OffsetKind::End)),
    {
        self.read(seg, OffsetKind::End)
    }

    pub fn save_position_offset(&mut self, seg: &SegmentIdentity, offset: u64, position: u64)
        requires
            old(self).wf(),
        ensures
            final(self).wf(),
            final(self).records() == old(self).records().insert(
                key_view(*seg, OffsetKind::Position(offset)),
                position,
            ),
    {
        self.save(seg, OffsetKind::Position(offset), position);
    }

    /// The file position of `offset` in the segment; 0 when not yet indexed.
    pub fn get_position_offset(&self, seg: &SegmentIdentity, offset: u64) -> (r: u64)
        requires
            self.wf(),
        ensures
            r == read_or_zero(self.records(), key_view(*seg, OffsetKind::Position(offset))),
    {
        self.read(seg, OffsetKind::Position(offset))
    }

    pub fn save_timestamp_offset(&mut self, seg: &SegmentIdentity, timestamp: u64, offset: u64)
        requires
            old(self).wf(),
        ensures
            final(self).wf(),
            final(self).records() == old(self).records().insert(
                key_view(*seg, OffsetKind::Timestamp(timestamp)),
                offset,
            ),
    {
        self.save(seg, OffsetKind::Timestamp(timestamp), offset);
    }

    /// The offset indexed at `timestamp` in the segment; 0 when not yet indexed.
    pub fn get_timestamp_offset(&self, seg: &SegmentIdentity, timestamp: u64) -> (r: u64)
        requires
            self.wf(),
        ensures
            r == read_or_zero(self.records(), key_view(*seg, OffsetKind::Timestamp(timestamp))),
    {
        self.read(seg, OffsetKind::Timestamp(timestamp))
    }
}

} // verus!

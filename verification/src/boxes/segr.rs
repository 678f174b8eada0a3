//! FD Session Group Box (segr) parsing and serialization.
//!
//! The FD Session Group Box specifies session groups for file delivery.
//!
//! ```text
//! aligned(8) class FDSessionGroupBox extends Box('segr') {
//!    unsigned int(16) num_session_groups;
//!    for(i=0; i < num_session_groups; i++) {
//!       unsigned int(8) entry_count;
//!       for (j=0; j < entry_count; j++) {
//!          unsigned int(32) group_ID;
//!       }
//!       unsigned int(16) num_channels_in_session_group;
//!       for(k=0; k < num_channels_in_session_group; k++) {
//!          unsigned int(32) hint_track_ID;
//!       }
//!    }
//! }
//! ```

use vstd::prelude::*;
use crate::bytes::{copy_vec, be16, be32, lemma_u16_roundtrip, lemma_u32_roundtrip, read_u16, read_u24, read_u32, saturating_add, u16_bytes, u32_bytes, u32s_bytes, lemma_u32s_len, lemma_u32s_read_back, write_all, write_u16, write_u32, write_u32s, write_u8};
use crate::code::BoxCode;
use crate::container::{explicit_size, lemma_box_bytes_whole, lemma_fullbox_bytes_whole, whole_box};
use crate::error::{ParseError, WriteError, entries_fit, validate_entry_count};
use crate::header::{
    BoxHeader, FullBoxHeader, begin_box, begin_fullbox, box_bytes, box_fits, flags_of, fullbox_bytes, fullbox_payload_of,
    header_len, lemma_box_roundtrip, lemma_fullbox_roundtrip, payload_of, saturating_box_size, saturating_fullbox_size,
    spec_check_box, spec_check_fullbox, version_of,
};

verus! {

broadcast use crate::bytes::group_bytes_len;
/// The box type identifier for FDSessionGroupBox (`segr`).
pub const BOX_TYPE: BoxCode = 0x7365_6772;

/// A session group entry.
#[derive(Clone, Debug, PartialEq, Eq)]
pub struct SessionGroupEntry {
    /// Group IDs that this session group belongs to.
    pub entry_ids: Vec<u32>,
    /// Hint track IDs for channels in this session group.
    pub hint_track_ids: Vec<u32>,
}

/// The header of the FDSessionGroupBox `s`, or why `s` is not one.
pub open spec fn spec_check(s: Seq<u8>) -> Result<BoxHeader, ParseError> {
    spec_check_box(s, BOX_TYPE, 2)
}

/// The session group count field of the box `s`.
pub open spec fn spec_num_groups(s: Seq<u8>) -> u16 {
    be16(s, header_len(s)) as u16
}

/// The `k` 32-bit values of `s` from `o` on.
pub open spec fn read_u32s(s: Seq<u8>, o: int, k: int) -> Seq<u32> {
    Seq::new(k as nat, |j: int| be32(s, o + 4 * j) as u32)
}

/// How many of `n` 32-bit values from `o` on fit in `s`.
pub open spec fn fitting(s: Seq<u8>, o: int, n: int) -> int {
    if n <= (s.len() - o) / 4 { n } else { (s.len() - o) / 4 }
}

/// The session group at `off` of `s` (its group IDs and hint track IDs, each
/// list cut short where `s` ends) and the offset after it.
pub open spec fn spec_group_at(s: Seq<u8>, off: int) -> ((Seq<u32>, Seq<u32>), int) {
    let o1 = off + 1;
    let k1 = fitting(s, o1, s[off] as int);
    let o2 = o1 + 4 * k1;
    if o2 + 2 <= s.len() {
        let o3 = o2 + 2;
        let k2 = fitting(s, o3, be16(s, o2));
        ((read_u32s(s, o1, k1), read_u32s(s, o3, k2)), o3 + 4 * k2)
    } else {
        ((read_u32s(s, o1, k1), Seq::empty()), o2)
    }
}

/// The session groups of `s` read from `off` on: at most `n` of them, and
/// none from where `s` ends.
pub open spec fn spec_groups_from(s: Seq<u8>, off: int, n: nat) -> Seq<(Seq<u32>, Seq<u32>)>
    decreases n,
{
    if n == 0 || off >= s.len() || off < 0 {
        Seq::empty()
    } else {
        seq![spec_group_at(s, off).0] + spec_groups_from(s, spec_group_at(s, off).1, (n - 1) as nat)
    }
}

/// The session groups of the box `s`.
pub open spec fn spec_groups(s: Seq<u8>) -> Seq<(Seq<u32>, Seq<u32>)> {
    spec_groups_from(s, header_len(s) + 2, spec_num_groups(s) as nat)
}

/// The entries `gs` hold the session groups `model`, in order.
pub open spec fn groups_match(gs: Seq<SessionGroupEntry>, model: Seq<(Seq<u32>, Seq<u32>)>) -> bool {
    &&& gs.len() == model.len()
    &&& forall|i: int| 0 <= i < gs.len() ==> (#[trigger] gs[i]).entry_ids@ == model[i].0 && gs[i].hint_track_ids@ == model[i].1
}

/// Reads up to `n` 32-bit values from `offset` on, as many as fit.
fn read_list(data: &[u8], offset: usize, n: usize) -> (r: (Vec<u32>, usize))
    requires
        offset <= data@.len(),
    ensures
        r.0@ == read_u32s(data@, offset as int, fitting(data@, offset as int, n as int)),
        r.1 == offset + 4 * fitting(data@, offset as int, n as int),
{
    let mut v: Vec<u32> = Vec::new();
    let mut o = offset;
    let mut j: usize = 0;
    let ghost k = fitting(data@, offset as int, n as int);
    while j < n && data.len() - o >= 4
        invariant
            offset <= o <= data@.len(),
            j <= n,
            o == offset + 4 * j,
            j <= k,
            k == fitting(data@, offset as int, n as int),
            v@ == read_u32s(data@, offset as int, j as int),
        decreases n - j,
    {
        v.push(read_u32(data, o));
        assert(v@ =~= read_u32s(data@, offset as int, j + 1));
        o = o + 4;
        j = j + 1;
    }
    (v, o)
}

/// Reads up to `count` session groups from `start` on, stopping where the data ends.
fn parse_session_groups(data: &[u8], start: usize, count: u16) -> (r: Vec<SessionGroupEntry>)
    requires
        start <= data@.len(),
    ensures
        groups_match(r@, spec_groups_from(data@, start as int, count as nat)),
{
    let mut result: Vec<SessionGroupEntry> = Vec::new();
    let mut offset = start;
    let mut i: u16 = 0;
    let ghost all = spec_groups_from(data@, start as int, count as nat);
    while i < count
        invariant
            offset <= data@.len(),
            i <= count,
            all == spec_groups_from(data@, start as int, count as nat),
            groups_match(result@, all.take(result@.len() as int)),
            all == all.take(result@.len() as int) + spec_groups_from(data@, offset as int, (count - i) as nat),
        ensures
            i == count || offset >= data@.len(),
        decreases count - i,
    {
        if offset >= data.len() {
            break;
        }
        let ghost before = offset as int;
        let entry_count = data[offset] as usize;
        offset = offset + 1;
        let (entry_ids, o2) = read_list(data, offset, entry_count);
        offset = o2;
        let mut hint_track_ids: Vec<u32> = Vec::new();
        if data.len() - offset >= 2 {
            let num_channels = read_u16(data, offset) as usize;
            offset = offset + 2;
            let (h, o3) = read_list(data, offset, num_channels);
            hint_track_ids = h;
            offset = o3;
        }
        proof {
            let g = spec_group_at(data@, before);
            assert(g.1 == offset as int);
            assert(entry_ids@ == g.0.0);
            assert(hint_track_ids@ =~= g.0.1);
            let n = result@.len() as int;
            assert(spec_groups_from(data@, before, (count - i) as nat) == seq![g.0] + spec_groups_from(data@, offset as int, (count - i - 1) as nat));
            assert(all.take(n + 1) =~= all.take(n).push(g.0));
            assert(all =~= all.take(n + 1) + spec_groups_from(data@, offset as int, (count - i - 1) as nat));
        }
        result.push(SessionGroupEntry { entry_ids, hint_track_ids });
        i = i + 1;
    }
    proof {
        assert(spec_groups_from(data@, offset as int, (count - i) as nat) =~= Seq::empty());
        assert(all.take(result@.len() as int) =~= all);
    }
    result
}

/// Common interface for accessing FDSessionGroupBox data.
pub trait FDSessionGroupBox {
    /// Returns the total size of the box in bytes.
    fn box_size(&self) -> u64;

    /// Returns the box type.
    fn box_type(&self) -> BoxCode;

    /// Returns the number of session groups.
    fn num_session_groups(&self) -> u16;

    /// Returns all session groups.
    fn session_groups(&self) -> Vec<SessionGroupEntry>;
}

/// A borrowing view over raw FDSessionGroupBox bytes.
#[derive(Clone, Copy, Debug)]
pub struct FDSessionGroupBoxView<'a> {
    data: &'a [u8],
    header_size: usize,
    num_session_groups: u16,
}

impl<'a> FDSessionGroupBoxView<'a> {
    #[verifier::type_invariant]
    closed spec fn inv(&self) -> bool {
        &&& spec_check(self.data@) is Ok
        &&& self.header_size == header_len(self.data@)
        &&& self.num_session_groups == spec_num_groups(self.data@)
    }

    /// The bytes of the box.
    pub closed spec fn spec_data(&self) -> Seq<u8> {
        self.data@
    }

    /// Creates a new view over the given bytes.
    pub fn new(data: &'a [u8]) -> (r: Result<Self, ParseError>)
        ensures
            match r {
                Ok(v) => v.spec_data() == data@ && spec_check(data@) is Ok,
                Err(e) => spec_check(data@) == Err::<BoxHeader, ParseError>(e),
            },
    {
        let header = BoxHeader::parse(data, data.len())?;
        header.validate(data, BOX_TYPE, 2)?;
        let header_size = header.header_size as usize;
        let num_session_groups = read_u16(data, header_size);
        Ok(Self { data, header_size, num_session_groups })
    }

    /// Returns the underlying byte slice.
    pub fn as_bytes(&self) -> (r: &'a [u8])
        ensures
            r@ == self.spec_data(),
    {
        self.data
    }

    /// Returns the session groups, as far as the box holds them.
    pub fn session_groups(&self) -> (r: Vec<SessionGroupEntry>)
        ensures
            groups_match(r@, spec_groups(self.spec_data())),
    {
        proof { use_type_invariant(self); }
        parse_session_groups(self.data, self.header_size + 2, self.num_session_groups)
    }
}

impl<'a> FDSessionGroupBox for FDSessionGroupBoxView<'a> {
    fn box_size(&self) -> (r: u64)
        ensures
            r == self.spec_data().len(),
    {
        self.data.len() as u64
    }

    fn box_type(&self) -> (r: BoxCode)
        ensures
            r == BOX_TYPE,
    {
        BOX_TYPE
    }

    fn num_session_groups(&self) -> (r: u16)
        ensures
            r == spec_num_groups(self.spec_data()),
    {
        proof { use_type_invariant(self); }
        self.num_session_groups
    }

    fn session_groups(&self) -> (r: Vec<SessionGroupEntry>)
        ensures
            groups_match(r@, spec_groups(self.spec_data())),
    {
        FDSessionGroupBoxView::session_groups(self)
    }
}

/// The serialized bytes of a session group: the ID count's low 8 bits, the IDs,
/// the channel count's low 16 bits and the hint track IDs.
pub open spec fn group_bytes(g: SessionGroupEntry) -> Seq<u8> {
    seq![(g.entry_ids@.len() % 256) as u8] + u32s_bytes(g.entry_ids@)
        + u16_bytes((g.hint_track_ids@.len() % 0x10000) as u16) + u32s_bytes(g.hint_track_ids@)
}

/// An owned representation of FDSessionGroupBox data.
#[derive(Clone, Debug, PartialEq, Eq)]
pub struct FDSessionGroupBoxOwned {
    /// Session group entries.
    pub session_groups: Vec<SessionGroupEntry>,
}

impl FDSessionGroupBoxOwned {
    /// The payload: the group count's low 16 bits and the groups.
    pub open spec fn spec_payload(&self) -> Seq<u8> {
        u16_bytes((self.session_groups@.len() % 0x10000) as u16)
            + self.session_groups@.map_values(|g: SessionGroupEntry| group_bytes(g)).flatten()
    }

    /// The serialized bytes of the box.
    pub open spec fn spec_bytes(&self) -> Seq<u8> {
        box_bytes(BOX_TYPE, self.spec_payload())
    }

    /// The box fits in 64-bit size fields.
    pub open spec fn spec_fits(&self) -> bool {
        box_fits(self.spec_payload().len() as int)
    }

    /// Creates a new empty FDSessionGroupBoxOwned.
    pub fn new() -> (r: Self)
        ensures
            r.session_groups@.len() == 0,
    {
        Self { session_groups: Vec::new() }
    }

    /// Returns the payload size, or `u64::MAX` when it does not fit below `u64::MAX`.
    fn payload_size(&self) -> (r: u64)
        ensures
            r == if self.spec_payload().len() < 0xffff_ffff_ffff_ffff { self.spec_payload().len() as int } else { 0xffff_ffff_ffff_ffff },
    {
        let mut payload: u64 = 2;
        let ghost gb = self.session_groups@.map_values(|g: SessionGroupEntry| group_bytes(g));
        let mut i: usize = 0;
        while i < self.session_groups.len()
            invariant
                i <= self.session_groups@.len(),
                gb == self.session_groups@.map_values(|g: SessionGroupEntry| group_bytes(g)),
                payload == if 2 + gb.take(i as int).flatten().len() < 0xffff_ffff_ffff_ffff {
                    2 + gb.take(i as int).flatten().len()
                } else {
                    0xffff_ffff_ffff_ffff
                },
            decreases self.session_groups@.len() - i,
        {
            let g = &self.session_groups[i];
            proof {
                assert(gb.take(i + 1) =~= gb.take(i as int).push(gb[i as int]));
                gb.take(i as int).lemma_flatten_push(gb[i as int]);
                lemma_u32s_len(g.entry_ids@);
                lemma_u32s_len(g.hint_track_ids@);
            }
            let e = g.entry_ids.len() as u64;
            let h = g.hint_track_ids.len() as u64;
            assert(gb[i as int] == group_bytes(*g));
            assert(gb[i as int].len() == 3 + 4 * e + 4 * h);
            let e4: u64 = if e > 0x3fff_ffff_ffff_ffff { 0xffff_ffff_ffff_ffff } else { 4 * e };
            let h4: u64 = if h > 0x3fff_ffff_ffff_ffff { 0xffff_ffff_ffff_ffff } else { 4 * h };
            let n = saturating_add(saturating_add(3, e4), h4);
            payload = saturating_add(payload, n);
            i = i + 1;
        }
        assert(gb.take(i as int) =~= gb);
        payload
    }

    /// Returns the serialized size of the box, or `u64::MAX` when it does not fit.
    fn serialized_size(&self) -> (r: u64)
        ensures
            r == if self.spec_fits() { self.spec_bytes().len() as int } else { 0xffff_ffff_ffff_ffff },
    {
        proof { if self.spec_fits() { lemma_box_roundtrip(BOX_TYPE, self.spec_payload()); } }
        saturating_box_size(self.payload_size())
    }

    /// Writes the box to the given vector.
    pub fn write_to(&self, out: &mut Vec<u8>) -> (r: Result<(), WriteError>)
        ensures
            r is Ok <==> self.spec_fits(),
            r is Ok ==> final(out)@ == old(out)@ + self.spec_bytes(),
            r is Err ==> final(out)@ == old(out)@,
    {
        match begin_box(out, BOX_TYPE, self.payload_size()) {
            Ok(()) => {},
            Err(e) => {
                return Err(e);
            },
        }
        let ghost start = out@;
        write_u16(out, (self.session_groups.len() % 0x10000) as u16);
        let ghost mid = out@;
        let ghost gb = self.session_groups@.map_values(|g: SessionGroupEntry| group_bytes(g));
        let mut i: usize = 0;
        while i < self.session_groups.len()
            invariant
                i <= self.session_groups@.len(),
                gb == self.session_groups@.map_values(|g: SessionGroupEntry| group_bytes(g)),
                out@ == mid + gb.take(i as int).flatten(),
            decreases self.session_groups@.len() - i,
        {
            let g = &self.session_groups[i];
            let ghost before = out@;
            write_u8(out, (g.entry_ids.len() % 256) as u8);
            write_u32s(out, &g.entry_ids);
            write_u16(out, (g.hint_track_ids.len() % 0x10000) as u16);
            write_u32s(out, &g.hint_track_ids);
            proof {
                assert(out@ =~= before + group_bytes(*g));
                assert(gb.take(i + 1) =~= gb.take(i as int).push(gb[i as int]));
                gb.take(i as int).lemma_flatten_push(gb[i as int]);
            }
            i = i + 1;
        }
        assert(gb.take(i as int) =~= gb);
        assert(out@ =~= start + self.spec_payload());
        Ok(())
    }

    /// Creates an owned copy of the box that `source` views.
    pub fn from(source: &FDSessionGroupBoxView<'_>) -> (r: Self)
        ensures
            groups_match(r.session_groups@, spec_groups(source.spec_data())),
    {
        Self { session_groups: source.session_groups() }
    }
}

impl Default for FDSessionGroupBoxOwned {
    fn default() -> (r: Self)
        ensures
            r.session_groups@.len() == 0,
    {
        Self::new()
    }
}

impl FDSessionGroupBox for FDSessionGroupBoxOwned {
    fn box_size(&self) -> (r: u64)
        ensures
            r == if self.spec_fits() { self.spec_bytes().len() as int } else { 0xffff_ffff_ffff_ffff },
    {
        self.serialized_size()
    }

    fn box_type(&self) -> (r: BoxCode)
        ensures
            r == BOX_TYPE,
    {
        BOX_TYPE
    }

    fn num_session_groups(&self) -> (r: u16)
        ensures
            r == self.session_groups@.len() % 0x10000,
    {
        (self.session_groups.len() % 0x10000) as u16
    }

    fn session_groups(&self) -> (r: Vec<SessionGroupEntry>)
        ensures
            r@.len() == self.session_groups@.len(),
            forall|i: int| 0 <= i < r@.len() ==> (#[trigger] r@[i]).entry_ids@ == self.session_groups@[i].entry_ids@
                && r@[i].hint_track_ids@ == self.session_groups@[i].hint_track_ids@,
    {
        let mut r: Vec<SessionGroupEntry> = Vec::new();
        let mut i: usize = 0;
        while i < self.session_groups.len()
            invariant
                i <= self.session_groups@.len(),
                r@.len() == i,
                forall|k: int| 0 <= k < i ==> (#[trigger] r@[k]).entry_ids@ == self.session_groups@[k].entry_ids@
                    && r@[k].hint_track_ids@ == self.session_groups@[k].hint_track_ids@,
            decreases self.session_groups@.len() - i,
        {
            let g = &self.session_groups[i];
            r.push(SessionGroupEntry { entry_ids: copy_vec(&g.entry_ids), hint_track_ids: copy_vec(&g.hint_track_ids) });
            i = i + 1;
        }
        r
    }
}


/// A session group whose counts fit their fields.
pub open spec fn group_valid(g: SessionGroupEntry) -> bool {
    g.entry_ids@.len() < 256 && g.hint_track_ids@.len() < 0x10000
}

/// The session group model of an entry.
pub open spec fn group_model(g: SessionGroupEntry) -> (Seq<u32>, Seq<u32>) {
    (g.entry_ids@, g.hint_track_ids@)
}

/// A session group written at offset `o` of `q` reads back unchanged.
#[verifier::rlimit(40)]
proof fn lemma_group_read_back(g: SessionGroupEntry, q: Seq<u8>, o: int)
    requires
        group_valid(g),
        0 <= o,
        o + group_bytes(g).len() <= q.len(),
        forall|k: int| 0 <= k < group_bytes(g).len() ==> q[o + k] == #[trigger] group_bytes(g)[k],
    ensures
        spec_group_at(q, o) == (group_model(g), o + group_bytes(g).len()),
{
    let gb = group_bytes(g);
    let ids = g.entry_ids@;
    let hs = g.hint_track_ids@;
    let e = ids.len() as int;
    let h = hs.len() as int;
    lemma_u32s_len(ids);
    lemma_u32s_len(hs);
    let hb = u16_bytes(h as u16);
    lemma_u16_roundtrip(h as u16);
    assert(gb.len() == 3 + 4 * e + 4 * h);
    assert(q[o] == gb[0]);
    let o1 = o + 1;
    assert forall|k: int| 0 <= k < 4 * e implies q[o1 + k] == #[trigger] u32s_bytes(ids)[k] by {
        assert(q[o1 + k] == gb[1 + k]);
    }
    lemma_u32s_read_back(ids, q, o1);
    assert(read_u32s(q, o1, e) =~= ids);
    let o2 = o1 + 4 * e;
    assert(be16(q, o2) == h) by {
        assert(q[o2] == gb[1 + 4 * e]);
        assert(q[o2 + 1] == gb[2 + 4 * e]);
        assert(gb[1 + 4 * e] == hb[0]);
        assert(gb[2 + 4 * e] == hb[1]);
    }
    let o3 = o2 + 2;
    assert forall|k: int| 0 <= k < 4 * h implies q[o3 + k] == #[trigger] u32s_bytes(hs)[k] by {
        assert(q[o3 + k] == gb[3 + 4 * e + k]);
    }
    lemma_u32s_read_back(hs, q, o3);
    assert(read_u32s(q, o3, h) =~= hs);
}

/// Session groups written one after another after any prefix `a` read back unchanged.
proof fn lemma_groups_read_back(gs: Seq<SessionGroupEntry>, a: Seq<u8>)
    requires
        forall|i: int| 0 <= i < gs.len() ==> group_valid(#[trigger] gs[i]),
    ensures
        spec_groups_from(a + gs.map_values(|g: SessionGroupEntry| group_bytes(g)).flatten(), a.len() as int, gs.len())
            == gs.map_values(|g: SessionGroupEntry| group_model(g)),
    decreases gs.len(),
{
    let gbs = gs.map_values(|g: SessionGroupEntry| group_bytes(g));
    let q = a + gbs.flatten();
    if gs.len() == 0 {
        assert(gs.map_values(|g: SessionGroupEntry| group_model(g)) =~= Seq::empty());
        return;
    }
    let g0 = gs[0];
    let rest = gs.drop_first();
    let gb0 = group_bytes(g0);
    let rbs = rest.map_values(|g: SessionGroupEntry| group_bytes(g));
    assert(gbs.drop_first() =~= rbs);
    assert(gbs.flatten() == gb0 + rbs.flatten());
    let a2 = a + gb0;
    assert(q =~= a2 + rbs.flatten());
    assert forall|i: int| 0 <= i < rest.len() implies group_valid(#[trigger] rest[i]) by {
        assert(rest[i] == gs[i + 1]);
    }
    lemma_groups_read_back(rest, a2);
    lemma_u32s_len(g0.entry_ids@);
    lemma_u32s_len(g0.hint_track_ids@);
    assert forall|k: int| 0 <= k < gb0.len() implies q[a.len() + k] == #[trigger] gb0[k] by {
        assert(q[a.len() + k] == a2[a.len() + k]);
    }
    lemma_group_read_back(g0, q, a.len() as int);
    assert(gs.map_values(|g: SessionGroupEntry| group_model(g))
        =~= seq![group_model(g0)] + rest.map_values(|g: SessionGroupEntry| group_model(g)));
}

/// Serializing an owned box with fewer than 65536 valid session groups gives a
/// box that passes the checks and reads back every session group unchanged.
pub proof fn lemma_roundtrip(o: &FDSessionGroupBoxOwned)
    requires
        o.spec_fits(),
        o.session_groups@.len() < 0x10000,
        forall|i: int| 0 <= i < o.session_groups@.len() ==> group_valid(#[trigger] o.session_groups@[i]),
    ensures
        spec_check(o.spec_bytes()) is Ok,
        spec_num_groups(o.spec_bytes()) == o.session_groups@.len(),
        spec_groups(o.spec_bytes()) == o.session_groups@.map_values(|g: SessionGroupEntry| group_model(g)),
        whole_box(o.spec_bytes()),
        explicit_size(o.spec_bytes()),
{
    let s = o.spec_bytes();
    let p = o.spec_payload();
    let n = o.session_groups@.len() as u16;
    lemma_box_roundtrip(BOX_TYPE, p);
    lemma_box_bytes_whole(BOX_TYPE, p);
    lemma_u16_roundtrip(n);
    assert(spec_check_box(s, BOX_TYPE, 2) is Ok);
    let hl = header_len(s);
    assert(s.subrange(hl, s.len() as int) == p);
    assert(be16(s, hl) == n) by {
        assert(s[hl] == p[0]);
        assert(s[hl + 1] == p[1]);
    }
    let a = s.subrange(0, hl + 2);
    let f = o.session_groups@.map_values(|g: SessionGroupEntry| group_bytes(g)).flatten();
    assert(s =~= a + f) by {
        assert forall|k: int| 0 <= k < s.len() implies s[k] == (a + f)[k] by {
            if k >= hl + 2 {
                assert(s[k] == s.subrange(hl, s.len() as int)[k - hl]);
            }
        }
    }
    lemma_groups_read_back(o.session_groups@, a);
}

/// A FDSessionGroupBox payload holds the group count in its first two bytes;
/// each group holds its entry count in one byte and four bytes per entry
/// identifier, then its hint track count in two bytes and four bytes per hint
/// track identifier, all big-endian.
pub proof fn lemma_field_layout(s: Seq<u8>, off: int)
    requires
        0 <= off,
        off + 3 + 4 * s[off] <= s.len(),
        off + 3 + 4 * s[off] + 4 * be16(s, off + 1 + 4 * s[off]) <= s.len(),
    ensures
        spec_num_groups(s) == be16(s, header_len(s)),
        ({
            let n = s[off] as int;
            let o2 = off + 1 + 4 * n;
            let m = be16(s, o2);
            let g = spec_group_at(s, off);
            &&& g.0.0.len() == n
            &&& (forall|j: int| 0 <= j < n ==> #[trigger] g.0.0[j] == be32(s, off + 1 + 4 * j))
            &&& g.0.1.len() == m
            &&& (forall|j: int| 0 <= j < m ==> #[trigger] g.0.1[j] == be32(s, o2 + 2 + 4 * j))
            &&& g.1 == o2 + 2 + 4 * m
        }),
{
    let n = s[off] as int;
    let o1 = off + 1;
    let o2 = o1 + 4 * n;
    let m = be16(s, o2);
    let len = s.len() as int;
    assert(n <= (len - o1) / 4) by (nonlinear_arith)
        requires
            o1 + 4 * n <= len,
            0 <= n,
    ;
    assert(m <= (len - (o2 + 2)) / 4) by (nonlinear_arith)
        requires
            o2 + 2 + 4 * m <= len,
            0 <= m,
    ;
}

} // verus!

//! Child boxes inside a container box: reading them one after another from a
//! payload, and holding a child box as its raw bytes.

use vstd::prelude::*;
use crate::bytes::{be32, be64, write_all};
use crate::code::BoxCode;
use crate::header::{BoxHeader, box_bytes, box_fits, fullbox_bytes, lemma_box_roundtrip, payload_of, spec_check_box, spec_parse_box_header, version_flags_bytes};

verus! {

broadcast use crate::bytes::group_bytes_len;

/// Length of the child box that `s` starts with: the size its header declares,
/// where it parses, is not zero and fits in `s`.
pub open spec fn child_len(s: Seq<u8>) -> Option<int> {
    match spec_parse_box_header(s, s.len() as int) {
        Ok(h) => if 8 <= h.size <= s.len() { Some(h.size as int) } else { None },
        Err(_) => None,
    }
}

/// The child boxes that the payload `s` holds, in order: each one as its bytes.
/// Reading stops at the first position where no whole child box starts.
pub open spec fn spec_children(s: Seq<u8>) -> Seq<Seq<u8>>
    decreases s.len(),
{
    match child_len(s) {
        Some(n) => seq![s.subrange(0, n)] + spec_children(s.subrange(n, s.len() as int)),
        None => Seq::empty(),
    }
}

/// The box type of the box `c`.
pub open spec fn box_type_of(c: Seq<u8>) -> BoxCode {
    be32(c, 4) as u32
}

/// `c` is one whole box: its header parses and declares exactly its length.
pub open spec fn whole_box(c: Seq<u8>) -> bool {
    spec_parse_box_header(c, c.len() as int) matches Ok(h) && h.size == c.len()
}

/// `c` states its size in its header rather than extending to the end of its container.
pub open spec fn explicit_size(c: Seq<u8>) -> bool {
    be32(c, 0) != 0
}

/// The first box of `cs` whose type is `t`.
pub open spec fn first_of_type(cs: Seq<Seq<u8>>, t: BoxCode) -> Option<Seq<u8>>
    decreases cs.len(),
{
    if cs.len() == 0 {
        None
    } else if box_type_of(cs[0]) == t {
        Some(cs[0])
    } else {
        first_of_type(cs.drop_first(), t)
    }
}

/// The header that `s` starts with is also the header of its first `h.size`
/// bytes, taken as a box of their own.
pub proof fn lemma_parse_prefix(s: Seq<u8>, n: int)
    requires
        spec_parse_box_header(s, s.len() as int) matches Ok(h) && h.size == n,
        n <= s.len(),
        s.len() <= u64::MAX,
    ensures
        spec_parse_box_header(s.subrange(0, n), n) == spec_parse_box_header(s, s.len() as int),
{
    reveal(be64);
    let c = s.subrange(0, n);
    if be32(s, 0) == 0 {
        assert(c =~= s);
    } else if be32(s, 0) == 1 {
        assert(n >= 16);
        assert(be32(c, 0) == be32(s, 0));
        assert(be32(c, 4) == be32(s, 4));
        assert(be32(c, 8) == be32(s, 8));
        assert(be32(c, 12) == be32(s, 12));
    } else {
        assert(n >= 8);
        assert(be32(c, 0) == be32(s, 0));
        assert(be32(c, 4) == be32(s, 4));
    }
}

/// A box with an explicit size, followed by any bytes, is read as the first child.
pub proof fn lemma_child_len_prefix(c: Seq<u8>, rest: Seq<u8>)
    requires
        whole_box(c),
        explicit_size(c),
    ensures
        child_len(c + rest) == Some(c.len() as int),
        (c + rest).subrange(0, c.len() as int) == c,
        (c + rest).subrange(c.len() as int, (c + rest).len() as int) == rest,
{
    reveal(be64);
    let s = c + rest;
    assert(s.subrange(0, c.len() as int) =~= c);
    assert(s.subrange(c.len() as int, s.len() as int) =~= rest);
    if be32(c, 0) == 1 {
        assert(be32(c, 0) == be32(s, 0));
        assert(be32(c, 4) == be32(s, 4));
        assert(be32(c, 8) == be32(s, 8));
        assert(be32(c, 12) == be32(s, 12));
    } else {
        assert(be32(c, 0) == be32(s, 0));
        assert(be32(c, 4) == be32(s, 4));
    }
}

/// The payload made of a sequence of whole boxes with explicit sizes reads
/// back as exactly those boxes.
pub proof fn lemma_children_of_flatten(cs: Seq<Seq<u8>>)
    requires
        forall|i: int| 0 <= i < cs.len() ==> whole_box(#[trigger] cs[i]) && explicit_size(cs[i]),
    ensures
        spec_children(cs.flatten()) == cs,
    decreases cs.len(),
{
    if cs.len() == 0 {
        assert(cs.flatten() =~= Seq::<u8>::empty());
        assert(child_len(Seq::<u8>::empty()) is None);
        assert(spec_children(cs.flatten()) =~= cs);
    } else {
        let c = cs[0];
        let rest = cs.drop_first();
        assert(forall|i: int| 0 <= i < rest.len() ==> rest[i] == cs[i + 1]);
        lemma_children_of_flatten(rest);
        assert(cs.flatten() == c + rest.flatten());
        lemma_child_len_prefix(c, rest.flatten());
        assert(spec_children(cs.flatten()) =~= cs);
    }
}

/// A serialized box is one whole box with an explicit size.
pub proof fn lemma_box_bytes_whole(t: BoxCode, payload: Seq<u8>)
    requires
        box_fits(payload.len() as int),
    ensures
        whole_box(box_bytes(t, payload)),
        explicit_size(box_bytes(t, payload)),
{
    lemma_box_roundtrip(t, payload);
    assert(spec_check_box(box_bytes(t, payload), t, 0) is Ok);
}

/// A serialized full box is one whole box with an explicit size.
pub proof fn lemma_fullbox_bytes_whole(t: BoxCode, version: u8, flags: u32, payload: Seq<u8>)
    requires
        box_fits(payload.len() + 4 as int),
    ensures
        whole_box(fullbox_bytes(t, version, flags, payload)),
        explicit_size(fullbox_bytes(t, version, flags, payload)),
{
    lemma_box_bytes_whole(t, version_flags_bytes(version, flags) + payload);
}

/// A child box inside a container: a view over its bytes.
#[derive(Clone, Copy, Debug)]
pub struct RawBox<'a> {
    data: &'a [u8],
    header: BoxHeader,
}

impl<'a> RawBox<'a> {
    #[verifier::type_invariant]
    closed spec fn inv(&self) -> bool {
        &&& spec_parse_box_header(self.data@, self.data@.len() as int) == Ok::<BoxHeader, crate::error::ParseError>(self.header)
        &&& self.header.size == self.data@.len()
    }

    /// The bytes of the child box, header included.
    pub closed spec fn spec_data(&self) -> Seq<u8> {
        self.data@
    }

    /// Returns the box type.
    pub fn box_type(&self) -> (r: BoxCode)
        ensures
            r == box_type_of(self.spec_data()),
    {
        proof { use_type_invariant(self); }
        self.header.box_type
    }

    /// Returns the total size of the box in bytes.
    pub fn box_size(&self) -> (r: u64)
        ensures
            r == self.spec_data().len(),
    {
        proof { use_type_invariant(self); }
        self.header.size
    }

    /// Returns the whole box as bytes, header included.
    pub fn data(&self) -> (r: &'a [u8])
        ensures
            r@ == self.spec_data(),
            whole_box(r@),
    {
        proof { use_type_invariant(self); }
        self.data
    }

    /// Returns the parsed header.
    pub fn header(&self) -> (r: BoxHeader)
        ensures
            spec_parse_box_header(self.spec_data(), self.spec_data().len() as int) == Ok::<BoxHeader, crate::error::ParseError>(r),
    {
        proof { use_type_invariant(self); }
        self.header
    }

    /// Returns the payload: the bytes after the header.
    pub fn payload(&self) -> (r: &'a [u8])
        ensures
            r@ == payload_of(self.spec_data()),
    {
        proof { use_type_invariant(self); }
        let hs = self.header.header_size as usize;
        &self.data[hs..self.data.len()]
    }
}

/// Reads the child boxes of a payload one after another.
#[derive(Clone, Copy, Debug)]
pub struct BoxIterator<'a> {
    data: &'a [u8],
    pos: usize,
}

impl<'a> BoxIterator<'a> {
    #[verifier::type_invariant]
    closed spec fn inv(&self) -> bool {
        self.pos <= self.data@.len()
    }

    /// The child boxes not yet read.
    pub closed spec fn remaining(&self) -> Seq<Seq<u8>> {
        spec_children(self.data@.subrange(self.pos as int, self.data@.len() as int))
    }

    /// Creates an iterator over the child boxes of `data`.
    pub fn new(data: &'a [u8]) -> (r: Self)
        ensures
            r.remaining() == spec_children(data@),
    {
        let r = Self { data, pos: 0 };
        assert(data@.subrange(0, data@.len() as int) =~= data@);
        r
    }

    /// Reads the next child box, if a whole one starts at the current position.
    pub fn next_box(&mut self) -> (r: Option<RawBox<'a>>)
        ensures
            match r {
                Some(b) => old(self).remaining().len() > 0
                    && b.spec_data() == old(self).remaining()[0]
                    && final(self).remaining() == old(self).remaining().drop_first(),
                None => old(self).remaining().len() == 0 && final(self).remaining().len() == 0,
            },
    {
        proof { use_type_invariant(&*self); }
        let ghost s = self.data@.subrange(self.pos as int, self.data@.len() as int);
        let rest = &self.data[self.pos..self.data.len()];
        assert(rest@ == s);
        let avail = rest.len();
        let header = match BoxHeader::parse(rest, avail) {
            Ok(h) => h,
            Err(_) => {
                return None;
            },
        };
        if header.size < 8 || header.size > avail as u64 {
            return None;
        }
        let n = header.size as usize;
        let child = &rest[0..n];
        proof {
            lemma_parse_prefix(s, n as int);
            assert(child_len(s) == Some(n as int));
            assert(spec_children(s) == seq![s.subrange(0, n as int)] + spec_children(s.subrange(n as int, s.len() as int)));
            assert(self.data@.subrange((self.pos + n) as int, self.data@.len() as int) =~= s.subrange(n as int, s.len() as int));
        }
        self.pos = self.pos + n;
        Some(RawBox { data: child, header })
    }

    /// Counts the child boxes not yet read.
    pub fn count(self) -> (r: usize)
        ensures
            r == self.remaining().len(),
    {
        let total = self.data.len();
        proof {
            use_type_invariant(&self);
            lemma_children_len(self.data@.subrange(self.pos as int, self.data@.len() as int));
            assert(total == self.data@.len());
        }
        let mut it = self;
        let mut n: usize = 0;
        let ghost all = self.remaining();
        loop
            invariant
                n <= all.len(),
                all.len() <= usize::MAX,
                all == self.remaining(),
                it.remaining() == all.subrange(n as int, all.len() as int),
            ensures
                n == all.len(),
            decreases all.len() - n,
        {
            match it.next_box() {
                Some(_) => {
                    assert(all.subrange(n + 1, all.len() as int) =~= all.subrange(n as int, all.len() as int).drop_first());
                    n = n + 1;
                },
                None => {
                    return n;
                },
            }
        }
        n
    }

    /// Reads all child boxes not yet read.
    pub fn collect_boxes(self) -> (r: Vec<RawBox<'a>>)
        ensures
            r@.len() == self.remaining().len(),
            forall|i: int| 0 <= i < r@.len() ==> (#[trigger] r@[i]).spec_data() == self.remaining()[i],
    {
        let mut it = self;
        let mut v: Vec<RawBox<'a>> = Vec::new();
        let ghost all = self.remaining();
        loop
            invariant
                v@.len() <= all.len(),
                all == self.remaining(),
                it.remaining() == all.subrange(v@.len() as int, all.len() as int),
                forall|i: int| 0 <= i < v@.len() ==> (#[trigger] v@[i]).spec_data() == all[i],
            ensures
                v@.len() == all.len(),
                forall|i: int| 0 <= i < v@.len() ==> (#[trigger] v@[i]).spec_data() == all[i],
            decreases all.len() - v@.len(),
        {
            match it.next_box() {
                Some(b) => {
                    let ghost k = v@.len() as int;
                    assert(all.subrange(k + 1, all.len() as int) =~= all.subrange(k, all.len() as int).drop_first());
                    v.push(b);
                },
                None => {
                    return v;
                },
            }
        }
        v
    }

    /// Reads child boxes until one of type `t`, and returns it.
    pub fn find_type(self, t: BoxCode) -> (r: Option<RawBox<'a>>)
        ensures
            match r {
                Some(b) => first_of_type(self.remaining(), t) == Some(b.spec_data()),
                None => first_of_type(self.remaining(), t) is None,
            },
    {
        let mut it = self;
        loop
            invariant
                first_of_type(it.remaining(), t) == first_of_type(self.remaining(), t),
            decreases it.remaining().len(),
        {
            let ghost before = it.remaining();
            match it.next_box() {
                Some(b) => {
                    if b.box_type() == t {
                        return Some(b);
                    }
                },
                None => {
                    return None;
                },
            }
        }
    }
}

impl<'a> BoxIterator<'a> {
    /// Reads all child boxes not yet read, and keeps those of type `t`.
    pub fn filter_type(self, t: BoxCode) -> (r: Vec<RawBox<'a>>)
        ensures
            r@.len() == self.remaining().filter(|c: Seq<u8>| box_type_of(c) == t).len(),
            forall|i: int| 0 <= i < r@.len() ==> (#[trigger] r@[i]).spec_data()
                == self.remaining().filter(|c: Seq<u8>| box_type_of(c) == t)[i],
    {
        let all = self.collect_boxes();
        let ghost rem = self.remaining();
        let ghost pred = |c: Seq<u8>| box_type_of(c) == t;
        let mut r: Vec<RawBox<'a>> = Vec::new();
        let mut i: usize = 0;
        while i < all.len()
            invariant
                i <= all@.len(),
                all@.len() == rem.len(),
                forall|j: int| 0 <= j < all@.len() ==> (#[trigger] all@[j]).spec_data() == rem[j],
                pred == (|c: Seq<u8>| box_type_of(c) == t),
                r@.len() == rem.take(i as int).filter(pred).len(),
                forall|j: int| 0 <= j < r@.len() ==> (#[trigger] r@[j]).spec_data() == rem.take(i as int).filter(pred)[j],
            decreases all@.len() - i,
        {
            proof {
                assert(rem.take(i + 1) =~= rem.take(i as int).push(rem[i as int]));
                rem.take(i as int).lemma_filter_push(rem[i as int], pred);
            }
            if all[i].box_type() == t {
                r.push(all[i]);
            }
            i = i + 1;
        }
        assert(rem.take(i as int) =~= rem);
        r
    }
}

/// The payload `s` holds no more child boxes than a child box per eight bytes.
pub proof fn lemma_children_len(s: Seq<u8>)
    ensures
        spec_children(s).len() * 8 <= s.len(),
    decreases s.len(),
{
    match child_len(s) {
        Some(n) => {
            let h = spec_parse_box_header(s, s.len() as int)->Ok_0;
            lemma_children_len(s.subrange(n, s.len() as int));
        },
        None => {},
    }
}

/// A child box held as its raw bytes, for child types that are not parsed.
#[derive(Debug, PartialEq, Eq)]
pub struct OpaqueBoxOwned {
    data: Vec<u8>,
}

impl OpaqueBoxOwned {
    #[verifier::type_invariant]
    closed spec fn inv(&self) -> bool {
        whole_box(self.data@)
    }

    /// The bytes of the box, header included.
    pub closed spec fn spec_data(&self) -> Seq<u8> {
        self.data@
    }

    /// Creates an owned copy of the whole box `bytes`.
    pub fn from_bytes(bytes: &[u8]) -> (r: Self)
        requires
            whole_box(bytes@),
        ensures
            r.spec_data() == bytes@,
    {
        let mut data: Vec<u8> = Vec::new();
        write_all(&mut data, bytes);
        assert(data@ =~= bytes@);
        Self { data }
    }

    /// Creates an owned copy of the child box `raw`.
    pub fn from_raw_box(raw: &RawBox<'_>) -> (r: Self)
        ensures
            r.spec_data() == raw.spec_data(),
    {
        let bytes = raw.data();
        let mut data: Vec<u8> = Vec::new();
        write_all(&mut data, bytes);
        assert(data@ =~= raw.spec_data());
        Self { data }
    }

    /// Returns the box type.
    pub fn box_type(&self) -> (r: BoxCode)
        ensures
            r == box_type_of(self.spec_data()),
    {
        proof { use_type_invariant(self); }
        crate::bytes::read_u32(self.data.as_slice(), 4)
    }

    /// Returns the total size of the box in bytes.
    pub fn box_size(&self) -> (r: u64)
        ensures
            r == self.spec_data().len(),
            whole_box(self.spec_data()),
    {
        proof { use_type_invariant(self); }
        self.data.len() as u64
    }

    /// Returns the bytes of the box, header included.
    pub fn as_bytes(&self) -> (r: &[u8])
        ensures
            r@ == self.spec_data(),
    {
        self.data.as_slice()
    }

    /// Writes the box's bytes unchanged to the given vector.
    pub fn write_to(&self, out: &mut Vec<u8>)
        ensures
            final(out)@ == old(out)@ + self.spec_data(),
    {
        write_all(out, self.data.as_slice());
    }
}

impl Clone for OpaqueBoxOwned {
    fn clone(&self) -> (r: Self)
        ensures
            r.spec_data() == self.spec_data(),
    {
        proof { use_type_invariant(self); }
        let mut data: Vec<u8> = Vec::new();
        write_all(&mut data, self.data.as_slice());
        assert(data@ =~= self.data@);
        Self { data }
    }
}

} // verus!

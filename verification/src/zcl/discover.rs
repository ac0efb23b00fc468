//! Discover Attributes (0x0C/0x0D), Discover Commands Received/Generated
//! (0x11/0x12/0x13/0x14) and Discover Attributes Extended (0x15/0x16).

use vstd::prelude::*;
use crate::types::{AttributeId, le_u16, u16_le_bytes, spec_le_u16, spec_lo, spec_hi};
use crate::hvec::{
    attr16_items, attr16_new, attr16_push, attr16_as_slice, ext_attr16_items, ext_attr16_new,
    ext_attr16_push, ext_attr16_as_slice, u8x32_items, u8x32_new, u8x32_push, u8x32_as_slice,
};

verus! {

/// ZCL data type identifier (the one-byte type code of an attribute).
#[derive(Debug, Clone, Copy, PartialEq, Eq, Structural)]
pub struct ZclDataType(pub u8);

/// What an attribute store knows of one attribute: its data type and
/// whether it is readable, writable and reportable.
#[derive(Debug, Clone, Copy, PartialEq, Eq, Structural)]
pub struct AttributeDescriptor {
    pub data_type: ZclDataType,
    pub readable: bool,
    pub writable: bool,
    pub reportable: bool,
}

/// Maximum attributes returned in a single discover response.
pub const MAX_DISCOVER: usize = 16;

/// Discover Attributes request.
#[derive(Debug, Clone)]
pub struct DiscoverAttributesRequest {
    /// Start attribute identifier.
    pub start_id: AttributeId,
    /// Maximum number of attribute IDs to return.
    pub max_results: u8,
}

/// A single entry in the Discover Attributes Response.
#[derive(Debug, Clone, Copy)]
pub struct DiscoverAttributeInfo {
    pub id: AttributeId,
    pub data_type: ZclDataType,
}

/// Discover Attributes Response.
#[derive(Debug)]
pub struct DiscoverAttributesResponse {
    /// `true` when the entire attribute list has been returned.
    pub complete: bool,
    pub attributes: heapless::Vec<DiscoverAttributeInfo, 16>,
}

impl DiscoverAttributesRequest {
    /// Parse from ZCL payload (2 bytes start_id + 1 byte max).
    pub fn parse(data: &[u8]) -> (r: Option<Self>)
        ensures
            r is Some <==> data@.len() >= 3,
            r matches Some(q) ==> q.start_id.0 == spec_le_u16(data@[0], data@[1]) && q.max_results
                == data@[2],
    {
        if data.len() < 3 {
            return None;
        }
        Some(Self { start_id: AttributeId(le_u16(data[0], data[1])), max_results: data[2] })
    }

    /// The three payload bytes of the request.
    pub open spec fn spec_bytes(&self) -> Seq<u8> {
        seq![spec_lo(self.start_id.0), spec_hi(self.start_id.0), self.max_results]
    }

    /// Serialize into `buf`; returns 3, or 0 (writing nothing) when `buf`
    /// is shorter than 3 bytes.
    pub fn serialize(&self, buf: &mut [u8]) -> (n: usize)
        ensures
            final(buf)@.len() == old(buf)@.len(),
            old(buf)@.len() < 3 ==> n == 0 && final(buf)@ == old(buf)@,
            old(buf)@.len() >= 3 ==> n == 3 && final(buf)@ == self.spec_bytes() + old(buf)@.subrange(
                3,
                old(buf)@.len() as int,
            ),
    {
        if buf.len() < 3 {
            return 0;
        }
        let (lo, hi) = u16_le_bytes(self.start_id.0);
        buf[0] = lo;
        buf[1] = hi;
        buf[2] = self.max_results;
        assert(buf@ =~= self.spec_bytes() + old(buf)@.subrange(3, old(buf)@.len() as int));
        3
    }
}

/// Bytes of discover-attributes entries: id (LE) and type code, 3 per entry.
pub open spec fn attr_entries_bytes(s: Seq<DiscoverAttributeInfo>) -> Seq<u8>
    decreases s.len(),
{
    if s.len() == 0 {
        Seq::<u8>::empty()
    } else {
        let e = s.last();
        attr_entries_bytes(s.drop_last()) + seq![spec_lo(e.id.0), spec_hi(e.id.0), e.data_type.0]
    }
}

proof fn lemma_attr_entries_bytes_len(s: Seq<DiscoverAttributeInfo>)
    ensures
        attr_entries_bytes(s).len() == 3 * s.len(),
    decreases s.len(),
{
    if s.len() > 0 {
        lemma_attr_entries_bytes_len(s.drop_last());
    }
}

/// The complete flag as a byte.
pub open spec fn flag_byte(b: bool) -> u8 {
    if b { 1 } else { 0 }
}

impl DiscoverAttributesResponse {
    /// Number of entries that fit in a buffer of `len` bytes after the flag.
    pub open spec fn entries_fitting(&self, len: int) -> int {
        let k = attr16_items(self.attributes).len() as int;
        if k <= (len - 1) / 3 { k } else { (len - 1) / 3 }
    }

    /// Serialize the response: the complete flag, then as many entries
    /// (id + type, 3 bytes each) as fit; returns bytes written (0 for an
    /// empty buffer).
    pub fn serialize(&self, buf: &mut [u8]) -> (n: usize)
        ensures
            final(buf)@.len() == old(buf)@.len(),
            old(buf)@.len() == 0 ==> n == 0,
            old(buf)@.len() > 0 ==> ({
                let m = self.entries_fitting(old(buf)@.len() as int);
                &&& n == 1 + 3 * m
                &&& final(buf)@.subrange(0, n as int) == seq![flag_byte(self.complete)]
                    + attr_entries_bytes(attr16_items(self.attributes).take(m))
                &&& final(buf)@.subrange(n as int, old(buf)@.len() as int) == old(
                    buf,
                )@.subrange(n as int, old(buf)@.len() as int)
            }),
    {
        if buf.len() == 0 {
            return 0;
        }
        let ghost orig = buf@;
        let attrs = attr16_as_slice(&self.attributes);
        buf[0] = if self.complete { 1 } else { 0 };
        let mut pos: usize = 1;
        let mut i: usize = 0;
        let len = buf.len();
        while i < attrs.len()
            invariant_except_break
                i <= attrs@.len(),
                pos == 1 + 3 * i,
                len == buf@.len(),
                buf@.len() == orig.len(),
                pos <= len,
                attrs@ == attr16_items(self.attributes),
                buf@.subrange(0, pos as int) == seq![flag_byte(self.complete)] + attr_entries_bytes(
                    attrs@.take(i as int),
                ),
                buf@.subrange(pos as int, len as int) == orig.subrange(pos as int, len as int),
            ensures
                pos == 1 + 3 * self.entries_fitting(len as int),
                buf@.len() == orig.len(),
                buf@.subrange(0, pos as int) == seq![flag_byte(self.complete)] + attr_entries_bytes(
                    attr16_items(self.attributes).take(self.entries_fitting(len as int)),
                ),
                buf@.subrange(pos as int, len as int) == orig.subrange(pos as int, len as int),
            decreases attrs@.len() - i,
        {
            // Need 2 (id) + 1 (type) = 3 bytes
            if len - pos < 3 {
                break;
            }
            let info = attrs[i];
            let (lo, hi) = u16_le_bytes(info.id.0);
            let ghost before = buf@;
            buf[pos] = lo;
            buf[pos + 1] = hi;
            buf[pos + 2] = info.data_type.0;
            proof {
                assert(attrs@.take(i + 1).drop_last() =~= attrs@.take(i as int));
                assert(buf@.subrange(0, pos + 3) =~= before.subrange(0, pos as int) + seq![lo, hi, info.data_type.0]);
                assert(buf@.subrange(pos + 3, len as int) =~= orig.subrange(pos + 3, len as int)) by {
                    assert forall|k: int| pos + 3 <= k < len implies buf@[k] == orig[k] by {
                        assert(before.subrange(pos as int, len as int)[k - pos] == before[k]);
                    }
                }
            }
            pos += 3;
            i += 1;
        }
        pos
    }
}

/// Progress of the discover-attributes scan over a prefix of the
/// attribute list: entries collected, entries counted toward
/// `max_results`, and whether the scan stopped early (once `max_results`
/// were counted, or once 16 were collected and another found attribute came).
pub open spec fn discover_scan(
    attributes: Seq<(AttributeId, Option<AttributeDescriptor>)>,
    start: u16,
    max: nat,
    k: nat,
) -> (Seq<DiscoverAttributeInfo>, nat, bool)
    decreases k,
{
    if k == 0 {
        (Seq::empty(), 0, false)
    } else {
        let (infos, count, stopped) = discover_scan(attributes, start, max, (k - 1) as nat);
        let (id, def) = attributes[k - 1];
        if stopped || id.0 < start {
            (infos, count, stopped)
        } else if count >= max {
            (infos, count, true)
        } else {
            match def {
                Some(d) => if infos.len() < MAX_DISCOVER {
                    (infos.push(DiscoverAttributeInfo { id, data_type: d.data_type }), count + 1, false)
                } else {
                    (infos, count, true)
                },
                None => (infos, count, false),
            }
        }
    }
}

/// Answer a Discover Attributes request.
///
/// `attributes` lists every attribute identifier of the store, in the
/// store's order, each with what the store finds for it. Starting at the
/// first identifier not below `start_id`, up to `max_results` found
/// attributes are reported, at most 16. The response is complete when
/// every found attribute not below `start_id` was reported: it is not when
/// another identifier not below `start_id` follows `max_results` of them,
/// or another found attribute follows 16 of them.
pub fn process_discover_dyn(
    attributes: &[(AttributeId, Option<AttributeDescriptor>)],
    request: &DiscoverAttributesRequest,
) -> (r: DiscoverAttributesResponse)
    ensures
        ({
            let (infos, _, stopped) = discover_scan(
                attributes@,
                request.start_id.0,
                request.max_results as nat,
                attributes@.len(),
            );
            attr16_items(r.attributes) == infos && r.complete == !stopped
        }),
        ({
            let f = found_from(attributes@, request.start_id.0);
            let m: int = if request.max_results < 16 { request.max_results as int } else { 16 };
            &&& attr16_items(r.attributes) == f.take(if f.len() < m { f.len() as int } else { m })
            &&& r.complete ==> attr16_items(r.attributes) == f
            &&& !r.complete <==> exists|t: int|
                #[trigger] stops_at(listed_from(attributes@, request.start_id.0), request.start_id.0, request.max_results as nat, t)
        }),
{
    proof {
        law_discover_attributes(attributes@, request.start_id.0, request.max_results as nat);
    }
    let mut out = attr16_new();
    let max = request.max_results as usize;
    let mut count: usize = 0;
    let mut complete = true;
    let n = attributes.len();
    let mut i: usize = 0;
    while i < n
        invariant_except_break
            i <= n,
            n == attributes@.len(),
            max == request.max_results,
            complete,
            discover_scan(attributes@, request.start_id.0, max as nat, i as nat) == (
                attr16_items(out),
                count as nat,
                false,
            ),
            count <= max,
        ensures
            discover_scan(attributes@, request.start_id.0, max as nat, n as nat) == (
                attr16_items(out),
                count as nat,
                !complete,
            ),
        decreases n - i,
    {
        let (id, def) = attributes[i];
        if id.0 >= request.start_id.0 {
            if count >= max {
                complete = false;
                proof {
                    lemma_discover_scan_stopped_stays(attributes@, request.start_id.0, max as nat, (i + 1) as nat, n as nat);
                }
                break;
            }
            if let Some(d) = def {
                if attr16_push(&mut out, DiscoverAttributeInfo { id, data_type: d.data_type }).is_err() {
                    complete = false;
                    proof {
                        lemma_discover_scan_stopped_stays(attributes@, request.start_id.0, max as nat, (i + 1) as nat, n as nat);
                    }
                    break;
                }
                count += 1;
            }
        }
        i += 1;
    }
    DiscoverAttributesResponse { complete, attributes: out }
}

/// The entries of `attributes` whose identifier is not below `start`, in order.
pub open spec fn listed_from(
    attributes: Seq<(AttributeId, Option<AttributeDescriptor>)>,
    start: u16,
) -> Seq<(AttributeId, Option<AttributeDescriptor>)> {
    attributes.filter(|e: (AttributeId, Option<AttributeDescriptor>)| e.0.0 >= start)
}

/// The attributes of `attributes` that the store finds, with their data
/// types, whose identifier is not below `start`, in order.
pub open spec fn found_from(
    attributes: Seq<(AttributeId, Option<AttributeDescriptor>)>,
    start: u16,
) -> Seq<DiscoverAttributeInfo> {
    attributes.filter_map(
        |e: (AttributeId, Option<AttributeDescriptor>)|
            if e.0.0 >= start {
                match e.1 {
                    Some(d) => Some(DiscoverAttributeInfo { id: e.0, data_type: d.data_type }),
                    None => None,
                }
            } else {
                None
            },
    )
}

proof fn lemma_listed_step(a: Seq<(AttributeId, Option<AttributeDescriptor>)>, start: u16)
    requires
        a.len() > 0,
    ensures
        listed_from(a, start) == if a.last().0.0 >= start {
            listed_from(a.drop_last(), start).push(a.last())
        } else {
            listed_from(a.drop_last(), start)
        },
{
    reveal(Seq::filter);
}

proof fn lemma_found_step(a: Seq<(AttributeId, Option<AttributeDescriptor>)>, start: u16)
    requires
        a.len() > 0,
    ensures
        found_from(a, start) == if a.last().0.0 >= start && a.last().1 is Some {
            found_from(a.drop_last(), start).push(
                DiscoverAttributeInfo { id: a.last().0, data_type: a.last().1.unwrap().data_type },
            )
        } else {
            found_from(a.drop_last(), start)
        },
{
    let f = found_from(a.drop_last(), start);
    if a.last().0.0 >= start && a.last().1 is Some {
        let x = DiscoverAttributeInfo { id: a.last().0, data_type: a.last().1.unwrap().data_type };
        assert(f + seq![x] =~= f.push(x));
    }
}

/// The found attributes are those of the listed entries.
proof fn lemma_found_listed(a: Seq<(AttributeId, Option<AttributeDescriptor>)>, start: u16)
    ensures
        found_from(listed_from(a, start), start) == found_from(a, start),
    decreases a.len(),
{
    if a.len() == 0 {
        assert(listed_from(a, start) =~= a) by {
            reveal(Seq::filter);
        }
    } else {
        lemma_found_listed(a.drop_last(), start);
        lemma_listed_step(a, start);
        lemma_found_step(a, start);
        let l = listed_from(a, start);
        if a.last().0.0 >= start {
            assert(l.drop_last() =~= listed_from(a.drop_last(), start));
            lemma_found_step(l, start);
        }
    }
}

/// Whether the scan stops at entry `t` of the listed entries `q`: `max`
/// attributes were found before it, or it is found and 16 were.
pub open spec fn stops_at(
    q: Seq<(AttributeId, Option<AttributeDescriptor>)>,
    start: u16,
    max: nat,
    t: int,
) -> bool {
    0 <= t < q.len() && (found_from(q.take(t), start).len() >= max || (q[t].1 is Some && found_from(
        q.take(t),
        start,
    ).len() >= 16))
}

/// One more entry of the list, as the listed and found sequences see it.
proof fn lemma_scan_entry(attributes: Seq<(AttributeId, Option<AttributeDescriptor>)>, start: u16, k: nat)
    requires
        0 < k <= attributes.len(),
    ensures
        ({
            let q0 = listed_from(attributes.take(k - 1), start);
            let q1 = listed_from(attributes.take(k as int), start);
            let f0 = found_from(attributes.take(k - 1), start);
            let f1 = found_from(attributes.take(k as int), start);
            let (id, def) = attributes[k - 1];
            &&& found_from(q0, start) == f0
            &&& id.0 >= start ==> q1 == q0.push((id, def))
            &&& id.0 < start ==> q1 == q0 && f1 == f0
            &&& (id.0 >= start && def is Some) ==> f1 == f0.push(DiscoverAttributeInfo { id, data_type: def.unwrap().data_type })
            &&& !(id.0 >= start && def is Some) ==> f1 == f0
        }),
{
    let a0 = attributes.take(k - 1);
    let a1 = attributes.take(k as int);
    assert(a1.drop_last() =~= a0);
    assert(a1.last() == attributes[k - 1]);
    lemma_listed_step(a1, start);
    lemma_found_step(a1, start);
    lemma_found_listed(a0, start);
}

/// The scan over the first `k` entries keeps the first attributes found.
proof fn lemma_discover_scan_found(
    attributes: Seq<(AttributeId, Option<AttributeDescriptor>)>,
    start: u16,
    max: nat,
    k: nat,
)
    requires
        k <= attributes.len(),
    ensures
        ({
            let (infos, count, stopped) = discover_scan(attributes, start, max, k);
            let f = found_from(attributes.take(k as int), start);
            let m: int = if max < 16 { max as int } else { 16 };
            &&& count == infos.len()
            &&& infos == f.take(if f.len() < m { f.len() as int } else { m })
            &&& !stopped ==> infos == f && f.len() <= m
            &&& stopped ==> infos.len() == m && f.len() >= m
        }),
    decreases k,
{
    let m: int = if max < 16 { max as int } else { 16 };
    if k == 0 {
        assert(attributes.take(0) =~= Seq::<(AttributeId, Option<AttributeDescriptor>)>::empty());
        assert(found_from(attributes.take(0), start) =~= Seq::<DiscoverAttributeInfo>::empty());
    } else {
        lemma_discover_scan_found(attributes, start, max, (k - 1) as nat);
        lemma_scan_entry(attributes, start, k);
        let f0 = found_from(attributes.take(k - 1), start);
        let f1 = found_from(attributes.take(k as int), start);
        let (infos0, count0, stopped0) = discover_scan(attributes, start, max, (k - 1) as nat);
        let (id, def) = attributes[k - 1];
        if id.0 >= start {
            if stopped0 {
                assert(f1.take(m) =~= f0.take(m));
            } else {
                assert(f0.take(f0.len() as int) =~= f0);
                if count0 >= max {
                    assert(f1.take(m) =~= f0);
                } else if def is Some {
                    if infos0.len() < MAX_DISCOVER {
                        assert(f1.take(f1.len() as int) =~= f1);
                    } else {
                        assert(f1.take(16) =~= f0);
                    }
                }
            }
        }
    }
}

/// The scan over the first `k` entries stops exactly when some listed
/// entry is a stopping point.
#[verifier::rlimit(30)]
proof fn lemma_discover_scan_stops(
    attributes: Seq<(AttributeId, Option<AttributeDescriptor>)>,
    start: u16,
    max: nat,
    k: nat,
)
    requires
        k <= attributes.len(),
    ensures
        discover_scan(attributes, start, max, k).2 <==> exists|t: int|
            #[trigger] stops_at(listed_from(attributes.take(k as int), start), start, max, t),
    decreases k,
{
    if k == 0 {
        assert(attributes.take(0) =~= Seq::<(AttributeId, Option<AttributeDescriptor>)>::empty());
        assert(listed_from(attributes.take(0), start).len() == 0) by {
            reveal(Seq::filter);
        }
    } else {
        lemma_discover_scan_stops(attributes, start, max, (k - 1) as nat);
        lemma_discover_scan_found(attributes, start, max, (k - 1) as nat);
        lemma_scan_entry(attributes, start, k);
        let q0 = listed_from(attributes.take(k - 1), start);
        let q1 = listed_from(attributes.take(k as int), start);
        let (infos0, count0, stopped0) = discover_scan(attributes, start, max, (k - 1) as nat);
        let (id, def) = attributes[k - 1];
        if id.0 >= start {
            assert forall|t: int| 0 <= t < q0.len() implies stops_at(q1, start, max, t) == stops_at(q0, start, max, t) by {
                assert(q1.take(t) =~= q0.take(t));
                assert(q1[t] == q0[t]);
            }
            assert(q1.take(q0.len() as int) =~= q0);
            assert(q1[q0.len() as int] == (id, def));
            if stopped0 {
                let t = choose|t: int| #[trigger] stops_at(q0, start, max, t);
                assert(stops_at(q1, start, max, t));
            } else {
                let tn = q0.len() as int;
                if discover_scan(attributes, start, max, k).2 {
                    assert(stops_at(q1, start, max, tn));
                } else {
                    assert forall|t: int| !(#[trigger] stops_at(q1, start, max, t)) by {
                        if 0 <= t < q0.len() {
                            assert(!stops_at(q0, start, max, t));
                        }
                    }
                }
            }
        }
    }
}

/// Discover Attributes answers with the first attributes found whose
/// identifier is not below the start, in order, as many as `max` allows
/// and at most 16. The response is incomplete exactly when the list goes
/// on with an identifier not below the start after `max` attributes were
/// found, or with a 17th found attribute; when it is complete, it holds
/// every attribute found.
pub proof fn law_discover_attributes(
    attributes: Seq<(AttributeId, Option<AttributeDescriptor>)>,
    start: u16,
    max: nat,
)
    ensures
        ({
            let (infos, _, stopped) = discover_scan(attributes, start, max, attributes.len());
            let q = listed_from(attributes, start);
            let f = found_from(attributes, start);
            let m: int = if max < 16 { max as int } else { 16 };
            &&& infos == f.take(if f.len() < m { f.len() as int } else { m })
            &&& !stopped ==> infos == f
            &&& stopped <==> exists|t: int| #[trigger] stops_at(q, start, max, t)
        }),
{
    lemma_discover_scan_found(attributes, start, max, attributes.len());
    lemma_discover_scan_stops(attributes, start, max, attributes.len());
    assert(attributes.take(attributes.len() as int) =~= attributes);
}

/// Once the scan has stopped, later entries change nothing.
proof fn lemma_discover_scan_stopped_stays(
    attributes: Seq<(AttributeId, Option<AttributeDescriptor>)>,
    start: u16,
    max: nat,
    k: nat,
    n: nat,
)
    requires
        k <= n,
        discover_scan(attributes, start, max, k).2,
    ensures
        discover_scan(attributes, start, max, n) == discover_scan(attributes, start, max, k),
    decreases n - k,
{
    if k < n {
        lemma_discover_scan_stopped_stays(attributes, start, max, k, (n - 1) as nat);
    }
}

// ── Discover Commands Received (0x11/0x12) & Generated (0x13/0x14) ──

/// Maximum command IDs returned in a single discover-commands response.
pub const MAX_DISCOVER_COMMANDS: usize = 32;

/// Discover Commands Received/Generated request (0x11 / 0x13).
#[derive(Debug, Clone)]
pub struct DiscoverCommandsRequest {
    /// First command identifier to return.
    pub start_command_id: u8,
    /// Maximum number of command IDs to return.
    pub max_results: u8,
}

/// Discover Commands Received/Generated response (0x12 / 0x14).
#[derive(Debug)]
pub struct DiscoverCommandsResponse {
    /// `true` when the entire command list has been returned.
    pub complete: bool,
    /// The matching command identifiers.
    pub command_ids: heapless::Vec<u8, 32>,
}

impl DiscoverCommandsRequest {
    /// Parse from ZCL payload (1 byte start_id + 1 byte max).
    pub fn parse(data: &[u8]) -> (r: Option<Self>)
        ensures
            r is Some <==> data@.len() >= 2,
            r matches Some(q) ==> q.start_command_id == data@[0] && q.max_results == data@[1],
    {
        if data.len() < 2 {
            return None;
        }
        Some(Self { start_command_id: data[0], max_results: data[1] })
    }

    /// Serialize into `buf`; returns 2, or 0 (writing nothing) when `buf`
    /// is shorter than 2 bytes.
    pub fn serialize(&self, buf: &mut [u8]) -> (n: usize)
        ensures
            final(buf)@.len() == old(buf)@.len(),
            old(buf)@.len() < 2 ==> n == 0 && final(buf)@ == old(buf)@,
            old(buf)@.len() >= 2 ==> n == 2 && final(buf)@ == seq![
                self.start_command_id,
                self.max_results,
            ] + old(buf)@.subrange(2, old(buf)@.len() as int),
    {
        if buf.len() < 2 {
            return 0;
        }
        buf[0] = self.start_command_id;
        buf[1] = self.max_results;
        assert(buf@ =~= seq![self.start_command_id, self.max_results] + old(buf)@.subrange(
            2,
            old(buf)@.len() as int,
        ));
        2
    }
}

impl DiscoverCommandsResponse {
    /// Serialize the response: 1 byte complete flag, then as many command
    /// identifiers as fit; returns bytes written (0 for an empty buffer).
    pub fn serialize(&self, buf: &mut [u8]) -> (n: usize)
        ensures
            final(buf)@.len() == old(buf)@.len(),
            old(buf)@.len() == 0 ==> n == 0,
            old(buf)@.len() > 0 ==> ({
                let ids = u8x32_items(self.command_ids);
                let m = if ids.len() <= old(buf)@.len() - 1 { ids.len() as int } else { old(buf)@.len() - 1 };
                &&& n == 1 + m
                &&& final(buf)@ == seq![flag_byte(self.complete)] + ids.take(m) + old(buf)@.subrange(n as int, old(buf)@.len() as int)
            }),
    {
        if buf.len() == 0 {
            return 0;
        }
        let ghost orig = buf@;
        let ids = u8x32_as_slice(&self.command_ids);
        buf[0] = if self.complete { 1 } else { 0 };
        let mut pos: usize = 1;
        let len = buf.len();
        while pos - 1 < ids.len()
            invariant_except_break
                1 <= pos <= len,
                pos - 1 <= ids@.len(),
                len == buf@.len(),
                buf@.len() == orig.len(),
                ids@ == u8x32_items(self.command_ids),
                buf@ == seq![flag_byte(self.complete)] + ids@.take(pos - 1) + orig.subrange(pos as int, len as int),
            ensures
                buf@.len() == orig.len(),
                pos - 1 == (if ids@.len() <= len - 1 { ids@.len() as int } else { len - 1 }),
                buf@ == seq![flag_byte(self.complete)] + ids@.take(pos - 1) + orig.subrange(pos as int, len as int),
            decreases ids@.len() - (pos - 1),
        {
            if pos >= len {
                break;
            }
            let ghost before = buf@;
            buf[pos] = ids[pos - 1];
            assert(buf@ =~= seq![flag_byte(self.complete)] + ids@.take(pos as int) + orig.subrange(pos + 1, len as int));
            pos += 1;
        }
        pos
    }
}

/// Progress of the discover-commands scan over a prefix of the command list:
/// identifiers collected and whether the scan stopped early (once
/// `max_results` were collected, or once 32 were and another came).
pub open spec fn commands_scan(all: Seq<u8>, start: u8, max: nat, k: nat) -> (Seq<u8>, bool)
    decreases k,
{
    if k == 0 {
        (Seq::empty(), false)
    } else {
        let (ids, stopped) = commands_scan(all, start, max, (k - 1) as nat);
        let id = all[k - 1];
        if stopped || id < start {
            (ids, stopped)
        } else if ids.len() >= max {
            (ids, true)
        } else {
            if ids.len() < MAX_DISCOVER_COMMANDS {
                (ids.push(id), false)
            } else {
                (ids, true)
            }
        }
    }
}

proof fn lemma_commands_scan_stopped_stays(all: Seq<u8>, start: u8, max: nat, k: nat, n: nat)
    requires
        k <= n,
        commands_scan(all, start, max, k).1,
    ensures
        commands_scan(all, start, max, n) == commands_scan(all, start, max, k),
    decreases n - k,
{
    if k < n {
        lemma_commands_scan_stopped_stays(all, start, max, k, (n - 1) as nat);
    }
}

/// The identifiers of `all` not below `start`, in order.
pub open spec fn commands_from(all: Seq<u8>, start: u8) -> Seq<u8> {
    all.filter(|c: u8| c >= start)
}

/// How many identifiers a response holds at most: `max`, and never more
/// than 32.
pub open spec fn commands_cap(max: nat) -> int {
    if max < 32 {
        max as int
    } else {
        32
    }
}

/// Filtering one more identifier.
proof fn lemma_commands_from_step(s: Seq<u8>, start: u8)
    requires
        s.len() > 0,
    ensures
        commands_from(s, start) == if s.last() >= start {
            commands_from(s.drop_last(), start).push(s.last())
        } else {
            commands_from(s.drop_last(), start)
        },
{
    reveal(Seq::filter);
}

/// The scan over the first `k` identifiers keeps the first of those not
/// below `start`, as many as the cap allows, and stops exactly when more
/// of them came than the cap.
proof fn lemma_commands_scan_prefix(all: Seq<u8>, start: u8, max: nat, k: nat)
    requires
        k <= all.len(),
    ensures
        ({
            let (ids, stopped) = commands_scan(all, start, max, k);
            let q = commands_from(all.take(k as int), start);
            let m = commands_cap(max);
            &&& ids == q.take(if q.len() < m { q.len() as int } else { m })
            &&& stopped <==> q.len() > m
        }),
    decreases k,
{
    let m = commands_cap(max);
    if k == 0 {
        assert(all.take(0) =~= Seq::<u8>::empty());
        assert(commands_from(all.take(0), start) =~= Seq::<u8>::empty()) by {
            reveal(Seq::filter);
        }
        assert(Seq::<u8>::empty().take(0) =~= Seq::<u8>::empty());
    } else {
        lemma_commands_scan_prefix(all, start, max, (k - 1) as nat);
        let t = all.take(k as int);
        assert(t.drop_last() =~= all.take(k - 1));
        assert(t.last() == all[k - 1]);
        lemma_commands_from_step(t, start);
        let q0 = commands_from(all.take(k - 1), start);
        let q = commands_from(t, start);
        let id = all[k - 1];
        if id >= start {
            assert(q == q0.push(id));
        } else {
            assert(q == q0);
        }
        let (ids0, stopped0) = commands_scan(all, start, max, (k - 1) as nat);
        if id >= start {
            if stopped0 {
                assert(q.take(m) =~= q0.take(m));
            } else if ids0.len() >= max {
                assert(q.take(q0.len() as int) =~= q0);
                assert(q0.take(q0.len() as int) =~= q0);
            } else if ids0.len() < MAX_DISCOVER_COMMANDS {
                assert(q0.take(q0.len() as int) =~= q0);
                assert(q.take(q.len() as int) =~= q);
            } else {
                assert(q0.take(q0.len() as int) =~= q0);
                assert(q.take(32) =~= q0);
            }
        }
    }
}

/// Discover Commands answers with the identifiers of the list not below
/// the start, in their order, as many as `max` allows and at most 32; the
/// response is complete exactly when it holds all of them.
pub proof fn law_discover_commands(all: Seq<u8>, start: u8, max: nat)
    ensures
        ({
            let (ids, stopped) = commands_scan(all, start, max, all.len());
            let q = commands_from(all, start);
            let m = if max < 32 { max as int } else { 32int };
            &&& ids == q.take(if q.len() < m { q.len() as int } else { m })
            &&& !stopped <==> ids == q
            &&& !stopped <==> q.len() <= m
        }),
{
    lemma_commands_scan_prefix(all, start, max, all.len());
    assert(all.take(all.len() as int) =~= all);
    let q = commands_from(all, start);
    let (ids, stopped) = commands_scan(all, start, max, all.len());
    if ids == q {
        assert(ids.len() == q.len());
    }
    if !stopped {
        assert(q.take(q.len() as int) =~= q);
    }
}

/// Filter `all_commands` starting from `start_id`, returning up to
/// `max_results` of them, at most 32. The response is complete when every
/// identifier not below `start_id` was returned.
pub fn process_discover_commands(all_commands: &[u8], start_id: u8, max_results: u8) -> (r:
    DiscoverCommandsResponse)
    ensures
        ({
            let (ids, stopped) = commands_scan(all_commands@, start_id, max_results as nat, all_commands@.len());
            u8x32_items(r.command_ids) == ids && r.complete == !stopped
        }),
        ({
            let q = commands_from(all_commands@, start_id);
            let m = if max_results < 32 { max_results as int } else { 32int };
            &&& u8x32_items(r.command_ids) == q.take(if q.len() < m { q.len() as int } else { m })
            &&& r.complete <==> u8x32_items(r.command_ids) == q
        }),
{
    proof {
        law_discover_commands(all_commands@, start_id, max_results as nat);
    }
    let max = max_results as usize;
    let mut command_ids = u8x32_new();
    let mut complete = true;
    let n = all_commands.len();
    let mut i: usize = 0;
    while i < n
        invariant_except_break
            i <= n,
            n == all_commands@.len(),
            max == max_results,
            complete,
            commands_scan(all_commands@, start_id, max as nat, i as nat) == (u8x32_items(command_ids), false),
        ensures
            commands_scan(all_commands@, start_id, max as nat, n as nat) == (u8x32_items(command_ids), !complete),
        decreases n - i,
    {
        let id = all_commands[i];
        if id >= start_id {
            if u8x32_as_slice(&command_ids).len() >= max {
                complete = false;
                proof {
                    lemma_commands_scan_stopped_stays(all_commands@, start_id, max as nat, (i + 1) as nat, n as nat);
                }
                break;
            }
            if u8x32_push(&mut command_ids, id).is_err() {
                complete = false;
                proof {
                    lemma_commands_scan_stopped_stays(all_commands@, start_id, max as nat, (i + 1) as nat, n as nat);
                }
                break;
            }
        }
        i += 1;
    }
    DiscoverCommandsResponse { complete, command_ids }
}

// ── Discover Attributes Extended (0x15/0x16) ──

/// A single entry in the Discover Attributes Extended Response.
#[derive(Debug, Clone, Copy)]
pub struct DiscoverAttributeExtendedInfo {
    pub id: AttributeId,
    pub data_type: ZclDataType,
    /// Bit 0: readable, Bit 1: writable, Bit 2: reportable
    pub access_control: u8,
}

/// Discover Attributes Extended Response.
#[derive(Debug)]
pub struct DiscoverAttributesExtendedResponse {
    pub complete: bool,
    pub attributes: heapless::Vec<DiscoverAttributeExtendedInfo, 16>,
}

/// Bytes of extended entries: id (LE), type code, access flags, 4 per entry.
pub open spec fn ext_entries_bytes(s: Seq<DiscoverAttributeExtendedInfo>) -> Seq<u8>
    decreases s.len(),
{
    if s.len() == 0 {
        Seq::<u8>::empty()
    } else {
        let e = s.last();
        ext_entries_bytes(s.drop_last()) + seq![
            spec_lo(e.id.0),
            spec_hi(e.id.0),
            e.data_type.0,
            e.access_control,
        ]
    }
}

impl DiscoverAttributesExtendedResponse {
    /// Number of entries that fit in a buffer of `len` bytes after the flag.
    pub open spec fn entries_fitting(&self, len: int) -> int {
        let k = ext_attr16_items(self.attributes).len() as int;
        if k <= (len - 1) / 4 { k } else { (len - 1) / 4 }
    }

    /// Serialize: 1 byte complete, then as many entries (2 id + 1 type +
    /// 1 access = 4 bytes each) as fit; returns bytes written.
    pub fn serialize(&self, buf: &mut [u8]) -> (n: usize)
        ensures
            final(buf)@.len() == old(buf)@.len(),
            old(buf)@.len() == 0 ==> n == 0,
            old(buf)@.len() > 0 ==> ({
                let m = self.entries_fitting(old(buf)@.len() as int);
                &&& n == 1 + 4 * m
                &&& final(buf)@.subrange(0, n as int) == seq![flag_byte(self.complete)]
                    + ext_entries_bytes(ext_attr16_items(self.attributes).take(m))
                &&& final(buf)@.subrange(n as int, old(buf)@.len() as int) == old(
                    buf,
                )@.subrange(n as int, old(buf)@.len() as int)
            }),
    {
        if buf.len() == 0 {
            return 0;
        }
        let ghost orig = buf@;
        let attrs = ext_attr16_as_slice(&self.attributes);
        buf[0] = if self.complete { 1 } else { 0 };
        let mut pos: usize = 1;
        let mut i: usize = 0;
        let len = buf.len();
        while i < attrs.len()
            invariant_except_break
                i <= attrs@.len(),
                pos == 1 + 4 * i,
                len == buf@.len(),
                buf@.len() == orig.len(),
                pos <= len,
                attrs@ == ext_attr16_items(self.attributes),
                buf@.subrange(0, pos as int) == seq![flag_byte(self.complete)] + ext_entries_bytes(
                    attrs@.take(i as int),
                ),
                buf@.subrange(pos as int, len as int) == orig.subrange(pos as int, len as int),
            ensures
                pos == 1 + 4 * self.entries_fitting(len as int),
                buf@.len() == orig.len(),
                buf@.subrange(0, pos as int) == seq![flag_byte(self.complete)] + ext_entries_bytes(
                    ext_attr16_items(self.attributes).take(self.entries_fitting(len as int)),
                ),
                buf@.subrange(pos as int, len as int) == orig.subrange(pos as int, len as int),
            decreases attrs@.len() - i,
        {
            if len - pos < 4 {
                break;
            }
            let info = attrs[i];
            let (lo, hi) = u16_le_bytes(info.id.0);
            let ghost before = buf@;
            buf[pos] = lo;
            buf[pos + 1] = hi;
            buf[pos + 2] = info.data_type.0;
            buf[pos + 3] = info.access_control;
            proof {
                assert(attrs@.take(i + 1).drop_last() =~= attrs@.take(i as int));
                assert(buf@.subrange(0, pos + 4) =~= before.subrange(0, pos as int) + seq![lo, hi, info.data_type.0, info.access_control]);
                assert(buf@.subrange(pos + 4, len as int) =~= orig.subrange(pos + 4, len as int)) by {
                    assert forall|k: int| pos + 4 <= k < len implies buf@[k] == orig[k] by {
                        assert(before.subrange(pos as int, len as int)[k - pos] == before[k]);
                    }
                }
            }
            pos += 4;
            i += 1;
        }
        pos
    }
}

/// The access-control byte of an attribute: bit 0 readable, bit 1
/// writable, bit 2 reportable.
pub open spec fn spec_access_control(d: AttributeDescriptor) -> u8 {
    (if d.readable { 0x01u8 } else { 0u8 }) | (if d.writable { 0x02u8 } else { 0u8 }) | (if d.reportable {
        0x04u8
    } else {
        0u8
    })
}

/// Progress of the extended discover scan, as `discover_scan` with the
/// access-control flags recorded in each entry.
pub open spec fn discover_extended_scan(
    attributes: Seq<(AttributeId, Option<AttributeDescriptor>)>,
    start: u16,
    max: nat,
    k: nat,
) -> (Seq<DiscoverAttributeExtendedInfo>, nat, bool)
    decreases k,
{
    if k == 0 {
        (Seq::empty(), 0, false)
    } else {
        let (infos, count, stopped) = discover_extended_scan(attributes, start, max, (k - 1) as nat);
        let (id, def) = attributes[k - 1];
        if stopped || id.0 < start {
            (infos, count, stopped)
        } else if count >= max {
            (infos, count, true)
        } else {
            match def {
                Some(d) => if infos.len() < MAX_DISCOVER {
                    (
                        infos.push(
                            DiscoverAttributeExtendedInfo {
                                id,
                                data_type: d.data_type,
                                access_control: spec_access_control(d),
                            },
                        ),
                        count + 1,
                        false,
                    )
                } else {
                    (infos, count, true)
                },
                None => (infos, count, false),
            }
        }
    }
}

proof fn lemma_discover_extended_scan_stopped_stays(
    attributes: Seq<(AttributeId, Option<AttributeDescriptor>)>,
    start: u16,
    max: nat,
    k: nat,
    n: nat,
)
    requires
        k <= n,
        discover_extended_scan(attributes, start, max, k).2,
    ensures
        discover_extended_scan(attributes, start, max, n) == discover_extended_scan(attributes, start, max, k),
    decreases n - k,
{
    if k < n {
        lemma_discover_extended_scan_stopped_stays(attributes, start, max, k, (n - 1) as nat);
    }
}

/// The access-control byte has bit 0 set exactly for a readable
/// attribute, bit 1 for a writable one, bit 2 for a reportable one, and
/// bits 3 to 7 clear.
pub proof fn law_access_control_bits(d: AttributeDescriptor)
    ensures
        (spec_access_control(d) & 0x01 != 0) == d.readable,
        (spec_access_control(d) & 0x02 != 0) == d.writable,
        (spec_access_control(d) & 0x04 != 0) == d.reportable,
        spec_access_control(d) & 0xF8 == 0,
{
    let r: u8 = if d.readable { 0x01u8 } else { 0u8 };
    let w: u8 = if d.writable { 0x02u8 } else { 0u8 };
    let p: u8 = if d.reportable { 0x04u8 } else { 0u8 };
    assert(spec_access_control(d) == r | w | p);
    assert((r == 0 || r == 1) && (w == 0 || w == 2) && (p == 0 || p == 4) ==> {
        &&& ((r | w | p) & 0x01 != 0) == (r == 1)
        &&& ((r | w | p) & 0x02 != 0) == (w == 2)
        &&& ((r | w | p) & 0x04 != 0) == (p == 4)
        &&& (r | w | p) & 0xF8 == 0
    }) by (bit_vector);
}

/// The extended discover scan lists the same attributes as the plain one,
/// in the same order, with the same data types, and stops on the same
/// entries; each entry adds the access-control byte of its descriptor.
pub proof fn law_discover_extended_matches(
    attributes: Seq<(AttributeId, Option<AttributeDescriptor>)>,
    start: u16,
    max: nat,
    k: nat,
)
    requires
        k <= attributes.len(),
    ensures
        ({
            let (plain, count, stopped) = discover_scan(attributes, start, max, k);
            let (ext, ext_count, ext_stopped) = discover_extended_scan(attributes, start, max, k);
            &&& ext.len() == plain.len()
            &&& ext_count == count
            &&& ext_stopped == stopped
            &&& forall|i: int| 0 <= i < ext.len() ==> {
                &&& (#[trigger] ext[i]).id == plain[i].id
                &&& ext[i].data_type == plain[i].data_type
                &&& exists|j: int| 0 <= j < k && #[trigger] attributes[j].0 == ext[i].id && (attributes[j].1 matches Some(d) && d.data_type == ext[i].data_type
                    && ext[i].access_control == spec_access_control(d))
            }
        }),
    decreases k,
{
    if k > 0 {
        law_discover_extended_matches(attributes, start, max, (k - 1) as nat);
        let (plain, count, stopped) = discover_scan(attributes, start, max, (k - 1) as nat);
        let (ext, ext_count, ext_stopped) = discover_extended_scan(attributes, start, max, (k - 1) as nat);
        let (plain2, _, _) = discover_scan(attributes, start, max, k);
        let (ext2, _, _) = discover_extended_scan(attributes, start, max, k);
        assert forall|i: int| 0 <= i < ext2.len() implies {
            &&& (#[trigger] ext2[i]).id == plain2[i].id
            &&& ext2[i].data_type == plain2[i].data_type
            &&& exists|j: int| 0 <= j < k && #[trigger] attributes[j].0 == ext2[i].id && (attributes[j].1 matches Some(d) && d.data_type == ext2[i].data_type
                && ext2[i].access_control == spec_access_control(d))
        } by {
            if i < ext.len() {
                assert(ext2[i] == ext[i]);
                assert(plain2[i] == plain[i]);
                let j = choose|j: int| 0 <= j < k - 1 && #[trigger] attributes[j].0 == ext[i].id && (attributes[j].1 matches Some(d) && d.data_type == ext[i].data_type
                    && ext[i].access_control == spec_access_control(d));
                assert(attributes[j].0 == ext2[i].id);
            } else {
                assert(attributes[k - 1].0 == ext2[i].id);
            }
        }
    }
}

/// Answer a Discover Attributes Extended request: as `process_discover_dyn`,
/// with each entry's access-control flags.
pub fn process_discover_extended_dyn(
    attributes: &[(AttributeId, Option<AttributeDescriptor>)],
    request: &DiscoverAttributesRequest,
) -> (r: DiscoverAttributesExtendedResponse)
    ensures
        ({
            let (infos, _, stopped) = discover_extended_scan(
                attributes@,
                request.start_id.0,
                request.max_results as nat,
                attributes@.len(),
            );
            ext_attr16_items(r.attributes) == infos && r.complete == !stopped
        }),
        ({
            let f = found_from(attributes@, request.start_id.0);
            let m: int = if request.max_results < 16 { request.max_results as int } else { 16 };
            let ext = ext_attr16_items(r.attributes);
            &&& ext.len() == if f.len() < m { f.len() as int } else { m }
            &&& forall|i: int| 0 <= i < ext.len() ==> (#[trigger] ext[i]).id == f[i].id && ext[i].data_type == f[i].data_type
                && ext[i].access_control & 0xF8 == 0
            &&& r.complete ==> ext.len() == f.len()
            &&& !r.complete <==> exists|t: int|
                #[trigger] stops_at(listed_from(attributes@, request.start_id.0), request.start_id.0, request.max_results as nat, t)
        }),
{
    proof {
        let n = attributes@.len();
        law_discover_attributes(attributes@, request.start_id.0, request.max_results as nat);
        law_discover_extended_matches(attributes@, request.start_id.0, request.max_results as nat, n);
        let ext = discover_extended_scan(attributes@, request.start_id.0, request.max_results as nat, n).0;
        assert forall|i: int| 0 <= i < ext.len() implies (#[trigger] ext[i]).access_control & 0xF8 == 0 by {
            let j = choose|j: int| 0 <= j < n && #[trigger] attributes@[j].0 == ext[i].id && (attributes@[j].1 matches Some(d)
                && d.data_type == ext[i].data_type && ext[i].access_control == spec_access_control(d));
            law_access_control_bits(attributes@[j].1.unwrap());
        }
    }
    let mut out = ext_attr16_new();
    let max = request.max_results as usize;
    let mut count: usize = 0;
    let mut complete = true;
    let n = attributes.len();
    let mut i: usize = 0;
    while i < n
        invariant_except_break
            i <= n,
            n == attributes@.len(),
            max == request.max_results,
            complete,
            discover_extended_scan(attributes@, request.start_id.0, max as nat, i as nat) == (
                ext_attr16_items(out),
                count as nat,
                false,
            ),
            count <= max,
        ensures
            discover_extended_scan(attributes@, request.start_id.0, max as nat, n as nat) == (
                ext_attr16_items(out),
                count as nat,
                !complete,
            ),
        decreases n - i,
    {
        let (id, def) = attributes[i];
        if id.0 >= request.start_id.0 {
            if count >= max {
                complete = false;
                proof {
                    lemma_discover_extended_scan_stopped_stays(attributes@, request.start_id.0, max as nat, (i + 1) as nat, n as nat);
                }
                break;
            }
            if let Some(d) = def {
                // Bit 0: readable, Bit 1: writable, Bit 2: reportable
                let rd: u8 = if d.readable { 0x01 } else { 0 };
                let wr: u8 = if d.writable { 0x02 } else { 0 };
                let rp: u8 = if d.reportable { 0x04 } else { 0 };
                let access_control: u8 = rd | wr | rp;
                let pushed = ext_attr16_push(
                    &mut out,
                    DiscoverAttributeExtendedInfo { id, data_type: d.data_type, access_control },
                );
                if pushed.is_err() {
                    complete = false;
                    proof {
                        lemma_discover_extended_scan_stopped_stays(attributes@, request.start_id.0, max as nat, (i + 1) as nat, n as nat);
                    }
                    break;
                }
                count += 1;
            }
        }
        i += 1;
    }
    DiscoverAttributesExtendedResponse { complete, attributes: out }
}

} // verus!

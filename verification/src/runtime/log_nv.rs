//! Log-structured non-volatile storage over raw flash.
//!
//! Two flash sectors (pages) are used: one active, one scratch. Items are
//! appended to the active page one after another; the latest record of an
//! item wins. When the active page fills up, the live items are copied to the
//! scratch page, which then becomes the active one.
//!
//! Record format (each record 4-byte aligned):
//! ```text
//! [magic:2][id:2][len:2][pad:2][data:len][pad to 4 bytes with 0xFF]
//! ```
//! All 16-bit fields are little-endian.

use vstd::prelude::*;
use crate::types::{le_u16, spec_le_u16, spec_lo, spec_hi, u16_le_bytes, lemma_le_u16_split};
use crate::runtime::nv::{NvItemId, NvError, raw_to_nv_item_id, spec_raw_to_nv_item_id};
use crate::hvec::{u16x32_items, u16x32_new, u16x32_push, u16x32_as_slice};

verus! {

// ───────────────────────── Flash model ─────────────────────────

/// Contents of flash memory: the byte held at each address.
pub type FlashMemory = spec_fn(int) -> u8;

/// `m` after writing `data` at `offset`.
pub open spec fn mem_write(m: FlashMemory, offset: int, data: Seq<u8>) -> FlashMemory {
    |a: int| if offset <= a < offset + data.len() { data[a - offset] } else { m(a) }
}

/// `m` after erasing `len` bytes at `offset` (erased flash reads `0xFF`).
pub open spec fn mem_erase(m: FlashMemory, offset: int, len: int) -> FlashMemory {
    |a: int| if offset <= a < offset + len { 0xFFu8 } else { m(a) }
}

/// Raw flash hardware, implemented once per platform.
pub trait FlashDriver {
    /// What the flash currently holds.
    spec fn memory(&self) -> FlashMemory;

    /// Size of one erasable sector, in bytes.
    spec fn spec_sector_size(&self) -> nat;

    /// Number of bytes of flash, at addresses from 0.
    spec fn spec_capacity(&self) -> nat;

    /// Read `buf.len()` bytes starting at `offset`.
    fn read(&self, offset: u32, buf: &mut [u8])
        ensures
            final(buf)@.len() == old(buf)@.len(),
            forall|i: int| 0 <= i < old(buf)@.len() ==> #[trigger] final(buf)@[i] == (self.memory())(offset + i),
    ;

    /// Write `data` at `offset`. The data is a whole number of 4-byte words
    /// and lies within the flash.
    fn write(&mut self, offset: u32, data: &[u8])
        requires
            data@.len() % 4 == 0,
            offset + data@.len() <= old(self).spec_capacity(),
        ensures
            final(self).memory() == mem_write(old(self).memory(), offset as int, data@),
            final(self).spec_sector_size() == old(self).spec_sector_size(),
            final(self).spec_capacity() == old(self).spec_capacity(),
    ;

    /// Erase the sector that starts at `offset`, within the flash.
    fn erase_sector(&mut self, offset: u32)
        requires
            offset + old(self).spec_sector_size() <= old(self).spec_capacity(),
        ensures
            final(self).memory() == mem_erase(old(self).memory(), offset as int, old(self).spec_sector_size() as int),
            final(self).spec_sector_size() == old(self).spec_sector_size(),
            final(self).spec_capacity() == old(self).spec_capacity(),
    ;

    /// Sector size in bytes.
    fn sector_size(&self) -> (r: usize)
        ensures
            r == self.spec_sector_size(),
    ;
}

// ───────────────────────── Record layout ─────────────────────────

/// Magic value at the start of every record.
const ITEM_MAGIC: u16 = 0xA55A;

/// Record header size: magic(2) + id(2) + len(2) + pad(2).
const HEADER_SIZE: usize = 8;

/// Largest item that can be written.
pub const MAX_ITEM_LEN: usize = 128;

/// `n` rounded up to a multiple of 4.
pub open spec fn spec_align4(n: int) -> int {
    (n + 3) / 4 * 4
}

/// Rounding up to a multiple of 4 adds less than 4.
pub proof fn lemma_align4(n: int)
    requires
        n >= 0,
    ensures
        n <= spec_align4(n) < n + 4,
        spec_align4(n) % 4 == 0,
{
}

/// `n` rounded up to a multiple of 4.
fn align4(n: usize) -> (r: usize)
    requires
        n <= 0x1_0000,
    ensures
        r == spec_align4(n as int),
{
    let m: usize = n + 3;
    assert((m & !3usize) == m / 4 * 4) by (bit_vector)
        requires
            m <= 0x1_0003,
    ;
    m & !3
}

/// Bytes taken by a record whose data is `len` bytes long.
pub open spec fn record_span(len: int) -> int {
    8 + spec_align4(len)
}

/// Little-endian 16-bit value at address `a`.
pub open spec fn rd16(m: FlashMemory, a: int) -> u16 {
    spec_le_u16(m(a), m(a + 1))
}

/// One record of the log: an item code and its data (empty data marks a deletion).
pub struct NvRecord {
    pub id: u16,
    pub data: Seq<u8>,
}

/// Whether a record header starts at `offset` of the page at `page` of `size` bytes.
pub open spec fn header_at(m: FlashMemory, page: int, size: int, offset: int) -> bool {
    offset + 8 <= size && rd16(m, page + offset) == 0xA55Au16
}

/// The record whose header is at `offset` of the page at `page`.
pub open spec fn record_at(m: FlashMemory, page: int, offset: int) -> NvRecord {
    NvRecord {
        id: rd16(m, page + offset + 2),
        data: Seq::new(rd16(m, page + offset + 4) as nat, |i: int| m(page + offset + 8 + i)),
    }
}

/// Offset just past the record whose header is at `offset`.
pub open spec fn next_offset(m: FlashMemory, page: int, offset: int) -> int {
    offset + record_span(rd16(m, page + offset + 4) as int)
}

/// The records of the page, read from `offset` on until no header follows.
pub open spec fn records_from(m: FlashMemory, page: int, size: int, offset: int) -> Seq<NvRecord>
    decreases if offset < size { size - offset } else { 0 },
{
    if header_at(m, page, size, offset) {
        proof {
            lemma_align4(rd16(m, page + offset + 4) as int);
        }
        seq![record_at(m, page, offset)] + records_from(m, page, size, next_offset(m, page, offset))
    } else {
        Seq::empty()
    }
}

/// Offset at which the reading of [`records_from`] stops.
pub open spec fn log_end(m: FlashMemory, page: int, size: int, offset: int) -> int
    decreases if offset < size { size - offset } else { 0 },
{
    if header_at(m, page, size, offset) {
        proof {
            lemma_align4(rd16(m, page + offset + 4) as int);
        }
        log_end(m, page, size, next_offset(m, page, offset))
    } else {
        offset
    }
}

/// The data of the newest record of item `id` among `recs`: the latest
/// entry of an item wins; `None` when there is none or the newest one is a
/// deletion (an empty record).
pub open spec fn newest(recs: Seq<NvRecord>, id: u16) -> Option<Seq<u8>>
    decreases recs.len(),
{
    if recs.len() == 0 {
        None
    } else {
        let r = recs.last();
        if r.id == id {
            if r.data.len() == 0 {
                None
            } else {
                Some(r.data)
            }
        } else {
            newest(recs.drop_last(), id)
        }
    }
}

/// The data of the newest record of item `id` among `recs` that holds at
/// most `cap` bytes; longer records of the item are passed over, and `None`
/// when there is none or it is a deletion.
pub open spec fn latest_within(recs: Seq<NvRecord>, id: u16, cap: int) -> Option<Seq<u8>>
    decreases recs.len(),
{
    if recs.len() == 0 {
        None
    } else {
        let r = recs.last();
        if r.id == id && r.data.len() <= cap {
            if r.data.len() == 0 {
                None
            } else {
                Some(r.data)
            }
        } else {
            latest_within(recs.drop_last(), id, cap)
        }
    }
}

/// What compaction copies of item `id`: its latest version of at most 128
/// bytes (see [`latest_within`]).
pub open spec fn copied_data(recs: Seq<NvRecord>, id: u16) -> Option<Seq<u8>> {
    latest_within(recs, id, 128)
}

/// The records of a storage that only its own operations wrote: each of
/// an item, with at most 128 bytes of data.
pub open spec fn item_records(recs: Seq<NvRecord>) -> bool {
    forall|j: int| 0 <= j < recs.len() ==> is_item_code((#[trigger] recs[j]).id) && recs[j].data.len() <= 128
}

/// The bytes of a record of item `id` holding `data`.
pub open spec fn encode_record(id: u16, data: Seq<u8>) -> Seq<u8> {
    let len = data.len() as u16;
    seq![0x5Au8, 0xA5u8, spec_lo(id), spec_hi(id), spec_lo(len), spec_hi(len), 0u8, 0u8] + data
        + Seq::new((spec_align4(data.len() as int) - data.len()) as nat, |i: int| 0xFFu8)
}

/// The page at `page` holds a log that ends at offset `end`, followed by
/// erased flash up to the end of the page.
pub open spec fn log_ends_at(m: FlashMemory, page: int, size: int, end: int) -> bool {
    &&& 0 <= end <= size
    &&& log_end(m, page, size, 0) == end
    &&& forall|a: int| page + end <= a < page + size ==> #[trigger] m(a) == 0xFFu8
}

/// The item codes of `recs` in order of first appearance, at most 32 of them.
pub open spec fn first_ids(recs: Seq<NvRecord>) -> Seq<u16>
    decreases recs.len(),
{
    if recs.len() == 0 {
        Seq::empty()
    } else {
        let prev = first_ids(recs.drop_last());
        let id = recs.last().id;
        if prev.contains(id) || prev.len() >= 32 {
            prev
        } else {
            prev.push(id)
        }
    }
}

/// The records that compaction copies for the codes `ids`, in order: for
/// each code that names an item with data to copy (see [`copied_data`]), a
/// record of that item with that data.
pub open spec fn compact_plan(recs: Seq<NvRecord>, ids: Seq<u16>) -> Seq<NvRecord>
    decreases ids.len(),
{
    if ids.len() == 0 {
        Seq::empty()
    } else {
        let prev = compact_plan(recs, ids.drop_last());
        match spec_raw_to_nv_item_id(ids.last()) {
            Some(item) => match copied_data(recs, item.spec_raw()) {
                Some(d) => prev.push(NvRecord { id: item.spec_raw(), data: d }),
                None => prev,
            },
            None => prev,
        }
    }
}

/// The bytes of `recs` written one after another.
pub open spec fn image(recs: Seq<NvRecord>) -> Seq<u8>
    decreases recs.len(),
{
    if recs.len() == 0 {
        Seq::empty()
    } else {
        image(recs.drop_last()) + encode_record(recs.last().id, recs.last().data)
    }
}

/// The records of `plan` that are written to a page of `size` bytes: each
/// one in turn, when it fits after those written before it.
pub open spec fn fit_records(plan: Seq<NvRecord>, size: int) -> Seq<NvRecord>
    decreases plan.len(),
{
    if plan.len() == 0 {
        Seq::empty()
    } else {
        let prev = fit_records(plan.drop_last(), size);
        if image(prev).len() + record_span(plan.last().data.len() as int) <= size {
            prev.push(plan.last())
        } else {
            prev
        }
    }
}

/// `m` with the page at `page` holding `img` followed by erased flash.
pub open spec fn page_image(img: Seq<u8>, page: int, size: int, m: FlashMemory) -> FlashMemory {
    |a: int|
        if page <= a < page + size {
            if a - page < img.len() {
                img[a - page]
            } else {
                0xFFu8
            }
        } else {
            m(a)
        }
}

/// A record's bytes take [`record_span`] of its data length.
pub proof fn lemma_encode_len(id: u16, data: Seq<u8>)
    ensures
        encode_record(id, data).len() == record_span(data.len() as int),
{
    lemma_align4(data.len() as int);
}

/// Where the reading of a log stops, no header is found, and it lies past
/// every record that was read.
pub proof fn lemma_log_end(m: FlashMemory, page: int, size: int, offset: int)
    ensures
        log_end(m, page, size, offset) >= offset,
        !header_at(m, page, size, log_end(m, page, size, offset)),
        header_at(m, page, size, offset) ==> log_end(m, page, size, offset) >= next_offset(m, page, offset),
    decreases if offset < size { size - offset } else { 0 },
{
    if header_at(m, page, size, offset) {
        lemma_align4(rd16(m, page + offset + 4) as int);
        lemma_log_end(m, page, size, next_offset(m, page, offset));
    }
}

/// Reading a log only looks at the bytes before its end: a memory that agrees
/// there reads the same records, then goes on from that end.
pub proof fn lemma_log_frame(m: FlashMemory, m2: FlashMemory, page: int, size: int, offset: int)
    requires
        forall|a: int| page + offset <= a < page + log_end(m, page, size, offset) ==> #[trigger] m(a) == m2(a),
    ensures
        records_from(m2, page, size, offset) == records_from(m, page, size, offset) + records_from(
            m2, page, size, log_end(m, page, size, offset)),
        log_end(m2, page, size, offset) == log_end(m2, page, size, log_end(m, page, size, offset)),
    decreases if offset < size { size - offset } else { 0 },
{
    let end = log_end(m, page, size, offset);
    if header_at(m, page, size, offset) {
        let n = next_offset(m, page, offset);
        lemma_align4(rd16(m, page + offset + 4) as int);
        lemma_log_end(m, page, size, offset);
        lemma_log_end(m, page, size, n);
        lemma_log_frame(m, m2, page, size, n);
        assert(m(page + offset) == m2(page + offset));
        assert(m(page + offset + 1) == m2(page + offset + 1));
        assert(m(page + offset + 2) == m2(page + offset + 2));
        assert(m(page + offset + 3) == m2(page + offset + 3));
        assert(m(page + offset + 4) == m2(page + offset + 4));
        assert(m(page + offset + 5) == m2(page + offset + 5));
        let r = record_at(m, page, offset);
        assert(record_at(m2, page, offset).data =~= r.data);
        assert(records_from(m2, page, size, offset) == seq![r] + records_from(m2, page, size, n));
        assert(records_from(m, page, size, offset) == seq![r] + records_from(m, page, size, n));
        assert(seq![r] + (records_from(m, page, size, n) + records_from(m2, page, size, end)) =~= (seq![r]
            + records_from(m, page, size, n)) + records_from(m2, page, size, end));
    } else {
        assert(Seq::<NvRecord>::empty() + records_from(m2, page, size, offset) =~= records_from(
            m2, page, size, offset));
    }
}

/// A log that ends within its page reads the same from any memory that
/// agrees on the page.
pub proof fn lemma_log_stable(m: FlashMemory, m2: FlashMemory, page: int, size: int)
    requires
        log_end(m, page, size, 0) <= size,
        forall|a: int| page <= a < page + size ==> #[trigger] m(a) == m2(a),
    ensures
        records_from(m2, page, size, 0) == records_from(m, page, size, 0),
        log_end(m2, page, size, 0) == log_end(m, page, size, 0),
{
    let end = log_end(m, page, size, 0);
    lemma_log_end(m, page, size, 0);
    assert forall|a: int| page + 0 <= a < page + end implies #[trigger] m(a) == m2(a) by {}
    lemma_log_frame(m, m2, page, size, 0);
    if end + 8 <= size {
        assert(m(page + end) == m2(page + end));
        assert(m(page + end + 1) == m2(page + end + 1));
    }
    assert(!header_at(m2, page, size, end));
    assert(records_from(m, page, size, 0) + Seq::<NvRecord>::empty() =~= records_from(m, page, size, 0));
}

/// A log that ends within its page, followed by erased flash, reads the same
/// from any memory that agrees on the page.
pub proof fn lemma_log_ends_at_stable(m: FlashMemory, m2: FlashMemory, page: int, size: int, end: int)
    requires
        log_ends_at(m, page, size, end),
        forall|a: int| page <= a < page + size ==> #[trigger] m(a) == m2(a),
    ensures
        log_ends_at(m2, page, size, end),
        records_from(m2, page, size, 0) == records_from(m, page, size, 0),
{
    lemma_log_stable(m, m2, page, size);
    assert forall|a: int| page + end <= a < page + size implies #[trigger] m2(a) == 0xFFu8 by {
        assert(m(a) == m2(a));
    }
}

/// An erased page holds an empty log.
pub proof fn lemma_erased_page(m: FlashMemory, page: int, size: int)
    requires
        size >= 0,
        forall|a: int| page <= a < page + size ==> #[trigger] m(a) == 0xFFu8,
    ensures
        log_ends_at(m, page, size, 0),
        records_from(m, page, size, 0) == Seq::<NvRecord>::empty(),
{
    if 8 <= size {
        assert(m(page) == 0xFFu8);
        assert(m(page + 1) == 0xFFu8);
    }
    assert(!header_at(m, page, size, 0));
}

/// Writing a record right after the end of a log, followed by erased flash,
/// adds that record to the log.
pub proof fn lemma_append_record(m: FlashMemory, page: int, size: int, end: int, id: u16, data: Seq<u8>)
    requires
        log_ends_at(m, page, size, end),
        data.len() <= 0xFFFF,
        end + record_span(data.len() as int) <= size,
    ensures
        records_from(mem_write(m, page + end, encode_record(id, data)), page, size, 0) == records_from(
            m, page, size, 0).push(NvRecord { id, data }),
        log_ends_at(mem_write(m, page + end, encode_record(id, data)), page, size, end + record_span(
            data.len() as int)),
{
    let enc = encode_record(id, data);
    let m2 = mem_write(m, page + end, enc);
    let len = data.len() as int;
    let span = record_span(len);
    lemma_encode_len(id, data);
    lemma_align4(len);
    lemma_log_end(m, page, size, 0);
    assert forall|a: int| page + 0 <= a < page + log_end(m, page, size, 0) implies #[trigger] m(a) == m2(a) by {}
    lemma_log_frame(m, m2, page, size, 0);
    // The new record is read at `end`.
    assert(m2(page + end) == 0x5Au8);
    assert(m2(page + end + 1) == 0xA5u8);
    assert(m2(page + end + 2) == spec_lo(id));
    assert(m2(page + end + 3) == spec_hi(id));
    assert(m2(page + end + 4) == spec_lo(len as u16));
    assert(m2(page + end + 5) == spec_hi(len as u16));
    lemma_le_u16_split(id);
    lemma_le_u16_split(len as u16);
    assert(rd16(m2, page + end) == 0xA55Au16);
    assert(header_at(m2, page, size, end));
    let r = NvRecord { id, data };
    assert(record_at(m2, page, end).data =~= data);
    assert(record_at(m2, page, end) == r);
    assert(next_offset(m2, page, end) == end + span);
    // Nothing follows it.
    if end + span + 8 <= size {
        assert(m2(page + end + span) == 0xFFu8);
        assert(m2(page + end + span + 1) == 0xFFu8);
    }
    assert(!header_at(m2, page, size, end + span));
    assert(records_from(m2, page, size, end + span) == Seq::<NvRecord>::empty());
    assert(log_end(m2, page, size, end + span) == end + span);
    assert(records_from(m2, page, size, end) == seq![record_at(m2, page, end)] + records_from(
        m2, page, size, next_offset(m2, page, end)));
    assert(log_end(m2, page, size, end) == log_end(m2, page, size, next_offset(m2, page, end)));
    assert(records_from(m2, page, size, end) =~= seq![r]);
    assert(records_from(m, page, size, 0) + seq![r] =~= records_from(m, page, size, 0).push(r));
    assert forall|a: int| page + end + span <= a < page + size implies #[trigger] m2(a) == 0xFFu8 by {
        assert(m(a) == 0xFFu8);
    }
}

/// Writing a record right after the image of `recs` gives the image of the
/// longer sequence.
pub proof fn lemma_page_image_push(recs: Seq<NvRecord>, r: NvRecord, page: int, size: int, m: FlashMemory)
    requires
        image(recs).len() + encode_record(r.id, r.data).len() <= size,
    ensures
        mem_write(page_image(image(recs), page, size, m), page + image(recs).len(), encode_record(r.id, r.data))
            == page_image(image(recs.push(r)), page, size, m),
{
    let p = recs.push(r);
    assert(p.drop_last() =~= recs);
    assert(image(p) == image(recs) + encode_record(r.id, r.data));
    assert(mem_write(page_image(image(recs), page, size, m), page + image(recs).len(), encode_record(r.id, r.data))
        =~= page_image(image(p), page, size, m));
}

/// The image of records whose bytes fit in a page reads back as those records.
pub proof fn lemma_image_log(recs: Seq<NvRecord>, page: int, size: int, m: FlashMemory)
    requires
        forall|i: int| 0 <= i < recs.len() ==> (#[trigger] recs[i]).data.len() <= 0xFFFF,
        image(recs).len() <= size,
    ensures
        log_ends_at(page_image(image(recs), page, size, m), page, size, image(recs).len() as int),
        records_from(page_image(image(recs), page, size, m), page, size, 0) == recs,
    decreases recs.len(),
{
    if recs.len() == 0 {
        lemma_erased_page(page_image(image(recs), page, size, m), page, size);
        assert(records_from(page_image(image(recs), page, size, m), page, size, 0) =~= recs);
    } else {
        let prev = recs.drop_last();
        let r = recs.last();
        assert(image(recs) == image(prev) + encode_record(r.id, r.data));
        assert forall|i: int| 0 <= i < prev.len() implies (#[trigger] prev[i]).data.len() <= 0xFFFF by {
            assert(prev[i] == recs[i]);
        }
        lemma_image_log(prev, page, size, m);
        lemma_encode_len(r.id, r.data);
        assert(r.data.len() <= 0xFFFF) by {
            assert(recs[recs.len() - 1] == r);
        }
        lemma_append_record(page_image(image(prev), page, size, m), page, size, image(prev).len() as int, r.id, r.data);
        lemma_page_image_push(prev, r, page, size, m);
        assert(prev.push(r) =~= recs);
    }
}

/// Found data is not empty, and is the data of one of the records.
pub proof fn lemma_newest_len(recs: Seq<NvRecord>, id: u16, n: int)
    requires
        forall|j: int| 0 <= j < recs.len() ==> (#[trigger] recs[j]).data.len() <= n,
    ensures
        newest(recs, id) matches Some(d) ==> 0 < d.len() <= n,
    decreases recs.len(),
{
    if recs.len() > 0 {
        let prev = recs.drop_last();
        assert forall|j: int| 0 <= j < prev.len() implies (#[trigger] prev[j]).data.len() <= n by {
            assert(prev[j] == recs[j]);
        }
        lemma_newest_len(prev, id, n);
        assert(recs[recs.len() - 1].data.len() <= n);
    }
}

/// Found data is never empty: an empty record is a deletion.
pub proof fn lemma_newest_nonempty(recs: Seq<NvRecord>, id: u16)
    ensures
        newest(recs, id) matches Some(d) ==> d.len() > 0,
    decreases recs.len(),
{
    if recs.len() > 0 {
        lemma_newest_nonempty(recs.drop_last(), id);
    }
}

/// Data found within a cap is not empty and within the cap.
pub proof fn lemma_within_len(recs: Seq<NvRecord>, id: u16, cap: int)
    ensures
        latest_within(recs, id, cap) matches Some(d) ==> 0 < d.len() <= cap,
    decreases recs.len(),
{
    if recs.len() > 0 {
        lemma_within_len(recs.drop_last(), id, cap);
    }
}

/// When no record is longer than the cap, the latest version within the
/// cap is the newest one.
pub proof fn lemma_within_newest(recs: Seq<NvRecord>, id: u16, cap: int)
    requires
        forall|j: int| 0 <= j < recs.len() ==> (#[trigger] recs[j]).data.len() <= cap,
    ensures
        latest_within(recs, id, cap) == newest(recs, id),
    decreases recs.len(),
{
    if recs.len() > 0 {
        let prev = recs.drop_last();
        assert forall|j: int| 0 <= j < prev.len() implies (#[trigger] prev[j]).data.len() <= cap by {
            assert(prev[j] == recs[j]);
        }
        lemma_within_newest(prev, id, cap);
        assert(recs[recs.len() - 1].data.len() <= cap);
    }
}

/// Every record that compaction plans is of an item and holds at most 128
/// bytes, and there is at most one per planned code.
pub proof fn lemma_plan_lens(recs: Seq<NvRecord>, ids: Seq<u16>)
    ensures
        forall|i: int| 0 <= i < compact_plan(recs, ids).len() ==> (#[trigger] compact_plan(recs, ids)[i]).data.len() <= 128,
        item_records(compact_plan(recs, ids)),
        compact_plan(recs, ids).len() <= ids.len(),
    decreases ids.len(),
{
    if ids.len() > 0 {
        lemma_plan_lens(recs, ids.drop_last());
        let prev = compact_plan(recs, ids.drop_last());
        match spec_raw_to_nv_item_id(ids.last()) {
            Some(item) => {
                let p = compact_plan(recs, ids);
                lemma_within_len(recs, item.spec_raw(), 128);
                assert(is_item_code(item.spec_raw()));
                assert forall|i: int| 0 <= i < p.len() implies (#[trigger] p[i]).data.len() <= 128 && is_item_code(p[i].id) by {
                    if i < prev.len() {
                        assert(p[i] == prev[i]);
                    }
                }
            },
            None => {},
        }
    }
}

/// The records that compaction writes are of items, with at most 128 bytes each.
pub proof fn lemma_compacted_items(recs: Seq<NvRecord>, size: int)
    requires
        size >= 0,
    ensures
        item_records(fit_records(compact_plan(recs, first_ids(recs)), size)),
{
    let plan = compact_plan(recs, first_ids(recs));
    let f = fit_records(plan, size);
    lemma_plan_lens(recs, first_ids(recs));
    lemma_fit_records(plan, size);
    assert forall|i: int| 0 <= i < f.len() implies is_item_code((#[trigger] f[i]).id) && f[i].data.len() <= 128 by {
        let j = choose|j: int| 0 <= j < plan.len() && plan[j] == f[i];
        assert(is_item_code(plan[j].id));
    }
}

/// The records written by compaction fit in the page, and each is one that was planned.
pub proof fn lemma_fit_records(plan: Seq<NvRecord>, size: int)
    requires
        size >= 0,
    ensures
        image(fit_records(plan, size)).len() <= size,
        forall|i: int| 0 <= i < fit_records(plan, size).len() ==> plan.contains(#[trigger] fit_records(plan, size)[i]),
    decreases plan.len(),
{
    if plan.len() > 0 {
        let prev_plan = plan.drop_last();
        lemma_fit_records(prev_plan, size);
        let prev = fit_records(prev_plan, size);
        let last = plan.last();
        let f = fit_records(plan, size);
        if image(prev).len() + record_span(last.data.len() as int) <= size {
            let p = prev.push(last);
            assert(p.drop_last() =~= prev);
            lemma_encode_len(last.id, last.data);
            assert(image(p) == image(prev) + encode_record(last.id, last.data));
        }
        assert forall|i: int| 0 <= i < f.len() implies plan.contains(#[trigger] f[i]) by {
            if i < prev.len() {
                assert(f[i] == prev[i]);
                let j = choose|j: int| 0 <= j < prev_plan.len() && prev_plan[j] == prev[i];
                assert(plan[j] == prev_plan[j]);
            } else {
                assert(plan[plan.len() - 1] == last);
            }
        }
    }
}

/// The records written by compaction read back from the compacted page.
pub proof fn lemma_compacted_log(recs: Seq<NvRecord>, page: int, size: int, m: FlashMemory)
    requires
        size >= 0,
    ensures
        log_ends_at(
            page_image(image(fit_records(compact_plan(recs, first_ids(recs)), size)), page, size, m),
            page,
            size,
            image(fit_records(compact_plan(recs, first_ids(recs)), size)).len() as int,
        ),
        records_from(page_image(image(fit_records(compact_plan(recs, first_ids(recs)), size)), page, size, m), page, size, 0)
            == fit_records(compact_plan(recs, first_ids(recs)), size),
{
    let plan = compact_plan(recs, first_ids(recs));
    let f = fit_records(plan, size);
    lemma_plan_lens(recs, first_ids(recs));
    lemma_fit_records(plan, size);
    assert forall|i: int| 0 <= i < f.len() implies (#[trigger] f[i]).data.len() <= 0xFFFF by {
        let j = choose|j: int| 0 <= j < plan.len() && plan[j] == f[i];
        assert(plan[j].data.len() <= 128);
    }
    lemma_image_log(f, page, size, m);
}

/// Planning one more code of `ids` adds at most one record.
proof fn lemma_plan_step(recs: Seq<NvRecord>, ids: Seq<u16>, i: int)
    requires
        0 <= i < ids.len(),
    ensures
        compact_plan(recs, ids.take(i + 1)) == match spec_raw_to_nv_item_id(ids[i]) {
            Some(item) => match copied_data(recs, item.spec_raw()) {
                Some(d) => compact_plan(recs, ids.take(i)).push(NvRecord { id: item.spec_raw(), data: d }),
                None => compact_plan(recs, ids.take(i)),
            },
            None => compact_plan(recs, ids.take(i)),
        },
{
    let t = ids.take(i + 1);
    assert(t.drop_last() =~= ids.take(i));
    assert(t.last() == ids[i]);
}

/// Fitting one more planned record.
proof fn lemma_fit_step(plan: Seq<NvRecord>, r: NvRecord, size: int)
    requires
        r.data.len() <= 0xFFFF,
    ensures
        fit_records(plan.push(r), size) == if image(fit_records(plan, size)).len() + record_span(r.data.len() as int)
            <= size {
            fit_records(plan, size).push(r)
        } else {
            fit_records(plan, size)
        },
        image(fit_records(plan, size).push(r)).len() == image(fit_records(plan, size)).len() + record_span(
            r.data.len() as int),
{
    let p = plan.push(r);
    assert(p.drop_last() =~= plan);
    let f = fit_records(plan, size);
    assert(f.push(r).drop_last() =~= f);
    lemma_encode_len(r.id, r.data);
}

/// The code of some item identifier.
pub open spec fn is_item_code(c: u16) -> bool {
    exists|x: NvItemId| x.spec_raw() == c
}

/// The codes of all item identifiers.
spec fn item_codes() -> Set<u16> {
    set![
        0x0001u16, 0x0002u16, 0x0003u16, 0x0004u16, 0x0005u16, 0x0006u16, 0x0007u16, 0x0008u16,
        0x0009u16, 0x000Au16, 0x000Bu16, 0x0020u16, 0x0021u16, 0x0022u16, 0x0023u16, 0x0040u16,
        0x0041u16, 0x0042u16, 0x0043u16, 0x0044u16, 0x0100u16, 0x0101u16, 0x0102u16, 0x0200u16,
    ]
}

/// There are 24 item codes.
proof fn lemma_item_codes_len()
    ensures
        item_codes().finite(),
        item_codes().len() == 24,
{
    broadcast use vstd::set::group_set_axioms;

}

/// Distinct item codes are at most 24.
proof fn lemma_item_codes_bound(ids: Seq<u16>)
    requires
        ids.no_duplicates(),
        forall|k: int| 0 <= k < ids.len() ==> is_item_code(#[trigger] ids[k]),
    ensures
        ids.len() <= 24,
{
    broadcast use vstd::set::group_set_axioms;

    lemma_item_codes_len();
    assert forall|c: u16| ids.to_set().contains(c) implies item_codes().contains(c) by {
        let k = choose|k: int| 0 <= k < ids.len() && ids[k] == c;
        assert(is_item_code(ids[k]));
        let x = choose|x: NvItemId| x.spec_raw() == c;
        assert(item_codes().contains(x.spec_raw()));
    }
    vstd::set_lib::lemma_len_subset(ids.to_set(), item_codes());
    ids.unique_seq_to_set();
}

/// An item code is mapped back to the identifier that has it.
proof fn lemma_item_code(c: u16)
    requires
        is_item_code(c),
    ensures
        spec_raw_to_nv_item_id(c) matches Some(x) && x.spec_raw() == c,
{
    let x = choose|x: NvItemId| x.spec_raw() == c;
    crate::runtime::nv::lemma_raw_round_trip(x);
}

/// The codes collected for compaction are distinct codes of records, and
/// when fewer than 32 they are all the codes of the records.
proof fn lemma_first_ids(recs: Seq<NvRecord>)
    ensures
        first_ids(recs).no_duplicates(),
        forall|k: int| 0 <= k < first_ids(recs).len() ==> exists|j: int| 0 <= j < recs.len() && recs[j].id == #[trigger] first_ids(recs)[k],
        first_ids(recs).len() < 32 ==> forall|j: int| 0 <= j < recs.len() ==> first_ids(recs).contains(#[trigger] recs[j].id),
        first_ids(recs).len() <= 32,
    decreases recs.len(),
{
    if recs.len() > 0 {
        let prev_recs = recs.drop_last();
        lemma_first_ids(prev_recs);
        let prev = first_ids(prev_recs);
        let ids = first_ids(recs);
        let last = recs.last();
        assert forall|k: int| 0 <= k < ids.len() implies exists|j: int| 0 <= j < recs.len() && recs[j].id == #[trigger] ids[k] by {
            if k < prev.len() {
                assert(ids[k] == prev[k]);
                let j = choose|j: int| 0 <= j < prev_recs.len() && prev_recs[j].id == prev[k];
                assert(recs[j] == prev_recs[j]);
            } else {
                assert(recs[recs.len() - 1].id == ids[k]);
            }
        }
        if ids.len() < 32 {
            assert forall|j: int| 0 <= j < recs.len() implies ids.contains(#[trigger] recs[j].id) by {
                if j < prev_recs.len() {
                    assert(recs[j] == prev_recs[j]);
                    assert(prev.contains(prev_recs[j].id));
                    let k = choose|k: int| 0 <= k < prev.len() && prev[k] == prev_recs[j].id;
                    assert(ids[k] == prev[k]);
                } else {
                    if !prev.contains(last.id) {
                        assert(ids[ids.len() - 1] == last.id);
                    }
                }
            }
        }
    }
}

/// No record of item `c`: nothing is found.
proof fn lemma_newest_absent(recs: Seq<NvRecord>, c: u16)
    requires
        forall|j: int| 0 <= j < recs.len() ==> (#[trigger] recs[j]).id != c,
    ensures
        newest(recs, c) is None,
    decreases recs.len(),
{
    if recs.len() > 0 {
        let prev = recs.drop_last();
        assert forall|j: int| 0 <= j < prev.len() implies (#[trigger] prev[j]).id != c by {
            assert(prev[j] == recs[j]);
        }
        lemma_newest_absent(prev, c);
        assert(recs[recs.len() - 1].id != c);
    }
}

/// For distinct item codes, the compaction plan holds the copied data of
/// exactly the planned items.
proof fn lemma_plan_newest(recs: Seq<NvRecord>, ids: Seq<u16>, c: u16)
    requires
        ids.no_duplicates(),
        forall|k: int| 0 <= k < ids.len() ==> is_item_code(#[trigger] ids[k]),
    ensures
        newest(compact_plan(recs, ids), c) == if ids.contains(c) {
            copied_data(recs, c)
        } else {
            None
        },
    decreases ids.len(),
{
    if ids.len() == 0 {
    } else {
        let prev_ids = ids.drop_last();
        let last = ids.last();
        assert forall|k: int| 0 <= k < prev_ids.len() implies is_item_code(#[trigger] prev_ids[k]) by {
            assert(prev_ids[k] == ids[k]);
        }
        assert(prev_ids.no_duplicates()) by {
            assert forall|i: int, j: int| 0 <= i < prev_ids.len() && 0 <= j < prev_ids.len() && i != j implies prev_ids[i] != prev_ids[j] by {
                assert(prev_ids[i] == ids[i]);
                assert(prev_ids[j] == ids[j]);
            }
        }
        lemma_plan_newest(recs, prev_ids, c);
        lemma_plan_newest(recs, prev_ids, last);
        assert(is_item_code(ids[ids.len() - 1]));
        lemma_item_code(last);
        let prev = compact_plan(recs, prev_ids);
        assert(!prev_ids.contains(last)) by {
            if prev_ids.contains(last) {
                let k = choose|k: int| 0 <= k < prev_ids.len() && prev_ids[k] == last;
                assert(ids[k] == ids[ids.len() - 1]);
            }
        }
        assert(ids.contains(c) == (prev_ids.contains(c) || c == last)) by {
            if ids.contains(c) && c != last {
                let k = choose|k: int| 0 <= k < ids.len() && ids[k] == c;
                assert(k < prev_ids.len());
                assert(prev_ids[k] == c);
            }
            if prev_ids.contains(c) {
                let k = choose|k: int| 0 <= k < prev_ids.len() && prev_ids[k] == c;
                assert(ids[k] == c);
            }
            if c == last {
                assert(ids[ids.len() - 1] == c);
            }
        }
        lemma_within_len(recs, last, 128);
        match copied_data(recs, last) {
            Some(d) => {
                let r = NvRecord { id: last, data: d };
                assert(prev.push(r).drop_last() =~= prev);
            },
            None => {},
        }
    }
}

/// Each planned record is of a planned code and holds the data that
/// compaction copies for it.
proof fn lemma_plan_records(recs: Seq<NvRecord>, ids: Seq<u16>)
    requires
        forall|k: int| 0 <= k < ids.len() ==> is_item_code(#[trigger] ids[k]),
    ensures
        forall|j: int| 0 <= j < compact_plan(recs, ids).len() ==> ids.contains(
            (#[trigger] compact_plan(recs, ids)[j]).id,
        ) && copied_data(recs, compact_plan(recs, ids)[j].id) == Some(compact_plan(recs, ids)[j].data),
    decreases ids.len(),
{
    if ids.len() > 0 {
        let prev_ids = ids.drop_last();
        assert forall|k: int| 0 <= k < prev_ids.len() implies is_item_code(#[trigger] prev_ids[k]) by {
            assert(prev_ids[k] == ids[k]);
        }
        lemma_plan_records(recs, prev_ids);
        assert(is_item_code(ids[ids.len() - 1]));
        lemma_item_code(ids.last());
        let prev = compact_plan(recs, prev_ids);
        let p = compact_plan(recs, ids);
        assert forall|j: int| 0 <= j < p.len() implies ids.contains((#[trigger] p[j]).id) && copied_data(recs, p[j].id)
            == Some(p[j].data) by {
            if j < prev.len() {
                assert(p[j] == prev[j]);
                let k = choose|k: int| 0 <= k < prev_ids.len() && prev_ids[k] == prev[j].id;
                assert(ids[k] == prev_ids[k]);
            } else {
                assert(ids[ids.len() - 1] == ids.last());
            }
        }
    }
}

/// For distinct item codes, the planned records are of distinct items.
proof fn lemma_plan_distinct(recs: Seq<NvRecord>, ids: Seq<u16>)
    requires
        ids.no_duplicates(),
        forall|k: int| 0 <= k < ids.len() ==> is_item_code(#[trigger] ids[k]),
    ensures
        forall|i: int, j: int|
            0 <= i < j < compact_plan(recs, ids).len() ==> (#[trigger] compact_plan(recs, ids)[i]).id
                != (#[trigger] compact_plan(recs, ids)[j]).id,
    decreases ids.len(),
{
    if ids.len() > 0 {
        let prev_ids = ids.drop_last();
        let last = ids.last();
        assert forall|k: int| 0 <= k < prev_ids.len() implies is_item_code(#[trigger] prev_ids[k]) by {
            assert(prev_ids[k] == ids[k]);
        }
        assert(prev_ids.no_duplicates()) by {
            assert forall|i: int, j: int| 0 <= i < prev_ids.len() && 0 <= j < prev_ids.len() && i != j implies prev_ids[i] != prev_ids[j] by {
                assert(prev_ids[i] == ids[i]);
                assert(prev_ids[j] == ids[j]);
            }
        }
        lemma_plan_distinct(recs, prev_ids);
        lemma_plan_records(recs, prev_ids);
        assert(is_item_code(ids[ids.len() - 1]));
        lemma_item_code(last);
        let prev = compact_plan(recs, prev_ids);
        let p = compact_plan(recs, ids);
        assert forall|i: int, j: int| 0 <= i < j < p.len() implies (#[trigger] p[i]).id != (#[trigger] p[j]).id by {
            assert(p[i] == prev[i]);
            if j < prev.len() {
                assert(p[j] == prev[j]);
            } else {
                let k = choose|k: int| 0 <= k < prev_ids.len() && prev_ids[k] == prev[i].id;
                assert(ids[k] == prev_ids[k]);
                assert(ids[ids.len() - 1] == last);
            }
        }
    }
}

/// Fitting keeps every planned record when the whole plan fits.
proof fn lemma_fit_all(plan: Seq<NvRecord>, size: int)
    requires
        image(plan).len() <= size,
    ensures
        fit_records(plan, size) == plan,
    decreases plan.len(),
{
    if plan.len() > 0 {
        let prev = plan.drop_last();
        let last = plan.last();
        lemma_encode_len(last.id, last.data);
        lemma_align4(last.data.len() as int);
        lemma_fit_all(prev, size);
        assert(prev.push(last) =~= plan);
    }
}

/// Compaction keeps the newest data of every item, provided the records
/// are of items, hold at most 128 bytes each, and the newest data of all
/// items fit in a page.
pub proof fn lemma_compaction_keeps_items(recs: Seq<NvRecord>, size: int, item: NvItemId)
    requires
        item_records(recs),
        image(compact_plan(recs, first_ids(recs))).len() <= size,
    ensures
        newest(fit_records(compact_plan(recs, first_ids(recs)), size), item.spec_raw()) == newest(recs, item.spec_raw()),
        forall|j: int| 0 <= j < fit_records(compact_plan(recs, first_ids(recs)), size).len() ==> {
            let r = #[trigger] fit_records(compact_plan(recs, first_ids(recs)), size)[j];
            newest(fit_records(compact_plan(recs, first_ids(recs)), size), r.id) == Some(r.data)
        },
        forall|i: int, j: int|
            0 <= i < j < fit_records(compact_plan(recs, first_ids(recs)), size).len() ==> (#[trigger] fit_records(
                compact_plan(recs, first_ids(recs)),
                size,
            )[i]).id != (#[trigger] fit_records(compact_plan(recs, first_ids(recs)), size)[j]).id,
{
    let ids = first_ids(recs);
    let c = item.spec_raw();
    lemma_first_ids(recs);
    assert forall|k: int| 0 <= k < ids.len() implies is_item_code(#[trigger] ids[k]) by {
        let j = choose|j: int| 0 <= j < recs.len() && recs[j].id == ids[k];
        assert(is_item_code(recs[j].id));
    }
    lemma_item_codes_bound(ids);
    lemma_plan_newest(recs, ids, c);
    lemma_fit_all(compact_plan(recs, ids), size);
    lemma_within_newest(recs, c, 128);
    if !ids.contains(c) {
        assert forall|j: int| 0 <= j < recs.len() implies (#[trigger] recs[j]).id != c by {
            assert(ids.contains(recs[j].id));
        }
        lemma_newest_absent(recs, c);
    }
    let plan = compact_plan(recs, ids);
    lemma_plan_records(recs, ids);
    lemma_plan_distinct(recs, ids);
    assert forall|j: int| 0 <= j < plan.len() implies {
        let r = #[trigger] plan[j];
        newest(plan, r.id) == Some(r.data)
    } by {
        lemma_plan_newest(recs, ids, plan[j].id);
    }
}

/// The bytes that compaction writes for item code `c`: one record of its
/// copied data, or nothing.
pub open spec fn copied_span(recs: Seq<NvRecord>, c: u16) -> int {
    match copied_data(recs, c) {
        Some(d) => record_span(d.len() as int),
        None => 0,
    }
}

/// The sum of `f` over `ids`.
pub open spec fn sum_codes(ids: Seq<u16>, f: spec_fn(u16) -> int) -> int
    decreases ids.len(),
{
    if ids.len() == 0 {
        0
    } else {
        sum_codes(ids.drop_last(), f) + f(ids.last())
    }
}

/// A sum of terms each no larger than another's is no larger.
proof fn lemma_sum_le(ids: Seq<u16>, f: spec_fn(u16) -> int, g: spec_fn(u16) -> int)
    requires
        forall|c: u16| #[trigger] f(c) <= g(c),
    ensures
        sum_codes(ids, f) <= sum_codes(ids, g),
    decreases ids.len(),
{
    if ids.len() > 0 {
        lemma_sum_le(ids.drop_last(), f, g);
    }
}

/// Over distinct codes, changing the term of one code `x` to 0 takes that
/// term off the sum when `x` occurs.
proof fn lemma_sum_without(ids: Seq<u16>, f: spec_fn(u16) -> int, g: spec_fn(u16) -> int, x: u16)
    requires
        ids.no_duplicates(),
        forall|c: u16| c != x ==> #[trigger] f(c) == g(c),
        g(x) == 0,
    ensures
        sum_codes(ids, f) == sum_codes(ids, g) + if ids.contains(x) { f(x) } else { 0 },
    decreases ids.len(),
{
    if ids.len() > 0 {
        let prev = ids.drop_last();
        assert(prev.no_duplicates()) by {
            assert forall|i: int, j: int| 0 <= i < prev.len() && 0 <= j < prev.len() && i != j implies prev[i] != prev[j] by {
                assert(prev[i] == ids[i]);
                assert(prev[j] == ids[j]);
            }
        }
        lemma_sum_without(prev, f, g, x);
        let l = ids.last();
        assert(ids[ids.len() - 1] == l);
        assert(ids.contains(x) == (prev.contains(x) || l == x)) by {
            if ids.contains(x) && l != x {
                let k = choose|k: int| 0 <= k < ids.len() && ids[k] == x;
                assert(prev[k] == x);
            }
            if prev.contains(x) {
                let k = choose|k: int| 0 <= k < prev.len() && prev[k] == x;
                assert(ids[k] == x);
            }
        }
        if l == x && prev.contains(x) {
            let k = choose|k: int| 0 <= k < prev.len() && prev[k] == x;
            assert(ids[k] == ids[ids.len() - 1]);
        }
    }
}

/// With no records, nothing is copied.
proof fn lemma_sum_copied_empty(ids: Seq<u16>)
    ensures
        sum_codes(ids, |c: u16| copied_span(Seq::<NvRecord>::empty(), c)) == 0,
    decreases ids.len(),
{
    if ids.len() > 0 {
        lemma_sum_copied_empty(ids.drop_last());
    }
}

/// The bytes of the records written one after another add up.
pub proof fn lemma_image_concat(a: Seq<NvRecord>, b: Seq<NvRecord>)
    ensures
        image(a + b) == image(a) + image(b),
    decreases b.len(),
{
    if b.len() > 0 {
        lemma_image_concat(a, b.drop_last());
        assert((a + b).drop_last() =~= a + b.drop_last());
        assert((a + b).last() == b.last());
        assert(image(a) + (image(b.drop_last()) + encode_record(b.last().id, b.last().data)) =~= (image(a)
            + image(b.drop_last())) + encode_record(b.last().id, b.last().data));
    } else {
        assert(a + b =~= a);
        assert(image(a) + image(b) =~= image(a));
    }
}

/// The log read from a page ends where the bytes of its records end.
pub proof fn lemma_log_end_image(m: FlashMemory, page: int, size: int, offset: int)
    ensures
        log_end(m, page, size, offset) == offset + image(records_from(m, page, size, offset)).len(),
    decreases if offset < size { size - offset } else { 0 },
{
    if header_at(m, page, size, offset) {
        lemma_align4(rd16(m, page + offset + 4) as int);
        let n = next_offset(m, page, offset);
        lemma_log_end_image(m, page, size, n);
        let r = record_at(m, page, offset);
        lemma_image_concat(seq![r], records_from(m, page, size, n));
        assert(seq![r].drop_last() =~= Seq::<NvRecord>::empty());
        assert(seq![r].last() == r);
        assert(image(Seq::<NvRecord>::empty()) == Seq::<u8>::empty());
        assert(image(seq![r]) == image(seq![r].drop_last()) + encode_record(r.id, r.data));
        assert(image(seq![r]) =~= encode_record(r.id, r.data));
        lemma_encode_len(r.id, r.data);
        assert(r.data.len() == rd16(m, page + offset + 4));
        assert(records_from(m, page, size, offset) == seq![r] + records_from(m, page, size, n));
        assert(log_end(m, page, size, offset) == log_end(m, page, size, n));
    }
}

/// What compaction copies of distinct codes takes no more bytes than the
/// records it is copied from.
proof fn lemma_copied_bound(recs: Seq<NvRecord>, ids: Seq<u16>)
    requires
        ids.no_duplicates(),
    ensures
        sum_codes(ids, |c: u16| copied_span(recs, c)) <= image(recs).len(),
    decreases recs.len(),
{
    if recs.len() == 0 {
        lemma_sum_copied_empty(ids);
        assert(recs =~= Seq::<NvRecord>::empty());
    } else {
        let prev = recs.drop_last();
        let r = recs.last();
        let x = r.id;
        let f = |c: u16| copied_span(recs, c);
        let h = |c: u16| copied_span(prev, c);
        lemma_copied_bound(prev, ids);
        lemma_encode_len(r.id, r.data);
        lemma_align4(r.data.len() as int);
        assert(image(recs) == image(prev) + encode_record(r.id, r.data));
        if r.data.len() > 128 {
            assert forall|c: u16| #[trigger] f(c) <= h(c) by {}
            lemma_sum_le(ids, f, h);
        } else {
            let g = |c: u16| if c == x { 0 } else { copied_span(prev, c) };
            assert forall|c: u16| c != x implies #[trigger] f(c) == g(c) by {}
            lemma_sum_without(ids, f, g, x);
            lemma_within_len(prev, x, 128);
            assert forall|c: u16| #[trigger] g(c) <= h(c) by {
                lemma_within_len(prev, c, 128);
            }
            lemma_sum_le(ids, g, h);
        }
    }
}

/// For item codes, the bytes of the compaction plan are the copied spans.
proof fn lemma_plan_image(recs: Seq<NvRecord>, ids: Seq<u16>)
    requires
        forall|k: int| 0 <= k < ids.len() ==> is_item_code(#[trigger] ids[k]),
    ensures
        image(compact_plan(recs, ids)).len() == sum_codes(ids, |c: u16| copied_span(recs, c)),
    decreases ids.len(),
{
    if ids.len() > 0 {
        let prev_ids = ids.drop_last();
        assert forall|k: int| 0 <= k < prev_ids.len() implies is_item_code(#[trigger] prev_ids[k]) by {
            assert(prev_ids[k] == ids[k]);
        }
        lemma_plan_image(recs, prev_ids);
        assert(is_item_code(ids[ids.len() - 1]));
        lemma_item_code(ids.last());
        let prev = compact_plan(recs, prev_ids);
        match copied_data(recs, ids.last()) {
            Some(d) => {
                let rec = NvRecord { id: ids.last(), data: d };
                assert(prev.push(rec).drop_last() =~= prev);
                lemma_encode_len(rec.id, rec.data);
            },
            None => {},
        }
    }
}

/// The newest data of the items of a storage's own records take no more
/// room than its log: whenever the log fits in its page, compaction keeps
/// every item.
pub proof fn law_own_items_fit(m: FlashMemory, page: int, size: int)
    requires
        item_records(records_from(m, page, size, 0)),
        log_end(m, page, size, 0) <= size,
    ensures
        image(compact_plan(records_from(m, page, size, 0), first_ids(records_from(m, page, size, 0)))).len() <= size,
{
    let recs = records_from(m, page, size, 0);
    let ids = first_ids(recs);
    lemma_first_ids(recs);
    assert forall|k: int| 0 <= k < ids.len() implies is_item_code(#[trigger] ids[k]) by {
        let j = choose|j: int| 0 <= j < recs.len() && recs[j].id == ids[k];
        assert(is_item_code(recs[j].id));
    }
    lemma_plan_image(recs, ids);
    lemma_copied_bound(recs, ids);
    lemma_log_end_image(m, page, size, 0);
}

/// Whether `x` occurs in `s`.
fn contains_u16(s: &[u16], x: u16) -> (r: bool)
    ensures
        r == s@.contains(x),
{
    let mut j: usize = 0;
    while j < s.len()
        invariant
            j <= s@.len(),
            forall|k: int| 0 <= k < j ==> s@[k] != x,
        decreases s.len() - j,
    {
        if s[j] == x {
            assert(s@[j as int] == x);
            return true;
        }
        j += 1;
    }
    false
}

// ───────────────────────── Storage ─────────────────────────

/// Log-structured non-volatile storage on two sectors of raw flash.
pub struct LogStructuredNv<F: FlashDriver> {
    flash: F,
    /// Flash offset of page A.
    page_a: u32,
    /// Flash offset of page B.
    page_b: u32,
    /// Which page is currently active.
    active_page: u32,
    /// Current write cursor within the active page.
    write_offset: usize,
}

impl<F: FlashDriver> LogStructuredNv<F> {
    /// The flash driver.
    pub closed spec fn spec_flash(&self) -> F {
        self.flash
    }

    /// What the flash holds.
    pub closed spec fn memory(&self) -> FlashMemory {
        self.flash.memory()
    }

    /// Sector (page) size.
    pub closed spec fn page_size(&self) -> int {
        self.flash.spec_sector_size() as int
    }

    /// Number of bytes of flash.
    pub closed spec fn capacity(&self) -> int {
        self.flash.spec_capacity() as int
    }

    /// Flash offset of page A.
    pub closed spec fn spec_page_a(&self) -> int {
        self.page_a as int
    }

    /// Flash offset of page B.
    pub closed spec fn spec_page_b(&self) -> int {
        self.page_b as int
    }

    /// Flash offset of the active page.
    pub closed spec fn active(&self) -> int {
        self.active_page as int
    }

    /// Offset in the active page at which the next record goes.
    pub closed spec fn cursor(&self) -> int {
        self.write_offset as int
    }

    /// The records of the active page.
    pub open spec fn records(&self) -> Seq<NvRecord> {
        records_from(self.memory(), self.active(), self.page_size(), 0)
    }

    /// Two pages within a flash of `capacity` bytes that do not overlap
    /// and that lie within the 32-bit address space.
    pub open spec fn valid_pages(page_a: int, page_b: int, size: int, capacity: int) -> bool {
        &&& page_a + size <= page_b || page_b + size <= page_a
        &&& page_a + size <= u32::MAX
        &&& page_b + size <= u32::MAX
        &&& page_a + size <= capacity
        &&& page_b + size <= capacity
    }

    /// Invariant of the storage, kept by every operation.
    pub open spec fn wf(&self) -> bool {
        &&& Self::valid_pages(self.spec_page_a(), self.spec_page_b(), self.page_size(), self.capacity())
        &&& self.active() == self.spec_page_a() || self.active() == self.spec_page_b()
        &&& 0 <= self.cursor() <= self.page_size() + 0x1_0000
    }

    /// The page that is not active.
    pub open spec fn scratch(&self) -> int {
        if self.active() == self.spec_page_a() {
            self.spec_page_b()
        } else {
            self.spec_page_a()
        }
    }

    /// The active page holds a well-formed log that ends at the write
    /// cursor, followed by erased flash.
    pub open spec fn consistent(&self) -> bool {
        &&& self.wf()
        &&& log_ends_at(self.memory(), self.active(), self.page_size(), self.cursor())
    }

    /// `self` is the storage that [`Self::new`] opens on a flash holding `m`
    /// with the sectors at `page_a` and `page_b`: the active page is the one
    /// that starts with a record header (page A when both or neither do, and
    /// then page B is erased), and the cursor is where its log ends.
    pub open spec fn opened_on(&self, m: FlashMemory, page_a: int, page_b: int) -> bool {
        let a_valid = rd16(m, page_a) == 0xA55Au16;
        let b_valid = rd16(m, page_b) == 0xA55Au16;
        &&& self.wf()
        &&& self.spec_page_a() == page_a
        &&& self.spec_page_b() == page_b
        &&& self.active() == if !a_valid && b_valid {
            page_b
        } else {
            page_a
        }
        &&& self.memory() == if a_valid && b_valid {
            mem_erase(m, page_b, self.page_size())
        } else {
            m
        }
        &&& self.cursor() == log_end(self.memory(), self.active(), self.page_size(), 0)
    }

    /// No record header starts the scratch page, so that opening the flash
    /// again picks up the same active page.
    pub open spec fn restartable(&self) -> bool {
        &&& self.wf()
        &&& !header_at(self.memory(), self.scratch(), self.page_size(), 0)
    }

    /// `after` is `self` after one write or deletion of an item (whatever it
    /// returned) or one compaction.
    pub open spec fn step_to(&self, after: Self) -> bool {
        ||| self.compacted_to(after)
        ||| exists|id: NvItemId, data: Seq<u8>, r: Result<(), NvError>|
            data.len() <= MAX_ITEM_LEN && #[trigger] self.appended_to(id.spec_raw(), data, after, r)
    }

    /// `states` are a storage and what it became after each call of a
    /// sequence of writes, deletions and compactions.
    pub open spec fn is_run(states: Seq<Self>) -> bool
        decreases states.len(),
    {
        if states.len() <= 1 {
            true
        } else {
            Self::is_run(states.drop_last()) && states[states.len() - 2].step_to(states.last())
        }
    }

    /// `states` are a storage and what it became after each call of a
    /// sequence of compactions and writes and deletions of items other than `id`.
    pub open spec fn is_run_avoiding(states: Seq<Self>, id: NvItemId) -> bool
        decreases states.len(),
    {
        if states.len() <= 1 {
            true
        } else {
            Self::is_run_avoiding(states.drop_last(), id) && states[states.len() - 2].step_avoiding(states.last(), id)
        }
    }

    /// `after` is `self` after one compaction, or one write or deletion of
    /// an item other than `id`.
    pub open spec fn step_avoiding(&self, after: Self, id: NvItemId) -> bool {
        ||| self.compacted_to(after)
        ||| exists|other: NvItemId, data: Seq<u8>, r: Result<(), NvError>|
            other != id && data.len() <= MAX_ITEM_LEN && #[trigger] self.appended_to(other.spec_raw(), data, after, r)
    }

    /// The log of the active page ends within the page.
    pub open spec fn log_fits(&self) -> bool {
        log_end(self.memory(), self.active(), self.page_size(), 0) <= self.page_size()
    }

    /// Same pages and sector size.
    pub open spec fn same_layout(&self, other: Self) -> bool {
        &&& other.spec_page_a() == self.spec_page_a()
        &&& other.spec_page_b() == self.spec_page_b()
        &&& other.page_size() == self.page_size()
        &&& other.capacity() == self.capacity()
    }

    /// The records that compaction writes to the scratch page: the latest
    /// data of each item of the active page, in order of first appearance.
    pub open spec fn compacted_records(&self) -> Seq<NvRecord> {
        fit_records(compact_plan(self.records(), first_ids(self.records())), self.page_size())
    }

    /// Flash after compaction: the scratch page holds the compacted records,
    /// the old active page is erased, the rest is unchanged.
    pub open spec fn compacted_memory(&self) -> FlashMemory {
        page_image(
            image(self.compacted_records()),
            self.scratch(),
            self.page_size(),
            mem_erase(self.memory(), self.active(), self.page_size()),
        )
    }

    /// `after` is `self` after compaction.
    pub open spec fn compacted_to(&self, after: Self) -> bool {
        &&& after.wf()
        &&& self.same_layout(after)
        &&& after.active() == self.scratch()
        &&& after.consistent()
        &&& forall|a: int|
            !(self.scratch() <= a < self.scratch() + self.page_size()) ==> #[trigger] (after.memory())(a)
                == (mem_erase(self.memory(), self.active(), self.page_size()))(a)
        &&& self.log_fits() ==> {
            &&& after.memory() == self.compacted_memory()
            &&& after.cursor() == image(self.compacted_records()).len()
        }
    }

    /// `after` and `r` are `self` after appending the record of `raw` holding
    /// `data`: written at the cursor when it fits; otherwise the storage is
    /// compacted first, and the record is written when it then fits.
    pub open spec fn appended_to(&self, raw: u16, data: Seq<u8>, after: Self, r: Result<(), NvError>) -> bool {
        let total = record_span(data.len() as int);
        &&& after.wf()
        &&& self.same_layout(after)
        &&& if self.cursor() + total <= self.page_size() {
            &&& r is Ok
            &&& after.active() == self.active()
            &&& after.memory() == mem_write(self.memory(), self.active() + self.cursor(), encode_record(raw, data))
            &&& after.cursor() == self.cursor() + total
        } else {
            let c = image(self.compacted_records()).len() as int;
            &&& after.active() == self.scratch()
            &&& after.consistent()
            &&& r is Ok || r == Err::<(), NvError>(NvError::Full)
            &&& forall|a: int|
                !(self.scratch() <= a < self.scratch() + self.page_size()) ==> #[trigger] (after.memory())(a)
                    == (mem_erase(self.memory(), self.active(), self.page_size()))(a)
            &&& self.log_fits() ==> if c + total <= self.page_size() {
                &&& r is Ok
                &&& after.memory() == mem_write(self.compacted_memory(), self.scratch() + c, encode_record(raw, data))
                &&& after.cursor() == c + total
            } else {
                &&& r == Err::<(), NvError>(NvError::Full)
                &&& after.memory() == self.compacted_memory()
                &&& after.cursor() == c
            }
        }
    }

    fn scratch_page(&self) -> (r: u32)
        ensures
            r == self.scratch(),
    {
        if self.active_page == self.page_a {
            self.page_b
        } else {
            self.page_a
        }
    }

    fn sector_size(&self) -> (r: usize)
        ensures
            r == self.page_size(),
    {
        self.flash.sector_size()
    }

    /// Whether a record header starts the page at `page`.
    fn page_has_data(&self, page: u32) -> (r: bool)
        ensures
            r == (rd16(self.memory(), page as int) == 0xA55Au16),
    {
        let mut hdr = [0u8; HEADER_SIZE];
        self.flash.read(page, &mut hdr);
        le_u16(hdr[0], hdr[1]) == ITEM_MAGIC
    }

    /// Offset at which the log of the page at `page` ends.
    fn find_write_offset(&self, page: u32) -> (r: usize)
        requires
            page as int + self.page_size() <= u32::MAX,
            self.page_size() <= 0x8000_0000,
        ensures
            r == log_end(self.memory(), page as int, self.page_size(), 0),
            r <= self.page_size() + 0x1_0000,
    {
        let page_size = self.sector_size();
        let mut offset: usize = 0;
        let mut hdr = [0u8; HEADER_SIZE];
        let ghost m = self.memory();
        let ghost size = self.page_size();
        while offset + HEADER_SIZE <= page_size
            invariant
                m == self.memory(),
                size == self.page_size(),
                page_size == size,
                page as int + size <= u32::MAX,
                size <= 0x8000_0000,
                0 <= offset <= size + 0x1_0000,
                log_end(m, page as int, size, offset as int) == log_end(m, page as int, size, 0),
            decreases size + 0x1_0000 - offset,
        {
            self.flash.read(page + offset as u32, &mut hdr);
            if le_u16(hdr[0], hdr[1]) != ITEM_MAGIC {
                return offset;
            }
            let len = le_u16(hdr[4], hdr[5]) as usize;
            proof {
                lemma_align4(len as int);
            }
            offset += HEADER_SIZE + align4(len);
        }
        offset
    }

    /// Find the newest record of `id` in the page at `page`: the flash
    /// address and length of its data, `None` when the item has no record
    /// or the newest one is a deletion.
    fn find_latest_in(&self, page: u32, id: NvItemId, cap: usize) -> (r: Option<(u32, usize)>)
        requires
            page as int + self.page_size() <= u32::MAX,
            self.page_size() <= 0x8000_0000,
        ensures
            match r {
                None => latest_within(records_from(self.memory(), page as int, self.page_size(), 0), id.spec_raw(), cap as int) is None,
                Some((a, n)) => {
                    &&& 0 < n <= 0xFFFF
                    &&& n <= cap
                    &&& latest_within(records_from(self.memory(), page as int, self.page_size(), 0), id.spec_raw(), cap as int)
                        == Some(Seq::new(n as nat, |i: int| (self.memory())(a + i)))
                },
            },
            forall|j: int| 0 <= j < records_from(self.memory(), page as int, self.page_size(), 0).len()
                ==> (#[trigger] records_from(self.memory(), page as int, self.page_size(), 0)[j]).data.len() <= 0xFFFF,
    {
        let page_size = self.sector_size();
        let raw = id.raw();
        let mut offset: usize = 0;
        let mut hdr = [0u8; HEADER_SIZE];
        let mut found: Option<(u32, usize)> = None;
        let ghost m = self.memory();
        let ghost pg = page as int;
        let ghost size = self.page_size();
        let ghost mut done: Seq<NvRecord> = Seq::empty();
        assert(done + records_from(m, pg, size, 0) =~= records_from(m, pg, size, 0));
        while offset + HEADER_SIZE <= page_size
            invariant
                page as int + size <= u32::MAX,
                size <= 0x8000_0000,
                m == self.memory(),
                pg == page as int,
                size == self.page_size(),
                page_size == size,
                raw == id.spec_raw(),
                0 <= offset <= size + 0x1_0000,
                records_from(m, pg, size, 0) == done + records_from(m, pg, size, offset as int),
                forall|j: int| 0 <= j < done.len() ==> (#[trigger] done[j]).data.len() <= 0xFFFF,
                match found {
                    None => latest_within(done, raw, cap as int) is None,
                    Some((a, n)) => 0 < n <= 0xFFFF && n <= cap && latest_within(done, raw, cap as int) == Some(
                        Seq::new(n as nat, |i: int| m(a + i)),
                    ),
                },
            ensures
                records_from(m, pg, size, 0) == done,
                forall|j: int| 0 <= j < done.len() ==> (#[trigger] done[j]).data.len() <= 0xFFFF,
                match found {
                    None => latest_within(done, raw, cap as int) is None,
                    Some((a, n)) => 0 < n <= 0xFFFF && n <= cap && latest_within(done, raw, cap as int) == Some(
                        Seq::new(n as nat, |i: int| m(a + i)),
                    ),
                },
            decreases size + 0x1_0000 - offset,
        {
            self.flash.read(page + offset as u32, &mut hdr);
            if le_u16(hdr[0], hdr[1]) != ITEM_MAGIC {
                assert(done + records_from(m, pg, size, offset as int) =~= done);
                break;
            }
            let item_id = le_u16(hdr[2], hdr[3]);
            let len = le_u16(hdr[4], hdr[5]) as usize;
            let ghost rec = record_at(m, pg, offset as int);
            assert(header_at(m, pg, size, offset as int));
            if item_id == raw && len <= cap {
                if len == 0 {
                    found = None;
                } else {
                    let a = page + (offset + HEADER_SIZE) as u32;
                    assert(Seq::new(len as nat, |i: int| m(a + i)) =~= rec.data);
                    found = Some((a, len));
                }
            }
            proof {
                let next = done.push(rec);
                assert(next.drop_last() =~= done);
                assert forall|j: int| 0 <= j < next.len() implies (#[trigger] next[j]).data.len() <= 0xFFFF by {
                    if j < done.len() {
                        assert(next[j] == done[j]);
                    }
                }
                assert(records_from(m, pg, size, offset as int) =~= seq![rec] + records_from(
                    m, pg, size, next_offset(m, pg, offset as int)));
                assert(done + records_from(m, pg, size, offset as int) =~= next + records_from(
                    m, pg, size, next_offset(m, pg, offset as int)));
                done = next;
                lemma_align4(len as int);
            }
            offset += HEADER_SIZE + align4(len);
        }
        found
    }

    /// Find the newest record of `id` in the active page.
    fn find_latest(&self, id: NvItemId) -> (r: Option<(u32, usize)>)
        requires
            self.wf(),
        ensures
            match r {
                None => newest(self.records(), id.spec_raw()) is None,
                Some((a, n)) => {
                    &&& 0 < n <= 0xFFFF
                    &&& newest(self.records(), id.spec_raw()) == Some(Seq::new(n as nat, |i: int| (self.memory())(a + i)))
                },
            },
    {
        let r = self.find_latest_in(self.active_page, id, 0xFFFF);
        proof {
            lemma_within_newest(self.records(), id.spec_raw(), 0xFFFF);
        }
        r
    }

    /// Write the record of `raw` holding `data` at the write cursor.
    fn write_record(&mut self, raw: u16, data: &[u8])
        requires
            old(self).wf(),
            data@.len() <= 128,
            old(self).cursor() + record_span(data@.len() as int) <= old(self).page_size(),
        ensures
            final(self).wf(),
            old(self).same_layout(*final(self)),
            final(self).active() == old(self).active(),
            final(self).memory() == mem_write(old(self).memory(), old(self).active() + old(self).cursor(), encode_record(raw, data@)),
            final(self).cursor() == old(self).cursor() + record_span(data@.len() as int),
    {
        let len = data.len();
        proof {
            lemma_align4(len as int);
        }
        let total = HEADER_SIZE + align4(len);
        let mut write_buf = [0xFFu8; 136];
        let (magic_lo, magic_hi) = u16_le_bytes(ITEM_MAGIC);
        let (id_lo, id_hi) = u16_le_bytes(raw);
        let (len_lo, len_hi) = u16_le_bytes(len as u16);
        write_buf[0] = magic_lo;
        write_buf[1] = magic_hi;
        write_buf[2] = id_lo;
        write_buf[3] = id_hi;
        write_buf[4] = len_lo;
        write_buf[5] = len_hi;
        write_buf[6] = 0x00;
        write_buf[7] = 0x00;
        let ghost header = seq![magic_lo, magic_hi, id_lo, id_hi, len_lo, len_hi, 0u8, 0u8];
        let mut i: usize = 0;
        while i < len
            invariant
                len == data@.len(),
                len <= 128,
                write_buf@.len() == 136,
                header.len() == 8,
                forall|k: int| 0 <= k < 8 ==> write_buf@[k] == #[trigger] header[k],
                forall|k: int| 0 <= k < i ==> write_buf@[8 + k] == #[trigger] data@[k],
                forall|k: int| 8 + len <= k < 136 ==> #[trigger] write_buf@[k] == 0xFFu8,
                i <= len,
            decreases len - i,
        {
            write_buf[HEADER_SIZE + i] = data[i];
            i += 1;
        }
        let out = vstd::slice::slice_subrange(&write_buf, 0, total);
        assert(out@ =~= encode_record(raw, data@)) by {
            lemma_encode_len(raw, data@);
            let e = encode_record(raw, data@);
            assert forall|k: int| 0 <= k < total implies out@[k] == e[k] by {
                if k < 8 {
                    assert(write_buf@[k] == header[k]);
                } else if k < 8 + len {
                    assert(write_buf@[8 + (k - 8)] == data@[k - 8]);
                } else {
                    assert(write_buf@[k] == 0xFFu8);
                }
            }
        }
        self.flash.write(self.active_page + self.write_offset as u32, out);
        self.write_offset = self.write_offset + total;
    }

    /// The item codes of the page at `page`, in order of first appearance,
    /// at most 32 of them.
    fn collect_ids(&self, page: u32) -> (ids: heapless::Vec<u16, 32>)
        requires
            page as int + self.page_size() <= u32::MAX,
            self.page_size() <= 0x8000_0000,
        ensures
            u16x32_items(ids) == first_ids(records_from(self.memory(), page as int, self.page_size(), 0)),
    {
        let page_size = self.sector_size();
        let mut seen_ids = u16x32_new();
        let mut offset: usize = 0;
        let mut hdr = [0u8; HEADER_SIZE];
        let ghost m = self.memory();
        let ghost pg = page as int;
        let ghost size = self.page_size();
        let ghost mut done: Seq<NvRecord> = Seq::empty();
        assert(done + records_from(m, pg, size, 0) =~= records_from(m, pg, size, 0));
        while offset + HEADER_SIZE <= page_size
            invariant
                page as int + size <= u32::MAX,
                size <= 0x8000_0000,
                m == self.memory(),
                pg == page as int,
                size == self.page_size(),
                page_size == size,
                0 <= offset <= size + 0x1_0000,
                records_from(m, pg, size, 0) == done + records_from(m, pg, size, offset as int),
                u16x32_items(seen_ids) == first_ids(done),
            ensures
                records_from(m, pg, size, 0) == done,
                u16x32_items(seen_ids) == first_ids(done),
            decreases size + 0x1_0000 - offset,
        {
            self.flash.read(page + offset as u32, &mut hdr);
            if le_u16(hdr[0], hdr[1]) != ITEM_MAGIC {
                assert(done + records_from(m, pg, size, offset as int) =~= done);
                break;
            }
            let item_id = le_u16(hdr[2], hdr[3]);
            let len = le_u16(hdr[4], hdr[5]) as usize;
            let ghost rec = record_at(m, pg, offset as int);
            assert(header_at(m, pg, size, offset as int));
            let present = contains_u16(u16x32_as_slice(&seen_ids), item_id);
            if !present {
                let _ = u16x32_push(&mut seen_ids, item_id);
            }
            proof {
                let next = done.push(rec);
                assert(next.drop_last() =~= done);
                assert(records_from(m, pg, size, offset as int) =~= seq![rec] + records_from(
                    m, pg, size, next_offset(m, pg, offset as int)));
                assert(done + records_from(m, pg, size, offset as int) =~= next + records_from(
                    m, pg, size, next_offset(m, pg, offset as int)));
                done = next;
                lemma_align4(len as int);
            }
            offset += HEADER_SIZE + align4(len);
        }
        seen_ids
    }

    /// Copy the latest data of each item to the scratch page, erase the
    /// active page and make the scratch page the active one.
    ///
    /// An item that no longer fits in the scratch page is left out.
    #[verifier::spinoff_prover]
    #[verifier::rlimit(40)]
    pub fn compact(&mut self) -> (r: Result<(), NvError>)
        requires
            old(self).wf(),
        ensures
            r is Ok,
            old(self).compacted_to(*final(self)),
    {
        let ghost s0: Self = *self;
        let ghost m0 = self.memory();
        let ghost size = self.page_size();
        let scratch = self.scratch_page();
        let old_active = self.active_page;
        let ghost sp = scratch as int;
        let ghost op = old_active as int;
        self.flash.erase_sector(scratch);
        let ghost m1 = self.memory();
        let page_size = self.sector_size();
        let seen_ids = self.collect_ids(old_active);
        let ghost recs1 = records_from(m1, op, size, 0);
        let ghost fits1 = log_end(m1, op, size, 0) <= size;
        proof {
            assert forall|a: int| op <= a < op + size implies #[trigger] m0(a) == m1(a) by {}
            if s0.log_fits() {
                lemma_log_stable(m0, m1, op, size);
            }
            assert forall|a: int| sp <= a < sp + size implies #[trigger] m1(a) == 0xFFu8 by {}
            lemma_erased_page(m1, sp, size);
            assert(page_image(image(Seq::<NvRecord>::empty()), sp, size, m1) =~= m1);
        }
        self.active_page = scratch;
        self.write_offset = 0;
        let ids = u16x32_as_slice(&seen_ids);
        let mut data_buf = [0u8; 128];
        let mut i: usize = 0;
        assert(ids@.take(0) =~= Seq::<u16>::empty());
        while i < ids.len()
            invariant
                self.wf(),
                s0.wf(),
                s0.same_layout(*self),
                size == self.page_size(),
                page_size == size,
                self.active() == sp,
                sp == s0.scratch(),
                op == s0.active(),
                scratch as int == sp,
                old_active as int == op,
                Self::valid_pages(s0.spec_page_a(), s0.spec_page_b(), size, s0.capacity()),
                ids@ == first_ids(recs1),
                i <= ids@.len(),
                data_buf@.len() == 128,
                recs1 == records_from(m1, op, size, 0),
                fits1 == (log_end(m1, op, size, 0) <= size),
                forall|a: int| !(sp <= a < sp + size) ==> #[trigger] (self.memory())(a) == m1(a),
                log_ends_at(self.memory(), sp, size, self.cursor()),
                fits1 ==> self.memory() == page_image(
                    image(fit_records(compact_plan(recs1, ids@.take(i as int)), size)), sp, size, m1),
                fits1 ==> self.cursor() == image(fit_records(compact_plan(recs1, ids@.take(i as int)), size)).len(),
            decreases ids.len() - i,
        {
            let item_id = ids[i];
            let ghost mem = self.memory();
            let ghost cur = self.cursor();
            let ghost plan = compact_plan(recs1, ids@.take(i as int));
            let ghost fitted = fit_records(plan, size);
            proof {
                lemma_plan_step(recs1, ids@, i as int);
                if fits1 {
                    assert forall|a: int| op <= a < op + size implies #[trigger] m1(a) == mem(a) by {}
                    lemma_log_stable(m1, mem, op, size);
                }
            }
            match raw_to_nv_item_id(item_id) {
                Some(nv_id) => {
                    match self.find_latest_in(old_active, nv_id, 128) {
                        Some((addr, len)) => {
                            let ghost before_buf = data_buf@;
                            {
                                let whole: &mut [u8] = &mut data_buf;
                                let (head, _tail) = whole.split_at_mut(len);
                                self.flash.read(addr, head);
                            }
                            assert(data_buf@.subrange(0, len as int) =~= Seq::new(len as nat, |k: int| mem(addr + k)));
                            proof {
                                lemma_align4(len as int);
                            }
                            let total = HEADER_SIZE + align4(len);
                            let ghost rec = NvRecord { id: nv_id.spec_raw(), data: data_buf@.subrange(0, len as int) };
                            proof {
                                lemma_fit_step(plan, rec, size);
                            }
                            if self.write_offset + total <= page_size {
                                let d = vstd::slice::slice_subrange(&data_buf, 0, len);
                                let raw = nv_id.raw();
                                proof {
                                    lemma_append_record(mem, sp, size, cur, raw, d@);
                                    if fits1 {
                                        lemma_encode_len(raw, d@);
                                        lemma_page_image_push(fitted, rec, sp, size, m1);
                                    }
                                }
                                self.write_record(raw, d);
                            }
                        },
                        None => {},
                    }
                },
                None => {},
            }
            i += 1;
        }
        proof {
            assert(ids@.take(ids@.len() as int) =~= ids@);
        }
        let ghost mn = self.memory();
        self.flash.erase_sector(old_active);
        proof {
            let mf = self.memory();
            assert forall|a: int| sp <= a < sp + size implies #[trigger] mn(a) == mf(a) by {}
            lemma_log_ends_at_stable(mn, mf, sp, size, self.cursor());
            if s0.log_fits() {
                assert(recs1 == s0.records());
                assert(mf =~= s0.compacted_memory());
            }
        }
        Ok(())
    }


    /// After a successful write or deletion on a consistent storage, the
    /// storage is consistent and its log is the previous log (compacted when
    /// the record did not fit) followed by the new record.
    pub proof fn law_append_adds_record(before: Self, raw: u16, data: Seq<u8>, after: Self, r: Result<(), NvError>)
        requires
            before.consistent(),
            data.len() <= MAX_ITEM_LEN,
            before.appended_to(raw, data, after, r),
            r is Ok,
        ensures
            after.consistent(),
            after.records() == if before.cursor() + record_span(data.len() as int) <= before.page_size() {
                before.records()
            } else {
                before.compacted_records()
            }.push(NvRecord { id: raw, data }),
    {
        let size = before.page_size();
        if before.cursor() + record_span(data.len() as int) <= size {
            lemma_append_record(before.memory(), before.active(), size, before.cursor(), raw, data);
        } else {
            let cr = before.compacted_records();
            let base = mem_erase(before.memory(), before.active(), size);
            lemma_compacted_log(before.records(), before.scratch(), size, base);
            lemma_append_record(before.compacted_memory(), before.scratch(), size, image(cr).len() as int, raw, data);
        }
    }

    /// Reading an item right after writing it gives back the data written.
    pub proof fn law_read_after_write(before: Self, id: NvItemId, data: Seq<u8>, after: Self, r: Result<(), NvError>)
        requires
            before.consistent(),
            0 < data.len() <= MAX_ITEM_LEN,
            before.appended_to(id.spec_raw(), data, after, r),
            r is Ok,
        ensures
            after.consistent(),
            newest(after.records(), id.spec_raw()) == Some(data),
    {
        Self::law_append_adds_record(before, id.spec_raw(), data, after, r);
    }

    /// Reading an item right after deleting it finds nothing.
    pub proof fn law_read_after_delete(before: Self, id: NvItemId, after: Self, r: Result<(), NvError>)
        requires
            before.consistent(),
            before.appended_to(id.spec_raw(), Seq::<u8>::empty(), after, r),
            r is Ok,
        ensures
            after.consistent(),
            newest(after.records(), id.spec_raw()) is None,
    {
        Self::law_append_adds_record(before, id.spec_raw(), Seq::<u8>::empty(), after, r);
    }

    /// Writing or deleting one item without compaction leaves what is read of
    /// every other item unchanged.
    pub proof fn law_write_leaves_others(before: Self, id: NvItemId, data: Seq<u8>, after: Self, r: Result<(), NvError>, other: NvItemId)
        requires
            before.consistent(),
            data.len() <= MAX_ITEM_LEN,
            before.appended_to(id.spec_raw(), data, after, r),
            r is Ok,
            other != id,
            before.cursor() + record_span(data.len() as int) <= before.page_size(),
        ensures
            newest(after.records(), other.spec_raw()) == newest(before.records(), other.spec_raw()),
    {
        Self::law_append_adds_record(before, id.spec_raw(), data, after, r);
        crate::runtime::nv::lemma_raw_injective(id, other);
        assert(before.records().push(NvRecord { id: id.spec_raw(), data }).drop_last() =~= before.records());
    }

    /// A write or deletion of an item, whatever it returns, keeps the
    /// storage consistent and its records the storage's own: each of an item,
    /// with at most 128 bytes.
    pub proof fn law_write_keeps_item_records(
        before: Self,
        id: NvItemId,
        data: Seq<u8>,
        after: Self,
        r: Result<(), NvError>,
    )
        requires
            before.consistent(),
            item_records(before.records()),
            data.len() <= MAX_ITEM_LEN,
            before.appended_to(id.spec_raw(), data, after, r),
        ensures
            after.consistent(),
            item_records(after.records()),
    {
        let size = before.page_size();
        let rec = NvRecord { id: id.spec_raw(), data };
        assert(is_item_code(id.spec_raw()));
        if r is Ok {
            Self::law_append_adds_record(before, id.spec_raw(), data, after, r);
            let prev = if before.cursor() + record_span(data.len() as int) <= size {
                before.records()
            } else {
                lemma_compacted_items(before.records(), size);
                before.compacted_records()
            };
            assert forall|j: int| 0 <= j < prev.push(rec).len() implies is_item_code((#[trigger] prev.push(rec)[j]).id)
                && prev.push(rec)[j].data.len() <= 128 by {
                if j < prev.len() {
                    assert(prev.push(rec)[j] == prev[j]);
                }
            }
        } else {
            Self::law_full_write_compacts(before, id.spec_raw(), data, after, r);
            lemma_compacted_items(before.records(), size);
        }
    }

    /// A write or deletion of one item, whatever it returns, keeps the storage consistent with records of its
    /// own, and leaves the newest data of every other item unchanged: so a
    /// read of an item gives back what was last written for it through any
    /// later writes and deletions of other items and compactions.
    pub proof fn law_write_keeps_other_items(
        before: Self,
        id: NvItemId,
        data: Seq<u8>,
        after: Self,
        r: Result<(), NvError>,
        other: NvItemId,
    )
        requires
            before.consistent(),
            item_records(before.records()),
            data.len() <= MAX_ITEM_LEN,
            before.appended_to(id.spec_raw(), data, after, r),
            other != id,
        ensures
            after.consistent(),
            item_records(after.records()),
            newest(after.records(), other.spec_raw()) == newest(before.records(), other.spec_raw()),
    {
        Self::law_write_keeps_item_records(before, id, data, after, r);
        Self::law_compacting_write_leaves_others(before, id, data, after, r, other);
    }

    /// A write or deletion that fails for want of room has compacted the
    /// storage: what it holds then is the compacted records.
    proof fn law_full_write_compacts(before: Self, raw: u16, data: Seq<u8>, after: Self, r: Result<(), NvError>)
        requires
            before.consistent(),
            data.len() <= MAX_ITEM_LEN,
            before.appended_to(raw, data, after, r),
            r is Err,
        ensures
            after.consistent(),
            after.records() == before.compacted_records(),
    {
        let size = before.page_size();
        let base = mem_erase(before.memory(), before.active(), size);
        lemma_compacted_log(before.records(), before.scratch(), size, base);
    }

    /// A write or deletion, whether it compacts the storage first or not,
    /// leaves what is read of every other item unchanged, whatever it
    /// returns, provided the records are the storage's own.
    pub proof fn law_compacting_write_leaves_others(
        before: Self,
        id: NvItemId,
        data: Seq<u8>,
        after: Self,
        r: Result<(), NvError>,
        other: NvItemId,
    )
        requires
            before.consistent(),
            data.len() <= MAX_ITEM_LEN,
            before.appended_to(id.spec_raw(), data, after, r),
            other != id,
            item_records(before.records()),
        ensures
            newest(after.records(), other.spec_raw()) == newest(before.records(), other.spec_raw()),
    {
        law_own_items_fit(before.memory(), before.active(), before.page_size());
        crate::runtime::nv::lemma_raw_injective(id, other);
        lemma_compaction_keeps_items(before.records(), before.page_size(), other);
        if r is Err {
            Self::law_full_write_compacts(before, id.spec_raw(), data, after, r);
        } else {
            Self::law_append_adds_record(before, id.spec_raw(), data, after, r);
            let prev = if before.cursor() + record_span(data.len() as int) <= before.page_size() {
                before.records()
            } else {
                before.compacted_records()
            };
            assert(prev.push(NvRecord { id: id.spec_raw(), data }).drop_last() =~= prev);
        }
    }

    /// Compacting a consistent storage leaves it consistent and keeps the
    /// newest data of every item; what is left is one record per item, the
    /// newest one and not a deletion (deleted and superseded records are dropped),
    /// provided its records are the storage's own.
    pub proof fn law_compact_keeps_items(before: Self, after: Self, item: NvItemId)
        requires
            before.consistent(),
            before.compacted_to(after),
            item_records(before.records()),
        ensures
            after.consistent(),
            item_records(after.records()),
            newest(after.records(), item.spec_raw()) == newest(before.records(), item.spec_raw()),
            forall|j: int| 0 <= j < after.records().len() ==> {
                let r = #[trigger] after.records()[j];
                newest(after.records(), r.id) == Some(r.data)
            },
            forall|i: int, j: int|
                0 <= i < j < after.records().len() ==> (#[trigger] after.records()[i]).id != (#[trigger] after.records()[j]).id,
    {
        let size = before.page_size();
        let base = mem_erase(before.memory(), before.active(), size);
        law_own_items_fit(before.memory(), before.active(), size);
        lemma_compacted_log(before.records(), before.scratch(), size, base);
        lemma_compaction_keeps_items(before.records(), size, item);
        lemma_compacted_items(before.records(), size);
    }

    /// Every storage reached by calls from a restartable one is restartable,
    /// on the same sectors.
    proof fn lemma_run_restartable(states: Seq<Self>)
        requires
            states.len() > 0,
            states[0].restartable(),
            Self::is_run(states),
        ensures
            states.last().restartable(),
            states[0].same_layout(states.last()),
        decreases states.len(),
    {
        if states.len() > 1 {
            let prev = states.drop_last();
            assert(prev[0] == states[0]);
            Self::lemma_run_restartable(prev);
            let before = states[states.len() - 2];
            let after = states.last();
            assert(prev.last() == before);
            if before.compacted_to(after) {
                Self::law_compact_keeps_restartable(before, after);
            } else {
                let (id, data, r) = choose|id: NvItemId, data: Seq<u8>, r: Result<(), NvError>|
                    data.len() <= MAX_ITEM_LEN && #[trigger] before.appended_to(id.spec_raw(), data, after, r);
                Self::law_append_keeps_restartable(before, id.spec_raw(), data, after, r);
            }
        }
    }

    /// A power cycle after any sequence of writes, deletions and compactions
    /// (whatever each returned) loses nothing: opening the flash again, on
    /// the same sectors, gives a storage with the same records as the last
    /// one, so that every read, [`Self::has_item`] and [`Self::item_length`]
    /// answers as before. The storage at the start of the run is the one
    /// opened on flash holding `m`, whatever that held.
    pub proof fn law_restart_after_run(states: Seq<Self>, m: FlashMemory, page_a: int, page_b: int, after: Self)
        requires
            states.len() > 0,
            states[0].opened_on(m, page_a, page_b),
            Self::is_run(states),
            after.opened_on(states.last().memory(), page_a, page_b),
            after.page_size() == states.last().page_size(),
        ensures
            after.records() == states.last().records(),
    {
        Self::law_opened_restartable(states[0], m, page_a, page_b);
        Self::lemma_run_restartable(states);
        Self::law_restart_reads_the_same(states.last(), after);
    }

    /// A run of calls from a consistent storage whose records are its own
    /// keeps it so.
    pub proof fn law_run_keeps_own_records(states: Seq<Self>)
        requires
            states.len() > 0,
            states[0].consistent(),
            item_records(states[0].records()),
            Self::is_run(states),
        ensures
            states.last().consistent(),
            item_records(states.last().records()),
        decreases states.len(),
    {
        if states.len() > 1 {
            let prev = states.drop_last();
            assert(prev[0] == states[0]);
            Self::law_run_keeps_own_records(prev);
            let before = states[states.len() - 2];
            let after = states.last();
            assert(prev.last() == before);
            if before.compacted_to(after) {
                Self::law_compact_keeps_items(before, after, NvItemId::NwkPanId);
            } else {
                let (id, data, r) = choose|id: NvItemId, data: Seq<u8>, r: Result<(), NvError>|
                    data.len() <= MAX_ITEM_LEN && #[trigger] before.appended_to(id.spec_raw(), data, after, r);
                Self::law_write_keeps_item_records(before, id, data, after, r);
            }
        }
    }

    /// Compactions and writes and deletions of other items keep the newest
    /// data of `id`.
    proof fn lemma_avoiding_run(states: Seq<Self>, id: NvItemId)
        requires
            states.len() > 0,
            states[0].consistent(),
            item_records(states[0].records()),
            Self::is_run_avoiding(states, id),
        ensures
            states.last().consistent(),
            item_records(states.last().records()),
            newest(states.last().records(), id.spec_raw()) == newest(states[0].records(), id.spec_raw()),
        decreases states.len(),
    {
        if states.len() > 1 {
            let prev = states.drop_last();
            assert(prev[0] == states[0]);
            Self::lemma_avoiding_run(prev, id);
            let before = states[states.len() - 2];
            let after = states.last();
            assert(prev.last() == before);
            if before.compacted_to(after) {
                Self::law_compact_keeps_items(before, after, id);
            } else {
                let (other, data, r) = choose|other: NvItemId, data: Seq<u8>, r: Result<(), NvError>|
                    other != id && data.len() <= MAX_ITEM_LEN && #[trigger] before.appended_to(other.spec_raw(), data, after, r);
                Self::law_write_keeps_other_items(before, other, data, after, r, id);
            }
        }
    }

    /// The latest entry of an item wins: after a successful write of `data`
    /// for `id` (a deletion when `data` is empty), followed by any sequence
    /// of compactions and writes and deletions of other items (whatever each
    /// returned), the item reads as `data`, or as not found after a
    /// deletion, provided the storage's records were its own.
    pub proof fn law_latest_write_wins(states: Seq<Self>, id: NvItemId, data: Seq<u8>)
        requires
            states.len() >= 2,
            states[0].consistent(),
            item_records(states[0].records()),
            data.len() <= MAX_ITEM_LEN,
            states[0].appended_to(id.spec_raw(), data, states[1], Ok(())),
            Self::is_run_avoiding(states.subrange(1, states.len() as int), id),
        ensures
            states.last().consistent(),
            item_records(states.last().records()),
            newest(states.last().records(), id.spec_raw()) == if data.len() == 0 {
                None
            } else {
                Some(data)
            },
    {
        let s0 = states[0];
        let s1 = states[1];
        Self::law_append_adds_record(s0, id.spec_raw(), data, s1, Ok(()));
        Self::law_write_keeps_item_records(s0, id, data, s1, Ok(()));
        let prev = if s0.cursor() + record_span(data.len() as int) <= s0.page_size() {
            s0.records()
        } else {
            s0.compacted_records()
        };
        assert(prev.push(NvRecord { id: id.spec_raw(), data }).last() == NvRecord { id: id.spec_raw(), data });
        let rest = states.subrange(1, states.len() as int);
        assert(rest[0] == s1);
        Self::lemma_avoiding_run(rest, id);
        assert(rest.last() == states.last());
    }

    /// A storage just opened on any flash is restartable.
    pub proof fn law_opened_restartable(s: Self, m: FlashMemory, page_a: int, page_b: int)
        requires
            s.opened_on(m, page_a, page_b),
        ensures
            s.restartable(),
    {
        let ms = s.memory();
        if rd16(m, page_a) == 0xA55Au16 && rd16(m, page_b) == 0xA55Au16 && s.page_size() >= 8 {
            assert(ms(page_b) == 0xFFu8);
            assert(ms(page_b + 1) == 0xFFu8);
        }
    }

    /// Appending a record, or failing to for want of room, keeps the
    /// storage restartable.
    pub proof fn law_append_keeps_restartable(
        before: Self,
        raw: u16,
        data: Seq<u8>,
        after: Self,
        r: Result<(), NvError>,
    )
        requires
            before.restartable(),
            data.len() <= MAX_ITEM_LEN,
            before.appended_to(raw, data, after, r),
        ensures
            after.restartable(),
    {
        let size = before.page_size();
        let m = before.memory();
        let m2 = after.memory();
        if before.cursor() + record_span(data.len() as int) <= size {
            lemma_encode_len(raw, data);
            let sp = before.scratch();
            if size >= 8 {
                assert(m2(sp) == m(sp));
                assert(m2(sp + 1) == m(sp + 1));
            }
        } else {
            Self::law_after_compaction_restartable(before, after);
        }
    }

    /// Compaction keeps the storage restartable.
    pub proof fn law_compact_keeps_restartable(before: Self, after: Self)
        requires
            before.restartable(),
            before.compacted_to(after),
        ensures
            after.restartable(),
    {
        Self::law_after_compaction_restartable(before, after);
    }

    /// After a compaction the old active page, now the scratch page, is erased.
    proof fn law_after_compaction_restartable(before: Self, after: Self)
        requires
            before.wf(),
            after.wf(),
            before.same_layout(after),
            after.active() == before.scratch(),
            after.consistent(),
            forall|a: int|
                !(before.scratch() <= a < before.scratch() + before.page_size()) ==> #[trigger] (after.memory())(a)
                    == (mem_erase(before.memory(), before.active(), before.page_size()))(a),
        ensures
            after.restartable(),
    {
        let size = before.page_size();
        let m2 = after.memory();
        let op = before.active();
        if size >= 8 {
            assert(after.scratch() == op);
            assert(m2(op) == (mem_erase(before.memory(), op, size))(op));
            assert(m2(op + 1) == (mem_erase(before.memory(), op, size))(op + 1));
            assert(m2(op) == 0xFFu8);
            assert(m2(op + 1) == 0xFFu8);
        }
    }

    /// A power cycle loses nothing: opening a restartable storage's flash
    /// again, on the same sectors, gives a storage with the same records, so
    /// that every read, [`Self::has_item`] and [`Self::item_length`] answers
    /// as before.
    pub proof fn law_restart_reads_the_same(before: Self, after: Self)
        requires
            before.restartable(),
            after.opened_on(before.memory(), before.spec_page_a(), before.spec_page_b()),
            after.page_size() == before.page_size(),
        ensures
            after.records() == before.records(),
    {
        let m = before.memory();
        let size = before.page_size();
        let pa = before.spec_page_a();
        let pb = before.spec_page_b();
        if size < 8 {
            assert(!header_at(after.memory(), after.active(), size, 0));
            assert(!header_at(m, before.active(), size, 0));
            assert(after.records() == Seq::<NvRecord>::empty());
            assert(before.records() == Seq::<NvRecord>::empty());
        } else {
            assert(pa != pb);
            if before.active() == pa {
                assert(rd16(m, pb) != 0xA55Au16);
            } else {
                assert(rd16(m, pa) != 0xA55Au16);
                if rd16(m, pb) != 0xA55Au16 {
                    assert(!header_at(m, pa, size, 0));
                    assert(!header_at(m, pb, size, 0));
                    assert(after.records() == Seq::<NvRecord>::empty());
                    assert(before.records() == Seq::<NvRecord>::empty());
                }
            }
        }
    }

    fn init(&mut self)
        requires
            Self::valid_pages(old(self).spec_page_a(), old(self).spec_page_b(), old(self).page_size(), old(self).capacity()),
        ensures
            final(self).wf(),
            old(self).same_layout(*final(self)),
            ({
                let m = old(self).memory();
                let a_valid = rd16(m, old(self).spec_page_a()) == 0xA55Au16;
                let b_valid = rd16(m, old(self).spec_page_b()) == 0xA55Au16;
                &&& final(self).active() == if !a_valid && b_valid {
                    old(self).spec_page_b()
                } else {
                    old(self).spec_page_a()
                }
                &&& final(self).memory() == if a_valid && b_valid {
                    mem_erase(m, old(self).spec_page_b(), old(self).page_size())
                } else {
                    m
                }
            }),
            final(self).cursor() == log_end(final(self).memory(), final(self).active(), final(self).page_size(), 0),
    {
        let a_valid = self.page_has_data(self.page_a);
        let b_valid = self.page_has_data(self.page_b);
        match (a_valid, b_valid) {
            (true, false) => self.active_page = self.page_a,
            (false, true) => self.active_page = self.page_b,
            (true, true) => {
                self.active_page = self.page_a;
                self.flash.erase_sector(self.page_b);
            },
            (false, false) => self.active_page = self.page_a,
        }
        self.write_offset = self.find_write_offset(self.active_page);
    }

    /// Create the storage on the sectors at `page_a` and `page_b` and pick up
    /// the log found there.
    ///
    /// The active page is the one that starts with a record header (page A
    /// when both or neither do; when both do, page B is erased). The write
    /// cursor is put where the log of the active page ends.
    pub fn new(flash: F, page_a: u32, page_b: u32) -> (s: Self)
        requires
            Self::valid_pages(page_a as int, page_b as int, flash.spec_sector_size() as int, flash.spec_capacity() as int),
        ensures
            s.opened_on(flash.memory(), page_a as int, page_b as int),
            s.page_size() == flash.spec_sector_size(),
            s.capacity() == flash.spec_capacity(),
            s.restartable(),
            (forall|a: int|
                (page_a <= a < page_a + flash.spec_sector_size() || page_b <= a < page_b + flash.spec_sector_size())
                    ==> #[trigger] (flash.memory())(a) == 0xFFu8) ==> s.consistent() && s.records()
                == Seq::<NvRecord>::empty(),
    {
        let mut s = LogStructuredNv { flash, page_a, page_b, active_page: page_a, write_offset: 0 };
        s.init();
        proof {
            let m = flash.memory();
            let size = flash.spec_sector_size() as int;
            Self::law_opened_restartable(s, m, page_a as int, page_b as int);
            if forall|a: int|
                (page_a <= a < page_a + size || page_b <= a < page_b + size) ==> #[trigger] m(a) == 0xFFu8 {
                let ms = s.memory();
                let p = s.active();
                assert forall|a: int| p <= a < p + size implies #[trigger] ms(a) == 0xFFu8 by {
                    assert(m(a) == 0xFFu8);
                }
                lemma_erased_page(ms, p, size);
            }
        }
        s
    }

    /// Append the record of `id` holding `data`, compacting first when it
    /// does not fit in the active page.
    fn append_item(&mut self, id: NvItemId, data: &[u8]) -> (r: Result<(), NvError>)
        requires
            old(self).wf(),
            data@.len() <= MAX_ITEM_LEN,
        ensures
            old(self).appended_to(id.spec_raw(), data@, *final(self), r),
    {
        let ghost s0: Self = *self;
        proof {
            lemma_align4(data.len() as int);
        }
        let aligned_len = align4(data.len());
        let total = HEADER_SIZE + aligned_len;
        if self.write_offset + total > self.sector_size() {
            self.compact()?;
            if self.write_offset + total > self.sector_size() {
                return Err(NvError::Full);
            }
            let ghost mid: Self = *self;
            let raw = id.raw();
            proof {
                lemma_append_record(mid.memory(), mid.active(), mid.page_size(), mid.cursor(), raw, data@);
            }
            self.write_record(raw, data);
            return Ok(());
        }
        self.write_record(id.raw(), data);
        Ok(())
    }

    /// The flash driver.
    pub fn flash(&self) -> (r: &F)
        ensures
            *r == self.spec_flash(),
    {
        &self.flash
    }

    /// Give back the flash driver.
    pub fn into_flash(self) -> (r: F)
        ensures
            r == self.spec_flash(),
    {
        self.flash
    }

    /// Read item `id` into the front of `buf` and return its length.
    ///
    /// The newest record of the item is read; a later deletion hides the
    /// item (`NotFound`). When its data is longer than `buf`, the read fails
    /// with `BufferTooSmall`. `buf` is left as it was unless the read succeeds.
    pub fn read(&self, id: NvItemId, buf: &mut [u8]) -> (r: Result<usize, NvError>)
        requires
            self.wf(),
        ensures
            match newest(self.records(), id.spec_raw()) {
                None => r == Err::<usize, NvError>(NvError::NotFound) && final(buf)@ == old(buf)@,
                Some(d) => if d.len() <= old(buf)@.len() {
                    &&& r == Ok::<usize, NvError>(d.len() as usize)
                    &&& final(buf)@ == d + old(buf)@.subrange(d.len() as int, old(buf)@.len() as int)
                } else {
                    r == Err::<usize, NvError>(NvError::BufferTooSmall) && final(buf)@ == old(buf)@
                },
            },
    {
        match self.find_latest(id) {
            None => Err(NvError::NotFound),
            Some((addr, len)) => {
                if len > buf.len() {
                    return Err(NvError::BufferTooSmall);
                }
                let ghost before = buf@;
                let ghost m = self.memory();
                {
                    let (head, _tail) = buf.split_at_mut(len);
                    self.flash.read(addr, head);
                }
                assert(buf@ =~= Seq::new(len as nat, |i: int| m(addr + i)) + before.subrange(len as int, before.len() as int));
                Ok(len)
            },
        }
    }

    /// Store `data` (at most [`MAX_ITEM_LEN`] bytes) as the new value of item `id`.
    pub fn write(&mut self, id: NvItemId, data: &[u8]) -> (r: Result<(), NvError>)
        requires
            old(self).wf(),
            data@.len() <= MAX_ITEM_LEN,
        ensures
            old(self).appended_to(id.spec_raw(), data@, *final(self), r),
    {
        self.append_item(id, data)
    }

    /// Delete item `id` by appending an empty record for it.
    pub fn delete(&mut self, id: NvItemId) -> (r: Result<(), NvError>)
        requires
            old(self).wf(),
        ensures
            old(self).appended_to(id.spec_raw(), Seq::<u8>::empty(), *final(self), r),
    {
        let empty: [u8; 0] = [];
        let r = self.append_item(id, &empty);
        assert(empty@ =~= Seq::<u8>::empty());
        r
    }

    /// Whether item `id` is stored: it has a record, and the newest one is
    /// not a deletion.
    pub fn has_item(&self, id: NvItemId) -> (r: bool)
        requires
            self.wf(),
        ensures
            r == newest(self.records(), id.spec_raw()) is Some,
    {
        self.find_latest(id).is_some()
    }

    /// Length of the stored data of item `id`.
    pub fn item_length(&self, id: NvItemId) -> (r: Result<usize, NvError>)
        requires
            self.wf(),
        ensures
            match newest(self.records(), id.spec_raw()) {
                Some(d) => r == Ok::<usize, NvError>(d.len() as usize),
                None => r == Err::<usize, NvError>(NvError::NotFound),
            },
    {
        match self.find_latest(id) {
            Some((_addr, len)) => Ok(len),
            None => Err(NvError::NotFound),
        }
    }
}

} // verus!

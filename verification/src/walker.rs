use vstd::prelude::*;

use vstd::slice::slice_subrange;

use crate::body::{
    body_matches, decode_body, lemma_body_matches_functional, record_equiv, StructureRecord,
    UnknownStructure,
};
use crate::bytes::le16;
use crate::entry::EntryPoint;
use crate::error::DecodeError;
use crate::header::Header;
use vstd::utf8::decode_utf8;

use crate::strings::{
    encode_string_table, lemma_scan_inverts_encode, scan_strings, spec_scan_checked, strings_match,
    StringTable,
};

verus! {

/// The ghost shape of one walked structure: its header, the bytes of its
/// formatted area, the byte spans of its trailing strings, and the total byte
/// length it occupies in the stream.
pub struct StructureModel {
    pub header: Header,
    pub area: Seq<u8>,
    pub strs: Seq<Seq<u8>>,
    pub total: int,
}

/// The ghost outcome of a walk: the structures in stream order, whether the
/// walk stopped at a truncated structure boundary, and the error that aborted
/// it, if any.
pub struct WalkModel {
    pub entries: Seq<StructureModel>,
    pub truncated: bool,
    pub error: Option<DecodeError>,
}

/// One decoded structure together with its string table and the exact byte
/// count it occupies: formatted-area length plus every string's bytes and NUL
/// plus the final NUL, or the bare double NUL when it has no strings.
#[derive(Debug)]
pub struct DecodedStructure {
    pub record: StructureRecord,
    pub strings: StringTable,
    pub total_byte_length: usize,
}

/// The walked structures in stream order. `truncated` reports that the walk
/// stopped because the remaining bytes could not hold the next structure: a
/// diagnostic, not a failure, since some firmware tables omit the explicit
/// end marker.
#[derive(Debug)]
pub struct DecodedTable {
    pub entries: Vec<DecodedStructure>,
    pub truncated: bool,
}

/// An aborted walk: the error, together with the structures fully decoded
/// before the failing one, so a caller can still use partial results.
#[derive(Debug)]
pub struct WalkFailure {
    pub error: DecodeError,
    pub partial: DecodedTable,
}

/// The walk from byte `cursor` of `b`, with `count_left` structures still
/// allowed by the entry point's declared count and the declared table end at
/// `limit`. Each step reads a header, decodes the formatted area, scans the
/// trailing string table and advances by the structure's total byte length;
/// a type 127 header records the end marker and stops. A structure boundary
/// past the buffer end stops the walk with the truncated diagnostic; a
/// string-table error aborts it, keeping only the structures before it.
pub open spec fn spec_walk_from(
    b: Seq<u8>,
    cursor: int,
    count_left: Option<int>,
    limit: Option<int>,
) -> WalkModel
    decreases b.len() - cursor,
{
    if (count_left matches Some(c) && c <= 0) {
        WalkModel { entries: Seq::empty(), truncated: false, error: None }
    } else if (limit matches Some(l) && cursor >= l) {
        WalkModel { entries: Seq::empty(), truncated: false, error: None }
    } else if cursor + 4 > b.len() {
        WalkModel { entries: Seq::empty(), truncated: true, error: None }
    } else {
        let h = Header {
            structure_type: b[cursor],
            length: b[cursor + 1],
            handle: le16(b, cursor + 2),
        };
        if h.structure_type == 127 {
            WalkModel {
                entries: seq![
                    StructureModel {
                        header: h,
                        area: Seq::empty(),
                        strs: Seq::empty(),
                        total: h.length as int,
                    },
                ],
                truncated: false,
                error: None,
            }
        } else if !h.wf() || cursor + h.length > b.len() {
            WalkModel { entries: Seq::empty(), truncated: true, error: None }
        } else {
            let area = b.subrange(cursor + 4, cursor + h.length);
            let region = b.subrange(cursor + h.length, b.len() as int);
            match spec_scan_checked(region) {
                Err(e) => WalkModel { entries: Seq::empty(), truncated: false, error: Some(e) },
                Ok(sc) => {
                    let avail = b.len() - cursor - h.length;
                    let c0 = if sc.1 < 0 {
                        0
                    } else {
                        sc.1
                    };
                    let consumed = if c0 <= avail {
                        c0
                    } else {
                        avail
                    };
                    let total = h.length + consumed;
                    let rest = spec_walk_from(
                        b,
                        cursor + total,
                        match count_left {
                            Some(c) => Some(c - 1),
                            None => None,
                        },
                        limit,
                    );
                    WalkModel {
                        entries: seq![
                            StructureModel { header: h, area: area, strs: sc.0, total: total },
                        ] + rest.entries,
                        truncated: rest.truncated,
                        error: rest.error,
                    }
                },
            }
        }
    }
}

/// The whole walk an entry point prescribes: from its table start offset,
/// bounded by its declared table length and structure count where the legacy
/// format supplies them.
pub open spec fn spec_walk(b: Seq<u8>, e: EntryPoint) -> WalkModel {
    spec_walk_from(
        b,
        e.table_start_offset as int,
        match e.structure_count {
            Some(c) => Some(c as int),
            None => None,
        },
        match e.table_length {
            Some(l) => Some(e.table_start_offset + l as int),
            None => None,
        },
    )
}

/// `d` realizes the ghost structure `m`: the record decodes `m`'s formatted
/// area under `m`'s header, the strings are the UTF-8 decodings of `m`'s
/// spans, and the total byte length agrees.
pub open spec fn structure_matches(d: DecodedStructure, m: StructureModel) -> bool {
    &&& body_matches(m.header, m.area, d.record)
    &&& strings_match(d.strings, m.strs)
    &&& d.total_byte_length as int == m.total
}

/// `t` realizes the ghost walk `m`, entry by entry.
pub open spec fn table_matches(t: DecodedTable, m: WalkModel) -> bool {
    &&& t.truncated == m.truncated
    &&& t.entries@.len() == m.entries.len()
    &&& forall|i: int|
        0 <= i < m.entries.len() ==> structure_matches(t.entries@[i], #[trigger] m.entries[i])
}

/// The full contract of `walk` on buffer `b` under entry point `e`: when the
/// ghost walk reports no error the result is the realized table; when it
/// reports one, the result carries that error with the structures decoded
/// before the failure.
pub open spec fn walk_post(
    b: Seq<u8>,
    e: EntryPoint,
    r: Result<DecodedTable, WalkFailure>,
) -> bool {
    let m = spec_walk(b, e);
    match m.error {
        None => r matches Ok(t) && table_matches(t, m),
        Some(err) => r matches Err(f) && f.error == err && table_matches(f.partial, m),
    }
}

/// Walks the structure table in `buffer` as the entry point prescribes,
/// decoding one structure and its string table per step and advancing by the
/// exact total byte length, until the end marker, the declared bound, the
/// declared structure count, or a structure boundary past the buffer end.
/// String-table corruption aborts the walk and surfaces the structures
/// decoded before it.
pub fn walk(buffer: &[u8], entry: &EntryPoint) -> (r: Result<DecodedTable, WalkFailure>)
    ensures
        walk_post(buffer@, *entry, r),
{
    let ghost m = spec_walk(buffer@, *entry);
    let ghost lim: Option<int> = match entry.table_length {
        Some(l) => Some(entry.table_start_offset + l as int),
        None => None,
    };
    let mut out: Vec<DecodedStructure> = Vec::new();
    let mut cursor: usize = entry.table_start_offset;
    let mut seen: u16 = 0;
    let blen = buffer.len();
    loop
        invariant
            blen == buffer@.len(),
            m == spec_walk(buffer@, *entry),
            lim == match entry.table_length {
                Some(l) => Some(entry.table_start_offset + l as int),
                None => None,
            },
            match entry.structure_count {
                Some(c) => seen <= c,
                None => seen == 0,
            },
            ({
                let sub = spec_walk_from(
                    buffer@,
                    cursor as int,
                    match entry.structure_count {
                        Some(c) => Some(c as int - seen as int),
                        None => None,
                    },
                    lim,
                );
                &&& out@.len() + sub.entries.len() == m.entries.len()
                &&& sub.entries == m.entries.skip(out@.len() as int)
                &&& sub.truncated == m.truncated
                &&& sub.error == m.error
            }),
            forall|i: int|
                0 <= i < out@.len() ==> structure_matches(out@[i], #[trigger] m.entries[i]),
        decreases buffer@.len() - cursor,
    {
        let ghost cl: Option<int> = match entry.structure_count {
            Some(c) => Some(c as int - seen as int),
            None => None,
        };
        let ghost sub = spec_walk_from(buffer@, cursor as int, cl, lim);
        let ghost old_len = out@.len() as int;
        if let Some(c) = entry.structure_count {
            if seen == c {
                return Ok(DecodedTable { entries: out, truncated: false });
            }
        }
        if let Some(tl) = entry.table_length {
            if cursor >= entry.table_start_offset && cursor - entry.table_start_offset
                >= tl as usize {
                return Ok(DecodedTable { entries: out, truncated: false });
            }
        }
        if cursor >= blen || blen - cursor < 4 {
            return Ok(DecodedTable { entries: out, truncated: true });
        }
        let h = Header {
            structure_type: buffer[cursor],
            length: buffer[cursor + 1],
            handle: (buffer[cursor + 2] as u16) | ((buffer[cursor + 3] as u16) << 8),
        };
        if h.structure_type == 127 {
            let raw: Vec<u8> = Vec::new();
            assert(raw@ =~= Seq::<u8>::empty());
            let rec = StructureRecord::Unknown(UnknownStructure { header: h, raw_formatted_area: raw });
            let st = StringTable { entries: Vec::new() };
            assert(strings_match(st, Seq::<Seq<u8>>::empty()));
            let d = DecodedStructure { record: rec, strings: st, total_byte_length: h.length as usize };
            proof {
                assert(sub.entries[0] == m.entries[old_len]);
                assert(structure_matches(d, m.entries[old_len]));
            }
            out.push(d);
            return Ok(DecodedTable { entries: out, truncated: false });
        }
        if h.length < 4 || (h.length as usize) > blen - cursor {
            return Ok(DecodedTable { entries: out, truncated: true });
        }
        let hl = h.length as usize;
        let area_slice = slice_subrange(buffer, cursor + 4, cursor + hl);
        let rec = match decode_body(h, area_slice) {
            Ok(rec) => rec,
            Err(_) => {
                proof {
                    assert(false);
                }
                return Ok(DecodedTable { entries: out, truncated: false });
            },
        };
        let region = slice_subrange(buffer, cursor + hl, blen);
        match scan_strings(region) {
            Err(e) => {
                return Err(
                    WalkFailure {
                        error: e,
                        partial: DecodedTable { entries: out, truncated: false },
                    },
                );
            },
            Ok((st, consumed)) => {
                let total = hl + consumed;
                let d = DecodedStructure { record: rec, strings: st, total_byte_length: total };
                let ghost model = StructureModel {
                    header: h,
                    area: buffer@.subrange(cursor + 4, cursor + hl as int),
                    strs: spec_scan_checked(region@)->Ok_0.0,
                    total: total as int,
                };
                proof {
                    let rest = spec_walk_from(
                        buffer@,
                        cursor + total,
                        match cl {
                            Some(c) => Some(c - 1),
                            None => None,
                        },
                        lim,
                    );
                    assert(sub.entries == seq![model] + rest.entries);
                    assert(sub.entries[0] == m.entries[old_len]);
                    assert(structure_matches(d, m.entries[old_len]));
                    assert forall|i: int| 0 <= i < rest.entries.len() implies rest.entries[i]
                        == m.entries.skip(old_len + 1)[i] by {
                        assert(rest.entries[i] == sub.entries[i + 1]);
                        assert(sub.entries[i + 1] == m.entries.skip(old_len)[i + 1]);
                    }
                    assert(rest.entries =~= m.entries.skip(old_len + 1));
                }
                out.push(d);
                if entry.structure_count.is_some() {
                    seen = seen + 1;
                }
                cursor = cursor + total;
            },
        }
    }
}

/// What a walked structure occupies: its formatted-area length plus its
/// string table's encoded size; the end marker occupies its header length
/// alone and carries no strings.
pub open spec fn walk_total_formula(e: StructureModel) -> bool {
    ||| (e.header.structure_type == 127 && e.total == e.header.length as int && e.strs.len() == 0)
    ||| e.total == e.header.length as int + encode_string_table(e.strs).len()
}

proof fn lemma_walk_from_totals(b: Seq<u8>, cursor: int, count_left: Option<int>, limit: Option<int>)
    requires
        0 <= cursor,
    ensures
        ({
            let m = spec_walk_from(b, cursor, count_left, limit);
            forall|i: int| 0 <= i < m.entries.len() ==> walk_total_formula(#[trigger] m.entries[i])
        }),
    decreases b.len() - cursor,
{
    let m = spec_walk_from(b, cursor, count_left, limit);
    if (count_left matches Some(c) && c <= 0) {
    } else if (limit matches Some(l) && cursor >= l) {
    } else if cursor + 4 > b.len() {
    } else {
        let h = Header {
            structure_type: b[cursor],
            length: b[cursor + 1],
            handle: le16(b, cursor + 2),
        };
        if h.structure_type == 127 {
        } else if !h.wf() || cursor + h.length > b.len() {
        } else {
            let region = b.subrange(cursor + h.length, b.len() as int);
            match spec_scan_checked(region) {
                Err(_) => {},
                Ok(sc) => {
                    lemma_scan_inverts_encode(region);
                    assert(encode_string_table(sc.0).len() == sc.1);
                    assert(region.len() == b.len() - cursor - h.length);
                    assert(2 <= sc.1 <= region.len());
                    let total = h.length + sc.1;
                    assert(cursor + 4 <= cursor + total <= b.len());
                    lemma_walk_from_totals(
                        b,
                        cursor + total,
                        match count_left {
                            Some(c) => Some(c - 1),
                            None => None,
                        },
                        limit,
                    );
                    let rest = spec_walk_from(
                        b,
                        cursor + total,
                        match count_left {
                            Some(c) => Some(c - 1),
                            None => None,
                        },
                        limit,
                    );
                    assert(walk_total_formula(m.entries[0]));
                    assert forall|i: int| 0 <= i < m.entries.len() implies walk_total_formula(
                        #[trigger] m.entries[i],
                    ) by {
                        if i > 0 {
                            assert(m.entries[i] == rest.entries[i - 1]);
                        }
                    }
                },
            }
        }
    }
}

/// Every structure a walk yields occupies exactly its formatted-area length
/// plus its string table's encoded byte size: each string's bytes plus one
/// NUL terminator each, plus the final NUL — two bytes in all when it has no
/// strings. The end-of-table marker occupies its header length alone.
pub proof fn lemma_walk_total_byte_lengths(b: Seq<u8>, e: EntryPoint)
    ensures
        forall|i: int|
            0 <= i < spec_walk(b, e).entries.len() ==> walk_total_formula(
                #[trigger] spec_walk(b, e).entries[i],
            ),
{
    lemma_walk_from_totals(
        b,
        e.table_start_offset as int,
        match e.structure_count {
            Some(c) => Some(c as int),
            None => None,
        },
        match e.table_length {
            Some(l) => Some(e.table_start_offset + l as int),
            None => None,
        },
    );
}

/// The two decoded structures agree in every observable field.
pub open spec fn structures_equiv(d1: DecodedStructure, d2: DecodedStructure) -> bool {
    &&& record_equiv(d1.record, d2.record)
    &&& d1.strings@ == d2.strings@
    &&& d1.total_byte_length == d2.total_byte_length
}

/// The two decoded tables agree entry by entry in every observable field.
pub open spec fn tables_equiv(t1: DecodedTable, t2: DecodedTable) -> bool {
    &&& t1.truncated == t2.truncated
    &&& t1.entries@.len() == t2.entries@.len()
    &&& forall|i: int|
        0 <= i < t1.entries@.len() ==> structures_equiv(#[trigger] t1.entries@[i], t2.entries@[i])
}

proof fn lemma_strings_match_functional(st1: StringTable, st2: StringTable, ss: Seq<Seq<u8>>)
    requires
        strings_match(st1, ss),
        strings_match(st2, ss),
    ensures
        st1@ == st2@,
{
    assert forall|i: int| 0 <= i < ss.len() implies st1@[i] == st2@[i] by {
        assert(st1.entries@[i]@ == decode_utf8(ss[i]));
        assert(st2.entries@[i]@ == decode_utf8(ss[i]));
    }
    assert(st1@ =~= st2@);
}

proof fn lemma_table_matches_functional(t1: DecodedTable, t2: DecodedTable, m: WalkModel)
    requires
        table_matches(t1, m),
        table_matches(t2, m),
    ensures
        tables_equiv(t1, t2),
{
    assert forall|i: int| 0 <= i < t1.entries@.len() implies structures_equiv(
        #[trigger] t1.entries@[i],
        t2.entries@[i],
    ) by {
        let mi = m.entries[i];
        lemma_body_matches_functional(mi.header, mi.area, t1.entries@[i].record, t2.entries@[i].record);
        lemma_strings_match_functional(t1.entries@[i].strings, t2.entries@[i].strings, mi.strs);
    }
}

/// Re-walking the same immutable buffer under the same entry point yields
/// structurally identical outcomes: the same success or failure, the same
/// error, and tables that agree entry by entry in every observable field.
pub proof fn lemma_walk_deterministic(
    b: Seq<u8>,
    e: EntryPoint,
    r1: Result<DecodedTable, WalkFailure>,
    r2: Result<DecodedTable, WalkFailure>,
)
    requires
        walk_post(b, e, r1),
        walk_post(b, e, r2),
    ensures
        match (r1, r2) {
            (Ok(t1), Ok(t2)) => tables_equiv(t1, t2),
            (Err(f1), Err(f2)) => f1.error == f2.error && tables_equiv(f1.partial, f2.partial),
            _ => false,
        },
{
    let m = spec_walk(b, e);
    match m.error {
        None => {
            match (r1, r2) {
                (Ok(t1), Ok(t2)) => {
                    lemma_table_matches_functional(t1, t2, m);
                },
                _ => {
                    assert(false);
                },
            }
        },
        Some(err) => {
            match (r1, r2) {
                (Err(f1), Err(f2)) => {
                    lemma_table_matches_functional(f1.partial, f2.partial, m);
                },
                _ => {
                    assert(false);
                },
            }
        },
    }
}

} // verus!

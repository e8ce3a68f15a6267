use vstd::prelude::*;

use vstd::utf8::{decode_utf8, valid_utf8};

use crate::bytes::read_bytes_at;
use crate::error::DecodeError;

verus! {

/// The ordered strings trailing a structure's formatted area. Indices stored
/// in formatted-area fields are 1-based; 0 means "no string", so index `i`
/// resolves to `entries[i - 1]`. Every stored string is non-empty and
/// internally NUL-free.
#[derive(Debug)]
pub struct StringTable {
    pub entries: Vec<String>,
}

impl View for StringTable {
    type V = Seq<Seq<char>>;

    open spec fn view(&self) -> Seq<Seq<char>> {
        Seq::new(self.entries@.len(), |i: int| self.entries@[i]@)
    }
}

impl StringTable {
    /// Number of stored strings; indices 1 through this count resolve.
    pub fn len(&self) -> (n: usize)
        ensures
            n == self.entries@.len(),
    {
        self.entries.len()
    }

    /// Resolves a 1-based string index as stored in formatted-area fields:
    /// index 0 means "no string", and an index past the table is absent.
    pub fn get(&self, index: u8) -> (r: Option<&String>)
        ensures
            1 <= index && index as int <= self.entries@.len() ==> (r matches Some(s) && s@
                == self.entries@[index as int - 1]@),
            !(1 <= index && index as int <= self.entries@.len()) ==> r is None,
    {
        if index == 0 {
            None
        } else if (index as usize) <= self.entries.len() {
            Some(&self.entries[(index as usize) - 1])
        } else {
            None
        }
    }
}

/// Index of the first NUL byte at or after `i`, if any.
pub open spec fn find_nul(b: Seq<u8>, i: int) -> Option<int>
    decreases b.len() - i,
{
    if i < 0 || i >= b.len() {
        None
    } else if b[i] == 0 {
        Some(i)
    } else {
        find_nul(b, i + 1)
    }
}

/// One step of the scan, starting a string at cursor `c` with the strings
/// collected so far in `acc`: the span up to the next NUL is one string; a
/// NUL adjacent to that NUL terminates the table. An empty span or a span
/// without any NUL is malformed; a buffer ending right after a string's NUL
/// lacks its terminator.
pub open spec fn spec_scan_from(b: Seq<u8>, c: int, acc: Seq<Seq<u8>>) -> Result<
    (Seq<Seq<u8>>, int),
    DecodeError,
>
    decreases b.len() - c,
{
    match find_nul(b, c) {
        None => Err(DecodeError::MalformedStringTable),
        Some(j) => {
            if j <= c {
                Err(DecodeError::MalformedStringTable)
            } else if j + 1 >= b.len() {
                Err(DecodeError::UnterminatedStringTable)
            } else if b[j + 1] == 0 {
                Ok((acc.push(b.subrange(c, j)), j + 2))
            } else {
                spec_scan_from(b, j + 1, acc.push(b.subrange(c, j)))
            }
        },
    }
}

/// The byte-level result of scanning a string table that begins at the first
/// byte of `b`: the string spans in order, and the total byte count consumed
/// up to and including the double-NUL terminator. Two leading NULs mean an
/// empty table consuming exactly two bytes.
pub open spec fn spec_scan(b: Seq<u8>) -> Result<(Seq<Seq<u8>>, int), DecodeError> {
    if b.len() >= 2 && b[0] == 0 && b[1] == 0 {
        Ok((Seq::empty(), 2))
    } else {
        spec_scan_from(b, 0, Seq::empty())
    }
}

/// Every scanned span holds valid UTF-8.
pub open spec fn all_valid_utf8(ss: Seq<Seq<u8>>) -> bool {
    forall|i: int| 0 <= i < ss.len() ==> valid_utf8(#[trigger] ss[i])
}

/// The scan result with text decoding accounted for: a byte-level scan error
/// stands as is, and a span that is not valid UTF-8 turns the whole scan into
/// `InvalidStringEncoding`.
pub open spec fn spec_scan_checked(b: Seq<u8>) -> Result<(Seq<Seq<u8>>, int), DecodeError> {
    match spec_scan(b) {
        Ok(sc) => if all_valid_utf8(sc.0) {
            Ok(sc)
        } else {
            Err(DecodeError::InvalidStringEncoding)
        },
        Err(e) => Err(e),
    }
}

/// The stored strings are exactly the UTF-8 decodings of the scanned spans.
pub open spec fn strings_match(st: StringTable, ss: Seq<Seq<u8>>) -> bool {
    &&& st.entries@.len() == ss.len()
    &&& forall|i: int| 0 <= i < ss.len() ==> st.entries@[i]@ == decode_utf8(#[trigger] ss[i])
}

/// Relies on `str::from_utf8`: it succeeds exactly on valid UTF-8 input and
/// then returns the string slice over those bytes, whose characters are their
/// decoding.
#[verifier::external_body]
fn str_from_utf8(bytes: &[u8]) -> (r: Option<&str>)
    ensures
        r is Some <==> valid_utf8(bytes@),
        r matches Some(s) ==> s@ == decode_utf8(bytes@),
{
    core::str::from_utf8(bytes).ok()
}

/// Decodes every span as UTF-8 text, or reports that some span is not valid
/// UTF-8.
fn convert_strings(raw: &Vec<Vec<u8>>) -> (r: Option<StringTable>)
    ensures
        r is Some <==> (forall|i: int| 0 <= i < raw@.len() ==> valid_utf8(#[trigger] raw@[i]@)),
        r matches Some(st) ==> st.entries@.len() == raw@.len() && (forall|i: int|
            0 <= i < raw@.len() ==> st.entries@[i]@ == decode_utf8(#[trigger] raw@[i]@)),
{
    let mut entries: Vec<String> = Vec::new();
    let mut i: usize = 0;
    while i < raw.len()
        invariant
            i <= raw@.len(),
            entries@.len() == i,
            forall|k: int| 0 <= k < i ==> valid_utf8(#[trigger] raw@[k]@),
            forall|k: int| 0 <= k < i ==> entries@[k]@ == decode_utf8(#[trigger] raw@[k]@),
        decreases raw@.len() - i,
    {
        match str_from_utf8(raw[i].as_slice()) {
            Some(s) => {
                entries.push(s.to_owned());
            },
            None => {
                return None;
            },
        }
        i = i + 1;
    }
    Some(StringTable { entries })
}

/// Scans the string table that begins at the first byte of `buffer`, which is
/// the byte right after a structure's formatted area. Returns the decoded
/// strings in order together with the exact byte count consumed, terminator
/// included; the consumed count is how far the next structure's header lies
/// from the formatted area's end.
pub fn scan_strings(buffer: &[u8]) -> (r: Result<(StringTable, usize), DecodeError>)
    ensures
        match spec_scan_checked(buffer@) {
            Ok(sc) => r matches Ok(p) && strings_match(p.0, sc.0) && p.1 as int == sc.1,
            Err(e) => r matches Err(e2) && e2 == e,
        },
        r matches Ok(p) ==> p.1 <= buffer@.len(),
{
    if buffer.len() >= 2 && buffer[0] == 0 && buffer[1] == 0 {
        let st = StringTable { entries: Vec::new() };
        assert(strings_match(st, Seq::empty()));
        return Ok((st, 2));
    }
    let mut raw: Vec<Vec<u8>> = Vec::new();
    let ghost mut gacc: Seq<Seq<u8>> = Seq::empty();
    let mut cursor: usize = 0;
    assert(spec_scan(buffer@) == spec_scan_from(buffer@, 0, gacc));
    loop
        invariant
            cursor <= buffer@.len(),
            spec_scan(buffer@) == spec_scan_from(buffer@, cursor as int, gacc),
            raw@.len() == gacc.len(),
            forall|k: int| 0 <= k < gacc.len() ==> raw@[k]@ == #[trigger] gacc[k],
        decreases buffer@.len() - cursor,
    {
        let ghost cursor0 = cursor as int;
        let mut j: usize = cursor;
        while j < buffer.len() && buffer[j] != 0
            invariant
                cursor <= j <= buffer@.len(),
                find_nul(buffer@, cursor as int) == find_nul(buffer@, j as int),
            decreases buffer@.len() - j,
        {
            assert(find_nul(buffer@, j as int) == find_nul(buffer@, j + 1));
            j = j + 1;
        }
        if j >= buffer.len() {
            assert(find_nul(buffer@, j as int) is None);
            return Err(DecodeError::MalformedStringTable);
        }
        assert(find_nul(buffer@, cursor as int) == Some(j as int));
        if j == cursor {
            return Err(DecodeError::MalformedStringTable);
        }
        let sbytes = read_bytes_at(buffer, cursor, j - cursor);
        assert(sbytes@ =~= buffer@.subrange(cursor as int, j as int));
        raw.push(sbytes);
        let ghost gacc_before = gacc;
        proof {
            gacc = gacc.push(buffer@.subrange(cursor0, j as int));
        }
        if j + 1 >= buffer.len() {
            return Err(DecodeError::UnterminatedStringTable);
        }
        if buffer[j + 1] == 0 {
            let consumed = j + 2;
            assert(spec_scan_from(buffer@, cursor0, gacc_before)
                == Ok::<(Seq<Seq<u8>>, int), DecodeError>((gacc, j + 2)));
            match convert_strings(&raw) {
                Some(st) => {
                    proof {
                        assert forall|k: int| 0 <= k < gacc.len() implies valid_utf8(
                            #[trigger] gacc[k],
                        ) by {
                            assert(gacc[k] == raw@[k]@);
                        }
                        assert forall|k: int| 0 <= k < gacc.len() implies st.entries@[k]@
                            == decode_utf8(#[trigger] gacc[k]) by {
                            assert(gacc[k] == raw@[k]@);
                        }
                        assert(strings_match(st, gacc));
                    }
                    return Ok((st, consumed));
                },
                None => {
                    assert(!all_valid_utf8(gacc)) by {
                        if all_valid_utf8(gacc) {
                            assert forall|k: int| 0 <= k < raw@.len() implies valid_utf8(
                                #[trigger] raw@[k]@,
                            ) by {
                                assert(raw@[k]@ == gacc[k]);
                            }
                        }
                    }
                    return Err(DecodeError::InvalidStringEncoding);
                },
            }
        }
        assert(spec_scan_from(buffer@, cursor0, gacc_before) == spec_scan_from(
            buffer@,
            j + 1,
            gacc,
        ));
        cursor = j + 1;
    }
}

/// Encoding of the strings from some index on: each string followed by its
/// NUL, then the table's final NUL.
pub open spec fn encode_rest(ss: Seq<Seq<u8>>) -> Seq<u8>
    decreases ss.len(),
{
    if ss.len() == 0 {
        seq![0u8]
    } else {
        ss[0] + seq![0u8] + encode_rest(ss.drop_first())
    }
}

/// The byte encoding of a string table: each string NUL-terminated in order,
/// then one final NUL; a table with no strings is the bare double NUL.
pub open spec fn encode_string_table(ss: Seq<Seq<u8>>) -> Seq<u8> {
    if ss.len() == 0 {
        seq![0u8, 0u8]
    } else {
        encode_rest(ss)
    }
}

/// Strings a well-formed table may hold: each non-empty and internally
/// NUL-free.
pub open spec fn wf_table_strings(ss: Seq<Seq<u8>>) -> bool {
    forall|i: int| 0 <= i < ss.len() ==> (#[trigger] ss[i]).len() > 0 && nul_free(ss[i])
}

/// No byte of `s` is NUL.
pub open spec fn nul_free(s: Seq<u8>) -> bool {
    forall|j: int| 0 <= j < s.len() ==> s[j] != 0
}

proof fn lemma_find_nul_props(b: Seq<u8>, c: int)
    requires
        0 <= c,
        find_nul(b, c) is Some,
    ensures
        find_nul(b, c) matches Some(j) && c <= j < b.len() && b[j] == 0 && (forall|k: int|
            c <= k < j ==> b[k] != 0),
    decreases b.len() - c,
{
    if c < b.len() && b[c] != 0 {
        lemma_find_nul_props(b, c + 1);
    }
}

proof fn lemma_find_nul_first(b: Seq<u8>, c: int, j: int)
    requires
        0 <= c <= j < b.len(),
        b[j] == 0,
        forall|k: int| c <= k < j ==> b[k] != 0,
    ensures
        find_nul(b, c) == Some(j),
    decreases j - c,
{
    if c < j {
        lemma_find_nul_first(b, c + 1, j);
    }
}

proof fn lemma_scan_from_encode(b: Seq<u8>, c: int, acc: Seq<Seq<u8>>, ss: Seq<Seq<u8>>)
    requires
        0 <= c <= b.len(),
        b.subrange(c, b.len() as int) == encode_rest(ss),
        ss.len() > 0,
        wf_table_strings(ss),
    ensures
        spec_scan_from(b, c, acc) == Ok::<(Seq<Seq<u8>>, int), DecodeError>(
            (acc + ss, b.len() as int),
        ),
    decreases ss.len(),
{
    let s0 = ss[0];
    let tail = ss.drop_first();
    let suffix = b.subrange(c, b.len() as int);
    let restlen = encode_rest(tail).len();
    assert(restlen >= 1);
    assert(suffix.len() == s0.len() + 1 + restlen);
    let j = c + s0.len();
    assert(b[j] == suffix[s0.len() as int]);
    assert(suffix[s0.len() as int] == 0);
    assert forall|k: int| c <= k < j implies b[k] != 0 by {
        assert(b[k] == suffix[k - c]);
        assert(suffix[k - c] == s0[k - c]);
    }
    lemma_find_nul_first(b, c, j);
    assert(b.subrange(c, j) =~= s0);
    assert(j + 1 < b.len());
    assert(suffix == s0 + seq![0u8] + encode_rest(tail));
    assert(b[j + 1] == suffix[s0.len() as int + 1]);
    assert(suffix[s0.len() as int + 1] == encode_rest(tail)[0]);
    assert(b[j + 1] == encode_rest(tail)[0]);
    if tail.len() == 0 {
        assert(b[j + 1] == 0);
        assert(j + 2 == b.len());
        assert(acc.push(s0) =~= acc + ss);
    } else {
        assert(encode_rest(tail)[0] == tail[0][0]);
        assert(tail[0] == ss[1]);
        assert(ss[1].len() > 0 && nul_free(ss[1]));
        assert(b[j + 1] != 0);
        assert forall|k: int| 0 <= k < b.len() - j - 1 implies b.subrange(j + 1, b.len() as int)[k]
            == encode_rest(tail)[k] by {
            assert(b.subrange(j + 1, b.len() as int)[k] == b[j + 1 + k]);
            assert(b[j + 1 + k] == suffix[s0.len() as int + 1 + k]);
            assert(suffix[s0.len() as int + 1 + k] == encode_rest(tail)[k]);
        }
        assert(b.subrange(j + 1, b.len() as int) =~= encode_rest(tail));
        assert(wf_table_strings(tail)) by {
            assert forall|i: int| 0 <= i < tail.len() implies (#[trigger] tail[i]).len() > 0
                && nul_free(tail[i]) by {
                assert(tail[i] == ss[i + 1]);
            }
        }
        lemma_scan_from_encode(b, j + 1, acc.push(s0), tail);
        assert(acc.push(s0) + tail =~= acc + ss);
    }
}

/// Round trip: scanning the encoding of any list of non-empty, NUL-free
/// strings reproduces exactly that list, and the consumed byte count equals
/// the exact length of the encoding.
pub proof fn lemma_scan_round_trip(ss: Seq<Seq<u8>>)
    requires
        wf_table_strings(ss),
    ensures
        spec_scan(encode_string_table(ss)) == Ok::<(Seq<Seq<u8>>, int), DecodeError>(
            (ss, encode_string_table(ss).len() as int),
        ),
{
    let b = encode_string_table(ss);
    if ss.len() == 0 {
        assert(b.len() == 2 && b[0] == 0 && b[1] == 0);
        assert(ss =~= Seq::<Seq<u8>>::empty());
    } else {
        assert(ss[0].len() > 0 && nul_free(ss[0]));
        assert(b == encode_rest(ss));
        assert(b[0] == ss[0][0]);
        assert(b[0] != 0);
        assert(b.subrange(0, b.len() as int) =~= encode_rest(ss));
        lemma_scan_from_encode(b, 0, Seq::empty(), ss);
        assert(Seq::<Seq<u8>>::empty() + ss =~= ss);
    }
}

proof fn lemma_find_nul_none(b: Seq<u8>, c: int)
    requires
        0 <= c,
        forall|k: int| c <= k < b.len() ==> b[k] != 0,
    ensures
        find_nul(b, c) is None,
    decreases b.len() - c,
{
    if c < b.len() {
        lemma_find_nul_none(b, c + 1);
    }
}

/// A buffer that holds no NUL byte at all cannot even finish its first
/// string: scanning it fails with `MalformedStringTable`.
pub proof fn lemma_scan_no_nul(b: Seq<u8>)
    requires
        nul_free(b),
    ensures
        spec_scan(b) == Err::<(Seq<Seq<u8>>, int), DecodeError>(DecodeError::MalformedStringTable),
{
    lemma_find_nul_none(b, 0);
}

proof fn lemma_scan_from_missing(b: Seq<u8>, c: int, acc: Seq<Seq<u8>>, ss: Seq<Seq<u8>>)
    requires
        0 <= c <= b.len(),
        b.subrange(c, b.len() as int) == encode_rest(ss).take(encode_rest(ss).len() - 1),
        ss.len() > 0,
        wf_table_strings(ss),
    ensures
        spec_scan_from(b, c, acc) == Err::<(Seq<Seq<u8>>, int), DecodeError>(
            DecodeError::UnterminatedStringTable,
        ),
    decreases ss.len(),
{
    let s0 = ss[0];
    let tail = ss.drop_first();
    let enc = encode_rest(ss);
    let restlen = encode_rest(tail).len();
    assert(restlen >= 1);
    assert(enc == s0 + seq![0u8] + encode_rest(tail));
    let suffix = b.subrange(c, b.len() as int);
    assert(suffix.len() == s0.len() + restlen);
    let j = c + s0.len();
    assert(ss[0].len() > 0 && nul_free(ss[0]));
    assert(b[j] == suffix[s0.len() as int]);
    assert(suffix[s0.len() as int] == enc[s0.len() as int]);
    assert(b[j] == 0);
    assert forall|k: int| c <= k < j implies b[k] != 0 by {
        assert(b[k] == suffix[k - c]);
        assert(suffix[k - c] == enc[k - c]);
        assert(enc[k - c] == s0[k - c]);
    }
    lemma_find_nul_first(b, c, j);
    if tail.len() == 0 {
        assert(restlen == 1);
        assert(j + 1 == b.len());
    } else {
        assert(j + 1 < b.len());
        assert(b[j + 1] == suffix[s0.len() as int + 1]);
        assert(suffix[s0.len() as int + 1] == enc[s0.len() as int + 1]);
        assert(enc[s0.len() as int + 1] == encode_rest(tail)[0]);
        assert(encode_rest(tail)[0] == tail[0][0]);
        assert(tail[0] == ss[1]);
        assert(ss[1].len() > 0 && nul_free(ss[1]));
        assert(b[j + 1] != 0);
        assert forall|m: int| 0 <= m < b.len() - j - 1 implies #[trigger] b.subrange(
            j + 1,
            b.len() as int,
        )[m] == encode_rest(tail).take(restlen - 1)[m] by {
            assert(b.subrange(j + 1, b.len() as int)[m] == suffix[s0.len() as int + 1 + m]);
            assert(suffix[s0.len() as int + 1 + m] == enc[s0.len() as int + 1 + m]);
            assert(enc[s0.len() as int + 1 + m] == encode_rest(tail)[m]);
        }
        assert(b.subrange(j + 1, b.len() as int) =~= encode_rest(tail).take(restlen - 1));
        assert(wf_table_strings(tail)) by {
            assert forall|i: int| 0 <= i < tail.len() implies (#[trigger] tail[i]).len() > 0
                && nul_free(tail[i]) by {
                assert(tail[i] == ss[i + 1]);
            }
        }
        lemma_scan_from_missing(b, j + 1, acc.push(b.subrange(c, j)), tail);
    }
}

/// A string table whose final NUL is cut off right before the buffer end —
/// every string present and NUL-terminated, the table terminator missing —
/// always fails with `UnterminatedStringTable`.
pub proof fn lemma_scan_missing_terminator(ss: Seq<Seq<u8>>)
    requires
        ss.len() > 0,
        wf_table_strings(ss),
    ensures
        spec_scan(encode_string_table(ss).take(encode_string_table(ss).len() - 1))
            == Err::<(Seq<Seq<u8>>, int), DecodeError>(DecodeError::UnterminatedStringTable),
{
    let enc = encode_string_table(ss);
    let b = enc.take(enc.len() - 1);
    assert(ss[0].len() > 0 && nul_free(ss[0]));
    let restlen = encode_rest(ss.drop_first()).len();
    assert(restlen >= 1);
    assert(enc == ss[0] + seq![0u8] + encode_rest(ss.drop_first()));
    assert(b.len() == ss[0].len() + restlen);
    assert(b[0] == enc[0]);
    assert(enc[0] == ss[0][0]);
    assert(b[0] != 0);
    assert(b.subrange(0, b.len() as int) =~= enc.take(enc.len() - 1));
    lemma_scan_from_missing(b, 0, Seq::empty(), ss);
}

proof fn lemma_scan_from_inverts(b: Seq<u8>, c: int, acc: Seq<Seq<u8>>)
    requires
        0 <= c <= b.len(),
        spec_scan_from(b, c, acc) is Ok,
    ensures
        spec_scan_from(b, c, acc) matches Ok(sc) && {
            let tail = sc.0.skip(acc.len() as int);
            &&& sc.0.len() > acc.len()
            &&& sc.0.subrange(0, acc.len() as int) == acc
            &&& c + 2 <= sc.1 <= b.len()
            &&& b.subrange(c, sc.1) == encode_rest(tail)
            &&& wf_table_strings(tail)
        },
    decreases b.len() - c,
{
    lemma_find_nul_props(b, c);
    let j = find_nul(b, c)->Some_0;
    let s0 = b.subrange(c, j);
    let acc2 = acc.push(s0);
    if b[j + 1] == 0 {
        let sc = spec_scan_from(b, c, acc)->Ok_0;
        let tail = sc.0.skip(acc.len() as int);
        assert(tail =~= seq![s0]);
        assert(sc.0.subrange(0, acc.len() as int) =~= acc);
        assert(tail.drop_first() =~= Seq::<Seq<u8>>::empty());
        assert(encode_rest(Seq::<Seq<u8>>::empty()) == seq![0u8]);
        assert(encode_rest(tail) == s0 + seq![0u8] + seq![0u8]);
        assert forall|m: int| 0 <= m < sc.1 - c implies b.subrange(c, sc.1)[m] == encode_rest(
            tail,
        )[m] by {
            if m < s0.len() {
                assert(b.subrange(c, sc.1)[m] == b[c + m]);
                assert(b[c + m] == s0[m]);
            } else if m == s0.len() {
                assert(b.subrange(c, sc.1)[m] == b[j]);
            } else {
                assert(b.subrange(c, sc.1)[m] == b[j + 1]);
            }
        }
        assert(b.subrange(c, sc.1) =~= encode_rest(tail));
        assert(wf_table_strings(tail)) by {
            assert forall|i: int| 0 <= i < tail.len() implies (#[trigger] tail[i]).len() > 0
                && nul_free(tail[i]) by {
                assert(tail[i] == s0);
            }
        }
    } else {
        lemma_scan_from_inverts(b, j + 1, acc2);
        let sc = spec_scan_from(b, c, acc)->Ok_0;
        let tail = sc.0.skip(acc.len() as int);
        let tail2 = sc.0.skip(acc2.len() as int);
        assert(sc.0.subrange(0, acc2.len() as int) == acc2);
        assert(sc.0.subrange(0, acc.len() as int) =~= acc) by {
            assert forall|i: int| 0 <= i < acc.len() implies sc.0.subrange(
                0,
                acc.len() as int,
            )[i] == acc[i] by {
                assert(sc.0[i] == sc.0.subrange(0, acc2.len() as int)[i]);
                assert(acc2[i] == acc[i]);
            }
        }
        assert(tail[0] == s0) by {
            assert(sc.0[acc.len() as int] == sc.0.subrange(0, acc2.len() as int)[acc.len() as int]);
        }
        assert(tail.drop_first() =~= tail2);
        assert(encode_rest(tail) == s0 + seq![0u8] + encode_rest(tail2));
        assert forall|m: int| 0 <= m < sc.1 - c implies b.subrange(c, sc.1)[m] == encode_rest(
            tail,
        )[m] by {
            assert(b.subrange(c, sc.1)[m] == b[c + m]);
            if m < s0.len() {
                assert(b[c + m] == s0[m]);
            } else if m == s0.len() {
                assert(b[j] == 0);
            } else {
                assert(b[c + m] == b.subrange(j + 1, sc.1)[m - s0.len() - 1]);
                assert(b.subrange(j + 1, sc.1)[m - s0.len() - 1] == encode_rest(tail2)[m - s0.len()
                    - 1]);
            }
        }
        assert(b.subrange(c, sc.1) =~= encode_rest(tail));
        assert(wf_table_strings(tail)) by {
            assert forall|i: int| 0 <= i < tail.len() implies (#[trigger] tail[i]).len() > 0
                && nul_free(tail[i]) by {
                if i == 0 {
                    assert(tail[i] == s0);
                } else {
                    assert(tail[i] == tail2[i - 1]);
                    assert(tail2[i - 1].len() > 0 && nul_free(tail2[i - 1]));
                }
            }
        }
    }
}

/// The converse of the round trip: whatever a successful scan returns, the
/// consumed prefix of the buffer is exactly the canonical encoding of the
/// returned strings, which are non-empty and NUL-free. In particular the
/// consumed count is the sum over the strings of their byte length plus one
/// terminator each, plus the final NUL, and exactly 2 for an empty table.
pub proof fn lemma_scan_inverts_encode(b: Seq<u8>)
    requires
        spec_scan(b) is Ok,
    ensures
        spec_scan(b) matches Ok(sc) && {
            &&& wf_table_strings(sc.0)
            &&& 2 <= sc.1 <= b.len()
            &&& b.subrange(0, sc.1) == encode_string_table(sc.0)
        },
{
    let sc = spec_scan(b)->Ok_0;
    if b.len() >= 2 && b[0] == 0 && b[1] == 0 {
        assert(b.subrange(0, 2) =~= seq![0u8, 0u8]);
        assert(encode_string_table(sc.0) == seq![0u8, 0u8]);
    } else {
        lemma_scan_from_inverts(b, 0, Seq::empty());
        assert(sc.0.skip(0) =~= sc.0);
    }
}

/// An immediately terminated string table, the bare double NUL, scans to the
/// empty table with exactly two bytes consumed.
pub proof fn lemma_scan_empty_table(b: Seq<u8>)
    requires
        b.len() >= 2,
        b[0] == 0,
        b[1] == 0,
    ensures
        spec_scan(b) == Ok::<(Seq<Seq<u8>>, int), DecodeError>((Seq::<Seq<u8>>::empty(), 2)),
{
}

} // verus!

//! Repository-independent fixed-page deltas for consistent SQLite images.
use vstd::prelude::*;

use sha2::Digest;

use crate::bytes::{
    get_u32, get_u64, hex, hex_value, is_hex, law_le_round_trip, le_bytes, le_value,
    lemma_le_len, lemma_word_fits, nibble_value, put_le, to_hex, unhex,
};
use crate::error::{invalid, invalid_command, CommandError};
use crate::image::{page_of, pages_of, whole_pages, PAGESIZE, SqliteImage};
use crate::number::{decimal, show_u64};
use crate::text::{cat2, chars_of};

verus! {

pub const SQLITE_PAGE_DELTA_HEADER_BYTES: u32 = 104;

const SQLITE_PAGE_DELTA_FLAGS: u32 = 0;

/// The bytes of one entry: a page number and a page.
pub const ENTRY_BYTES: usize = 4100;

pub const SHA256_BYTES: usize = 32;

/// The name of the delta format.
pub const SQLITE_PAGE_DELTA_FORMAT: &'static str = "graft-sqlite-page-delta-v1";

pub open spec fn delta_format() -> Seq<char> {
    SQLITE_PAGE_DELTA_FORMAT@
}

/// The bytes that every delta starts with: `GRAFTD01`.
pub open spec fn delta_magic() -> Seq<u8> {
    seq![71, 82, 65, 70, 84, 68, 48, 49]
}

/// The SHA-256 digest of a byte sequence.
pub uninterp spec fn sha256_of(bytes: Seq<u8>) -> Seq<u8>;

/// The digest that `sha2::Sha256::digest` computes of the bytes; it depends on them alone.
#[verifier::external_body]
fn sha256(bytes: &[u8]) -> (r: [u8; 32])
    ensures
        r@ == sha256_of(bytes@),
{
    sha2::Sha256::digest(bytes).into()
}

/// Self-contained metadata embedded in one delta.
#[derive(Debug, Clone, PartialEq, Eq)]
pub struct SqlitePageDeltaMetadata<S = String> {
    pub format: S,
    pub header_bytes: u32,
    pub flags: u32,
    pub page_bytes: u32,
    pub base_bytes: u64,
    pub target_bytes: u64,
    pub changed_pages: u32,
    pub base_sha256: S,
    pub target_sha256: S,
    pub delta_bytes: u64,
    pub beneficial: bool,
}

impl View for SqlitePageDeltaMetadata<String> {
    type V = SqlitePageDeltaMetadata<Seq<char>>;

    open spec fn view(&self) -> SqlitePageDeltaMetadata<Seq<char>> {
        SqlitePageDeltaMetadata {
            format: self.format@,
            header_bytes: self.header_bytes,
            flags: self.flags,
            page_bytes: self.page_bytes,
            base_bytes: self.base_bytes,
            target_bytes: self.target_bytes,
            changed_pages: self.changed_pages,
            base_sha256: self.base_sha256@,
            target_sha256: self.target_sha256@,
            delta_bytes: self.delta_bytes,
            beneficial: self.beneficial,
        }
    }
}

/// The fields of a delta's header.
pub struct DeltaHeader<D = [u8; 32]> {
    pub page_bytes: u32,
    pub base_bytes: u64,
    pub target_bytes: u64,
    pub changed_pages: u32,
    pub base_sha256: D,
    pub target_sha256: D,
}

impl View for DeltaHeader<[u8; 32]> {
    type V = DeltaHeader<Seq<u8>>;

    open spec fn view(&self) -> DeltaHeader<Seq<u8>> {
        DeltaHeader {
            page_bytes: self.page_bytes,
            base_bytes: self.base_bytes,
            target_bytes: self.target_bytes,
            changed_pages: self.changed_pages,
            base_sha256: self.base_sha256@,
            target_sha256: self.target_sha256@,
        }
    }
}

/// The metadata of a delta of `delta_bytes` bytes with header `h`.
pub open spec fn metadata_of(h: DeltaHeader<Seq<u8>>, delta_bytes: nat) -> SqlitePageDeltaMetadata<
    Seq<char>,
> {
    SqlitePageDeltaMetadata {
        format: delta_format(),
        header_bytes: 104,
        flags: 0,
        page_bytes: h.page_bytes,
        base_bytes: h.base_bytes,
        target_bytes: h.target_bytes,
        changed_pages: h.changed_pages,
        base_sha256: hex(h.base_sha256),
        target_sha256: hex(h.target_sha256),
        delta_bytes: delta_bytes as u64,
        beneficial: delta_bytes < h.target_bytes,
    }
}

/// The header `h` as it is written.
pub open spec fn header_bytes(h: DeltaHeader<Seq<u8>>) -> Seq<u8> {
    delta_magic() + le_bytes(104, 4) + le_bytes(0, 4) + le_bytes(h.page_bytes as nat, 4) + le_bytes(
        h.changed_pages as nat,
        4,
    ) + le_bytes(h.base_bytes as nat, 8) + le_bytes(h.target_bytes as nat, 8) + h.base_sha256
        + h.target_sha256
}

/// Page `p` of the target is stored: it is new, or it is a candidate and differs from the base.
pub open spec fn is_changed(
    base: Seq<u8>,
    target: Seq<u8>,
    candidates: Option<Seq<u32>>,
    p: int,
) -> bool {
    p > pages_of(base) || ((candidates matches Some(c) ==> c.contains(p as u32)) && page_of(base, p)
        != page_of(target, p))
}

/// The page numbers of an optional list.
pub open spec fn candidate_pages(list: Option<Vec<u32>>) -> Option<Seq<u32>> {
    match list {
        Some(v) => Some(v@),
        None => None,
    }
}

/// The stored pages among the first `n`, in ascending order.
pub open spec fn changed_up_to(
    base: Seq<u8>,
    target: Seq<u8>,
    candidates: Option<Seq<u32>>,
    n: int,
) -> Seq<u32>
    decreases n,
{
    if n <= 0 {
        Seq::empty()
    } else if is_changed(base, target, candidates, n) {
        changed_up_to(base, target, candidates, n - 1).push(n as u32)
    } else {
        changed_up_to(base, target, candidates, n - 1)
    }
}

/// The entries of the pages `ps`: each page number and that page of the target.
pub open spec fn entries_bytes(target: Seq<u8>, ps: Seq<u32>) -> Seq<u8>
    decreases ps.len(),
{
    if ps.len() == 0 {
        Seq::empty()
    } else {
        entries_bytes(target, ps.drop_last()) + le_bytes(ps.last() as nat, 4) + page_of(
            target,
            ps.last() as int,
        )
    }
}

/// The header of the delta between two images with the given digests.
pub open spec fn delta_header(
    base: Seq<u8>,
    target: Seq<u8>,
    base_sha256: Seq<u8>,
    target_sha256: Seq<u8>,
    candidates: Option<Seq<u32>>,
) -> DeltaHeader<Seq<u8>> {
    DeltaHeader {
        page_bytes: PAGESIZE as u32,
        base_bytes: (pages_of(base) * PAGESIZE) as u64,
        target_bytes: (pages_of(target) * PAGESIZE) as u64,
        changed_pages: changed_up_to(base, target, candidates, pages_of(target)).len() as u32,
        base_sha256,
        target_sha256,
    }
}

/// The delta between two images with the given digests.
pub open spec fn delta_bytes_of(
    base: Seq<u8>,
    target: Seq<u8>,
    base_sha256: Seq<u8>,
    target_sha256: Seq<u8>,
    candidates: Option<Seq<u32>>,
) -> Seq<u8> {
    header_bytes(delta_header(base, target, base_sha256, target_sha256, candidates))
        + entries_bytes(target, changed_up_to(base, target, candidates, pages_of(target)))
}

/// The delta between two images.
pub open spec fn delta_of(base: Seq<u8>, target: Seq<u8>) -> Seq<u8> {
    delta_bytes_of(base, target, sha256_of(base), sha256_of(target), None)
}

/// The four-byte number at `at`.
pub open spec fn u32_at(d: Seq<u8>, at: int) -> nat {
    le_value(d.subrange(at, at + 4))
}

/// The eight-byte number at `at`.
pub open spec fn u64_at(d: Seq<u8>, at: int) -> nat {
    le_value(d.subrange(at, at + 8))
}

/// The header fields that the first 104 bytes hold.
pub open spec fn header_of(d: Seq<u8>) -> DeltaHeader<Seq<u8>> {
    DeltaHeader {
        page_bytes: u32_at(d, 16) as u32,
        base_bytes: u64_at(d, 24) as u64,
        target_bytes: u64_at(d, 32) as u64,
        changed_pages: u32_at(d, 20) as u32,
        base_sha256: d.subrange(40, 72),
        target_sha256: d.subrange(72, 104),
    }
}

/// The header of a delta, or why it is refused.
pub open spec fn checked_header(d: Seq<u8>) -> Result<
    DeltaHeader<Seq<u8>>,
    CommandError<Seq<char>>,
> {
    let h = header_of(d);
    if d.len() < 104 {
        invalid("SQLite delta header is incomplete"@)
    } else if d.take(8) != delta_magic() {
        invalid("SQLite delta magic is invalid"@)
    } else if u32_at(d, 8) != 104 || u32_at(d, 12) != 0 || h.page_bytes != PAGESIZE || h.base_bytes
        == 0 || h.target_bytes == 0 || h.base_bytes % 4096 != 0 || h.target_bytes % 4096 != 0 {
        invalid("SQLite delta header is invalid"@)
    } else if h.target_bytes / 4096 > u32::MAX {
        invalid("SQLite delta has too many pages"@)
    } else if h.changed_pages > h.target_bytes / 4096 {
        invalid("SQLite delta header is invalid"@)
    } else if 104 + h.changed_pages * ENTRY_BYTES != d.len() {
        invalid("SQLite delta length does not match its header"@)
    } else {
        Ok(h)
    }
}

/// The page number of entry `k`.
pub open spec fn entry_page(d: Seq<u8>, k: int) -> nat {
    u32_at(d, 104 + k * ENTRY_BYTES)
}

/// The page that entry `k` stores.
pub open spec fn entry_data(d: Seq<u8>, k: int) -> Seq<u8> {
    d.subrange(104 + k * ENTRY_BYTES + 4, 104 + k * ENTRY_BYTES + 4 + PAGESIZE)
}

/// The page numbers of the first `n` entries ascend from 1 on and lie inside the target.
pub open spec fn entries_ascend(d: Seq<u8>, n: int, target_pages: int) -> bool {
    &&& forall|k: int| 0 <= k < n ==> 1 <= #[trigger] entry_page(d, k) <= target_pages
    &&& forall|i: int, j: int|
        0 <= i < j < n ==> #[trigger] entry_page(d, i) < #[trigger] entry_page(d, j)
}

/// The header of a delta whose entries are in order, or why the delta is refused.
pub open spec fn checked_delta(d: Seq<u8>) -> Result<
    DeltaHeader<Seq<u8>>,
    CommandError<Seq<char>>,
> {
    match checked_header(d) {
        Err(e) => Err(e),
        Ok(h) => if entries_ascend(d, h.changed_pages as int, h.target_bytes as int / 4096) {
            Ok(h)
        } else {
            invalid("SQLite delta entries must be sorted, unique, and inside the target"@)
        },
    }
}

/// The metadata of a valid delta, or why it is refused.
pub open spec fn inspected(d: Seq<u8>) -> Result<
    SqlitePageDeltaMetadata<Seq<char>>,
    CommandError<Seq<char>>,
> {
    match checked_delta(d) {
        Err(e) => Err(e),
        Ok(h) => Ok(metadata_of(h, d.len())),
    }
}

/// The entry among the first `n` that stores page `p`.
pub open spec fn patch_index(d: Seq<u8>, n: int, p: int) -> Option<int>
    decreases n,
{
    if n <= 0 {
        None
    } else if entry_page(d, n - 1) == p {
        Some(n - 1)
    } else {
        patch_index(d, n - 1, p)
    }
}

/// Page `p` of the target: from the delta, or else from the base.
pub open spec fn page_after(base: Seq<u8>, d: Seq<u8>, n: int, p: int) -> Option<Seq<u8>> {
    match patch_index(d, n, p) {
        Some(k) => Some(entry_data(d, k)),
        None => if p <= pages_of(base) {
            Some(page_of(base, p))
        } else {
            None
        },
    }
}

/// The first `last` pages of the target, or the first page that neither side holds.
pub open spec fn rebuilt(base: Seq<u8>, d: Seq<u8>, n: int, last: int) -> Result<Seq<u8>, int>
    decreases last,
{
    if last <= 0 {
        Ok(Seq::empty())
    } else {
        match rebuilt(base, d, n, last - 1) {
            Err(p) => Err(p),
            Ok(s) => match page_after(base, d, n, last) {
                Some(page) => Ok(s + page),
                None => Err(last),
            },
        }
    }
}

/// The target image that a delta gives on a base, or why it is refused.
pub open spec fn applied(base: Seq<u8>, d: Seq<u8>) -> Result<Seq<u8>, CommandError<Seq<char>>> {
    match checked_delta(d) {
        Err(e) => Err(e),
        Ok(h) => if pages_of(base) * PAGESIZE != h.base_bytes || sha256_of(base) != h.base_sha256 {
            invalid("SQLite delta does not match the supplied base image"@)
        } else {
            match rebuilt(base, d, h.changed_pages as int, h.target_bytes as int / 4096) {
                Err(p) => invalid(
                    "SQLite delta is missing new target page "@ + decimal(p as nat),
                ),
                Ok(s) => if sha256_of(s) == h.target_sha256 {
                    Ok(s)
                } else {
                    invalid("SQLite delta materialized a target with the wrong SHA-256"@)
                },
            }
        },
    }
}

fn same_digest(a: &[u8; 32], b: &[u8; 32]) -> (r: bool)
    ensures
        r == (a@ == b@),
{
    let mut i: usize = 0;
    while i < 32
        invariant
            i <= 32,
            forall|j: int| 0 <= j < i ==> a@[j] == b@[j],
        decreases 32 - i,
    {
        if a[i] != b[i] {
            return false;
        }
        i += 1;
    }
    proof {
        assert(a@ =~= b@);
    }
    true
}

fn append_range(out: &mut Vec<u8>, bytes: &[u8], from: usize, to: usize)
    requires
        from <= to <= bytes@.len(),
    ensures
        final(out)@ == old(out)@ + bytes@.subrange(from as int, to as int),
{
    let mut i: usize = from;
    proof {
        assert(out@ =~= old(out)@ + bytes@.subrange(from as int, from as int));
    }
    while i < to
        invariant
            from <= i <= to <= bytes@.len(),
            out@ == old(out)@ + bytes@.subrange(from as int, i as int),
        decreases to - i,
    {
        out.push(bytes[i]);
        i += 1;
        proof {
            assert(out@ =~= old(out)@ + bytes@.subrange(from as int, i as int));
        }
    }
}

/// The digits of a digest in lower case.
pub fn sha256_hex(value: &[u8; 32]) -> (r: String)
    ensures
        r@ == hex(value@),
{
    to_hex(value.as_slice())
}

/// The digest that 64 lower case hexadecimal digits write.
pub fn parse_sha256_hex(value: &str) -> (r: Result<[u8; 32], CommandError>)
    ensures
        match r {
            Ok(bytes) => value@.len() == 64 && is_hex(value@) && bytes@ == unhex(value@),
            Err(e) => !(value@.len() == 64 && is_hex(value@)) && e@ == CommandError::InvalidCommand(
                "SHA-256 must contain 64 lowercase hexadecimal characters"@,
            ),
        },
{
    let message = "SHA-256 must contain 64 lowercase hexadecimal characters";
    let cs = chars_of(value);
    if cs.len() != 64 {
        return Err(invalid_command(message));
    }
    let mut bytes: [u8; 32] = [0; 32];
    let mut i: usize = 0;
    while i < 32
        invariant
            i <= 32,
            cs@ == value@,
            cs@.len() == 64,
            message@ == "SHA-256 must contain 64 lowercase hexadecimal characters"@,
            forall|j: int| 0 <= j < 2 * i ==> nibble_value(#[trigger] value@[j]) is Some,
            forall|j: int| 0 <= j < i ==> bytes@[j] == #[trigger] unhex(value@)[j],
        decreases 32 - i,
    {
        match (hex_value(cs[2 * i]), hex_value(cs[2 * i + 1])) {
            (Some(high), Some(low)) => {
                bytes[i] = high * 16 + low;
                i += 1;
            },
            _ => {
                proof {
                    assert(nibble_value(value@[2 * i as int]) is None || nibble_value(
                        value@[2 * i as int + 1],
                    ) is None);
                }
                return Err(invalid_command(message));
            },
        }
    }
    proof {
        assert(bytes@ =~= unhex(value@));
    }
    Ok(bytes)
}

impl DeltaHeader<[u8; 32]> {
    fn metadata(&self, delta_bytes: u64) -> (r: SqlitePageDeltaMetadata)
        ensures
            r@ == metadata_of(self@, delta_bytes as nat),
    {
        SqlitePageDeltaMetadata {
            format: SQLITE_PAGE_DELTA_FORMAT.to_owned(),
            header_bytes: SQLITE_PAGE_DELTA_HEADER_BYTES,
            flags: SQLITE_PAGE_DELTA_FLAGS,
            page_bytes: self.page_bytes,
            base_bytes: self.base_bytes,
            target_bytes: self.target_bytes,
            changed_pages: self.changed_pages,
            base_sha256: sha256_hex(&self.base_sha256),
            target_sha256: sha256_hex(&self.target_sha256),
            delta_bytes,
            beneficial: delta_bytes < self.target_bytes,
        }
    }
}

pub fn write_header(out: &mut Vec<u8>, header: &DeltaHeader)
    ensures
        final(out)@ == old(out)@ + header_bytes(header@),
{
    let magic: [u8; 8] = [71, 82, 65, 70, 84, 68, 48, 49];
    append_range(out, &magic, 0, 8);
    proof {
        assert(magic@.subrange(0, 8) =~= delta_magic());
        assert(header.base_sha256@.subrange(0, 32) =~= header.base_sha256@);
        assert(header.target_sha256@.subrange(0, 32) =~= header.target_sha256@);
    }
    put_le(out, SQLITE_PAGE_DELTA_HEADER_BYTES as u64, 4);
    put_le(out, SQLITE_PAGE_DELTA_FLAGS as u64, 4);
    put_le(out, header.page_bytes as u64, 4);
    put_le(out, header.changed_pages as u64, 4);
    put_le(out, header.base_bytes, 8);
    put_le(out, header.target_bytes, 8);
    append_range(out, &header.base_sha256, 0, 32);
    append_range(out, &header.target_sha256, 0, 32);
    proof {
        assert(out@ =~= old(out)@ + header_bytes(header@));
    }
}

/// Whether two equally long stretches of two images hold the same bytes.
fn same_range(a: &[u8], b: &[u8], from: usize, to: usize) -> (r: bool)
    requires
        from <= to <= a@.len(),
        to <= b@.len(),
    ensures
        r == (a@.subrange(from as int, to as int) == b@.subrange(from as int, to as int)),
{
    let mut i: usize = from;
    while i < to
        invariant
            from <= i <= to <= a@.len(),
            to <= b@.len(),
            forall|j: int| from <= j < i ==> a@[j] == b@[j],
        decreases to - i,
    {
        if a[i] != b[i] {
            proof {
                assert(a@.subrange(from as int, to as int)[i - from] != b@.subrange(
                    from as int,
                    to as int,
                )[i - from]);
            }
            return false;
        }
        i += 1;
    }
    proof {
        assert(a@.subrange(from as int, to as int) =~= b@.subrange(from as int, to as int));
    }
    true
}

/// For each page number up to `last`, whether the list holds it.
fn candidate_marks(list: &Vec<u32>, last: u32) -> (r: Vec<bool>)
    ensures
        r@.len() == last + 1,
        forall|p: int| 0 <= p <= last ==> r@[p] == list@.contains(p as u32),
{
    let mut marks: Vec<bool> = Vec::new();
    let mut p: u64 = 0;
    while p <= last as u64
        invariant
            p <= last + 1,
            marks@.len() == p,
            forall|q: int| 0 <= q < p ==> !marks@[q],
        decreases last + 1 - p,
    {
        marks.push(false);
        p += 1;
    }
    let mut i: usize = 0;
    while i < list.len()
        invariant
            i <= list@.len(),
            marks@.len() == last + 1,
            forall|q: int| 0 <= q <= last ==> marks@[q] == list@.take(i as int).contains(q as u32),
        decreases list@.len() - i,
    {
        let c: u32 = list[i];
        proof {
            assert(list@.take(i + 1) =~= list@.take(i as int).push(c));
            assert forall|q: u32| list@.take(i + 1).contains(q) == (list@.take(i as int).contains(q)
                || q == c) by {
                if list@.take(i as int).contains(q) {
                    let k = list@.take(i as int).index_of(q);
                    assert(list@.take(i + 1)[k] == q);
                }
                assert(list@.take(i + 1)[i as int] == c);
            }
        }
        if c <= last {
            marks[c as usize] = true;
        }
        i += 1;
    }
    proof {
        assert(list@.take(i as int) =~= list@);
    }
    marks
}

/// Writes the delta between two images whose digests are known.
///
/// With `candidates`, only the listed pages are compared; pages that the base does not have are
/// always stored.
pub fn write_delta_from_readers(
    base: &SqliteImage,
    target: &SqliteImage,
    base_sha256: [u8; 32],
    target_sha256: [u8; 32],
    candidates: Option<Vec<u32>>,
) -> (r: (Vec<u8>, SqlitePageDeltaMetadata))
    ensures
        ({
            let c = candidate_pages(candidates);
            &&& r.0@ == delta_bytes_of(base.data(), target.data(), base_sha256@, target_sha256@, c)
            &&& r.1@ == metadata_of(
                delta_header(base.data(), target.data(), base_sha256@, target_sha256@, c),
                r.0@.len(),
            )
        }),
{
    let ghost c = candidate_pages(candidates);
    let base_pages: u32 = base.page_count();
    let target_pages: u32 = target.page_count();
    let base_bytes: &[u8] = base.as_bytes();
    let target_bytes: &[u8] = target.as_bytes();
    let base_size: usize = base_bytes.len();
    let target_size: usize = target_bytes.len();
    let marks: Option<Vec<bool>> = match &candidates {
        Some(list) => Some(candidate_marks(list, target_pages)),
        None => None,
    };
    let mut changed: Vec<u32> = Vec::new();
    let mut done: u32 = 0;
    while done < target_pages
        invariant
            done <= target_pages,
            target_pages == pages_of(target_bytes@),
            base_pages == pages_of(base_bytes@),
            base_size == base_bytes@.len(),
            target_size == target_bytes@.len(),
            whole_pages(base_bytes@),
            whole_pages(target_bytes@),
            changed@ == changed_up_to(base_bytes@, target_bytes@, c, done as int),
            changed@.len() <= done,
            match marks {
                Some(m) => c is Some && m@.len() == target_pages + 1 && forall|p: int|
                    0 <= p <= target_pages ==> m@[p] == c->0.contains(p as u32),
                None => c is None,
            },
        decreases target_pages - done,
    {
        let p: u32 = done + 1;
        let store: bool = if p > base_pages {
            true
        } else {
            let looked_at: bool = match &marks {
                Some(m) => m[p as usize],
                None => true,
            };
            looked_at && !same_range(
                base_bytes,
                target_bytes,
                done as usize * PAGESIZE,
                p as usize * PAGESIZE,
            )
        };
        if store {
            changed.push(p);
        }
        done = p;
    }
    let header = DeltaHeader {
        page_bytes: PAGESIZE as u32,
        base_bytes: base_pages as u64 * PAGESIZE as u64,
        target_bytes: target_pages as u64 * PAGESIZE as u64,
        changed_pages: changed.len() as u32,
        base_sha256,
        target_sha256,
    };
    let mut out: Vec<u8> = Vec::new();
    write_header(&mut out, &header);
    let ghost head = header_bytes(header@);
    proof {
        assert(out@ =~= head);
        lemma_changed(base_bytes@, target_bytes@, c, target_pages as int);
        assert(changed@.take(0) =~= Seq::empty());
        assert(head + entries_bytes(target_bytes@, changed@.take(0)) =~= head);
    }
    let mut i: usize = 0;
    while i < changed.len()
        invariant
            i <= changed@.len(),
            target_pages == pages_of(target_bytes@),
            target_size == target_bytes@.len(),
            whole_pages(target_bytes@),
            forall|k: int| 0 <= k < changed@.len() ==> 1 <= #[trigger] changed@[k] <= target_pages,
            out@ == head + entries_bytes(target_bytes@, changed@.take(i as int)),
        decreases changed@.len() - i,
    {
        let p: u32 = changed[i];
        proof {
            assert(changed@.take(i + 1).drop_last() =~= changed@.take(i as int));
        }
        put_le(&mut out, p as u64, 4);
        append_range(&mut out, target_bytes, (p - 1) as usize * PAGESIZE, p as usize * PAGESIZE);
        i += 1;
        proof {
            assert(out@ =~= head + entries_bytes(target_bytes@, changed@.take(i as int)));
        }
    }
    proof {
        assert(changed@.take(i as int) =~= changed@);
    }
    let size: u64 = out.len() as u64;
    let metadata = header.metadata(size);
    (out, metadata)
}

/// Creates a portable delta between two consistent physical SQLite images.
pub fn create_sqlite_page_delta(base: &SqliteImage, target: &SqliteImage) -> (r: (
    Vec<u8>,
    SqlitePageDeltaMetadata,
))
    ensures
        r.0@ == delta_of(base.data(), target.data()),
        r.1@ == metadata_of(
            delta_header(
                base.data(),
                target.data(),
                sha256_of(base.data()),
                sha256_of(target.data()),
                None,
            ),
            r.0@.len(),
        ),
        inspected(r.0@) == Ok::<_, CommandError<Seq<char>>>(r.1@),
        applied(base.data(), r.0@) == Ok::<_, CommandError<Seq<char>>>(target.data()),
{
    let base_sha256 = sha256(base.as_bytes());
    let target_sha256 = sha256(target.as_bytes());
    proof {
        law_written_delta_is_valid(
            base.data(),
            target.data(),
            base_sha256@,
            target_sha256@,
            None,
        );
        law_apply_restores_target(base.data(), target.data(), base_sha256@, target_sha256@, None);
    }
    write_delta_from_readers(base, target, base_sha256, target_sha256, None)
}

fn take_digest(bytes: &[u8], at: usize) -> (r: [u8; 32])
    requires
        at + 32 <= bytes@.len(),
    ensures
        r@ == bytes@.subrange(at as int, at + 32),
{
    let mut out: [u8; 32] = [0; 32];
    let size: usize = bytes.len();
    let mut i: usize = 0;
    while i < 32
        invariant
            i <= 32,
            size == bytes@.len(),
            at + 32 <= size,
            forall|j: int| 0 <= j < i ==> out@[j] == bytes@[at + j],
        decreases 32 - i,
    {
        out[i] = bytes[at + i];
        i += 1;
    }
    proof {
        assert(out@ =~= bytes@.subrange(at as int, at + 32));
    }
    out
}

pub fn read_and_validate_header(delta: &[u8]) -> (r: Result<DeltaHeader, CommandError>)
    ensures
        match r {
            Ok(h) => checked_header(delta@) == Ok::<_, CommandError<Seq<char>>>(h@),
            Err(e) => checked_header(delta@) == Err::<DeltaHeader<Seq<u8>>, _>(e@),
        },
{
    if delta.len() < 104 {
        return Err(invalid_command("SQLite delta header is incomplete"));
    }
    let magic: [u8; 8] = [71, 82, 65, 70, 84, 68, 48, 49];
    proof {
        assert(magic@ =~= delta_magic());
        assert(magic@.subrange(0, 8) =~= delta_magic());
        assert(delta@.subrange(0, 8) =~= delta@.take(8));
    }
    if !same_range(delta, &magic, 0, 8) {
        return Err(invalid_command("SQLite delta magic is invalid"));
    }
    let stated_bytes: u32 = get_u32(delta, 8);
    let flags: u32 = get_u32(delta, 12);
    let page_bytes: u32 = get_u32(delta, 16);
    let changed_pages: u32 = get_u32(delta, 20);
    let base_bytes: u64 = get_u64(delta, 24);
    let target_bytes: u64 = get_u64(delta, 32);
    let base_sha256 = take_digest(delta, 40);
    let target_sha256 = take_digest(delta, 72);
    if stated_bytes != SQLITE_PAGE_DELTA_HEADER_BYTES || flags != SQLITE_PAGE_DELTA_FLAGS
        || page_bytes != PAGESIZE as u32 || base_bytes == 0 || target_bytes == 0 || base_bytes
        % 4096 != 0 || target_bytes % 4096 != 0 {
        return Err(invalid_command("SQLite delta header is invalid"));
    }
    if target_bytes / 4096 > u32::MAX as u64 {
        return Err(invalid_command("SQLite delta has too many pages"));
    }
    if changed_pages as u64 > target_bytes / 4096 {
        return Err(invalid_command("SQLite delta header is invalid"));
    }
    let expected: u64 = 104 + changed_pages as u64 * ENTRY_BYTES as u64;
    if expected != delta.len() as u64 {
        return Err(invalid_command("SQLite delta length does not match its header"));
    }
    Ok(
        DeltaHeader {
            page_bytes,
            base_bytes,
            target_bytes,
            changed_pages,
            base_sha256,
            target_sha256,
        },
    )
}

fn validate_entries(delta: &[u8], header: &DeltaHeader) -> (r: Result<(), CommandError>)
    requires
        checked_header(delta@) == Ok::<_, CommandError<Seq<char>>>(header@),
    ensures
        match r {
            Ok(()) => entries_ascend(
                delta@,
                header.changed_pages as int,
                header.target_bytes as int / 4096,
            ),
            Err(e) => !entries_ascend(
                delta@,
                header.changed_pages as int,
                header.target_bytes as int / 4096,
            ) && e@ == CommandError::InvalidCommand(
                "SQLite delta entries must be sorted, unique, and inside the target"@,
            ),
        },
{
    let target_pages: u64 = header.target_bytes / 4096;
    let size: usize = delta.len();
    let mut previous: u32 = 0;
    let mut k: u32 = 0;
    while k < header.changed_pages
        invariant
            k <= header.changed_pages,
            size == delta@.len(),
            size == 104 + header.changed_pages * ENTRY_BYTES,
            target_pages == header.target_bytes as int / 4096,
            entries_ascend(delta@, k as int, target_pages as int),
            k == 0 ==> previous == 0,
            k > 0 ==> previous == entry_page(delta@, k - 1),
        decreases header.changed_pages - k,
    {
        let page: u32 = get_u32(delta, 104 + k as usize * ENTRY_BYTES);
        proof {
            assert(entry_page(delta@, k as int) == page);
        }
        if page <= previous || page as u64 > target_pages {
            return Err(
                invalid_command(
                    "SQLite delta entries must be sorted, unique, and inside the target",
                ),
            );
        }
        previous = page;
        k += 1;
    }
    Ok(())
}

/// Validates a delta and returns its embedded metadata without applying it.
pub fn inspect_sqlite_page_delta(delta: &[u8]) -> (r: Result<
    SqlitePageDeltaMetadata,
    CommandError,
>)
    ensures
        match r {
            Ok(m) => inspected(delta@) == Ok::<_, CommandError<Seq<char>>>(m@),
            Err(e) => inspected(delta@) == Err::<SqlitePageDeltaMetadata<Seq<char>>, _>(e@),
        },
{
    let header = match read_and_validate_header(delta) {
        Ok(header) => header,
        Err(e) => return Err(e),
    };
    match validate_entries(delta, &header) {
        Ok(()) => {},
        Err(e) => return Err(e),
    }
    Ok(header.metadata(delta.len() as u64))
}

/// Where the entries before `k` store pages before `p` and the others do not, only entry `k` can
/// store `p`.
proof fn lemma_patch(d: Seq<u8>, n: int, target_pages: int, k: int, p: int, m: int)
    requires
        entries_ascend(d, n, target_pages),
        0 <= k <= n,
        0 <= m <= n,
        k > 0 ==> entry_page(d, k - 1) < p,
        k < n ==> entry_page(d, k) >= p,
    ensures
        patch_index(d, m, p) == if k < m && entry_page(d, k) == p {
            Some(k)
        } else {
            None
        },
    decreases m,
{
    if m > 0 {
        lemma_patch(d, n, target_pages, k, p, m - 1);
    }
}

/// Applies a delta to the exact base image named by its embedded digest.
pub fn apply_sqlite_page_delta(base: &SqliteImage, delta: &[u8]) -> (r: Result<
    (Vec<u8>, SqlitePageDeltaMetadata),
    CommandError,
>)
    ensures
        match r {
            Ok((image, m)) => applied(base.data(), delta@) == Ok::<_, CommandError<Seq<char>>>(
                image@,
            ) && inspected(delta@) == Ok::<_, CommandError<Seq<char>>>(m@),
            Err(e) => applied(base.data(), delta@) == Err::<Seq<u8>, _>(e@),
        },
{
    let header = match read_and_validate_header(delta) {
        Ok(header) => header,
        Err(e) => return Err(e),
    };
    match validate_entries(delta, &header) {
        Ok(()) => {},
        Err(e) => return Err(e),
    }
    let base_pages: u32 = base.page_count();
    let base_bytes: &[u8] = base.as_bytes();
    if base_pages as u64 * PAGESIZE as u64 != header.base_bytes || !same_digest(
        &sha256(base_bytes),
        &header.base_sha256,
    ) {
        return Err(invalid_command("SQLite delta does not match the supplied base image"));
    }
    let target_pages: u64 = header.target_bytes / 4096;
    let size: usize = delta.len();
    let base_size: usize = base_bytes.len();
    let ghost n = header.changed_pages as int;
    let mut out: Vec<u8> = Vec::new();
    let mut next: u32 = 0;
    let mut done: u64 = 0;
    while done < target_pages
        invariant
            done <= target_pages <= u32::MAX,
            n == header.changed_pages,
            next <= n,
            size == delta@.len(),
            size == 104 + n * ENTRY_BYTES,
            base_size == base_bytes@.len(),
            whole_pages(base_bytes@),
            base_pages == pages_of(base_bytes@),
            base_bytes@ == base.data(),
            entries_ascend(delta@, n, target_pages as int),
            next > 0 ==> entry_page(delta@, next - 1) <= done,
            next < n ==> entry_page(delta@, next as int) > done,
            rebuilt(base_bytes@, delta@, n, done as int) == Ok::<Seq<u8>, int>(out@),
            target_pages == header.target_bytes as int / 4096,
            checked_delta(delta@) == Ok::<_, CommandError<Seq<char>>>(header@),
            pages_of(base.data()) * PAGESIZE == header.base_bytes,
            sha256_of(base.data()) == header.base_sha256@,
        decreases target_pages - done,
    {
        let p: u64 = done + 1;
        proof {
            lemma_patch(delta@, n, target_pages as int, next as int, p as int, n);
        }
        let at: usize = 104 + next as usize * ENTRY_BYTES;
        if next < header.changed_pages && get_u32(delta, at) as u64 == p {
            append_range(&mut out, delta, at + 4, at + 4 + PAGESIZE);
            next += 1;
            proof {
                if next < n {
                    assert(entry_page(delta@, next - 1) < entry_page(delta@, next as int));
                }
            }
        } else if p <= base_pages as u64 {
            append_range(
                &mut out,
                base_bytes,
                done as usize * PAGESIZE,
                p as usize * PAGESIZE,
            );
        } else {
            proof {
                lemma_rebuilt_fails(
                    base_bytes@,
                    delta@,
                    n,
                    p as int,
                    target_pages as int,
                );
            }
            return Err(
                invalid_command(
                    cat2("SQLite delta is missing new target page ", show_u64(p).as_str()).as_str(),
                ),
            );
        }
        done = p;
    }
    if same_digest(&sha256(out.as_slice()), &header.target_sha256) {
        let metadata = header.metadata(delta.len() as u64);
        Ok((out, metadata))
    } else {
        Err(invalid_command("SQLite delta materialized a target with the wrong SHA-256"))
    }
}

/// A page that is missing stays missing.
proof fn lemma_rebuilt_fails(base: Seq<u8>, d: Seq<u8>, n: int, p: int, last: int)
    requires
        1 <= p <= last,
        rebuilt(base, d, n, p - 1) is Ok,
        page_after(base, d, n, p) is None,
    ensures
        rebuilt(base, d, n, last) == Err::<Seq<u8>, int>(p),
    decreases last,
{
    if last > p {
        lemma_rebuilt_fails(base, d, n, p, last - 1);
    }
}

/// The stored pages are few enough, lie inside the target and ascend.
proof fn lemma_changed(base: Seq<u8>, target: Seq<u8>, c: Option<Seq<u32>>, n: int)
    requires
        0 <= n <= u32::MAX,
    ensures
        changed_up_to(base, target, c, n).len() <= n,
        forall|k: int|
            0 <= k < changed_up_to(base, target, c, n).len() ==> 1
                <= #[trigger] changed_up_to(base, target, c, n)[k] <= n && is_changed(
                base,
                target,
                c,
                changed_up_to(base, target, c, n)[k] as int,
            ),
        forall|k: int, m: int|
            0 <= k < m < changed_up_to(base, target, c, n).len() ==> #[trigger] changed_up_to(
                base,
                target,
                c,
                n,
            )[k] < #[trigger] changed_up_to(base, target, c, n)[m],
    decreases n,
{
    if n > 0 {
        lemma_changed(base, target, c, n - 1);
    }
}

/// Every page up to `n` is in the list of stored pages just when it is to be stored.
proof fn lemma_changed_complete(base: Seq<u8>, target: Seq<u8>, c: Option<Seq<u32>>, n: int, p: int)
    requires
        1 <= p <= n <= u32::MAX,
    ensures
        changed_up_to(base, target, c, n).contains(p as u32) == is_changed(base, target, c, p),
    decreases n,
{
    let all = changed_up_to(base, target, c, n);
    let before = changed_up_to(base, target, c, n - 1);
    lemma_changed(base, target, c, n);
    if p < n {
        lemma_changed_complete(base, target, c, n - 1, p);
        if before.contains(p as u32) {
            let k = before.index_of(p as u32);
            assert(all[k] == p as u32);
        }
        if all.contains(p as u32) {
            let k = all.index_of(p as u32);
            if is_changed(base, target, c, n) {
                assert(all.last() == n as u32);
                assert(k < before.len());
            }
            assert(before[k] == p as u32);
        }
    } else {
        if is_changed(base, target, c, n) {
            assert(all[all.len() - 1] == p as u32);
        } else if all.contains(p as u32) {
            let k = all.index_of(p as u32);
            lemma_changed(base, target, c, n - 1);
            assert(before[k] == p as u32);
        }
    }
}

/// Where each entry of a list of pages stands.
proof fn lemma_entries(target: Seq<u8>, ps: Seq<u32>, k: int)
    requires
        forall|i: int|
            0 <= i < ps.len() ==> 1 <= #[trigger] ps[i] && ps[i] * PAGESIZE <= target.len(),
    ensures
        entries_bytes(target, ps).len() == ps.len() * ENTRY_BYTES,
        0 <= k < ps.len() ==> {
            &&& entries_bytes(target, ps).subrange(k * ENTRY_BYTES, k * ENTRY_BYTES + 4)
                == le_bytes(ps[k] as nat, 4)
            &&& entries_bytes(target, ps).subrange(
                k * ENTRY_BYTES + 4,
                k * ENTRY_BYTES + ENTRY_BYTES,
            ) == page_of(target, ps[k] as int)
        },
    decreases ps.len(),
{
    if ps.len() > 0 {
        let rest = ps.drop_last();
        let whole = entries_bytes(target, ps);
        assert forall|i: int| 0 <= i < rest.len() implies 1 <= #[trigger] rest[i] && rest[i]
            * PAGESIZE <= target.len() by {
            assert(rest[i] == ps[i]);
        }
        lemma_entries(target, rest, k);
        lemma_le_len(ps.last() as nat, 4);
        let last = ps[ps.len() - 1] as int;
        assert(page_of(target, last).len() == PAGESIZE);
        if 0 <= k < rest.len() {
            assert(rest[k] == ps[k]);
            let before = entries_bytes(target, rest);
            assert(whole.subrange(k * ENTRY_BYTES, k * ENTRY_BYTES + 4) =~= before.subrange(
                k * ENTRY_BYTES,
                k * ENTRY_BYTES + 4,
            ));
            assert(whole.subrange(k * ENTRY_BYTES + 4, k * ENTRY_BYTES + ENTRY_BYTES)
                =~= before.subrange(k * ENTRY_BYTES + 4, k * ENTRY_BYTES + ENTRY_BYTES));
        } else if k == rest.len() {
            assert(whole.subrange(k * ENTRY_BYTES, k * ENTRY_BYTES + 4) =~= le_bytes(
                last as nat,
                4,
            ));
            assert(whole.subrange(k * ENTRY_BYTES + 4, k * ENTRY_BYTES + ENTRY_BYTES) =~= page_of(
                target,
                last,
            ));
        }
    }
}

/// A written header reads back as it was.
proof fn lemma_header(h: DeltaHeader<Seq<u8>>, rest: Seq<u8>)
    requires
        h.base_sha256.len() == 32,
        h.target_sha256.len() == 32,
    ensures
        header_bytes(h).len() == 104,
        ({
            let d = header_bytes(h) + rest;
            &&& header_of(d) == h
            &&& d.take(8) == delta_magic()
            &&& u32_at(d, 8) == 104
            &&& u32_at(d, 12) == 0
        }),
{
    let d = header_bytes(h) + rest;
    lemma_le_len(104, 4);
    lemma_le_len(0, 4);
    lemma_le_len(h.page_bytes as nat, 4);
    lemma_le_len(h.changed_pages as nat, 4);
    lemma_le_len(h.base_bytes as nat, 8);
    lemma_le_len(h.target_bytes as nat, 8);
    lemma_word_fits(104);
    lemma_word_fits(0);
    lemma_word_fits(h.page_bytes as nat);
    lemma_word_fits(h.changed_pages as nat);
    lemma_word_fits(h.base_bytes as nat);
    lemma_word_fits(h.target_bytes as nat);
    law_le_round_trip(104, 4);
    law_le_round_trip(0, 4);
    law_le_round_trip(h.page_bytes as nat, 4);
    law_le_round_trip(h.changed_pages as nat, 4);
    law_le_round_trip(h.base_bytes as nat, 8);
    law_le_round_trip(h.target_bytes as nat, 8);
    assert(d.take(8) =~= delta_magic());
    assert(d.subrange(8, 12) =~= le_bytes(104, 4));
    assert(d.subrange(12, 16) =~= le_bytes(0, 4));
    assert(d.subrange(16, 20) =~= le_bytes(h.page_bytes as nat, 4));
    assert(d.subrange(20, 24) =~= le_bytes(h.changed_pages as nat, 4));
    assert(d.subrange(24, 32) =~= le_bytes(h.base_bytes as nat, 8));
    assert(d.subrange(32, 40) =~= le_bytes(h.target_bytes as nat, 8));
    assert(d.subrange(40, 72) =~= h.base_sha256);
    assert(d.subrange(72, 104) =~= h.target_sha256);
}

/// A header that is written in front of its entries reads back as it was.
pub proof fn law_header_round_trip(h: DeltaHeader<Seq<u8>>, entries: Seq<u8>)
    requires
        h.page_bytes == PAGESIZE,
        h.base_bytes > 0,
        h.base_bytes % 4096 == 0,
        h.target_bytes > 0,
        h.target_bytes % 4096 == 0,
        h.changed_pages <= h.target_bytes / 4096 <= u32::MAX,
        h.base_sha256.len() == SHA256_BYTES,
        h.target_sha256.len() == SHA256_BYTES,
        entries.len() == h.changed_pages * ENTRY_BYTES,
    ensures
        header_bytes(h).len() == SQLITE_PAGE_DELTA_HEADER_BYTES,
        checked_header(header_bytes(h) + entries) == Ok::<_, CommandError<Seq<char>>>(h),
{
    lemma_header(h, entries);
}

/// A written delta is valid, and inspecting it gives the metadata it was written with.
pub proof fn law_written_delta_is_valid(
    base: Seq<u8>,
    target: Seq<u8>,
    base_sha256: Seq<u8>,
    target_sha256: Seq<u8>,
    candidates: Option<Seq<u32>>,
)
    requires
        whole_pages(base),
        whole_pages(target),
        base_sha256.len() == SHA256_BYTES,
        target_sha256.len() == SHA256_BYTES,
    ensures
        ({
            let h = delta_header(base, target, base_sha256, target_sha256, candidates);
            let d = delta_bytes_of(base, target, base_sha256, target_sha256, candidates);
            &&& checked_delta(d) == Ok::<_, CommandError<Seq<char>>>(h)
            &&& inspected(d) == Ok::<_, CommandError<Seq<char>>>(metadata_of(h, d.len()))
        }),
{
    let h = delta_header(base, target, base_sha256, target_sha256, candidates);
    let d = delta_bytes_of(base, target, base_sha256, target_sha256, candidates);
    let last = pages_of(target);
    let ps = changed_up_to(base, target, candidates, last);
    lemma_changed(base, target, candidates, last);
    lemma_header(h, entries_bytes(target, ps));
    lemma_entries(target, ps, 0);
    assert(d.len() == 104 + ps.len() * ENTRY_BYTES);
    assert(h.target_bytes as int / 4096 == last);
    assert forall|k: int| 0 <= k < ps.len() implies #[trigger] entry_page(d, k) == ps[k] by {
        lemma_written_entry(h, target, ps, k);
    }
}

/// Entry `k` of a written delta.
proof fn lemma_written_entry(h: DeltaHeader<Seq<u8>>, target: Seq<u8>, ps: Seq<u32>, k: int)
    requires
        h.base_sha256.len() == 32,
        h.target_sha256.len() == 32,
        0 <= k < ps.len(),
        forall|i: int|
            0 <= i < ps.len() ==> 1 <= #[trigger] ps[i] && ps[i] * PAGESIZE <= target.len(),
    ensures
        ({
            let d = header_bytes(h) + entries_bytes(target, ps);
            &&& entry_page(d, k) == ps[k]
            &&& entry_data(d, k) == page_of(target, ps[k] as int)
        }),
{
    let entries = entries_bytes(target, ps);
    let d = header_bytes(h) + entries;
    lemma_header(h, entries);
    lemma_entries(target, ps, k);
    lemma_word_fits(ps[k] as nat);
    law_le_round_trip(ps[k] as nat, 4);
    let at = k * ENTRY_BYTES;
    assert(d.subrange(104 + at, 104 + at + 4) =~= entries.subrange(at, at + 4));
    assert(entry_data(d, k) =~= entries.subrange(at + 4, at + ENTRY_BYTES));
}

/// Applying a delta to the base that it was written from restores the target, wherever the
/// candidates name every page on which the two images differ.
pub proof fn law_apply_restores_target(
    base: Seq<u8>,
    target: Seq<u8>,
    base_sha256: Seq<u8>,
    target_sha256: Seq<u8>,
    candidates: Option<Seq<u32>>,
)
    requires
        whole_pages(base),
        whole_pages(target),
        base_sha256.len() == SHA256_BYTES,
        target_sha256.len() == SHA256_BYTES,
        base_sha256 == sha256_of(base),
        target_sha256 == sha256_of(target),
        candidates matches Some(c) ==> forall|p: int|
            1 <= p <= pages_of(base) && p <= pages_of(target) && #[trigger] page_of(base, p)
                != page_of(target, p) ==> c.contains(p as u32),
    ensures
        applied(
            base,
            delta_bytes_of(base, target, base_sha256, target_sha256, candidates),
        ) == Ok::<_, CommandError<Seq<char>>>(target),
{
    let h = delta_header(base, target, base_sha256, target_sha256, candidates);
    let d = delta_bytes_of(base, target, base_sha256, target_sha256, candidates);
    let last = pages_of(target);
    let ps = changed_up_to(base, target, candidates, last);
    law_written_delta_is_valid(base, target, base_sha256, target_sha256, candidates);
    lemma_changed(base, target, candidates, last);
    lemma_restored(base, target, h, candidates, last);
    assert(target.take(last * PAGESIZE) =~= target);
}

proof fn lemma_restored(
    base: Seq<u8>,
    target: Seq<u8>,
    h: DeltaHeader<Seq<u8>>,
    candidates: Option<Seq<u32>>,
    n: int,
)
    requires
        whole_pages(base),
        whole_pages(target),
        h.base_sha256.len() == 32,
        h.target_sha256.len() == 32,
        0 <= n <= pages_of(target),
        candidates matches Some(c) ==> forall|p: int|
            1 <= p <= pages_of(base) && p <= pages_of(target) && #[trigger] page_of(base, p)
                != page_of(target, p) ==> c.contains(p as u32),
    ensures
        ({
            let ps = changed_up_to(base, target, candidates, pages_of(target));
            let d = header_bytes(h) + entries_bytes(target, ps);
            rebuilt(base, d, ps.len() as int, n) == Ok::<Seq<u8>, int>(target.take(n * PAGESIZE))
        }),
    decreases n,
{
    let last = pages_of(target);
    let ps = changed_up_to(base, target, candidates, last);
    let d = header_bytes(h) + entries_bytes(target, ps);
    if n > 0 {
        lemma_restored(base, target, h, candidates, n - 1);
        lemma_changed(base, target, candidates, last);
        lemma_changed_complete(base, target, candidates, last, n);
        assert forall|k: int| 0 <= k < ps.len() implies #[trigger] entry_page(d, k) == ps[k]
            && entry_data(d, k) == page_of(target, ps[k] as int) by {
            lemma_written_entry(h, target, ps, k);
        }
        lemma_patch_of(d, ps, n, ps.len() as int);
        match patch_index(d, ps.len() as int, n) {
            Some(k) => {
                assert(entry_page(d, k) == ps[k]);
            },
            None => {
                assert(!ps.contains(n as u32));
                assert(page_of(base, n) == page_of(target, n));
            },
        }
        assert(page_after(base, d, ps.len() as int, n) == Some(page_of(target, n)));
        assert(target.take((n - 1) * PAGESIZE) + page_of(target, n) =~= target.take(n * PAGESIZE));
    } else {
        assert(target.take(0) =~= Seq::empty());
    }
}

/// Looking a page up among written entries finds it just when it is in the list.
proof fn lemma_patch_of(d: Seq<u8>, ps: Seq<u32>, p: int, m: int)
    requires
        0 <= m <= ps.len(),
        1 <= p <= u32::MAX,
        forall|k: int| 0 <= k < ps.len() ==> #[trigger] entry_page(d, k) == ps[k],
    ensures
        match patch_index(d, m, p) {
            Some(k) => 0 <= k < m && ps[k] == p,
            None => forall|k: int| 0 <= k < m ==> #[trigger] ps[k] != p,
        },
    decreases m,
{
    if m > 0 {
        lemma_patch_of(d, ps, p, m - 1);
        assert(entry_page(d, m - 1) == ps[m - 1]);
    }
}

/// What a delta is applied to, and what comes out, have the digests and sizes that it names.
pub proof fn law_applied_digests(base: Seq<u8>, d: Seq<u8>)
    requires
        whole_pages(base),
        applied(base, d) is Ok,
    ensures
        ({
            let h = header_of(d);
            let image = applied(base, d)->Ok_0;
            &&& checked_delta(d) == Ok::<_, CommandError<Seq<char>>>(h)
            &&& sha256_of(base) == h.base_sha256
            &&& base.len() == h.base_bytes
            &&& sha256_of(image) == h.target_sha256
            &&& image.len() == h.target_bytes
        }),
{
    let h = header_of(d);
    lemma_rebuilt_len(base, d, h.changed_pages as int, h.target_bytes as int / 4096);
}

proof fn lemma_rebuilt_len(base: Seq<u8>, d: Seq<u8>, n: int, last: int)
    requires
        whole_pages(base),
        d.len() == 104 + n * ENTRY_BYTES,
        last >= 0,
    ensures
        rebuilt(base, d, n, last) matches Ok(s) ==> s.len() == last * PAGESIZE,
    decreases last,
{
    if last > 0 {
        lemma_rebuilt_len(base, d, n, last - 1);
        lemma_patch_bound(d, n, last);
    }
}

proof fn lemma_patch_bound(d: Seq<u8>, n: int, p: int)
    ensures
        patch_index(d, n, p) matches Some(k) ==> 0 <= k < n,
    decreases n,
{
    if n > 0 {
        lemma_patch_bound(d, n - 1, p);
    }
}

/// A delta is refused on every image that has not the digest or the size of its base.
pub proof fn law_other_base_is_refused(
    base: Seq<u8>,
    other: Seq<u8>,
    target: Seq<u8>,
    base_sha256: Seq<u8>,
    target_sha256: Seq<u8>,
    candidates: Option<Seq<u32>>,
)
    requires
        whole_pages(base),
        whole_pages(other),
        whole_pages(target),
        base_sha256.len() == SHA256_BYTES,
        target_sha256.len() == SHA256_BYTES,
        other.len() != base.len() || sha256_of(other) != base_sha256,
    ensures
        applied(
            other,
            delta_bytes_of(base, target, base_sha256, target_sha256, candidates),
        ) == invalid::<Seq<u8>>("SQLite delta does not match the supplied base image"@),
{
    law_written_delta_is_valid(base, target, base_sha256, target_sha256, candidates);
}

/// A delta stores nothing but its header where the two images are the same.
pub proof fn law_equal_images_need_no_pages(image: Seq<u8>, n: int)
    requires
        whole_pages(image),
        0 <= n <= pages_of(image),
    ensures
        changed_up_to(image, image, None, n).len() == 0,
    decreases n,
{
    if n > 0 {
        law_equal_images_need_no_pages(image, n - 1);
    }
}

} // verus!

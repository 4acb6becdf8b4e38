//! How far the counts in a font file reach.
//!
//! A font file tells by counts, lengths and offsets of 32 bits where its parts
//! are. In a file that is not sound they can point beyond anything that 32 bits
//! can address. Such files are told apart here, before they are parsed.

use vstd::prelude::*;
use vstd::slice::slice_subrange;

verus! {

/// How far a count, a length or an offset may reach, in bytes from the start of
/// the part that it stands in. What is left to the end of the 32 bits is enough
/// for every list with a count of 16 bits.
pub const REACH: u64 = 0xFFE0_0000;

/// Whether there are `n` bytes from a place on.
pub open spec fn holds(t: Seq<u8>, i: int, n: int) -> bool {
    0 <= i && i + n <= t.len()
}

/// The number of 16 bits at a place.
pub open spec fn word(t: Seq<u8>, i: int) -> int {
    t[i] * 256 + t[i + 1]
}

/// The number of 32 bits at a place.
pub open spec fn long(t: Seq<u8>, i: int) -> int {
    word(t, i) * 65536 + word(t, i + 2)
}

/// The number of 16 bits at a place, if it is there.
fn word_at(t: &[u8], i: u64) -> (res: Option<u64>)
    ensures
        match res {
            Some(v) => holds(t@, i as int, 2) && v == word(t@, i as int),
            None => !holds(t@, i as int, 2),
        },
{
    let n: u64 = t.len() as u64;
    if n < 2 || i > n - 2 {
        return None;
    }
    let k: usize = i as usize;
    Some(t[k] as u64 * 256 + t[k + 1] as u64)
}

/// The number of 32 bits at a place, if it is there.
fn long_at(t: &[u8], i: u64) -> (res: Option<u64>)
    ensures
        match res {
            Some(v) => holds(t@, i as int, 4) && v == long(t@, i as int),
            None => !holds(t@, i as int, 4),
        },
{
    let n: u64 = t.len() as u64;
    if n < 4 || i > n - 4 {
        return None;
    }
    let k: usize = i as usize;
    let high: u64 = t[k] as u64 * 256 + t[k + 1] as u64;
    let low: u64 = t[k + 2] as u64 * 256 + t[k + 3] as u64;
    Some(high * 65536 + low)
}

/// The bytes from a place on.
fn skip(t: &[u8], from: u64) -> (res: &[u8])
    requires
        from <= t@.len(),
    ensures
        res@ == t@.skip(from as int),
{
    slice_subrange(t, from as usize, t.len())
}

/// A list whose count of 32 bits stands at a place, with its entries behind it,
/// stays within reach.
pub open spec fn list_fits(t: Seq<u8>, i: int, size: int) -> bool {
    holds(t, i, 4) ==> i + 4 + size * long(t, i) <= REACH
}

fn check_list(t: &[u8], i: u64, size: u64) -> (res: bool)
    requires
        i <= u32::MAX,
        size <= 12,
    ensures
        res == list_fits(t@, i as int, size as int),
{
    match long_at(t, i) {
        Some(count) => {
            proof {
                assert(0 <= size * count <= 12 * 0xFFFF_FFFF) by (nonlinear_arith)
                    requires
                        0 <= size <= 12,
                        0 <= count <= 0xFFFF_FFFF,
                ;
            }
            i + 4 + size * count <= REACH
        },
        None => true,
    }
}

/// A variation store at a place tells by an offset where its regions are.
pub open spec fn store_fits(t: Seq<u8>, i: int) -> bool {
    holds(t, i, 6) && word(t, i) == 1 ==> i + long(t, i + 2) <= REACH
}

fn check_store(t: &[u8], i: u64) -> (res: bool)
    requires
        i <= 2 * u32::MAX as u64,
    ensures
        res == store_fits(t@, i as int),
{
    match (word_at(t, i), long_at(t, i + 2)) {
        (Some(1), Some(offset)) => i + offset <= REACH,
        _ => true,
    }
}

/// A subtable of the character map. Formats 10, 12, 13 and 14 hold a list with a
/// count of 32 bits.
pub open spec fn subtable_fits(s: Seq<u8>) -> bool {
    holds(s, 0, 2) ==> {
        let format = word(s, 0);
        if format == 10 {
            list_fits(s, 16, 2)
        } else if format == 12 || format == 13 {
            list_fits(s, 12, 12)
        } else if format == 14 {
            list_fits(s, 6, 11)
        } else {
            true
        }
    }
}

fn check_subtable(s: &[u8]) -> (res: bool)
    ensures
        res == subtable_fits(s@),
{
    match word_at(s, 0) {
        Some(10) => check_list(s, 16, 2),
        Some(12) => check_list(s, 12, 12),
        Some(13) => check_list(s, 12, 12),
        Some(14) => check_list(s, 6, 11),
        _ => true,
    }
}

/// The subtable that a record of the character map refers to.
pub open spec fn encoding_fits(t: Seq<u8>, k: int) -> bool {
    holds(t, 4 + 8 * k, 8) && long(t, 8 + 8 * k) <= t.len() ==> subtable_fits(
        t.skip(long(t, 8 + 8 * k)),
    )
}

/// The character map, `cmap`.
pub open spec fn cmap_fits(t: Seq<u8>) -> bool {
    holds(t, 2, 2) ==> forall|k: int| 0 <= k < word(t, 2) ==> #[trigger] encoding_fits(t, k)
}

fn check_cmap(t: &[u8]) -> (res: bool)
    ensures
        res == cmap_fits(t@),
{
    let count: u64 = match word_at(t, 2) {
        Some(count) => count,
        None => return true,
    };
    let mut k: u64 = 0;
    while k < count
        invariant
            holds(t@, 2, 2),
            count == word(t@, 2),
            k <= count,
            forall|j: int| 0 <= j < k ==> #[trigger] encoding_fits(t@, j),
        decreases count - k,
    {
        if let Some(offset) = long_at(t, 8 + 8 * k) {
            if offset <= t.len() as u64 {
                let subtable = skip(t, offset);
                if !check_subtable(subtable) {
                    assert(!encoding_fits(t@, k as int));
                    return false;
                }
            }
        }
        assert(encoding_fits(t@, k as int));
        k = k + 1;
    }
    true
}

/// The subtables of Apple's kerning table, from a place on. Each tells its
/// length.
pub open spec fn chain_fits(s: Seq<u8>, i: int) -> bool
    decreases s.len() - i,
{
    if !holds(s, i, 6) || s[i + 5] > 3 || long(s, i) < 8 {
        true
    } else {
        i + long(s, i) <= REACH && (i + long(s, i) <= s.len() ==> chain_fits(s, i + long(s, i)))
    }
}

/// The kerning table, `kern`.
pub open spec fn kern_fits(t: Seq<u8>) -> bool {
    holds(t, 4, 4) && word(t, 0) != 0 && long(t, 4) != 0 ==> chain_fits(t.skip(8), 0)
}

fn check_kern(t: &[u8]) -> (res: bool)
    requires
        t@.len() <= REACH,
    ensures
        res == kern_fits(t@),
{
    match (word_at(t, 0), long_at(t, 4)) {
        (Some(version), Some(count)) => {
            if version == 0 || count == 0 {
                return true;
            }
        },
        _ => return true,
    }
    check_chain(skip(t, 8))
}

fn check_chain(s: &[u8]) -> (res: bool)
    requires
        s@.len() <= REACH,
    ensures
        res == chain_fits(s@, 0),
{
    let n: u64 = s.len() as u64;
    let mut i: u64 = 0;
    while n >= 6 && i <= n - 6
        invariant
            n == s@.len() <= REACH,
            i <= n,
            chain_fits(s@, 0) == chain_fits(s@, i as int),
        decreases n - i,
    {
        let length: u64 = match long_at(s, i) {
            Some(length) => length,
            None => 0,
        };
        let k: usize = i as usize;
        if s[k + 5] > 3 || length < 8 {
            return true;
        }
        if i + length > REACH {
            return false;
        }
        if i + length > n {
            return true;
        }
        i = i + length;
    }
    true
}

/// The bitmap table, `sbix`.
pub open spec fn sbix_fits(t: Seq<u8>) -> bool {
    holds(t, 0, 2) && word(t, 0) == 1 ==> list_fits(t, 4, 4)
}

fn check_sbix(t: &[u8]) -> (res: bool)
    ensures
        res == sbix_fits(t@),
{
    match word_at(t, 0) {
        Some(1) => check_list(t, 4, 4),
        _ => true,
    }
}

/// The offset at a place leads to some part of the table.
pub open spec fn leads(t: Seq<u8>, i: int) -> bool {
    holds(t, i, 4) && 0 < long(t, i) <= t.len()
}

/// The part of a table that the offset at a place leads to, if there is one.
fn part_at(t: &[u8], i: u64) -> (res: Option<&[u8]>)
    ensures
        match res {
            Some(part) => leads(t@, i as int) && part@ == t@.skip(long(t@, i as int)),
            None => !leads(t@, i as int),
        },
{
    match long_at(t, i) {
        Some(offset) => {
            if 0 < offset && offset <= t.len() as u64 {
                Some(skip(t, offset))
            } else {
                None
            }
        },
        None => None,
    }
}

/// The color table, `COLR`: the lists of its paints, layers and clips, and its
/// variation store.
pub open spec fn colr_fits(t: Seq<u8>) -> bool {
    holds(t, 0, 2) && word(t, 0) == 1 ==> {
        &&& holds(t, 14, 4) ==> list_fits(t, long(t, 14), 6)
        &&& holds(t, 18, 4) ==> list_fits(t, long(t, 18), 4)
        &&& leads(t, 22) ==> list_fits(t.skip(long(t, 22)), 1, 7)
        &&& leads(t, 30) ==> store_fits(t.skip(long(t, 30)), 0)
    }
}

fn check_colr(t: &[u8]) -> (res: bool)
    ensures
        res == colr_fits(t@),
{
    match word_at(t, 0) {
        Some(1) => {},
        _ => return true,
    }
    let paints = match long_at(t, 14) {
        Some(offset) => check_list(t, offset, 6),
        None => true,
    };
    let layers = match long_at(t, 18) {
        Some(offset) => check_list(t, offset, 4),
        None => true,
    };
    let clips = match part_at(t, 22) {
        Some(part) => check_list(part, 1, 7),
        None => true,
    };
    let store = match part_at(t, 30) {
        Some(part) => check_store(part, 0),
        None => true,
    };
    paints && layers && clips && store
}

/// The layout tables, `GPOS` and `GSUB`: the list of the feature variations.
pub open spec fn layout_fits(t: Seq<u8>) -> bool {
    leads(t, 10) && word(t, 0) == 1 && word(t, 2) >= 1 ==> {
        let part = t.skip(long(t, 10));
        holds(part, 0, 2) && word(part, 0) == 1 ==> list_fits(part, 4, 8)
    }
}

fn check_layout(t: &[u8]) -> (res: bool)
    ensures
        res == layout_fits(t@),
{
    match (word_at(t, 0), word_at(t, 2), part_at(t, 10)) {
        (Some(1), Some(minor), Some(part)) => {
            if minor == 0 {
                return true;
            }
            match word_at(part, 0) {
                Some(1) => check_list(part, 4, 8),
                _ => true,
            }
        },
        _ => true,
    }
}

/// The tables of variable metrics, `HVAR` and `VVAR`.
pub open spec fn metrics_fit(t: Seq<u8>) -> bool {
    holds(t, 4, 4) && long(t, 0) == 0x10000 ==> store_fits(t, long(t, 4))
}

fn check_metrics(t: &[u8]) -> (res: bool)
    ensures
        res == metrics_fit(t@),
{
    match (long_at(t, 0), long_at(t, 4)) {
        (Some(0x10000), Some(offset)) => check_store(t, offset),
        _ => true,
    }
}

/// The other variable metrics, `MVAR`.
pub open spec fn mvar_fits(t: Seq<u8>) -> bool {
    holds(t, 10, 2) && long(t, 0) == 0x10000 ==> store_fits(t, word(t, 10))
}

fn check_mvar(t: &[u8]) -> (res: bool)
    ensures
        res == mvar_fits(t@),
{
    match (long_at(t, 0), word_at(t, 10)) {
        (Some(0x10000), Some(offset)) => check_store(t, offset),
        _ => true,
    }
}

/// The glyph definitions, `GDEF`.
pub open spec fn gdef_fits(t: Seq<u8>) -> bool {
    leads(t, 14) && long(t, 0) == 0x10003 ==> store_fits(t.skip(long(t, 14)), 0)
}

fn check_gdef(t: &[u8]) -> (res: bool)
    ensures
        res == gdef_fits(t@),
{
    match (long_at(t, 0), part_at(t, 14)) {
        (Some(0x10003), Some(part)) => check_store(part, 0),
        _ => true,
    }
}

/// What stands before an operator of a dictionary.
#[derive(Clone, Copy, Debug, PartialEq, Eq, Structural)]
pub enum Operand {
    /// Nothing, or a number below zero.
    Absent,
    /// A number that is written as a decimal fraction.
    Fraction,
    /// A whole number.
    Whole(u32),
}

/// An operator of a dictionary, with the last two numbers before it.
#[derive(Clone, Copy, Debug, PartialEq, Eq, Structural)]
pub struct DictEntry {
    pub operator: u32,
    pub before: Operand,
    pub last: Operand,
}

/// Whether a byte of a dictionary is an operator, and not the start of a number.
pub open spec fn is_operator(b: u8) -> bool {
    b <= 27 || b == 31 || b == 255
}

/// Where a decimal fraction ends: behind the byte that holds the end mark.
pub open spec fn fraction_end(d: Seq<u8>, i: int) -> int
    decreases d.len() - i,
{
    if i < 0 || i >= d.len() {
        i
    } else if d[i] / 16 == 15 || d[i] % 16 == 15 {
        i + 1
    } else {
        fraction_end(d, i + 1)
    }
}

/// A decimal fraction does not end before it starts, nor behind the dictionary.
pub proof fn lemma_fraction_end(d: Seq<u8>, i: int)
    ensures
        fraction_end(d, i) >= i,
        i <= d.len() ==> fraction_end(d, i) <= d.len(),
    decreases d.len() - i,
{
    if 0 <= i < d.len() {
        lemma_fraction_end(d, i + 1);
    }
}

/// Where the number ends that starts at a place.
pub open spec fn number_end(d: Seq<u8>, i: int) -> int {
    if d[i] == 28 {
        i + 3
    } else if d[i] == 29 {
        i + 5
    } else if d[i] == 30 {
        fraction_end(d, i + 1)
    } else if d[i] >= 247 {
        i + 2
    } else {
        i + 1
    }
}

/// The number that starts at a place.
pub open spec fn number(d: Seq<u8>, i: int) -> Operand {
    if d[i] == 28 && holds(d, i + 1, 2) && word(d, i + 1) < 0x8000 {
        Operand::Whole(word(d, i + 1) as u32)
    } else if d[i] == 29 && holds(d, i + 1, 4) && long(d, i + 1) < 0x8000_0000 {
        Operand::Whole(long(d, i + 1) as u32)
    } else if d[i] == 30 {
        Operand::Fraction
    } else if 139 <= d[i] <= 246 {
        Operand::Whole((d[i] - 139) as u32)
    } else if 247 <= d[i] <= 250 && holds(d, i + 1, 1) {
        Operand::Whole(((d[i] - 247) * 256 + d[i + 1] + 108) as u32)
    } else {
        Operand::Absent
    }
}

/// The operators of a dictionary from a place on, where two numbers have been
/// read before.
pub open spec fn entries(d: Seq<u8>, i: int, before: Operand, last: Operand) -> Seq<DictEntry>
    decreases d.len() + 5 - i,
{
    if i < 0 || i >= d.len() {
        seq![]
    } else if !is_operator(d[i]) {
        proof {
            lemma_fraction_end(d, i + 1);
        }
        entries(d, number_end(d, i), last, number(d, i))
    } else if d[i] != 12 {
        seq![DictEntry { operator: d[i] as u32, before, last }] + entries(
            d,
            i + 1,
            Operand::Absent,
            Operand::Absent,
        )
    } else if i + 1 < d.len() {
        seq![DictEntry { operator: (1200 + d[i + 1]) as u32, before, last }] + entries(
            d,
            i + 2,
            Operand::Absent,
            Operand::Absent,
        )
    } else {
        seq![]
    }
}

/// All operators of a dictionary.
pub open spec fn dict(d: Seq<u8>) -> Seq<DictEntry> {
    entries(d, 0, Operand::Absent, Operand::Absent)
}

fn read_fraction(d: &[u8], from: u64) -> (res: u64)
    requires
        from <= d@.len() <= REACH,
    ensures
        res == fraction_end(d@, from as int),
        from <= res <= d@.len(),
{
    let mut i: u64 = from;
    while i < d.len() as u64
        invariant
            from <= i <= d@.len() <= REACH,
            fraction_end(d@, from as int) == fraction_end(d@, i as int),
        decreases d@.len() - i,
    {
        let b: u8 = d[i as usize];
        i = i + 1;
        if b / 16 == 15 || b % 16 == 15 {
            return i;
        }
    }
    i
}

fn read_number(d: &[u8], i: u64) -> (res: (u64, Operand))
    requires
        i < d@.len() <= REACH,
    ensures
        res.0 == number_end(d@, i as int),
        i < res.0 <= d@.len() + 5,
        res.1 == number(d@, i as int),
{
    let b: u8 = d[i as usize];
    if b == 28 {
        match word_at(d, i + 1) {
            Some(v) => if v < 0x8000 {
                (i + 3, Operand::Whole(v as u32))
            } else {
                (i + 3, Operand::Absent)
            },
            None => (i + 3, Operand::Absent),
        }
    } else if b == 29 {
        match long_at(d, i + 1) {
            Some(v) => if v < 0x8000_0000 {
                (i + 5, Operand::Whole(v as u32))
            } else {
                (i + 5, Operand::Absent)
            },
            None => (i + 5, Operand::Absent),
        }
    } else if b == 30 {
        (read_fraction(d, i + 1), Operand::Fraction)
    } else if b >= 247 {
        if b <= 250 && i + 1 < d.len() as u64 {
            let next: u32 = d[(i + 1) as usize] as u32;
            (i + 2, Operand::Whole((b as u32 - 247) * 256 + next + 108))
        } else {
            (i + 2, Operand::Absent)
        }
    } else if b >= 139 {
        (i + 1, Operand::Whole(b as u32 - 139))
    } else {
        (i + 1, Operand::Absent)
    }
}

fn read_dict(d: &[u8]) -> (res: Vec<DictEntry>)
    requires
        d@.len() <= REACH,
    ensures
        res@ == dict(d@),
{
    let n: u64 = d.len() as u64;
    let mut out: Vec<DictEntry> = Vec::new();
    let mut before = Operand::Absent;
    let mut last = Operand::Absent;
    let mut i: u64 = 0;
    proof {
        assert(out@ + dict(d@) =~= dict(d@));
    }
    while i < n
        invariant
            n == d@.len() <= REACH,
            i <= n + 5,
            out@ + entries(d@, i as int, before, last) == dict(d@),
        decreases n + 5 - i,
    {
        let b: u8 = d[i as usize];
        let ghost rest = entries(d@, i as int, before, last);
        let ghost read = out@;
        if b <= 27 || b == 31 || b == 255 {
            let mut operator: u32 = b as u32;
            if b == 12 {
                i = i + 1;
                if i >= n {
                    assert(out@ =~= dict(d@));
                    return out;
                }
                operator = 1200 + d[i as usize] as u32;
            }
            i = i + 1;
            let entry = DictEntry { operator, before, last };
            out.push(entry);
            before = Operand::Absent;
            last = Operand::Absent;
            proof {
                assert(rest =~= seq![entry] + entries(d@, i as int, before, last));
                assert(out@ + entries(d@, i as int, before, last) =~= read + rest);
            }
        } else {
            let (end, value) = read_number(d, i);
            before = last;
            last = value;
            i = end;
        }
    }
    assert(out@ =~= dict(d@));
    out
}

/// How many items an index tells of whose count, of 2 or 4 bytes, stands at a
/// place.
pub open spec fn index_count(t: Seq<u8>, p: int, width: int) -> int {
    if width == 2 {
        word(t, p)
    } else {
        long(t, p)
    }
}

/// Whether there is an index with items at a place. Behind the count stands the
/// size of an offset, from 1 to 4 bytes.
pub open spec fn is_index(t: Seq<u8>, p: int, width: int) -> bool {
    &&& holds(t, p, width + 1)
    &&& 0 < index_count(t, p, width) < 0xFFFF_FFFF
    &&& 1 <= t[p + width] <= 4
}

/// Where the items of an index stand: behind its offsets, of which there is one
/// more than items.
pub open spec fn items_at(t: Seq<u8>, p: int, width: int) -> int {
    p + width + 1 + (index_count(t, p, width) + 1) * t[p + width]
}

/// The number of a given size, from 1 to 4 bytes, at a place.
pub open spec fn sized(t: Seq<u8>, i: int, size: int) -> int {
    if size == 1 {
        t[i] as int
    } else if size == 2 {
        word(t, i)
    } else if size == 3 {
        t[i] * 65536 + word(t, i + 1)
    } else {
        long(t, i)
    }
}

/// An offset of an index. Offsets count from 1.
pub open spec fn item_offset(t: Seq<u8>, p: int, width: int, k: int) -> int {
    sized(t, p + width + 1 + k * t[p + width], t[p + width] as int)
}

/// An index stays within reach: its offsets do, and so do its items, which end
/// at the last offset.
pub open spec fn index_fits(t: Seq<u8>, p: int, width: int) -> bool {
    is_index(t, p, width) ==> {
        &&& items_at(t, p, width) <= REACH
        &&& items_at(t, p, width) <= t.len() ==> items_at(t, p, width) + item_offset(
            t,
            p,
            width,
            index_count(t, p, width),
        ) <= REACH
    }
}

/// Where something can stand behind an index.
pub open spec fn index_end(t: Seq<u8>, p: int, width: int) -> int {
    if !is_index(t, p, width) {
        p + width
    } else if items_at(t, p, width) > t.len() {
        t.len() as int
    } else {
        let last = item_offset(t, p, width, index_count(t, p, width));
        items_at(t, p, width) + if last > 0 {
            last - 1
        } else {
            0
        }
    }
}

/// Whether an index has an item that lies within the table.
pub open spec fn has_item(t: Seq<u8>, p: int, width: int, k: int) -> bool {
    &&& is_index(t, p, width)
    &&& items_at(t, p, width) <= t.len()
    &&& 0 <= k < index_count(t, p, width)
    &&& 1 <= item_offset(t, p, width, k) <= item_offset(t, p, width, k + 1)
    &&& items_at(t, p, width) + item_offset(t, p, width, k + 1) - 1 <= t.len()
}

/// An item of an index.
pub open spec fn item(t: Seq<u8>, p: int, width: int, k: int) -> Seq<u8> {
    let at = items_at(t, p, width) - 1;
    t.subrange(at + item_offset(t, p, width, k), at + item_offset(t, p, width, k + 1))
}

/// An index with items: how many, the size of an offset, and where the items
/// stand.
struct IndexHead {
    count: u64,
    size: u64,
    items: u64,
}

fn read_index(t: &[u8], p: u64, width: u64) -> (res: Option<IndexHead>)
    requires
        t@.len() <= REACH,
        p <= u32::MAX,
        width == 2 || width == 4,
    ensures
        res is Some <==> is_index(t@, p as int, width as int),
        res matches Some(head) ==> {
            &&& head.count == index_count(t@, p as int, width as int)
            &&& head.size == t@[p + width]
            &&& head.items == items_at(t@, p as int, width as int)
            &&& head.items <= 0x6_0000_0000
        },
{
    let at: u64 = p + width;
    let found = if width == 2 {
        word_at(t, p)
    } else {
        long_at(t, p)
    };
    let count: u64 = match found {
        Some(count) => count,
        None => return None,
    };
    if at >= t.len() as u64 || count == 0 || count == 0xFFFF_FFFF {
        return None;
    }
    let size: u64 = t[at as usize] as u64;
    if size < 1 || size > 4 {
        return None;
    }
    proof {
        assert(0 <= (count + 1) * size <= 0x4_0000_0000) by (nonlinear_arith)
            requires
                0 <= count <= 0xFFFF_FFFE,
                1 <= size <= 4,
        ;
    }
    Some(IndexHead { count, size, items: at + 1 + (count + 1) * size })
}

fn read_offset(t: &[u8], p: u64, width: u64, head: &IndexHead, k: u64) -> (res: u64)
    requires
        t@.len() <= REACH,
        p <= u32::MAX,
        width == 2 || width == 4,
        is_index(t@, p as int, width as int),
        head.count == index_count(t@, p as int, width as int),
        head.size == t@[p + width],
        head.items == items_at(t@, p as int, width as int),
        head.items <= t@.len(),
        k <= head.count,
    ensures
        res == item_offset(t@, p as int, width as int, k as int),
        res <= 0xFFFF_FFFF,
{
    let size: u64 = head.size;
    proof {
        assert(0 <= k * size && k * size + size <= (head.count + 1) * size) by (nonlinear_arith)
            requires
                0 <= k <= head.count,
                1 <= size,
        ;
    }
    let i: u64 = p + width + 1 + k * size;
    let j: usize = i as usize;
    if size == 1 {
        t[j] as u64
    } else if size == 2 {
        t[j] as u64 * 256 + t[j + 1] as u64
    } else if size == 3 {
        t[j] as u64 * 65536 + (t[j + 1] as u64 * 256 + t[j + 2] as u64)
    } else {
        let high: u64 = t[j] as u64 * 256 + t[j + 1] as u64;
        let low: u64 = t[j + 2] as u64 * 256 + t[j + 3] as u64;
        high * 65536 + low
    }
}

fn check_index(t: &[u8], p: u64, width: u64) -> (res: bool)
    requires
        t@.len() <= REACH,
        p <= u32::MAX,
        width == 2 || width == 4,
    ensures
        res == index_fits(t@, p as int, width as int),
{
    match read_index(t, p, width) {
        Some(head) => {
            if head.items > REACH {
                return false;
            }
            if head.items > t.len() as u64 {
                return true;
            }
            head.items + read_offset(t, p, width, &head, head.count) <= REACH
        },
        None => true,
    }
}

fn end_of_index(t: &[u8], p: u64, width: u64) -> (res: u64)
    requires
        t@.len() <= REACH,
        p <= REACH,
        width == 2 || width == 4,
        index_fits(t@, p as int, width as int),
    ensures
        res == index_end(t@, p as int, width as int),
        res <= REACH + 4,
{
    match read_index(t, p, width) {
        Some(head) => {
            if head.items > t.len() as u64 {
                return t.len() as u64;
            }
            let last: u64 = read_offset(t, p, width, &head, head.count);
            if last > 0 {
                head.items + last - 1
            } else {
                head.items
            }
        },
        None => p + width,
    }
}

fn read_item(t: &[u8], p: u64, width: u64, k: u64) -> (res: Option<&[u8]>)
    requires
        t@.len() <= REACH,
        p <= u32::MAX,
        width == 2 || width == 4,
    ensures
        res is Some <==> has_item(t@, p as int, width as int, k as int),
        res matches Some(d) ==> d@ == item(t@, p as int, width as int, k as int),
{
    let head = match read_index(t, p, width) {
        Some(head) => head,
        None => return None,
    };
    if head.items > t.len() as u64 || k >= head.count {
        return None;
    }
    let from: u64 = read_offset(t, p, width, &head, k);
    let to: u64 = read_offset(t, p, width, &head, k + 1);
    if from < 1 || from > to || head.items + to - 1 > t.len() as u64 {
        return None;
    }
    let start: u64 = head.items + from - 1;
    let end: u64 = head.items + to - 1;
    Some(slice_subrange(t, start as usize, end as usize))
}

/// The index that a number of a dictionary leads to.
pub open spec fn offset_fits(t: Seq<u8>, offset: Operand, width: int) -> bool {
    match offset {
        Operand::Absent => true,
        Operand::Fraction => false,
        Operand::Whole(p) => index_fits(t, p as int, width),
    }
}

fn check_offset(t: &[u8], offset: Operand, width: u64) -> (res: bool)
    requires
        t@.len() <= REACH,
        width == 2 || width == 4,
    ensures
        res == offset_fits(t@, offset, width as int),
{
    match offset {
        Operand::Absent => true,
        Operand::Fraction => false,
        Operand::Whole(p) => check_index(t, p as u64, width),
    }
}

/// The subroutines that a private dictionary leads to, by operator 19, counted
/// from where the dictionary starts.
pub open spec fn subroutines_fit(t: Seq<u8>, start: int, entry: DictEntry, width: int) -> bool {
    entry.operator == 19 ==> match entry.last {
        Operand::Absent => true,
        Operand::Fraction => false,
        Operand::Whole(v) => start + v <= t.len() ==> index_fits(t.skip(start + v), 0, width),
    }
}

/// A private dictionary, of which its length and its start are given.
pub open spec fn private_fits(t: Seq<u8>, length: Operand, start: Operand, width: int) -> bool {
    match (length, start) {
        (Operand::Fraction, _) => false,
        (_, Operand::Fraction) => false,
        (Operand::Whole(n), Operand::Whole(s)) => s + n <= t.len() ==> {
            let found = dict(t.subrange(s as int, s + n));
            forall|j: int|
                0 <= j < found.len() ==> subroutines_fit(t, s as int, #[trigger] found[j], width)
        },
        _ => true,
    }
}

fn check_private(t: &[u8], length: Operand, start: Operand, width: u64) -> (res: bool)
    requires
        t@.len() <= REACH,
        width == 2 || width == 4,
    ensures
        res == private_fits(t@, length, start, width as int),
{
    let (n, s): (u64, u64) = match (length, start) {
        (Operand::Fraction, _) => return false,
        (_, Operand::Fraction) => return false,
        (Operand::Whole(n), Operand::Whole(s)) => (n as u64, s as u64),
        _ => return true,
    };
    if s + n > t.len() as u64 {
        return true;
    }
    let found = read_dict(slice_subrange(t, s as usize, (s + n) as usize));
    check_subroutines(t, s, &found, width)
}

fn check_subroutines(t: &[u8], start: u64, found: &Vec<DictEntry>, width: u64) -> (res: bool)
    requires
        t@.len() <= REACH,
        start <= u32::MAX,
        width == 2 || width == 4,
    ensures
        res == forall|j: int|
            0 <= j < found@.len() ==> subroutines_fit(
                t@,
                start as int,
                #[trigger] found@[j],
                width as int,
            ),
{
    let mut j: usize = 0;
    while j < found.len()
        invariant
            t@.len() <= REACH,
            start <= u32::MAX,
            width == 2 || width == 4,
            j <= found@.len(),
            forall|i: int|
                0 <= i < j ==> subroutines_fit(
                    t@,
                    start as int,
                    #[trigger] found@[i],
                    width as int,
                ),
        decreases found@.len() - j,
    {
        let entry = found[j];
        if entry.operator == 19 {
            let fits = match entry.last {
                Operand::Absent => true,
                Operand::Fraction => false,
                Operand::Whole(v) => {
                    let at: u64 = start + v as u64;
                    at > t.len() as u64 || check_index(skip(t, at), 0, width)
                },
            };
            if !fits {
                assert(!subroutines_fit(t@, start as int, found@[j as int], width as int));
                return false;
            }
        }
        j = j + 1;
    }
    true
}

/// An operator of the top dictionary of a `CFF` table. 17 leads to the glyphs,
/// 18 to the private dictionary and 1236 to the dictionaries of the fonts.
pub open spec fn top_entry_fits(t: Seq<u8>, entry: DictEntry) -> bool {
    &&& entry.operator == 17 || entry.operator == 1236 ==> offset_fits(t, entry.last, 2)
    &&& entry.operator == 18 ==> private_fits(t, entry.before, entry.last, 2)
}

/// Where the first index of a `CFF` table stands, behind the header.
pub open spec fn header_end(t: Seq<u8>, least: int) -> int {
    if t[2] > least {
        t[2] as int
    } else {
        least
    }
}

/// The outlines, `CFF`: the indexes of the names, the top dictionary, the
/// strings and the subroutines, one behind the other, and what the top
/// dictionary leads to.
pub open spec fn cff_fits(t: Seq<u8>) -> bool {
    t.len() >= 3 && t[0] == 1 ==> {
        let names = header_end(t, 4);
        let top = index_end(t, names, 2);
        let strings = index_end(t, top, 2);
        let subroutines = index_end(t, strings, 2);
        &&& index_fits(t, names, 2)
        &&& index_fits(t, top, 2)
        &&& index_fits(t, strings, 2)
        &&& index_fits(t, subroutines, 2)
        &&& has_item(t, top, 2, 0) ==> {
            let found = dict(item(t, top, 2, 0));
            forall|j: int| 0 <= j < found.len() ==> top_entry_fits(t, #[trigger] found[j])
        }
    }
}

fn check_cff(t: &[u8]) -> (res: bool)
    requires
        t@.len() <= REACH,
    ensures
        res == cff_fits(t@),
{
    if t.len() < 3 || t[0] != 1 {
        return true;
    }
    let names: u64 = if t[2] > 4 {
        t[2] as u64
    } else {
        4
    };
    if !check_index(t, names, 2) {
        return false;
    }
    let top: u64 = end_of_index(t, names, 2);
    if !check_index(t, top, 2) {
        return false;
    }
    if top > REACH {
        return true;
    }
    let strings: u64 = end_of_index(t, top, 2);
    if !check_index(t, strings, 2) {
        return false;
    }
    if strings <= REACH {
        let subroutines: u64 = end_of_index(t, strings, 2);
        if !check_index(t, subroutines, 2) {
            return false;
        }
    }
    let d = match read_item(t, top, 2, 0) {
        Some(d) => d,
        None => return true,
    };
    let found = read_dict(d);
    check_top(t, &found)
}

fn check_top(t: &[u8], found: &Vec<DictEntry>) -> (res: bool)
    requires
        t@.len() <= REACH,
    ensures
        res == forall|j: int| 0 <= j < found@.len() ==> top_entry_fits(t@, #[trigger] found@[j]),
{
    let mut j: usize = 0;
    while j < found.len()
        invariant
            t@.len() <= REACH,
            j <= found@.len(),
            forall|i: int| 0 <= i < j ==> top_entry_fits(t@, #[trigger] found@[i]),
        decreases found@.len() - j,
    {
        let entry = found[j];
        let fits = if entry.operator == 17 || entry.operator == 1236 {
            check_offset(t, entry.last, 2)
        } else if entry.operator == 18 {
            check_private(t, entry.before, entry.last, 2)
        } else {
            true
        };
        if !fits {
            assert(!top_entry_fits(t@, found@[j as int]));
            return false;
        }
        j = j + 1;
    }
    true
}

/// An operator of the dictionary of a font in a `CFF2` table.
pub open spec fn font_entry_fits(t: Seq<u8>, entry: DictEntry) -> bool {
    entry.operator == 18 ==> private_fits(t, entry.before, entry.last, 4)
}

/// The dictionary of a font in a `CFF2` table, an item of an index.
pub open spec fn font_fits(t: Seq<u8>, p: int, k: int) -> bool {
    has_item(t, p, 4, k) ==> {
        let found = dict(item(t, p, 4, k));
        forall|j: int| 0 <= j < found.len() ==> font_entry_fits(t, #[trigger] found[j])
    }
}

fn check_font(t: &[u8], p: u64, k: u64) -> (res: bool)
    requires
        t@.len() <= REACH,
        p <= u32::MAX,
    ensures
        res == font_fits(t@, p as int, k as int),
{
    match read_item(t, p, 4, k) {
        Some(d) => {
            let found = read_dict(d);
            check_font_dict(t, &found)
        },
        None => true,
    }
}

fn check_font_dict(t: &[u8], found: &Vec<DictEntry>) -> (res: bool)
    requires
        t@.len() <= REACH,
    ensures
        res == forall|j: int| 0 <= j < found@.len() ==> font_entry_fits(t@, #[trigger] found@[j]),
{
    let mut j: usize = 0;
    while j < found.len()
        invariant
            t@.len() <= REACH,
            j <= found@.len(),
            forall|i: int| 0 <= i < j ==> font_entry_fits(t@, #[trigger] found@[i]),
        decreases found@.len() - j,
    {
        let entry = found[j];
        if entry.operator == 18 && !check_private(t, entry.before, entry.last, 4) {
            assert(!font_entry_fits(t@, found@[j as int]));
            return false;
        }
        j = j + 1;
    }
    true
}

/// All dictionaries of fonts in an index of a `CFF2` table.
pub open spec fn fonts_fit(t: Seq<u8>, p: int) -> bool {
    forall|k: int| #[trigger] font_fits(t, p, k)
}

fn check_fonts(t: &[u8], p: u64) -> (res: bool)
    requires
        t@.len() <= REACH,
        p <= u32::MAX,
    ensures
        res == fonts_fit(t@, p as int),
{
    let head = match read_index(t, p, 4) {
        Some(head) => head,
        None => return true,
    };
    if head.items > t.len() as u64 {
        return true;
    }
    let count: u64 = head.count;
    let mut k: u64 = 0;
    while k < count
        invariant
            t@.len() <= REACH,
            p <= u32::MAX,
            count == index_count(t@, p as int, 4),
            k <= count,
            forall|i: int| 0 <= i < k ==> #[trigger] font_fits(t@, p as int, i),
        decreases count - k,
    {
        if !check_font(t, p, k) {
            return false;
        }
        k = k + 1;
    }
    true
}

/// An operator of the top dictionary of a `CFF2` table. 17 leads to the glyphs,
/// 24 to the variation store and 1236 to the dictionaries of the fonts.
pub open spec fn variable_top_fits(t: Seq<u8>, entry: DictEntry) -> bool {
    &&& entry.operator == 17 || entry.operator == 1236 ==> offset_fits(t, entry.last, 4)
    &&& entry.operator == 1236 ==> match entry.last {
        Operand::Whole(p) => fonts_fit(t, p as int),
        _ => true,
    }
    &&& entry.operator == 24 ==> match entry.last {
        Operand::Absent => true,
        Operand::Fraction => false,
        Operand::Whole(p) => store_fits(t, p + 2),
    }
}

fn check_variable_top(t: &[u8], found: &Vec<DictEntry>) -> (res: bool)
    requires
        t@.len() <= REACH,
    ensures
        res == forall|j: int| 0 <= j < found@.len() ==> variable_top_fits(t@, #[trigger] found@[j]),
{
    let mut j: usize = 0;
    while j < found.len()
        invariant
            t@.len() <= REACH,
            j <= found@.len(),
            forall|i: int| 0 <= i < j ==> variable_top_fits(t@, #[trigger] found@[i]),
        decreases found@.len() - j,
    {
        let entry = found[j];
        let fits = match (entry.operator, entry.last) {
            (17, _) => check_offset(t, entry.last, 4),
            (1236, Operand::Whole(p)) => check_index(t, p as u64, 4) && check_fonts(t, p as u64),
            (1236, _) => check_offset(t, entry.last, 4),
            (24, Operand::Whole(p)) => check_store(t, p as u64 + 2),
            (24, Operand::Fraction) => false,
            _ => true,
        };
        if !fits {
            assert(!variable_top_fits(t@, found@[j as int]));
            return false;
        }
        j = j + 1;
    }
    true
}

/// The outlines of variable fonts, `CFF2`: the top dictionary, the subroutines
/// behind it, and what the top dictionary leads to.
pub open spec fn cff2_fits(t: Seq<u8>) -> bool {
    t.len() >= 5 && t[0] == 2 && header_end(t, 5) + word(t, 3) <= t.len() ==> {
        let top = header_end(t, 5);
        let end = top + word(t, 3);
        let found = dict(t.subrange(top, end));
        &&& index_fits(t, end, 4)
        &&& forall|j: int| 0 <= j < found.len() ==> variable_top_fits(t, #[trigger] found[j])
    }
}

fn check_cff2(t: &[u8]) -> (res: bool)
    requires
        t@.len() <= REACH,
    ensures
        res == cff2_fits(t@),
{
    if t.len() < 5 || t[0] != 2 {
        return true;
    }
    let top: u64 = if t[2] > 5 {
        t[2] as u64
    } else {
        5
    };
    let end: u64 = top + (t[3] as u64 * 256 + t[4] as u64);
    if end > t.len() as u64 {
        return true;
    }
    let found = read_dict(slice_subrange(t, top as usize, end as usize));
    check_index(t, end, 4) && check_variable_top(t, &found)
}

/// A table, of which its tag is given as a number. The tables that are not named
/// here hold no count or offset that could reach too far.
pub open spec fn table_fits(tag: int, t: Seq<u8>) -> bool {
    if tag == 0x636D_6170 {
        cmap_fits(t)
    } else if tag == 0x6B65_726E {
        kern_fits(t)
    } else if tag == 0x7362_6978 {
        sbix_fits(t)
    } else if tag == 0x434F_4C52 {
        colr_fits(t)
    } else if tag == 0x4750_4F53 || tag == 0x4753_5542 {
        layout_fits(t)
    } else if tag == 0x4744_4546 {
        gdef_fits(t)
    } else if tag == 0x4856_4152 || tag == 0x5656_4152 {
        metrics_fit(t)
    } else if tag == 0x4D56_4152 {
        mvar_fits(t)
    } else if tag == 0x4346_4620 {
        cff_fits(t)
    } else if tag == 0x4346_4632 {
        cff2_fits(t)
    } else {
        true
    }
}

fn check_table(tag: u64, t: &[u8]) -> (res: bool)
    requires
        t@.len() <= REACH,
    ensures
        res == table_fits(tag as int, t@),
{
    if tag == 0x636D_6170 {
        check_cmap(t)
    } else if tag == 0x6B65_726E {
        check_kern(t)
    } else if tag == 0x7362_6978 {
        check_sbix(t)
    } else if tag == 0x434F_4C52 {
        check_colr(t)
    } else if tag == 0x4750_4F53 || tag == 0x4753_5542 {
        check_layout(t)
    } else if tag == 0x4744_4546 {
        check_gdef(t)
    } else if tag == 0x4856_4152 || tag == 0x5656_4152 {
        check_metrics(t)
    } else if tag == 0x4D56_4152 {
        check_mvar(t)
    } else if tag == 0x4346_4620 {
        check_cff(t)
    } else if tag == 0x4346_4632 {
        check_cff2(t)
    } else {
        true
    }
}

/// The table that a record of the table directory at a place refers to.
pub open spec fn record_fits(data: Seq<u8>, at: int, k: int) -> bool {
    let r = at + 12 + 16 * k;
    let from = long(data, r + 8);
    let to = from + long(data, r + 12);
    holds(data, r, 16) && to <= data.len() ==> table_fits(long(data, r), data.subrange(from, to))
}

/// The table directory at a place. It has fewer tables than 16 bits can count.
pub open spec fn directory_fits(data: Seq<u8>, at: int) -> bool {
    holds(data, at + 4, 2) ==> {
        &&& word(data, at + 4) < 0xFFFF
        &&& forall|k: int| 0 <= k < word(data, at + 4) ==> #[trigger] record_fits(data, at, k)
    }
}

fn check_directory(data: &[u8], at: u64) -> (res: bool)
    requires
        data@.len() <= REACH,
        at <= u32::MAX,
    ensures
        res == directory_fits(data@, at as int),
{
    let count: u64 = match word_at(data, at + 4) {
        Some(count) => count,
        None => return true,
    };
    if count == 0xFFFF {
        return false;
    }
    let mut k: u64 = 0;
    while k < count
        invariant
            data@.len() <= REACH,
            at <= u32::MAX,
            holds(data@, at + 4, 2),
            count == word(data@, at + 4),
            k <= count,
            forall|i: int| 0 <= i < k ==> #[trigger] record_fits(data@, at as int, i),
        decreases count - k,
    {
        let r: u64 = at + 12 + 16 * k;
        if let (Some(tag), Some(from), Some(length)) = (
            long_at(data, r),
            long_at(data, r + 8),
            long_at(data, r + 12),
        ) {
            if from + length <= data.len() as u64 {
                let t = slice_subrange(data, from as usize, (from + length) as usize);
                if !check_table(tag, t) {
                    assert(!record_fits(data@, at as int, k as int));
                    return false;
                }
            }
        }
        assert(record_fits(data@, at as int, k as int));
        k = k + 1;
    }
    true
}

/// Whether data is a collection of fonts.
pub open spec fn is_collection(data: Seq<u8>) -> bool {
    holds(data, 0, 4) && long(data, 0) == 0x7474_6366
}

/// The counts, lengths and offsets in a font file stay within reach, in a
/// collection those of its first font.
pub open spec fn counts_fit(data: Seq<u8>) -> bool {
    &&& data.len() <= REACH
    &&& if is_collection(data) {
        &&& list_fits(data, 8, 4)
        &&& holds(data, 12, 4) ==> directory_fits(data, long(data, 12))
    } else {
        directory_fits(data, 0)
    }
}

/// Whether the counts, lengths and offsets in a font file stay within reach.
pub fn check_counts(data: &[u8]) -> (res: bool)
    ensures
        res == counts_fit(data@),
{
    if data.len() as u64 > REACH {
        return false;
    }
    match long_at(data, 0) {
        Some(0x7474_6366) => check_list(data, 8, 4) && match long_at(data, 12) {
            Some(at) => check_directory(data, at),
            None => true,
        },
        _ => check_directory(data, 0),
    }
}

} // verus!

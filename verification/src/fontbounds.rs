//! What in a font file leads too far, and that nothing else is held against it.
//!
//! The numbers of a font file lead to lists, stores and indexes. Here it is said
//! of each where it ends, so that it can be told which of them overrun a limit.

use vstd::prelude::*;

use crate::fontfile::DictEntry;
use crate::fontfile::Operand;
use crate::fontfile::REACH;
use crate::fontfile::cff2_fits;
use crate::fontfile::cff_fits;
use crate::fontfile::chain_fits;
use crate::fontfile::check_counts;
use crate::fontfile::cmap_fits;
use crate::fontfile::colr_fits;
use crate::fontfile::dict;
use crate::fontfile::directory_fits;
use crate::fontfile::encoding_fits;
use crate::fontfile::entries;
use crate::fontfile::font_entry_fits;
use crate::fontfile::font_fits;
use crate::fontfile::fonts_fit;
use crate::fontfile::fraction_end;
use crate::fontfile::gdef_fits;
use crate::fontfile::has_item;
use crate::fontfile::header_end;
use crate::fontfile::holds;
use crate::fontfile::index_count;
use crate::fontfile::index_end;
use crate::fontfile::index_fits;
use crate::fontfile::is_collection;
use crate::fontfile::is_index;
use crate::fontfile::is_operator;
use crate::fontfile::item;
use crate::fontfile::item_offset;
use crate::fontfile::items_at;
use crate::fontfile::kern_fits;
use crate::fontfile::layout_fits;
use crate::fontfile::leads;
use crate::fontfile::lemma_fraction_end;
use crate::fontfile::long;
use crate::fontfile::metrics_fit;
use crate::fontfile::mvar_fits;
use crate::fontfile::number;
use crate::fontfile::number_end;
use crate::fontfile::private_fits;
use crate::fontfile::record_fits;
use crate::fontfile::sbix_fits;
use crate::fontfile::sized;
use crate::fontfile::subroutines_fit;
use crate::fontfile::table_fits;
use crate::fontfile::top_entry_fits;
use crate::fontfile::variable_top_fits;
use crate::fontfile::word;

verus! {

/// Numbers stand with their highest byte first, and a place holds a number if
/// and only if all its bytes are there.
pub proof fn law_numbers_have_the_highest_byte_first(t: Seq<u8>, i: int)
    ensures
        word(t, i) == 0x100 * t[i] + t[i + 1],
        long(t, i) == 0x100_0000 * t[i] + 0x1_0000 * t[i + 1] + 0x100 * t[i + 2] + t[i + 3],
        forall|n: int| #[trigger] holds(t, i, n) <==> 0 <= i && i + n <= t.len(),
        REACH == 0xFFE0_0000,
{
}

/// A list ends beyond a limit: the list has its count of 32 bits at a place, and
/// behind it as many entries of a given size.
pub open spec fn list_overruns(t: Seq<u8>, i: int, size: int, limit: int) -> bool {
    holds(t, i, 4) && i + 4 + size * long(t, i) > limit
}

/// The regions of a variation store start beyond a limit.
pub open spec fn store_overruns(t: Seq<u8>, i: int, limit: int) -> bool {
    holds(t, i, 6) && word(t, i) == 1 && i + long(t, i + 2) > limit
}

/// The subtable of a record of the character map has a list that ends beyond a
/// limit. Only four formats have a list with a count of 32 bits.
pub open spec fn encoding_overruns(t: Seq<u8>, k: int, limit: int) -> bool {
    &&& holds(t, 4 + 8 * k, 8)
    &&& long(t, 8 + 8 * k) + 2 <= t.len()
    &&& {
        let format = word(t, long(t, 8 + 8 * k));
        let s = t.skip(long(t, 8 + 8 * k));
        ||| format == 10 && list_overruns(s, 16, 2, limit)
        ||| format == 12 && list_overruns(s, 12, 12, limit)
        ||| format == 13 && list_overruns(s, 12, 12, limit)
        ||| format == 14 && list_overruns(s, 6, 11, limit)
    }
}

/// The character map has a subtable that overruns a limit.
pub open spec fn cmap_overruns(t: Seq<u8>, limit: int) -> bool {
    holds(t, 2, 2) && exists|k: int| 0 <= k < word(t, 2) && #[trigger] encoding_overruns(t, k, limit)
}

/// A character map fits if and only if none of its subtables overruns the reach.
proof fn lemma_cmap(t: Seq<u8>)
    ensures
        cmap_fits(t) == !cmap_overruns(t, REACH as int),
{
    assert forall|k: int| #[trigger] encoding_fits(t, k) == !encoding_overruns(t, k, REACH as int) by {
        if holds(t, 4 + 8 * k, 8) {
            let o = long(t, 8 + 8 * k);
            if o + 2 <= t.len() {
                assert(word(t.skip(o), 0) == word(t, o));
            }
        }
    }
    if cmap_overruns(t, REACH as int) {
        let k = choose|k: int|
            0 <= k < word(t, 2) && #[trigger] encoding_overruns(t, k, REACH as int);
        assert(!encoding_fits(t, k));
    }
    if !cmap_fits(t) {
        let k = choose|k: int| 0 <= k < word(t, 2) && !#[trigger] encoding_fits(t, k);
        assert(encoding_overruns(t, k, REACH as int));
    }
}

/// The places of subtables of Apple's kerning table that follow one another:
/// each starts where the length of the one before it ends.
pub open spec fn chained(s: Seq<u8>, places: Seq<int>) -> bool {
    &&& places.len() > 0
    &&& places[0] == 0
    &&& forall|j: int|
        0 <= j < places.len() ==> {
            &&& holds(s, #[trigger] places[j], 6)
            &&& s[places[j] + 5] <= 3
            &&& long(s, places[j]) >= 8
        }
    &&& forall|j: int|
        0 <= j < places.len() - 1 ==> places[j + 1] == #[trigger] places[j] + long(s, places[j])
}

/// A subtable of Apple's kerning table ends beyond a limit.
pub open spec fn kern_overruns(t: Seq<u8>, limit: int) -> bool {
    &&& holds(t, 0, 8)
    &&& word(t, 0) != 0
    &&& long(t, 4) != 0
    &&& exists|places: Seq<int>| #[trigger]
        chained(t.skip(8), places) && places.last() + long(t.skip(8), places.last()) > limit
}

/// From any place in the chain on, what does not fit is a later one of it.
proof fn lemma_chain_on(s: Seq<u8>, places: Seq<int>) -> (end: Seq<int>)
    requires
        s.len() <= REACH,
        chained(s, places),
        !chain_fits(s, places.last()),
    ensures
        chained(s, end),
        end.last() + long(s, end.last()) > REACH,
    decreases s.len() - places.last(),
{
    let i = places.last();
    if i + long(s, i) > REACH {
        places
    } else {
        let next = i + long(s, i);
        let more = places.push(next);
        assert(!chain_fits(s, next));
        assert(holds(s, next, 6) && s[next + 5] <= 3 && long(s, next) >= 8);
        assert forall|j: int| 0 <= j < more.len() implies {
            &&& holds(s, #[trigger] more[j], 6)
            &&& s[more[j] + 5] <= 3
            &&& long(s, more[j]) >= 8
        } by {
            if j < places.len() {
                assert(more[j] == places[j]);
            }
        }
        assert forall|j: int| 0 <= j < more.len() - 1 implies more[j + 1] == #[trigger] more[j]
            + long(s, more[j]) by {
            assert(more[j] == places[j]);
            if j < places.len() - 1 {
                assert(more[j + 1] == places[j + 1]);
            }
        }
        lemma_chain_on(s, more)
    }
}

/// A chain that overruns at some place does not fit from an earlier one on.
proof fn lemma_chain_back(s: Seq<u8>, places: Seq<int>, j: int)
    requires
        s.len() <= REACH,
        chained(s, places),
        places.last() + long(s, places.last()) > REACH,
        0 <= j < places.len(),
    ensures
        !chain_fits(s, places[j]),
    decreases places.len() - j,
{
    assert(holds(s, places[j], 6));
    if j < places.len() - 1 {
        lemma_chain_back(s, places, j + 1);
        assert(places[j + 1] == places[j] + long(s, places[j]));
        assert(holds(s, places[j + 1], 6));
    }
}

/// A kerning table fits if and only if none of its subtables overruns the reach.
proof fn lemma_kern(t: Seq<u8>)
    requires
        t.len() <= REACH,
    ensures
        kern_fits(t) == !kern_overruns(t, REACH as int),
{
    let s = t.skip(8);
    if !kern_fits(t) {
        let start = seq![0int];
        assert(chained(s, start));
        let end = lemma_chain_on(s, start);
        assert(chained(s, end));
    }
    if kern_overruns(t, REACH as int) {
        let places = choose|places: Seq<int>| #[trigger]
            chained(s, places) && places.last() + long(s, places.last()) > REACH;
        lemma_chain_back(s, places, 0);
    }
}

/// The list of the bitmap table ends beyond a limit.
pub open spec fn sbix_overruns(t: Seq<u8>, limit: int) -> bool {
    holds(t, 0, 2) && word(t, 0) == 1 && list_overruns(t, 4, 4, limit)
}

/// A list of the color table ends beyond a limit, or its variation store does.
pub open spec fn colr_overruns(t: Seq<u8>, limit: int) -> bool {
    &&& holds(t, 0, 2) && word(t, 0) == 1
    &&& {
        ||| holds(t, 14, 4) && list_overruns(t, long(t, 14), 6, limit)
        ||| holds(t, 18, 4) && list_overruns(t, long(t, 18), 4, limit)
        ||| holds(t, 22, 4) && 0 < long(t, 22) <= t.len() && list_overruns(
            t.skip(long(t, 22)),
            1,
            7,
            limit,
        )
        ||| holds(t, 30, 4) && 0 < long(t, 30) <= t.len() && store_overruns(
            t.skip(long(t, 30)),
            0,
            limit,
        )
    }
}

/// The list of the feature variations of a layout table ends beyond a limit.
pub open spec fn layout_overruns(t: Seq<u8>, limit: int) -> bool {
    &&& holds(t, 10, 4) && word(t, 0) == 1 && word(t, 2) != 0
    &&& 0 < long(t, 10) <= t.len()
    &&& holds(t, long(t, 10), 2) && word(t, long(t, 10)) == 1
    &&& list_overruns(t.skip(long(t, 10)), 4, 8, limit)
}

/// The variation store of the glyph definitions ends beyond a limit.
pub open spec fn gdef_overruns(t: Seq<u8>, limit: int) -> bool {
    &&& holds(t, 14, 4) && word(t, 0) == 1 && word(t, 2) == 3
    &&& 0 < long(t, 14) <= t.len()
    &&& store_overruns(t.skip(long(t, 14)), 0, limit)
}

/// The variation store of variable metrics ends beyond a limit.
pub open spec fn metrics_overrun(t: Seq<u8>, limit: int) -> bool {
    holds(t, 4, 4) && word(t, 0) == 1 && word(t, 2) == 0 && store_overruns(t, long(t, 4), limit)
}

/// The variation store of the other variable metrics ends beyond a limit.
pub open spec fn mvar_overruns(t: Seq<u8>, limit: int) -> bool {
    holds(t, 10, 2) && word(t, 0) == 1 && word(t, 2) == 0 && store_overruns(t, word(t, 10), limit)
}

/// The tables of bitmaps and colors, those of the layout and those of variable
/// fonts fit if and only if no list or store in them overruns the reach.
proof fn lemma_lists_and_stores(t: Seq<u8>)
    ensures
        sbix_fits(t) == !sbix_overruns(t, REACH as int),
        colr_fits(t) == !colr_overruns(t, REACH as int),
        layout_fits(t) == !layout_overruns(t, REACH as int),
        gdef_fits(t) == !gdef_overruns(t, REACH as int),
        metrics_fit(t) == !metrics_overrun(t, REACH as int),
        mvar_fits(t) == !mvar_overruns(t, REACH as int),
{
    if holds(t, 10, 4) && long(t, 10) <= t.len() {
        let o = long(t, 10);
        if holds(t, o, 2) {
            assert(word(t.skip(o), 0) == word(t, o));
        }
        assert(holds(t.skip(o), 0, 2) <==> holds(t, o, 2));
    }
}

/// A number of some bytes is the number of all but the last, times 256, and the
/// last byte.
pub proof fn law_sized_numbers_have_the_highest_byte_first(t: Seq<u8>, i: int, size: int)
    requires
        1 <= size <= 3,
    ensures
        sized(t, i, 1) == t[i],
        sized(t, i, size + 1) == 256 * sized(t, i, size) + t[i + size],
{
}

/// An index starts with its count, of 2 or 4 bytes, and the size of its offsets,
/// of which there is one more than items. Its items stand behind these, end to
/// end: each starts as far behind them as its offset says, and ends where the
/// next one starts. What follows the index stands where its last item ends.
pub proof fn law_items_of_an_index_stand_end_to_end(t: Seq<u8>, p: int, width: int, k: int)
    requires
        width == 2 || width == 4,
        is_index(t, p, width),
        items_at(t, p, width) <= t.len(),
        has_item(t, p, width, k),
    ensures
        0 <= p && 0 <= k < sized(t, p, width) < 0xFFFF_FFFF,
        1 <= t[p + width] <= 4,
        ({
            let size = t[p + width] as int;
            let offsets = p + width + 1;
            let items = offsets + (sized(t, p, width) + 1) * size;
            let from = sized(t, offsets + k * size, size);
            let to = sized(t, offsets + (k + 1) * size, size);
            &&& items_at(t, p, width) == items
            &&& 1 <= from <= to && items + to - 1 <= t.len()
            &&& item(t, p, width, k).len() == to - from
            &&& forall|j: int|
                0 <= j < to - from ==> #[trigger] item(t, p, width, k)[j] == t[items + from - 1 + j]
            &&& k + 1 == sized(t, p, width) ==> index_end(t, p, width) == items + to - 1
        }),
{
}

/// There is an item of an index if and only if the bytes of the index are there
/// and the offsets of the item are in their order and lead into the table. What
/// has no count or no size of an offset is no index, and what follows stands
/// behind its count.
pub proof fn law_items_of_an_index_are_told_by_offsets(t: Seq<u8>, p: int, width: int, k: int)
    requires
        width == 2 || width == 4,
    ensures
        is_index(t, p, width) <==> 0 <= p && p + width < t.len() && 0 < sized(t, p, width)
            < 0xFFFF_FFFF && 1 <= t[p + width] <= 4,
        !is_index(t, p, width) ==> index_end(t, p, width) == p + width,
        is_index(t, p, width) && items_at(t, p, width) > t.len() ==> index_end(t, p, width)
            == t.len(),
        is_index(t, p, width) ==> {
            let size = t[p + width] as int;
            let offsets = p + width + 1;
            let items = offsets + (sized(t, p, width) + 1) * size;
            let from = sized(t, offsets + k * size, size);
            let to = sized(t, offsets + (k + 1) * size, size);
            has_item(t, p, width, k) <==> 0 <= k < sized(t, p, width) && 1 <= from <= to && items
                + to - 1 <= t.len() && items <= t.len()
        },
{
}

/// A whole number that is not below zero is read as it is written, in each of
/// the four ways of writing it.
pub proof fn law_numbers_are_read_as_written(d: Seq<u8>, i: int, v: u32)
    requires
        0 <= i < d.len(),
    ensures
        v <= 107 && d[i] == v + 139 ==> number(d, i) == Operand::Whole(v) && number_end(d, i) == i
            + 1,
        108 <= v <= 1131 && d[i] == 247 + (v - 108) / 256 && i + 1 < d.len() && d[i + 1] == (v
            - 108) % 256 ==> number(d, i) == Operand::Whole(v) && number_end(d, i) == i + 2,
        v <= 0x7FFF && d[i] == 28 && i + 2 < d.len() && word(d, i + 1) == v ==> number(d, i)
            == Operand::Whole(v) && number_end(d, i) == i + 3,
        v <= 0x7FFF_FFFF && d[i] == 29 && i + 4 < d.len() && long(d, i + 1) == v ==> number(d, i)
            == Operand::Whole(v) && number_end(d, i) == i + 5,
{
}

/// What is not a whole number from zero on is no place: a number below zero, one
/// that is cut off, and one that is written as a decimal fraction, which ends with
/// the first half byte that is a mark of its end.
pub proof fn law_other_numbers_are_no_places(d: Seq<u8>, i: int)
    requires
        0 <= i < d.len(),
    ensures
        is_operator(d[i]) <==> d[i] <= 27 || d[i] == 31 || d[i] == 255,
        32 <= d[i] <= 138 ==> number(d, i) == Operand::Absent && number_end(d, i) == i + 1,
        251 <= d[i] <= 254 ==> number(d, i) == Operand::Absent && number_end(d, i) == i + 2,
        d[i] == 28 && (i + 2 >= d.len() || d[i + 1] >= 128) ==> number(d, i) == Operand::Absent
            && number_end(d, i) == i + 3,
        d[i] == 29 && (i + 4 >= d.len() || d[i + 1] >= 128) ==> number(d, i) == Operand::Absent
            && number_end(d, i) == i + 5,
        number(d, i) == Operand::Fraction <==> d[i] == 30,
        d[i] == 30 ==> {
            let end = number_end(d, i);
            &&& i + 1 <= end <= d.len()
            &&& forall|j: int|
                i + 1 <= j < end - 1 ==> (#[trigger] d[j]) / 16 != 15 && d[j] % 16 != 15
            &&& end < d.len() ==> end > i + 1 && (d[end - 1] / 16 == 15 || d[end - 1] % 16 == 15)
        },
{
    if d[i] == 30 {
        lemma_fraction(d, i + 1);
    }
}

/// Where a decimal fraction ends.
proof fn lemma_fraction(d: Seq<u8>, i: int)
    requires
        0 <= i <= d.len(),
    ensures
        i <= fraction_end(d, i) <= d.len(),
        forall|j: int|
            i <= j < fraction_end(d, i) - 1 ==> (#[trigger] d[j]) / 16 != 15 && d[j] % 16 != 15,
        fraction_end(d, i) < d.len() ==> fraction_end(d, i) > i && (d[fraction_end(d, i) - 1] / 16
            == 15 || d[fraction_end(d, i) - 1] % 16 == 15),
    decreases d.len() - i,
{
    if i < d.len() && d[i] / 16 != 15 && d[i] % 16 != 15 {
        lemma_fraction(d, i + 1);
    }
}

/// Reading on from a place is reading what is behind it.
proof fn lemma_entries_behind(d: Seq<u8>, i: int, j: int, before: Operand, last: Operand)
    requires
        0 <= i <= j,
        i <= d.len(),
    ensures
        entries(d, j, before, last) == entries(d.skip(i), j - i, before, last),
    decreases d.len() + 5 - j,
{
    let s = d.skip(i);
    let k = j - i;
    if j < d.len() {
        assert(s[k] == d[j]);
        if !is_operator(d[j]) {
            lemma_fraction_end(d, j + 1);
            lemma_fraction_behind(d, i, j + 1);
            assert(number_end(s, k) == number_end(d, j) - i);
            assert(number(s, k) == number(d, j));
            lemma_entries_behind(d, i, number_end(d, j), last, number(d, j));
        } else if d[j] != 12 {
            lemma_entries_behind(d, i, j + 1, Operand::Absent, Operand::Absent);
        } else if j + 1 < d.len() {
            lemma_entries_behind(d, i, j + 2, Operand::Absent, Operand::Absent);
        }
    }
}

/// A decimal fraction ends at the same byte wherever the dictionary starts.
proof fn lemma_fraction_behind(d: Seq<u8>, i: int, j: int)
    requires
        0 <= i <= j,
        i <= d.len(),
    ensures
        fraction_end(d.skip(i), j - i) == fraction_end(d, j) - i,
    decreases d.len() - j,
{
    if j < d.len() {
        assert(d.skip(i)[j - i] == d[j]);
        lemma_fraction_behind(d, i, j + 1);
    }
}

/// The places of numbers that follow one another from a place on, with the place
/// behind them at the end.
pub open spec fn numbers_from(d: Seq<u8>, places: Seq<int>) -> bool {
    &&& places.len() > 0
    &&& places[0] >= 0
    &&& forall|j: int| 0 <= j < places.len() - 1 ==> 0 <= #[trigger] places[j] < d.len()
    &&& forall|j: int|
        0 <= j < places.len() - 1 ==> !is_operator(d[#[trigger] places[j]]) && places[j + 1]
            == number_end(d, places[j])
}

/// Numbers that stand before an operator are read past, and the last two of them
/// are kept.
proof fn lemma_numbers(d: Seq<u8>, places: Seq<int>, before: Operand, last: Operand)
    requires
        numbers_from(d, places),
    ensures
        places.len() == 1 ==> entries(d, places[0], before, last) == entries(
            d,
            places.last(),
            before,
            last,
        ),
        places.len() == 2 ==> entries(d, places[0], before, last) == entries(
            d,
            places.last(),
            last,
            number(d, places[0]),
        ),
        places.len() >= 3 ==> entries(d, places[0], before, last) == entries(
            d,
            places.last(),
            number(d, places[places.len() - 3]),
            number(d, places[places.len() - 2]),
        ),
    decreases places.len(),
{
    if places.len() > 1 {
        let rest = places.skip(1);
        assert(places[1] == number_end(d, places[0]));
        lemma_fraction_end(d, places[0] + 1);
        assert forall|j: int| 0 <= j < rest.len() - 1 implies 0 <= #[trigger] rest[j] < d.len()
            && !is_operator(d[rest[j]]) && rest[j + 1] == number_end(d, rest[j]) by {
            assert(rest[j] == places[j + 1]);
            assert(rest[j + 1] == places[j + 1 + 1]);
        }
        lemma_numbers(d, rest, last, number(d, places[0]));
        assert(rest.last() == places.last());
    }
}

/// A dictionary starts with some numbers and an operator. Its first entry is
/// that operator, with the last two of the numbers, and the entries of what
/// stands behind it follow. An operator after the byte 12 has two bytes.
pub proof fn law_operator_takes_the_numbers_before_it(d: Seq<u8>, places: Seq<int>)
    requires
        numbers_from(d, places),
        places[0] == 0,
        places.last() < d.len(),
        is_operator(d[places.last()]),
    ensures
        ({
            let m = places.len() as int;
            let at = places.last();
            let wide = d[at] == 12;
            let rest = d.skip(if wide {
                at + 2
            } else {
                at + 1
            });
            let entry = dict(d)[0];
            &&& wide && at + 1 >= d.len() ==> dict(d).len() == 0
            &&& !wide || at + 1 < d.len() ==> {
                &&& dict(d).len() == dict(rest).len() + 1
                &&& dict(d).skip(1) == dict(rest)
                &&& entry.operator == if wide {
                    1200 + d[at + 1]
                } else {
                    d[at] as int
                }
                &&& entry.last == if m >= 2 {
                    number(d, places[m - 2])
                } else {
                    Operand::Absent
                }
                &&& entry.before == if m >= 3 {
                    number(d, places[m - 3])
                } else {
                    Operand::Absent
                }
            }
        }),
{
    lemma_numbers(d, places, Operand::Absent, Operand::Absent);
    let at = places.last();
    lemma_numbers_stay(d, places);
    if d[at] != 12 {
        lemma_entries_behind(d, at + 1, at + 1, Operand::Absent, Operand::Absent);
        assert(dict(d).skip(1) =~= dict(d.skip(at + 1)));
    } else if at + 1 < d.len() {
        lemma_entries_behind(d, at + 2, at + 2, Operand::Absent, Operand::Absent);
        assert(dict(d).skip(1) =~= dict(d.skip(at + 2)));
    }
}

/// The places of numbers are not below zero.
proof fn lemma_numbers_stay(d: Seq<u8>, places: Seq<int>)
    requires
        numbers_from(d, places),
    ensures
        places.last() >= 0,
{
    if places.len() > 1 {
        let j = places.len() - 2;
        lemma_fraction_end(d, places[j] + 1);
        assert(places[j + 1] == number_end(d, places[j]));
    }
}

/// A dictionary in which nothing but numbers stands has no entries.
pub proof fn law_numbers_alone_are_no_entries(d: Seq<u8>, places: Seq<int>)
    requires
        numbers_from(d, places),
        places[0] == 0,
        places.last() >= d.len(),
    ensures
        dict(d).len() == 0,
{
    lemma_numbers(d, places, Operand::Absent, Operand::Absent);
}

/// An index ends beyond a limit, or its offsets do.
pub open spec fn index_overruns(t: Seq<u8>, p: int, width: int, limit: int) -> bool {
    &&& is_index(t, p, width)
    &&& {
        ||| items_at(t, p, width) > limit
        ||| items_at(t, p, width) <= t.len() && items_at(t, p, width) + item_offset(
            t,
            p,
            width,
            index_count(t, p, width),
        ) > limit
    }
}

/// The index that a number of a dictionary leads to ends beyond a limit, or the
/// number is none that leads anywhere, a decimal fraction.
pub open spec fn offset_overruns(t: Seq<u8>, offset: Operand, width: int, limit: int) -> bool {
    ||| offset == Operand::Fraction
    ||| offset is Whole && index_overruns(t, offset->Whole_0 as int, width, limit)
}

/// The subroutines of a private dictionary that starts at a place overrun a
/// limit.
pub open spec fn subroutines_overrun(
    t: Seq<u8>,
    start: int,
    entry: DictEntry,
    width: int,
    limit: int,
) -> bool {
    &&& entry.operator == 19
    &&& {
        ||| entry.last == Operand::Fraction
        ||| entry.last is Whole && start + entry.last->Whole_0 <= t.len() && index_overruns(
            t.skip(start + entry.last->Whole_0),
            0,
            width,
            limit,
        )
    }
}

/// The private dictionary that an entry leads to overruns a limit.
pub open spec fn private_overruns(t: Seq<u8>, entry: DictEntry, width: int, limit: int) -> bool {
    &&& entry.operator == 18
    &&& {
        ||| entry.before == Operand::Fraction
        ||| entry.last == Operand::Fraction
        ||| entry.before is Whole && entry.last is Whole && {
            let from = entry.last->Whole_0 as int;
            let to = from + entry.before->Whole_0;
            to <= t.len() && exists|j: int|
                0 <= j < dict(t.subrange(from, to)).len() && subroutines_overrun(
                    t,
                    from,
                    #[trigger] dict(t.subrange(from, to))[j],
                    width,
                    limit,
                )
        }
    }
}

/// What an entry of the top dictionary of a `CFF` table leads to overruns a
/// limit.
pub open spec fn top_overruns(t: Seq<u8>, entry: DictEntry, limit: int) -> bool {
    ||| entry.operator == 17 && offset_overruns(t, entry.last, 2, limit)
    ||| entry.operator == 1236 && offset_overruns(t, entry.last, 2, limit)
    ||| private_overruns(t, entry, 2, limit)
}

/// One of the four indexes of a `CFF` table, which stand one behind the other,
/// overruns a limit, or what an entry of the first dictionary in the second of
/// them leads to.
pub open spec fn cff_overruns(t: Seq<u8>, limit: int) -> bool {
    &&& t.len() >= 3 && t[0] == 1
    &&& exists|first: int, second: int, third: int, fourth: int|
        {
            &&& #[trigger] in_turn(t, first, second, third, fourth)
            &&& {
                ||| index_overruns(t, first, 2, limit)
                ||| index_overruns(t, second, 2, limit)
                ||| index_overruns(t, third, 2, limit)
                ||| index_overruns(t, fourth, 2, limit)
                ||| has_item(t, second, 2, 0) && exists|j: int|
                    0 <= j < dict(item(t, second, 2, 0)).len() && top_overruns(
                        t,
                        #[trigger] dict(item(t, second, 2, 0))[j],
                        limit,
                    )
            }
        }
}

/// Whether four indexes stand one behind the other, the first one behind the
/// header of a `CFF` table, which tells its length and has at least 4 bytes.
pub open spec fn in_turn(t: Seq<u8>, first: int, second: int, third: int, fourth: int) -> bool {
    &&& first >= 4 && first >= t[2]
    &&& first == 4 || first == t[2]
    &&& second == index_end(t, first, 2)
    &&& third == index_end(t, second, 2)
    &&& fourth == index_end(t, third, 2)
}

/// What an entry of the top dictionary of a `CFF2` table leads to overruns a
/// limit.
pub open spec fn variable_top_overruns(t: Seq<u8>, entry: DictEntry, limit: int) -> bool {
    ||| entry.operator == 17 && offset_overruns(t, entry.last, 4, limit)
    ||| entry.operator == 1236 && offset_overruns(t, entry.last, 4, limit)
    ||| entry.operator == 1236 && entry.last is Whole && exists|k: int| #[trigger]
        font_overruns(t, entry.last->Whole_0 as int, k, limit)
    ||| entry.operator == 24 && entry.last == Operand::Fraction
    ||| entry.operator == 24 && entry.last is Whole && store_overruns(
        t,
        entry.last->Whole_0 + 2,
        limit,
    )
}

/// A private dictionary that the dictionary of a font in a `CFF2` table leads to
/// overruns a limit.
pub open spec fn font_overruns(t: Seq<u8>, p: int, k: int, limit: int) -> bool {
    has_item(t, p, 4, k) && exists|j: int|
        0 <= j < dict(item(t, p, 4, k)).len() && private_overruns(
            t,
            #[trigger] dict(item(t, p, 4, k))[j],
            4,
            limit,
        )
}

/// The index behind the top dictionary of a `CFF2` table overruns a limit, or what
/// an entry of the dictionary leads to. The dictionary stands behind the header,
/// which tells its own length, of at least 5 bytes, and that of the dictionary.
pub open spec fn cff2_overruns(t: Seq<u8>, limit: int) -> bool {
    &&& t.len() >= 5 && t[0] == 2
    &&& exists|top: int, end: int|
        {
            &&& #[trigger] top_within(t, top, end)
            &&& {
                ||| index_overruns(t, end, 4, limit)
                ||| exists|j: int|
                    0 <= j < dict(t.subrange(top, end)).len() && variable_top_overruns(
                        t,
                        #[trigger] dict(t.subrange(top, end))[j],
                        limit,
                    )
            }
        }
}

/// Whether the top dictionary of a `CFF2` table stands between two places.
pub open spec fn top_within(t: Seq<u8>, top: int, end: int) -> bool {
    &&& top >= 5 && top >= t[2]
    &&& top == 5 || top == t[2]
    &&& end == top + word(t, 3)
    &&& end <= t.len()
}

/// A private dictionary fits if and only if it does not overrun the reach.
proof fn lemma_private(t: Seq<u8>, entry: DictEntry, width: int)
    ensures
        (entry.operator == 18 ==> private_fits(t, entry.before, entry.last, width))
            == !private_overruns(t, entry, width, REACH as int),
{
    if entry.operator == 18 && entry.before is Whole && entry.last is Whole {
        let from = entry.last->Whole_0 as int;
        let to = from + entry.before->Whole_0;
        let found = dict(t.subrange(from, to));
        assert forall|j: int| 0 <= j < found.len() implies subroutines_fit(
            t,
            from,
            #[trigger] found[j],
            width,
        ) == !subroutines_overrun(t, from, found[j], width, REACH as int) by {}
        if to <= t.len() {
            if private_overruns(t, entry, width, REACH as int) {
                let j = choose|j: int|
                    0 <= j < dict(t.subrange(from, to)).len() && subroutines_overrun(
                        t,
                        from,
                        #[trigger] dict(t.subrange(from, to))[j],
                        width,
                        REACH as int,
                    );
                assert(!subroutines_fit(t, from, found[j], width));
            }
        }
    }
}

/// A `CFF` table fits if and only if nothing in it overruns the reach.
proof fn lemma_cff(t: Seq<u8>)
    ensures
        cff_fits(t) == !cff_overruns(t, REACH as int),
{
    if t.len() >= 3 && t[0] == 1 {
        let first = header_end(t, 4);
        let second = index_end(t, first, 2);
        let third = index_end(t, second, 2);
        let fourth = index_end(t, third, 2);
        assert(in_turn(t, first, second, third, fourth));
        let found = dict(item(t, second, 2, 0));
        assert forall|j: int| 0 <= j < found.len() implies top_entry_fits(t, #[trigger] found[j])
            == !top_overruns(t, found[j], REACH as int) by {
            lemma_private(t, found[j], 2);
        }
        if cff_overruns(t, REACH as int) {
            let (a, b, c, d) = choose|a: int, b: int, c: int, d: int|
                {
                    &&& #[trigger] in_turn(t, a, b, c, d)
                    &&& {
                        ||| index_overruns(t, a, 2, REACH as int)
                        ||| index_overruns(t, b, 2, REACH as int)
                        ||| index_overruns(t, c, 2, REACH as int)
                        ||| index_overruns(t, d, 2, REACH as int)
                        ||| has_item(t, b, 2, 0) && exists|j: int|
                            0 <= j < dict(item(t, b, 2, 0)).len() && top_overruns(
                                t,
                                #[trigger] dict(item(t, b, 2, 0))[j],
                                REACH as int,
                            )
                    }
                };
            assert(a == first && b == second && c == third && d == fourth);
            if cff_fits(t) && has_item(t, second, 2, 0) {
                assert forall|j: int| 0 <= j < found.len() implies !top_overruns(
                    t,
                    #[trigger] found[j],
                    REACH as int,
                ) by {
                    assert(top_entry_fits(t, found[j]));
                }
            }
        }
        if !cff_fits(t) && has_item(t, second, 2, 0) {
            if exists|j: int| 0 <= j < found.len() && !top_entry_fits(t, #[trigger] found[j]) {
                let j = choose|j: int|
                    0 <= j < found.len() && !top_entry_fits(t, #[trigger] found[j]);
                assert(top_overruns(t, found[j], REACH as int));
            }
        }
    }
}

/// A `CFF2` table fits if and only if nothing in it overruns the reach.
proof fn lemma_cff2(t: Seq<u8>)
    ensures
        cff2_fits(t) == !cff2_overruns(t, REACH as int),
{
    let reach = REACH as int;
    if t.len() >= 5 && t[0] == 2 && header_end(t, 5) + word(t, 3) <= t.len() {
        let top = header_end(t, 5);
        let end = top + word(t, 3);
        let found = dict(t.subrange(top, end));
        assert(top_within(t, top, end));
        assert forall|j: int| 0 <= j < found.len() implies variable_top_fits(t, #[trigger] found[j])
            == !variable_top_overruns(t, found[j], reach) by {
            if found[j].last is Whole {
                lemma_fonts(t, found[j].last->Whole_0 as int);
            }
        }
        if cff2_overruns(t, reach) && cff2_fits(t) {
            let (a, b) = choose|a: int, b: int|
                {
                    &&& #[trigger] top_within(t, a, b)
                    &&& {
                        ||| index_overruns(t, b, 4, reach)
                        ||| exists|j: int|
                            0 <= j < dict(t.subrange(a, b)).len() && variable_top_overruns(
                                t,
                                #[trigger] dict(t.subrange(a, b))[j],
                                reach,
                            )
                    }
                };
            assert(a == top && b == end);
            assert forall|j: int| 0 <= j < found.len() implies !variable_top_overruns(
                t,
                #[trigger] found[j],
                reach,
            ) by {
                assert(variable_top_fits(t, found[j]));
            }
        }
        if !cff2_fits(t) && index_fits(t, end, 4) {
            let j = choose|j: int| 0 <= j < found.len() && !variable_top_fits(t, #[trigger] found[j]);
            assert(variable_top_overruns(t, found[j], reach));
        }
    }
}

/// The dictionaries of fonts fit if and only if none overruns the reach.
proof fn lemma_fonts(t: Seq<u8>, p: int)
    ensures
        fonts_fit(t, p) == !exists|k: int| #[trigger] font_overruns(t, p, k, REACH as int),
{
    let reach = REACH as int;
    assert forall|k: int| #[trigger] font_fits(t, p, k) == !font_overruns(t, p, k, reach) by {
        let found = dict(item(t, p, 4, k));
        assert forall|j: int| 0 <= j < found.len() implies font_entry_fits(t, #[trigger] found[j])
            == !private_overruns(t, found[j], 4, reach) by {
            lemma_private(t, found[j], 4);
        }
        if has_item(t, p, 4, k) {
            if font_overruns(t, p, k, reach) && font_fits(t, p, k) {
                assert forall|j: int| 0 <= j < found.len() implies !private_overruns(
                    t,
                    #[trigger] found[j],
                    4,
                    reach,
                ) by {
                    assert(font_entry_fits(t, found[j]));
                }
            }
            if !font_fits(t, p, k) {
                let j = choose|j: int|
                    0 <= j < found.len() && !font_entry_fits(t, #[trigger] found[j]);
                assert(private_overruns(t, found[j], 4, reach));
            }
        }
    }
    if !fonts_fit(t, p) {
        let k = choose|k: int| !#[trigger] font_fits(t, p, k);
        assert(font_overruns(t, p, k, reach));
    }
    if exists|k: int| #[trigger] font_overruns(t, p, k, reach) {
        let k = choose|k: int| #[trigger] font_overruns(t, p, k, reach);
        assert(!font_fits(t, p, k));
    }
}

/// Something that a number in a table leads to ends beyond a limit. The tag of the
/// table is given as a number; a table with another tag than these has nothing
/// that could.
pub open spec fn table_overruns(tag: int, t: Seq<u8>, limit: int) -> bool {
    ||| tag == 0x636D_6170 && cmap_overruns(t, limit)
    ||| tag == 0x6B65_726E && kern_overruns(t, limit)
    ||| tag == 0x7362_6978 && sbix_overruns(t, limit)
    ||| tag == 0x434F_4C52 && colr_overruns(t, limit)
    ||| tag == 0x4750_4F53 && layout_overruns(t, limit)
    ||| tag == 0x4753_5542 && layout_overruns(t, limit)
    ||| tag == 0x4744_4546 && gdef_overruns(t, limit)
    ||| tag == 0x4856_4152 && metrics_overrun(t, limit)
    ||| tag == 0x5656_4152 && metrics_overrun(t, limit)
    ||| tag == 0x4D56_4152 && mvar_overruns(t, limit)
    ||| tag == 0x4346_4620 && cff_overruns(t, limit)
    ||| tag == 0x4346_4632 && cff2_overruns(t, limit)
}

/// Whether a record of the table directory at a place has its table in the file.
pub open spec fn has_table(data: Seq<u8>, at: int, k: int) -> bool {
    &&& holds(data, at + 12 + 16 * k, 16)
    &&& long(data, at + 20 + 16 * k) + long(data, at + 24 + 16 * k) <= data.len()
}

/// The tag of a record of the table directory, and its table.
pub open spec fn tag_and_table(data: Seq<u8>, at: int, k: int) -> (int, Seq<u8>) {
    let from = long(data, at + 20 + 16 * k);
    (long(data, at + 12 + 16 * k), data.subrange(from, from + long(data, at + 24 + 16 * k)))
}

/// Whether the table directory of the first font of a file stands at a place: at
/// its start, but in a collection, which starts with the letters `ttcf`, where the
/// first offset leads.
pub open spec fn starts_at(data: Seq<u8>, at: int) -> bool {
    if data.len() >= 4 && data[0] == 0x74 && data[1] == 0x74 && data[2] == 0x63 && data[3] == 0x66 {
        data.len() >= 16 && at == long(data, 12)
    } else {
        at == 0
    }
}

/// A table fits if and only if nothing in it overruns the reach.
proof fn lemma_table(tag: int, t: Seq<u8>)
    requires
        t.len() <= REACH,
    ensures
        table_fits(tag, t) == !table_overruns(tag, t, REACH as int),
{
    lemma_cmap(t);
    lemma_kern(t);
    lemma_lists_and_stores(t);
    lemma_cff(t);
    lemma_cff2(t);
}

/// A file is refused if and only if it is longer than the reach, or has as many
/// tables as 16 bits can count, or is a collection with so many fonts that the
/// list of them ends beyond the reach, or if something that a number in one of its
/// tables leads to does.
pub proof fn law_file_is_refused_for_what_overruns(data: &[u8], res: bool)
    requires
        call_ensures(check_counts, (data,), res),
    ensures
        !res <==> {
            ||| data@.len() > 0xFFE0_0000
            ||| data@.len() >= 12 && data@.take(4) == seq![0x74u8, 0x74, 0x63, 0x66] && 12 + 4 * long(
                data@,
                8,
            ) > 0xFFE0_0000
            ||| exists|at: int| #[trigger]
                starts_at(data@, at) && holds(data@, at + 4, 2) && {
                    ||| word(data@, at + 4) == 0xFFFF
                    ||| exists|k: int|
                        0 <= k < word(data@, at + 4) && #[trigger] has_table(data@, at, k)
                            && table_overruns(
                            tag_and_table(data@, at, k).0,
                            tag_and_table(data@, at, k).1,
                            0xFFE0_0000,
                        )
                }
        },
{
    let d = data@;
    lemma_collection(d);
    if d.len() <= REACH {
        let at: int = if is_collection(d) {
            long(d, 12)
        } else {
            0
        };
        if !is_collection(d) || d.len() >= 16 {
            assert(starts_at(d, at));
            assert forall|k: int| #[trigger] record_fits(d, at, k) == !(has_table(d, at, k)
                && table_overruns(tag_and_table(d, at, k).0, tag_and_table(d, at, k).1, REACH as int))
                by {
                if has_table(d, at, k) {
                    lemma_table(tag_and_table(d, at, k).0, tag_and_table(d, at, k).1);
                }
            }
            if holds(d, at + 4, 2) && exists|k: int|
                0 <= k < word(d, at + 4) && !#[trigger] record_fits(d, at, k) {
                let k = choose|k: int|
                    0 <= k < word(d, at + 4) && !#[trigger] record_fits(d, at, k);
                assert(has_table(d, at, k));
            }
            if directory_fits(d, at) && holds(d, at + 4, 2) {
                assert forall|k: int|
                    0 <= k < word(d, at + 4) && #[trigger] has_table(d, at, k) implies !table_overruns(
                    tag_and_table(d, at, k).0,
                    tag_and_table(d, at, k).1,
                    REACH as int,
                ) by {
                    assert(record_fits(d, at, k));
                }
            }
        }
        assert forall|other: int| #[trigger] starts_at(d, other) implies other == at by {}
    }
}

/// How a collection starts.
proof fn lemma_collection(d: Seq<u8>)
    ensures
        is_collection(d) <==> d.len() >= 4 && d[0] == 0x74 && d[1] == 0x74 && d[2] == 0x63 && d[3]
            == 0x66,
        d.len() >= 4 ==> (is_collection(d) <==> d.take(4) == seq![0x74u8, 0x74, 0x63, 0x66]),
{
    if d.len() >= 4 {
        let magic = seq![0x74u8, 0x74, 0x63, 0x66];
        if is_collection(d) {
            assert(d[0] == 0x74 && d[1] == 0x74 && d[2] == 0x63 && d[3] == 0x66);
            assert(d.take(4) =~= magic);
        }
        if d.take(4) == magic {
            assert(d.take(4)[0] == magic[0] && d.take(4)[1] == magic[1] && d.take(4)[2] == magic[2]
                && d.take(4)[3] == magic[3]);
        }
    }
}

/// What ends beyond a limit ends beyond a smaller one.
proof fn lemma_smaller_limit(tag: int, t: Seq<u8>, limit: int, less: int)
    requires
        table_overruns(tag, t, limit),
        less <= limit,
    ensures
        table_overruns(tag, t, less),
{
    if tag == 0x636D_6170 {
        let k = choose|k: int| 0 <= k < word(t, 2) && #[trigger] encoding_overruns(t, k, limit);
        assert(encoding_overruns(t, k, less));
    } else if tag == 0x6B65_726E {
        let places = choose|places: Seq<int>| #[trigger]
            chained(t.skip(8), places) && places.last() + long(t.skip(8), places.last()) > limit;
        assert(chained(t.skip(8), places));
    } else if tag == 0x4346_4620 {
        assert forall|entry: DictEntry| #[trigger]
            top_overruns(t, entry, limit) implies top_overruns(t, entry, less) by {
            lemma_private_smaller_limit(t, entry, 2, limit, less);
        }
        let (a, b, c, d) = choose|a: int, b: int, c: int, d: int|
            {
                &&& #[trigger] in_turn(t, a, b, c, d)
                &&& {
                    ||| index_overruns(t, a, 2, limit)
                    ||| index_overruns(t, b, 2, limit)
                    ||| index_overruns(t, c, 2, limit)
                    ||| index_overruns(t, d, 2, limit)
                    ||| has_item(t, b, 2, 0) && exists|j: int|
                        0 <= j < dict(item(t, b, 2, 0)).len() && top_overruns(
                            t,
                            #[trigger] dict(item(t, b, 2, 0))[j],
                            limit,
                        )
                }
            };
        assert(in_turn(t, a, b, c, d));
        if has_item(t, b, 2, 0) && exists|j: int|
            0 <= j < dict(item(t, b, 2, 0)).len() && top_overruns(
                t,
                #[trigger] dict(item(t, b, 2, 0))[j],
                limit,
            ) {
            let j = choose|j: int|
                0 <= j < dict(item(t, b, 2, 0)).len() && top_overruns(
                    t,
                    #[trigger] dict(item(t, b, 2, 0))[j],
                    limit,
                );
            assert(top_overruns(t, dict(item(t, b, 2, 0))[j], less));
        }
    } else if tag == 0x4346_4632 {
        assert forall|entry: DictEntry| #[trigger]
            variable_top_overruns(t, entry, limit) implies variable_top_overruns(
            t,
            entry,
            less,
        ) by {
            lemma_variable_smaller_limit(t, entry, limit, less);
        }
        let (a, b) = choose|a: int, b: int|
            {
                &&& #[trigger] top_within(t, a, b)
                &&& {
                    ||| index_overruns(t, b, 4, limit)
                    ||| exists|j: int|
                        0 <= j < dict(t.subrange(a, b)).len() && variable_top_overruns(
                            t,
                            #[trigger] dict(t.subrange(a, b))[j],
                            limit,
                        )
                }
            };
        assert(top_within(t, a, b));
        if exists|j: int|
            0 <= j < dict(t.subrange(a, b)).len() && variable_top_overruns(
                t,
                #[trigger] dict(t.subrange(a, b))[j],
                limit,
            ) {
            let j = choose|j: int|
                0 <= j < dict(t.subrange(a, b)).len() && variable_top_overruns(
                    t,
                    #[trigger] dict(t.subrange(a, b))[j],
                    limit,
                );
            assert(variable_top_overruns(t, dict(t.subrange(a, b))[j], less));
        }
    }
}

/// The same for a private dictionary.
proof fn lemma_private_smaller_limit(
    t: Seq<u8>,
    entry: DictEntry,
    width: int,
    limit: int,
    less: int,
)
    requires
        less <= limit,
    ensures
        private_overruns(t, entry, width, limit) ==> private_overruns(t, entry, width, less),
{
    if private_overruns(t, entry, width, limit) && entry.before is Whole && entry.last is Whole {
        let from = entry.last->Whole_0 as int;
        let to = from + entry.before->Whole_0;
        let j = choose|j: int|
            0 <= j < dict(t.subrange(from, to)).len() && subroutines_overrun(
                t,
                from,
                #[trigger] dict(t.subrange(from, to))[j],
                width,
                limit,
            );
        assert(subroutines_overrun(t, from, dict(t.subrange(from, to))[j], width, less));
    }
}

/// The same for what the top dictionary of a `CFF2` table leads to.
proof fn lemma_variable_smaller_limit(t: Seq<u8>, entry: DictEntry, limit: int, less: int)
    requires
        less <= limit,
        variable_top_overruns(t, entry, limit),
    ensures
        variable_top_overruns(t, entry, less),
{
    if entry.operator == 1236 && entry.last is Whole && exists|k: int| #[trigger]
        font_overruns(t, entry.last->Whole_0 as int, k, limit) {
        let p = entry.last->Whole_0 as int;
        let k = choose|k: int| #[trigger] font_overruns(t, p, k, limit);
        let j = choose|j: int|
            0 <= j < dict(item(t, p, 4, k)).len() && private_overruns(
                t,
                #[trigger] dict(item(t, p, 4, k))[j],
                4,
                limit,
            );
        lemma_private_smaller_limit(t, dict(item(t, p, 4, k))[j], 4, limit, less);
        assert(private_overruns(t, dict(item(t, p, 4, k))[j], 4, less));
        assert(font_overruns(t, p, k, less));
    }
}

/// A file is never refused if all that its numbers lead to ends within the table
/// that they stand in, give or take a byte.
pub proof fn law_file_within_its_bounds_is_not_refused(data: &[u8], at: int, res: bool)
    requires
        call_ensures(check_counts, (data,), res),
        data@.len() < 0xFFE0_0000,
        starts_at(data@, at),
        data@.take(4) == seq![0x74u8, 0x74, 0x63, 0x66] ==> 12 + 4 * long(data@, 8) <= data@.len(),
        holds(data@, at + 4, 2) ==> word(data@, at + 4) < 0xFFFF,
        forall|k: int|
            holds(data@, at + 4, 2) && 0 <= k < word(data@, at + 4) && #[trigger] has_table(
                data@,
                at,
                k,
            ) ==> !table_overruns(
                tag_and_table(data@, at, k).0,
                tag_and_table(data@, at, k).1,
                tag_and_table(data@, at, k).1.len() + 1int,
            ),
    ensures
        res,
{
    let d = data@;
    law_file_is_refused_for_what_overruns(data, res);
    if !res {
        assert(exists|at: int| #[trigger]
            starts_at(d, at) && holds(d, at + 4, 2) && {
                ||| word(d, at + 4) == 0xFFFF
                ||| exists|k: int|
                    0 <= k < word(d, at + 4) && #[trigger] has_table(d, at, k) && table_overruns(
                        tag_and_table(d, at, k).0,
                        tag_and_table(d, at, k).1,
                        0xFFE0_0000,
                    )
            });
        let k = choose|k: int|
            0 <= k < word(d, at + 4) && #[trigger] has_table(d, at, k) && table_overruns(
                tag_and_table(d, at, k).0,
                tag_and_table(d, at, k).1,
                0xFFE0_0000,
            );
        let (tag, t) = tag_and_table(d, at, k);
        lemma_smaller_limit(tag, t, 0xFFE0_0000, t.len() as int + 1);
    }
}

/// A file is never refused for a table with a tag that is not one of the twelve.
pub proof fn law_other_tables_are_never_refused(data: &[u8], at: int, res: bool)
    requires
        call_ensures(check_counts, (data,), res),
        data@.len() < 0xFFE0_0000,
        starts_at(data@, at),
        data@.take(4) == seq![0x74u8, 0x74, 0x63, 0x66] ==> 12 + 4 * long(data@, 8) <= data@.len(),
        holds(data@, at + 4, 2) ==> word(data@, at + 4) < 0xFFFF,
        forall|k: int|
            holds(data@, at + 4, 2) && 0 <= k < word(data@, at + 4) && #[trigger] has_table(
                data@,
                at,
                k,
            ) ==> !seq![
                0x636D_6170int,
                0x6B65_726E,
                0x7362_6978,
                0x434F_4C52,
                0x4750_4F53,
                0x4753_5542,
                0x4744_4546,
                0x4856_4152,
                0x5656_4152,
                0x4D56_4152,
                0x4346_4620,
                0x4346_4632,
            ].contains(tag_and_table(data@, at, k).0),
    ensures
        res,
{
    let named = seq![
        0x636D_6170int,
        0x6B65_726E,
        0x7362_6978,
        0x434F_4C52,
        0x4750_4F53,
        0x4753_5542,
        0x4744_4546,
        0x4856_4152,
        0x5656_4152,
        0x4D56_4152,
        0x4346_4620,
        0x4346_4632,
    ];
    assert forall|k: int|
        holds(data@, at + 4, 2) && 0 <= k < word(data@, at + 4) && #[trigger] has_table(
            data@,
            at,
            k,
        ) implies !table_overruns(
        tag_and_table(data@, at, k).0,
        tag_and_table(data@, at, k).1,
        tag_and_table(data@, at, k).1.len() + 1int,
    ) by {
        let tag = tag_and_table(data@, at, k).0;
        assert forall|i: int| 0 <= i < named.len() implies tag != #[trigger] named[i] by {
            if tag == named[i] {
                assert(named.contains(tag));
            }
        }
        assert(tag != named[0] && tag != named[1] && tag != named[2] && tag != named[3]);
        assert(tag != named[4] && tag != named[5] && tag != named[6] && tag != named[7]);
        assert(tag != named[8] && tag != named[9] && tag != named[10] && tag != named[11]);
    }
    law_file_within_its_bounds_is_not_refused(data, at, res);
}

/// Whether a number of 32 bits at a place is so large that, with a count like it,
/// a list with entries of twelve bytes at the end of the table ends beyond the
/// reach.
pub open spec fn is_large(t: Seq<u8>, q: int) -> bool {
    holds(t, q, 4) && t.len() + 16 + 12 * long(t, q) > 0xFFE0_0000
}

/// Whether there is a large number, or a byte that a decimal fraction starts with.
spec fn large_or_fraction(t: Seq<u8>) -> bool {
    ||| exists|q: int| #[trigger] is_large(t, q)
    ||| t.contains(30u8)
}

/// The numbers of a part of a table are numbers of the table.
proof fn lemma_part(t: Seq<u8>, from: int, to: int)
    requires
        0 <= from <= to <= t.len(),
        exists|q: int| #[trigger] is_large(t.subrange(from, to), q),
    ensures
        exists|q: int| #[trigger] is_large(t, q),
{
    let q = choose|q: int| #[trigger] is_large(t.subrange(from, to), q);
    assert(long(t.subrange(from, to), q) == long(t, from + q));
    assert(is_large(t, from + q));
}

/// A list or a store that overruns the reach has a large number.
proof fn lemma_large_list(t: Seq<u8>, o: int, i: int, size: int)
    requires
        0 <= o <= t.len(),
        0 <= size <= 12,
    ensures
        list_overruns(t.skip(o), i, size, 0xFFE0_0000) ==> exists|q: int| #[trigger] is_large(t, q),
        store_overruns(t.skip(o), i, 0xFFE0_0000) ==> exists|q: int| #[trigger] is_large(t, q),
{
    let s = t.skip(o);
    if list_overruns(s, i, size, 0xFFE0_0000) {
        assert(long(s, i) == long(t, o + i));
        assert(size * long(s, i) <= 12 * long(s, i)) by (nonlinear_arith)
            requires
                0 <= size <= 12,
                long(s, i) >= 0,
        ;
        assert(is_large(t, o + i));
    }
    if store_overruns(s, i, 0xFFE0_0000) {
        assert(long(s, i + 2) == long(t, o + i + 2));
        assert(is_large(t, o + i + 2));
    }
}

/// An index that overruns the reach has a large number.
proof fn lemma_large_index(t: Seq<u8>, p: int, width: int)
    requires
        width == 2 || width == 4,
        t.len() + 0x200_0000 <= 0xFFE0_0000,
        index_overruns(t, p, width, 0xFFE0_0000),
    ensures
        exists|q: int| #[trigger] is_large(t, q),
{
    let n = index_count(t, p, width);
    let size = t[p + width] as int;
    assert((n + 1) * size <= 4 * (n + 1)) by (nonlinear_arith)
        requires
            1 <= size <= 4,
            n >= 0,
    ;
    if items_at(t, p, width) > 0xFFE0_0000 {
        assert(width == 4);
        assert(is_large(t, p));
    } else {
        let q = p + width + 1 + n * size;
        assert((n + 1) * size == n * size + size && n * size >= 0) by (nonlinear_arith)
            requires
                n >= 0,
                size >= 1,
        ;
        assert(size == 4);
        assert(is_large(t, q));
    }
}

/// A number that is a decimal fraction stands among the bytes of its dictionary.
proof fn lemma_fraction_byte(d: Seq<u8>, i: int, before: Operand, last: Operand, j: int)
    requires
        0 <= i,
        before != Operand::Fraction || d.contains(30u8),
        last != Operand::Fraction || d.contains(30u8),
        0 <= j < entries(d, i, before, last).len(),
    ensures
        entries(d, i, before, last)[j].before == Operand::Fraction ==> d.contains(30u8),
        entries(d, i, before, last)[j].last == Operand::Fraction ==> d.contains(30u8),
    decreases d.len() + 5 - i,
{
    if i < d.len() {
        if !is_operator(d[i]) {
            lemma_fraction_end(d, i + 1);
            lemma_fraction_byte(d, number_end(d, i), last, number(d, i), j);
        } else if j > 0 {
            let next = if d[i] != 12 {
                i + 1
            } else {
                i + 2
            };
            lemma_fraction_byte(d, next, Operand::Absent, Operand::Absent, j - 1);
        }
    }
}

/// The same for the dictionary in a part of a table.
proof fn lemma_fraction_in_part(t: Seq<u8>, from: int, to: int, j: int)
    requires
        0 <= from <= to <= t.len(),
        0 <= j < dict(t.subrange(from, to)).len(),
    ensures
        dict(t.subrange(from, to))[j].before == Operand::Fraction ==> t.contains(30u8),
        dict(t.subrange(from, to))[j].last == Operand::Fraction ==> t.contains(30u8),
{
    let d = t.subrange(from, to);
    lemma_fraction_byte(d, 0, Operand::Absent, Operand::Absent, j);
    if d.contains(30u8) {
        let i = choose|i: int| 0 <= i < d.len() && d[i] == 30;
        assert(t[from + i] == 30);
    }
}

/// A private dictionary that overruns the reach has a large number or a fraction.
proof fn lemma_large_private(t: Seq<u8>, entry: DictEntry, width: int)
    requires
        width == 2 || width == 4,
        t.len() + 0x200_0000 <= 0xFFE0_0000,
        private_overruns(t, entry, width, 0xFFE0_0000),
        entry.before == Operand::Fraction ==> t.contains(30u8),
        entry.last == Operand::Fraction ==> t.contains(30u8),
    ensures
        large_or_fraction(t),
{
    if entry.before is Whole && entry.last is Whole {
        let from = entry.last->Whole_0 as int;
        let to = from + entry.before->Whole_0;
        let j = choose|j: int|
            0 <= j < dict(t.subrange(from, to)).len() && subroutines_overrun(
                t,
                from,
                #[trigger] dict(t.subrange(from, to))[j],
                width,
                0xFFE0_0000,
            );
        let last = dict(t.subrange(from, to))[j].last;
        lemma_fraction_in_part(t, from, to, j);
        if last is Whole {
            let o = from + last->Whole_0;
            lemma_large_index(t.skip(o), 0, width);
            assert(t.skip(o) =~= t.subrange(o, t.len() as int));
            lemma_part(t, o, t.len() as int);
        }
    }
}

/// A table that overruns the reach has a large number, or may have a fraction if
/// it holds outlines.
proof fn lemma_large_table(tag: int, t: Seq<u8>)
    requires
        t.len() + 0x200_0000 <= 0xFFE0_0000,
        table_overruns(tag, t, 0xFFE0_0000),
    ensures
        ({
            ||| exists|q: int| #[trigger] is_large(t, q)
            ||| (tag == 0x4346_4620 || tag == 0x4346_4632) && t.contains(30u8)
        }),
{
    assert(t.skip(0) =~= t);
    if tag == 0x636D_6170 {
        let k = choose|k: int|
            0 <= k < word(t, 2) && #[trigger] encoding_overruns(t, k, 0xFFE0_0000);
        let o = long(t, 8 + 8 * k);
        lemma_large_list(t, o, 16, 2);
        lemma_large_list(t, o, 12, 12);
        lemma_large_list(t, o, 6, 11);
    } else if tag == 0x6B65_726E {
        let s = t.skip(8);
        let places = choose|places: Seq<int>| #[trigger]
            chained(s, places) && places.last() + long(s, places.last()) > 0xFFE0_0000;
        let i = places[places.len() - 1];
        assert(holds(s, i, 6));
        assert(long(s, i) == long(t, 8 + i));
        assert(is_large(t, 8 + i));
    } else if tag == 0x7362_6978 {
        lemma_large_list(t, 0, 4, 4);
    } else if tag == 0x434F_4C52 {
        if holds(t, 14, 4) {
            lemma_large_list(t, 0, long(t, 14), 6);
        }
        if holds(t, 18, 4) {
            lemma_large_list(t, 0, long(t, 18), 4);
        }
        if holds(t, 22, 4) && long(t, 22) <= t.len() {
            lemma_large_list(t, long(t, 22), 1, 7);
        }
        if holds(t, 30, 4) && long(t, 30) <= t.len() {
            lemma_large_list(t, long(t, 30), 0, 0);
        }
    } else if tag == 0x4750_4F53 || tag == 0x4753_5542 {
        lemma_large_list(t, long(t, 10), 4, 8);
    } else if tag == 0x4744_4546 {
        lemma_large_list(t, long(t, 14), 0, 0);
    } else if tag == 0x4856_4152 || tag == 0x5656_4152 {
        lemma_large_list(t, 0, long(t, 4), 0);
    } else if tag == 0x4D56_4152 {
        lemma_large_list(t, 0, word(t, 10), 0);
    } else if tag == 0x4346_4620 {
        lemma_large_cff(t);
    } else {
        lemma_large_cff2(t);
    }
}

/// The same for a `CFF` table.
proof fn lemma_large_cff(t: Seq<u8>)
    requires
        t.len() + 0x200_0000 <= 0xFFE0_0000,
        cff_overruns(t, 0xFFE0_0000),
    ensures
        large_or_fraction(t),
{
    let reach: int = 0xFFE0_0000;
    assert forall|p: int| #[trigger] index_overruns(t, p, 2, reach) implies exists|q: int| #[trigger]
        is_large(t, q) by {
        lemma_large_index(t, p, 2);
    }
    let (a, b, c, d) = choose|a: int, b: int, c: int, d: int|
        {
            &&& #[trigger] in_turn(t, a, b, c, d)
            &&& {
                ||| index_overruns(t, a, 2, reach)
                ||| index_overruns(t, b, 2, reach)
                ||| index_overruns(t, c, 2, reach)
                ||| index_overruns(t, d, 2, reach)
                ||| has_item(t, b, 2, 0) && exists|j: int|
                    0 <= j < dict(item(t, b, 2, 0)).len() && top_overruns(
                        t,
                        #[trigger] dict(item(t, b, 2, 0))[j],
                        reach,
                    )
            }
        };
    if !index_overruns(t, a, 2, reach) && !index_overruns(t, b, 2, reach) && !index_overruns(
        t,
        c,
        2,
        reach,
    ) && !index_overruns(t, d, 2, reach) {
        let j = choose|j: int|
            0 <= j < dict(item(t, b, 2, 0)).len() && top_overruns(
                t,
                #[trigger] dict(item(t, b, 2, 0))[j],
                reach,
            );
        let entry = dict(item(t, b, 2, 0))[j];
        lemma_item_fraction(t, b, 2, 0, j);
        if private_overruns(t, entry, 2, reach) {
            lemma_large_private(t, entry, 2);
        }
    }
}

/// A fraction in a dictionary that is an item of an index stands in the table.
proof fn lemma_item_fraction(t: Seq<u8>, p: int, width: int, k: int, j: int)
    requires
        width == 2 || width == 4,
        has_item(t, p, width, k),
        0 <= j < dict(item(t, p, width, k)).len(),
    ensures
        dict(item(t, p, width, k))[j].before == Operand::Fraction ==> t.contains(30u8),
        dict(item(t, p, width, k))[j].last == Operand::Fraction ==> t.contains(30u8),
{
    let at = items_at(t, p, width) - 1;
    assert((index_count(t, p, width) + 1) * t[p + width] >= 0) by (nonlinear_arith)
        requires
            index_count(t, p, width) >= 0,
            t[p + width] >= 0,
    ;
    lemma_fraction_in_part(
        t,
        at + item_offset(t, p, width, k),
        at + item_offset(t, p, width, k + 1),
        j,
    );
}

/// The same for a `CFF2` table.
proof fn lemma_large_cff2(t: Seq<u8>)
    requires
        t.len() + 0x200_0000 <= 0xFFE0_0000,
        cff2_overruns(t, 0xFFE0_0000),
    ensures
        large_or_fraction(t),
{
    let reach: int = 0xFFE0_0000;
    assert(t.skip(0) =~= t);
    assert forall|p: int| #[trigger] index_overruns(t, p, 4, reach) implies exists|q: int| #[trigger]
        is_large(t, q) by {
        lemma_large_index(t, p, 4);
    }
    let (a, b) = choose|a: int, b: int|
        {
            &&& #[trigger] top_within(t, a, b)
            &&& {
                ||| index_overruns(t, b, 4, reach)
                ||| exists|j: int|
                    0 <= j < dict(t.subrange(a, b)).len() && variable_top_overruns(
                        t,
                        #[trigger] dict(t.subrange(a, b))[j],
                        reach,
                    )
            }
        };
    if !index_overruns(t, b, 4, reach) {
        let j = choose|j: int|
            0 <= j < dict(t.subrange(a, b)).len() && variable_top_overruns(
                t,
                #[trigger] dict(t.subrange(a, b))[j],
                reach,
            );
        let entry = dict(t.subrange(a, b))[j];
        lemma_fraction_in_part(t, a, b, j);
        if entry.last is Whole {
            let p = entry.last->Whole_0 as int;
            if entry.operator == 1236 && !index_overruns(t, p, 4, reach) {
                let k = choose|k: int| #[trigger] font_overruns(t, p, k, reach);
                let i = choose|i: int|
                    0 <= i < dict(item(t, p, 4, k)).len() && private_overruns(
                        t,
                        #[trigger] dict(item(t, p, 4, k))[i],
                        4,
                        reach,
                    );
                lemma_item_fraction(t, p, 4, k, i);
                lemma_large_private(t, dict(item(t, p, 4, k))[i], 4);
            }
            if entry.operator == 24 {
                lemma_large_list(t, 0, p + 2, 0);
            }
        }
    }
}

/// A file of less than about four billion bytes is refused only if some four bytes
/// of it are a number far beyond its length, if it has as many tables as 16 bits
/// can count, or if it has outlines with a byte that starts a decimal fraction.
pub proof fn law_refused_file_has_a_large_number(data: &[u8], res: bool)
    requires
        call_ensures(check_counts, (data,), res),
        !res,
        data@.len() <= 0xFDE0_0000,
    ensures
        ({
            ||| exists|q: int| #[trigger] is_large(data@, q)
            ||| exists|at: int| #[trigger]
                starts_at(data@, at) && at + 6 <= data@.len() && {
                    ||| data@[at + 4] == 255 && data@[at + 5] == 255
                    ||| exists|k: int|
                        0 <= k < word(data@, at + 4) && #[trigger] has_table(data@, at, k) && (
                        tag_and_table(data@, at, k).0 == 0x4346_4620 || tag_and_table(
                            data@,
                            at,
                            k,
                        ).0 == 0x4346_4632) && tag_and_table(data@, at, k).1.contains(30u8)
                }
        }),
{
    let d = data@;
    law_file_is_refused_for_what_overruns(data, res);
    if d.len() >= 12 && 12 + 4 * long(d, 8) > 0xFFE0_0000 {
        assert(is_large(d, 8));
    }
    if !exists|q: int| #[trigger] is_large(d, q) {
        let at = choose|at: int| #[trigger]
            starts_at(d, at) && holds(d, at + 4, 2) && {
                ||| word(d, at + 4) == 0xFFFF
                ||| exists|k: int|
                    0 <= k < word(d, at + 4) && #[trigger] has_table(d, at, k) && table_overruns(
                        tag_and_table(d, at, k).0,
                        tag_and_table(d, at, k).1,
                        0xFFE0_0000,
                    )
            };
        assert(starts_at(d, at));
        if word(d, at + 4) != 0xFFFF {
            let k = choose|k: int|
                0 <= k < word(d, at + 4) && #[trigger] has_table(d, at, k) && table_overruns(
                    tag_and_table(d, at, k).0,
                    tag_and_table(d, at, k).1,
                    0xFFE0_0000,
                );
            let (tag, t) = tag_and_table(d, at, k);
            lemma_large_table(tag, t);
            if exists|q: int| #[trigger] is_large(t, q) {
                let from = long(d, at + 20 + 16 * k);
                lemma_part(d, from, from + long(d, at + 24 + 16 * k));
            }
            assert(has_table(d, at, k));
        }
    }
}

} // verus!

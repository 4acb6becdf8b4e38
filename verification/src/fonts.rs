//! Loading the fonts that text is drawn with.

use ab_glyph::FontVec;
use ab_glyph::InvalidFont;
use vstd::prelude::*;

use crate::config;
use crate::config::PathConfig;
use crate::config::PathView;
use crate::fontbounds;
use crate::fontfile;
use crate::history;

verus! {

/// `ab_glyph::FontVec`, a parsed font that owns its data.
#[verifier::external_type_specification]
#[verifier::external_body]
pub struct ExFontVec(FontVec);

/// `ab_glyph::InvalidFont`, which says nothing but that there is no font.
#[verifier::external_type_specification]
#[verifier::external_body]
pub struct ExInvalidFont(InvalidFont);

/// The bytes that a font holds.
pub uninterp spec fn font_bytes(font: FontVec) -> Seq<u8>;

/// Whether `ab_glyph::FontVec::try_from_vec` takes the bytes for a font.
pub uninterp spec fn is_font(data: Seq<u8>) -> bool;

/// Parses a font by `ab_glyph::FontVec::try_from_vec`. Whether that succeeds
/// depends on the bytes alone, and the font then holds these bytes. The parser
/// stops on some files, instead of refusing them, where a count in them reaches
/// beyond 32 bits; these are left out.
#[verifier::external_body]
fn parse_font(data: Vec<u8>) -> (res: Result<FontVec, InvalidFont>)
    requires
        fontfile::counts_fit(data@),
    ensures
        res is Ok <==> is_font(data@),
        res matches Ok(font) ==> font_bytes(font) == data@,
{
    FontVec::try_from_vec(data)
}

/// The paths of the enabled files, in the order of the list.
pub open spec fn enabled_paths(list: Seq<PathView>) -> Seq<Seq<char>>
    decreases list.len(),
{
    if list.len() == 0 {
        seq![]
    } else if list.last().enabled {
        enabled_paths(list.drop_last()).push(list.last().path)
    } else {
        enabled_paths(list.drop_last())
    }
}

/// What the fonts hold, in order.
pub open spec fn fonts_bytes(fonts: Seq<FontVec>) -> Seq<Seq<u8>> {
    fonts.map_values(|font: FontVec| font_bytes(font))
}

/// Why a font could not be loaded.
#[derive(Clone, Copy, Debug, PartialEq, Eq, Structural)]
pub enum FontError {
    /// The file holds no font.
    InvalidFont,
}

impl FontError {
    /// The error as the user reads it.
    pub fn message(&self) -> (res: String)
        ensures
            res@ == "InvalidFont"@,
    {
        match self {
            FontError::InvalidFont => "InvalidFont".to_owned(),
        }
    }
}

/// The loading of fonts, one file after the other. `next_path` tells which
/// file to read, `supply` takes what it holds, and `finish` gives the fonts
/// once there is no file left.
pub struct FontSetup {
    paths: Vec<String>,
    fonts: Vec<FontVec>,
}

impl FontSetup {
    /// The files to load, in order.
    pub closed spec fn all_paths(&self) -> Seq<Seq<char>> {
        history::texts(self.paths@)
    }

    /// What the fonts that are loaded already hold, in order.
    pub closed spec fn loaded(&self) -> Seq<Seq<u8>> {
        fonts_bytes(self.fonts@)
    }

    /// Whether every file is loaded.
    pub open spec fn done(&self) -> bool {
        self.loaded().len() == self.all_paths().len()
    }

    /// Each font comes from one of the files.
    pub open spec fn valid(&self) -> bool {
        self.loaded().len() <= self.all_paths().len()
    }

    /// What taking one more font amounts to.
    pub open spec fn took(before: FontSetup, data: Seq<u8>, after: FontSetup) -> bool {
        &&& after.all_paths() == before.all_paths()
        &&& after.loaded() == before.loaded().push(data)
    }

    /// The next file to read, or nothing once all are loaded.
    pub fn next_path(&self) -> (res: Option<&String>)
        requires
            self.valid(),
        ensures
            res is None <==> self.done(),
            res matches Some(path) ==> path@ == self.all_paths()[self.loaded().len() as int],
    {
        let k: usize = self.fonts.len();
        if k < self.paths.len() {
            Some(&self.paths[k])
        } else {
            None
        }
    }

    /// Takes the bytes of the file that `next_path` names. Where they are no
    /// font, nothing changes. A file with a count that reaches too far is none.
    pub fn supply(&mut self, data: Vec<u8>) -> (res: Result<(), FontError>)
        requires
            old(self).valid(),
            !old(self).done(),
        ensures
            final(self).valid(),
            res is Ok <==> fontfile::counts_fit(data@) && is_font(data@),
            res is Ok ==> Self::took(*old(self), data@, *final(self)),
            res is Err ==> *final(self) == *old(self),
    {
        let ghost before = self.loaded();
        if !fontfile::check_counts(data.as_slice()) {
            return Err(FontError::InvalidFont);
        }
        match parse_font(data) {
            Ok(font) => {
                self.fonts.push(font);
                proof {
                    assert(self.loaded() =~= before.push(data@));
                }
                Ok(())
            },
            Err(_) => Err(FontError::InvalidFont),
        }
    }

    /// The fonts, one for each file.
    pub fn finish(self) -> (res: Vec<FontVec>)
        requires
            self.done(),
        ensures
            fonts_bytes(res@) == self.loaded(),
    {
        self.fonts
    }
}

/// Starts the loading of the fonts in a list. Without any file in the list
/// there is nothing to load, and no fonts of the user's own are in use. Files
/// that are not enabled are left out.
pub fn setup_fonts(font_paths: &Vec<PathConfig>) -> (res: Option<FontSetup>)
    ensures
        res is None <==> font_paths@.len() == 0,
        res matches Some(setup) ==> {
            &&& setup.valid()
            &&& setup.all_paths() == enabled_paths(config::paths(font_paths@))
            &&& setup.loaded() == Seq::<Seq<u8>>::empty()
        },
{
    if font_paths.len() == 0 {
        return None;
    }
    let ghost list = config::paths(font_paths@);
    let mut paths: Vec<String> = Vec::new();
    let mut i: usize = 0;
    proof {
        assert(history::texts(paths@) =~= enabled_paths(list.take(0)));
    }
    while i < font_paths.len()
        invariant
            list == config::paths(font_paths@),
            i <= font_paths@.len(),
            history::texts(paths@) == enabled_paths(list.take(i as int)),
        decreases font_paths@.len() - i,
    {
        let ghost before = history::texts(paths@);
        proof {
            assert(list.take(i + 1).drop_last() =~= list.take(i as int));
            assert(list.take(i + 1).last() == font_paths@[i as int]@);
        }
        if font_paths[i].enabled {
            paths.push(font_paths[i].path.clone());
            proof {
                assert(history::texts(paths@) =~= before.push(font_paths@[i as int].path@));
            }
        }
        i = i + 1;
    }
    proof {
        assert(list.take(list.len() as int) =~= list);
        assert(fonts_bytes(Seq::<FontVec>::empty()) =~= Seq::<Seq<u8>>::empty());
    }
    let setup = FontSetup { paths, fonts: Vec::new() };
    proof {
        assert(setup.loaded() =~= Seq::<Seq<u8>>::empty());
    }
    Some(setup)
}

/// Whether the list has an enabled file with this path.
pub open spec fn enables(list: Seq<PathView>, path: Seq<char>) -> bool {
    exists|i: int| 0 <= i < list.len() && (#[trigger] list[i]).enabled && list[i].path == path
}

/// Every enabled file is loaded, and no other.
pub proof fn law_enabled_files_are_loaded(list: Seq<PathView>)
    ensures
        forall|path: Seq<char>| #[trigger]
            enabled_paths(list).contains(path) <==> enables(list, path),
        enabled_paths(list).len() == list.filter(|p: PathView| p.enabled).len(),
    decreases list.len(),
{
    reveal_with_fuel(Seq::filter, 2);
    if list.len() > 0 {
        let front = list.drop_last();
        law_enabled_files_are_loaded(front);
        let kept = enabled_paths(list);
        let kept_front = enabled_paths(front);
        assert forall|path: Seq<char>| #[trigger] kept.contains(path) <==> enables(list, path) by {
            if kept.contains(path) {
                let k = choose|k: int| 0 <= k < kept.len() && kept[k] == path;
                if k < kept_front.len() {
                    assert(kept_front[k] == path);
                    assert(kept_front.contains(path));
                    let i = choose|i: int|
                        0 <= i < front.len() && (#[trigger] front[i]).enabled && front[i].path
                            == path;
                    assert(list[i] == front[i]);
                } else {
                    assert(list[list.len() - 1].path == path);
                }
            }
            if enables(list, path) {
                let i = choose|i: int|
                    0 <= i < list.len() && (#[trigger] list[i]).enabled && list[i].path == path;
                if i < front.len() {
                    assert(front[i] == list[i]);
                    assert(kept_front.contains(path));
                    let k = choose|k: int| 0 <= k < kept_front.len() && kept_front[k] == path;
                    assert(kept[k] == path);
                } else {
                    assert(kept[kept.len() - 1] == path);
                }
            }
        }
    }
}

/// When all files are loaded there is one font for each of them, in the order
/// of the files: the data that was supplied, from first to last.
pub proof fn law_fonts_follow_files(states: Seq<FontSetup>, data: Seq<Seq<u8>>)
    requires
        states.len() == data.len() + 1,
        states[0].loaded() == Seq::<Seq<u8>>::empty(),
        forall|i: int|
            0 <= i < data.len() ==> FontSetup::took(#[trigger] states[i], data[i], states[i + 1]),
        states.last().done(),
    ensures
        states.last().loaded() == data,
        data.len() == states[0].all_paths().len(),
{
    lemma_run(states, data, data.len() as int);
    assert(data.take(data.len() as int) =~= data);
}

/// After `n` fonts, these are loaded and the list of files is the same.
proof fn lemma_run(states: Seq<FontSetup>, data: Seq<Seq<u8>>, n: int)
    requires
        states.len() == data.len() + 1,
        states[0].loaded() == Seq::<Seq<u8>>::empty(),
        forall|i: int|
            0 <= i < data.len() ==> FontSetup::took(#[trigger] states[i], data[i], states[i + 1]),
        0 <= n <= data.len(),
    ensures
        states[n].loaded() == data.take(n),
        states[n].all_paths() == states[0].all_paths(),
    decreases n,
{
    if n == 0 {
        assert(data.take(0) =~= Seq::<Seq<u8>>::empty());
    } else {
        lemma_run(states, data, n - 1);
        assert(FontSetup::took(states[n - 1], data[n - 1], states[n - 1 + 1]));
        assert(data.take(n) =~= data.take(n - 1).push(data[n - 1]));
    }
}

/// The enabled files that stand before a place of the list.
proof fn lemma_enabled_at(list: Seq<PathView>, k: int) -> (i: int)
    requires
        0 <= k < enabled_paths(list).len(),
    ensures
        0 <= i < list.len(),
        list[i].enabled,
        list[i].path == enabled_paths(list)[k],
        list.take(i).filter(|p: PathView| p.enabled).len() == k,
    decreases list.len(),
{
    let front = list.drop_last();
    let kept = enabled_paths(front);
    law_enabled_files_are_loaded(front);
    if k < kept.len() {
        let i = lemma_enabled_at(front, k);
        assert(list.take(i) =~= front.take(i));
        i
    } else {
        assert(list.take(list.len() - 1) =~= front);
        list.len() - 1
    }
}

/// The next file to read is an enabled one of the list, and as many enabled ones
/// stand before it as fonts are loaded. There is none left if and only if as many
/// fonts are loaded as files are enabled. Without any file in the list there is
/// no loading.
pub proof fn law_enabled_files_are_read_in_order(
    font_paths: &Vec<PathConfig>,
    started: Option<FontSetup>,
    now: FontSetup,
    next: Option<&String>,
)
    requires
        call_ensures(setup_fonts, (font_paths,), started),
        started matches Some(setup) ==> now.all_paths() == setup.all_paths(),
        now.valid(),
        call_ensures(FontSetup::next_path, (&now,), next),
    ensures
        started is None <==> font_paths@.len() == 0,
        started matches Some(setup) ==> setup.valid() && setup.loaded().len() == 0,
        started is Some ==> {
            &&& next is None <==> now.loaded().len() == font_paths@.filter(
                |p: PathConfig| p.enabled,
            ).len()
            &&& next matches Some(path) ==> exists|i: int|
                {
                    &&& 0 <= i < font_paths@.len()
                    &&& (#[trigger] font_paths@[i]).enabled
                    &&& font_paths@[i].path@ == path@
                    &&& font_paths@.take(i).filter(|p: PathConfig| p.enabled).len()
                        == now.loaded().len()
                }
        },
{
    let list = config::paths(font_paths@);
    law_enabled_files_are_loaded(list);
    lemma_enabled_count(font_paths@);
    if started is Some && next is Some {
        let i = lemma_enabled_at(list, now.loaded().len() as int);
        assert(list[i] == font_paths@[i]@);
        assert(list.take(i) =~= config::paths(font_paths@.take(i)));
        lemma_enabled_count(font_paths@.take(i));
        assert(font_paths@[i].enabled);
    }
}

/// As many files are enabled in a list as in what it says.
proof fn lemma_enabled_count(list: Seq<PathConfig>)
    ensures
        list.filter(|p: PathConfig| p.enabled).len() == config::paths(list).filter(
            |p: PathView| p.enabled,
        ).len(),
    decreases list.len(),
{
    reveal(Seq::filter);
    if list.len() > 0 {
        lemma_enabled_count(list.drop_last());
        assert(config::paths(list).drop_last() =~= config::paths(list.drop_last()));
        assert(config::paths(list).last() == list.last()@);
    }
}

/// A file that is supplied is loaded behind those that are loaded already, as it
/// is, unless it is no font: then nothing changes. It is no font if and only if
/// the parser refuses it or its counts reach too far.
pub proof fn law_supplied_font_is_loaded(
    setup: &mut FontSetup,
    data: Vec<u8>,
    bytes: &[u8],
    fits: bool,
    res: Result<(), FontError>,
)
    requires
        bytes@ == data@,
        call_ensures(fontfile::check_counts, (bytes,), fits),
        call_ensures(FontSetup::supply, (setup, data), res),
    ensures
        res is Err <==> !fits || !is_font(data@),
        final(setup).all_paths() == old(setup).all_paths(),
        res is Err ==> *final(setup) == *old(setup),
        res is Ok ==> {
            &&& final(setup).loaded().len() == old(setup).loaded().len() + 1
            &&& final(setup).loaded().drop_last() == old(setup).loaded()
            &&& final(setup).loaded().last() == data@
        },
{
    if res is Ok {
        assert(final(setup).loaded().drop_last() =~= old(setup).loaded());
    }
}

/// The fonts that come out hold what was loaded, one for each enabled file of the
/// list and in their order.
pub proof fn law_fonts_are_what_was_loaded(
    font_paths: &Vec<PathConfig>,
    started: FontSetup,
    last: FontSetup,
    fonts: Vec<FontVec>,
)
    requires
        call_ensures(setup_fonts, (font_paths,), Some(started)),
        last.all_paths() == started.all_paths(),
        last.done(),
        call_ensures(FontSetup::finish, (last,), fonts),
    ensures
        fonts@.len() == font_paths@.filter(|p: PathConfig| p.enabled).len(),
        fonts@.len() == last.loaded().len(),
        forall|k: int| 0 <= k < fonts@.len() ==> font_bytes(#[trigger] fonts@[k]) == last.loaded()[k],
{
    law_enabled_files_are_loaded(config::paths(font_paths@));
    lemma_enabled_count(font_paths@);
    let held = fonts_bytes(fonts@);
    assert(held.len() == fonts@.len());
    assert forall|k: int| 0 <= k < fonts@.len() implies font_bytes(#[trigger] fonts@[k])
        == last.loaded()[k] by {
        assert(held[k] == font_bytes(fonts@[k]));
    }
}

/// A file is not refused for its counts where all that its numbers lead to ends
/// within the table that they stand in, so that the parser alone decides.
pub proof fn law_font_within_its_bounds_is_left_to_the_parser(
    setup: &mut FontSetup,
    data: Vec<u8>,
    at: int,
    bytes: &[u8],
    fits: bool,
    res: Result<(), FontError>,
)
    requires
        bytes@ == data@,
        call_ensures(fontfile::check_counts, (bytes,), fits),
        call_ensures(FontSetup::supply, (setup, data), res),
        data@.len() < 0xFFE0_0000,
        fontbounds::starts_at(data@, at),
        data@.take(4) == seq![0x74u8, 0x74, 0x63, 0x66] ==> 12 + 4 * fontfile::long(data@, 8)
            <= data@.len(),
        fontfile::holds(data@, at + 4, 2) ==> fontfile::word(data@, at + 4) < 0xFFFF,
        forall|k: int|
            fontfile::holds(data@, at + 4, 2) && 0 <= k < fontfile::word(data@, at + 4)
                && #[trigger] fontbounds::has_table(data@, at, k) ==> !fontbounds::table_overruns(
                fontbounds::tag_and_table(data@, at, k).0,
                fontbounds::tag_and_table(data@, at, k).1,
                fontbounds::tag_and_table(data@, at, k).1.len() + 1int,
            ),
    ensures
        res is Ok <==> is_font(data@),
{
    fontbounds::law_file_within_its_bounds_is_not_refused(bytes, at, fits);
}

/// Every error says that there is no font.
pub proof fn law_font_error_says_what_is_wrong(error: &FontError, message: String)
    requires
        call_ensures(FontError::message, (error,), message),
    ensures
        message@ == "InvalidFont"@,
{
}

/// A file that the parser takes for a font is refused only if it is longer than
/// the reach, has as many tables as 16 bits can count, is a collection with a list
/// of fonts that ends beyond the reach, or if something that a number in one of
/// its tables leads to does.
pub proof fn law_refused_font_overruns(
    setup: &mut FontSetup,
    data: Vec<u8>,
    bytes: &[u8],
    fits: bool,
    res: Result<(), FontError>,
)
    requires
        bytes@ == data@,
        call_ensures(fontfile::check_counts, (bytes,), fits),
        call_ensures(FontSetup::supply, (setup, data), res),
        res is Err,
        is_font(data@),
    ensures
        ({
            ||| data@.len() > 0xFFE0_0000
            ||| data@.len() >= 12 && data@.take(4) == seq![0x74u8, 0x74, 0x63, 0x66] && 12 + 4
                * fontfile::long(data@, 8) > 0xFFE0_0000
            ||| exists|at: int| #[trigger]
                fontbounds::starts_at(data@, at) && fontfile::holds(data@, at + 4, 2) && {
                    ||| fontfile::word(data@, at + 4) == 0xFFFF
                    ||| exists|k: int|
                        0 <= k < fontfile::word(data@, at + 4) && #[trigger] fontbounds::has_table(
                            data@,
                            at,
                            k,
                        ) && fontbounds::table_overruns(
                            fontbounds::tag_and_table(data@, at, k).0,
                            fontbounds::tag_and_table(data@, at, k).1,
                            0xFFE0_0000,
                        )
                }
        }),
{
    fontbounds::law_file_is_refused_for_what_overruns(bytes, fits);
}

} // verus!

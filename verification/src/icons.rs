//! Which assets are icons, and how they are called.

use vstd::prelude::*;

use crate::text;

verus! {

/// The side of an icon on a button, in pixels.
pub const ICON_SIZE: i32 = 32;

/// The side of an icon on a button that stands within a line.
pub const INLINE_ICON_SIZE: i32 = 16;

/// Where the icons stand among the assets.
pub const ICONS_PREFIX: &'static str = "gui/image/";

/// How the name of an icon file ends.
pub const ICONS_SUFFIX: &'static str = ".svg";

/// A file that comes with the program.
#[derive(Debug)]
pub struct Asset {
    pub name: String,
    pub data: Vec<u8>,
}

/// An icon, drawn and encoded as PNG.
#[derive(Debug)]
pub struct Icon {
    pub name: String,
    pub png: Vec<u8>,
}

/// Whether an asset is an icon.
pub open spec fn is_icon(file: Seq<char>) -> bool {
    text::has_prefix(file, ICONS_PREFIX@) && text::has_suffix(file, ICONS_SUFFIX@)
}

/// The name of the icon in a file: the file's name within the icons' folder.
pub open spec fn icon_name_of(file: Seq<char>) -> Seq<char> {
    file.skip(ICONS_PREFIX@.len() as int)
}

/// The icons among the assets, in the order of the assets.
pub open spec fn icon_files(assets: Seq<Asset>) -> Seq<Asset>
    decreases assets.len(),
{
    if assets.len() == 0 {
        seq![]
    } else if is_icon(assets.last().name@) {
        icon_files(assets.drop_last()).push(assets.last())
    } else {
        icon_files(assets.drop_last())
    }
}

/// Whether these are the places of the icons among the assets, from first to
/// last.
pub open spec fn icon_places(assets: Seq<Asset>, places: Seq<usize>) -> bool {
    &&& places.len() == icon_files(assets).len()
    &&& forall|k: int|
        0 <= k < places.len() ==> (#[trigger] places[k]) < assets.len() && assets[places[k] as int]
            == icon_files(assets)[k]
    &&& forall|j: int, k: int| 0 <= j < k < places.len() ==> places[j] < places[k]
}

/// The name of the icon in an asset, or nothing where it is not an icon.
pub fn icon_name(file: &str) -> (res: Option<String>)
    ensures
        res is Some <==> is_icon(file@),
        res matches Some(name) ==> name@ == icon_name_of(file@),
{
    if text::starts_with(file, ICONS_PREFIX) && text::ends_with(file, ICONS_SUFFIX) {
        let from: usize = ICONS_PREFIX.unicode_len();
        let to: usize = file.unicode_len();
        Some(file.substring_char(from, to).to_owned())
    } else {
        None
    }
}

/// The places of the icons among the assets: those that have to be drawn.
pub fn icons_to_draw(assets: &Vec<Asset>) -> (res: Vec<usize>)
    ensures
        icon_places(assets@, res@),
        forall|i: int|
            0 <= i < assets@.len() && is_icon((#[trigger] assets@[i]).name@) ==> res@.contains(
                i as usize,
            ),
{
    let mut places: Vec<usize> = Vec::new();
    let mut i: usize = 0;
    while i < assets.len()
        invariant
            i <= assets@.len(),
            icon_places(assets@.take(i as int), places@),
            forall|k: int|
                0 <= k < i && is_icon((#[trigger] assets@[k]).name@) ==> places@.contains(
                    k as usize,
                ),
        decreases assets@.len() - i,
    {
        let ghost front = assets@.take(i as int);
        let ghost before = places@;
        proof {
            assert(assets@.take(i + 1).drop_last() =~= front);
        }
        if icon_name(assets[i].name.as_str()).is_some() {
            places.push(i);
        }
        proof {
            assert forall|k: int| 0 <= k < places@.len() implies (#[trigger] places@[k]) < i + 1
                && assets@.take(i + 1)[places@[k] as int] == icon_files(assets@.take(i + 1))[k] by {
                if k < before.len() {
                    assert(places@[k] == before[k]);
                    assert(front[before[k] as int] == assets@[before[k] as int]);
                }
            }
            assert forall|k: int|
                0 <= k < i + 1 && is_icon((#[trigger] assets@[k]).name@) implies places@.contains(
                k as usize,
            ) by {
                if k < i {
                    let m = choose|m: int| 0 <= m < before.len() && before[m] == k as usize;
                    assert(places@[m] == k as usize);
                } else {
                    assert(places@[before.len() as int] == k as usize);
                }
            }
            assert forall|j: int, k: int| 0 <= j < k < places@.len() implies places@[j]
                < places@[k] by {
                assert(places@[j] == before[j]);
                if k < before.len() {
                    assert(places@[k] == before[k]);
                }
            }
        }
        i = i + 1;
    }
    proof {
        assert(assets@.take(assets@.len() as int) =~= assets@);
    }
    places
}

/// Puts the icons together. `drawn` is how the drawing of each icon among the
/// assets went: the PNG file, or nothing where it could not be drawn. There
/// are no icons unless all of them could be drawn; the error is the first one
/// that could not.
pub fn load_icons(assets: &Vec<Asset>, drawn: Vec<Option<Vec<u8>>>) -> (res: Result<
    Vec<Icon>,
    usize,
>)
    requires
        drawn@.len() == icon_files(assets@).len(),
    ensures
        res is Ok <==> forall|k: int| 0 <= k < drawn@.len() ==> #[trigger] drawn@[k] is Some,
        res matches Ok(icons) ==> icons@.len() == drawn@.len() && forall|k: int|
            0 <= k < icons@.len() ==> (#[trigger] icons@[k]).name@ == icon_name_of(
                icon_files(assets@)[k].name@,
            ) && drawn@[k] == Some(icons@[k].png),
        res matches Err(k) ==> k < drawn@.len() && drawn@[k as int] is None && forall|j: int|
            0 <= j < k ==> #[trigger] drawn@[j] is Some,
{
    let places = icons_to_draw(assets);
    let n: usize = drawn.len();
    let mut icons: Vec<Icon> = Vec::new();
    let mut i: usize = 0;
    for item in it: drawn
        invariant
            it.seq() == drawn@,
            i == it.index(),
            n == drawn@.len(),
            drawn@.len() == icon_files(assets@).len(),
            icon_places(assets@, places@),
            icons@.len() == i,
            forall|j: int| 0 <= j < i ==> #[trigger] drawn@[j] is Some,
            forall|k: int|
                0 <= k < i ==> (#[trigger] icons@[k]).name@ == icon_name_of(
                    icon_files(assets@)[k].name@,
                ) && drawn@[k] == Some(icons@[k].png),
    {
        proof {
            assert(item == drawn@[i as int]);
            assert(places@.len() == drawn@.len());
            lemma_icon_files(assets@);
        }
        let png = match item {
            Some(png) => png,
            None => return Err(i),
        };
        if let Some(name) = icon_name(assets[places[i]].name.as_str()) {
            icons.push(Icon { name, png });
        }
        i = i + 1;
    }
    Ok(icons)
}

/// The icons among the assets are icons.
proof fn lemma_icon_files(assets: Seq<Asset>)
    ensures
        forall|k: int|
            0 <= k < icon_files(assets).len() ==> is_icon((#[trigger] icon_files(assets)[k]).name@),
    decreases assets.len(),
{
    if assets.len() > 0 {
        let front = icon_files(assets.drop_last());
        lemma_icon_files(assets.drop_last());
        assert forall|k: int| 0 <= k < icon_files(assets).len() implies is_icon(
            (#[trigger] icon_files(assets)[k]).name@,
        ) by {
            if k < front.len() {
                assert(icon_files(assets)[k] == front[k]);
            }
        }
    }
}

/// Two icon files never share an icon name.
pub proof fn law_icon_names_differ(a: Seq<char>, b: Seq<char>)
    requires
        is_icon(a),
        is_icon(b),
        a != b,
    ensures
        icon_name_of(a) != icon_name_of(b),
{
    if icon_name_of(a) == icon_name_of(b) {
        let n = ICONS_PREFIX@.len() as int;
        assert(a =~= a.take(n) + a.skip(n));
        assert(b =~= b.take(n) + b.skip(n));
    }
}

/// An icon name is that of an icon file: it ends as one does.
pub proof fn law_icon_names_end_alike(file: Seq<char>)
    requires
        is_icon(file),
    ensures
        text::has_suffix(icon_name_of(file), ICONS_SUFFIX@),
{
    reveal_strlit("gui/image/");
    reveal_strlit(".svg");
    let name = icon_name_of(file);
    if file.len() < ICONS_PREFIX@.len() + ICONS_SUFFIX@.len() {
        let k = file.len() - ICONS_SUFFIX@.len();
        let prefix = file.take(ICONS_PREFIX@.len() as int);
        let suffix = file.skip(k);
        assert(prefix[ICONS_PREFIX@.len() - 1] == '/');
        assert(suffix[ICONS_PREFIX@.len() - 1 - k] == '/');
    }
    assert(name.skip(name.len() - ICONS_SUFFIX@.len()) =~= file.skip(
        file.len() - ICONS_SUFFIX@.len(),
    ));
}

/// An asset is an icon if and only if it stands in the folder of the icons and
/// ends as they do. Its name is what stands behind the folder.
pub proof fn law_icon_name_stands_behind_its_folder(file: &str, res: Option<String>)
    requires
        call_ensures(icon_name, (file,), res),
    ensures
        res is Some <==> (exists|rest: Seq<char>| file@ == #[trigger] ("gui/image/"@ + rest)) && (
        exists|rest: Seq<char>| file@ == #[trigger] (rest + ".svg"@)),
        res matches Some(name) ==> file@ == "gui/image/"@ + name@,
{
    let n = ICONS_PREFIX@.len() as int;
    let m = ICONS_SUFFIX@.len() as int;
    if res is Some {
        assert(file@ =~= "gui/image/"@ + file@.skip(n));
        assert(file@ =~= file@.take(file@.len() - m) + ".svg"@);
    }
    if (exists|rest: Seq<char>| file@ == #[trigger] ("gui/image/"@ + rest)) && (exists|
        rest: Seq<char>,
    | file@ == #[trigger] (rest + ".svg"@)) {
        let a = choose|rest: Seq<char>| file@ == #[trigger] ("gui/image/"@ + rest);
        let b = choose|rest: Seq<char>| file@ == #[trigger] (rest + ".svg"@);
        assert(file@.take(n) =~= "gui/image/"@);
        assert(file@.skip(file@.len() - m) =~= ".svg"@);
    }
}

/// What is drawn are the icons among the assets: each of them, nothing else,
/// each once and in their order.
pub proof fn law_all_icons_are_drawn(
    assets: &Vec<Asset>,
    places: Vec<usize>,
    i: usize,
    file: &str,
    name: Option<String>,
)
    requires
        call_ensures(icons_to_draw, (assets,), places),
        i < assets@.len(),
        file@ == assets@[i as int].name@,
        call_ensures(icon_name, (file,), name),
    ensures
        forall|j: int, k: int| 0 <= j < k < places@.len() ==> places@[j] < places@[k],
        forall|k: int| 0 <= k < places@.len() ==> (#[trigger] places@[k]) < assets@.len(),
        places@.contains(i) <==> name is Some,
{
    lemma_icon_files(assets@);
    if places@.contains(i) {
        let k = choose|k: int| 0 <= k < places@.len() && places@[k] == i;
        assert(is_icon(icon_files(assets@)[k].name@));
    }
}

/// There are icons if and only if all of them could be drawn, and then each
/// drawing stands under the name of the asset that it was drawn from. The error
/// is the first drawing that is missing.
pub proof fn law_icons_are_named_after_their_assets(
    assets: &Vec<Asset>,
    places: Vec<usize>,
    drawn: Vec<Option<Vec<u8>>>,
    res: Result<Vec<Icon>, usize>,
)
    requires
        call_ensures(icons_to_draw, (assets,), places),
        drawn@.len() == places@.len(),
        call_ensures(load_icons, (assets, drawn), res),
    ensures
        res is Err <==> exists|k: int| 0 <= k < drawn@.len() && #[trigger] drawn@[k] is None,
        res matches Ok(icons) ==> icons@.len() == places@.len() && forall|k: int|
            0 <= k < icons@.len() ==> {
                &&& "gui/image/"@ + (#[trigger] icons@[k]).name@
                    == assets@[places@[k] as int].name@
                &&& drawn@[k] == Some(icons@[k].png)
            },
        res matches Err(k) ==> k < drawn@.len() && drawn@[k as int] is None && forall|j: int|
            0 <= j < k ==> #[trigger] drawn@[j] is Some,
{
    lemma_icon_files(assets@);
    if let Ok(icons) = res {
        assert forall|k: int| 0 <= k < icons@.len() implies "gui/image/"@ + (
        #[trigger] icons@[k]).name@ == assets@[places@[k] as int].name@ by {
            let file = assets@[places@[k] as int].name@;
            assert(file == icon_files(assets@)[k].name@);
            assert(file =~= "gui/image/"@ + icon_name_of(file));
        }
    }
}

} // verus!

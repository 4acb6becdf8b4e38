//! Putting new settings into effect.

use vstd::prelude::*;

use crate::config;
use crate::config::Configuration;
use crate::config::GuiConfig;
use crate::config::PathConfig;
use crate::config::PathView;
use crate::text;

verus! {

/// The settings that the settings dialog offers.
pub struct Settings {
    pub lang: Seq<char>,
    pub fonts: Seq<PathView>,
    pub dictionaries: Seq<PathView>,
    pub cache_dict: bool,
}

/// The settings that a configuration holds.
pub open spec fn settings_of(gui: GuiConfig) -> Settings {
    Settings {
        lang: gui.lang@,
        fonts: config::paths(gui.fonts@),
        dictionaries: config::paths(gui.dictionaries@),
        cache_dict: gui.cache_dict,
    }
}

/// The settings that were asked for.
pub open spec fn settings_from(
    locale: Seq<char>,
    fonts: Seq<PathConfig>,
    dictionaries: Seq<PathConfig>,
    cache_dict: bool,
) -> Settings {
    Settings {
        lang: locale,
        fonts: config::paths(fonts),
        dictionaries: config::paths(dictionaries),
        cache_dict,
    }
}

/// Whether other fonts are asked for.
pub open spec fn fonts_change(have: Settings, want: Settings) -> bool {
    have.fonts != want.fonts
}

/// Whether other dictionaries are asked for, or the same to be kept otherwise.
pub open spec fn dictionaries_change(have: Settings, want: Settings) -> bool {
    have.dictionaries != want.dictionaries || have.cache_dict != want.cache_dict
}

/// Whether `after` differs from `before` in the settings alone.
pub open spec fn only_settings_differ(before: Configuration, after: Configuration) -> bool {
    &&& after.render_han == before.render_han
    &&& after.dark_theme == before.dark_theme
    &&& after.current == before.current
    &&& after.history == before.history
    &&& after.gui.font_size == before.gui.font_size
    &&& after.gui.sidebar_size == before.gui.sidebar_size
}

/// Whether two lists of files differ.
pub fn paths_modified(orig: &Vec<PathConfig>, new: &Vec<PathConfig>) -> (res: bool)
    ensures
        res == (config::paths(orig@) != config::paths(new@)),
{
    let ghost a = config::paths(orig@);
    let ghost b = config::paths(new@);
    if new.len() != orig.len() {
        proof {
            assert(a.len() != b.len());
        }
        return true;
    }
    let mut i: usize = 0;
    while i < new.len()
        invariant
            a == config::paths(orig@),
            b == config::paths(new@),
            orig@.len() == new@.len(),
            i <= new@.len(),
            forall|j: int| 0 <= j < i ==> a[j] == b[j],
        decreases new@.len() - i,
    {
        proof {
            assert(a[i as int] == orig@[i as int]@);
            assert(b[i as int] == new@[i as int]@);
        }
        if orig[i].enabled != new[i].enabled || !text::same_text(
            orig[i].path.as_str(),
            new[i].path.as_str(),
        ) {
            return true;
        }
        i = i + 1;
    }
    proof {
        assert(a =~= b);
    }
    false
}

/// What new settings lead to.
#[derive(Clone, Copy, Debug, PartialEq, Eq, Structural)]
pub struct SettingsChange {
    /// The dictionaries are loaded anew, as the configuration lists them now.
    pub reload_dictionaries: bool,
    /// The fonts that were loaded are put to use, and the page is drawn again.
    pub set_fonts: bool,
}

/// Settings that wait for their fonts.
#[derive(Debug)]
pub struct PendingSettings {
    pub fonts: Vec<PathConfig>,
    pub dictionaries: Vec<PathConfig>,
    pub cache_dict: bool,
}

/// What it means that settings take effect: they are what the configuration
/// holds, nothing else in it changes, and the dictionaries are loaded anew if
/// they are others.
pub open spec fn takes_effect(
    before: Configuration,
    want: Settings,
    change: SettingsChange,
    after: Configuration,
) -> bool {
    &&& settings_of(after.gui) == want
    &&& only_settings_differ(before, after)
    &&& change.reload_dictionaries == dictionaries_change(settings_of(before.gui), want)
}

/// What it means that settings wait for their fonts: of all that is asked for,
/// only the language is taken over.
pub open spec fn waits_for_fonts(
    before: Configuration,
    want: Settings,
    pending: PendingSettings,
    after: Configuration,
) -> bool {
    &&& settings_from(
        want.lang,
        pending.fonts@,
        pending.dictionaries@,
        pending.cache_dict,
    ) == want
    &&& settings_of(after.gui) == (Settings { lang: want.lang, ..settings_of(before.gui) })
    &&& only_settings_differ(before, after)
}

/// How far new settings have come.
#[derive(Debug)]
pub enum SettingsStep {
    /// The fonts have to be loaded before anything else is done.
    LoadFonts(PendingSettings),
    /// Everything is done.
    Done(SettingsChange),
}

/// Why settings could not be put into effect. Title and message are given by
/// the keys under which the translations list them; the message speaks of the
/// title and of the detail.
#[derive(Debug)]
pub struct SettingsError {
    pub title: &'static str,
    pub message: &'static str,
    pub detail: String,
}

/// Takes over the dictionaries that were asked for, if they are others.
fn apply_dictionaries(
    gui: &mut GuiConfig,
    dictionaries: Vec<PathConfig>,
    cache_dict: bool,
) -> (res: bool)
    ensures
        res == (config::paths(old(gui).dictionaries@) != config::paths(dictionaries@) || old(
            gui,
        ).cache_dict != cache_dict),
        config::paths(final(gui).dictionaries@) == config::paths(dictionaries@),
        final(gui).cache_dict == cache_dict,
        final(gui).lang == old(gui).lang,
        final(gui).fonts == old(gui).fonts,
        final(gui).font_size == old(gui).font_size,
        final(gui).sidebar_size == old(gui).sidebar_size,
{
    if paths_modified(&gui.dictionaries, &dictionaries) || gui.cache_dict != cache_dict {
        gui.dictionaries = dictionaries;
        gui.cache_dict = cache_dict;
        true
    } else {
        false
    }
}

/// Puts new settings into effect. The language is taken over at once, though
/// it shows only after a restart. Where other fonts are asked for, nothing
/// else happens before they are loaded.
pub fn apply_settings(
    configuration: &mut Configuration,
    locale: &str,
    fonts: Vec<PathConfig>,
    dictionaries: Vec<PathConfig>,
    cache_dict: bool,
) -> (res: SettingsStep)
    ensures
        res is LoadFonts <==> fonts_change(
            settings_of(old(configuration).gui),
            settings_from(locale@, fonts@, dictionaries@, cache_dict),
        ),
        res matches SettingsStep::LoadFonts(pending) ==> waits_for_fonts(
            *old(configuration),
            settings_from(locale@, fonts@, dictionaries@, cache_dict),
            pending,
            *final(configuration),
        ),
        res matches SettingsStep::Done(change) ==> !change.set_fonts && takes_effect(
            *old(configuration),
            settings_from(locale@, fonts@, dictionaries@, cache_dict),
            change,
            *final(configuration),
        ),
{
    configuration.gui.lang = locale.to_owned();
    if paths_modified(&configuration.gui.fonts, &fonts) {
        SettingsStep::LoadFonts(PendingSettings { fonts, dictionaries, cache_dict })
    } else {
        let reload_dictionaries = apply_dictionaries(
            &mut configuration.gui,
            dictionaries,
            cache_dict,
        );
        SettingsStep::Done(SettingsChange { reload_dictionaries, set_fonts: false })
    }
}

/// Puts the settings into effect for which the fonts were loaded, or reports
/// why that failed. Where it failed, nothing is changed.
pub fn fonts_loaded(
    configuration: &mut Configuration,
    pending: PendingSettings,
    outcome: Result<(), String>,
) -> (res: Result<SettingsChange, SettingsError>)
    ensures
        res is Ok <==> outcome is Ok,
        res matches Ok(change) ==> change.set_fonts && takes_effect(
            *old(configuration),
            settings_from(
                old(configuration).gui.lang@,
                pending.fonts@,
                pending.dictionaries@,
                pending.cache_dict,
            ),
            change,
            *final(configuration),
        ),
        res matches Err(error) ==> {
            &&& *final(configuration) == *old(configuration)
            &&& error.title@ == "font-files"@
            &&& error.message@ == "invalid-path"@
            &&& outcome matches Err(detail) && error.detail@ == detail@
        },
{
    match outcome {
        Ok(_) => {
            let reload_dictionaries = apply_dictionaries(
                &mut configuration.gui,
                pending.dictionaries,
                pending.cache_dict,
            );
            configuration.gui.fonts = pending.fonts;
            Ok(SettingsChange { reload_dictionaries, set_fonts: true })
        },
        Err(detail) => Err(
            SettingsError { title: "font-files", message: "invalid-path", detail },
        ),
    }
}

/// Settings that have taken effect change nothing when they are asked for
/// again: no fonts are loaded, and no dictionaries.
pub proof fn law_same_settings_change_nothing(
    before: Configuration,
    want: Settings,
    change: SettingsChange,
    after: Configuration,
)
    requires
        takes_effect(before, want, change, after),
    ensures
        !fonts_change(settings_of(after.gui), want),
        !dictionaries_change(settings_of(after.gui), want),
{
}

/// Settings that waited for their fonts take effect as if they had not waited.
pub proof fn law_waiting_settings_take_effect(
    before: Configuration,
    want: Settings,
    pending: PendingSettings,
    between: Configuration,
    change: SettingsChange,
    after: Configuration,
)
    requires
        waits_for_fonts(before, want, pending, between),
        takes_effect(
            between,
            settings_from(
                between.gui.lang@,
                pending.fonts@,
                pending.dictionaries@,
                pending.cache_dict,
            ),
            change,
            after,
        ),
    ensures
        takes_effect(before, want, change, after),
{
    assert(between.gui.lang@ == settings_of(between.gui).lang);
}

/// Two lists of files differ if and only if one is longer than the other, or
/// some entry has another path, or is enabled in one of them alone.
pub proof fn law_lists_differ_somewhere(
    orig: &Vec<PathConfig>,
    new: &Vec<PathConfig>,
    res: bool,
)
    requires
        call_ensures(paths_modified, (orig, new), res),
    ensures
        !res ==> {
            &&& orig@.len() == new@.len()
            &&& forall|i: int|
                0 <= i < new@.len() ==> (#[trigger] orig@[i]).enabled == new@[i].enabled
                    && orig@[i].path@ == new@[i].path@
        },
        res ==> orig@.len() != new@.len() || exists|i: int|
            0 <= i < new@.len() && ((#[trigger] orig@[i]).enabled != new@[i].enabled
                || orig@[i].path@ != new@[i].path@),
{
    let a = config::paths(orig@);
    let b = config::paths(new@);
    assert(a.len() == orig@.len() && b.len() == new@.len());
    if !res {
        assert forall|i: int| 0 <= i < new@.len() implies (#[trigger] orig@[i]).enabled
            == new@[i].enabled && orig@[i].path@ == new@[i].path@ by {
            assert(a[i] == orig@[i]@);
            assert(b[i] == new@[i]@);
        }
    } else if orig@.len() == new@.len() {
        if forall|i: int|
            0 <= i < new@.len() ==> (#[trigger] orig@[i]).enabled == new@[i].enabled
                && orig@[i].path@ == new@[i].path@ {
            assert forall|i: int| 0 <= i < a.len() implies a[i] == b[i] by {
                assert(orig@[i].enabled == new@[i].enabled);
            }
            assert(a =~= b);
        }
    }
}

/// The fonts are loaded before anything but the language is taken over, if and
/// only if the list that is asked for is not, entry by entry, the one that is in
/// use. So the list in the configuration never changes while the fonts in use
/// stay.
pub proof fn law_new_fonts_are_loaded_first(
    cfg: &mut Configuration,
    locale: &str,
    fonts: Vec<PathConfig>,
    dictionaries: Vec<PathConfig>,
    cache_dict: bool,
    same_fonts: bool,
    step: SettingsStep,
)
    requires
        same_fonts <==> (old(cfg).gui.fonts@.len() == fonts@.len() && forall|i: int|
            0 <= i < fonts@.len() ==> (#[trigger] old(cfg).gui.fonts@[i]).enabled
                == fonts@[i].enabled && old(cfg).gui.fonts@[i].path@ == fonts@[i].path@),
        call_ensures(apply_settings, (cfg, locale, fonts, dictionaries, cache_dict), step),
    ensures
        step is Done <==> same_fonts,
        final(cfg).gui.lang@ == locale@,
        final(cfg).gui.fonts@.len() == old(cfg).gui.fonts@.len(),
        forall|i: int|
            0 <= i < old(cfg).gui.fonts@.len() ==> (#[trigger] final(cfg).gui.fonts@[i])@ == old(
                cfg).gui.fonts@[i]@,
        step matches SettingsStep::Done(change) ==> !change.set_fonts,
        step matches SettingsStep::LoadFonts(pending) ==> {
            &&& pending.fonts@.len() == fonts@.len()
            &&& forall|i: int|
                0 <= i < fonts@.len() ==> (#[trigger] pending.fonts@[i])@ == fonts@[i]@
            &&& pending.dictionaries@.len() == dictionaries@.len()
            &&& forall|i: int|
                0 <= i < dictionaries@.len() ==> (#[trigger] pending.dictionaries@[i])@
                    == dictionaries@[i]@
            &&& pending.cache_dict == cache_dict
            &&& final(cfg).gui.dictionaries@.len() == old(cfg).gui.dictionaries@.len()
            &&& forall|i: int|
                0 <= i < old(cfg).gui.dictionaries@.len() ==> (#[trigger] final(
                    cfg).gui.dictionaries@[i])@ == old(cfg).gui.dictionaries@[i]@
            &&& final(cfg).gui.cache_dict == old(cfg).gui.cache_dict
        },
        final(cfg).gui.font_size == old(cfg).gui.font_size,
        final(cfg).gui.sidebar_size == old(cfg).gui.sidebar_size,
        final(cfg).render_han == old(cfg).render_han,
        final(cfg).dark_theme == old(cfg).dark_theme,
        final(cfg).current == old(cfg).current,
        final(cfg).history == old(cfg).history,
{
    lemma_paths(old(cfg).gui.fonts@, fonts@);
    lemma_paths(old(cfg).gui.fonts@, final(cfg).gui.fonts@);
    lemma_paths(old(cfg).gui.dictionaries@, final(cfg).gui.dictionaries@);
    assert(same_fonts ==> config::paths(old(cfg).gui.fonts@) == config::paths(fonts@)) by {
        if same_fonts {
            assert forall|i: int| 0 <= i < fonts@.len() implies (#[trigger] old(
                cfg).gui.fonts@[i])@ == fonts@[i]@ by {
                assert(old(cfg).gui.fonts@[i].enabled == fonts@[i].enabled);
            }
        }
    }
    assert(settings_of(final(cfg).gui).fonts == settings_of(old(cfg).gui).fonts) by {
        let want = settings_from(locale@, fonts@, dictionaries@, cache_dict);
        assert(want.fonts == config::paths(fonts@));
    }
    if let SettingsStep::LoadFonts(pending) = step {
        let want = settings_from(locale@, fonts@, dictionaries@, cache_dict);
        let waits = settings_from(
            want.lang,
            pending.fonts@,
            pending.dictionaries@,
            pending.cache_dict,
        );
        assert(waits.fonts == want.fonts && waits.dictionaries == want.dictionaries);
        lemma_paths(fonts@, pending.fonts@);
        lemma_paths(dictionaries@, pending.dictionaries@);
        assert(settings_of(final(cfg).gui).dictionaries == settings_of(
            old(cfg).gui).dictionaries);
        assert(settings_of(final(cfg).gui).cache_dict == settings_of(old(cfg).gui).cache_dict);
    }
    assert(settings_of(final(cfg).gui).lang == locale@);
}

/// Two lists that say the same are the same, entry by entry.
proof fn lemma_paths(a: Seq<PathConfig>, b: Seq<PathConfig>)
    ensures
        config::paths(a) == config::paths(b) <==> (a.len() == b.len() && forall|i: int|
            0 <= i < a.len() ==> (#[trigger] a[i])@ == b[i]@),
        config::paths(a) == config::paths(b) ==> forall|i: int|
            0 <= i < a.len() ==> (#[trigger] b[i])@ == a[i]@,
{
    let pa = config::paths(a);
    let pb = config::paths(b);
    assert(forall|i: int| 0 <= i < a.len() ==> pa[i] == (#[trigger] a[i])@);
    assert(forall|i: int| 0 <= i < b.len() ==> pb[i] == (#[trigger] b[i])@);
    if pa == pb {
        assert(pa.len() == a.len() && pb.len() == b.len());
        assert forall|i: int| 0 <= i < a.len() implies (#[trigger] a[i])@ == b[i]@ by {
            assert(pa[i] == pb[i]);
        }
        assert forall|i: int| 0 <= i < a.len() implies (#[trigger] b[i])@ == a[i]@ by {
            assert(pa[i] == pb[i]);
        }
    }
    if a.len() == b.len() && forall|i: int| 0 <= i < a.len() ==> (#[trigger] a[i])@ == b[i]@ {
        assert forall|i: int| 0 <= i < pa.len() implies pa[i] == pb[i] by {
            assert(a[i]@ == b[i]@);
        }
        assert(pa =~= pb);
    }
}

/// Settings that need no other fonts are taken over at once: the dictionaries
/// are then those that were asked for, and they are loaded anew if and only if
/// they, or how they are kept, differ from before.
pub proof fn law_dictionaries_are_taken_over(
    cfg: &mut Configuration,
    locale: &str,
    fonts: Vec<PathConfig>,
    dictionaries: Vec<PathConfig>,
    cache_dict: bool,
    same_dictionaries: bool,
    step: SettingsStep,
)
    requires
        same_dictionaries <==> (old(cfg).gui.dictionaries@.len() == dictionaries@.len() && forall|
            i: int,
        |
            0 <= i < dictionaries@.len() ==> (#[trigger] old(cfg).gui.dictionaries@[i]).enabled
                == dictionaries@[i].enabled && old(cfg).gui.dictionaries@[i].path@
                == dictionaries@[i].path@),
        call_ensures(apply_settings, (cfg, locale, fonts, dictionaries, cache_dict), step),
    ensures
        step matches SettingsStep::Done(change) ==> {
            &&& change.reload_dictionaries <==> !same_dictionaries || old(cfg).gui.cache_dict
                != cache_dict
            &&& final(cfg).gui.cache_dict == cache_dict
            &&& final(cfg).gui.dictionaries@.len() == dictionaries@.len()
            &&& forall|i: int|
                0 <= i < dictionaries@.len() ==> (#[trigger] final(cfg).gui.dictionaries@[i])@
                    == dictionaries@[i]@
        },
{
    lemma_paths(old(cfg).gui.dictionaries@, dictionaries@);
    lemma_paths(dictionaries@, final(cfg).gui.dictionaries@);
    if same_dictionaries {
        assert forall|i: int| 0 <= i < dictionaries@.len() implies (#[trigger] old(
            cfg).gui.dictionaries@[i])@ == dictionaries@[i]@ by {
            assert(old(cfg).gui.dictionaries@[i].enabled == dictionaries@[i].enabled);
        }
    }
    if let SettingsStep::Done(change) = step {
        let want = settings_from(locale@, fonts@, dictionaries@, cache_dict);
        assert(settings_of(final(cfg).gui).dictionaries == want.dictionaries);
        assert(settings_of(final(cfg).gui).cache_dict == want.cache_dict);
        if change.reload_dictionaries && old(cfg).gui.cache_dict == cache_dict {
            assert(!same_dictionaries);
        }
        if !same_dictionaries {
            assert(config::paths(old(cfg).gui.dictionaries@) != config::paths(dictionaries@)) by {
                if config::paths(old(cfg).gui.dictionaries@) == config::paths(dictionaries@) {
                    assert forall|i: int| 0 <= i < dictionaries@.len() implies (#[trigger] old(
                        cfg).gui.dictionaries@[i]).enabled == dictionaries@[i].enabled && old(
                        cfg).gui.dictionaries@[i].path@ == dictionaries@[i].path@ by {
                        assert(old(cfg).gui.dictionaries@[i]@ == dictionaries@[i]@);
                    }
                }
            }
        }
    }
}

/// Fonts that were loaded are put to use together with the rest of the settings
/// that waited for them. Fonts that could not be loaded leave everything as it
/// was, and the reason is reported.
pub proof fn law_loaded_fonts_take_effect(
    cfg: &mut Configuration,
    pending: PendingSettings,
    outcome: Result<(), String>,
    same_dictionaries: bool,
    res: Result<SettingsChange, SettingsError>,
)
    requires
        same_dictionaries <==> (old(cfg).gui.dictionaries@.len() == pending.dictionaries@.len()
            && forall|i: int|
            0 <= i < pending.dictionaries@.len() ==> (#[trigger] old(
                cfg).gui.dictionaries@[i]).enabled == pending.dictionaries@[i].enabled && old(
                cfg).gui.dictionaries@[i].path@ == pending.dictionaries@[i].path@),
        call_ensures(fonts_loaded, (cfg, pending, outcome), res),
    ensures
        match (outcome, res) {
            (Ok(_), Ok(change)) => {
                &&& change.set_fonts
                &&& change.reload_dictionaries <==> !same_dictionaries || old(cfg).gui.cache_dict
                    != pending.cache_dict
                &&& final(cfg).gui.fonts@.len() == pending.fonts@.len()
                &&& forall|i: int|
                    0 <= i < pending.fonts@.len() ==> (#[trigger] final(cfg).gui.fonts@[i])@
                        == pending.fonts@[i]@
                &&& final(cfg).gui.dictionaries@.len() == pending.dictionaries@.len()
                &&& forall|i: int|
                    0 <= i < pending.dictionaries@.len() ==> (#[trigger] final(
                        cfg).gui.dictionaries@[i])@ == pending.dictionaries@[i]@
                &&& final(cfg).gui.cache_dict == pending.cache_dict
                &&& final(cfg).gui.lang@ == old(cfg).gui.lang@
                &&& final(cfg).gui.font_size == old(cfg).gui.font_size
                &&& final(cfg).gui.sidebar_size == old(cfg).gui.sidebar_size
                &&& final(cfg).render_han == old(cfg).render_han
                &&& final(cfg).dark_theme == old(cfg).dark_theme
                &&& final(cfg).current == old(cfg).current
                &&& final(cfg).history == old(cfg).history
            },
            (Err(reason), Err(error)) => {
                &&& *final(cfg) == *old(cfg)
                &&& error.title@ == "font-files"@
                &&& error.message@ == "invalid-path"@
                &&& error.detail@ == reason@
            },
            _ => false,
        },
{
    lemma_paths(old(cfg).gui.dictionaries@, pending.dictionaries@);
    lemma_paths(pending.dictionaries@, final(cfg).gui.dictionaries@);
    lemma_paths(pending.fonts@, final(cfg).gui.fonts@);
    if same_dictionaries {
        assert forall|i: int| 0 <= i < pending.dictionaries@.len() implies (#[trigger] old(
            cfg).gui.dictionaries@[i])@ == pending.dictionaries@[i]@ by {
            assert(old(cfg).gui.dictionaries@[i].enabled == pending.dictionaries@[i].enabled);
        }
    } else if config::paths(old(cfg).gui.dictionaries@) == config::paths(pending.dictionaries@) {
        assert forall|i: int| 0 <= i < pending.dictionaries@.len() implies (#[trigger] old(
            cfg).gui.dictionaries@[i]).enabled == pending.dictionaries@[i].enabled && old(
            cfg).gui.dictionaries@[i].path@ == pending.dictionaries@[i].path@ by {
            assert(old(cfg).gui.dictionaries@[i]@ == pending.dictionaries@[i]@);
        }
    }
    if let Ok(change) = res {
        let want = settings_from(
            old(cfg).gui.lang@,
            pending.fonts@,
            pending.dictionaries@,
            pending.cache_dict,
        );
        assert(settings_of(final(cfg).gui).dictionaries == want.dictionaries);
        assert(settings_of(final(cfg).gui).fonts == want.fonts);
        assert(settings_of(final(cfg).gui).cache_dict == want.cache_dict);
        assert(settings_of(final(cfg).gui).lang == want.lang);
    }
}

} // verus!

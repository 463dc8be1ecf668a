//! The colour theme: its configuration, its fallback, and the store that holds the
//! theme in effect.
use vstd::prelude::*;
use crate::paths::{config_base, config_dir, join, join_path, last_component, last_component_is, utf8};
use crate::text::{ends_with_str, ends_with_text, lex_sorted, occurs_at, remove_all, remove_all_str, sort_texts, views};

verus! {

/// A colour theme: base colours and an optional 16-colour terminal palette.
#[derive(Debug)]
pub struct ThemeConfig {
    pub bg_color: String,
    pub fg_color: String,
    pub accent_color: String,
    pub color0: Option<String>,
    pub color1: Option<String>,
    pub color2: Option<String>,
    pub color3: Option<String>,
    pub color4: Option<String>,
    pub color5: Option<String>,
    pub color6: Option<String>,
    pub color7: Option<String>,
    pub color8: Option<String>,
    pub color9: Option<String>,
    pub color10: Option<String>,
    pub color11: Option<String>,
    pub color12: Option<String>,
    pub color13: Option<String>,
    pub color14: Option<String>,
    pub color15: Option<String>,
}

/// A copy of an optional string.
pub fn clone_text_option(o: &Option<String>) -> (r: Option<String>)
    ensures
        r == *o,
{
    match o {
        Some(s) => Some(s.clone()),
        None => None,
    }
}

impl ThemeConfig {
    /// The 16 palette entries, `color0` first.
    pub open spec fn palette(&self) -> Seq<Option<String>> {
        seq![self.color0, self.color1, self.color2, self.color3, self.color4, self.color5, self.color6, self.color7, self.color8, self.color9, self.color10, self.color11, self.color12, self.color13, self.color14, self.color15]
    }

    /// Palette entry `i`.
    pub fn palette_color(&self, i: usize) -> (r: &Option<String>)
        requires
            i < 16,
        ensures
            *r == self.palette()[i as int],
    {
        match i {
            0 => &self.color0,
            1 => &self.color1,
            2 => &self.color2,
            3 => &self.color3,
            4 => &self.color4,
            5 => &self.color5,
            6 => &self.color6,
            7 => &self.color7,
            8 => &self.color8,
            9 => &self.color9,
            10 => &self.color10,
            11 => &self.color11,
            12 => &self.color12,
            13 => &self.color13,
            14 => &self.color14,
            _ => &self.color15,
        }
    }

    /// The fallback theme (Catppuccin Macchiato): its three base colours, and no palette.
    pub open spec fn is_fallback(&self) -> bool {
        &&& self.bg_color@ == "#24273a"@
        &&& self.fg_color@ == "#cad3f5"@
        &&& self.accent_color@ == "#8aadf4"@
        &&& forall|i: int| 0 <= i < 16 ==> self.palette()[i] is None
    }
}

impl Clone for ThemeConfig {
    fn clone(&self) -> (r: Self)
        ensures
            r == *self,
    {
        ThemeConfig {
            bg_color: self.bg_color.clone(),
            fg_color: self.fg_color.clone(),
            accent_color: self.accent_color.clone(),
            color0: clone_text_option(&self.color0),
            color1: clone_text_option(&self.color1),
            color2: clone_text_option(&self.color2),
            color3: clone_text_option(&self.color3),
            color4: clone_text_option(&self.color4),
            color5: clone_text_option(&self.color5),
            color6: clone_text_option(&self.color6),
            color7: clone_text_option(&self.color7),
            color8: clone_text_option(&self.color8),
            color9: clone_text_option(&self.color9),
            color10: clone_text_option(&self.color10),
            color11: clone_text_option(&self.color11),
            color12: clone_text_option(&self.color12),
            color13: clone_text_option(&self.color13),
            color14: clone_text_option(&self.color14),
            color15: clone_text_option(&self.color15),
        }
    }
}

impl Default for ThemeConfig {
    /// The theme in effect until a theme file has been read.
    fn default() -> (r: Self)
        ensures
            r.is_fallback(),
    {
        ThemeConfig {
            bg_color: String::from_str("#24273a"),
            fg_color: String::from_str("#cad3f5"),
            accent_color: String::from_str("#8aadf4"),
            color0: None,
            color1: None,
            color2: None,
            color3: None,
            color4: None,
            color5: None,
            color6: None,
            color7: None,
            color8: None,
            color9: None,
            color10: None,
            color11: None,
            color12: None,
            color13: None,
            color14: None,
            color15: None,
        }
    }
}

/// Holds the theme in effect.
pub struct ThemeStore {
    current: ThemeConfig,
}

/// The theme that `store` holds.
pub closed spec fn read_theme(store: ThemeStore) -> ThemeConfig {
    store.current
}

/// The store after `theme` has been written into `store`.
pub closed spec fn written_theme(store: ThemeStore, theme: ThemeConfig) -> ThemeStore {
    ThemeStore { current: theme }
}

impl ThemeStore {
    /// A store that holds the fallback theme.
    pub fn new() -> (s: Self)
        ensures
            read_theme(s).is_fallback(),
    {
        ThemeStore { current: ThemeConfig::default() }
    }

    /// Puts `theme` in effect.
    pub fn set_theme(&mut self, theme: ThemeConfig)
        ensures
            *final(self) == written_theme(*old(self), theme),
    {
        self.current = theme;
    }
}

/// The theme in effect.
pub fn get_theme(store: &ThemeStore) -> (t: ThemeConfig)
    ensures
        t == read_theme(*store),
{
    store.current.clone()
}

/// A read gives back the theme of the last write: `get_theme` on the store that
/// `set_theme(theme)` leaves returns `theme`, whatever the store held before.
pub proof fn law_read_after_write(store: ThemeStore, theme: ThemeConfig)
    ensures
        read_theme(written_theme(store, theme)) == theme,
{
}

/// The last write wins: writing `first` and then `second` leaves the same store as
/// writing `second` alone.
pub proof fn law_last_write_wins(store: ThemeStore, first: ThemeConfig, second: ThemeConfig)
    ensures
        written_theme(written_theme(store, first), second) == written_theme(store, second),
{
}

/// The theme file: `niri-quickshell/theme.toml` in the configuration directory.
pub open spec fn theme_file_path(config_dir: Option<Vec<u8>>) -> Seq<u8> {
    join_path(config_base(config_dir), utf8("niri-quickshell/theme.toml"@))
}

/// The directory of the selectable themes: `niri-quickshell/themes` in the
/// configuration directory.
pub open spec fn themes_dir_path(config_dir: Option<Vec<u8>>) -> Seq<u8> {
    join_path(config_base(config_dir), utf8("niri-quickshell/themes"@))
}

/// The theme file, given the configuration directory.
pub fn theme_path_in(config_dir: &Option<Vec<u8>>) -> (r: Vec<u8>)
    ensures
        r@ == theme_file_path(*config_dir),
{
    let base = crate::paths::base_dir(config_dir);
    join(base.as_slice(), "niri-quickshell/theme.toml".as_bytes())
}

/// The theme file in the user's configuration directory.
pub fn theme_path() -> (r: Vec<u8>)
    ensures
        exists|d: Option<Vec<u8>>| r@ == #[trigger] theme_file_path(d),
{
    let d = config_dir();
    theme_path_in(&d)
}

/// The directory of the selectable themes, given the configuration directory.
pub fn themes_dir_in(config_dir: &Option<Vec<u8>>) -> (r: Vec<u8>)
    ensures
        r@ == themes_dir_path(*config_dir),
{
    let base = crate::paths::base_dir(config_dir);
    join(base.as_slice(), "niri-quickshell/themes".as_bytes())
}

/// The directory of the selectable themes in the user's configuration directory.
pub fn themes_dir() -> (r: Vec<u8>)
    ensures
        exists|d: Option<Vec<u8>>| r@ == #[trigger] themes_dir_path(d),
{
    let d = config_dir();
    themes_dir_in(&d)
}

/// The predicate "ends with `.toml`".
pub open spec fn is_toml_name() -> spec_fn(Seq<char>) -> bool {
    |n: Seq<char>| ends_with_text(n, ".toml"@)
}

/// The name that a theme file is listed under: its file name with every `.toml` removed.
pub open spec fn listed_name() -> spec_fn(Seq<char>) -> Seq<char> {
    |n: Seq<char>| remove_all(n, ".toml"@)
}

/// The theme names that the files `file_names` offer, in the order of the files:
/// each name that ends with `.toml`, with every `.toml` removed.
pub open spec fn theme_names(file_names: Seq<Seq<char>>) -> Seq<Seq<char>> {
    file_names.filter(is_toml_name()).map_values(listed_name())
}

/// The selectable themes, from the names of the regular files in the themes directory:
/// those that end with `.toml`, with every `.toml` removed, in alphabetical order.
pub fn get_available_themes(file_names: &Vec<String>) -> (r: Vec<String>)
    ensures
        lex_sorted(views(r@)),
        views(r@).to_multiset() == theme_names(views(file_names@)).to_multiset(),
{
    let mut names: Vec<String> = Vec::new();
    let mut i: usize = 0;
    proof {
        reveal_strlit(".toml");
        assert(views(file_names@.take(0)) =~= Seq::<Seq<char>>::empty());
        assert(views(names@) =~= theme_names(views(file_names@.take(0))));
    }
    while i < file_names.len()
        invariant
            i <= file_names.len(),
            views(names@) == theme_names(views(file_names@.take(i as int))),
        decreases file_names.len() - i,
    {
        let ghost before = views(file_names@.take(i as int));
        let f = &file_names[i];
        proof {
            assert(views(file_names@.take(i + 1)) =~= before.push(f@));
            before.lemma_filter_push(f@, is_toml_name());
        }
        if ends_with_str(f.as_str(), ".toml") {
            proof { reveal_strlit(".toml"); }
            let n = remove_all_str(f.as_str(), ".toml");
            names.push(n);
            proof {
                let fl = before.filter(is_toml_name());
                assert(fl.push(f@).map_values(listed_name()) =~= fl.map_values(listed_name()).push(
                    remove_all(f@, ".toml"@),
                ));
                assert(views(names@) =~= views(names@.drop_last()).push(n@));
            }
        }
        i += 1;
    }
    assert(file_names@.take(i as int) == file_names@);
    sort_texts(&names)
}

proof fn lemma_remove_suffix(name: Seq<char>)
    requires
        forall|i: int| 0 <= i < name.len() ==> !occurs_at(name + ".toml"@, ".toml"@, i),
    ensures
        remove_all(name + ".toml"@, ".toml"@) == name,
    decreases name.len(),
{
    reveal_strlit(".toml");
    let pat = ".toml"@;
    let s = name + pat;
    if name.len() == 0 {
        assert(s =~= pat);
        assert(s.subrange(0, 5) =~= pat);
        assert(s.skip(5) =~= Seq::<char>::empty());
        assert(remove_all(Seq::<char>::empty(), pat) == Seq::<char>::empty());
    } else {
        assert(!occurs_at(s, pat, 0));
        let t = name.drop_first();
        assert(s.drop_first() =~= t + pat);
        assert forall|i: int| 0 <= i < t.len() implies !occurs_at(t + pat, pat, i) by {
            assert(!occurs_at(s, pat, i + 1));
            if i + 5 <= (t + pat).len() {
                assert((t + pat).subrange(i, i + 5) =~= s.subrange(i + 1, i + 6));
            }
        }
        lemma_remove_suffix(t);
        assert(seq![s[0]] + t =~= name);
    }
}

/// A theme is listed under the name it was saved as: the file `<name>.toml` is offered
/// as `name` (and `set_theme` with that name reads the same file, see
/// `law_theme_switch_reads_listed_dir`), unless `.toml` also occurs in the file name
/// starting within `name` (`a.toml.toml` is offered as `a`).
pub proof fn law_theme_file_listed_by_name(name: Seq<char>)
    requires
        forall|i: int| 0 <= i < name.len() ==> !occurs_at(name + ".toml"@, ".toml"@, i),
    ensures
        theme_names(seq![name + ".toml"@]) == seq![name],
{
    reveal_strlit(".toml");
    let f = name + ".toml"@;
    assert(f.skip(f.len() - 5) =~= ".toml"@);
    assert(ends_with_text(f, ".toml"@));
    lemma_remove_suffix(name);
    let one = seq![f];
    assert(one =~= Seq::<Seq<char>>::empty().push(f));
    Seq::<Seq<char>>::empty().lemma_filter_push(f, is_toml_name());
    assert(Seq::<Seq<char>>::empty().filter(is_toml_name()) =~= Seq::<Seq<char>>::empty()) by {
        reveal(Seq::filter);
    }
    assert(one.filter(is_toml_name()) =~= seq![f]);
    assert(seq![f].map_values(listed_name()) =~= seq![name]);
}

/// Whether a file-system event touches the theme file: it is a modification, and one
/// of its paths has `theme.toml` as last component.
pub fn is_theme_file_event(is_modify: bool, paths: &Vec<Vec<u8>>) -> (r: bool)
    ensures
        r == (is_modify && exists|i: int|
            0 <= i < paths@.len() && last_component(#[trigger] paths@[i]@) == utf8("theme.toml"@)),
{
    if !is_modify {
        return false;
    }
    let name = "theme.toml".as_bytes();
    let mut i: usize = 0;
    while i < paths.len()
        invariant
            is_modify,
            name@ == utf8("theme.toml"@),
            i <= paths.len(),
            forall|j: int| 0 <= j < i ==> last_component(#[trigger] paths@[j]@) != utf8("theme.toml"@),
        decreases paths.len() - i,
    {
        if last_component_is(paths[i].as_slice(), name) {
            assert(last_component(paths@[i as int]@) == utf8("theme.toml"@));
            return true;
        }
        i += 1;
    }
    false
}

/// Facts about the bytes of the path parts that the theme paths are made of.
proof fn lemma_theme_literals()
    ensures
        utf8("niri-quickshell/theme.toml"@) == utf8("niri-quickshell"@) + seq![crate::paths::slash()] + utf8("theme.toml"@),
        utf8("niri-quickshell/themes"@) == utf8("niri-quickshell"@) + seq![crate::paths::slash()] + utf8("themes"@),
        utf8("niri-quickshell"@).len() > 0,
        utf8("niri-quickshell"@)[0] != crate::paths::slash(),
        utf8("niri-quickshell"@).last() != crate::paths::slash(),
        utf8("theme.toml"@).len() > 0,
        utf8("theme.toml"@)[0] != crate::paths::slash(),
        utf8("theme.toml"@) != seq![46u8],
        forall|i: int| 0 <= i < utf8("theme.toml"@).len() ==> utf8("theme.toml"@)[i] != crate::paths::slash(),
        utf8("themes"@).len() > 0,
        utf8("themes"@)[0] != crate::paths::slash(),
{
    reveal_strlit("niri-quickshell/theme.toml");
    reveal_strlit("niri-quickshell/themes");
    reveal_strlit("niri-quickshell");
    reveal_strlit("theme.toml");
    reveal_strlit("themes");
    assert(vstd::utf8::is_ascii_chars("niri-quickshell/theme.toml"@));
    assert(vstd::utf8::is_ascii_chars("niri-quickshell/themes"@));
    assert(vstd::utf8::is_ascii_chars("niri-quickshell"@));
    assert(vstd::utf8::is_ascii_chars("theme.toml"@));
    assert(vstd::utf8::is_ascii_chars("themes"@));
    crate::paths::lemma_ascii_utf8("niri-quickshell/theme.toml"@);
    crate::paths::lemma_ascii_utf8("niri-quickshell/themes"@);
    crate::paths::lemma_ascii_utf8("niri-quickshell"@);
    crate::paths::lemma_ascii_utf8("theme.toml"@);
    crate::paths::lemma_ascii_utf8("themes"@);
    assert(utf8("niri-quickshell/theme.toml"@) =~= utf8("niri-quickshell"@) + seq![crate::paths::slash()] + utf8("theme.toml"@));
    assert(utf8("niri-quickshell/themes"@) =~= utf8("niri-quickshell"@) + seq![crate::paths::slash()] + utf8("themes"@));
    assert(utf8("theme.toml"@).len() != 1);
}

/// A change to the theme file is seen by the watcher: whatever the configuration
/// directory, the last component of the theme file's path is `theme.toml`.
pub proof fn law_theme_file_is_watched(config_dir: Option<Vec<u8>>)
    ensures
        last_component(theme_file_path(config_dir)) == utf8("theme.toml"@),
{
    lemma_theme_literals();
    let base = config_base(config_dir);
    crate::paths::lemma_join_join(base, utf8("niri-quickshell"@), utf8("theme.toml"@));
    let x = crate::paths::app_dir(config_dir);
    assert(x.last() == utf8("niri-quickshell"@).last());
    assert(join_path(x, utf8("theme.toml"@)) =~= x + seq![crate::paths::slash()] + utf8("theme.toml"@));
    crate::paths::lemma_last_component_of_join(x, utf8("theme.toml"@));
}

/// The theme file is `theme.toml` in the shell's directory, and the themes directory
/// is `themes` there.
pub proof fn lemma_theme_paths_in_app_dir(config_dir: Option<Vec<u8>>)
    ensures
        theme_file_path(config_dir) == join_path(crate::paths::app_dir(config_dir), utf8("theme.toml"@)),
        themes_dir_path(config_dir) == join_path(crate::paths::app_dir(config_dir), utf8("themes"@)),
{
    lemma_theme_literals();
    let base = config_base(config_dir);
    crate::paths::lemma_join_join(base, utf8("niri-quickshell"@), utf8("theme.toml"@));
    crate::paths::lemma_join_join(base, utf8("niri-quickshell"@), utf8("themes"@));
}

/// What a newly read theme is exported as: the files for fuzzel, ghostty and niri.
pub struct ThemeExports {
    pub fuzzel: crate::modules::exporter::ExportPlan,
    pub ghostty: crate::modules::exporter::ExportPlan,
    pub niri: crate::modules::exporter::ExportPlan,
}

/// Puts a newly read theme in effect and gives its exports, in the configuration
/// directory `config_dir`.
pub fn load_theme_in(store: &mut ThemeStore, theme: ThemeConfig, config_dir: &Option<Vec<u8>>) -> (r: ThemeExports)
    ensures
        read_theme(*final(store)) == theme,
        crate::modules::exporter::is_fuzzel_export(
            r.fuzzel,
            crate::modules::exporter::export_dir(*config_dir, "niri-quickshell/fuzzel"@),
            theme,
        ),
        crate::modules::exporter::is_ghostty_export(
            r.ghostty,
            crate::modules::exporter::export_dir(*config_dir, "niri-quickshell/ghostty"@),
            theme,
        ),
        crate::modules::exporter::is_niri_export(
            r.niri,
            crate::modules::exporter::export_dir(*config_dir, "niri-quickshell/niri"@),
            theme,
        ),
{
    let fuzzel = crate::modules::exporter::fuzzel_export(config_dir, &theme);
    let ghostty = crate::modules::exporter::ghostty_export(config_dir, &theme);
    let niri = crate::modules::exporter::niri_export(config_dir, &theme);
    store.set_theme(theme);
    ThemeExports { fuzzel, ghostty, niri }
}

/// Puts a newly read theme in effect and gives its exports, in the user's
/// configuration directory.
pub fn load_theme(store: &mut ThemeStore, theme: ThemeConfig) -> (r: ThemeExports)
    ensures
        read_theme(*final(store)) == theme,
        exists|d: Option<Vec<u8>>|
            crate::modules::exporter::is_fuzzel_export(
                r.fuzzel,
                #[trigger] crate::modules::exporter::export_dir(d, "niri-quickshell/fuzzel"@),
                theme,
            ),
        exists|d: Option<Vec<u8>>|
            crate::modules::exporter::is_ghostty_export(
                r.ghostty,
                #[trigger] crate::modules::exporter::export_dir(d, "niri-quickshell/ghostty"@),
                theme,
            ),
        exists|d: Option<Vec<u8>>|
            crate::modules::exporter::is_niri_export(
                r.niri,
                #[trigger] crate::modules::exporter::export_dir(d, "niri-quickshell/niri"@),
                theme,
            ),
{
    let d = config_dir();
    load_theme_in(store, theme, &d)
}

} // verus!

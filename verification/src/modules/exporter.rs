//! The colour files that other programs read: the theme's colours written out for
//! fuzzel, ghostty and niri, and where each file goes.
use vstd::prelude::*;
use crate::modules::theme::ThemeConfig;
use crate::paths::{config_base, config_dir, join, join_path, utf8};
use crate::text::{contains_text, decimal, occurs_at, push_decimal, remove_char, without_char};

verus! {

/// One file to write: where, what, and whether a file already there is left alone.
pub struct FileWrite {
    pub path: Vec<u8>,
    pub content: String,
    pub keep_existing: bool,
}

/// The files of one export and the directory that holds them (created when missing).
pub struct ExportPlan {
    pub dir: Vec<u8>,
    pub files: Vec<FileWrite>,
}

/// `f` writes `content` to `dir`/`name`, keeping an existing file when `keep`.
pub open spec fn writes(f: FileWrite, dir: Seq<u8>, name: Seq<char>, content: Seq<char>, keep: bool) -> bool {
    &&& f.path@ == join_path(dir, utf8(name))
    &&& f.content@ == content
    &&& f.keep_existing == keep
}

/// fuzzel's main configuration, written only when none exists yet.
pub open spec fn fuzzel_default_config() -> Seq<char> {
    "[main]\nfont=monospace:size=14\nprompt=\"> \"\nterminal=ghostty\nlayer=overlay\nlines=10\nwidth=40\nhorizontal-pad=20\nvertical-pad=15\ninner-pad=5\n\n# Lade die von Quickshell generierten Farben\ninclude=~/.config/niri-quickshell/fuzzel/colors.ini\n"@
}

/// fuzzel's colour file: the colours without `#`, as RRGGBBAA, the background slightly
/// transparent (alpha `e6`), everything else opaque (`ff`).
pub open spec fn fuzzel_colors(theme: ThemeConfig) -> Seq<char> {
    let bg = without_char(theme.bg_color@, '#');
    let fg = without_char(theme.fg_color@, '#');
    let accent = without_char(theme.accent_color@, '#');
    "[colors]\nbackground="@ + bg + "e6\ntext="@ + fg + "ff\nmatch="@ + accent + "ff\nselection="@ + accent + "ff\nselection-text="@ + bg + "ff\nborder="@ + accent + "ff"@
}

/// One palette line of ghostty's colour file: `palette = i=colour`, nothing when the
/// entry is absent.
pub open spec fn palette_line(entry: Option<String>, i: nat) -> Seq<char> {
    match entry {
        Some(c) => "palette = "@ + decimal(i) + "="@ + c@ + "\n"@,
        None => Seq::empty(),
    }
}

/// The palette lines of the first `n` entries of `palette`, in order.
pub open spec fn palette_lines(palette: Seq<Option<String>>, n: nat) -> Seq<char>
    decreases n,
{
    if n == 0 {
        Seq::empty()
    } else {
        palette_lines(palette, (n - 1) as nat) + palette_line(palette[n - 1], (n - 1) as nat)
    }
}

/// ghostty's colour file: the base colours, a blank line, then one line for each
/// palette entry that the theme sets.
pub open spec fn ghostty_colors(theme: ThemeConfig) -> Seq<char> {
    let bgr = theme.bg_color@;
    let fgr = theme.fg_color@;
    let accentr = theme.accent_color@;
    "background = "@ + bgr + "\nforeground = "@ + fgr + "\nselection-background = "@ + accentr + "\nselection-foreground = "@ + bgr + "\n\n"@ + palette_lines(theme.palette(), 16)
}

/// The palette lines of the first `b` entries begin with those of the first `a`.
proof fn lemma_palette_lines_extend(palette: Seq<Option<String>>, a: nat, b: nat) -> (rest: Seq<char>)
    requires
        a <= b,
    ensures
        palette_lines(palette, b) == palette_lines(palette, a) + rest,
    decreases b,
{
    if a == b {
        assert(palette_lines(palette, b) =~= palette_lines(palette, a) + Seq::<char>::empty());
        Seq::<char>::empty()
    } else {
        let r = lemma_palette_lines_extend(palette, a, (b - 1) as nat);
        let rest = r + palette_line(palette[b - 1], (b - 1) as nat);
        assert(palette_lines(palette, b) =~= palette_lines(palette, a) + rest);
        rest
    }
}

/// Every palette entry that the theme sets, of all 16, has its line in ghostty's colour
/// file: `palette = <i>=<colour>`.
pub proof fn law_ghostty_lists_every_set_entry(theme: ThemeConfig, i: int)
    requires
        0 <= i < 16,
        theme.palette()[i] is Some,
    ensures
        contains_text(
            ghostty_colors(theme),
            "palette = "@ + decimal(i as nat) + "="@ + (theme.palette()[i]->0)@ + "\n"@,
        ),
{
    let p = theme.palette();
    let line = "palette = "@ + decimal(i as nat) + "="@ + (p[i]->0)@ + "\n"@;
    let head = "background = "@ + theme.bg_color@ + "\nforeground = "@ + theme.fg_color@
        + "\nselection-background = "@ + theme.accent_color@ + "\nselection-foreground = "@
        + theme.bg_color@ + "\n\n"@;
    let rest = lemma_palette_lines_extend(p, (i + 1) as nat, 16);
    assert(palette_line(p[i], i as nat) == line);
    assert(palette_lines(p, (i + 1) as nat) == palette_lines(p, i as nat) + line);
    let before = head + palette_lines(p, i as nat);
    let whole = ghostty_colors(theme);
    assert(whole =~= before + line + rest);
    let off = before.len() as int;
    assert(whole.subrange(off, off + line.len()) =~= line);
    assert(occurs_at(whole, line, off));
}

/// The palette lines come in the order of the entries: for set entries `i < j`, the line
/// of entry `i` stands before the line of entry `j` in ghostty's colour file.
pub proof fn law_ghostty_palette_in_order(theme: ThemeConfig, i: int, j: int)
    requires
        0 <= i < j < 16,
        theme.palette()[i] is Some,
        theme.palette()[j] is Some,
    ensures
        exists|a: int, b: int|
            #![trigger occurs_at(
                ghostty_colors(theme),
                "palette = "@ + decimal(i as nat) + "="@ + (theme.palette()[i]->0)@ + "\n"@,
                a,
            ), occurs_at(
                ghostty_colors(theme),
                "palette = "@ + decimal(j as nat) + "="@ + (theme.palette()[j]->0)@ + "\n"@,
                b,
            )]
            a < b && occurs_at(
                ghostty_colors(theme),
                "palette = "@ + decimal(i as nat) + "="@ + (theme.palette()[i]->0)@ + "\n"@,
                a,
            ) && occurs_at(
                ghostty_colors(theme),
                "palette = "@ + decimal(j as nat) + "="@ + (theme.palette()[j]->0)@ + "\n"@,
                b,
            ),
{
    let p = theme.palette();
    let li = "palette = "@ + decimal(i as nat) + "="@ + (p[i]->0)@ + "\n"@;
    let lj = "palette = "@ + decimal(j as nat) + "="@ + (p[j]->0)@ + "\n"@;
    let head = "background = "@ + theme.bg_color@ + "\nforeground = "@ + theme.fg_color@
        + "\nselection-background = "@ + theme.accent_color@ + "\nselection-foreground = "@
        + theme.bg_color@ + "\n\n"@;
    let mid = lemma_palette_lines_extend(p, (i + 1) as nat, j as nat);
    let rest = lemma_palette_lines_extend(p, (j + 1) as nat, 16);
    assert(palette_line(p[i], i as nat) == li);
    assert(palette_line(p[j], j as nat) == lj);
    assert(palette_lines(p, (i + 1) as nat) == palette_lines(p, i as nat) + li);
    assert(palette_lines(p, (j + 1) as nat) == palette_lines(p, j as nat) + lj);
    let before = head + palette_lines(p, i as nat);
    let whole = ghostty_colors(theme);
    assert(whole =~= before + li + mid + lj + rest);
    let a = before.len() as int;
    let b = a + li.len() + mid.len();
    assert(whole.subrange(a, a + li.len()) =~= li);
    assert(whole.subrange(b, b + lj.len()) =~= lj);
    assert(occurs_at(whole, li, a));
    assert(occurs_at(whole, lj, b));
}

proof fn lemma_no_palette_lines(palette: Seq<Option<String>>, n: nat)
    requires
        n <= palette.len(),
        forall|i: int| 0 <= i < n ==> palette[i] is None,
    ensures
        palette_lines(palette, n) == Seq::<char>::empty(),
    decreases n,
{
    if n > 0 {
        lemma_no_palette_lines(palette, (n - 1) as nat);
        assert(palette_lines(palette, n) =~= Seq::<char>::empty());
    }
}

/// A theme that sets no palette entry (the fallback theme, for one) gives a ghostty
/// colour file that holds the base colours alone: background, foreground, selection
/// background and selection foreground, then a blank line.
pub proof fn law_ghostty_without_palette(theme: ThemeConfig)
    requires
        forall|i: int| 0 <= i < 16 ==> theme.palette()[i] is None,
    ensures
        ghostty_colors(theme) == "background = "@ + theme.bg_color@ + "\nforeground = "@
            + theme.fg_color@ + "\nselection-background = "@ + theme.accent_color@
            + "\nselection-foreground = "@ + theme.bg_color@ + "\n\n"@,
{
    lemma_no_palette_lines(theme.palette(), 16);
    let head = "background = "@ + theme.bg_color@ + "\nforeground = "@ + theme.fg_color@
        + "\nselection-background = "@ + theme.accent_color@ + "\nselection-foreground = "@
        + theme.bg_color@ + "\n\n"@;
    assert(head + Seq::<char>::empty() =~= head);
}

/// niri's colour file: focus ring and border in the accent colour when active, in the
/// background colour when inactive.
pub open spec fn niri_colors(theme: ThemeConfig) -> Seq<char> {
    let bgr = theme.bg_color@;
    let accentr = theme.accent_color@;
    "layout {\n    focus-ring {\n        active-color \""@ + accentr + "\"\n        inactive-color \""@ + bgr + "\"\n    }\n    border {\n        active-color \""@ + accentr + "\"\n        inactive-color \""@ + bgr + "\"\n    }\n}"@
}

/// The text of fuzzel's main configuration.
pub fn fuzzel_default_text() -> (r: String)
    ensures
        r@ == fuzzel_default_config(),
{
    String::from_str("[main]\nfont=monospace:size=14\nprompt=\"> \"\nterminal=ghostty\nlayer=overlay\nlines=10\nwidth=40\nhorizontal-pad=20\nvertical-pad=15\ninner-pad=5\n\n# Lade die von Quickshell generierten Farben\ninclude=~/.config/niri-quickshell/fuzzel/colors.ini\n")
}

/// The text of fuzzel's colour file for `theme`.
pub fn fuzzel_colors_text(theme: &ThemeConfig) -> (r: String)
    ensures
        r@ == fuzzel_colors(*theme),
{
    let bg = remove_char(theme.bg_color.as_str(), '#');
    let fg = remove_char(theme.fg_color.as_str(), '#');
    let accent = remove_char(theme.accent_color.as_str(), '#');
    let mut r = String::from_str("[colors]\nbackground=");
    r.append(bg.as_str());
    r.append("e6\ntext=");
    r.append(fg.as_str());
    r.append("ff\nmatch=");
    r.append(accent.as_str());
    r.append("ff\nselection=");
    r.append(accent.as_str());
    r.append("ff\nselection-text=");
    r.append(bg.as_str());
    r.append("ff\nborder=");
    r.append(accent.as_str());
    r.append("ff");
    r
}

/// The text of ghostty's colour file for `theme`.
pub fn ghostty_colors_text(theme: &ThemeConfig) -> (r: String)
    ensures
        r@ == ghostty_colors(*theme),
{
    let bgr = &theme.bg_color;
    let fgr = &theme.fg_color;
    let accentr = &theme.accent_color;
    let mut r = String::from_str("background = ");
    r.append(bgr.as_str());
    r.append("\nforeground = ");
    r.append(fgr.as_str());
    r.append("\nselection-background = ");
    r.append(accentr.as_str());
    r.append("\nselection-foreground = ");
    r.append(bgr.as_str());
    r.append("\n\n");
    let ghost head = r@;
    let mut i: usize = 0;
    while i < 16
        invariant
            i <= 16,
            r@ == head + palette_lines(theme.palette(), i as nat),
        decreases 16 - i,
    {
        if let Some(c) = theme.palette_color(i) {
            r.append("palette = ");
            push_decimal(&mut r, i as u64);
            r.append("=");
            r.append(c.as_str());
            r.append("\n");
        }
        i += 1;
    }
    r
}

/// The text of niri's colour file for `theme`.
pub fn niri_colors_text(theme: &ThemeConfig) -> (r: String)
    ensures
        r@ == niri_colors(*theme),
{
    let bgr = &theme.bg_color;
    let accentr = &theme.accent_color;
    let mut r = String::from_str("layout {\n    focus-ring {\n        active-color \"");
    r.append(accentr.as_str());
    r.append("\"\n        inactive-color \"");
    r.append(bgr.as_str());
    r.append("\"\n    }\n    border {\n        active-color \"");
    r.append(accentr.as_str());
    r.append("\"\n        inactive-color \"");
    r.append(bgr.as_str());
    r.append("\"\n    }\n}");
    r
}

/// `plan` exports `theme` for fuzzel into the directory `dir`: the main configuration
/// (kept when present) and the colour file (always rewritten).
pub open spec fn is_fuzzel_export(plan: ExportPlan, dir: Seq<u8>, theme: ThemeConfig) -> bool {
    &&& plan.dir@ == dir
    &&& plan.files@.len() == 2
    &&& writes(plan.files@[0], dir, "fuzzel.ini"@, fuzzel_default_config(), true)
    &&& writes(plan.files@[1], dir, "colors.ini"@, fuzzel_colors(theme), false)
}

/// `plan` exports `theme` for ghostty into `dir`: the colour file `colors`.
pub open spec fn is_ghostty_export(plan: ExportPlan, dir: Seq<u8>, theme: ThemeConfig) -> bool {
    &&& plan.dir@ == dir
    &&& plan.files@.len() == 1
    &&& writes(plan.files@[0], dir, "colors"@, ghostty_colors(theme), false)
}

/// `plan` exports `theme` for niri into `dir`: the colour file `colors.kdl`.
pub open spec fn is_niri_export(plan: ExportPlan, dir: Seq<u8>, theme: ThemeConfig) -> bool {
    &&& plan.dir@ == dir
    &&& plan.files@.len() == 1
    &&& writes(plan.files@[0], dir, "colors.kdl"@, niri_colors(theme), false)
}

/// The directory of a program's exported files: `sub_dir` (such as
/// `niri-quickshell/fuzzel`) in the configuration directory.
pub open spec fn export_dir(config_dir: Option<Vec<u8>>, sub_dir: Seq<char>) -> Seq<u8> {
    join_path(config_base(config_dir), utf8(sub_dir))
}

/// The fuzzel export of `theme`, given the configuration directory.
pub fn fuzzel_export(config_dir: &Option<Vec<u8>>, theme: &ThemeConfig) -> (plan: ExportPlan)
    ensures
        is_fuzzel_export(plan, export_dir(*config_dir, "niri-quickshell/fuzzel"@), *theme),
{
    let base = crate::paths::base_dir(config_dir);
    let dir = join(base.as_slice(), "niri-quickshell/fuzzel".as_bytes());
    let config = FileWrite { path: join(dir.as_slice(), "fuzzel.ini".as_bytes()), content: fuzzel_default_text(), keep_existing: true };
    let colors = FileWrite { path: join(dir.as_slice(), "colors.ini".as_bytes()), content: fuzzel_colors_text(theme), keep_existing: false };
    let mut files = Vec::new();
    files.push(config);
    files.push(colors);
    ExportPlan { dir, files }
}

/// The ghostty export of `theme`, given the configuration directory.
pub fn ghostty_export(config_dir: &Option<Vec<u8>>, theme: &ThemeConfig) -> (plan: ExportPlan)
    ensures
        is_ghostty_export(plan, export_dir(*config_dir, "niri-quickshell/ghostty"@), *theme),
{
    let base = crate::paths::base_dir(config_dir);
    let dir = join(base.as_slice(), "niri-quickshell/ghostty".as_bytes());
    let colors = FileWrite { path: join(dir.as_slice(), "colors".as_bytes()), content: ghostty_colors_text(theme), keep_existing: false };
    let mut files = Vec::new();
    files.push(colors);
    ExportPlan { dir, files }
}

/// The niri export of `theme`, given the configuration directory.
pub fn niri_export(config_dir: &Option<Vec<u8>>, theme: &ThemeConfig) -> (plan: ExportPlan)
    ensures
        is_niri_export(plan, export_dir(*config_dir, "niri-quickshell/niri"@), *theme),
{
    let base = crate::paths::base_dir(config_dir);
    let dir = join(base.as_slice(), "niri-quickshell/niri".as_bytes());
    let colors = FileWrite { path: join(dir.as_slice(), "colors.kdl".as_bytes()), content: niri_colors_text(theme), keep_existing: false };
    let mut files = Vec::new();
    files.push(colors);
    ExportPlan { dir, files }
}

/// Exports `theme` for fuzzel into the user's configuration directory.
pub fn export_fuzzel(theme: &ThemeConfig) -> (plan: ExportPlan)
    ensures
        exists|d: Option<Vec<u8>>| is_fuzzel_export(plan, #[trigger] export_dir(d, "niri-quickshell/fuzzel"@), *theme),
{
    let d = config_dir();
    fuzzel_export(&d, theme)
}

/// Exports `theme` for ghostty into the user's configuration directory.
pub fn export_ghostty(theme: &ThemeConfig) -> (plan: ExportPlan)
    ensures
        exists|d: Option<Vec<u8>>| is_ghostty_export(plan, #[trigger] export_dir(d, "niri-quickshell/ghostty"@), *theme),
{
    let d = config_dir();
    ghostty_export(&d, theme)
}

/// Exports `theme` for niri into the user's configuration directory.
pub fn export_niri(theme: &ThemeConfig) -> (plan: ExportPlan)
    ensures
        exists|d: Option<Vec<u8>>| is_niri_export(plan, #[trigger] export_dir(d, "niri-quickshell/niri"@), *theme),
{
    let d = config_dir();
    niri_export(&d, theme)
}

} // verus!

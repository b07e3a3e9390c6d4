//! The theme domain: what the app can look like. `Theme` is the persisted
//! appearance state (a field of `config::Config`), `PresetPalette` is the
//! palette-only slice that presets apply, and `presets()` is the gallery.

use vstd::prelude::*;

verus! {

/// The mascot artwork variant. `Auto` picks ink by background brightness;
/// the others override it.
#[derive(Debug, Clone, Copy, PartialEq, Eq, Structural)]
pub enum MascotStyle {
    Auto,
    Dark,
    Light,
    Filled,
}

impl Default for MascotStyle {
    fn default() -> (r: Self)
        ensures
            r == MascotStyle::Auto,
    {
        MascotStyle::Auto
    }
}

/// Curated theme; the settings UI derives every remaining shade from these,
/// so any combination stays cohesive.
#[derive(Debug, Clone)]
pub struct Theme {
    pub accent: [u8; 3],
    pub background: [u8; 3],
    pub text: [u8; 3],
    /// Resting border around inputs and buttons.
    pub border: [u8; 3],
    /// The sliding square inside the on/off toggles.
    pub knob: [u8; 3],
    pub corner_radius: u8,
    /// Remove the OS window border; the app draws its own title bar.
    pub borderless: bool,
    /// Optional background image path (empty = none).
    pub background_image: String,
    /// Canvas opacity, 0..=255; widgets stay solid.
    pub window_opacity: u8,
    /// Windows 11's accent-colored focus border around the window.
    pub focus_outline: bool,
    /// Blur the desktop seen through the canvas.
    pub blur: bool,
    /// Alternate-row shading in the snippet table.
    pub row_stripes: bool,
    /// Which bowl face the header and empty state wear.
    pub mascot: MascotStyle,
}

/// The mathematical value of a `Theme`: its fields, with the image path as
/// a character sequence.
pub struct ThemeView {
    pub accent: [u8; 3],
    pub background: [u8; 3],
    pub text: [u8; 3],
    pub border: [u8; 3],
    pub knob: [u8; 3],
    pub corner_radius: u8,
    pub borderless: bool,
    pub background_image: Seq<char>,
    pub window_opacity: u8,
    pub focus_outline: bool,
    pub blur: bool,
    pub row_stripes: bool,
    pub mascot: MascotStyle,
}

impl View for Theme {
    type V = ThemeView;

    open spec fn view(&self) -> ThemeView {
        ThemeView {
            accent: self.accent,
            background: self.background,
            text: self.text,
            border: self.border,
            knob: self.knob,
            corner_radius: self.corner_radius,
            borderless: self.borderless,
            background_image: self.background_image@,
            window_opacity: self.window_opacity,
            focus_outline: self.focus_outline,
            blur: self.blur,
            row_stripes: self.row_stripes,
            mascot: self.mascot,
        }
    }
}

/// A preset is a palette (five colors plus a corner radius) and nothing
/// more: applying one cannot touch window behavior, because a palette has
/// no such fields.
#[derive(Debug, Clone, Copy)]
pub struct PresetPalette {
    pub accent: [u8; 3],
    pub background: [u8; 3],
    pub text: [u8; 3],
    pub border: [u8; 3],
    pub knob: [u8; 3],
    pub corner_radius: u8,
}

/// The palette slice of a theme.
pub open spec fn palette_of(t: ThemeView) -> PresetPalette {
    PresetPalette {
        accent: t.accent,
        background: t.background,
        text: t.text,
        border: t.border,
        knob: t.knob,
        corner_radius: t.corner_radius,
    }
}

/// `t` with its palette replaced by `p`; every window setting is kept.
pub open spec fn with_palette(t: ThemeView, p: PresetPalette) -> ThemeView {
    ThemeView {
        accent: p.accent,
        background: p.background,
        text: p.text,
        border: p.border,
        knob: p.knob,
        corner_radius: p.corner_radius,
        ..t
    }
}

/// Perceived brightness in thousandths: 299 R + 587 G + 114 B (Rec. 601
/// weights scaled by 1000, so the test is exact in integers).
pub open spec fn luma_milli(c: [u8; 3]) -> int {
    299 * (c[0] as int) + 587 * (c[1] as int) + 114 * (c[2] as int)
}

/// Text and background differ in brightness by at least 120 (on the
/// 0..=255 luma scale).
pub open spec fn is_readable(p: PresetPalette) -> bool {
    let d = luma_milli(p.text) - luma_milli(p.background);
    d >= 120_000 || d <= -120_000
}

pub open spec fn rgb(r: u8, g: u8, b: u8) -> [u8; 3] {
    [r, g, b]
}

pub open spec fn palette_spec(
    accent: [u8; 3],
    background: [u8; 3],
    text: [u8; 3],
    border: [u8; 3],
    knob: [u8; 3],
    corner_radius: u8,
) -> PresetPalette {
    PresetPalette { accent, background, text, border, knob, corner_radius }
}

/// The default look, shared by `Theme::default()` and the "Default" card.
pub open spec fn default_palette_spec() -> PresetPalette {
    palette_spec(
        rgb(242, 183, 53),
        rgb(27, 27, 27),
        rgb(222, 222, 222),
        rgb(58, 58, 58),
        rgb(235, 235, 235),
        4,
    )
}

/// The `k`-th preset of the gallery (name, palette).
pub open spec fn preset_spec(k: int) -> (Seq<char>, PresetPalette) {
    if k == 0 {
        ("Default"@, default_palette_spec())
    } else if k == 1 {
        (
            "Sakura"@,
            palette_spec(
                rgb(178, 88, 118),
                rgb(251, 236, 232),
                rgb(86, 33, 53),
                rgb(228, 180, 190),
                rgb(255, 249, 247),
                5,
            ),
        )
    } else if k == 2 {
        (
            "Candy"@,
            palette_spec(
                rgb(255, 111, 181),
                rgb(255, 233, 243),
                rgb(90, 34, 70),
                rgb(245, 184, 216),
                rgb(255, 255, 255),
                10,
            ),
        )
    } else if k == 3 {
        (
            "Cosmic"@,
            palette_spec(
                rgb(141, 124, 238),
                rgb(18, 14, 40),
                rgb(232, 230, 244),
                rgb(72, 60, 120),
                rgb(235, 232, 250),
                6,
            ),
        )
    } else if k == 4 {
        (
            "Sentinel"@,
            palette_spec(
                rgb(255, 171, 64),
                rgb(22, 27, 34),
                rgb(206, 216, 226),
                rgb(56, 68, 82),
                rgb(228, 234, 240),
                2,
            ),
        )
    } else if k == 5 {
        (
            "GoW"@,
            palette_spec(
                rgb(196, 30, 35),
                rgb(16, 13, 13),
                rgb(214, 205, 200),
                rgb(72, 46, 46),
                rgb(226, 216, 212),
                3,
            ),
        )
    } else if k == 6 {
        (
            "Halo"@,
            palette_spec(
                rgb(80, 125, 42),
                rgb(18, 24, 16),
                rgb(212, 220, 208),
                rgb(58, 72, 48),
                rgb(255, 196, 80),
                4,
            ),
        )
    } else if k == 7 {
        (
            "League"@,
            palette_spec(
                rgb(200, 155, 60),
                rgb(10, 20, 40),
                rgb(240, 230, 210),
                rgb(120, 90, 40),
                rgb(240, 230, 210),
                4,
            ),
        )
    } else if k == 8 {
        (
            "Strawberry"@,
            palette_spec(
                rgb(224, 66, 84),
                rgb(255, 243, 240),
                rgb(108, 26, 38),
                rgb(244, 190, 190),
                rgb(255, 251, 245),
                8,
            ),
        )
    } else {
        (
            "Coffee"@,
            palette_spec(
                rgb(216, 160, 120),
                rgb(43, 30, 22),
                rgb(244, 238, 228),
                rgb(94, 70, 54),
                rgb(246, 241, 233),
                6,
            ),
        )
    }
}

/// The gallery, card by card: each name with its own palette, in display
/// order (colors as RGB triples).
pub proof fn law_gallery_table()
    ensures
        preset_spec(0).0 == "Default"@ && preset_spec(0).1 == (PresetPalette { accent: [242, 183, 53], background: [27, 27, 27], text: [222, 222, 222], border: [58, 58, 58], knob: [235, 235, 235], corner_radius: 4 }),
        preset_spec(1).0 == "Sakura"@ && preset_spec(1).1 == (PresetPalette { accent: [178, 88, 118], background: [251, 236, 232], text: [86, 33, 53], border: [228, 180, 190], knob: [255, 249, 247], corner_radius: 5 }),
        preset_spec(2).0 == "Candy"@ && preset_spec(2).1 == (PresetPalette { accent: [255, 111, 181], background: [255, 233, 243], text: [90, 34, 70], border: [245, 184, 216], knob: [255, 255, 255], corner_radius: 10 }),
        preset_spec(3).0 == "Cosmic"@ && preset_spec(3).1 == (PresetPalette { accent: [141, 124, 238], background: [18, 14, 40], text: [232, 230, 244], border: [72, 60, 120], knob: [235, 232, 250], corner_radius: 6 }),
        preset_spec(4).0 == "Sentinel"@ && preset_spec(4).1 == (PresetPalette { accent: [255, 171, 64], background: [22, 27, 34], text: [206, 216, 226], border: [56, 68, 82], knob: [228, 234, 240], corner_radius: 2 }),
        preset_spec(5).0 == "GoW"@ && preset_spec(5).1 == (PresetPalette { accent: [196, 30, 35], background: [16, 13, 13], text: [214, 205, 200], border: [72, 46, 46], knob: [226, 216, 212], corner_radius: 3 }),
        preset_spec(6).0 == "Halo"@ && preset_spec(6).1 == (PresetPalette { accent: [80, 125, 42], background: [18, 24, 16], text: [212, 220, 208], border: [58, 72, 48], knob: [255, 196, 80], corner_radius: 4 }),
        preset_spec(7).0 == "League"@ && preset_spec(7).1 == (PresetPalette { accent: [200, 155, 60], background: [10, 20, 40], text: [240, 230, 210], border: [120, 90, 40], knob: [240, 230, 210], corner_radius: 4 }),
        preset_spec(8).0 == "Strawberry"@ && preset_spec(8).1 == (PresetPalette { accent: [224, 66, 84], background: [255, 243, 240], text: [108, 26, 38], border: [244, 190, 190], knob: [255, 251, 245], corner_radius: 8 }),
        preset_spec(9).0 == "Coffee"@ && preset_spec(9).1 == (PresetPalette { accent: [216, 160, 120], background: [43, 30, 22], text: [244, 238, 228], border: [94, 70, 54], knob: [246, 241, 233], corner_radius: 6 }),
{
}

/// Number of presets in the gallery.
pub open spec fn preset_count() -> int {
    10
}

/// The theme every fresh config starts with.
pub open spec fn default_theme_spec() -> ThemeView {
    let p = default_palette_spec();
    ThemeView {
        accent: p.accent,
        background: p.background,
        text: p.text,
        border: p.border,
        knob: p.knob,
        corner_radius: p.corner_radius,
        borderless: true,
        background_image: Seq::empty(),
        window_opacity: 255,
        focus_outline: true,
        blur: true,
        row_stripes: true,
        mascot: MascotStyle::Auto,
    }
}

/// The Sakura theme: the Sakura palette in a decorated window, with the
/// default window settings otherwise.
pub open spec fn sakura_theme_spec() -> ThemeView {
    ThemeView { borderless: false, ..with_palette(default_theme_spec(), preset_spec(1).1) }
}

fn make_palette(
    accent: [u8; 3],
    background: [u8; 3],
    text: [u8; 3],
    border: [u8; 3],
    knob: [u8; 3],
    corner_radius: u8,
) -> (r: PresetPalette)
    ensures
        r == palette_spec(accent, background, text, border, knob, corner_radius),
{
    PresetPalette { accent, background, text, border, knob, corner_radius }
}

/// The default look.
pub fn default_palette() -> (r: PresetPalette)
    ensures
        r == default_palette_spec(),
{
    make_palette([242, 183, 53], [27, 27, 27], [222, 222, 222], [58, 58, 58], [235, 235, 235], 4)
}

/// The preset gallery, in display order. Every preset keeps readable
/// contrast between text and background, and no two share a name.
pub fn presets() -> (r: Vec<(&'static str, PresetPalette)>)
    ensures
        r@.len() == preset_count(),
        forall|k: int| 0 <= k < r@.len() ==> (#[trigger] r@[k]).0@ == preset_spec(k).0,
        forall|k: int| 0 <= k < r@.len() ==> (#[trigger] r@[k]).1 == preset_spec(k).1,
        forall|k: int| 0 <= k < r@.len() ==> is_readable(#[trigger] r@[k].1),
        forall|i: int, j: int|
            0 <= i < r@.len() && 0 <= j < r@.len() && i != j ==> (#[trigger] r@[i]).0@
                != (#[trigger] r@[j]).0@,
{
    let mut v: Vec<(&'static str, PresetPalette)> = Vec::new();
    v.push(("Default", default_palette()));
    v.push(
        (
            "Sakura",
            make_palette(
                [178, 88, 118],
                [251, 236, 232],
                [86, 33, 53],
                [228, 180, 190],
                [255, 249, 247],
                5,
            ),
        ),
    );
    v.push(
        (
            "Candy",
            make_palette(
                [255, 111, 181],
                [255, 233, 243],
                [90, 34, 70],
                [245, 184, 216],
                [255, 255, 255],
                10,
            ),
        ),
    );
    v.push(
        (
            "Cosmic",
            make_palette(
                [141, 124, 238],
                [18, 14, 40],
                [232, 230, 244],
                [72, 60, 120],
                [235, 232, 250],
                6,
            ),
        ),
    );
    v.push(
        (
            "Sentinel",
            make_palette(
                [255, 171, 64],
                [22, 27, 34],
                [206, 216, 226],
                [56, 68, 82],
                [228, 234, 240],
                2,
            ),
        ),
    );
    v.push(
        (
            "GoW",
            make_palette(
                [196, 30, 35],
                [16, 13, 13],
                [214, 205, 200],
                [72, 46, 46],
                [226, 216, 212],
                3,
            ),
        ),
    );
    v.push(
        (
            "Halo",
            make_palette(
                [80, 125, 42],
                [18, 24, 16],
                [212, 220, 208],
                [58, 72, 48],
                [255, 196, 80],
                4,
            ),
        ),
    );
    v.push(
        (
            "League",
            make_palette(
                [200, 155, 60],
                [10, 20, 40],
                [240, 230, 210],
                [120, 90, 40],
                [240, 230, 210],
                4,
            ),
        ),
    );
    v.push(
        (
            "Strawberry",
            make_palette(
                [224, 66, 84],
                [255, 243, 240],
                [108, 26, 38],
                [244, 190, 190],
                [255, 251, 245],
                8,
            ),
        ),
    );
    v.push(
        (
            "Coffee",
            make_palette(
                [216, 160, 120],
                [43, 30, 22],
                [244, 238, 228],
                [94, 70, 54],
                [246, 241, 233],
                6,
            ),
        ),
    );
    proof {
        reveal_strlit("Default");
        reveal_strlit("Sakura");
        reveal_strlit("Candy");
        reveal_strlit("Cosmic");
        reveal_strlit("Sentinel");
        reveal_strlit("GoW");
        reveal_strlit("Halo");
        reveal_strlit("League");
        reveal_strlit("Strawberry");
        reveal_strlit("Coffee");
        lemma_presets_readable();
        lemma_preset_names_distinct();
        assert forall|k: int| 0 <= k < v@.len() implies (#[trigger] v@[k]).0@ == preset_spec(k).0
            && v@[k].1 == preset_spec(k).1 by {}
        assert forall|i: int, j: int|
            0 <= i < v@.len() && 0 <= j < v@.len() && i != j implies (#[trigger] v@[i]).0@
                != (#[trigger] v@[j]).0@ by {
            assert(preset_spec(i).0 != preset_spec(j).0);
        }
    }
    v
}

/// Every preset of the gallery keeps text readable on its background.
pub proof fn lemma_presets_readable()
    ensures
        forall|k: int| 0 <= k < preset_count() ==> is_readable(#[trigger] preset_spec(k).1),
{
    assert forall|k: int| 0 <= k < preset_count() implies is_readable(#[trigger] preset_spec(k).1) by {
        if k == 0 {
        } else if k == 1 {
        } else if k == 2 {
        } else if k == 3 {
        } else if k == 4 {
        } else if k == 5 {
        } else if k == 6 {
        } else if k == 7 {
        } else if k == 8 {
        } else {
        }
    }
}

/// Length, first and third character of each preset name: enough to tell
/// the names apart.
spec fn name_key(k: int) -> (int, char, char) {
    if k == 0 {
        (7, 'D', 'f')
    } else if k == 1 {
        (6, 'S', 'k')
    } else if k == 2 {
        (5, 'C', 'n')
    } else if k == 3 {
        (6, 'C', 's')
    } else if k == 4 {
        (8, 'S', 'n')
    } else if k == 5 {
        (3, 'G', 'W')
    } else if k == 6 {
        (4, 'H', 'l')
    } else if k == 7 {
        (6, 'L', 'a')
    } else if k == 8 {
        (10, 'S', 'r')
    } else {
        (6, 'C', 'f')
    }
}

proof fn lemma_name_key(k: int)
    requires
        0 <= k < preset_count(),
    ensures
        ({
            let n = preset_spec(k).0;
            n.len() == name_key(k).0 && n[0] == name_key(k).1 && n[2] == name_key(k).2
        }),
{
    reveal_strlit("Default");
    reveal_strlit("Sakura");
    reveal_strlit("Candy");
    reveal_strlit("Cosmic");
    reveal_strlit("Sentinel");
    reveal_strlit("GoW");
    reveal_strlit("Halo");
    reveal_strlit("League");
    reveal_strlit("Strawberry");
    reveal_strlit("Coffee");
}

/// No two presets of the gallery share a name.
pub proof fn lemma_preset_names_distinct()
    ensures
        forall|i: int, j: int|
            0 <= i < preset_count() && 0 <= j < preset_count() && i != j ==> (#[trigger] preset_spec(
                i,
            )).0 != (#[trigger] preset_spec(j)).0,
{
    assert forall|i: int, j: int|
        0 <= i < preset_count() && 0 <= j < preset_count() && i != j implies (#[trigger] preset_spec(
            i,
        )).0 != (#[trigger] preset_spec(j)).0 by {
        lemma_name_key(i);
        lemma_name_key(j);
        assert(name_key(i) != name_key(j));
    }
}

impl Default for Theme {
    fn default() -> (r: Self)
        ensures
            r@ == default_theme_spec(),
    {
        let p = default_palette();
        Theme {
            accent: p.accent,
            background: p.background,
            text: p.text,
            border: p.border,
            knob: p.knob,
            corner_radius: p.corner_radius,
            borderless: true,
            background_image: String::new(),
            window_opacity: 255,
            focus_outline: true,
            blur: true,
            row_stripes: true,
            mascot: MascotStyle::Auto,
        }
    }
}

impl Theme {
    /// Sakura preset, grounded in traditional Japanese blossom colors: a
    /// warm petal background, deep plum text, rose accent.
    pub fn sakura() -> (r: Self)
        ensures
            r@ == sakura_theme_spec(),
    {
        let mut t = Theme::default();
        t.apply_palette(
            &make_palette(
                [178, 88, 118],
                [251, 236, 232],
                [86, 33, 53],
                [228, 180, 190],
                [255, 249, 247],
                5,
            ),
        );
        t.borderless = false;
        t
    }

    /// This theme's palette slice, e.g. for "is this preset active" checks.
    pub fn palette(&self) -> (r: PresetPalette)
        ensures
            r == palette_of(self@),
    {
        PresetPalette {
            accent: self.accent,
            background: self.background,
            text: self.text,
            border: self.border,
            knob: self.knob,
            corner_radius: self.corner_radius,
        }
    }

    /// Apply a preset. Only the palette changes.
    pub fn apply_palette(&mut self, p: &PresetPalette)
        ensures
            final(self)@ == with_palette(old(self)@, *p),
    {
        self.accent = p.accent;
        self.background = p.background;
        self.text = p.text;
        self.border = p.border;
        self.knob = p.knob;
        self.corner_radius = p.corner_radius;
    }

    /// Field-by-field equality (what `==` on two themes means).
    pub fn same_as(&self, other: &Theme) -> (r: bool)
        ensures
            r == (self@ == other@),
    {
        let r = same_rgb(&self.accent, &other.accent) && same_rgb(&self.background, &other.background)
            && same_rgb(&self.text, &other.text) && same_rgb(&self.border, &other.border)
            && same_rgb(&self.knob, &other.knob) && self.corner_radius == other.corner_radius
            && self.borderless == other.borderless && self.background_image
            == other.background_image && self.window_opacity == other.window_opacity
            && self.focus_outline == other.focus_outline && self.blur == other.blur
            && self.row_stripes == other.row_stripes && self.mascot == other.mascot;
        proof {
            if r {
                assert(self@.background_image =~= other@.background_image);
            }
        }
        r
    }
}

impl PresetPalette {
    /// Field-by-field equality of two palettes.
    pub fn same_as(&self, other: &PresetPalette) -> (r: bool)
        ensures
            r == (*self == *other),
    {
        same_rgb(&self.accent, &other.accent) && same_rgb(&self.background, &other.background)
            && same_rgb(&self.text, &other.text) && same_rgb(&self.border, &other.border)
            && same_rgb(&self.knob, &other.knob) && self.corner_radius == other.corner_radius
    }
}

fn same_rgb(a: &[u8; 3], b: &[u8; 3]) -> (r: bool)
    ensures
        r == (*a == *b),
{
    broadcast use vstd::array::group_array_axioms;

    let r = a[0] == b[0] && a[1] == b[1] && a[2] == b[2];
    proof {
        if r {
            assert(*a =~= *b);
        }
    }
    r
}

/// Reading the palette back after applying it gives that palette.
pub proof fn law_palette_round_trip(t: ThemeView, p: PresetPalette)
    ensures
        palette_of(with_palette(t, p)) == p,
{
}

/// Applying a palette leaves every window setting (borderless, image,
/// opacity, focus outline, blur, row stripes, mascot) as it was.
pub proof fn law_palette_keeps_window_settings(t: ThemeView, p: PresetPalette)
    ensures
        ({
            let u = with_palette(t, p);
            &&& u.borderless == t.borderless
            &&& u.background_image == t.background_image
            &&& u.window_opacity == t.window_opacity
            &&& u.focus_outline == t.focus_outline
            &&& u.blur == t.blur
            &&& u.row_stripes == t.row_stripes
            &&& u.mascot == t.mascot
        }),
{
}

/// Applying a theme's own palette changes nothing.
pub proof fn law_own_palette_is_identity(t: ThemeView)
    ensures
        with_palette(t, palette_of(t)) == t,
{
}

/// Applying the same palette twice is the same as applying it once.
pub proof fn law_palette_idempotent(t: ThemeView, p: PresetPalette)
    ensures
        with_palette(with_palette(t, p), p) == with_palette(t, p),
{
}

} // verus!

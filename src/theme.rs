//! Editor colour themes: a small set of built-in palettes.

use vstd::prelude::*;

verus! {

/// A colour theme: a display name and one RGB triple per interface element.
#[derive(Clone)]
pub struct Theme {
    pub name: String,
    pub background: [u8; 3],
    pub foreground: [u8; 3],
    pub accent: [u8; 3],
    pub selection: [u8; 3],
    pub gutter: [u8; 3],
    pub line_highlight: [u8; 3],
    pub border: [u8; 3],
    pub sidebar: [u8; 3],
    pub tab_active: [u8; 3],
    pub tab_inactive: [u8; 3],
    pub status_bar: [u8; 3],
}

/// The colours of `t`, in field order, each as a sequence of three channels.
pub open spec fn palette(t: Theme) -> Seq<Seq<u8>> {
    seq![t.background@, t.foreground@, t.accent@, t.selection@, t.gutter@, t.line_highlight@, t.border@, t.sidebar@, t.tab_active@, t.tab_inactive@, t.status_bar@]
}

/// The colours of the Dark theme, in field order.
pub open spec fn dark_palette() -> Seq<Seq<u8>> {
    seq![
        seq![30u8, 30, 30],
        seq![212u8, 212, 212],
        seq![0u8, 122, 204],
        seq![38u8, 79, 120],
        seq![35u8, 35, 35],
        seq![40u8, 40, 40],
        seq![50u8, 50, 50],
        seq![33u8, 33, 33],
        seq![45u8, 45, 45],
        seq![30u8, 30, 30],
        seq![0u8, 122, 204],
    ]
}

/// The colours of the Light theme, in field order.
pub open spec fn light_palette() -> Seq<Seq<u8>> {
    seq![
        seq![255u8, 255, 255],
        seq![0u8, 0, 0],
        seq![0u8, 122, 204],
        seq![173u8, 214, 255],
        seq![240u8, 240, 240],
        seq![248u8, 248, 248],
        seq![220u8, 220, 220],
        seq![245u8, 245, 245],
        seq![255u8, 255, 255],
        seq![240u8, 240, 240],
        seq![0u8, 122, 204],
    ]
}

/// The colours of the Monokai theme, in field order.
pub open spec fn monokai_palette() -> Seq<Seq<u8>> {
    seq![
        seq![39u8, 40, 34],
        seq![248u8, 248, 242],
        seq![166u8, 226, 46],
        seq![73u8, 72, 62],
        seq![45u8, 46, 40],
        seq![50u8, 51, 45],
        seq![60u8, 61, 55],
        seq![35u8, 36, 30],
        seq![50u8, 51, 45],
        seq![39u8, 40, 34],
        seq![166u8, 226, 46],
    ]
}

/// The colours of the Dracula theme, in field order.
pub open spec fn dracula_palette() -> Seq<Seq<u8>> {
    seq![
        seq![40u8, 42, 54],
        seq![248u8, 248, 242],
        seq![189u8, 147, 249],
        seq![68u8, 71, 90],
        seq![45u8, 47, 59],
        seq![55u8, 57, 69],
        seq![68u8, 71, 90],
        seq![35u8, 37, 49],
        seq![55u8, 57, 69],
        seq![40u8, 42, 54],
        seq![189u8, 147, 249],
    ]
}

/// The colours of the Nord theme, in field order.
pub open spec fn nord_palette() -> Seq<Seq<u8>> {
    seq![
        seq![46u8, 52, 64],
        seq![236u8, 239, 244],
        seq![136u8, 192, 208],
        seq![67u8, 76, 94],
        seq![52u8, 58, 70],
        seq![59u8, 66, 82],
        seq![67u8, 76, 94],
        seq![41u8, 47, 59],
        seq![59u8, 66, 82],
        seq![46u8, 52, 64],
        seq![136u8, 192, 208],
    ]
}

impl Theme {
    /// Dark theme (default)
    pub fn dark() -> (r: Theme)
        ensures
            r.name@ == "Dark"@,
            palette(r) =~= dark_palette(),
    {
        let r = Theme {
            name: "Dark".to_owned(),
            background: [30, 30, 30],
            foreground: [212, 212, 212],
            accent: [0, 122, 204],
            selection: [38, 79, 120],
            gutter: [35, 35, 35],
            line_highlight: [40, 40, 40],
            border: [50, 50, 50],
            sidebar: [33, 33, 33],
            tab_active: [45, 45, 45],
            tab_inactive: [30, 30, 30],
            status_bar: [0, 122, 204],
        };
        assert(r.background@ =~= seq![30u8, 30, 30]);
        assert(r.foreground@ =~= seq![212u8, 212, 212]);
        assert(r.accent@ =~= seq![0u8, 122, 204]);
        assert(r.selection@ =~= seq![38u8, 79, 120]);
        assert(r.gutter@ =~= seq![35u8, 35, 35]);
        assert(r.line_highlight@ =~= seq![40u8, 40, 40]);
        assert(r.border@ =~= seq![50u8, 50, 50]);
        assert(r.sidebar@ =~= seq![33u8, 33, 33]);
        assert(r.tab_active@ =~= seq![45u8, 45, 45]);
        assert(r.tab_inactive@ =~= seq![30u8, 30, 30]);
        assert(r.status_bar@ =~= seq![0u8, 122, 204]);
        r
    }

    /// Light theme
    pub fn light() -> (r: Theme)
        ensures
            r.name@ == "Light"@,
            palette(r) =~= light_palette(),
    {
        let r = Theme {
            name: "Light".to_owned(),
            background: [255, 255, 255],
            foreground: [0, 0, 0],
            accent: [0, 122, 204],
            selection: [173, 214, 255],
            gutter: [240, 240, 240],
            line_highlight: [248, 248, 248],
            border: [220, 220, 220],
            sidebar: [245, 245, 245],
            tab_active: [255, 255, 255],
            tab_inactive: [240, 240, 240],
            status_bar: [0, 122, 204],
        };
        assert(r.background@ =~= seq![255u8, 255, 255]);
        assert(r.foreground@ =~= seq![0u8, 0, 0]);
        assert(r.accent@ =~= seq![0u8, 122, 204]);
        assert(r.selection@ =~= seq![173u8, 214, 255]);
        assert(r.gutter@ =~= seq![240u8, 240, 240]);
        assert(r.line_highlight@ =~= seq![248u8, 248, 248]);
        assert(r.border@ =~= seq![220u8, 220, 220]);
        assert(r.sidebar@ =~= seq![245u8, 245, 245]);
        assert(r.tab_active@ =~= seq![255u8, 255, 255]);
        assert(r.tab_inactive@ =~= seq![240u8, 240, 240]);
        assert(r.status_bar@ =~= seq![0u8, 122, 204]);
        r
    }

    /// Monokai theme
    pub fn monokai() -> (r: Theme)
        ensures
            r.name@ == "Monokai"@,
            palette(r) =~= monokai_palette(),
    {
        let r = Theme {
            name: "Monokai".to_owned(),
            background: [39, 40, 34],
            foreground: [248, 248, 242],
            accent: [166, 226, 46],
            selection: [73, 72, 62],
            gutter: [45, 46, 40],
            line_highlight: [50, 51, 45],
            border: [60, 61, 55],
            sidebar: [35, 36, 30],
            tab_active: [50, 51, 45],
            tab_inactive: [39, 40, 34],
            status_bar: [166, 226, 46],
        };
        assert(r.background@ =~= seq![39u8, 40, 34]);
        assert(r.foreground@ =~= seq![248u8, 248, 242]);
        assert(r.accent@ =~= seq![166u8, 226, 46]);
        assert(r.selection@ =~= seq![73u8, 72, 62]);
        assert(r.gutter@ =~= seq![45u8, 46, 40]);
        assert(r.line_highlight@ =~= seq![50u8, 51, 45]);
        assert(r.border@ =~= seq![60u8, 61, 55]);
        assert(r.sidebar@ =~= seq![35u8, 36, 30]);
        assert(r.tab_active@ =~= seq![50u8, 51, 45]);
        assert(r.tab_inactive@ =~= seq![39u8, 40, 34]);
        assert(r.status_bar@ =~= seq![166u8, 226, 46]);
        r
    }

    /// Dracula theme
    pub fn dracula() -> (r: Theme)
        ensures
            r.name@ == "Dracula"@,
            palette(r) =~= dracula_palette(),
    {
        let r = Theme {
            name: "Dracula".to_owned(),
            background: [40, 42, 54],
            foreground: [248, 248, 242],
            accent: [189, 147, 249],
            selection: [68, 71, 90],
            gutter: [45, 47, 59],
            line_highlight: [55, 57, 69],
            border: [68, 71, 90],
            sidebar: [35, 37, 49],
            tab_active: [55, 57, 69],
            tab_inactive: [40, 42, 54],
            status_bar: [189, 147, 249],
        };
        assert(r.background@ =~= seq![40u8, 42, 54]);
        assert(r.foreground@ =~= seq![248u8, 248, 242]);
        assert(r.accent@ =~= seq![189u8, 147, 249]);
        assert(r.selection@ =~= seq![68u8, 71, 90]);
        assert(r.gutter@ =~= seq![45u8, 47, 59]);
        assert(r.line_highlight@ =~= seq![55u8, 57, 69]);
        assert(r.border@ =~= seq![68u8, 71, 90]);
        assert(r.sidebar@ =~= seq![35u8, 37, 49]);
        assert(r.tab_active@ =~= seq![55u8, 57, 69]);
        assert(r.tab_inactive@ =~= seq![40u8, 42, 54]);
        assert(r.status_bar@ =~= seq![189u8, 147, 249]);
        r
    }

    /// Nord theme
    pub fn nord() -> (r: Theme)
        ensures
            r.name@ == "Nord"@,
            palette(r) =~= nord_palette(),
    {
        let r = Theme {
            name: "Nord".to_owned(),
            background: [46, 52, 64],
            foreground: [236, 239, 244],
            accent: [136, 192, 208],
            selection: [67, 76, 94],
            gutter: [52, 58, 70],
            line_highlight: [59, 66, 82],
            border: [67, 76, 94],
            sidebar: [41, 47, 59],
            tab_active: [59, 66, 82],
            tab_inactive: [46, 52, 64],
            status_bar: [136, 192, 208],
        };
        assert(r.background@ =~= seq![46u8, 52, 64]);
        assert(r.foreground@ =~= seq![236u8, 239, 244]);
        assert(r.accent@ =~= seq![136u8, 192, 208]);
        assert(r.selection@ =~= seq![67u8, 76, 94]);
        assert(r.gutter@ =~= seq![52u8, 58, 70]);
        assert(r.line_highlight@ =~= seq![59u8, 66, 82]);
        assert(r.border@ =~= seq![67u8, 76, 94]);
        assert(r.sidebar@ =~= seq![41u8, 47, 59]);
        assert(r.tab_active@ =~= seq![59u8, 66, 82]);
        assert(r.tab_inactive@ =~= seq![46u8, 52, 64]);
        assert(r.status_bar@ =~= seq![136u8, 192, 208]);
        r
    }
}

impl Default for Theme {
    fn default() -> (r: Theme)
        ensures
            r.name@ == "Dark"@,
            palette(r) =~= dark_palette(),
    {
        Theme::dark()
    }
}

/// The built-in themes: Dark, Light, Monokai, Dracula and Nord, in that order.
pub fn available_themes() -> (r: Vec<Theme>)
    ensures
        r@.len() == 5,
        r@[0].name@ == "Dark"@ && palette(r@[0]) =~= dark_palette(),
        r@[1].name@ == "Light"@ && palette(r@[1]) =~= light_palette(),
        r@[2].name@ == "Monokai"@ && palette(r@[2]) =~= monokai_palette(),
        r@[3].name@ == "Dracula"@ && palette(r@[3]) =~= dracula_palette(),
        r@[4].name@ == "Nord"@ && palette(r@[4]) =~= nord_palette(),
{
    let mut r: Vec<Theme> = Vec::new();
    r.push(Theme::dark());
    r.push(Theme::light());
    r.push(Theme::monokai());
    r.push(Theme::dracula());
    r.push(Theme::nord());
    r
}

} // verus!

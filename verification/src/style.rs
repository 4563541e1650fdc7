//! Flat visual themes: named colour, font and geometry tokens that the
//! paint pass reads. There is no cascade; a theme is a plain record and a
//! `StyleContext` is a small table of named themes.

use vstd::prelude::*;

verus! {

/// A colour packed as `0xAARRGGBB`.
#[derive(Clone, Copy, Debug, PartialEq, Eq, Structural)]
pub struct Color {
    pub argb: u32,
}

impl Color {
    pub fn new(argb: u32) -> (r: Color)
        ensures
            r.argb == argb,
    {
        Color { argb }
    }

    /// The same colour with its alpha byte replaced by `a`.
    pub open spec fn spec_with_a(self, a: u8) -> Color {
        Color { argb: (self.argb & 0xFF_FFFFu32) | ((a as u32) << 24) }
    }

    /// The same colour with its alpha byte replaced by `a`.
    #[verifier::when_used_as_spec(spec_with_a)]
    pub fn with_a(self, a: u8) -> (r: Color)
        ensures
            r == self.spec_with_a(a),
    {
        Color { argb: (self.argb & 0xFF_FFFFu32) | ((a as u32) << 24) }
    }
}

impl Default for Color {
    /// Transparent black.
    fn default() -> (r: Color)
        ensures
            r.argb == 0,
    {
        Color { argb: 0 }
    }
}

/// A font request: a family name and a pixel size. Shaping and rasterizing
/// are the canvas backend's job; the core only carries the request.
#[derive(Clone, Debug)]
pub struct Font {
    pub family: String,
    pub size: i64,
}

impl Font {
    pub fn new(family: String, size: i64) -> (r: Font)
        ensures
            r.family == family,
            r.size == size,
    {
        Font { family, size }
    }
}

#[derive(Clone, Debug)]
pub struct SliderThumbStyle {
    pub color: Color,
    /// Thumb radius as a fraction of the gutter height, in thousandths.
    pub size: i64,
}

#[derive(Clone, Debug)]
pub struct SliderStyle {
    pub background: Color,
    pub fill: Color,
    pub thumb: SliderThumbStyle,
}

#[derive(Clone, Debug)]
pub struct TextButtonStyle {
    pub inactive: Color,
    pub active: Color,
    pub hovered: Color,
    pub text: Color,
    pub font: Font,
    pub rounding: i64,
}

impl TextButtonStyle {
    /// The default button style: corner rounding of four pixels.
    pub fn new() -> (r: TextButtonStyle)
        ensures
            r.rounding == 4,
            r.inactive.argb == 0,
            r.active.argb == 0,
            r.hovered.argb == 0,
            r.text.argb == 0,
    {
        TextButtonStyle {
            inactive: Color::default(),
            active: Color::default(),
            hovered: Color::default(),
            text: Color::default(),
            font: default_font(),
            rounding: 4,
        }
    }
}

#[derive(Clone, Debug)]
pub struct LabelStyle {
    pub background: Color,
    pub text: Color,
    pub font: Font,
}

#[derive(Clone, Debug)]
pub struct Theme {
    pub background: Color,
    pub primary: Color,
    pub secondary: Color,
    pub text: Color,
    pub font: Font,
    pub button: TextButtonStyle,
    pub slider: SliderStyle,
    pub label: LabelStyle,
}

/// The default user-interface font: Roboto at 18 pixels.
fn default_font() -> (r: Font)
    ensures
        r.family@ == "Roboto"@,
        r.size == 18,
{
    Font { family: "Roboto".to_owned(), size: 18 }
}

impl Theme {
    /// The built-in light theme.
    pub fn default_light() -> (r: Theme)
        ensures
            r.background.argb == 0xFFFFFFFFu32,
            r.primary.argb == 0xFF766AC8u32,
            r.secondary.argb == 0xFF73C8A6u32,
            r.text.argb == 0xFFFFFFFFu32,
            r.font.size == 18,
            r.button.rounding == 4,
            r.slider.fill.argb == 0xFF766AC8u32,
            r.label.text.argb == 0xFFFFFFFFu32,
    {
        Theme {
            background: Color::new(0xFFFFFFFF),
            primary: Color::new(0xFF766AC8),
            secondary: Color::new(0xFF73C8A6),
            text: Color::new(0xFFFFFFFF),
            font: default_font(),
            button: TextButtonStyle::new(),
            slider: SliderStyle {
                background: Color::new(0xFFFFFFFF),
                fill: Color::new(0xFF766AC8),
                thumb: SliderThumbStyle { color: Color::new(0xFF73C8A6), size: 125 },
            },
            label: LabelStyle {
                background: Color::new(0xFFFFFFFF),
                text: Color::new(0xFFFFFFFF),
                font: default_font(),
            },
        }
    }

    /// The built-in dark theme.
    pub fn default_dark() -> (r: Theme)
        ensures
            r.background.argb == 0xFF333333u32,
            r.primary.argb == 0xFF1E38A1u32,
            r.secondary.argb == 0xFF73C8A6u32,
            r.text.argb == 0xFFFFFFFFu32,
            r.font.size == 18,
            r.button.rounding == 4,
            r.slider.fill.argb == 0xFF1E38A1u32,
            r.label.text.argb == 0xFFFFFFFFu32,
    {
        Theme {
            background: Color::new(0xFF333333),
            primary: Color::new(0xFF1E38A1),
            secondary: Color::new(0xFF73C8A6),
            text: Color::new(0xFFFFFFFF),
            font: default_font(),
            button: TextButtonStyle::new(),
            slider: SliderStyle {
                background: Color::new(0xFF1E1E1E),
                fill: Color::new(0xFF1E38A1),
                thumb: SliderThumbStyle { color: Color::new(0xFF1E38A1), size: 125 },
            },
            label: LabelStyle {
                background: Color::new(0xFF333333),
                text: Color::new(0xFFFFFFFF),
                font: default_font(),
            },
        }
    }
}

/// A table of named themes, looked up once per paint pass.
pub struct StyleContext {
    themes: Vec<(String, Theme)>,
}

impl StyleContext {
    /// The name of an entry, for contracts.
    pub closed spec fn entry_name(&self, i: int) -> Seq<char> {
        self.themes@[i].0@
    }

    /// The theme of an entry, for contracts.
    pub closed spec fn entry_theme(&self, i: int) -> Theme {
        self.themes@[i].1
    }

    pub closed spec fn entry_count(&self) -> int {
        self.themes@.len() as int
    }

    /// The built-in table: a `"light"` and a `"dark"` theme.
    pub fn new() -> (r: StyleContext)
        ensures
            r.entry_count() == 2,
            r.entry_name(0) == "light"@,
            r.entry_name(1) == "dark"@,
    {
        let mut themes: Vec<(String, Theme)> = Vec::new();
        themes.push(("light".to_owned(), Theme::default_light()));
        themes.push(("dark".to_owned(), Theme::default_dark()));
        StyleContext { themes }
    }

    /// Look a theme up by name; `None` when no entry carries the name.
    pub fn theme(&self, name: &str) -> (r: Option<&Theme>)
        ensures
            match r {
                Some(theme) => exists|i: int|
                    0 <= i < self.entry_count() && self.entry_name(i) == name@
                        && *theme == self.entry_theme(i),
                None => forall|i: int|
                    0 <= i < self.entry_count() ==> self.entry_name(i) != name@,
            },
    {
        let key: String = name.to_owned();
        let mut i: usize = 0;
        while i < self.themes.len()
            invariant
                0 <= i <= self.themes@.len(),
                key@ == name@,
                forall|j: int| 0 <= j < i ==> self.entry_name(j) != name@,
            decreases self.themes@.len() - i,
        {
            if self.themes[i].0 == key {
                proof {
                    assert(0 <= i < self.entry_count() && self.entry_name(i as int) == name@);
                }
                return Some(&self.themes[i].1);
            }
            i += 1;
        }
        None
    }
}

} // verus!

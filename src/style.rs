//! Colors, text modifiers and styles that patch one another.
use vstd::prelude::*;

verus! {

/// A terminal color.
#[derive(Debug, Clone, Copy, PartialEq, Eq, Structural, Hash)]
pub enum Color {
    Reset,
    Black,
    Red,
    Green,
    Yellow,
    Blue,
    Magenta,
    Cyan,
    Gray,
    DarkGray,
    White,
    Rgb(u8, u8, u8),
    Indexed(u8),
}

/// A text modifier.
#[allow(non_camel_case_types)]
#[derive(Debug, Clone, Copy, PartialEq, Eq, Structural, Hash)]
pub enum Modifier {
    BOLD,
    DIM,
    ITALIC,
    UNDERLINED,
    REVERSED,
    CROSSED_OUT,
}

/// The bit that stands for a modifier in a set of modifiers.
pub open spec fn modifier_bit(m: Modifier) -> u16 {
    match m {
        Modifier::BOLD => 0x0001,
        Modifier::DIM => 0x0002,
        Modifier::ITALIC => 0x0004,
        Modifier::UNDERLINED => 0x0008,
        Modifier::REVERSED => 0x0040,
        Modifier::CROSSED_OUT => 0x0100,
    }
}

impl Modifier {
    /// The bit that stands for this modifier in a set of modifiers.
    pub fn bit(self) -> (r: u16)
        ensures
            r == modifier_bit(self),
    {
        match self {
            Modifier::BOLD => 0x0001,
            Modifier::DIM => 0x0002,
            Modifier::ITALIC => 0x0004,
            Modifier::UNDERLINED => 0x0008,
            Modifier::REVERSED => 0x0040,
            Modifier::CROSSED_OUT => 0x0100,
        }
    }
}

/// A style: colors that are set or left as they are, and the sets of
/// modifiers to add and to remove, as bits.
#[derive(Debug, Clone, Copy, PartialEq, Eq, Structural, Hash)]
pub struct Style {
    pub fg: Option<Color>,
    pub bg: Option<Color>,
    pub add_modifier: u16,
    pub sub_modifier: u16,
}

/// The style that changes nothing.
pub open spec fn plain_style() -> Style {
    Style {
        fg: None,
        bg: None,
        add_modifier: 0,
        sub_modifier: 0,
    }
}

/// `base` with `over` applied on top of it: what `over` sets wins.
pub open spec fn patch_spec(base: Style, over: Style) -> Style {
    Style {
        fg: if over.fg is Some {
            over.fg
        } else {
            base.fg
        },
        bg: if over.bg is Some {
            over.bg
        } else {
            base.bg
        },
        add_modifier: (base.add_modifier & !over.sub_modifier) | over.add_modifier,
        sub_modifier: (base.sub_modifier & !over.add_modifier) | over.sub_modifier,
    }
}

impl Default for Style {
    fn default() -> (r: Style)
        ensures
            r == plain_style(),
    {
        Style {
            fg: None,
            bg: None,
            add_modifier: 0,
            sub_modifier: 0,
        }
    }
}

impl Style {
    /// The style that changes nothing.
    pub fn new() -> (r: Style)
        ensures
            r == plain_style(),
    {
        Style::default()
    }

    /// Sets the foreground color.
    pub fn fg(self, color: Color) -> (r: Style)
        ensures
            r == (Style { fg: Some(color), ..self }),
    {
        Style { fg: Some(color), ..self }
    }

    /// Sets the background color.
    pub fn bg(self, color: Color) -> (r: Style)
        ensures
            r == (Style { bg: Some(color), ..self }),
    {
        Style { bg: Some(color), ..self }
    }

    /// Adds the modifiers of `m`, and no longer removes them.
    pub fn add_modifier(self, m: Modifier) -> (r: Style)
        ensures
            r == (Style {
                add_modifier: self.add_modifier | modifier_bit(m),
                sub_modifier: self.sub_modifier & !modifier_bit(m),
                ..self
            }),
    {
        let b = m.bit();
        Style {
            add_modifier: self.add_modifier | b,
            sub_modifier: self.sub_modifier & !b,
            ..self
        }
    }

    /// Removes the modifiers of `m`, and no longer adds them.
    pub fn remove_modifier(self, m: Modifier) -> (r: Style)
        ensures
            r == (Style {
                add_modifier: self.add_modifier & !modifier_bit(m),
                sub_modifier: self.sub_modifier | modifier_bit(m),
                ..self
            }),
    {
        let b = m.bit();
        Style {
            add_modifier: self.add_modifier & !b,
            sub_modifier: self.sub_modifier | b,
            ..self
        }
    }

    /// This style with `other` applied on top of it.
    pub fn patch(self, other: Style) -> (r: Style)
        ensures
            r == patch_spec(self, other),
    {
        Style {
            fg: if other.fg.is_some() {
                other.fg
            } else {
                self.fg
            },
            bg: if other.bg.is_some() {
                other.bg
            } else {
                self.bg
            },
            add_modifier: (self.add_modifier & !other.sub_modifier) | other.add_modifier,
            sub_modifier: (self.sub_modifier & !other.add_modifier) | other.sub_modifier,
        }
    }
}

/// A value that carries a style of its own.
pub trait Styled: Sized {
    spec fn style_view(&self) -> Style;

    /// The value's style.
    fn get_style(&self) -> (r: Style)
        ensures
            r == self.style_view(),
    ;

    /// The value with its style replaced.
    fn set_style(self, style: Style) -> (r: Self)
        ensures
            r.style_view() == style,
    ;

    /// Sets the foreground color of the value's style.
    fn fg(self, color: Color) -> (r: Self)
        ensures
            r.style_view() == (Style { fg: Some(color), ..self.style_view() }),
    {
        let s = self.get_style();
        self.set_style(s.fg(color))
    }

    /// Sets the background color of the value's style.
    fn bg(self, color: Color) -> (r: Self)
        ensures
            r.style_view() == (Style { bg: Some(color), ..self.style_view() }),
    {
        let s = self.get_style();
        self.set_style(s.bg(color))
    }

    /// Adds modifiers to the value's style.
    fn add_modifier(self, m: Modifier) -> (r: Self)
        ensures
            r.style_view() == (Style {
                add_modifier: self.style_view().add_modifier | modifier_bit(m),
                sub_modifier: self.style_view().sub_modifier & !modifier_bit(m),
                ..self.style_view()
            }),
    {
        let s = self.get_style();
        self.set_style(s.add_modifier(m))
    }

    /// Removes modifiers from the value's style.
    fn remove_modifier(self, m: Modifier) -> (r: Self)
        ensures
            r.style_view() == (Style {
                add_modifier: self.style_view().add_modifier & !modifier_bit(m),
                sub_modifier: self.style_view().sub_modifier | modifier_bit(m),
                ..self.style_view()
            }),
    {
        let s = self.get_style();
        self.set_style(s.remove_modifier(m))
    }

    fn black(self) -> (r: Self)
        ensures
            r.style_view() == (Style { fg: Some(Color::Black), ..self.style_view() }),
    {
        self.fg(Color::Black)
    }

    fn white(self) -> (r: Self)
        ensures
            r.style_view() == (Style { fg: Some(Color::White), ..self.style_view() }),
    {
        self.fg(Color::White)
    }

    fn on_black(self) -> (r: Self)
        ensures
            r.style_view() == (Style { bg: Some(Color::Black), ..self.style_view() }),
    {
        self.bg(Color::Black)
    }

    fn on_white(self) -> (r: Self)
        ensures
            r.style_view() == (Style { bg: Some(Color::White), ..self.style_view() }),
    {
        self.bg(Color::White)
    }

    fn bold(self) -> (r: Self)
        ensures
            r.style_view() == (Style {
                add_modifier: self.style_view().add_modifier | 0x0001,
                sub_modifier: self.style_view().sub_modifier & !0x0001u16,
                ..self.style_view()
            }),
    {
        self.add_modifier(Modifier::BOLD)
    }

    fn not_dim(self) -> (r: Self)
        ensures
            r.style_view() == (Style {
                add_modifier: self.style_view().add_modifier & !0x0002u16,
                sub_modifier: self.style_view().sub_modifier | 0x0002,
                ..self.style_view()
            }),
    {
        self.remove_modifier(Modifier::DIM)
    }

    fn not_italic(self) -> (r: Self)
        ensures
            r.style_view() == (Style {
                add_modifier: self.style_view().add_modifier & !0x0004u16,
                sub_modifier: self.style_view().sub_modifier | 0x0004,
                ..self.style_view()
            }),
    {
        self.remove_modifier(Modifier::ITALIC)
    }

    fn not_crossed_out(self) -> (r: Self)
        ensures
            r.style_view() == (Style {
                add_modifier: self.style_view().add_modifier & !0x0100u16,
                sub_modifier: self.style_view().sub_modifier | 0x0100,
                ..self.style_view()
            }),
    {
        self.remove_modifier(Modifier::CROSSED_OUT)
    }
}

} // verus!

//! Formatted text.

use vstd::prelude::*;
use crate::action::Action;
use crate::colour::{Argb, Rgb};
use crate::ident::Ident;

verus! {

/// A collection of formatted text components.
#[derive(Debug)]
pub struct Text {
    /// Components within this text, each with individual styling.
    pub components: Vec<TextComponent>,
}

/// A formatted text component.
#[derive(Debug)]
pub struct TextComponent {
    /// The content of this text component.
    pub content: TextContent,
    /// The styling information for this text component.
    pub style: TextStyle,
}

/// The content of a text component.
#[derive(Debug)]
pub enum TextContent {
    /// A literal string.
    Literal {
        /// Text to display.
        text: String,
    },
    /// A translated component.
    Translate {
        /// Translation key.
        key: String,
        /// Fallback text used when the translation key does not exist.
        fallback: Option<String>,
        /// Interpolation replacements.
        with: Vec<Text>,
    },
    /// A keybind component.
    Keybind {
        /// ID of the keybind.
        id: String,
    },
}

/// The styling information for a text component.
#[derive(Debug)]
pub struct TextStyle {
    /// Text display colour.
    pub colour: Rgb,
    /// Font resource ID.
    pub font: Option<Ident>,
    /// Bolded.
    pub bold: bool,
    /// Italicised.
    pub italic: bool,
    /// Underlined.
    pub underline: bool,
    /// Crossed out.
    pub strike: bool,
    /// Obfuscated.
    pub obfuscate: bool,
    /// Text shadow colour.
    pub shadow: Option<Argb>,
    /// Text inserted into the chat bar when the component is shift-clicked.
    pub insertion: Option<String>,
    /// Action to execute when the component is clicked.
    pub on_click: Option<Action>,
    /// Text to display when the component is hovered.
    pub tooltip: Option<Text>,
}

/// Whether a style carries no styling behaviour: white, default font and
/// shadow, no decorations, and nothing attached.
pub open spec fn style_is_empty(s: TextStyle) -> bool {
    s.colour == (Rgb { r: 255, g: 255, b: 255 }) && s.font is None && !s.bold
        && !s.italic && !s.underline && !s.strike && !s.obfuscate && s.shadow is None
        && s.insertion is None && s.on_click is None && s.tooltip is None
}

impl TextStyle {
    /// A style with no styling behaviour.
    pub fn empty() -> (r: Self)
        ensures
            style_is_empty(r),
    {
        TextStyle {
            colour: Rgb { r: 255, g: 255, b: 255 },
            font: None,
            bold: false,
            italic: false,
            underline: false,
            strike: false,
            obfuscate: false,
            shadow: None,
            insertion: None,
            on_click: None,
            tooltip: None,
        }
    }
}

impl Default for TextStyle {
    /// The default style carries no styling behaviour.
    fn default() -> (r: Self)
        ensures
            style_is_empty(r),
    {
        TextStyle::empty()
    }
}

impl TextComponent {
    /// An empty literal component.
    pub fn empty() -> (r: Self)
        ensures
            r.content matches TextContent::Literal { text } && text@ == Seq::<
                char,
            >::empty(),
            style_is_empty(r.style),
    {
        proof {
            reveal_strlit("");
        }
        TextComponent {
            content: TextContent::Literal { text: String::new() },
            style: TextStyle::empty(),
        }
    }
}

impl Default for TextComponent {
    /// The default component is the empty literal.
    fn default() -> (r: Self)
        ensures
            r.content matches TextContent::Literal { text } && text@ == Seq::<
                char,
            >::empty(),
            style_is_empty(r.style),
    {
        TextComponent::empty()
    }
}

impl Text {
    /// Create a new `Text` with a single literal component.
    pub fn literal(text: String) -> (r: Self)
        ensures
            r.components@.len() == 1,
            r.components@[0].content matches TextContent::Literal { text: t } && t@
                == text@,
            style_is_empty(r.components@[0].style),
    {
        let mut components: Vec<TextComponent> = Vec::new();
        components.push(
            TextComponent {
                content: TextContent::Literal { text },
                style: TextStyle::empty(),
            },
        );
        Text { components }
    }

    /// Create a new `Text` with a single translatable component.
    pub fn translate(key: String) -> (r: Self)
        ensures
            r.components@.len() == 1,
            r.components@[0].content matches TextContent::Translate {
                key: k,
                fallback,
                with,
            } && k@ == key@ && fallback is None && with@.len() == 0,
            style_is_empty(r.components@[0].style),
    {
        let mut components: Vec<TextComponent> = Vec::new();
        components.push(
            TextComponent {
                content: TextContent::Translate { key, fallback: None, with: Vec::new() },
                style: TextStyle::empty(),
            },
        );
        Text { components }
    }

    /// Create a new `Text` with a single translatable component with
    /// fallback text.
    pub fn translate_or(key: String, fallback: String) -> (r: Self)
        ensures
            r.components@.len() == 1,
            r.components@[0].content matches TextContent::Translate {
                key: k,
                fallback: f,
                with,
            } && k@ == key@ && (f matches Some(fs) && fs@ == fallback@) && with@.len()
                == 0,
            style_is_empty(r.components@[0].style),
    {
        let mut components: Vec<TextComponent> = Vec::new();
        components.push(
            TextComponent {
                content: TextContent::Translate {
                    key,
                    fallback: Some(fallback),
                    with: Vec::new(),
                },
                style: TextStyle::empty(),
            },
        );
        Text { components }
    }

    /// Create a new `Text` with a single translatable component with
    /// interpolation replacements.
    pub fn translate_with(key: String, with: Vec<Text>) -> (r: Self)
        ensures
            r.components@.len() == 1,
            r.components@[0].content matches TextContent::Translate {
                key: k,
                fallback,
                with: w,
            } && k@ == key@ && fallback is None && w == with,
            style_is_empty(r.components@[0].style),
    {
        let mut components: Vec<TextComponent> = Vec::new();
        components.push(
            TextComponent {
                content: TextContent::Translate { key, fallback: None, with },
                style: TextStyle::empty(),
            },
        );
        Text { components }
    }

    /// Create a new `Text` with a single translatable component with
    /// fallback text and interpolation replacements.
    pub fn translate_with_or(key: String, with: Vec<Text>, fallback: String) -> (r: Self)
        ensures
            r.components@.len() == 1,
            r.components@[0].content matches TextContent::Translate {
                key: k,
                fallback: f,
                with: w,
            } && k@ == key@ && (f matches Some(fs) && fs@ == fallback@) && w == with,
            style_is_empty(r.components@[0].style),
    {
        let mut components: Vec<TextComponent> = Vec::new();
        components.push(
            TextComponent {
                content: TextContent::Translate { key, fallback: Some(fallback), with },
                style: TextStyle::empty(),
            },
        );
        Text { components }
    }

    /// Create a new `Text` with a single keybind component.
    pub fn keybind(id: String) -> (r: Self)
        ensures
            r.components@.len() == 1,
            r.components@[0].content matches TextContent::Keybind { id: i } && i@ == id@,
            style_is_empty(r.components@[0].style),
    {
        let mut components: Vec<TextComponent> = Vec::new();
        components.push(
            TextComponent {
                content: TextContent::Keybind { id },
                style: TextStyle::empty(),
            },
        );
        Text { components }
    }

    /// Appends the components of `other` after this text's components.
    pub fn concat(self, other: Text) -> (r: Text)
        ensures
            r.components@ == self.components@ + other.components@,
    {
        let mut components = self.components;
        let mut tail = other.components;
        components.append(&mut tail);
        Text { components }
    }
}


impl Text {
    /// Set every component's display colour.
    pub fn colour(self, colour: Rgb) -> (r: Text)
        ensures
            r.components@.len() == self.components@.len(),
            forall|i: int|
                0 <= i < self.components@.len() ==> (#[trigger] r.components@[i]).content
                    == self.components@[i].content && r.components@[i].style == (
                TextStyle { colour, ..self.components@[i].style }),
    {
        let ghost orig = self.components@;
        let mut components = self.components;
        let n = components.len();
        let mut i: usize = 0;
        while i < n
            invariant
                n == orig.len(),
                components@.len() == orig.len(),
                i <= n,
                forall|j: int|
                    0 <= j < i ==> (#[trigger] components@[j]).content == orig[j].content
                        && components@[j].style == (TextStyle {
                        colour,
                        ..orig[j].style
                    }),
                forall|j: int| i <= j < orig.len() ==> #[trigger] components@[j] == orig[j],
            decreases n - i,
        {
            components[i].style.colour = colour;
            i = i + 1;
        }
        Text { components }
    }
}


impl Text {
    /// Make every component bolded.
    pub fn bold(self) -> (r: Text)
        ensures
            r.components@.len() == self.components@.len(),
            forall|i: int|
                0 <= i < self.components@.len() ==> (#[trigger] r.components@[i]).content
                    == self.components@[i].content && r.components@[i].style == (
                TextStyle { bold: true, ..self.components@[i].style }),
    {
        let ghost orig = self.components@;
        let mut components = self.components;
        let n = components.len();
        let mut i: usize = 0;
        while i < n
            invariant
                n == orig.len(),
                components@.len() == orig.len(),
                i <= n,
                forall|j: int|
                    0 <= j < i ==> (#[trigger] components@[j]).content == orig[j].content
                        && components@[j].style == (TextStyle {
                        bold: true,
                        ..orig[j].style
                    }),
                forall|j: int| i <= j < orig.len() ==> #[trigger] components@[j] == orig[j],
            decreases n - i,
        {
            components[i].style.bold = true;
            i = i + 1;
        }
        Text { components }
    }
}

impl Text {
    /// Make every component unbolded.
    pub fn no_bold(self) -> (r: Text)
        ensures
            r.components@.len() == self.components@.len(),
            forall|i: int|
                0 <= i < self.components@.len() ==> (#[trigger] r.components@[i]).content
                    == self.components@[i].content && r.components@[i].style == (
                TextStyle { bold: false, ..self.components@[i].style }),
    {
        let ghost orig = self.components@;
        let mut components = self.components;
        let n = components.len();
        let mut i: usize = 0;
        while i < n
            invariant
                n == orig.len(),
                components@.len() == orig.len(),
                i <= n,
                forall|j: int|
                    0 <= j < i ==> (#[trigger] components@[j]).content == orig[j].content
                        && components@[j].style == (TextStyle {
                        bold: false,
                        ..orig[j].style
                    }),
                forall|j: int| i <= j < orig.len() ==> #[trigger] components@[j] == orig[j],
            decreases n - i,
        {
            components[i].style.bold = false;
            i = i + 1;
        }
        Text { components }
    }
}

impl Text {
    /// Make every component italicised.
    pub fn italic(self) -> (r: Text)
        ensures
            r.components@.len() == self.components@.len(),
            forall|i: int|
                0 <= i < self.components@.len() ==> (#[trigger] r.components@[i]).content
                    == self.components@[i].content && r.components@[i].style == (
                TextStyle { italic: true, ..self.components@[i].style }),
    {
        let ghost orig = self.components@;
        let mut components = self.components;
        let n = components.len();
        let mut i: usize = 0;
        while i < n
            invariant
                n == orig.len(),
                components@.len() == orig.len(),
                i <= n,
                forall|j: int|
                    0 <= j < i ==> (#[trigger] components@[j]).content == orig[j].content
                        && components@[j].style == (TextStyle {
                        italic: true,
                        ..orig[j].style
                    }),
                forall|j: int| i <= j < orig.len() ==> #[trigger] components@[j] == orig[j],
            decreases n - i,
        {
            components[i].style.italic = true;
            i = i + 1;
        }
        Text { components }
    }
}

impl Text {
    /// Make every component unitalicised.
    pub fn no_italic(self) -> (r: Text)
        ensures
            r.components@.len() == self.components@.len(),
            forall|i: int|
                0 <= i < self.components@.len() ==> (#[trigger] r.components@[i]).content
                    == self.components@[i].content && r.components@[i].style == (
                TextStyle { italic: false, ..self.components@[i].style }),
    {
        let ghost orig = self.components@;
        let mut components = self.components;
        let n = components.len();
        let mut i: usize = 0;
        while i < n
            invariant
                n == orig.len(),
                components@.len() == orig.len(),
                i <= n,
                forall|j: int|
                    0 <= j < i ==> (#[trigger] components@[j]).content == orig[j].content
                        && components@[j].style == (TextStyle {
                        italic: false,
                        ..orig[j].style
                    }),
                forall|j: int| i <= j < orig.len() ==> #[trigger] components@[j] == orig[j],
            decreases n - i,
        {
            components[i].style.italic = false;
            i = i + 1;
        }
        Text { components }
    }
}

impl Text {
    /// Make every component underlined.
    pub fn underline(self) -> (r: Text)
        ensures
            r.components@.len() == self.components@.len(),
            forall|i: int|
                0 <= i < self.components@.len() ==> (#[trigger] r.components@[i]).content
                    == self.components@[i].content && r.components@[i].style == (
                TextStyle { underline: true, ..self.components@[i].style }),
    {
        let ghost orig = self.components@;
        let mut components = self.components;
        let n = components.len();
        let mut i: usize = 0;
        while i < n
            invariant
                n == orig.len(),
                components@.len() == orig.len(),
                i <= n,
                forall|j: int|
                    0 <= j < i ==> (#[trigger] components@[j]).content == orig[j].content
                        && components@[j].style == (TextStyle {
                        underline: true,
                        ..orig[j].style
                    }),
                forall|j: int| i <= j < orig.len() ==> #[trigger] components@[j] == orig[j],
            decreases n - i,
        {
            components[i].style.underline = true;
            i = i + 1;
        }
        Text { components }
    }
}

impl Text {
    /// Make every component not underlined.
    pub fn no_underline(self) -> (r: Text)
        ensures
            r.components@.len() == self.components@.len(),
            forall|i: int|
                0 <= i < self.components@.len() ==> (#[trigger] r.components@[i]).content
                    == self.components@[i].content && r.components@[i].style == (
                TextStyle { underline: false, ..self.components@[i].style }),
    {
        let ghost orig = self.components@;
        let mut components = self.components;
        let n = components.len();
        let mut i: usize = 0;
        while i < n
            invariant
                n == orig.len(),
                components@.len() == orig.len(),
                i <= n,
                forall|j: int|
                    0 <= j < i ==> (#[trigger] components@[j]).content == orig[j].content
                        && components@[j].style == (TextStyle {
                        underline: false,
                        ..orig[j].style
                    }),
                forall|j: int| i <= j < orig.len() ==> #[trigger] components@[j] == orig[j],
            decreases n - i,
        {
            components[i].style.underline = false;
            i = i + 1;
        }
        Text { components }
    }
}

impl Text {
    /// Make every component crossed out.
    pub fn strike(self) -> (r: Text)
        ensures
            r.components@.len() == self.components@.len(),
            forall|i: int|
                0 <= i < self.components@.len() ==> (#[trigger] r.components@[i]).content
                    == self.components@[i].content && r.components@[i].style == (
                TextStyle { strike: true, ..self.components@[i].style }),
    {
        let ghost orig = self.components@;
        let mut components = self.components;
        let n = components.len();
        let mut i: usize = 0;
        while i < n
            invariant
                n == orig.len(),
                components@.len() == orig.len(),
                i <= n,
                forall|j: int|
                    0 <= j < i ==> (#[trigger] components@[j]).content == orig[j].content
                        && components@[j].style == (TextStyle {
                        strike: true,
                        ..orig[j].style
                    }),
                forall|j: int| i <= j < orig.len() ==> #[trigger] components@[j] == orig[j],
            decreases n - i,
        {
            components[i].style.strike = true;
            i = i + 1;
        }
        Text { components }
    }
}

impl Text {
    /// Make every component not crossed out.
    pub fn no_strike(self) -> (r: Text)
        ensures
            r.components@.len() == self.components@.len(),
            forall|i: int|
                0 <= i < self.components@.len() ==> (#[trigger] r.components@[i]).content
                    == self.components@[i].content && r.components@[i].style == (
                TextStyle { strike: false, ..self.components@[i].style }),
    {
        let ghost orig = self.components@;
        let mut components = self.components;
        let n = components.len();
        let mut i: usize = 0;
        while i < n
            invariant
                n == orig.len(),
                components@.len() == orig.len(),
                i <= n,
                forall|j: int|
                    0 <= j < i ==> (#[trigger] components@[j]).content == orig[j].content
                        && components@[j].style == (TextStyle {
                        strike: false,
                        ..orig[j].style
                    }),
                forall|j: int| i <= j < orig.len() ==> #[trigger] components@[j] == orig[j],
            decreases n - i,
        {
            components[i].style.strike = false;
            i = i + 1;
        }
        Text { components }
    }
}

impl Text {
    /// Make every component obfuscated.
    pub fn obfuscate(self) -> (r: Text)
        ensures
            r.components@.len() == self.components@.len(),
            forall|i: int|
                0 <= i < self.components@.len() ==> (#[trigger] r.components@[i]).content
                    == self.components@[i].content && r.components@[i].style == (
                TextStyle { obfuscate: true, ..self.components@[i].style }),
    {
        let ghost orig = self.components@;
        let mut components = self.components;
        let n = components.len();
        let mut i: usize = 0;
        while i < n
            invariant
                n == orig.len(),
                components@.len() == orig.len(),
                i <= n,
                forall|j: int|
                    0 <= j < i ==> (#[trigger] components@[j]).content == orig[j].content
                        && components@[j].style == (TextStyle {
                        obfuscate: true,
                        ..orig[j].style
                    }),
                forall|j: int| i <= j < orig.len() ==> #[trigger] components@[j] == orig[j],
            decreases n - i,
        {
            components[i].style.obfuscate = true;
            i = i + 1;
        }
        Text { components }
    }
}

impl Text {
    /// Make every component unobfuscated.
    pub fn no_obfuscate(self) -> (r: Text)
        ensures
            r.components@.len() == self.components@.len(),
            forall|i: int|
                0 <= i < self.components@.len() ==> (#[trigger] r.components@[i]).content
                    == self.components@[i].content && r.components@[i].style == (
                TextStyle { obfuscate: false, ..self.components@[i].style }),
    {
        let ghost orig = self.components@;
        let mut components = self.components;
        let n = components.len();
        let mut i: usize = 0;
        while i < n
            invariant
                n == orig.len(),
                components@.len() == orig.len(),
                i <= n,
                forall|j: int|
                    0 <= j < i ==> (#[trigger] components@[j]).content == orig[j].content
                        && components@[j].style == (TextStyle {
                        obfuscate: false,
                        ..orig[j].style
                    }),
                forall|j: int| i <= j < orig.len() ==> #[trigger] components@[j] == orig[j],
            decreases n - i,
        {
            components[i].style.obfuscate = false;
            i = i + 1;
        }
        Text { components }
    }
}

impl Text {
    /// Set every component's shadow colour.
    pub fn shadow(self, colour: Argb) -> (r: Text)
        ensures
            r.components@.len() == self.components@.len(),
            forall|i: int|
                0 <= i < self.components@.len() ==> (#[trigger] r.components@[i]).content
                    == self.components@[i].content && r.components@[i].style == (
                TextStyle { shadow: Some(colour), ..self.components@[i].style }),
    {
        let ghost orig = self.components@;
        let mut components = self.components;
        let n = components.len();
        let mut i: usize = 0;
        while i < n
            invariant
                n == orig.len(),
                components@.len() == orig.len(),
                i <= n,
                forall|j: int|
                    0 <= j < i ==> (#[trigger] components@[j]).content == orig[j].content
                        && components@[j].style == (TextStyle {
                        shadow: Some(colour),
                        ..orig[j].style
                    }),
                forall|j: int| i <= j < orig.len() ==> #[trigger] components@[j] == orig[j],
            decreases n - i,
        {
            components[i].style.shadow = Some(colour);
            i = i + 1;
        }
        Text { components }
    }
}

impl Text {
    /// Remove every component's shadow by making it transparent.
    pub fn no_shadow(self) -> (r: Text)
        ensures
            r.components@.len() == self.components@.len(),
            forall|i: int|
                0 <= i < self.components@.len() ==> (#[trigger] r.components@[i]).content
                    == self.components@[i].content && r.components@[i].style == (
                TextStyle { shadow: Some(Argb { a: 0, r: 0, g: 0, b: 0 }), ..self.components@[i].style }),
    {
        let ghost orig = self.components@;
        let mut components = self.components;
        let n = components.len();
        let mut i: usize = 0;
        while i < n
            invariant
                n == orig.len(),
                components@.len() == orig.len(),
                i <= n,
                forall|j: int|
                    0 <= j < i ==> (#[trigger] components@[j]).content == orig[j].content
                        && components@[j].style == (TextStyle {
                        shadow: Some(Argb { a: 0, r: 0, g: 0, b: 0 }),
                        ..orig[j].style
                    }),
                forall|j: int| i <= j < orig.len() ==> #[trigger] components@[j] == orig[j],
            decreases n - i,
        {
            components[i].style.shadow = Some(Argb { a: 0, r: 0, g: 0, b: 0 });
            i = i + 1;
        }
        Text { components }
    }
}

impl Text {
    /// Restore every component's default shadow.
    pub fn default_shadow(self) -> (r: Text)
        ensures
            r.components@.len() == self.components@.len(),
            forall|i: int|
                0 <= i < self.components@.len() ==> (#[trigger] r.components@[i]).content
                    == self.components@[i].content && r.components@[i].style == (
                TextStyle { shadow: None, ..self.components@[i].style }),
    {
        let ghost orig = self.components@;
        let mut components = self.components;
        let n = components.len();
        let mut i: usize = 0;
        while i < n
            invariant
                n == orig.len(),
                components@.len() == orig.len(),
                i <= n,
                forall|j: int|
                    0 <= j < i ==> (#[trigger] components@[j]).content == orig[j].content
                        && components@[j].style == (TextStyle {
                        shadow: None,
                        ..orig[j].style
                    }),
                forall|j: int| i <= j < orig.len() ==> #[trigger] components@[j] == orig[j],
            decreases n - i,
        {
            components[i].style.shadow = None;
            i = i + 1;
        }
        Text { components }
    }
}

impl Text {
    /// Restore every component's default font.
    pub fn no_font(self) -> (r: Text)
        ensures
            r.components@.len() == self.components@.len(),
            forall|i: int|
                0 <= i < self.components@.len() ==> (#[trigger] r.components@[i]).content
                    == self.components@[i].content && r.components@[i].style == (
                TextStyle { font: None, ..self.components@[i].style }),
    {
        let ghost orig = self.components@;
        let mut components = self.components;
        let n = components.len();
        let mut i: usize = 0;
        while i < n
            invariant
                n == orig.len(),
                components@.len() == orig.len(),
                i <= n,
                forall|j: int|
                    0 <= j < i ==> (#[trigger] components@[j]).content == orig[j].content
                        && components@[j].style == (TextStyle {
                        font: None,
                        ..orig[j].style
                    }),
                forall|j: int| i <= j < orig.len() ==> #[trigger] components@[j] == orig[j],
            decreases n - i,
        {
            components[i].style.font = None;
            i = i + 1;
        }
        Text { components }
    }
}

impl Text {
    /// Disable chat bar insertion for every component.
    pub fn no_insertion(self) -> (r: Text)
        ensures
            r.components@.len() == self.components@.len(),
            forall|i: int|
                0 <= i < self.components@.len() ==> (#[trigger] r.components@[i]).content
                    == self.components@[i].content && r.components@[i].style == (
                TextStyle { insertion: None, ..self.components@[i].style }),
    {
        let ghost orig = self.components@;
        let mut components = self.components;
        let n = components.len();
        let mut i: usize = 0;
        while i < n
            invariant
                n == orig.len(),
                components@.len() == orig.len(),
                i <= n,
                forall|j: int|
                    0 <= j < i ==> (#[trigger] components@[j]).content == orig[j].content
                        && components@[j].style == (TextStyle {
                        insertion: None,
                        ..orig[j].style
                    }),
                forall|j: int| i <= j < orig.len() ==> #[trigger] components@[j] == orig[j],
            decreases n - i,
        {
            components[i].style.insertion = None;
            i = i + 1;
        }
        Text { components }
    }
}

impl Text {
    /// Disable click actions for every component.
    pub fn no_on_click(self) -> (r: Text)
        ensures
            r.components@.len() == self.components@.len(),
            forall|i: int|
                0 <= i < self.components@.len() ==> (#[trigger] r.components@[i]).content
                    == self.components@[i].content && r.components@[i].style == (
                TextStyle { on_click: None, ..self.components@[i].style }),
    {
        let ghost orig = self.components@;
        let mut components = self.components;
        let n = components.len();
        let mut i: usize = 0;
        while i < n
            invariant
                n == orig.len(),
                components@.len() == orig.len(),
                i <= n,
                forall|j: int|
                    0 <= j < i ==> (#[trigger] components@[j]).content == orig[j].content
                        && components@[j].style == (TextStyle {
                        on_click: None,
                        ..orig[j].style
                    }),
                forall|j: int| i <= j < orig.len() ==> #[trigger] components@[j] == orig[j],
            decreases n - i,
        {
            components[i].style.on_click = None;
            i = i + 1;
        }
        Text { components }
    }
}

impl Text {
    /// Disable tooltips for every component.
    pub fn no_tooltip(self) -> (r: Text)
        ensures
            r.components@.len() == self.components@.len(),
            forall|i: int|
                0 <= i < self.components@.len() ==> (#[trigger] r.components@[i]).content
                    == self.components@[i].content && r.components@[i].style == (
                TextStyle { tooltip: None, ..self.components@[i].style }),
    {
        let ghost orig = self.components@;
        let mut components = self.components;
        let n = components.len();
        let mut i: usize = 0;
        while i < n
            invariant
                n == orig.len(),
                components@.len() == orig.len(),
                i <= n,
                forall|j: int|
                    0 <= j < i ==> (#[trigger] components@[j]).content == orig[j].content
                        && components@[j].style == (TextStyle {
                        tooltip: None,
                        ..orig[j].style
                    }),
                forall|j: int| i <= j < orig.len() ==> #[trigger] components@[j] == orig[j],
            decreases n - i,
        {
            components[i].style.tooltip = None;
            i = i + 1;
        }
        Text { components }
    }
}

impl Text {
    /// Set every component's font resource ID.
    pub fn font(self, resource: Ident) -> (r: Text)
        ensures
            r.components@.len() == self.components@.len(),
            forall|i: int|
                0 <= i < self.components@.len() ==> (#[trigger] r.components@[i]).content
                    == self.components@[i].content && (r.components@[i].style.font
                    matches Some(f) && f@ == resource@) && r.components@[i].style == (
                TextStyle {
                    font: r.components@[i].style.font,
                    ..self.components@[i].style
                }),
    {
        let ghost orig = self.components@;
        let mut components = self.components;
        let n = components.len();
        let mut i: usize = 0;
        while i < n
            invariant
                n == orig.len(),
                components@.len() == orig.len(),
                i <= n,
                forall|j: int|
                    0 <= j < i ==> (#[trigger] components@[j]).content == orig[j].content
                        && (components@[j].style.font matches Some(f) && f@ == resource@)
                        && components@[j].style == (TextStyle {
                        font: components@[j].style.font,
                        ..orig[j].style
                    }),
                forall|j: int| i <= j < orig.len() ==> #[trigger] components@[j] == orig[j],
            decreases n - i,
        {
            components[i].style.font = Some(resource.duplicate());
            i = i + 1;
        }
        Text { components }
    }
}

impl Text {
    /// Set the string inserted into the chat bar when a component is
    /// shift-clicked.
    pub fn insertion(self, text: String) -> (r: Text)
        ensures
            r.components@.len() == self.components@.len(),
            forall|i: int|
                0 <= i < self.components@.len() ==> (#[trigger] r.components@[i]).content
                    == self.components@[i].content && (r.components@[i].style.insertion
                    matches Some(t) && t@ == text@) && r.components@[i].style == (
                TextStyle {
                    insertion: r.components@[i].style.insertion,
                    ..self.components@[i].style
                }),
    {
        let ghost orig = self.components@;
        let mut components = self.components;
        let n = components.len();
        let mut i: usize = 0;
        while i < n
            invariant
                n == orig.len(),
                components@.len() == orig.len(),
                i <= n,
                forall|j: int|
                    0 <= j < i ==> (#[trigger] components@[j]).content == orig[j].content
                        && (components@[j].style.insertion matches Some(t) && t@ == text@)
                        && components@[j].style == (TextStyle {
                        insertion: components@[j].style.insertion,
                        ..orig[j].style
                    }),
                forall|j: int| i <= j < orig.len() ==> #[trigger] components@[j] == orig[j],
            decreases n - i,
        {
            components[i].style.insertion = Some(text.as_str().to_owned());
            i = i + 1;
        }
        Text { components }
    }
}

impl Text {
    /// Attach a click action. The action cannot be copied, so it attaches
    /// to the first component; the rest are unchanged.
    pub fn on_click(self, action: Action) -> (r: Text)
        ensures
            r.components@.len() == self.components@.len(),
            self.components@.len() > 0 ==> r.components@[0].content
                == self.components@[0].content && r.components@[0].style == (TextStyle {
                on_click: Some(action),
                ..self.components@[0].style
            }),
            forall|i: int|
                1 <= i < self.components@.len() ==> #[trigger] r.components@[i]
                    == self.components@[i],
    {
        let mut components = self.components;
        if components.len() > 0 {
            components[0].style.on_click = Some(action);
        }
        Text { components }
    }
}

impl Text {
    /// Attach a tooltip. The tooltip cannot be copied, so it attaches to
    /// the first component; the rest are unchanged.
    pub fn tooltip(self, text: Text) -> (r: Text)
        ensures
            r.components@.len() == self.components@.len(),
            self.components@.len() > 0 ==> r.components@[0].content
                == self.components@[0].content && r.components@[0].style == (TextStyle {
                tooltip: Some(text),
                ..self.components@[0].style
            }),
            forall|i: int|
                1 <= i < self.components@.len() ==> #[trigger] r.components@[i]
                    == self.components@[i],
    {
        let mut components = self.components;
        if components.len() > 0 {
            components[0].style.tooltip = Some(text);
        }
        Text { components }
    }
}

impl Text {
    /// Disable all styling information on every component.
    pub fn reset(self) -> (r: Text)
        ensures
            r.components@.len() == self.components@.len(),
            forall|i: int|
                0 <= i < self.components@.len() ==> (#[trigger] r.components@[i]).content
                    == self.components@[i].content && style_is_empty(
                    r.components@[i].style,
                ),
    {
        let ghost orig = self.components@;
        let mut components = self.components;
        let n = components.len();
        let mut i: usize = 0;
        while i < n
            invariant
                n == orig.len(),
                components@.len() == orig.len(),
                i <= n,
                forall|j: int|
                    0 <= j < i ==> (#[trigger] components@[j]).content == orig[j].content
                        && style_is_empty(components@[j].style),
                forall|j: int| i <= j < orig.len() ==> #[trigger] components@[j] == orig[j],
            decreases n - i,
        {
            components[i].style = TextStyle::empty();
            i = i + 1;
        }
        Text { components }
    }
}

impl Text {
    /// Rebuild every component through `f`, in order.
    pub fn apply<F: Fn(TextComponent) -> TextComponent>(self, f: F) -> (r: Text)
        requires
            forall|c: TextComponent| #[trigger] call_requires(f, (c,)),
        ensures
            r.components@.len() == self.components@.len(),
            forall|i: int|
                0 <= i < self.components@.len() ==> call_ensures(
                    f,
                    (self.components@[i],),
                    #[trigger] r.components@[i],
                ),
    {
        let ghost orig = self.components@;
        let mut src = self.components;
        let mut out: Vec<TextComponent> = Vec::new();
        while src.len() > 0
            invariant
                forall|c: TextComponent| #[trigger] call_requires(f, (c,)),
                out@.len() + src@.len() == orig.len(),
                src@ =~= orig.skip(out@.len() as int),
                forall|i: int|
                    0 <= i < out@.len() ==> call_ensures(
                        f,
                        (orig[i],),
                        #[trigger] out@[i],
                    ),
            decreases src@.len(),
        {
            let c = src.remove(0);
            out.push(f(c));
            proof {
                assert(src@ =~= orig.skip(out@.len() as int));
            }
        }
        Text { components: out }
    }
}

impl Text {
    /// Set every component's colour to the vanilla `§0` colour.
    pub fn black(self) -> (r: Text)
        ensures
            r.components@.len() == self.components@.len(),
            forall|i: int|
                0 <= i < self.components@.len() ==> (#[trigger] r.components@[i]).content
                    == self.components@[i].content && r.components@[i].style == (
                TextStyle {
                    colour: Rgb { r: 0, g: 0, b: 0 },
                    ..self.components@[i].style
                }),
    {
        self.colour(Rgb { r: 0, g: 0, b: 0 })
    }
}

impl Text {
    /// Set every component's colour to the vanilla `§1` colour.
    pub fn dark_blue(self) -> (r: Text)
        ensures
            r.components@.len() == self.components@.len(),
            forall|i: int|
                0 <= i < self.components@.len() ==> (#[trigger] r.components@[i]).content
                    == self.components@[i].content && r.components@[i].style == (
                TextStyle {
                    colour: Rgb { r: 0, g: 0, b: 170 },
                    ..self.components@[i].style
                }),
    {
        self.colour(Rgb { r: 0, g: 0, b: 170 })
    }
}

impl Text {
    /// Set every component's colour to the vanilla `§2` colour.
    pub fn dark_green(self) -> (r: Text)
        ensures
            r.components@.len() == self.components@.len(),
            forall|i: int|
                0 <= i < self.components@.len() ==> (#[trigger] r.components@[i]).content
                    == self.components@[i].content && r.components@[i].style == (
                TextStyle {
                    colour: Rgb { r: 0, g: 170, b: 0 },
                    ..self.components@[i].style
                }),
    {
        self.colour(Rgb { r: 0, g: 170, b: 0 })
    }
}

impl Text {
    /// Set every component's colour to the vanilla `§3` colour.
    pub fn dark_cyan(self) -> (r: Text)
        ensures
            r.components@.len() == self.components@.len(),
            forall|i: int|
                0 <= i < self.components@.len() ==> (#[trigger] r.components@[i]).content
                    == self.components@[i].content && r.components@[i].style == (
                TextStyle {
                    colour: Rgb { r: 0, g: 170, b: 170 },
                    ..self.components@[i].style
                }),
    {
        self.colour(Rgb { r: 0, g: 170, b: 170 })
    }
}

impl Text {
    /// Set every component's colour to the vanilla `§4` colour.
    pub fn dark_red(self) -> (r: Text)
        ensures
            r.components@.len() == self.components@.len(),
            forall|i: int|
                0 <= i < self.components@.len() ==> (#[trigger] r.components@[i]).content
                    == self.components@[i].content && r.components@[i].style == (
                TextStyle {
                    colour: Rgb { r: 170, g: 0, b: 0 },
                    ..self.components@[i].style
                }),
    {
        self.colour(Rgb { r: 170, g: 0, b: 0 })
    }
}

impl Text {
    /// Set every component's colour to the vanilla `§5` colour.
    pub fn purple(self) -> (r: Text)
        ensures
            r.components@.len() == self.components@.len(),
            forall|i: int|
                0 <= i < self.components@.len() ==> (#[trigger] r.components@[i]).content
                    == self.components@[i].content && r.components@[i].style == (
                TextStyle {
                    colour: Rgb { r: 170, g: 0, b: 170 },
                    ..self.components@[i].style
                }),
    {
        self.colour(Rgb { r: 170, g: 0, b: 170 })
    }
}

impl Text {
    /// Set every component's colour to the vanilla `§6` colour.
    pub fn orange(self) -> (r: Text)
        ensures
            r.components@.len() == self.components@.len(),
            forall|i: int|
                0 <= i < self.components@.len() ==> (#[trigger] r.components@[i]).content
                    == self.components@[i].content && r.components@[i].style == (
                TextStyle {
                    colour: Rgb { r: 255, g: 170, b: 0 },
                    ..self.components@[i].style
                }),
    {
        self.colour(Rgb { r: 255, g: 170, b: 0 })
    }
}

impl Text {
    /// Set every component's colour to the vanilla `§7` colour.
    pub fn grey(self) -> (r: Text)
        ensures
            r.components@.len() == self.components@.len(),
            forall|i: int|
                0 <= i < self.components@.len() ==> (#[trigger] r.components@[i]).content
                    == self.components@[i].content && r.components@[i].style == (
                TextStyle {
                    colour: Rgb { r: 170, g: 170, b: 170 },
                    ..self.components@[i].style
                }),
    {
        self.colour(Rgb { r: 170, g: 170, b: 170 })
    }
}

impl Text {
    /// Set every component's colour to the vanilla `§8` colour.
    pub fn dark_grey(self) -> (r: Text)
        ensures
            r.components@.len() == self.components@.len(),
            forall|i: int|
                0 <= i < self.components@.len() ==> (#[trigger] r.components@[i]).content
                    == self.components@[i].content && r.components@[i].style == (
                TextStyle {
                    colour: Rgb { r: 85, g: 85, b: 85 },
                    ..self.components@[i].style
                }),
    {
        self.colour(Rgb { r: 85, g: 85, b: 85 })
    }
}

impl Text {
    /// Set every component's colour to the vanilla `§9` colour.
    pub fn blue(self) -> (r: Text)
        ensures
            r.components@.len() == self.components@.len(),
            forall|i: int|
                0 <= i < self.components@.len() ==> (#[trigger] r.components@[i]).content
                    == self.components@[i].content && r.components@[i].style == (
                TextStyle {
                    colour: Rgb { r: 85, g: 85, b: 255 },
                    ..self.components@[i].style
                }),
    {
        self.colour(Rgb { r: 85, g: 85, b: 255 })
    }
}

impl Text {
    /// Set every component's colour to the vanilla `§a` colour.
    pub fn green(self) -> (r: Text)
        ensures
            r.components@.len() == self.components@.len(),
            forall|i: int|
                0 <= i < self.components@.len() ==> (#[trigger] r.components@[i]).content
                    == self.components@[i].content && r.components@[i].style == (
                TextStyle {
                    colour: Rgb { r: 85, g: 255, b: 85 },
                    ..self.components@[i].style
                }),
    {
        self.colour(Rgb { r: 85, g: 255, b: 85 })
    }
}

impl Text {
    /// Set every component's colour to the vanilla `§b` colour.
    pub fn cyan(self) -> (r: Text)
        ensures
            r.components@.len() == self.components@.len(),
            forall|i: int|
                0 <= i < self.components@.len() ==> (#[trigger] r.components@[i]).content
                    == self.components@[i].content && r.components@[i].style == (
                TextStyle {
                    colour: Rgb { r: 85, g: 255, b: 255 },
                    ..self.components@[i].style
                }),
    {
        self.colour(Rgb { r: 85, g: 255, b: 255 })
    }
}

impl Text {
    /// Set every component's colour to the vanilla `§c` colour.
    pub fn red(self) -> (r: Text)
        ensures
            r.components@.len() == self.components@.len(),
            forall|i: int|
                0 <= i < self.components@.len() ==> (#[trigger] r.components@[i]).content
                    == self.components@[i].content && r.components@[i].style == (
                TextStyle {
                    colour: Rgb { r: 255, g: 85, b: 85 },
                    ..self.components@[i].style
                }),
    {
        self.colour(Rgb { r: 255, g: 85, b: 85 })
    }
}

impl Text {
    /// Set every component's colour to the vanilla `§d` colour.
    pub fn pink(self) -> (r: Text)
        ensures
            r.components@.len() == self.components@.len(),
            forall|i: int|
                0 <= i < self.components@.len() ==> (#[trigger] r.components@[i]).content
                    == self.components@[i].content && r.components@[i].style == (
                TextStyle {
                    colour: Rgb { r: 255, g: 85, b: 255 },
                    ..self.components@[i].style
                }),
    {
        self.colour(Rgb { r: 255, g: 85, b: 255 })
    }
}

impl Text {
    /// Set every component's colour to the vanilla `§e` colour.
    pub fn yellow(self) -> (r: Text)
        ensures
            r.components@.len() == self.components@.len(),
            forall|i: int|
                0 <= i < self.components@.len() ==> (#[trigger] r.components@[i]).content
                    == self.components@[i].content && r.components@[i].style == (
                TextStyle {
                    colour: Rgb { r: 255, g: 255, b: 85 },
                    ..self.components@[i].style
                }),
    {
        self.colour(Rgb { r: 255, g: 255, b: 85 })
    }
}

impl Text {
    /// Set every component's colour to the vanilla `§f` colour.
    pub fn white(self) -> (r: Text)
        ensures
            r.components@.len() == self.components@.len(),
            forall|i: int|
                0 <= i < self.components@.len() ==> (#[trigger] r.components@[i]).content
                    == self.components@[i].content && r.components@[i].style == (
                TextStyle {
                    colour: Rgb { r: 255, g: 255, b: 255 },
                    ..self.components@[i].style
                }),
    {
        self.colour(Rgb { r: 255, g: 255, b: 255 })
    }
}

} // verus!

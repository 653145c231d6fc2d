//! The data that the backend helpers work on.

use indexmap::IndexMap;
use vstd::prelude::*;

verus! {

/// The program that prints the system information beside the ascii art.
#[derive(Clone, Copy, Debug, PartialEq, Eq, Structural)]
pub enum Backend {
    Neofetch,
    Fastfetch,
    Macchina,
}

/// A color slot of neofetch ascii art, written `${c1}` to `${c6}` in the art:
/// an index from 1 to 6.
#[derive(Clone, Copy, Debug, PartialEq, Eq, Hash, Structural)]
pub struct NeofetchAsciiIndexedColor {
    index: u8,
}

/// The smallest and the largest neofetch color index.
pub const NEOFETCH_COLORS_MIN: u8 = 1;

pub const NEOFETCH_COLORS_MAX: u8 = 6;

impl NeofetchAsciiIndexedColor {
    #[verifier::type_invariant]
    spec fn in_range(self) -> bool {
        NEOFETCH_COLORS_MIN <= self.index <= NEOFETCH_COLORS_MAX
    }

    /// The index this color stands for.
    pub closed spec fn spec_index(self) -> u8 {
        self.index
    }

    /// The color with index `index`, when it is a valid neofetch index.
    pub fn new(index: u8) -> (r: Option<Self>)
        ensures
            r is Some <==> NEOFETCH_COLORS_MIN <= index <= NEOFETCH_COLORS_MAX,
            r matches Some(c) ==> c.spec_index() == index,
    {
        if NEOFETCH_COLORS_MIN <= index && index <= NEOFETCH_COLORS_MAX {
            Some(NeofetchAsciiIndexedColor { index })
        } else {
            None
        }
    }

    /// The index of this color, from 1 to 6.
    pub fn index(&self) -> (i: u8)
        ensures
            i == self.spec_index(),
            NEOFETCH_COLORS_MIN <= i <= NEOFETCH_COLORS_MAX,
    {
        proof {
            use_type_invariant(self);
        }
        self.index
    }
}

/// Ascii art as it comes from the distro database or from neofetch, with the
/// color slots that count as foreground.
pub struct RawAsciiArt {
    pub asc: String,
    pub fg: Vec<NeofetchAsciiIndexedColor>,
}

/// Ascii art with its colors applied, one string per line, and its size.
pub struct RecoloredAsciiArt {
    pub lines: Vec<String>,
    pub w: u8,
    pub h: u8,
}

/// An entry of the distro database: the distro's ascii art and the color
/// indices of its foreground.
pub struct Distro {
    pub ascii_art: String,
    pub foreground: Vec<u8>,
}

/// An index into the colors of a hyfetch color preset.
#[derive(Clone, Copy, Debug, PartialEq, Eq, Hash, Structural)]
pub struct PresetIndexedColor(pub u8);

/// `indexmap::IndexMap`, an insertion-ordered map, declared so that it can be
/// held in a field. Nothing is assumed of its contents.
#[verifier::external_type_specification]
#[verifier::external_body]
#[verifier::reject_recursive_types(K)]
#[verifier::reject_recursive_types(V)]
#[verifier::reject_recursive_types(S)]
pub struct ExIndexMap<K, V, S>(IndexMap<K, V, S>);

/// How the colors of a preset are laid over the ascii art.
pub enum ColorAlignment {
    /// Preset colors run across the art, one per row band.
    Horizontal,
    /// Preset colors run down the art, one per column band.
    Vertical,
    /// Each neofetch color slot of the art gets a chosen preset color.
    Custom { colors: IndexMap<NeofetchAsciiIndexedColor, PresetIndexedColor> },
}

} // verus!

//! The macchina theme files that hyfetch writes: TOML documents that point
//! macchina at an ascii art file.

use vstd::prelude::*;

use crate::external::{render_toml_document, toml_document_text};

verus! {

/// A TOML value of a theme entry.
pub enum TomlValue {
    Integer(i64),
    Boolean(bool),
    Text(String),
    /// A table of string values, in insertion order.
    Table(Vec<(String, String)>),
}

/// The mathematical value of a [`TomlValue`].
pub enum TomlValueView {
    Integer(int),
    Boolean(bool),
    Text(Seq<char>),
    Table(Seq<(Seq<char>, Seq<char>)>),
}

impl View for TomlValue {
    type V = TomlValueView;

    open spec fn view(&self) -> TomlValueView {
        match self {
            TomlValue::Integer(i) => TomlValueView::Integer(*i as int),
            TomlValue::Boolean(b) => TomlValueView::Boolean(*b),
            TomlValue::Text(s) => TomlValueView::Text(s@),
            TomlValue::Table(t) => TomlValueView::Table(
                t@.map_values(|e: (String, String)| (e.0@, e.1@)),
            ),
        }
    }
}

/// The views of a list of document entries.
pub open spec fn entry_views(entries: Seq<(String, TomlValue)>) -> Seq<(Seq<char>, TomlValueView)> {
    entries.map_values(|e: (String, TomlValue)| (e.0@, e.1@))
}

/// Which theme to write.
#[derive(Clone, Copy, Debug, PartialEq, Eq, Structural)]
pub enum MacchinaTheme {
    /// For showing the system information beside custom ascii art.
    Display,
    /// For asking macchina for the distro name alone.
    DistroQuery,
}

/// The entries of a theme whose custom ascii art is the file at `ascii_path`.
pub open spec fn theme_entries(theme: MacchinaTheme, ascii_path: Seq<char>) -> Seq<
    (Seq<char>, TomlValueView),
> {
    let custom_ascii = TomlValueView::Table(seq![("path"@, ascii_path)]);
    match theme {
        MacchinaTheme::Display => seq![
            ("hide_ascii"@, TomlValueView::Boolean(false)),
            ("custom_ascii"@, custom_ascii),
        ],
        MacchinaTheme::DistroQuery => seq![
            ("spacing"@, TomlValueView::Integer(0)),
            ("padding"@, TomlValueView::Integer(0)),
            ("hide_ascii"@, TomlValueView::Boolean(false)),
            ("separator"@, TomlValueView::Text(""@)),
            ("custom_ascii"@, custom_ascii),
            ("keys"@, TomlValueView::Table(seq![("os"@, ""@), ("distro"@, ""@)])),
        ],
    }
}

fn text(s: &str) -> (r: String)
    ensures
        r@ == s@,
{
    String::from_str(s)
}

/// The TOML text of a macchina theme whose custom ascii art is the file at
/// `ascii_path`.
pub fn macchina_theme_toml(theme: MacchinaTheme, ascii_path: &str) -> (r: String)
    ensures
        r@ == toml_document_text(theme_entries(theme, ascii_path@)),
{
    let custom_ascii = TomlValue::Table(vec![(text("path"), text(ascii_path))]);
    let entries: Vec<(String, TomlValue)> = match theme {
        MacchinaTheme::Display => vec![
            (text("hide_ascii"), TomlValue::Boolean(false)),
            (text("custom_ascii"), custom_ascii),
        ],
        MacchinaTheme::DistroQuery => vec![
            (text("spacing"), TomlValue::Integer(0)),
            (text("padding"), TomlValue::Integer(0)),
            (text("hide_ascii"), TomlValue::Boolean(false)),
            (text("separator"), TomlValue::Text(text(""))),
            (text("custom_ascii"), custom_ascii),
            (text("keys"), TomlValue::Table(vec![(text("os"), text("")), (text("distro"), text(""))])),
        ],
    };
    proof {
        let expected = theme_entries(theme, ascii_path@);
        assert(entry_views(entries@) =~= expected) by {
            match theme {
                MacchinaTheme::Display => {
                    assert(entry_views(entries@)[1].1 == expected[1].1) by {
                        let t = entry_views(entries@)[1].1;
                        assert(t matches TomlValueView::Table(rows) && rows =~= seq![("path"@, ascii_path@)]);
                    }
                },
                MacchinaTheme::DistroQuery => {
                    assert(entry_views(entries@)[4].1 == expected[4].1) by {
                        let t = entry_views(entries@)[4].1;
                        assert(t matches TomlValueView::Table(rows) && rows =~= seq![("path"@, ascii_path@)]);
                    }
                    assert(entry_views(entries@)[5].1 == expected[5].1) by {
                        let t = entry_views(entries@)[5].1;
                        assert(t matches TomlValueView::Table(rows) && rows =~= seq![("os"@, ""@), ("distro"@, ""@)]);
                    }
                },
            }
        }
    }
    render_toml_document(&entries)
}

} // verus!

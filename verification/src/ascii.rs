//! The size of neofetch ascii art.

use vstd::prelude::*;

use vstd::utf8::is_ascii_chars;

use crate::external::{
    count_graphemes, grapheme_count, matching_pattern, patterns_replaced, replace_patterns,
    uniform_patterns,
};
use crate::neofetch_util::NEOFETCH_COLOR_PATTERNS;
use crate::text::{chars_of, lemma_lines_plain, lines, lines_of, string_of, views};

verus! {

/// The color codes `${c1}` .. `${c6}` that neofetch ascii art may hold
/// (`NEOFETCH_COLOR_PATTERNS`).
pub open spec fn color_patterns() -> Seq<Seq<char>> {
    seq![
        seq!['$', '{', 'c', '1', '}'],
        seq!['$', '{', 'c', '2', '}'],
        seq!['$', '{', 'c', '3', '}'],
        seq!['$', '{', 'c', '4', '}'],
        seq!['$', '{', 'c', '5', '}'],
        seq!['$', '{', 'c', '6', '}'],
    ]
}

/// Six empty replacements, one per color code.
pub open spec fn no_replacements() -> Seq<Seq<char>> {
    Seq::new(6, |i: int| Seq::<char>::empty())
}

/// Ascii art with its color codes removed.
pub open spec fn without_color_codes(s: Seq<char>) -> Seq<char> {
    patterns_replaced(color_patterns(), no_replacements(), s)
}

/// The largest grapheme count among `lines`, 0 when there are none.
pub open spec fn max_grapheme_width(lines: Seq<Seq<char>>) -> nat
    decreases lines.len(),
{
    if lines.len() == 0 {
        0
    } else {
        let w = max_grapheme_width(lines.drop_last());
        let g = grapheme_count(lines.last());
        if w >= g {
            w
        } else {
            g
        }
    }
}

/// The largest number of characters among `lines`, 0 when there are none.
pub open spec fn max_line_length(lines: Seq<Seq<char>>) -> nat
    decreases lines.len(),
{
    if lines.len() == 0 {
        0
    } else {
        let w = max_line_length(lines.drop_last());
        if w >= lines.last().len() {
            w
        } else {
            lines.last().len()
        }
    }
}

proof fn lemma_width_is_length(lines: Seq<Seq<char>>)
    requires
        forall|i: int| 0 <= i < lines.len() ==> grapheme_count(#[trigger] lines[i]) == lines[i].len(),
    ensures
        max_grapheme_width(lines) == max_line_length(lines),
    decreases lines.len(),
{
    if lines.len() > 0 {
        let init = lines.drop_last();
        assert forall|i: int| 0 <= i < init.len() implies grapheme_count(#[trigger] init[i])
            == init[i].len() by {
            assert(init[i] == lines[i]);
        }
        lemma_width_is_length(init);
        assert(lines.last() == lines[lines.len() - 1]);
    }
}

proof fn lemma_strip_keeps_ascii(s: Seq<char>)
    requires
        is_ascii_chars(s),
    ensures
        is_ascii_chars(without_color_codes(s)),
    decreases s.len(),
{
    let pats = color_patterns();
    let reps = no_replacements();
    if s.len() > 0 {
        let t = s.skip(1);
        assert(is_ascii_chars(t)) by {
            assert forall|k: int| 0 <= k < t.len() implies '\0' <= #[trigger] t[k] <= '\u{7f}' by {
                assert(t[k] == s[k + 1]);
            }
        }
        let r = without_color_codes(s);
        match matching_pattern(pats, s) {
            Some(k) => {
                if 0 <= k < pats.len() && 0 < pats[k].len() <= s.len() {
                    let u = s.skip(pats[k].len() as int);
                    assert(is_ascii_chars(u)) by {
                        assert forall|m: int| 0 <= m < u.len() implies '\0' <= #[trigger] u[m]
                            <= '\u{7f}' by {
                            assert(u[m] == s[m + pats[k].len()]);
                        }
                    }
                    lemma_strip_keeps_ascii(u);
                    assert(reps[k] + without_color_codes(u) =~= without_color_codes(u));
                } else {
                    lemma_strip_keeps_ascii(t);
                    assert(r == seq![s[0]] + without_color_codes(t));
                    assert forall|m: int| 0 <= m < r.len() implies '\0' <= #[trigger] r[m] <= '\u{7f}' by {
                        if m > 0 {
                            assert(r[m] == without_color_codes(t)[m - 1]);
                        }
                    }
                }
            },
            None => {
                lemma_strip_keeps_ascii(t);
                assert(r == seq![s[0]] + without_color_codes(t));
                assert forall|m: int| 0 <= m < r.len() implies '\0' <= #[trigger] r[m] <= '\u{7f}' by {
                    if m > 0 {
                        assert(r[m] == without_color_codes(t)[m - 1]);
                    }
                }
            },
        }
    } else {
        assert(without_color_codes(s) == s);
    }
}

/// The width of ascii art: its widest line in graphemes, color codes ignored.
pub open spec fn ascii_width(asc: Seq<char>) -> nat {
    max_grapheme_width(lines_of(without_color_codes(asc)))
}

/// The height of ascii art: its number of lines, color codes ignored.
pub open spec fn ascii_height(asc: Seq<char>) -> nat {
    lines_of(without_color_codes(asc)).len()
}

/// Why ascii art has no size in `u16`.
#[derive(Clone, Copy, Debug, PartialEq, Eq, Structural)]
pub enum AsciiSizeError {
    /// The widest line has more than `u16::MAX` graphemes.
    WidthOverflow,
    /// There are more than `u16::MAX` lines.
    HeightOverflow,
}

/// The color codes, as strings.
fn color_pattern_strings() -> (v: Vec<String>)
    ensures
        views(v@) == color_patterns(),
{
    let mut v: Vec<String> = Vec::new();
    for i in 0..6
        invariant
            v@.len() == i,
            forall|k: int| 0 <= k < i ==> #[trigger] v@[k]@ == NEOFETCH_COLOR_PATTERNS@[k]@,
    {
        v.push(String::from_str(NEOFETCH_COLOR_PATTERNS[i]));
    }
    proof {
        reveal_strlit("${c1}");
        reveal_strlit("${c2}");
        reveal_strlit("${c3}");
        reveal_strlit("${c4}");
        reveal_strlit("${c5}");
        reveal_strlit("${c6}");
        assert(v@[0]@ =~= color_patterns()[0]);
        assert(v@[1]@ =~= color_patterns()[1]);
        assert(v@[2]@ =~= color_patterns()[2]);
        assert(v@[3]@ =~= color_patterns()[3]);
        assert(v@[4]@ =~= color_patterns()[4]);
        assert(v@[5]@ =~= color_patterns()[5]);
        assert(views(v@) =~= color_patterns());
    }
    v
}

/// Gets distro ascii width and height, ignoring color codes: the width is the
/// largest number of graphemes on a line, the height the number of lines.
pub fn ascii_size(asc: &str) -> (r: Result<(u16, u16), AsciiSizeError>)
    ensures
        match r {
            Ok((w, h)) => {
                &&& w == ascii_width(asc@)
                &&& h == ascii_height(asc@)
            },
            Err(AsciiSizeError::WidthOverflow) => ascii_width(asc@) > u16::MAX,
            Err(AsciiSizeError::HeightOverflow) => {
                &&& ascii_width(asc@) <= u16::MAX
                &&& ascii_height(asc@) > u16::MAX
            },
        },
        forall|i: int|
            0 <= i < lines_of(without_color_codes(asc@)).len() && is_ascii_chars(
                #[trigger] lines_of(without_color_codes(asc@))[i],
            ) ==> grapheme_count(lines_of(without_color_codes(asc@))[i])
                == lines_of(without_color_codes(asc@))[i].len(),
        is_ascii_chars(asc@) ==> ascii_width(asc@) == max_line_length(
            lines_of(without_color_codes(asc@)),
        ),
{
    if asc.is_empty() {
        assert(asc@ =~= Seq::<char>::empty());
        assert(lines_of(without_color_codes(asc@)) =~= Seq::<Seq<char>>::empty());
        return Ok((0, 0));
    }
    let patterns = color_pattern_strings();
    let replacements: Vec<String> = vec![
        String::new(),
        String::new(),
        String::new(),
        String::new(),
        String::new(),
        String::new(),
    ];
    assert(views(replacements@) =~= no_replacements());
    assert(uniform_patterns(color_patterns()));
    let stripped = replace_patterns(asc, &patterns, &replacements);
    let cs = chars_of(stripped.as_str());
    let ls = lines(&cs);
    let ghost all = lines_of(without_color_codes(asc@));
    proof {
        lemma_lines_plain(without_color_codes(asc@));
    }
    let mut width: usize = 0;
    for i in 0..ls.len()
        invariant
            all == lines_of(without_color_codes(asc@)),
            crate::text::char_views(ls@) == all,
            width == max_grapheme_width(all.take(i as int)),
            forall|k: int, j: int|
                0 <= k < all.len() && 0 <= j < all[k].len() ==> #[trigger] all[k][j] != '\n',
            forall|k: int|
                0 <= k < i && is_ascii_chars(#[trigger] all[k]) ==> grapheme_count(all[k])
                    == all[k].len(),
    {
        let line = string_of(&ls[i]);
        assert(line@ == all[i as int]);
        assert forall|j: int| 0 <= j < line@.len() - 1 implies !(#[trigger] line@[j] == '\r'
            && line@[j + 1] == '\n') by {
            assert(all[i as int][j + 1] != '\n');
        }
        let g = count_graphemes(line.as_str());
        assert(all.take(i + 1).drop_last() =~= all.take(i as int));
        assert(all[i as int] == ls@[i as int]@);
        if g > width {
            width = g;
        }
    }
    assert(all.take(ls.len() as int) =~= all);
    proof {
        if is_ascii_chars(asc@) {
            lemma_strip_keeps_ascii(asc@);
            lemma_lines_plain(without_color_codes(asc@));
            lemma_width_is_length(all);
        }
    }
    if width > 65535 {
        return Err(AsciiSizeError::WidthOverflow);
    }
    if ls.len() > 65535 {
        return Err(AsciiSizeError::HeightOverflow);
    }
    Ok((width as u16, ls.len() as u16))
}

} // verus!

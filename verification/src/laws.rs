//! Properties that span several functions of the library.

use vstd::prelude::*;

use crate::ascii::{
    ascii_height, ascii_width, color_patterns, max_grapheme_width, no_replacements,
    without_color_codes,
};
use crate::external::{grapheme_count, lowercase, matching_pattern, patterns_replaced};
use crate::neofetch_util::{
    chosen_bash, distro_name_in_output, escaped_for_neofetch, exact_match, extra_args,
    is_selection, normalized_selection, run_command, unescaped_from_neofetch, CommandArgView,
};
use crate::text::{
    after_first, find_char, has_prefix, is_white_space, joined, lemma_pieces_nonempty, lines_of,
    pieces, replaced, strip_cr, trim_end, trim_start, trimmed,
};
use crate::external::ansi_stripped;
use crate::types::Backend;

verus! {

proof fn lemma_unescape_pair(t: Seq<char>)
    ensures
        unescaped_from_neofetch(seq!['\\', '\\'] + t) == seq!['\\'] + unescaped_from_neofetch(t),
{
    reveal_strlit("\\");
    reveal_strlit("\\\\");
    let s = seq!['\\', '\\'] + t;
    assert(s.take(2) =~= "\\\\"@);
    assert(has_prefix(s, "\\\\"@));
    assert(s.skip(2) =~= t);
    assert("\\"@ =~= seq!['\\']);
}

proof fn lemma_unescape_other(c: char, t: Seq<char>)
    requires
        c != '\\',
    ensures
        unescaped_from_neofetch(seq![c] + t) == seq![c] + unescaped_from_neofetch(t),
{
    reveal_strlit("\\\\");
    let s = seq![c] + t;
    assert(s[0] == c);
    assert(!has_prefix(s, "\\\\"@)) by {
        if has_prefix(s, "\\\\"@) {
            assert(s.take(2)[0] == "\\\\"@[0]);
        }
    }
    assert(s.skip(1) =~= t);
}

/// Ascii art that `run` escapes for neofetch reads back unchanged through the
/// unescaping of neofetch's printed art: undoing the doubled backslashes gives
/// back the text that was escaped.
pub proof fn law_neofetch_escape_round_trip(s: Seq<char>)
    ensures
        unescaped_from_neofetch(escaped_for_neofetch(s)) == s,
    decreases s.len(),
{
    reveal_strlit("\\");
    reveal_strlit("\\\\");
    if s.len() > 0 {
        law_neofetch_escape_round_trip(s.skip(1));
        let rest = escaped_for_neofetch(s.skip(1));
        if s[0] == '\\' {
            assert(s.take(1) =~= "\\"@);
            assert(escaped_for_neofetch(s) == "\\\\"@ + rest);
            assert("\\\\"@ =~= seq!['\\', '\\']);
            lemma_unescape_pair(rest);
            assert(seq!['\\'] + s.skip(1) =~= s);
        } else {
            assert(!has_prefix(s, "\\"@)) by {
                if has_prefix(s, "\\"@) {
                    assert(s.take(1)[0] == "\\"@[0]);
                }
            }
            assert(escaped_for_neofetch(s) == seq![s[0]] + rest);
            lemma_unescape_other(s[0], rest);
            assert(seq![s[0]] + s.skip(1) =~= s);
        }
    } else {
        assert(escaped_for_neofetch(s) == s);
    }
}

/// A color code in front of ascii art changes neither its width nor its
/// height: sizes ignore the codes `${c1}` .. `${c6}`.
pub proof fn law_color_code_has_no_size(k: int, s: Seq<char>)
    requires
        0 <= k < 6,
    ensures
        without_color_codes(color_patterns()[k] + s) == without_color_codes(s),
        ascii_width(color_patterns()[k] + s) == ascii_width(s),
        ascii_height(color_patterns()[k] + s) == ascii_height(s),
{
    let pats = color_patterns();
    let t = pats[k] + s;
    assert(t.take(5) =~= pats[k]);
    assert forall|j: int| 0 <= j < k implies !has_prefix(t, #[trigger] pats[j]) by {
        assert(t.take(5)[3] != pats[j][3]);
    }
    assert(matching_pattern(pats, t) == Some(k)) by {
        reveal_with_fuel(matching_pattern, 7);
        assert(pats.skip(1)[0] == pats[1]);
        assert(pats.skip(1).skip(1)[0] == pats[2]);
        assert(pats.skip(1).skip(1).skip(1)[0] == pats[3]);
        assert(pats.skip(1).skip(1).skip(1).skip(1)[0] == pats[4]);
        assert(pats.skip(1).skip(1).skip(1).skip(1).skip(1)[0] == pats[5]);
    }
    assert(t.skip(5) =~= s);
    assert(no_replacements()[k] + s =~= s);
}

/// Answering with nothing selects the default: when some option equals the
/// default (case aside), an empty answer selects such an option.
pub proof fn law_empty_answer_selects_default(
    options: Seq<Seq<char>>,
    default: Seq<char>,
    r: Option<int>,
)
    requires
        default.len() > 0,
        exists|j: int| 0 <= j < options.len() && exact_match(#[trigger] options[j], default),
        is_selection(normalized_selection(Seq::empty(), default), options, r),
    ensures
        r matches Some(i) && lowercase(options[i]) == default,
{
    let j = choose|j: int| 0 <= j < options.len() && exact_match(#[trigger] options[j], default);
    assert(has_prefix(lowercase(options[j]), default)) by {
        assert(lowercase(options[j]).take(default.len() as int) =~= default);
    }
}


proof fn lemma_pieces_append_plain(a: Seq<char>, b: Seq<char>)
    requires
        forall|i: int| 0 <= i < b.len() ==> #[trigger] b[i] != '\n',
    ensures
        pieces(a + b) == pieces(a).update(pieces(a).len() - 1, pieces(a).last() + b),
    decreases b.len(),
{
    lemma_pieces_nonempty(a);
    if b.len() == 0 {
        assert(a + b =~= a);
        assert(pieces(a).last() + b =~= pieces(a).last());
        assert(pieces(a).update(pieces(a).len() - 1, pieces(a).last()) =~= pieces(a));
    } else {
        let c = a + b;
        assert(c.drop_last() =~= a + b.drop_last());
        assert(c.last() == b.last());
        assert(b.last() == b[b.len() - 1]);
        lemma_pieces_append_plain(a, b.drop_last());
        lemma_pieces_nonempty(a + b.drop_last());
        assert((pieces(a).last() + b.drop_last()).push(b.last()) =~= pieces(a).last() + b);
        assert(pieces(c) =~= pieces(a).update(pieces(a).len() - 1, pieces(a).last() + b));
    }
}

proof fn lemma_pieces_of_joined(ls: Seq<Seq<char>>)
    requires
        ls.len() > 0,
        forall|i: int, j: int|
            0 <= i < ls.len() && 0 <= j < ls[i].len() ==> #[trigger] ls[i][j] != '\n',
    ensures
        pieces(joined(ls, "\n"@)) == ls,
    decreases ls.len(),
{
    reveal_strlit("\n");
    if ls.len() == 1 {
        let e = Seq::<char>::empty();
        lemma_pieces_append_plain(e, ls[0]);
        assert(e + ls[0] =~= ls[0]);
        assert(pieces(ls[0]) =~= ls);
    } else {
        let init = ls.drop_last();
        lemma_pieces_of_joined(init);
        let j = joined(init, "\n"@);
        let jn = j + "\n"@;
        assert(jn.drop_last() =~= j);
        assert(jn.last() == '\n');
        assert(pieces(jn) == init.push(seq![]));
        assert(forall|k: int| 0 <= k < ls.last().len() ==> #[trigger] ls.last()[k] == ls[ls.len() - 1][k]);
        lemma_pieces_append_plain(jn, ls.last());
        assert(seq![] + ls.last() =~= ls.last());
        assert(pieces(jn + ls.last()) =~= ls);
    }
}

/// Ascii art that `run` writes to a file for fastfetch or macchina reads back
/// line by line as the art's lines, when no line holds a line break, no line
/// but the last ends with a carriage return, and the last line is not empty.
pub proof fn law_run_file_lines(
    ls: Seq<Seq<char>>,
    backend: Backend,
    extra: Seq<CommandArgView>,
)
    requires
        backend != Backend::Neofetch,
        ls.len() > 0,
        ls.last().len() > 0,
        forall|i: int, j: int|
            0 <= i < ls.len() && 0 <= j < ls[i].len() ==> #[trigger] ls[i][j] != '\n',
        forall|i: int|
            0 <= i < ls.len() - 1 ==> #[trigger] ls[i].len() == 0 || ls[i].last() != '\r',
    ensures
        run_command(ls, backend, extra).ascii_file matches Some(f) && lines_of(f) == ls,
{
    lemma_pieces_of_joined(ls);
    let f = joined(ls, "\n"@);
    let ended = ls.drop_last().map_values(|q: Seq<char>| strip_cr(q));
    assert forall|i: int| 0 <= i < ended.len() implies #[trigger] ended[i] == ls[i] by {
        assert(ls.drop_last()[i] == ls[i]);
    }
    assert(ended.push(ls.last()) =~= ls);
}

} // verus!

verus! {

/// The user's extra arguments are passed on: for every backend the argument
/// list is the one without extra arguments followed by each extra argument,
/// in order, as text; for fastfetch it is exactly `--file-raw`, the ascii
/// file, then the extra arguments. Nothing else of the invocation depends on
/// them.
pub proof fn law_run_passes_extra_args(lines: Seq<Seq<char>>, backend: Backend, v: Seq<String>)
    ensures
        ({
            let with = run_command(lines, backend, extra_args(Some(v)));
            let without = run_command(lines, backend, extra_args(None));
            &&& with.args.len() == without.args.len() + v.len()
            &&& with.args.take(without.args.len() as int) == without.args
            &&& forall|i: int|
                0 <= i < v.len() ==> with.args[without.args.len() + i] == CommandArgView::Text(
                    #[trigger] v[i]@,
                )
            &&& with.backend == without.backend
            &&& with.ascii_file == without.ascii_file
            &&& with.theme == without.theme
        }),
        run_command(lines, Backend::Fastfetch, extra_args(Some(v))).args == seq![
            CommandArgView::Text("--file-raw"@),
            CommandArgView::AsciiFile,
        ] + Seq::new(v.len(), |i: int| CommandArgView::Text(v[i]@)),
        run_command(lines, Backend::Fastfetch, extra_args(None)).args == seq![
            CommandArgView::Text("--file-raw"@),
            CommandArgView::AsciiFile,
        ],
{
    let with = run_command(lines, backend, extra_args(Some(v)));
    let without = run_command(lines, backend, extra_args(None));
    assert(without.args + Seq::<CommandArgView>::empty() =~= without.args);
    assert(with.args.take(without.args.len() as int) =~= without.args);
    let ff = run_command(lines, Backend::Fastfetch, extra_args(Some(v)));
    assert(ff.args =~= seq![CommandArgView::Text("--file-raw"@), CommandArgView::AsciiFile]
        + Seq::new(v.len(), |i: int| CommandArgView::Text(v[i]@)));
    assert(seq![CommandArgView::Text("--file-raw"@), CommandArgView::AsciiFile] + Seq::<
        CommandArgView,
    >::empty() =~= seq![CommandArgView::Text("--file-raw"@), CommandArgView::AsciiFile]);
}

/// An answer that matches no option exactly (case aside) but abbreviates some
/// selects the first option whose lower case starts with it.
pub proof fn law_selection_takes_first_abbreviation(
    sel: Seq<char>,
    options: Seq<Seq<char>>,
    r: Option<int>,
)
    requires
        is_selection(sel, options, r),
        sel.len() > 0,
        forall|j: int| 0 <= j < options.len() ==> lowercase(#[trigger] options[j]) != sel,
        exists|j: int| 0 <= j < options.len() && has_prefix(lowercase(#[trigger] options[j]), sel),
    ensures
        r matches Some(i) && 0 <= i < options.len() && sel.len() <= lowercase(options[i]).len()
            && lowercase(options[i]).take(sel.len() as int) == sel && forall|j: int|
            0 <= j < i ==> !has_prefix(lowercase(#[trigger] options[j]), sel),
{
    let j = choose|j: int| 0 <= j < options.len() && has_prefix(lowercase(#[trigger] options[j]), sel);
    assert(!exact_match(options[j], sel));
}

/// An answer that matches some option exactly (case aside) selects the first
/// such option, even when an earlier option starts with it.
pub proof fn law_selection_prefers_first_exact(sel: Seq<char>, options: Seq<Seq<char>>, r: Option<int>)
    requires
        is_selection(sel, options, r),
        sel.len() > 0,
        exists|j: int| 0 <= j < options.len() && lowercase(#[trigger] options[j]) == sel,
    ensures
        r matches Some(i) && 0 <= i < options.len() && lowercase(options[i]) == sel && forall|j: int|
            0 <= j < i ==> lowercase(#[trigger] options[j]) != sel,
{
    let j = choose|j: int| 0 <= j < options.len() && lowercase(#[trigger] options[j]) == sel;
    assert(exact_match(options[j], sel));
    assert(has_prefix(lowercase(options[j]), sel)) by {
        assert(lowercase(options[j]).take(sel.len() as int) =~= sel);
    }
}

/// The selection is a function of the answer and the options: two choices on
/// the same answer and options agree.
pub proof fn law_selection_is_unique(
    sel: Seq<char>,
    options: Seq<Seq<char>>,
    r1: Option<int>,
    r2: Option<int>,
)
    requires
        is_selection(sel, options, r1),
        is_selection(sel, options, r2),
    ensures
        r1 == r2,
{
    if let Some(i) = r1 {
        if exact_match(options[i], sel) {
            assert(has_prefix(lowercase(options[i]), sel)) by {
                assert(lowercase(options[i]).take(sel.len() as int) =~= sel);
            }
        }
    }
    if let Some(i) = r2 {
        if exact_match(options[i], sel) {
            assert(has_prefix(lowercase(options[i]), sel)) by {
                assert(lowercase(options[i]).take(sel.len() as int) =~= sel);
            }
        }
    }
}

proof fn lemma_max_width(ls: Seq<Seq<char>>)
    ensures
        forall|i: int| 0 <= i < ls.len() ==> grapheme_count(#[trigger] ls[i]) <= max_grapheme_width(ls),
        ls.len() == 0 ==> max_grapheme_width(ls) == 0,
        ls.len() > 0 ==> exists|i: int|
            0 <= i < ls.len() && max_grapheme_width(ls) == grapheme_count(#[trigger] ls[i]),
    decreases ls.len(),
{
    if ls.len() > 0 {
        let init = ls.drop_last();
        lemma_max_width(init);
        assert(ls.last() == ls[ls.len() - 1]);
        assert forall|i: int| 0 <= i < ls.len() implies grapheme_count(#[trigger] ls[i])
            <= max_grapheme_width(ls) by {
            if i < ls.len() - 1 {
                assert(ls[i] == init[i]);
            }
        }
        if max_grapheme_width(init) >= grapheme_count(ls.last()) && init.len() > 0 {
            let k = choose|k: int|
                0 <= k < init.len() && max_grapheme_width(init) == grapheme_count(#[trigger] init[k]);
            assert(ls[k] == init[k]);
        }
    }
}

/// The width of ascii art is the largest grapheme count of its lines, color
/// codes removed: no line is wider, some line is that wide (0 without
/// lines); the height is the number of those lines.
pub proof fn law_width_is_widest_line(asc: Seq<char>)
    ensures
        ({
            let ls = lines_of(without_color_codes(asc));
            &&& forall|i: int| 0 <= i < ls.len() ==> grapheme_count(#[trigger] ls[i]) <= ascii_width(asc)
            &&& ls.len() == 0 ==> ascii_width(asc) == 0
            &&& ls.len() > 0 ==> exists|i: int|
                0 <= i < ls.len() && ascii_width(asc) == grapheme_count(#[trigger] ls[i])
            &&& ascii_height(asc) == ls.len()
        }),
{
    lemma_max_width(lines_of(without_color_codes(asc)));
}

/// neofetch prints the distro name alone: it is taken exactly as printed.
pub proof fn law_neofetch_name_is_output(out: Seq<char>)
    ensures
        distro_name_in_output(Backend::Neofetch, out) == out,
{
}

/// The bash in `PATH` is used at once only when it is neither WSL's nor
/// MSYS's; otherwise a bash found beside Git wins; the bash in `PATH` is the
/// last resort.
pub proof fn law_bash_choice(
    in_path: Option<Seq<char>>,
    is_wsl: bool,
    is_msys: bool,
    beside_git: Option<Seq<char>>,
)
    ensures
        in_path is Some && !is_wsl && !is_msys ==> chosen_bash(in_path, is_wsl, is_msys, beside_git)
            == in_path,
        (is_wsl || is_msys || in_path is None) && beside_git is Some ==> chosen_bash(
            in_path,
            is_wsl,
            is_msys,
            beside_git,
        ) == beside_git,
        beside_git is None ==> chosen_bash(in_path, is_wsl, is_msys, beside_git) == in_path,
{
}

} // verus!

verus! {

/// Escaping for neofetch works character by character: it distributes over
/// concatenation, doubles a backslash and keeps any other character.
pub proof fn law_escape_doubles_backslashes(a: Seq<char>, b: Seq<char>, c: char)
    ensures
        escaped_for_neofetch(a + b) == escaped_for_neofetch(a) + escaped_for_neofetch(b),
        escaped_for_neofetch(Seq::empty()) == Seq::<char>::empty(),
        escaped_for_neofetch(seq![c]) == (if c == '\\' {
            seq!['\\', '\\']
        } else {
            seq![c]
        }),
    decreases a.len(),
{
    reveal_strlit("\\");
    reveal_strlit("\\\\");
    let e = Seq::<char>::empty();
    assert(escaped_for_neofetch(e) == e);
    let one = seq![c];
    assert(one.skip(1) =~= e);
    if c == '\\' {
        assert(one.take(1) =~= "\\"@);
        assert("\\\\"@ + e =~= seq!['\\', '\\']);
    } else {
        assert(!has_prefix(one, "\\"@)) by {
            if has_prefix(one, "\\"@) {
                assert(one.take(1)[0] == "\\"@[0]);
            }
        }
        assert(seq![one[0]] + e =~= one);
    }
    if a.len() == 0 {
        assert(a + b =~= b);
        assert(e + escaped_for_neofetch(b) =~= escaped_for_neofetch(b));
    } else {
        let ab = a + b;
        law_escape_doubles_backslashes(a.skip(1), b, c);
        assert(ab.skip(1) =~= a.skip(1) + b);
        assert(ab[0] == a[0]);
        if a[0] == '\\' {
            assert(ab.take(1) =~= "\\"@);
            assert(a.take(1) =~= "\\"@);
        } else {
            assert(!has_prefix(ab, "\\"@)) by {
                if has_prefix(ab, "\\"@) {
                    assert(ab.take(1)[0] == "\\"@[0]);
                }
            }
            assert(!has_prefix(a, "\\"@)) by {
                if has_prefix(a, "\\"@) {
                    assert(a.take(1)[0] == "\\"@[0]);
                }
            }
        }
        assert(escaped_for_neofetch(ab) =~= escaped_for_neofetch(a) + escaped_for_neofetch(b));
    }
}

/// The ascii file that `run` writes for neofetch reads back, once neofetch's
/// doubled backslashes are undone, as the art's lines joined by newlines.
pub proof fn law_neofetch_file_reads_back(lines: Seq<Seq<char>>, extra: Seq<CommandArgView>)
    ensures
        run_command(lines, Backend::Neofetch, extra).ascii_file matches Some(f)
            && unescaped_from_neofetch(f) == joined(lines, "\n"@),
{
    law_neofetch_escape_round_trip(joined(lines, "\n"@));
}

proof fn lemma_trim_start_shape(s: Seq<char>) -> (a: int)
    ensures
        0 <= a <= s.len(),
        trim_start(s) == s.skip(a),
        forall|i: int| 0 <= i < a ==> is_white_space(#[trigger] s[i]),
        a < s.len() ==> !is_white_space(s[a]),
    decreases s.len(),
{
    if s.len() > 0 && is_white_space(s[0]) {
        let a1 = lemma_trim_start_shape(s.skip(1));
        assert(s.skip(1).skip(a1) =~= s.skip(a1 + 1));
        assert forall|i: int| 0 <= i < a1 + 1 implies is_white_space(#[trigger] s[i]) by {
            if i > 0 {
                assert(s[i] == s.skip(1)[i - 1]);
            }
        }
        a1 + 1
    } else {
        assert(s.skip(0) =~= s);
        0
    }
}

proof fn lemma_trim_end_shape(t: Seq<char>) -> (k: int)
    ensures
        0 <= k <= t.len(),
        trim_end(t) == t.take(k),
        forall|i: int| k <= i < t.len() ==> is_white_space(#[trigger] t[i]),
        k > 0 ==> !is_white_space(t[k - 1]),
    decreases t.len(),
{
    if t.len() > 0 && is_white_space(t.last()) {
        let k1 = lemma_trim_end_shape(t.drop_last());
        assert(t.drop_last().take(k1) =~= t.take(k1));
        assert forall|i: int| k1 <= i < t.len() implies is_white_space(#[trigger] t[i]) by {
            if i < t.len() - 1 {
                assert(t[i] == t.drop_last()[i]);
            }
        }
        k1
    } else {
        assert(t.take(t.len() as int) =~= t);
        t.len() as int
    }
}

/// Trimming keeps a stretch `s[a..b]` of the text: everything before and after
/// it is white space, and it begins and ends with a character that is not.
pub proof fn law_trim_keeps_inner_stretch(s: Seq<char>) -> (ab: (int, int))
    ensures
        0 <= ab.0 <= ab.1 <= s.len(),
        trimmed(s) == s.subrange(ab.0, ab.1),
        forall|i: int| 0 <= i < ab.0 ==> is_white_space(#[trigger] s[i]),
        forall|i: int| ab.1 <= i < s.len() ==> is_white_space(#[trigger] s[i]),
        ab.0 < ab.1 ==> !is_white_space(s[ab.0]) && !is_white_space(s[ab.1 - 1]),
        ab.0 == ab.1 ==> forall|i: int| 0 <= i < s.len() ==> is_white_space(#[trigger] s[i]),
{
    let a = lemma_trim_start_shape(s);
    let t = s.skip(a);
    let k = lemma_trim_end_shape(t);
    assert(t.take(k) =~= s.subrange(a, a + k));
    assert forall|i: int| a + k <= i < s.len() implies is_white_space(#[trigger] s[i]) by {
        assert(s[i] == t[i - a]);
    }
    if k > 0 {
        assert(t[0] == s[a]);
        assert(t[k - 1] == s[a + k - 1]);
    }
    if k == 0 {
        assert forall|i: int| 0 <= i < s.len() implies is_white_space(#[trigger] s[i]) by {
            if i >= a {
                assert(s[i] == t[i - a]);
            }
        }
    }
    (a, a + k)
}

proof fn lemma_find_char_first(s: Seq<char>, c: char, k: int)
    requires
        0 <= k <= s.len(),
        forall|j: int| 0 <= j < k ==> #[trigger] s[j] != c,
        k < s.len() ==> s[k] == c,
    ensures
        find_char(s, c) == (if k < s.len() {
            Some(k)
        } else {
            None::<int>
        }),
    decreases k,
{
    if k > 0 {
        assert(s[0] != c);
        assert forall|j: int| 0 <= j < k - 1 implies #[trigger] s.skip(1)[j] != c by {
            assert(s.skip(1)[j] == s[j + 1]);
        }
        if k < s.len() {
            assert(s.skip(1)[k - 1] == s[k]);
        }
        lemma_find_char_first(s.skip(1), c, k - 1);
    } else if s.len() > 0 {
        assert(s[0] == c);
    }
}

/// The part after the first `c`: everything after the first occurrence when
/// there is one, the whole text when there is none.
pub proof fn law_after_first_occurrence(s: Seq<char>, c: char, k: int)
    requires
        0 <= k <= s.len(),
        forall|j: int| 0 <= j < k ==> #[trigger] s[j] != c,
        k < s.len() ==> s[k] == c,
    ensures
        k < s.len() ==> after_first(s, c) == s.skip(k + 1),
        k == s.len() ==> after_first(s, c) == s,
{
    lemma_find_char_first(s, c, k);
}

proof fn lemma_replaced_absent(s: Seq<char>, pat: Seq<char>, rep: Seq<char>)
    requires
        pat.len() > 0,
        forall|k: int| 0 <= k <= s.len() ==> !has_prefix(#[trigger] s.skip(k), pat),
    ensures
        replaced(s, pat, rep) == s,
    decreases s.len(),
{
    if s.len() > 0 {
        assert(s.skip(0) =~= s);
        assert forall|k: int| 0 <= k <= s.skip(1).len() implies !has_prefix(
            #[trigger] s.skip(1).skip(k),
            pat,
        ) by {
            assert(s.skip(1).skip(k) =~= s.skip(k + 1));
        }
        lemma_replaced_absent(s.skip(1), pat, rep);
        assert(seq![s[0]] + s.skip(1) =~= s);
    }
}

/// fastfetch prints `OS: <name>`: the name comes back whole, as long as it
/// does not itself hold `OS: `.
pub proof fn law_fastfetch_name(name: Seq<char>)
    requires
        forall|k: int| 0 <= k <= name.len() ==> !has_prefix(#[trigger] name.skip(k), "OS: "@),
    ensures
        distro_name_in_output(Backend::Fastfetch, "OS: "@ + name) == name,
{
    reveal_strlit("OS: ");
    reveal_strlit("");
    assert(""@ =~= Seq::<char>::empty());
    let pat = "OS: "@;
    let out = pat + name;
    assert(out.take(4) =~= pat);
    assert(out.skip(4) =~= name);
    let e = Seq::<char>::empty();
    lemma_replaced_absent(name, pat, e);
    assert(has_prefix(out, pat));
    assert(out.len() > 0);
    assert(replaced(out, pat, e) == e + replaced(out.skip(pat.len() as int), pat, e));
    assert(e + name =~= name);
}

/// macchina prints `<key> - <name>` (escape sequences aside): the name is what
/// follows the first `-`, trimmed, when the key holds no `-` and the line
/// neither starts nor ends with white space.
pub proof fn law_macchina_name(out: Seq<char>, key: Seq<char>, name: Seq<char>)
    requires
        ansi_stripped(out) == key + seq!['-'] + name,
        forall|j: int| 0 <= j < key.len() ==> #[trigger] key[j] != '-',
        key.len() > 0 ==> !is_white_space(key[0]),
        name.len() > 0 ==> !is_white_space(name.last()),
    ensures
        distro_name_in_output(Backend::Macchina, out) == trimmed(name),
{
    let line = key + seq!['-'] + name;
    let ab = law_trim_keeps_inner_stretch(line);
    assert(line[key.len() as int] == '-');
    assert(!is_white_space('-'));
    if ab.0 > 0 {
        assert(is_white_space(line[0]));
        if key.len() > 0 {
            assert(line[0] == key[0]);
        }
    }
    if ab.1 < line.len() {
        assert(is_white_space(line[line.len() - 1]));
        if name.len() > 0 {
            assert(line[line.len() - 1] == name.last());
        }
    }
    assert(ab.0 == 0 && ab.1 == line.len());
    assert(line.subrange(0, line.len() as int) =~= line);
    assert forall|j: int| 0 <= j < key.len() implies #[trigger] line[j] != '-' by {
        assert(line[j] == key[j]);
    }
    law_after_first_occurrence(line, '-', key.len() as int);
    assert(line.skip(key.len() as int + 1) =~= name);
}

/// Asking for the distro name writes files only for macchina: neofetch and
/// fastfetch run with arguments alone, fastfetch printing the OS module only;
/// macchina gets the placeholder art and the query theme, which it is told to
/// use by name.
pub proof fn law_distro_name_queries(is_linux: bool)
    ensures
        crate::neofetch_util::distro_name_command_of(Backend::Neofetch, is_linux).ascii_file is None,
        crate::neofetch_util::distro_name_command_of(Backend::Neofetch, is_linux).args == seq![
            CommandArgView::Text("ascii_distro_name"@),
        ],
        crate::neofetch_util::distro_name_command_of(Backend::Fastfetch, is_linux).ascii_file is None,
        crate::neofetch_util::distro_name_command_of(Backend::Fastfetch, is_linux).args == seq![
            CommandArgView::Text("--logo"@),
            CommandArgView::Text("none"@),
            CommandArgView::Text("-c"@),
            CommandArgView::Text("none"@),
            CommandArgView::Text("-s"@),
            CommandArgView::Text("OS"@),
        ],
        crate::neofetch_util::distro_name_command_of(Backend::Macchina, is_linux).theme == Some(
            crate::theme::MacchinaTheme::DistroQuery,
        ),
        crate::neofetch_util::distro_name_command_of(Backend::Macchina, is_linux).args.last()
            == CommandArgView::ThemeName,
{
    assert(crate::neofetch_util::distro_name_command_of(Backend::Fastfetch, is_linux).args =~= seq![
        CommandArgView::Text("--logo"@),
        CommandArgView::Text("none"@),
        CommandArgView::Text("-c"@),
        CommandArgView::Text("none"@),
        CommandArgView::Text("-s"@),
        CommandArgView::Text("OS"@),
    ]);
}

} // verus!

verus! {

/// The prompt names the default alone, or lists every option in order,
/// separated by `|`, with the option equal to the default (and only it)
/// marked bold and underlined.
pub proof fn law_prompt_text(
    prompt: Seq<char>,
    options: Seq<Seq<char>>,
    default: Seq<char>,
)
    ensures
        crate::neofetch_util::prompt_text(prompt, options, default, false) == prompt
            + " (default: "@ + default + ")"@,
        crate::neofetch_util::prompt_text(prompt, options, default, true) == prompt + " ("@
            + joined(
            Seq::new(
                options.len(),
                |i: int|
                    if options[i] == default {
                        "&l&n"@ + options[i] + "&L&N"@
                    } else {
                        options[i]
                    },
            ),
            "|"@,
        ) + ")"@,
{
    let labels = options.map_values(|o: Seq<char>| crate::neofetch_util::option_label(o, default));
    assert(labels =~= Seq::new(
        options.len(),
        |i: int|
            if options[i] == default {
                "&l&n"@ + options[i] + "&L&N"@
            } else {
                options[i]
            },
    ));
}

/// An empty answer stands for the default as it is; any other answer for its
/// lower case. An answer that selects nothing is reported with every option
/// in order, separated by `|`.
pub proof fn law_answer_and_message(raw: Seq<char>, default: Seq<char>, options: Seq<Seq<char>>)
    ensures
        raw.len() == 0 ==> normalized_selection(raw, default) == default,
        raw.len() > 0 ==> normalized_selection(raw, default) == lowercase(raw),
        crate::neofetch_util::invalid_selection_text(raw, options) == "Invalid selection! "@ + raw
            + " is not one of "@ + joined(options, "|"@),
{
}

/// neofetch is asked for a distro's art by name and writes no file;
/// fastfetch, and only it, runs with `FFTS_IGNORE_PARENT=1`.
pub proof fn law_neofetch_ascii_query_and_env(distro_name: Seq<char>)
    ensures
        crate::neofetch_util::neofetch_ascii_command_of(distro_name).backend == Backend::Neofetch,
        crate::neofetch_util::neofetch_ascii_command_of(distro_name).ascii_file is None,
        crate::neofetch_util::neofetch_ascii_command_of(distro_name).theme is None,
        crate::neofetch_util::neofetch_ascii_command_of(distro_name).args == seq![
            CommandArgView::Text("print_ascii"@),
            CommandArgView::Text("--ascii_distro"@),
            CommandArgView::Text(distro_name),
        ],
        crate::neofetch_util::backend_env_of(Backend::Fastfetch) == seq![
            ("FFTS_IGNORE_PARENT"@, "1"@),
        ],
        crate::neofetch_util::backend_env_of(Backend::Neofetch).len() == 0,
        crate::neofetch_util::backend_env_of(Backend::Macchina).len() == 0,
{
    assert(crate::neofetch_util::neofetch_ascii_command_of(distro_name).args =~= seq![
        CommandArgView::Text("print_ascii"@),
        CommandArgView::Text("--ascii_distro"@),
        CommandArgView::Text(distro_name),
    ]);
}

/// Without extra arguments, each backend is run with its own fixed
/// arguments: neofetch reads the art file as its ascii source and keeps its
/// colors, fastfetch shows the file raw, macchina goes by the display theme,
/// which only macchina gets.
pub proof fn law_run_base_arguments(lines: Seq<Seq<char>>)
    ensures
        run_command(lines, Backend::Neofetch, extra_args(None)).args == seq![
            CommandArgView::Text("--ascii"@),
            CommandArgView::Text("--source"@),
            CommandArgView::AsciiFile,
            CommandArgView::Text("--ascii_colors"@),
        ],
        run_command(lines, Backend::Macchina, extra_args(None)).args == seq![
            CommandArgView::Text("--theme"@),
            CommandArgView::ThemeName,
        ],
        run_command(lines, Backend::Neofetch, extra_args(None)).theme is None,
        run_command(lines, Backend::Fastfetch, extra_args(None)).theme is None,
        run_command(lines, Backend::Macchina, extra_args(None)).theme == Some(
            crate::theme::MacchinaTheme::Display,
        ),
        run_command(lines, Backend::Macchina, extra_args(None)).ascii_file == Some(
            joined(lines, "\n"@),
        ),
        run_command(lines, Backend::Fastfetch, extra_args(None)).ascii_file == Some(
            joined(lines, "\n"@),
        ),
{
    let e = Seq::<CommandArgView>::empty();
    assert(seq![
        CommandArgView::Text("--ascii"@),
        CommandArgView::Text("--source"@),
        CommandArgView::AsciiFile,
        CommandArgView::Text("--ascii_colors"@),
    ] + e =~= seq![
        CommandArgView::Text("--ascii"@),
        CommandArgView::Text("--source"@),
        CommandArgView::AsciiFile,
        CommandArgView::Text("--ascii_colors"@),
    ]);
    assert(seq![CommandArgView::Text("--theme"@), CommandArgView::ThemeName] + e =~= seq![
        CommandArgView::Text("--theme"@),
        CommandArgView::ThemeName,
    ]);
}

/// Both macchina themes show custom ascii art read from the given path; the
/// query theme also drops spacing, padding, the separator and the key names.
pub proof fn law_macchina_themes(path: Seq<char>)
    ensures
        crate::theme::theme_entries(crate::theme::MacchinaTheme::Display, path) == seq![
            ("hide_ascii"@, crate::theme::TomlValueView::Boolean(false)),
            ("custom_ascii"@, crate::theme::TomlValueView::Table(seq![("path"@, path)])),
        ],
        crate::theme::theme_entries(crate::theme::MacchinaTheme::DistroQuery, path) == seq![
            ("spacing"@, crate::theme::TomlValueView::Integer(0)),
            ("padding"@, crate::theme::TomlValueView::Integer(0)),
            ("hide_ascii"@, crate::theme::TomlValueView::Boolean(false)),
            ("separator"@, crate::theme::TomlValueView::Text(""@)),
            ("custom_ascii"@, crate::theme::TomlValueView::Table(seq![("path"@, path)])),
            (
                "keys"@,
                crate::theme::TomlValueView::Table(seq![("os"@, ""@), ("distro"@, ""@)]),
            ),
        ],
{
}

/// The `PATH` additions: `git`, `fastfetch`, `scripts` and
/// `fastfetch/usr/bin`, in that order, under the install directory when there
/// is one, then the same under `hyfetch`.
pub proof fn law_pkg_path(has_install_dir: bool)
    ensures
        ({
            let subdirs = seq!["git"@, "fastfetch"@, "scripts"@, "fastfetch/usr/bin"@];
            let e = crate::neofetch_util::pkg_path_entries(has_install_dir);
            let off: int = if has_install_dir {
                4
            } else {
                0
            };
            &&& e.len() == off + 4
            &&& forall|i: int| 0 <= i < off ==> #[trigger] e[i] == (None::<Seq<char>>, subdirs[i])
            &&& forall|i: int|
                0 <= i < 4 ==> #[trigger] e[off + i] == (Some("hyfetch"@), subdirs[i])
        }),
{
}

/// Bash is looked for beside Git in the first directories above `git.exe`,
/// nearest first, `bin\bash.exe` before `usr\bin\bash.exe` in each.
pub proof fn law_git_bash_candidates(levels: nat)
    ensures
        crate::neofetch_util::git_bash_candidates_of(levels).len() == 2 * levels,
        forall|k: int|
            0 <= k < levels ==> #[trigger] crate::neofetch_util::git_bash_candidates_of(levels)[2
                * k] == (k, "bin\\bash.exe"@) && crate::neofetch_util::git_bash_candidates_of(
                levels,
            )[2 * k + 1] == (k, "usr\\bin\\bash.exe"@),
    decreases levels,
{
    if levels > 0 {
        law_git_bash_candidates((levels - 1) as nat);
        let prev = crate::neofetch_util::git_bash_candidates_of((levels - 1) as nat);
        let cur = crate::neofetch_util::git_bash_candidates_of(levels);
        assert forall|k: int| 0 <= k < levels implies #[trigger] cur[2 * k] == (k, "bin\\bash.exe"@)
            && cur[2 * k + 1] == (k, "usr\\bin\\bash.exe"@) by {
            if k < levels - 1 {
                assert(cur[2 * k] == prev[2 * k]);
                assert(cur[2 * k + 1] == prev[2 * k + 1]);
            }
        }
    }
}

} // verus!

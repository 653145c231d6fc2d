//! Character-level text utilities with exact specifications.

use vstd::prelude::*;
use vstd::utf8::is_ascii_chars;

verus! {

/// Appends one character to a `String` (`String::push`).
#[verifier::external_body]
fn push_char(s: &mut String, c: char)
    ensures
        final(s)@ == old(s)@.push(c),
{
    s.push(c);
}

/// The characters of `s`, in order.
pub fn chars_of(s: &str) -> (v: Vec<char>)
    ensures
        v@ == s@,
{
    let mut v: Vec<char> = Vec::new();
    for c in it: s.chars()
        invariant
            it.seq() == s@,
            v@ == it.seq().take(it.index() as int),
    {
        v.push(c);
    }
    v
}

/// A `String` holding exactly the characters of `v`.
pub fn string_of(v: &Vec<char>) -> (s: String)
    ensures
        s@ == v@,
{
    let mut s = String::new();
    for i in 0..v.len()
        invariant
            s@ == v@.take(i as int),
    {
        push_char(&mut s, v[i]);
        assert(v@.take(i + 1) == v@.take(i as int).push(v@[i as int]));
    }
    assert(v@.take(v.len() as int) == v@);
    s
}


/// The Unicode `White_Space` property, the set that `char::is_whitespace`
/// and `str::trim` go by.
pub open spec fn is_white_space(c: char) -> bool {
    let u = c as u32;
    ||| 0x09 <= u <= 0x0d
    ||| u == 0x20
    ||| u == 0x85
    ||| u == 0xa0
    ||| u == 0x1680
    ||| 0x2000 <= u <= 0x200a
    ||| u == 0x2028
    ||| u == 0x2029
    ||| u == 0x202f
    ||| u == 0x205f
    ||| u == 0x3000
}

/// Whether `c` is a white-space character.
pub fn white_space(c: char) -> (b: bool)
    ensures
        b == is_white_space(c),
{
    let u = c as u32;
    (0x09 <= u && u <= 0x0d) || u == 0x20 || u == 0x85 || u == 0xa0 || u == 0x1680 || (0x2000
        <= u && u <= 0x200a) || u == 0x2028 || u == 0x2029 || u == 0x202f || u == 0x205f || u
        == 0x3000
}

/// `s` without its leading white space.
pub open spec fn trim_start(s: Seq<char>) -> Seq<char>
    decreases s.len(),
{
    if s.len() > 0 && is_white_space(s[0]) {
        trim_start(s.skip(1))
    } else {
        s
    }
}

/// `s` without its trailing white space.
pub open spec fn trim_end(s: Seq<char>) -> Seq<char>
    decreases s.len(),
{
    if s.len() > 0 && is_white_space(s.last()) {
        trim_end(s.drop_last())
    } else {
        s
    }
}

/// `s` without leading and trailing white space, as `str::trim` gives it.
pub open spec fn trimmed(s: Seq<char>) -> Seq<char> {
    trim_end(trim_start(s))
}

proof fn lemma_trim_start_skip(s: Seq<char>, i: int)
    requires
        0 <= i <= s.len(),
        forall|j: int| 0 <= j < i ==> is_white_space(#[trigger] s[j]),
    ensures
        trim_start(s) == trim_start(s.skip(i)),
    decreases i,
{
    if i > 0 {
        assert(is_white_space(s[0]));
        lemma_trim_start_skip(s.skip(1), i - 1);
        assert(s.skip(1).skip(i - 1) =~= s.skip(i));
    } else {
        assert(s.skip(0) =~= s);
    }
}

proof fn lemma_trim_end_take(s: Seq<char>, k: int)
    requires
        0 <= k <= s.len(),
        forall|j: int| k <= j < s.len() ==> is_white_space(#[trigger] s[j]),
    ensures
        trim_end(s) == trim_end(s.take(k)),
    decreases s.len() - k,
{
    if k < s.len() {
        assert(is_white_space(s.last()));
        lemma_trim_end_take(s.drop_last(), k);
        assert(s.drop_last().take(k) =~= s.take(k));
    } else {
        assert(s.take(k) =~= s);
    }
}

/// `s` with white space removed at both ends.
pub fn trim(s: &Vec<char>) -> (r: Vec<char>)
    ensures
        r@ == trimmed(s@),
{
    let n = s.len();
    let mut i: usize = 0;
    while i < n && white_space(s[i])
        invariant
            i <= n == s.len(),
            forall|j: int| 0 <= j < i ==> is_white_space(#[trigger] s@[j]),
        decreases n - i,
    {
        i += 1;
    }
    proof {
        lemma_trim_start_skip(s@, i as int);
    }
    let ghost t = s@.skip(i as int);
    let mut k: usize = n;
    while k > i && white_space(s[k - 1])
        invariant
            i <= k <= n == s.len(),
            t == s@.skip(i as int),
            forall|j: int| k <= j < n ==> is_white_space(#[trigger] s@[j]),
        decreases k,
    {
        k -= 1;
    }
    let mut r: Vec<char> = Vec::new();
    let mut j: usize = i;
    while j < k
        invariant
            i <= j <= k <= n == s.len(),
            r@ == s@.subrange(i as int, j as int),
        decreases k - j,
    {
        r.push(s[j]);
        j += 1;
        assert(r@ =~= s@.subrange(i as int, j as int));
    }
    proof {
        assert forall|j: int| (k - i) <= j < t.len() implies is_white_space(#[trigger] t[j]) by {
            assert(t[j] == s@[j + i]);
        }
        lemma_trim_end_take(t, k - i);
        assert(t.take(k - i) =~= r@);
        if i < n {
            assert(!is_white_space(s@[i as int]));
            assert(t.len() > 0 && t[0] == s@[i as int]);
        } else {
            assert(t.len() == 0);
        }
        assert(trim_start(t) == t);
    }
    r
}


/// Whether `s` begins with `prefix`.
pub open spec fn has_prefix(s: Seq<char>, prefix: Seq<char>) -> bool {
    prefix.len() <= s.len() && s.take(prefix.len() as int) == prefix
}

/// Whether `v[at..]` begins with `prefix`.
pub fn has_prefix_at(v: &Vec<char>, at: usize, prefix: &Vec<char>) -> (b: bool)
    requires
        at <= v.len(),
    ensures
        b == has_prefix(v@.skip(at as int), prefix@),
{
    let n = prefix.len();
    if n > v.len() - at {
        return false;
    }
    let mut j: usize = 0;
    while j < n
        invariant
            j <= n == prefix.len(),
            n <= v.len() - at,
            forall|m: int| 0 <= m < j ==> v@[at + m] == prefix@[m],
        decreases n - j,
    {
        if v[at + j] != prefix[j] {
            assert(v@.skip(at as int).take(n as int)[j as int] != prefix@[j as int]);
            return false;
        }
        j += 1;
    }
    assert(v@.skip(at as int).take(n as int) =~= prefix@);
    true
}

/// `s` with every match of `pat` replaced by `rep`, matches taken from the
/// left and never overlapping, as `str::replace` does for a non-empty pattern.
pub open spec fn replaced(s: Seq<char>, pat: Seq<char>, rep: Seq<char>) -> Seq<char>
    decreases s.len(),
{
    if s.len() == 0 {
        s
    } else if pat.len() > 0 && has_prefix(s, pat) {
        rep + replaced(s.skip(pat.len() as int), pat, rep)
    } else {
        seq![s[0]] + replaced(s.skip(1), pat, rep)
    }
}

/// Replaces every left-to-right, non-overlapping match of `pat` in `s` by `rep`.
pub fn replace(s: &Vec<char>, pat: &Vec<char>, rep: &Vec<char>) -> (r: Vec<char>)
    requires
        pat.len() > 0,
    ensures
        r@ == replaced(s@, pat@, rep@),
{
    let n = s.len();
    let mut out: Vec<char> = Vec::new();
    let mut i: usize = 0;
    assert(s@.skip(0) =~= s@);
    while i < n
        invariant
            i <= n == s.len(),
            pat.len() > 0,
            replaced(s@, pat@, rep@) == out@ + replaced(s@.skip(i as int), pat@, rep@),
        decreases n - i,
    {
        let ghost rest = s@.skip(i as int);
        if has_prefix_at(s, i, pat) {
            let mut k: usize = 0;
            let ghost before = out@;
            while k < rep.len()
                invariant
                    k <= rep.len(),
                    out@ == before + rep@.take(k as int),
                decreases rep.len() - k,
            {
                out.push(rep[k]);
                k += 1;
                assert(out@ =~= before + rep@.take(k as int));
            }
            assert(rep@.take(rep.len() as int) =~= rep@);
            assert(rest.skip(pat.len() as int) =~= s@.skip(i + pat.len()));
            assert(out@ + replaced(s@.skip(i + pat.len()), pat@, rep@) =~= before + replaced(
                rest,
                pat@,
                rep@,
            ));
            i += pat.len();
        } else {
            let ghost before = out@;
            out.push(s[i]);
            assert(rest.skip(1) =~= s@.skip(i + 1));
            assert(out@ + replaced(s@.skip(i + 1), pat@, rep@) =~= before + replaced(
                rest,
                pat@,
                rep@,
            ));
            i += 1;
        }
    }
    assert(s@.skip(n as int) =~= Seq::<char>::empty());
    assert(out@ + Seq::<char>::empty() =~= out@);
    out
}

/// Parts joined with `sep` between neighbours, as `[T]::join` gives them.
pub open spec fn joined(parts: Seq<Seq<char>>, sep: Seq<char>) -> Seq<char>
    decreases parts.len(),
{
    if parts.len() == 0 {
        seq![]
    } else if parts.len() == 1 {
        parts[0]
    } else {
        joined(parts.drop_last(), sep) + sep + parts.last()
    }
}

/// The views of a vector of strings.
pub open spec fn views(v: Seq<String>) -> Seq<Seq<char>> {
    v.map_values(|s: String| s@)
}

/// Appends all characters of `s` to `out`.
pub fn push_str(out: &mut Vec<char>, s: &str)
    ensures
        final(out)@ == old(out)@ + s@,
{
    let cs = chars_of(s);
    let ghost before = out@;
    for i in 0..cs.len()
        invariant
            out@ == before + cs@.take(i as int),
    {
        out.push(cs[i]);
        assert(out@ =~= before + cs@.take(i + 1));
    }
    assert(cs@.take(cs.len() as int) =~= cs@);
}

/// The strings of `parts` joined with `sep`.
pub fn join(parts: &Vec<String>, sep: &str) -> (r: Vec<char>)
    ensures
        r@ == joined(views(parts@), sep@),
{
    let mut out: Vec<char> = Vec::new();
    let ghost ps = views(parts@);
    for i in 0..parts.len()
        invariant
            ps == views(parts@),
            out@ == joined(ps.take(i as int), sep@),
    {
        if i > 0 {
            push_str(&mut out, sep);
        }
        push_str(&mut out, parts[i].as_str());
        assert(ps.take(i + 1).drop_last() =~= ps.take(i as int));
        if i == 0 {
            assert(ps.take(1)[0] == ps[0]);
        }
    }
    assert(ps.take(parts.len() as int) =~= ps);
    out
}


/// The pieces of `s` between `'\n'` characters (`str::split('\n')`): there is
/// always at least one, and an empty one after a final `'\n'`.
pub open spec fn pieces(s: Seq<char>) -> Seq<Seq<char>>
    decreases s.len(),
{
    if s.len() == 0 {
        seq![seq![]]
    } else {
        let p = pieces(s.drop_last());
        if s.last() == '\n' {
            p.push(seq![])
        } else {
            p.update(p.len() - 1, p.last().push(s.last()))
        }
    }
}

/// A piece without one trailing `'\r'`.
pub open spec fn strip_cr(p: Seq<char>) -> Seq<char> {
    if p.len() > 0 && p.last() == '\r' {
        p.drop_last()
    } else {
        p
    }
}

/// The lines of `s` as `str::lines` yields them: pieces ended by `'\n'` lose
/// a `'\r'` before it; the unterminated tail is a line only when not empty.
pub open spec fn lines_of(s: Seq<char>) -> Seq<Seq<char>> {
    let p = pieces(s);
    let ended = p.drop_last().map_values(|q: Seq<char>| strip_cr(q));
    if p.last().len() == 0 {
        ended
    } else {
        ended.push(p.last())
    }
}

/// The views of a vector of character vectors.
pub open spec fn char_views(v: Seq<Vec<char>>) -> Seq<Seq<char>> {
    v.map_values(|x: Vec<char>| x@)
}

pub proof fn lemma_pieces_nonempty(s: Seq<char>)
    ensures
        pieces(s).len() >= 1,
    decreases s.len(),
{
    if s.len() > 0 {
        lemma_pieces_nonempty(s.drop_last());
    }
}

/// No line of `s` holds a `'\n'`, and every line of ASCII text is ASCII.
pub proof fn lemma_lines_plain(s: Seq<char>)
    ensures
        forall|i: int, j: int|
            0 <= i < lines_of(s).len() && 0 <= j < lines_of(s)[i].len() ==> #[trigger] lines_of(
                s,
            )[i][j] != '\n',
        is_ascii_chars(s) ==> forall|i: int|
            0 <= i < lines_of(s).len() ==> is_ascii_chars(#[trigger] lines_of(s)[i]),
{
    lemma_pieces_plain(s);
    lemma_pieces_nonempty(s);
    let p = pieces(s);
    let l = lines_of(s);
    assert forall|i: int| 0 <= i < l.len() implies #[trigger] l[i] =~= (if i < p.len() - 1 {
        strip_cr(p[i])
    } else {
        p[i]
    }) by {
        if i < p.len() - 1 {
            assert(p.drop_last()[i] == p[i]);
        }
    }
    assert forall|i: int, j: int| 0 <= i < l.len() && 0 <= j < l[i].len() implies #[trigger] l[i][j]
        != '\n' by {
        if i < p.len() - 1 && p[i].len() > 0 && p[i].last() == '\r' {
            assert(l[i][j] == p[i][j]);
        }
    }
    if is_ascii_chars(s) {
        assert forall|i: int| 0 <= i < l.len() implies is_ascii_chars(#[trigger] l[i]) by {
            assert forall|j: int| 0 <= j < l[i].len() implies '\0' <= #[trigger] l[i][j] <= '\u{7f}' by {
                if i < p.len() - 1 && p[i].len() > 0 && p[i].last() == '\r' {
                    assert(l[i][j] == p[i][j]);
                }
            }
        }
    }
}

proof fn lemma_pieces_plain(s: Seq<char>)
    ensures
        forall|i: int, j: int|
            0 <= i < pieces(s).len() && 0 <= j < pieces(s)[i].len() ==> #[trigger] pieces(s)[i][j]
                != '\n',
        is_ascii_chars(s) ==> forall|i: int|
            0 <= i < pieces(s).len() ==> is_ascii_chars(#[trigger] pieces(s)[i]),
    decreases s.len(),
{
    if s.len() > 0 {
        let t = s.drop_last();
        lemma_pieces_plain(t);
        lemma_pieces_nonempty(t);
        if is_ascii_chars(s) {
            assert(is_ascii_chars(t)) by {
                assert forall|k: int| 0 <= k < t.len() implies '\0' <= #[trigger] t[k] <= '\u{7f}' by {
                    assert(t[k] == s[k]);
                }
            }
            assert(s.last() == s[s.len() - 1]);
        }
        let p = pieces(t);
        if s.last() != '\n' {
            let q = p.last().push(s.last());
            assert forall|j: int| 0 <= j < q.len() implies #[trigger] q[j] != '\n' by {
                if j < p.last().len() {
                    assert(q[j] == p[p.len() - 1][j]);
                }
            }
            if is_ascii_chars(s) {
                assert forall|j: int| 0 <= j < q.len() implies '\0' <= #[trigger] q[j] <= '\u{7f}' by {
                    if j < p.last().len() {
                        assert(q[j] == p[p.len() - 1][j]);
                    }
                }
            }
        }
    }
}

/// The lines of `s`.
pub fn lines(s: &Vec<char>) -> (r: Vec<Vec<char>>)
    ensures
        char_views(r@) == lines_of(s@),
{
    let mut out: Vec<Vec<char>> = Vec::new();
    let mut cur: Vec<char> = Vec::new();
    let n = s.len();
    proof {
        assert(s@.take(0) =~= Seq::<char>::empty());
    }
    for i in 0..n
        invariant
            n == s.len(),
            pieces(s@.take(i as int)).len() >= 1,
            pieces(s@.take(i as int)).last() == cur@,
            pieces(s@.take(i as int)).drop_last().map_values(|q: Seq<char>| strip_cr(q))
                == char_views(out@),
    {
        let ghost p = pieces(s@.take(i as int));
        let ghost before = out@;
        proof {
            assert(s@.take(i + 1).drop_last() =~= s@.take(i as int));
            assert(s@.take(i + 1).last() == s@[i as int]);
        }
        if s[i] == '\n' {
            let mut line = cur;
            if line.len() > 0 && line[line.len() - 1] == '\r' {
                line.pop();
            }
            out.push(line);
            cur = Vec::new();
            proof {
                let np = pieces(s@.take(i + 1));
                assert(np == p.push(seq![]));
                assert(np.drop_last() =~= p);
                assert(p =~= p.drop_last().push(p.last()));
                assert(char_views(out@) =~= char_views(before).push(strip_cr(p.last())));
                assert(np.drop_last().map_values(|q: Seq<char>| strip_cr(q)) =~= p.drop_last().map_values(
                    |q: Seq<char>| strip_cr(q),
                ).push(strip_cr(p.last())));
            }
        } else {
            cur.push(s[i]);
            proof {
                let np = pieces(s@.take(i + 1));
                assert(np.drop_last() =~= p.drop_last());
            }
        }
    }
    let ghost p = pieces(s@.take(n as int));
    proof {
        assert(s@.take(n as int) =~= s@);
    }
    if cur.len() > 0 {
        let ghost before = out@;
        out.push(cur);
        assert(char_views(out@) =~= char_views(before).push(p.last()));
    }
    out
}

/// The index of the first `c` in `s`, if there is one.
pub open spec fn find_char(s: Seq<char>, c: char) -> Option<int>
    decreases s.len(),
{
    if s.len() == 0 {
        None
    } else if s[0] == c {
        Some(0)
    } else {
        match find_char(s.skip(1), c) {
            Some(k) => Some(k + 1),
            None => None,
        }
    }
}

/// The part of `s` after the first `c`, or all of `s` when it holds no `c`
/// (the last item of `str::splitn(2, c)`).
pub open spec fn after_first(s: Seq<char>, c: char) -> Seq<char> {
    match find_char(s, c) {
        Some(k) => s.skip(k + 1),
        None => s,
    }
}

proof fn lemma_find_char_skip(s: Seq<char>, c: char, i: int)
    requires
        0 <= i <= s.len(),
        forall|j: int| 0 <= j < i ==> #[trigger] s[j] != c,
    ensures
        find_char(s, c) == (match find_char(s.skip(i), c) {
            Some(k) => Some(k + i),
            None => None,
        }),
    decreases i,
{
    if i == 0 {
        assert(s.skip(0) =~= s);
        match find_char(s, c) {
            Some(k) => {},
            None => {},
        }
    } else {
        assert(s[0] != c);
        lemma_find_char_skip(s.skip(1), c, i - 1);
        assert(s.skip(1).skip(i - 1) =~= s.skip(i));
    }
}

/// The characters of `s` after its first `c`, or all of `s` when there is none.
pub fn split_after_first(s: &Vec<char>, c: char) -> (r: Vec<char>)
    ensures
        r@ == after_first(s@, c),
{
    let n = s.len();
    let mut i: usize = 0;
    while i < n && s[i] != c
        invariant
            i <= n == s.len(),
            forall|j: int| 0 <= j < i ==> #[trigger] s@[j] != c,
        decreases n - i,
    {
        i += 1;
    }
    proof {
        lemma_find_char_skip(s@, c, i as int);
        if i == n {
            assert(s@.skip(i as int).len() == 0);
        } else {
            assert(s@.skip(i as int)[0] == c);
        }
    }
    if i == n {
        return s.clone();
    }
    let mut r: Vec<char> = Vec::new();
    let mut j: usize = i + 1;
    while j < n
        invariant
            i < j <= n == s.len(),
            r@ == s@.subrange(i + 1, j as int),
        decreases n - j,
    {
        r.push(s[j]);
        j += 1;
        assert(r@ =~= s@.subrange(i + 1, j as int));
    }
    assert(r@ =~= s@.skip(i + 1));
    r
}


/// Whether `a` and `b` hold the same characters.
pub fn chars_eq(a: &Vec<char>, b: &Vec<char>) -> (r: bool)
    ensures
        r == (a@ == b@),
{
    if a.len() != b.len() {
        return false;
    }
    let mut i: usize = 0;
    while i < a.len()
        invariant
            i <= a.len() == b.len(),
            forall|j: int| 0 <= j < i ==> a@[j] == b@[j],
        decreases a.len() - i,
    {
        if a[i] != b[i] {
            return false;
        }
        i += 1;
    }
    assert(a@ =~= b@);
    true
}


/// Appends the characters of `more` to `out`.
pub fn push_chars(out: &mut Vec<char>, more: &Vec<char>)
    ensures
        final(out)@ == old(out)@ + more@,
{
    let ghost before = out@;
    for i in 0..more.len()
        invariant
            out@ == before + more@.take(i as int),
    {
        out.push(more[i]);
        assert(out@ =~= before + more@.take(i + 1));
    }
    assert(more@.take(more.len() as int) =~= more@);
}

} // verus!

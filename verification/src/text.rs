//! Character-level text helpers: whitespace, trimming, line splitting and
//! joining, stated over sequences of characters.

use vstd::prelude::*;

verus! {

/// Unicode `White_Space`, the set that `char::is_whitespace` tests.
pub open spec fn is_whitespace(c: char) -> bool {
    let u = c as u32;
    ||| 0x9 <= u <= 0xd
    ||| u == 0x20
    ||| u == 0x85
    ||| u == 0xa0
    ||| u == 0x1680
    ||| 0x2000 <= u <= 0x200a
    ||| u == 0x2028
    ||| u == 0x2029
    ||| u == 0x202f
    ||| u == 0x205f
    ||| u == 0x3000
}

/// Number of whitespace characters at the start of `s`.
pub open spec fn leading_whitespace(s: Seq<char>) -> nat
    decreases s.len(),
{
    if s.len() > 0 && is_whitespace(s[0]) {
        1 + leading_whitespace(s.drop_first())
    } else {
        0
    }
}

/// Number of whitespace characters at the end of `s`.
pub open spec fn trailing_whitespace(s: Seq<char>) -> nat
    decreases s.len(),
{
    if s.len() > 0 && is_whitespace(s.last()) {
        1 + trailing_whitespace(s.drop_last())
    } else {
        0
    }
}

/// `s` without leading and trailing whitespace, as `str::trim` gives it.
pub open spec fn trim(s: Seq<char>) -> Seq<char> {
    let t = s.skip(leading_whitespace(s) as int);
    t.take(t.len() - trailing_whitespace(t))
}

/// Every character of `s` is whitespace.
pub open spec fn is_blank(s: Seq<char>) -> bool {
    forall|j: int| 0 <= j < s.len() ==> is_whitespace(#[trigger] s[j])
}

/// `s` cut at every `'\n'`: one piece more than there are newlines.
pub open spec fn split_newlines(s: Seq<char>) -> Seq<Seq<char>>
    decreases s.len(),
{
    if s.len() == 0 {
        seq![Seq::<char>::empty()]
    } else {
        let pieces = split_newlines(s.drop_last());
        if s.last() == '\n' {
            pieces.push(Seq::<char>::empty())
        } else {
            pieces.update(pieces.len() - 1, pieces.last().push(s.last()))
        }
    }
}

/// A line that was ended by `"\r\n"` loses its `'\r'`.
pub open spec fn strip_carriage_return(line: Seq<char>) -> Seq<char> {
    if line.len() > 0 && line.last() == '\r' {
        line.drop_last()
    } else {
        line
    }
}

/// The lines of `s`, as `str::lines` yields them: split at `'\n'`, a `'\r'`
/// before the `'\n'` removed, and no empty line after a final `'\n'`.
pub open spec fn lines(s: Seq<char>) -> Seq<Seq<char>> {
    let pieces = split_newlines(s);
    let ended = pieces.drop_last().map_values(|l: Seq<char>| strip_carriage_return(l));
    if pieces.last().len() == 0 {
        ended
    } else {
        ended.push(pieces.last())
    }
}

/// The items of `parts` with one space between each two.
pub open spec fn join_with_spaces(parts: Seq<Seq<char>>) -> Seq<char>
    decreases parts.len(),
{
    if parts.len() == 0 {
        Seq::empty()
    } else if parts.len() == 1 {
        parts[0]
    } else {
        join_with_spaces(parts.drop_last()) + seq![' '] + parts.last()
    }
}

/// The decimal digit for `d < 10`.
pub open spec fn digit(d: nat) -> char {
    (48 + d) as char
}

/// `n` written in decimal, without leading zeros.
pub open spec fn decimal_digits(n: nat) -> Seq<char>
    decreases n,
{
    if n < 10 {
        seq![digit(n)]
    } else {
        decimal_digits(n / 10).push(digit(n % 10))
    }
}

/// `n` written in decimal, as `to_string` writes it.
pub fn decimal(n: usize) -> (s: String)
    ensures
        s@ == decimal_digits(n as nat),
    decreases n,
{
    let d = (n % 10) as u8;
    let c = (48u8 + d) as char;
    if n < 10 {
        let mut s = String::new();
        push_char(&mut s, c);
        assert(s@ =~= decimal_digits(n as nat));
        s
    } else {
        let mut s = decimal(n / 10);
        push_char(&mut s, c);
        s
    }
}

/// Whether `c` is Unicode whitespace.
pub fn is_whitespace_char(c: char) -> (b: bool)
    ensures
        b == is_whitespace(c),
{
    let u = c as u32;
    (0x9 <= u && u <= 0xd) || u == 0x20 || u == 0x85 || u == 0xa0 || u == 0x1680 || (0x2000 <= u
        && u <= 0x200a) || u == 0x2028 || u == 0x2029 || u == 0x202f || u == 0x205f || u == 0x3000
}

/// The characters of `s`, in order.
pub fn chars_of(s: &str) -> (v: Vec<char>)
    ensures
        v@ == s@,
{
    let mut v: Vec<char> = Vec::new();
    for c in it: s.chars()
        invariant
            v@ == it.seq().take(it.index() as int),
    {
        v.push(c);
    }
    v
}

/// Whether `a` and `b` hold the same characters.
pub fn same_text(a: &str, b: &str) -> (eq: bool)
    ensures
        eq == (a@ == b@),
{
    let x = chars_of(a);
    let y = chars_of(b);
    if x.len() != y.len() {
        return false;
    }
    let mut i: usize = 0;
    while i < x.len()
        invariant
            x@ == a@,
            y@ == b@,
            x.len() == y.len(),
            i <= x.len(),
            forall|j: int| 0 <= j < i ==> x@[j] == y@[j],
        decreases x.len() - i,
    {
        if x[i] != y[i] {
            return false;
        }
        i = i + 1;
    }
    assert(x@ =~= y@);
    true
}

/// Appends `src[from..to]` to `out`.
pub fn extend_from_range(out: &mut Vec<char>, src: &Vec<char>, from: usize, to: usize)
    requires
        from <= to <= src.len(),
    ensures
        final(out)@ == old(out)@ + src@.subrange(from as int, to as int),
{
    let mut i = from;
    while i < to
        invariant
            from <= i <= to <= src.len(),
            out@ == old(out)@ + src@.subrange(from as int, i as int),
        decreases to - i,
    {
        out.push(src[i]);
        assert(src@.subrange(from as int, i + 1) =~= src@.subrange(from as int, i as int).push(
            src@[i as int],
        ));
        i = i + 1;
    }
}

/// Appends the characters of `text` to `out`.
pub fn push_text(out: &mut String, text: &str)
    ensures
        final(out)@ == old(out)@ + text@,
{
    let v = chars_of(text);
    let mut i: usize = 0;
    while i < v.len()
        invariant
            v@ == text@,
            i <= v.len(),
            out@ == old(out)@ + v@.take(i as int),
        decreases v.len() - i,
    {
        push_char(out, v[i]);
        assert(v@.take(i + 1) =~= v@.take(i as int).push(v@[i as int]));
        i = i + 1;
    }
    assert(v@.take(v.len() as int) =~= v@);
}

/// A string holding `v[from..to]`.
pub fn string_from_range(v: &Vec<char>, from: usize, to: usize) -> (s: String)
    requires
        from <= to <= v.len(),
    ensures
        s@ == v@.subrange(from as int, to as int),
{
    let mut s = String::new();
    let mut i = from;
    while i < to
        invariant
            from <= i <= to <= v.len(),
            s@ == v@.subrange(from as int, i as int),
        decreases to - i,
    {
        push_char(&mut s, v[i]);
        assert(v@.subrange(from as int, i + 1) =~= v@.subrange(from as int, i as int).push(
            v@[i as int],
        ));
        i = i + 1;
    }
    s
}

/// `String::push`: appends one character.
#[verifier::external_body]
pub(crate) fn push_char(s: &mut String, c: char)
    ensures
        final(s)@ == old(s)@.push(c),
{
    s.push(c);
}

/// The bounds `(a, b)` of `trim(v)` within `v`.
pub fn trim_bounds(v: &Vec<char>) -> (r: (usize, usize))
    ensures
        r.0 <= r.1 <= v.len(),
        r.0 == leading_whitespace(v@),
        v@.subrange(r.0 as int, r.1 as int) == trim(v@),
{
    let n = v.len();
    let mut a: usize = 0;
    while a < n && is_whitespace_char(v[a])
        invariant
            a <= n == v.len(),
            forall|j: int| 0 <= j < a ==> is_whitespace(#[trigger] v@[j]),
        decreases n - a,
    {
        a = a + 1;
    }
    let mut b: usize = n;
    while b > a && is_whitespace_char(v[b - 1])
        invariant
            a <= b <= n == v.len(),
            forall|j: int| b <= j < n ==> is_whitespace(#[trigger] v@[j]),
        decreases b - a,
    {
        b = b - 1;
    }
    proof {
        lemma_leading_whitespace(v@, a as int);
        let t = v@.skip(a as int);
        assert forall|j: int| (b - a) <= j < t.len() implies is_whitespace(#[trigger] t[j]) by {
            assert(t[j] == v@[j + a]);
        }
        if b > a {
            assert(t[b - a - 1] == v@[b - 1]);
        }
        lemma_trailing_whitespace(t, (b - a) as int);
        assert(t.take(t.len() - trailing_whitespace(t)) =~= v@.subrange(a as int, b as int));
    }
    (a, b)
}

/// `leading_whitespace` is the length of the whitespace run that starts `s`.
pub proof fn lemma_leading_whitespace(s: Seq<char>, a: int)
    requires
        0 <= a <= s.len(),
        forall|j: int| 0 <= j < a ==> is_whitespace(#[trigger] s[j]),
        a == s.len() || !is_whitespace(s[a]),
    ensures
        leading_whitespace(s) == a,
    decreases a,
{
    if a > 0 {
        assert(is_whitespace(s[0]));
        let t = s.drop_first();
        assert forall|j: int| 0 <= j < a - 1 implies is_whitespace(#[trigger] t[j]) by {
            assert(t[j] == s[j + 1]);
        }
        if a < s.len() {
            assert(t[a - 1] == s[a]);
        }
        lemma_leading_whitespace(t, a - 1);
    }
}

/// `trailing_whitespace` is the length of the whitespace run that ends `s`.
pub proof fn lemma_trailing_whitespace(s: Seq<char>, b: int)
    requires
        0 <= b <= s.len(),
        forall|j: int| b <= j < s.len() ==> is_whitespace(#[trigger] s[j]),
        b == 0 || !is_whitespace(s[b - 1]),
    ensures
        trailing_whitespace(s) == s.len() - b,
    decreases s.len() - b,
{
    if b < s.len() {
        assert(is_whitespace(s[s.len() - 1]));
        let t = s.drop_last();
        assert forall|j: int| b <= j < t.len() implies is_whitespace(#[trigger] t[j]) by {
            assert(t[j] == s[j]);
        }
        if b > 0 {
            assert(t[b - 1] == s[b - 1]);
        }
        lemma_trailing_whitespace(t, b);
    }
}

/// The leading whitespace run is whitespace and is followed by a
/// non-whitespace character, or by the end.
pub proof fn lemma_leading_whitespace_run(s: Seq<char>)
    ensures
        leading_whitespace(s) <= s.len(),
        forall|j: int| 0 <= j < leading_whitespace(s) ==> is_whitespace(#[trigger] s[j]),
        leading_whitespace(s) == s.len() || !is_whitespace(s[leading_whitespace(s) as int]),
    decreases s.len(),
{
    if s.len() > 0 && is_whitespace(s[0]) {
        let t = s.drop_first();
        lemma_leading_whitespace_run(t);
        assert forall|j: int| 0 <= j < leading_whitespace(s) implies is_whitespace(
            #[trigger] s[j],
        ) by {
            if j > 0 {
                assert(s[j] == t[j - 1]);
            }
        }
        if leading_whitespace(s) < s.len() {
            assert(s[leading_whitespace(s) as int] == t[leading_whitespace(t) as int]);
        }
    }
}

/// A line trims to nothing exactly when it is blank.
pub proof fn lemma_trim_empty_iff_blank(s: Seq<char>)
    ensures
        (trim(s).len() == 0) == is_blank(s),
{
    lemma_leading_whitespace_run(s);
    let a = leading_whitespace(s);
    let t = s.skip(a as int);
    if a < s.len() {
        assert(!is_whitespace(t[0]));
        assert(trailing_whitespace(t) < t.len()) by {
            if trailing_whitespace(t) >= t.len() {
                lemma_trailing_run(t);
                assert(is_whitespace(t[0]));
            }
        }
        assert(!is_whitespace(s[a as int]));
    } else {
        assert(t.len() == 0);
        assert forall|j: int| 0 <= j < s.len() implies is_whitespace(#[trigger] s[j]) by {}
    }
}

/// The trailing whitespace run is whitespace.
pub proof fn lemma_trailing_run(s: Seq<char>)
    ensures
        trailing_whitespace(s) <= s.len(),
        forall|j: int|
            s.len() - trailing_whitespace(s) <= j < s.len() ==> is_whitespace(#[trigger] s[j]),
        trailing_whitespace(s) == s.len() || !is_whitespace(
            s[s.len() - trailing_whitespace(s) - 1],
        ),
    decreases s.len(),
{
    if s.len() > 0 && is_whitespace(s.last()) {
        let t = s.drop_last();
        lemma_trailing_run(t);
        if trailing_whitespace(s) < s.len() {
            assert(s[s.len() - trailing_whitespace(s) - 1] == t[t.len() - trailing_whitespace(t) - 1]);
        }
        assert forall|j: int|
            s.len() - trailing_whitespace(s) <= j < s.len() implies is_whitespace(
            #[trigger] s[j],
        ) by {
            if j < s.len() - 1 {
                assert(s[j] == t[j]);
            }
        }
    }
}

/// `split_newlines` always yields at least one piece.
pub proof fn lemma_split_newlines_nonempty(s: Seq<char>)
    ensures
        split_newlines(s).len() >= 1,
    decreases s.len(),
{
    if s.len() > 0 {
        lemma_split_newlines_nonempty(s.drop_last());
    }
}

/// Joining one more part after a non-empty join adds a space and the part.
pub proof fn lemma_join_push(parts: Seq<Seq<char>>, p: Seq<char>)
    ensures
        join_with_spaces(parts.push(p)) == if parts.len() == 0 {
            p
        } else {
            join_with_spaces(parts) + seq![' '] + p
        },
{
    assert(parts.push(p).drop_last() =~= parts);
}

/// A join of non-empty parts is empty only when there are no parts.
pub proof fn lemma_join_nonempty(parts: Seq<Seq<char>>)
    requires
        forall|k: int| 0 <= k < parts.len() ==> (#[trigger] parts[k]).len() > 0,
    ensures
        (join_with_spaces(parts).len() == 0) == (parts.len() == 0),
    decreases parts.len(),
{
    if parts.len() > 1 {
        let q = parts.drop_last();
        assert forall|k: int| 0 <= k < q.len() implies (#[trigger] q[k]).len() > 0 by {
            assert(q[k] == parts[k]);
        }
        lemma_join_nonempty(q);
    }
}

/// A trimmed text neither starts nor ends with whitespace.
pub proof fn lemma_trim_ends(s: Seq<char>)
    ensures
        trim(s).len() > 0 ==> !is_whitespace(trim(s)[0]) && !is_whitespace(trim(s).last()),
{
    lemma_leading_whitespace_run(s);
    let a = leading_whitespace(s);
    let t = s.skip(a as int);
    lemma_trailing_run(t);
    if trim(s).len() > 0 {
        assert(trim(s)[0] == s[a as int]);
        assert(trim(s).last() == t[t.len() - trailing_whitespace(t) - 1]);
    }
}

/// `s` holds no line break.
pub open spec fn is_single_line(s: Seq<char>) -> bool {
    forall|i: int| 0 <= i < s.len() ==> #[trigger] s[i] != '\n'
}

/// The pieces between newlines hold no newline.
pub proof fn lemma_split_single_lines(s: Seq<char>)
    ensures
        forall|k: int|
            0 <= k < split_newlines(s).len() ==> is_single_line(#[trigger] split_newlines(s)[k]),
    decreases s.len(),
{
    lemma_split_newlines_nonempty(s);
    if s.len() > 0 {
        let p = split_newlines(s.drop_last());
        lemma_split_newlines_nonempty(s.drop_last());
        lemma_split_single_lines(s.drop_last());
        if s.last() != '\n' {
            let q = p.last().push(s.last());
            assert(is_single_line(p[p.len() - 1]));
            assert forall|i: int| 0 <= i < q.len() implies #[trigger] q[i] != '\n' by {
                if i < q.len() - 1 {
                    assert(q[i] == p[p.len() - 1][i]);
                }
            }
            assert forall|k: int| 0 <= k < split_newlines(s).len() implies is_single_line(
                #[trigger] split_newlines(s)[k],
            ) by {
                if k < p.len() - 1 {
                    assert(split_newlines(s)[k] == p[k]);
                }
            }
        } else {
            assert forall|k: int| 0 <= k < split_newlines(s).len() implies is_single_line(
                #[trigger] split_newlines(s)[k],
            ) by {
                if k < p.len() {
                    assert(split_newlines(s)[k] == p[k]);
                }
            }
        }
    }
}

/// No line of `s` holds a newline.
pub proof fn lemma_lines_single(s: Seq<char>)
    ensures
        forall|k: int| 0 <= k < lines(s).len() ==> is_single_line(#[trigger] lines(s)[k]),
{
    let pieces = split_newlines(s);
    lemma_split_newlines_nonempty(s);
    lemma_split_single_lines(s);
    let ended = pieces.drop_last().map_values(|l: Seq<char>| strip_carriage_return(l));
    assert forall|k: int| 0 <= k < ended.len() implies is_single_line(#[trigger] ended[k]) by {
        let l = pieces[k];
        assert(is_single_line(l));
        assert forall|i: int| 0 <= i < strip_carriage_return(l).len() implies #[trigger] strip_carriage_return(l)[i] != '\n' by {
            assert(strip_carriage_return(l)[i] == l[i]);
        }
    }
    assert(is_single_line(pieces[pieces.len() - 1]));
    assert forall|k: int| 0 <= k < lines(s).len() implies is_single_line(#[trigger] lines(s)[k]) by {
        if k < ended.len() {
            assert(lines(s)[k] == ended[k]);
        }
    }
}

/// Filtering single lines leaves single lines.
pub proof fn lemma_filter_single(parts: Seq<Seq<char>>, keep: spec_fn(Seq<char>) -> bool)
    requires
        forall|k: int| 0 <= k < parts.len() ==> is_single_line(#[trigger] parts[k]),
    ensures
        forall|k: int|
            0 <= k < parts.filter(keep).len() ==> is_single_line(#[trigger] parts.filter(keep)[k]),
    decreases parts.len(),
{
    reveal(Seq::filter);
    if parts.len() > 0 {
        let rest = parts.drop_last();
        assert forall|k: int| 0 <= k < rest.len() implies is_single_line(#[trigger] rest[k]) by {
            assert(rest[k] == parts[k]);
        }
        lemma_filter_single(rest, keep);
        assert(is_single_line(parts[parts.len() - 1]));
        let f = parts.filter(keep);
        assert forall|k: int| 0 <= k < f.len() implies is_single_line(#[trigger] f[k]) by {
            if k < rest.filter(keep).len() {
                assert(f[k] == rest.filter(keep)[k]);
            }
        }
    }
}

/// Joining single lines with spaces gives a single line.
pub proof fn lemma_join_single(parts: Seq<Seq<char>>)
    requires
        forall|k: int| 0 <= k < parts.len() ==> is_single_line(#[trigger] parts[k]),
    ensures
        is_single_line(join_with_spaces(parts)),
    decreases parts.len(),
{
    if parts.len() == 1 {
        assert(is_single_line(parts[0]));
    } else if parts.len() > 1 {
        let rest = parts.drop_last();
        assert forall|k: int| 0 <= k < rest.len() implies is_single_line(#[trigger] rest[k]) by {
            assert(rest[k] == parts[k]);
        }
        lemma_join_single(rest);
        let a = join_with_spaces(rest);
        let b = parts.last();
        assert(is_single_line(parts[parts.len() - 1]));
        let j = a + seq![' '] + b;
        assert forall|i: int| 0 <= i < j.len() implies #[trigger] j[i] != '\n' by {
            if i < a.len() {
                assert(j[i] == a[i]);
            } else if i > a.len() {
                assert(j[i] == b[i - a.len() - 1]);
            }
        }
    }
}

/// Trimming a single line leaves a single line.
pub proof fn lemma_trim_single(s: Seq<char>)
    requires
        is_single_line(s),
    ensures
        is_single_line(trim(s)),
{
    let a = leading_whitespace(s);
    lemma_leading_whitespace_run(s);
    let t = s.skip(a as int);
    lemma_trailing_run(t);
    assert forall|i: int| 0 <= i < trim(s).len() implies #[trigger] trim(s)[i] != '\n' by {
        assert(trim(s)[i] == s[i + a]);
    }
}

/// A text without line breaks is one piece between newlines.
pub proof fn lemma_split_single_line(s: Seq<char>)
    requires
        is_single_line(s),
    ensures
        split_newlines(s) == seq![s],
    decreases s.len(),
{
    if s.len() > 0 {
        let t = s.drop_last();
        assert forall|i: int| 0 <= i < t.len() implies #[trigger] t[i] != '\n' by {
            assert(t[i] == s[i]);
        }
        lemma_split_single_line(t);
        assert(s[s.len() - 1] != '\n');
        assert(t.push(s.last()) =~= s);
        let p = split_newlines(t);
        assert(p.len() == 1 && p.last() == t);
        assert(split_newlines(s) == p.update(0, t.push(s.last())));
        assert(p.update(0, s) =~= seq![s]);
    } else {
        assert(s =~= Seq::<char>::empty());
    }
}

/// A text without line breaks is its only line, when it is not empty.
pub proof fn lemma_lines_of_single_line(s: Seq<char>)
    requires
        is_single_line(s),
    ensures
        lines(s) == if s.len() == 0 { Seq::<Seq<char>>::empty() } else { seq![s] },
{
    lemma_split_single_line(s);
    let pieces = split_newlines(s);
    assert(pieces.drop_last() =~= Seq::<Seq<char>>::empty());
    let ended = pieces.drop_last().map_values(|l: Seq<char>| strip_carriage_return(l));
    assert(ended =~= Seq::<Seq<char>>::empty());
    if s.len() > 0 {
        assert(ended.push(s) =~= seq![s]);
    }
}

} // verus!

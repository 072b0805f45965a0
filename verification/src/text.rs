//! Character-level helpers shared by the parsers and formatters.
use vstd::prelude::*;

verus! {

/// Unicode `White_Space`: the characters that `\s` of a Unicode regex and
/// `str::trim` treat as whitespace.
pub open spec fn is_white_space(c: char) -> bool {
    ||| ('\u{9}' <= c && c <= '\u{d}')
    ||| c == ' '
    ||| c == '\u{85}'
    ||| c == '\u{a0}'
    ||| c == '\u{1680}'
    ||| ('\u{2000}' <= c && c <= '\u{200a}')
    ||| c == '\u{2028}'
    ||| c == '\u{2029}'
    ||| c == '\u{202f}'
    ||| c == '\u{205f}'
    ||| c == '\u{3000}'
}

/// Decides [`is_white_space`].
pub fn white_space(c: char) -> (b: bool)
    ensures
        b == is_white_space(c),
{
    ('\u{9}' <= c && c <= '\u{d}') || c == ' ' || c == '\u{85}' || c == '\u{a0}' || c == '\u{1680}'
        || ('\u{2000}' <= c && c <= '\u{200a}') || c == '\u{2028}' || c == '\u{2029}' || c
        == '\u{202f}' || c == '\u{205f}' || c == '\u{3000}'
}

/// The characters of `s`, in order.
pub fn chars_of(s: &str) -> (v: Vec<char>)
    ensures
        v@ == s@,
{
    let mut v: Vec<char> = Vec::new();
    for c in it: s.chars()
        invariant
            v@ == it.seq().take(it.index() as int),
    {
        v.push(c);
    }
    v
}

/// Index of the first character at or after `i` that is not whitespace
/// (`t.len()` when there is none).
pub open spec fn skip_ws(t: Seq<char>, i: int) -> int
    decreases t.len() - i,
{
    if 0 <= i < t.len() && is_white_space(t[i]) {
        skip_ws(t, i + 1)
    } else {
        i
    }
}

/// Computes [`skip_ws`].
pub fn skip_white_space(t: &Vec<char>, i: usize) -> (j: usize)
    requires
        i <= t@.len(),
    ensures
        j == skip_ws(t@, i as int),
        i <= j <= t@.len(),
{
    let mut j = i;
    while j < t.len() && white_space(t[j])
        invariant
            i <= j <= t@.len(),
            skip_ws(t@, j as int) == skip_ws(t@, i as int),
        decreases t@.len() - j,
    {
        j = j + 1;
    }
    j
}

/// `t` holds `lit` starting at index `i`.
pub open spec fn lit_at(t: Seq<char>, i: int, lit: Seq<char>) -> bool {
    0 <= i && i + lit.len() <= t.len() && t.subrange(i, i + lit.len()) == lit
}

/// Decides [`lit_at`].
pub fn has_lit_at(t: &Vec<char>, i: usize, lit: &str) -> (b: bool)
    requires
        i <= t@.len(),
    ensures
        b == lit_at(t@, i as int, lit@),
        b ==> i + lit@.len() <= t.len(),
{
    let n = lit.unicode_len();
    if n > t.len() - i {
        return false;
    }
    let mut k: usize = 0;
    while k < n
        invariant
            n == lit@.len(),
            i + n <= t.len(),
            k <= n,
            forall|m: int| 0 <= m < k ==> t@[i + m] == lit@[m],
        decreases n - k,
    {
        if t[i + k] != lit.get_char(k) {
            assert(t@.subrange(i as int, i + n)[k as int] != lit@[k as int]);
            return false;
        }
        k = k + 1;
    }
    assert(t@.subrange(i as int, i + n) =~= lit@);
    true
}

/// Appends `c` to `s`.
///
/// Wraps `String::push`, whose documentation says that it appends the given
/// `char` to the end of the string; the contract states exactly that.
#[verifier::external_body]
pub(crate) fn push_char(s: &mut String, c: char)
    ensures
        final(s)@ == old(s)@.push(c),
{
    s.push(c);
}

/// The character of the decimal digit `d`.
pub open spec fn digit_char(d: nat) -> char {
    (d + 48) as char
}

/// The decimal notation of `n`, without leading zeros.
pub open spec fn decimal(n: nat) -> Seq<char>
    decreases n,
{
    if n < 10 {
        seq![digit_char(n)]
    } else {
        decimal(n / 10).push(digit_char(n % 10))
    }
}

/// The number that the decimal digits `s` stand for.
pub open spec fn decimal_value(s: Seq<char>) -> int
    decreases s.len(),
{
    if s.len() == 0 {
        0
    } else {
        decimal_value(s.drop_last()) * 10 + (s.last() as int - 48)
    }
}

/// The decimal notation of `n` is made of the digits `0` to `9`, does not
/// begin with `0` unless it is `0` itself, and stands for `n`.
pub proof fn law_decimal_reads_back(n: nat)
    ensures
        decimal(n).len() > 0,
        forall|i: int| 0 <= i < decimal(n).len() ==> '0' <= #[trigger] decimal(n)[i] <= '9',
        decimal(n)[0] == '0' ==> n == 0,
        decimal_value(decimal(n)) == n,
    decreases n,
{
    assert(digit_char(n % 10) as int == n % 10 + 48);
    if n >= 10 {
        law_decimal_reads_back(n / 10);
        assert(decimal(n).drop_last() =~= decimal(n / 10));
        assert(decimal(n)[0] == decimal(n / 10)[0]);
        assert(n == (n / 10) * 10 + n % 10);
        assert(decimal(n).last() == digit_char(n % 10));
        assert(decimal_value(decimal(n)) == decimal_value(decimal(n / 10)) * 10 + (n % 10));
    } else {
        assert(decimal(n).drop_last().len() == 0);
        assert(decimal_value(decimal(n).drop_last()) == 0);
        assert(digit_char(n) as int == n + 48);
        assert(decimal(n).last() == digit_char(n));
    }
}

fn digit(d: u8) -> (c: char)
    requires
        d < 10,
    ensures
        c == digit_char(d as nat),
{
    (d + 48) as char
}

/// Appends the decimal notation of `n` to `s`.
pub fn push_decimal(s: &mut String, n: u8)
    ensures
        final(s)@ == old(s)@ + decimal(n as nat),
{
    if n >= 100 {
        push_char(s, digit(n / 100));
        push_char(s, digit((n / 10) % 10));
        push_char(s, digit(n % 10));
        assert(decimal((n / 100) as nat) == seq![digit_char((n / 100) as nat)]);
        assert(decimal((n / 10) as nat) =~= seq![digit_char((n / 100) as nat), digit_char(((n / 10) % 10) as nat)]);
    } else if n >= 10 {
        push_char(s, digit(n / 10));
        push_char(s, digit(n % 10));
        assert(decimal((n / 10) as nat) == seq![digit_char((n / 10) as nat)]);
    } else {
        push_char(s, digit(n));
    }
    assert(final(s)@ =~= old(s)@ + decimal(n as nat));
}

/// `parts` laid end to end with `sep` between each two neighbours.
pub open spec fn join(parts: Seq<Seq<char>>, sep: Seq<char>) -> Seq<char>
    decreases parts.len(),
{
    if parts.len() == 0 {
        seq![]
    } else if parts.len() == 1 {
        parts[0]
    } else {
        join(parts.drop_last(), sep) + sep + parts.last()
    }
}

/// Joining one more part adds the separator and then the part: between every
/// two neighbours stands exactly one separator.
pub proof fn law_join_adds_separator_and_part(parts: Seq<Seq<char>>, sep: Seq<char>, p: Seq<char>)
    requires
        parts.len() > 0,
    ensures
        join(parts.push(p), sep) == join(parts, sep) + sep + p,
{
    assert(parts.push(p).drop_last() =~= parts);
}

/// Joining a single part gives the part, and joining none gives nothing.
pub proof fn law_join_of_one_and_none(p: Seq<char>, sep: Seq<char>)
    ensures
        join(seq![p], sep) == p,
        join(Seq::<Seq<char>>::empty(), sep) == Seq::<char>::empty(),
{
}

/// The joined text is as long as the parts together plus one separator
/// between each two neighbours.
pub proof fn law_join_length(parts: Seq<Seq<char>>, sep: Seq<char>)
    requires
        parts.len() > 0,
    ensures
        join(parts, sep).len() == total_len(parts) + (parts.len() - 1) * sep.len(),
    decreases parts.len(),
{
    if parts.len() > 1 {
        law_join_length(parts.drop_last(), sep);
        assert((parts.len() - 1) * sep.len() == (parts.len() - 2) * sep.len() + sep.len()) by (nonlinear_arith);
    } else {
        assert(total_len(parts.drop_last()) == 0);
    }
}

/// Every part stands, whole, in the joined text.
pub proof fn law_join_holds_each_part(parts: Seq<Seq<char>>, sep: Seq<char>, i: int)
    requires
        0 <= i < parts.len(),
    ensures
        exists|k: int|
            0 <= k && k + parts[i].len() <= join(parts, sep).len() && #[trigger] join(parts, sep).subrange(
                k,
                k + parts[i].len(),
            ) == parts[i],
    decreases parts.len(),
{
    let j = join(parts, sep);
    if parts.len() == 1 {
        let k = 0int;
        assert(j.subrange(k, k + parts[i].len()) =~= parts[i]);
    } else if i == parts.len() - 1 {
        let k = j.len() - parts[i].len();
        assert(j.subrange(k, k + parts[i].len()) =~= parts[i]);
    } else {
        let init = parts.drop_last();
        law_join_holds_each_part(init, sep, i);
        let k = choose|k: int|
            0 <= k && k + init[i].len() <= join(init, sep).len() && #[trigger] join(init, sep).subrange(
                k,
                k + init[i].len(),
            ) == init[i];
        assert(init[i] == parts[i]);
        assert(j.subrange(k, k + parts[i].len()) =~= join(init, sep).subrange(k, k + init[i].len()));
    }
}

/// Whitespace at `[i, skip_ws(t, i))`, and none at [`skip_ws`] itself.
proof fn lemma_skip_ws_bounds(t: Seq<char>, i: int)
    requires
        0 <= i <= t.len(),
    ensures
        i <= skip_ws(t, i) <= t.len(),
        forall|k: int| i <= k < skip_ws(t, i) ==> is_white_space(t[k]),
        skip_ws(t, i) < t.len() ==> !is_white_space(t[skip_ws(t, i)]),
    decreases t.len() - i,
{
    if i < t.len() && is_white_space(t[i]) {
        lemma_skip_ws_bounds(t, i + 1);
    }
}

proof fn lemma_trim_end_bounds(t: Seq<char>, lo: int, hi: int)
    requires
        0 <= lo <= hi <= t.len(),
    ensures
        lo <= trim_end_index(t, lo, hi) <= hi,
        forall|k: int| trim_end_index(t, lo, hi) <= k < hi ==> is_white_space(t[k]),
        trim_end_index(t, lo, hi) > lo ==> !is_white_space(t[trim_end_index(t, lo, hi) - 1]),
    decreases hi - lo,
{
    if lo < hi && is_white_space(t[hi - 1]) {
        lemma_trim_end_bounds(t, lo, hi - 1);
    }
}

/// Trimming takes away whitespace at both ends and nothing else: the result
/// stands in `s` with only whitespace before and after it, and neither
/// begins nor ends with whitespace.
pub proof fn law_trim_removes_outer_white_space(s: Seq<char>)
    ensures
        exists|lo: int|
            0 <= lo && lo + trim(s).len() <= s.len() && #[trigger] s.subrange(lo, lo + trim(s).len()) == trim(s)
                && (forall|k: int| 0 <= k < lo ==> is_white_space(s[k])) && (forall|k: int|
                lo + trim(s).len() <= k < s.len() ==> is_white_space(s[k])),
        trim(s).len() > 0 ==> !is_white_space(trim(s)[0]) && !is_white_space(trim(s).last()),
{
    let lo = trim_start_index(s);
    lemma_skip_ws_bounds(s, 0);
    lemma_trim_end_bounds(s, lo, s.len() as int);
    let hi = trim_end_index(s, lo, s.len() as int);
    assert(s.subrange(lo, lo + trim(s).len()) == trim(s));
    if trim(s).len() > 0 {
        assert(trim(s)[0] == s[lo]);
        assert(trim(s).last() == s[hi - 1]);
    }
}

/// The total length of `parts`.
pub open spec fn total_len(parts: Seq<Seq<char>>) -> int
    decreases parts.len(),
{
    if parts.len() == 0 {
        0
    } else {
        total_len(parts.drop_last()) + parts.last().len()
    }
}

/// The characters of each string in `v`.
pub open spec fn strings_view(v: Seq<String>) -> Seq<Seq<char>> {
    v.map_values(|s: String| s@)
}

/// Joins `parts` with `sep` between neighbours.
pub fn join_strings(parts: &[String], sep: &str) -> (s: String)
    ensures
        s@ == join(strings_view(parts@), sep@),
{
    let mut s = String::new();
    let mut i: usize = 0;
    while i < parts.len()
        invariant
            i <= parts@.len(),
            s@ == join(strings_view(parts@.take(i as int)), sep@),
        decreases parts@.len() - i,
    {
        let ghost before = strings_view(parts@.take(i as int));
        if i > 0 {
            s.append(sep);
        }
        s.append(parts[i].as_str());
        i = i + 1;
        assert(strings_view(parts@.take(i as int)).drop_last() =~= before);
    }
    assert(parts@.take(i as int) =~= parts@);
    s
}

/// Two strings hold the same characters.
pub fn same_chars(a: &str, b: &str) -> (eq: bool)
    ensures
        eq == (a@ == b@),
{
    let x = chars_of(a);
    let y = chars_of(b);
    if x.len() != y.len() {
        return false;
    }
    let mut i: usize = 0;
    while i < x.len()
        invariant
            x@ == a@,
            y@ == b@,
            x@.len() == y@.len(),
            i <= x@.len(),
            forall|k: int| 0 <= k < i ==> x@[k] == y@[k],
        decreases x@.len() - i,
    {
        if x[i] != y[i] {
            return false;
        }
        i = i + 1;
    }
    assert(x@ =~= y@);
    true
}

/// Index of the first character of `s` that is not whitespace.
pub open spec fn trim_start_index(s: Seq<char>) -> int {
    skip_ws(s, 0)
}

/// Index just past the last character of `s` at or after `lo` that is not
/// whitespace (`lo` when there is none).
pub open spec fn trim_end_index(s: Seq<char>, lo: int, hi: int) -> int
    decreases hi - lo,
{
    if lo < hi && is_white_space(s[hi - 1]) {
        trim_end_index(s, lo, hi - 1)
    } else {
        hi
    }
}

/// `s` without leading and trailing whitespace.
pub open spec fn trim(s: Seq<char>) -> Seq<char> {
    let lo = trim_start_index(s);
    s.subrange(lo, trim_end_index(s, lo, s.len() as int))
}

/// `s` without leading and trailing whitespace, as `str::trim` gives it.
pub fn trimmed(s: &str) -> (r: String)
    ensures
        r@ == trim(s@),
{
    let t = chars_of(s);
    let lo = skip_white_space(&t, 0);
    let mut hi = t.len();
    while lo < hi && white_space(t[hi - 1])
        invariant
            lo <= hi <= t@.len(),
            trim_end_index(t@, lo as int, hi as int) == trim_end_index(t@, lo as int, t@.len() as int),
        decreases hi - lo,
    {
        hi = hi - 1;
    }
    s.substring_char(lo, hi).to_owned()
}

/// `base` extended by `part` as a path is on Unix: an absolute `part`
/// replaces `base`; otherwise a `/` separates the two unless `base` is empty or
/// already ends in one.
pub open spec fn join_path(base: Seq<char>, part: Seq<char>) -> Seq<char> {
    if part.len() > 0 && part[0] == '/' {
        part
    } else if base.len() > 0 && base.last() != '/' {
        base + seq!['/'] + part
    } else {
        base + part
    }
}

/// Computes [`join_path`].
pub fn path_join(base: &str, part: &str) -> (p: String)
    ensures
        p@ == join_path(base@, part@),
{
    let b = chars_of(base);
    let q = chars_of(part);
    if q.len() > 0 && q[0] == '/' {
        return part.to_owned();
    }
    let mut p = base.to_owned();
    if b.len() > 0 && b[b.len() - 1] != '/' {
        push_char(&mut p, '/');
    }
    p.append(part);
    p
}

} // verus!

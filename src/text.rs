use vstd::prelude::*;

verus! {

/// White space as `char::is_whitespace` defines it: the Unicode `White_Space` property.
pub open spec fn is_white(c: char) -> bool {
    ('\u{9}' <= c && c <= '\u{d}') || c == ' ' || c == '\u{85}' || c == '\u{a0}'
        || c == '\u{1680}' || ('\u{2000}' <= c && c <= '\u{200a}') || c == '\u{2028}'
        || c == '\u{2029}' || c == '\u{202f}' || c == '\u{205f}' || c == '\u{3000}'
}

/// `s` without its leading white space.
pub open spec fn trim_start(s: Seq<char>) -> Seq<char>
    decreases s.len(),
{
    if s.len() > 0 && is_white(s[0]) {
        trim_start(s.drop_first())
    } else {
        s
    }
}

/// `s` without its trailing white space.
pub open spec fn trim_end(s: Seq<char>) -> Seq<char>
    decreases s.len(),
{
    if s.len() > 0 && is_white(s.last()) {
        trim_end(s.drop_last())
    } else {
        s
    }
}

/// `s` without leading and trailing white space.
pub open spec fn trim(s: Seq<char>) -> Seq<char> {
    trim_end(trim_start(s))
}

/// The pieces of `s` between occurrences of `sep`; always at least one piece.
pub open spec fn split_on(s: Seq<char>, sep: char) -> Seq<Seq<char>>
    decreases s.len(),
{
    if s.len() == 0 {
        seq![Seq::<char>::empty()]
    } else {
        let rest = split_on(s.drop_last(), sep);
        if s.last() == sep {
            rest.push(Seq::<char>::empty())
        } else {
            rest.update(rest.len() - 1, rest.last().push(s.last()))
        }
    }
}

pub proof fn lemma_split_nonempty(s: Seq<char>, sep: char)
    ensures
        split_on(s, sep).len() >= 1,
    decreases s.len(),
{
    if s.len() > 0 {
        lemma_split_nonempty(s.drop_last(), sep);
    }
}

/// Whether `c` occurs nowhere in `s`.
pub open spec fn lacks(s: Seq<char>, c: char) -> bool {
    forall|i: int| 0 <= i < s.len() ==> #[trigger] s[i] != c
}

pub proof fn lemma_split_single(s: Seq<char>, sep: char)
    requires
        lacks(s, sep),
    ensures
        split_on(s, sep) == seq![s],
    decreases s.len(),
{
    if s.len() > 0 {
        assert(lacks(s.drop_last(), sep)) by {
            assert forall|i: int| 0 <= i < s.drop_last().len() implies #[trigger] s.drop_last()[i]
                != sep by {
                assert(s.drop_last()[i] == s[i]);
            }
        }
        lemma_split_single(s.drop_last(), sep);
        assert(s.last() == s[s.len() - 1]);
        assert(s.drop_last().push(s.last()) =~= s);
        assert(split_on(s, sep) =~= seq![s]);
    } else {
        assert(s =~= Seq::<char>::empty());
    }
}

pub proof fn lemma_split_concat(a: Seq<char>, b: Seq<char>, sep: char)
    ensures
        split_on(a.push(sep) + b, sep) == split_on(a, sep) + split_on(b, sep),
    decreases b.len(),
{
    let x = a.push(sep) + b;
    if b.len() == 0 {
        assert(x =~= a.push(sep));
        assert(x.drop_last() =~= a);
        assert(split_on(x, sep) =~= split_on(a, sep) + split_on(b, sep));
    } else {
        lemma_split_concat(a, b.drop_last(), sep);
        assert(x.drop_last() =~= a.push(sep) + b.drop_last());
        assert(x.last() == b.last());
        let pa = split_on(a, sep);
        let pb = split_on(b.drop_last(), sep);
        lemma_split_nonempty(b.drop_last(), sep);
        if b.last() == sep {
            assert(split_on(x, sep) =~= pa + split_on(b, sep));
        } else {
            assert(split_on(x, sep) =~= pa + split_on(b, sep));
        }
    }
}

/// Where neither end of `s` is white space, trimming leaves it as it is.
pub proof fn lemma_trim_unchanged(s: Seq<char>)
    requires
        s.len() > 0,
        !is_white(s[0]),
        !is_white(s.last()),
    ensures
        trim(s) == s,
{
}

pub open spec fn is_digit(c: char) -> bool {
    '0' <= c && c <= '9'
}

pub open spec fn all_digits(s: Seq<char>) -> bool {
    forall|i: int| 0 <= i < s.len() ==> is_digit(#[trigger] s[i])
}

/// The number that the decimal digits `s` write.
pub open spec fn decimal_value(s: Seq<char>) -> nat
    decreases s.len(),
{
    if s.len() == 0 {
        0
    } else {
        decimal_value(s.drop_last()) * 10 + ((s.last() as nat) - ('0' as nat)) as nat
    }
}

/// The digits of an unsigned number in text: an optional `+` stands before them.
pub open spec fn unsigned_digits(s: Seq<char>) -> Seq<char> {
    if s.len() > 0 && s[0] == '+' {
        s.drop_first()
    } else {
        s
    }
}

/// What reading `s` as a `usize` gives, as `str::parse::<usize>` reads it: one or
/// more decimal digits after an optional `+`, with a value that fits.
pub open spec fn parse_usize_spec(s: Seq<char>) -> Option<usize> {
    let d = unsigned_digits(s);
    if d.len() > 0 && all_digits(d) && decimal_value(d) <= usize::MAX {
        Some(decimal_value(d) as usize)
    } else {
        None
    }
}

/// Whether `s` begins with `p`.
pub open spec fn has_prefix(s: Seq<char>, p: Seq<char>) -> bool {
    p.len() <= s.len() && s.subrange(0, p.len() as int) == p
}

pub proof fn lemma_decimal_monotone(s: Seq<char>, j: int, k: int)
    requires
        0 <= j <= k <= s.len(),
        all_digits(s),
    ensures
        decimal_value(s.subrange(0, j)) <= decimal_value(s.subrange(0, k)),
    decreases k - j,
{
    if j < k {
        lemma_decimal_monotone(s, j, k - 1);
        assert(s.subrange(0, k).drop_last() =~= s.subrange(0, k - 1));
        assert(is_digit(s[k - 1]));
    }
}

/// The characters of `s` up to its first white space.
pub open spec fn leading_word(s: Seq<char>) -> Seq<char>
    decreases s.len(),
{
    if s.len() == 0 || is_white(s[0]) {
        Seq::empty()
    } else {
        seq![s[0]] + leading_word(s.drop_first())
    }
}

/// The first word of `s` that white space delimits, if `s` holds one.
pub open spec fn first_word(s: Seq<char>) -> Option<Seq<char>> {
    let t = trim_start(s);
    if t.len() == 0 {
        None
    } else {
        Some(leading_word(t))
    }
}

/// Whether `s` holds no white space.
pub open spec fn no_white(s: Seq<char>) -> bool {
    forall|i: int| 0 <= i < s.len() ==> !is_white(#[trigger] s[i])
}

pub proof fn lemma_leading_word(s: Seq<char>)
    ensures
        no_white(leading_word(s)),
        s.len() > 0 && !is_white(s[0]) ==> leading_word(s).len() > 0,
    decreases s.len(),
{
    if s.len() > 0 && !is_white(s[0]) {
        lemma_leading_word(s.drop_first());
        let w = leading_word(s);
        assert forall|i: int| 0 <= i < w.len() implies !is_white(#[trigger] w[i]) by {
            if i > 0 {
                assert(w[i] == leading_word(s.drop_first())[i - 1]);
            }
        }
    }
}

pub proof fn lemma_trim_start(s: Seq<char>)
    ensures
        trim_start(s).len() > 0 ==> !is_white(trim_start(s)[0]),
    decreases s.len(),
{
    if s.len() > 0 && is_white(s[0]) {
        lemma_trim_start(s.drop_first());
    }
}

/// The text of a number that `str::parse::<usize>` reads ends with a digit and
/// holds no character but digits and a leading `+`.
pub proof fn lemma_number_text(s: Seq<char>, c: char)
    requires
        parse_usize_spec(s) is Some,
        c != '+',
        !is_digit(c),
    ensures
        s.len() > 0,
        is_digit(s.last()),
        !is_white(s.last()),
        lacks(s, c),
{
    let d = unsigned_digits(s);
    assert(d.len() > 0);
    if s.len() > 0 && s[0] == '+' {
        assert(s.last() == d[d.len() - 1]);
        assert forall|i: int| 0 <= i < s.len() implies #[trigger] s[i] != c by {
            if i > 0 {
                assert(s[i] == d[i - 1]);
            }
        }
    } else {
        assert(s.last() == d[d.len() - 1]);
        assert forall|i: int| 0 <= i < s.len() implies #[trigger] s[i] != c by {
            assert(s[i] == d[i]);
        }
    }
}

/// Whether `c` is white space, tested over the same code points as `is_white`.
pub fn char_is_white(c: char) -> (r: bool)
    ensures
        r == is_white(c),
{
    ('\u{9}' <= c && c <= '\u{d}') || c == ' ' || c == '\u{85}' || c == '\u{a0}'
        || c == '\u{1680}' || ('\u{2000}' <= c && c <= '\u{200a}') || c == '\u{2028}'
        || c == '\u{2029}' || c == '\u{202f}' || c == '\u{205f}' || c == '\u{3000}'
}

/// The characters of `s`, one by one.
pub fn chars_of(s: &str) -> (r: Vec<char>)
    ensures
        r@ == s@,
{
    let n = s.unicode_len();
    let mut r: Vec<char> = Vec::new();
    let mut i: usize = 0;
    while i < n
        invariant
            n == s@.len(),
            i <= n,
            r@ == s@.subrange(0, i as int),
        decreases n - i,
    {
        r.push(s.get_char(i));
        i = i + 1;
    }
    assert(r@ =~= s@);
    r
}

/// The bounds of `trim(c[lo..hi])` inside `c`.
pub fn trim_bounds(c: &Vec<char>, lo: usize, hi: usize) -> (r: (usize, usize))
    requires
        lo <= hi <= c@.len(),
    ensures
        lo <= r.0 <= r.1 <= hi,
        c@.subrange(r.0 as int, r.1 as int) == trim(c@.subrange(lo as int, hi as int)),
{
    let mut a = lo;
    while a < hi && char_is_white(c[a])
        invariant
            lo <= a <= hi <= c@.len(),
            trim_start(c@.subrange(lo as int, hi as int)) == trim_start(
                c@.subrange(a as int, hi as int),
            ),
        decreases hi - a,
    {
        assert(c@.subrange(a as int, hi as int).drop_first() =~= c@.subrange(
            a + 1,
            hi as int,
        ));
        a = a + 1;
    }
    assert(trim_start(c@.subrange(a as int, hi as int)) == c@.subrange(a as int, hi as int));
    let mut b = hi;
    while b > a && char_is_white(c[b - 1])
        invariant
            lo <= a <= b <= hi <= c@.len(),
            trim_end(c@.subrange(a as int, hi as int)) == trim_end(
                c@.subrange(a as int, b as int),
            ),
        decreases b - a,
    {
        assert(c@.subrange(a as int, b as int).drop_last() =~= c@.subrange(
            a as int,
            b - 1,
        ));
        b = b - 1;
    }
    (a, b)
}

/// The bounds inside `c` of each piece of `split_on(c[lo..hi], sep)`.
pub fn split_bounds(c: &Vec<char>, lo: usize, hi: usize, sep: char) -> (r: Vec<(usize, usize)>)
    requires
        lo <= hi <= c@.len(),
    ensures
        r@.len() == split_on(c@.subrange(lo as int, hi as int), sep).len(),
        r@.len() >= 1,
        forall|k: int|
            0 <= k < r@.len() ==> lo <= (#[trigger] r@[k]).0 <= r@[k].1 <= hi
                && c@.subrange(r@[k].0 as int, r@[k].1 as int) == split_on(
                c@.subrange(lo as int, hi as int),
                sep,
            )[k],
{
    let mut r: Vec<(usize, usize)> = Vec::new();
    let mut start = lo;
    let mut i = lo;
    assert(c@.subrange(lo as int, lo as int) =~= Seq::<char>::empty());
    while i < hi
        invariant
            lo <= start <= i <= hi <= c@.len(),
            split_on(c@.subrange(lo as int, i as int), sep).len() == r@.len() + 1,
            forall|k: int|
                0 <= k < r@.len() ==> lo <= (#[trigger] r@[k]).0 <= r@[k].1 <= hi
                    && c@.subrange(r@[k].0 as int, r@[k].1 as int) == split_on(
                    c@.subrange(lo as int, i as int),
                    sep,
                )[k],
            split_on(c@.subrange(lo as int, i as int), sep).last() == c@.subrange(
                start as int,
                i as int,
            ),
        decreases hi - i,
    {
        let ghost prev = split_on(c@.subrange(lo as int, i as int), sep);
        assert(c@.subrange(lo as int, i + 1).drop_last() =~= c@.subrange(lo as int, i as int));
        assert(c@.subrange(lo as int, i + 1).last() == c@[i as int]);
        if c[i] == sep {
            r.push((start, i));
            i = i + 1;
            start = i;
            assert(c@.subrange(start as int, i as int) =~= Seq::<char>::empty());
        } else {
            assert(c@.subrange(start as int, i + 1) =~= c@.subrange(start as int, i as int).push(
                c@[i as int],
            ));
            i = i + 1;
        }
    }
    r.push((start, hi));
    proof {
        lemma_split_nonempty(c@.subrange(lo as int, hi as int), sep);
        let parts = split_on(c@.subrange(lo as int, hi as int), sep);
        assert forall|k: int| 0 <= k < r@.len() implies lo <= (#[trigger] r@[k]).0 <= r@[k].1
            <= hi && c@.subrange(r@[k].0 as int, r@[k].1 as int) == parts[k] by {}
    }
    r
}

/// Reads `c[lo..hi]` as a `usize`, as `str::parse::<usize>` does.
pub fn parse_usize(c: &Vec<char>, lo: usize, hi: usize) -> (r: Option<usize>)
    requires
        lo <= hi <= c@.len(),
    ensures
        r == parse_usize_spec(c@.subrange(lo as int, hi as int)),
{
    let ghost s = c@.subrange(lo as int, hi as int);
    let mut a = lo;
    if a < hi && c[a] == '+' {
        a = a + 1;
    }
    let ghost d = c@.subrange(a as int, hi as int);
    assert(unsigned_digits(s) =~= d);
    if a == hi {
        return None;
    }
    let mut v: usize = 0;
    let mut i = a;
    while i < hi
        invariant
            lo <= a <= i <= hi <= c@.len(),
            d == c@.subrange(a as int, hi as int),
            s == c@.subrange(lo as int, hi as int),
            unsigned_digits(s) == d,
            d.len() > 0,
            all_digits(d.subrange(0, i - a)),
            v == decimal_value(d.subrange(0, i - a)),
        decreases hi - i,
    {
        let ch = c[i];
        assert(d.subrange(0, i + 1 - a).drop_last() =~= d.subrange(0, i - a));
        assert(d[i - a] == ch);
        assert(d.subrange(0, i + 1 - a).last() == ch);
        if !('0' <= ch && ch <= '9') {
            assert(!is_digit(d[i - a]));
            return None;
        }
        let digit = (ch as u32 - '0' as u32) as usize;
        let m = v.checked_mul(10);
        if m.is_none() {
            proof {
                assert(all_digits(d.subrange(0, i + 1 - a)));
                assert(decimal_value(d.subrange(0, i + 1 - a)) > usize::MAX);
                if all_digits(d) {
                    lemma_decimal_monotone(d, i + 1 - a, d.len() as int);
                    assert(d.subrange(0, d.len() as int) =~= d);
                }
            }
            return None;
        }
        let w = m.unwrap().checked_add(digit);
        if w.is_none() {
            proof {
                assert(all_digits(d.subrange(0, i + 1 - a)));
                assert(decimal_value(d.subrange(0, i + 1 - a)) > usize::MAX);
                if all_digits(d) {
                    lemma_decimal_monotone(d, i + 1 - a, d.len() as int);
                    assert(d.subrange(0, d.len() as int) =~= d);
                }
            }
            return None;
        }
        v = w.unwrap();
        i = i + 1;
        assert(all_digits(d.subrange(0, i - a)));
    }
    assert(d.subrange(0, hi - a) =~= d);
    Some(v)
}


/// The first word of `s` that white space delimits, if there is one.
pub fn first_word_of(s: &str) -> (r: Option<String>)
    ensures
        crate::notice::opt_view(r) == first_word(s@),
{
    let c = chars_of(s);
    let n = c.len();
    let mut a: usize = 0;
    assert(c@.subrange(0, n as int) =~= s@);
    while a < n && char_is_white(c[a])
        invariant
            a <= n == c@.len(),
            c@ == s@,
            trim_start(s@) == trim_start(c@.subrange(a as int, n as int)),
        decreases n - a,
    {
        assert(c@.subrange(a as int, n as int).drop_first() =~= c@.subrange(a + 1, n as int));
        a = a + 1;
    }
    assert(trim_start(c@.subrange(a as int, n as int)) == c@.subrange(a as int, n as int));
    if a == n {
        return None;
    }
    let ghost t = c@.subrange(a as int, n as int);
    let mut b: usize = a;
    while b < n && !char_is_white(c[b])
        invariant
            a <= b <= n == c@.len(),
            t == c@.subrange(a as int, n as int),
            leading_word(t) == c@.subrange(a as int, b as int) + leading_word(
                c@.subrange(b as int, n as int),
            ),
        decreases n - b,
    {
        let ghost u = c@.subrange(b as int, n as int);
        assert(u.drop_first() =~= c@.subrange(b + 1, n as int));
        assert(c@.subrange(a as int, b + 1) =~= c@.subrange(a as int, b as int) + seq![u[0]]);
        b = b + 1;
    }
    assert(leading_word(c@.subrange(b as int, n as int)) =~= Seq::<char>::empty());
    assert(leading_word(t) =~= c@.subrange(a as int, b as int));
    Some(String::from_str(s.substring_char(a, b)))
}

} // verus!

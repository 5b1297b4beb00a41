//! Character-level helpers over strings, stated over `Seq<char>`.
use vstd::prelude::*;

verus! {

/// The ASCII digit for `d`, for `d` below ten.
pub open spec fn digit_char(d: nat) -> char {
    if d == 0 { '0' }
    else if d == 1 { '1' }
    else if d == 2 { '2' }
    else if d == 3 { '3' }
    else if d == 4 { '4' }
    else if d == 5 { '5' }
    else if d == 6 { '6' }
    else if d == 7 { '7' }
    else if d == 8 { '8' }
    else { '9' }
}

/// Decimal text of a natural number, most significant digit first.
pub open spec fn nat_text(n: nat) -> Seq<char>
    decreases n,
{
    if n < 10 {
        seq![digit_char(n)]
    } else {
        nat_text(n / 10).push(digit_char(n % 10))
    }
}

/// Decimal text of an integer, with a leading `-` when it is negative.
pub open spec fn int_text(n: int) -> Seq<char> {
    if n < 0 {
        seq!['-'] + nat_text((-n) as nat)
    } else {
        nat_text(n as nat)
    }
}

fn digit_str(d: u128) -> (r: &'static str)
    requires
        d < 10,
    ensures
        r@ == seq![digit_char(d as nat)],
{
    proof {
        reveal_strlit("0");
        reveal_strlit("1");
        reveal_strlit("2");
        reveal_strlit("3");
        reveal_strlit("4");
        reveal_strlit("5");
        reveal_strlit("6");
        reveal_strlit("7");
        reveal_strlit("8");
        reveal_strlit("9");
    }
    if d == 0 { "0" }
    else if d == 1 { "1" }
    else if d == 2 { "2" }
    else if d == 3 { "3" }
    else if d == 4 { "4" }
    else if d == 5 { "5" }
    else if d == 6 { "6" }
    else if d == 7 { "7" }
    else if d == 8 { "8" }
    else { "9" }
}

/// Renders `n` in decimal.
pub fn nat_to_text(n: u128) -> (r: String)
    ensures
        r@ == nat_text(n as nat),
    decreases n,
{
    if n < 10 {
        String::from_str(digit_str(n))
    } else {
        let mut s = nat_to_text(n / 10);
        s.append(digit_str(n % 10));
        s
    }
}

/// Renders `n` in decimal, with a leading `-` when it is negative.
pub fn int_to_text(n: i128) -> (r: String)
    ensures
        r@ == int_text(n as int),
{
    if n < 0 {
        let magnitude: u128 = if n == i128::MIN {
            170141183460469231731687303715884105728u128
        } else {
            (-n) as u128
        };
        let digits = nat_to_text(magnitude);
        proof {
            reveal_strlit("-");
        }
        let mut s = String::from_str("-");
        s.append(digits.as_str());
        s
    } else {
        nat_to_text(n as u128)
    }
}

/// Whether `p` is a prefix of `s`.
pub fn has_prefix(s: &str, p: &str) -> (r: bool)
    ensures
        r == p@.is_prefix_of(s@),
{
    let n = s.unicode_len();
    let m = p.unicode_len();
    if m > n {
        return false;
    }
    let mut i: usize = 0;
    while i < m
        invariant
            m == p@.len(),
            n == s@.len(),
            m <= n,
            i <= m,
            forall|j: int| 0 <= j < i ==> s@[j] == p@[j],
        decreases m - i,
    {
        if s.get_char(i) != p.get_char(i) {
            return false;
        }
        i = i + 1;
    }
    true
}

/// Whether the character `c` occurs in `s`.
pub fn has_char(s: &str, c: char) -> (r: bool)
    ensures
        r == s@.contains(c),
{
    let n = s.unicode_len();
    let mut i: usize = 0;
    while i < n
        invariant
            n == s@.len(),
            i <= n,
            forall|j: int| 0 <= j < i ==> s@[j] != c,
        decreases n - i,
    {
        if s.get_char(i) == c {
            return true;
        }
        i = i + 1;
    }
    false
}

/// `s` with every trailing `c` removed.
pub open spec fn trim_end(s: Seq<char>, c: char) -> Seq<char>
    decreases s.len(),
{
    if s.len() > 0 && s.last() == c {
        trim_end(s.drop_last(), c)
    } else {
        s
    }
}

/// Removes every trailing `c` from `s`.
pub fn trim_end_char(s: &str, c: char) -> (r: String)
    ensures
        r@ == trim_end(s@, c),
{
    let mut k = s.unicode_len();
    proof {
        assert(s@.subrange(0, k as int) =~= s@);
    }
    while k > 0 && s.get_char(k - 1) == c
        invariant
            k <= s@.len(),
            trim_end(s@.subrange(0, k as int), c) == trim_end(s@, c),
        decreases k,
    {
        proof {
            assert(s@.subrange(0, k as int).drop_last() =~= s@.subrange(0, k - 1));
        }
        k = k - 1;
    }
    String::from_str(s.substring_char(0, k))
}

/// `s` with each `q` doubled, as a quoted SQL literal or identifier needs it.
pub open spec fn sql_escaped(s: Seq<char>, q: char) -> Seq<char>
    decreases s.len(),
{
    if s.len() == 0 {
        s
    } else if s.last() == q {
        sql_escaped(s.drop_last(), q) + seq![q, q]
    } else {
        sql_escaped(s.drop_last(), q).push(s.last())
    }
}

/// `s` between two `q`, each `q` inside doubled: `'` quotes a string
/// literal, `"` an identifier.
pub open spec fn sql_quoted(s: Seq<char>, q: char) -> Seq<char> {
    seq![q] + sql_escaped(s, q) + seq![q]
}

fn quote_str(q: char) -> (r: &'static str)
    requires
        q == '\'' || q == '"',
    ensures
        r@ == seq![q],
{
    proof {
        reveal_strlit("'");
        reveal_strlit("\"");
    }
    if q == '\'' { "'" } else { "\"" }
}

/// Appends `s` to `out` with each `q` doubled.
pub fn push_sql_escaped(out: &mut String, s: &str, q: char)
    requires
        q == '\'' || q == '"',
    ensures
        final(out)@ == old(out)@ + sql_escaped(s@, q),
{
    let n = s.unicode_len();
    let mut i: usize = 0;
    proof {
        assert(s@.subrange(0, 0) =~= Seq::<char>::empty());
    }
    while i < n
        invariant
            n == s@.len(),
            i <= n,
            q == '\'' || q == '"',
            out@ == old(out)@ + sql_escaped(s@.subrange(0, i as int), q),
        decreases n - i,
    {
        let one = s.substring_char(i, i + 1);
        let ghost pre = s@.subrange(0, i + 1);
        proof {
            assert(pre.drop_last() =~= s@.subrange(0, i as int));
            assert(pre.last() == s@[i as int]);
            assert(one@ =~= seq![s@[i as int]]);
        }
        out.append(one);
        if s.get_char(i) == q {
            out.append(quote_str(q));
            proof {
                assert(sql_escaped(pre, q) == sql_escaped(s@.subrange(0, i as int), q) + seq![q, q]);
                assert(out@ =~= old(out)@ + sql_escaped(pre, q));
            }
        } else {
            proof {
                assert(out@ =~= old(out)@ + sql_escaped(pre, q));
            }
        }
        i = i + 1;
    }
    proof {
        assert(s@.subrange(0, n as int) =~= s@);
    }
}

/// `s` as a literal LIKE pattern: `%`, `_` and `\` each behind a `\`, the
/// escape character that the pattern's `ESCAPE` clause names.
pub open spec fn like_escaped(s: Seq<char>) -> Seq<char>
    decreases s.len(),
{
    if s.len() == 0 {
        s
    } else if s.last() == '%' || s.last() == '_' || s.last() == '\\' {
        like_escaped(s.drop_last()) + seq!['\\', s.last()]
    } else {
        like_escaped(s.drop_last()).push(s.last())
    }
}

/// `s` escaped as a literal LIKE pattern.
pub fn like_literal(s: &str) -> (r: String)
    ensures
        r@ == like_escaped(s@),
{
    let n = s.unicode_len();
    let mut out = String::new();
    let mut i: usize = 0;
    proof {
        assert(s@.subrange(0, 0) =~= Seq::<char>::empty());
        reveal_strlit("\\");
    }
    while i < n
        invariant
            n == s@.len(),
            i <= n,
            out@ == like_escaped(s@.subrange(0, i as int)),
            "\\"@ == seq!['\\'],
        decreases n - i,
    {
        let one = s.substring_char(i, i + 1);
        let c = s.get_char(i);
        let ghost pre = s@.subrange(0, i + 1);
        proof {
            assert(pre.drop_last() =~= s@.subrange(0, i as int));
            assert(pre.last() == s@[i as int]);
            assert(one@ =~= seq![s@[i as int]]);
        }
        if c == '%' || c == '_' || c == '\\' {
            out.append("\\");
        }
        out.append(one);
        proof {
            assert(out@ =~= like_escaped(pre));
        }
        i = i + 1;
    }
    proof {
        assert(s@.subrange(0, n as int) =~= s@);
    }
    out
}

/// Appends `s` quoted with `q` to `out`.
pub fn push_sql_quoted(out: &mut String, s: &str, q: char)
    requires
        q == '\'' || q == '"',
    ensures
        final(out)@ == old(out)@ + sql_quoted(s@, q),
{
    out.append(quote_str(q));
    push_sql_escaped(out, s, q);
    out.append(quote_str(q));
    proof {
        assert(out@ =~= old(out)@ + sql_quoted(s@, q));
    }
}

/// The parts joined with `sep` between each two.
pub open spec fn joined(parts: Seq<Seq<char>>, sep: Seq<char>) -> Seq<char>
    decreases parts.len(),
{
    if parts.len() == 0 {
        Seq::empty()
    } else if parts.len() == 1 {
        parts[0]
    } else {
        joined(parts.drop_last(), sep) + sep + parts.last()
    }
}

/// The views of a list of strings.
pub open spec fn texts_view(v: Seq<String>) -> Seq<Seq<char>> {
    v.map_values(|s: String| s@)
}

/// Joins the parts with `sep` between each two.
pub fn join_texts(parts: &Vec<String>, sep: &str) -> (r: String)
    ensures
        r@ == joined(texts_view(parts@), sep@),
{
    let n = parts.len();
    let mut out = String::new();
    let mut i: usize = 0;
    let ghost all = texts_view(parts@);
    proof {
        assert(all.subrange(0, 0) =~= Seq::<Seq<char>>::empty());
    }
    while i < n
        invariant
            n == parts@.len(),
            all == texts_view(parts@),
            i <= n,
            out@ == joined(all.subrange(0, i as int), sep@),
        decreases n - i,
    {
        let ghost pre = all.subrange(0, i + 1);
        proof {
            assert(pre.drop_last() =~= all.subrange(0, i as int));
            assert(pre.last() == parts@[i as int]@);
        }
        if i > 0 {
            out.append(sep);
        } else {
            proof {
                assert(pre.len() == 1);
            }
        }
        out.append(parts[i].as_str());
        proof {
            if i > 0 {
                assert(out@ =~= joined(pre, sep@));
            } else {
                assert(out@ =~= joined(pre, sep@));
            }
        }
        i = i + 1;
    }
    proof {
        assert(all.subrange(0, n as int) =~= all);
    }
    out
}

/// Whether `a` and `b` hold the same characters.
pub fn text_eq(a: &str, b: &str) -> (r: bool)
    ensures
        r == (a@ == b@),
{
    let n = a.unicode_len();
    if n != b.unicode_len() {
        return false;
    }
    let mut i: usize = 0;
    while i < n
        invariant
            n == a@.len(),
            n == b@.len(),
            i <= n,
            forall|j: int| 0 <= j < i ==> a@[j] == b@[j],
        decreases n - i,
    {
        if a.get_char(i) != b.get_char(i) {
            return false;
        }
        i = i + 1;
    }
    proof {
        assert(a@ =~= b@);
    }
    true
}

/// `s` with each occurrence of `from` replaced by `to`, taken left to right
/// without overlap.
pub open spec fn replaced(s: Seq<char>, from: Seq<char>, to: Seq<char>) -> Seq<char>
    decreases s.len(),
{
    if from.len() == 0 || s.len() < from.len() {
        s
    } else if s.subrange(0, from.len() as int) == from {
        to + replaced(s.subrange(from.len() as int, s.len() as int), from, to)
    } else {
        seq![s[0]] + replaced(s.subrange(1, s.len() as int), from, to)
    }
}

/// Replaces each occurrence of the non-empty `from` in `s` by `to`, taken
/// left to right without overlap.
pub fn replace_all(s: &str, from: &str, to: &str) -> (r: String)
    requires
        from@.len() > 0,
    ensures
        r@ == replaced(s@, from@, to@),
{
    let n = s.unicode_len();
    let m = from.unicode_len();
    let mut out = String::new();
    let mut i: usize = 0;
    proof {
        assert(s@.subrange(0, n as int) =~= s@);
    }
    while i < n
        invariant
            n == s@.len(),
            m == from@.len(),
            m > 0,
            i <= n,
            out@ + replaced(s@.subrange(i as int, n as int), from@, to@) == replaced(s@, from@, to@),
        decreases n - i,
    {
        let ghost t = s@.subrange(i as int, n as int);
        let ghost before = out@;
        if n - i >= m && text_eq(s.substring_char(i, i + m), from) {
            proof {
                assert(t.subrange(0, m as int) =~= s@.subrange(i as int, i + m));
                assert(t.subrange(m as int, t.len() as int) =~= s@.subrange(i + m, n as int));
            }
            out.append(to);
            proof {
                assert(out@ + replaced(s@.subrange(i + m, n as int), from@, to@) =~= before + replaced(t, from@, to@));
            }
            i = i + m;
        } else {
            let one = s.substring_char(i, i + 1);
            let ghost rest = s@.subrange(i + 1, n as int);
            proof {
                assert(one@ =~= seq![t[0]]);
                assert(t.subrange(1, t.len() as int) =~= rest);
                if t.len() >= m {
                    assert(t.subrange(0, m as int) =~= s@.subrange(i as int, i + m));
                } else {
                    assert(replaced(rest, from@, to@) == rest);
                    assert(t =~= seq![t[0]] + rest);
                }
            }
            out.append(one);
            proof {
                assert(out@ + replaced(rest, from@, to@) =~= before + replaced(t, from@, to@));
            }
            i = i + 1;
        }
    }
    proof {
        assert(replaced(s@.subrange(n as int, n as int), from@, to@) == s@.subrange(n as int, n as int));
        assert(out@ =~= out@ + s@.subrange(n as int, n as int));
    }
    out
}

} // verus!

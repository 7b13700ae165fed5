//! Small verified helpers shared by the editor core: character classes,
//! string/character-vector conversions, decimal formatting, and line
//! splitting/joining.

use vstd::prelude::*;

verus! {

/// ASCII whitespace, the only whitespace the editor's indentation and word
/// motions recognise.
pub open spec fn spec_is_ws(c: char) -> bool {
    c == ' ' || c == '\t'
}

/// Executable twin of [`spec_is_ws`].
pub fn is_ws(c: char) -> (r: bool)
    ensures
        r == spec_is_ws(c),
{
    c == ' ' || c == '\t'
}

/// ASCII letters and digits, the editor's notion of a word character.
pub open spec fn spec_is_alnum(c: char) -> bool {
    ('a' <= c && c <= 'z') || ('A' <= c && c <= 'Z') || ('0' <= c && c <= '9')
}

/// Executable twin of [`spec_is_alnum`].
pub fn is_alnum(c: char) -> (r: bool)
    ensures
        r == spec_is_alnum(c),
{
    ('a' <= c && c <= 'z') || ('A' <= c && c <= 'Z') || ('0' <= c && c <= '9')
}

/// Relies on `String::push`: appends exactly the one character to the string.
#[verifier::external_body]
pub fn push_char(s: &mut String, c: char)
    ensures
        final(s)@ == old(s)@.push(c),
{
    s.push(c);
}

/// Builds a `String` holding exactly the given characters.
pub fn chars_to_string(v: &Vec<char>) -> (s: String)
    ensures
        s@ == v@,
{
    let mut s = String::new();
    let mut i: usize = 0;
    while i < v.len()
        invariant
            i <= v.len(),
            s@ == v@.take(i as int),
        decreases v.len() - i,
    {
        push_char(&mut s, v[i]);
        i = i + 1;
        assert(s@ =~= v@.take(i as int));
    }
    assert(v@.take(v.len() as int) =~= v@);
    s
}

/// Collects the characters of a string slice into a vector.
pub fn str_chars(s: &str) -> (v: Vec<char>)
    ensures
        v@ == s@,
{
    let n = s.unicode_len();
    let mut v: Vec<char> = Vec::new();
    let mut i: usize = 0;
    while i < n
        invariant
            i <= n,
            n == s@.len(),
            v@ == s@.take(i as int),
        decreases n - i,
    {
        v.push(s.get_char(i));
        i = i + 1;
        assert(v@ =~= s@.take(i as int));
    }
    assert(s@.take(n as int) =~= s@);
    v
}

/// Character-wise equality of two string slices.
pub fn str_eq_str(a: &str, b: &str) -> (r: bool)
    ensures
        r == (a@ == b@),
{
    let na = a.unicode_len();
    let nb = b.unicode_len();
    if na != nb {
        return false;
    }
    let mut i: usize = 0;
    while i < na
        invariant
            i <= na,
            na == a@.len(),
            na == b@.len(),
            forall|j: int| 0 <= j < i ==> a@[j] == b@[j],
        decreases na - i,
    {
        if a.get_char(i) != b.get_char(i) {
            return false;
        }
        i = i + 1;
    }
    proof {
        assert(a@ =~= b@);
    }
    true
}

/// The characters of `v` with `w` spliced in at position `at`.
pub fn splice_in(v: &Vec<char>, at: usize, w: &Vec<char>) -> (r: Vec<char>)
    requires
        at <= v@.len(),
    ensures
        r@ == v@.take(at as int) + w@ + v@.skip(at as int),
{
    let mut r: Vec<char> = Vec::new();
    let mut i: usize = 0;
    while i < at
        invariant
            i <= at <= v@.len(),
            r@ == v@.take(i as int),
        decreases at - i,
    {
        r.push(v[i]);
        i = i + 1;
        assert(r@ =~= v@.take(i as int));
    }
    let mut j: usize = 0;
    while j < w.len()
        invariant
            j <= w@.len(),
            at <= v@.len(),
            r@ == v@.take(at as int) + w@.take(j as int),
        decreases w.len() - j,
    {
        r.push(w[j]);
        j = j + 1;
        assert(r@ =~= v@.take(at as int) + w@.take(j as int));
    }
    let mut k: usize = at;
    while k < v.len()
        invariant
            at <= k <= v@.len(),
            r@ == v@.take(at as int) + w@ + v@.skip(at as int).take(k - at),
        decreases v.len() - k,
    {
        proof {
            assert(w@.take(w@.len() as int) =~= w@);
        }
        r.push(v[k]);
        k = k + 1;
        assert(r@ =~= v@.take(at as int) + w@ + v@.skip(at as int).take(k - at));
    }
    proof {
        assert(w@.take(w@.len() as int) =~= w@);
        assert(v@.skip(at as int).take(v@.len() - at) =~= v@.skip(at as int));
    }
    r
}

/// The characters of `v` with the range `[from, to)` removed.
pub fn splice_out(v: &Vec<char>, from: usize, to: usize) -> (r: Vec<char>)
    requires
        from <= to <= v@.len(),
    ensures
        r@ == v@.take(from as int) + v@.skip(to as int),
{
    let mut r: Vec<char> = Vec::new();
    let mut i: usize = 0;
    while i < from
        invariant
            i <= from <= v@.len(),
            r@ == v@.take(i as int),
        decreases from - i,
    {
        r.push(v[i]);
        i = i + 1;
        assert(r@ =~= v@.take(i as int));
    }
    let mut k: usize = to;
    while k < v.len()
        invariant
            to <= k <= v@.len(),
            from <= to,
            r@ == v@.take(from as int) + v@.skip(to as int).take(k - to),
        decreases v.len() - k,
    {
        r.push(v[k]);
        k = k + 1;
        assert(r@ =~= v@.take(from as int) + v@.skip(to as int).take(k - to));
    }
    proof {
        assert(v@.skip(to as int).take(v@.len() - to) =~= v@.skip(to as int));
    }
    r
}

/// The characters of the range `[from, to)` of `v`.
pub fn sub_chars(v: &Vec<char>, from: usize, to: usize) -> (r: Vec<char>)
    requires
        from <= to <= v@.len(),
    ensures
        r@ == v@.subrange(from as int, to as int),
{
    let mut r: Vec<char> = Vec::new();
    let mut i: usize = from;
    while i < to
        invariant
            from <= i <= to <= v@.len(),
            r@ == v@.subrange(from as int, i as int),
        decreases to - i,
    {
        r.push(v[i]);
        i = i + 1;
        assert(r@ =~= v@.subrange(from as int, i as int));
    }
    r
}

/// The characters of `a` followed by those of `b`.
pub fn concat_chars(a: &Vec<char>, b: &Vec<char>) -> (r: Vec<char>)
    ensures
        r@ == a@ + b@,
{
    let mut r: Vec<char> = Vec::new();
    let mut i: usize = 0;
    while i < a.len()
        invariant
            i <= a@.len(),
            r@ == a@.take(i as int),
        decreases a.len() - i,
    {
        r.push(a[i]);
        i = i + 1;
        assert(r@ =~= a@.take(i as int));
    }
    let mut j: usize = 0;
    while j < b.len()
        invariant
            j <= b@.len(),
            r@ == a@.take(a@.len() as int) + b@.take(j as int),
        decreases b.len() - j,
    {
        r.push(b[j]);
        j = j + 1;
        assert(r@ =~= a@.take(a@.len() as int) + b@.take(j as int));
    }
    proof {
        assert(a@.take(a@.len() as int) =~= a@);
        assert(b@.take(b@.len() as int) =~= b@);
    }
    r
}

/// A vector of `n` copies of the character `c`.
pub fn repeat_char(c: char, n: usize) -> (r: Vec<char>)
    ensures
        r@.len() == n,
        forall|i: int| 0 <= i < n ==> r@[i] == c,
{
    let mut r: Vec<char> = Vec::new();
    let mut i: usize = 0;
    while i < n
        invariant
            i <= n,
            r@.len() == i,
            forall|j: int| 0 <= j < i ==> r@[j] == c,
        decreases n - i,
    {
        r.push(c);
        i = i + 1;
    }
    r
}

/// The decimal digit character for a value below ten.
pub open spec fn spec_digit_char(d: nat) -> char {
    if d == 0 {
        '0'
    } else if d == 1 {
        '1'
    } else if d == 2 {
        '2'
    } else if d == 3 {
        '3'
    } else if d == 4 {
        '4'
    } else if d == 5 {
        '5'
    } else if d == 6 {
        '6'
    } else if d == 7 {
        '7'
    } else if d == 8 {
        '8'
    } else {
        '9'
    }
}

/// The decimal digit string of a natural number, most significant digit first.
pub open spec fn spec_dec(n: nat) -> Seq<char>
    decreases n,
{
    if n < 10 {
        seq![spec_digit_char(n)]
    } else {
        spec_dec(n / 10).push(spec_digit_char(n % 10))
    }
}

fn digit_char(d: usize) -> (c: char)
    requires
        d < 10,
    ensures
        c == spec_digit_char(d as nat),
{
    if d == 0 {
        '0'
    } else if d == 1 {
        '1'
    } else if d == 2 {
        '2'
    } else if d == 3 {
        '3'
    } else if d == 4 {
        '4'
    } else if d == 5 {
        '5'
    } else if d == 6 {
        '6'
    } else if d == 7 {
        '7'
    } else if d == 8 {
        '8'
    } else {
        '9'
    }
}

/// Renders a number in decimal.
pub fn usize_to_string(n: usize) -> (s: String)
    ensures
        s@ == spec_dec(n as nat),
{
    let mut acc: Vec<char> = Vec::new();
    let mut m: usize = n;
    if m == 0 {
        acc.push('0');
    }
    while m > 0
        invariant
            m > 0 ==> spec_dec(n as nat) == spec_dec(m as nat) + acc@.reverse(),
            m == 0 ==> spec_dec(n as nat) == acc@.reverse(),
        decreases m,
    {
        let ghost old_acc = acc@;
        let ghost old_m = m as nat;
        let d = m % 10;
        acc.push(digit_char(d));
        m = m / 10;
        proof {
            assert(acc@.reverse() =~= seq![spec_digit_char(old_m % 10)] + old_acc.reverse());
            if old_m >= 10 {
                assert(spec_dec(old_m) =~= spec_dec(old_m / 10) + seq![
                    spec_digit_char(old_m % 10),
                ]);
                assert(spec_dec(m as nat) + acc@.reverse() =~= spec_dec(old_m) + old_acc.reverse());
            } else {
                assert(spec_dec(old_m) =~= seq![spec_digit_char(old_m)]);
                assert(acc@.reverse() =~= spec_dec(old_m) + old_acc.reverse());
            }
        }
    }
    let mut rev: Vec<char> = Vec::new();
    let mut i: usize = acc.len();
    while i > 0
        invariant
            i <= acc.len(),
            rev@ == acc@.skip(i as int).reverse(),
        decreases i,
    {
        i = i - 1;
        rev.push(acc[i]);
        proof {
            assert(rev@ =~= acc@.skip(i as int).reverse());
        }
    }
    proof {
        assert(acc@.skip(0) =~= acc@);
    }
    chars_to_string(&rev)
}

/// Pads a character vector on the left with spaces up to the given width.
pub fn pad_left(v: Vec<char>, width: usize) -> (r: Vec<char>)
    ensures
        r@.len() == if v@.len() >= width {
            v@.len()
        } else {
            width as nat
        },
        r@.skip(r@.len() - v@.len()) == v@,
        forall|i: int| 0 <= i < r@.len() - v@.len() ==> r@[i] == ' ',
{
    let mut r: Vec<char> = Vec::new();
    let needed: usize = if v.len() >= width {
        0
    } else {
        width - v.len()
    };
    let mut pad: usize = 0;
    while pad < needed
        invariant
            pad <= needed,
            r@.len() == pad,
            forall|i: int| 0 <= i < pad ==> r@[i] == ' ',
        decreases needed - pad,
    {
        r.push(' ');
        pad = pad + 1;
    }
    let mut i: usize = 0;
    while i < v.len()
        invariant
            i <= v.len(),
            r@.len() == pad + i,
            forall|j: int| 0 <= j < pad ==> r@[j] == ' ',
            r@.skip(pad as int) == v@.take(i as int),
        decreases v.len() - i,
    {
        r.push(v[i]);
        i = i + 1;
        assert(r@.skip(pad as int) =~= v@.take(i as int));
    }
    proof {
        assert(v@.take(v@.len() as int) =~= v@);
        assert(r@.skip(r@.len() - v@.len()) =~= v@);
    }
    r
}

/// The strings of a vector, viewed as character sequences.
pub open spec fn strs_view(v: Seq<String>) -> Seq<Seq<char>> {
    Seq::new(v.len(), |i: int| v[i]@)
}

/// Joins line texts with a single newline between consecutive lines.
pub open spec fn spec_join_lines(ls: Seq<Seq<char>>) -> Seq<char>
    decreases ls.len(),
{
    if ls.len() == 0 {
        Seq::empty()
    } else if ls.len() == 1 {
        ls[0]
    } else {
        ls[0] + seq!['\n'] + spec_join_lines(ls.drop_first())
    }
}

proof fn lemma_join_snoc(ls: Seq<Seq<char>>, x: Seq<char>)
    ensures
        spec_join_lines(ls.push(x)) == if ls.len() == 0 {
            x
        } else {
            spec_join_lines(ls) + seq!['\n'] + x
        },
    decreases ls.len(),
{
    if ls.len() == 0 {
        assert(ls.push(x)[0] =~= x);
        assert(spec_join_lines(ls.push(x)) == x);
    } else {
        lemma_join_snoc(ls.drop_first(), x);
        assert(ls.push(x).drop_first() =~= ls.drop_first().push(x));
        if ls.len() == 1 {
            assert(ls.drop_first().len() == 0);
            assert(spec_join_lines(ls.push(x)) =~= ls[0] + seq!['\n'] + x);
            assert(spec_join_lines(ls) == ls[0]);
        } else {
            assert(spec_join_lines(ls.push(x)) =~= ls[0] + seq!['\n'] + (spec_join_lines(
                ls.drop_first(),
            ) + seq!['\n'] + x));
            assert(spec_join_lines(ls) + seq!['\n'] + x =~= ls[0] + seq!['\n'] + (spec_join_lines(
                ls.drop_first(),
            ) + seq!['\n'] + x));
        }
    }
}

/// Joins the given strings with newlines.
pub fn join_with_newlines(lines: &Vec<String>) -> (s: String)
    ensures
        s@ == spec_join_lines(strs_view(lines@)),
{
    let mut s = String::new();
    let mut i: usize = 0;
    while i < lines.len()
        invariant
            i <= lines.len(),
            s@ == spec_join_lines(strs_view(lines@).take(i as int)),
        decreases lines.len() - i,
    {
        if i > 0 {
            push_char(&mut s, '\n');
        }
        s.append(lines[i].as_str());
        i = i + 1;
        proof {
            let full = strs_view(lines@);
            assert(full.take(i as int).drop_last() =~= full.take(i - 1));
            assert(full.take(i as int) =~= full.take(i - 1).push(full[i - 1]));
            lemma_join_snoc(full.take(i - 1), full[i - 1]);
        }
    }
    proof {
        assert(strs_view(lines@).take(lines@.len() as int) =~= strs_view(lines@));
    }
    s
}

/// The index of the first newline in a text, or its length if there is none.
pub open spec fn spec_first_nl(s: Seq<char>) -> nat
    decreases s.len(),
{
    if s.len() == 0 {
        0
    } else if s[0] == '\n' {
        0
    } else {
        1 + spec_first_nl(s.drop_first())
    }
}

proof fn lemma_first_nl_bound(s: Seq<char>)
    ensures
        spec_first_nl(s) <= s.len(),
        forall|i: int| 0 <= i < spec_first_nl(s) ==> s[i] != '\n',
        spec_first_nl(s) < s.len() ==> s[spec_first_nl(s) as int] == '\n',
    decreases s.len(),
{
    if s.len() > 0 && s[0] != '\n' {
        lemma_first_nl_bound(s.drop_first());
        assert forall|i: int| 0 <= i < spec_first_nl(s) implies s[i] != '\n' by {
            if i > 0 {
                assert(s.drop_first()[i - 1] != '\n');
            }
        }
    }
}

/// Splits a text into lines: each `'\n'` ends a line, and a trailing newline
/// does not produce an extra empty line (the semantics of `str::lines` for
/// newline-separated text).
pub open spec fn spec_split_lines(s: Seq<char>) -> Seq<Seq<char>>
    decreases s.len(),
{
    if s.len() == 0 {
        Seq::empty()
    } else {
        let i = spec_first_nl(s) as int;
        if i >= s.len() {
            seq![s]
        } else {
            seq![s.take(i)] + spec_split_lines(s.skip(i + 1))
        }
    }
}

proof fn lemma_split_lines_step(pre: Seq<char>, rest: Seq<char>)
    requires
        forall|i: int| 0 <= i < pre.len() ==> pre[i] != '\n',
    ensures
        spec_split_lines(pre + seq!['\n'] + rest) == seq![pre] + spec_split_lines(rest),
        spec_split_lines(pre) == if pre.len() == 0 {
            Seq::<Seq<char>>::empty()
        } else {
            seq![pre]
        },
    decreases pre.len(),
{
    let s = pre + seq!['\n'] + rest;
    assert forall|j: int| 0 <= j < s.len() implies s[j] == if j < pre.len() {
        pre[j]
    } else if j == pre.len() {
        '\n'
    } else {
        rest[j - pre.len() - 1]
    } by {}
    lemma_first_nl_is(s, pre.len() as int);
    assert(s.take(pre.len() as int) =~= pre);
    assert(s.skip(pre.len() as int + 1) =~= rest);
    if pre.len() > 0 {
        lemma_first_nl_is_none(pre);
    }
}

proof fn lemma_first_nl_is(s: Seq<char>, i: int)
    requires
        0 <= i < s.len(),
        s[i] == '\n',
        forall|j: int| 0 <= j < i ==> s[j] != '\n',
    ensures
        spec_first_nl(s) == i,
    decreases s.len(),
{
    if i > 0 {
        lemma_first_nl_is(s.drop_first(), i - 1);
    }
}

proof fn lemma_first_nl_is_none(s: Seq<char>)
    requires
        forall|j: int| 0 <= j < s.len() ==> s[j] != '\n',
    ensures
        spec_first_nl(s) == s.len(),
    decreases s.len(),
{
    if s.len() > 0 {
        lemma_first_nl_is_none(s.drop_first());
    }
}

/// Whether the string holds a newline anywhere.
pub fn contains_newline(s: &str) -> (r: bool)
    ensures
        r == (exists|i: int| 0 <= i < s@.len() && s@[i] == '\n'),
{
    let n = s.unicode_len();
    let mut i: usize = 0;
    while i < n
        invariant
            i <= n,
            n == s@.len(),
            forall|j: int| 0 <= j < i ==> s@[j] != '\n',
        decreases n - i,
    {
        if s.get_char(i) == '\n' {
            return true;
        }
        i = i + 1;
    }
    false
}

/// Splits a text at every `'\n'`: the separators are dropped and the pieces
/// kept, so a trailing newline yields a trailing empty piece and the result
/// always holds at least one piece.
pub open spec fn spec_split_plain(s: Seq<char>) -> Seq<Seq<char>>
    decreases s.len(),
{
    let i = spec_first_nl(s) as int;
    if i >= s.len() {
        seq![s]
    } else {
        seq![s.take(i)] + spec_split_plain(s.skip(i + 1))
    }
}

proof fn lemma_split_plain_step(pre: Seq<char>, rest: Seq<char>)
    requires
        forall|i: int| 0 <= i < pre.len() ==> pre[i] != '\n',
    ensures
        spec_split_plain(pre + seq!['\n'] + rest) == seq![pre] + spec_split_plain(rest),
        spec_split_plain(pre) == seq![pre],
    decreases pre.len(),
{
    let s = pre + seq!['\n'] + rest;
    lemma_first_nl_is(s, pre.len() as int);
    assert(s.take(pre.len() as int) =~= pre);
    assert(s.skip(pre.len() as int + 1) =~= rest);
    lemma_first_nl_is_none(pre);
}

/// A split always yields at least one piece and at most one more piece than
/// the text has characters.
pub proof fn lemma_split_plain_len(s: Seq<char>)
    ensures
        1 <= spec_split_plain(s).len() <= s.len() + 1,
    decreases s.len(),
{
    lemma_first_nl_bound(s);
    let i = spec_first_nl(s) as int;
    if i < s.len() {
        lemma_split_plain_len(s.skip(i + 1));
    }
}

/// Splits a string at every newline, as [`spec_split_plain`] describes.
pub fn split_plain(s: &str) -> (out: Vec<String>)
    ensures
        strs_view(out@) == spec_split_plain(s@),
        out@.len() >= 1,
{
    let n = s.unicode_len();
    let mut out: Vec<String> = Vec::new();
    let mut cur: Vec<char> = Vec::new();
    let mut i: usize = 0;
    proof {
        assert(cur@ + s@.skip(0) =~= s@);
        assert(strs_view(out@) + spec_split_plain(s@) =~= spec_split_plain(s@));
    }
    while i < n
        invariant
            i <= n,
            n == s@.len(),
            forall|j: int| 0 <= j < cur@.len() ==> cur@[j] != '\n',
            strs_view(out@) + spec_split_plain(cur@ + s@.skip(i as int)) == spec_split_plain(s@),
        decreases n - i,
    {
        let c = s.get_char(i);
        let ghost old_cur = cur@;
        let ghost old_out = strs_view(out@);
        if c == '\n' {
            out.push(chars_to_string(&cur));
            cur = Vec::new();
            proof {
                lemma_split_plain_step(old_cur, s@.skip(i + 1));
                assert(old_cur + s@.skip(i as int) =~= old_cur + seq!['\n'] + s@.skip(i + 1));
                assert(strs_view(out@) =~= old_out.push(old_cur));
                assert(strs_view(out@) + spec_split_plain(s@.skip(i + 1)) =~= old_out + (seq![
                    old_cur,
                ] + spec_split_plain(s@.skip(i + 1))));
                assert(cur@ + s@.skip(i + 1) =~= s@.skip(i + 1));
            }
        } else {
            cur.push(c);
            proof {
                assert(cur@ + s@.skip(i + 1) =~= old_cur + s@.skip(i as int));
            }
        }
        i = i + 1;
    }
    proof {
        assert(cur@ + s@.skip(n as int) =~= cur@);
    }
    let ghost old_out = strs_view(out@);
    out.push(chars_to_string(&cur));
    proof {
        lemma_first_nl_is_none(cur@);
        assert(spec_split_plain(cur@) =~= seq![cur@]);
        assert(strs_view(out@) =~= old_out.push(cur@));
        assert(strs_view(out@) =~= old_out + seq![cur@]);
    }
    out
}

/// A newline-free text splits into just itself (or into nothing when
/// empty).
pub proof fn lemma_split_lines_nl_free(s: Seq<char>)
    requires
        forall|i: int| 0 <= i < s.len() ==> s[i] != '\n',
    ensures
        s.len() == 0 ==> spec_split_lines(s) == Seq::<Seq<char>>::empty(),
        s.len() > 0 ==> spec_split_lines(s) == seq![s],
{
    lemma_first_nl_is_none(s);
}

/// Splits a string into its lines, as [`spec_split_lines`] describes.
pub fn split_lines(s: &str) -> (out: Vec<String>)
    ensures
        strs_view(out@) == spec_split_lines(s@),
{
    let n = s.unicode_len();
    let mut out: Vec<String> = Vec::new();
    let mut cur: Vec<char> = Vec::new();
    let mut i: usize = 0;
    proof {
        assert(cur@ + s@.skip(0) =~= s@);
        assert(strs_view(out@) + spec_split_lines(s@) =~= spec_split_lines(s@));
    }
    while i < n
        invariant
            i <= n,
            n == s@.len(),
            forall|j: int| 0 <= j < cur@.len() ==> cur@[j] != '\n',
            strs_view(out@) + spec_split_lines(cur@ + s@.skip(i as int)) == spec_split_lines(s@),
        decreases n - i,
    {
        let c = s.get_char(i);
        let ghost old_cur = cur@;
        let ghost old_out = strs_view(out@);
        if c == '\n' {
            out.push(chars_to_string(&cur));
            cur = Vec::new();
            proof {
                lemma_split_lines_step(old_cur, s@.skip(i + 1));
                assert(old_cur + s@.skip(i as int) =~= old_cur + seq!['\n'] + s@.skip(i + 1));
                assert(strs_view(out@) =~= old_out.push(old_cur));
                assert(strs_view(out@) + spec_split_lines(s@.skip(i + 1)) =~= old_out + (seq![
                    old_cur,
                ] + spec_split_lines(s@.skip(i + 1))));
                assert(cur@ + s@.skip(i + 1) =~= s@.skip(i + 1));
            }
        } else {
            cur.push(c);
            proof {
                assert(cur@ + s@.skip(i + 1) =~= old_cur + s@.skip(i as int));
            }
        }
        i = i + 1;
    }
    proof {
        assert(cur@ + s@.skip(n as int) =~= cur@);
    }
    if cur.len() > 0 {
        let ghost old_out = strs_view(out@);
        out.push(chars_to_string(&cur));
        proof {
            lemma_first_nl_is_none(cur@);
            assert(spec_split_lines(cur@) =~= seq![cur@]);
            assert(strs_view(out@) =~= old_out.push(cur@));
            assert(strs_view(out@) =~= old_out + seq![cur@]);
        }
    } else {
        proof {
            assert(spec_split_lines(cur@) =~= Seq::<Seq<char>>::empty());
            assert(strs_view(out@) + Seq::<Seq<char>>::empty() =~= strs_view(out@));
        }
    }
    out
}

} // verus!

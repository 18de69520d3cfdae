//! Character-level text handling: whitespace, line splitting and word
//! splitting with the semantics of `str::lines` and `str::split_whitespace`.

use vstd::prelude::*;

verus! {

/// The Unicode `White_Space` property, which `char::is_whitespace` tests.
pub open spec fn is_ws(c: char) -> bool {
    let u = c as u32;
    ||| u == 0x20
    ||| (0x09 <= u && u <= 0x0d)
    ||| u == 0x85
    ||| u == 0xa0
    ||| u == 0x1680
    ||| (0x2000 <= u && u <= 0x200a)
    ||| u == 0x2028
    ||| u == 0x2029
    ||| u == 0x202f
    ||| u == 0x205f
    ||| u == 0x3000
}

/// Whether `c` is a whitespace character.
pub fn is_whitespace(c: char) -> (r: bool)
    ensures
        r == is_ws(c),
{
    let u = c as u32;
    u == 0x20 || (0x09 <= u && u <= 0x0d) || u == 0x85 || u == 0xa0 || u == 0x1680 || (0x2000
        <= u && u <= 0x200a) || u == 0x2028 || u == 0x2029 || u == 0x202f || u == 0x205f || u
        == 0x3000
}

/// Number of leading elements of `s` that differ from `x`.
pub open spec fn count_until<A>(s: Seq<A>, x: A) -> nat
    decreases s.len(),
{
    if s.len() == 0 {
        0
    } else if s[0] == x {
        0
    } else {
        1 + count_until(s.drop_first(), x)
    }
}

pub proof fn lemma_count_until<A>(s: Seq<A>, x: A)
    ensures
        count_until(s, x) <= s.len(),
        forall|j: int| 0 <= j < count_until(s, x) ==> s[j] != x,
        count_until(s, x) < s.len() ==> s[count_until(s, x) as int] == x,
    decreases s.len(),
{
    if s.len() > 0 && s[0] != x {
        lemma_count_until(s.drop_first(), x);
        assert forall|j: int| 0 <= j < count_until(s, x) implies s[j] != x by {
            if j > 0 {
                assert(s[j] == s.drop_first()[j - 1]);
            }
        }
    }
}

/// `count_until` is the position of the first `x`, or the length when none occurs.
pub proof fn lemma_count_until_is<A>(s: Seq<A>, x: A, n: int)
    requires
        0 <= n <= s.len(),
        forall|j: int| 0 <= j < n ==> s[j] != x,
        n < s.len() ==> s[n] == x,
    ensures
        count_until(s, x) == n,
    decreases s.len(),
{
    if s.len() > 0 && n > 0 {
        lemma_count_until_is(s.drop_first(), x, n - 1);
    }
}


/// The lines of `s` as `str::lines` yields them: `s` is cut at each `nl`, a
/// `cr` just before a cutting `nl` is dropped, and a final `nl` does not
/// start another line.
pub open spec fn split_lines<A>(s: Seq<A>, nl: A, cr: A) -> Seq<Seq<A>>
    decreases s.len(),
{
    if s.len() == 0 {
        Seq::empty()
    } else {
        let i = count_until(s, nl);
        if i >= s.len() {
            seq![s]
        } else {
            let raw = s.take(i as int);
            let line = if i > 0 && raw.last() == cr {
                raw.drop_last()
            } else {
                raw
            };
            seq![line] + split_lines(s.skip(i as int + 1), nl, cr)
        }
    }
}

/// The lines of a character sequence.
pub open spec fn text_lines(s: Seq<char>) -> Seq<Seq<char>> {
    split_lines(s, '\n', '\r')
}

/// Whether every span lies within a sequence of length `n`.
pub open spec fn spans_within(spans: Seq<(usize, usize)>, n: nat) -> bool {
    forall|i: int| #![trigger spans[i]] 0 <= i < spans.len() ==> spans[i].0 <= spans[i].1 <= n
}

/// The pieces of `s` that `spans` cut out.
pub open spec fn spans_of<A>(s: Seq<A>, spans: Seq<(usize, usize)>) -> Seq<Seq<A>> {
    spans.map_values(|p: (usize, usize)| s.subrange(p.0 as int, p.1 as int))
}

/// The spans of the lines of `cs`, in order.
pub fn line_spans(cs: &Vec<char>) -> (r: Vec<(usize, usize)>)
    ensures
        spans_within(r@, cs@.len()),
        spans_of(cs@, r@) == text_lines(cs@),
{
    let n = cs.len();
    let mut pos: usize = 0;
    let mut out: Vec<(usize, usize)> = Vec::new();
    proof {
        assert(cs@.skip(0) =~= cs@);
        assert(spans_of(cs@, out@) + text_lines(cs@) =~= text_lines(cs@));
    }
    while pos < n
        invariant
            pos <= n,
            n == cs@.len(),
            spans_within(out@, n as nat),
            spans_of(cs@, out@) + text_lines(cs@.skip(pos as int)) == text_lines(cs@),
        decreases n - pos,
    {
        let mut j: usize = pos;
        while j < n && cs[j] != '\n'
            invariant
                pos <= j <= n,
                n == cs@.len(),
                forall|k: int| pos <= k < j ==> cs@[k] != '\n',
            decreases n - j,
        {
            j = j + 1;
        }
        let ghost s = cs@.skip(pos as int);
        let ghost old_out = out@;
        proof {
            lemma_count_until_is(s, '\n', j - pos);
        }
        if j == n {
            out.push((pos, n));
            proof {
                assert(s =~= cs@.subrange(pos as int, n as int));
                assert(spans_of(cs@, out@) =~= spans_of(cs@, old_out).push(s));
                assert(cs@.skip(n as int) =~= Seq::<char>::empty());
                assert(text_lines(s) =~= seq![s]);
            }
            pos = n;
        } else {
            let end: usize = if j > pos && cs[j - 1] == '\r' {
                j - 1
            } else {
                j
            };
            out.push((pos, end));
            proof {
                let raw = s.take(j - pos);
                assert(raw =~= cs@.subrange(pos as int, j as int));
                let line = if j - pos > 0 && raw.last() == '\r' {
                    raw.drop_last()
                } else {
                    raw
                };
                assert(line =~= cs@.subrange(pos as int, end as int));
                assert(s.skip(j - pos + 1) =~= cs@.skip(j + 1));
                assert(text_lines(s) =~= seq![line] + text_lines(cs@.skip(j + 1)));
                assert(spans_of(cs@, out@) =~= spans_of(cs@, old_out).push(line));
                assert(spans_of(cs@, out@) + text_lines(cs@.skip(j + 1)) =~= spans_of(
                    cs@,
                    old_out,
                ) + text_lines(s));
            }
            pos = j + 1;
        }
    }
    proof {
        assert(cs@.skip(pos as int) =~= Seq::<char>::empty());
        assert(spans_of(cs@, out@) + text_lines(cs@.skip(pos as int)) =~= spans_of(cs@, out@));
    }
    out
}


/// Number of leading elements of `s` that are not whitespace.
pub open spec fn word_len(s: Seq<char>) -> nat
    decreases s.len(),
{
    if s.len() == 0 || is_ws(s[0]) {
        0
    } else {
        1 + word_len(s.drop_first())
    }
}

pub proof fn lemma_word_len(s: Seq<char>)
    ensures
        word_len(s) <= s.len(),
        forall|j: int| 0 <= j < word_len(s) ==> !is_ws(s[j]),
        word_len(s) < s.len() ==> is_ws(s[word_len(s) as int]),
    decreases s.len(),
{
    if s.len() > 0 && !is_ws(s[0]) {
        lemma_word_len(s.drop_first());
        assert forall|j: int| 0 <= j < word_len(s) implies !is_ws(s[j]) by {
            if j > 0 {
                assert(s[j] == s.drop_first()[j - 1]);
            }
        }
    }
}

pub proof fn lemma_word_len_is(s: Seq<char>, n: int)
    requires
        0 <= n <= s.len(),
        forall|j: int| 0 <= j < n ==> !is_ws(s[j]),
        n < s.len() ==> is_ws(s[n]),
    ensures
        word_len(s) == n,
    decreases s.len(),
{
    if s.len() > 0 && n > 0 {
        lemma_word_len_is(s.drop_first(), n - 1);
    }
}

/// The words of `s` as `str::split_whitespace` yields them: the maximal
/// runs of non-whitespace characters, in order.
pub open spec fn split_ws(s: Seq<char>) -> Seq<Seq<char>>
    decreases s.len(),
{
    if s.len() == 0 {
        Seq::empty()
    } else if is_ws(s[0]) {
        split_ws(s.drop_first())
    } else {
        let n = word_len(s);
        proof {
            lemma_word_len(s);
        }
        seq![s.take(n as int)] + split_ws(s.skip(n as int))
    }
}

/// The spans of the words of `cs[from..to]`, in order.
pub fn word_spans(cs: &Vec<char>, from: usize, to: usize) -> (r: Vec<(usize, usize)>)
    requires
        from <= to <= cs@.len(),
    ensures
        forall|i: int| #![trigger r@[i]] 0 <= i < r@.len() ==> from <= r@[i].0 <= r@[i].1 <= to,
        spans_of(cs@, r@) == split_ws(cs@.subrange(from as int, to as int)),
{
    let mut pos: usize = from;
    let mut out: Vec<(usize, usize)> = Vec::new();
    proof {
        assert(spans_of(cs@, out@) + split_ws(cs@.subrange(from as int, to as int)) =~= split_ws(
            cs@.subrange(from as int, to as int),
        ));
    }
    while pos < to
        invariant
            from <= pos <= to <= cs@.len(),
            forall|i: int| #![trigger out@[i]] 0 <= i < out@.len() ==> from <= out@[i].0 <= out@[i].1 <= to,
            spans_of(cs@, out@) + split_ws(cs@.subrange(pos as int, to as int)) == split_ws(
                cs@.subrange(from as int, to as int),
            ),
        decreases to - pos,
    {
        let ghost s = cs@.subrange(pos as int, to as int);
        if is_whitespace(cs[pos]) {
            proof {
                assert(s.drop_first() =~= cs@.subrange(pos + 1, to as int));
            }
            pos = pos + 1;
        } else {
            let mut j: usize = pos + 1;
            while j < to && !is_whitespace(cs[j])
                invariant
                    pos < j <= to <= cs@.len(),
                    forall|k: int| pos <= k < j ==> !is_ws(#[trigger] cs@[k]),
                decreases to - j,
            {
                j = j + 1;
            }
            let ghost old_out = out@;
            out.push((pos, j));
            proof {
                lemma_word_len_is(s, j - pos);
                assert(s.take(j - pos) =~= cs@.subrange(pos as int, j as int));
                assert(s.skip(j - pos) =~= cs@.subrange(j as int, to as int));
                assert(spans_of(cs@, out@) =~= spans_of(cs@, old_out).push(
                    cs@.subrange(pos as int, j as int),
                ));
                assert(spans_of(cs@, out@) + split_ws(cs@.subrange(j as int, to as int))
                    =~= spans_of(cs@, old_out) + split_ws(s));
            }
            pos = j;
        }
    }
    proof {
        assert(cs@.subrange(pos as int, to as int) =~= Seq::<char>::empty());
        assert(spans_of(cs@, out@) + split_ws(cs@.subrange(pos as int, to as int)) =~= spans_of(
            cs@,
            out@,
        ));
    }
    out
}

/// Whether `s` holds two spaces in a row.
pub open spec fn has_double_space(s: Seq<char>) -> bool {
    exists|i: int| 0 <= i && i + 1 < s.len() && s[i] == ' ' && #[trigger] s[i + 1] == ' '
}

/// Whether `cs[from..to]` holds two spaces in a row.
pub fn contains_double_space(cs: &Vec<char>, from: usize, to: usize) -> (r: bool)
    requires
        from <= to <= cs@.len(),
    ensures
        r == has_double_space(cs@.subrange(from as int, to as int)),
{
    let ghost s = cs@.subrange(from as int, to as int);
    let mut i: usize = from;
    while to - i > 1
        invariant
            from <= i <= to,
            to <= cs@.len(),
            s == cs@.subrange(from as int, to as int),
            forall|k: int| from <= k < i ==> !(cs@[k] == ' ' && #[trigger] cs@[k + 1] == ' '),
        decreases to - i,
    {
        if cs[i] == ' ' && cs[i + 1] == ' ' {
            assert(s[i - from] == ' ' && s[(i - from) + 1] == ' ');
            return true;
        }
        i = i + 1;
    }
    assert(!has_double_space(s)) by {
        if has_double_space(s) {
            let k = choose|k: int| 0 <= k && k + 1 < s.len() && s[k] == ' ' && #[trigger] s[k + 1] == ' ';
            assert(cs@[from + k] == ' ' && cs@[from + k + 1] == ' ');
        }
    }
    false
}


/// The characters of `s`, in order.
pub fn chars_of(s: &str) -> (r: Vec<char>)
    ensures
        r@ == s@,
{
    broadcast use vstd::string::group_string_axioms;

    let mut out: Vec<char> = Vec::new();
    for c in it: s.chars()
        invariant
            it.seq() == s@,
            out@ == s@.take(it.index() as int),
    {
        out.push(c);
    }
    out
}


/// `String::push`: appends one character.
#[verifier::external_body]
pub(crate) fn push_char(s: &mut String, c: char)
    ensures
        final(s)@ == old(s)@.push(c),
{
    s.push(c);
}

/// The string made of `cs[from..to]`.
pub fn string_of(cs: &Vec<char>, from: usize, to: usize) -> (r: String)
    requires
        from <= to <= cs@.len(),
    ensures
        r@ == cs@.subrange(from as int, to as int),
{
    let mut out = String::new();
    let mut i: usize = from;
    while i < to
        invariant
            from <= i <= to <= cs@.len(),
            out@ == cs@.subrange(from as int, i as int),
        decreases to - i,
    {
        push_char(&mut out, cs[i]);
        proof {
            assert(out@ =~= cs@.subrange(from as int, i + 1));
        }
        i = i + 1;
    }
    out
}

/// The decimal digit for `d < 10`.
pub open spec fn digit_char(d: nat) -> char {
    if d == 0 { '0' } else if d == 1 { '1' } else if d == 2 { '2' } else if d == 3 { '3' }
    else if d == 4 { '4' } else if d == 5 { '5' } else if d == 6 { '6' } else if d == 7 { '7' }
    else if d == 8 { '8' } else { '9' }
}

/// The decimal notation of `n`, without leading zeros.
pub open spec fn decimal(n: nat) -> Seq<char>
    decreases n,
{
    if n < 10 {
        seq![digit_char(n)]
    } else {
        decimal(n / 10).push(digit_char(n % 10))
    }
}

fn digit(d: usize) -> (c: char)
    requires
        d < 10,
    ensures
        c == digit_char(d as nat),
{
    if d == 0 { '0' } else if d == 1 { '1' } else if d == 2 { '2' } else if d == 3 { '3' }
    else if d == 4 { '4' } else if d == 5 { '5' } else if d == 6 { '6' } else if d == 7 { '7' }
    else if d == 8 { '8' } else { '9' }
}

/// Appends the decimal notation of `n` to `out`.
pub fn push_decimal(out: &mut String, n: usize)
    ensures
        final(out)@ == old(out)@ + decimal(n as nat),
    decreases n,
{
    if n < 10 {
        push_char(out, digit(n));
        proof {
            assert(decimal(n as nat) =~= seq![digit_char(n as nat)]);
        }
    } else {
        push_decimal(out, n / 10);
        push_char(out, digit(n % 10));
        proof {
            assert(old(out)@ + decimal(n as nat) =~= (old(out)@ + decimal((n / 10) as nat)).push(
                digit_char((n % 10) as nat),
            ));
        }
    }
}


/// The position of the first `c` in `cs[from..to]`, or `to` when there is none.
pub fn find_char(cs: &Vec<char>, from: usize, to: usize, c: char) -> (r: usize)
    requires
        from <= to <= cs@.len(),
    ensures
        from <= r <= to,
        count_until(cs@.subrange(from as int, to as int), c) == r - from,
{
    let mut j: usize = from;
    while j < to && cs[j] != c
        invariant
            from <= j <= to <= cs@.len(),
            forall|k: int| from <= k < j ==> cs@[k] != c,
        decreases to - j,
    {
        j = j + 1;
    }
    proof {
        lemma_count_until_is(cs@.subrange(from as int, to as int), c, j - from);
    }
    j
}

/// Whether `cs[from..to]` is the text of `lit`.
pub fn span_is(cs: &Vec<char>, from: usize, to: usize, lit: &str) -> (r: bool)
    requires
        from <= to <= cs@.len(),
    ensures
        r == (cs@.subrange(from as int, to as int) == lit@),
{
    let n = lit.unicode_len();
    if to - from != n {
        return false;
    }
    let mut i: usize = 0;
    while i < n
        invariant
            from <= to <= cs@.len(),
            to - from == n,
            n == lit@.len(),
            i <= n,
            forall|k: int| 0 <= k < i ==> cs@[from + k] == lit@[k],
        decreases n - i,
    {
        if cs[from + i] != lit.get_char(i) {
            assert(cs@.subrange(from as int, to as int)[i as int] != lit@[i as int]);
            return false;
        }
        i = i + 1;
    }
    assert(cs@.subrange(from as int, to as int) =~= lit@);
    true
}


/// The lines of a byte sequence, cut at `\n` with `\r\n` endings removed.
pub open spec fn byte_lines(b: Seq<u8>) -> Seq<Seq<u8>> {
    split_lines(b, 10u8, 13u8)
}

/// The spans of the lines of `bs`, in order.
pub fn byte_line_spans(bs: &Vec<u8>) -> (r: Vec<(usize, usize)>)
    ensures
        spans_within(r@, bs@.len()),
        spans_of(bs@, r@) == byte_lines(bs@),
{
    let n = bs.len();
    let mut pos: usize = 0;
    let mut out: Vec<(usize, usize)> = Vec::new();
    proof {
        assert(bs@.skip(0) =~= bs@);
        assert(spans_of(bs@, out@) + byte_lines(bs@) =~= byte_lines(bs@));
    }
    while pos < n
        invariant
            pos <= n,
            n == bs@.len(),
            spans_within(out@, n as nat),
            spans_of(bs@, out@) + byte_lines(bs@.skip(pos as int)) == byte_lines(bs@),
        decreases n - pos,
    {
        let mut j: usize = pos;
        while j < n && bs[j] != 10u8
            invariant
                pos <= j <= n,
                n == bs@.len(),
                forall|k: int| pos <= k < j ==> bs@[k] != 10u8,
            decreases n - j,
        {
            j = j + 1;
        }
        let ghost s = bs@.skip(pos as int);
        let ghost old_out = out@;
        proof {
            lemma_count_until_is(s, 10u8, j - pos);
        }
        if j == n {
            out.push((pos, n));
            proof {
                assert(s =~= bs@.subrange(pos as int, n as int));
                assert(spans_of(bs@, out@) =~= spans_of(bs@, old_out).push(s));
                assert(bs@.skip(n as int) =~= Seq::<u8>::empty());
                assert(byte_lines(s) =~= seq![s]);
            }
            pos = n;
        } else {
            let end: usize = if j > pos && bs[j - 1] == 13u8 {
                j - 1
            } else {
                j
            };
            out.push((pos, end));
            proof {
                let raw = s.take(j - pos);
                assert(raw =~= bs@.subrange(pos as int, j as int));
                let line = if j - pos > 0 && raw.last() == 13u8 {
                    raw.drop_last()
                } else {
                    raw
                };
                assert(line =~= bs@.subrange(pos as int, end as int));
                assert(s.skip(j - pos + 1) =~= bs@.skip(j + 1));
                assert(byte_lines(s) =~= seq![line] + byte_lines(bs@.skip(j + 1)));
                assert(spans_of(bs@, out@) =~= spans_of(bs@, old_out).push(line));
                assert(spans_of(bs@, out@) + byte_lines(bs@.skip(j + 1)) =~= spans_of(
                    bs@,
                    old_out,
                ) + byte_lines(s));
            }
            pos = j + 1;
        }
    }
    proof {
        assert(bs@.skip(pos as int) =~= Seq::<u8>::empty());
        assert(spans_of(bs@, out@) + byte_lines(bs@.skip(pos as int)) =~= spans_of(bs@, out@));
    }
    out
}


/// Lines joined by a separator, with none after the last.
pub open spec fn join_sep<A>(ls: Seq<Seq<A>>, sep: Seq<A>) -> Seq<A>
    decreases ls.len(),
{
    if ls.len() == 0 {
        Seq::empty()
    } else if ls.len() == 1 {
        ls[0]
    } else {
        join_sep(ls.drop_last(), sep) + sep + ls.last()
    }
}

/// A join of two or more lines is the first line, the separator, and the join of the rest.
pub proof fn lemma_join_sep_front<A>(ls: Seq<Seq<A>>, sep: Seq<A>)
    requires
        ls.len() >= 2,
    ensures
        join_sep(ls, sep) == ls[0] + sep + join_sep(ls.drop_first(), sep),
    decreases ls.len(),
{
    if ls.len() == 2 {
        assert(ls.drop_first().len() == 1 && ls.drop_first()[0] == ls[1]);
        assert(ls.drop_last().len() == 1 && ls.drop_last()[0] == ls[0]);
        assert(join_sep(ls.drop_last(), sep) == ls[0]);
        assert(join_sep(ls.drop_first(), sep) == ls[1]);
        assert(join_sep(ls, sep) =~= ls[0] + sep + join_sep(ls.drop_first(), sep));
    } else {
        let init = ls.drop_last();
        lemma_join_sep_front(init, sep);
        assert(init.drop_first() =~= ls.drop_first().drop_last());
        assert(ls.drop_first().last() == ls.last());
        assert(join_sep(ls, sep) =~= ls[0] + sep + join_sep(ls.drop_first(), sep));
    }
}

/// A line with no `nl`, a line ending, and the rest: the line comes first.
pub proof fn lemma_split_first<A>(a: Seq<A>, sep: Seq<A>, b: Seq<A>, nl: A, cr: A)
    requires
        nl != cr,
        forall|k: int| 0 <= k < a.len() ==> a[k] != nl,
        sep == seq![nl] && (a.len() == 0 || a.last() != cr) || sep == seq![cr, nl],
    ensures
        split_lines(a + sep + b, nl, cr) == seq![a] + split_lines(b, nl, cr),
{
    let s = a + sep + b;
    let i = sep.len() - 1 + a.len();
    assert(s[i] == nl);
    assert forall|j: int| 0 <= j < i implies s[j] != nl by {
        if j < a.len() {
            assert(s[j] == a[j]);
        } else {
            assert(s[j] == cr);
        }
    }
    lemma_count_until_is(s, nl, i);
    assert(s.skip(i + 1) =~= b);
    if sep.len() == 1 {
        assert(s.take(i) =~= a);
    } else {
        assert(s.take(i) =~= a.push(cr));
        assert(s.take(i).drop_last() =~= a);
    }
}

/// Splitting joined lines gives them back, when no line holds `nl`, the last
/// line is not empty, and, with `nl` alone as separator, no line but the last
/// ends with `cr`.
pub proof fn lemma_split_join_sep<A>(ls: Seq<Seq<A>>, sep: Seq<A>, nl: A, cr: A)
    requires
        nl != cr,
        sep == seq![nl] || sep == seq![cr, nl],
        ls.len() == 0 || ls.last().len() > 0,
        forall|i: int, k: int| 0 <= i < ls.len() && 0 <= k < ls[i].len() ==> (#[trigger] ls[i][k]) != nl,
        sep == seq![nl] ==> forall|i: int|
            0 <= i < ls.len() - 1 ==> (#[trigger] ls[i]).len() == 0 || ls[i].last() != cr,
    ensures
        split_lines(join_sep(ls, sep), nl, cr) == ls,
    decreases ls.len(),
{
    if ls.len() == 0 {
        assert(split_lines(Seq::<A>::empty(), nl, cr) =~= ls);
    } else if ls.len() == 1 {
        let l = ls[0];
        assert forall|k: int| 0 <= k < l.len() implies l[k] != nl by {
            assert(ls[0][k] != nl);
        }
        lemma_count_until_is(l, nl, l.len() as int);
        assert(split_lines(l, nl, cr) =~= ls);
    } else {
        let rest = ls.drop_first();
        assert forall|i: int, k: int| 0 <= i < rest.len() && 0 <= k < rest[i].len() implies (
        #[trigger] rest[i][k]) != nl by {
            assert(rest[i] == ls[i + 1]);
        }
        if sep == seq![nl] {
            assert forall|i: int| 0 <= i < rest.len() - 1 implies (#[trigger] rest[i]).len() == 0
                || rest[i].last() != cr by {
                assert(rest[i] == ls[i + 1]);
            }
        }
        assert(rest.last() == ls.last());
        lemma_split_join_sep(rest, sep, nl, cr);
        lemma_join_sep_front(ls, sep);
        assert forall|k: int| 0 <= k < ls[0].len() implies ls[0][k] != nl by {
            assert(ls[0][k] != nl);
        }
        if sep == seq![nl] {
            assert(ls[0].len() == 0 || ls[0].last() != cr);
        }
        lemma_split_first(ls[0], sep, join_sep(rest, sep), nl, cr);
        assert(split_lines(join_sep(ls, sep), nl, cr) =~= ls);
    }
}

} // verus!

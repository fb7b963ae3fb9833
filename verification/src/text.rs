//! Verified text utilities: the character-level operations that the profile
//! parser, the tool-output parsers and the renderers are built on.
use vstd::prelude::*;
use vstd::string::*;

verus! {

/// ASCII whitespace as the line-oriented parsers understand it.
pub open spec fn is_ws(c: char) -> bool {
    c == ' ' || c == '\t' || c == '\r' || c == '\n'
}

pub fn is_ws_char(c: char) -> (r: bool)
    ensures
        r == is_ws(c),
{
    c == ' ' || c == '\t' || c == '\r' || c == '\n'
}

/// ASCII lowercase folding of one character.
pub open spec fn lower_char(c: char) -> char {
    if 'A' <= c && c <= 'Z' {
        (c as u8 + 32) as char
    } else {
        c
    }
}

pub fn to_lower_char(c: char) -> (r: char)
    ensures
        r == lower_char(c),
{
    if 'A' <= c && c <= 'Z' {
        ((c as u8) + 32) as char
    } else {
        c
    }
}

/// ASCII lowercase folding of a character sequence.
pub open spec fn to_lower(s: Seq<char>) -> Seq<char> {
    Seq::new(s.len(), |i: int| lower_char(s[i]))
}

/// The characters of `a` equal those of `b`.
pub fn eq_str(a: &str, b: &str) -> (r: bool)
    ensures
        r == (a@ == b@),
{
    let an = a.unicode_len();
    let bn = b.unicode_len();
    if an != bn {
        return false;
    }
    for i in 0..an
        invariant
            an == a@.len(),
            an == b@.len(),
            forall|j: int| 0 <= j < i ==> a@[j] == b@[j],
    {
        if a.get_char(i) != b.get_char(i) {
            return false;
        }
    }
    proof {
        assert(a@ =~= b@);
    }
    true
}

/// `n` occurs at position `at` in `h`.
pub open spec fn match_at(h: Seq<char>, n: Seq<char>, at: int) -> bool {
    &&& 0 <= at
    &&& at + n.len() <= h.len()
    &&& h.subrange(at, at + n.len() as int) == n
}

pub fn matches_at(h: &str, n: &str, at: usize) -> (r: bool)
    requires
        at <= h@.len(),
    ensures
        r == match_at(h@, n@, at as int),
{
    let hn = h.unicode_len();
    let nn = n.unicode_len();
    if nn > hn - at {
        return false;
    }
    for j in 0..nn
        invariant
            at + nn <= hn,
            hn == h@.len(),
            nn == n@.len(),
            forall|k: int| 0 <= k < j ==> h@[at + k] == n@[k],
    {
        if h.get_char(at + j) != n.get_char(j) {
            proof {
                assert(h@.subrange(at as int, at + n@.len() as int) != n@) by {
                    assert(h@.subrange(at as int, at + n@.len() as int)[j as int] == h@[at + j]);
                }
            }
            return false;
        }
    }
    proof {
        assert(h@.subrange(at as int, at + n@.len() as int) =~= n@);
    }
    true
}

/// `n` starts `h`.
pub fn starts_with_str(h: &str, n: &str) -> (r: bool)
    ensures
        r == match_at(h@, n@, 0),
{
    matches_at(h, n, 0)
}

/// `n` starts the ASCII-lowercase folding of `h`.
pub fn starts_with_lower(h: &str, n: &str) -> (r: bool)
    ensures
        r == match_at(to_lower(h@), n@, 0),
{
    let hn = h.unicode_len();
    let nn = n.unicode_len();
    if nn > hn {
        return false;
    }
    for j in 0..nn
        invariant
            nn <= hn,
            hn == h@.len(),
            nn == n@.len(),
            forall|k: int| 0 <= k < j ==> lower_char(h@[k]) == n@[k],
    {
        if to_lower_char(h.get_char(j)) != n.get_char(j) {
            proof {
                assert(to_lower(h@).subrange(0, n@.len() as int) != n@) by {
                    assert(to_lower(h@).subrange(0, n@.len() as int)[j as int] == lower_char(
                        h@[j as int],
                    ));
                }
            }
            return false;
        }
    }
    proof {
        assert(to_lower(h@).subrange(0, n@.len() as int) =~= n@);
    }
    true
}

/// `h` contains `n` as a contiguous substring.
pub open spec fn contains_seq(h: Seq<char>, n: Seq<char>) -> bool {
    exists|i: int| match_at(h, n, i)
}

pub fn contains_str(h: &str, n: &str) -> (r: bool)
    ensures
        r == contains_seq(h@, n@),
{
    let hn = h.unicode_len();
    let nn = n.unicode_len();
    if nn > hn {
        return false;
    }
    if nn == 0 {
        proof {
            assert(h@.subrange(0, 0) =~= n@);
            assert(match_at(h@, n@, 0));
        }
        return true;
    }
    let mut i: usize = 0;
    while i <= hn - nn
        invariant
            1 <= nn <= hn,
            hn == h@.len(),
            nn == n@.len(),
            i <= hn - nn + 1,
            forall|k: int| 0 <= k < i ==> !match_at(h@, n@, k),
        decreases hn - nn - i + 1,
    {
        if matches_at(h, n, i) {
            return true;
        }
        i = i + 1;
    }
    false
}

/// The position of the first occurrence of `c` in `s` (the length of `s`
/// when there is none).
pub open spec fn first_idx(s: Seq<char>, c: char) -> nat
    decreases s.len(),
{
    if s.len() == 0 {
        0
    } else if s[0] == c {
        0
    } else {
        1 + first_idx(s.drop_first(), c)
    }
}

pub proof fn lemma_first_idx_is(s: Seq<char>, c: char, k: int)
    requires
        0 <= k <= s.len(),
        forall|j: int| 0 <= j < k ==> s[j] != c,
        k < s.len() ==> s[k] == c,
    ensures
        first_idx(s, c) == k,
    decreases k,
{
    if k > 0 {
        lemma_first_idx_is(s.drop_first(), c, k - 1);
    }
}

/// The position of the first non-whitespace character.
pub open spec fn first_non_ws(s: Seq<char>) -> nat
    decreases s.len(),
{
    if s.len() == 0 {
        0
    } else if !is_ws(s[0]) {
        0
    } else {
        1 + first_non_ws(s.drop_first())
    }
}

pub proof fn lemma_first_non_ws_is(s: Seq<char>, k: int)
    requires
        0 <= k <= s.len(),
        forall|j: int| 0 <= j < k ==> is_ws(s[j]),
        k < s.len() ==> !is_ws(s[k]),
    ensures
        first_non_ws(s) == k,
    decreases k,
{
    if k > 0 {
        lemma_first_non_ws_is(s.drop_first(), k - 1);
    }
}

/// The position of the first whitespace character.
pub open spec fn first_ws(s: Seq<char>) -> nat
    decreases s.len(),
{
    if s.len() == 0 {
        0
    } else if is_ws(s[0]) {
        0
    } else {
        1 + first_ws(s.drop_first())
    }
}

pub proof fn lemma_first_ws_is(s: Seq<char>, k: int)
    requires
        0 <= k <= s.len(),
        forall|j: int| 0 <= j < k ==> !is_ws(s[j]),
        k < s.len() ==> is_ws(s[k]),
    ensures
        first_ws(s) == k,
    decreases k,
{
    if k > 0 {
        lemma_first_ws_is(s.drop_first(), k - 1);
    }
}

pub fn find_char(s: &str, c: char) -> (r: Option<usize>)
    ensures
        match r {
            Some(i) => i == first_idx(s@, c) && i < s@.len(),
            None => first_idx(s@, c) == s@.len(),
        },
{
    let n = s.unicode_len();
    let mut i: usize = 0;
    while i < n
        invariant
            i <= n,
            n == s@.len(),
            forall|j: int| 0 <= j < i ==> s@[j] != c,
        decreases n - i,
    {
        if s.get_char(i) == c {
            proof {
                lemma_first_idx_is(s@, c, i as int);
            }
            return Some(i);
        }
        i = i + 1;
    }
    proof {
        lemma_first_idx_is(s@, c, n as int);
    }
    None
}

/// What remains of `s` once trailing whitespace is dropped.
pub open spec fn end_trim(s: Seq<char>) -> nat
    decreases s.len(),
{
    if s.len() == 0 {
        0
    } else if is_ws(s.last()) {
        end_trim(s.drop_last())
    } else {
        s.len()
    }
}

pub proof fn lemma_end_trim_is(s: Seq<char>, e: int)
    requires
        0 <= e <= s.len(),
        forall|j: int| e <= j < s.len() ==> is_ws(s[j]),
        e > 0 ==> !is_ws(s[e - 1]),
    ensures
        end_trim(s) == e,
    decreases s.len(),
{
    if e == s.len() {
        if s.len() > 0 {
            assert(!is_ws(s.last()));
        }
    } else {
        assert(is_ws(s.last()));
        lemma_end_trim_is(s.drop_last(), e);
    }
}

/// `s` with leading and trailing whitespace removed.
pub open spec fn trim_spec(s: Seq<char>) -> Seq<char> {
    let t = s.skip(first_non_ws(s) as int);
    t.take(end_trim(t) as int)
}

pub fn trim_str(s: &str) -> (r: &str)
    ensures
        r@ == trim_spec(s@),
{
    let n = s.unicode_len();
    let mut b: usize = 0;
    while b < n && is_ws_char(s.get_char(b))
        invariant
            b <= n,
            n == s@.len(),
            forall|k: int| 0 <= k < b ==> is_ws(s@[k]),
        decreases n - b,
    {
        b = b + 1;
    }
    proof {
        lemma_first_non_ws_is(s@, b as int);
    }
    let mut e: usize = n;
    while e > b && is_ws_char(s.get_char(e - 1))
        invariant
            b <= e <= n,
            n == s@.len(),
            forall|k: int| e <= k < n ==> is_ws(s@[k]),
        decreases e,
    {
        e = e - 1;
    }
    let r = s.substring_char(b, e);
    proof {
        let t = s@.skip(b as int);
        assert(forall|j: int| e - b <= j < t.len() ==> t[j] == s@[j + b] && is_ws(t[j]));
        if e > b {
            assert(!is_ws(t[e - b - 1]));
        }
        lemma_end_trim_is(t, e - b);
        assert(r@ =~= t.take(e - b));
    }
    r
}

/// The lines of `s`: maximal runs separated by newline characters.
pub open spec fn split_lines_spec(s: Seq<char>) -> Seq<Seq<char>>
    decreases s.len(),
{
    let k = first_idx(s, '\n');
    if k >= s.len() {
        seq![s]
    } else {
        seq![s.subrange(0, k as int)] + split_lines_spec(s.subrange(k as int + 1, s.len() as int))
    }
}

pub proof fn lemma_split_lines_step(s: Seq<char>, i: int)
    requires
        0 <= i < s.len(),
        forall|j: int| 0 <= j < i ==> s[j] != '\n',
        s[i] == '\n',
    ensures
        split_lines_spec(s) == seq![s.subrange(0, i)] + split_lines_spec(
            s.subrange(i + 1, s.len() as int),
        ),
{
    lemma_first_idx_is(s, '\n', i);
}

pub proof fn lemma_split_lines_last(s: Seq<char>)
    requires
        forall|j: int| 0 <= j < s.len() ==> s[j] != '\n',
    ensures
        split_lines_spec(s) == seq![s],
{
    lemma_first_idx_is(s, '\n', s.len() as int);
}

/// The view of each line produced by `split_lines`.
pub open spec fn views_of(v: Seq<String>) -> Seq<Seq<char>> {
    v.map_values(|l: String| l@)
}

pub fn split_lines(s: &str) -> (r: Vec<String>)
    ensures
        views_of(r@) == split_lines_spec(s@),
{
    let n = s.unicode_len();
    let mut out: Vec<String> = Vec::new();
    let mut start: usize = 0;
    let mut i: usize = 0;
    proof {
        assert(s@.skip(0) =~= s@);
        assert(views_of(out@) + split_lines_spec(s@) =~= split_lines_spec(s@));
    }
    while i < n
        invariant
            start <= i <= n,
            n == s@.len(),
            forall|j: int| start <= j < i ==> s@[j] != '\n',
            views_of(out@) + split_lines_spec(s@.skip(start as int)) == split_lines_spec(s@),
        decreases n - i,
    {
        if s.get_char(i) == '\n' {
            let line = s.substring_char(start, i).to_owned();
            proof {
                let t = s@.skip(start as int);
                assert(forall|j: int| 0 <= j < i - start ==> t[j] == s@[j + start] && t[j] != '\n');
                assert(t[i - start] == '\n');
                lemma_split_lines_step(t, i - start);
                assert(t.subrange(0, i - start) =~= s@.subrange(start as int, i as int));
                assert(t.subrange(i - start + 1, t.len() as int) =~= s@.skip(i + 1));
                assert(views_of(out@.push(line)) =~= views_of(out@) + seq![line@]);
                assert(views_of(out@) + seq![line@] + split_lines_spec(s@.skip(i + 1))
                    =~= views_of(out@) + (seq![line@] + split_lines_spec(s@.skip(i + 1))));
            }
            out.push(line);
            start = i + 1;
        }
        i = i + 1;
    }
    let last = s.substring_char(start, n).to_owned();
    proof {
        let t = s@.skip(start as int);
        assert(forall|j: int| 0 <= j < t.len() ==> t[j] == s@[j + start] && t[j] != '\n');
        lemma_split_lines_last(t);
        assert(last@ =~= t);
        assert(views_of(out@.push(last)) =~= views_of(out@) + seq![t]);
        assert(views_of(out@) + seq![t] =~= views_of(out@) + split_lines_spec(t));
    }
    out.push(last);
    out
}

/// The first whitespace-separated field of `s`.
pub open spec fn field_of(s: Seq<char>) -> Seq<char> {
    let t = s.skip(first_non_ws(s) as int);
    t.take(first_ws(t) as int)
}

/// What remains of `s` after its first whitespace-separated field.
pub open spec fn after_field(s: Seq<char>) -> Seq<char> {
    let t = s.skip(first_non_ws(s) as int);
    t.skip(first_ws(t) as int)
}

/// Splits off the first whitespace-separated field.
pub fn split_first_field(s: &str) -> (r: (&str, &str))
    ensures
        r.0@ == field_of(s@),
        r.1@ == after_field(s@),
{
    let n = s.unicode_len();
    let mut b: usize = 0;
    while b < n && is_ws_char(s.get_char(b))
        invariant
            b <= n,
            n == s@.len(),
            forall|k: int| 0 <= k < b ==> is_ws(s@[k]),
        decreases n - b,
    {
        b = b + 1;
    }
    let mut m: usize = b;
    while m < n && !is_ws_char(s.get_char(m))
        invariant
            b <= m <= n,
            n == s@.len(),
            forall|k: int| b <= k < m ==> !is_ws(s@[k]),
        decreases n - m,
    {
        m = m + 1;
    }
    proof {
        lemma_first_non_ws_is(s@, b as int);
        let t = s@.skip(b as int);
        assert(forall|k: int| 0 <= k < m - b ==> t[k] == s@[k + b] && !is_ws(t[k]));
        if m < n {
            assert(is_ws(t[m - b]));
        }
        lemma_first_ws_is(t, m - b);
        assert(s@.subrange(b as int, m as int) =~= t.take(m - b));
        assert(s@.subrange(m as int, n as int) =~= t.skip(m - b));
    }
    (s.substring_char(b, m), s.substring_char(m, n))
}

/// The decimal digit `d` as a character.
pub open spec fn digit_char(d: int) -> char {
    if d == 0 {
        '0'
    } else if d == 1 {
        '1'
    } else if d == 2 {
        '2'
    } else if d == 3 {
        '3'
    } else if d == 4 {
        '4'
    } else if d == 5 {
        '5'
    } else if d == 6 {
        '6'
    } else if d == 7 {
        '7'
    } else if d == 8 {
        '8'
    } else {
        '9'
    }
}

/// The decimal rendering of a non-negative integer, most significant digit
/// first and without leading zeros.
pub open spec fn dec_rep(n: int) -> Seq<char>
    decreases n,
{
    if n < 10 {
        seq![digit_char(n)]
    } else {
        dec_rep(n / 10) + seq![digit_char(n % 10)]
    }
}

fn digit_to_str(d: u64) -> (r: &'static str)
    requires
        d < 10,
    ensures
        r@ == seq![digit_char(d as int)],
{
    proof {
        reveal_strlit("0");
        reveal_strlit("1");
        reveal_strlit("2");
        reveal_strlit("3");
        reveal_strlit("4");
        reveal_strlit("5");
        reveal_strlit("6");
        reveal_strlit("7");
        reveal_strlit("8");
        reveal_strlit("9");
    }
    if d == 0 {
        "0"
    } else if d == 1 {
        "1"
    } else if d == 2 {
        "2"
    } else if d == 3 {
        "3"
    } else if d == 4 {
        "4"
    } else if d == 5 {
        "5"
    } else if d == 6 {
        "6"
    } else if d == 7 {
        "7"
    } else if d == 8 {
        "8"
    } else {
        "9"
    }
}

/// Renders `n` in decimal.
pub fn u64_to_string(n: u64) -> (r: String)
    ensures
        r@ == dec_rep(n as int),
    decreases n,
{
    if n < 10 {
        digit_to_str(n).to_owned()
    } else {
        let front = u64_to_string(n / 10);
        front.concat(digit_to_str(n % 10))
    }
}

/// Lexicographic order on character sequences.
pub open spec fn lex_le(a: Seq<char>, b: Seq<char>) -> bool
    decreases a.len(),
{
    if a.len() == 0 {
        true
    } else if b.len() == 0 {
        false
    } else if a[0] != b[0] {
        a[0] < b[0]
    } else {
        lex_le(a.drop_first(), b.drop_first())
    }
}

pub proof fn lemma_lex_total(a: Seq<char>, b: Seq<char>)
    ensures
        lex_le(a, b) || lex_le(b, a),
    decreases a.len(),
{
    if a.len() > 0 && b.len() > 0 && a[0] == b[0] {
        lemma_lex_total(a.drop_first(), b.drop_first());
    }
}

pub proof fn lemma_lex_trans(a: Seq<char>, b: Seq<char>, c: Seq<char>)
    requires
        lex_le(a, b),
        lex_le(b, c),
    ensures
        lex_le(a, c),
    decreases a.len(),
{
    if a.len() > 0 && b.len() > 0 && c.len() > 0 && a[0] == b[0] && b[0] == c[0] {
        lemma_lex_trans(a.drop_first(), b.drop_first(), c.drop_first());
    }
}

proof fn lemma_lex_common_prefix(a: Seq<char>, b: Seq<char>, i: int)
    requires
        0 <= i <= a.len(),
        i <= b.len(),
        forall|j: int| 0 <= j < i ==> a[j] == b[j],
    ensures
        lex_le(a, b) == lex_le(a.skip(i), b.skip(i)),
    decreases i,
{
    if i == 0 {
        assert(a.skip(0) =~= a);
        assert(b.skip(0) =~= b);
    } else {
        assert(a[0] == b[0]);
        lemma_lex_common_prefix(a.drop_first(), b.drop_first(), i - 1);
        assert(a.drop_first().skip(i - 1) =~= a.skip(i));
        assert(b.drop_first().skip(i - 1) =~= b.skip(i));
    }
}

/// Decides the lexicographic order on the characters of two strings.
pub fn str_lex_le(a: &str, b: &str) -> (r: bool)
    ensures
        r == lex_le(a@, b@),
{
    let an = a.unicode_len();
    let bn = b.unicode_len();
    let mut i: usize = 0;
    while i < an && i < bn
        invariant
            i <= an,
            i <= bn,
            an == a@.len(),
            bn == b@.len(),
            forall|j: int| 0 <= j < i ==> a@[j] == b@[j],
        decreases an - i,
    {
        let ca = a.get_char(i);
        let cb = b.get_char(i);
        if ca != cb {
            proof {
                lemma_lex_common_prefix(a@, b@, i as int);
                assert(a@.skip(i as int)[0] == ca);
                assert(b@.skip(i as int)[0] == cb);
            }
            return ca < cb;
        }
        i = i + 1;
    }
    proof {
        lemma_lex_common_prefix(a@, b@, i as int);
        if an <= bn {
            assert(a@.skip(i as int).len() == 0);
        } else {
            assert(a@.skip(i as int).len() > 0);
            assert(b@.skip(i as int).len() == 0);
        }
    }
    an <= bn
}

/// The sequences stand in non-decreasing lexicographic order.
pub open spec fn codes_sorted(v: Seq<Seq<char>>) -> bool {
    forall|i: int, j: int| 0 <= i < j < v.len() ==> lex_le(v[i], v[j])
}

/// Places `x` into an already sorted vector, keeping it sorted.
pub fn insert_sorted(v: &mut Vec<String>, x: String)
    requires
        codes_sorted(views_of(old(v)@)),
    ensures
        codes_sorted(views_of(final(v)@)),
        views_of(final(v)@).to_multiset() == views_of(old(v)@).to_multiset().insert(x@),
{
    broadcast use vstd::seq_lib::to_multiset_insert;

    let mut j: usize = 0;
    while j < v.len() && str_lex_le(&v[j], x.as_str())
        invariant
            j <= v@.len(),
            v@ == old(v)@,
            codes_sorted(views_of(v@)),
            forall|k: int| 0 <= k < j ==> lex_le(v@[k]@, x@),
        decreases v@.len() - j,
    {
        j = j + 1;
    }
    proof {
        let os = views_of(v@);
        assert(forall|k: int| 0 <= k < os.len() ==> os[k] == v@[k]@);
        if j < v.len() {
            lemma_lex_total(os[j as int], x@);
        }
        assert forall|k: int| j <= k < os.len() implies lex_le(x@, os[k]) by {
            if k == j {
            } else {
                assert(lex_le(os[j as int], os[k]));
                lemma_lex_trans(x@, os[j as int], os[k]);
            }
        }
        assert(forall|k: int| 0 <= k < j ==> lex_le(os[k], x@));
    }
    let ghost oldv = v@;
    v.insert(j, x);
    proof {
        assert(views_of(v@) =~= views_of(oldv).insert(j as int, x@));
        assert forall|p: int, q: int|
            0 <= p < q < views_of(v@).len() implies lex_le(views_of(v@)[p], views_of(v@)[q]) by {
            let vs = views_of(v@);
            let os = views_of(oldv);
            assert(forall|k: int| 0 <= k < vs.len() ==> vs[k] == (if k < j {
                os[k]
            } else if k == j {
                x@
            } else {
                os[k - 1]
            }));
            if p < j && q < j {
            } else if p < j && q == j {
            } else if p < j && q > j {
            } else if p == j && q > j {
            } else if p > j && q > j {
            }
        }
    }
}

} // verus!


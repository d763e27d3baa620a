//! Character-level text operations, modelled on sequences of `char`.
//!
//! Every executable function here works on `&[char]` or `&str` and states its
//! result over the `Seq<char>` views through the spec functions of this module.
use vstd::prelude::*;

verus! {

// ---------------------------------------------------------------------------
// Specifications
// ---------------------------------------------------------------------------

/// Unicode `White_Space`: the characters for which `char::is_whitespace` holds.
pub open spec fn is_ws(c: char) -> bool {
    ||| c == ' '
    ||| ('\u{9}' <= c && c <= '\u{d}')
    ||| c == '\u{85}'
    ||| c == '\u{a0}'
    ||| c == '\u{1680}'
    ||| ('\u{2000}' <= c && c <= '\u{200a}')
    ||| c == '\u{2028}'
    ||| c == '\u{2029}'
    ||| c == '\u{202f}'
    ||| c == '\u{205f}'
    ||| c == '\u{3000}'
}

/// What a trimming operation removes: white space, or one given character.
#[derive(Clone, Copy)]
pub enum Pat {
    Ws,
    Ch(char),
}

pub open spec fn pat_hits(p: Pat, c: char) -> bool {
    match p {
        Pat::Ws => is_ws(c),
        Pat::Ch(d) => c == d,
    }
}

/// `s` without its longest prefix of characters that `p` hits.
pub open spec fn strip_start(s: Seq<char>, p: Pat) -> Seq<char>
    decreases s.len(),
{
    if s.len() > 0 && pat_hits(p, s[0]) {
        strip_start(s.drop_first(), p)
    } else {
        s
    }
}

/// `s` without its longest suffix of characters that `p` hits.
pub open spec fn strip_end(s: Seq<char>, p: Pat) -> Seq<char>
    decreases s.len(),
{
    if s.len() > 0 && pat_hits(p, s.last()) {
        strip_end(s.drop_last(), p)
    } else {
        s
    }
}

/// `str::trim_matches` with a single-character pattern (`str::trim` for `Pat::Ws`).
pub open spec fn strip_both(s: Seq<char>, p: Pat) -> Seq<char> {
    strip_end(strip_start(s, p), p)
}

/// `str::trim`.
pub open spec fn trim(s: Seq<char>) -> Seq<char> {
    strip_both(s, Pat::Ws)
}

pub open spec fn starts_with(s: Seq<char>, p: Seq<char>) -> bool {
    p.len() <= s.len() && s.take(p.len() as int) == p
}

pub open spec fn ends_with(s: Seq<char>, p: Seq<char>) -> bool {
    p.len() <= s.len() && s.skip(s.len() - p.len()) == p
}

/// `pat` occurs in `s` starting at index `i`.
pub open spec fn occurs_at(s: Seq<char>, pat: Seq<char>, i: int) -> bool {
    0 <= i && i + pat.len() <= s.len() && s.subrange(i, i + pat.len()) == pat
}

/// The first index at or after `i` where `pat` occurs in `s`.
pub open spec fn find_from(s: Seq<char>, pat: Seq<char>, i: int) -> Option<int>
    decreases s.len() + 1 - i,
{
    if i < 0 || i + pat.len() > s.len() {
        None
    } else if occurs_at(s, pat, i) {
        Some(i)
    } else {
        find_from(s, pat, i + 1)
    }
}

/// `str::find` with a string pattern, counted in characters.
pub open spec fn find(s: Seq<char>, pat: Seq<char>) -> Option<int> {
    find_from(s, pat, 0)
}

pub open spec fn contains(s: Seq<char>, pat: Seq<char>) -> bool {
    find(s, pat) is Some
}

/// `str::rfind` with a character pattern, counted in characters.
pub open spec fn rfind_char(s: Seq<char>, c: char) -> Option<int>
    decreases s.len(),
{
    if s.len() == 0 {
        None
    } else if s.last() == c {
        Some(s.len() - 1)
    } else {
        rfind_char(s.drop_last(), c)
    }
}

/// `str::lines`: split at `\n`, drop a `\r` that ends a line before `\n`,
/// and yield no empty piece after a final line ending.
pub open spec fn lines(s: Seq<char>) -> Seq<Seq<char>>
    decreases s.len(),
{
    if s.len() == 0 {
        seq![]
    } else {
        match find(s, seq!['\n']) {
            None => seq![s],
            Some(i) => {
                proof {
                    lemma_find_from_some(s, seq!['\n'], 0);
                }
                let line = s.take(i);
                let line = if line.len() > 0 && line.last() == '\r' {
                    line.drop_last()
                } else {
                    line
                };
                seq![line] + lines(s.skip(i + 1))
            },
        }
    }
}

/// The number of leading characters of `s` that are not white space.
pub open spec fn word_len(s: Seq<char>) -> nat
    decreases s.len(),
{
    if s.len() == 0 || is_ws(s[0]) {
        0
    } else {
        1 + word_len(s.drop_first())
    }
}

/// `str::split_whitespace().next()`: the first maximal run of non-white-space characters.
pub open spec fn first_word(s: Seq<char>) -> Option<Seq<char>> {
    let t = strip_start(s, Pat::Ws);
    if t.len() == 0 {
        None
    } else {
        Some(t.take(word_len(t) as int))
    }
}

/// The concatenation of `f` applied to each element, in order.
pub open spec fn concat_map<A>(s: Seq<A>, f: spec_fn(A) -> Seq<char>) -> Seq<char>
    decreases s.len(),
{
    if s.len() == 0 {
        Seq::empty()
    } else {
        concat_map(s.drop_last(), f) + f(s.last())
    }
}

/// `concat_map` over one more element.
pub proof fn lemma_concat_map_step<A>(s: Seq<A>, i: int, f: spec_fn(A) -> Seq<char>)
    requires
        0 <= i < s.len(),
    ensures
        concat_map(s.take(i + 1), f) == concat_map(s.take(i), f) + f(s[i]),
{
    assert(s.take(i + 1).drop_last() =~= s.take(i));
}

/// The views of a sequence of strings.
pub open spec fn views(v: Seq<String>) -> Seq<Seq<char>> {
    v.map_values(|x: String| x@)
}

// ---------------------------------------------------------------------------
// Lemmas
// ---------------------------------------------------------------------------

/// What `find_from` returns is the first occurrence at or after `i`.
pub proof fn lemma_find_from_some(s: Seq<char>, pat: Seq<char>, i: int)
    requires
        0 <= i,
    ensures
        find_from(s, pat, i) matches Some(k) ==> {
            &&& occurs_at(s, pat, k)
            &&& i <= k
            &&& k + pat.len() <= s.len()
            &&& forall|j: int| i <= j < k ==> !occurs_at(s, pat, j)
        },
        find_from(s, pat, i) is None ==> forall|j: int| i <= j ==> !occurs_at(s, pat, j),
    decreases s.len() + 1 - i,
{
    if i < 0 || i + pat.len() > s.len() {
    } else if occurs_at(s, pat, i) {
    } else {
        lemma_find_from_some(s, pat, i + 1);
    }
}

proof fn lemma_strip_start_step(s: Seq<char>, p: Pat, i: int)
    requires
        0 <= i < s.len(),
        pat_hits(p, s[i]),
    ensures
        strip_start(s.subrange(i, s.len() as int), p) == strip_start(
            s.subrange(i + 1, s.len() as int),
            p,
        ),
{
    let t = s.subrange(i, s.len() as int);
    assert(t.drop_first() =~= s.subrange(i + 1, s.len() as int));
}

proof fn lemma_strip_end_step(s: Seq<char>, p: Pat, j: int)
    requires
        0 < j <= s.len(),
        pat_hits(p, s[j - 1]),
    ensures
        strip_end(s.take(j), p) == strip_end(s.take(j - 1), p),
{
    assert(s.take(j).drop_last() =~= s.take(j - 1));
}

/// Stripping twice strips nothing more.
pub proof fn lemma_strip_start_idem(s: Seq<char>, p: Pat)
    ensures
        strip_start(strip_start(s, p), p) == strip_start(s, p),
        strip_start(s, p).len() == 0 || !pat_hits(p, strip_start(s, p)[0]),
    decreases s.len(),
{
    if s.len() > 0 && pat_hits(p, s[0]) {
        lemma_strip_start_idem(s.drop_first(), p);
    }
}

pub proof fn lemma_strip_end_idem(s: Seq<char>, p: Pat)
    ensures
        strip_end(s, p).len() <= s.len(),
        strip_end(strip_end(s, p), p) == strip_end(s, p),
        strip_end(s, p).len() == 0 || !pat_hits(p, strip_end(s, p).last()),
    decreases s.len(),
{
    if s.len() > 0 && pat_hits(p, s.last()) {
        lemma_strip_end_idem(s.drop_last(), p);
    }
}

/// Stripping the end keeps a start that `p` does not hit.
pub proof fn lemma_strip_end_keeps_start(s: Seq<char>, p: Pat)
    requires
        s.len() == 0 || !pat_hits(p, s[0]),
    ensures
        strip_end(s, p).len() == 0 || !pat_hits(p, strip_end(s, p)[0]),
        strip_start(strip_end(s, p), p) == strip_end(s, p),
        strip_end(s, p) == s.take(strip_end(s, p).len() as int),
    decreases s.len(),
{
    if s.len() > 0 && pat_hits(p, s.last()) {
        assert(s.drop_last().len() == 0 || s.drop_last()[0] == s[0]);
        lemma_strip_end_keeps_start(s.drop_last(), p);
        lemma_strip_end_idem(s.drop_last(), p);
        let r = strip_end(s.drop_last(), p);
        assert(strip_end(s, p) == r);
        assert(s.drop_last().take(r.len() as int) =~= s.take(r.len() as int));
    } else {
        assert(s.take(s.len() as int) =~= s);
    }
}

/// Stripping both ends is idempotent: a trimmed string is its own trim.
pub proof fn lemma_strip_both_idem(s: Seq<char>, p: Pat)
    ensures
        strip_both(strip_both(s, p), p) == strip_both(s, p),
        strip_both(s, p).len() == 0 || (!pat_hits(p, strip_both(s, p)[0]) && !pat_hits(
            p,
            strip_both(s, p).last(),
        )),
{
    let a = strip_start(s, p);
    lemma_strip_start_idem(s, p);
    lemma_strip_end_keeps_start(a, p);
    lemma_strip_end_idem(a, p);
}


/// A white-space character appended to a string does not change its trim.
pub proof fn lemma_trim_push_ws(v: Seq<char>, c: char)
    requires
        is_ws(c),
    ensures
        trim(v.push(c)) == trim(v),
    decreases v.len(),
{
    let w = v.push(c);
    if v.len() == 0 {
        assert(w.drop_first() =~= Seq::<char>::empty());
        assert(strip_start(w, Pat::Ws) == strip_start(Seq::<char>::empty(), Pat::Ws));
    } else if is_ws(v[0]) {
        assert(w[0] == v[0]);
        assert(w.drop_first() =~= v.drop_first().push(c));
        lemma_trim_push_ws(v.drop_first(), c);
        assert(strip_start(w, Pat::Ws) == strip_start(v.drop_first().push(c), Pat::Ws));
        assert(strip_start(v, Pat::Ws) == strip_start(v.drop_first(), Pat::Ws));
    } else {
        assert(w[0] == v[0]);
        assert(strip_start(w, Pat::Ws) == w);
        assert(strip_start(v, Pat::Ws) == v);
        assert(w.drop_last() =~= v);
        assert(w.last() == c);
    }
}

// ---------------------------------------------------------------------------
// Trusted building blocks from std
// ---------------------------------------------------------------------------

/// `String::push`: appends one character.
#[verifier::external_body]
pub(crate) fn push_char(s: &mut String, c: char)
    ensures
        final(s)@ == old(s)@.push(c),
{
    s.push(c);
}

// ---------------------------------------------------------------------------
// Executable functions
// ---------------------------------------------------------------------------

/// The characters of a string slice, in order.
pub fn chars_of(s: &str) -> (res: Vec<char>)
    ensures
        res@ == s@,
{
    let mut res: Vec<char> = Vec::new();
    for c in it: s.chars()
        invariant
            res@ == it.seq().take(it.index() as int),
            it.seq() == s@,
    {
        res.push(c);
    }
    res
}

/// A string made of the given characters.
pub fn string_of(v: &[char]) -> (res: String)
    ensures
        res@ == v@,
{
    let mut res = String::new();
    for i in 0..v.len()
        invariant
            res@ == v@.take(i as int),
    {
        push_char(&mut res, v[i]);
        assert(v@.take(i + 1) == v@.take(i as int).push(v@[i as int]));
    }
    assert(v@.take(v@.len() as int) =~= v@);
    res
}

/// Appends characters to a string.
pub fn push_chars(s: &mut String, v: &[char])
    ensures
        final(s)@ == old(s)@ + v@,
{
    let ghost s0 = s@;
    for i in 0..v.len()
        invariant
            s@ == s0 + v@.take(i as int),
    {
        push_char(s, v[i]);
        assert(v@.take(i + 1) == v@.take(i as int).push(v@[i as int]));
    }
    assert(v@.take(v@.len() as int) =~= v@);
}

/// A copy of `v[a..b]`.
pub fn slice_of(v: &[char], a: usize, b: usize) -> (res: Vec<char>)
    requires
        a <= b <= v@.len(),
    ensures
        res@ == v@.subrange(a as int, b as int),
{
    let mut res: Vec<char> = Vec::new();
    let mut i = a;
    while i < b
        invariant
            a <= i <= b <= v@.len(),
            res@ == v@.subrange(a as int, i as int),
        decreases b - i,
    {
        res.push(v[i]);
        assert(v@.subrange(a as int, i + 1) == v@.subrange(a as int, i as int).push(v@[i as int]));
        i += 1;
    }
    res
}

/// `char::is_whitespace`.
pub fn is_whitespace(c: char) -> (res: bool)
    ensures
        res == is_ws(c),
{
    c == ' ' || ('\u{9}' <= c && c <= '\u{d}') || c == '\u{85}' || c == '\u{a0}' || c
        == '\u{1680}' || ('\u{2000}' <= c && c <= '\u{200a}') || c == '\u{2028}' || c
        == '\u{2029}' || c == '\u{202f}' || c == '\u{205f}' || c == '\u{3000}'
}

pub fn hits(p: Pat, c: char) -> (res: bool)
    ensures
        res == pat_hits(p, c),
{
    match p {
        Pat::Ws => is_whitespace(c),
        Pat::Ch(d) => c == d,
    }
}

/// The bounds of `strip_both(v, p)` inside `v`.
fn strip_bounds(v: &[char], p: Pat) -> (res: (usize, usize))
    ensures
        res.0 <= res.1 <= v@.len(),
        strip_both(v@, p) == v@.subrange(res.0 as int, res.1 as int),
        strip_start(v@, p) == v@.subrange(res.0 as int, v@.len() as int),
{
    let n = v.len();
    let mut i: usize = 0;
    assert(v@.subrange(0, n as int) =~= v@);
    while i < n && hits(p, v[i])
        invariant
            i <= n == v@.len(),
            strip_start(v@, p) == strip_start(v@.subrange(i as int, n as int), p),
        decreases n - i,
    {
        proof {
            lemma_strip_start_step(v@, p, i as int);
        }
        i += 1;
    }
    let ghost t = v@.subrange(i as int, n as int);
    assert(strip_start(t, p) == t);
    let mut j: usize = n;
    assert(t.take((j - i) as int) =~= t);
    while j > i && hits(p, v[j - 1])
        invariant
            i <= j <= n == v@.len(),
            t == v@.subrange(i as int, n as int),
            strip_end(t, p) == strip_end(t.take((j - i) as int), p),
        decreases j,
    {
        proof {
            lemma_strip_end_step(t, p, (j - i) as int);
        }
        j -= 1;
    }
    assert(t.take((j - i) as int) =~= v@.subrange(i as int, j as int));
    (i, j)
}

/// `str::trim_matches` (or `str::trim` for `Pat::Ws`) on characters.
pub fn strip(v: &[char], p: Pat) -> (res: Vec<char>)
    ensures
        res@ == strip_both(v@, p),
{
    let (a, b) = strip_bounds(v, p);
    slice_of(v, a, b)
}

/// `str::trim`.
pub fn trim_chars(v: &[char]) -> (res: Vec<char>)
    ensures
        res@ == trim(v@),
{
    strip(v, Pat::Ws)
}

/// `str::trim_end_matches` with a character pattern.
pub fn strip_end_chars(v: &[char], p: Pat) -> (res: Vec<char>)
    ensures
        res@ == strip_end(v@, p),
{
    let n = v.len();
    let mut j: usize = n;
    assert(v@.take(n as int) =~= v@);
    while j > 0 && hits(p, v[j - 1])
        invariant
            j <= n == v@.len(),
            strip_end(v@, p) == strip_end(v@.take(j as int), p),
        decreases j,
    {
        proof {
            lemma_strip_end_step(v@, p, j as int);
        }
        j -= 1;
    }
    assert(v@.take(j as int) =~= v@.subrange(0, j as int));
    slice_of(v, 0, j)
}

/// Character-wise equality.
pub fn eq_chars(a: &[char], b: &[char]) -> (res: bool)
    ensures
        res == (a@ == b@),
{
    if a.len() != b.len() {
        return false;
    }
    for i in 0..a.len()
        invariant
            a@.len() == b@.len(),
            forall|k: int| 0 <= k < i ==> a@[k] == b@[k],
    {
        if a[i] != b[i] {
            return false;
        }
    }
    assert(a@ =~= b@);
    true
}

/// Whether `pat` occurs in `s` at index `i`.
pub fn occurs_at_exec(s: &[char], pat: &[char], i: usize) -> (res: bool)
    ensures
        res == occurs_at(s@, pat@, i as int),
{
    if i > s.len() || pat.len() > s.len() - i {
        return false;
    }
    let n = s.len();
    for k in 0..pat.len()
        invariant
            n == s@.len(),
            i + pat@.len() <= s@.len(),
            forall|m: int| 0 <= m < k ==> s@[i + m] == pat@[m],
    {
        assert(i + k < s@.len());
        if s[i + k] != pat[k] {
            assert(s@.subrange(i as int, i + pat@.len())[k as int] != pat@[k as int]);
            return false;
        }
    }
    assert(s@.subrange(i as int, i + pat@.len()) =~= pat@);
    true
}

pub fn starts_with_chars(s: &[char], p: &[char]) -> (res: bool)
    ensures
        res == starts_with(s@, p@),
{
    let r = occurs_at_exec(s, p, 0);
    assert(s@.subrange(0, p@.len() as int) =~= s@.take(p@.len() as int));
    r
}

pub fn ends_with_chars(s: &[char], p: &[char]) -> (res: bool)
    ensures
        res == ends_with(s@, p@),
{
    if p.len() > s.len() {
        return false;
    }
    let r = occurs_at_exec(s, p, s.len() - p.len());
    assert(s@.subrange(s@.len() - p@.len(), s@.len() - p@.len() + p@.len()) =~= s@.skip(
        s@.len() - p@.len(),
    ));
    r
}

/// Whether `s` starts with the text of `p`.
pub fn starts_with_str(s: &[char], p: &str) -> (res: bool)
    ensures
        res == starts_with(s@, p@),
{
    let pc = chars_of(p);
    starts_with_chars(s, &pc)
}

/// Whether `s` equals the text of `p`.
pub fn eq_str(s: &[char], p: &str) -> (res: bool)
    ensures
        res == (s@ == p@),
{
    let pc = chars_of(p);
    eq_chars(s, &pc)
}

/// `str::find` with a string pattern, counted in characters.
pub fn find_chars(s: &[char], pat: &[char]) -> (res: Option<usize>)
    ensures
        res matches Some(i) ==> find(s@, pat@) == Some(i as int) && occurs_at(s@, pat@, i as int),
        res is None ==> find(s@, pat@) is None,
{
    proof {
        lemma_find_from_some(s@, pat@, 0);
    }
    if pat.len() > s.len() {
        return None;
    }
    let lim = s.len() - pat.len();
    let mut i: usize = 0;
    loop
        invariant
            i <= lim == s@.len() - pat@.len(),
            find(s@, pat@) == find_from(s@, pat@, i as int),
        decreases lim - i,
    {
        if occurs_at_exec(s, pat, i) {
            return Some(i);
        }
        if i == lim {
            assert(find_from(s@, pat@, i + 1) is None);
            return None;
        }
        i += 1;
    }
}

/// `str::find` with a pattern given as text.
pub fn find_str(s: &[char], pat: &str) -> (res: Option<usize>)
    ensures
        res matches Some(i) ==> find(s@, pat@) == Some(i as int) && occurs_at(s@, pat@, i as int),
        res is None ==> find(s@, pat@) is None,
{
    let pc = chars_of(pat);
    find_chars(s, &pc)
}

/// `str::contains` with a pattern given as text.
pub fn contains_str(s: &[char], pat: &str) -> (res: bool)
    ensures
        res == contains(s@, pat@),
{
    find_str(s, pat).is_some()
}

/// `str::find` with a character pattern.
pub fn find_char(s: &[char], c: char) -> (res: Option<usize>)
    ensures
        res matches Some(i) ==> find(s@, seq![c]) == Some(i as int) && i < s@.len() && s@[i as int] == c,
        res is None ==> find(s@, seq![c]) is None,
{
    let v = vec![c];
    assert(v@ =~= seq![c]);
    let r = find_chars(s, &v);
    if let Some(i) = r {
        assert(s@.subrange(i as int, i + 1)[0] == s@[i as int]);
    }
    r
}

/// `str::rfind` with a character pattern.
pub fn rfind_char_exec(s: &[char], c: char) -> (res: Option<usize>)
    ensures
        res matches Some(i) ==> rfind_char(s@, c) == Some(i as int),
        res is None ==> rfind_char(s@, c) is None,
{
    let mut j: usize = s.len();
    assert(s@.take(j as int) =~= s@);
    while j > 0
        invariant
            j <= s@.len(),
            rfind_char(s@, c) == rfind_char(s@.take(j as int), c),
        decreases j,
    {
        assert(s@.take(j as int).last() == s@[j - 1]);
        if s[j - 1] == c {
            return Some(j - 1);
        }
        assert(s@.take(j as int).drop_last() =~= s@.take(j - 1));
        j -= 1;
    }
    None
}

/// `str::lines`, counted in characters.
pub fn lines_of(s: &[char]) -> (res: Vec<Vec<char>>)
    ensures
        res@.map_values(|l: Vec<char>| l@) == lines(s@),
{
    let mut res: Vec<Vec<char>> = Vec::new();
    let mut i: usize = 0;
    let n = s.len();
    assert(s@.skip(0) =~= s@);
    while i < n
        invariant
            i <= n == s@.len(),
            res@.map_values(|l: Vec<char>| l@) + lines(s@.skip(i as int)) == lines(s@),
        decreases n - i,
    {
        let rest = slice_of(s, i, n);
        assert(rest@ =~= s@.skip(i as int));
        let ghost pre = res@.map_values(|l: Vec<char>| l@);
        match find_char(&rest, '\n') {
            None => {
                res.push(rest);
                assert(res@.map_values(|l: Vec<char>| l@) =~= pre.push(s@.skip(i as int)));
                assert(s@.skip(n as int) =~= Seq::<char>::empty());
                assert(lines(s@.skip(n as int)) =~= Seq::<Seq<char>>::empty());
                assert(pre.push(s@.skip(i as int)) =~= pre + lines(s@.skip(i as int)));
                i = n;
            },
            Some(k) => {
                let mut line = slice_of(&rest, 0, k);
                assert(line@ =~= rest@.take(k as int));
                if line.len() > 0 && line[line.len() - 1] == '\r' {
                    line.pop();
                }
                res.push(line);
                assert(rest@.skip(k + 1) =~= s@.skip(i + k + 1));
                assert(res@.map_values(|l: Vec<char>| l@) =~= pre.push(res@.last()@));
                assert(pre.push(res@.last()@) + lines(s@.skip(i + k + 1)) =~= pre + lines(
                    s@.skip(i as int),
                ));
                i = i + k + 1;
            },
        }
    }
    assert(s@.skip(n as int) =~= Seq::<char>::empty());
    assert(res@.map_values(|l: Vec<char>| l@) + lines(s@.skip(n as int)) =~= res@.map_values(
        |l: Vec<char>| l@,
    ));
    res
}

/// `str::split_whitespace().next()`, counted in characters.
pub fn first_word_exec(s: &[char]) -> (res: Option<Vec<char>>)
    ensures
        res matches Some(w) ==> first_word(s@) == Some(w@),
        res is None ==> first_word(s@) is None,
{
    let (a, _b) = strip_bounds(s, Pat::Ws);
    let n = s.len();
    let ghost t = s@.subrange(a as int, n as int);
    if a == n {
        return None;
    }
    let mut j = a;
    assert(t.skip(0) =~= t);
    while j < n && !is_whitespace(s[j])
        invariant
            a <= j <= n == s@.len(),
            t == s@.subrange(a as int, n as int),
            word_len(t) == (j - a) + word_len(t.skip((j - a) as int)),
        decreases n - j,
    {
        assert(t.skip((j - a) as int).drop_first() =~= t.skip(j - a + 1));
        j += 1;
    }
    assert(word_len(t.skip((j - a) as int)) == 0);
    let w = slice_of(s, a, j);
    assert(w@ =~= t.take((j - a) as int));
    Some(w)
}

} // verus!

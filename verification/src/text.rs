//! Text handling on sequences of characters: trimming, line and field
//! splitting, substring search and number parsing, each stated over
//! `Seq<char>` the way the corresponding `str` method of std behaves.
use vstd::prelude::*;

verus! {

/// Unicode `White_Space` characters, the set `char::is_whitespace` accepts.
pub open spec fn is_ws(c: char) -> bool {
    ||| ('\u{9}' <= c && c <= '\u{d}')
    ||| c == ' '
    ||| c == '\u{85}'
    ||| c == '\u{a0}'
    ||| c == '\u{1680}'
    ||| ('\u{2000}' <= c && c <= '\u{200a}')
    ||| c == '\u{2028}'
    ||| c == '\u{2029}'
    ||| c == '\u{202f}'
    ||| c == '\u{205f}'
    ||| c == '\u{3000}'
}

pub fn is_whitespace(c: char) -> (r: bool)
    ensures
        r == is_ws(c),
{
    ('\u{9}' <= c && c <= '\u{d}') || c == ' ' || c == '\u{85}' || c == '\u{a0}' || c == '\u{1680}'
        || ('\u{2000}' <= c && c <= '\u{200a}') || c == '\u{2028}' || c == '\u{2029}'
        || c == '\u{202f}' || c == '\u{205f}' || c == '\u{3000}'
}

/// In a sequence without repeats, an element is found at its own index.
pub proof fn lemma_index_of_unique<A>(s: Seq<A>, i: int)
    requires
        s.no_duplicates(),
        0 <= i < s.len(),
    ensures
        s.contains(s[i]),
        s.index_of(s[i]) == i,
{
    assert(s[i] == s[i]);
    let c = s.index_of(s[i]);
    assert(0 <= c < s.len() && s[c] == s[i]);
}

/// The views of a sequence of character vectors.
pub open spec fn views(v: Seq<Vec<char>>) -> Seq<Seq<char>> {
    v.map_values(|x: Vec<char>| x@)
}

pub proof fn lemma_views_push(v: Seq<Vec<char>>, x: Vec<char>)
    ensures
        views(v.push(x)) == views(v).push(x@),
{
    assert(views(v.push(x)) =~= views(v).push(x@));
}

/// The characters of `s`, in order.
pub fn chars_of(s: &str) -> (v: Vec<char>)
    ensures
        v@ == s@,
{
    let mut v: Vec<char> = Vec::new();
    for c in it: s.chars()
        invariant
            v@ == it.seq().take(it.index() as int),
            it.seq() == s@,
    {
        v.push(c);
    }
    v
}

/// Appends one character to a string (std's `String::push`).
#[verifier::external_body]
fn push_char(s: &mut String, c: char)
    ensures
        final(s)@ == old(s)@.push(c),
{
    s.push(c);
}

/// The string made of the characters of `v`.
pub fn string_of(v: &[char]) -> (s: String)
    ensures
        s@ == v@,
{
    let mut s = String::new();
    let mut i: usize = 0;
    while i < v.len()
        invariant
            i <= v@.len(),
            s@ == v@.take(i as int),
        decreases v@.len() - i,
    {
        push_char(&mut s, v[i]);
        assert(v@.take(i + 1) == v@.take(i as int).push(v@[i as int]));
        i = i + 1;
    }
    assert(v@.take(v@.len() as int) == v@);
    s
}

/// The characters of `s` from `from` up to `to`.
pub fn slice_range(s: &[char], from: usize, to: usize) -> (r: Vec<char>)
    requires
        from <= to <= s@.len(),
    ensures
        r@ == s@.subrange(from as int, to as int),
{
    let mut r: Vec<char> = Vec::new();
    let mut i = from;
    while i < to
        invariant
            from <= i <= to <= s@.len(),
            r@ == s@.subrange(from as int, i as int),
        decreases to - i,
    {
        r.push(s[i]);
        assert(s@.subrange(from as int, i + 1) == s@.subrange(from as int, i as int).push(
            s@[i as int],
        ));
        i = i + 1;
    }
    r
}

/// `a` followed by `b`.
pub fn concat(a: &[char], b: &[char]) -> (r: Vec<char>)
    ensures
        r@ == a@ + b@,
{
    let mut r = slice_range(a, 0, a.len());
    let mut i: usize = 0;
    assert(r@ == a@);
    while i < b.len()
        invariant
            i <= b@.len(),
            r@ == a@ + b@.take(i as int),
        decreases b@.len() - i,
    {
        r.push(b[i]);
        assert(b@.take(i + 1) == b@.take(i as int).push(b@[i as int]));
        assert(r@ == a@ + b@.take(i + 1));
        i = i + 1;
    }
    assert(b@.take(b@.len() as int) == b@);
    r
}

// ---------------------------------------------------------------------------
// Comparisons
// ---------------------------------------------------------------------------
pub fn chars_eq(a: &[char], b: &[char]) -> (r: bool)
    ensures
        r == (a@ == b@),
{
    if a.len() != b.len() {
        return false;
    }
    let mut i: usize = 0;
    while i < a.len()
        invariant
            a@.len() == b@.len(),
            i <= a@.len(),
            forall|k: int| 0 <= k < i ==> a@[k] == b@[k],
        decreases a@.len() - i,
    {
        if a[i] != b[i] {
            return false;
        }
        i = i + 1;
    }
    assert(a@ =~= b@);
    true
}

/// `p` occurs in `s` at position `i`.
pub open spec fn occurs_at(s: Seq<char>, p: Seq<char>, i: int) -> bool {
    0 <= i && i + p.len() <= s.len() && s.subrange(i, i + p.len()) == p
}

pub open spec fn starts_with_spec(s: Seq<char>, p: Seq<char>) -> bool {
    occurs_at(s, p, 0)
}

/// `s` holds `p` somewhere (std's `str::contains` with a string pattern).
pub open spec fn contains_spec(s: Seq<char>, p: Seq<char>) -> bool {
    exists|i: int| occurs_at(s, p, i)
}

pub fn occurs_at_exec(s: &[char], p: &[char], i: usize) -> (r: bool)
    ensures
        r == occurs_at(s@, p@, i as int),
{
    if i > s.len() || p.len() > s.len() - i {
        return false;
    }
    let mut k: usize = 0;
    while k < p.len()
        invariant
            i + p@.len() <= s.len(),
            k <= p@.len(),
            forall|m: int| 0 <= m < k ==> s@[i + m] == p@[m],
        decreases p@.len() - k,
    {
        if s[i + k] != p[k] {
            assert(s@.subrange(i as int, i + p@.len())[k as int] != p@[k as int]);
            return false;
        }
        k = k + 1;
    }
    assert(s@.subrange(i as int, i + p@.len()) =~= p@);
    true
}

pub fn starts_with(s: &[char], p: &[char]) -> (r: bool)
    ensures
        r == starts_with_spec(s@, p@),
{
    occurs_at_exec(s, p, 0)
}

pub fn contains(s: &[char], p: &[char]) -> (r: bool)
    ensures
        r == contains_spec(s@, p@),
{
    if p.len() > s.len() {
        return false;
    }
    let last = s.len() - p.len();
    let mut i: usize = 0;
    loop
        invariant
            last + p@.len() == s@.len(),
            i <= last,
            forall|k: int| 0 <= k < i ==> !occurs_at(s@, p@, k),
        decreases last - i,
    {
        if occurs_at_exec(s, p, i) {
            return true;
        }
        if i == last {
            assert forall|k: int| !occurs_at(s@, p@, k) by {
                if 0 <= k <= i {
                }
            }
            return false;
        }
        i = i + 1;
    }
}

// ---------------------------------------------------------------------------
// Trimming
// ---------------------------------------------------------------------------
pub open spec fn trim_start_spec(s: Seq<char>) -> Seq<char>
    decreases s.len(),
{
    if s.len() > 0 && is_ws(s[0]) {
        trim_start_spec(s.drop_first())
    } else {
        s
    }
}

pub open spec fn trim_end_spec(s: Seq<char>) -> Seq<char>
    decreases s.len(),
{
    if s.len() > 0 && is_ws(s.last()) {
        trim_end_spec(s.drop_last())
    } else {
        s
    }
}

/// `s` without leading and trailing whitespace (std's `str::trim`).
pub open spec fn trim_spec(s: Seq<char>) -> Seq<char> {
    trim_end_spec(trim_start_spec(s))
}

pub fn trim(s: &[char]) -> (r: Vec<char>)
    ensures
        r@ == trim_spec(s@),
{
    let mut i: usize = 0;
    assert(s@.skip(0) =~= s@);
    while i < s.len() && is_whitespace(s[i])
        invariant
            i <= s@.len(),
            trim_start_spec(s@) == trim_start_spec(s@.skip(i as int)),
        decreases s@.len() - i,
    {
        assert(s@.skip(i as int).drop_first() =~= s@.skip(i + 1));
        i = i + 1;
    }
    assert(trim_start_spec(s@) == s@.skip(i as int));
    let mut j: usize = s.len();
    assert(s@.skip(i as int) =~= s@.subrange(i as int, j as int));
    while j > i && is_whitespace(s[j - 1])
        invariant
            i <= j <= s@.len(),
            trim_start_spec(s@) == s@.skip(i as int),
            trim_spec(s@) == trim_end_spec(s@.subrange(i as int, j as int)),
        decreases j,
    {
        assert(s@.subrange(i as int, j as int).drop_last() =~= s@.subrange(i as int, j - 1));
        j = j - 1;
    }
    slice_range(s, i, j)
}

/// `s` with every leading repetition of `p` removed
/// (std's `str::trim_start_matches` with a string pattern).
pub open spec fn strip_all_spec(s: Seq<char>, p: Seq<char>) -> Seq<char>
    decreases s.len(),
{
    if p.len() > 0 && starts_with_spec(s, p) {
        strip_all_spec(s.skip(p.len() as int), p)
    } else {
        s
    }
}

pub fn strip_all(s: &[char], p: &[char]) -> (r: Vec<char>)
    requires
        p@.len() > 0,
    ensures
        r@ == strip_all_spec(s@, p@),
{
    let mut i: usize = 0;
    let n = s.len();
    assert(s@.skip(0) =~= s@);
    while occurs_at_exec(s, p, i)
        invariant
            n == s@.len(),
            p@.len() > 0,
            i <= s@.len(),
            strip_all_spec(s@, p@) == strip_all_spec(s@.skip(i as int), p@),
        decreases s@.len() - i,
    {
        assert(s@.skip(i as int).subrange(0, p@.len() as int) =~= s@.subrange(
            i as int,
            i + p@.len(),
        ));
        assert(s@.skip(i as int).skip(p@.len() as int) =~= s@.skip(i + p@.len()));
        i = i + p.len();
    }
    assert(!starts_with_spec(s@.skip(i as int), p@)) by {
        if starts_with_spec(s@.skip(i as int), p@) {
            assert(s@.skip(i as int).subrange(0, p@.len() as int) =~= s@.subrange(
                i as int,
                i + p@.len(),
            ));
        }
    }
    slice_range(s, i, s.len())
}

// ---------------------------------------------------------------------------
// Splitting
// ---------------------------------------------------------------------------
pub open spec fn strip_cr(t: Seq<char>) -> Seq<char> {
    if t.len() > 0 && t.last() == '\r' {
        t.drop_last()
    } else {
        t
    }
}

pub open spec fn lines_from(s: Seq<char>, cur: Seq<char>) -> Seq<Seq<char>>
    decreases s.len(),
{
    if s.len() == 0 {
        if cur.len() == 0 {
            seq![]
        } else {
            seq![cur]
        }
    } else if s[0] == '\n' {
        seq![strip_cr(cur)] + lines_from(s.drop_first(), seq![])
    } else {
        lines_from(s.drop_first(), cur.push(s[0]))
    }
}

/// The lines of `s` (std's `str::lines`): pieces ended by `\n`, each without
/// its `\n` and a `\r` just before it; a last piece without `\n` counts
/// when it is not empty.
pub open spec fn lines_spec(s: Seq<char>) -> Seq<Seq<char>> {
    lines_from(s, seq![])
}

fn strip_cr_exec(t: Vec<char>) -> (r: Vec<char>)
    ensures
        r@ == strip_cr(t@),
{
    let mut t = t;
    if t.len() > 0 && t[t.len() - 1] == '\r' {
        t.pop();
    }
    t
}

pub fn lines(s: &[char]) -> (r: Vec<Vec<char>>)
    ensures
        views(r@) == lines_spec(s@),
{
    let mut out: Vec<Vec<char>> = Vec::new();
    let mut cur: Vec<char> = Vec::new();
    let mut i: usize = 0;
    assert(s@.skip(0) =~= s@);
    assert(views(out@) =~= seq![]);
    while i < s.len()
        invariant
            i <= s@.len(),
            views(out@) + lines_from(s@.skip(i as int), cur@) == lines_spec(s@),
        decreases s@.len() - i,
    {
        let ghost rest = s@.skip(i as int);
        assert(rest[0] == s@[i as int]);
        assert(rest.drop_first() =~= s@.skip(i + 1));
        if s[i] == '\n' {
            let line = strip_cr_exec(cur);
            proof {
                lemma_views_push(out@, line);
            }
            let ghost old_out = views(out@);
            out.push(line);
            cur = Vec::new();
            assert(views(out@) + lines_from(s@.skip(i + 1), cur@) =~= old_out + (seq![line@]
                + lines_from(s@.skip(i + 1), seq![])));
        } else {
            cur.push(s[i]);
        }
        i = i + 1;
    }
    if cur.len() > 0 {
        proof {
            lemma_views_push(out@, cur);
        }
        out.push(cur);
    }
    assert(views(out@) =~= lines_spec(s@));
    out
}

pub open spec fn split_from(s: Seq<char>, sep: char, cur: Seq<char>) -> Seq<Seq<char>>
    decreases s.len(),
{
    if s.len() == 0 {
        seq![cur]
    } else if s[0] == sep {
        seq![cur] + split_from(s.drop_first(), sep, seq![])
    } else {
        split_from(s.drop_first(), sep, cur.push(s[0]))
    }
}

/// The pieces of `s` between occurrences of `sep` (std's `str::split` with a
/// character pattern); there is always at least one piece.
pub open spec fn split_spec(s: Seq<char>, sep: char) -> Seq<Seq<char>> {
    split_from(s, sep, seq![])
}

pub proof fn lemma_split_from_nonempty(s: Seq<char>, sep: char, cur: Seq<char>)
    ensures
        split_from(s, sep, cur).len() >= 1,
    decreases s.len(),
{
    if s.len() > 0 {
        if s[0] != sep {
            lemma_split_from_nonempty(s.drop_first(), sep, cur.push(s[0]));
        }
    }
}

pub fn split(s: &[char], sep: char) -> (r: Vec<Vec<char>>)
    ensures
        views(r@) == split_spec(s@, sep),
        r@.len() >= 1,
{
    let mut out: Vec<Vec<char>> = Vec::new();
    let mut cur: Vec<char> = Vec::new();
    let mut i: usize = 0;
    assert(s@.skip(0) =~= s@);
    assert(views(out@) =~= seq![]);
    while i < s.len()
        invariant
            i <= s@.len(),
            views(out@) + split_from(s@.skip(i as int), sep, cur@) == split_spec(s@, sep),
        decreases s@.len() - i,
    {
        let ghost rest = s@.skip(i as int);
        assert(rest[0] == s@[i as int]);
        assert(rest.drop_first() =~= s@.skip(i + 1));
        if s[i] == sep {
            let piece = cur;
            proof {
                lemma_views_push(out@, piece);
            }
            let ghost old_out = views(out@);
            out.push(piece);
            cur = Vec::new();
            assert(views(out@) + split_from(s@.skip(i + 1), sep, cur@) =~= old_out + (seq![
                piece@,
            ] + split_from(s@.skip(i + 1), sep, seq![])));
        } else {
            cur.push(s[i]);
        }
        i = i + 1;
    }
    proof {
        lemma_views_push(out@, cur);
    }
    out.push(cur);
    assert(views(out@) =~= split_spec(s@, sep));
    out
}

pub open spec fn words_from(s: Seq<char>, cur: Seq<char>) -> Seq<Seq<char>>
    decreases s.len(),
{
    if s.len() == 0 {
        if cur.len() > 0 {
            seq![cur]
        } else {
            seq![]
        }
    } else if is_ws(s[0]) {
        (if cur.len() > 0 {
            seq![cur]
        } else {
            seq![]
        }) + words_from(s.drop_first(), seq![])
    } else {
        words_from(s.drop_first(), cur.push(s[0]))
    }
}

/// The maximal runs of non-whitespace characters of `s`
/// (std's `str::split_whitespace`).
pub open spec fn words_spec(s: Seq<char>) -> Seq<Seq<char>> {
    words_from(s, seq![])
}

pub fn words(s: &[char]) -> (r: Vec<Vec<char>>)
    ensures
        views(r@) == words_spec(s@),
{
    let mut out: Vec<Vec<char>> = Vec::new();
    let mut cur: Vec<char> = Vec::new();
    let mut i: usize = 0;
    assert(s@.skip(0) =~= s@);
    assert(views(out@) =~= seq![]);
    while i < s.len()
        invariant
            i <= s@.len(),
            views(out@) + words_from(s@.skip(i as int), cur@) == words_spec(s@),
        decreases s@.len() - i,
    {
        let ghost rest = s@.skip(i as int);
        assert(rest[0] == s@[i as int]);
        assert(rest.drop_first() =~= s@.skip(i + 1));
        if is_whitespace(s[i]) {
            let ghost old_out = views(out@);
            let ghost old_cur = cur@;
            if cur.len() > 0 {
                let piece = cur;
                proof {
                    lemma_views_push(out@, piece);
                }
                out.push(piece);
                cur = Vec::new();
                assert(views(out@) + words_from(s@.skip(i + 1), cur@) =~= old_out + (seq![
                    old_cur,
                ] + words_from(s@.skip(i + 1), seq![])));
            } else {
                assert(cur@ =~= seq![]);
                assert(views(out@) + words_from(s@.skip(i + 1), cur@) =~= old_out + (seq![]
                    + words_from(s@.skip(i + 1), seq![])));
            }
        } else {
            cur.push(s[i]);
        }
        i = i + 1;
    }
    if cur.len() > 0 {
        proof {
            lemma_views_push(out@, cur);
        }
        out.push(cur);
    }
    assert(views(out@) =~= words_spec(s@));
    out
}

/// The first whitespace-separated word of `s`, or nothing when it has none.
pub open spec fn first_word(s: Seq<char>) -> Seq<char> {
    if words_spec(s).len() > 0 {
        words_spec(s)[0]
    } else {
        seq![]
    }
}

pub fn first_word_exec(s: &[char]) -> (r: Vec<char>)
    ensures
        r@ == first_word(s@),
{
    let ws = words(s);
    if ws.len() > 0 {
        assert(views(ws@)[0] == ws@[0]@);
        slice_range(&ws[0], 0, ws[0].len())
    } else {
        Vec::new()
    }
}

// ---------------------------------------------------------------------------
// Numbers
// ---------------------------------------------------------------------------
pub open spec fn is_digit(c: char) -> bool {
    '0' <= c && c <= '9'
}

pub open spec fn all_digits(s: Seq<char>) -> bool {
    forall|i: int| 0 <= i < s.len() ==> is_digit(#[trigger] s[i])
}

pub open spec fn digit_value(c: char) -> nat {
    (c as int - '0' as int) as nat
}

/// The number that the decimal digits `s` write.
pub open spec fn digits_value(s: Seq<char>) -> nat
    decreases s.len(),
{
    if s.len() == 0 {
        0
    } else {
        digits_value(s.drop_last()) * 10 + digit_value(s.last())
    }
}

/// The digits of an unsigned decimal number: an optional `+` sign taken away.
pub open spec fn unsigned_digits(s: Seq<char>) -> Seq<char> {
    if s.len() > 0 && s[0] == '+' {
        s.drop_first()
    } else {
        s
    }
}

/// What std's `str::parse::<u64>` gives: the value of an optional `+` and at
/// least one decimal digit, when it fits in a `u64`.
pub open spec fn parse_u64_spec(s: Seq<char>) -> Option<u64> {
    let d = unsigned_digits(s);
    if d.len() > 0 && all_digits(d) && digits_value(d) <= u64::MAX {
        Some(digits_value(d) as u64)
    } else {
        None
    }
}

proof fn lemma_digits_value_monotone(s: Seq<char>, i: int, j: int)
    requires
        0 <= i <= j <= s.len(),
        all_digits(s),
    ensures
        digits_value(s.take(i)) <= digits_value(s.take(j)),
    decreases j - i,
{
    if i < j {
        lemma_digits_value_monotone(s, i, j - 1);
        assert(s.take(j).drop_last() =~= s.take(j - 1));
        assert(digits_value(s.take(j)) == digits_value(s.take(j - 1)) * 10 + digit_value(
            s.take(j).last(),
        ));
    }
}

pub fn parse_u64(s: &[char]) -> (r: Option<u64>)
    ensures
        r == parse_u64_spec(s@),
{
    let start: usize = if s.len() > 0 && s[0] == '+' {
        1
    } else {
        0
    };
    let ghost d = unsigned_digits(s@);
    assert(d =~= s@.skip(start as int));
    if start == s.len() {
        return None;
    }
    let mut value: u64 = 0;
    let mut i: usize = start;
    assert(d.take(0) =~= seq![]);
    while i < s.len()
        invariant
            start <= i <= s@.len(),
            d == s@.skip(start as int),
            d == unsigned_digits(s@),
            forall|k: int| 0 <= k < i - start ==> is_digit(#[trigger] d[k]),
            value == digits_value(d.take(i - start)),
        decreases s@.len() - i,
    {
        let c = s[i];
        assert(d[i - start] == c);
        if !('0' <= c && c <= '9') {
            assert(!all_digits(d)) by {
                assert(!is_digit(d[i - start]));
            }
            return None;
        }
        let digit = (c as u32 - '0' as u32) as u64;
        assert(d.take(i - start + 1).drop_last() =~= d.take(i - start));
        assert(digits_value(d.take(i - start + 1)) == value * 10 + digit);
        if value > (u64::MAX - digit) / 10 {
            proof {
                assert(value * 10 + digit > u64::MAX) by (nonlinear_arith)
                    requires
                        value > (u64::MAX - digit) / 10,
                        digit <= 9,
                ;
                if all_digits(d) {
                    lemma_digits_value_monotone(d, i - start + 1, d.len() as int);
                    assert(d.take(d.len() as int) =~= d);
                }
            }
            return None;
        }
        value = value * 10 + digit;
        i = i + 1;
    }
    assert(d.take(d.len() as int) =~= d);
    assert(all_digits(d));
    Some(value)
}


// ---------------------------------------------------------------------------
// Joining
// ---------------------------------------------------------------------------
/// The pieces with `sep` between each two of them (std's `join` on a slice
/// of strings).
pub open spec fn join_spec(items: Seq<Seq<char>>, sep: Seq<char>) -> Seq<char>
    decreases items.len(),
{
    if items.len() == 0 {
        seq![]
    } else if items.len() == 1 {
        items[0]
    } else {
        join_spec(items.drop_last(), sep) + sep + items.last()
    }
}

pub open spec fn string_views(v: Seq<String>) -> Seq<Seq<char>> {
    v.map_values(|s: String| s@)
}

/// Whether one of `items` is the string `s`.
pub fn strings_contain(items: &[String], s: &str) -> (r: bool)
    ensures
        r == string_views(items@).contains(s@),
{
    let mut i: usize = 0;
    while i < items.len()
        invariant
            i <= items@.len(),
            forall|k: int| 0 <= k < i ==> items@[k]@ != s@,
        decreases items@.len() - i,
    {
        if str_eq(items[i].as_str(), s) {
            assert(string_views(items@)[i as int] == s@);
            return true;
        }
        i = i + 1;
    }
    proof {
        if string_views(items@).contains(s@) {
            let k = string_views(items@).index_of(s@);
            assert(items@[k]@ == s@);
        }
    }
    false
}

/// The strings of `items` with `sep` between each two of them.
pub fn join_strings(items: &[String], sep: &[char]) -> (r: Vec<char>)
    ensures
        r@ == join_spec(string_views(items@), sep@),
{
    let ghost all = string_views(items@);
    let mut r: Vec<char> = Vec::new();
    let mut i: usize = 0;
    assert(all.take(0) =~= seq![]);
    while i < items.len()
        invariant
            i <= items@.len(),
            all == string_views(items@),
            r@ == join_spec(all.take(i as int), sep@),
        decreases items@.len() - i,
    {
        let piece = chars_of(items[i].as_str());
        assert(all.take(i + 1).drop_last() =~= all.take(i as int));
        assert(all.take(i + 1).last() == piece@);
        if i == 0 {
            assert(all.take(1) =~= seq![piece@]);
            r = piece;
        } else {
            let with_sep = concat(&r, sep);
            r = concat(&with_sep, &piece);
        }
        i = i + 1;
    }
    assert(all.take(items@.len() as int) =~= all);
    r
}

/// The pieces of `items` with `sep` between each two of them.
pub fn join_chars(items: &Vec<Vec<char>>, sep: &[char]) -> (r: Vec<char>)
    ensures
        r@ == join_spec(views(items@), sep@),
{
    let ghost all = views(items@);
    let mut r: Vec<char> = Vec::new();
    let mut i: usize = 0;
    assert(all.take(0) =~= seq![]);
    while i < items.len()
        invariant
            i <= items@.len(),
            all == views(items@),
            r@ == join_spec(all.take(i as int), sep@),
        decreases items@.len() - i,
    {
        assert(all.take(i + 1).drop_last() =~= all.take(i as int));
        assert(all.take(i + 1).last() == items@[i as int]@);
        if i == 0 {
            assert(all.take(1) =~= seq![items@[0]@]);
            r = slice_range(&items[i], 0, items[i].len());
        } else {
            let with_sep = concat(&r, sep);
            r = concat(&with_sep, &items[i]);
        }
        i = i + 1;
    }
    assert(all.take(items@.len() as int) =~= all);
    r
}

// ---------------------------------------------------------------------------
// Case
// ---------------------------------------------------------------------------
/// What std's `str::to_lowercase` gives for the string `s`: each character
/// replaced by its Unicode lowercase mapping.
pub uninterp spec fn lowercase(s: Seq<char>) -> Seq<char>;

/// The lowercase form of `s` (`str::to_lowercase`), which depends on `s`
/// alone.
#[verifier::external_body]
pub(crate) fn to_lowercase(s: &str) -> (r: String)
    ensures
        r@ == lowercase(s@),
{
    s.to_lowercase()
}

/// `a` followed by `b`.
pub fn concat2(a: &str, b: &str) -> (r: String)
    ensures
        r@ == a@ + b@,
{
    let ca = chars_of(a);
    let cb = chars_of(b);
    let ab = concat(&ca, &cb);
    string_of(&ab)
}

/// `a`, `b` and `c` one after another.
pub fn concat3(a: &str, b: &str, c: &str) -> (r: String)
    ensures
        r@ == a@ + b@ + c@,
{
    let ab = concat2(a, b);
    concat2(ab.as_str(), c)
}

/// `a`, `b`, `c` and `d` one after another.
pub fn concat4(a: &str, b: &str, c: &str, d: &str) -> (r: String)
    ensures
        r@ == a@ + b@ + c@ + d@,
{
    let abc = concat3(a, b, c);
    concat2(abc.as_str(), d)
}

/// Whether two strings hold the same characters.
pub fn str_eq(a: &str, b: &str) -> (r: bool)
    ensures
        r == (a@ == b@),
{
    let ca = chars_of(a);
    let cb = chars_of(b);
    chars_eq(&ca, &cb)
}

// ---------------------------------------------------------------------------
// Decimal text of numbers
// ---------------------------------------------------------------------------
pub open spec fn digit_char(d: nat) -> char {
    ('0' as u8 + (d % 10) as u8) as char
}

/// The decimal digits of `n`, without leading zeros (`0` for zero), as
/// `n.to_string()` writes them.
pub open spec fn decimal_spec(n: nat) -> Seq<char>
    decreases n,
{
    if n < 10 {
        seq![digit_char(n)]
    } else {
        decimal_spec(n / 10).push(digit_char(n % 10))
    }
}

/// The decimal text of `n`.
pub fn decimal_text(n: u64) -> (r: String)
    ensures
        r@ == decimal_spec(n as nat),
{
    let mut digits: Vec<char> = Vec::new();
    let mut m: u64 = n;
    // Digits are collected last first, then reversed.
    loop
        invariant_except_break
            decimal_spec(n as nat) == decimal_spec(m as nat) + digits@.reverse(),
        ensures
            decimal_spec(n as nat) == digits@.reverse(),
        decreases m,
    {
        let d = (m % 10) as u8;
        let c = ('0' as u8 + d) as char;
        assert(c == digit_char(m as nat));
        if m < 10 {
            let ghost before = digits@;
            digits.push(c);
            assert(digits@.reverse() =~= seq![c] + before.reverse());
            assert(decimal_spec(m as nat) == seq![c]);
            assert(decimal_spec(n as nat) =~= digits@.reverse());
            break;
        }
        let ghost before = digits@;
        digits.push(c);
        assert(digits@.reverse() =~= seq![c] + before.reverse());
        assert(decimal_spec(m as nat) == decimal_spec((m / 10) as nat).push(c));
        assert(decimal_spec(m as nat) + before.reverse() =~= decimal_spec((m / 10) as nat) + (seq![c] + before.reverse()));
        m = m / 10;
    }
    let mut out: Vec<char> = Vec::new();
    let mut i: usize = digits.len();
    let ghost rev = digits@.reverse();
    while i > 0
        invariant
            i <= digits@.len(),
            rev == digits@.reverse(),
            out@ == rev.take(digits@.len() - i),
        decreases i,
    {
        i = i - 1;
        let ghost before = out@;
        out.push(digits[i]);
        assert(rev[digits@.len() - i - 1] == digits@[i as int]);
        assert(out@ =~= rev.take(digits@.len() - i));
    }
    assert(rev.take(rev.len() as int) =~= rev);
    string_of(&out)
}

// ---------------------------------------------------------------------------
// Octal text of numbers
// ---------------------------------------------------------------------------
pub open spec fn octal_digit(d: nat) -> char {
    ('0' as u8 + (d % 8) as u8) as char
}

/// The octal digits of `n`, without leading zeros (`0` for zero), as
/// `format!("{:o}", n)` writes them.
pub open spec fn octal_spec(n: nat) -> Seq<char>
    decreases n,
{
    if n < 8 {
        seq![octal_digit(n)]
    } else {
        octal_spec(n / 8).push(octal_digit(n % 8))
    }
}

/// The octal text of `n`.
pub fn octal_text(n: u32) -> (r: String)
    ensures
        r@ == octal_spec(n as nat),
{
    let mut digits: Vec<char> = Vec::new();
    let mut m: u32 = n;
    // Digits are collected last first, then reversed.
    loop
        invariant_except_break
            octal_spec(n as nat) == octal_spec(m as nat) + digits@.reverse(),
        ensures
            octal_spec(n as nat) == digits@.reverse(),
        decreases m,
    {
        let d = (m % 8) as u8;
        let c = ('0' as u8 + d) as char;
        assert(c == octal_digit(m as nat));
        if m < 8 {
            let ghost before = digits@;
            digits.push(c);
            assert(digits@.reverse() =~= seq![c] + before.reverse());
            assert(octal_spec(m as nat) == seq![c]);
            assert(octal_spec(n as nat) =~= digits@.reverse());
            break;
        }
        let ghost before = digits@;
        digits.push(c);
        assert(digits@.reverse() =~= seq![c] + before.reverse());
        assert(octal_spec(m as nat) == octal_spec((m / 8) as nat).push(c));
        assert(octal_spec(m as nat) + before.reverse() =~= octal_spec((m / 8) as nat) + (seq![c] + before.reverse()));
        m = m / 8;
    }
    let mut out: Vec<char> = Vec::new();
    let mut i: usize = digits.len();
    let ghost rev = digits@.reverse();
    while i > 0
        invariant
            i <= digits@.len(),
            rev == digits@.reverse(),
            out@ == rev.take(digits@.len() - i),
        decreases i,
    {
        i = i - 1;
        out.push(digits[i]);
        assert(rev[digits@.len() - i - 1] == digits@[i as int]);
        assert(out@ =~= rev.take(digits@.len() - i));
    }
    assert(rev.take(rev.len() as int) =~= rev);
    string_of(&out)
}

} // verus!

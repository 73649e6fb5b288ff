//! Character-level text handling: decimal numbers, trimming, prefix
//! stripping, searching, splitting and joining, all stated over the
//! character sequences that `String` and `&str` view to.
use vstd::prelude::*;

verus! {

// ---------------------------------------------------------------------------
// Specifications
// ---------------------------------------------------------------------------

/// The characters Unicode gives the `White_Space` property, which is what
/// `char::is_whitespace` (and so `str::trim`) tests.
pub open spec fn is_white_space(c: char) -> bool {
    ||| '\u{9}' <= c <= '\u{d}'
    ||| c == ' '
    ||| c == '\u{85}'
    ||| c == '\u{a0}'
    ||| c == '\u{1680}'
    ||| '\u{2000}' <= c <= '\u{200a}'
    ||| c == '\u{2028}'
    ||| c == '\u{2029}'
    ||| c == '\u{202f}'
    ||| c == '\u{205f}'
    ||| c == '\u{3000}'
}

/// Which characters a trim removes: white space, or one given character.
pub enum CharClass {
    WhiteSpace,
    Only(char),
}

pub open spec fn in_class(c: char, class: CharClass) -> bool {
    match class {
        CharClass::WhiteSpace => is_white_space(c),
        CharClass::Only(d) => c == d,
    }
}

/// `s` without its leading characters of `class`.
pub open spec fn trim_start(s: Seq<char>, class: CharClass) -> Seq<char>
    decreases s.len(),
{
    if s.len() > 0 && in_class(s[0], class) {
        trim_start(s.drop_first(), class)
    } else {
        s
    }
}

/// `s` without its trailing characters of `class`.
pub open spec fn trim_end(s: Seq<char>, class: CharClass) -> Seq<char>
    decreases s.len(),
{
    if s.len() > 0 && in_class(s.last(), class) {
        trim_end(s.drop_last(), class)
    } else {
        s
    }
}

/// `s` without leading and trailing characters of `class`.
pub open spec fn trim(s: Seq<char>, class: CharClass) -> Seq<char> {
    trim_end(trim_start(s, class), class)
}

/// `s` trimmed of white space on both sides, as `str::trim` does.
pub open spec fn trim_ws(s: Seq<char>) -> Seq<char> {
    trim(s, CharClass::WhiteSpace)
}

/// `p` stands in `s` at position `i`.
pub open spec fn occurs_at(s: Seq<char>, p: Seq<char>, i: int) -> bool {
    &&& 0 <= i
    &&& i + p.len() <= s.len()
    &&& s.subrange(i, i + p.len()) == p
}

/// The first position at or after `i` where `p` stands in `s`.
pub open spec fn first_occurrence_from(s: Seq<char>, p: Seq<char>, i: int) -> Option<int>
    decreases s.len() + 1 - i,
{
    if i < 0 || i + p.len() > s.len() {
        None
    } else if occurs_at(s, p, i) {
        Some(i)
    } else {
        first_occurrence_from(s, p, i + 1)
    }
}

/// The first position where `p` stands in `s`, if it does anywhere.
pub open spec fn first_occurrence(s: Seq<char>, p: Seq<char>) -> Option<int> {
    first_occurrence_from(s, p, 0)
}

/// `s` with the first occurrence of `p`, if any, replaced by `r`.
pub open spec fn replace_first(s: Seq<char>, p: Seq<char>, r: Seq<char>) -> Seq<char> {
    match first_occurrence(s, p) {
        Some(i) => s.take(i) + r + s.skip(i + p.len()),
        None => s,
    }
}

/// `s` after removing `p` from its front as long as it starts with `p`
/// (what `str::trim_start_matches` does with a string pattern).
pub open spec fn strip_prefix_repeated(s: Seq<char>, p: Seq<char>) -> Seq<char>
    decreases s.len(),
{
    if p.len() > 0 && occurs_at(s, p, 0) {
        strip_prefix_repeated(s.skip(p.len() as int), p)
    } else {
        s
    }
}

/// `s` with every occurrence of `c` removed.
pub open spec fn remove_char(s: Seq<char>, c: char) -> Seq<char>
    decreases s.len(),
{
    if s.len() == 0 {
        s
    } else if s.last() == c {
        remove_char(s.drop_last(), c)
    } else {
        remove_char(s.drop_last(), c).push(s.last())
    }
}

/// The pieces of `s` between occurrences of `sep`; never empty.
pub open spec fn split_on(s: Seq<char>, sep: char) -> Seq<Seq<char>>
    decreases s.len(),
{
    if s.len() == 0 {
        seq![Seq::<char>::empty()]
    } else {
        let prev = split_on(s.drop_last(), sep);
        if s.last() == sep {
            prev.push(Seq::<char>::empty())
        } else {
            prev.update(prev.len() - 1, prev.last().push(s.last()))
        }
    }
}

/// The pieces of `items` that are not empty, in order.
pub open spec fn non_empty(items: Seq<Seq<char>>) -> Seq<Seq<char>>
    decreases items.len(),
{
    if items.len() == 0 {
        items
    } else if items.last().len() == 0 {
        non_empty(items.drop_last())
    } else {
        non_empty(items.drop_last()).push(items.last())
    }
}

/// `items` joined with `sep` between each two neighbours.
pub open spec fn join(items: Seq<Seq<char>>, sep: Seq<char>) -> Seq<char>
    decreases items.len(),
{
    if items.len() == 0 {
        Seq::<char>::empty()
    } else if items.len() == 1 {
        items[0]
    } else {
        join(items.drop_last(), sep) + sep + items.last()
    }
}

/// The decimal digit for `d < 10`.
pub open spec fn digit(d: nat) -> char {
    (d + 48) as char
}

/// The decimal notation of `n`, without sign or leading zeros.
pub open spec fn decimal(n: nat) -> Seq<char>
    decreases n,
{
    if n < 10 {
        seq![digit(n)]
    } else {
        decimal(n / 10).push(digit(n % 10))
    }
}

/// The characters of each string of `v`.
pub open spec fn strings_view(v: Seq<String>) -> Seq<Seq<char>> {
    v.map_values(|s: String| s@)
}

// ---------------------------------------------------------------------------
// Conversions between strings and characters
// ---------------------------------------------------------------------------

/// Appends one character to a `String` (`String::push` from std).
#[verifier::external_body]
pub(crate) fn push_char(s: &mut String, c: char)
    ensures
        final(s)@ == old(s)@.push(c),
{
    s.push(c);
}

/// The characters of a string slice, in order.
pub fn chars_of(s: &str) -> (v: Vec<char>)
    ensures
        v@ == s@,
{
    let mut v: Vec<char> = Vec::new();
    for c in it: s.chars()
        invariant
            v@ == it.seq().take(it.index() as int),
            it.seq() == s@,
    {
        v.push(c);
    }
    v
}

/// Appends the characters `v` to `s`.
pub fn push_chars(s: &mut String, v: &Vec<char>)
    ensures
        final(s)@ == old(s)@ + v@,
{
    let n = v.len();
    for i in 0..n
        invariant
            n == v@.len(),
            s@ == old(s)@ + v@.take(i as int),
    {
        push_char(s, v[i]);
        assert(v@.take(i + 1) == v@.take(i as int).push(v@[i as int]));
    }
    assert(v@.take(n as int) == v@);
}

/// A `String` holding the characters `v`.
pub fn string_from_chars(v: &Vec<char>) -> (s: String)
    ensures
        s@ == v@,
{
    let mut s = String::new();
    push_chars(&mut s, v);
    s
}

/// A copy of the string slice as an owned `String`.
pub fn owned(s: &str) -> (r: String)
    ensures
        r@ == s@,
{
    s.to_owned()
}

// ---------------------------------------------------------------------------
// Numbers
// ---------------------------------------------------------------------------

/// Appends the decimal notation of `n` to `s`.
pub fn push_decimal(s: &mut String, n: u64)
    ensures
        final(s)@ == old(s)@ + decimal(n as nat),
    decreases n,
{
    if n >= 10 {
        push_decimal(s, n / 10);
    }
    let d = (n % 10) as u8;
    push_char(s, (d + 48u8) as char);
    assert(decimal(n as nat) == if n < 10 {
        seq![digit(n as nat)]
    } else {
        decimal((n / 10) as nat).push(digit((n % 10) as nat))
    });
}

// ---------------------------------------------------------------------------
// Character classes and trimming
// ---------------------------------------------------------------------------

/// Whether `c` has the Unicode `White_Space` property.
pub fn white_space(c: char) -> (b: bool)
    ensures
        b == is_white_space(c),
{
    ('\u{9}' <= c && c <= '\u{d}') || c == ' ' || c == '\u{85}' || c == '\u{a0}' || c == '\u{1680}'
        || ('\u{2000}' <= c && c <= '\u{200a}') || c == '\u{2028}' || c == '\u{2029}' || c
        == '\u{202f}' || c == '\u{205f}' || c == '\u{3000}'
}

fn is_in_class(c: char, class: &CharClass) -> (b: bool)
    ensures
        b == in_class(c, *class),
{
    match class {
        CharClass::WhiteSpace => white_space(c),
        CharClass::Only(d) => c == *d,
    }
}

proof fn lemma_trim_start_step(s: Seq<char>, i: int, class: CharClass)
    requires
        0 <= i < s.len(),
        in_class(s[i], class),
    ensures
        trim_start(s.skip(i), class) == trim_start(s.skip(i + 1), class),
{
    assert(s.skip(i).drop_first() =~= s.skip(i + 1));
}

proof fn lemma_trim_end_step(s: Seq<char>, j: int, class: CharClass)
    requires
        0 < j <= s.len(),
        in_class(s[j - 1], class),
    ensures
        trim_end(s.take(j), class) == trim_end(s.take(j - 1), class),
{
    assert(s.take(j).drop_last() =~= s.take(j - 1));
}

/// `v` trimmed of leading and trailing characters of `class`.
pub fn trim_chars(v: &Vec<char>, class: CharClass) -> (r: Vec<char>)
    ensures
        r@ == trim(v@, class),
{
    let n = v.len();
    let mut i: usize = 0;
    assert(v@.skip(0) =~= v@);
    while i < n && is_in_class(v[i], &class)
        invariant
            n == v@.len(),
            i <= n,
            trim_start(v@, class) == trim_start(v@.skip(i as int), class),
        decreases n - i,
    {
        proof {
            lemma_trim_start_step(v@, i as int, class);
        }
        i = i + 1;
    }
    let ghost t = v@.skip(i as int);
    assert(trim_start(v@, class) == t);
    let mut j: usize = n;
    assert(t.take((n - i) as int) =~= t);
    while j > i && is_in_class(v[j - 1], &class)
        invariant
            n == v@.len(),
            i <= j <= n,
            t == v@.skip(i as int),
            trim_end(t, class) == trim_end(t.take(j - i), class),
        decreases j,
    {
        proof {
            lemma_trim_end_step(t, j - i, class);
        }
        j = j - 1;
    }
    let mut r: Vec<char> = Vec::new();
    let mut k: usize = i;
    while k < j
        invariant
            n == v@.len(),
            i <= k <= j <= n,
            r@ == v@.subrange(i as int, k as int),
        decreases j - k,
    {
        r.push(v[k]);
        assert(v@.subrange(i as int, k + 1) == v@.subrange(i as int, k as int).push(v@[k as int]));
        k = k + 1;
    }
    assert(t.take(j - i) =~= v@.subrange(i as int, j as int));
    r
}

// ---------------------------------------------------------------------------
// Searching
// ---------------------------------------------------------------------------

/// Whether `p` stands in `s` at position `i`.
pub fn matches_at(s: &Vec<char>, p: &Vec<char>, i: usize) -> (b: bool)
    ensures
        b == occurs_at(s@, p@, i as int),
{
    if p.len() > s.len() || i > s.len() - p.len() {
        return false;
    }
    let m = p.len();
    let mut k: usize = 0;
    while k < m
        invariant
            m == p@.len(),
            i + m <= s.len(),
            k <= m,
            forall|t: int| 0 <= t < k ==> s@[i + t] == p@[t],
        decreases m - k,
    {
        if s[i + k] != p[k] {
            assert(s@.subrange(i as int, i + m)[k as int] != p@[k as int]);
            return false;
        }
        k = k + 1;
    }
    assert(s@.subrange(i as int, i + m) =~= p@);
    true
}

/// The first position at which `p` stands in `s`, if any.
pub fn find_first(s: &Vec<char>, p: &Vec<char>) -> (r: Option<usize>)
    ensures
        r matches Some(i) ==> first_occurrence(s@, p@) == Some(i as int),
        r is None ==> first_occurrence(s@, p@) is None,
{
    if p.len() > s.len() {
        return None;
    }
    let last = s.len() - p.len();
    let mut i: usize = 0;
    loop
        invariant
            last + p@.len() == s@.len(),
            i <= last,
            first_occurrence(s@, p@) == first_occurrence_from(s@, p@, i as int),
        decreases last - i,
    {
        if matches_at(s, p, i) {
            return Some(i);
        }
        if i == last {
            assert(first_occurrence_from(s@, p@, i + 1) is None);
            return None;
        }
        i = i + 1;
    }
}

/// Appends the characters of `s` from position `from` (inclusive) to `to`
/// (exclusive) to `out`.
pub fn push_range(out: &mut Vec<char>, s: &Vec<char>, from: usize, to: usize)
    requires
        from <= to <= s@.len(),
    ensures
        final(out)@ == old(out)@ + s@.subrange(from as int, to as int),
{
    let mut k: usize = from;
    while k < to
        invariant
            from <= k <= to <= s@.len(),
            out@ == old(out)@ + s@.subrange(from as int, k as int),
        decreases to - k,
    {
        out.push(s[k]);
        assert(s@.subrange(from as int, k + 1) == s@.subrange(from as int, k as int).push(
            s@[k as int],
        ));
        k = k + 1;
    }
}

/// `s` with the first occurrence of `p` replaced by `r` (unchanged when `p`
/// does not occur).
pub fn replace_first_chars(s: &Vec<char>, p: &Vec<char>, r: &Vec<char>) -> (out: Vec<char>)
    ensures
        out@ == replace_first(s@, p@, r@),
{
    match find_first(s, p) {
        Some(i) => {
            proof {
                lemma_first_occurrence_is_occurrence(s@, p@, 0);
            }
            assert(occurs_at(s@, p@, i as int));
            assert(i + p@.len() <= s@.len());
            assert(i + p.len() <= s.len());
            let mut out: Vec<char> = Vec::new();
            push_range(&mut out, s, 0, i);
            push_range(&mut out, r, 0, r.len());
            push_range(&mut out, s, i + p.len(), s.len());
            assert(s@.take(i as int) =~= s@.subrange(0, i as int));
            assert(r@ =~= r@.subrange(0, r@.len() as int));
            assert(s@.skip(i + p@.len()) =~= s@.subrange(i + p@.len(), s@.len() as int));
            out
        },
        None => {
            let mut out: Vec<char> = Vec::new();
            push_range(&mut out, s, 0, s.len());
            assert(s@ =~= s@.subrange(0, s@.len() as int));
            out
        },
    }
}

/// A position found from `i` is an occurrence at or after `i`, and `p` stands
/// nowhere between `i` and it.
pub proof fn lemma_first_occurrence_is_occurrence(s: Seq<char>, p: Seq<char>, i: int)
    ensures
        first_occurrence_from(s, p, i) matches Some(k) ==> {
            &&& i <= k
            &&& occurs_at(s, p, k)
            &&& forall|j: int| i <= j < k ==> !occurs_at(s, p, j)
        },
        first_occurrence_from(s, p, i) is None ==> forall|j: int|
            i <= j && 0 <= i ==> !occurs_at(s, p, j),
    decreases s.len() + 1 - i,
{
    if i < 0 || i + p.len() > s.len() {
    } else if occurs_at(s, p, i) {
    } else {
        lemma_first_occurrence_is_occurrence(s, p, i + 1);
    }
}

/// `s` with the prefix `p` removed from its front as often as it stands there.
pub fn strip_prefix_chars(s: &Vec<char>, p: &Vec<char>) -> (r: Vec<char>)
    ensures
        r@ == strip_prefix_repeated(s@, p@),
{
    let n = s.len();
    let m = p.len();
    let mut i: usize = 0;
    assert(s@.skip(0) =~= s@);
    while m > 0 && matches_at(s, p, i)
        invariant
            n == s@.len(),
            m == p@.len(),
            i <= n,
            strip_prefix_repeated(s@, p@) == strip_prefix_repeated(s@.skip(i as int), p@),
        decreases n - i,
    {
        proof {
            let t = s@.skip(i as int);
            assert(t.subrange(0, m as int) =~= s@.subrange(i as int, i + m));
            assert(t.skip(m as int) =~= s@.skip(i + m));
        }
        i = i + m;
    }
    proof {
        let t = s@.skip(i as int);
        if m > 0 && occurs_at(t, p@, 0) {
            assert(t.subrange(0, m as int) =~= s@.subrange(i as int, i + m));
        }
    }
    let mut r: Vec<char> = Vec::new();
    push_range(&mut r, s, i, n);
    assert(s@.skip(i as int) =~= s@.subrange(i as int, n as int));
    r
}

/// `s` with every `c` removed.
pub fn remove_char_chars(s: &Vec<char>, c: char) -> (r: Vec<char>)
    ensures
        r@ == remove_char(s@, c),
{
    let n = s.len();
    let mut r: Vec<char> = Vec::new();
    for i in 0..n
        invariant
            n == s@.len(),
            r@ == remove_char(s@.take(i as int), c),
    {
        assert(s@.take(i + 1).drop_last() =~= s@.take(i as int));
        if s[i] != c {
            r.push(s[i]);
        }
    }
    assert(s@.take(n as int) =~= s@);
    r
}

// ---------------------------------------------------------------------------
// Splitting and joining
// ---------------------------------------------------------------------------

/// The pieces of `s` between occurrences of `sep`.
pub fn split_chars(s: &Vec<char>, sep: char) -> (pieces: Vec<Vec<char>>)
    ensures
        pieces@.map_values(|p: Vec<char>| p@) == split_on(s@, sep),
{
    let n = s.len();
    let mut pieces: Vec<Vec<char>> = Vec::new();
    let mut cur: Vec<char> = Vec::new();
    for i in 0..n
        invariant
            n == s@.len(),
            pieces@.map_values(|p: Vec<char>| p@).push(cur@) == split_on(s@.take(i as int), sep),
    {
        let ghost prev = pieces@.map_values(|p: Vec<char>| p@).push(cur@);
        assert(s@.take(i + 1).drop_last() =~= s@.take(i as int));
        if s[i] == sep {
            let done = cur;
            pieces.push(done);
            cur = Vec::new();
            assert(pieces@.map_values(|p: Vec<char>| p@).push(cur@) =~= prev.push(
                Seq::<char>::empty(),
            ));
        } else {
            cur.push(s[i]);
            assert(pieces@.map_values(|p: Vec<char>| p@).push(cur@) =~= prev.update(
                prev.len() - 1,
                prev.last().push(s@[i as int]),
            ));
        }
    }
    assert(s@.take(n as int) =~= s@);
    pieces.push(cur);
    assert(pieces@.map_values(|p: Vec<char>| p@) =~= split_on(s@, sep));
    pieces
}

/// The strings `items` joined by `sep`.
pub fn join_strings(items: &Vec<String>, sep: &str) -> (r: String)
    ensures
        r@ == join(strings_view(items@), sep@),
{
    let n = items.len();
    let mut r = String::new();
    for i in 0..n
        invariant
            n == items@.len(),
            r@ == join(strings_view(items@).take(i as int), sep@),
    {
        let ghost views = strings_view(items@);
        assert(views.take(i + 1).drop_last() =~= views.take(i as int));
        if i > 0 {
            r.append(sep);
        }
        r.append(items[i].as_str());
        assert(views.take(i + 1).last() == items@[i as int]@);
        proof {
            if i == 0 {
                assert(views.take(1)[0] == items@[0]@);
                assert(Seq::<char>::empty() + items@[0]@ =~= items@[0]@);
            }
        }
    }
    assert(strings_view(items@).take(n as int) =~= strings_view(items@));
    r
}

} // verus!

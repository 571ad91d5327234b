//! Text as sequences of Unicode scalar values.
use vstd::prelude::*;

verus! {

/// Appends one character, as `String::push` does.
pub assume_specification[ String::push ](s: &mut String, c: char)
    ensures
        final(s)@ == old(s)@.push(c),
;

/// Whether `c` has the Unicode property White_Space.
pub open spec fn is_space(c: char) -> bool {
    ||| '\u{9}' <= c <= '\u{d}'
    ||| c == ' '
    ||| c == '\u{85}'
    ||| c == '\u{a0}'
    ||| c == '\u{1680}'
    ||| '\u{2000}' <= c <= '\u{200a}'
    ||| c == '\u{2028}'
    ||| c == '\u{2029}'
    ||| c == '\u{202f}'
    ||| c == '\u{205f}'
    ||| c == '\u{3000}'
}

/// Decides [`is_space`].
pub fn space(c: char) -> (r: bool)
    ensures
        r == is_space(c),
{
    ('\u{9}' <= c && c <= '\u{d}') || c == ' ' || c == '\u{85}' || c == '\u{a0}' || c == '\u{1680}' || ('\u{2000}'
        <= c && c <= '\u{200a}') || c == '\u{2028}' || c == '\u{2029}' || c == '\u{202f}' || c == '\u{205f}' || c
        == '\u{3000}'
}

/// The characters of `s`, in order.
pub fn chars_of(s: &str) -> (r: Vec<char>)
    ensures
        r@ == s@,
{
    let mut r: Vec<char> = Vec::new();
    for c in it: s.chars()
        invariant
            r@ == it.seq().take(it.index() as int),
            it.seq() == s@,
    {
        r.push(c);
    }
    r
}

/// The text made of the given characters.
pub fn text_of(chars: &[char]) -> (r: String)
    ensures
        r@ == chars@,
{
    let mut r = String::new();
    let n: usize = chars.len();
    let mut i: usize = 0;
    while i < n
        invariant
            i <= n == chars@.len(),
            r@ == chars@.take(i as int),
        decreases n - i,
    {
        r.push(chars[i]);
        i += 1;
    }
    assert(chars@.take(n as int) =~= chars@);
    r
}

/// The view of what an optional value holds.
pub open spec fn opt_view<T: View>(o: Option<T>) -> Option<T::V> {
    match o {
        Some(x) => Some(x@),
        None => None,
    }
}

/// The views of a sequence's elements.
pub open spec fn views<T: View>(s: Seq<T>) -> Seq<T::V> {
    Seq::new(s.len(), |i: int| s[i]@)
}

/// Compares two texts.
pub fn same(a: &str, b: &str) -> (r: bool)
    ensures
        r == (a@ == b@),
{
    let x = a.as_bytes();
    let y = b.as_bytes();
    let n: usize = x.len();
    if n != y.len() {
        return false;
    }
    let mut i: usize = 0;
    while i < n
        invariant
            i <= n == x@.len() == y@.len(),
            x@ == vstd::utf8::encode_utf8(a@),
            y@ == vstd::utf8::encode_utf8(b@),
            forall|k: int| 0 <= k < i ==> x@[k] == y@[k],
        decreases n - i,
    {
        if x[i] != y[i] {
            return false;
        }
        i += 1;
    }
    proof {
        assert(x@ =~= y@);
        vstd::utf8::encode_utf8_decode_utf8(a@);
        vstd::utf8::encode_utf8_decode_utf8(b@);
    }
    true
}

/// Compares two optional texts.
pub fn same_opt(a: Option<&str>, b: Option<&str>) -> (r: bool)
    ensures
        r == (opt_view(a) == opt_view(b)),
{
    match (a, b) {
        (Some(x), Some(y)) => same(x, y),
        (None, None) => true,
        _ => false,
    }
}

/// Borrows the text inside an option.
pub fn as_text(o: &Option<String>) -> (r: Option<&str>)
    ensures
        opt_view(r) == opt_view(*o),
{
    match o {
        Some(s) => Some(s.as_str()),
        None => None,
    }
}

/// An owned copy of an optional text.
pub fn to_owned_opt(o: Option<&str>) -> (r: Option<String>)
    ensures
        opt_view(r) == opt_view(o),
{
    match o {
        Some(s) => Some(s.to_owned()),
        None => None,
    }
}

/// A copy of an optional text.
pub fn copy_opt(o: &Option<String>) -> (r: Option<String>)
    ensures
        opt_view(r) == opt_view(*o),
{
    match o {
        Some(s) => Some(s.clone()),
        None => None,
    }
}

/// A copy of a list of texts.
pub fn copy_texts(v: &Vec<String>) -> (r: Vec<String>)
    ensures
        views(r@) == views(v@),
{
    let mut r: Vec<String> = Vec::new();
    let mut i: usize = 0;
    while i < v.len()
        invariant
            i <= v@.len(),
            r@.len() == i,
            forall|k: int| 0 <= k < i ==> #[trigger] r@[k]@ == v@[k]@,
        decreases v@.len() - i,
    {
        r.push(v[i].clone());
        i += 1;
    }
    assert(views(r@) =~= views(v@));
    r
}

// ---------------------------------------------------------------------
// Trimming
// ---------------------------------------------------------------------

/// `s` without its leading whitespace.
pub open spec fn trimmed_start(s: Seq<char>) -> Seq<char>
    decreases s.len(),
{
    if s.len() > 0 && is_space(s[0]) {
        trimmed_start(s.drop_first())
    } else {
        s
    }
}

/// `s` without its trailing whitespace.
pub open spec fn trimmed_end(s: Seq<char>) -> Seq<char>
    decreases s.len(),
{
    if s.len() > 0 && is_space(s.last()) {
        trimmed_end(s.drop_last())
    } else {
        s
    }
}

/// `s` without leading and trailing whitespace.
pub open spec fn trimmed(s: Seq<char>) -> Seq<char> {
    trimmed_end(trimmed_start(s))
}

/// `s` without its trailing characters out of `set`.
pub open spec fn trimmed_end_of(s: Seq<char>, set: Seq<char>) -> Seq<char>
    decreases s.len(),
{
    if s.len() > 0 && set.contains(s.last()) {
        trimmed_end_of(s.drop_last(), set)
    } else {
        s
    }
}

proof fn lemma_trimmed_end_shape(s: Seq<char>)
    ensures
        trimmed_end(s).len() <= s.len(),
        trimmed_end(s) == s.take(trimmed_end(s).len() as int),
        trimmed_end(s).len() > 0 ==> !is_space(trimmed_end(s).last()),
    decreases s.len(),
{
    if s.len() > 0 && is_space(s.last()) {
        lemma_trimmed_end_shape(s.drop_last());
        let t = trimmed_end(s.drop_last());
        assert(s.drop_last().take(t.len() as int) =~= s.take(t.len() as int));
    } else {
        assert(s.take(s.len() as int) =~= s);
    }
}

/// A trimmed text neither begins nor ends with whitespace.
pub proof fn lemma_trimmed_shape(s: Seq<char>)
    ensures
        trimmed(s).len() <= s.len(),
        trimmed(s).len() > 0 ==> !is_space(trimmed(s)[0]) && !is_space(trimmed(s).last()),
{
    lemma_trimmed_start_len(s);
    lemma_trimmed_end_shape(trimmed_start(s));
}

/// Trimming a second time changes nothing.
pub proof fn law_trim_is_idempotent(s: Seq<char>)
    ensures
        trimmed(trimmed(s)) == trimmed(s),
{
    lemma_trimmed_shape(s);
}

/// Whether nothing but whitespace is in `s`.
pub open spec fn blank(s: Seq<char>) -> bool {
    trimmed(s).len() == 0
}

/// The first position at or after `from` that holds no whitespace.
fn skip_space(chars: &[char], from: usize) -> (r: usize)
    requires
        from <= chars@.len(),
    ensures
        from <= r <= chars@.len(),
        forall|k: int| from <= k < r ==> is_space(#[trigger] chars@[k]),
        r < chars@.len() ==> !is_space(chars@[r as int]),
        trimmed_start(chars@.skip(from as int)) == chars@.skip(r as int),
{
    let mut i: usize = from;
    while i < chars.len() && space(chars[i])
        invariant
            from <= i <= chars@.len(),
            forall|k: int| from <= k < i ==> is_space(#[trigger] chars@[k]),
            trimmed_start(chars@.skip(from as int)) == trimmed_start(chars@.skip(i as int)),
        decreases chars@.len() - i,
    {
        assert(chars@.skip(i as int).drop_first() =~= chars@.skip(i + 1));
        i += 1;
    }
    i
}

/// Removes leading and trailing whitespace.
pub fn trim(s: &str) -> (r: &str)
    ensures
        r@ == trimmed(s@),
{
    let chars = chars_of(s);
    let from: usize = skip_space(chars.as_slice(), 0);
    let mut to: usize = chars.len();
    assert(s@.skip(0) =~= s@);
    assert(s@.skip(from as int) =~= s@.subrange(from as int, to as int));
    while from < to && space(chars[to - 1])
        invariant
            from <= to <= chars@.len(),
            chars@ == s@,
            trimmed(s@) == trimmed_end(s@.subrange(from as int, to as int)),
        decreases to - from,
    {
        assert(s@.subrange(from as int, to as int).drop_last() =~= s@.subrange(from as int, to - 1));
        to -= 1;
    }
    s.substring_char(from, to)
}

/// Whether `c` is one of `set`.
pub fn one_of(c: char, set: &[char]) -> (r: bool)
    ensures
        r == set@.contains(c),
{
    let mut i: usize = 0;
    while i < set.len()
        invariant
            i <= set@.len(),
            forall|k: int| 0 <= k < i ==> set@[k] != c,
        decreases set@.len() - i,
    {
        if set[i] == c {
            return true;
        }
        i += 1;
    }
    false
}

/// Removes trailing characters out of `set`.
pub fn trim_end_of<'a>(s: &'a str, set: &[char]) -> (r: &'a str)
    ensures
        r@ == trimmed_end_of(s@, set@),
{
    let chars = chars_of(s);
    let mut to: usize = chars.len();
    assert(s@.subrange(0, to as int) =~= s@);
    while 0 < to && one_of(chars[to - 1], set)
        invariant
            to <= chars@.len(),
            chars@ == s@,
            trimmed_end_of(s@, set@) == trimmed_end_of(s@.subrange(0, to as int), set@),
        decreases to,
    {
        assert(s@.subrange(0, to as int).drop_last() =~= s@.subrange(0, to - 1));
        to -= 1;
    }
    s.substring_char(0, to)
}

/// Whether the text is blank.
pub fn is_blank(s: &str) -> (r: bool)
    ensures
        r == blank(s@),
{
    trim(s).is_empty()
}

// ---------------------------------------------------------------------
// Prefixes, suffixes, occurrences
// ---------------------------------------------------------------------

/// Whether `s` begins with `p`.
pub open spec fn has_prefix(s: Seq<char>, p: Seq<char>) -> bool {
    p.len() <= s.len() && s.take(p.len() as int) == p
}

/// Whether `s` ends with `p`.
pub open spec fn has_suffix(s: Seq<char>, p: Seq<char>) -> bool {
    p.len() <= s.len() && s.skip(s.len() - p.len()) == p
}

/// Whether `p` stands in `s` at position `i`.
pub open spec fn occurs_at(s: Seq<char>, p: Seq<char>, i: int) -> bool {
    0 <= i && i + p.len() <= s.len() && s.subrange(i, i + p.len()) == p
}

/// Whether `p` stands somewhere in `s`.
pub open spec fn has_text(s: Seq<char>, p: Seq<char>) -> bool {
    exists|i: int| occurs_at(s, p, i)
}

/// Whether `p` stands in `s` at position `i`.
pub fn occurs(s: &[char], p: &[char], i: usize) -> (r: bool)
    requires
        i <= s@.len(),
    ensures
        r == occurs_at(s@, p@, i as int),
{
    let n: usize = s.len();
    if p.len() > n - i {
        return false;
    }
    let mut k: usize = 0;
    while k < p.len()
        invariant
            k <= p@.len(),
            i + p@.len() <= s@.len() == n,
            forall|j: int| 0 <= j < k ==> s@[i + j] == #[trigger] p@[j],
        decreases p@.len() - k,
    {
        if s[i + k] != p[k] {
            assert(s@.subrange(i as int, i + p@.len())[k as int] != p@[k as int]);
            return false;
        }
        k += 1;
    }
    assert(s@.subrange(i as int, i + p@.len()) =~= p@);
    true
}

/// Whether `s` begins with `p`.
pub fn starts_with(s: &str, p: &str) -> (r: bool)
    ensures
        r == has_prefix(s@, p@),
{
    let sc = chars_of(s);
    let pc = chars_of(p);
    let r = occurs(sc.as_slice(), pc.as_slice(), 0);
    assert(p@.len() <= s@.len() ==> s@.subrange(0, p@.len() as int) =~= s@.take(p@.len() as int));
    r
}

/// Whether `s` ends with `p`.
pub fn ends_with(s: &str, p: &str) -> (r: bool)
    ensures
        r == has_suffix(s@, p@),
{
    let sc = chars_of(s);
    let pc = chars_of(p);
    if pc.len() > sc.len() {
        return false;
    }
    let at: usize = sc.len() - pc.len();
    let r = occurs(sc.as_slice(), pc.as_slice(), at);
    assert(s@.subrange(at as int, at + p@.len()) =~= s@.skip(at as int));
    r
}

/// What follows the prefix `p`, if `s` begins with it.
pub fn strip_prefix<'a>(s: &'a str, p: &str) -> (r: Option<&'a str>)
    ensures
        opt_view(r) == if has_prefix(s@, p@) {
            Some(s@.skip(p@.len() as int))
        } else {
            None
        },
{
    if starts_with(s, p) {
        let n: usize = s.unicode_len();
        let k: usize = p.unicode_len();
        assert(s@.subrange(k as int, n as int) =~= s@.skip(k as int));
        Some(s.substring_char(k, n))
    } else {
        None
    }
}

/// What precedes the suffix `p`, if `s` ends with it.
pub fn strip_suffix<'a>(s: &'a str, p: &str) -> (r: Option<&'a str>)
    ensures
        opt_view(r) == if has_suffix(s@, p@) {
            Some(s@.take(s@.len() - p@.len()))
        } else {
            None
        },
{
    if ends_with(s, p) {
        let n: usize = s.unicode_len();
        let k: usize = p.unicode_len();
        assert(s@.subrange(0, n - k) =~= s@.take(n - k));
        Some(s.substring_char(0, n - k))
    } else {
        None
    }
}

/// The first position at or after `from` where `p` stands in `s`.
pub fn find_from(s: &[char], p: &[char], from: usize) -> (r: Option<usize>)
    requires
        from <= s@.len(),
    ensures
        match r {
            Some(i) => from <= i && occurs_at(s@, p@, i as int) && forall|k: int|
                from <= k < i ==> !occurs_at(s@, p@, k),
            None => forall|k: int| from <= k ==> !occurs_at(s@, p@, k),
        },
{
    let mut i: usize = from;
    while i < s.len()
        invariant
            from <= i <= s@.len(),
            forall|k: int| from <= k < i ==> !occurs_at(s@, p@, k),
        decreases s@.len() - i,
    {
        if occurs(s, p, i) {
            return Some(i);
        }
        i += 1;
    }
    if occurs(s, p, i) {
        Some(i)
    } else {
        None
    }
}

/// Whether `p` stands somewhere in `s`.
pub fn contains(s: &str, p: &str) -> (r: bool)
    ensures
        r == has_text(s@, p@),
{
    let sc = chars_of(s);
    let pc = chars_of(p);
    match find_from(sc.as_slice(), pc.as_slice(), 0) {
        Some(_) => true,
        None => {
            assert forall|i: int| !occurs_at(s@, p@, i) by {
                if i < 0 {
                }
            }
            false
        },
    }
}

// ---------------------------------------------------------------------
// Splitting and joining
// ---------------------------------------------------------------------

/// How many characters of `s` come before its first whitespace.
pub open spec fn lead(s: Seq<char>) -> nat
    decreases s.len(),
{
    if s.len() > 0 && !is_space(s[0]) {
        1 + lead(s.drop_first())
    } else {
        0
    }
}

/// The parts of `s` before and after its first whitespace character.
pub open spec fn cut_at_space(s: Seq<char>) -> (Seq<char>, Option<Seq<char>>) {
    let k = lead(s);
    if k < s.len() {
        (s.take(k as int), Some(s.skip(k as int + 1)))
    } else {
        (s, None)
    }
}

/// The maximal runs of characters that are not whitespace.
pub open spec fn words(s: Seq<char>) -> Seq<Seq<char>>
    decreases s.len(),
{
    let t = trimmed_start(s);
    if t.len() == 0 {
        Seq::empty()
    } else {
        proof {
            lemma_trimmed_start_len(s);
            lemma_lead_bound(t);
        }
        seq![t.take(lead(t) as int)] + words(t.skip(lead(t) as int))
    }
}

pub proof fn lemma_lead_bound(s: Seq<char>)
    ensures
        lead(s) <= s.len(),
        forall|k: int| 0 <= k < lead(s) ==> !is_space(#[trigger] s[k]),
        lead(s) < s.len() ==> is_space(s[lead(s) as int]),
    decreases s.len(),
{
    if s.len() > 0 && !is_space(s[0]) {
        lemma_lead_bound(s.drop_first());
        assert forall|k: int| 0 <= k < lead(s) implies !is_space(#[trigger] s[k]) by {
            if k > 0 {
                assert(s.drop_first()[k - 1] == s[k]);
            }
        }
    }
}

pub proof fn lemma_trimmed_start_len(s: Seq<char>)
    ensures
        trimmed_start(s).len() <= s.len(),
        trimmed_start(s).len() > 0 ==> !is_space(trimmed_start(s)[0]),
    decreases s.len(),
{
    if s.len() > 0 && is_space(s[0]) {
        lemma_trimmed_start_len(s.drop_first());
    }
}

/// The first position at or after `from` that holds whitespace.
fn skip_word(chars: &[char], from: usize) -> (r: usize)
    requires
        from <= chars@.len(),
    ensures
        from <= r <= chars@.len(),
        r == from + lead(chars@.skip(from as int)),
{
    let mut i: usize = from;
    while i < chars.len() && !space(chars[i])
        invariant
            from <= i <= chars@.len(),
            from + lead(chars@.skip(from as int)) == i + lead(chars@.skip(i as int)),
        decreases chars@.len() - i,
    {
        assert(chars@.skip(i as int).drop_first() =~= chars@.skip(i + 1));
        i += 1;
    }
    i
}

/// Splits a text at its first whitespace character.
pub fn split_space(s: &str) -> (r: (&str, Option<&str>))
    ensures
        (r.0@, opt_view(r.1)) == cut_at_space(s@),
{
    let chars = chars_of(s);
    let k: usize = skip_word(chars.as_slice(), 0);
    assert(s@.skip(0) =~= s@);
    if k < chars.len() {
        assert(s@.subrange(0, k as int) =~= s@.take(k as int));
        assert(s@.subrange(k + 1, s@.len() as int) =~= s@.skip(k + 1));
        (s.substring_char(0, k), Some(s.substring_char(k + 1, chars.len())))
    } else {
        (s, None)
    }
}

/// Splits a text into its words.
pub fn split_words(s: &str) -> (r: Vec<String>)
    ensures
        views(r@) == words(s@),
{
    let chars = chars_of(s);
    let n: usize = chars.len();
    let mut r: Vec<String> = Vec::new();
    let mut at: usize = 0;
    assert(s@.skip(0) =~= s@);
    assert(views(r@) + words(s@) =~= words(s@));
    loop
        invariant
            at <= n == chars@.len(),
            chars@ == s@,
            views(r@) + words(s@.skip(at as int)) == words(s@),
        ensures
            views(r@) == words(s@),
        decreases n - at,
    {
        let ghost rest = s@.skip(at as int);
        let from: usize = skip_space(chars.as_slice(), at);
        proof {
            lemma_trimmed_start_len(rest);
        }
        if from == n {
            assert(views(r@) + words(rest) =~= views(r@));
            break ;
        }
        let to: usize = skip_word(chars.as_slice(), from);
        let ghost t = s@.skip(from as int);
        let word = text_of(vstd::slice::slice_subrange(chars.as_slice(), from, to));
        proof {
            lemma_lead_bound(t);
            assert(lead(t) == to - from);
            assert(!is_space(t[0]));
            assert(lead(t) > 0);
            assert(word@ =~= t.take(to - from));
            assert(t.skip(to - from) =~= s@.skip(to as int));
            assert(words(rest) == seq![word@] + words(s@.skip(to as int)));
        }
        let ghost before = views(r@);
        r.push(word);
        proof {
            assert(views(r@) =~= before.push(word@));
            assert(before + (seq![word@] + words(s@.skip(to as int))) =~= before.push(word@) + words(
                s@.skip(to as int),
            ));
        }
        at = to;
    }
    r
}

/// The texts of `parts` in order, with `sep` between each two of them.
pub open spec fn joined(parts: Seq<Seq<char>>, sep: Seq<char>) -> Seq<char>
    decreases parts.len(),
{
    if parts.len() == 0 {
        Seq::empty()
    } else if parts.len() == 1 {
        parts[0]
    } else {
        joined(parts.drop_last(), sep) + sep + parts.last()
    }
}

/// Joins texts with a separator.
pub fn join(parts: &Vec<String>, sep: &str) -> (r: String)
    ensures
        r@ == joined(views(parts@), sep@),
{
    let mut r = String::new();
    let mut i: usize = 0;
    while i < parts.len()
        invariant
            i <= parts@.len(),
            r@ == joined(views(parts@).take(i as int), sep@),
        decreases parts@.len() - i,
    {
        proof {
            let next = views(parts@).take(i + 1);
            assert(next.drop_last() =~= views(parts@).take(i as int));
            assert(next.last() == parts@[i as int]@);
        }
        if i > 0 {
            r.append(sep);
        }
        r.append(parts[i].as_str());
        i += 1;
    }
    assert(views(parts@).take(i as int) =~= views(parts@));
    r
}

// ---------------------------------------------------------------------
// Letter case
// ---------------------------------------------------------------------

/// `c` with an ASCII capital letter made small.
pub open spec fn ascii_small(c: char) -> char {
    if 'A' <= c <= 'Z' {
        ((c as u8) + 32) as char
    } else {
        c
    }
}

/// `s` with each ASCII capital letter made small.
pub open spec fn ascii_lowered(s: Seq<char>) -> Seq<char> {
    s.map_values(|c: char| ascii_small(c))
}

/// Makes ASCII capital letters small.
pub fn ascii_lower(s: &str) -> (r: String)
    ensures
        r@ == ascii_lowered(s@),
{
    let chars = chars_of(s);
    let mut r = String::new();
    let mut i: usize = 0;
    while i < chars.len()
        invariant
            i <= chars@.len(),
            chars@ == s@,
            r@ == ascii_lowered(s@).take(i as int),
        decreases chars@.len() - i,
    {
        let c: char = chars[i];
        if 'A' <= c && c <= 'Z' {
            r.push((c as u8 + 32) as char);
        } else {
            r.push(c);
        }
        i += 1;
        assert(r@ =~= ascii_lowered(s@).take(i as int));
    }
    assert(ascii_lowered(s@).take(i as int) =~= ascii_lowered(s@));
    r
}

/// Compares two texts, taking ASCII letters as equal whatever their case.
pub fn same_ignoring_ascii_case(a: &str, b: &str) -> (r: bool)
    ensures
        r == (ascii_lowered(a@) == ascii_lowered(b@)),
{
    ascii_lower(a) == ascii_lower(b)
}

/// The lowercase equivalent of a text, as `str::to_lowercase` gives it.
pub uninterp spec fn lowercase(s: Seq<char>) -> Seq<char>;

/// Calls `str::to_lowercase`. The result depends on the text alone; what it is for a
/// given text is left to the Unicode tables that come with `std`.
#[verifier::external_body]
pub(crate) fn to_lowercase(s: &str) -> (r: String)
    ensures
        r@ == lowercase(s@),
{
    s.to_lowercase()
}

// ---------------------------------------------------------------------
// Numbers
// ---------------------------------------------------------------------

/// The decimal digit of value `d`.
pub open spec fn digit(d: nat) -> char {
    (('0' as u8) + d) as char
}

/// The decimal notation of `n`.
pub open spec fn decimal(n: nat) -> Seq<char>
    decreases n,
{
    if n < 10 {
        seq![digit(n)]
    } else {
        decimal(n / 10).push(digit(n % 10))
    }
}

/// Writes a number in decimal notation.
pub fn decimal_text(n: u64) -> (r: String)
    ensures
        r@ == decimal(n as nat),
    decreases n,
{
    if n < 10 {
        let mut r = String::new();
        r.push((48 + n as u8) as char);
        assert(r@ =~= decimal(n as nat));
        r
    } else {
        let mut r = decimal_text(n / 10);
        r.push((48 + (n % 10) as u8) as char);
        r
    }
}

/// How many bytes the UTF-8 encoding of `c` takes.
pub open spec fn char_width(c: char) -> nat {
    if c <= '\u{7f}' {
        1
    } else if c <= '\u{7ff}' {
        2
    } else if c <= '\u{ffff}' {
        3
    } else {
        4
    }
}

/// How many bytes the UTF-8 encoding of `s` takes.
pub open spec fn byte_len(s: Seq<char>) -> nat
    decreases s.len(),
{
    if s.len() == 0 {
        0
    } else {
        byte_len(s.drop_last()) + char_width(s.last())
    }
}

/// How many bytes the UTF-8 encoding of `c` takes.
pub fn width_of(c: char) -> (r: usize)
    ensures
        r == char_width(c),
{
    if c <= '\u{7f}' {
        1
    } else if c <= '\u{7ff}' {
        2
    } else if c <= '\u{ffff}' {
        3
    } else {
        4
    }
}

proof fn lemma_byte_len_grows(s: Seq<char>, i: int)
    requires
        0 <= i <= s.len(),
    ensures
        byte_len(s.take(i)) + (s.len() - i) <= byte_len(s),
    decreases s.len(),
{
    if i < s.len() {
        lemma_byte_len_grows(s.drop_last(), i);
        assert(s.drop_last().take(i) =~= s.take(i));
    } else {
        assert(s.take(i) =~= s);
    }
}

/// Whether the UTF-8 encoding of `s` takes at least `n` bytes.
pub fn takes_bytes(s: &str, n: usize) -> (r: bool)
    requires
        n < usize::MAX - 4,
    ensures
        r == (byte_len(s@) >= n),
{
    let chars = chars_of(s);
    let mut total: usize = 0;
    let mut i: usize = 0;
    while i < chars.len() && total < n
        invariant
            i <= chars@.len(),
            chars@ == s@,
            n < usize::MAX - 4,
            total < n + 4,
            total == byte_len(s@.take(i as int)),
        decreases chars@.len() - i,
    {
        assert(s@.take(i + 1).drop_last() =~= s@.take(i as int));
        total += width_of(chars[i]);
        i += 1;
    }
    proof {
        lemma_byte_len_grows(s@, i as int);
        assert(s@.take(s@.len() as int) =~= s@);
    }
    total >= n
}

/// Whether the encoding of some prefix of `s` takes exactly `n` bytes, and of how many
/// characters that prefix is made.
pub open spec fn byte_prefix(s: Seq<char>, n: int) -> Option<nat>
    decreases s.len(),
{
    if n == 0 {
        Some(0)
    } else if n < 0 || s.len() == 0 {
        None
    } else {
        match byte_prefix(s.drop_first(), n - char_width(s[0])) {
            Some(k) => Some(k + 1),
            None => None,
        }
    }
}

/// The first `n` bytes of a text, if they end at a character boundary.
pub fn first_bytes(s: &str, n: usize) -> (r: Option<&str>)
    requires
        n < usize::MAX - 4,
    ensures
        match r {
            Some(t) => byte_prefix(s@, n as int) == Some(t@.len()) && t@.len() <= s@.len() && t@ == s@.take(
                t@.len() as int,
            ),
            None => byte_prefix(s@, n as int) is None,
        },
{
    let chars = chars_of(s);
    let mut total: usize = 0;
    let mut i: usize = 0;
    assert(s@.skip(0) =~= s@);
    while i < chars.len() && total < n
        invariant
            i <= chars@.len(),
            chars@ == s@,
            n < usize::MAX - 4,
            total < n + 4,
            byte_prefix(s@, n as int) == match byte_prefix(s@.skip(i as int), n - total) {
                Some(k) => Some(k + i as nat),
                None => None::<nat>,
            },
        decreases chars@.len() - i,
    {
        assert(s@.skip(i as int).drop_first() =~= s@.skip(i + 1));
        total += width_of(chars[i]);
        i += 1;
    }
    if total == n {
        assert(s@.subrange(0, i as int) =~= s@.take(i as int));
        Some(s.substring_char(0, i))
    } else {
        None
    }
}

// ---------------------------------------------------------------------
// Lines, first and last occurrences
// ---------------------------------------------------------------------

/// How many characters of `s` come before its first newline.
pub open spec fn line_len(s: Seq<char>) -> nat
    decreases s.len(),
{
    if s.len() > 0 && s[0] != '\n' {
        1 + line_len(s.drop_first())
    } else {
        0
    }
}

/// A line without the carriage return that belongs to its end.
pub open spec fn without_return(s: Seq<char>) -> Seq<char> {
    if s.len() > 0 && s.last() == '\r' {
        s.drop_last()
    } else {
        s
    }
}

/// The lines of `s`, without their ends.
pub open spec fn lines_of(s: Seq<char>) -> Seq<Seq<char>>
    decreases s.len(),
{
    if s.len() == 0 {
        Seq::empty()
    } else {
        let k = line_len(s);
        if k < s.len() {
            seq![without_return(s.take(k as int))] + lines_of(s.skip(k as int + 1))
        } else {
            seq![s]
        }
    }
}

/// Splits a text into its lines.
pub fn split_lines(s: &str) -> (r: Vec<String>)
    ensures
        views(r@) == lines_of(s@),
{
    let chars = chars_of(s);
    let n: usize = chars.len();
    let mut r: Vec<String> = Vec::new();
    let mut at: usize = 0;
    assert(s@.skip(0) =~= s@);
    assert(views(r@) + lines_of(s@) =~= lines_of(s@));
    while at < n
        invariant
            at <= n == chars@.len(),
            chars@ == s@,
            views(r@) + lines_of(s@.skip(at as int)) == lines_of(s@),
        decreases n - at,
    {
        let ghost rest = s@.skip(at as int);
        let mut to: usize = at;
        while to < n && chars[to] != '\n'
            invariant
                at <= to <= n == chars@.len(),
                chars@ == s@,
                at + line_len(s@.skip(at as int)) == to + line_len(s@.skip(to as int)),
            decreases n - to,
        {
            assert(s@.skip(to as int).drop_first() =~= s@.skip(to + 1));
            to += 1;
        }
        assert(line_len(rest) == to - at);
        let ghost before = views(r@);
        if to == n {
            let line = text_of(vstd::slice::slice_subrange(chars.as_slice(), at, n));
            assert(line@ =~= rest);
            r.push(line);
            proof {
                assert(views(r@) =~= before.push(rest));
                assert(s@.skip(n as int) =~= Seq::empty());
                assert(before + seq![rest] =~= views(r@) + lines_of(s@.skip(n as int)));
            }
            at = n;
        } else {
            let stop: usize = if to > at && chars[to - 1] == '\r' {
                to - 1
            } else {
                to
            };
            let line = text_of(vstd::slice::slice_subrange(chars.as_slice(), at, stop));
            assert(line@ =~= without_return(rest.take(to - at)));
            let ghost shown = line@;
            r.push(line);
            proof {
                assert(views(r@) =~= before.push(shown));
                assert(rest.skip(to - at + 1) =~= s@.skip(to + 1));
                assert(before + (seq![shown] + lines_of(s@.skip(to + 1))) =~= before.push(shown) + lines_of(
                    s@.skip(to + 1),
                ));
            }
            at = to + 1;
        }
    }
    assert(s@.skip(n as int) =~= Seq::empty());
    assert(views(r@) + lines_of(s@.skip(n as int)) =~= views(r@));
    r
}

/// The largest position up to `i` where `p` stands in `s`.
pub open spec fn last_from(s: Seq<char>, p: Seq<char>, i: int) -> Option<int>
    decreases i + 1,
{
    if i < 0 {
        None
    } else if occurs_at(s, p, i) {
        Some(i)
    } else {
        last_from(s, p, i - 1)
    }
}

/// The last position where `p` stands in `s`.
pub open spec fn last_at(s: Seq<char>, p: Seq<char>) -> Option<int> {
    last_from(s, p, s.len() - p.len())
}

/// The smallest position from `i` on where `p` stands in `s`.
pub open spec fn first_from(s: Seq<char>, p: Seq<char>, i: int) -> Option<int>
    decreases s.len() + 1 - i,
{
    if i + p.len() > s.len() {
        None
    } else if occurs_at(s, p, i) {
        Some(i)
    } else {
        first_from(s, p, i + 1)
    }
}

/// The first position where `p` stands in `s`.
pub open spec fn first_at(s: Seq<char>, p: Seq<char>) -> Option<int> {
    first_from(s, p, 0)
}

/// The last position where `p` stands in `s`.
pub fn find_last(s: &[char], p: &[char]) -> (r: Option<usize>)
    ensures
        last_at(s@, p@) == match r {
            Some(i) => Some(i as int),
            None => None::<int>,
        },
        r matches Some(i) ==> occurs_at(s@, p@, i as int),
{
    if p.len() > s.len() {
        return None;
    }
    let mut i: usize = s.len() - p.len();
    loop
        invariant
            i <= s@.len() - p@.len(),
            last_at(s@, p@) == last_from(s@, p@, i as int),
        decreases i,
    {
        if occurs(s, p, i) {
            return Some(i);
        }
        if i == 0 {
            assert(last_from(s@, p@, -1) is None);
            return None;
        }
        i -= 1;
    }
}

/// The first position where `p` stands in `s`.
pub fn find_first(s: &[char], p: &[char]) -> (r: Option<usize>)
    ensures
        first_at(s@, p@) == match r {
            Some(i) => Some(i as int),
            None => None::<int>,
        },
        r matches Some(i) ==> occurs_at(s@, p@, i as int),
{
    if p.len() > s.len() {
        return None;
    }
    let last: usize = s.len() - p.len();
    let mut i: usize = 0;
    loop
        invariant
            i <= last == s@.len() - p@.len(),
            first_at(s@, p@) == first_from(s@, p@, i as int),
        decreases last - i,
    {
        if occurs(s, p, i) {
            return Some(i);
        }
        if i == last {
            assert(first_from(s@, p@, i + 1) is None);
            return None;
        }
        i += 1;
    }
}

/// What follows the last place where `p` stands in `s`.
pub open spec fn after_last(s: Seq<char>, p: Seq<char>) -> Option<Seq<char>> {
    match last_at(s, p) {
        Some(i) => Some(s.skip(i + p.len())),
        None => None,
    }
}

/// What follows the last place where `p` stands in `s`.
pub fn rest_after_last<'a>(s: &'a str, p: &str) -> (r: Option<&'a str>)
    ensures
        opt_view(r) == after_last(s@, p@),
{
    let sc = chars_of(s);
    let pc = chars_of(p);
    let n: usize = sc.len();
    match find_last(sc.as_slice(), pc.as_slice()) {
        Some(i) => {
            assert(s@.subrange(i + p@.len(), s@.len() as int) =~= s@.skip(i + p@.len()));
            Some(s.substring_char(i + pc.len(), n))
        },
        None => None,
    }
}

/// What precedes the last place where `p` stands in `s`, or all of `s`.
pub open spec fn before_last(s: Seq<char>, p: Seq<char>) -> Seq<char> {
    match last_at(s, p) {
        Some(i) => s.take(i),
        None => s,
    }
}

/// What precedes the last place where `p` stands in `s`, or all of `s`.
pub fn part_before_last<'a>(s: &'a str, p: &str) -> (r: &'a str)
    ensures
        r@ == before_last(s@, p@),
{
    let sc = chars_of(s);
    let pc = chars_of(p);
    match find_last(sc.as_slice(), pc.as_slice()) {
        Some(i) => {
            assert(s@.subrange(0, i as int) =~= s@.take(i as int));
            s.substring_char(0, i)
        },
        None => s,
    }
}

/// What follows the first place where `p` stands in `s`, or all of `s`.
pub open spec fn after_first(s: Seq<char>, p: Seq<char>) -> Seq<char> {
    match first_at(s, p) {
        Some(i) => s.skip(i + p.len()),
        None => s,
    }
}

/// What follows the first place where `p` stands in `s`, or all of `s`.
pub fn part_after_first<'a>(s: &'a str, p: &str) -> (r: &'a str)
    ensures
        r@ == after_first(s@, p@),
{
    let sc = chars_of(s);
    let pc = chars_of(p);
    let n: usize = sc.len();
    match find_first(sc.as_slice(), pc.as_slice()) {
        Some(i) => {
            assert(s@.subrange(i + p@.len(), s@.len() as int) =~= s@.skip(i + p@.len()));
            s.substring_char(i + pc.len(), n)
        },
        None => s,
    }
}

/// `s` with each place where `from` stands, from the left and without overlaps, replaced by
/// `to`.
pub open spec fn replaced(s: Seq<char>, from: Seq<char>, to: Seq<char>) -> Seq<char>
    decreases s.len(),
{
    if from.len() == 0 || s.len() < from.len() {
        s
    } else if has_prefix(s, from) {
        to + replaced(s.skip(from.len() as int), from, to)
    } else {
        seq![s[0]] + replaced(s.drop_first(), from, to)
    }
}

/// Replaces a text that is not empty wherever it stands.
pub fn replace(s: &str, from: &str, to: &str) -> (r: String)
    requires
        from@.len() > 0,
    ensures
        r@ == replaced(s@, from@, to@),
{
    let sc = chars_of(s);
    let fc = chars_of(from);
    let n: usize = sc.len();
    let mut r = String::new();
    let mut i: usize = 0;
    assert(s@.skip(0) =~= s@);
    assert(r@ + replaced(s@, from@, to@) =~= replaced(s@, from@, to@));
    while i < n
        invariant
            i <= n == sc@.len(),
            sc@ == s@,
            fc@ == from@,
            from@.len() > 0,
            r@ + replaced(s@.skip(i as int), from@, to@) == replaced(s@, from@, to@),
        decreases n - i,
    {
        let ghost rest = s@.skip(i as int);
        let ghost done = r@;
        if occurs(sc.as_slice(), fc.as_slice(), i) {
            proof {
                assert(rest.take(from@.len() as int) =~= s@.subrange(i as int, i + from@.len()));
                assert(rest.skip(from@.len() as int) =~= s@.skip(i + from@.len()));
                assert(done + (to@ + replaced(s@.skip(i + from@.len()), from@, to@)) =~= (done + to@)
                    + replaced(s@.skip(i + from@.len()), from@, to@));
            }
            r.append(to);
            i += fc.len();
        } else {
            proof {
                if has_prefix(rest, from@) {
                    assert(rest.take(from@.len() as int) =~= s@.subrange(i as int, i + from@.len()));
                }
                assert(rest.drop_first() =~= s@.skip(i + 1));
                if rest.len() < from@.len() {
                    lemma_replaced_short(rest.drop_first(), from@, to@);
                    assert(rest =~= seq![rest[0]] + rest.drop_first());
                }
                assert(done + (seq![rest[0]] + replaced(s@.skip(i + 1), from@, to@)) =~= done.push(rest[0])
                    + replaced(s@.skip(i + 1), from@, to@));
            }
            r.push(sc[i]);
            i += 1;
        }
    }
    assert(s@.skip(n as int) =~= Seq::empty());
    assert(r@ + replaced(s@.skip(n as int), from@, to@) =~= r@);
    r
}

proof fn lemma_replaced_short(s: Seq<char>, from: Seq<char>, to: Seq<char>)
    requires
        s.len() < from.len(),
    ensures
        replaced(s, from, to) == s,
{
}

/// `s`, or its first `max` characters and an ellipsis where it has more.
pub open spec fn shortened(s: Seq<char>, max: nat) -> Seq<char> {
    if s.len() <= max {
        s
    } else {
        s.take(max as int).push('…')
    }
}

/// Cuts a text after `max` characters and marks the cut.
pub fn truncate(value: &str, max_chars: usize) -> (r: String)
    ensures
        r@ == shortened(value@, max_chars as nat),
{
    let n: usize = value.unicode_len();
    if n <= max_chars {
        value.to_owned()
    } else {
        assert(value@.subrange(0, max_chars as int) =~= value@.take(max_chars as int));
        let mut r = value.substring_char(0, max_chars).to_owned();
        r.push('…');
        r
    }
}

/// A text that was cut has one character more than the limit, the ellipsis; one that fits
/// is left alone.
pub proof fn law_shortened_fits(s: Seq<char>, max: nat)
    ensures
        shortened(s, max).len() <= max + 1,
        s.len() <= max ==> shortened(s, max) == s,
        s.len() > max ==> shortened(s, max).last() == '…',
{
}

/// Puts texts behind others.
pub fn append_texts(all: &mut Vec<String>, more: &Vec<String>)
    ensures
        views(final(all)@) == views(old(all)@) + views(more@),
{
    let ghost start = views(all@);
    let mut i: usize = 0;
    while i < more.len()
        invariant
            i <= more@.len(),
            views(all@) == start + views(more@).take(i as int),
        decreases more@.len() - i,
    {
        let ghost before = views(all@);
        all.push(more[i].clone());
        assert(views(all@) =~= before.push(views(more@)[i as int]));
        i += 1;
        assert(views(all@) =~= start + views(more@).take(i as int));
    }
    assert(views(more@).take(i as int) =~= views(more@));
}

/// A text behind another.
pub fn text_after(head: &str, tail: &str) -> (r: String)
    ensures
        r@ == head@ + tail@,
{
    let mut r = head.to_owned();
    r.append(tail);
    r
}

// ---------------------------------------------------------------------
// What these operations come to
// ---------------------------------------------------------------------

/// Trimming takes off exactly the whitespace around a text: what is between stays, and so
/// does the whitespace in it.
pub proof fn law_trimming_takes_off_the_outer_space(before: Seq<char>, core: Seq<char>, after: Seq<char>)
    requires
        forall|i: int| 0 <= i < before.len() ==> is_space(#[trigger] before[i]),
        forall|i: int| 0 <= i < after.len() ==> is_space(#[trigger] after[i]),
        core.len() > 0 ==> !is_space(core[0]) && !is_space(core.last()),
    ensures
        trimmed(before + core + after) == core,
{
    if core.len() == 0 {
        assert(before + core + after =~= (before + after) + Seq::<char>::empty());
        lemma_trimmed_start_of(before + after, Seq::empty());
    } else {
        assert(before + core + after =~= before + (core + after));
        lemma_trimmed_start_of(before, core + after);
        lemma_trimmed_end_of_space(core, after);
    }
}

proof fn lemma_trimmed_start_of(before: Seq<char>, rest: Seq<char>)
    requires
        forall|i: int| 0 <= i < before.len() ==> is_space(#[trigger] before[i]),
        rest.len() > 0 ==> !is_space(rest[0]),
    ensures
        trimmed_start(before + rest) == rest,
    decreases before.len(),
{
    if before.len() == 0 {
        assert(before + rest =~= rest);
    } else {
        let less = before.drop_first();
        assert((before + rest)[0] == before[0]);
        assert((before + rest).drop_first() =~= less + rest);
        assert forall|i: int| 0 <= i < less.len() implies is_space(#[trigger] less[i]) by {
            assert(less[i] == before[i + 1]);
        }
        lemma_trimmed_start_of(less, rest);
    }
}

proof fn lemma_trimmed_end_of_space(core: Seq<char>, after: Seq<char>)
    requires
        forall|i: int| 0 <= i < after.len() ==> is_space(#[trigger] after[i]),
        core.len() > 0 ==> !is_space(core.last()),
    ensures
        trimmed_end(core + after) == core,
    decreases after.len(),
{
    if after.len() == 0 {
        assert(core + after =~= core);
    } else {
        assert((core + after).last() == after[after.len() - 1]);
        assert((core + after).drop_last() =~= core + after.drop_last());
        lemma_trimmed_end_of_space(core, after.drop_last());
    }
}

/// The trailing whitespace of a text that ends in `b` is that of `b`, unless `b` is blank.
pub proof fn lemma_trimmed_end_of_sum(a: Seq<char>, b: Seq<char>)
    ensures
        trimmed_end(b).len() > 0 ==> trimmed_end(a + b) == a + trimmed_end(b),
        trimmed_end(b).len() == 0 ==> trimmed_end(a + b) == trimmed_end(a),
    decreases b.len(),
{
    if b.len() == 0 {
        assert(a + b =~= a);
    } else if is_space(b.last()) {
        assert((a + b).drop_last() =~= a + b.drop_last());
        lemma_trimmed_end_of_sum(a, b.drop_last());
    }
}

/// It makes no difference to a trimmed text whether its end was trimmed before.
pub proof fn lemma_trimmed_of_trimmed_end(s: Seq<char>)
    ensures
        trimmed(trimmed_end(s)) == trimmed(s),
        trimmed_end(s).len() == 0 <==> trimmed(s).len() == 0,
    decreases s.len(),
{
    if s.len() > 0 && is_space(s[0]) {
        let rest = s.drop_first();
        lemma_trimmed_of_trimmed_end(rest);
        assert(s =~= seq![s[0]] + rest);
        lemma_trimmed_end_of_sum(seq![s[0]], rest);
        if trimmed_end(rest).len() > 0 {
            assert(trimmed_end(s).drop_first() =~= trimmed_end(rest));
        } else {
            let one = seq![s[0]];
            assert(one.drop_last() =~= Seq::empty());
            assert(trimmed_end(Seq::empty()) =~= Seq::empty());
            assert(trimmed_end(one) == trimmed_end(one.drop_last()));
        }
    } else if s.len() > 0 {
        lemma_trimmed_end_shape(s);
        assert(s =~= seq![s[0]] + s.drop_first());
        lemma_trimmed_end_of_sum(seq![s[0]], s.drop_first());
        assert(trimmed_end(s).len() > 0);
        assert(trimmed_end(s)[0] == s[0]);
    }
}

/// A text is cut at its first whitespace: what comes before holds none.
pub proof fn law_cut_at_the_first_space(word: Seq<char>, gap: char, rest: Seq<char>)
    requires
        forall|i: int| 0 <= i < word.len() ==> !is_space(#[trigger] word[i]),
        is_space(gap),
    ensures
        cut_at_space(word + seq![gap] + rest) == (word, Some(rest)),
        cut_at_space(word) == (word, None::<Seq<char>>),
{
    let all = word + seq![gap] + rest;
    lemma_lead_of_word(word, seq![gap] + rest);
    assert(all =~= word + (seq![gap] + rest));
    assert(all.take(word.len() as int) =~= word);
    assert(all.skip(word.len() as int + 1) =~= rest);
    lemma_lead_of_word(word, Seq::empty());
    assert(word + Seq::empty() =~= word);
}

proof fn lemma_lead_of_word(word: Seq<char>, tail: Seq<char>)
    requires
        forall|i: int| 0 <= i < word.len() ==> !is_space(#[trigger] word[i]),
        tail.len() > 0 ==> is_space(tail[0]),
    ensures
        lead(word + tail) == word.len(),
    decreases word.len(),
{
    if word.len() == 0 {
        assert(word + tail =~= tail);
    } else {
        let less = word.drop_first();
        assert((word + tail)[0] == word[0]);
        assert((word + tail).drop_first() =~= less + tail);
        assert forall|i: int| 0 <= i < less.len() implies !is_space(#[trigger] less[i]) by {
            assert(less[i] == word[i + 1]);
        }
        lemma_lead_of_word(less, tail);
    }
}

/// Words are the runs between whitespace: each holds none, none is empty, and a text that
/// begins with a word and whitespace is that word and the words of the rest.
pub proof fn law_words_are_parted_by_space(word: Seq<char>, gap: char, rest: Seq<char>)
    requires
        word.len() > 0,
        forall|i: int| 0 <= i < word.len() ==> !is_space(#[trigger] word[i]),
        is_space(gap),
    ensures
        words(word + seq![gap] + rest) == seq![word] + words(rest),
        words(word) == seq![word],
        words(seq![gap] + rest) == words(rest),
        words(Seq::<char>::empty()) == Seq::<Seq<char>>::empty(),
{
    let tail = seq![gap] + rest;
    let all = word + seq![gap] + rest;
    assert(all =~= word + tail);
    assert(all[0] == word[0]);
    lemma_lead_of_word(word, tail);
    assert(all.take(word.len() as int) =~= word);
    assert(all.skip(word.len() as int) =~= tail);
    assert(tail.drop_first() =~= rest);
    assert(trimmed_start(tail) == trimmed_start(rest));
    assert(words(tail) == words(rest));
    lemma_lead_of_word(word, Seq::empty());
    assert(word + Seq::empty() =~= word);
    assert(word.take(word.len() as int) =~= word);
    assert(word.skip(word.len() as int) =~= Seq::empty());
    assert(words(word) =~= seq![word] + words(Seq::<char>::empty()));
    assert(words(Seq::<char>::empty()) =~= Seq::<Seq<char>>::empty());
    assert(words(word) =~= seq![word]);
}

/// ASCII whitespace is whitespace, and so is the ideographic space; letters, digits and marks
/// of ASCII are not, and neither are CJK ideographs.
pub proof fn law_whitespace_is_the_usual(c: char)
    ensures
        c == ' ' || c == '\t' || c == '\n' || c == '\r' || c == '\u{3000}' || c == '\u{a0}' ==> is_space(c),
        '!' <= c <= '~' ==> !is_space(c),
        '\u{4e00}' <= c <= '\u{9fff}' ==> !is_space(c),
{
}

/// The last place of `p` in `s` is the one after which there is no other.
pub proof fn law_the_last_place_is_found(s: Seq<char>, p: Seq<char>, i: int)
    ensures
        occurs_at(s, p, i) && (forall|j: int| i < j ==> !occurs_at(s, p, j)) ==> last_at(s, p) == Some(i),
        !has_text(s, p) ==> last_at(s, p) is None,
{
    if occurs_at(s, p, i) && (forall|j: int| i < j ==> !occurs_at(s, p, j)) {
        lemma_last_from(s, p, i, s.len() - p.len());
    }
    if !has_text(s, p) {
        lemma_not_last_from(s, p, s.len() - p.len());
    }
}

proof fn lemma_last_from(s: Seq<char>, p: Seq<char>, i: int, from: int)
    requires
        i <= from,
        occurs_at(s, p, i),
        forall|j: int| i < j ==> !occurs_at(s, p, j),
    ensures
        last_from(s, p, from) == Some(i),
    decreases from - i,
{
    if i < from {
        assert(!occurs_at(s, p, from));
        lemma_last_from(s, p, i, from - 1);
    }
}

proof fn lemma_not_last_from(s: Seq<char>, p: Seq<char>, from: int)
    requires
        forall|j: int| !occurs_at(s, p, j),
    ensures
        last_from(s, p, from) is None,
    decreases from + 1,
{
    if from >= 0 {
        lemma_not_last_from(s, p, from - 1);
    }
}

/// The first place of `p` in `s` is the one before which there is no other.
pub proof fn law_the_first_place_is_found(s: Seq<char>, p: Seq<char>, i: int)
    ensures
        occurs_at(s, p, i) && (forall|j: int| j < i ==> !occurs_at(s, p, j)) ==> first_at(s, p) == Some(i),
        !has_text(s, p) ==> first_at(s, p) is None,
{
    if occurs_at(s, p, i) && (forall|j: int| j < i ==> !occurs_at(s, p, j)) {
        lemma_first_from(s, p, i, 0);
    }
    if !has_text(s, p) {
        lemma_not_first_from(s, p, 0);
    }
}

proof fn lemma_first_from(s: Seq<char>, p: Seq<char>, i: int, from: int)
    requires
        0 <= from <= i,
        occurs_at(s, p, i),
        forall|j: int| j < i ==> !occurs_at(s, p, j),
    ensures
        first_from(s, p, from) == Some(i),
    decreases i - from,
{
    if from < i {
        assert(!occurs_at(s, p, from));
        lemma_first_from(s, p, i, from + 1);
    }
}

proof fn lemma_not_first_from(s: Seq<char>, p: Seq<char>, from: int)
    requires
        forall|j: int| !occurs_at(s, p, j),
    ensures
        first_from(s, p, from) is None,
    decreases s.len() + 1 - from,
{
    if from + p.len() <= s.len() {
        lemma_not_first_from(s, p, from + 1);
    }
}

/// What follows the last place of a mark is what comes after it, and what precedes it is what
/// comes before; a text without the mark is left as it is.
pub proof fn law_texts_are_parted_at_marks(a: Seq<char>, p: Seq<char>, b: Seq<char>)
    requires
        p.len() > 0,
    ensures
        (forall|j: int| a.len() < j ==> !occurs_at(a + p + b, p, j)) ==> after_last(a + p + b, p) == Some(b)
            && before_last(a + p + b, p) == a,
        (forall|j: int| j < a.len() ==> !occurs_at(a + p + b, p, j)) ==> after_first(a + p + b, p) == b,
        !has_text(a, p) ==> after_last(a, p) is None && before_last(a, p) == a && after_first(a, p) == a,
{
    let all = a + p + b;
    let i = a.len() as int;
    assert(all.subrange(i, i + p.len()) =~= p);
    assert(occurs_at(all, p, i));
    law_the_last_place_is_found(all, p, i);
    law_the_first_place_is_found(all, p, i);
    assert(all.skip(i + p.len()) =~= b);
    assert(all.take(i) =~= a);
    law_the_last_place_is_found(a, p, 0);
    law_the_first_place_is_found(a, p, 0);
}

/// A line ends at its line feed, which is not part of it, and neither is a carriage return
/// before it; the last line may do without.
pub proof fn law_lines_end_at_line_feeds(line: Seq<char>, rest: Seq<char>)
    requires
        forall|i: int| 0 <= i < line.len() ==> #[trigger] line[i] != '\n',
    ensures
        line.len() == 0 || line.last() != '\r' ==> lines_of(line + seq!['\n'] + rest) == seq![line] + lines_of(rest),
        lines_of(line + seq!['\r', '\n'] + rest) == seq![line] + lines_of(rest),
        line.len() > 0 ==> lines_of(line) == seq![line],
        lines_of(Seq::<char>::empty()).len() == 0,
{
    let all = line + seq!['\n'] + rest;
    lemma_line_len(line, seq!['\n'] + rest);
    assert(all =~= line + (seq!['\n'] + rest));
    assert(all.take(line.len() as int) =~= line);
    assert(all.skip(line.len() as int + 1) =~= rest);
    let returned = line.push('\r');
    let other = line + seq!['\r', '\n'] + rest;
    assert forall|i: int| 0 <= i < returned.len() implies #[trigger] returned[i] != '\n' by {
        if i < line.len() {
            assert(returned[i] == line[i]);
        }
    }
    lemma_line_len(returned, seq!['\n'] + rest);
    assert(other =~= returned + (seq!['\n'] + rest));
    assert(other.take(returned.len() as int) =~= returned);
    assert(other.skip(returned.len() as int + 1) =~= rest);
    assert(returned.drop_last() =~= line);
    lemma_line_len(line, Seq::empty());
    assert(line + Seq::empty() =~= line);
}

proof fn lemma_line_len(line: Seq<char>, tail: Seq<char>)
    requires
        forall|i: int| 0 <= i < line.len() ==> #[trigger] line[i] != '\n',
        tail.len() > 0 ==> tail[0] == '\n',
    ensures
        line_len(line + tail) == line.len(),
    decreases line.len(),
{
    if line.len() == 0 {
        assert(line + tail =~= tail);
    } else {
        let less = line.drop_first();
        assert((line + tail)[0] == line[0]);
        assert((line + tail).drop_first() =~= less + tail);
        assert forall|i: int| 0 <= i < less.len() implies #[trigger] less[i] != '\n' by {
            assert(less[i] == line[i + 1]);
        }
        lemma_line_len(less, tail);
    }
}

/// Every place of a text is replaced, from the first on, and what lies between is kept.
pub proof fn law_every_place_is_replaced(a: Seq<char>, from: Seq<char>, to: Seq<char>, b: Seq<char>)
    requires
        from.len() > 0,
    ensures
        (forall|j: int| 0 <= j < a.len() ==> !occurs_at(a + from + b, from, j)) ==> replaced(a + from + b, from, to)
            == a + to + replaced(b, from, to),
        !has_text(a, from) ==> replaced(a, from, to) == a,
    decreases a.len(),
{
    let all = a + from + b;
    if a.len() == 0 {
        assert(all =~= from + b);
        assert(all.take(from.len() as int) =~= from);
        assert(all.skip(from.len() as int) =~= b);
        assert(a + to + replaced(b, from, to) =~= to + replaced(b, from, to));
    } else {
        let less = a.drop_first();
        if forall|j: int| 0 <= j < a.len() ==> !occurs_at(all, from, j) {
            assert(!occurs_at(all, from, 0));
            assert(!has_prefix(all, from)) by {
                if has_prefix(all, from) {
                    assert(all.subrange(0, from.len() as int) =~= all.take(from.len() as int));
                }
            }
            assert(all.drop_first() =~= less + from + b);
            assert forall|j: int| 0 <= j < less.len() implies !occurs_at(less + from + b, from, j) by {
                assert(!occurs_at(all, from, j + 1));
                if occurs_at(less + from + b, from, j) {
                    assert(all.subrange(j + 1, j + 1 + from.len()) =~= (less + from + b).subrange(
                        j,
                        j + from.len(),
                    ));
                }
            }
            law_every_place_is_replaced(less, from, to, b);
            assert(seq![all[0]] + (less + to + replaced(b, from, to)) =~= a + to + replaced(b, from, to));
        }
        if !has_text(a, from) {
            if a.len() >= from.len() {
                assert(!has_prefix(a, from)) by {
                    if has_prefix(a, from) {
                        assert(a.subrange(0, from.len() as int) =~= a.take(from.len() as int));
                        assert(occurs_at(a, from, 0));
                    }
                }
                assert(!has_text(less, from)) by {
                    if has_text(less, from) {
                        let j = choose|j: int| occurs_at(less, from, j);
                        assert(a.subrange(j + 1, j + 1 + from.len()) =~= less.subrange(j, j + from.len()));
                        assert(occurs_at(a, from, j + 1));
                    }
                }
                law_every_place_is_replaced(less, from, to, b);
                assert(seq![a[0]] + less =~= a);
            }
        }
    }
}

/// Capital letters of ASCII become the small ones that are 32 places on; all else stays, so
/// that a text keeps its length.
pub proof fn law_ascii_letters_become_small(s: Seq<char>, i: int)
    requires
        0 <= i < s.len(),
    ensures
        ascii_lowered(s).len() == s.len(),
        'A' <= s[i] <= 'Z' ==> ascii_lowered(s)[i] as int == s[i] as int + 32,
        !('A' <= s[i] <= 'Z') ==> ascii_lowered(s)[i] == s[i],
        ascii_lowered(ascii_lowered(s)) == ascii_lowered(s),
{
    assert forall|c: char| ascii_small(#[trigger] ascii_small(c)) == ascii_small(c) by {
        if 'A' <= c <= 'Z' {
            let n = (c as u8) + 32;
            assert(97 <= n <= 122);
            assert(ascii_small(c) as int == n);
        }
    }
    assert(ascii_lowered(ascii_lowered(s)) =~= ascii_lowered(s));
    if 'A' <= s[i] <= 'Z' {
        assert(ascii_small(s[i]) as int == s[i] as int + 32);
    }
}

/// A text takes as many bytes as its parts, a character of ASCII takes one and any other
/// more.
pub proof fn law_bytes_add_up(a: Seq<char>, b: Seq<char>, c: char)
    ensures
        byte_len(a + b) == byte_len(a) + byte_len(b),
        byte_len(a.push(c)) == byte_len(a) + byte_len(seq![c]),
        c as int <= 0x7f ==> byte_len(seq![c]) == 1,
        0x80 <= c as int <= 0x7ff ==> byte_len(seq![c]) == 2,
        0x800 <= c as int <= 0xffff ==> byte_len(seq![c]) == 3,
        c as int >= 0x10000 ==> byte_len(seq![c]) == 4,
        byte_len(Seq::<char>::empty()) == 0,
    decreases b.len(),
{
    let one = seq![c];
    assert(one.drop_last() =~= Seq::empty());
    assert(byte_len(one) == byte_len(Seq::<char>::empty()) + char_width(c));
    assert(a.push(c).drop_last() =~= a);
    if b.len() == 0 {
        assert(a + b =~= a);
    } else {
        assert((a + b).drop_last() =~= a + b.drop_last());
        assert((a + b).last() == b.last());
        law_bytes_add_up(a, b.drop_last(), c);
    }
}

/// The beginning of a text that takes so many bytes is found if there is one.
pub proof fn law_a_beginning_of_so_many_bytes(s: Seq<char>, k: int)
    requires
        0 <= k <= s.len(),
    ensures
        byte_prefix(s, byte_len(s.take(k)) as int) == Some(k as nat),
    decreases k,
{
    if k == 0 {
        assert(s.take(0) =~= Seq::empty());
    } else {
        let rest = s.drop_first();
        law_a_beginning_of_so_many_bytes(rest, k - 1);
        assert(s.take(k) =~= seq![s[0]] + rest.take(k - 1));
        law_bytes_add_up(seq![s[0]], rest.take(k - 1), s[0]);
        assert(byte_len(seq![s[0]]) == char_width(s[0]));
    }
}

/// A number is written digit by digit, the last being what is left of it after the tens.
pub proof fn law_numbers_are_written_in_tens(n: nat, d: nat)
    requires
        d < 10,
    ensures
        decimal(d).len() == 1,
        decimal(d)[0] as int == '0' as int + d,
        n > 0 ==> decimal(10 * n + d) == decimal(n) + decimal(d),
{
    assert(digit(d) as int == '0' as int + d);
    if n > 0 {
        assert((10 * n + d) / 10 == n);
        assert((10 * n + d) % 10 == d);
        assert(decimal(10 * n + d) =~= decimal(n) + decimal(d));
    }
}

/// Texts are joined by the separator between each two of them, and by nothing else.
pub proof fn law_separators_stand_between(parts: Seq<Seq<char>>, sep: Seq<char>, last: Seq<char>)
    ensures
        joined(Seq::empty(), sep).len() == 0,
        joined(seq![last], sep) == last,
        parts.len() > 0 ==> joined(parts.push(last), sep) == joined(parts, sep) + sep + last,
{
    assert(parts.push(last).drop_last() =~= parts);
}

} // verus!

//! Character-level text helpers used when reading API responses and building
//! requests. Texts are handled as sequences of `char`.

use vstd::prelude::*;

verus! {

/// The characters of `s`, in order.
pub fn chars_of(s: &str) -> (v: Vec<char>)
    ensures
        v@ == s@,
{
    let mut v: Vec<char> = Vec::new();
    for c in it: s.chars()
        invariant
            it.seq() == s@,
            v@ == s@.take(it.index() as int),
    {
        v.push(c);
    }
    assert(s@.take(s@.len() as int) == s@);
    v
}

/// Collects characters into a `String` (std's `FromIterator<&char>` for
/// `String`); the string holds exactly those characters, in order.
#[verifier::external_body]
pub(crate) fn string_from_chars(v: &[char]) -> (s: String)
    ensures
        s@ == v@,
{
    v.iter().collect()
}

/// The characters of an optional text.
pub open spec fn opt_text(o: Option<String>) -> Option<Seq<char>> {
    match o {
        Some(s) => Some(s@),
        None => None,
    }
}

/// A JSON text with its surrounding double quotes removed: a text that both
/// starts and ends with `"` loses its first and last character (a lone `"`
/// becomes empty); any other text is kept.
pub open spec fn strip_quotes(s: Seq<char>) -> Seq<char> {
    if s.len() >= 2 && s[0] == '"' && s[s.len() - 1] == '"' {
        s.subrange(1, s.len() - 1)
    } else if s == seq!['"'] {
        Seq::empty()
    } else {
        s
    }
}

/// `p` occurs in `s` starting at index `i`.
pub open spec fn occurs_at(s: Seq<char>, p: Seq<char>, i: int) -> bool {
    0 <= i && i + p.len() <= s.len() && s.subrange(i, i + p.len()) == p
}

/// `p` occurs somewhere in `s` (std's `str::contains` with a string pattern).
pub open spec fn contains_seq(s: Seq<char>, p: Seq<char>) -> bool {
    exists|i: int| occurs_at(s, p, i)
}

/// Scanning `s` left to right from `pos` for non-overlapping occurrences of
/// `p`, the index just past the last occurrence found (or `cut` when there
/// is none after `pos`).
pub open spec fn last_cut(s: Seq<char>, p: Seq<char>, pos: int, cut: int) -> int
    decreases s.len() - pos,
{
    if p.len() == 0 || pos < 0 || pos + p.len() > s.len() {
        cut
    } else if s.subrange(pos, pos + p.len()) == p {
        last_cut(s, p, pos + p.len(), pos + p.len())
    } else {
        last_cut(s, p, pos + 1, cut)
    }
}

/// The last piece of `s` split at the non-empty pattern `p`
/// (std's `s.split(p).last()`).
pub open spec fn split_last(s: Seq<char>, p: Seq<char>) -> Seq<char> {
    s.skip(last_cut(s, p, 0, 0))
}

/// `s` without any occurrence of the character `c`
/// (std's `s.replace(c, "")`).
pub open spec fn remove_char(s: Seq<char>, c: char) -> Seq<char>
    decreases s.len(),
{
    if s.len() == 0 {
        s
    } else if s.last() == c {
        remove_char(s.drop_last(), c)
    } else {
        remove_char(s.drop_last(), c).push(s.last())
    }
}

/// `s` without its trailing characters `c` (std's `trim_end_matches(c)`).
pub open spec fn trim_end_char(s: Seq<char>, c: char) -> Seq<char>
    decreases s.len(),
{
    if s.len() > 0 && s.last() == c {
        trim_end_char(s.drop_last(), c)
    } else {
        s
    }
}

pub open spec fn is_digit(c: char) -> bool {
    '0' <= c && c <= '9'
}

/// The number written by the decimal digits `s`.
pub open spec fn decimal_value(s: Seq<char>) -> nat
    decreases s.len(),
{
    if s.len() == 0 {
        0
    } else {
        decimal_value(s.drop_last()) * 10 + ((s.last() as int) - ('0' as int)) as nat
    }
}

/// `s` without one leading `+`.
pub open spec fn unsigned_digits(s: Seq<char>) -> Seq<char> {
    if s.len() > 0 && s[0] == '+' {
        s.drop_first()
    } else {
        s
    }
}

/// What std's `str::parse::<u32>` gives: an optional `+`, then one or more
/// decimal digits and nothing else, with a value that fits in `u32`.
pub open spec fn parse_u32_spec(s: Seq<char>) -> Option<u32> {
    let d = unsigned_digits(s);
    if d.len() > 0 && (forall|i: int| 0 <= i < d.len() ==> is_digit(#[trigger] d[i]))
        && decimal_value(d) <= u32::MAX {
        Some(decimal_value(d) as u32)
    } else {
        None
    }
}

/// What std's `str::parse::<bool>` gives: `true` and `false` only.
pub open spec fn parse_bool_spec(s: Seq<char>) -> Option<bool> {
    if s == seq!['t', 'r', 'u', 'e'] {
        Some(true)
    } else if s == seq!['f', 'a', 'l', 's', 'e'] {
        Some(false)
    } else {
        None
    }
}

/// The upper-case hexadecimal digit for `d < 16`.
pub open spec fn hex_digit(d: nat) -> char {
    if d < 10 {
        (('0' as nat) + d) as char
    } else {
        (('A' as nat) + (d - 10)) as char
    }
}

/// `n` in decimal without leading zeros (std's `to_string` on integers).
pub open spec fn decimal_text(n: nat) -> Seq<char>
    decreases n,
{
    if n < 10 {
        seq![hex_digit(n)]
    } else {
        decimal_text(n / 10).push(hex_digit(n % 10))
    }
}

/// Each text followed by a comma, all concatenated
/// (`texts.iter().map(|x| x.to_string() + ",").collect::<String>()`).
pub open spec fn comma_terminated(texts: Seq<Seq<char>>) -> Seq<char>
    decreases texts.len(),
{
    if texts.len() == 0 {
        Seq::empty()
    } else {
        comma_terminated(texts.drop_last()) + texts.last() + seq![',']
    }
}

/// `n` in upper-case hexadecimal without leading zeros (std's `{:X}`).
pub open spec fn upper_hex(n: nat) -> Seq<char>
    decreases n,
{
    if n < 16 {
        seq![hex_digit(n)]
    } else {
        upper_hex(n / 16).push(hex_digit(n % 16))
    }
}

/// The two sequences hold the same characters.
pub fn chars_equal(a: &[char], b: &[char]) -> (r: bool)
    ensures
        r == (a@ == b@),
{
    if a.len() != b.len() {
        return false;
    }
    let mut i: usize = 0;
    while i < a.len()
        invariant
            a@.len() == b@.len(),
            i <= a@.len(),
            forall|j: int| 0 <= j < i ==> a@[j] == b@[j],
        decreases a@.len() - i,
    {
        if a[i] != b[i] {
            return false;
        }
        i = i + 1;
    }
    assert(a@ =~= b@);
    true
}

/// `p` occurs in `s` at index `i`.
pub fn occurs_at_exec(s: &[char], p: &[char], i: usize) -> (r: bool)
    ensures
        r == occurs_at(s@, p@, i as int),
{
    if i > s.len() || p.len() > s.len() - i {
        return false;
    }
    let mut k: usize = 0;
    while k < p.len()
        invariant
            i + p.len() <= s.len(),
            s@.len() == s.len(),
            p@.len() == p.len(),
            k <= p@.len(),
            forall|j: int| 0 <= j < k ==> s@[i + j] == p@[j],
        decreases p@.len() - k,
    {
        assert(i + k < s@.len());
        if s[i + k] != p[k] {
            assert(s@.subrange(i as int, i + p@.len())[k as int] != p@[k as int]);
            return false;
        }
        k = k + 1;
    }
    assert(s@.subrange(i as int, i + p@.len()) =~= p@);
    true
}

/// `p` occurs somewhere in `s`.
pub fn contains_chars(s: &[char], p: &[char]) -> (r: bool)
    ensures
        r == contains_seq(s@, p@),
{
    if p.len() > s.len() {
        return false;
    }
    let mut i: usize = 0;
    while i <= s.len() - p.len()
        invariant
            p@.len() <= s@.len(),
            i <= s@.len() - p@.len(),
            forall|j: int| 0 <= j < i ==> !occurs_at(s@, p@, j),
        ensures
            forall|j: int| 0 <= j <= s@.len() - p@.len() ==> !occurs_at(s@, p@, j),
        decreases s@.len() - p@.len() - i,
    {
        if occurs_at_exec(s, p, i) {
            return true;
        }
        if i == s.len() - p.len() {
            break;
        }
        i = i + 1;
    }
    false
}

/// The last piece of `s` split at the non-empty pattern `p`.
pub fn split_last_chars(s: &[char], p: &[char]) -> (r: Vec<char>)
    requires
        p@.len() > 0,
    ensures
        r@ == split_last(s@, p@),
{
    let mut pos: usize = 0;
    let mut cut: usize = 0;
    while pos <= s.len() && p.len() <= s.len() - pos
        invariant
            pos <= s@.len(),
            cut <= s@.len(),
            p@.len() > 0,
            last_cut(s@, p@, 0, 0) == last_cut(s@, p@, pos as int, cut as int),
        decreases s@.len() - pos,
    {
        if occurs_at_exec(s, p, pos) {
            pos = pos + p.len();
            cut = pos;
        } else {
            pos = pos + 1;
        }
    }
    let mut r: Vec<char> = Vec::new();
    let mut k: usize = cut;
    while k < s.len()
        invariant
            cut <= k <= s@.len(),
            r@ == s@.subrange(cut as int, k as int),
        decreases s@.len() - k,
    {
        r.push(s[k]);
        k = k + 1;
        assert(r@ =~= s@.subrange(cut as int, k as int));
    }
    assert(r@ =~= s@.skip(cut as int));
    r
}

/// `s` without any occurrence of `c`.
pub fn remove_char_chars(s: &[char], c: char) -> (r: Vec<char>)
    ensures
        r@ == remove_char(s@, c),
{
    let mut r: Vec<char> = Vec::new();
    let mut k: usize = 0;
    while k < s.len()
        invariant
            k <= s@.len(),
            r@ == remove_char(s@.take(k as int), c),
        decreases s@.len() - k,
    {
        assert(s@.take(k + 1).drop_last() =~= s@.take(k as int));
        if s[k] != c {
            r.push(s[k]);
        }
        k = k + 1;
    }
    assert(s@.take(s@.len() as int) =~= s@);
    r
}

/// `s` without its trailing characters `c`.
pub fn trim_end_char_chars(s: &[char], c: char) -> (r: Vec<char>)
    ensures
        r@ == trim_end_char(s@, c),
{
    let mut end: usize = s.len();
    assert(s@.take(end as int) =~= s@);
    while end > 0 && s[end - 1] == c
        invariant
            end <= s@.len(),
            trim_end_char(s@, c) == trim_end_char(s@.take(end as int), c),
        decreases end,
    {
        assert(s@.take(end as int).drop_last() =~= s@.take(end - 1));
        end = end - 1;
    }
    let mut r: Vec<char> = Vec::new();
    let mut k: usize = 0;
    while k < end
        invariant
            k <= end <= s@.len(),
            r@ == s@.take(k as int),
        decreases end - k,
    {
        r.push(s[k]);
        k = k + 1;
        assert(r@ =~= s@.take(k as int));
    }
    r
}

proof fn lemma_decimal_value_grows(d: Seq<char>, j: int, k: int)
    requires
        0 <= j <= k <= d.len(),
        forall|i: int| 0 <= i < d.len() ==> is_digit(#[trigger] d[i]),
    ensures
        decimal_value(d.take(j)) <= decimal_value(d.take(k)),
    decreases k - j,
{
    if j < k {
        lemma_decimal_value_grows(d, j, k - 1);
        assert(d.take(k).drop_last() =~= d.take(k - 1));
        assert(is_digit(d[k - 1]));
    }
}

/// std's `str::parse::<u32>` on the characters `s`.
pub fn parse_u32_chars(s: &[char]) -> (r: Option<u32>)
    ensures
        r == parse_u32_spec(s@),
{
    let start: usize = if s.len() > 0 && s[0] == '+' { 1 } else { 0 };
    let ghost d = unsigned_digits(s@);
    assert(d =~= s@.skip(start as int));
    if start >= s.len() {
        return None;
    }
    let mut k: usize = start;
    while k < s.len()
        invariant
            start <= k <= s@.len(),
            d =~= s@.skip(start as int),
            d == unsigned_digits(s@),
            forall|i: int| 0 <= i < k - start ==> is_digit(#[trigger] d[i]),
        decreases s@.len() - k,
    {
        if !('0' <= s[k] && s[k] <= '9') {
            assert(!is_digit(d[k - start]));
            return None;
        }
        k = k + 1;
    }
    let mut value: u64 = 0;
    let mut k: usize = start;
    while k < s.len()
        invariant
            start <= k <= s@.len(),
            d =~= s@.skip(start as int),
            d == unsigned_digits(s@),
            forall|i: int| 0 <= i < d.len() ==> is_digit(#[trigger] d[i]),
            value == decimal_value(d.take(k - start)),
            value <= u32::MAX,
        decreases s@.len() - k,
    {
        assert(d.take(k - start + 1).drop_last() =~= d.take(k - start));
        assert(d[k - start] == s@[k as int]);
        assert(is_digit(d[k - start]));
        let digit: u64 = (s[k] as u64) - ('0' as u64);
        value = value * 10 + digit;
        if value > 0xffff_ffff {
            proof {
                lemma_decimal_value_grows(d, k - start + 1, d.len() as int);
                assert(d.take(d.len() as int) =~= d);
            }
            return None;
        }
        k = k + 1;
    }
    assert(d.take(k - start) =~= d);
    Some(value as u32)
}

/// std's `str::parse::<bool>` on the characters `s`.
pub fn parse_bool_chars(s: &[char]) -> (r: Option<bool>)
    ensures
        r == parse_bool_spec(s@),
{
    let t: [char; 4] = ['t', 'r', 'u', 'e'];
    let f: [char; 5] = ['f', 'a', 'l', 's', 'e'];
    if chars_equal(s, &t) {
        assert(t@ =~= seq!['t', 'r', 'u', 'e']);
        Some(true)
    } else if chars_equal(s, &f) {
        assert(t@ =~= seq!['t', 'r', 'u', 'e']);
        assert(f@ =~= seq!['f', 'a', 'l', 's', 'e']);
        Some(false)
    } else {
        assert(t@ =~= seq!['t', 'r', 'u', 'e']);
        assert(f@ =~= seq!['f', 'a', 'l', 's', 'e']);
        None
    }
}

fn hex_digit_exec(d: u8) -> (c: char)
    requires
        d < 16,
    ensures
        c == hex_digit(d as nat),
{
    if d < 10 {
        (('0' as u8) + d) as char
    } else {
        (('A' as u8) + (d - 10)) as char
    }
}

/// `n` in decimal.
pub fn decimal_chars(n: u32) -> (r: Vec<char>)
    ensures
        r@ == decimal_text(n as nat),
    decreases n,
{
    let d = hex_digit_exec((n % 10) as u8);
    if n < 10 {
        let mut r: Vec<char> = Vec::new();
        r.push(d);
        assert(r@ =~= decimal_text(n as nat));
        r
    } else {
        let mut r = decimal_chars(n / 10);
        r.push(d);
        r
    }
}

/// `n` in upper-case hexadecimal without leading zeros.
pub fn upper_hex_u8(n: u8) -> (r: Vec<char>)
    ensures
        r@ == upper_hex(n as nat),
{
    let mut r: Vec<char> = Vec::new();
    if n < 16 {
        r.push(hex_digit_exec(n));
    } else {
        r.push(hex_digit_exec(n / 16));
        r.push(hex_digit_exec(n % 16));
        assert(upper_hex((n / 16) as nat) == seq![hex_digit((n / 16) as nat)]);
    }
    assert(r@ =~= upper_hex(n as nat));
    r
}



proof fn lemma_last_cut_without_occurrence(s: Seq<char>, p: Seq<char>, pos: int, cut: int)
    requires
        pos >= 0,
        forall|j: int| j >= pos ==> !occurs_at(s, p, j),
    ensures
        last_cut(s, p, pos, cut) == cut,
    decreases s.len() - pos,
{
    if p.len() == 0 || pos + p.len() > s.len() {
    } else {
        assert(!occurs_at(s, p, pos));
        lemma_last_cut_without_occurrence(s, p, pos + 1, cut);
    }
}

/// Splitting a text at a pattern it does not contain leaves the text whole.
pub proof fn law_split_last_without_separator(s: Seq<char>, p: Seq<char>)
    requires
        !contains_seq(s, p),
    ensures
        split_last(s, p) == s,
{
    lemma_last_cut_without_occurrence(s, p, 0, 0);
    assert(s.skip(0) =~= s);
}

proof fn lemma_last_cut_scans(s: Seq<char>, p: Seq<char>, pos: int, cut: int)
    requires
        p.len() > 0,
        0 <= cut <= pos,
    ensures
        ({
            let c = last_cut(s, p, pos, cut);
            ||| c == cut && forall|j: int| j >= pos ==> !occurs_at(s, p, j)
            ||| pos < c <= s.len() && c - p.len() >= pos && occurs_at(s, p, c - p.len()) && forall|j: int|
                j >= c ==> !occurs_at(s, p, j)
        }),
    decreases s.len() - pos,
{
    if pos + p.len() > s.len() {
    } else if s.subrange(pos, pos + p.len()) == p {
        lemma_last_cut_scans(s, p, pos + p.len(), pos + p.len());
        assert(occurs_at(s, p, pos));
    } else {
        lemma_last_cut_scans(s, p, pos + 1, cut);
        assert(!occurs_at(s, p, pos));
    }
}

/// Splitting at a non-empty pattern keeps the end of the text after the
/// last occurrence of the pattern, every character of it: either the
/// pattern does not occur and the whole text is kept, or the piece kept
/// follows an occurrence and holds no occurrence itself.
pub proof fn law_split_last_after_last_separator(s: Seq<char>, p: Seq<char>)
    requires
        p.len() > 0,
    ensures
        ({
            let r = split_last(s, p);
            let k = s.len() - r.len();
            &&& 0 <= k <= s.len()
            &&& s.skip(k) == r
            &&& !contains_seq(r, p)
            &&& !contains_seq(s, p) ==> r == s
            &&& contains_seq(s, p) ==> occurs_at(s, p, k - p.len())
        }),
{
    lemma_last_cut_scans(s, p, 0, 0);
    let c = last_cut(s, p, 0, 0);
    let r = s.skip(c);
    assert(r.len() == s.len() - c);
    if contains_seq(r, p) {
        let j = choose|j: int| occurs_at(r, p, j);
        assert(s.subrange(c + j, c + j + p.len()) =~= r.subrange(j, j + p.len()));
        assert(occurs_at(s, p, c + j));
    }
    if c == 0 {
        assert(s.skip(0) =~= s);
    }
}

/// Removing a character leaves no occurrence of it.
pub proof fn law_remove_char_removes(s: Seq<char>, c: char)
    ensures
        forall|i: int| 0 <= i < remove_char(s, c).len() ==> #[trigger] remove_char(s, c)[i] != c,
    decreases s.len(),
{
    if s.len() > 0 {
        law_remove_char_removes(s.drop_last(), c);
        let r = remove_char(s.drop_last(), c);
        if s.last() != c {
            assert forall|i: int| 0 <= i < r.push(s.last()).len() implies #[trigger] r.push(s.last())[i] != c by {
                if i < r.len() {
                    assert(r.push(s.last())[i] == r[i]);
                }
            }
        }
    }
}

} // verus!

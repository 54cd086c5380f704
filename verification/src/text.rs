//! Character-level text operations shared by the analyzers: substring
//! search, prefixes, trimming, line splitting, lowercasing and decimal
//! rendering. Each operation is stated over `Seq<char>`, the view of a
//! string.
use vstd::prelude::*;

verus! {

// ------------------------------------------------------------------
// Specifications
// ------------------------------------------------------------------

/// `needle` occurs in `hay` at position `i`.
pub open spec fn occurs_at(hay: Seq<char>, needle: Seq<char>, i: int) -> bool {
    0 <= i && i + needle.len() <= hay.len() && hay.subrange(i, i + needle.len()) == needle
}

/// `needle` occurs somewhere in `hay` (what `str::contains` decides).
pub open spec fn has_substring(hay: Seq<char>, needle: Seq<char>) -> bool {
    exists|i: int| occurs_at(hay, needle, i)
}

/// `s` begins with `p` (what `str::starts_with` decides).
pub open spec fn has_prefix(s: Seq<char>, p: Seq<char>) -> bool {
    p.len() <= s.len() && s.subrange(0, p.len() as int) == p
}

/// The first position at or after `i` where `needle` occurs in `hay`, or
/// -1 where there is none.
pub open spec fn find_from(hay: Seq<char>, needle: Seq<char>, i: int) -> int
    decreases hay.len() + 1 - i,
{
    if i < 0 || i + needle.len() > hay.len() {
        -1
    } else if occurs_at(hay, needle, i) {
        i
    } else {
        find_from(hay, needle, i + 1)
    }
}

/// The white-space characters of Unicode, as `char::is_whitespace` lists them.
pub open spec fn is_white(c: char) -> bool {
    ||| c == ' '
    ||| ('\t' <= c && c <= '\r')
    ||| c == '\u{85}'
    ||| c == '\u{A0}'
    ||| c == '\u{1680}'
    ||| ('\u{2000}' <= c && c <= '\u{200A}')
    ||| c == '\u{2028}'
    ||| c == '\u{2029}'
    ||| c == '\u{202F}'
    ||| c == '\u{205F}'
    ||| c == '\u{3000}'
}

/// Number of white-space characters at the start of `s`.
pub open spec fn leading_white(s: Seq<char>) -> nat
    decreases s.len(),
{
    if s.len() > 0 && is_white(s[0]) {
        1 + leading_white(s.drop_first())
    } else {
        0
    }
}

/// Number of white-space characters at the end of `s`.
pub open spec fn trailing_white(s: Seq<char>) -> nat
    decreases s.len(),
{
    if s.len() > 0 && is_white(s.last()) {
        1 + trailing_white(s.drop_last())
    } else {
        0
    }
}

/// `s` without leading and trailing white space (what `str::trim` returns).
pub open spec fn trimmed(s: Seq<char>) -> Seq<char> {
    let rest = s.skip(leading_white(s) as int);
    rest.take(rest.len() - trailing_white(rest))
}

/// `s` without one trailing carriage return.
pub open spec fn strip_cr(s: Seq<char>) -> Seq<char> {
    if s.len() > 0 && s.last() == '\r' {
        s.drop_last()
    } else {
        s
    }
}

/// Reading `s` from the left: the finished lines, and the unfinished one.
pub open spec fn line_scan(s: Seq<char>) -> (Seq<Seq<char>>, Seq<char>)
    decreases s.len(),
{
    if s.len() == 0 {
        (seq![], seq![])
    } else {
        let (done, cur) = line_scan(s.drop_last());
        if s.last() == '\n' {
            (done.push(strip_cr(cur)), seq![])
        } else {
            (done, cur.push(s.last()))
        }
    }
}

/// The lines of `s` as `str::lines` yields them: split at `\n`, a `\r`
/// before the `\n` dropped, and no empty line after a final `\n`.
pub open spec fn lines_of(s: Seq<char>) -> Seq<Seq<char>> {
    let (done, cur) = line_scan(s);
    if cur.len() == 0 {
        done
    } else {
        done.push(cur)
    }
}

/// ASCII lowercase of one character.
pub open spec fn ascii_lower_char(c: char) -> char {
    if 'A' <= c && c <= 'Z' {
        ((c as u32) + 32) as char
    } else {
        c
    }
}

/// ASCII lowercase of every character.
pub open spec fn ascii_lower(s: Seq<char>) -> Seq<char> {
    Seq::new(s.len(), |i: int| ascii_lower_char(s[i]))
}

/// Every character is ASCII.
pub open spec fn all_ascii(s: Seq<char>) -> bool {
    forall|i: int| 0 <= i < s.len() ==> (s[i] as u32) < 128
}

/// The Unicode lowercase of a string, as `str::to_lowercase` computes it.
pub uninterp spec fn lowercase(s: Seq<char>) -> Seq<char>;

/// The digit character for `d < 10`.
pub open spec fn digit_char(d: nat) -> char {
    ((48 + d) as u32) as char
}

/// Decimal rendering of `n`, as `{}` formats an unsigned integer.
pub open spec fn decimal(n: nat) -> Seq<char>
    decreases n,
{
    if n < 10 {
        seq![digit_char(n)]
    } else {
        decimal(n / 10).push(digit_char(n % 10))
    }
}

/// Decimal rendering of a signed integer, as `{}` formats it.
pub open spec fn signed_decimal(n: int) -> Seq<char> {
    if n < 0 {
        seq!['-'] + decimal((-n) as nat)
    } else {
        decimal(n as nat)
    }
}

/// `n` in decimal, padded on the left with zeros to `width` characters
/// (what `{:03}` does for width 3).
pub open spec fn zero_padded(n: nat, width: nat) -> Seq<char> {
    let d = decimal(n);
    if d.len() >= width {
        d
    } else {
        Seq::new((width - d.len()) as nat, |i: int| '0') + d
    }
}

/// The byte length of a string, as `str::len` reports it: the length of
/// its UTF-8 encoding.
pub open spec fn byte_len(s: Seq<char>) -> usize {
    vstd::utf8::encode_utf8(s).len() as usize
}

/// The views of a sequence of string slices.
pub open spec fn str_views(v: Seq<&str>) -> Seq<Seq<char>> {
    Seq::new(v.len(), |i: int| v[i]@)
}

/// `items` joined by `sep` (what `join` on a slice of strings returns).
pub open spec fn joined(items: Seq<Seq<char>>, sep: Seq<char>) -> Seq<char>
    decreases items.len(),
{
    if items.len() == 0 {
        seq![]
    } else if items.len() == 1 {
        items[0]
    } else {
        joined(items.drop_last(), sep) + sep + items.last()
    }
}

// ------------------------------------------------------------------
// Lemmas
// ------------------------------------------------------------------

/// A position that `find_from` returns is an occurrence.
pub proof fn lemma_find_from(hay: Seq<char>, needle: Seq<char>, i: int)
    ensures
        find_from(hay, needle, i) >= 0 ==> occurs_at(hay, needle, find_from(hay, needle, i)),
    decreases hay.len() + 1 - i,
{
    if !(i < 0 || i + needle.len() > hay.len()) && !occurs_at(hay, needle, i) {
        lemma_find_from(hay, needle, i + 1);
    }
}

/// A decimal rendering has at least one character.
pub proof fn lemma_decimal_nonempty(n: nat)
    ensures
        decimal(n).len() >= 1,
    decreases n,
{
    if n >= 10 {
        lemma_decimal_nonempty(n / 10);
    }
}

/// The leading white-space count is the first non-white position.
proof fn lemma_leading_white(s: Seq<char>, i: int)
    requires
        0 <= i <= s.len(),
        forall|j: int| 0 <= j < i ==> is_white(s[j]),
        i == s.len() || !is_white(s[i]),
    ensures
        leading_white(s) == i,
    decreases i,
{
    if i > 0 {
        let t = s.drop_first();
        assert forall|j: int| 0 <= j < i - 1 implies is_white(t[j]) by {
            assert(t[j] == s[j + 1]);
        }
        if i - 1 < t.len() {
            assert(t[i - 1] == s[i]);
        }
        lemma_leading_white(t, i - 1);
    }
}

/// The trailing white-space count is the distance from the last
/// non-white position to the end.
proof fn lemma_trailing_white(s: Seq<char>, e: int)
    requires
        0 <= e <= s.len(),
        forall|j: int| e <= j < s.len() ==> is_white(s[j]),
        e == 0 || !is_white(s[e - 1]),
    ensures
        trailing_white(s) == s.len() - e,
    decreases s.len() - e,
{
    if e < s.len() {
        let t = s.drop_last();
        assert forall|j: int| e <= j < t.len() implies is_white(t[j]) by {
            assert(t[j] == s[j]);
        }
        if e > 0 {
            assert(t[e - 1] == s[e - 1]);
        }
        lemma_trailing_white(t, e);
    }
}

/// The number that a string of decimal digits denotes.
pub open spec fn digits_value(s: Seq<char>) -> int
    decreases s.len(),
{
    if s.len() == 0 {
        0
    } else {
        digits_value(s.drop_last()) * 10 + ((s.last() as u32) - 48)
    }
}

/// A decimal rendering denotes the number rendered.
pub proof fn lemma_decimal_value(n: nat)
    ensures
        digits_value(decimal(n)) == n,
    decreases n,
{
    if n >= 10 {
        lemma_decimal_value(n / 10);
        assert(decimal(n).drop_last() =~= decimal(n / 10));
        assert(decimal(n).last() == digit_char(n % 10));
        assert((digit_char(n % 10) as u32) == 48 + n % 10);
        assert(n == (n / 10) * 10 + n % 10);
        assert(decimal(n).len() > 0);
        assert(digits_value(decimal(n)) == digits_value(decimal(n).drop_last()) * 10 + ((
        decimal(n).last() as u32) - 48));
    } else {
        assert(decimal(n).drop_last() =~= Seq::<char>::empty());
        assert(decimal(n).last() == digit_char(n));
        assert((digit_char(n) as u32) == 48 + n);
        assert(digits_value(decimal(n)) == digits_value(decimal(n).drop_last()) * 10 + ((
        decimal(n).last() as u32) - 48));
    }
}

proof fn lemma_zeros_value(k: nat)
    ensures
        digits_value(Seq::new(k, |i: int| '0')) == 0,
    decreases k,
{
    if k > 0 {
        assert(Seq::new(k, |i: int| '0').drop_last() =~= Seq::new((k - 1) as nat, |i: int| '0'));
        lemma_zeros_value((k - 1) as nat);
    }
}

proof fn lemma_leading_zeros_value(k: nat, s: Seq<char>)
    ensures
        digits_value(Seq::new(k, |i: int| '0') + s) == digits_value(s),
    decreases s.len(),
{
    let z = Seq::new(k, |i: int| '0');
    if s.len() == 0 {
        assert(z + s =~= z);
        lemma_zeros_value(k);
    } else {
        assert((z + s).drop_last() =~= z + s.drop_last());
        lemma_leading_zeros_value(k, s.drop_last());
    }
}

/// A zero-padded rendering denotes the number rendered.
pub proof fn lemma_zero_padded_value(n: nat, width: nat)
    ensures
        digits_value(zero_padded(n, width)) == n,
{
    lemma_decimal_value(n);
    let d = decimal(n);
    if d.len() < width {
        lemma_leading_zeros_value((width - d.len()) as nat, d);
    }
}

// ------------------------------------------------------------------
// Trusted items on std functions that vstd leaves unspecified
// ------------------------------------------------------------------

/// Calls `String::push`, which appends one character.
#[verifier::external_body]
pub(crate) fn push_char(s: &mut String, c: char)
    ensures
        final(s)@ == old(s)@.push(c),
{
    s.push(c)
}

/// Calls `str::to_lowercase`. Its result is named by `lowercase`; the
/// documented fact that ASCII letters map to their ASCII lowercase is
/// stated for ASCII input. Nothing more is stated of non-ASCII input.
#[verifier::external_body]
pub(crate) fn str_to_lowercase(s: &str) -> (r: String)
    ensures
        r@ == lowercase(s@),
        all_ascii(s@) ==> r@ == ascii_lower(s@),
{
    s.to_lowercase()
}

// ------------------------------------------------------------------
// Executable operations
// ------------------------------------------------------------------

/// Copies the characters of `s` into a vector.
pub fn chars_of(s: &str) -> (v: Vec<char>)
    ensures
        v@ == s@,
{
    let mut v: Vec<char> = Vec::new();
    for c in iter: s.chars()
        invariant
            v@ == iter.seq().take(iter.index() as int),
    {
        v.push(c);
    }
    v
}

/// Builds a string from characters.
pub fn string_of(cs: &[char]) -> (s: String)
    ensures
        s@ == cs@,
{
    let mut s = String::new();
    let n = cs.len();
    let mut i: usize = 0;
    while i < n
        invariant
            n == cs@.len(),
            i <= n,
            s@ == cs@.take(i as int),
        decreases n - i,
    {
        push_char(&mut s, cs[i]);
        i = i + 1;
        assert(s@ =~= cs@.take(i as int));
    }
    assert(cs@.take(n as int) =~= cs@);
    s
}

/// Copies `cs[from..to]` into a vector.
pub fn slice_chars(cs: &[char], from: usize, to: usize) -> (v: Vec<char>)
    requires
        from <= to <= cs@.len(),
    ensures
        v@ == cs@.subrange(from as int, to as int),
{
    let mut v: Vec<char> = Vec::new();
    let mut i = from;
    while i < to
        invariant
            from <= i <= to,
            to <= cs@.len(),
            v@ == cs@.subrange(from as int, i as int),
        decreases to - i,
    {
        v.push(cs[i]);
        i = i + 1;
        assert(v@ =~= cs@.subrange(from as int, i as int));
    }
    v
}

/// Whether `needle` occurs at position `i` of `hay`.
fn matches_at(hay: &[char], needle: &[char], i: usize) -> (b: bool)
    requires
        i + needle@.len() <= hay@.len(),
    ensures
        b == occurs_at(hay@, needle@, i as int),
{
    let n = needle.len();
    let h = hay.len();
    let mut k: usize = 0;
    while k < n
        invariant
            n == needle@.len(),
            h == hay@.len(),
            i + n <= h,
            k <= n,
            forall|t: int| 0 <= t < k ==> hay@[i + t] == needle@[t],
        decreases n - k,
    {
        if hay[i + k] != needle[k] {
            assert(hay@.subrange(i as int, i + n)[k as int] != needle@[k as int]);
            return false;
        }
        k = k + 1;
    }
    assert(hay@.subrange(i as int, i + n) =~= needle@);
    true
}

/// The first position where `needle` occurs in `hay`.
pub fn find_chars(hay: &[char], needle: &[char]) -> (r: Option<usize>)
    ensures
        match r {
            Some(i) => i as int == find_from(hay@, needle@, 0),
            None => find_from(hay@, needle@, 0) == -1,
        },
{
    let h = hay.len();
    let n = needle.len();
    if n > h {
        return None;
    }
    if n == 0 {
        assert(hay@.subrange(0, 0) =~= needle@);
        return Some(0);
    }
    let last = h - n;
    let mut i: usize = 0;
    while i <= last
        invariant
            h == hay@.len(),
            n == needle@.len(),
            1 <= n <= h,
            last == h - n,
            i <= last + 1,
            find_from(hay@, needle@, 0) == find_from(hay@, needle@, i as int),
        decreases last + 1 - i,
    {
        if matches_at(hay, needle, i) {
            return Some(i);
        }
        i = i + 1;
    }
    None
}

/// Substring search on characters.
pub fn contains_chars(hay: &[char], needle: &[char]) -> (b: bool)
    ensures
        b == has_substring(hay@, needle@),
{
    let h = hay.len();
    let n = needle.len();
    if n > h {
        assert forall|i: int| !occurs_at(hay@, needle@, i) by {}
        return false;
    }
    let last = h - n;
    let mut i: usize = 0;
    while i < last
        invariant
            h == hay@.len(),
            n == needle@.len(),
            last == h - n,
            i <= last,
            forall|j: int| 0 <= j < i ==> !occurs_at(hay@, needle@, j),
        decreases last - i,
    {
        if matches_at(hay, needle, i) {
            return true;
        }
        i = i + 1;
    }
    let b = matches_at(hay, needle, last);
    if !b {
        assert forall|j: int| !occurs_at(hay@, needle@, j) by {
            if 0 <= j < last {
            }
        }
    }
    b
}

/// Whether the characters `hay` contain the text `needle`.
pub fn contains_str(hay: &[char], needle: &str) -> (b: bool)
    ensures
        b == has_substring(hay@, needle@),
{
    let nv = chars_of(needle);
    contains_chars(hay, nv.as_slice())
}

/// `str::contains` with a string needle.
pub fn str_contains(hay: &str, needle: &str) -> (b: bool)
    ensures
        b == has_substring(hay@, needle@),
{
    let hv = chars_of(hay);
    contains_str(hv.as_slice(), needle)
}

/// Whether the characters `s` are exactly the text `t`.
pub fn equals_str(s: &[char], t: &str) -> (b: bool)
    ensures
        b == (s@ == t@),
{
    let tv = chars_of(t);
    if s.len() != tv.len() {
        return false;
    }
    if s.len() == 0 {
        assert(s@ =~= tv@);
        return true;
    }
    let r = matches_at(s, tv.as_slice(), 0);
    assert(s@.subrange(0, s@.len() as int) =~= s@);
    r
}

/// Whether two texts are equal.
pub fn str_equals(a: &str, b: &str) -> (r: bool)
    ensures
        r == (a@ == b@),
{
    let av = chars_of(a);
    equals_str(av.as_slice(), b)
}

/// Whether the characters `s` begin with the text `prefix`.
pub fn starts_with_str(s: &[char], prefix: &str) -> (b: bool)
    ensures
        b == has_prefix(s@, prefix@),
{
    let p = chars_of(prefix);
    if p.len() > s.len() {
        return false;
    }
    let r = matches_at(s, p.as_slice(), 0);
    assert(has_prefix(s@, p@) == occurs_at(s@, p@, 0));
    r
}

/// `str::starts_with` with a string prefix.
pub fn str_starts_with(s: &str, prefix: &str) -> (b: bool)
    ensures
        b == has_prefix(s@, prefix@),
{
    let sv = chars_of(s);
    starts_with_str(sv.as_slice(), prefix)
}

/// `char::is_whitespace`.
pub fn is_white_char(c: char) -> (b: bool)
    ensures
        b == is_white(c),
{
    c == ' ' || ('\t' <= c && c <= '\r') || c == '\u{85}' || c == '\u{A0}' || c == '\u{1680}'
        || ('\u{2000}' <= c && c <= '\u{200A}') || c == '\u{2028}' || c == '\u{2029}' || c
        == '\u{202F}' || c == '\u{205F}' || c == '\u{3000}'
}

/// The characters of `s` without leading and trailing white space.
pub fn trim_chars(s: &[char]) -> (t: Vec<char>)
    ensures
        t@ == trimmed(s@),
{
    let n = s.len();
    let mut a: usize = 0;
    while a < n && is_white_char(s[a])
        invariant
            n == s@.len(),
            a <= n,
            forall|j: int| 0 <= j < a ==> is_white(s@[j]),
        decreases n - a,
    {
        a = a + 1;
    }
    proof {
        lemma_leading_white(s@, a as int);
    }
    let ghost rest = s@.skip(a as int);
    let mut b: usize = n;
    while b > a && is_white_char(s[b - 1])
        invariant
            n == s@.len(),
            a <= b <= n,
            forall|j: int| b <= j < n ==> is_white(s@[j]),
        decreases b,
    {
        b = b - 1;
    }
    proof {
        assert forall|j: int| b - a <= j < rest.len() implies is_white(rest[j]) by {
            assert(rest[j] == s@[a + j]);
        }
        if b > a {
            assert(rest[b - a - 1] == s@[b - 1]);
        }
        lemma_trailing_white(rest, b - a);
        assert(rest.take(b - a) =~= s@.subrange(a as int, b as int));
    }
    slice_chars(s, a, b)
}

/// `str::trim`.
pub fn str_trim(s: &str) -> (t: String)
    ensures
        t@ == trimmed(s@),
{
    let cs = chars_of(s);
    let t = trim_chars(cs.as_slice());
    string_of(t.as_slice())
}

/// The views of a sequence of character vectors.
pub open spec fn views(v: Seq<Vec<char>>) -> Seq<Seq<char>> {
    Seq::new(v.len(), |i: int| v[i]@)
}

/// The lines of `s`, as `str::lines` yields them.
pub fn split_lines(s: &[char]) -> (lines: Vec<Vec<char>>)
    ensures
        views(lines@) == lines_of(s@),
{
    let n = s.len();
    let mut done: Vec<Vec<char>> = Vec::new();
    let mut cur: Vec<char> = Vec::new();
    let mut i: usize = 0;
    while i < n
        invariant
            n == s@.len(),
            i <= n,
            (views(done@), cur@) == line_scan(s@.take(i as int)),
        decreases n - i,
    {
        let c = s[i];
        let ghost prev = s@.take(i as int);
        let ghost next = s@.take(i + 1);
        proof {
            assert(next.drop_last() =~= prev);
            assert(next.last() == c);
        }
        let ghost before = views(done@);
        let ghost cur_before = cur@;
        if c == '\n' {
            let k = cur.len();
            let line = if k > 0 && cur[k - 1] == '\r' {
                slice_chars(cur.as_slice(), 0, k - 1)
            } else {
                slice_chars(cur.as_slice(), 0, k)
            };
            proof {
                assert(cur@.subrange(0, k as int) =~= cur@);
                if k > 0 {
                    assert(cur@.subrange(0, k - 1) =~= cur@.drop_last());
                }
                assert(line@ == strip_cr(cur_before));
            }
            done.push(line);
            cur = Vec::new();
            proof {
                assert(views(done@) =~= before.push(strip_cr(cur_before)));
                assert(cur@ =~= Seq::<char>::empty());
                assert(line_scan(next) == (before.push(strip_cr(cur_before)), Seq::<char>::empty()));
            }
        } else {
            cur.push(c);
            proof {
                assert(views(done@) =~= before);
                assert(line_scan(next) == (before, cur_before.push(c)));
            }
        }
        i = i + 1;
    }
    proof {
        assert(s@.take(n as int) =~= s@);
    }
    if cur.len() > 0 {
        let ghost before = views(done@);
        done.push(cur);
        proof {
            assert(views(done@) =~= before.push(line_scan(s@).1));
        }
    }
    done
}

/// `items` joined by `sep`.
pub fn join_strs(items: &Vec<&str>, sep: &str) -> (r: String)
    ensures
        r@ == joined(str_views(items@), sep@),
{
    let mut r = String::new();
    let n = items.len();
    for i in 0..n
        invariant
            n == items@.len(),
            r@ == joined(str_views(items@.take(i as int)), sep@),
    {
        proof {
            assert(str_views(items@.take(i + 1)).drop_last() =~= str_views(items@.take(i as int)));
            assert(str_views(items@.take(i + 1)).last() == items@[i as int]@);
        }
        if i > 0 {
            r.append(sep);
        } else {
            assert(r@ =~= Seq::<char>::empty());
        }
        r.append(items[i]);
    }
    proof {
        assert(items@.take(n as int) =~= items@);
    }
    r
}

/// The character of a digit `d < 10`.
fn digit(d: u64) -> (c: char)
    requires
        d < 10,
    ensures
        c == digit_char(d as nat),
{
    let b: u8 = (48 + d) as u8;
    b as char
}

/// Appends the decimal rendering of `n`.
pub fn push_decimal(out: &mut String, n: u64)
    ensures
        final(out)@ == old(out)@ + decimal(n as nat),
    decreases n,
{
    if n >= 10 {
        push_decimal(out, n / 10);
    }
    push_char(out, digit(n % 10));
    proof {
        if n >= 10 {
            assert(final(out)@ =~= old(out)@ + decimal(n as nat));
        } else {
            assert(final(out)@ =~= old(out)@ + decimal(n as nat));
        }
    }
}

/// Appends `n` in decimal, padded with zeros to `width` characters.
pub fn push_zero_padded(out: &mut String, n: u64, width: usize)
    ensures
        final(out)@ == old(out)@ + zero_padded(n as nat, width as nat),
{
    let mut digits = String::new();
    push_decimal(&mut digits, n);
    assert(digits@ =~= decimal(n as nat));
    let dl = digits.unicode_len();
    let ghost start = out@;
    if dl < width {
        let pad = width - dl;
        let mut i: usize = 0;
        while i < pad
            invariant
                i <= pad,
                out@ == start + Seq::new(i as nat, |j: int| '0'),
            decreases pad - i,
        {
            push_char(out, '0');
            i = i + 1;
            assert(out@ =~= start + Seq::new(i as nat, |j: int| '0'));
        }
    }
    out.append(digits.as_str());
    assert(out@ =~= start + zero_padded(n as nat, width as nat));
}

/// Appends the decimal rendering of a signed integer.
pub fn push_signed_decimal(out: &mut String, n: i64)
    ensures
        final(out)@ == old(out)@ + signed_decimal(n as int),
{
    if n < 0 {
        push_char(out, '-');
        let m: u64 = ((-(n + 1)) as u64) + 1;
        push_decimal(out, m);
        assert(final(out)@ =~= old(out)@ + signed_decimal(n as int));
    } else {
        push_decimal(out, n as u64);
    }
}

} // verus!

//! Verified text utilities over `Seq<char>` views: substring search,
//! splitting, replacement, trimming, ASCII case folding and decimal
//! conversion. These carry the string processing of the whole engine.

use vstd::prelude::*;
use vstd::string::StrSliceExecFns;
use vstd::string::StringExecFns;

verus! {

/// `needle` occurs in `hay` starting at index `i`.
pub open spec fn contains_at(hay: Seq<char>, i: int, needle: Seq<char>) -> bool {
    0 <= i && i + needle.len() <= hay.len() && hay.subrange(i, i + needle.len() as int) == needle
}

/// `needle` occurs somewhere in `hay`.
pub open spec fn contains_seq(hay: Seq<char>, needle: Seq<char>) -> bool {
    exists|i: int| contains_at(hay, i, needle)
}

/// ASCII lower-casing of a single character; every other character is kept.
pub open spec fn lower_char(c: char) -> char {
    if 'A' <= c && c <= 'Z' {
        (((c as u8) + 32) as char)
    } else {
        c
    }
}

/// ASCII lower-casing of a whole character sequence.
pub open spec fn lower_seq(s: Seq<char>) -> Seq<char> {
    s.map_values(|c: char| lower_char(c))
}

/// Compares two string slices by their character sequences.
pub fn str_eq(a: &str, b: &str) -> (r: bool)
    ensures
        r == (a@ == b@),
{
    let a_len = a.unicode_len();
    let b_len = b.unicode_len();
    if a_len != b_len {
        assert(a@ != b@);
        return false;
    }
    let mut i: usize = 0;
    while i < a_len
        invariant
            i <= a_len,
            a_len == a@.len(),
            a_len == b@.len(),
            forall|j: int| 0 <= j < i ==> a@[j] == b@[j],
        decreases a_len - i,
    {
        if a.get_char(i) != b.get_char(i) {
            return false;
        }
        i += 1;
    }
    assert(a@ =~= b@);
    true
}

/// Whether `needle` occurs in `hay` at position `i`.
pub fn match_at(hay: &str, i: usize, needle: &str) -> (r: bool)
    requires
        i + needle@.len() <= hay@.len(),
        hay@.len() <= usize::MAX,
    ensures
        r == contains_at(hay@, i as int, needle@),
{
    let n = needle.unicode_len();
    let mut j: usize = 0;
    while j < n
        invariant
            j <= n,
            n == needle@.len(),
            i + n <= hay@.len() <= usize::MAX,
            forall|k: int| 0 <= k < j ==> hay@[i + k] == needle@[k],
        decreases n - j,
    {
        if hay.get_char(i + j) != needle.get_char(j) {
            assert(hay@.subrange(i as int, i + n as int)[j as int] != needle@[j as int]);
            return false;
        }
        j += 1;
    }
    assert(hay@.subrange(i as int, i + n as int) =~= needle@);
    true
}

/// `needle` occurs at `i` in `hay` and nowhere earlier.
pub open spec fn first_at(hay: Seq<char>, needle: Seq<char>, i: int) -> bool {
    contains_at(hay, i, needle) && (forall|j: int| 0 <= j < i ==> !contains_at(hay, j, needle))
}

/// Index of the first occurrence of `needle` in `hay`, if any.
pub fn find_str(hay: &str, needle: &str) -> (r: Option<usize>)
    ensures
        match r {
            Some(i) => first_at(hay@, needle@, i as int),
            None => !contains_seq(hay@, needle@),
        },
{
    let hay_len = hay.unicode_len();
    let n = needle.unicode_len();
    if n > hay_len {
        assert(forall|i: int| !contains_at(hay@, i, needle@));
        return None;
    }
    if n == 0 {
        assert(contains_at(hay@, 0, needle@)) by {
            assert(hay@.subrange(0, 0) =~= needle@);
        }
        return Some(0);
    }
    let mut i: usize = 0;
    while i <= hay_len - n
        invariant
            hay_len == hay@.len(),
            n == needle@.len(),
            1 <= n <= hay_len,
            i <= hay_len - n + 1,
            forall|j: int| 0 <= j < i ==> !contains_at(hay@, j, needle@),
        decreases hay_len - i,
    {
        if match_at(hay, i, needle) {
            return Some(i);
        }
        i += 1;
    }
    assert(forall|j: int| j > hay_len - n ==> !contains_at(hay@, j, needle@));
    None
}

/// Whether `needle` occurs anywhere in `hay`.
pub fn contains_str(hay: &str, needle: &str) -> (r: bool)
    ensures
        r == contains_seq(hay@, needle@),
{
    match find_str(hay, needle) {
        Some(_) => true,
        None => false,
    }
}

/// The pieces of `s` between the non-overlapping, left-to-right occurrences
/// of `sep`, scanning from position `i`; `start` marks where the piece in
/// progress began.
pub open spec fn split_scan(s: Seq<char>, sep: Seq<char>, start: int, i: int) -> Seq<Seq<char>>
    decreases s.len() - i,
{
    if sep.len() == 0 || !(0 <= start <= i && i <= s.len()) {
        seq![]
    } else if i + sep.len() > s.len() {
        seq![s.subrange(start, s.len() as int)]
    } else if s.subrange(i, i + sep.len() as int) == sep {
        seq![s.subrange(start, i)] + split_scan(s, sep, i + sep.len() as int, i + sep.len() as int)
    } else {
        split_scan(s, sep, start, i + 1)
    }
}

/// `s` split on `sep`, keeping empty pieces, as `str::split` does.
pub open spec fn split_seq(s: Seq<char>, sep: Seq<char>) -> Seq<Seq<char>> {
    split_scan(s, sep, 0, 0)
}

/// Scanning over positions where the separator does not occur changes
/// nothing.
proof fn lemma_split_scan_walk(s: Seq<char>, sep: Seq<char>, start: int, i: int, j: int)
    requires
        sep.len() >= 1,
        0 <= start <= i <= j,
        j + sep.len() <= s.len() + 1,
        forall|k: int| i <= k < j ==> #[trigger] s.subrange(k, k + sep.len() as int) != sep,
    ensures
        split_scan(s, sep, start, i) == split_scan(s, sep, start, j),
    decreases j - i,
{
    if i < j {
        assert(s.subrange(i, i + sep.len() as int) != sep);
        lemma_split_scan_walk(s, sep, start, i + 1, j);
    }
}

/// A scan that starts at its piece boundary is the scan of the remaining
/// text.
proof fn lemma_split_scan_shift(s: Seq<char>, sep: Seq<char>, start: int, i: int)
    requires
        sep.len() >= 1,
        0 <= start <= i <= s.len(),
    ensures
        split_scan(s, sep, start, i) == split_scan(s.skip(start), sep, 0, i - start),
    decreases s.len() - i,
{
    let t = s.skip(start);
    if i + sep.len() > s.len() {
        assert(t.subrange(0, t.len() as int) =~= s.subrange(start, s.len() as int));
        assert(split_scan(s, sep, start, i) =~= split_scan(t, sep, 0, i - start));
    } else {
        assert(t.subrange(i - start, i - start + sep.len()) =~= s.subrange(
            i,
            i + sep.len() as int,
        ));
        if s.subrange(i, i + sep.len() as int) == sep {
            let l = sep.len() as int;
            lemma_split_scan_shift(s, sep, i + l, i + l);
            lemma_split_scan_shift(t, sep, i - start + l, i - start + l);
            assert(t.skip(i - start + l) =~= s.skip(i + l));
            assert(t.subrange(0, i - start) =~= s.subrange(start, i));
            assert(split_scan(s, sep, start, i) =~= split_scan(t, sep, 0, i - start));
        } else {
            lemma_split_scan_shift(s, sep, start, i + 1);
        }
    }
}

/// Splitting `piece`, a one-character separator, then `rest`, gives
/// `piece` and then the split of `rest`, when the separator does not
/// occur in `piece`.
pub proof fn lemma_split_prepend(piece: Seq<char>, sep: Seq<char>, rest: Seq<char>)
    requires
        sep.len() == 1,
        forall|i: int| 0 <= i < piece.len() ==> piece[i] != sep[0],
    ensures
        split_seq(piece + sep + rest, sep) == seq![piece] + split_seq(rest, sep),
{
    let s = piece + sep + rest;
    let l = piece.len() as int;
    assert forall|k: int| 0 <= k < l implies #[trigger] s.subrange(k, k + 1) != sep by {
        assert(s.subrange(k, k + 1) =~= seq![piece[k]]);
        assert(s.subrange(k, k + 1)[0] != sep[0]);
    }
    lemma_split_scan_walk(s, sep, 0, 0, l);
    assert(s.subrange(l, l + 1) =~= sep);
    assert(split_scan(s, sep, 0, l) == seq![s.subrange(0, l)] + split_scan(s, sep, l + 1, l + 1));
    lemma_split_scan_shift(s, sep, l + 1, l + 1);
    assert(s.skip(l + 1) =~= rest);
    assert(s.subrange(0, l) =~= piece);
}

/// Splitting on a one-character separator that does not occur gives the
/// text whole.
pub proof fn lemma_split_absent(s: Seq<char>, sep: Seq<char>)
    requires
        sep.len() == 1,
        forall|i: int| 0 <= i < s.len() ==> s[i] != sep[0],
    ensures
        split_seq(s, sep) == seq![s],
{
    assert forall|k: int| 0 <= k < s.len() implies #[trigger] s.subrange(k, k + 1) != sep by {
        assert(s.subrange(k, k + 1) =~= seq![s[k]]);
        assert(s.subrange(k, k + 1)[0] != sep[0]);
    }
    lemma_split_scan_walk(s, sep, 0, 0, s.len() as int);
    assert(split_scan(s, sep, 0, s.len() as int) == seq![s.subrange(0, s.len() as int)]);
    assert(s.subrange(0, s.len() as int) =~= s);
}

/// Splits `s` on `sep`, keeping empty pieces.
pub fn split_str(s: &str, sep: &str) -> (r: Vec<String>)
    requires
        sep@.len() >= 1,
    ensures
        r.deep_view() == split_seq(s@, sep@),
{
    let s_len = s.unicode_len();
    let n = sep.unicode_len();
    let mut r: Vec<String> = Vec::new();
    let mut start: usize = 0;
    let mut i: usize = 0;
    assert(r.deep_view() =~= Seq::<Seq<char>>::empty());
    if n > s_len {
        let piece = String::from_str(s.substring_char(0, s_len));
        r.push(piece);
        assert(r.deep_view() =~= seq![s@.subrange(0, s_len as int)]);
        return r;
    }
    while i <= s_len - n
        invariant
            s_len == s@.len(),
            n == sep@.len(),
            1 <= n <= s_len,
            0 <= start <= i <= s_len,
            r.deep_view() + split_scan(s@, sep@, start as int, i as int) == split_seq(s@, sep@),
        decreases s_len - i,
    {
        if match_at(s, i, sep) {
            let piece = String::from_str(s.substring_char(start, i));
            let ghost old_r = r.deep_view();
            r.push(piece);
            assert(r.deep_view() =~= old_r + seq![s@.subrange(start as int, i as int)]);
            i = i + n;
            start = i;
        } else {
            i += 1;
        }
    }
    let piece = String::from_str(s.substring_char(start, s_len));
    let ghost old_r = r.deep_view();
    r.push(piece);
    assert(r.deep_view() =~= old_r + seq![s@.subrange(start as int, s_len as int)]);
    assert(split_scan(s@, sep@, start as int, i as int) =~= seq![
        s@.subrange(start as int, s_len as int),
    ]);
    r
}

/// At most one index is the first occurrence.
pub proof fn lemma_first_at_unique(hay: Seq<char>, needle: Seq<char>, i: int, j: int)
    requires
        first_at(hay, needle, i),
        first_at(hay, needle, j),
    ensures
        i == j,
{
    if i < j {
        assert(contains_at(hay, i, needle));
    } else if j < i {
        assert(contains_at(hay, j, needle));
    }
}

/// The index of the first occurrence of `needle` in `hay`; meaningful only
/// when `contains_seq(hay, needle)` holds.
pub open spec fn first_index(hay: Seq<char>, needle: Seq<char>) -> int {
    choose|i: int| first_at(hay, needle, i)
}

/// `hay` up to the first occurrence of `needle`.
pub open spec fn before_first(hay: Seq<char>, needle: Seq<char>) -> Seq<char> {
    hay.take(first_index(hay, needle))
}

/// `hay` after the first occurrence of `needle`.
pub open spec fn after_first(hay: Seq<char>, needle: Seq<char>) -> Seq<char> {
    hay.skip(first_index(hay, needle) + needle.len() as int)
}

/// Splits `s` at the first occurrence of `sep`, dropping the separator.
pub fn split_first(s: &str, sep: &str) -> (r: Option<(String, String)>)
    ensures
        match r {
            Some(p) => contains_seq(s@, sep@) && p.0@ == before_first(s@, sep@) && p.1@
                == after_first(s@, sep@),
            None => !contains_seq(s@, sep@),
        },
{
    match find_str(s, sep) {
        Some(i) => {
            proof {
                assert(contains_at(s@, i as int, sep@));
                assert(exists|j: int| first_at(s@, sep@, j)) by {
                    assert(first_at(s@, sep@, i as int));
                }
                lemma_first_at_unique(s@, sep@, i as int, first_index(s@, sep@));
            }
            let len = s.unicode_len();
            let n = sep.unicode_len();
            let head = String::from_str(s.substring_char(0, i));
            let tail = String::from_str(s.substring_char(i + n, len));
            assert(s@.subrange(0, i as int) =~= before_first(s@, sep@));
            assert(s@.subrange(i + n, len as int) =~= after_first(s@, sep@));
            Some((head, tail))
        },
        None => None,
    }
}

/// `s` from position `i` on, with every occurrence of `from` replaced by
/// `to`, scanning left to right without overlap, as `str::replace` does.
pub open spec fn replace_scan(s: Seq<char>, from: Seq<char>, to: Seq<char>, i: int) -> Seq<char>
    decreases s.len() - i,
{
    if from.len() == 0 || !(0 <= i <= s.len()) {
        Seq::empty()
    } else if i + from.len() > s.len() {
        s.subrange(i, s.len() as int)
    } else if s.subrange(i, i + from.len() as int) == from {
        to + replace_scan(s, from, to, i + from.len() as int)
    } else {
        seq![s[i]] + replace_scan(s, from, to, i + 1)
    }
}

/// `s` with every occurrence of `from` replaced by `to`.
pub open spec fn replace_seq(s: Seq<char>, from: Seq<char>, to: Seq<char>) -> Seq<char> {
    replace_scan(s, from, to, 0)
}

/// Replaces every occurrence of `from` in `s` by `to`.
pub fn replace_str(s: &str, from: &str, to: &str) -> (r: String)
    requires
        from@.len() >= 1,
    ensures
        r@ == replace_seq(s@, from@, to@),
{
    let s_len = s.unicode_len();
    let n = from.unicode_len();
    let mut out = String::new();
    let mut i: usize = 0;
    while i < s_len
        invariant
            s_len == s@.len(),
            n == from@.len(),
            n >= 1,
            0 <= i <= s_len,
            out@ + replace_scan(s@, from@, to@, i as int) == replace_seq(s@, from@, to@),
        decreases s_len - i,
    {
        if n <= s_len - i && match_at(s, i, from) {
            out.append(to);
            i = i + n;
        } else {
            out.append(s.substring_char(i, i + 1));
            assert(s@.subrange(i as int, i + 1) =~= seq![s@[i as int]]);
            i += 1;
        }
    }
    assert(out@ =~= replace_seq(s@, from@, to@));
    out
}

/// ASCII lower-cases every character of `s`.
pub fn ascii_lower(s: &str) -> (r: String)
    ensures
        r@ == lower_seq(s@),
{
    let s_len = s.unicode_len();
    let mut out = String::new();
    let mut i: usize = 0;
    while i < s_len
        invariant
            s_len == s@.len(),
            0 <= i <= s_len,
            out@ =~= lower_seq(s@).take(i as int),
        decreases s_len - i,
    {
        let c = s.get_char(i);
        if 'A' <= c && c <= 'Z' {
            out.append(lower_ascii_str(c));
        } else {
            out.append(s.substring_char(i, i + 1));
            assert(s@.subrange(i as int, i + 1) =~= seq![s@[i as int]]);
        }
        assert(out@ =~= lower_seq(s@).take(i + 1));
        i += 1;
    }
    assert(lower_seq(s@).take(s_len as int) =~= lower_seq(s@));
    out
}

/// Whitespace as recognised by the trimming helper.
pub open spec fn is_space(c: char) -> bool {
    c == ' ' || c == '\t' || c == '\r' || c == '\n'
}

/// `s` without its leading whitespace.
pub open spec fn trim_front(s: Seq<char>) -> Seq<char>
    decreases s.len(),
{
    if s.len() > 0 && is_space(s[0]) {
        trim_front(s.drop_first())
    } else {
        s
    }
}

/// `s` without its trailing whitespace.
pub open spec fn trim_back(s: Seq<char>) -> Seq<char>
    decreases s.len(),
{
    if s.len() > 0 && is_space(s.last()) {
        trim_back(s.drop_last())
    } else {
        s
    }
}

/// `s` without leading and trailing whitespace.
pub open spec fn trim_seq(s: Seq<char>) -> Seq<char> {
    trim_back(trim_front(s))
}

/// Whether the character of `s` at `i` is whitespace.
fn is_space_at(s: &str, i: usize) -> (r: bool)
    requires
        i < s@.len(),
    ensures
        r == is_space(s@[i as int]),
{
    let c = s.get_char(i);
    c == ' ' || c == '\t' || c == '\r' || c == '\n'
}

/// Strips leading and trailing whitespace.
pub fn trim_str(s: &str) -> (r: String)
    ensures
        r@ == trim_seq(s@),
{
    let len = s.unicode_len();
    let mut a: usize = 0;
    assert(s@.skip(0) =~= s@);
    while a < len && is_space_at(s, a)
        invariant
            len == s@.len(),
            0 <= a <= len,
            trim_front(s@) == trim_front(s@.skip(a as int)),
        decreases len - a,
    {
        assert(s@.skip(a as int).drop_first() =~= s@.skip(a + 1));
        a += 1;
    }
    assert(trim_front(s@) == s@.skip(a as int)) by {
        if a < len {
            assert(s@.skip(a as int)[0] == s@[a as int]);
        } else {
            assert(s@.skip(a as int) =~= Seq::<char>::empty());
        }
    }
    let mut b: usize = len;
    assert(s@.subrange(a as int, b as int) =~= s@.skip(a as int));
    while b > a && is_space_at(s, b - 1)
        invariant
            len == s@.len(),
            0 <= a <= b <= len,
            trim_back(s@.skip(a as int)) == trim_back(s@.subrange(a as int, b as int)),
        decreases b,
    {
        assert(s@.subrange(a as int, b as int).drop_last() =~= s@.subrange(a as int, b - 1));
        assert(s@.subrange(a as int, b as int).last() == s@[b - 1]);
        b -= 1;
    }
    assert(trim_back(s@.subrange(a as int, b as int)) == s@.subrange(a as int, b as int)) by {
        if b > a {
            assert(s@.subrange(a as int, b as int).last() == s@[b - 1]);
        } else {
            assert(s@.subrange(a as int, b as int) =~= Seq::<char>::empty());
        }
    }
    String::from_str(s.substring_char(a, b))
}

/// `p` is a prefix of `s` up to ASCII case.
pub open spec fn has_prefix_ci(s: Seq<char>, p: Seq<char>) -> bool {
    p.len() <= s.len() && lower_seq(s.subrange(0, p.len() as int)) == lower_seq(p)
}

/// ASCII lower-cases one character.
fn lower_char_x(c: char) -> (r: char)
    ensures
        r == lower_char(c),
{
    if 'A' <= c && c <= 'Z' {
        ((c as u8) + 32) as char
    } else {
        c
    }
}

/// Whether `s` starts with `p`, comparing ASCII letters without case.
pub fn starts_with_ci(s: &str, p: &str) -> (r: bool)
    ensures
        r == has_prefix_ci(s@, p@),
{
    let s_len = s.unicode_len();
    let n = p.unicode_len();
    if n > s_len {
        return false;
    }
    let mut i: usize = 0;
    while i < n
        invariant
            s_len == s@.len(),
            n == p@.len(),
            n <= s_len,
            0 <= i <= n,
            forall|j: int| 0 <= j < i ==> lower_char(s@[j]) == lower_char(p@[j]),
        decreases n - i,
    {
        if lower_char_x(s.get_char(i)) != lower_char_x(p.get_char(i)) {
            assert(lower_seq(s@.subrange(0, n as int))[i as int] != lower_seq(p@)[i as int]);
            return false;
        }
        i += 1;
    }
    assert(lower_seq(s@.subrange(0, n as int)) =~= lower_seq(p@));
    true
}

/// The decimal digit character for a value in `0..10`.
pub open spec fn dec_digit(d: int) -> char {
    (((d + 0x30) as u8) as char)
}

/// The decimal text of a natural number, most significant digit first.
pub open spec fn dec_str(n: nat) -> Seq<char>
    decreases n,
{
    if n < 10 {
        seq![dec_digit(n as int)]
    } else {
        dec_str(n / 10).push(dec_digit((n % 10) as int))
    }
}

/// The one-character string for a decimal digit value.
fn digit_str(d: u64) -> (r: &'static str)
    requires
        d < 10,
    ensures
        r@ == seq![dec_digit(d as int)],
{
    let s: &'static str = match d {
        0 => "0",
        1 => "1",
        2 => "2",
        3 => "3",
        4 => "4",
        5 => "5",
        6 => "6",
        7 => "7",
        8 => "8",
        _ => "9",
    };
    proof {
        reveal_strlit("0");
        reveal_strlit("1");
        reveal_strlit("2");
        reveal_strlit("3");
        reveal_strlit("4");
        reveal_strlit("5");
        reveal_strlit("6");
        reveal_strlit("7");
        reveal_strlit("8");
        reveal_strlit("9");
    }
    s
}

/// Writes `n` in decimal.
pub fn u64_to_dec(n: u64) -> (r: String)
    ensures
        r@ == dec_str(n as nat),
    decreases n,
{
    if n < 10 {
        String::from_str(digit_str(n))
    } else {
        let mut s = u64_to_dec(n / 10);
        s.append(digit_str(n % 10));
        assert(s@ =~= dec_str(n as nat));
        s
    }
}

/// A non-empty, all-digit character sequence.
pub open spec fn is_dec_seq(s: Seq<char>) -> bool {
    s.len() > 0 && forall|i: int| 0 <= i < s.len() ==> '0' <= #[trigger] s[i] && s[i] <= '9'
}

/// The value of a digit sequence, read in decimal.
pub open spec fn dec_val(s: Seq<char>) -> int
    decreases s.len(),
{
    if s.len() == 0 {
        0
    } else {
        dec_val(s.drop_last()) * 10 + (s.last() as int - 0x30)
    }
}

proof fn lemma_dec_val_monotonic(s: Seq<char>, i: int)
    requires
        is_dec_seq(s),
        0 <= i <= s.len(),
    ensures
        dec_val(s) >= dec_val(s.take(i)),
        dec_val(s.take(i)) >= 0,
    decreases s.len() - i,
{
    if i == s.len() {
        assert(s.take(i) =~= s);
        lemma_dec_val_nonneg(s);
    } else {
        lemma_dec_val_monotonic(s, i + 1);
        assert(s.take(i + 1).drop_last() =~= s.take(i));
        assert(s.take(i + 1).last() == s[i]);
        lemma_dec_val_nonneg(s.take(i));
    }
}

proof fn lemma_dec_val_nonneg(s: Seq<char>)
    requires
        forall|i: int| 0 <= i < s.len() ==> '0' <= #[trigger] s[i] && s[i] <= '9',
    ensures
        dec_val(s) >= 0,
    decreases s.len(),
{
    if s.len() > 0 {
        lemma_dec_val_nonneg(s.drop_last());
    }
}

/// Reads a non-empty, all-digit string as a decimal number; anything else,
/// and any value above `usize::MAX`, is refused.
pub fn parse_usize_dec(s: &str) -> (r: Option<usize>)
    ensures
        match r {
            Some(v) => is_dec_seq(s@) && dec_val(s@) == v,
            None => !(is_dec_seq(s@) && dec_val(s@) <= usize::MAX),
        },
{
    let len = s.unicode_len();
    if len == 0 {
        return None;
    }
    let mut acc: usize = 0;
    let mut i: usize = 0;
    assert(s@.take(0) =~= Seq::<char>::empty());
    while i < len
        invariant
            len == s@.len(),
            0 <= i <= len,
            acc == dec_val(s@.take(i as int)),
            forall|j: int| 0 <= j < i ==> '0' <= #[trigger] s@[j] && s@[j] <= '9',
        decreases len - i,
    {
        let c = s.get_char(i);
        if !('0' <= c && c <= '9') {
            assert(!is_dec_seq(s@));
            return None;
        }
        let d: usize = ((c as u8) - 0x30) as usize;
        if acc > (usize::MAX - d) / 10 {
            assert(acc * 10 + d > usize::MAX) by (nonlinear_arith)
                requires
                    acc > (usize::MAX - d) / 10,
                    d <= 9,
            ;
            proof {
                assert(s@.take(i + 1).drop_last() =~= s@.take(i as int));
                assert(s@.take(i + 1).last() == s@[i as int]);
                if is_dec_seq(s@) {
                    lemma_dec_val_monotonic(s@, i + 1);
                }
            }
            return None;
        }
        proof {
            assert(s@.take(i + 1).drop_last() =~= s@.take(i as int));
            assert(s@.take(i + 1).last() == s@[i as int]);
        }
        acc = acc * 10 + d;
        i += 1;
    }
    assert(s@.take(len as int) =~= s@);
    Some(acc)
}

/// `s` repeated `k` times.
pub open spec fn repeat_seq(s: Seq<char>, k: nat) -> Seq<char>
    decreases k,
{
    if k == 0 {
        Seq::empty()
    } else {
        repeat_seq(s, (k - 1) as nat) + s
    }
}

/// Appends `k` copies of `s` to `out`.
pub fn repeat_append(out: &mut String, s: &str, k: usize)
    ensures
        final(out)@ == old(out)@ + repeat_seq(s@, k as nat),
{
    let mut j: usize = 0;
    while j < k
        invariant
            0 <= j <= k,
            out@ == old(out)@ + repeat_seq(s@, j as nat),
        decreases k - j,
    {
        out.append(s);
        j += 1;
    }
    assert(out@ =~= old(out)@ + repeat_seq(s@, k as nat));
}

/// The one-character string holding the lower-case form of an ASCII capital.
fn lower_ascii_str(c: char) -> (r: &'static str)
    requires
        'A' <= c && c <= 'Z',
    ensures
        r@ == seq![lower_char(c)],
{
    let b: u8 = (c as u8) + 32;
    char_str_table(b)
}

/// A one-character string for any byte in the lower-case ASCII letter range.
fn char_str_table(b: u8) -> (r: &'static str)
    requires
        0x61 <= b <= 0x7a,
    ensures
        r@ == seq![b as char],
{
    let s: &'static str = match b {
        0x61 => "a",
        0x62 => "b",
        0x63 => "c",
        0x64 => "d",
        0x65 => "e",
        0x66 => "f",
        0x67 => "g",
        0x68 => "h",
        0x69 => "i",
        0x6a => "j",
        0x6b => "k",
        0x6c => "l",
        0x6d => "m",
        0x6e => "n",
        0x6f => "o",
        0x70 => "p",
        0x71 => "q",
        0x72 => "r",
        0x73 => "s",
        0x74 => "t",
        0x75 => "u",
        0x76 => "v",
        0x77 => "w",
        0x78 => "x",
        0x79 => "y",
        0x7a => "z",
        _ => "?",
    };
    proof {
        reveal_strlit("a");
        reveal_strlit("b");
        reveal_strlit("c");
        reveal_strlit("d");
        reveal_strlit("e");
        reveal_strlit("f");
        reveal_strlit("g");
        reveal_strlit("h");
        reveal_strlit("i");
        reveal_strlit("j");
        reveal_strlit("k");
        reveal_strlit("l");
        reveal_strlit("m");
        reveal_strlit("n");
        reveal_strlit("o");
        reveal_strlit("p");
        reveal_strlit("q");
        reveal_strlit("r");
        reveal_strlit("s");
        reveal_strlit("t");
        reveal_strlit("u");
        reveal_strlit("v");
        reveal_strlit("w");
        reveal_strlit("x");
        reveal_strlit("y");
        reveal_strlit("z");
        reveal_strlit("?");
    }
    s
}

} // verus!


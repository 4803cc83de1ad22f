//! Verified building blocks for the string processing the server does:
//! equality, prefix and substring tests, splitting on a separator,
//! pattern removal, ASCII case folding, and decimal parsing and rendering.

use vstd::prelude::*;

verus! {

/// The views of a vector of strings, element by element.
pub open spec fn views_of(v: Seq<String>) -> Seq<Seq<char>> {
    v.map_values(|x: String| x@)
}

/// `p` occurs in `s` at position `i`.
pub open spec fn has_sub_at(s: Seq<char>, p: Seq<char>, i: int) -> bool {
    0 <= i && i + p.len() <= s.len() && s.subrange(i, i + p.len() as int) == p
}

/// `p` occurs somewhere in `s`.
pub open spec fn contains_sub(s: Seq<char>, p: Seq<char>) -> bool {
    exists|i: int| has_sub_at(s, p, i)
}

/// The pieces of `s` between the leftmost, non-overlapping occurrences of
/// `sep`, in order; a piece may be empty. With no occurrence the single
/// piece is `s` itself.
pub open spec fn split_spec(s: Seq<char>, sep: Seq<char>) -> Seq<Seq<char>>
    decreases s.len(),
{
    if sep.len() == 0 || s.len() < sep.len() {
        seq![s]
    } else if s.subrange(0, sep.len() as int) == sep {
        seq![Seq::<char>::empty()] + split_spec(s.subrange(sep.len() as int, s.len() as int), sep)
    } else {
        let rest = split_spec(s.subrange(1, s.len() as int), sep);
        seq![seq![s[0]] + rest[0]] + rest.subrange(1, rest.len() as int)
    }
}

/// `s` with every leftmost, non-overlapping occurrence of `pat` dropped.
pub open spec fn remove_all_spec(s: Seq<char>, pat: Seq<char>) -> Seq<char>
    decreases s.len(),
{
    if pat.len() == 0 || s.len() < pat.len() {
        s
    } else if s.subrange(0, pat.len() as int) == pat {
        remove_all_spec(s.subrange(pat.len() as int, s.len() as int), pat)
    } else {
        seq![s[0]] + remove_all_spec(s.subrange(1, s.len() as int), pat)
    }
}

/// All the pieces, joined back together in order.
pub open spec fn concat_parts(ps: Seq<Seq<char>>) -> Seq<char>
    decreases ps.len(),
{
    if ps.len() == 0 {
        Seq::empty()
    } else {
        ps[0] + concat_parts(ps.subrange(1, ps.len() as int))
    }
}

/// A split never yields an empty list of pieces.
pub proof fn lemma_split_len_pos(s: Seq<char>, sep: Seq<char>)
    ensures
        split_spec(s, sep).len() >= 1,
    decreases s.len(),
{
    if !(sep.len() == 0 || s.len() < sep.len()) {
        if s.subrange(0, sep.len() as int) == sep {
            lemma_split_len_pos(s.subrange(sep.len() as int, s.len() as int), sep);
        } else {
            lemma_split_len_pos(s.subrange(1, s.len() as int), sep);
        }
    }
}

/// Splitting at the leftmost occurrence: if `sep` occurs at `k` and nowhere
/// earlier, the first piece is everything before `k` and the remaining
/// pieces are the split of everything after the occurrence.
pub proof fn lemma_split_leftmost(s: Seq<char>, sep: Seq<char>, k: int)
    requires
        0 < sep.len(),
        0 <= k,
        k + sep.len() <= s.len(),
        s.subrange(k, k + sep.len() as int) == sep,
        forall|m: int| 0 <= m < k ==> #[trigger] s.subrange(m, m + sep.len() as int) != sep,
    ensures
        split_spec(s, sep) == seq![s.subrange(0, k)] + split_spec(
            s.subrange(k + sep.len() as int, s.len() as int),
            sep,
        ),
    decreases k,
{
    if k == 0 {
        assert(s.subrange(0, 0) =~= Seq::<char>::empty());
        assert(seq![s.subrange(0, 0)] =~= seq![Seq::<char>::empty()]);
    } else {
        let s1 = s.subrange(1, s.len() as int);
        assert(s.subrange(0, 0 + sep.len() as int) != sep);
        assert(s.subrange(0, sep.len() as int) != sep);
        assert(s1.subrange(k - 1, k - 1 + sep.len() as int) =~= s.subrange(
            k,
            k + sep.len() as int,
        ));
        assert forall|m: int| 0 <= m < k - 1 implies #[trigger] s1.subrange(m, m + sep.len() as int)
            != sep by {
            assert(s1.subrange(m, m + sep.len() as int) =~= s.subrange(
                m + 1,
                m + 1 + sep.len() as int,
            ));
        }
        lemma_split_leftmost(s1, sep, k - 1);
        let rest = split_spec(s1, sep);
        lemma_split_len_pos(s1.subrange(k - 1 + sep.len() as int, s1.len() as int), sep);
        assert(rest[0] == s1.subrange(0, k - 1));
        assert(seq![s[0]] + s1.subrange(0, k - 1) =~= s.subrange(0, k));
        assert(s1.subrange(k - 1 + sep.len() as int, s1.len() as int) =~= s.subrange(
            k + sep.len() as int,
            s.len() as int,
        ));
        assert(rest.subrange(1, rest.len() as int) =~= split_spec(
            s.subrange(k + sep.len() as int, s.len() as int),
            sep,
        ));
        assert(split_spec(s, sep) =~= seq![s.subrange(0, k)] + split_spec(
            s.subrange(k + sep.len() as int, s.len() as int),
            sep,
        ));
    }
}

/// With no occurrence of `sep` anywhere in `s`, the split is `s` alone.
pub proof fn lemma_split_nomatch(s: Seq<char>, sep: Seq<char>)
    requires
        0 < sep.len(),
        forall|m: int|
            0 <= m && m + sep.len() <= s.len() ==> #[trigger] s.subrange(m, m + sep.len() as int)
                != sep,
    ensures
        split_spec(s, sep) == seq![s],
    decreases s.len(),
{
    if s.len() >= sep.len() {
        let s1 = s.subrange(1, s.len() as int);
        assert(s.subrange(0, 0 + sep.len() as int) != sep);
        assert(s.subrange(0, sep.len() as int) != sep);
        assert forall|m: int|
            0 <= m && m + sep.len() <= s1.len() implies #[trigger] s1.subrange(
            m,
            m + sep.len() as int,
        ) != sep by {
            assert(s1.subrange(m, m + sep.len() as int) =~= s.subrange(
                m + 1,
                m + 1 + sep.len() as int,
            ));
        }
        lemma_split_nomatch(s1, sep);
        assert(seq![s[0]] + s1 =~= s);
        assert(split_spec(s, sep) =~= seq![s]);
    }
}

/// Joining the pieces of a split drops exactly the separators: the result
/// is `s` with every occurrence of `sep` removed.
pub proof fn lemma_concat_split(s: Seq<char>, sep: Seq<char>)
    ensures
        concat_parts(split_spec(s, sep)) == remove_all_spec(s, sep),
    decreases s.len(),
{
    if sep.len() == 0 || s.len() < sep.len() {
        assert(seq![s].subrange(1, 1) =~= Seq::<Seq<char>>::empty());
        assert(concat_parts(Seq::<Seq<char>>::empty()) == Seq::<char>::empty());
        assert(seq![s][0] == s);
        assert(concat_parts(seq![s]) =~= s);
    } else if s.subrange(0, sep.len() as int) == sep {
        let tail = s.subrange(sep.len() as int, s.len() as int);
        lemma_concat_split(tail, sep);
        let parts = seq![Seq::<char>::empty()] + split_spec(tail, sep);
        assert(parts.subrange(1, parts.len() as int) =~= split_spec(tail, sep));
        assert(concat_parts(parts) =~= concat_parts(split_spec(tail, sep)));
    } else {
        let s1 = s.subrange(1, s.len() as int);
        lemma_concat_split(s1, sep);
        lemma_split_len_pos(s1, sep);
        let rest = split_spec(s1, sep);
        let parts = seq![seq![s[0]] + rest[0]] + rest.subrange(1, rest.len() as int);
        assert(parts.subrange(1, parts.len() as int) =~= rest.subrange(1, rest.len() as int));
        assert(rest =~= seq![rest[0]] + rest.subrange(1, rest.len() as int));
        assert(concat_parts(rest) == rest[0] + concat_parts(rest.subrange(1, rest.len() as int)));
        assert(concat_parts(parts) =~= seq![s[0]] + concat_parts(rest));
        assert(remove_all_spec(s, sep) == seq![s[0]] + remove_all_spec(s1, sep));
    }
}

/// Appending one more piece appends its characters.
pub proof fn lemma_concat_parts_push(ps: Seq<Seq<char>>, x: Seq<char>)
    ensures
        concat_parts(ps.push(x)) == concat_parts(ps) + x,
    decreases ps.len(),
{
    if ps.len() == 0 {
        assert(ps.push(x).subrange(1, 1) =~= Seq::<Seq<char>>::empty());
        assert(ps.push(x)[0] == x);
        assert(concat_parts(Seq::<Seq<char>>::empty()) == Seq::<char>::empty());
        assert(concat_parts(ps.push(x)) =~= x);
        assert(concat_parts(ps) + x =~= x);
    } else {
        let tail = ps.subrange(1, ps.len() as int);
        lemma_concat_parts_push(tail, x);
        assert(ps.push(x).subrange(1, ps.len() as int + 1) =~= tail.push(x));
        assert(ps.push(x)[0] == ps[0]);
        assert(concat_parts(ps.push(x)) == ps[0] + concat_parts(tail.push(x)));
        assert(ps[0] + (concat_parts(tail) + x) =~= (ps[0] + concat_parts(tail)) + x);
    }
}

/// An ASCII upper-case letter folded to lower case; any other character is
/// left alone.
pub open spec fn lower_char(c: char) -> char {
    if c == 'A' {
        'a'
    } else if c == 'B' {
        'b'
    } else if c == 'C' {
        'c'
    } else if c == 'D' {
        'd'
    } else if c == 'E' {
        'e'
    } else if c == 'F' {
        'f'
    } else if c == 'G' {
        'g'
    } else if c == 'H' {
        'h'
    } else if c == 'I' {
        'i'
    } else if c == 'J' {
        'j'
    } else if c == 'K' {
        'k'
    } else if c == 'L' {
        'l'
    } else if c == 'M' {
        'm'
    } else if c == 'N' {
        'n'
    } else if c == 'O' {
        'o'
    } else if c == 'P' {
        'p'
    } else if c == 'Q' {
        'q'
    } else if c == 'R' {
        'r'
    } else if c == 'S' {
        's'
    } else if c == 'T' {
        't'
    } else if c == 'U' {
        'u'
    } else if c == 'V' {
        'v'
    } else if c == 'W' {
        'w'
    } else if c == 'X' {
        'x'
    } else if c == 'Y' {
        'y'
    } else if c == 'Z' {
        'z'
    } else {
        c
    }
}

/// A string folded to ASCII lower case, character by character.
pub open spec fn lower_seq(s: Seq<char>) -> Seq<char> {
    s.map_values(|c: char| lower_char(c))
}

/// One character folded to ASCII lower case.
pub fn to_lower_char(c: char) -> (r: char)
    ensures
        r == lower_char(c),
{
    match c {
        'A' => 'a',
        'B' => 'b',
        'C' => 'c',
        'D' => 'd',
        'E' => 'e',
        'F' => 'f',
        'G' => 'g',
        'H' => 'h',
        'I' => 'i',
        'J' => 'j',
        'K' => 'k',
        'L' => 'l',
        'M' => 'm',
        'N' => 'n',
        'O' => 'o',
        'P' => 'p',
        'Q' => 'q',
        'R' => 'r',
        'S' => 's',
        'T' => 't',
        'U' => 'u',
        'V' => 'v',
        'W' => 'w',
        'X' => 'x',
        'Y' => 'y',
        'Z' => 'z',
        _ => c,
    }
}

/// Does `a`, folded to ASCII lower case, equal `b` as given?
pub fn eq_lower(a: &str, b: &str) -> (r: bool)
    ensures
        r == (lower_seq(a@) == b@),
{
    let a_len = a.unicode_len();
    let b_len = b.unicode_len();
    if a_len != b_len {
        assert(lower_seq(a@).len() == a@.len());
        assert(lower_seq(a@) != b@);
        return false;
    }
    let mut i: usize = 0;
    while i < a_len
        invariant
            a_len == a@.len(),
            b_len == b@.len(),
            a@.len() == b@.len(),
            i <= a_len,
            forall|j: int| 0 <= j < i ==> lower_char(a@[j]) == b@[j],
        decreases a_len - i,
    {
        if to_lower_char(a.get_char(i)) != b.get_char(i) {
            assert(lower_seq(a@)[i as int] != b@[i as int]);
            return false;
        }
        i += 1;
    }
    proof {
        assert(lower_seq(a@) =~= b@);
    }
    true
}

/// A decimal digit.
pub open spec fn is_digit(c: char) -> bool {
    '0' <= c && c <= '9'
}

/// The value of a decimal digit.
pub open spec fn digit_val(c: char) -> nat {
    (c as nat - '0' as nat) as nat
}

/// The value of a string of decimal digits, most significant first.
pub open spec fn digits_val(s: Seq<char>) -> nat
    decreases s.len(),
{
    if s.len() == 0 {
        0
    } else {
        digits_val(s.drop_last()) * 10 + digit_val(s.last())
    }
}

/// A non-empty, all-digit string.
pub open spec fn is_digit_string(s: Seq<char>) -> bool {
    s.len() > 0 && forall|i: int| 0 <= i < s.len() ==> is_digit(#[trigger] s[i])
}

/// The digits of `s`, with one optional leading `+` sign allowed first.
pub open spec fn unsigned_digits_of(s: Seq<char>) -> Seq<char> {
    if s.len() > 0 && s[0] == '+' {
        s.subrange(1, s.len() as int)
    } else {
        s
    }
}

/// Does `s` denote an unsigned decimal number that fits in `usize`?
pub open spec fn parses_as_usize(s: Seq<char>) -> bool {
    is_digit_string(unsigned_digits_of(s)) && digits_val(unsigned_digits_of(s)) <= usize::MAX
}

/// Adding digits on the right never lowers the value.
proof fn lemma_digits_val_prefix_le(s: Seq<char>, i: int)
    requires
        0 <= i <= s.len(),
    ensures
        digits_val(s.take(i)) <= digits_val(s),
    decreases s.len() - i,
{
    if i < s.len() {
        lemma_digits_val_prefix_le(s, i + 1);
        let t = s.take(i + 1);
        assert(t.drop_last() =~= s.take(i));
        assert(digits_val(s.take(i)) * 10 + digit_val(t.last()) == digits_val(t));
        assert(digits_val(s.take(i)) <= digits_val(t));
    } else {
        assert(s.take(i) =~= s);
    }
}

/// The number an unsigned decimal string denotes, as `str::parse::<usize>`
/// accepts it: an optional `+` sign, then one or more digits, and a value
/// that fits; anything else is `None`.
pub fn parse_usize(s: &str) -> (r: Option<usize>)
    ensures
        parses_as_usize(s@) ==> r == Some(digits_val(unsigned_digits_of(s@)) as usize),
        !parses_as_usize(s@) ==> r is None,
{
    let s_len = s.unicode_len();
    let mut start: usize = 0;
    if s_len > 0 && s.get_char(0) == '+' {
        start = 1;
    }
    let ghost ds = unsigned_digits_of(s@);
    proof {
        assert(ds =~= s@.subrange(start as int, s_len as int));
    }
    if start == s_len {
        assert(!parses_as_usize(s@));
        return None;
    }
    let mut i: usize = start;
    let mut val: usize = 0;
    while i < s_len
        invariant
            s_len == s@.len(),
            start <= i <= s_len,
            start < s_len,
            start <= 1,
            ds == unsigned_digits_of(s@),
            ds =~= s@.subrange(start as int, s_len as int),
            forall|j: int| start <= j < i ==> is_digit(#[trigger] s@[j]),
            val == digits_val(ds.take(i - start)),
        decreases s_len - i,
    {
        let c = s.get_char(i);
        if !('0' <= c && c <= '9') {
            assert(!is_digit(ds[i - start]));
            assert(!is_digit_string(ds));
            return None;
        }
        let d: usize = (c as u32 as usize) - 48;
        assert(d == digit_val(c)) by {
            assert('0' as u32 == 48);
        }
        if val > (usize::MAX - d) / 10 {
            proof {
                let t = ds.take(i - start + 1);
                assert(t.drop_last() =~= ds.take(i - start));
                assert(t.last() == c);
                assert(digits_val(t) == val * 10 + d);
                assert(digits_val(t) > usize::MAX);
                lemma_digits_val_prefix_le(ds, i - start + 1);
                assert(digits_val(ds) > usize::MAX);
            }
            return None;
        }
        val = val * 10 + d;
        proof {
            let t = ds.take(i - start + 1);
            assert(t.drop_last() =~= ds.take(i - start));
            assert(t.last() == c);
        }
        i += 1;
    }
    proof {
        assert(ds.take(i - start) =~= ds);
        assert(is_digit_string(ds));
    }
    Some(val)
}

/// One decimal digit as a character.
pub open spec fn digit_char(d: nat) -> char {
    if d == 0 {
        '0'
    } else if d == 1 {
        '1'
    } else if d == 2 {
        '2'
    } else if d == 3 {
        '3'
    } else if d == 4 {
        '4'
    } else if d == 5 {
        '5'
    } else if d == 6 {
        '6'
    } else if d == 7 {
        '7'
    } else if d == 8 {
        '8'
    } else {
        '9'
    }
}

/// The decimal rendering of `n`, without sign or leading zeros.
pub open spec fn dec_str(n: nat) -> Seq<char>
    decreases n,
{
    if n < 10 {
        seq![digit_char(n)]
    } else {
        dec_str(n / 10) + seq![digit_char(n % 10)]
    }
}

/// One decimal digit rendered as a string slice.
fn digit_str(d: usize) -> (r: &'static str)
    requires
        d < 10,
    ensures
        r@ == seq![digit_char(d as nat)],
{
    proof {
        reveal_strlit("0");
        reveal_strlit("1");
        reveal_strlit("2");
        reveal_strlit("3");
        reveal_strlit("4");
        reveal_strlit("5");
        reveal_strlit("6");
        reveal_strlit("7");
        reveal_strlit("8");
        reveal_strlit("9");
    }
    let r = match d {
        0 => "0",
        1 => "1",
        2 => "2",
        3 => "3",
        4 => "4",
        5 => "5",
        6 => "6",
        7 => "7",
        8 => "8",
        _ => "9",
    };
    proof {
        assert(r@ =~= seq![digit_char(d as nat)]);
    }
    r
}

/// The decimal rendering of `n`.
pub fn usize_to_string(n: usize) -> (r: String)
    ensures
        r@ == dec_str(n as nat),
    decreases n,
{
    if n < 10 {
        String::from_str(digit_str(n))
    } else {
        let mut r = usize_to_string(n / 10);
        r.append(digit_str(n % 10));
        r
    }
}

/// Character-for-character equality of two string slices.
pub fn str_eq(a: &str, b: &str) -> (r: bool)
    ensures
        r == (a@ == b@),
{
    let a_len = a.unicode_len();
    let b_len = b.unicode_len();
    if a_len != b_len {
        assert(a@ != b@);
        return false;
    }
    let mut i: usize = 0;
    while i < a_len
        invariant
            a_len == a@.len(),
            b_len == b@.len(),
            a@.len() == b@.len(),
            i <= a_len,
            forall|j: int| 0 <= j < i ==> a@[j] == b@[j],
        decreases a_len - i,
    {
        if a.get_char(i) != b.get_char(i) {
            return false;
        }
        i += 1;
    }
    proof {
        assert(a@ =~= b@);
    }
    true
}

/// Does `pat` occur in `s` at position `i`?
fn match_at(s: &str, pat: &str, i: usize) -> (r: bool)
    requires
        i + pat@.len() <= s@.len(),
    ensures
        r == has_sub_at(s@, pat@, i as int),
{
    let s_len = s.unicode_len();
    let pat_len = pat.unicode_len();
    let mut j: usize = 0;
    while j < pat_len
        invariant
            s_len == s@.len(),
            pat_len == pat@.len(),
            i + pat@.len() <= s@.len(),
            j <= pat_len,
            forall|m: int| 0 <= m < j ==> s@[i + m] == pat@[m],
        decreases pat_len - j,
    {
        if s.get_char(i + j) != pat.get_char(j) {
            proof {
                assert(s@.subrange(i as int, i + pat@.len() as int)[j as int] != pat@[j as int]);
            }
            return false;
        }
        j += 1;
    }
    proof {
        assert(s@.subrange(i as int, i + pat@.len() as int) =~= pat@);
    }
    true
}

/// Does `p` begin `s`?
pub fn starts_with(s: &str, p: &str) -> (r: bool)
    ensures
        r == p@.is_prefix_of(s@),
{
    let s_len = s.unicode_len();
    let p_len = p.unicode_len();
    if p_len > s_len {
        assert(!p@.is_prefix_of(s@));
        return false;
    }
    let r = match_at(s, p, 0);
    proof {
        assert(s@.subrange(0, p@.len() as int) == s@.take(p@.len() as int));
    }
    r
}

/// Does `needle` occur anywhere in `hay`?
pub fn contains_str(hay: &str, needle: &str) -> (r: bool)
    ensures
        r == contains_sub(hay@, needle@),
{
    let hay_len = hay.unicode_len();
    let needle_len = needle.unicode_len();
    if needle_len > hay_len {
        assert(!contains_sub(hay@, needle@));
        return false;
    }
    if needle_len == 0 {
        proof {
            assert(hay@.subrange(0, 0) =~= needle@);
            assert(has_sub_at(hay@, needle@, 0));
        }
        return true;
    }
    let mut i: usize = 0;
    while i <= hay_len - needle_len
        invariant
            hay_len == hay@.len(),
            needle_len == needle@.len(),
            0 < needle_len <= hay_len,
            i <= hay_len - needle_len + 1,
            forall|m: int| 0 <= m < i ==> !has_sub_at(hay@, needle@, m),
        decreases hay_len - i,
    {
        if match_at(hay, needle, i) {
            return true;
        }
        i += 1;
    }
    assert(forall|m: int| has_sub_at(hay@, needle@, m) ==> 0 <= m < i);
    false
}

/// The pieces of `s` between the leftmost, non-overlapping occurrences of
/// `sep`, in order, as owned strings.
pub fn split_str(s: &str, sep: &str) -> (r: Vec<String>)
    ensures
        views_of(r@) == split_spec(s@, sep@),
{
    let s_len = s.unicode_len();
    let sep_len = sep.unicode_len();
    let mut r: Vec<String> = Vec::new();
    if sep_len == 0 {
        r.push(String::from_str(s));
        proof {
            assert(views_of(r@) =~= seq![s@]);
        }
        return r;
    }
    let mut start: usize = 0;
    proof {
        assert(views_of(r@) =~= Seq::<Seq<char>>::empty());
        assert(s@.subrange(0, s_len as int) =~= s@);
        assert(Seq::<Seq<char>>::empty() + split_spec(s@, sep@) =~= split_spec(s@, sep@));
    }
    loop
        invariant
            s_len == s@.len(),
            sep_len == sep@.len(),
            0 < sep_len,
            start <= s_len,
            split_spec(s@, sep@) == views_of(r@) + split_spec(
                s@.subrange(start as int, s_len as int),
                sep@,
            ),
        decreases s_len - start,
    {
        let ghost u = s@.subrange(start as int, s_len as int);
        let mut j: usize = start;
        let mut found: bool = false;
        while !found && sep_len <= s_len && j <= s_len - sep_len
            invariant
                s_len == s@.len(),
                sep_len == sep@.len(),
                0 < sep_len,
                start <= j <= s_len,
                found ==> j + sep_len <= s_len && has_sub_at(s@, sep@, j as int),
                forall|m: int| start <= m < j ==> !has_sub_at(s@, sep@, m),
            decreases s_len - j + (if found {
                0int
            } else {
                1int
            }),
        {
            if match_at(s, sep, j) {
                found = true;
            } else {
                j += 1;
            }
        }
        if found {
            let piece = s.substring_char(start, j);
            r.push(String::from_str(piece));
            proof {
                let k = j - start;
                let old_r = r@.subrange(0, r@.len() - 1);
                assert(u.subrange(k, k + sep@.len() as int) =~= s@.subrange(
                    j as int,
                    j + sep@.len() as int,
                ));
                assert forall|m: int| 0 <= m < k implies #[trigger] u.subrange(
                    m,
                    m + sep@.len() as int,
                ) != sep@ by {
                    assert(u.subrange(m, m + sep@.len() as int) =~= s@.subrange(
                        start + m,
                        start + m + sep@.len() as int,
                    ));
                    assert(!has_sub_at(s@, sep@, start + m));
                }
                lemma_split_leftmost(u, sep@, k);
                let u2 = u.subrange(k + sep@.len() as int, u.len() as int);
                let v2 = s@.subrange(j + sep@.len(), s_len as int);
                assert(u2 =~= v2);
                assert(u.subrange(0, k) =~= piece@);
                assert(views_of(r@) =~= views_of(old_r) + seq![piece@]);
                assert(seq![piece@] + split_spec(v2, sep@) == split_spec(u, sep@));
                assert((views_of(old_r) + seq![piece@]) + split_spec(v2, sep@) =~= views_of(old_r)
                    + (seq![piece@] + split_spec(v2, sep@)));
                assert(split_spec(s@, sep@) == views_of(r@) + split_spec(v2, sep@));
            }
            start = j + sep_len;
        } else {
            let piece = s.substring_char(start, s_len);
            r.push(String::from_str(piece));
            proof {
                let old_r = r@.subrange(0, r@.len() - 1);
                assert forall|m: int|
                    0 <= m && m + sep@.len() <= u.len() implies #[trigger] u.subrange(
                    m,
                    m + sep@.len() as int,
                ) != sep@ by {
                    assert(u.subrange(m, m + sep@.len() as int) =~= s@.subrange(
                        start + m,
                        start + m + sep@.len() as int,
                    ));
                    assert(start + m < j);
                    assert(!has_sub_at(s@, sep@, start + m));
                }
                lemma_split_nomatch(u, sep@);
                assert(piece@ =~= u);
                assert(views_of(r@) =~= views_of(old_r) + seq![u]);
                assert(views_of(r@) =~= split_spec(s@, sep@));
            }
            return r;
        }
    }
}

/// `s` with every leftmost, non-overlapping occurrence of `pat` removed.
pub fn remove_all(s: &str, pat: &str) -> (r: String)
    ensures
        r@ == remove_all_spec(s@, pat@),
{
    let parts = split_str(s, pat);
    let mut out = String::new();
    let mut i: usize = 0;
    while i < parts.len()
        invariant
            i <= parts@.len(),
            out@ == concat_parts(views_of(parts@).take(i as int)),
            views_of(parts@) == split_spec(s@, pat@),
        decreases parts@.len() - i,
    {
        out.append(parts[i].as_str());
        proof {
            lemma_concat_parts_push(views_of(parts@).take(i as int), parts@[i as int]@);
            assert(views_of(parts@).take(i + 1) =~= views_of(parts@).take(i as int).push(
                parts@[i as int]@,
            ));
        }
        i += 1;
    }
    proof {
        assert(views_of(parts@).take(parts@.len() as int) =~= views_of(parts@));
        lemma_concat_split(s@, pat@);
    }
    out
}

} // verus!

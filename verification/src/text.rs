//! Character-level text handling shared by the parsers: whitespace-separated
//! words, line boundaries, unsigned decimal numbers and substring search,
//! each stated over `Seq<char>`, and path joining over the bytes of paths.

use vstd::prelude::*;

verus! {

/// `char::is_whitespace`: the characters with the Unicode `White_Space` property.
pub open spec fn is_space(c: char) -> bool {
    let u = c as u32;
    ||| 0x09 <= u <= 0x0D
    ||| u == 0x20
    ||| u == 0x85
    ||| u == 0xA0
    ||| u == 0x1680
    ||| 0x2000 <= u <= 0x200A
    ||| u == 0x2028
    ||| u == 0x2029
    ||| u == 0x202F
    ||| u == 0x205F
    ||| u == 0x3000
}

pub fn char_is_space(c: char) -> (r: bool)
    ensures
        r == is_space(c),
{
    let u = c as u32;
    (0x09 <= u && u <= 0x0D) || u == 0x20 || u == 0x85 || u == 0xA0 || u == 0x1680 || (0x2000 <= u
        && u <= 0x200A) || u == 0x2028 || u == 0x2029 || u == 0x202F || u == 0x205F || u == 0x3000
}

/// The characters of a string slice, in order.
pub fn chars_of(s: &str) -> (v: Vec<char>)
    ensures
        v@ == s@,
{
    let mut v: Vec<char> = Vec::new();
    for c in it: s.chars()
        invariant
            v@ == it.seq().take(it.index() as int),
            it.seq() == s@,
    {
        proof {
            assert(it.seq().take(it.index() as int + 1) =~= v@.push(c));
        }
        v.push(c);
    }
    proof {
        assert(v@ =~= s@);
    }
    v
}

/// The string holding the characters `v[from..to]`.
pub fn string_from_range(s: &str, from: usize, to: usize) -> (r: String)
    requires
        from <= to <= s@.len(),
    ensures
        r@ == s@.subrange(from as int, to as int),
{
    s.substring_char(from, to).to_owned()
}

/// Whether two character sequences are equal.
pub fn chars_equal(a: &Vec<char>, b: &Vec<char>) -> (r: bool)
    ensures
        r == (a@ == b@),
{
    if a.len() != b.len() {
        return false;
    }
    let mut i: usize = 0;
    while i < a.len()
        invariant
            a.len() == b.len(),
            i <= a.len(),
            forall|k: int| 0 <= k < i ==> a@[k] == b@[k],
        decreases a.len() - i,
    {
        if a[i] != b[i] {
            return false;
        }
        i = i + 1;
    }
    proof {
        assert(a@ =~= b@);
    }
    true
}

/// Whether two strings hold the same characters.
pub fn str_equal(a: &str, b: &str) -> (r: bool)
    ensures
        r == (a@ == b@),
{
    let va = chars_of(a);
    let vb = chars_of(b);
    chars_equal(&va, &vb)
}

/// The end of the word that starts at `i`: the first whitespace at or after
/// `i`, or the end of `s`.
pub open spec fn word_end(s: Seq<char>, i: int) -> int
    decreases s.len() - i,
{
    if i >= s.len() || is_space(s[i]) {
        i
    } else {
        word_end(s, i + 1)
    }
}

/// `split_whitespace` of `s[i..]`: the maximal runs of non-whitespace
/// characters, in order.
pub open spec fn words_from(s: Seq<char>, i: int) -> Seq<Seq<char>>
    decreases s.len() - i,
{
    if i < 0 || i >= s.len() {
        Seq::empty()
    } else if is_space(s[i]) {
        words_from(s, i + 1)
    } else {
        let j = word_end(s, i);
        proof {
            lemma_word_end_bounds(s, i);
        }
        if j <= i {
            Seq::empty()
        } else {
            seq![s.subrange(i, j)].add(words_from(s, j))
        }
    }
}

/// `split_whitespace` of all of `s`.
pub open spec fn words(s: Seq<char>) -> Seq<Seq<char>> {
    words_from(s, 0)
}

pub proof fn lemma_word_end_bounds(s: Seq<char>, i: int)
    requires
        0 <= i <= s.len(),
    ensures
        i <= word_end(s, i) <= s.len(),
        forall|k: int| i <= k < word_end(s, i) ==> !is_space(#[trigger] s[k]),
        word_end(s, i) < s.len() ==> is_space(s[word_end(s, i)]),
        i < s.len() && !is_space(s[i]) ==> word_end(s, i) > i,
    decreases s.len() - i,
{
    if i < s.len() && !is_space(s[i]) {
        lemma_word_end_bounds(s, i + 1);
    }
}

/// Finds the end of the word starting at `i`.
fn find_word_end(s: &Vec<char>, i: usize) -> (j: usize)
    requires
        i <= s.len(),
    ensures
        j == word_end(s@, i as int),
{
    let mut j = i;
    while j < s.len() && !char_is_space(s[j])
        invariant
            i <= j <= s.len(),
            word_end(s@, i as int) == word_end(s@, j as int),
        decreases s.len() - j,
    {
        j = j + 1;
    }
    j
}

/// The start and end of each whitespace-separated word of `s`, in order.
pub fn word_spans(s: &Vec<char>) -> (spans: Vec<(usize, usize)>)
    ensures
        spans@.len() == words(s@).len(),
        forall|k: int|
            0 <= k < spans@.len() ==> {
                &&& (#[trigger] spans@[k]).0 <= spans@[k].1 <= s@.len()
                &&& s@.subrange(spans@[k].0 as int, spans@[k].1 as int) == words(s@)[k]
            },
{
    let mut spans: Vec<(usize, usize)> = Vec::new();
    let mut i: usize = 0;
    let ghost mut done: Seq<Seq<char>> = Seq::empty();
    while i < s.len()
        invariant
            i <= s.len(),
            done + words_from(s@, i as int) == words(s@),
            spans@.len() == done.len(),
            forall|k: int|
                0 <= k < spans@.len() ==> {
                    &&& (#[trigger] spans@[k]).0 <= spans@[k].1 <= s@.len()
                    &&& s@.subrange(spans@[k].0 as int, spans@[k].1 as int) == done[k]
                },
        decreases s.len() - i,
    {
        if char_is_space(s[i]) {
            i = i + 1;
        } else {
            let j = find_word_end(s, i);
            proof {
                lemma_word_end_bounds(s@, i as int);
                let w = s@.subrange(i as int, j as int);
                assert(words_from(s@, i as int) == seq![w].add(words_from(s@, j as int)));
                assert(done + words_from(s@, i as int) =~= done.push(w) + words_from(
                    s@,
                    j as int,
                ));
                done = done.push(w);
            }
            spans.push((i, j));
            i = j;
        }
    }
    proof {
        assert(words_from(s@, i as int) =~= Seq::<Seq<char>>::empty());
        assert(done =~= words(s@));
    }
    spans
}

/// The end of the line that starts at `i`: the first `'\n'` at or after `i`,
/// or the end of `s`.
pub open spec fn line_end(s: Seq<char>, i: int) -> int
    decreases s.len() - i,
{
    if i >= s.len() || s[i] == '\n' {
        i
    } else {
        line_end(s, i + 1)
    }
}

proof fn lemma_line_end_bounds(s: Seq<char>, i: int)
    requires
        0 <= i <= s.len(),
    ensures
        i <= line_end(s, i) <= s.len(),
        line_end(s, i) < s.len() ==> s[line_end(s, i)] == '\n',
    decreases s.len() - i,
{
    if i < s.len() && s[i] != '\n' {
        lemma_line_end_bounds(s, i + 1);
    }
}

/// Finds the end of the line starting at `i`.
pub fn find_line_end(s: &Vec<char>, i: usize) -> (j: usize)
    requires
        i <= s.len(),
    ensures
        j == line_end(s@, i as int),
        i <= j <= s.len(),
        j < s.len() ==> s@[j as int] == '\n',
{
    proof {
        lemma_line_end_bounds(s@, i as int);
    }
    let mut j = i;
    while j < s.len() && s[j] != '\n'
        invariant
            i <= j <= s.len(),
            line_end(s@, i as int) == line_end(s@, j as int),
        decreases s.len() - j,
    {
        j = j + 1;
    }
    j
}

/// A copy of `s[from..to]`.
pub fn copy_range(s: &Vec<char>, from: usize, to: usize) -> (r: Vec<char>)
    requires
        from <= to <= s.len(),
    ensures
        r@ == s@.subrange(from as int, to as int),
{
    let mut r: Vec<char> = Vec::new();
    let mut k = from;
    while k < to
        invariant
            from <= k <= to <= s.len(),
            r@ == s@.subrange(from as int, k as int),
        decreases to - k,
    {
        r.push(s[k]);
        k = k + 1;
        proof {
            assert(r@ =~= s@.subrange(from as int, k as int));
        }
    }
    r
}

/// Whether `c` is an ASCII decimal digit.
pub open spec fn is_digit(c: char) -> bool {
    '0' <= c <= '9'
}

/// The value of a sequence of decimal digits.
pub open spec fn digits_value(d: Seq<char>) -> nat
    decreases d.len(),
{
    if d.len() == 0 {
        0
    } else {
        digits_value(d.drop_last()) * 10 + ((d.last() as int - '0' as int) as nat)
    }
}

/// The digits of an unsigned number: `t` without one leading `'+'`.
pub open spec fn strip_plus(t: Seq<char>) -> Seq<char> {
    if t.len() > 0 && t[0] == '+' {
        t.drop_first()
    } else {
        t
    }
}

/// One or more ASCII digits whose value fits in a `u64`.
pub open spec fn parse_digits(d: Seq<char>) -> Option<u64> {
    if d.len() > 0 && (forall|k: int| 0 <= k < d.len() ==> is_digit(#[trigger] d[k]))
        && digits_value(d) <= u64::MAX {
        Some(digits_value(d) as u64)
    } else {
        None
    }
}

/// `u64::from_str`: an optional `'+'`, then one or more ASCII digits whose
/// value fits in a `u64`.
pub open spec fn parse_u64_spec(t: Seq<char>) -> Option<u64> {
    parse_digits(strip_plus(t))
}

proof fn lemma_digits_prefix_le(d: Seq<char>, k: int)
    requires
        0 <= k <= d.len(),
        forall|i: int| 0 <= i < d.len() ==> is_digit(#[trigger] d[i]),
    ensures
        digits_value(d.take(k)) <= digits_value(d),
    decreases d.len(),
{
    if k < d.len() {
        let p = d.drop_last();
        assert(forall|i: int| 0 <= i < p.len() ==> is_digit(#[trigger] p[i]) && p[i] == d[i]);
        lemma_digits_prefix_le(p, k);
        assert(p.take(k) =~= d.take(k));
    } else {
        assert(d.take(k) =~= d);
    }
}

/// Parses `t[from..to]` as a `u64` the way `str::parse::<u64>` does.
pub fn parse_u64(t: &Vec<char>, from: usize, to: usize) -> (r: Option<u64>)
    requires
        from <= to <= t.len(),
    ensures
        r == parse_u64_spec(t@.subrange(from as int, to as int)),
{
    let ghost w = t@.subrange(from as int, to as int);
    let mut start = from;
    if from < to && t[from] == '+' {
        start = from + 1;
    }
    let ghost d = t@.subrange(start as int, to as int);
    proof {
        if from < to && t@[from as int] == '+' {
            assert(d =~= w.drop_first());
        } else {
            assert(d =~= w);
        }
    }
    if start == to {
        return None;
    }
    let mut value: u64 = 0;
    let mut k = start;
    while k < to
        invariant
            from <= start <= k <= to <= t.len(),
            d == t@.subrange(start as int, to as int),
            w == t@.subrange(from as int, to as int),
            d == strip_plus(w),
            d.len() > 0,
            forall|i: int| 0 <= i < k - start ==> is_digit(#[trigger] d[i]),
            value as nat == digits_value(d.take(k - start)),
        decreases to - k,
    {
        let c = t[k];
        if !('0' <= c && c <= '9') {
            proof {
                assert(!is_digit(d[k - start]));
            }
            return None;
        }
        let digit = (c as u32 - '0' as u32) as u64;
        proof {
            assert(d.take(k - start + 1).drop_last() =~= d.take(k - start));
            assert(d.take(k - start + 1).last() == c);
        }
        if value > (u64::MAX - digit) / 10 {
            proof {
                assert(value * 10 + digit > u64::MAX) by (nonlinear_arith)
                    requires
                        value > (u64::MAX - digit) / 10,
                        digit <= 9,
                ;
                if forall|i: int| 0 <= i < d.len() ==> is_digit(#[trigger] d[i]) {
                    lemma_digits_prefix_le(d, k - start + 1);
                }
            }
            return None;
        }
        value = value * 10 + digit;
        k = k + 1;
    }
    proof {
        assert(d.take(k - start) =~= d);
    }
    Some(value)
}

/// `s` with every trailing `c` removed (`trim_end_matches(c)`).
pub open spec fn trim_end_char(s: Seq<char>, c: char) -> Seq<char>
    decreases s.len(),
{
    if s.len() > 0 && s.last() == c {
        trim_end_char(s.drop_last(), c)
    } else {
        s
    }
}

/// The end of `s[from..to]` once trailing `c` are removed.
pub fn trimmed_end(s: &Vec<char>, from: usize, to: usize, c: char) -> (e: usize)
    requires
        from <= to <= s.len(),
    ensures
        from <= e <= to,
        s@.subrange(from as int, e as int) == trim_end_char(s@.subrange(from as int, to as int), c),
{
    let mut e = to;
    while e > from && s[e - 1] == c
        invariant
            from <= e <= to <= s.len(),
            trim_end_char(s@.subrange(from as int, e as int), c) == trim_end_char(
                s@.subrange(from as int, to as int),
                c,
            ),
        decreases e,
    {
        proof {
            assert(s@.subrange(from as int, e as int).drop_last() =~= s@.subrange(
                from as int,
                e - 1,
            ));
        }
        e = e - 1;
    }
    e
}

/// Whether `needle` occurs in `hay` at position `i`.
pub open spec fn occurs_at(hay: Seq<char>, needle: Seq<char>, i: int) -> bool {
    0 <= i && i + needle.len() <= hay.len() && hay.subrange(i, i + needle.len()) == needle
}

/// `str::contains` for a string pattern.
pub open spec fn contains_seq(hay: Seq<char>, needle: Seq<char>) -> bool {
    exists|i: int| occurs_at(hay, needle, i)
}

/// Whether `needle` occurs in `hay`.
pub fn contains_chars(hay: &Vec<char>, needle: &Vec<char>) -> (r: bool)
    ensures
        r == contains_seq(hay@, needle@),
{
    if needle.len() > hay.len() {
        proof {
            assert forall|i: int| !occurs_at(hay@, needle@, i) by {}
        }
        return false;
    }
    let last = hay.len() - needle.len();
    let mut i: usize = 0;
    loop
        invariant
            i <= last,
            last == hay.len() - needle.len(),
            needle.len() <= hay.len(),
            forall|p: int| 0 <= p < i ==> !occurs_at(hay@, needle@, p),
        decreases last - i,
    {
        let mut k: usize = 0;
        let mut same = true;
        while k < needle.len()
            invariant
                i <= last,
                last == hay.len() - needle.len(),
                k <= needle.len(),
                same ==> forall|q: int| 0 <= q < k ==> hay@[i + q] == needle@[q],
                !same ==> !occurs_at(hay@, needle@, i as int),
            decreases needle.len() - k,
        {
            if hay[i + k] != needle[k] {
                proof {
                    assert(hay@.subrange(i as int, i + needle.len())[k as int] != needle@[k as int]);
                }
                same = false;
            }
            k = k + 1;
        }
        if same {
            proof {
                assert(hay@.subrange(i as int, i + needle.len()) =~= needle@);
                assert(occurs_at(hay@, needle@, i as int));
            }
            return true;
        }
        if i == last {
            proof {
                assert forall|p: int| !occurs_at(hay@, needle@, p) by {
                    if 0 <= p && p < i {
                    }
                }
            }
            return false;
        }
        i = i + 1;
    }
}

/// `PathBuf::join` on Unix, over the bytes of the paths: an absolute `rel`
/// replaces the base; otherwise `rel` follows the base, with a `'/'` between
/// them unless the base is empty or already ends with one.
pub open spec fn joined_path(base: Seq<u8>, rel: Seq<u8>) -> Seq<u8> {
    if rel.len() > 0 && rel[0] == 47u8 {
        rel
    } else if base.len() == 0 || base.last() == 47u8 {
        base + rel
    } else {
        base + seq![47u8] + rel
    }
}

/// Appends the bytes of `s` to `v`.
fn append_bytes(v: &mut Vec<u8>, s: &[u8])
    ensures
        final(v)@ == old(v)@ + s@,
{
    let ghost start = v@;
    let mut i: usize = 0;
    while i < s.len()
        invariant
            i <= s@.len(),
            v@ == start + s@.subrange(0, i as int),
        decreases s.len() - i,
    {
        v.push(s[i]);
        i = i + 1;
        proof {
            assert(v@ =~= start + s@.subrange(0, i as int));
        }
    }
    proof {
        assert(s@.subrange(0, i as int) =~= s@);
    }
}

/// Joins `rel` onto `base` the way `Path::join` does on Unix.
pub fn join_path(base: &[u8], rel: &[u8]) -> (r: Vec<u8>)
    ensures
        r@ == joined_path(base@, rel@),
{
    let mut r: Vec<u8> = Vec::new();
    if rel.len() > 0 && rel[0] == 47u8 {
        append_bytes(&mut r, rel);
        proof {
            assert(r@ =~= rel@);
        }
        return r;
    }
    append_bytes(&mut r, base);
    if base.len() > 0 && base[base.len() - 1] != 47u8 {
        r.push(47u8);
    }
    append_bytes(&mut r, rel);
    proof {
        if base@.len() > 0 && base@.last() != 47u8 {
            assert(r@ =~= base@ + seq![47u8] + rel@);
        } else {
            assert(r@ =~= base@ + rel@);
        }
    }
    r
}

/// Joining a relative path keeps the base as a prefix and ends with the
/// relative path.
pub proof fn lemma_joined_path_ends_with(base: Seq<u8>, rel: Seq<u8>)
    requires
        rel.len() == 0 || rel[0] != 47u8,
    ensures
        joined_path(base, rel).len() >= base.len() + rel.len(),
        joined_path(base, rel).subrange(0, base.len() as int) == base,
        joined_path(base, rel).subrange(
            joined_path(base, rel).len() - rel.len(),
            joined_path(base, rel).len() as int,
        ) == rel,
{
    let j = joined_path(base, rel);
    assert(j.subrange(0, base.len() as int) =~= base);
    assert(j.subrange(j.len() - rel.len(), j.len() as int) =~= rel);
}

} // verus!

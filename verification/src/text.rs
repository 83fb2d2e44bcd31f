//! Character-level text helpers with their specifications.
//!
//! Text is reasoned about as `Seq<char>` (the view of `str` and `String`); the
//! executable helpers mostly work on `Vec<char>` buffers and convert at the edges.

use vstd::prelude::*;
use vstd::std_specs::iter::IteratorSpec;

use crate::seqs::{dedup, ins, isort, lemma_ins_at, lemma_ins_contains};

verus! {

// ---------------------------------------------------------------------------
// Specifications
// ---------------------------------------------------------------------------

/// The text of an optional string.
pub open spec fn opt_view(o: Option<String>) -> Option<Seq<char>> {
    match o {
        Some(s) => Some(s@),
        None => None,
    }
}

/// Unicode `White_Space`, which is what `char::is_whitespace` tests.
pub open spec fn is_ws(c: char) -> bool {
    let u = c as int;
    ||| 9 <= u <= 13
    ||| u == 32
    ||| u == 0x85
    ||| u == 0xA0
    ||| u == 0x1680
    ||| 0x2000 <= u <= 0x200A
    ||| u == 0x2028
    ||| u == 0x2029
    ||| u == 0x202F
    ||| u == 0x205F
    ||| u == 0x3000
}

/// `str::trim_start`.
pub open spec fn trim_start_seq(s: Seq<char>) -> Seq<char>
    decreases s.len(),
{
    if s.len() > 0 && is_ws(s[0]) {
        trim_start_seq(s.drop_first())
    } else {
        s
    }
}

/// `str::trim_end`.
pub open spec fn trim_end_seq(s: Seq<char>) -> Seq<char>
    decreases s.len(),
{
    if s.len() > 0 && is_ws(s.last()) {
        trim_end_seq(s.drop_last())
    } else {
        s
    }
}

/// `str::trim`.
pub open spec fn trim_seq(s: Seq<char>) -> Seq<char> {
    trim_end_seq(trim_start_seq(s))
}

/// `str::trim_end_matches(c)` for a single character pattern.
pub open spec fn trim_end_char_seq(s: Seq<char>, c: char) -> Seq<char>
    decreases s.len(),
{
    if s.len() > 0 && s.last() == c {
        trim_end_char_seq(s.drop_last(), c)
    } else {
        s
    }
}

/// `str::trim_start_matches(c)` for a single character pattern.
pub open spec fn trim_start_char_seq(s: Seq<char>, c: char) -> Seq<char>
    decreases s.len(),
{
    if s.len() > 0 && s[0] == c {
        trim_start_char_seq(s.drop_first(), c)
    } else {
        s
    }
}

/// `char::to_ascii_lowercase`.
pub open spec fn lower_char(c: char) -> char {
    if 65 <= (c as int) <= 90 {
        ((c as int) + 32) as char
    } else {
        c
    }
}

/// `str::to_ascii_lowercase`.
pub open spec fn lower_seq(s: Seq<char>) -> Seq<char> {
    s.map_values(|c: char| lower_char(c))
}

/// `p` is a prefix of `s` (`str::starts_with`).
pub open spec fn starts_with_seq(s: Seq<char>, p: Seq<char>) -> bool {
    p.len() <= s.len() && s.subrange(0, p.len() as int) == p
}

/// `p` occurs in `s` at position `i`.
pub open spec fn occurs_at(s: Seq<char>, p: Seq<char>, i: int) -> bool {
    0 <= i && i + p.len() <= s.len() && s.subrange(i, i + p.len()) == p
}

/// `str::contains` with a string pattern.
pub open spec fn contains_seq(s: Seq<char>, p: Seq<char>) -> bool {
    exists|i: int| occurs_at(s, p, i)
}

/// `s` holds the character `c`.
pub open spec fn has_char(s: Seq<char>, c: char) -> bool {
    exists|i: int| 0 <= i < s.len() && s[i] == c
}

/// Index of the first occurrence of `c` in `s` (`str::find`, counted in characters).
pub open spec fn first_index_of(s: Seq<char>, c: char) -> Option<int>
    decreases s.len(),
{
    if s.len() == 0 {
        None
    } else if s[0] == c {
        Some(0)
    } else {
        match first_index_of(s.drop_first(), c) {
            Some(i) => Some(i + 1),
            None => None,
        }
    }
}

/// The decimal digit character for `d < 10`.
pub open spec fn digit_char(d: nat) -> char {
    (d + 48) as char
}

/// Decimal representation of a natural number (what `Display` prints for unsigned integers).
pub open spec fn decimal(n: nat) -> Seq<char>
    decreases n,
{
    if n < 10 {
        seq![digit_char(n)]
    } else {
        decimal(n / 10).push(digit_char(n % 10))
    }
}

/// Decimal representation of an integer (what `Display` prints for signed integers).
pub open spec fn int_decimal(i: int) -> Seq<char> {
    if i < 0 {
        seq!['-'] + decimal((-i) as nat)
    } else {
        decimal(i as nat)
    }
}

/// `n` spaces.
pub open spec fn spaces(n: nat) -> Seq<char> {
    Seq::new(n, |i: int| ' ')
}

/// `format!("{:<w$}", s)`: `s` padded with spaces on the right to `w` characters.
pub open spec fn pad_right(s: Seq<char>, w: nat) -> Seq<char> {
    if s.len() < w {
        s + spaces((w - s.len()) as nat)
    } else {
        s
    }
}

/// Lexicographic order on character sequences by code point; this is the order of
/// `String`'s `Ord` (UTF-8 byte order agrees with code point order).
pub open spec fn seq_lt(a: Seq<char>, b: Seq<char>) -> bool
    decreases a.len(),
{
    if a.len() == 0 {
        b.len() > 0
    } else if b.len() == 0 {
        false
    } else if a[0] != b[0] {
        (a[0] as int) < (b[0] as int)
    } else {
        seq_lt(a.drop_first(), b.drop_first())
    }
}

/// `a <= b` in the order of [`seq_lt`].
pub open spec fn seq_le(a: Seq<char>, b: Seq<char>) -> bool {
    a == b || seq_lt(a, b)
}

/// Concatenation of a sequence of texts separated by `sep` (`[String]::join`).
pub open spec fn join_seq(parts: Seq<Seq<char>>, sep: Seq<char>) -> Seq<char>
    decreases parts.len(),
{
    if parts.len() == 0 {
        Seq::empty()
    } else if parts.len() == 1 {
        parts[0]
    } else {
        join_seq(parts.drop_last(), sep) + sep + parts.last()
    }
}

// ---------------------------------------------------------------------------
// Lemmas
// ---------------------------------------------------------------------------

proof fn lemma_trim_start_skip(s: Seq<char>, i: int)
    requires
        0 <= i < s.len(),
        is_ws(s[i]),
    ensures
        trim_start_seq(s.skip(i)) == trim_start_seq(s.skip(i + 1)),
{
    assert(s.skip(i).drop_first() =~= s.skip(i + 1));
}

proof fn lemma_trim_end_take(s: Seq<char>, j: int)
    requires
        0 < j <= s.len(),
        is_ws(s[j - 1]),
    ensures
        trim_end_seq(s.take(j)) == trim_end_seq(s.take(j - 1)),
{
    assert(s.take(j).drop_last() =~= s.take(j - 1));
}

/// The comparison of two sequences only depends on where they first differ.
proof fn lemma_seq_lt_skip(a: Seq<char>, b: Seq<char>, i: int)
    requires
        0 <= i < a.len(),
        i < b.len(),
        a.take(i) == b.take(i),
        a[i] == b[i],
    ensures
        seq_lt(a.skip(i), b.skip(i)) == seq_lt(a.skip(i + 1), b.skip(i + 1)),
{
    assert(a.skip(i).drop_first() =~= a.skip(i + 1));
    assert(b.skip(i).drop_first() =~= b.skip(i + 1));
}

/// No text sorts before itself.
pub proof fn lemma_seq_lt_irreflexive(a: Seq<char>)
    ensures
        !seq_lt(a, a),
    decreases a.len(),
{
    if a.len() > 0 {
        lemma_seq_lt_irreflexive(a.drop_first());
    }
}

/// Of two different texts, one sorts before the other.
pub proof fn lemma_seq_lt_total(a: Seq<char>, b: Seq<char>)
    ensures
        a == b || seq_lt(a, b) || seq_lt(b, a),
    decreases a.len(),
{
    if a.len() == 0 && b.len() == 0 {
        assert(a =~= b);
    }
    if a.len() > 0 && b.len() > 0 && a[0] != b[0] {
        assert((a[0] as int) != (b[0] as int));
    }
    if a.len() > 0 && b.len() > 0 && a[0] == b[0] {
        lemma_seq_lt_total(a.drop_first(), b.drop_first());
        if a.drop_first() == b.drop_first() {
            assert(a =~= seq![a[0]] + a.drop_first());
            assert(b =~= seq![b[0]] + b.drop_first());
        }
    }
}

/// Two texts never sort before each other.
pub proof fn lemma_seq_lt_asymmetric(a: Seq<char>, b: Seq<char>)
    ensures
        !(seq_lt(a, b) && seq_lt(b, a)),
    decreases a.len(),
{
    if a.len() > 0 && b.len() > 0 && a[0] == b[0] {
        lemma_seq_lt_asymmetric(a.drop_first(), b.drop_first());
    }
}

/// Sorting before is transitive.
pub proof fn lemma_seq_lt_transitive(a: Seq<char>, b: Seq<char>, c: Seq<char>)
    requires
        seq_lt(a, b),
        seq_lt(b, c),
    ensures
        seq_lt(a, c),
    decreases a.len(),
{
    if a.len() > 0 && b.len() > 0 && c.len() > 0 && a[0] == b[0] && b[0] == c[0] {
        lemma_seq_lt_transitive(a.drop_first(), b.drop_first(), c.drop_first());
    }
}

// ---------------------------------------------------------------------------
// Conversions
// ---------------------------------------------------------------------------

/// The characters of a string, in order.
pub fn chars_of(s: &str) -> (r: Vec<char>)
    ensures
        r@ == s@,
{
    let mut out: Vec<char> = Vec::new();
    broadcast use vstd::string::group_string_axioms;

    for c in it: s.chars()
        invariant
            out@ == it.seq().take(it.index() as int),
            it.seq() == s@,
    {
        out.push(c);
    }
    out
}

/// Collects characters into a `String` (`FromIterator<char> for String`).
#[verifier::external_body]
pub(crate) fn string_of(v: &[char]) -> (r: String)
    ensures
        r@ == v@,
{
    v.iter().collect()
}

/// Appends the characters of `s` to `out`.
pub fn push_str(out: &mut Vec<char>, s: &str)
    ensures
        final(out)@ == old(out)@ + s@,
{
    let cs = chars_of(s);
    push_chars(out, &cs);
}

/// Appends `src` to `out`.
pub fn push_chars(out: &mut Vec<char>, src: &[char])
    ensures
        final(out)@ == old(out)@ + src@,
{
    let ghost start = out@;
    let mut i: usize = 0;
    while i < src.len()
        invariant
            i <= src@.len(),
            out@ == start + src@.take(i as int),
        decreases src@.len() - i,
    {
        out.push(src[i]);
        i = i + 1;
        proof {
            assert(src@.take(i as int) =~= src@.take(i - 1) + seq![src@[i - 1]]);
        }
    }
    proof {
        assert(src@.take(src@.len() as int) =~= src@);
    }
}

/// `src[from..to]` as a fresh vector.
pub fn slice_chars(src: &[char], from: usize, to: usize) -> (r: Vec<char>)
    requires
        from <= to <= src@.len(),
    ensures
        r@ == src@.subrange(from as int, to as int),
{
    let mut out: Vec<char> = Vec::new();
    let mut i: usize = from;
    while i < to
        invariant
            from <= i <= to <= src@.len(),
            out@ == src@.subrange(from as int, i as int),
        decreases to - i,
    {
        out.push(src[i]);
        i = i + 1;
        proof {
            assert(src@.subrange(from as int, i as int) =~= src@.subrange(from as int, i - 1)
                + seq![src@[i - 1]]);
        }
    }
    out
}

/// Pushes `n` spaces.
pub fn push_spaces(out: &mut Vec<char>, n: usize)
    ensures
        final(out)@ == old(out)@ + spaces(n as nat),
{
    let ghost start = out@;
    let mut i: usize = 0;
    while i < n
        invariant
            i <= n,
            out@ == start + spaces(i as nat),
        decreases n - i,
    {
        out.push(' ');
        i = i + 1;
        proof {
            assert(spaces(i as nat) =~= spaces((i - 1) as nat).push(' '));
        }
    }
}

/// Pushes `s` padded on the right with spaces to `w` characters.
pub fn push_padded(out: &mut Vec<char>, s: &[char], w: usize)
    ensures
        final(out)@ == old(out)@ + pad_right(s@, w as nat),
{
    push_chars(out, s);
    if s.len() < w {
        push_spaces(out, w - s.len());
    }
}

// ---------------------------------------------------------------------------
// Character classes
// ---------------------------------------------------------------------------

/// The code point of `c`.
pub fn char_code(c: char) -> (u: u32)
    ensures
        u as int == c as int,
{
    c as u32
}

/// `char::is_whitespace`.
pub fn is_whitespace(c: char) -> (b: bool)
    ensures
        b == is_ws(c),
{
    let u = c as u32;
    (9 <= u && u <= 13) || u == 32 || u == 0x85 || u == 0xA0 || u == 0x1680 || (0x2000 <= u
        && u <= 0x200A) || u == 0x2028 || u == 0x2029 || u == 0x202F || u == 0x205F || u
        == 0x3000
}

/// `char::to_ascii_lowercase`.
pub fn to_lower(c: char) -> (r: char)
    ensures
        r == lower_char(c),
{
    let u = c as u32;
    if 65 <= u && u <= 90 {
        let l: u8 = (u + 32) as u8;
        proof {
            assert(l as u32 == u + 32);
        }
        l as char
    } else {
        c
    }
}

/// `str::to_ascii_lowercase`.
pub fn lower_chars(s: &[char]) -> (r: Vec<char>)
    ensures
        r@ == lower_seq(s@),
{
    let mut out: Vec<char> = Vec::new();
    let mut i: usize = 0;
    while i < s.len()
        invariant
            i <= s@.len(),
            out@ =~= lower_seq(s@.take(i as int)),
        decreases s@.len() - i,
    {
        out.push(to_lower(s[i]));
        i = i + 1;
    }
    proof {
        assert(s@.take(s@.len() as int) =~= s@);
    }
    out
}

// ---------------------------------------------------------------------------
// Trimming
// ---------------------------------------------------------------------------

/// Index of the first character that is not whitespace (or the length).
pub fn trim_start_index(s: &[char]) -> (i: usize)
    ensures
        i <= s@.len(),
        trim_start_seq(s@) == s@.skip(i as int),
{
    let mut i: usize = 0;
    proof {
        assert(s@.skip(0) =~= s@);
    }
    while i < s.len() && is_whitespace(s[i])
        invariant
            i <= s@.len(),
            trim_start_seq(s@) == trim_start_seq(s@.skip(i as int)),
        decreases s@.len() - i,
    {
        proof {
            lemma_trim_start_skip(s@, i as int);
        }
        i = i + 1;
    }
    i
}

/// Length of the text once trailing whitespace is removed.
pub fn trim_end_index(s: &[char]) -> (j: usize)
    ensures
        j <= s@.len(),
        trim_end_seq(s@) == s@.take(j as int),
{
    let mut j: usize = s.len();
    proof {
        assert(s@.take(s@.len() as int) =~= s@);
    }
    while j > 0 && is_whitespace(s[j - 1])
        invariant
            j <= s@.len(),
            trim_end_seq(s@) == trim_end_seq(s@.take(j as int)),
        decreases j,
    {
        proof {
            lemma_trim_end_take(s@, j as int);
        }
        j = j - 1;
    }
    j
}

/// `str::trim_start`.
pub fn trim_start_chars(s: &[char]) -> (r: Vec<char>)
    ensures
        r@ == trim_start_seq(s@),
{
    let i = trim_start_index(s);
    slice_chars(s, i, s.len())
}

/// `str::trim_end`.
pub fn trim_end_chars(s: &[char]) -> (r: Vec<char>)
    ensures
        r@ == trim_end_seq(s@),
{
    let j = trim_end_index(s);
    slice_chars(s, 0, j)
}

/// `str::trim`.
pub fn trim_chars(s: &[char]) -> (r: Vec<char>)
    ensures
        r@ == trim_seq(s@),
{
    let a = trim_start_chars(s);
    trim_end_chars(&a)
}

/// `str::trim` on a string.
pub fn trim_str(s: &str) -> (r: String)
    ensures
        r@ == trim_seq(s@),
{
    let cs = chars_of(s);
    let t = trim_chars(&cs);
    string_of(&t)
}

/// `str::trim_end_matches(c)`.
pub fn trim_end_char(s: &[char], c: char) -> (r: Vec<char>)
    ensures
        r@ == trim_end_char_seq(s@, c),
{
    let mut j: usize = s.len();
    proof {
        assert(s@.take(s@.len() as int) =~= s@);
    }
    while j > 0 && s[j - 1] == c
        invariant
            j <= s@.len(),
            trim_end_char_seq(s@, c) == trim_end_char_seq(s@.take(j as int), c),
        decreases j,
    {
        proof {
            assert(s@.take(j as int).drop_last() =~= s@.take(j - 1));
        }
        j = j - 1;
    }
    slice_chars(s, 0, j)
}

/// `str::trim_start_matches(c)`.
pub fn trim_start_char(s: &[char], c: char) -> (r: Vec<char>)
    ensures
        r@ == trim_start_char_seq(s@, c),
{
    let mut i: usize = 0;
    proof {
        assert(s@.skip(0) =~= s@);
    }
    while i < s.len() && s[i] == c
        invariant
            i <= s@.len(),
            trim_start_char_seq(s@, c) == trim_start_char_seq(s@.skip(i as int), c),
        decreases s@.len() - i,
    {
        proof {
            assert(s@.skip(i as int).drop_first() =~= s@.skip(i + 1));
        }
        i = i + 1;
    }
    slice_chars(s, i, s.len())
}

// ---------------------------------------------------------------------------
// Searching and comparing
// ---------------------------------------------------------------------------

/// Whether `p` occurs in `s` at position `i`.
pub fn occurs_at_exec(s: &[char], p: &[char], i: usize) -> (b: bool)
    ensures
        b == occurs_at(s@, p@, i as int),
{
    if i > s.len() || p.len() > s.len() - i {
        return false;
    }
    let mut k: usize = 0;
    while k < p.len()
        invariant
            i + p@.len() <= s@.len(),
            s@.len() == s.len(),
            k <= p@.len(),
            forall|m: int| 0 <= m < k ==> s@[i + m] == p@[m],
        decreases p@.len() - k,
    {
        if s[i + k] != p[k] {
            proof {
                assert(s@.subrange(i as int, i + p@.len())[k as int] != p@[k as int]);
            }
            return false;
        }
        k = k + 1;
    }
    proof {
        assert(s@.subrange(i as int, i + p@.len()) =~= p@);
    }
    true
}

/// `str::starts_with`.
pub fn starts_with(s: &[char], p: &[char]) -> (b: bool)
    ensures
        b == starts_with_seq(s@, p@),
{
    occurs_at_exec(s, p, 0)
}

/// `str::contains` with a string pattern.
pub fn contains(s: &[char], p: &[char]) -> (b: bool)
    ensures
        b == contains_seq(s@, p@),
{
    let mut i: usize = 0;
    while i < s.len()
        invariant
            i <= s@.len(),
            forall|m: int| 0 <= m < i ==> !occurs_at(s@, p@, m),
        decreases s@.len() - i,
    {
        if occurs_at_exec(s, p, i) {
            return true;
        }
        i = i + 1;
    }
    if occurs_at_exec(s, p, i) {
        return true;
    }
    proof {
        assert forall|m: int| !occurs_at(s@, p@, m) by {
            if occurs_at(s@, p@, m) {
                assert(m < i || m == i);
            }
        }
    }
    false
}

/// `str::contains` on strings.
pub fn str_contains(s: &str, p: &str) -> (b: bool)
    ensures
        b == contains_seq(s@, p@),
{
    let a = chars_of(s);
    let b = chars_of(p);
    contains(&a, &b)
}

/// Whether the characters of `s` equal the characters of `t`.
pub fn chars_eq(s: &[char], t: &[char]) -> (b: bool)
    ensures
        b == (s@ == t@),
{
    if s.len() != t.len() {
        return false;
    }
    let r = occurs_at_exec(s, t, 0);
    proof {
        if r {
            assert(s@ =~= s@.subrange(0, t@.len() as int));
        } else {
            assert(s@ != t@ ==> true);
            if s@ == t@ {
                assert(s@.subrange(0, t@.len() as int) =~= t@);
            }
        }
    }
    r
}

/// String equality on views.
pub fn str_eq(s: &str, t: &str) -> (b: bool)
    ensures
        b == (s@ == t@),
{
    let a = chars_of(s);
    let c = chars_of(t);
    chars_eq(&a, &c)
}

/// Position of the first `c` in `s`.
pub fn find_char(s: &[char], c: char) -> (r: Option<usize>)
    ensures
        r is None <==> first_index_of(s@, c) is None,
        r matches Some(i) ==> i < s@.len() && first_index_of(s@, c) == Some(i as int),
{
    let mut i: usize = 0;
    proof {
        assert(s@.skip(0) =~= s@);
    }
    while i < s.len()
        invariant
            i <= s@.len(),
            forall|m: int| 0 <= m < i ==> s@[m] != c,
            first_index_of(s@, c) == match first_index_of(s@.skip(i as int), c) {
                Some(k) => Some(k + i),
                None => None::<int>,
            },
        decreases s@.len() - i,
    {
        if s[i] == c {
            return Some(i);
        }
        proof {
            assert(s@.skip(i as int).drop_first() =~= s@.skip(i + 1));
        }
        i = i + 1;
    }
    None
}

/// Lexicographic comparison by code point (`String`'s `<`).
pub fn chars_lt(a: &[char], b: &[char]) -> (r: bool)
    ensures
        r == seq_lt(a@, b@),
{
    let mut i: usize = 0;
    proof {
        assert(a@.skip(0) =~= a@);
        assert(b@.skip(0) =~= b@);
    }
    while i < a.len() && i < b.len() && a[i] == b[i]
        invariant
            i <= a@.len(),
            i <= b@.len(),
            a@.take(i as int) == b@.take(i as int),
            seq_lt(a@, b@) == seq_lt(a@.skip(i as int), b@.skip(i as int)),
        decreases a@.len() - i,
    {
        proof {
            lemma_seq_lt_skip(a@, b@, i as int);
            assert(a@.take(i + 1) =~= a@.take(i as int).push(a@[i as int]));
            assert(b@.take(i + 1) =~= b@.take(i as int).push(b@[i as int]));
        }
        i = i + 1;
    }
    if i == a.len() {
        i < b.len()
    } else if i == b.len() {
        false
    } else {
        let x = char_code(a[i]);
        let y = char_code(b[i]);
        proof {
            assert(a@.skip(i as int)[0] == a@[i as int]);
            assert(b@.skip(i as int)[0] == b@[i as int]);
        }
        x < y
    }
}

// ---------------------------------------------------------------------------
// Numbers
// ---------------------------------------------------------------------------

/// Pushes the decimal digits of `n` (`u64`'s `Display`).
pub fn push_decimal(out: &mut Vec<char>, n: u128)
    ensures
        final(out)@ == old(out)@ + decimal(n as nat),
    decreases n,
{
    if n >= 10 {
        push_decimal(out, n / 10);
    }
    let d: u8 = (n % 10) as u8;
    let ch: char = (d + 48) as char;
    proof {
        assert(ch == digit_char((n % 10) as nat));
    }
    out.push(ch);
}

/// Pushes the decimal representation of `n` (`i64`'s `Display`).
pub fn push_int_decimal(out: &mut Vec<char>, n: i64)
    ensures
        final(out)@ == old(out)@ + int_decimal(n as int),
{
    if n < 0 {
        out.push('-');
        let m: u128 = (0i128 - n as i128) as u128;
        let ghost mid = out@;
        push_decimal(out, m);
        proof {
            assert(out@ =~= old(out)@ + (seq!['-'] + decimal(m as nat)));
        }
    } else {
        push_decimal(out, n as u128);
    }
}

/// The decimal representation of `n` as a `String`.
pub fn u64_to_string(n: u64) -> (r: String)
    ensures
        r@ == decimal(n as nat),
{
    let mut v: Vec<char> = Vec::new();
    push_decimal(&mut v, n as u128);
    proof {
        assert(v@ =~= decimal(n as nat));
    }
    string_of(&v)
}

// ---------------------------------------------------------------------------
// Sorting strings
// ---------------------------------------------------------------------------

/// The texts of a sequence of strings.
pub open spec fn strs_view(v: Seq<String>) -> Seq<Seq<char>> {
    v.map_values(|s: String| s@)
}

/// "Greater than" in `String`'s order.
pub open spec fn str_gt() -> spec_fn(Seq<char>, Seq<char>) -> bool {
    |a: Seq<char>, b: Seq<char>| seq_lt(b, a)
}

/// Equality of texts.
pub open spec fn str_same() -> spec_fn(Seq<char>, Seq<char>) -> bool {
    |a: Seq<char>, b: Seq<char>| a == b
}

/// Whether `a` sorts after the text `x`.
fn string_after(a: &String, x: &[char]) -> (b: bool)
    ensures
        b == seq_lt(x@, a@),
{
    let ac = chars_of(a.as_str());
    chars_lt(x, &ac)
}

/// The first position in `out` holding a string greater than `x`.
fn insert_position(out: &Vec<String>, x: &[char]) -> (j: usize)
    ensures
        j <= out@.len(),
        forall|i: int| 0 <= i < j ==> !(str_gt())(#[trigger] strs_view(out@)[i], x@),
        j == out@.len() || (str_gt())(strs_view(out@)[j as int], x@),
{
    let mut j: usize = 0;
    while j < out.len() && !string_after(&out[j], x)
        invariant
            j <= out@.len(),
            forall|i: int| 0 <= i < j ==> !(str_gt())(#[trigger] strs_view(out@)[i], x@),
        decreases out@.len() - j,
    {
        j = j + 1;
    }
    j
}

/// `Vec<String>::sort` (stable; equal strings are indistinguishable anyway).
pub fn sort_strings(v: &Vec<String>) -> (r: Vec<String>)
    ensures
        strs_view(r@) == isort(strs_view(v@), str_gt()),
{
    let mut out: Vec<String> = Vec::new();
    let mut k: usize = 0;
    while k < v.len()
        invariant
            k <= v@.len(),
            strs_view(out@) == isort(strs_view(v@).take(k as int), str_gt()),
        decreases v@.len() - k,
    {
        let x = v[k].clone();
        let xc = chars_of(x.as_str());
        let j = insert_position(&out, &xc);
        proof {
            let sv = strs_view(out@);
            if j < out@.len() {
                assert(str_gt()(sv[j as int], x@));
            }
            lemma_ins_at(sv, x@, str_gt(), j as int);
            assert(strs_view(v@).take(k + 1).drop_last() =~= strs_view(v@).take(k as int));
            assert(strs_view(v@).take(k + 1).last() == x@);
        }
        let ghost before = out@;
        out.insert(j, x);
        proof {
            assert(strs_view(out@) =~= strs_view(before).take(j as int) + seq![x@] + strs_view(
                before,
            ).skip(j as int));
        }
        k = k + 1;
    }
    proof {
        assert(strs_view(v@).take(v@.len() as int) =~= strs_view(v@));
    }
    out
}

/// `Vec<String>::dedup`.
pub fn dedup_strings(v: &Vec<String>) -> (r: Vec<String>)
    ensures
        strs_view(r@) == dedup(strs_view(v@), str_same()),
{
    let mut out: Vec<String> = Vec::new();
    let mut k: usize = 0;
    while k < v.len()
        invariant
            k <= v@.len(),
            strs_view(out@) == dedup(strs_view(v@).take(k as int), str_same()),
        decreases v@.len() - k,
    {
        let x = v[k].clone();
        proof {
            assert(strs_view(v@).take(k + 1).drop_last() =~= strs_view(v@).take(k as int));
            assert(strs_view(v@).take(k + 1).last() == x@);
        }
        let keep_it = if out.len() == 0 {
            true
        } else {
            !str_eq(x.as_str(), out[out.len() - 1].as_str())
        };
        if keep_it {
            let ghost before = out@;
            out.push(x);
            proof {
                assert(strs_view(out@) =~= strs_view(before).push(x@));
            }
        }
        k = k + 1;
    }
    proof {
        assert(strs_view(v@).take(v@.len() as int) =~= strs_view(v@));
    }
    out
}

/// Texts in ascending order (repeats allowed).
pub open spec fn ascending(s: Seq<Seq<char>>) -> bool {
    forall|i: int, j: int| 0 <= i < j < s.len() ==> seq_le(#[trigger] s[i], #[trigger] s[j])
}

/// Texts in strictly ascending order: each one once.
pub open spec fn strictly_ascending(s: Seq<Seq<char>>) -> bool {
    forall|i: int, j: int| 0 <= i < j < s.len() ==> seq_lt(#[trigger] s[i], #[trigger] s[j])
}

proof fn lemma_le_trans(a: Seq<char>, b: Seq<char>, c: Seq<char>)
    requires
        seq_le(a, b),
        seq_le(b, c),
    ensures
        seq_le(a, c),
{
    if seq_lt(a, b) && seq_lt(b, c) {
        lemma_seq_lt_transitive(a, b, c);
    }
}

/// Inserting into ascending texts keeps them ascending.
proof fn lemma_ins_ascending(s: Seq<Seq<char>>, x: Seq<char>)
    requires
        ascending(s),
    ensures
        ascending(ins(s, x, str_gt())),
    decreases s.len(),
{
    let r = ins(s, x, str_gt());
    if s.len() == 0 {
    } else if str_gt()(s[0], x) {
        assert(r == seq![x] + s);
        assert forall|i: int, j: int| 0 <= i < j < r.len() implies seq_le(#[trigger] r[i], #[trigger] r[j]) by {
            if i == 0 {
                assert(r[j] == s[j - 1]);
                assert(seq_le(s[0], s[j - 1])) by {
                    if j - 1 > 0 {
                        assert(seq_le(s[0], s[j - 1]));
                    }
                }
                lemma_le_trans(x, s[0], s[j - 1]);
            } else {
                assert(r[i] == s[i - 1] && r[j] == s[j - 1]);
            }
        }
    } else {
        let t = ins(s.drop_first(), x, str_gt());
        assert(ascending(s.drop_first())) by {
            assert forall|i: int, j: int| 0 <= i < j < s.drop_first().len() implies seq_le(
                #[trigger] s.drop_first()[i],
                #[trigger] s.drop_first()[j],
            ) by {
                assert(s.drop_first()[i] == s[i + 1] && s.drop_first()[j] == s[j + 1]);
            }
        }
        lemma_ins_ascending(s.drop_first(), x);
        assert(r == seq![s[0]] + t);
        lemma_seq_lt_total(s[0], x);
        assert forall|k: int| 0 <= k < t.len() implies seq_le(s[0], #[trigger] t[k]) by {
            lemma_ins_contains(s.drop_first(), x, str_gt(), t[k]);
            assert(t.contains(t[k]));
            if t[k] != x {
                let m = choose|m: int| 0 <= m < s.drop_first().len() && s.drop_first()[m] == t[k];
                assert(s[m + 1] == t[k]);
            }
        }
        assert forall|i: int, j: int| 0 <= i < j < r.len() implies seq_le(#[trigger] r[i], #[trigger] r[j]) by {
            if i == 0 {
                assert(r[j] == t[j - 1]);
            } else {
                assert(r[i] == t[i - 1] && r[j] == t[j - 1]);
            }
        }
    }
}

/// Insertion sort by [`str_gt`] leaves the texts ascending.
pub proof fn lemma_isort_ascending(s: Seq<Seq<char>>)
    ensures
        ascending(isort(s, str_gt())),
    decreases s.len(),
{
    if s.len() > 0 {
        lemma_isort_ascending(s.drop_last());
        lemma_ins_ascending(isort(s.drop_last(), str_gt()), s.last());
    }
}

/// Removing repeats from ascending texts leaves them strictly ascending, ending with the
/// same text.
pub proof fn lemma_dedup_strictly_ascending(s: Seq<Seq<char>>)
    requires
        ascending(s),
    ensures
        strictly_ascending(dedup(s, str_same())),
        s.len() > 0 ==> dedup(s, str_same()).len() > 0 && dedup(s, str_same()).last() == s.last(),
    decreases s.len(),
{
    if s.len() > 0 {
        let p = s.drop_last();
        assert(ascending(p)) by {
            assert forall|i: int, j: int| 0 <= i < j < p.len() implies seq_le(#[trigger] p[i], #[trigger] p[j]) by {
                assert(p[i] == s[i] && p[j] == s[j]);
            }
        }
        lemma_dedup_strictly_ascending(p);
        let d = dedup(p, str_same());
        if d.len() > 0 && str_same()(s.last(), d.last()) {
        } else {
            let r = d.push(s.last());
            if d.len() > 0 {
                assert(d.last() == p.last());
                assert(seq_le(s[s.len() - 2], s[s.len() - 1]));
                assert(seq_lt(d.last(), s.last()));
            }
            assert forall|i: int, j: int| 0 <= i < j < r.len() implies seq_lt(#[trigger] r[i], #[trigger] r[j]) by {
                if j == r.len() - 1 {
                    assert(r[j] == s.last());
                    if i < d.len() - 1 {
                        assert(seq_lt(d[i], d[d.len() - 1]));
                        lemma_seq_lt_transitive(d[i], d.last(), s.last());
                    }
                } else {
                    assert(r[i] == d[i] && r[j] == d[j]);
                }
            }
        }
    }
}

/// Sorts and removes duplicates (`v.sort(); v.dedup();`).
pub fn sort_dedup_strings(v: &Vec<String>) -> (r: Vec<String>)
    ensures
        strs_view(r@) == dedup(isort(strs_view(v@), str_gt()), str_same()),
{
    let s = sort_strings(v);
    dedup_strings(&s)
}

// ---------------------------------------------------------------------------
// Splitting on whitespace
// ---------------------------------------------------------------------------

/// Tokens of `s` given the token `cur` being read and the tokens `acc` already read.
pub open spec fn tokens_from(s: Seq<char>, cur: Seq<char>, acc: Seq<Seq<char>>) -> Seq<Seq<char>>
    decreases s.len(),
{
    if s.len() == 0 {
        if cur.len() > 0 {
            acc.push(cur)
        } else {
            acc
        }
    } else if is_ws(s[0]) {
        tokens_from(s.drop_first(), Seq::empty(), if cur.len() > 0 { acc.push(cur) } else { acc })
    } else {
        tokens_from(s.drop_first(), cur.push(s[0]), acc)
    }
}

/// `str::split_whitespace`: the maximal runs of non-whitespace characters.
pub open spec fn split_ws(s: Seq<char>) -> Seq<Seq<char>> {
    tokens_from(s, Seq::empty(), Seq::empty())
}

/// The texts of character vectors.
pub open spec fn vecs_view(v: Seq<Vec<char>>) -> Seq<Seq<char>> {
    v.map_values(|x: Vec<char>| x@)
}

/// `str::split_whitespace`, collected.
pub fn split_whitespace(s: &[char]) -> (r: Vec<Vec<char>>)
    ensures
        vecs_view(r@) == split_ws(s@),
{
    let mut acc: Vec<Vec<char>> = Vec::new();
    let mut cur: Vec<char> = Vec::new();
    let mut i: usize = 0;
    proof {
        assert(s@.skip(0) =~= s@);
        assert(vecs_view(acc@) =~= Seq::<Seq<char>>::empty());
    }
    while i < s.len()
        invariant
            i <= s@.len(),
            split_ws(s@) == tokens_from(s@.skip(i as int), cur@, vecs_view(acc@)),
        decreases s@.len() - i,
    {
        proof {
            assert(s@.skip(i as int).drop_first() =~= s@.skip(i + 1));
            assert(s@.skip(i as int)[0] == s@[i as int]);
        }
        let c = s[i];
        if is_whitespace(c) {
            if cur.len() > 0 {
                let ghost before = acc@;
                let done = cur;
                cur = Vec::new();
                acc.push(done);
                proof {
                    assert(vecs_view(acc@) =~= vecs_view(before).push(done@));
                }
            }
            proof {
                assert(cur@ =~= Seq::<char>::empty());
            }
        } else {
            cur.push(c);
        }
        i = i + 1;
    }
    if cur.len() > 0 {
        let ghost before = acc@;
        acc.push(cur);
        proof {
            assert(vecs_view(acc@) =~= vecs_view(before).push(cur@));
        }
    }
    proof {
        assert(s@.skip(s@.len() as int) =~= Seq::<char>::empty());
    }
    acc
}

/// `[String]::join(sep)` over character vectors.
pub fn join_chars(parts: &Vec<Vec<char>>, sep: &str) -> (r: Vec<char>)
    ensures
        r@ == join_seq(vecs_view(parts@), sep@),
{
    let mut out: Vec<char> = Vec::new();
    let mut i: usize = 0;
    while i < parts.len()
        invariant
            i <= parts@.len(),
            out@ == join_seq(vecs_view(parts@).take(i as int), sep@),
        decreases parts@.len() - i,
    {
        let ghost before = out@;
        if i > 0 {
            push_str(&mut out, sep);
        }
        push_chars(&mut out, &parts[i]);
        proof {
            let t = vecs_view(parts@).take(i + 1);
            assert(t.drop_last() =~= vecs_view(parts@).take(i as int));
            assert(t.last() == parts@[i as int]@);
            if i == 0 {
                assert(t =~= seq![parts@[0]@]);
            }
        }
        i = i + 1;
    }
    proof {
        assert(vecs_view(parts@).take(parts@.len() as int) =~= vecs_view(parts@));
    }
    out
}

/// Reading on never loses tokens already read, and a token being read is kept.
proof fn lemma_tokens_from_len(s: Seq<char>, cur: Seq<char>, acc: Seq<Seq<char>>)
    ensures
        tokens_from(s, cur, acc).len() >= acc.len() + if cur.len() > 0 { 1int } else { 0int },
    decreases s.len(),
{
    if s.len() > 0 {
        if is_ws(s[0]) {
            lemma_tokens_from_len(s.drop_first(), Seq::empty(), if cur.len() > 0 { acc.push(cur) } else { acc });
        } else {
            lemma_tokens_from_len(s.drop_first(), cur.push(s[0]), acc);
        }
    }
}

/// A text that starts with a non-whitespace character has a first token.
pub proof fn lemma_first_token_exists(s: Seq<char>)
    requires
        s.len() > 0,
        !is_ws(s[0]),
    ensures
        split_ws(s).len() > 0,
{
    lemma_tokens_from_len(s.drop_first(), seq![s[0]], Seq::empty());
    assert(Seq::<char>::empty().push(s[0]) =~= seq![s[0]]);
}

} // verus!

//! Character-level helpers: the library keeps text as sequences of `char`
//! and states every operation over `Seq<char>`.
use vstd::prelude::*;

verus! {

broadcast use vstd::string::group_string_axioms;

/// The characters of a string slice, in order.
pub fn chars_of(s: &str) -> (v: Vec<char>)
    ensures
        v@ == s@,
{
    let mut v: Vec<char> = Vec::new();
    for c in it: s.chars()
        invariant
            v@ == it.seq().take(it.index() as int),
            it.seq() == s@,
    {
        v.push(c);
    }
    v
}

/// Appends one character to a `String` (std's `String::push`).
#[verifier::external_body]
fn push_char(s: &mut String, c: char)
    ensures
        final(s)@ == old(s)@.push(c),
{
    s.push(c);
}

/// A `String` holding exactly the given characters.
pub fn string_of(v: &Vec<char>) -> (s: String)
    ensures
        s@ == v@,
{
    let mut s = String::new();
    let mut i: usize = 0;
    while i < v.len()
        invariant
            i <= v.len(),
            s@ == v@.take(i as int),
        decreases v.len() - i,
    {
        push_char(&mut s, v[i]);
        i = i + 1;
        assert(s@ == v@.take(i as int));
    }
    assert(v@.take(v.len() as int) == v@);
    s
}

/// Appends the characters of `s` to `v`.
pub fn push_str(v: &mut Vec<char>, s: &str)
    ensures
        final(v)@ == old(v)@ + s@,
{
    let w = chars_of(s);
    push_all(v, &w);
}

/// Appends the characters of `w` to `v`.
pub fn push_all(v: &mut Vec<char>, w: &Vec<char>)
    ensures
        final(v)@ == old(v)@ + w@,
{
    let ghost start = v@;
    let mut i: usize = 0;
    while i < w.len()
        invariant
            i <= w.len(),
            v@ == start + w@.take(i as int),
        decreases w.len() - i,
    {
        v.push(w[i]);
        i = i + 1;
        assert(v@ =~= start + w@.take(i as int));
    }
    assert(w@.take(i as int) =~= w@);
}

/// Whether `c` occurs in `s`.
pub fn contains_char(s: &Vec<char>, c: char) -> (r: bool)
    ensures
        r == s@.contains(c),
{
    let mut i: usize = 0;
    while i < s.len()
        invariant
            i <= s.len(),
            forall|j: int| 0 <= j < i ==> s@[j] != c,
        decreases s.len() - i,
    {
        if s[i] == c {
            assert(s@[i as int] == c);
            return true;
        }
        i = i + 1;
    }
    false
}

// ---------------------------------------------------------------------
// Decimal numbers

pub open spec fn is_digit(c: char) -> bool {
    '0' <= c && c <= '9'
}

pub open spec fn digit_of(c: char) -> nat {
    ((c as int) - ('0' as int)) as nat
}

pub open spec fn all_digits(s: Seq<char>) -> bool {
    forall|i: int| 0 <= i < s.len() ==> is_digit(#[trigger] s[i])
}

/// The value of a run of decimal digits, most significant first.
pub open spec fn digits_value(s: Seq<char>) -> nat
    decreases s.len(),
{
    if s.len() == 0 {
        0
    } else {
        digits_value(s.drop_last()) * 10 + digit_of(s.last())
    }
}

/// What std's `FromStr` for unsigned integers reads from `s`, before the
/// range check: an optional `+`, then one or more ASCII digits.
pub open spec fn unsigned_value(s: Seq<char>) -> Option<nat> {
    let body = if s.len() > 0 && s[0] == '+' {
        s.drop_first()
    } else {
        s
    };
    if body.len() > 0 && all_digits(body) {
        Some(digits_value(body))
    } else {
        None
    }
}

/// std's `str::parse::<T>()` for an unsigned `T` whose largest value is `max`.
pub open spec fn parse_unsigned(s: Seq<char>, max: nat) -> Option<nat> {
    match unsigned_value(s) {
        Some(v) => if v <= max {
            Some(v)
        } else {
            None
        },
        None => None,
    }
}

/// std's `str::parse::<i32>()`: an optional sign, then digits, within range.
pub open spec fn parse_i32_spec(s: Seq<char>) -> Option<int> {
    if s.len() > 0 && s[0] == '-' {
        let body = s.drop_first();
        if body.len() > 0 && all_digits(body) && digits_value(body) <= 0x8000_0000 {
            Some(-(digits_value(body) as int))
        } else {
            None
        }
    } else {
        match parse_unsigned(s, 0x7fff_ffff) {
            Some(v) => Some(v as int),
            None => None,
        }
    }
}

proof fn lemma_digits_value_prefix(s: Seq<char>, k: int)
    requires
        0 <= k <= s.len(),
    ensures
        digits_value(s) >= digits_value(s.take(k)),
    decreases s.len(),
{
    if k < s.len() {
        assert(s.drop_last().take(k) == s.take(k));
        lemma_digits_value_prefix(s.drop_last(), k);
    } else {
        assert(s.take(k) == s);
    }
}

proof fn lemma_overflow_step(v: nat, d: nat, max: nat)
    requires
        d <= 9,
        d <= max,
    ensures
        (v * 10 + d <= max) <==> (v <= (max - d) as nat / 10),
{
    assert((v * 10 + d <= max) <==> (v <= (max - d) as nat / 10)) by (nonlinear_arith)
        requires
            d <= 9,
            d <= max,
    ;
}

/// Reads digits `s[start..]` as a number no larger than `max`.
fn digits_bounded(s: &Vec<char>, start: usize, max: u64) -> (r: Option<u64>)
    requires
        start <= s.len(),
    ensures
        ({
            let body = s@.skip(start as int);
            match r {
                Some(v) => body.len() > 0 && all_digits(body) && v == digits_value(body)
                    && v <= max,
                None => !(body.len() > 0 && all_digits(body) && digits_value(body) <= max),
            }
        }),
{
    let ghost body = s@.skip(start as int);
    if start == s.len() {
        return None;
    }
    let mut v: u64 = 0;
    let mut i: usize = start;
    while i < s.len()
        invariant
            start <= i <= s.len(),
            body == s@.skip(start as int),
            all_digits(body.take(i - start)),
            v == digits_value(body.take(i - start)),
            v <= max,
        decreases s.len() - i,
    {
        let c = s[i];
        if !('0' <= c && c <= '9') {
            assert(body[i - start] == c);
            return None;
        }
        let d: u64 = (c as u64) - ('0' as u64);
        assert(body.take(i - start + 1).drop_last() == body.take(i - start));
        assert(body.take(i - start + 1).last() == c);
        if d > max || v > (max - d) / 10 {
            proof {
                if d <= max {
                    lemma_overflow_step(v as nat, d as nat, max as nat);
                }
                if all_digits(body) {
                    lemma_digits_value_prefix(body, i - start + 1);
                }
            }
            return None;
        }
        proof {
            lemma_overflow_step(v as nat, d as nat, max as nat);
        }
        v = v * 10 + d;
        i = i + 1;
    }
    assert(body.take(i - start) == body);
    Some(v)
}

/// std's `str::parse` for an unsigned integer type whose largest value is `max`.
pub fn parse_unsigned_chars(s: &Vec<char>, max: u64) -> (r: Option<u64>)
    ensures
        match r {
            Some(v) => parse_unsigned(s@, max as nat) == Some(v as nat),
            None => parse_unsigned(s@, max as nat) is None,
        },
{
    let start: usize = if s.len() > 0 && s[0] == '+' {
        1
    } else {
        0
    };
    assert(s@.skip(start as int) == (if s@.len() > 0 && s@[0] == '+' {
        s@.drop_first()
    } else {
        s@
    }));
    digits_bounded(s, start, max)
}

/// std's `str::parse::<i32>()`.
pub fn parse_i32_chars(s: &Vec<char>) -> (r: Option<i32>)
    ensures
        match r {
            Some(v) => parse_i32_spec(s@) == Some(v as int),
            None => parse_i32_spec(s@) is None,
        },
{
    if s.len() > 0 && s[0] == '-' {
        assert(s@.skip(1) == s@.drop_first());
        match digits_bounded(s, 1, 0x8000_0000) {
            Some(v) => {
                let w: i64 = 0i64 - (v as i64);
                Some(w as i32)
            },
            None => None,
        }
    } else {
        match parse_unsigned_chars(s, 0x7fff_ffff) {
            Some(v) => Some(v as i32),
            None => None,
        }
    }
}

/// The decimal digit character for `d < 10`.
pub open spec fn digit_char(d: nat) -> char {
    ((d + 48) as u8) as char
}

/// The decimal representation of `n`, without sign or leading zeros.
pub open spec fn decimal(n: nat) -> Seq<char>
    decreases n,
{
    if n < 10 {
        seq![digit_char(n)]
    } else {
        decimal(n / 10).push(digit_char(n % 10))
    }
}

/// Reading back a decimal representation gives the number.
pub proof fn lemma_decimal_reads_back(n: nat)
    ensures
        decimal(n).len() > 0,
        all_digits(decimal(n)),
        digits_value(decimal(n)) == n,
        decimal(n)[0] != '+',
        decimal(n)[0] != '-',
    decreases n,
{
    if n < 10 {
        assert(decimal(n).drop_last().len() == 0);
        assert(digit_of(digit_char(n)) == n);
        assert(digits_value(decimal(n).drop_last()) == 0);
        assert(decimal(n).last() == digit_char(n));
    } else {
        lemma_decimal_reads_back(n / 10);
        let s = decimal(n);
        assert(digit_of(digit_char(n % 10)) == n % 10);
        assert(s.last() == digit_char(n % 10));
        assert(s.drop_last() =~= decimal(n / 10));
        assert(digits_value(s.drop_last()) == n / 10);
        assert(digits_value(s) == (n / 10) * 10 + n % 10);
        assert(s.drop_last() == decimal(n / 10));
        assert forall|i: int| 0 <= i < s.len() implies is_digit(#[trigger] s[i]) by {
            if i < s.len() - 1 {
                assert(s[i] == decimal(n / 10)[i]);
            }
        }
    }
}

/// std's `parse` reads back what `to_string` wrote, for any value in range.
pub proof fn lemma_parse_decimal(n: nat, max: nat)
    requires
        n <= max,
    ensures
        parse_unsigned(decimal(n), max) == Some(n),
{
    lemma_decimal_reads_back(n);
}

/// The decimal text of `n` (what `to_string` writes).
pub fn decimal_chars(n: u128) -> (v: Vec<char>)
    ensures
        v@ == decimal(n as nat),
    decreases n,
{
    if n < 10 {
        let c = ((n as u8) + 48u8) as char;
        vec![c]
    } else {
        let mut v = decimal_chars(n / 10);
        let d: u128 = n % 10;
        let c = ((d as u8) + 48u8) as char;
        v.push(c);
        v
    }
}

// ---------------------------------------------------------------------
// Whitespace, case, comparison

/// Unicode `White_Space`, as `char::is_whitespace` documents it.
pub open spec fn is_whitespace(c: char) -> bool {
    c == ' ' || ('\t' <= c && c <= '\r') || c == '\u{85}' || c == '\u{a0}' || c == '\u{1680}'
        || ('\u{2000}' <= c && c <= '\u{200a}') || c == '\u{2028}' || c == '\u{2029}'
        || c == '\u{202f}' || c == '\u{205f}' || c == '\u{3000}'
}

pub fn is_whitespace_char(c: char) -> (r: bool)
    ensures
        r == is_whitespace(c),
{
    c == ' ' || ('\t' <= c && c <= '\r') || c == '\u{85}' || c == '\u{a0}' || c == '\u{1680}'
        || ('\u{2000}' <= c && c <= '\u{200a}') || c == '\u{2028}' || c == '\u{2029}'
        || c == '\u{202f}' || c == '\u{205f}' || c == '\u{3000}'
}

/// `s` without its leading whitespace (`str::trim_start`).
pub open spec fn trim_start(s: Seq<char>) -> Seq<char>
    decreases s.len(),
{
    if s.len() > 0 && is_whitespace(s[0]) {
        trim_start(s.drop_first())
    } else {
        s
    }
}

/// `s` without its trailing whitespace (`str::trim_end`).
pub open spec fn trim_end(s: Seq<char>) -> Seq<char>
    decreases s.len(),
{
    if s.len() > 0 && is_whitespace(s.last()) {
        trim_end(s.drop_last())
    } else {
        s
    }
}

/// `str::trim`.
pub open spec fn trim(s: Seq<char>) -> Seq<char> {
    trim_end(trim_start(s))
}

/// A copy of `s[from..to]`.
pub fn slice_chars(s: &Vec<char>, from: usize, to: usize) -> (r: Vec<char>)
    requires
        from <= to <= s.len(),
    ensures
        r@ == s@.subrange(from as int, to as int),
{
    let mut r: Vec<char> = Vec::new();
    let mut i = from;
    while i < to
        invariant
            from <= i <= to <= s.len(),
            r@ == s@.subrange(from as int, i as int),
        decreases to - i,
    {
        r.push(s[i]);
        i = i + 1;
    }
    r
}

/// Index of the first character of `trim_start(s)`.
fn trim_start_index(s: &Vec<char>) -> (i: usize)
    ensures
        i <= s.len(),
        trim_start(s@) == s@.skip(i as int),
{
    let mut i: usize = 0;
    assert(s@.skip(0) =~= s@);
    while i < s.len() && is_whitespace_char(s[i])
        invariant
            i <= s.len(),
            trim_start(s@) == trim_start(s@.skip(i as int)),
        decreases s.len() - i,
    {
        assert(s@.skip(i as int).drop_first() =~= s@.skip(i + 1));
        i = i + 1;
    }
    if i == s.len() {
        assert(s@.skip(i as int).len() == 0);
    }
    i
}

/// `str::trim_start`.
pub fn trim_start_chars(s: &Vec<char>) -> (r: Vec<char>)
    ensures
        r@ == trim_start(s@),
{
    let i = trim_start_index(s);
    slice_chars(s, i, s.len())
}

/// `str::trim`.
pub fn trim_chars(s: &Vec<char>) -> (r: Vec<char>)
    ensures
        r@ == trim(s@),
{
    let i = trim_start_index(s);
    let mut j: usize = s.len();
    while j > i && is_whitespace_char(s[j - 1])
        invariant
            i <= j <= s.len(),
            trim_start(s@) == s@.skip(i as int),
            trim_end(trim_start(s@)) == trim_end(s@.subrange(i as int, j as int)),
        decreases j,
    {
        assert(s@.subrange(i as int, j as int).drop_last() =~= s@.subrange(i as int, j - 1));
        j = j - 1;
    }
    assert(s@.skip(i as int) =~= s@.subrange(i as int, s.len() as int));
    slice_chars(s, i, j)
}

/// `char::to_ascii_lowercase`.
pub open spec fn lower(c: char) -> char {
    if 'A' <= c && c <= 'Z' {
        ((c as u32 + 32) as u8) as char
    } else {
        c
    }
}

/// `str::to_ascii_lowercase`.
pub open spec fn to_lower(s: Seq<char>) -> Seq<char> {
    s.map_values(|c: char| lower(c))
}

pub fn lower_char(c: char) -> (r: char)
    ensures
        r == lower(c),
{
    if 'A' <= c && c <= 'Z' {
        ((c as u32 + 32) as u8) as char
    } else {
        c
    }
}

/// `str::to_ascii_lowercase`.
pub fn to_lower_chars(s: &Vec<char>) -> (r: Vec<char>)
    ensures
        r@ == to_lower(s@),
{
    let mut r: Vec<char> = Vec::new();
    let mut i: usize = 0;
    while i < s.len()
        invariant
            i <= s.len(),
            r@ == to_lower(s@.take(i as int)),
        decreases s.len() - i,
    {
        r.push(lower_char(s[i]));
        i = i + 1;
        assert(to_lower(s@.take(i as int)) =~= to_lower(s@.take(i - 1)).push(lower(s@[i - 1])));
    }
    assert(s@.take(i as int) == s@);
    r
}

/// Whether two character sequences are equal.
pub fn chars_eq(a: &Vec<char>, b: &Vec<char>) -> (r: bool)
    ensures
        r == (a@ == b@),
{
    if a.len() != b.len() {
        return false;
    }
    let mut i: usize = 0;
    while i < a.len()
        invariant
            i <= a.len() == b.len(),
            a@.take(i as int) == b@.take(i as int),
        decreases a.len() - i,
    {
        if a[i] != b[i] {
            assert(a@[i as int] != b@[i as int]);
            return false;
        }
        i = i + 1;
        assert(a@.take(i as int) =~= b@.take(i as int));
    }
    assert(a@ =~= a@.take(i as int));
    assert(b@ =~= b@.take(i as int));
    true
}

/// Whether `a` is exactly the text `lit`.
pub fn is_text(a: &Vec<char>, lit: &str) -> (r: bool)
    ensures
        r == (a@ == lit@),
{
    let b = chars_of(lit);
    chars_eq(a, &b)
}

/// `p` is a prefix of `s`.
pub open spec fn has_prefix(s: Seq<char>, p: Seq<char>) -> bool {
    p.len() <= s.len() && s.take(p.len() as int) == p
}

/// `str::starts_with` for a literal prefix.
pub fn starts_with_text(s: &Vec<char>, lit: &str) -> (r: bool)
    ensures
        r == has_prefix(s@, lit@),
{
    let p = chars_of(lit);
    starts_with_chars(s, &p)
}

/// Whether `p` is a prefix of `s`.
pub fn starts_with_chars(s: &Vec<char>, p: &Vec<char>) -> (r: bool)
    ensures
        r == has_prefix(s@, p@),
{
    if p.len() > s.len() {
        return false;
    }
    let head = slice_chars(s, 0, p.len());
    assert(head@ == s@.take(p@.len() as int));
    chars_eq(&head, p)
}

// ---------------------------------------------------------------------
// Splitting

/// The character sequences held by a list of character vectors.
pub open spec fn views(v: Seq<Vec<char>>) -> Seq<Seq<char>> {
    v.map_values(|x: Vec<char>| x@)
}

/// Index of the first `c` in `s`, or `s.len()` where there is none.
pub open spec fn first_index(s: Seq<char>, c: char) -> int
    decreases s.len(),
{
    if s.len() == 0 {
        0
    } else if s[0] == c {
        0
    } else {
        1 + first_index(s.drop_first(), c)
    }
}

pub proof fn lemma_first_index(s: Seq<char>, c: char, i: int)
    requires
        0 <= i <= s.len(),
        forall|j: int| 0 <= j < i ==> s[j] != c,
        i == s.len() || s[i] == c,
    ensures
        first_index(s, c) == i,
    decreases i,
{
    if i > 0 {
        assert forall|j: int| 0 <= j < i - 1 implies s.drop_first()[j] != c by {
            assert(s.drop_first()[j] == s[j + 1]);
        }
        lemma_first_index(s.drop_first(), c, i - 1);
    }
}

/// `str::split_once` on a single character.
pub open spec fn split_once(s: Seq<char>, c: char) -> Option<(Seq<char>, Seq<char>)> {
    let i = first_index(s, c);
    if i < s.len() {
        Some((s.take(i), s.skip(i + 1)))
    } else {
        None
    }
}

/// `str::split_once` on a single character.
pub fn split_once_chars(s: &Vec<char>, c: char) -> (r: Option<(Vec<char>, Vec<char>)>)
    ensures
        match r {
            Some((a, b)) => split_once(s@, c) == Some((a@, b@)),
            None => split_once(s@, c) is None,
        },
{
    let mut i: usize = 0;
    while i < s.len() && s[i] != c
        invariant
            i <= s.len(),
            forall|j: int| 0 <= j < i ==> s@[j] != c,
        decreases s.len() - i,
    {
        i = i + 1;
    }
    proof {
        lemma_first_index(s@, c, i as int);
    }
    if i == s.len() {
        None
    } else {
        let a = slice_chars(s, 0, i);
        let b = slice_chars(s, i + 1, s.len());
        assert(a@ == s@.take(i as int));
        assert(b@ == s@.skip(i + 1));
        Some((a, b))
    }
}

/// `str::split` on a single character: the pieces between separators.
pub open spec fn split_char(s: Seq<char>, c: char) -> Seq<Seq<char>>
    decreases s.len(),
{
    if s.len() == 0 {
        seq![Seq::empty()]
    } else {
        let r = split_char(s.drop_last(), c);
        if s.last() == c {
            r.push(Seq::empty())
        } else {
            r.update(r.len() - 1, r.last().push(s.last()))
        }
    }
}

pub proof fn lemma_split_char_nonempty(s: Seq<char>, c: char)
    ensures
        split_char(s, c).len() >= 1,
    decreases s.len(),
{
    if s.len() > 0 {
        lemma_split_char_nonempty(s.drop_last(), c);
    }
}

/// `str::split` on a single character.
pub fn split_chars(s: &Vec<char>, c: char) -> (r: Vec<Vec<char>>)
    ensures
        views(r@) == split_char(s@, c),
{
    let mut pieces: Vec<Vec<char>> = Vec::new();
    let mut cur: Vec<char> = Vec::new();
    let mut i: usize = 0;
    while i < s.len()
        invariant
            i <= s.len(),
            views(pieces@).push(cur@) == split_char(s@.take(i as int), c),
        decreases s.len() - i,
    {
        let ghost before = views(pieces@).push(cur@);
        let x = s[i];
        proof {
            assert(s@.take(i + 1).drop_last() =~= s@.take(i as int));
            lemma_split_char_nonempty(s@.take(i as int), c);
        }
        if x == c {
            let done = cur;
            pieces.push(done);
            cur = Vec::new();
            assert(views(pieces@).push(cur@) =~= before.push(Seq::empty()));
        } else {
            cur.push(x);
            assert(views(pieces@).push(cur@) =~= before.update(before.len() - 1, before.last().push(x)));
        }
        i = i + 1;
    }
    assert(s@.take(i as int) =~= s@);
    pieces.push(cur);
    pieces
}

/// `str::split_whitespace`: the maximal runs of non-whitespace characters.
pub open spec fn words(s: Seq<char>) -> Seq<Seq<char>>
    decreases s.len(),
{
    if s.len() == 0 {
        seq![]
    } else {
        let r = words(s.drop_last());
        let c = s.last();
        if is_whitespace(c) {
            r
        } else if s.len() >= 2 && !is_whitespace(s[s.len() - 2]) {
            r.update(r.len() - 1, r.last().push(c))
        } else {
            r.push(seq![c])
        }
    }
}

proof fn lemma_words_nonempty(s: Seq<char>)
    requires
        s.len() > 0,
        !is_whitespace(s.last()),
    ensures
        words(s).len() > 0,
    decreases s.len(),
{
    if s.len() >= 2 && !is_whitespace(s[s.len() - 2]) {
        assert(s.drop_last().last() == s[s.len() - 2]);
        lemma_words_nonempty(s.drop_last());
    }
}

/// `str::split_whitespace`.
pub fn words_of(s: &Vec<char>) -> (r: Vec<Vec<char>>)
    ensures
        views(r@) == words(s@),
{
    let mut pieces: Vec<Vec<char>> = Vec::new();
    let mut cur: Vec<char> = Vec::new();
    let mut in_word = false;
    let mut i: usize = 0;
    while i < s.len()
        invariant
            i <= s.len(),
            in_word == (i > 0 && !is_whitespace(s@[i - 1])),
            in_word ==> views(pieces@).push(cur@) == words(s@.take(i as int)),
            !in_word ==> views(pieces@) == words(s@.take(i as int)),
        decreases s.len() - i,
    {
        let x = s[i];
        let ghost t = s@.take(i + 1);
        proof {
            assert(t.drop_last() =~= s@.take(i as int));
            assert(t.last() == x);
            if i > 0 {
                assert(t[t.len() - 2] == s@[i - 1]);
            }
        }
        if is_whitespace_char(x) {
            if in_word {
                let done = cur;
                pieces.push(done);
                cur = Vec::new();
            }
            in_word = false;
        } else {
            if in_word {
                proof {
                    lemma_words_nonempty(s@.take(i as int));
                }
                let ghost before = views(pieces@).push(cur@);
                cur.push(x);
                assert(views(pieces@).push(cur@) =~= before.update(before.len() - 1, before.last().push(x)));
            } else {
                cur = Vec::new();
                cur.push(x);
                assert(views(pieces@).push(cur@) =~= words(s@.take(i as int)).push(seq![x]));
            }
            in_word = true;
        }
        i = i + 1;
    }
    assert(s@.take(i as int) =~= s@);
    if in_word {
        pieces.push(cur);
    }
    pieces
}

/// A line without the `\r` of a `\r\n` ending.
pub open spec fn strip_cr(p: Seq<char>) -> Seq<char> {
    if p.len() > 0 && p.last() == '\r' {
        p.drop_last()
    } else {
        p
    }
}

/// `str::lines`: split at `\n`, drop the `\r` of each `\r\n`, and no empty
/// line after a final line ending.
pub open spec fn lines(s: Seq<char>) -> Seq<Seq<char>> {
    let parts = split_char(s, '\n');
    let kept = if parts.last().len() == 0 {
        parts.drop_last()
    } else {
        parts
    };
    Seq::new(
        kept.len(),
        |i: int|
            if i < parts.len() - 1 {
                strip_cr(kept[i])
            } else {
                kept[i]
            },
    )
}

/// `str::lines`.
pub fn lines_of(s: &Vec<char>) -> (r: Vec<Vec<char>>)
    ensures
        views(r@) == lines(s@),
{
    let parts = split_chars(s, '\n');
    proof {
        lemma_split_char_nonempty(s@, '\n');
    }
    let n = parts.len();
    let kept = if parts[n - 1].len() == 0 {
        n - 1
    } else {
        n
    };
    let ghost target = lines(s@);
    let mut r: Vec<Vec<char>> = Vec::new();
    let mut i: usize = 0;
    while i < kept
        invariant
            kept <= n == parts.len(),
            n >= 1,
            views(parts@) == split_char(s@, '\n'),
            kept == target.len(),
            i <= kept,
            target == lines(s@),
            views(r@) == target.take(i as int),
        decreases kept - i,
    {
        let p = &parts[i];
        let line = if i < n - 1 && p.len() > 0 && p[p.len() - 1] == '\r' {
            slice_chars(p, 0, p.len() - 1)
        } else {
            slice_chars(p, 0, p.len())
        };
        assert(p@ == split_char(s@, '\n')[i as int]);
        assert(line@ == target[i as int]);
        let ghost old_r = views(r@);
        r.push(line);
        assert(views(r@) =~= old_r.push(target[i as int]));
        i = i + 1;
        assert(views(r@) =~= target.take(i as int));
    }
    assert(target.take(i as int) =~= target);
    r
}

/// Text without whitespace is its own trim.
pub proof fn lemma_trim_no_whitespace(s: Seq<char>)
    requires
        forall|i: int| 0 <= i < s.len() ==> !is_whitespace(#[trigger] s[i]),
    ensures
        trim(s) == s,
{
    if s.len() > 0 {
        assert(!is_whitespace(s[0]));
        assert(!is_whitespace(s[s.len() - 1]));
    }
}

/// Appending text free of the separator extends the last piece.
pub proof fn lemma_split_char_append(s: Seq<char>, t: Seq<char>, c: char)
    requires
        forall|i: int| 0 <= i < t.len() ==> #[trigger] t[i] != c,
    ensures
        split_char(s + t, c) == split_char(s, c).update(
            split_char(s, c).len() - 1,
            split_char(s, c).last() + t,
        ),
    decreases t.len(),
{
    lemma_split_char_nonempty(s, c);
    if t.len() == 0 {
        assert(s + t =~= s);
        assert(split_char(s, c).last() + t =~= split_char(s, c).last());
        assert(split_char(s, c).update(split_char(s, c).len() - 1, split_char(s, c).last())
            =~= split_char(s, c));
    } else {
        let t2 = t.drop_last();
        assert forall|i: int| 0 <= i < t2.len() implies #[trigger] t2[i] != c by {
            assert(t2[i] == t[i]);
        }
        lemma_split_char_append(s, t2, c);
        assert((s + t).drop_last() =~= s + t2);
        assert((s + t).last() == t.last());
        assert(t.last() != c);
        assert((split_char(s, c).last() + t2).push(t.last()) =~= split_char(s, c).last() + t);
        lemma_split_char_nonempty(s + t2, c);
        assert(split_char(s + t, c) =~= split_char(s, c).update(
            split_char(s, c).len() - 1,
            split_char(s, c).last() + t,
        ));
    }
}

/// Splitting after an appended separator adds an empty piece.
pub proof fn lemma_split_char_push_sep(s: Seq<char>, c: char)
    ensures
        split_char(s.push(c), c) == split_char(s, c).push(Seq::empty()),
{
    assert(s.push(c).drop_last() =~= s);
}

// ---------------------------------------------------------------------
// Integer parse errors

/// Why std's integer parse rejected a text (`std::num::IntErrorKind`).
#[derive(Debug, Clone, Copy, PartialEq, Eq, Structural)]
pub enum IntErrorKind {
    Empty,
    InvalidDigit,
    PosOverflow,
}

impl IntErrorKind {
    /// `ParseIntError`'s message for the kind.
    pub open spec fn message(self) -> Seq<char> {
        match self {
            IntErrorKind::Empty => "cannot parse integer from empty string"@,
            IntErrorKind::InvalidDigit => "invalid digit found in string"@,
            IntErrorKind::PosOverflow => "number too large to fit in target type"@,
        }
    }

    pub fn text(self) -> (s: &'static str)
        ensures
            s@ == self.message(),
    {
        match self {
            IntErrorKind::Empty => "cannot parse integer from empty string",
            IntErrorKind::InvalidDigit => "invalid digit found in string",
            IntErrorKind::PosOverflow => "number too large to fit in target type",
        }
    }
}

/// Left-to-right digit scan as std performs it: at each position a non-digit
/// is reported before an overflow.
pub open spec fn scan_digits(body: Seq<char>, i: int, acc: nat, max: nat) -> Result<nat, IntErrorKind>
    decreases body.len() - i,
{
    if i < 0 || i >= body.len() {
        Ok(acc)
    } else if !is_digit(body[i]) {
        Err(IntErrorKind::InvalidDigit)
    } else if acc * 10 + digit_of(body[i]) > max {
        Err(IntErrorKind::PosOverflow)
    } else {
        scan_digits(body, i + 1, acc * 10 + digit_of(body[i]), max)
    }
}

/// std's unsigned integer parse with its error kind.
pub open spec fn unsigned_parse(s: Seq<char>, max: nat) -> Result<nat, IntErrorKind> {
    if s.len() == 0 {
        Err(IntErrorKind::Empty)
    } else if s == seq!['+'] {
        Err(IntErrorKind::InvalidDigit)
    } else {
        let body = if s[0] == '+' {
            s.drop_first()
        } else {
            s
        };
        scan_digits(body, 0, 0, max)
    }
}

/// std's unsigned integer parse, with the error kind on failure.
pub fn unsigned_parse_chars(s: &Vec<char>, max: u64) -> (r: Result<u64, IntErrorKind>)
    ensures
        match r {
            Ok(v) => v <= max && unsigned_parse(s@, max as nat) == Ok::<nat, IntErrorKind>(v as nat),
            Err(k) => unsigned_parse(s@, max as nat) == Err::<nat, IntErrorKind>(k),
        },
{
    if s.len() == 0 {
        return Err(IntErrorKind::Empty);
    }
    if s.len() == 1 && s[0] == '+' {
        assert(s@ =~= seq!['+']);
        return Err(IntErrorKind::InvalidDigit);
    }
    assert(s@ != seq!['+']);
    let start: usize = if s[0] == '+' {
        1
    } else {
        0
    };
    let ghost body = s@.skip(start as int);
    assert(body == (if s@[0] == '+' {
        s@.drop_first()
    } else {
        s@
    }));
    let mut acc: u64 = 0;
    let mut i: usize = start;
    while i < s.len()
        invariant
            start <= i <= s.len(),
            body == s@.skip(start as int),
            acc <= max,
            unsigned_parse(s@, max as nat) == scan_digits(body, i - start, acc as nat, max as nat),
        decreases s.len() - i,
    {
        let c = s[i];
        assert(body[i - start] == c);
        if !('0' <= c && c <= '9') {
            return Err(IntErrorKind::InvalidDigit);
        }
        let d: u64 = (c as u64) - ('0' as u64);
        if d > max || acc > (max - d) / 10 {
            proof {
                if d <= max {
                    lemma_overflow_step(acc as nat, d as nat, max as nat);
                }
            }
            return Err(IntErrorKind::PosOverflow);
        }
        proof {
            lemma_overflow_step(acc as nat, d as nat, max as nat);
        }
        acc = acc * 10 + d;
        i = i + 1;
    }
    Ok(acc)
}


// ---------------------------------------------------------------------
// Real-number literals

/// A mantissa as std's float parser reads it: digits with at most one
/// `.`, and at least one digit on some side of it.
pub open spec fn decimal_mantissa(m: Seq<char>) -> bool {
    match split_once(m, '.') {
        Some((int_part, frac)) => all_digits(int_part) && all_digits(frac) && (int_part.len() > 0
            || frac.len() > 0),
        None => m.len() > 0 && all_digits(m),
    }
}

/// An exponent after `e`: an optional sign and one or more digits.
pub open spec fn exponent_digits(e: Seq<char>) -> bool {
    let b = if e.len() > 0 && (e[0] == '+' || e[0] == '-') {
        e.drop_first()
    } else {
        e
    };
    b.len() > 0 && all_digits(b)
}

/// The texts that std's `f32`/`f64` `FromStr` accepts: after an optional
/// sign, `inf`, `infinity`, `nan` or a decimal number with an optional
/// exponent, letters in any ASCII case, no surrounding whitespace.
pub open spec fn float_literal(s: Seq<char>) -> bool {
    let body = if s.len() > 0 && (s[0] == '+' || s[0] == '-') {
        s.drop_first()
    } else {
        s
    };
    let l = to_lower(body);
    l == "inf"@ || l == "infinity"@ || l == "nan"@ || match split_once(l, 'e') {
        Some((m, e)) => decimal_mantissa(m) && exponent_digits(e),
        None => decimal_mantissa(l),
    }
}

/// Whether every character of `s` is an ASCII digit.
pub fn all_digits_chars(s: &Vec<char>) -> (r: bool)
    ensures
        r == all_digits(s@),
{
    let mut i: usize = 0;
    while i < s.len()
        invariant
            i <= s.len(),
            forall|j: int| 0 <= j < i ==> is_digit(#[trigger] s@[j]),
        decreases s.len() - i,
    {
        if !('0' <= s[i] && s[i] <= '9') {
            assert(!is_digit(s@[i as int]));
            return false;
        }
        i = i + 1;
    }
    true
}

fn without_sign(s: &Vec<char>) -> (r: Vec<char>)
    ensures
        r@ == (if s@.len() > 0 && (s@[0] == '+' || s@[0] == '-') {
            s@.drop_first()
        } else {
            s@
        }),
{
    if s.len() > 0 && (s[0] == '+' || s[0] == '-') {
        let r = slice_chars(s, 1, s.len());
        assert(r@ =~= s@.drop_first());
        r
    } else {
        s.clone()
    }
}

fn is_decimal_mantissa(m: &Vec<char>) -> (r: bool)
    ensures
        r == decimal_mantissa(m@),
{
    match split_once_chars(m, '.') {
        Some((a, b)) => all_digits_chars(&a) && all_digits_chars(&b) && (a.len() > 0 || b.len() > 0),
        None => m.len() > 0 && all_digits_chars(m),
    }
}

/// Whether std's float parser accepts `s`.
pub fn is_float_literal(s: &Vec<char>) -> (r: bool)
    ensures
        r == float_literal(s@),
{
    let body = without_sign(s);
    let l = to_lower_chars(&body);
    if is_text(&l, "inf") || is_text(&l, "infinity") || is_text(&l, "nan") {
        return true;
    }
    match split_once_chars(&l, 'e') {
        Some((m, e)) => {
            let b = without_sign(&e);
            is_decimal_mantissa(&m) && b.len() > 0 && all_digits_chars(&b)
        },
        None => is_decimal_mantissa(&l),
    }
}

} // verus!

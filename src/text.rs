//! Text primitives over character and byte sequences: search, trimming,
//! splitting and unsigned decimal numbers, each proved against a spec function.
use vstd::prelude::*;

verus! {

// ---------------------------------------------------------------------------
// Strings and character vectors
// ---------------------------------------------------------------------------

/// Relies on `String::push`: the character is appended at the end.
#[verifier::external_body]
pub(crate) fn push_char(s: &mut String, c: char)
    ensures
        final(s)@ == old(s)@.push(c),
{
    s.push(c)
}

/// The characters of `s`, in order.
pub fn to_chars(s: &str) -> (r: Vec<char>)
    ensures
        r@ == s@,
{
    let mut r: Vec<char> = Vec::new();
    for c in it: s.chars()
        invariant
            r@ == it.seq().subrange(0, it.index() as int),
    {
        r.push(c);
    }
    r
}

/// A string holding exactly the characters of `v`.
pub fn from_chars(v: &Vec<char>) -> (r: String)
    ensures
        r@ == v@,
{
    let mut r = String::new();
    let mut i: usize = 0;
    while i < v.len()
        invariant
            i <= v.len(),
            r@ == v@.subrange(0, i as int),
        decreases v.len() - i,
    {
        push_char(&mut r, v[i]);
        i = i + 1;
    }
    r
}

/// Appends the characters of `src` to `dst`.
pub fn extend_chars(dst: &mut Vec<char>, src: &Vec<char>)
    ensures
        final(dst)@ == old(dst)@ + src@,
{
    let mut i: usize = 0;
    while i < src.len()
        invariant
            i <= src.len(),
            dst@ == old(dst)@ + src@.subrange(0, i as int),
        decreases src.len() - i,
    {
        dst.push(src[i]);
        i = i + 1;
    }
}

/// The characters `v[from..to]` as a new vector.
pub fn sub_chars(v: &Vec<char>, from: usize, to: usize) -> (r: Vec<char>)
    requires
        from <= to <= v.len(),
    ensures
        r@ == v@.subrange(from as int, to as int),
{
    let mut r: Vec<char> = Vec::new();
    let mut i: usize = from;
    while i < to
        invariant
            from <= i <= to <= v.len(),
            r@ == v@.subrange(from as int, i as int),
        decreases to - i,
    {
        r.push(v[i]);
        i = i + 1;
    }
    r
}

/// Whether two character sequences are equal.
pub fn chars_equal(a: &Vec<char>, b: &Vec<char>) -> (r: bool)
    ensures
        r == (a@ == b@),
{
    if a.len() != b.len() {
        return false;
    }
    let mut i: usize = 0;
    while i < a.len()
        invariant
            i <= a.len() == b.len(),
            a@.subrange(0, i as int) == b@.subrange(0, i as int),
        decreases a.len() - i,
    {
        if a[i] != b[i] {
            return false;
        }
        assert(a@.subrange(0, i + 1) =~= a@.subrange(0, i as int).push(a@[i as int]));
        assert(b@.subrange(0, i + 1) =~= b@.subrange(0, i as int).push(b@[i as int]));
        i = i + 1;
    }
    assert(a@ =~= a@.subrange(0, a@.len() as int));
    assert(b@ =~= b@.subrange(0, b@.len() as int));
    true
}

/// Whether the text `s` is exactly `t`.
pub fn same_text(s: &str, t: &str) -> (r: bool)
    ensures
        r == (s@ == t@),
{
    chars_equal(&to_chars(s), &to_chars(t))
}

// ---------------------------------------------------------------------------
// Search
// ---------------------------------------------------------------------------

/// `p` occurs in `t` starting at index `i`.
pub open spec fn occurs_at(t: Seq<char>, p: Seq<char>, i: int) -> bool {
    0 <= i && i + p.len() <= t.len() && t.subrange(i, i + p.len()) == p
}

/// `i` is the first index at or after `start` where `p` occurs in `t`.
pub open spec fn is_first_occurrence_from(t: Seq<char>, p: Seq<char>, start: int, i: int) -> bool {
    &&& start <= i
    &&& occurs_at(t, p, i)
    &&& forall|j: int| start <= j < i ==> !occurs_at(t, p, j)
}

/// The first index at or after `start` where `p` occurs in `t`, if any.
pub open spec fn first_occurrence_from(t: Seq<char>, p: Seq<char>, start: int) -> Option<int> {
    if exists|i: int| is_first_occurrence_from(t, p, start, i) {
        Some(choose|i: int| is_first_occurrence_from(t, p, start, i))
    } else {
        None
    }
}

/// The index of the first `c` in `t` at or after `start`, or `t.len()` when
/// there is none.
pub open spec fn first_index_from(t: Seq<char>, c: char, start: int) -> int {
    if exists|k: int| start <= k < t.len() && t[k] == c && forall|j: int| start <= j < k ==> t[j] != c {
        choose|k: int| start <= k < t.len() && t[k] == c && forall|j: int| start <= j < k ==> t[j] != c
    } else {
        t.len() as int
    }
}

/// Whether `p` occurs in `t` at index `i`.
pub fn matches_at(t: &Vec<char>, p: &Vec<char>, i: usize) -> (r: bool)
    ensures
        r == occurs_at(t@, p@, i as int),
{
    if i > t.len() || p.len() > t.len() - i {
        return false;
    }
    let mut k: usize = 0;
    while k < p.len()
        invariant
            i + p.len() <= t.len(),
            k <= p.len(),
            t@.subrange(i as int, i + k) == p@.subrange(0, k as int),
        decreases p.len() - k,
    {
        if t[i + k] != p[k] {
            assert(t@.subrange(i as int, i + p.len())[k as int] == t@[i + k]);
            return false;
        }
        assert(t@.subrange(i as int, i + k + 1) =~= t@.subrange(i as int, i + k).push(t@[i + k]));
        assert(p@.subrange(0, k + 1) =~= p@.subrange(0, k as int).push(p@[k as int]));
        k = k + 1;
    }
    assert(p@ =~= p@.subrange(0, p@.len() as int));
    true
}

/// The first index at or after `start` where `p` occurs in `t`.
pub fn find_from(t: &Vec<char>, p: &Vec<char>, start: usize) -> (r: Option<usize>)
    ensures
        match r {
            Some(i) => first_occurrence_from(t@, p@, start as int) == Some(i as int),
            None => first_occurrence_from(t@, p@, start as int) is None,
        },
        r matches Some(i) ==> is_first_occurrence_from(t@, p@, start as int, i as int),
        r is None ==> forall|j: int| start <= j ==> !occurs_at(t@, p@, j),
{
    if p.len() > t.len() || start > t.len() - p.len() {
        assert forall|j: int| start <= j implies !occurs_at(t@, p@, j) by {
            assert(j + p@.len() > t@.len());
        }
        return None;
    }
    let last: usize = t.len() - p.len();
    let mut i: usize = start;
    while i < last
        invariant
            start <= i <= last,
            last + p.len() == t.len(),
            forall|j: int| start <= j < i ==> !occurs_at(t@, p@, j),
        decreases last - i,
    {
        if matches_at(t, p, i) {
            proof {
                lemma_first_occurrence_is(t@, p@, start as int, i as int);
            }
            return Some(i);
        }
        i = i + 1;
    }
    if matches_at(t, p, i) {
        proof {
            lemma_first_occurrence_is(t@, p@, start as int, i as int);
        }
        return Some(i);
    }
    assert forall|j: int| start <= j implies !occurs_at(t@, p@, j) by {
        if j > i {
            assert(j + p@.len() > t@.len());
        }
    }
    None
}

proof fn lemma_first_occurrence_is(t: Seq<char>, p: Seq<char>, start: int, i: int)
    requires
        is_first_occurrence_from(t, p, start, i),
    ensures
        first_occurrence_from(t, p, start) == Some(i),
{
    let c = choose|c: int| is_first_occurrence_from(t, p, start, c);
    assert(c == i) by {
        if c < i {
            assert(!occurs_at(t, p, c));
        } else if c > i {
            assert(!occurs_at(t, p, i));
        }
    }
}

/// The index of the first `c` in `t` at or after `start`, or `t.len()`.
pub fn find_char_from(t: &Vec<char>, c: char, start: usize) -> (r: usize)
    requires
        start <= t.len(),
    ensures
        r == first_index_from(t@, c, start as int),
        start <= r <= t.len(),
        r < t.len() ==> t@[r as int] == c,
        forall|j: int| start <= j < r ==> t@[j] != c,
{
    let mut k: usize = start;
    while k < t.len()
        invariant
            start <= k <= t.len(),
            forall|j: int| start <= j < k ==> t@[j] != c,
        decreases t.len() - k,
    {
        if t[k] == c {
            let ghost w = choose|w: int|
                start <= w < t@.len() && t@[w] == c && forall|j: int| start <= j < w ==> t@[j] != c;
            assert(w == k as int) by {
                if w < k {
                    assert(t@[w] != c);
                } else if w > k {
                    assert(t@[k as int] != c);
                }
            }
            return k;
        }
        k = k + 1;
    }
    k
}

// ---------------------------------------------------------------------------
// Trimming
// ---------------------------------------------------------------------------

/// The characters stripped from both ends of a version value.
pub open spec fn is_quote_or_space(c: char) -> bool {
    c == ' ' || c == '"'
}

pub open spec fn trim_front(s: Seq<char>) -> Seq<char>
    decreases s.len(),
{
    if s.len() > 0 && is_quote_or_space(s[0]) {
        trim_front(s.drop_first())
    } else {
        s
    }
}

pub open spec fn trim_back(s: Seq<char>) -> Seq<char>
    decreases s.len(),
{
    if s.len() > 0 && is_quote_or_space(s.last()) {
        trim_back(s.drop_last())
    } else {
        s
    }
}

/// `s` without the spaces and double quotes at its two ends.
pub open spec fn trim_quotes(s: Seq<char>) -> Seq<char> {
    trim_back(trim_front(s))
}

/// The bounds `(a, b)` of `trim_quotes(v[from..to])` within `v`.
pub fn trim_quotes_bounds(v: &Vec<char>, from: usize, to: usize) -> (r: (usize, usize))
    requires
        from <= to <= v.len(),
    ensures
        from <= r.0 <= r.1 <= to,
        trim_quotes(v@.subrange(from as int, to as int)) == v@.subrange(r.0 as int, r.1 as int),
{
    let mut a: usize = from;
    while a < to && (v[a] == ' ' || v[a] == '"')
        invariant
            from <= a <= to <= v.len(),
            trim_front(v@.subrange(from as int, to as int)) == trim_front(v@.subrange(a as int, to as int)),
        decreases to - a,
    {
        assert(v@.subrange(a as int, to as int).drop_first() =~= v@.subrange(a + 1, to as int));
        a = a + 1;
    }
    let mut b: usize = to;
    while b > a && (v[b - 1] == ' ' || v[b - 1] == '"')
        invariant
            from <= a <= b <= to <= v.len(),
            trim_back(v@.subrange(a as int, to as int)) == trim_back(v@.subrange(a as int, b as int)),
        decreases b - a,
    {
        assert(v@.subrange(a as int, b as int).drop_last() =~= v@.subrange(a as int, b - 1));
        b = b - 1;
    }
    (a, b)
}

// ---------------------------------------------------------------------------
// Splitting
// ---------------------------------------------------------------------------

/// The pieces of `s` between occurrences of `sep`, as `str::split` gives
/// them: `n` separators make `n + 1` pieces, empty ones included.
pub open spec fn split_on<A>(s: Seq<A>, sep: A) -> Seq<Seq<A>>
    decreases s.len(),
{
    if s.len() == 0 {
        seq![Seq::empty()]
    } else {
        let init = split_on(s.drop_last(), sep);
        if s.last() == sep {
            init.push(Seq::empty())
        } else {
            init.update(init.len() - 1, init.last().push(s.last()))
        }
    }
}

pub proof fn lemma_split_on_nonempty<A>(s: Seq<A>, sep: A)
    ensures
        split_on(s, sep).len() >= 1,
    decreases s.len(),
{
    if s.len() > 0 {
        lemma_split_on_nonempty(s.drop_last(), sep);
    }
}

/// A sequence without the separator is a single piece.
pub proof fn lemma_split_on_without_sep<A>(s: Seq<A>, sep: A)
    requires
        !s.contains(sep),
    ensures
        split_on(s, sep) == seq![s],
    decreases s.len(),
{
    if s.len() > 0 {
        assert(!s.drop_last().contains(sep)) by {
            if s.drop_last().contains(sep) {
                let k = choose|k: int| 0 <= k < s.drop_last().len() && s.drop_last()[k] == sep;
                assert(s[k] == sep);
            }
        }
        lemma_split_on_without_sep(s.drop_last(), sep);
        assert(s.last() != sep) by {
            assert(s[s.len() - 1] == s.last());
        }
        assert(s.drop_last().push(s.last()) =~= s);
        assert(split_on(s, sep) =~= seq![s]);
    } else {
        assert(s =~= Seq::<A>::empty());
    }
}

/// Splitting at a separator splits the pieces.
pub proof fn lemma_split_on_concat<A>(a: Seq<A>, b: Seq<A>, sep: A)
    ensures
        split_on(a + seq![sep] + b, sep) == split_on(a, sep) + split_on(b, sep),
    decreases b.len(),
{
    let s = a + seq![sep] + b;
    if b.len() == 0 {
        assert(s.drop_last() =~= a);
        assert(split_on(s, sep) =~= split_on(a, sep) + split_on(b, sep));
    } else {
        let b0 = b.drop_last();
        assert(s.drop_last() =~= a + seq![sep] + b0);
        lemma_split_on_concat(a, b0, sep);
        lemma_split_on_nonempty(b0, sep);
        lemma_split_on_nonempty(a, sep);
        assert(s.last() == b.last());
        let left = split_on(a, sep);
        let right = split_on(b0, sep);
        if b.last() == sep {
            assert(split_on(s, sep) =~= left + right.push(Seq::empty()));
        } else {
            assert((left + right).last() == right.last());
            assert(split_on(s, sep) =~= left + right.update(right.len() - 1, right.last().push(b.last())));
        }
        assert(split_on(s, sep) =~= split_on(a, sep) + split_on(b, sep));
    }
}

// ---------------------------------------------------------------------------
// Unsigned decimal numbers
// ---------------------------------------------------------------------------

pub open spec fn is_digit(c: char) -> bool {
    '0' <= c <= '9'
}

pub open spec fn digit_value(c: char) -> nat {
    (c as int - '0' as int) as nat
}

pub open spec fn all_digits(s: Seq<char>) -> bool {
    forall|i: int| 0 <= i < s.len() ==> is_digit(#[trigger] s[i])
}

/// A non-empty run of decimal digits, with no sign.
pub open spec fn is_digit_run(s: Seq<char>) -> bool {
    s.len() > 0 && all_digits(s)
}

/// Whether `s` is a non-empty run of decimal digits.
pub fn digit_run(s: &Vec<char>) -> (r: bool)
    ensures
        r == is_digit_run(s@),
{
    if s.len() == 0 {
        return false;
    }
    let mut i: usize = 0;
    while i < s.len()
        invariant
            i <= s.len(),
            forall|j: int| 0 <= j < i ==> is_digit(#[trigger] s@[j]),
        decreases s.len() - i,
    {
        if !('0' <= s[i] && s[i] <= '9') {
            assert(!is_digit(s@[i as int]));
            return false;
        }
        i = i + 1;
    }
    true
}

/// The value of a sequence of decimal digits, most significant first.
pub open spec fn digits_value(s: Seq<char>) -> nat
    decreases s.len(),
{
    if s.len() == 0 {
        0
    } else {
        digits_value(s.drop_last()) * 10 + digit_value(s.last())
    }
}

/// The digits of an unsigned literal as `str::parse` reads it: one leading
/// `+` is allowed.
pub open spec fn literal_digits(s: Seq<char>) -> Seq<char> {
    if s.len() > 0 && s[0] == '+' {
        s.drop_first()
    } else {
        s
    }
}

pub open spec fn is_unsigned_literal(s: Seq<char>) -> bool {
    literal_digits(s).len() > 0 && all_digits(literal_digits(s))
}

pub open spec fn unsigned_value(s: Seq<char>) -> nat {
    digits_value(literal_digits(s))
}

/// `s` reads as an unsigned integer no larger than `max`.
pub open spec fn parses_within(s: Seq<char>, max: nat) -> bool {
    is_unsigned_literal(s) && unsigned_value(s) <= max
}

/// Reads `s` as an unsigned decimal `u128`, as `str::parse::<u128>` does.
pub fn parse_u128(s: &Vec<char>) -> (r: Option<u128>)
    ensures
        r is Some <==> parses_within(s@, u128::MAX as nat),
        r is Some ==> r->0 == unsigned_value(s@),
{
    let start: usize = if s.len() > 0 && s[0] == '+' {
        1
    } else {
        0
    };
    let ghost digits = literal_digits(s@);
    assert(digits =~= s@.subrange(start as int, s@.len() as int));
    if start == s.len() {
        return None;
    }
    let mut acc: u128 = 0;
    let mut overflow = false;
    let mut i: usize = start;
    while i < s.len()
        invariant
            start <= i <= s.len(),
            digits == literal_digits(s@),
            digits == s@.subrange(start as int, s@.len() as int),
            all_digits(s@.subrange(start as int, i as int)),
            !overflow ==> acc == digits_value(s@.subrange(start as int, i as int)),
            overflow ==> digits_value(s@.subrange(start as int, i as int)) > u128::MAX,
        decreases s.len() - i,
    {
        let c = s[i];
        if !('0' <= c && c <= '9') {
            assert(digits[i - start] == c);
            assert(!is_digit(digits[i - start]));
            return None;
        }
        let d: u128 = (c as u32 - '0' as u32) as u128;
        let ghost prev = s@.subrange(start as int, i as int);
        let ghost next = s@.subrange(start as int, i + 1);
        assert(next.drop_last() =~= prev);
        assert(digits_value(next) == digits_value(prev) * 10 + digit_value(c));
        if !overflow {
            match acc.checked_mul(10) {
                Some(m) => match m.checked_add(d) {
                    Some(v) => {
                        acc = v;
                    },
                    None => {
                        overflow = true;
                    },
                },
                None => {
                    overflow = true;
                    assert(digits_value(prev) * 10 + digit_value(c) > u128::MAX) by (nonlinear_arith)
                        requires
                            digits_value(prev) * 10 > u128::MAX,
                    ;
                },
            }
        } else {
            assert(digits_value(prev) * 10 + digit_value(c) > u128::MAX) by (nonlinear_arith)
                requires
                    digits_value(prev) > u128::MAX,
            ;
        }
        i = i + 1;
    }
    if overflow {
        None
    } else {
        Some(acc)
    }
}

/// Reads `s` as an unsigned decimal `u32`, as `str::parse::<u32>` does.
pub fn parse_u32(s: &Vec<char>) -> (r: Option<u32>)
    ensures
        r is Some <==> parses_within(s@, u32::MAX as nat),
        r is Some ==> r->0 == unsigned_value(s@),
{
    match parse_u128(s) {
        Some(v) => {
            if v <= u32::MAX as u128 {
                Some(v as u32)
            } else {
                None
            }
        },
        None => None,
    }
}

pub open spec fn digit_char(d: nat) -> char {
    ((d + '0' as int) as u8) as char
}

/// The decimal digits of `n`, most significant first, without leading zeros.
pub open spec fn decimal_chars(n: nat) -> Seq<char>
    decreases n,
{
    if n < 10 {
        seq![digit_char(n)]
    } else {
        decimal_chars(n / 10).push(digit_char(n % 10))
    }
}

/// The decimal digits of `n`, as `to_string` writes them.
pub fn format_u64(n: u64) -> (r: Vec<char>)
    ensures
        r@ == decimal_chars(n as nat),
    decreases n,
{
    let d: u8 = (n % 10) as u8;
    let c: char = (d + 48u8) as char;
    if n < 10 {
        vec![c]
    } else {
        let mut r = format_u64(n / 10);
        r.push(c);
        r
    }
}

} // verus!

//! Verified text utilities: character access, ASCII case folding, trimming,
//! decimal parsing and formatting, splitting and joining.
//!
//! Strings are manipulated as vectors of characters; the one step Verus
//! cannot check is the final collection of characters back into a `String`.

use vstd::prelude::*;

verus! {

/// ASCII lower-casing of one character; other characters are unchanged.
pub open spec fn spec_lower(c: char) -> char {
    match c {
        'A' => 'a',
        'B' => 'b',
        'C' => 'c',
        'D' => 'd',
        'E' => 'e',
        'F' => 'f',
        'G' => 'g',
        'H' => 'h',
        'I' => 'i',
        'J' => 'j',
        'K' => 'k',
        'L' => 'l',
        'M' => 'm',
        'N' => 'n',
        'O' => 'o',
        'P' => 'p',
        'Q' => 'q',
        'R' => 'r',
        'S' => 's',
        'T' => 't',
        'U' => 'u',
        'V' => 'v',
        'W' => 'w',
        'X' => 'x',
        'Y' => 'y',
        'Z' => 'z',
        _ => c,
    }
}

pub open spec fn spec_lower_seq(s: Seq<char>) -> Seq<char> {
    Seq::new(s.len(), |i: int| spec_lower(s[i]))
}

pub fn lower_char(c: char) -> (r: char)
    ensures
        r == spec_lower(c),
{
    match c {
        'A' => 'a',
        'B' => 'b',
        'C' => 'c',
        'D' => 'd',
        'E' => 'e',
        'F' => 'f',
        'G' => 'g',
        'H' => 'h',
        'I' => 'i',
        'J' => 'j',
        'K' => 'k',
        'L' => 'l',
        'M' => 'm',
        'N' => 'n',
        'O' => 'o',
        'P' => 'p',
        'Q' => 'q',
        'R' => 'r',
        'S' => 's',
        'T' => 't',
        'U' => 'u',
        'V' => 'v',
        'W' => 'w',
        'X' => 'x',
        'Y' => 'y',
        'Z' => 'z',
        _ => c,
    }
}

/// The characters of a string slice, in order.
pub fn chars_of(s: &str) -> (v: Vec<char>)
    ensures
        v@ == s@,
{
    let n = s.unicode_len();
    let mut v: Vec<char> = Vec::new();
    let mut i: usize = 0;
    while i < n
        invariant
            n == s@.len(),
            i <= n,
            v@ == s@.subrange(0, i as int),
        decreases n - i,
    {
        v.push(s.get_char(i));
        proof {
            assert(v@ =~= s@.subrange(0, i as int + 1));
        }
        i = i + 1;
    }
    proof {
        assert(v@ =~= s@);
    }
    v
}

/// Relies on `String::from_iter` over `core::iter`: collecting characters
/// into a string preserves them in order.
#[verifier::external_body]
pub fn string_of_chars(v: &Vec<char>) -> (s: String)
    ensures
        s@ == v@,
{
    v.iter().collect()
}

/// Appends one character to a string.
pub fn push_char(s: &String, c: char) -> (r: String)
    ensures
        r@ == s@.push(c),
{
    let mut v = chars_of(s.as_str());
    v.push(c);
    let r = string_of_chars(&v);
    proof {
        assert(r@ =~= s@.push(c));
    }
    r
}

/// Removes the last character of a string, if any.
pub fn pop_char(s: &String) -> (r: String)
    ensures
        s@.len() == 0 ==> r@ == s@,
        s@.len() > 0 ==> r@ == s@.drop_last(),
{
    let mut v = chars_of(s.as_str());
    if v.len() > 0 {
        v.pop();
        proof {
            assert(v@ =~= s@.drop_last());
        }
    }
    string_of_chars(&v)
}

pub open spec fn spec_is_space(c: char) -> bool {
    c == ' ' || c == '\t' || c == '\n' || c == '\r'
}

pub fn is_space(c: char) -> (r: bool)
    ensures
        r == spec_is_space(c),
{
    c == ' ' || c == '\t' || c == '\n' || c == '\r'
}

/// The string with leading and trailing whitespace removed.
pub open spec fn spec_trim(s: Seq<char>) -> Seq<char>
    decreases s.len(),
{
    if s.len() == 0 {
        s
    } else if spec_is_space(s[0]) {
        spec_trim(s.drop_first())
    } else if spec_is_space(s.last()) {
        spec_trim(s.drop_last())
    } else {
        s
    }
}

proof fn lemma_trim_peel_front(s: Seq<char>, i: int)
    requires
        0 <= i <= s.len(),
        forall|k: int| 0 <= k < i ==> spec_is_space(s[k]),
    ensures
        spec_trim(s) == spec_trim(s.subrange(i, s.len() as int)),
    decreases i,
{
    if i > 0 {
        assert(spec_is_space(s[0]));
        assert(spec_trim(s) == spec_trim(s.drop_first()));
        let t = s.drop_first();
        assert(forall|k: int| 0 <= k < i - 1 ==> spec_is_space(t[k]));
        lemma_trim_peel_front(t, i - 1);
        assert(t.subrange(i - 1, t.len() as int) =~= s.subrange(i, s.len() as int));
    } else {
        assert(s.subrange(0, s.len() as int) =~= s);
    }
}

proof fn lemma_trim_peel_back(s: Seq<char>, j: int)
    requires
        0 <= j <= s.len(),
        s.len() > 0 ==> !spec_is_space(s[0]),
        forall|k: int| j <= k < s.len() ==> spec_is_space(s[k]),
        j > 0 ==> !spec_is_space(s[j - 1]),
    ensures
        spec_trim(s) == spec_trim(s.subrange(0, j)),
    decreases s.len() - j,
{
    if j < s.len() {
        assert(spec_is_space(s.last()));
        if s.len() == 1 {
            assert(j == 0);
            assert(spec_trim(s) == spec_trim(s.drop_last()));
            assert(s.drop_last() =~= s.subrange(0, 0));
        } else {
            assert(spec_trim(s) == spec_trim(s.drop_last()));
            let t = s.drop_last();
            lemma_trim_peel_back(t, j);
            assert(t.subrange(0, j) =~= s.subrange(0, j));
        }
    } else {
        assert(s.subrange(0, s.len() as int) =~= s);
    }
}

proof fn lemma_trim_all_space(s: Seq<char>)
    requires
        forall|k: int| 0 <= k < s.len() ==> spec_is_space(s[k]),
    ensures
        spec_trim(s) =~= Seq::<char>::empty(),
    decreases s.len(),
{
    if s.len() > 0 {
        lemma_trim_all_space(s.drop_first());
    }
}

/// Copies `v` with surrounding whitespace removed.
pub fn trim_chars(v: &Vec<char>) -> (r: Vec<char>)
    ensures
        r@ == spec_trim(v@),
{
    let n = v.len();
    let mut start: usize = 0;
    while start < n && is_space(v[start])
        invariant
            n == v@.len(),
            start <= n,
            forall|k: int| 0 <= k < start ==> spec_is_space(v@[k]),
        decreases n - start,
    {
        start = start + 1;
    }
    if start == n {
        proof {
            lemma_trim_all_space(v@);
        }
        let r: Vec<char> = Vec::new();
        return r;
    }
    let mut stop: usize = n;
    while stop > start && is_space(v[stop - 1])
        invariant
            n == v@.len(),
            start < n,
            start <= stop <= n,
            !spec_is_space(v@[start as int]),
            forall|k: int| stop <= k < n ==> spec_is_space(v@[k]),
        decreases stop,
    {
        stop = stop - 1;
    }
    let mut r: Vec<char> = Vec::new();
    let mut i: usize = start;
    while i < stop
        invariant
            n == v@.len(),
            start <= i <= stop <= n,
            r@ == v@.subrange(start as int, i as int),
        decreases stop - i,
    {
        r.push(v[i]);
        proof {
            assert(r@ =~= v@.subrange(start as int, i as int + 1));
        }
        i = i + 1;
    }
    proof {
        lemma_trim_peel_front(v@, start as int);
        let t = v@.subrange(start as int, n as int);
        lemma_trim_peel_back(t, stop - start);
        assert(t.subrange(0, stop - start) =~= v@.subrange(start as int, stop as int));
    }
    r
}

/// Numeric value of a decimal digit; ten for anything else.
pub open spec fn spec_digit_val(c: char) -> int {
    match c {
        '0' => 0,
        '1' => 1,
        '2' => 2,
        '3' => 3,
        '4' => 4,
        '5' => 5,
        '6' => 6,
        '7' => 7,
        '8' => 8,
        '9' => 9,
        _ => 10,
    }
}

pub open spec fn spec_is_digit(c: char) -> bool {
    spec_digit_val(c) < 10
}

pub open spec fn spec_all_digits(s: Seq<char>) -> bool {
    forall|k: int| 0 <= k < s.len() ==> spec_is_digit(#[trigger] s[k])
}

pub fn digit_val(c: char) -> (r: u8)
    ensures
        r == spec_digit_val(c),
{
    match c {
        '0' => 0,
        '1' => 1,
        '2' => 2,
        '3' => 3,
        '4' => 4,
        '5' => 5,
        '6' => 6,
        '7' => 7,
        '8' => 8,
        '9' => 9,
        _ => 10,
    }
}

/// Value of a digit string read in base ten.
pub open spec fn spec_digits_val(s: Seq<char>) -> int
    decreases s.len(),
{
    if s.len() == 0 {
        0
    } else {
        spec_digits_val(s.drop_last()) * 10 + spec_digit_val(s.last())
    }
}

pub proof fn lemma_digits_val_nonneg(s: Seq<char>)
    requires
        spec_all_digits(s),
    ensures
        spec_digits_val(s) >= 0,
    decreases s.len(),
{
    if s.len() > 0 {
        lemma_digits_val_nonneg(s.drop_last());
    }
}

proof fn lemma_digits_val_monotone(s: Seq<char>, i: int)
    requires
        spec_all_digits(s),
        0 <= i <= s.len(),
    ensures
        spec_digits_val(s.subrange(0, i)) <= spec_digits_val(s),
    decreases s.len() - i,
{
    if i < s.len() {
        lemma_digits_val_monotone(s, i + 1);
        let t = s.subrange(0, i + 1);
        assert(t.drop_last() =~= s.subrange(0, i));
        assert(spec_all_digits(s.subrange(0, i)));
        lemma_digits_val_nonneg(s.subrange(0, i));
        assert(spec_digits_val(t) == spec_digits_val(s.subrange(0, i)) * 10 + spec_digit_val(
            s[i],
        ));
    } else {
        assert(s.subrange(0, i) =~= s);
    }
}

pub open spec fn spec_pow10(n: nat) -> int
    decreases n,
{
    if n == 0 {
        1
    } else {
        10 * spec_pow10((n - 1) as nat)
    }
}

pub proof fn lemma_digits_val_bound(s: Seq<char>)
    requires
        spec_all_digits(s),
    ensures
        0 <= spec_digits_val(s) < spec_pow10(s.len()),
    decreases s.len(),
{
    if s.len() > 0 {
        lemma_digits_val_bound(s.drop_last());
    }
}

/// A copy of the first `end` characters.
pub fn prefix_chars(v: &Vec<char>, end: usize) -> (r: Vec<char>)
    requires
        end <= v@.len(),
    ensures
        r@ == v@.subrange(0, end as int),
{
    let mut r: Vec<char> = Vec::new();
    let mut i: usize = 0;
    while i < end
        invariant
            end <= v@.len(),
            i <= end,
            r@ == v@.subrange(0, i as int),
        decreases end - i,
    {
        r.push(v[i]);
        proof {
            assert(r@ =~= v@.subrange(0, i + 1));
        }
        i = i + 1;
    }
    r
}

/// A copy with every character ASCII lower-cased.
pub fn lower_vec(v: &Vec<char>) -> (r: Vec<char>)
    ensures
        r@ == spec_lower_seq(v@),
{
    let mut r: Vec<char> = Vec::new();
    let mut i: usize = 0;
    while i < v.len()
        invariant
            i <= v@.len(),
            r@.len() == i,
            forall|j: int| 0 <= j < i ==> r@[j] == spec_lower(v@[j]),
        decreases v@.len() - i,
    {
        r.push(lower_char(v[i]));
        i = i + 1;
    }
    proof {
        assert(r@ =~= spec_lower_seq(v@));
    }
    r
}

/// The characters of a string, ASCII lower-cased.
pub fn lower_chars(s: &str) -> (r: Vec<char>)
    ensures
        r@ == spec_lower_seq(s@),
{
    let v = chars_of(s);
    lower_vec(&v)
}

/// Reads an unsigned number of at most four digits.
pub fn small_digits_val(v: &Vec<char>) -> (r: Option<u32>)
    requires
        1 <= v@.len() <= 4,
    ensures
        r == if spec_all_digits(v@) {
            Some((spec_digits_val(v@) as u32))
        } else {
            None::<u32>
        },
{
    proof {
        if spec_all_digits(v@) {
            lemma_digits_val_bound(v@);
            reveal_with_fuel(spec_pow10, 5);
        }
    }
    let mut acc: u32 = 0;
    let mut i: usize = 0;
    while i < v.len()
        invariant
            1 <= v@.len() <= 4,
            i <= v@.len(),
            spec_all_digits(v@.subrange(0, i as int)),
            acc == spec_digits_val(v@.subrange(0, i as int)),
            acc <= 9999,
        decreases v@.len() - i,
    {
        let d = digit_val(v[i]);
        if d >= 10 {
            proof {
                assert(!spec_is_digit(v@[i as int]));
            }
            return None;
        }
        proof {
            let pref = v@.subrange(0, i as int);
            let pref2 = v@.subrange(0, i + 1);
            assert(pref2.drop_last() =~= pref);
            assert(pref2.last() == v@[i as int]);
            lemma_digits_val_bound(pref2);
            reveal_with_fuel(spec_pow10, 5);
            if i + 1 == 2 {
                assert(spec_pow10(2) == 100);
            }
        }
        acc = acc * 10 + d as u32;
        i = i + 1;
    }
    proof {
        assert(v@.subrange(0, v@.len() as int) =~= v@);
    }
    Some(acc)
}

/// The integer denoted by an optional sign and a digit string, when the
/// whole text is such a number.
pub open spec fn spec_int_of(s: Seq<char>) -> Option<int> {
    let negative = s.len() > 0 && s[0] == '-';
    let signed = s.len() > 0 && (s[0] == '-' || s[0] == '+');
    let digits = if signed {
        s.drop_first()
    } else {
        s
    };
    if digits.len() > 0 && spec_all_digits(digits) {
        if negative {
            Some(-spec_digits_val(digits))
        } else {
            Some(spec_digits_val(digits))
        }
    } else {
        None
    }
}

/// What `i64` parsing yields on a text: the denoted value when there is one
/// and it fits, nothing otherwise.
pub open spec fn spec_parse_i64(s: Seq<char>) -> Option<i64> {
    match spec_int_of(s) {
        Some(v) => if i64::MIN <= v <= i64::MAX {
            Some(v as i64)
        } else {
            None
        },
        None => None,
    }
}

/// Parses a signed decimal integer, exactly as the text denotes it.
pub fn parse_i64(v: &Vec<char>) -> (r: Option<i64>)
    ensures
        r == spec_parse_i64(v@),
{
    let n = v.len();
    if n == 0 {
        return None;
    }
    let negative = v[0] == '-';
    let signed = negative || v[0] == '+';
    let start: usize = if signed {
        1
    } else {
        0
    };
    if n == start {
        return None;
    }
    let ghost digits = if signed {
        v@.drop_first()
    } else {
        v@
    };
    proof {
        assert(digits =~= v@.subrange(start as int, n as int));
    }
    let mut mag: i128 = 0;
    let mut i: usize = start;
    while i < n
        invariant
            n == v@.len(),
            0 < n,
            start < n,
            start <= i <= n,
            start == if v@[0] == '-' || v@[0] == '+' { 1int } else { 0int },
            digits == v@.subrange(start as int, n as int),
            digits == if v@[0] == '-' || v@[0] == '+' { v@.drop_first() } else { v@ },
            spec_all_digits(digits.subrange(0, i - start)),
            mag == spec_digits_val(digits.subrange(0, i - start)),
            0 <= mag <= 0x8000_0000_0000_0000i128,
        decreases n - i,
    {
        let c = v[i];
        let d = digit_val(c);
        if d >= 10 {
            // not a digit: the text denotes no number
            proof {
                assert(digits[i - start] == v@[i as int]);
                assert(!spec_is_digit(digits[i - start]));
                assert(!spec_all_digits(digits));
            }
            return None;
        }
        let next = mag * 10 + d as i128;
        proof {
            let pref = digits.subrange(0, i - start);
            let pref2 = digits.subrange(0, i + 1 - start);
            assert(pref2.drop_last() =~= pref);
            assert(pref2.last() == v@[i as int]);
        }
        if next > 0x8000_0000_0000_0000i128 {
            // the magnitude already exceeds every i64; later digits only grow it
            proof {
                let pref = digits.subrange(0, i - start);
                let pref2 = digits.subrange(0, i + 1 - start);
                assert(spec_digits_val(pref2) == spec_digits_val(pref) * 10 + spec_digit_val(
                    pref2.last(),
                ));
                assert(pref2.last() == v@[i as int]);
                assert(spec_digits_val(pref2) == next);
                if spec_all_digits(digits) {
                    lemma_digits_val_monotone(digits, i + 1 - start);
                    assert(spec_digits_val(digits) >= next);
                }
            }
            return None;
        }
        mag = next;
        i = i + 1;
    }
    proof {
        assert(digits.subrange(0, n - start) =~= digits);
    }
    if negative {
        Some((-mag) as i64)
    } else if mag <= 0x7fff_ffff_ffff_ffffi128 {
        Some(mag as i64)
    } else {
        None
    }
}

/// Decimal digit characters of a natural number, most significant first.
pub open spec fn spec_dec(n: int) -> Seq<char>
    decreases n,
{
    if n < 10 {
        seq![spec_digit_char(n)]
    } else {
        spec_dec(n / 10).push(spec_digit_char(n % 10))
    }
}

pub open spec fn spec_digit_char(d: int) -> char {
    if d == 0 {
        '0'
    } else if d == 1 {
        '1'
    } else if d == 2 {
        '2'
    } else if d == 3 {
        '3'
    } else if d == 4 {
        '4'
    } else if d == 5 {
        '5'
    } else if d == 6 {
        '6'
    } else if d == 7 {
        '7'
    } else if d == 8 {
        '8'
    } else {
        '9'
    }
}

fn digit_char(d: u64) -> (r: char)
    requires
        d < 10,
    ensures
        r == spec_digit_char(d as int),
{
    match d {
        0 => '0',
        1 => '1',
        2 => '2',
        3 => '3',
        4 => '4',
        5 => '5',
        6 => '6',
        7 => '7',
        8 => '8',
        _ => '9',
    }
}

/// Appends the decimal digits of `n`.
pub fn push_dec(n: u64, out: &mut Vec<char>)
    ensures
        final(out)@ == old(out)@ + spec_dec(n as int),
    decreases n,
{
    if n < 10 {
        out.push(digit_char(n));
        proof {
            assert(out@ =~= old(out)@ + spec_dec(n as int));
        }
    } else {
        push_dec(n / 10, out);
        out.push(digit_char(n % 10));
        proof {
            assert(out@ =~= old(out)@ + spec_dec(n as int));
        }
    }
}

/// The decimal text of an unsigned number.
pub fn u64_string(n: u64) -> (r: String)
    ensures
        r@ == spec_dec(n as int),
{
    let mut v: Vec<char> = Vec::new();
    push_dec(n, &mut v);
    proof {
        assert(v@ =~= spec_dec(n as int));
    }
    string_of_chars(&v)
}

/// Position of the first occurrence of `c` in `s`.
pub open spec fn spec_find_char(s: Seq<char>, c: char) -> Option<int>
    decreases s.len(),
{
    if s.len() == 0 {
        None
    } else if s[0] == c {
        Some(0)
    } else {
        match spec_find_char(s.drop_first(), c) {
            Some(i) => Some(i + 1),
            None => None,
        }
    }
}

pub proof fn lemma_find_char(s: Seq<char>, c: char)
    ensures
        match spec_find_char(s, c) {
            Some(i) => 0 <= i < s.len() && s[i] == c && forall|j: int|
                0 <= j < i ==> #[trigger] s[j] != c,
            None => forall|j: int| 0 <= j < s.len() ==> #[trigger] s[j] != c,
        },
    decreases s.len(),
{
    if s.len() > 0 && s[0] != c {
        let t = s.drop_first();
        lemma_find_char(t, c);
        match spec_find_char(t, c) {
            Some(i) => {
                assert(s[i + 1] == t[i]);
                assert forall|j: int| 0 <= j < i + 1 implies #[trigger] s[j] != c by {
                    if j > 0 {
                        assert(t[j - 1] != c);
                    }
                }
            },
            None => {
                assert forall|j: int| 0 <= j < s.len() implies #[trigger] s[j] != c by {
                    if j > 0 {
                        assert(t[j - 1] != c);
                    }
                }
            },
        }
    }
}

/// The pieces of `s` between occurrences of `sep`: always one more piece
/// than there are separators, so an empty text has one empty piece.
pub open spec fn spec_split(s: Seq<char>, sep: char) -> Seq<Seq<char>>
    decreases s.len(),
        via spec_split_decreases
{
    match spec_find_char(s, sep) {
        None => seq![s],
        Some(i) => seq![s.subrange(0, i)] + spec_split(s.subrange(i + 1, s.len() as int), sep),
    }
}

#[via_fn]
proof fn spec_split_decreases(s: Seq<char>, sep: char) {
    lemma_find_char(s, sep);
}

/// Splits at every occurrence of `sep`, keeping empty pieces.
pub fn split_chars(v: &Vec<char>, sep: char) -> (r: Vec<Vec<char>>)
    ensures
        r@.map_values(|p: Vec<char>| p@) == spec_split(v@, sep),
{
    let n = v.len();
    let mut r: Vec<Vec<char>> = Vec::new();
    let mut piece: Vec<char> = Vec::new();
    let mut t: usize = 0;  // start of the current piece
    let mut i: usize = 0;
    proof {
        assert(v@.subrange(0, n as int) =~= v@);
        assert(r@.map_values(|p: Vec<char>| p@) =~= Seq::<Seq<char>>::empty());
        assert(Seq::<Seq<char>>::empty() + spec_split(v@, sep) =~= spec_split(v@, sep));
        assert(piece@ =~= v@.subrange(0, 0));
    }
    while i < n
        invariant
            n == v@.len(),
            t <= i <= n,
            piece@ == v@.subrange(t as int, i as int),
            forall|j: int| t <= j < i ==> v@[j] != sep,
            spec_split(v@, sep) == r@.map_values(|p: Vec<char>| p@) + spec_split(
                v@.subrange(t as int, n as int),
                sep,
            ),
        decreases n - i,
    {
        let c = v[i];
        if c == sep {
            proof {
                let rest = v@.subrange(t as int, n as int);
                lemma_find_char(rest, sep);
                assert(rest[i - t] == sep);
                match spec_find_char(rest, sep) {
                    Some(k) => {
                        assert(rest[k] == sep);
                        if k < i - t {
                            assert(v@[t + k] == sep);
                            assert(false);
                        }
                        if k > i - t {
                            assert(rest[i - t] != sep);
                            assert(false);
                        }
                        assert(k == i - t);
                        assert(rest.subrange(0, k) =~= piece@);
                        assert(rest.subrange(k + 1, rest.len() as int) =~= v@.subrange(
                            i + 1,
                            n as int,
                        ));
                    },
                    None => {
                        assert(rest[i - t] != sep);
                        assert(false);
                    },
                }
                assert((r@ + seq![piece]).map_values(|p: Vec<char>| p@) =~= r@.map_values(
                    |p: Vec<char>| p@,
                ).push(piece@));
            }
            r.push(piece);
            piece = Vec::new();
            t = i + 1;
            proof {
                assert(piece@ =~= v@.subrange(t as int, t as int));
            }
        } else {
            piece.push(c);
            proof {
                assert(piece@ =~= v@.subrange(t as int, i + 1));
            }
        }
        i = i + 1;
    }
    proof {
        let rest = v@.subrange(t as int, n as int);
        lemma_find_char(rest, sep);
        match spec_find_char(rest, sep) {
            Some(k) => {
                assert(v@[t + k] == sep);
                assert(false);
            },
            None => {},
        }
        assert(piece@ =~= rest);
        assert((r@ + seq![piece]).map_values(|p: Vec<char>| p@) =~= r@.map_values(
            |p: Vec<char>| p@,
        ).push(piece@));
        assert(r@.map_values(|p: Vec<char>| p@).push(rest) =~= r@.map_values(|p: Vec<char>| p@)
            + spec_split(rest, sep));
    }
    r.push(piece);
    r
}

/// The pieces joined with `sep` between them.
pub open spec fn spec_join(items: Seq<Seq<char>>, sep: Seq<char>) -> Seq<char>
    decreases items.len(),
{
    if items.len() == 0 {
        Seq::empty()
    } else if items.len() == 1 {
        items[0]
    } else {
        spec_join(items.drop_last(), sep) + sep + items.last()
    }
}

/// Joins strings with a separator.
pub fn join_strings(items: &Vec<String>, sep: &str) -> (r: String)
    ensures
        r@ == spec_join(items@.map_values(|s: String| s@), sep@),
{
    let mut out = String::new();
    let mut i: usize = 0;
    let ghost views = items@.map_values(|s: String| s@);
    while i < items.len()
        invariant
            i <= items@.len(),
            views == items@.map_values(|s: String| s@),
            out@ == spec_join(views.subrange(0, i as int), sep@),
        decreases items@.len() - i,
    {
        if i > 0 {
            out.append(sep);
        }
        out.append(items[i].as_str());
        proof {
            let pre = views.subrange(0, i as int);
            let cur = views.subrange(0, i + 1);
            assert(cur.drop_last() =~= pre);
            assert(cur.last() == views[i as int]);
            if i == 0 {
                assert(out@ =~= cur[0]);
                assert(spec_join(cur, sep@) == cur[0]);
            }
        }
        i = i + 1;
    }
    proof {
        assert(views.subrange(0, views.len() as int) =~= views);
    }
    out
}

/// Whether `needle` occurs inside `hay` as a contiguous run.
pub open spec fn spec_contains_seq(hay: Seq<char>, needle: Seq<char>) -> bool {
    exists|k: int|
        0 <= k <= hay.len() - needle.len() && #[trigger] hay.subrange(k, k + needle.len())
            == needle
}

fn match_at(hay: &Vec<char>, needle: &Vec<char>, k: usize) -> (r: bool)
    requires
        k + needle@.len() <= hay@.len(),
    ensures
        r == (spec_lower_seq(hay@).subrange(k as int, k + needle@.len()) == spec_lower_seq(
            needle@,
        )),
{
    let m = needle.len();
    let hn = hay.len();
    let mut j: usize = 0;
    while j < m
        invariant
            m == needle@.len(),
            hn == hay@.len(),
            k + m <= hn,
            j <= m,
            forall|l: int| 0 <= l < j ==> spec_lower(hay@[k + l]) == spec_lower(needle@[l]),
        decreases m - j,
    {
        if lower_char(hay[k + j]) != lower_char(needle[j]) {
            proof {
                let lh = spec_lower_seq(hay@).subrange(k as int, k + m);
                assert(lh[j as int] == spec_lower(hay@[k + j]));
                assert(spec_lower_seq(needle@)[j as int] == spec_lower(needle@[j as int]));
            }
            return false;
        }
        j = j + 1;
    }
    proof {
        assert(spec_lower_seq(hay@).subrange(k as int, k + m) =~= spec_lower_seq(needle@));
    }
    true
}

/// Case-insensitive substring test, folding ASCII letters only.
pub fn contains_ci(hay: &Vec<char>, needle: &Vec<char>) -> (r: bool)
    ensures
        r == spec_contains_seq(spec_lower_seq(hay@), spec_lower_seq(needle@)),
{
    let n = hay.len();
    let m = needle.len();
    if m > n {
        proof {
            assert(spec_lower_seq(hay@).len() == n);
            assert(spec_lower_seq(needle@).len() == m);
        }
        return false;
    }
    if m == 0 {
        proof {
            let lh = spec_lower_seq(hay@);
            let ln = spec_lower_seq(needle@);
            assert(spec_contains_seq(lh, ln)) by {
                assert(lh.subrange(0, 0 + ln.len() as int) =~= ln);
            }
        }
        return true;
    }
    let mut k: usize = 0;
    while k <= n - m
        invariant
            n == hay@.len(),
            m == needle@.len(),
            0 < m <= n,
            k <= n - m + 1,
            forall|l: int|
                0 <= l < k ==> #[trigger] spec_lower_seq(hay@).subrange(l, l + m)
                    != spec_lower_seq(needle@),
        decreases n - k,
    {
        if match_at(hay, needle, k) {
            proof {
                let lh = spec_lower_seq(hay@);
                let ln = spec_lower_seq(needle@);
                assert(spec_contains_seq(lh, ln)) by {
                    assert(0 <= k as int <= lh.len() - ln.len() && lh.subrange(
                        k as int,
                        k as int + ln.len(),
                    ) == ln);
                }
            }
            return true;
        }
        k = k + 1;
    }
    false
}

/// Whether the characters equal those of a literal.
pub fn eq_str(v: &Vec<char>, lit: &str) -> (r: bool)
    ensures
        r == (v@ == lit@),
{
    let n = lit.unicode_len();
    if v.len() != n {
        return false;
    }
    let mut i: usize = 0;
    while i < n
        invariant
            n == lit@.len(),
            n == v@.len(),
            i <= n,
            forall|j: int| 0 <= j < i ==> v@[j] == lit@[j],
        decreases n - i,
    {
        if v[i] != lit.get_char(i) {
            return false;
        }
        i = i + 1;
    }
    proof {
        assert(v@ =~= lit@);
    }
    true
}

/// `s` padded on the left with `fill` up to `w` characters.
pub open spec fn spec_pad_left(s: Seq<char>, w: int, fill: char) -> Seq<char> {
    if s.len() >= w {
        s
    } else {
        Seq::new((w - s.len()) as nat, |i: int| fill) + s
    }
}

/// Left-pads the characters of a number or word.
pub fn pad_left_chars(v: &Vec<char>, w: usize, fill: char) -> (r: Vec<char>)
    ensures
        r@ == spec_pad_left(v@, w as int, fill),
{
    let mut r: Vec<char> = Vec::new();
    if v.len() < w {
        let k = w - v.len();
        let mut i: usize = 0;
        while i < k
            invariant
                i <= k,
                r@ =~= Seq::new(i as nat, |j: int| fill),
            decreases k - i,
        {
            r.push(fill);
            proof {
                assert(r@ =~= Seq::new((i + 1) as nat, |j: int| fill));
            }
            i = i + 1;
        }
    }
    let mut i: usize = 0;
    let ghost pad = r@;
    while i < v.len()
        invariant
            i <= v@.len(),
            r@ == pad + v@.subrange(0, i as int),
        decreases v@.len() - i,
    {
        r.push(v[i]);
        proof {
            assert(r@ =~= pad + v@.subrange(0, i + 1));
        }
        i = i + 1;
    }
    proof {
        assert(v@.subrange(0, v@.len() as int) =~= v@);
        if v@.len() >= w {
            assert(r@ =~= v@);
        }
    }
    r
}

/// Decimal text of a signed number: a minus sign for negatives.
pub open spec fn spec_dec_i64(n: int) -> Seq<char> {
    if n < 0 {
        seq!['-'] + spec_dec(-n)
    } else {
        spec_dec(n)
    }
}

/// The decimal text of a signed number.
pub fn i64_string(n: i64) -> (r: String)
    ensures
        r@ == spec_dec_i64(n as int),
{
    let mut v: Vec<char> = Vec::new();
    if n < 0 {
        v.push('-');
        let mag = if n == i64::MIN {
            0x8000_0000_0000_0000u64
        } else {
            (-n) as u64
        };
        push_dec(mag, &mut v);
        proof {
            assert(v@ =~= seq!['-'] + spec_dec(mag as int));
        }
    } else {
        push_dec(n as u64, &mut v);
    }
    string_of_chars(&v)
}


/// The decimal texts of a list of signed numbers.
pub fn i64_strings(items: &Vec<i64>) -> (r: Vec<String>)
    ensures
        r@.map_values(|s: String| s@) == items@.map_values(|d: i64| d as int).map_values(
            |d: int| spec_dec_i64(d),
        ),
{
    let mut r: Vec<String> = Vec::new();
    let mut i: usize = 0;
    while i < items.len()
        invariant
            i <= items@.len(),
            r@.len() == i,
            forall|j: int|
                0 <= j < i ==> r@.map_values(|s: String| s@)[j] == spec_dec_i64(items@[j] as int),
        decreases items@.len() - i,
    {
        r.push(i64_string(items[i]));
        i = i + 1;
    }
    proof {
        assert(r@.map_values(|s: String| s@) =~= items@.map_values(|d: i64| d as int).map_values(
            |d: int| spec_dec_i64(d),
        ));
    }
    r
}

} // verus!

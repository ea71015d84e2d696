//! Small string helpers over `String`'s character sequence view.

use vstd::prelude::*;
use vstd::string::*;

verus! {

/// `String::push`: appends one character.
#[verifier::external_body]
pub fn push_char(s: &mut String, c: char)
    ensures
        final(s)@ == old(s)@.push(c),
{
    s.push(c)
}

/// Whether two strings hold the same characters.
pub fn str_eq(a: &str, b: &str) -> (r: bool)
    ensures
        r == (a@ == b@),
{
    let n = a.unicode_len();
    if n != b.unicode_len() {
        return false;
    }
    let mut i: usize = 0;
    while i < n
        invariant
            n == a@.len(),
            n == b@.len(),
            i <= n,
            forall|j: int| 0 <= j < i ==> a@[j] == b@[j],
        decreases n - i,
    {
        if a.get_char(i) != b.get_char(i) {
            return false;
        }
        i = i + 1;
    }
    assert(a@ =~= b@);
    true
}

/// A new `String` holding the characters of `s`.
pub fn string_of(s: &str) -> (r: String)
    ensures
        r@ == s@,
{
    String::from_str(s)
}

/// The concatenation of two strings.
pub fn concat2(a: &str, b: &str) -> (r: String)
    ensures
        r@ == a@ + b@,
{
    let mut s = String::from_str(a);
    s.append(b);
    s
}

/// Appends the characters of `t`.
pub fn append_str(s: &mut String, t: &str)
    ensures
        final(s)@ == old(s)@ + t@,
{
    s.append(t);
}

/// The characters of `s`, one per element.
pub fn chars_of(s: &str) -> (r: Vec<char>)
    ensures
        r@ == s@,
{
    let n = s.unicode_len();
    let mut v: Vec<char> = Vec::new();
    let mut i: usize = 0;
    while i < n
        invariant
            n == s@.len(),
            i <= n,
            v@ == s@.subrange(0, i as int),
        decreases n - i,
    {
        let c = s.get_char(i);
        v.push(c);
        i = i + 1;
        assert(v@ =~= s@.subrange(0, i as int));
    }
    assert(v@ =~= s@);
    v
}

/// A new `String` holding the characters `v[from..to]`.
pub fn string_from_chars(v: &Vec<char>, from: usize, to: usize) -> (r: String)
    requires
        from <= to <= v@.len(),
    ensures
        r@ == v@.subrange(from as int, to as int),
{
    let mut s = String::new();
    let mut i = from;
    while i < to
        invariant
            from <= i <= to,
            to <= v@.len(),
            s@ == v@.subrange(from as int, i as int),
        decreases to - i,
    {
        push_char(&mut s, v[i]);
        i = i + 1;
        assert(s@ =~= v@.subrange(from as int, i as int));
    }
    s
}

/// The decimal digit character for `d` (`0..=9`).
pub open spec fn digit_char(d: int) -> char {
    if d == 0 { '0' }
    else if d == 1 { '1' }
    else if d == 2 { '2' }
    else if d == 3 { '3' }
    else if d == 4 { '4' }
    else if d == 5 { '5' }
    else if d == 6 { '6' }
    else if d == 7 { '7' }
    else if d == 8 { '8' }
    else { '9' }
}

/// Decimal notation of a natural number, most significant digit first.
pub open spec fn nat_decimal(n: nat) -> Seq<char>
    decreases n,
{
    if n < 10 {
        seq![digit_char(n as int)]
    } else {
        nat_decimal(n / 10).push(digit_char((n % 10) as int))
    }
}

/// The decimal notation of a number below 1000, digit by digit.
pub proof fn lemma_small_decimal(n: nat)
    requires
        n < 1000,
    ensures
        nat_decimal(n) == if n < 10 {
            seq![digit_char(n as int)]
        } else if n < 100 {
            seq![digit_char((n / 10) as int), digit_char((n % 10) as int)]
        } else {
            seq![digit_char((n / 100) as int), digit_char(((n / 10) % 10) as int), digit_char((n % 10) as int)]
        },
{
    if n >= 10 {
        assert(nat_decimal(n) == nat_decimal(n / 10).push(digit_char((n % 10) as int)));
        if n >= 100 {
            let m = n / 10;
            assert(nat_decimal(m) == nat_decimal(m / 10).push(digit_char((m % 10) as int)));
            assert(m / 10 == n / 100);
            assert(nat_decimal(m / 10) == seq![digit_char((m / 10) as int)]);
        } else {
            assert(nat_decimal(n / 10) == seq![digit_char((n / 10) as int)]);
        }
    }
}

/// Decimal notation of an integer, with a leading `-` when it is negative.
pub open spec fn int_decimal(i: int) -> Seq<char> {
    if i < 0 {
        seq!['-'] + nat_decimal((-i) as nat)
    } else {
        nat_decimal(i as nat)
    }
}

fn digit(d: u64) -> (c: char)
    requires
        d < 10,
    ensures
        c == digit_char(d as int),
{
    if d == 0 { '0' }
    else if d == 1 { '1' }
    else if d == 2 { '2' }
    else if d == 3 { '3' }
    else if d == 4 { '4' }
    else if d == 5 { '5' }
    else if d == 6 { '6' }
    else if d == 7 { '7' }
    else if d == 8 { '8' }
    else { '9' }
}

/// Appends the decimal notation of `n`.
pub fn append_decimal(s: &mut String, n: u64)
    ensures
        final(s)@ == old(s)@ + nat_decimal(n as nat),
    decreases n,
{
    if n >= 10 {
        append_decimal(s, n / 10);
    }
    let c = digit(n % 10);
    push_char(s, c);
    proof {
        if n < 10 {
            assert(n % 10 == n);
        }
    }
    assert(final(s)@ =~= old(s)@ + nat_decimal(n as nat)) by {
        if n >= 10 {
            assert(nat_decimal(n as nat) == nat_decimal((n / 10) as nat).push(digit_char((n % 10) as int)));
        }
    }
}

/// Appends the decimal notation of `i` (with `-` when negative).
pub fn append_int(s: &mut String, i: i64)
    ensures
        final(s)@ == old(s)@ + int_decimal(i as int),
{
    if i < 0 {
        push_char(s, '-');
        let m: u64 = (-(i as i128)) as u64;
        append_decimal(s, m);
        assert(final(s)@ =~= old(s)@ + int_decimal(i as int));
    } else {
        append_decimal(s, i as u64);
    }
}

/// The decimal notation of `i` as a new `String`.
pub fn int_to_string(i: i64) -> (r: String)
    ensures
        r@ == int_decimal(i as int),
{
    let mut s = String::new();
    append_int(&mut s, i);
    assert(s@ =~= int_decimal(i as int));
    s
}

/// Whether `t` occurs in `s` as a contiguous run of characters.
pub open spec fn contains_seq(s: Seq<char>, t: Seq<char>) -> bool {
    exists|i: int| 0 <= i && i + t.len() <= s.len() && #[trigger] s.subrange(i, i + t.len()) == t
}

/// `str::contains` with a string pattern: whether `needle` occurs in `haystack`.
pub fn str_contains(haystack: &str, needle: &str) -> (r: bool)
    ensures
        r == contains_seq(haystack@, needle@),
{
    let h = chars_of(haystack);
    let n = chars_of(needle);
    if n.len() > h.len() {
        return false;
    }
    if n.len() == 0 {
        assert(haystack@.subrange(0int, 0int + needle@.len()) =~= needle@);
        return true;
    }
    let hlen = h.len();
    let last = hlen - n.len();
    let mut i: usize = 0;
    while i <= last
        invariant
            h@ == haystack@,
            n@ == needle@,
            last == h@.len() - n@.len(),
            n@.len() > 0,
            hlen == h@.len(),
            forall|k: int| 0 <= k < i ==> #[trigger] h@.subrange(k, k + n@.len()) != n@,
        decreases last + 1 - i,
    {
        let mut j: usize = 0;
        let mut same = true;
        while j < n.len()
            invariant
                h@ == haystack@,
                n@ == needle@,
                i <= last,
                last == h@.len() - n@.len(),
                hlen == h@.len(),
                j <= n@.len(),
                same == (forall|m: int| 0 <= m < j ==> h@[i + m] == n@[m]),
            decreases n@.len() - j,
        {
            if h[i + j] != n[j] {
                same = false;
            }
            j = j + 1;
        }
        if same {
            assert(h@.subrange(i as int, i + n@.len()) =~= n@);
            return true;
        }
        assert(h@.subrange(i as int, i + n@.len()) != n@) by {
            let m = choose|m: int| 0 <= m < n@.len() && h@[i + m] != n@[m];
            assert(h@.subrange(i as int, i + n@.len())[m] == h@[i + m]);
        }
        i = i + 1;
    }
    assert forall|k: int| 0 <= k && k + needle@.len() <= haystack@.len()
        implies #[trigger] haystack@.subrange(k, k + needle@.len()) != needle@ by {
        assert(k < i);
    }
    false
}

} // verus!

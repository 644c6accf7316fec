use vstd::prelude::*;

verus! {

/// The lower-case form of an ASCII upper-case letter; any other character is unchanged.
pub open spec fn ascii_lower(c: char) -> char {
    if 'A' <= c && c <= 'Z' {
        ((c as u32) + 32) as char
    } else {
        c
    }
}

/// Appends one character to a string (std's `String::push`).
#[verifier::external_body]
pub(crate) fn push_char(s: &mut String, c: char)
    ensures
        final(s)@ == old(s)@.push(c),
{
    s.push(c);
}

/// Lower-cases the ASCII letters of `s`, leaving every other character as it is.
pub fn to_ascii_lowercase(s: &str) -> (r: String)
    ensures
        r@ == s@.map_values(|c: char| ascii_lower(c)),
{
    let mut r = String::new();
    let mut idx: usize = 0;
    for c in it: s.chars()
        invariant
            it.seq() == s@,
            r@ == s@.take(it.index() as int).map_values(|c: char| ascii_lower(c)),
    {
        let l = if 'A' <= c && c <= 'Z' { ((c as u8) + 32) as char } else { c };
        push_char(&mut r, l);
        proof {
            assert(s@.take(it.index() as int + 1) =~= s@.take(it.index() as int).push(c));
        }
    }
    proof { assert(s@.take(s@.len() as int) =~= s@); }
    r
}


/// Copies `s` without any occurrence of `c` (std's `str::replace` with an empty replacement).
pub fn remove_char(s: &str, c: char) -> (r: String)
    ensures
        r@ == s@.filter(|x: char| x != c),
{
    let mut r = String::new();
    for x in it: s.chars()
        invariant
            it.seq() == s@,
            r@ == s@.take(it.index() as int).filter(|x: char| x != c),
    {
        proof {
            assert(s@.take(it.index() as int + 1) =~= s@.take(it.index() as int).push(x));
            s@.take(it.index() as int).lemma_filter_push(x, |x: char| x != c);
        }
        if x != c {
            push_char(&mut r, x);
        }
    }
    proof { assert(s@.take(s@.len() as int) =~= s@); }
    r
}

/// Copies `s` with every `from` replaced by `to`.
pub fn replace_char(s: &str, from: char, to: char) -> (r: String)
    ensures
        r@ == s@.map_values(|x: char| if x == from { to } else { x }),
{
    let mut r = String::new();
    for x in it: s.chars()
        invariant
            it.seq() == s@,
            r@ == s@.take(it.index() as int).map_values(|x: char| if x == from { to } else { x }),
    {
        proof {
            assert(s@.take(it.index() as int + 1) =~= s@.take(it.index() as int).push(x));
        }
        if x == from {
            push_char(&mut r, to);
        } else {
            push_char(&mut r, x);
        }
    }
    proof { assert(s@.take(s@.len() as int) =~= s@); }
    r
}

/// Appends `t` to `s`.
pub fn push_str(s: &mut String, t: &str)
    ensures
        final(s)@ == old(s)@ + t@,
{
    let ghost start = s@;
    for x in it: t.chars()
        invariant
            it.seq() == t@,
            s@ == start + t@.take(it.index() as int),
    {
        proof {
            assert(t@.take(it.index() as int + 1) =~= t@.take(it.index() as int).push(x));
        }
        push_char(s, x);
    }
    proof { assert(t@.take(t@.len() as int) =~= t@); }
}

/// A new string holding the characters of `t`.
pub fn string_of(t: &str) -> (r: String)
    ensures
        r@ == t@,
{
    let mut r = String::new();
    push_str(&mut r, t);
    r
}

/// The decimal digits of a natural number, most significant first, without leading zeros.
pub open spec fn decimal(n: nat) -> Seq<char>
    decreases n,
{
    if n < 10 {
        seq![digit_char(n as int)]
    } else {
        decimal(n / 10).push(digit_char((n % 10) as int))
    }
}

/// The ASCII digit of a value below ten.
pub open spec fn digit_char(d: int) -> char {
    (('0' as int) + d) as char
}

/// The decimal form of `n` (what std's `Display` and `Debug` of an unsigned integer print).
pub fn u64_to_decimal(n: u64) -> (r: String)
    ensures
        r@ == decimal(n as nat),
    decreases n,
{
    let mut r = if n < 10 {
        String::new()
    } else {
        u64_to_decimal(n / 10)
    };
    let d = (n % 10) as u8;
    push_char(&mut r, (48u8 + d) as char);
    proof {
        if n < 10 {
            assert(r@ =~= seq![digit_char(n as int)]);
        }
    }
    r
}


/// Whether two texts are the same.
pub fn str_eq(a: &str, b: &str) -> (r: bool)
    ensures
        r == (a@ == b@),
{
    let a1 = string_of(a);
    let b1 = string_of(b);
    a1 == b1
}


/// Whether a character has Unicode's `White_Space` property (what std's
/// `char::is_whitespace` tests).
pub open spec fn is_white_space(c: char) -> bool {
    ||| '\u{9}' <= c <= '\u{d}'
    ||| c == ' '
    ||| c == '\u{85}'
    ||| c == '\u{a0}'
    ||| c == '\u{1680}'
    ||| '\u{2000}' <= c <= '\u{200a}'
    ||| c == '\u{2028}'
    ||| c == '\u{2029}'
    ||| c == '\u{202f}'
    ||| c == '\u{205f}'
    ||| c == '\u{3000}'
}

fn white_space(c: char) -> (r: bool)
    ensures
        r == is_white_space(c),
{
    ('\u{9}' <= c && c <= '\u{d}') || c == ' ' || c == '\u{85}' || c == '\u{a0}' || c == '\u{1680}'
        || ('\u{2000}' <= c && c <= '\u{200a}') || c == '\u{2028}' || c == '\u{2029}' || c
        == '\u{202f}' || c == '\u{205f}' || c == '\u{3000}'
}

/// The characters of a text, in order.
pub fn chars_of(s: &str) -> (r: Vec<char>)
    ensures
        r@ == s@,
{
    let mut r: Vec<char> = Vec::new();
    for x in it: s.chars()
        invariant
            it.seq() == s@,
            r@ == s@.take(it.index() as int),
    {
        r.push(x);
        proof {
            assert(s@.take(it.index() as int + 1) =~= s@.take(it.index() as int).push(x));
        }
    }
    proof { assert(s@.take(s@.len() as int) =~= s@); }
    r
}

/// `s` without its leading and trailing white space (std's `str::trim`): the
/// characters from the first to the last one that is not white space.
pub open spec fn trimmed(s: Seq<char>) -> Seq<char> {
    if forall|i: int| 0 <= i < s.len() ==> is_white_space(#[trigger] s[i]) {
        Seq::empty()
    } else {
        let first = choose|i: int|
            0 <= i < s.len() && !is_white_space(s[i]) && forall|j: int|
                0 <= j < i ==> is_white_space(#[trigger] s[j]);
        let last = choose|i: int|
            0 <= i < s.len() && !is_white_space(s[i]) && forall|j: int|
                i < j < s.len() ==> is_white_space(#[trigger] s[j]);
        s.subrange(first, last + 1)
    }
}

/// The text without its leading and trailing white space.
pub fn trim(s: &str) -> (r: String)
    ensures
        r@ == trimmed(s@),
{
    let cs = chars_of(s);
    let n = cs.len();
    let mut first: usize = 0;
    while first < n && white_space(cs[first])
        invariant
            0 <= first <= n,
            n == cs@.len(),
            forall|j: int| 0 <= j < first ==> is_white_space(#[trigger] cs@[j]),
        decreases n - first,
    {
        first = first + 1;
    }
    if first == n {
        return String::new();
    }
    let mut last: usize = n - 1;
    while white_space(cs[last])
        invariant
            first <= last < n,
            n == cs@.len(),
            !is_white_space(cs@[first as int]),
            forall|j: int| last < j < n ==> is_white_space(#[trigger] cs@[j]),
        decreases last,
    {
        last = last - 1;
    }
    let mut r = String::new();
    let mut k = first;
    while k <= last
        invariant
            first <= k <= last + 1,
            last < n,
            n == cs@.len(),
            r@ == cs@.subrange(first as int, k as int),
        decreases last + 1 - k,
    {
        push_char(&mut r, cs[k]);
        proof {
            assert(cs@.subrange(first as int, k as int + 1) =~= cs@.subrange(first as int, k as int).push(cs@[k as int]));
        }
        k = k + 1;
    }
    proof {
        let sq = s@;
        assert(!(forall|i: int| 0 <= i < sq.len() ==> is_white_space(#[trigger] sq[i]))) by {
            assert(!is_white_space(sq[first as int]));
        }
        let f = choose|i: int|
            0 <= i < sq.len() && !is_white_space(sq[i]) && forall|j: int|
                0 <= j < i ==> is_white_space(#[trigger] sq[j]);
        let l = choose|i: int|
            0 <= i < sq.len() && !is_white_space(sq[i]) && forall|j: int|
                i < j < sq.len() ==> is_white_space(#[trigger] sq[j]);
        assert(0 <= f < sq.len() && !is_white_space(sq[f]) && forall|j: int| 0 <= j < f ==> is_white_space(#[trigger] sq[j]));
        assert(0 <= l < sq.len() && !is_white_space(sq[l]) && forall|j: int| l < j < sq.len() ==> is_white_space(#[trigger] sq[j]));
        if f < first { assert(is_white_space(sq[f])); }
        if f > first { assert(is_white_space(sq[first as int])); }
        if l < last { assert(is_white_space(sq[last as int])); }
        if l > last { assert(is_white_space(sq[l])); }
    }
    r
}

} // verus!

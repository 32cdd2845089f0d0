//! Text helpers shared by the menus and the HUD: character buffers, UTF-8
//! byte lengths, whitespace trimming and decimal rendering of counters.

use vstd::prelude::*;
use vstd::utf8::*;
use vstd::string::*;
use vstd::std_specs::iter::IteratorSpec;

verus! {

broadcast use vstd::seq_lib::group_seq_properties;

/// Appends `c` to `s` (std's `String::push`).
#[verifier::external_body]
pub(crate) fn string_push(s: &mut String, c: char)
    ensures
        final(s)@ == old(s)@.push(c),
{
    s.push(c);
}

/// Removes and returns the last character of `s` (std's `String::pop`):
/// `None` and no change when `s` is empty.
#[verifier::external_body]
pub(crate) fn string_pop(s: &mut String) -> (r: Option<char>)
    ensures
        old(s)@.len() == 0 ==> r == None::<char> && final(s)@ == old(s)@,
        old(s)@.len() > 0 ==> r == Some(old(s)@.last()) && final(s)@ == old(s)@.drop_last(),
{
    s.pop()
}

/// The number of bytes that `s` takes in UTF-8.
pub open spec fn utf8_len(s: Seq<char>) -> nat {
    encode_utf8(s).len()
}

/// UTF-8 encoding distributes over appending a character.
pub proof fn lemma_encode_utf8_push(s: Seq<char>, c: char)
    ensures
        encode_utf8(s.push(c)) == encode_utf8(s) + encode_scalar(c as u32),
    decreases s.len(),
{
    if s.len() == 0 {
        assert(s.push(c).drop_first() =~= Seq::<char>::empty());
        assert(encode_utf8(Seq::<char>::empty()) =~= Seq::<u8>::empty());
        assert(encode_utf8(s) =~= Seq::<u8>::empty());
        assert(encode_utf8(s.push(c)) =~= encode_scalar(c as u32) + Seq::<u8>::empty());
        assert(encode_scalar(c as u32) + Seq::<u8>::empty() =~= encode_scalar(c as u32));
    } else {
        lemma_encode_utf8_push(s.drop_first(), c);
        assert(s.push(c).drop_first() =~= s.drop_first().push(c));
        assert(s.push(c)[0] == s[0]);
        let a = encode_scalar(s[0] as u32);
        let b = encode_utf8(s.drop_first());
        let e = encode_scalar(c as u32);
        assert(a + (b + e) =~= (a + b) + e);
    }
}

/// Copies the characters of `s` into a vector.
pub fn chars_of(s: &str) -> (v: Vec<char>)
    ensures
        v@ == s@,
{
    let mut v: Vec<char> = Vec::new();
    proof {
        broadcast use vstd::string::axiom_spec_iter;
    }
    for c in it: s.chars()
        invariant
            v@ == it.seq().take(it.index() as int),
    {
        v.push(c);
    }
    v
}

/// The ASCII digit for `d` (0 to 9).
pub open spec fn digit_char(d: int) -> char {
    (48 + d) as char
}

/// The decimal rendering of `n`, most significant digit first, without leading zeros.
pub open spec fn decimal_chars(n: nat) -> Seq<char>
    decreases n,
{
    if n < 10 {
        seq![digit_char(n as int)]
    } else {
        decimal_chars(n / 10).push(digit_char((n % 10) as int))
    }
}

/// Appends the decimal rendering of `n` to `s`.
pub fn push_decimal(s: &mut String, n: u64)
    ensures
        final(s)@ == old(s)@ + decimal_chars(n as nat),
    decreases n,
{
    if n >= 10 {
        push_decimal(s, n / 10);
    }
    let d: u8 = (n % 10) as u8;
    let c: char = (48u8 + d) as char;
    assert(c == digit_char((n % 10) as int));
    string_push(s, c);
    proof {
        if n < 10 {
            assert(old(s)@.push(c) =~= old(s)@ + seq![c]);
        } else {
            assert(s@ =~= old(s)@ + decimal_chars(n as nat));
        }
    }
}

/// The decimal rendering of `n` as a new string (what `format!("{}", n)` gives).
pub fn decimal_string(n: u64) -> (r: String)
    ensures
        r@ == decimal_chars(n as nat),
{
    let mut s = String::new();
    push_decimal(&mut s, n);
    assert(s@ =~= decimal_chars(n as nat));
    s
}


/// UTF-8 encoding distributes over concatenation.
pub proof fn lemma_encode_utf8_concat(a: Seq<char>, b: Seq<char>)
    ensures
        encode_utf8(a + b) == encode_utf8(a) + encode_utf8(b),
    decreases b.len(),
{
    if b.len() == 0 {
        assert(a + b =~= a);
        assert(encode_utf8(b) =~= Seq::<u8>::empty());
        assert(encode_utf8(a) + encode_utf8(b) =~= encode_utf8(a));
    } else {
        let b0 = b.drop_last();
        lemma_encode_utf8_concat(a, b0);
        assert(a + b =~= (a + b0).push(b.last()));
        assert(b =~= b0.push(b.last()));
        lemma_encode_utf8_push(a + b0, b.last());
        lemma_encode_utf8_push(b0, b.last());
        let x = encode_utf8(a);
        let y = encode_utf8(b0);
        let z = encode_scalar(b.last() as u32);
        assert((x + y) + z =~= x + (y + z));
    }
}

/// A piece of a string takes no more UTF-8 bytes than the whole string.
pub proof fn lemma_utf8_len_subrange(s: Seq<char>, a: int, b: int)
    requires
        0 <= a <= b <= s.len(),
    ensures
        utf8_len(s.subrange(a, b)) <= utf8_len(s),
{
    let p = s.subrange(0, a);
    let m = s.subrange(a, b);
    let q = s.subrange(b, s.len() as int);
    assert(s =~= (p + m) + q);
    lemma_encode_utf8_concat(p + m, q);
    lemma_encode_utf8_concat(p, m);
}

/// Unicode's White_Space property, which `char::is_whitespace` and
/// `str::trim` go by.
pub open spec fn is_white_space_spec(c: char) -> bool {
    let u = c as u32;
    ||| 0x09 <= u <= 0x0D
    ||| u == 0x20
    ||| u == 0x85
    ||| u == 0xA0
    ||| u == 0x1680
    ||| 0x2000 <= u <= 0x200A
    ||| u == 0x2028
    ||| u == 0x2029
    ||| u == 0x202F
    ||| u == 0x205F
    ||| u == 0x3000
}

/// Whether `c` is white space.
pub fn is_white_space(c: char) -> (r: bool)
    ensures
        r == is_white_space_spec(c),
{
    let u: u32 = c as u32;
    (0x09 <= u && u <= 0x0D) || u == 0x20 || u == 0x85 || u == 0xA0 || u == 0x1680
        || (0x2000 <= u && u <= 0x200A) || u == 0x2028 || u == 0x2029 || u == 0x202F
        || u == 0x205F || u == 0x3000
}

/// The number of white-space characters that `s` starts with.
pub open spec fn leading_white_space(s: Seq<char>) -> nat
    decreases s.len(),
{
    if s.len() > 0 && is_white_space_spec(s[0]) {
        1 + leading_white_space(s.drop_first())
    } else {
        0
    }
}

/// The number of white-space characters that `s` ends with.
pub open spec fn trailing_white_space(s: Seq<char>) -> nat
    decreases s.len(),
{
    if s.len() > 0 && is_white_space_spec(s.last()) {
        1 + trailing_white_space(s.drop_last())
    } else {
        0
    }
}

/// `s` without its leading and trailing white space (what `str::trim` gives).
pub open spec fn trim_spec(s: Seq<char>) -> Seq<char> {
    let t = s.skip(leading_white_space(s) as int);
    t.take(t.len() - trailing_white_space(t))
}

proof fn lemma_leading_white_space(s: Seq<char>, i: int)
    requires
        0 <= i <= s.len(),
        forall|k: int| 0 <= k < i ==> is_white_space_spec(#[trigger] s[k]),
        i == s.len() || !is_white_space_spec(s[i]),
    ensures
        leading_white_space(s) == i,
    decreases i,
{
    if i > 0 {
        let t = s.drop_first();
        assert forall|k: int| 0 <= k < i - 1 implies is_white_space_spec(#[trigger] t[k]) by {
            assert(t[k] == s[k + 1]);
        }
        lemma_leading_white_space(t, i - 1);
    }
}

proof fn lemma_trailing_white_space(s: Seq<char>, j: int)
    requires
        0 <= j <= s.len(),
        forall|k: int| s.len() - j <= k < s.len() ==> is_white_space_spec(#[trigger] s[k]),
        j == s.len() || !is_white_space_spec(s[s.len() - j - 1]),
    ensures
        trailing_white_space(s) == j,
    decreases j,
{
    if j > 0 {
        let t = s.drop_last();
        assert forall|k: int| t.len() - (j - 1) <= k < t.len() implies is_white_space_spec(#[trigger] t[k]) by {
            assert(t[k] == s[k]);
        }
        lemma_trailing_white_space(t, j - 1);
    }
}

/// `s` without leading and trailing white space.
pub fn trim_white_space(s: &str) -> (r: String)
    ensures
        r@ == trim_spec(s@),
{
    let v = chars_of(s);
    let n = v.len();
    let mut i: usize = 0;
    while i < n && is_white_space(v[i])
        invariant
            n == v.len(),
            0 <= i <= n,
            forall|k: int| 0 <= k < i ==> is_white_space_spec(#[trigger] v@[k]),
        decreases n - i,
    {
        i += 1;
    }
    proof {
        lemma_leading_white_space(v@, i as int);
    }
    let ghost t = v@.skip(i as int);
    let mut j: usize = n;
    while j > i && is_white_space(v[j - 1])
        invariant
            n == v.len(),
            0 <= i <= j <= n,
            t == v@.skip(i as int),
            forall|k: int| j <= k < n ==> is_white_space_spec(#[trigger] v@[k]),
        decreases j,
    {
        j -= 1;
    }
    proof {
        assert forall|k: int| t.len() - (n - j) <= k < t.len() implies is_white_space_spec(#[trigger] t[k]) by {
            assert(t[k] == v@[k + i]);
        }
        if j > i {
            assert(t[t.len() - (n - j) - 1] == v@[j - 1]);
        }
        lemma_trailing_white_space(t, (n - j) as int);
    }
    let mut r = String::new();
    let mut k: usize = i;
    while k < j
        invariant
            n == v.len(),
            0 <= i <= k <= j <= n,
            r@ == v@.subrange(i as int, k as int),
        decreases j - k,
    {
        string_push(&mut r, v[k]);
        proof {
            assert(v@.subrange(i as int, k + 1) =~= v@.subrange(i as int, k as int).push(v@[k as int]));
        }
        k += 1;
    }
    assert(r@ =~= trim_spec(s@));
    r
}


proof fn lemma_white_space_counts_bounded(s: Seq<char>)
    ensures
        leading_white_space(s) <= s.len(),
        trailing_white_space(s) <= s.len(),
    decreases s.len(),
{
    if s.len() > 0 {
        lemma_white_space_counts_bounded(s.drop_first());
        lemma_white_space_counts_bounded(s.drop_last());
    }
}

/// Trimming never makes a string take more UTF-8 bytes.
pub proof fn lemma_trim_utf8_len(s: Seq<char>)
    ensures
        utf8_len(trim_spec(s)) <= utf8_len(s),
{
    lemma_white_space_counts_bounded(s);
    let a = leading_white_space(s) as int;
    let t = s.skip(a);
    lemma_white_space_counts_bounded(t);
    let b = t.len() - trailing_white_space(t);
    assert(trim_spec(s) =~= s.subrange(a, a + b));
    lemma_utf8_len_subrange(s, a, a + b);
}

} // verus!

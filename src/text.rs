//! Splitting names at a delimiter, searching character sequences, and
//! decimal rendering of numbers.
use vstd::prelude::*;
use vstd::std_specs::iter::IteratorSpec;
use vstd::string::*;

verus! {

/// The position of the `n`-th occurrence of `d` in `s`, counted from the end
/// (the last occurrence is the first), or -1 when there are fewer than `n`.
pub open spec fn nth_last_index_of(s: Seq<char>, d: char, n: nat) -> int
    decreases s.len(),
{
    if s.len() == 0 {
        -1
    } else if s.last() == d {
        if n <= 1 {
            s.len() - 1
        } else {
            nth_last_index_of(s.drop_last(), d, (n - 1) as nat)
        }
    } else {
        nth_last_index_of(s.drop_last(), d, n)
    }
}

/// `s` cut at the `n`-th `d` from the end, with that `d` dropped; `(s, "")`
/// when `s` holds fewer than `n` of them.
pub open spec fn split_back_spec(s: Seq<char>, d: char, n: nat) -> (Seq<char>, Seq<char>) {
    let k = nth_last_index_of(s, d, n);
    if k < 0 {
        (s, Seq::empty())
    } else {
        (s.subrange(0, k), s.subrange(k + 1, s.len() as int))
    }
}

/// `s` cut at its last `d`.
pub open spec fn split_last_spec(s: Seq<char>, d: char) -> (Seq<char>, Seq<char>) {
    split_back_spec(s, d, 1)
}

proof fn lemma_nth_last_index_found(s: Seq<char>, d: char, n: nat)
    ensures
        -1 <= nth_last_index_of(s, d, n) < s.len(),
        nth_last_index_of(s, d, n) >= 0 ==> s[nth_last_index_of(s, d, n)] == d,
        n <= 1 && s.contains(d) ==> nth_last_index_of(s, d, n) >= 0,
    decreases s.len(),
{
    if s.len() > 0 {
        lemma_nth_last_index_found(s.drop_last(), d, (n - 1) as nat);
        lemma_nth_last_index_found(s.drop_last(), d, n);
        if n <= 1 && s.contains(d) && s.last() != d {
            let i = choose|i: int| 0 <= i < s.len() && s[i] == d;
            assert(s.drop_last()[i] == d);
        }
    }
}

/// Where `s` holds `d`, the two parts of the split at the last `d` join back
/// into `s` around that `d`.
pub proof fn lemma_split_last_rejoins(s: Seq<char>, d: char)
    requires
        s.contains(d),
    ensures
        split_last_spec(s, d).0 + seq![d] + split_last_spec(s, d).1 == s,
        !split_last_spec(s, d).1.contains(d),
{
    lemma_nth_last_index_found(s, d, 1);
    let k = nth_last_index_of(s, d, 1);
    assert(s.subrange(0, k) + seq![d] + s.subrange(k + 1, s.len() as int) =~= s);
    lemma_last_index_is_last(s, d);
}

proof fn lemma_last_index_is_last(s: Seq<char>, d: char)
    ensures
        forall|j: int| nth_last_index_of(s, d, 1) < j < s.len() ==> s[j] != d,
    decreases s.len(),
{
    lemma_nth_last_index_found(s, d, 1);
    if s.len() > 0 && s.last() != d {
        lemma_last_index_is_last(s.drop_last(), d);
        assert forall|j: int| nth_last_index_of(s, d, 1) < j < s.len() implies s[j] != d by {
            if j < s.len() - 1 {
                assert(s[j] == s.drop_last()[j]);
            }
        }
    }
}

/// Splits `string` at the `count`-th `delimiter` counted from its end.
pub fn split_back<'a>(string: &'a str, delimiter: char, count: u8) -> (r: (&'a str, &'a str))
    requires
        count >= 1,
    ensures
        (r.0@, r.1@) == split_back_spec(string@, delimiter, count as nat),
{
    let len = string.unicode_len();
    let mut i: usize = len;
    let mut left: u8 = count;
    assert(string@.subrange(0, len as int) =~= string@);
    while i > 0
        invariant
            len == string@.len(),
            i <= len,
            left >= 1,
            nth_last_index_of(string@.subrange(0, i as int), delimiter, left as nat)
                == nth_last_index_of(string@, delimiter, count as nat),
        decreases i,
    {
        let ghost prefix = string@.subrange(0, i as int);
        assert(prefix.drop_last() =~= string@.subrange(0, i - 1));
        let c = string.get_char(i - 1);
        if c == delimiter {
            if left == 1 {
                return (string.substring_char(0, i - 1), string.substring_char(i, len));
            }
            left = left - 1;
        }
        i = i - 1;
    }
    (string, string.substring_char(len, len))
}

/// Splits `string` at its last `delimiter`: what precedes it and what follows.
pub fn split_last<'a>(string: &'a str, delimiter: char) -> (r: (&'a str, &'a str))
    ensures
        (r.0@, r.1@) == split_last_spec(string@, delimiter),
{
    split_back(string, delimiter, 1)
}

} // verus!

verus! {

/// The digit character for `d` (below ten).
pub open spec fn digit_char(d: nat) -> char {
    "0123456789"@[d as int]
}

/// The decimal rendering of `n`: no sign, no leading zeros.
pub open spec fn decimal(n: nat) -> Seq<char>
    decreases n,
{
    if n < 10 {
        seq![digit_char(n)]
    } else {
        decimal(n / 10).push(digit_char(n % 10))
    }
}

/// Appends the decimal rendering of `n` to `out`.
pub fn push_decimal(out: &mut String, n: u32)
    ensures
        final(out)@ == old(out)@ + decimal(n as nat),
    decreases n,
{
    let digits = "0123456789";
    proof {
        reveal_strlit("0123456789");
    }
    if n >= 10 {
        push_decimal(out, n / 10);
    }
    let d = (n % 10) as usize;
    let digit = digits.substring_char(d, d + 1);
    assert(digit@ =~= seq![digit_char((n % 10) as nat)]);
    out.append(digit);
    assert(out@ =~= old(out)@ + decimal(n as nat));
}

} // verus!

verus! {

/// The characters of `s`, in order.
pub fn chars_of(s: &str) -> (r: Vec<char>)
    ensures
        r@ == s@,
{
    broadcast use vstd::string::group_string_axioms;

    let mut out: Vec<char> = Vec::new();
    let mut it = s.chars();
    loop
        invariant
            it.obeys_prophetic_iter_laws(),
            out@ + it.remaining() == s@,
        decreases s@.len() - out@.len(),
    {
        match it.next() {
            Some(c) => {
                out.push(c);
            },
            None => {
                return out;
            },
        }
    }
}

/// `needle` stands in `hay` from position `i` on.
pub open spec fn occurs_at(hay: Seq<char>, needle: Seq<char>, i: int) -> bool {
    0 <= i && i + needle.len() <= hay.len() && hay.subrange(i, i + needle.len()) == needle
}

/// `needle` stands somewhere in `hay`.
pub open spec fn occurs_in(hay: Seq<char>, needle: Seq<char>) -> bool {
    exists|i: int| occurs_at(hay, needle, i)
}

/// Tells whether `needle` stands in `hay` from position `i` on.
pub fn matches_at(hay: &Vec<char>, needle: &Vec<char>, i: usize) -> (r: bool)
    ensures
        r == occurs_at(hay@, needle@, i as int),
{
    if i > hay.len() || needle.len() > hay.len() - i {
        return false;
    }
    let mut j: usize = 0;
    while j < needle.len()
        invariant
            i + needle.len() <= hay.len(),
            j <= needle.len(),
            forall|k: int| 0 <= k < j ==> hay@[i + k] == needle@[k],
        decreases needle.len() - j,
    {
        if hay[i + j] != needle[j] {
            assert(hay@.subrange(i as int, i + needle.len())[j as int] != needle@[j as int]);
            return false;
        }
        j = j + 1;
    }
    assert(hay@.subrange(i as int, i + needle.len()) =~= needle@);
    true
}

/// Tells whether `needle` stands anywhere in `hay`.
pub fn contains_chars(hay: &Vec<char>, needle: &Vec<char>) -> (r: bool)
    ensures
        r == occurs_in(hay@, needle@),
{
    let mut i: usize = 0;
    while i < hay.len()
        invariant
            i <= hay.len(),
            forall|k: int| 0 <= k < i ==> !occurs_at(hay@, needle@, k),
        decreases hay.len() - i,
    {
        if matches_at(hay, needle, i) {
            return true;
        }
        i = i + 1;
    }
    if matches_at(hay, needle, i) {
        return true;
    }
    assert forall|k: int| !occurs_at(hay@, needle@, k) by {
        if 0 <= k <= i {
        }
    }
    false
}

} // verus!

//! Character-level string predicates and builders used by the policy checks
//! and by the messages the runtime reports.
use vstd::prelude::*;
use vstd::string::*;

verus! {

/// `p` occurs in `s` starting at character index `i`.
pub open spec fn occurs_at(p: Seq<char>, s: Seq<char>, i: int) -> bool {
    &&& 0 <= i
    &&& i + p.len() <= s.len()
    &&& s.subrange(i, i + p.len()) == p
}

/// `p` is a prefix of `s`.
pub open spec fn is_prefix_of(p: Seq<char>, s: Seq<char>) -> bool {
    occurs_at(p, s, 0)
}

/// The characters of `s`, one by one.
pub fn chars_of(s: &str) -> (r: Vec<char>)
    ensures
        r@ == s@,
{
    let n = s.unicode_len();
    let mut r: Vec<char> = Vec::new();
    let mut i: usize = 0;
    while i < n
        invariant
            n == s@.len(),
            i <= n,
            r@ == s@.subrange(0, i as int),
        decreases n - i,
    {
        let c = s.get_char(i);
        r.push(c);
        i = i + 1;
        assert(r@ =~= s@.subrange(0, i as int));
    }
    assert(r@ =~= s@);
    r
}

/// Whether `p` occurs in `s` at index `start`.
fn occurs_at_exec(p: &Vec<char>, s: &Vec<char>, start: usize) -> (b: bool)
    requires
        start + p@.len() <= s@.len(),
    ensures
        b == occurs_at(p@, s@, start as int),
{
    let mut j: usize = 0;
    while j < p.len()
        invariant
            start + p@.len() <= s@.len(),
            s@.len() == s.len(),
            j <= p@.len(),
            forall|k: int| 0 <= k < j ==> s@[start + k] == p@[k],
        decreases p@.len() - j,
    {
        if s[start + j] != p[j] {
            assert(s@.subrange(start as int, start + p@.len())[j as int] != p@[j as int]);
            return false;
        }
        j = j + 1;
    }
    assert(s@.subrange(start as int, start + p@.len()) =~= p@);
    true
}

/// `s` starts with `p`, character by character.
pub fn starts_with(s: &str, p: &str) -> (b: bool)
    ensures
        b == is_prefix_of(p@, s@),
{
    let sc = chars_of(s);
    let pc = chars_of(p);
    if pc.len() > sc.len() {
        false
    } else {
        occurs_at_exec(&pc, &sc, 0)
    }
}

/// Character-wise equality of two strings.
pub fn str_eq(a: &str, b: &str) -> (r: bool)
    ensures
        r == (a@ == b@),
{
    let ac = chars_of(a);
    let bc = chars_of(b);
    if ac.len() != bc.len() {
        return false;
    }
    assert(bc@.subrange(0, ac@.len() as int) =~= bc@);
    let r = occurs_at_exec(&ac, &bc, 0);
    r
}

/// `prefix` followed by `rest`, as a new string.
pub fn join2(prefix: &str, rest: &str) -> (r: String)
    ensures
        r@ == prefix@ + rest@,
{
    String::from_str(prefix).concat(rest)
}

/// `a`, `b` and `c` one after another, as a new string.
pub fn join3(a: &str, b: &str, c: &str) -> (r: String)
    ensures
        r@ == a@ + b@ + c@,
{
    String::from_str(a).concat(b).concat(c)
}

/// The character of a decimal digit.
pub open spec fn digit_char(d: nat) -> char {
    if d == 0 { '0' }
    else if d == 1 { '1' }
    else if d == 2 { '2' }
    else if d == 3 { '3' }
    else if d == 4 { '4' }
    else if d == 5 { '5' }
    else if d == 6 { '6' }
    else if d == 7 { '7' }
    else if d == 8 { '8' }
    else { '9' }
}

/// The decimal notation of `n`, most significant digit first, without leading zeros.
pub open spec fn decimal(n: nat) -> Seq<char>
    decreases n,
{
    if n < 10 {
        seq![digit_char(n)]
    } else {
        decimal(n / 10).push(digit_char(n % 10))
    }
}

/// Decimal notation is never empty.
pub proof fn lemma_decimal_nonempty(n: nat)
    ensures
        decimal(n).len() >= 1,
    decreases n,
{
    if n >= 10 {
        lemma_decimal_nonempty(n / 10);
    }
}

/// Distinct numbers have distinct decimal notations.
pub proof fn lemma_decimal_injective(a: nat, b: nat)
    ensures
        decimal(a) == decimal(b) ==> a == b,
    decreases a,
{
    if decimal(a) == decimal(b) {
        if a < 10 && b < 10 {
            assert(decimal(a)[0] == decimal(b)[0]);
        } else if a < 10 {
            lemma_decimal_nonempty(b / 10);
            assert(decimal(b).len() >= 2);
        } else if b < 10 {
            lemma_decimal_nonempty(a / 10);
            assert(decimal(a).len() >= 2);
        } else {
            assert(decimal(a).last() == digit_char(a % 10));
            assert(decimal(b).last() == digit_char(b % 10));
            assert(a % 10 == b % 10);
            assert(decimal(a).drop_last() =~= decimal(a / 10));
            assert(decimal(b).drop_last() =~= decimal(b / 10));
            lemma_decimal_injective(a / 10, b / 10);
        }
    }
}

fn digit_str(d: u128) -> (r: &'static str)
    requires
        d < 10,
    ensures
        r@ == seq![digit_char(d as nat)],
{
    if d == 0 {
        proof { reveal_strlit("0"); }
        "0"
    } else if d == 1 {
        proof { reveal_strlit("1"); }
        "1"
    } else if d == 2 {
        proof { reveal_strlit("2"); }
        "2"
    } else if d == 3 {
        proof { reveal_strlit("3"); }
        "3"
    } else if d == 4 {
        proof { reveal_strlit("4"); }
        "4"
    } else if d == 5 {
        proof { reveal_strlit("5"); }
        "5"
    } else if d == 6 {
        proof { reveal_strlit("6"); }
        "6"
    } else if d == 7 {
        proof { reveal_strlit("7"); }
        "7"
    } else if d == 8 {
        proof { reveal_strlit("8"); }
        "8"
    } else {
        proof { reveal_strlit("9"); }
        "9"
    }
}

/// The decimal notation of `n`.
pub fn decimal_string(n: u128) -> (r: String)
    ensures
        r@ == decimal(n as nat),
    decreases n,
{
    if n < 10 {
        String::from_str(digit_str(n))
    } else {
        let high = decimal_string(n / 10);
        let r = high.concat(digit_str(n % 10));
        assert(r@ =~= decimal(n as nat));
        r
    }
}

} // verus!

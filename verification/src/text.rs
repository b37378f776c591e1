use vstd::prelude::*;

verus! {

/// The character of a digit below sixteen, lower-case for the hex digits.
pub open spec fn digit_char(d: nat) -> char {
    if d == 0 { '0' }
    else if d == 1 { '1' }
    else if d == 2 { '2' }
    else if d == 3 { '3' }
    else if d == 4 { '4' }
    else if d == 5 { '5' }
    else if d == 6 { '6' }
    else if d == 7 { '7' }
    else if d == 8 { '8' }
    else if d == 9 { '9' }
    else if d == 10 { 'a' }
    else if d == 11 { 'b' }
    else if d == 12 { 'c' }
    else if d == 13 { 'd' }
    else if d == 14 { 'e' }
    else { 'f' }
}

/// The decimal notation of `n`, without leading zeros.
pub open spec fn dec_digits(n: nat) -> Seq<char>
    decreases n,
{
    if n < 10 {
        seq![digit_char(n)]
    } else {
        dec_digits(n / 10).push(digit_char(n % 10))
    }
}

/// The last `w` hex digits of `v`, padded with zeros on the left.
pub open spec fn hex_fixed(v: nat, w: nat) -> Seq<char>
    decreases w,
{
    if w == 0 {
        Seq::empty()
    } else {
        hex_fixed(v / 16, (w - 1) as nat).push(digit_char(v % 16))
    }
}

/// `n / d` rounded to the nearest integer, ties to the even one.
pub open spec fn div_round_half_even(n: nat, d: nat) -> nat
    recommends
        d > 0,
{
    let q = n / d;
    let r = n % d;
    if 2 * r > d || (2 * r == d && q % 2 == 1) {
        q + 1
    } else {
        q
    }
}

/// `n / d` written with one decimal place, rounded to the nearest tenth
/// (ties to even), as `{:.1}` writes the quotient.
pub open spec fn tenths_text(n: nat, d: nat) -> Seq<char> {
    let t = div_round_half_even(10 * n, d);
    dec_digits(t / 10) + seq!['.'] + dec_digits(t % 10)
}

/// Whether `name` matches `task`: equal to it, or a prefix of it followed by `:`.
pub open spec fn names_task(name: Seq<char>, task: Seq<char>) -> bool {
    name == task || (name.len() < task.len() && task.subrange(0, name.len() as int) == name
        && task[name.len() as int] == ':')
}

/// The one-character text of a digit below sixteen.
pub fn digit_str(d: u64) -> (s: &'static str)
    requires
        d < 16,
    ensures
        s@ == seq![digit_char(d as nat)],
{
    if d == 0 { proof { reveal_strlit("0"); } "0" }
    else if d == 1 { proof { reveal_strlit("1"); } "1" }
    else if d == 2 { proof { reveal_strlit("2"); } "2" }
    else if d == 3 { proof { reveal_strlit("3"); } "3" }
    else if d == 4 { proof { reveal_strlit("4"); } "4" }
    else if d == 5 { proof { reveal_strlit("5"); } "5" }
    else if d == 6 { proof { reveal_strlit("6"); } "6" }
    else if d == 7 { proof { reveal_strlit("7"); } "7" }
    else if d == 8 { proof { reveal_strlit("8"); } "8" }
    else if d == 9 { proof { reveal_strlit("9"); } "9" }
    else if d == 10 { proof { reveal_strlit("a"); } "a" }
    else if d == 11 { proof { reveal_strlit("b"); } "b" }
    else if d == 12 { proof { reveal_strlit("c"); } "c" }
    else if d == 13 { proof { reveal_strlit("d"); } "d" }
    else if d == 14 { proof { reveal_strlit("e"); } "e" }
    else { proof { reveal_strlit("f"); } "f" }
}

/// The decimal text of `n`, as `{}` writes an unsigned integer.
pub fn dec_string(n: u128) -> (s: String)
    ensures
        s@ == dec_digits(n as nat),
    decreases n,
{
    if n < 10 {
        String::from_str(digit_str(n as u64))
    } else {
        let head = dec_string(n / 10);
        head.concat(digit_str((n % 10) as u64))
    }
}

/// The last `w` hex digits of `v`, zero-padded.
pub fn hex_string(v: u128, w: u32) -> (s: String)
    ensures
        s@ == hex_fixed(v as nat, w as nat),
    decreases w,
{
    if w == 0 {
        String::new()
    } else {
        let head = hex_string(v / 16, w - 1);
        head.concat(digit_str((v % 16) as u64))
    }
}

/// `n / d` with one decimal place, rounded as `{:.1}` rounds.
pub fn tenths_string(n: u128, d: u128) -> (s: String)
    requires
        d > 0,
        n <= 0xFFFF_FFFF_FFFF_FFFF_FFFF_FFFF_FFFF_FFFFu128 / 10,
    ensures
        s@ == tenths_text(n as nat, d as nat),
{
    let num: u128 = 10 * n;
    let q = num / d;
    let r = num % d;
    assert(q <= num) by (nonlinear_arith)
        requires
            d >= 1,
            q == num / d,
    ;
    let up = r > d - r || (r == d - r && q % 2 == 1);
    if up {
        assert(q < 0xFFFF_FFFF_FFFF_FFFF_FFFF_FFFF_FFFF_FFFFu128) by (nonlinear_arith)
            requires
                q == num / d,
                r == num % d,
                r >= d - r,
                d >= 1,
                num <= 0xFFFF_FFFF_FFFF_FFFF_FFFF_FFFF_FFFF_FFFFu128,
        {
            assert(r >= 1);
            assert(d >= 2);
            assert(num == d * q + r);
            assert(d * q >= 2 * q);
        }
    }
    let t: u128 = if up { q + 1 } else { q };
    let whole = dec_string(t / 10);
    proof { reveal_strlit("."); }
    let with_point = whole.concat(".");
    with_point.concat(dec_string(t % 10).as_str())
}

/// Whether two texts are equal, character by character.
pub fn str_eq(a: &str, b: &str) -> (eq: bool)
    ensures
        eq == (a@ == b@),
{
    let n = a.unicode_len();
    if n != b.unicode_len() {
        return false;
    }
    let mut i: usize = 0;
    while i < n
        invariant
            n == a@.len(),
            n == b@.len(),
            i <= n,
            forall|j: int| 0 <= j < i ==> a@[j] == b@[j],
        decreases n - i,
    {
        if a.get_char(i) != b.get_char(i) {
            return false;
        }
        i = i + 1;
    }
    assert(a@ =~= b@);
    true
}

/// Whether the routine `name` matches `task`: the same text, or a prefix of
/// the task followed by `:`.
pub fn name_matches_task(name: &str, task: &str) -> (m: bool)
    ensures
        m == names_task(name@, task@),
{
    let n = name.unicode_len();
    let t = task.unicode_len();
    if n > t {
        return false;
    }
    let mut i: usize = 0;
    while i < n
        invariant
            n == name@.len(),
            t == task@.len(),
            n <= t,
            i <= n,
            forall|j: int| 0 <= j < i ==> name@[j] == task@[j],
        decreases n - i,
    {
        if name.get_char(i) != task.get_char(i) {
            assert(name@ != task@);
            assert(task@.subrange(0, n as int)[i as int] != name@[i as int]);
            return false;
        }
        i = i + 1;
    }
    assert(task@.subrange(0, n as int) =~= name@);
    if n == t {
        assert(task@ =~= name@);
        true
    } else {
        task.get_char(n) == ':'
    }
}

} // verus!

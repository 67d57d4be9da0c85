use vstd::prelude::*;
use vstd::string::StringExecFns;

verus! {

/// The character of decimal digit `d`.
pub open spec fn digit_char(d: nat) -> char {
    if d == 0 { '0' }
    else if d == 1 { '1' }
    else if d == 2 { '2' }
    else if d == 3 { '3' }
    else if d == 4 { '4' }
    else if d == 5 { '5' }
    else if d == 6 { '6' }
    else if d == 7 { '7' }
    else if d == 8 { '8' }
    else { '9' }
}

/// `n` in decimal, without leading zeros.
pub open spec fn decimal(n: nat) -> Seq<char>
    decreases n,
{
    if n < 10 {
        seq![digit_char(n)]
    } else {
        decimal(n / 10) + seq![digit_char(n % 10)]
    }
}

/// `n` in decimal, padded with zeros to at least two digits.
pub open spec fn two_digits(n: nat) -> Seq<char> {
    if n < 10 { seq!['0'] + decimal(n) } else { decimal(n) }
}

pub proof fn lemma_decimal_len(n: nat)
    ensures
        decimal(n).len() >= 1,
        n < 10 <==> decimal(n).len() == 1,
    decreases n,
{
    if n >= 10 {
        lemma_decimal_len(n / 10);
    }
}

/// Distinct numbers have distinct decimal forms.
pub proof fn lemma_decimal_injective(a: nat, b: nat)
    requires
        decimal(a) == decimal(b),
    ensures
        a == b,
    decreases a,
{
    lemma_decimal_len(a);
    lemma_decimal_len(b);
    if a >= 10 && b >= 10 {
        let da = decimal(a);
        assert(da.last() == digit_char(a % 10));
        assert(decimal(b).last() == digit_char(b % 10));
        assert(decimal(a / 10) =~= da.drop_last());
        assert(decimal(b / 10) =~= decimal(b).drop_last());
        lemma_decimal_injective(a / 10, b / 10);
    } else if a < 10 && b < 10 {
        assert(decimal(a)[0] == digit_char(a));
        assert(decimal(b)[0] == digit_char(b));
    }
}

fn digit_str(d: u64) -> (r: &'static str)
    requires
        d < 10,
    ensures
        r@ == seq![digit_char(d as nat)],
{
    proof {
        reveal_strlit("0");
        reveal_strlit("1");
        reveal_strlit("2");
        reveal_strlit("3");
        reveal_strlit("4");
        reveal_strlit("5");
        reveal_strlit("6");
        reveal_strlit("7");
        reveal_strlit("8");
        reveal_strlit("9");
    }
    if d == 0 { "0" }
    else if d == 1 { "1" }
    else if d == 2 { "2" }
    else if d == 3 { "3" }
    else if d == 4 { "4" }
    else if d == 5 { "5" }
    else if d == 6 { "6" }
    else if d == 7 { "7" }
    else if d == 8 { "8" }
    else { assert(seq!['9'] =~= "9"@); "9" }
}

/// Appends `n` in decimal to `s`.
pub fn push_decimal(s: &mut String, n: u64)
    ensures
        final(s)@ == old(s)@ + decimal(n as nat),
    decreases n,
{
    if n >= 10 {
        push_decimal(s, n / 10);
    }
    s.append(digit_str(n % 10));
    assert(s@ =~= old(s)@ + decimal(n as nat));
}

/// Appends `n` in decimal, padded with zeros to at least two digits.
pub fn push_two_digits(s: &mut String, n: u64)
    ensures
        final(s)@ == old(s)@ + two_digits(n as nat),
{
    if n < 10 {
        proof { reveal_strlit("0"); }
        s.append("0");
    }
    push_decimal(s, n);
    assert(s@ =~= old(s)@ + two_digits(n as nat));
}

/// `seconds` as `MM:SS`, or `HH:MM:SS` from one hour on; each field has at least two digits.
pub open spec fn eta_text(seconds: nat) -> Seq<char> {
    let h = seconds / 3600;
    let m = (seconds % 3600) / 60;
    let sec = seconds % 60;
    if h > 0 {
        two_digits(h) + seq![':'] + two_digits(m) + seq![':'] + two_digits(sec)
    } else {
        two_digits(m) + seq![':'] + two_digits(sec)
    }
}

/// Formats a second count as `MM:SS`, or `HH:MM:SS` when it reaches an hour.
pub fn format_eta(seconds: u64) -> (r: String)
    ensures
        r@ == eta_text(seconds as nat),
{
    let h = seconds / 3600;
    let m = (seconds % 3600) / 60;
    let sec = seconds % 60;
    let mut s = String::new();
    proof { reveal_strlit(":"); }
    if h > 0 {
        push_two_digits(&mut s, h);
        s.append(":");
    }
    push_two_digits(&mut s, m);
    s.append(":");
    push_two_digits(&mut s, sec);
    assert(s@ =~= eta_text(seconds as nat));
    s
}

/// `1024` to the power `i`.
pub open spec fn unit_divisor(i: nat) -> nat
    decreases i,
{
    if i == 0 { 1 } else { 1024 * unit_divisor((i - 1) as nat) }
}

/// The unit that a size is shown in: the first of Bytes, KB, MB, GB in which
/// the value is under 900, GB at the most.
pub open spec fn unit_index(size: nat) -> nat {
    if size < 900 { 0 }
    else if size < 900 * 1024 { 1 }
    else if size < 900 * 1048576 { 2 }
    else { 3 }
}

pub open spec fn unit_name(i: nat) -> Seq<char> {
    if i == 0 { seq!['B', 'y', 't', 'e', 's'] }
    else if i == 1 { seq!['K', 'B'] }
    else if i == 2 { seq!['M', 'B'] }
    else { seq!['G', 'B'] }
}

/// `n / d` rounded to the nearest integer, ties to the even one.
pub open spec fn round_div(n: nat, d: nat) -> nat {
    let q = n / d;
    let rem = n % d;
    if 2 * rem > d || (2 * rem == d && q % 2 == 1) { q + 1 } else { q }
}

/// A size in its unit: two decimals under 10, none from 10 on, then the unit name.
pub open spec fn size_text(size: nat) -> Seq<char> {
    let i = unit_index(size);
    let d = unit_divisor(i);
    let value = if size < 10 * d {
        let c = round_div(size * 100, d);
        decimal(c / 100) + seq!['.'] + two_digits(c % 100)
    } else {
        decimal(round_div(size, d))
    };
    value + seq![' '] + unit_name(i)
}

fn round_div_exec(n: u128, d: u128) -> (r: u128)
    requires
        0 < d <= 0x1_0000_0000,
        n < 0x1_0000_0000_0000_0000_0000_0000,
    ensures
        r == round_div(n as nat, d as nat),
        r <= n / d + 1,
{
    let q = n / d;
    let rem = n % d;
    if 2 * rem > d || (2 * rem == d && q % 2 == 1) { q + 1 } else { q }
}

/// Formats a byte count in Bytes, KB, MB or GB.
pub fn size_format(size_bytes: u64) -> (r: String)
    ensures
        r@ == size_text(size_bytes as nat),
{
    let size = size_bytes as u128;
    let mut i: u64 = 0;
    let mut d: u128 = 1;
    while i < 3 && size >= 900 * d
        invariant
            i <= 3,
            d == unit_divisor(i as nat),
            i > 0 ==> size >= 900 * unit_divisor((i - 1) as nat),
            size == size_bytes,
        decreases 3 - i,
    {
        i = i + 1;
        d = d * 1024;
    }
    assert(unit_divisor(1) == 1024) by { reveal_with_fuel(unit_divisor, 2); }
    assert(unit_divisor(2) == 1048576) by { reveal_with_fuel(unit_divisor, 3); }
    assert(unit_divisor(3) == 1073741824) by { reveal_with_fuel(unit_divisor, 4); }
    assert(i == unit_index(size_bytes as nat));
    let mut s = String::new();
    proof {
        reveal_strlit(".");
        reveal_strlit(" ");
    }
    if size < 10 * d {
        let c = round_div_exec(size * 100, d);
        assert(c <= 1000);
        push_decimal(&mut s, (c / 100) as u64);
        s.append(".");
        push_two_digits(&mut s, (c % 100) as u64);
    } else {
        let c = round_div_exec(size, d);
        push_decimal(&mut s, c as u64);
    }
    s.append(" ");
    let unit: &str = if i == 0 {
        "Bytes"
    } else if i == 1 {
        "KB"
    } else if i == 2 {
        "MB"
    } else {
        "GB"
    };
    proof {
        reveal_strlit("Bytes");
        reveal_strlit("KB");
        reveal_strlit("MB");
        reveal_strlit("GB");
        assert(unit@ =~= unit_name(i as nat));
    }
    s.append(unit);
    assert(s@ =~= size_text(size_bytes as nat));
    s
}

/// The phrase that confirms a wipe of device `index`: `WIPE-DISK-` and the index.
pub open spec fn phrase_text(index: nat) -> Seq<char> {
    seq!['W', 'I', 'P', 'E', '-', 'D', 'I', 'S', 'K', '-'] + decimal(index)
}

/// The exact phrase an operator types to confirm a wipe of device `index`.
pub fn confirmation_phrase(index: u32) -> (r: String)
    ensures
        r@ == phrase_text(index as nat),
{
    proof { reveal_strlit("WIPE-DISK-"); }
    let mut s = String::from_str("WIPE-DISK-");
    push_decimal(&mut s, index as u64);
    assert(s@ =~= phrase_text(index as nat));
    s
}

/// Phrases for two different devices are never the same.
pub proof fn lemma_phrases_distinct(a: u32, b: u32)
    requires
        a != b,
    ensures
        phrase_text(a as nat) != phrase_text(b as nat),
{
    if phrase_text(a as nat) == phrase_text(b as nat) {
        let p = seq!['W', 'I', 'P', 'E', '-', 'D', 'I', 'S', 'K', '-'];
        assert(decimal(a as nat) =~= phrase_text(a as nat).subrange(10, phrase_text(a as nat).len() as int));
        assert(decimal(b as nat) =~= phrase_text(b as nat).subrange(10, phrase_text(b as nat).len() as int));
        lemma_decimal_injective(a as nat, b as nat);
    }
}

} // verus!

//! Building text: decimal digits, concatenation and joining.
//!
//! Every function here states the characters of its result over `Seq<char>`,
//! so that the text of each value of the crate is a specification function.
use vstd::prelude::*;
use vstd::string::*;

verus! {

/// `String::push` of the standard library appends the one character it is
/// given to the end of the string and changes nothing else.
pub assume_specification[ std::string::String::push ](s: &mut std::string::String, c: char)
    ensures
        final(s)@ == old(s)@.push(c),
;

/// The character of a decimal digit.
pub open spec fn digit_char(d: int) -> char {
    if d == 0 {
        '0'
    } else if d == 1 {
        '1'
    } else if d == 2 {
        '2'
    } else if d == 3 {
        '3'
    } else if d == 4 {
        '4'
    } else if d == 5 {
        '5'
    } else if d == 6 {
        '6'
    } else if d == 7 {
        '7'
    } else if d == 8 {
        '8'
    } else {
        '9'
    }
}

/// The decimal digits of a natural number, most significant first, without
/// leading zeros (`0` is the single digit `0`).
pub open spec fn nat_text(n: nat) -> Seq<char>
    decreases n,
{
    if n < 10 {
        seq![digit_char(n as int)]
    } else {
        nat_text(n / 10).push(digit_char((n % 10) as int))
    }
}

/// The decimal text of an integer: a minus sign in front of a negative one.
pub open spec fn int_text(n: int) -> Seq<char> {
    if n < 0 {
        seq!['-'] + nat_text((-n) as nat)
    } else {
        nat_text(n as nat)
    }
}

/// The last `width` decimal digits of `n`, with leading zeros.
pub open spec fn padded_nat_text(n: nat, width: nat) -> Seq<char>
    decreases width,
{
    if width == 0 {
        Seq::<char>::empty()
    } else {
        padded_nat_text(n / 10, (width - 1) as nat).push(digit_char((n % 10) as int))
    }
}

/// The items of a list, with `sep` between each two neighbours.
pub open spec fn join_text(items: Seq<Seq<char>>, sep: Seq<char>) -> Seq<char>
    decreases items.len(),
{
    if items.len() == 0 {
        Seq::<char>::empty()
    } else if items.len() == 1 {
        items[0]
    } else {
        join_text(items.drop_last(), sep) + sep + items.last()
    }
}

/// `count` copies of `unit`, one after the other.
pub open spec fn repeat_text(unit: Seq<char>, count: nat) -> Seq<char>
    decreases count,
{
    if count == 0 {
        Seq::<char>::empty()
    } else {
        repeat_text(unit, (count - 1) as nat) + unit
    }
}

/// The character of the digit `d`.
pub fn digit(d: u8) -> (c: char)
    requires
        d < 10,
    ensures
        c == digit_char(d as int),
{
    if d == 0 {
        '0'
    } else if d == 1 {
        '1'
    } else if d == 2 {
        '2'
    } else if d == 3 {
        '3'
    } else if d == 4 {
        '4'
    } else if d == 5 {
        '5'
    } else if d == 6 {
        '6'
    } else if d == 7 {
        '7'
    } else if d == 8 {
        '8'
    } else {
        '9'
    }
}

/// Appends the decimal digits of `n` to `out`.
pub fn push_u64(out: &mut String, n: u64)
    ensures
        final(out)@ == old(out)@ + nat_text(n as nat),
    decreases n,
{
    if n >= 10 {
        push_u64(out, n / 10);
    }
    let d: u8 = (n % 10) as u8;
    out.push(digit(d));
    proof {
        let lead = nat_text((n / 10) as nat);
        if n >= 10 {
            assert(final(out)@ =~= old(out)@ + lead.push(digit_char((n % 10) as int)));
        } else {
            assert(final(out)@ =~= old(out)@ + seq![digit_char(n as int)]);
        }
    }
}

/// Appends the last `width` decimal digits of `n` to `out`, with leading zeros.
pub fn push_padded_u64(out: &mut String, n: u64, width: u8)
    ensures
        final(out)@ == old(out)@ + padded_nat_text(n as nat, width as nat),
    decreases width,
{
    if width > 0 {
        push_padded_u64(out, n / 10, width - 1);
        let d: u8 = (n % 10) as u8;
        out.push(digit(d));
        proof {
            let lead = padded_nat_text((n / 10) as nat, (width - 1) as nat);
            assert(final(out)@ =~= old(out)@ + lead.push(digit_char((n % 10) as int)));
        }
    } else {
        assert(final(out)@ =~= old(out)@ + Seq::<char>::empty());
    }
}

/// The decimal text of `n`.
pub fn u64_to_string(n: u64) -> (r: String)
    ensures
        r@ == nat_text(n as nat),
{
    let mut out = String::new();
    push_u64(&mut out, n);
    assert(out@ =~= nat_text(n as nat));
    out
}

/// The decimal text of `n`.
pub fn usize_to_string(n: usize) -> (r: String)
    ensures
        r@ == nat_text(n as nat),
{
    u64_to_string(n as u64)
}

/// The decimal text of `n`, with a minus sign where it is negative.
pub fn i64_to_string(n: i64) -> (r: String)
    ensures
        r@ == int_text(n as int),
{
    let mut out = String::new();
    if n < 0 {
        out.push('-');
        let magnitude: u64 = if n == i64::MIN {
            9223372036854775808u64
        } else {
            (-n) as u64
        };
        push_u64(&mut out, magnitude);
        assert(out@ =~= seq!['-'] + nat_text((-n) as nat));
    } else {
        push_u64(&mut out, n as u64);
        assert(out@ =~= nat_text(n as nat));
    }
    out
}

/// An owned copy of the text.
pub fn owned(s: &str) -> (r: String)
    ensures
        r@ == s@,
{
    s.to_owned()
}

/// Whether the two texts hold the same characters.
pub fn same_text(a: &str, b: &str) -> (r: bool)
    ensures
        r == (a@ == b@),
{
    let x = a.to_owned();
    let y = b.to_owned();
    x == y
}

/// The two texts, one after the other.
pub fn concat(a: &str, b: &str) -> (r: String)
    ensures
        r@ == a@ + b@,
{
    let mut out = String::new();
    out.append(a);
    out.append(b);
    assert(out@ =~= a@ + b@);
    out
}

/// The texts of `items`, with `sep` between each two neighbours.
pub fn join(items: &Vec<String>, sep: &str) -> (r: String)
    ensures
        r@ == join_text(items.deep_view(), sep@),
{
    let mut out = String::new();
    let ghost texts = items.deep_view();
    let mut i: usize = 0;
    while i < items.len()
        invariant
            i <= items.len(),
            texts == items.deep_view(),
            texts.len() == items.len(),
            out@ == join_text(texts.take(i as int), sep@),
        decreases items.len() - i,
    {
        proof {
            let before = texts.take(i as int);
            let after = texts.take(i + 1);
            assert(after.drop_last() =~= before);
            assert(after.last() == items[i as int]@);
        }
        if i > 0 {
            out.append(sep);
        }
        out.append(items[i].as_str());
        proof {
            if i == 0 {
                assert(out@ =~= items[0]@);
            }
        }
        i = i + 1;
    }
    assert(texts.take(i as int) =~= texts);
    out
}

/// `count` copies of `unit`, one after the other.
pub fn repeat(unit: &str, count: usize) -> (r: String)
    ensures
        r@ == repeat_text(unit@, count as nat),
{
    let mut out = String::new();
    let mut i: usize = 0;
    while i < count
        invariant
            i <= count,
            out@ == repeat_text(unit@, i as nat),
        decreases count - i,
    {
        out.append(unit);
        i = i + 1;
    }
    out
}

} // verus!

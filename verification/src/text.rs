//! Text building: decimal numbers, concatenation and character rewriting.

use vstd::prelude::*;

verus! {

/// The character of a decimal digit.
pub open spec fn digit_char(d: nat) -> char {
    ((48 + d) as u32) as char
}

/// Decimal digits of a natural number, most significant first, no leading zeros.
pub open spec fn nat_digits(n: nat) -> Seq<char>
    decreases n,
{
    if n < 10 {
        seq![digit_char(n)]
    } else {
        nat_digits(n / 10).push(digit_char(n % 10))
    }
}

/// The text that Rust's `{}` formatting gives for an integer.
pub open spec fn int_text(n: int) -> Seq<char> {
    if n < 0 {
        seq!['-'] + nat_digits((-n) as nat)
    } else {
        nat_digits(n as nat)
    }
}

/// The string of one decimal digit.
fn digit_str(d: u64) -> (r: &'static str)
    requires
        d < 10,
    ensures
        r@ == seq![digit_char(d as nat)],
{
    proof {
        reveal_strlit("0");
        reveal_strlit("1");
        reveal_strlit("2");
        reveal_strlit("3");
        reveal_strlit("4");
        reveal_strlit("5");
        reveal_strlit("6");
        reveal_strlit("7");
        reveal_strlit("8");
        reveal_strlit("9");
    }
    match d {
        0 => "0",
        1 => "1",
        2 => "2",
        3 => "3",
        4 => "4",
        5 => "5",
        6 => "6",
        7 => "7",
        8 => "8",
        _ => "9",
    }
}

/// Appends the decimal digits of `n`.
pub fn push_digits(s: &mut String, n: u64)
    ensures
        final(s)@ == old(s)@ + nat_digits(n as nat),
    decreases n,
{
    if n >= 10 {
        push_digits(s, n / 10);
        let ghost mid = s@;
        s.append(digit_str(n % 10));
        assert(s@ =~= old(s)@ + nat_digits(n as nat));
    } else {
        s.append(digit_str(n));
        assert(s@ =~= old(s)@ + nat_digits(n as nat));
    }
}

/// Appends `n` as `{}` formats it.
pub fn push_int(s: &mut String, n: i64)
    ensures
        final(s)@ == old(s)@ + int_text(n as int),
{
    if n < 0 {
        proof {
            reveal_strlit("-");
        }
        s.append("-");
        let m: i128 = -(n as i128);
        push_digits(s, m as u64);
        assert(s@ =~= old(s)@ + int_text(n as int));
    } else {
        push_digits(s, n as u64);
    }
}

/// `n` as `{}` formats it.
pub fn int_string(n: i64) -> (r: String)
    ensures
        r@ == int_text(n as int),
{
    let mut s = String::new();
    push_int(&mut s, n);
    assert(s@ =~= int_text(n as int));
    s
}

/// Two texts that differ only in a middle part that starts with different
/// characters, or has different lengths, are different.
pub proof fn lemma_different_middle(pre: Seq<char>, a: Seq<char>, b: Seq<char>, post: Seq<char>)
    requires
        a.len() > 0,
        b.len() > 0,
        a.len() != b.len() || a[0] != b[0],
    ensures
        pre + a + post != pre + b + post,
{
    if a.len() == b.len() {
        assert((pre + a + post)[pre.len() as int] == a[0]);
        assert((pre + b + post)[pre.len() as int] == b[0]);
    } else {
        assert((pre + a + post).len() != (pre + b + post).len());
    }
}

/// A text with its capital letters A to Z made small.
pub open spec fn lower_text(s: Seq<char>) -> Seq<char> {
    s.map_values(|c: char| if 'A' <= c && c <= 'Z' { ((c as u32) + 32) as char } else { c })
}

/// Every `_` of a text replaced by a space.
pub open spec fn underscores_to_spaces(s: Seq<char>) -> Seq<char> {
    s.map_values(|c: char| if c == '_' { ' ' } else { c })
}

/// `s.replace("_", " ")`.
pub fn replace_underscores(s: &str) -> (r: String)
    ensures
        r@ == underscores_to_spaces(s@),
{
    proof {
        reveal_strlit(" ");
    }
    let n = s.unicode_len();
    let mut r = String::new();
    let mut i: usize = 0;
    while i < n
        invariant
            n == s@.len(),
            i <= n,
            r@ =~= underscores_to_spaces(s@.take(i as int)),
        decreases n - i,
    {
        let c = s.get_char(i);
        let ghost before = r@;
        if c == '_' {
            proof {
                reveal_strlit(" ");
            }
            r.append(" ");
        } else {
            let one = s.substring_char(i, i + 1);
            assert(one@ =~= seq![c]);
            r.append(one);
        }
        let ghost mapped: char = if c == '_' { ' ' } else { c };
        assert(r@ =~= before.push(mapped));
        assert(s@.take(i + 1) =~= s@.take(i as int).push(c));
        assert(underscores_to_spaces(s@.take(i + 1)) =~= underscores_to_spaces(s@.take(i as int)).push(mapped));
        i = i + 1;
    }
    assert(s@.take(n as int) =~= s@);
    r
}

/// Whether two texts are equal, character by character.
pub fn str_equal(a: &str, b: &str) -> (r: bool)
    ensures
        r == (a@ == b@),
{
    let n = a.unicode_len();
    let m = b.unicode_len();
    if n != m {
        return false;
    }
    let mut i: usize = 0;
    while i < n
        invariant
            n == a@.len(),
            n == b@.len(),
            i <= n,
            forall|k: int| 0 <= k < i ==> a@[k] == b@[k],
        decreases n - i,
    {
        if a.get_char(i) != b.get_char(i) {
            return false;
        }
        i = i + 1;
    }
    assert(a@ =~= b@);
    true
}

/// A string holding the text of `s`.
pub fn owned(s: &str) -> (r: String)
    ensures
        r@ == s@,
{
    let mut r = String::new();
    r.append(s);
    assert(r@ =~= s@);
    r
}

} // verus!

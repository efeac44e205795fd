use vstd::prelude::*;

verus! {

/// The character that writes the digit `d` (below 16) in lowercase.
pub open spec fn digit_char(d: nat) -> char {
    if d < 10 {
        (('0' as nat) + d) as char
    } else {
        (('a' as nat) + (d - 10)) as char
    }
}

/// The last `k` digits of `v` in base `b`, most significant first.
pub open spec fn digits(v: nat, b: nat, k: nat) -> Seq<char>
    recommends
        b > 1,
    decreases k,
{
    if k == 0 || b == 0 {
        Seq::empty()
    } else {
        digits(v / b, b, (k - 1) as nat).push(digit_char(v % b))
    }
}

/// Whether `c` is one of `0-9`, `a-f`.
pub open spec fn is_lower_hex(c: char) -> bool {
    ('0' <= c && c <= '9') || ('a' <= c && c <= 'f')
}

/// Writes the digit `d` (below 16) as a one-character string.
fn digit_string(d: u64) -> (r: &'static str)
    requires
        d < 16,
    ensures
        r@ == seq![digit_char(d as nat)],
{
    let table = "0123456789abcdef";
    proof {
        reveal_strlit("0123456789abcdef");
    }
    table.substring_char(d as usize, d as usize + 1)
}

} // verus!

verus! {

/// The value `v` with its low base-16 digits dropped until at most seven remain.
pub open spec fn leading_seven(v: nat) -> nat
    decreases v,
{
    if v < 0x1000_0000 {
        v
    } else {
        leading_seven(v / 16)
    }
}

/// The short token for a 64-bit hash: its leading seven lowercase hex digits,
/// padded with zeros on the left when the value has fewer.
pub open spec fn hex_token(h: u64) -> Seq<char> {
    digits(leading_seven(h as nat), 16, 7)
}

/// The decimal text of `v`, with no leading zeros (`0` for zero).
pub open spec fn decimal_text(v: nat) -> Seq<char>
    decreases v,
{
    if v < 10 {
        seq![digit_char(v)]
    } else {
        decimal_text(v / 10).push(digit_char(v % 10))
    }
}

/// Every character that `digits` writes in base 16 is a lowercase hex digit.
pub proof fn lemma_digits_hex(v: nat, k: nat)
    ensures
        digits(v, 16, k).len() == k,
        forall|i: int| 0 <= i < k ==> is_lower_hex(#[trigger] digits(v, 16, k)[i]),
    decreases k,
{
    if k > 0 {
        lemma_digits_hex(v / 16, (k - 1) as nat);
    }
}

/// Writes `hex_token(h)`.
pub fn hex_token_of(h: u64) -> (r: String)
    ensures
        r@ == hex_token(h),
        r@.len() == 7,
        forall|i: int| 0 <= i < 7 ==> is_lower_hex(#[trigger] r@[i]),
{
    let mut v: u64 = h;
    while v >= 0x1000_0000
        invariant
            leading_seven(v as nat) == leading_seven(h as nat),
        decreases v,
    {
        v = v / 16;
    }
    proof {
        lemma_digits_hex(v as nat, 7);
    }
    let mut acc = String::new();
    let mut w: u64 = v;
    let mut i: u64 = 0;
    while i < 7
        invariant
            i <= 7,
            digits(v as nat, 16, 7) == digits(w as nat, 16, (7 - i) as nat) + acc@,
        decreases 7 - i,
    {
        let d = digit_string(w % 16);
        let head = String::from_str(d);
        proof {
            let m = (7 - i) as nat;
            assert(digits(w as nat, 16, m) == digits((w / 16) as nat, 16, (m - 1) as nat).push(
                digit_char((w % 16) as nat),
            ));
            assert(digits(w as nat, 16, m) + acc@ =~= digits((w / 16) as nat, 16, (m - 1) as nat)
                + (d@ + acc@));
        }
        acc = head.concat(acc.as_str());
        w = w / 16;
        i = i + 1;
    }
    assert(acc@ =~= digits(v as nat, 16, 7));
    acc
}

/// Writes `decimal_text(v)`.
pub fn decimal_of(v: u64) -> (r: String)
    ensures
        r@ == decimal_text(v as nat),
{
    let mut acc = String::from_str(digit_string(v % 10));
    let mut w: u64 = v / 10;
    while w > 0
        invariant
            decimal_text(v as nat) == (if w == 0 {
                Seq::empty()
            } else {
                decimal_text(w as nat)
            }) + acc@,
        decreases w,
    {
        let d = digit_string(w % 10);
        let head = String::from_str(d);
        proof {
            if w >= 10 {
                assert(decimal_text(w as nat) + acc@ =~= decimal_text((w / 10) as nat) + (d@
                    + acc@));
            } else {
                assert(decimal_text(w as nat) + acc@ =~= d@ + acc@);
            }
        }
        acc = head.concat(acc.as_str());
        w = w / 10;
    }
    assert(decimal_text(v as nat) =~= acc@);
    acc
}

} // verus!

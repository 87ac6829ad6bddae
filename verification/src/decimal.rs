use vstd::prelude::*;
use vstd::string::StrSliceExecFns;
use vstd::string::StringExecFns;

verus! {

/// `c` is an ASCII decimal digit.
pub open spec fn is_digit(c: char) -> bool {
    48 <= c as int <= 57
}

/// Numeric value of a single decimal digit character.
pub open spec fn digit_val(c: char) -> nat {
    (c as int - 48) as nat
}

/// Every character of `s` is a decimal digit.
pub open spec fn is_digit_seq(s: Seq<char>) -> bool {
    forall|i: int| 0 <= i < s.len() ==> is_digit(#[trigger] s[i])
}

/// Numeric value of a run of decimal digits, most significant first.
pub open spec fn dec_val(s: Seq<char>) -> nat
    decreases s.len(),
{
    if s.len() == 0 {
        0
    } else {
        dec_val(s.drop_last()) * 10 + digit_val(s.last())
    }
}

/// The digit character for a value below ten.
pub open spec fn digit_char(d: nat) -> char {
    if d == 0 {
        '0'
    } else if d == 1 {
        '1'
    } else if d == 2 {
        '2'
    } else if d == 3 {
        '3'
    } else if d == 4 {
        '4'
    } else if d == 5 {
        '5'
    } else if d == 6 {
        '6'
    } else if d == 7 {
        '7'
    } else if d == 8 {
        '8'
    } else {
        '9'
    }
}

/// Canonical decimal representation of `n`: no leading zeros beyond
/// the single digit that zero itself is written as.
pub open spec fn dec_of(n: nat) -> Seq<char>
    decreases n,
{
    if n < 10 {
        seq![digit_char(n)]
    } else {
        dec_of(n / 10).push(digit_char(n % 10))
    }
}

/// A sequence is a valid version component iff it is a nonempty run
/// of decimal digits whose value fits in `u32`.
pub open spec fn valid_component(s: Seq<char>) -> bool {
    s.len() > 0 && is_digit_seq(s) && dec_val(s) <= u32::MAX
}

/// The canonical decimal representation is a nonempty digit run and
/// evaluates back to the number it was made from.
pub proof fn lemma_dec_of_wf(n: nat)
    ensures
        dec_of(n).len() >= 1,
        is_digit_seq(dec_of(n)),
        dec_val(dec_of(n)) == n,
    decreases n,
{
    if n < 10 {
        let s = dec_of(n);
        assert(s.drop_last() =~= Seq::<char>::empty());
        assert(s.last() == digit_char(n));
        assert(dec_val(Seq::<char>::empty()) == 0);
        assert(dec_val(s) == digit_val(digit_char(n)));
    } else {
        lemma_dec_of_wf(n / 10);
        let s = dec_of(n / 10);
        let c = digit_char(n % 10);
        assert(s.push(c).drop_last() =~= s);
        assert(s.push(c).last() == c);
        assert(dec_val(s.push(c)) == dec_val(s) * 10 + digit_val(c));
        assert(digit_val(c) == n % 10);
        assert(forall|i: int|
            0 <= i < s.push(c).len() ==> is_digit(#[trigger] s.push(c)[i]));
    }
}

/// Evaluating one more digit multiplies the prefix value by ten and
/// adds that digit.
pub proof fn lemma_dec_val_take_succ(s: Seq<char>, i: int)
    requires
        0 <= i < s.len(),
    ensures
        dec_val(s.take(i + 1)) == dec_val(s.take(i)) * 10 + digit_val(s[i]),
{
    assert(s.take(i + 1).drop_last() =~= s.take(i));
    assert(s.take(i + 1).last() == s[i]);
}

/// The value of a digit run is at least the value of any prefix.
pub proof fn lemma_dec_val_take_le(s: Seq<char>, i: int)
    requires
        0 <= i <= s.len(),
    ensures
        dec_val(s.take(i)) <= dec_val(s),
    decreases s.len() - i,
{
    if i == s.len() {
        assert(s.take(i) =~= s);
    } else {
        lemma_dec_val_take_succ(s, i);
        lemma_dec_val_take_le(s, i + 1);
    }
}

/// The one-character string for a single decimal digit.
fn digit_str(d: u64) -> (r: &'static str)
    requires
        d < 10,
    ensures
        r@ == seq![digit_char(d as nat)],
{
    proof {
        reveal_strlit("0");
        reveal_strlit("1");
        reveal_strlit("2");
        reveal_strlit("3");
        reveal_strlit("4");
        reveal_strlit("5");
        reveal_strlit("6");
        reveal_strlit("7");
        reveal_strlit("8");
        reveal_strlit("9");
        assert("0"@ =~= seq!['0']);
        assert("1"@ =~= seq!['1']);
        assert("2"@ =~= seq!['2']);
        assert("3"@ =~= seq!['3']);
        assert("4"@ =~= seq!['4']);
        assert("5"@ =~= seq!['5']);
        assert("6"@ =~= seq!['6']);
        assert("7"@ =~= seq!['7']);
        assert("8"@ =~= seq!['8']);
        assert("9"@ =~= seq!['9']);
    }
    if d == 0 {
        "0"
    } else if d == 1 {
        "1"
    } else if d == 2 {
        "2"
    } else if d == 3 {
        "3"
    } else if d == 4 {
        "4"
    } else if d == 5 {
        "5"
    } else if d == 6 {
        "6"
    } else if d == 7 {
        "7"
    } else if d == 8 {
        "8"
    } else {
        "9"
    }
}

/// Render `n` in its canonical decimal form.
pub fn u64_to_dec(n: u64) -> (r: String)
    ensures
        r@ == dec_of(n as nat),
    decreases n,
{
    if n < 10 {
        String::from_str(digit_str(n))
    } else {
        let mut s = u64_to_dec(n / 10);
        let d = digit_str(n % 10);
        s.append(d);
        proof {
            assert(s@ =~= dec_of(n as nat));
        }
        s
    }
}

/// Decode a single version component. Returns the value exactly when
/// the text is a nonempty digit run whose value fits in `u32`.
pub fn parse_component(part: &str) -> (r: Option<u32>)
    ensures
        r is Some <==> valid_component(part@),
        r matches Some(v) ==> v as nat == dec_val(part@),
{
    let len = part.unicode_len();
    if len == 0 {
        return None;
    }
    let mut i: usize = 0;
    while i < len
        invariant
            i <= len,
            len == part@.len(),
            forall|j: int| 0 <= j < i ==> is_digit(#[trigger] part@[j]),
        decreases len - i,
    {
        let c = part.get_char(i);
        let u = c as u32;
        if u < 48 || u > 57 {
            assert(!is_digit(part@[i as int]));
            return None;
        }
        i += 1;
    }
    assert(is_digit_seq(part@));
    let mut val: u64 = 0;
    let mut k: usize = 0;
    while k < len
        invariant
            k <= len,
            len == part@.len(),
            is_digit_seq(part@),
            val == dec_val(part@.take(k as int)),
            val <= u32::MAX,
        decreases len - k,
    {
        let c = part.get_char(k);
        assert(is_digit(part@[k as int]));
        let d = (c as u32) - 48;
        val = val * 10 + (d as u64);
        proof {
            lemma_dec_val_take_succ(part@, k as int);
        }
        if val > 0xFFFF_FFFF {
            proof {
                lemma_dec_val_take_le(part@, k as int + 1);
            }
            return None;
        }
        k += 1;
    }
    proof {
        assert(part@.take(len as int) =~= part@);
    }
    Some(val as u32)
}

} // verus!

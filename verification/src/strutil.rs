//! Character-level string helpers: equality, lexicographic order, and the
//! decimal text of integers, each specified over `Seq<char>`.

use vstd::prelude::*;
use vstd::string::StrSliceExecFns;

verus! {

/// Character-by-character string equality.
pub fn str_eq(a: &str, b: &str) -> (r: bool)
    ensures
        r == (a@ == b@),
{
    let la = a.unicode_len();
    let lb = b.unicode_len();
    if la != lb {
        proof {
            assert(a@ != b@) by {
                assert(a@.len() != b@.len());
            }
        }
        return false;
    }
    let mut i: usize = 0;
    while i < la
        invariant
            la == a@.len(),
            la == b@.len(),
            i <= la,
            forall|k: int| 0 <= k < i ==> a@[k] == b@[k],
        decreases la - i,
    {
        if a.get_char(i) != b.get_char(i) {
            return false;
        }
        i = i + 1;
    }
    proof {
        assert(a@ =~= b@);
    }
    true
}

/// Lexicographic order on character sequences, by code point.
pub open spec fn lex_le(a: Seq<char>, b: Seq<char>) -> bool
    decreases a.len(),
{
    if a.len() == 0 {
        true
    } else if b.len() == 0 {
        false
    } else if (a[0] as int) < (b[0] as int) {
        true
    } else if (a[0] as int) > (b[0] as int) {
        false
    } else {
        lex_le(a.drop_first(), b.drop_first())
    }
}

/// `lex_le` is total: of two sequences, one is ordered before the other.
pub proof fn lemma_lex_le_total(a: Seq<char>, b: Seq<char>)
    ensures
        lex_le(a, b) || lex_le(b, a),
    decreases a.len(),
{
    if a.len() != 0 && b.len() != 0 && a[0] == b[0] {
        lemma_lex_le_total(a.drop_first(), b.drop_first());
    }
}

/// `lex_le` is transitive.
pub proof fn lemma_lex_le_trans(a: Seq<char>, b: Seq<char>, c: Seq<char>)
    requires
        lex_le(a, b),
        lex_le(b, c),
    ensures
        lex_le(a, c),
    decreases a.len(),
{
    if a.len() != 0 {
        if (a[0] as int) == (b[0] as int) && (b[0] as int) == (c[0] as int) {
            lemma_lex_le_trans(a.drop_first(), b.drop_first(), c.drop_first());
        }
    }
}

/// Lexicographic comparison of two strings.
pub fn str_le(a: &str, b: &str) -> (r: bool)
    ensures
        r == lex_le(a@, b@),
{
    let la = a.unicode_len();
    let lb = b.unicode_len();
    let mut i: usize = 0;
    proof {
        assert(a@.skip(0) =~= a@);
        assert(b@.skip(0) =~= b@);
    }
    loop
        invariant
            la == a@.len(),
            lb == b@.len(),
            i <= la,
            i <= lb,
            lex_le(a@, b@) == lex_le(a@.skip(i as int), b@.skip(i as int)),
        decreases la - i,
    {
        if i == la {
            proof {
                assert(a@.skip(i as int).len() == 0);
            }
            return true;
        }
        if i == lb {
            proof {
                assert(b@.skip(i as int).len() == 0);
                assert(a@.skip(i as int).len() > 0);
            }
            return false;
        }
        let ca = a.get_char(i);
        let cb = b.get_char(i);
        proof {
            assert(a@.skip(i as int)[0] == a@[i as int]);
            assert(b@.skip(i as int)[0] == b@[i as int]);
        }
        if (ca as u32) < (cb as u32) {
            return true;
        }
        if (ca as u32) > (cb as u32) {
            return false;
        }
        proof {
            assert(a@.skip(i as int).drop_first() =~= a@.skip(i + 1));
            assert(b@.skip(i as int).drop_first() =~= b@.skip(i + 1));
        }
        i = i + 1;
    }
}

/// True of the ten decimal digit characters.
pub open spec fn is_digit_char(c: char) -> bool {
    48 <= c as int <= 57
}

/// The numeric value of a digit character; zero elsewhere.
pub open spec fn digit_val(c: char) -> nat {
    if is_digit_char(c) {
        (c as int - 48) as nat
    } else {
        0
    }
}

/// The digit character for a value below ten.
pub open spec fn digit_char(d: nat) -> char {
    ((48 + d) as u8) as char
}

/// Every character of `s` is a decimal digit.
pub open spec fn all_digits(s: Seq<char>) -> bool {
    forall|i: int| 0 <= i < s.len() ==> is_digit_char(s[i])
}

/// The value of a digit string, most significant digit first.
pub open spec fn digits_val(s: Seq<char>) -> nat
    decreases s.len(),
{
    if s.len() == 0 {
        0
    } else {
        digits_val(s.drop_last()) * 10 + digit_val(s.last())
    }
}

/// The decimal representation of a natural number, without sign or leading
/// zeros.
pub open spec fn dec_rep(n: nat) -> Seq<char>
    decreases n,
{
    if n < 10 {
        seq![digit_char(n)]
    } else {
        dec_rep(n / 10).push(digit_char(n % 10))
    }
}

/// The decimal text of an integer: a minus sign before the digits when
/// negative.
pub open spec fn dec_text(i: int) -> Seq<char> {
    if i < 0 {
        seq!['-'] + dec_rep((-i) as nat)
    } else {
        dec_rep(i as nat)
    }
}

/// Appending a digit multiplies the value by ten and adds the digit.
pub proof fn lemma_digits_val_push(s: Seq<char>, c: char)
    ensures
        digits_val(s.push(c)) == digits_val(s) * 10 + digit_val(c),
{
    assert(s.push(c).drop_last() =~= s);
    assert(s.push(c).last() == c);
}

/// The decimal representation is a non-empty digit string whose value is the
/// number itself.
pub proof fn lemma_dec_rep(n: nat)
    ensures
        dec_rep(n).len() >= 1,
        all_digits(dec_rep(n)),
        digits_val(dec_rep(n)) == n,
    decreases n,
{
    if n < 10 {
        assert(digit_char(n) as int == 48 + n);
        let s = seq![digit_char(n)];
        assert(s.drop_last() =~= Seq::<char>::empty());
        assert(digits_val(s.drop_last()) == 0);
        assert(s.last() == digit_char(n));
        assert(digit_val(digit_char(n)) == n);
        assert(digits_val(s) == n);
    } else {
        lemma_dec_rep(n / 10);
        let a = dec_rep(n / 10);
        let c = digit_char(n % 10);
        assert(c as int == 48 + n % 10);
        lemma_digits_val_push(a, c);
        assert(digits_val(a.push(c)) == (n / 10) * 10 + n % 10);
        assert(forall|i: int|
            0 <= i < a.push(c).len() ==> is_digit_char(#[trigger] a.push(c)[i]));
    }
}

/// The digit part of an integer text: what follows an optional sign.
pub open spec fn int_body(s: Seq<char>) -> Seq<char> {
    if s.len() > 0 && (s[0] == '-' || s[0] == '+') {
        s.drop_first()
    } else {
        s
    }
}

/// The text opens with a minus sign.
pub open spec fn int_is_neg(s: Seq<char>) -> bool {
    s.len() > 0 && s[0] == '-'
}

/// The signed value of an integer text, meaningful under [`is_int_text`].
pub open spec fn int_text_val(s: Seq<char>) -> int {
    if int_is_neg(s) {
        -(digits_val(int_body(s)) as int)
    } else {
        digits_val(int_body(s)) as int
    }
}

/// The text denotes a 32-bit integer: an optional sign, one or more digits,
/// and a value in range.
pub open spec fn is_int_text(s: Seq<char>) -> bool {
    &&& int_body(s).len() > 0
    &&& all_digits(int_body(s))
    &&& -0x8000_0000 <= int_text_val(s) <= 0x7fff_ffff
}

/// The decimal text of an integer denotes that integer.
pub proof fn lemma_dec_text_int(i: int)
    requires
        -0x8000_0000 <= i <= 0x7fff_ffff,
    ensures
        is_int_text(dec_text(i)),
        int_text_val(dec_text(i)) == i,
{
    if i < 0 {
        let s = seq!['-'] + dec_rep((-i) as nat);
        lemma_dec_rep((-i) as nat);
        assert(s[0] == '-');
        assert(s.drop_first() =~= dec_rep((-i) as nat));
    } else {
        let s = dec_rep(i as nat);
        lemma_dec_rep(i as nat);
        assert(is_digit_char(s[0]));
        assert(s[0] != '-' && s[0] != '+');
        assert(int_body(s) == s);
    }
}

/// Renders an integer as decimal text.
pub fn render_i32(i: i32) -> (r: String)
    ensures
        r@ == dec_text(i as int),
{
    let digits: &str = "0123456789";
    proof {
        reveal_strlit("0123456789");
        assert forall|d: int| 0 <= d < 10 implies digits@[d] == digit_char(d as nat) by {
            assert(digit_char(d as nat) as int == 48 + d);
        }
        assert(digits.is_ascii());
    }
    let neg = i < 0;
    let mut n: u64 = if i < 0 {
        (-(i as i64)) as u64
    } else {
        i as u64
    };
    let ghost n0 = n as nat;
    proof {
        if i < 0 {
            assert(n0 == -(i as int));
        } else {
            assert(n0 == i as int);
        }
    }
    let mut body = String::new();
    if n == 0 {
        let ch = digits.substring_ascii(0, 1);
        proof {
            assert(ch@ =~= seq![digit_char(0)]);
        }
        body.append(ch);
        proof {
            assert(body@ =~= dec_rep(n0));
        }
    } else {
        while n > 0
            invariant
                digits@.len() == 10,
                digits.is_ascii(),
                forall|d: int| 0 <= d < 10 ==> digits@[d] == digit_char(d as nat),
                n > 0 ==> dec_rep(n0) =~= dec_rep(n as nat) + body@,
                n == 0 ==> body@ =~= dec_rep(n0),
            decreases n,
        {
            let d = (n % 10) as usize;
            let ch = digits.substring_ascii(d, d + 1);
            proof {
                assert(ch@ =~= seq![digit_char(d as nat)]);
            }
            let mut t = String::new();
            t.append(ch);
            t.append(body.as_str());
            let ghost old_body = body@;
            body = t;
            proof {
                assert(body@ =~= seq![digit_char(n as nat % 10)] + old_body);
            }
            let ghost old_n = n as nat;
            n = n / 10;
            proof {
                if old_n >= 10 {
                    assert(dec_rep(old_n) == dec_rep(old_n / 10).push(digit_char(old_n % 10)));
                    assert(dec_rep(old_n / 10).push(digit_char(old_n % 10)) + old_body
                        =~= dec_rep(old_n / 10) + (seq![digit_char(old_n % 10)] + old_body));
                } else {
                    assert(n == 0);
                    assert(dec_rep(old_n) =~= seq![digit_char(old_n)]);
                }
            }
        }
    }
    if neg {
        let mut r = String::new();
        let sign: &str = "-";
        proof {
            reveal_strlit("-");
            assert(sign@ =~= seq!['-']);
        }
        r.append(sign);
        r.append(body.as_str());
        proof {
            assert(r@ =~= seq!['-'] + dec_rep((-(i as int)) as nat));
        }
        r
    } else {
        body
    }
}

} // verus!

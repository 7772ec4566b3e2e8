//! Small pure helpers on text, 32-bit integers and optional integers.

use vstd::prelude::*;

verus! {

/// The 32-bit two's-complement value that the mathematical integer `v`
/// wraps to.
pub open spec fn wrap_i32(v: int) -> int {
    let m = v % 0x1_0000_0000;
    if m > i32::MAX {
        m - 0x1_0000_0000
    } else {
        m
    }
}

/// True iff the text has no characters.
pub fn check_empty(s: &str) -> (r: bool)
    ensures
        r == (s@.len() == 0),
{
    s.is_empty()
}

/// The text with every comma replaced by a semicolon, character for
/// character.
pub open spec fn comma_replaced(s: Seq<char>) -> Seq<char> {
    s.map_values(|c: char| if c == ',' { ';' } else { c })
}

/// `a + b` with 32-bit signed wrap-around on overflow.
pub fn add(a: i32, b: i32) -> (r: i32)
    ensures
        r as int == wrap_i32(a + b),
        i32::MIN <= a + b <= i32::MAX ==> r as int == a + b,
{
    a.wrapping_add(b)
}

/// The text with every `,` replaced by `;`; all other characters are kept.
pub fn replace_comma(s: &str) -> (r: String)
    ensures
        r@ == comma_replaced(s@),
{
    let n = s.unicode_len();
    let mut out = String::new();
    let mut i: usize = 0;
    while i < n
        invariant
            n == s@.len(),
            i <= n,
            out@ == comma_replaced(s@.subrange(0, i as int)),
        decreases n - i,
    {
        if s.get_char(i) == ',' {
            proof {
                reveal_strlit(";");
            }
            out.append(";");
        } else {
            out.append(s.substring_char(i, i + 1));
        }
        assert(out@ =~= comma_replaced(s@.subrange(0, i + 1)));
        i = i + 1;
    }
    assert(s@.subrange(0, n as int) =~= s@);
    out
}

/// Replacing commas leaves no comma behind, keeps the length, and keeps
/// every other character at its position.
pub proof fn lemma_comma_replaced_shape(s: Seq<char>)
    ensures
        comma_replaced(s).len() == s.len(),
        forall|i: int| 0 <= i < s.len() ==> #[trigger] comma_replaced(s)[i] != ',',
        forall|i: int|
            0 <= i < s.len() && s[i] != ',' ==> #[trigger] comma_replaced(s)[i] == s[i],
        forall|i: int| 0 <= i < s.len() && s[i] == ',' ==> #[trigger] comma_replaced(s)[i] == ';',
        !comma_replaced(s).contains(','),
{
}

/// True iff a value is present.
pub fn is_some_value(opt: Option<i32>) -> (r: bool)
    ensures
        r == opt is Some,
{
    match opt {
        Some(_) => true,
        None => false,
    }
}

/// Doubles a present value, with 32-bit signed wrap-around; an absent value
/// stays absent.
pub fn double_if_some(opt: Option<i32>) -> (r: Option<i32>)
    ensures
        opt is None ==> r is None,
        opt is Some ==> r is Some && r->0 as int == wrap_i32(2 * opt->0),
        opt is Some && i32::MIN <= 2 * opt->0 <= i32::MAX ==> r == Some((2 * opt->0) as i32),
{
    if let Some(x) = opt {
        Some(x.wrapping_add(x))
    } else {
        None
    }
}

} // verus!

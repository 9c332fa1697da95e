//! String helpers: the few trusted bridges to `std` and `convert_case`,
//! identifier classification, and lexicographic comparison.

use convert_case::Casing;
use core::cmp::Ordering;
use vstd::prelude::*;

verus! {

/// What `convert_case` produces for the `UpperCamel` case of a string; a
/// function of the characters alone.
pub uninterp spec fn upper_camel_of(s: Seq<char>) -> Seq<char>;

/// What `convert_case` produces for the `UpperSnake` case of a string; a
/// function of the characters alone.
pub uninterp spec fn upper_snake_of(s: Seq<char>) -> Seq<char>;

/// Relies on convert_case's `to_case(Case::UpperCamel)`: splits the input
/// into words at underscores and case boundaries and capitalizes each;
/// the result depends on the input characters alone.
#[verifier::external_body]
pub fn to_upper_camel(s: &str) -> (r: String)
    ensures
        r@ == upper_camel_of(s@),
        s@.len() == 0 ==> r@.len() == 0,
{
    s.to_case(convert_case::Case::UpperCamel)
}

/// Relies on convert_case's `to_case(Case::UpperSnake)`: splits the input
/// into words and upper-cases them, joined by underscores; the result
/// depends on the input characters alone.
#[verifier::external_body]
pub fn to_upper_snake(s: &str) -> (r: String)
    ensures
        r@ == upper_snake_of(s@),
        s@.len() == 0 ==> r@.len() == 0,
{
    s.to_case(convert_case::Case::UpperSnake)
}

/// The string with every underscore replaced by a space.
pub open spec fn spaced(s: Seq<char>) -> Seq<char> {
    Seq::new(s.len(), |i: int| if s[i] == '_' { ' ' } else { s[i] })
}

/// Relies on `str::replace`: replaces every match of the pattern (here the
/// single character '_') by the replacement string (here one space).
#[verifier::external_body]
pub fn replace_underscores(s: &str) -> (r: String)
    ensures
        r@ == spaced(s@),
{
    s.replace('_', " ")
}

/// Relies on `str`'s `PartialEq`: two string slices are equal exactly when
/// their character sequences are.
#[verifier::external_body]
pub fn str_eq(a: &str, b: &str) -> (r: bool)
    ensures
        r <==> a@ == b@,
{
    a == b
}

/// Relies on `String::from`: the string holding exactly the one given
/// character.
#[verifier::external_body]
pub fn char_string(c: char) -> (r: String)
    ensures
        r@ == seq![c],
{
    String::from(c)
}

/// Relies on `String::from_utf8`: ASCII bytes decode to the corresponding
/// characters. The input is required to be ASCII, so the conversion cannot
/// fail.
#[verifier::external_body]
pub fn ascii_to_string(v: &Vec<u8>) -> (r: String)
    requires
        forall|i: int| 0 <= i < v@.len() ==> v@[i] < 128,
    ensures
        r@.len() == v@.len(),
        forall|i: int| 0 <= i < v@.len() ==> r@[i] == v@[i] as char,
{
    String::from_utf8(v.clone()).unwrap_or_default()
}

/// May the character open an identifier?
pub open spec fn is_ident_start(c: char) -> bool {
    ||| 'a' as u32 <= c as u32 <= 'z' as u32
    ||| 'A' as u32 <= c as u32 <= 'Z' as u32
    ||| c == '_'
}

/// May the character continue an identifier?
pub open spec fn is_ident_part(c: char) -> bool {
    is_ident_start(c) || '0' as u32 <= c as u32 <= '9' as u32
}

/// A simple identifier: nonempty, made of letters, digits and underscores,
/// not starting with a digit.
pub open spec fn spec_is_identifier(s: Seq<char>) -> bool {
    &&& s.len() > 0
    &&& is_ident_start(s[0])
    &&& forall|i: int| 1 <= i < s.len() ==> is_ident_part(#[trigger] s[i])
}

/// Decides whether the string is a simple identifier.
pub fn is_identifier(s: &str) -> (b: bool)
    ensures
        b == spec_is_identifier(s@),
{
    let n = s.unicode_len();
    if n == 0 {
        return false;
    }
    let c0 = s.get_char(0);
    let u0 = c0 as u32;
    if !(97 <= u0 && u0 <= 122 || 65 <= u0 && u0 <= 90 || u0 == 95) {
        assert(!is_ident_start(c0));
        return false;
    }
    let mut i: usize = 1;
    while i < n
        invariant
            1 <= i <= n,
            n == s@.len(),
            forall|j: int| 1 <= j < i ==> is_ident_part(#[trigger] s@[j]),
        decreases n - i,
    {
        let c = s.get_char(i);
        let u = c as u32;
        if !(97 <= u && u <= 122 || 65 <= u && u <= 90 || u == 95 || 48 <= u && u <= 57) {
            assert(!is_ident_part(c));
            return false;
        }
        i += 1;
    }
    true
}

/// Strict lexicographic order on character sequences, by code point, with
/// a proper prefix ordered before its extensions. This is the order of
/// `str`'s own `Ord`.
pub open spec fn lex_lt(a: Seq<char>, b: Seq<char>) -> bool
    decreases a.len(),
{
    if b.len() == 0 {
        false
    } else if a.len() == 0 {
        true
    } else if (a[0] as u32) < (b[0] as u32) {
        true
    } else if a[0] == b[0] {
        lex_lt(a.skip(1), b.skip(1))
    } else {
        false
    }
}

/// Lexicographic comparison after dropping a common prefix of length `i`.
proof fn lemma_lex_skip(a: Seq<char>, b: Seq<char>, i: int)
    requires
        0 <= i <= a.len(),
        i <= b.len(),
        forall|j: int| 0 <= j < i ==> a[j] == b[j],
    ensures
        lex_lt(a, b) == lex_lt(a.skip(i), b.skip(i)),
    decreases i,
{
    if i > 0 {
        assert(a.len() > 0 && b.len() > 0);
        assert(a[0] == b[0]);
        lemma_lex_skip(a.skip(1), b.skip(1), i - 1);
        assert(a.skip(1).skip(i - 1) =~= a.skip(i));
        assert(b.skip(1).skip(i - 1) =~= b.skip(i));
    } else {
        assert(a.skip(0) =~= a);
        assert(b.skip(0) =~= b);
    }
}

/// Compares two strings in lexicographic order.
pub fn str_lex_cmp(a: &str, b: &str) -> (r: Ordering)
    ensures
        r == Ordering::Less <==> lex_lt(a@, b@),
        r == Ordering::Equal <==> a@ == b@,
        r == Ordering::Greater <==> lex_lt(b@, a@),
{
    let na = a.unicode_len();
    let nb = b.unicode_len();
    let mut i: usize = 0;
    loop
        invariant
            0 <= i <= na,
            i <= nb,
            na == a@.len(),
            nb == b@.len(),
            forall|j: int| 0 <= j < i ==> a@[j] == b@[j],
        decreases na - i,
    {
        if i == na || i == nb {
            proof {
                lemma_lex_skip(a@, b@, i as int);
                lemma_lex_skip(b@, a@, i as int);
                if i == na && i == nb {
                    assert(a@ =~= b@);
                }
            }
            return if na == nb {
                Ordering::Equal
            } else if i == na {
                proof {
                    assert(a@.skip(i as int).len() == 0 && b@.skip(i as int).len() > 0);
                    assert(a@.len() != b@.len());
                }
                Ordering::Less
            } else {
                proof {
                    assert(b@.skip(i as int).len() == 0 && a@.skip(i as int).len() > 0);
                    assert(a@.len() != b@.len());
                }
                Ordering::Greater
            };
        }
        let ca = a.get_char(i);
        let cb = b.get_char(i);
        if ca as u32 != cb as u32 {
            proof {
                lemma_lex_skip(a@, b@, i as int);
                lemma_lex_skip(b@, a@, i as int);
                assert(a@.skip(i as int)[0] == a@[i as int]);
                assert(b@.skip(i as int)[0] == b@[i as int]);
                if a@ == b@ {
                    assert(a@[i as int] == b@[i as int]);
                }
                vstd::utf8::char_u32_cast(ca, ca as u32);
                vstd::utf8::char_u32_cast(cb, cb as u32);
            }
            return if (ca as u32) < (cb as u32) {
                Ordering::Less
            } else {
                Ordering::Greater
            };
        }
        proof {
            vstd::utf8::char_u32_cast(ca, ca as u32);
            vstd::utf8::char_u32_cast(cb, cb as u32);
        }
        i += 1;
    }
}


/// The lexicographic order is transitive in its non-strict form.
pub proof fn lemma_lex_le_trans(a: Seq<char>, b: Seq<char>, c: Seq<char>)
    requires
        !lex_lt(b, a),
        !lex_lt(c, b),
    ensures
        !lex_lt(c, a),
    decreases a.len() + b.len() + c.len(),
{
    if lex_lt(c, a) {
        if c.len() == 0 {
            assert(a.len() > 0);
            if b.len() == 0 {
                assert(lex_lt(b, a));
            } else {
                assert(lex_lt(c, b));
            }
        } else {
            assert(a.len() > 0);
            if b.len() == 0 {
                assert(lex_lt(b, a));
            } else {
                vstd::utf8::char_u32_cast(a[0], a[0] as u32);
                vstd::utf8::char_u32_cast(b[0], b[0] as u32);
                vstd::utf8::char_u32_cast(c[0], c[0] as u32);
                if (c[0] as u32) < (a[0] as u32) {
                    // heads squeeze: b0 >= a0 and c0 >= b0 force c0 >= a0
                    assert((b[0] as u32) >= (a[0] as u32));
                    assert((c[0] as u32) >= (b[0] as u32));
                } else {
                    assert(c[0] == a[0]);
                    assert((b[0] as u32) >= (a[0] as u32));
                    assert((c[0] as u32) >= (b[0] as u32));
                    assert(b[0] == a[0] && c[0] == b[0]);
                    lemma_lex_le_trans(a.skip(1), b.skip(1), c.skip(1));
                }
            }
        }
    }
}

/// The strict lexicographic order is asymmetric.
pub proof fn lemma_lex_asymmetric(a: Seq<char>, b: Seq<char>)
    requires
        lex_lt(a, b),
    ensures
        !lex_lt(b, a),
    decreases a.len(),
{
    if b.len() > 0 && a.len() > 0 {
        vstd::utf8::char_u32_cast(a[0], a[0] as u32);
        vstd::utf8::char_u32_cast(b[0], b[0] as u32);
        if a[0] == b[0] {
            lemma_lex_asymmetric(a.skip(1), b.skip(1));
        }
    }
}
} // verus!

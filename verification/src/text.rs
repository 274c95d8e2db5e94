use vstd::prelude::*;

verus! {

// ----- character classes of the source alphabet -----

/// Whitespace skipped between tokens.
pub open spec fn spec_is_ws(c: char) -> bool {
    c == ' ' || c == '\t' || c == '\r' || c == '\n'
}

pub open spec fn spec_is_digit(c: char) -> bool {
    '0' <= c && c <= '9'
}

pub open spec fn spec_is_alpha(c: char) -> bool {
    ('a' <= c && c <= 'z') || ('A' <= c && c <= 'Z')
}

pub open spec fn spec_is_alnum(c: char) -> bool {
    spec_is_alpha(c) || spec_is_digit(c)
}

pub fn is_ws(c: char) -> (r: bool)
    ensures
        r == spec_is_ws(c),
{
    c == ' ' || c == '\t' || c == '\r' || c == '\n'
}

pub fn is_digit(c: char) -> (r: bool)
    ensures
        r == spec_is_digit(c),
{
    '0' <= c && c <= '9'
}

pub fn is_alpha(c: char) -> (r: bool)
    ensures
        r == spec_is_alpha(c),
{
    ('a' <= c && c <= 'z') || ('A' <= c && c <= 'Z')
}

pub fn is_alnum(c: char) -> (r: bool)
    ensures
        r == spec_is_alnum(c),
{
    is_alpha(c) || is_digit(c)
}

// ----- case folding of ASCII letters -----

/// The lower-case form of an ASCII letter; any other character is unchanged.
pub open spec fn spec_lower(c: char) -> char {
    if 'A' <= c && c <= 'Z' {
        (((c as u32) + 32) as u8) as char
    } else {
        c
    }
}

/// A sequence of characters with each ASCII upper-case letter folded to lower
/// case.
pub open spec fn spec_lower_seq(s: Seq<char>) -> Seq<char> {
    s.map_values(|c: char| spec_lower(c))
}

pub fn lower(c: char) -> (r: char)
    ensures
        r == spec_lower(c),
{
    if 'A' <= c && c <= 'Z' {
        (((c as u32) + 32) as u8) as char
    } else {
        c
    }
}

// ----- numeric value of a digit string -----

pub open spec fn spec_digit_val(c: char) -> int {
    c as int - '0' as int
}

/// The value of a sequence of decimal digits, most significant first.
pub open spec fn spec_digits_val(s: Seq<char>) -> int
    decreases s.len(),
{
    if s.len() == 0 {
        0
    } else {
        spec_digits_val(s.drop_last()) * 10 + spec_digit_val(s.last())
    }
}

/// The number of `.` characters in a sequence.
pub open spec fn spec_dot_count(t: Seq<char>) -> int
    decreases t.len(),
{
    if t.len() == 0 {
        0
    } else {
        spec_dot_count(t.drop_last()) + if t.last() == '.' {
            1int
        } else {
            0int
        }
    }
}

/// A lexeme that parses as a 32-bit signed integer: one or more digits whose
/// value fits.
pub open spec fn spec_is_valid_int(t: Seq<char>) -> bool {
    &&& t.len() > 0
    &&& forall|k: int| 0 <= k < t.len() ==> spec_is_digit(#[trigger] t[k])
    &&& spec_digits_val(t) <= i32::MAX
}

/// A lexeme of the real-literal grammar: digits with exactly one `.`, the
/// first character a digit.
pub open spec fn spec_is_valid_real(t: Seq<char>) -> bool {
    &&& t.len() > 0
    &&& spec_is_digit(t[0])
    &&& forall|k: int| 0 <= k < t.len() ==> (spec_is_digit(#[trigger] t[k]) || t[k] == '.')
    &&& spec_dot_count(t) == 1
}

/// The value of an all-digit sequence is never negative.
pub proof fn lemma_digits_val_nonneg(t: Seq<char>)
    requires
        forall|k: int| 0 <= k < t.len() ==> spec_is_digit(#[trigger] t[k]),
    ensures
        spec_digits_val(t) >= 0,
    decreases t.len(),
{
    if t.len() > 0 {
        lemma_digits_val_nonneg(t.drop_last());
    }
}

/// The value of an all-digit sequence is at least the value of any prefix.
pub proof fn lemma_digits_val_prefix(t: Seq<char>, i: int)
    requires
        forall|k: int| 0 <= k < t.len() ==> spec_is_digit(#[trigger] t[k]),
        0 <= i <= t.len(),
    ensures
        spec_digits_val(t) >= spec_digits_val(t.take(i)),
    decreases t.len() - i,
{
    if i < t.len() {
        assert(t.take(i + 1).drop_last() =~= t.take(i));
        assert(t.take(i + 1).last() == t[i]);
        lemma_digits_val_nonneg(t.take(i));
        assert(spec_digits_val(t.take(i + 1)) == spec_digits_val(t.take(i)) * 10 + spec_digit_val(
            t[i],
        ));
        lemma_digits_val_prefix(t, i + 1);
    } else {
        assert(t.take(i) =~= t);
    }
}

/// The number of dots in a sequence, counted by a loop.
pub fn count_dots(s: &str) -> (r: usize)
    ensures
        r == spec_dot_count(s@),
{
    let len = s.unicode_len();
    let mut i: usize = 0;
    let mut dots: usize = 0;
    while i < len
        invariant
            len == s@.len(),
            i <= len,
            dots <= i,
            dots == spec_dot_count(s@.take(i as int)),
        decreases len - i,
    {
        proof {
            assert(s@.take(i as int + 1).drop_last() =~= s@.take(i as int));
            assert(s@.take(i as int + 1).last() == s@[i as int]);
        }
        if s.get_char(i) == '.' {
            dots += 1;
        }
        i += 1;
    }
    proof {
        assert(s@.take(len as int) =~= s@);
    }
    dots
}

/// Parse a lexeme as a 32-bit signed integer: all characters must be digits
/// and the value must fit.
pub fn parse_int_lexeme(s: &str) -> (r: Option<i32>)
    ensures
        match r {
            Some(v) => spec_is_valid_int(s@) && v as int == spec_digits_val(s@),
            None => !spec_is_valid_int(s@),
        },
{
    let len = s.unicode_len();
    if len == 0 {
        return None;
    }
    let mut i: usize = 0;
    let mut acc: i32 = 0;
    while i < len
        invariant
            len == s@.len(),
            i <= len,
            forall|k: int| 0 <= k < i ==> spec_is_digit(#[trigger] s@[k]),
            0 <= acc,
            acc as int == spec_digits_val(s@.take(i as int)),
        decreases len - i,
    {
        proof {
            assert(s@.take(i as int + 1).drop_last() =~= s@.take(i as int));
            assert(s@.take(i as int + 1).last() == s@[i as int]);
        }
        let c = s.get_char(i);
        if !is_digit(c) {
            return None;
        }
        let d: i32 = ((c as u32) - ('0' as u32)) as i32;
        assert(d == spec_digit_val(c));
        assert(0 <= d <= 9);
        if acc > (i32::MAX - d) / 10 {
            proof {
                assert(spec_digits_val(s@.take(i as int + 1)) == acc * 10 + d);
                assert(acc * 10 + d > i32::MAX) by (nonlinear_arith)
                    requires
                        acc > (i32::MAX - d) / 10,
                        0 <= d <= 9,
                        0 <= acc,
                {}
                if spec_is_valid_int(s@) {
                    lemma_digits_val_prefix(s@, i as int + 1);
                    assert(false);
                }
            }
            return None;
        }
        proof {
            assert(acc * 10 + d <= i32::MAX) by (nonlinear_arith)
                requires
                    acc <= (i32::MAX - d) / 10,
                    0 <= d <= 9,
                    0 <= acc,
            {}
        }
        acc = acc * 10 + d;
        i += 1;
    }
    proof {
        assert(s@.take(len as int) =~= s@);
    }
    Some(acc)
}

/// Check a lexeme against the real-literal grammar.
pub fn check_real_lexeme(s: &str) -> (r: bool)
    ensures
        r == spec_is_valid_real(s@),
{
    let len = s.unicode_len();
    if len == 0 {
        return false;
    }
    if !is_digit(s.get_char(0)) {
        return false;
    }
    let mut i: usize = 0;
    let mut dots: usize = 0;
    while i < len
        invariant
            len == s@.len(),
            i <= len,
            dots <= i,
            dots == spec_dot_count(s@.take(i as int)),
            forall|k: int| 0 <= k < i ==> (spec_is_digit(#[trigger] s@[k]) || s@[k] == '.'),
        decreases len - i,
    {
        proof {
            assert(s@.take(i as int + 1).drop_last() =~= s@.take(i as int));
            assert(s@.take(i as int + 1).last() == s@[i as int]);
        }
        let c = s.get_char(i);
        if c == '.' {
            dots += 1;
        } else if !is_digit(c) {
            return false;
        }
        i += 1;
    }
    proof {
        assert(s@.take(len as int) =~= s@);
    }
    dots == 1
}

// ----- decimal rendering -----

/// The decimal digit character for a value below ten.
pub open spec fn spec_digit_char(d: int) -> char {
    ((48 + d) as u8) as char
}

/// The decimal digits of a non-negative number, most significant first.
pub open spec fn spec_digits_of(n: int) -> Seq<char>
    decreases n,
{
    if n < 0 {
        Seq::<char>::empty()
    } else if n < 10 {
        seq![spec_digit_char(n)]
    } else {
        spec_digits_of(n / 10) + seq![spec_digit_char(n % 10)]
    }
}

/// The one-character string for a decimal digit.
fn digit_str(d: usize) -> (r: String)
    requires
        d < 10,
    ensures
        r@ == seq![spec_digit_char(d as int)],
{
    let digits = "0123456789";
    proof {
        reveal_strlit("0123456789");
    }
    let r = digits.substring_char(d, d + 1).to_owned();
    proof {
        assert(r@ =~= seq![spec_digit_char(d as int)]);
    }
    r
}

/// Render a number in decimal, most significant digit first.
pub fn usize_to_string(n: usize) -> (r: String)
    ensures
        r@ == spec_digits_of(n as int),
    decreases n,
{
    if n < 10 {
        digit_str(n)
    } else {
        let high = usize_to_string(n / 10);
        let low = digit_str(n % 10);
        high.concat(low.as_str())
    }
}

// ----- string comparison -----

/// Character-for-character equality of two string slices.
pub fn str_eq(a: &str, b: &str) -> (r: bool)
    ensures
        r == (a@ == b@),
{
    let a_len = a.unicode_len();
    let b_len = b.unicode_len();
    if a_len != b_len {
        assert(a@ != b@) by {
            assert(a@.len() != b@.len());
        }
        return false;
    }
    let mut i: usize = 0;
    while i < a_len
        invariant
            a_len == a@.len(),
            b_len == b@.len(),
            a_len == b_len,
            i <= a_len,
            forall|k: int| 0 <= k < i ==> a@[k] == b@[k],
        decreases a_len - i,
    {
        if a.get_char(i) != b.get_char(i) {
            return false;
        }
        i += 1;
    }
    proof {
        assert(a@ =~= b@);
    }
    true
}

/// Character-for-character equality after folding `a` to lower case; `b` is
/// expected to be already lower case.
pub fn str_eq_ignore_case(a: &str, b: &str) -> (r: bool)
    ensures
        r == (spec_lower_seq(a@) == b@),
{
    let a_len = a.unicode_len();
    let b_len = b.unicode_len();
    if a_len != b_len {
        assert(spec_lower_seq(a@) != b@) by {
            assert(spec_lower_seq(a@).len() != b@.len());
        }
        return false;
    }
    let mut i: usize = 0;
    while i < a_len
        invariant
            a_len == a@.len(),
            b_len == b@.len(),
            a_len == b_len,
            i <= a_len,
            forall|k: int| 0 <= k < i ==> spec_lower(a@[k]) == b@[k],
        decreases a_len - i,
    {
        if lower(a.get_char(i)) != b.get_char(i) {
            assert(spec_lower_seq(a@)[i as int] != b@[i as int]);
            return false;
        }
        i += 1;
    }
    proof {
        assert(spec_lower_seq(a@) =~= b@);
    }
    true
}

} // verus!

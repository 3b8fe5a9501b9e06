//! Low-level string scanning: maximal runs of character classes, literal
//! tags, and decimal rendering of numbers. Every scanner takes the remaining
//! input and hands back the unconsumed remainder together with what it
//! consumed, or a descriptive error message.
use vstd::prelude::*;
use vstd::string::StrSliceExecFns;
use vstd::string::StringExecFns;

verus! {

// ---------------------------------------------------------------------------
// Character classes
// ---------------------------------------------------------------------------

/// An ASCII decimal digit, `'0'` to `'9'`.
pub open spec fn spec_is_digit(c: char) -> bool {
    48 <= c as u32 && c as u32 <= 57
}

/// An ASCII letter, `'A'` to `'Z'` or `'a'` to `'z'`.
pub open spec fn spec_is_ascii_letter(c: char) -> bool {
    (65 <= c as u32 && c as u32 <= 90) || (97 <= c as u32 && c as u32 <= 122)
}

/// The Unicode `White_Space` code points, which is exactly the set that
/// `char::is_whitespace` accepts.
pub open spec fn spec_is_whitespace(c: char) -> bool {
    let u = c as u32;
    u == 32 || (9 <= u && u <= 13) || u == 0x85 || u == 0xA0 || u == 0x1680 || (0x2000 <= u
        && u <= 0x200A) || u == 0x2028 || u == 0x2029 || u == 0x202F || u == 0x205F || u == 0x3000
}

/// Whether `char::is_alphanumeric` accepts `c`; the full Unicode table is not
/// written out here, so this is given a name and the executable wrapper below
/// is trusted to agree with it.
pub uninterp spec fn spec_is_alphanumeric(c: char) -> bool;

/// A character that may continue an identifier: alphanumeric or underscore.
pub open spec fn spec_is_id_char(c: char) -> bool {
    spec_is_alphanumeric(c) || c == '_'
}

pub(crate) fn is_digit(c: char) -> (r: bool)
    ensures
        r == spec_is_digit(c),
{
    let u = c as u32;
    48 <= u && u <= 57
}

pub(crate) fn is_ascii_letter(c: char) -> (r: bool)
    ensures
        r == spec_is_ascii_letter(c),
{
    let u = c as u32;
    (65 <= u && u <= 90) || (97 <= u && u <= 122)
}

pub(crate) fn is_whitespace(c: char) -> (r: bool)
    ensures
        r == spec_is_whitespace(c),
{
    let u = c as u32;
    u == 32 || (9 <= u && u <= 13) || u == 0x85 || u == 0xA0 || u == 0x1680 || (0x2000 <= u
        && u <= 0x200A) || u == 0x2028 || u == 0x2029 || u == 0x202F || u == 0x205F || u == 0x3000
}

/// Relies on `char::is_alphanumeric`, whose result depends on the character
/// alone. ASCII letters and digits are documented to be alphanumeric, and
/// ASCII punctuation is documented not to be.
#[verifier::external_body]
pub(crate) fn is_alphanumeric(c: char) -> (r: bool)
    ensures
        r == spec_is_alphanumeric(c),
        spec_is_ascii_letter(c) ==> r,
        spec_is_digit(c) ==> r,
        (c as u32 <= 47 || (58 <= c as u32 && c as u32 <= 64) || (91 <= c as u32 && c as u32 <= 96)
            || (123 <= c as u32 && c as u32 <= 126)) ==> !r,
{
    c.is_alphanumeric()
}

pub(crate) fn is_id_char(c: char) -> (r: bool)
    ensures
        r == spec_is_id_char(c),
{
    is_alphanumeric(c) || c == '_'
}

// ---------------------------------------------------------------------------
// Maximal runs
// ---------------------------------------------------------------------------

/// The length of the maximal prefix of `s` whose characters all satisfy `p`.
pub open spec fn run_len(s: Seq<char>, p: spec_fn(char) -> bool) -> nat
    decreases s.len(),
{
    if s.len() == 0 || !p(s[0]) {
        0
    } else {
        1 + run_len(s.drop_first(), p)
    }
}

pub proof fn lemma_run_len_le(s: Seq<char>, p: spec_fn(char) -> bool)
    ensures
        run_len(s, p) <= s.len(),
    decreases s.len(),
{
    if s.len() != 0 && p(s[0]) {
        lemma_run_len_le(s.drop_first(), p);
    }
}

/// The run is exactly `n` when the first `n` characters satisfy `p` and the
/// next one, if any, does not.
pub proof fn lemma_run_len_is(s: Seq<char>, p: spec_fn(char) -> bool, n: nat)
    requires
        n <= s.len(),
        forall|j: int| 0 <= j < n ==> p(s[j]),
        n < s.len() ==> !p(s[n as int]),
    ensures
        run_len(s, p) == n,
    decreases n,
{
    if n == 0 {
    } else {
        assert(p(s[0]));
        lemma_run_len_is(s.drop_first(), p, (n - 1) as nat);
    }
}

pub open spec fn digits_run(s: Seq<char>) -> nat {
    run_len(s, |c: char| spec_is_digit(c))
}

pub open spec fn ws_run(s: Seq<char>) -> nat {
    run_len(s, |c: char| spec_is_whitespace(c))
}

pub open spec fn id_cont_run(s: Seq<char>) -> nat {
    run_len(s, |c: char| spec_is_id_char(c))
}

pub open spec fn space_run(s: Seq<char>) -> nat {
    run_len(s, |c: char| c == ' ')
}

/// A run over a concatenation whose first part all satisfies `p` and whose
/// second part starts with a character that does not is exactly the first
/// part.
pub proof fn lemma_run_len_concat(p: Seq<char>, rest: Seq<char>, pred: spec_fn(char) -> bool)
    requires
        forall|i: int| 0 <= i < p.len() ==> pred(p[i]),
        rest.len() > 0 ==> !pred(rest[0]),
    ensures
        run_len(p + rest, pred) == p.len(),
    decreases p.len(),
{
    if p.len() == 0 {
        assert(p + rest =~= rest);
    } else {
        assert((p + rest)[0] == p[0]);
        assert((p + rest).drop_first() =~= p.drop_first() + rest);
        lemma_run_len_concat(p.drop_first(), rest, pred);
    }
}

/// The digit run over digits followed by a non-digit is exactly the digits.
pub proof fn lemma_digits_run_concat(p: Seq<char>, rest: Seq<char>)
    requires
        forall|i: int| 0 <= i < p.len() ==> spec_is_digit(p[i]),
        rest.len() > 0 ==> !spec_is_digit(rest[0]),
    ensures
        digits_run(p + rest) == p.len(),
{
    let pred = |c: char| spec_is_digit(c);
    assert forall|i: int| 0 <= i < p.len() implies pred(p[i]) by {}
    lemma_run_len_concat(p, rest, pred);
}

/// Every character of a decimal rendering is a digit, and there is at least
/// one.
pub proof fn lemma_dec_digits_are_digits(n: nat)
    ensures
        dec_digits(n).len() >= 1,
        forall|i: int| 0 <= i < dec_digits(n).len() ==> spec_is_digit(dec_digits(n)[i]),
    decreases n,
{
    if n < 10 {
    } else {
        lemma_dec_digits_are_digits(n / 10);
        assert forall|i: int| 0 <= i < dec_digits(n).len() implies spec_is_digit(
            dec_digits(n)[i],
        ) by {
            if i < dec_digits(n / 10).len() {
                assert(dec_digits(n)[i] == dec_digits(n / 10)[i]);
            } else {
                assert(dec_digits(n)[i] == digit_char(n % 10));
            }
        }
    }
}

pub proof fn lemma_ws_run_le(s: Seq<char>)
    ensures
        ws_run(s) <= s.len(),
{
    lemma_run_len_le(s, |c: char| spec_is_whitespace(c));
}

pub proof fn lemma_id_cont_run_le(s: Seq<char>)
    ensures
        id_cont_run(s) <= s.len(),
{
    lemma_run_len_le(s, |c: char| spec_is_id_char(c));
}

pub proof fn lemma_space_run_le(s: Seq<char>)
    ensures
        space_run(s) <= s.len(),
{
    lemma_run_len_le(s, |c: char| c == ' ');
}

pub proof fn lemma_digits_run_is(s: Seq<char>, n: nat)
    requires
        n <= s.len(),
        forall|j: int| 0 <= j < n ==> spec_is_digit(s[j]),
        n < s.len() ==> !spec_is_digit(s[n as int]),
    ensures
        digits_run(s) == n,
{
    let p = |c: char| spec_is_digit(c);
    assert forall|j: int| 0 <= j < n implies p(s[j]) by {}
    lemma_run_len_is(s, p, n);
}

pub proof fn lemma_ws_run_is(s: Seq<char>, n: nat)
    requires
        n <= s.len(),
        forall|j: int| 0 <= j < n ==> spec_is_whitespace(s[j]),
        n < s.len() ==> !spec_is_whitespace(s[n as int]),
    ensures
        ws_run(s) == n,
{
    let p = |c: char| spec_is_whitespace(c);
    assert forall|j: int| 0 <= j < n implies p(s[j]) by {}
    lemma_run_len_is(s, p, n);
}

pub proof fn lemma_id_cont_run_is(s: Seq<char>, n: nat)
    requires
        n <= s.len(),
        forall|j: int| 0 <= j < n ==> spec_is_id_char(s[j]),
        n < s.len() ==> !spec_is_id_char(s[n as int]),
    ensures
        id_cont_run(s) == n,
{
    let p = |c: char| spec_is_id_char(c);
    assert forall|j: int| 0 <= j < n implies p(s[j]) by {}
    lemma_run_len_is(s, p, n);
}

pub proof fn lemma_space_run_is(s: Seq<char>, n: nat)
    requires
        n <= s.len(),
        forall|j: int| 0 <= j < n ==> s[j] == ' ',
        n < s.len() ==> s[n as int] != ' ',
    ensures
        space_run(s) == n,
{
    let p = |c: char| c == ' ';
    assert forall|j: int| 0 <= j < n implies p(s[j]) by {}
    lemma_run_len_is(s, p, n);
}

// ---------------------------------------------------------------------------
// Error messages
// ---------------------------------------------------------------------------

pub open spec fn expected_digits_msg(s: Seq<char>) -> Seq<char> {
    "Expected digits: `"@ + s + "`"@
}

pub open spec fn expected_space_msg() -> Seq<char> {
    "Expected space"@
}

pub open spec fn identifier_expected_msg(s: Seq<char>) -> Seq<char> {
    "Identifier expected: `"@ + s + "`"@
}

pub open spec fn expected_tag_msg(t: Seq<char>, s: Seq<char>) -> Seq<char> {
    "Expected `"@ + t + "` not found in `"@ + s + "`"@
}

// ---------------------------------------------------------------------------
// Scanners
// ---------------------------------------------------------------------------

pub open spec fn spec_extract_digits(s: Seq<char>) -> Result<(Seq<char>, Seq<char>), Seq<char>> {
    if digits_run(s) == 0 {
        Err(expected_digits_msg(s))
    } else {
        Ok((s.skip(digits_run(s) as int), s.take(digits_run(s) as int)))
    }
}

/// Consumes the maximal run of ASCII digits; fails when the run is empty.
pub fn extract_digits<'a>(s: &'a str) -> (r: Result<(&'a str, &'a str), String>)
    ensures
        (match (r, spec_extract_digits(s@)) {
            (Ok((rem, ex)), Ok(p)) => rem@ == p.0 && ex@ == p.1,
            (Err(m), Err(sm)) => m@ == sm,
            _ => false,
        }),
        r matches Ok(p) ==> p.0@.len() < s@.len(),
        r matches Ok(p) ==> forall|j: int| 0 <= j < p.1@.len() ==> spec_is_digit(p.1@[j]),
{
    let len = s.unicode_len();
    let mut i: usize = 0;
    while i < len && is_digit(s.get_char(i))
        invariant
            i <= len,
            len == s@.len(),
            forall|j: int| 0 <= j < i ==> spec_is_digit(s@[j]),
        decreases len - i,
    {
        i += 1;
    }
    proof {
        lemma_digits_run_is(s@, i as nat);
    }
    if i == 0 {
        Err(String::from_str("Expected digits: `").concat(s).concat("`"))
    } else {
        Ok((s.substring_char(i, len), s.substring_char(0, i)))
    }
}

pub open spec fn spec_extract_whitespaces(s: Seq<char>) -> (Seq<char>, Seq<char>) {
    (s.skip(ws_run(s) as int), s.take(ws_run(s) as int))
}

/// Consumes the maximal run of whitespace, possibly empty.
pub fn extract_whitespaces<'a>(s: &'a str) -> (r: (&'a str, &'a str))
    ensures
        r.0@ == spec_extract_whitespaces(s@).0,
        r.1@ == spec_extract_whitespaces(s@).1,
        r.0@.len() + ws_run(s@) == s@.len(),
{
    let len = s.unicode_len();
    let mut i: usize = 0;
    while i < len && is_whitespace(s.get_char(i))
        invariant
            i <= len,
            len == s@.len(),
            forall|j: int| 0 <= j < i ==> spec_is_whitespace(s@[j]),
        decreases len - i,
    {
        i += 1;
    }
    proof {
        lemma_ws_run_is(s@, i as nat);
    }
    (s.substring_char(i, len), s.substring_char(0, i))
}

pub open spec fn spec_extract_spaces(s: Seq<char>) -> (Seq<char>, Seq<char>) {
    (s.skip(space_run(s) as int), s.take(space_run(s) as int))
}

/// Consumes the maximal run of plain space characters, possibly empty.
pub fn extract_spaces<'a>(s: &'a str) -> (r: (&'a str, &'a str))
    ensures
        r.0@ == spec_extract_spaces(s@).0,
        r.1@ == spec_extract_spaces(s@).1,
        r.0@.len() + space_run(s@) == s@.len(),
{
    let len = s.unicode_len();
    let mut i: usize = 0;
    while i < len && s.get_char(i) == ' '
        invariant
            i <= len,
            len == s@.len(),
            forall|j: int| 0 <= j < i ==> s@[j] == ' ',
        decreases len - i,
    {
        i += 1;
    }
    proof {
        lemma_space_run_is(s@, i as nat);
    }
    (s.substring_char(i, len), s.substring_char(0, i))
}

pub open spec fn spec_extract_whitespaces_1(s: Seq<char>) -> Result<
    (Seq<char>, Seq<char>),
    Seq<char>,
> {
    if ws_run(s) == 0 {
        Err(expected_space_msg())
    } else {
        Ok((s.skip(ws_run(s) as int), s.take(ws_run(s) as int)))
    }
}

/// Like `extract_whitespaces`, but fails when no whitespace is present.
pub fn extract_whitespaces_1<'a>(s: &'a str) -> (r: Result<(&'a str, &'a str), String>)
    ensures
        (match (r, spec_extract_whitespaces_1(s@)) {
            (Ok((rem, ex)), Ok(p)) => rem@ == p.0 && ex@ == p.1,
            (Err(m), Err(sm)) => m@ == sm,
            _ => false,
        }),
        r matches Ok(p) ==> p.0@.len() < s@.len(),
{
    let (rem, ex) = extract_whitespaces(s);
    if ex.unicode_len() == 0 {
        proof {
            assert(ex@ =~= Seq::<char>::empty());
        }
        Err(String::from_str("Expected space"))
    } else {
        Ok((rem, ex))
    }
}

/// The consumed length of an identifier: an ASCII letter followed by the
/// maximal run of alphanumeric or underscore characters. Identifiers are
/// never empty.
pub open spec fn id_len(s: Seq<char>) -> nat {
    1 + id_cont_run(s.skip(1))
}

pub open spec fn spec_extract_id(s: Seq<char>) -> Result<(Seq<char>, Seq<char>), Seq<char>> {
    if s.len() > 0 && spec_is_ascii_letter(s[0]) {
        Ok((s.skip(id_len(s) as int), s.take(id_len(s) as int)))
    } else {
        Err(identifier_expected_msg(s))
    }
}

/// Succeeds only when the input starts with an ASCII letter; then consumes
/// the maximal run of alphanumeric or underscore characters. Letters beyond
/// ASCII may continue an identifier but may not start one.
pub fn extract_id<'a>(s: &'a str) -> (r: Result<(&'a str, &'a str), String>)
    ensures
        (match (r, spec_extract_id(s@)) {
            (Ok((rem, ex)), Ok(p)) => rem@ == p.0 && ex@ == p.1,
            (Err(m), Err(sm)) => m@ == sm,
            _ => false,
        }),
        r matches Ok(p) ==> p.0@.len() < s@.len(),
{
    let len = s.unicode_len();
    if len == 0 || !is_ascii_letter(s.get_char(0)) {
        return Err(String::from_str("Identifier expected: `").concat(s).concat("`"));
    }
    let mut i: usize = 1;
    while i < len && is_id_char(s.get_char(i))
        invariant
            1 <= i <= len,
            len == s@.len(),
            forall|j: int| 1 <= j < i ==> spec_is_id_char(s@[j]),
        decreases len - i,
    {
        i += 1;
    }
    proof {
        let rest = s@.skip(1);
        assert forall|j: int| 0 <= j < i - 1 implies spec_is_id_char(rest[j]) by {
            assert(rest[j] == s@[j + 1]);
        }
        lemma_id_cont_run_is(rest, (i - 1) as nat);
    }
    Ok((s.substring_char(i, len), s.substring_char(0, i)))
}

pub open spec fn spec_tag(t: Seq<char>, s: Seq<char>) -> Result<Seq<char>, Seq<char>> {
    if t.len() <= s.len() && s.take(t.len() as int) == t {
        Ok(s.skip(t.len() as int))
    } else {
        Err(expected_tag_msg(t, s))
    }
}

/// Succeeds exactly when `s` starts with `starting_text`, consuming it.
pub fn tag<'a>(starting_text: &str, s: &'a str) -> (r: Result<&'a str, String>)
    ensures
        (match (r, spec_tag(starting_text@, s@)) {
            (Ok(rem), Ok(srem)) => rem@ == srem,
            (Err(m), Err(sm)) => m@ == sm,
            _ => false,
        }),
        r matches Ok(rem) ==> rem@.len() + starting_text@.len() == s@.len(),
{
    let tl = starting_text.unicode_len();
    let sl = s.unicode_len();
    if tl <= sl {
        let mut i: usize = 0;
        while i < tl
            invariant
                i <= tl,
                tl == starting_text@.len(),
                tl <= sl == s@.len(),
                forall|j: int| 0 <= j < i ==> s@[j] == starting_text@[j],
            decreases tl - i,
        {
            if s.get_char(i) != starting_text.get_char(i) {
                proof {
                    assert(s@.take(tl as int)[i as int] != starting_text@[i as int]);
                }
                return Err(
                    String::from_str("Expected `").concat(starting_text).concat(
                        "` not found in `",
                    ).concat(s).concat("`"),
                );
            }
            i += 1;
        }
        proof {
            assert(s@.take(tl as int) =~= starting_text@);
        }
        Ok(s.substring_char(tl, sl))
    } else {
        Err(
            String::from_str("Expected `").concat(starting_text).concat("` not found in `").concat(
                s,
            ).concat("`"),
        )
    }
}

// ---------------------------------------------------------------------------
// Views of name lists
// ---------------------------------------------------------------------------

/// The character sequences of a sequence of strings.
pub open spec fn strings_view(names: Seq<String>) -> Seq<Seq<char>>
    decreases names.len(),
{
    if names.len() == 0 {
        Seq::empty()
    } else {
        seq![names[0]@] + strings_view(names.drop_first())
    }
}

pub proof fn lemma_strings_view_index(names: Seq<String>)
    ensures
        strings_view(names).len() == names.len(),
        forall|i: int| 0 <= i < names.len() ==> strings_view(names)[i] == names[i]@,
    decreases names.len(),
{
    if names.len() != 0 {
        lemma_strings_view_index(names.drop_first());
        assert forall|i: int| 0 <= i < names.len() implies strings_view(names)[i]
            == names[i]@ by {
            if i > 0 {
                assert(strings_view(names.drop_first())[i - 1] == names.drop_first()[i - 1]@);
            }
        }
    }
}

// ---------------------------------------------------------------------------
// Decimal rendering
// ---------------------------------------------------------------------------

/// The character for a single decimal digit.
pub open spec fn digit_char(d: nat) -> char {
    if d == 0 {
        '0'
    } else if d == 1 {
        '1'
    } else if d == 2 {
        '2'
    } else if d == 3 {
        '3'
    } else if d == 4 {
        '4'
    } else if d == 5 {
        '5'
    } else if d == 6 {
        '6'
    } else if d == 7 {
        '7'
    } else if d == 8 {
        '8'
    } else {
        '9'
    }
}

/// The decimal rendering of a natural number, without leading zeros.
pub open spec fn dec_digits(n: nat) -> Seq<char>
    decreases n,
{
    if n < 10 {
        seq![digit_char(n)]
    } else {
        dec_digits(n / 10) + seq![digit_char(n % 10)]
    }
}

/// The decimal rendering of an integer: a minus sign for negative values.
pub open spec fn dec_int(n: int) -> Seq<char> {
    if n < 0 {
        "-"@ + dec_digits((-n) as nat)
    } else {
        dec_digits(n as nat)
    }
}

fn digit_str(d: u64) -> (r: &'static str)
    requires
        d < 10,
    ensures
        r@ == seq![digit_char(d as nat)],
{
    proof {
        reveal_strlit("0");
        reveal_strlit("1");
        reveal_strlit("2");
        reveal_strlit("3");
        reveal_strlit("4");
        reveal_strlit("5");
        reveal_strlit("6");
        reveal_strlit("7");
        reveal_strlit("8");
        reveal_strlit("9");
    }
    let r = if d == 0 {
        "0"
    } else if d == 1 {
        "1"
    } else if d == 2 {
        "2"
    } else if d == 3 {
        "3"
    } else if d == 4 {
        "4"
    } else if d == 5 {
        "5"
    } else if d == 6 {
        "6"
    } else if d == 7 {
        "7"
    } else if d == 8 {
        "8"
    } else {
        "9"
    };
    proof {
        assert(r@ =~= seq![digit_char(d as nat)]);
    }
    r
}

/// Renders a natural number in decimal, most significant digit first.
pub fn num_to_string(n: u64) -> (r: String)
    ensures
        r@ == dec_digits(n as nat),
    decreases n,
{
    if n < 10 {
        let r = String::from_str(digit_str(n));
        proof {
            assert(r@ =~= dec_digits(n as nat));
        }
        r
    } else {
        let r = num_to_string(n / 10).concat(digit_str(n % 10));
        proof {
            assert(r@ =~= dec_digits(n as nat));
        }
        r
    }
}

/// Renders a signed number in decimal, with a leading minus sign when
/// negative.
pub fn i32_to_string(n: i32) -> (r: String)
    ensures
        r@ == dec_int(n as int),
{
    if n >= 0 {
        let r = num_to_string(n as u64);
        r
    } else {
        let magnitude: u64 = ((-(n as i64)) as u64);
        String::from_str("-").concat(num_to_string(magnitude).as_str())
    }
}

/// Splits off a single leading operator character. Inputs that do not start
/// with one of the four arithmetic operators are ruled out by the caller.
pub fn extract_op<'a>(s: &'a str) -> (r: (&'a str, &'a str))
    requires
        s@.len() >= 1,
        s@[0] == '+' || s@[0] == '-' || s@[0] == '*' || s@[0] == '/',
    ensures
        r.0@ == s@.skip(1),
        r.1@ == s@.take(1),
{
    let len = s.unicode_len();
    (s.substring_char(1, len), s.substring_char(0, 1))
}

} // verus!

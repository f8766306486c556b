//! Verified text utilities: ASCII case folding, decimal rendering and
//! parsing, and whitespace tokenization for the shell.

use vstd::prelude::*;

verus! {

// --- ASCII case folding ---

/// ASCII lower-casing of a single character; other characters are unchanged.
pub open spec fn lower_char(c: char) -> char {
    if 65 <= c as u32 && c as u32 <= 90 {
        (((c as u8) + 32) as char)
    } else {
        c
    }
}

pub open spec fn lower_seq(s: Seq<char>) -> Seq<char> {
    s.map_values(|c: char| lower_char(c))
}

/// Relies on String::push: appends the given character to the end of the string.
#[verifier::external_body]
pub(crate) fn push_char(s: &mut String, c: char)
    ensures
        final(s)@ == old(s)@.push(c),
{
    s.push(c);
}

fn lower_char_exec(c: char) -> (r: char)
    ensures
        r == lower_char(c),
{
    let u = c as u32;
    if 65 <= u && u <= 90 {
        ((c as u8) + 32) as char
    } else {
        c
    }
}

/// ASCII-lower-cases a string, character by character.
pub fn to_lowercase(s: &str) -> (r: String)
    ensures
        r@ == lower_seq(s@),
{
    let n = s.unicode_len();
    let mut r = String::new();
    let mut i: usize = 0;
    while i < n
        invariant
            i <= n,
            n == s@.len(),
            r@ == lower_seq(s@.take(i as int)),
        decreases n - i,
    {
        let c = s.get_char(i);
        let l = lower_char_exec(c);
        push_char(&mut r, l);
        proof {
            assert(lower_seq(s@.take(i + 1)) =~= lower_seq(s@.take(i as int)).push(lower_char(
                s@[i as int],
            )));
        }
        i = i + 1;
    }
    proof {
        assert(s@.take(n as int) =~= s@);
    }
    r
}

/// Character-wise string equality, phrased over the views.
pub fn str_eq(a: &str, b: &str) -> (r: bool)
    ensures
        r == (a@ == b@),
{
    let na = a.unicode_len();
    let nb = b.unicode_len();
    if na != nb {
        return false;
    }
    let mut i: usize = 0;
    while i < na
        invariant
            i <= na,
            na == a@.len(),
            na == b@.len(),
            forall|j: int| 0 <= j < i ==> a@[j] == b@[j],
        decreases na - i,
    {
        if a.get_char(i) != b.get_char(i) {
            return false;
        }
        i = i + 1;
    }
    proof {
        assert(a@ =~= b@);
    }
    true
}

// --- decimal rendering ---

pub open spec fn digit_char(d: int) -> char {
    (((48 + d) as u8) as char)
}

/// The decimal representation of a non-negative integer, most significant
/// digit first.
pub open spec fn dec_rep(n: int) -> Seq<char>
    decreases n,
{
    if n < 10 {
        seq![digit_char(n)]
    } else {
        dec_rep(n / 10).push(digit_char(n % 10))
    }
}

/// `s` left-padded with zeros up to width `w`.
pub open spec fn zero_pad(s: Seq<char>, w: int) -> Seq<char>
    decreases w - s.len(),
{
    if s.len() >= w {
        s
    } else {
        zero_pad(seq!['0'].add(s), w)
    }
}

fn digit_str(d: u32) -> (r: char)
    requires
        d < 10,
    ensures
        r == digit_char(d as int),
{
    (48 + d as u8) as char
}

/// Renders an integer in decimal.
pub fn fmt_u32(n: u32) -> (r: String)
    ensures
        r@ == dec_rep(n as int),
    decreases n,
{
    if n < 10 {
        let mut s = String::new();
        push_char(&mut s, digit_str(n));
        proof {
            assert(s@ =~= dec_rep(n as int));
        }
        s
    } else {
        let mut s = fmt_u32(n / 10);
        push_char(&mut s, digit_str(n % 10));
        s
    }
}

/// Renders an integer in decimal, zero-padded to at least five characters.
pub fn fmt_u32_pad5(n: u32) -> (r: String)
    ensures
        r@ == zero_pad(dec_rep(n as int), 5),
{
    let mut s = fmt_u32(n);
    while s.as_str().unicode_len() < 5
        invariant
            zero_pad(s@, 5) == zero_pad(dec_rep(n as int), 5),
        decreases 5 - s@.len(),
    {
        let z: String = String::from_str("0");
        let t = z.concat(s.as_str());
        proof {
            reveal_strlit("0");
            assert(t@ =~= seq!['0'].add(s@));
        }
        s = t;
    }
    s
}

// --- decimal parsing ---

pub open spec fn is_digit(c: char) -> bool {
    48 <= c as u32 && c as u32 <= 57
}

pub open spec fn digit_val(c: char) -> int {
    c as u32 - 48
}

pub open spec fn all_digits(s: Seq<char>) -> bool {
    forall|i: int| 0 <= i < s.len() ==> is_digit(s[i])
}

/// The value of a digit string, read in base ten.
pub open spec fn dec_val(s: Seq<char>) -> int
    decreases s.len(),
{
    if s.len() == 0 {
        0
    } else {
        dec_val(s.drop_last()) * 10 + digit_val(s.last())
    }
}

/// How parsing a `u64` numeral can fail: empty input, a character that is
/// no digit (a lone sign included), or a value over `u64::MAX`.
#[derive(Clone, Copy, Debug, PartialEq, Eq, Structural)]
pub enum NumeralError {
    Empty,
    InvalidDigit,
    TooLarge,
}

/// The error text for each failure, the same one the platform's integer
/// parser reports.
pub open spec fn numeral_error_msg(e: NumeralError) -> Seq<char> {
    match e {
        NumeralError::Empty => "cannot parse integer from empty string"@,
        NumeralError::InvalidDigit => "invalid digit found in string"@,
        NumeralError::TooLarge => "number too large to fit in target type"@,
    }
}

/// The digits of a numeral: everything after one optional leading `+`.
pub open spec fn digits_part(s: Seq<char>) -> Seq<char> {
    if s.len() > 0 && s[0] == '+' {
        s.drop_first()
    } else {
        s
    }
}

/// A left-to-right scan of `ds` overruns `u64` while still reading digits;
/// when it does, the overflow is seen before any later non-digit.
pub open spec fn overflow_in_digits(ds: Seq<char>) -> bool {
    exists|j: int|
        0 <= j < ds.len() && (forall|t: int| 0 <= t <= j ==> is_digit(ds[t])) && #[trigger] dec_val(
            ds.take(j + 1),
        ) > u64::MAX
}

/// What parsing a base-ten `u64` numeral yields: the value of the digits
/// after one optional `+`, or the failure a left-to-right scan hits first.
pub open spec fn parse_u64_spec(s: Seq<char>) -> Result<u64, NumeralError> {
    let ds = digits_part(s);
    if s.len() == 0 {
        Err(NumeralError::Empty)
    } else if ds.len() == 0 {
        Err(NumeralError::InvalidDigit)
    } else if overflow_in_digits(ds) {
        Err(NumeralError::TooLarge)
    } else if !all_digits(ds) {
        Err(NumeralError::InvalidDigit)
    } else {
        Ok(dec_val(ds) as u64)
    }
}

proof fn lemma_dec_val_nonneg(s: Seq<char>)
    requires
        all_digits(s),
    ensures
        dec_val(s) >= 0,
    decreases s.len(),
{
    if s.len() > 0 {
        assert(all_digits(s.drop_last()));
        lemma_dec_val_nonneg(s.drop_last());
        assert(dec_val(s.drop_last()) * 10 >= 0) by (nonlinear_arith)
            requires
                dec_val(s.drop_last()) >= 0,
        ;
    }
}

proof fn lemma_dec_val_prefix(s: Seq<char>, i: int)
    requires
        all_digits(s),
        0 <= i <= s.len(),
    ensures
        dec_val(s.take(i)) <= dec_val(s),
    decreases s.len() - i,
{
    if i < s.len() {
        lemma_dec_val_prefix(s, i + 1);
        let t = s.take(i + 1);
        assert(t.drop_last() =~= s.take(i));
        assert(all_digits(s.take(i)));
        lemma_dec_val_nonneg(s.take(i));
        assert(dec_val(s.take(i)) * 10 >= dec_val(s.take(i))) by (nonlinear_arith)
            requires
                dec_val(s.take(i)) >= 0,
        ;
        assert(dec_val(t) == dec_val(s.take(i)) * 10 + digit_val(t.last()));
        assert(digit_val(t.last()) >= 0);
    } else {
        assert(s.take(i) =~= s);
    }
}

/// Parses a base-ten `u64` numeral — one optional leading `+`, then digits
/// — and reports exactly how a left-to-right scan fails when it does.
pub fn parse_u64(s: &str) -> (r: Result<u64, NumeralError>)
    ensures
        r == parse_u64_spec(s@),
{
    let ghost ds = digits_part(s@);
    let n = s.unicode_len();
    if n == 0 {
        return Err(NumeralError::Empty);
    }
    let start: usize = if s.get_char(0) == '+' {
        1
    } else {
        0
    };
    proof {
        if start == 1 {
            assert(ds =~= s@.subrange(1, n as int));
        } else {
            assert(ds =~= s@.subrange(0, n as int));
        }
    }
    if n == start {
        return Err(NumeralError::InvalidDigit);
    }
    let mut acc: u64 = 0;
    let mut i: usize = start;
    proof {
        assert(s@.subrange(start as int, start as int) =~= Seq::<char>::empty());
    }
    while i < n
        invariant
            0 < n == s@.len(),
            start <= i <= n,
            start < n,
            ds == digits_part(s@),
            ds == s@.subrange(start as int, n as int),
            forall|j: int| start <= j < i ==> is_digit(s@[j]),
            acc == dec_val(s@.subrange(start as int, i as int)),
        decreases n - i,
    {
        let ghost i_ds = i - start;
        proof {
            assert(ds.take(i_ds) =~= s@.subrange(start as int, i as int));
            assert(all_digits(ds.take(i_ds)));
        }
        let c = s.get_char(i);
        let u = c as u32;
        if u < 48 || u > 57 {
            proof {
                assert(!is_digit(ds[i_ds]));
                assert(!all_digits(ds));
                assert forall|j: int|
                    0 <= j < ds.len() && (forall|t: int| 0 <= t <= j ==> is_digit(ds[t]))
                        implies #[trigger] dec_val(ds.take(j + 1)) <= u64::MAX by {
                    assert(j < i_ds);
                    lemma_dec_val_prefix(ds.take(i_ds), j + 1);
                    assert(ds.take(i_ds).take(j + 1) =~= ds.take(j + 1));
                }
                assert(!overflow_in_digits(ds));
            }
            return Err(NumeralError::InvalidDigit);
        }
        let d = (u - 48) as u64;
        proof {
            assert(ds.take(i_ds + 1).drop_last() =~= ds.take(i_ds));
            assert(ds.take(i_ds + 1).last() == ds[i_ds]);
        }
        if acc > (u64::MAX - d) / 10 {
            proof {
                assert(acc * 10 + d > u64::MAX) by (nonlinear_arith)
                    requires
                        acc > (u64::MAX - d) / 10,
                        0 <= d < 10,
                ;
                assert(dec_val(ds.take(i_ds + 1)) > u64::MAX);
                assert(forall|t: int| 0 <= t <= i_ds ==> is_digit(ds[t]));
                assert(overflow_in_digits(ds));
            }
            return Err(NumeralError::TooLarge);
        }
        proof {
            assert(acc * 10 + d <= u64::MAX) by (nonlinear_arith)
                requires
                    acc <= (u64::MAX - d) / 10,
                    0 <= d < 10,
            ;
        }
        acc = acc * 10 + d;
        i = i + 1;
        proof {
            assert(s@.subrange(start as int, i as int).drop_last() =~= s@.subrange(
                start as int,
                i - 1,
            ));
        }
    }
    proof {
        assert(ds =~= s@.subrange(start as int, n as int));
        assert(all_digits(ds));
        assert forall|j: int|
            0 <= j < ds.len() && (forall|t: int| 0 <= t <= j ==> is_digit(ds[t]))
                implies #[trigger] dec_val(ds.take(j + 1)) <= u64::MAX by {
            lemma_dec_val_prefix(ds, j + 1);
        }
        assert(!overflow_in_digits(ds));
        lemma_dec_val_nonneg(ds);
    }
    Ok(acc)
}

/// The error text of a failed numeral parse.
pub fn numeral_error_string(e: NumeralError) -> (r: String)
    ensures
        r@ == numeral_error_msg(e),
{
    match e {
        NumeralError::Empty => String::from_str("cannot parse integer from empty string"),
        NumeralError::InvalidDigit => String::from_str("invalid digit found in string"),
        NumeralError::TooLarge => String::from_str("number too large to fit in target type"),
    }
}

// --- tokenization ---

pub open spec fn is_space(c: char) -> bool {
    c == ' ' || c == '\t' || c == '\r' || c == '\n'
}

/// The whitespace-separated tokens of `s`, with `cur` the token read so far.
pub open spec fn tokens_acc(s: Seq<char>, cur: Seq<char>) -> Seq<Seq<char>>
    decreases s.len(),
{
    if s.len() == 0 {
        if cur.len() == 0 {
            Seq::empty()
        } else {
            seq![cur]
        }
    } else if is_space(s[0]) {
        if cur.len() == 0 {
            tokens_acc(s.drop_first(), Seq::empty())
        } else {
            seq![cur].add(tokens_acc(s.drop_first(), Seq::empty()))
        }
    } else {
        tokens_acc(s.drop_first(), cur.push(s[0]))
    }
}

/// The whitespace-separated tokens of a line: maximal runs of non-whitespace
/// characters, in order.
pub open spec fn tokens_of(s: Seq<char>) -> Seq<Seq<char>> {
    tokens_acc(s, Seq::empty())
}

pub open spec fn seq_views(q: Seq<String>) -> Seq<Seq<char>> {
    q.map_values(|t: String| t@)
}

/// Splits a line into its whitespace-separated tokens.
pub fn tokenize(line: &str) -> (r: Vec<String>)
    ensures
        seq_views(r@) == tokens_of(line@),
{
    let n = line.unicode_len();
    let mut out: Vec<String> = Vec::new();
    let mut cur = String::new();
    let mut i: usize = 0;
    proof {
        assert(line@.skip(0) =~= line@);
        assert(seq_views(out@) =~= Seq::<Seq<char>>::empty());
        assert(seq_views(out@).add(tokens_acc(line@, cur@)) =~= tokens_acc(line@, cur@));
    }
    while i < n
        invariant
            i <= n,
            n == line@.len(),
            seq_views(out@).add(tokens_acc(line@.skip(i as int), cur@)) == tokens_of(line@),
        decreases n - i,
    {
        let ghost prev_out = out@;
        let ghost prev_cur = cur@;
        let c = line.get_char(i);
        proof {
            assert(line@.skip(i as int).drop_first() =~= line@.skip(i + 1));
            assert(line@.skip(i as int)[0] == line@[i as int]);
        }
        if c == ' ' || c == '\t' || c == '\r' || c == '\n' {
            if cur.as_str().unicode_len() > 0 {
                out.push(cur);
                cur = String::new();
                proof {
                    assert(tokens_acc(line@.skip(i as int), prev_cur) == seq![prev_cur].add(
                        tokens_acc(line@.skip(i + 1), Seq::empty()),
                    ));
                    assert(seq_views(out@) =~= seq_views(prev_out).push(prev_cur));
                    assert(cur@ =~= Seq::<char>::empty());
                    assert(seq_views(prev_out).push(prev_cur).add(
                        tokens_acc(line@.skip(i + 1), Seq::empty()),
                    ) =~= seq_views(prev_out).add(
                        seq![prev_cur].add(tokens_acc(line@.skip(i + 1), Seq::empty())),
                    ));
                }
            } else {
                proof {
                    assert(cur@ =~= Seq::<char>::empty());
                }
            }
        } else {
            push_char(&mut cur, c);
            proof {
                assert(tokens_acc(line@.skip(i as int), prev_cur) == tokens_acc(
                    line@.skip(i + 1),
                    prev_cur.push(line@[i as int]),
                ));
            }
        }
        i = i + 1;
    }
    proof {
        assert(line@.skip(n as int) =~= Seq::<char>::empty());
    }
    let ghost prev_out = out@;
    let ghost prev_cur = cur@;
    if cur.as_str().unicode_len() > 0 {
        out.push(cur);
        proof {
            assert(tokens_acc(Seq::<char>::empty(), prev_cur) == seq![prev_cur]);
            assert(seq_views(out@) =~= seq_views(prev_out).push(prev_cur));
            assert(seq_views(prev_out).push(prev_cur) =~= seq_views(prev_out).add(seq![prev_cur]));
        }
    } else {
        proof {
            assert(cur@ =~= Seq::<char>::empty());
            assert(seq_views(out@).add(tokens_acc(Seq::<char>::empty(), Seq::<char>::empty()))
                =~= seq_views(out@));
        }
    }
    out
}

} // verus!

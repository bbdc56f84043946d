//! Character-level text helpers shared by the parser, the expanders and the
//! built-in commands: whitespace classification, trimming, whitespace
//! splitting, and decimal rendering and parsing.

use vstd::prelude::*;
use vstd::string::StrSliceExecFns;

verus! {

/// The whitespace characters this interpreter recognizes: the six ASCII
/// blanks. Exotic Unicode spacing counts as ordinary text.
pub open spec fn is_space(c: char) -> bool {
    c == ' ' || c == '\t' || c == '\n' || c == '\r' || c == '\u{b}' || c == '\u{c}'
}

/// Every character of `s` at or after `i` is whitespace.
pub open spec fn blank_from(s: Seq<char>, i: int) -> bool {
    forall|j: int| i <= j < s.len() ==> is_space(#[trigger] s[j])
}

/// The string is empty or consists of whitespace only.
pub open spec fn is_blank(s: Seq<char>) -> bool {
    blank_from(s, 0)
}

pub fn space(c: char) -> (r: bool)
    ensures
        r == is_space(c),
{
    c == ' ' || c == '\t' || c == '\n' || c == '\r' || c == '\u{b}' || c == '\u{c}'
}

/// Whether everything from index `from` on is whitespace.
pub fn all_spaces_from(s: &[char], from: usize) -> (r: bool)
    requires
        from <= s@.len(),
    ensures
        r == blank_from(s@, from as int),
{
    let mut i = from;
    while i < s.len()
        invariant
            from <= i <= s@.len(),
            forall|j: int| from <= j < i ==> is_space(#[trigger] s@[j]),
        decreases s@.len() - i,
    {
        if !space(s[i]) {
            return false;
        }
        i = i + 1;
    }
    true
}

/// Index of the first non-space character at or after `i`, or the length.
pub open spec fn first_non_space(s: Seq<char>, i: int) -> int
    decreases s.len() - i,
{
    if i < 0 || i >= s.len() {
        s.len() as int
    } else if is_space(s[i]) {
        first_non_space(s, i + 1)
    } else {
        i
    }
}

/// End (exclusive) of the whitespace-trimmed part of `s` that starts before `j`.
pub open spec fn last_non_space(s: Seq<char>, j: int) -> int
    decreases j,
{
    if j <= 0 || j > s.len() {
        0
    } else if is_space(s[j - 1]) {
        last_non_space(s, j - 1)
    } else {
        j
    }
}

/// `s` with leading and trailing whitespace removed.
pub open spec fn spec_trim(s: Seq<char>) -> Seq<char> {
    let a = first_non_space(s, 0);
    let b = last_non_space(s, s.len() as int);
    if a < b {
        s.subrange(a, b)
    } else {
        Seq::empty()
    }
}

pub proof fn lemma_first_non_space_bounds(s: Seq<char>, i: int)
    requires
        0 <= i <= s.len(),
    ensures
        i <= first_non_space(s, i) <= s.len(),
        forall|j: int| i <= j < first_non_space(s, i) ==> is_space(#[trigger] s[j]),
        first_non_space(s, i) < s.len() ==> !is_space(s[first_non_space(s, i)]),
    decreases s.len() - i,
{
    if i < s.len() && is_space(s[i]) {
        lemma_first_non_space_bounds(s, i + 1);
    }
}

proof fn lemma_last_non_space_bounds(s: Seq<char>, j: int)
    requires
        0 <= j <= s.len(),
    ensures
        0 <= last_non_space(s, j) <= j,
        forall|k: int| last_non_space(s, j) <= k < j ==> is_space(#[trigger] s[k]),
        last_non_space(s, j) > 0 ==> !is_space(s[last_non_space(s, j) - 1]),
    decreases j,
{
    if j > 0 && is_space(s[j - 1]) {
        lemma_last_non_space_bounds(s, j - 1);
    }
}

/// A blank string trims to the empty string, and conversely.
pub proof fn lemma_trim_blank(s: Seq<char>)
    ensures
        is_blank(s) <==> spec_trim(s) == Seq::<char>::empty(),
{
    lemma_first_non_space_bounds(s, 0);
    lemma_last_non_space_bounds(s, s.len() as int);
    if spec_trim(s) == Seq::<char>::empty() {
        let a = first_non_space(s, 0);
        let b = last_non_space(s, s.len() as int);
        if a >= b {
            assert forall|j: int| 0 <= j < s.len() implies is_space(#[trigger] s[j]) by {
                if j >= a {
                    assert(b <= j < s.len());
                }
            }
        } else {
            assert(s.subrange(a, b).len() == b - a);
        }
    } else {
        let a = first_non_space(s, 0);
        if a < s.len() {
            assert(!is_space(s[a]));
        }
    }
}

/// `s` trimmed, as a fresh character vector.
pub fn trim_chars(s: &[char]) -> (r: Vec<char>)
    ensures
        r@ == spec_trim(s@),
{
    proof {
        lemma_first_non_space_bounds(s@, 0);
        lemma_last_non_space_bounds(s@, s@.len() as int);
    }
    let mut a: usize = 0;
    while a < s.len() && space(s[a])
        invariant
            0 <= a <= s@.len(),
            first_non_space(s@, 0) == first_non_space(s@, a as int),
        decreases s@.len() - a,
    {
        a = a + 1;
    }
    assert(first_non_space(s@, 0) == a as int);
    let mut b: usize = s.len();
    while b > a && space(s[b - 1])
        invariant
            a <= b <= s@.len(),
            last_non_space(s@, s@.len() as int) == last_non_space(s@, b as int),
            a as int == first_non_space(s@, 0),
        decreases b,
    {
        b = b - 1;
    }
    assert(b as int == last_non_space(s@, s@.len() as int) || (b == a && last_non_space(
        s@,
        b as int,
    ) <= a)) by {
        lemma_last_non_space_bounds(s@, b as int);
    }
    let mut r: Vec<char> = Vec::new();
    let mut i = a;
    while i < b
        invariant
            a <= i <= b <= s@.len(),
            r@ == s@.subrange(a as int, i as int),
        decreases b - i,
    {
        r.push(s[i]);
        assert(r@ == s@.subrange(a as int, i + 1 as int));
        i = i + 1;
    }
    proof {
        let fa = first_non_space(s@, 0);
        let fb = last_non_space(s@, s@.len() as int);
        if fa < fb {
            assert(a as int == fa);
            assert(b as int == fb) by {
                lemma_last_non_space_bounds(s@, b as int);
            }
            assert(r@ =~= spec_trim(s@));
        } else {
            assert(a == b);
            assert(r@ =~= Seq::<char>::empty());
        }
    }
    r
}

/// The whitespace-separated tokens of `s`, scanning from `i` with the
/// partially accumulated token `cur`.
pub open spec fn tokens_acc(s: Seq<char>, i: int, cur: Seq<char>) -> Seq<Seq<char>>
    decreases s.len() - i,
{
    let flushed: Seq<Seq<char>> = if cur.len() > 0 {
        seq![cur]
    } else {
        Seq::empty()
    };
    if i < 0 || i >= s.len() {
        flushed
    } else if is_space(s[i]) {
        flushed + tokens_acc(s, i + 1, Seq::empty())
    } else {
        tokens_acc(s, i + 1, cur.push(s[i]))
    }
}

/// The whitespace-separated tokens of `s`.
pub open spec fn spec_tokens(s: Seq<char>) -> Seq<Seq<char>> {
    tokens_acc(s, 0, Seq::empty())
}

/// End (exclusive) of the run of non-space characters starting at `i`.
pub open spec fn token_end(s: Seq<char>, i: int) -> int
    decreases s.len() - i,
{
    if i < 0 || i >= s.len() || is_space(s[i]) {
        i
    } else {
        token_end(s, i + 1)
    }
}

pub proof fn lemma_token_end_bounds(s: Seq<char>, i: int)
    requires
        0 <= i <= s.len(),
    ensures
        i <= token_end(s, i) <= s.len(),
        forall|j: int| i <= j < token_end(s, i) ==> !is_space(#[trigger] s[j]),
        token_end(s, i) < s.len() ==> is_space(s[token_end(s, i)]),
    decreases s.len() - i,
{
    if i < s.len() && !is_space(s[i]) {
        lemma_token_end_bounds(s, i + 1);
    }
}

/// With a partial token already accumulated, the first token produced is
/// that text extended by the rest of its run of non-space characters.
proof fn lemma_first_token_acc(s: Seq<char>, i: int, cur: Seq<char>)
    requires
        0 <= i <= s.len(),
        cur.len() > 0,
    ensures
        tokens_acc(s, i, cur).len() > 0,
        tokens_acc(s, i, cur)[0] == cur + s.subrange(i, token_end(s, i)),
    decreases s.len() - i,
{
    if i >= s.len() || is_space(s[i]) {
        assert(s.subrange(i, token_end(s, i)) =~= Seq::<char>::empty());
        assert(cur + Seq::<char>::empty() =~= cur);
    } else {
        lemma_first_token_acc(s, i + 1, cur.push(s[i]));
        lemma_token_end_bounds(s, i + 1);
        assert(cur.push(s[i]) + s.subrange(i + 1, token_end(s, i + 1)) =~= cur + s.subrange(
            i,
            token_end(s, i),
        ));
    }
}

/// The first whitespace-separated token of a non-blank string is the run
/// of non-space characters at its first non-space position.
pub proof fn lemma_first_token(s: Seq<char>, i: int)
    requires
        0 <= i <= s.len(),
        !blank_from(s, i),
    ensures
        tokens_acc(s, i, Seq::empty()).len() > 0,
        tokens_acc(s, i, Seq::empty())[0] == s.subrange(
            first_non_space(s, i),
            token_end(s, first_non_space(s, i)),
        ),
    decreases s.len() - i,
{
    if is_space(s[i]) {
        lemma_first_token(s, i + 1);
    } else {
        lemma_first_token_acc(s, i + 1, seq![s[i]]);
        lemma_token_end_bounds(s, i + 1);
        assert(seq![s[i]] + s.subrange(i + 1, token_end(s, i + 1)) =~= s.subrange(
            i,
            token_end(s, i),
        ));
    }
}


/// A non-blank string yields at least one token.
pub proof fn lemma_tokens_nonblank(s: Seq<char>, i: int, cur: Seq<char>)
    requires
        0 <= i <= s.len(),
    ensures
        !blank_from(s, i) || cur.len() > 0 ==> tokens_acc(s, i, cur).len() > 0,
    decreases s.len() - i,
{
    if i < s.len() {
        lemma_tokens_nonblank(s, i + 1, Seq::empty());
        lemma_tokens_nonblank(s, i + 1, cur.push(s[i]));
    }
}

/// Split `s` into its whitespace-separated tokens.
pub fn split_tokens(s: &[char]) -> (r: Vec<String>)
    ensures
        r.deep_view() == spec_tokens(s@),
{
    let mut r: Vec<String> = Vec::new();
    let mut cur: Vec<char> = Vec::new();
    let mut i: usize = 0;
    let ghost mut done: Seq<Seq<char>> = Seq::empty();
    proof {
        assert(r.deep_view() =~~= done);
    }
    while i < s.len()
        invariant
            0 <= i <= s@.len(),
            spec_tokens(s@) == done + tokens_acc(s@, i as int, cur@),
            r.deep_view() == done,
        decreases s@.len() - i,
    {
        let c = s[i];
        if space(c) {
            if cur.len() > 0 {
                proof {
                    assert(tokens_acc(s@, i as int, cur@) == seq![cur@] + tokens_acc(
                        s@,
                        i as int + 1,
                        Seq::empty(),
                    ));
                    vstd::seq_lib::lemma_concat_associative(
                        done,
                        seq![cur@],
                        tokens_acc(s@, i as int + 1, Seq::empty()),
                    );
                }
                let ghost old_done = done;
                let ghost old_cur = cur@;
                let tok = string_from_chars(cur.as_slice());
                r.push(tok);
                cur = Vec::new();
                proof {
                    done = old_done + seq![old_cur];
                    assert(r.deep_view() =~~= done);
                }
            } else {
                assert(tokens_acc(s@, i as int, cur@) == tokens_acc(
                    s@,
                    i as int + 1,
                    Seq::empty(),
                ));
                assert(cur@ =~= Seq::<char>::empty());
            }
        } else {
            cur.push(c);
        }
        i = i + 1;
    }
    if cur.len() > 0 {
        proof {
            assert(tokens_acc(s@, i as int, cur@) == seq![cur@]);
        }
        let ghost old_done = done;
        let ghost old_cur = cur@;
        let tok = string_from_chars(cur.as_slice());
        r.push(tok);
        proof {
            done = old_done + seq![old_cur];
            assert(r.deep_view() =~~= done);
        }
    } else {
        assert(tokens_acc(s@, i as int, cur@) =~= Seq::<Seq<char>>::empty());
        assert(spec_tokens(s@) =~= done);
    }
    assert(r.deep_view() == spec_tokens(s@));
    r
}

/// The characters of a string slice, as a vector.
pub fn chars_of(s: &str) -> (r: Vec<char>)
    ensures
        r@ == s@,
{
    let n = s.unicode_len();
    let mut r: Vec<char> = Vec::new();
    let mut i: usize = 0;
    while i < n
        invariant
            0 <= i <= n == s@.len(),
            r@ == s@.subrange(0, i as int),
        decreases n - i,
    {
        r.push(s.get_char(i));
        assert(r@ =~= s@.subrange(0, i as int + 1));
        i = i + 1;
    }
    proof {
        assert(r@ =~= s@);
    }
    r
}

/// Relies on `String`'s `FromIterator<char>`: collecting characters builds
/// the string whose characters are exactly those collected.
#[verifier::external_body]
pub fn string_from_chars(v: &[char]) -> (r: String)
    ensures
        r@ == v@,
{
    v.iter().collect()
}

/// Character-for-character string equality.
pub fn str_eq(a: &str, b: &str) -> (r: bool)
    ensures
        r == (a@ == b@),
{
    let va = chars_of(a);
    let vb = chars_of(b);
    if va.len() != vb.len() {
        return false;
    }
    let mut i: usize = 0;
    while i < va.len()
        invariant
            0 <= i <= va@.len(),
            va@.len() == vb@.len(),
            va@ == a@,
            vb@ == b@,
            forall|j: int| 0 <= j < i ==> va@[j] == vb@[j],
        decreases va@.len() - i,
    {
        if va[i] != vb[i] {
            return false;
        }
        i = i + 1;
    }
    proof {
        assert(a@ =~= b@);
    }
    true
}

/// Whether `sub` occurs in `s` starting at position `i`.
pub open spec fn occurs_at(s: Seq<char>, sub: Seq<char>, i: int) -> bool {
    0 <= i && i + sub.len() <= s.len() && s.subrange(i, i + sub.len()) == sub
}

/// Whether `c` occurs anywhere in `s`.
pub open spec fn contains_char(s: Seq<char>, c: char) -> bool {
    exists|i: int| 0 <= i < s.len() && s[i] == c
}

/// Whether the character `c` occurs in `s`.
pub fn has_char(s: &[char], c: char) -> (r: bool)
    ensures
        r == contains_char(s@, c),
{
    let mut i: usize = 0;
    while i < s.len()
        invariant
            0 <= i <= s@.len(),
            forall|j: int| 0 <= j < i ==> s@[j] != c,
        decreases s@.len() - i,
    {
        if s[i] == c {
            return true;
        }
        i = i + 1;
    }
    false
}

/// The decimal digit character for `d`.
pub open spec fn dec_digit(d: int) -> char {
    if d == 0 {
        '0'
    } else if d == 1 {
        '1'
    } else if d == 2 {
        '2'
    } else if d == 3 {
        '3'
    } else if d == 4 {
        '4'
    } else if d == 5 {
        '5'
    } else if d == 6 {
        '6'
    } else if d == 7 {
        '7'
    } else if d == 8 {
        '8'
    } else {
        '9'
    }
}

/// The decimal rendering of `n`, most significant digit first.
pub open spec fn spec_dec(n: int) -> Seq<char>
    decreases n,
{
    if n < 10 {
        seq![dec_digit(n)]
    } else {
        spec_dec(n / 10) + seq![dec_digit(n % 10)]
    }
}

fn digit_char(d: u64) -> (c: char)
    requires
        d < 10,
    ensures
        c == dec_digit(d as int),
{
    if d == 0 {
        '0'
    } else if d == 1 {
        '1'
    } else if d == 2 {
        '2'
    } else if d == 3 {
        '3'
    } else if d == 4 {
        '4'
    } else if d == 5 {
        '5'
    } else if d == 6 {
        '6'
    } else if d == 7 {
        '7'
    } else if d == 8 {
        '8'
    } else {
        '9'
    }
}

/// The decimal digits of `n`.
pub fn u64_dec_chars(n: u64) -> (v: Vec<char>)
    ensures
        v@ == spec_dec(n as int),
    decreases n,
{
    if n < 10 {
        let mut v: Vec<char> = Vec::new();
        v.push(digit_char(n));
        assert(v@ =~= spec_dec(n as int));
        v
    } else {
        let mut v = u64_dec_chars(n / 10);
        v.push(digit_char(n % 10));
        assert(v@ =~= spec_dec(n as int));
        v
    }
}

/// The decimal rendering of `n` as a string.
pub fn u64_to_string(n: u64) -> (r: String)
    ensures
        r@ == spec_dec(n as int),
{
    let v = u64_dec_chars(n);
    string_from_chars(v.as_slice())
}

/// Whether `c` is a decimal digit.
pub open spec fn is_digit(c: char) -> bool {
    '0' <= c && c <= '9'
}

/// The numeric value of the digit `c`.
pub open spec fn digit_val(c: char) -> int {
    c as int - '0' as int
}

/// The value of the digit string `s`, most significant digit first.
pub open spec fn dec_value(s: Seq<char>) -> int
    decreases s.len(),
{
    if s.len() == 0 {
        0
    } else {
        dec_value(s.drop_last()) * 10 + digit_val(s.last())
    }
}

pub open spec fn all_digits(s: Seq<char>) -> bool {
    forall|i: int| 0 <= i < s.len() ==> is_digit(#[trigger] s[i])
}

fn exec_digit_val(c: char) -> (d: u64)
    requires
        is_digit(c),
    ensures
        d == digit_val(c),
        d < 10,
{
    (c as u32 as u64) - ('0' as u32 as u64)
}

/// Parse an unsigned decimal number; `None` on an empty string, a non-digit,
/// or a value that does not fit.
pub fn parse_u64(s: &[char]) -> (r: Option<u64>)
    ensures
        match r {
            Some(n) => s@.len() > 0 && all_digits(s@) && n == dec_value(s@) && dec_value(s@)
                <= u64::MAX,
            None => s@.len() == 0 || !all_digits(s@) || dec_value(s@) > u64::MAX,
        },
{
    if s.len() == 0 {
        return None;
    }
    let mut acc: u64 = 0;
    let mut i: usize = 0;
    while i < s.len()
        invariant
            0 <= i <= s@.len(),
            all_digits(s@.subrange(0, i as int)),
            acc == dec_value(s@.subrange(0, i as int)),
        decreases s@.len() - i,
    {
        let c = s[i];
        if !('0' <= c && c <= '9') {
            assert(!all_digits(s@));
            return None;
        }
        let d = exec_digit_val(c);
        let shifted = match acc.checked_mul(10) {
            Some(v) => v,
            None => {
                proof {
                    lemma_dec_value_grows(s@, i as int);
                }
                return None;
            },
        };
        let next = match shifted.checked_add(d) {
            Some(v) => v,
            None => {
                proof {
                    lemma_dec_value_grows(s@, i as int);
                }
                return None;
            },
        };
        acc = next;
        assert(s@.subrange(0, i + 1 as int).drop_last() =~= s@.subrange(0, i as int));
        i = i + 1;
    }
    assert(s@.subrange(0, s@.len() as int) =~= s@);
    Some(acc)
}

/// If the value of a digit prefix already exceeds what extending by one digit
/// keeps below, the value of the whole string exceeds it as well.
proof fn lemma_dec_value_grows(s: Seq<char>, i: int)
    requires
        0 <= i < s.len(),
        is_digit(s[i]),
        dec_value(s.subrange(0, i)) * 10 + digit_val(s[i]) > u64::MAX,
    ensures
        dec_value(s) > u64::MAX || !all_digits(s),
{
    if all_digits(s) {
        lemma_dec_value_monotone(s, i + 1);
        assert(s.subrange(0, i + 1).drop_last() =~= s.subrange(0, i));
        assert(dec_value(s.subrange(0, i + 1)) == dec_value(s.subrange(0, i)) * 10 + digit_val(
            s[i],
        ));
    }
}

/// For an all-digit string, the value of a prefix never exceeds the value of
/// the whole.
proof fn lemma_dec_value_monotone(s: Seq<char>, i: int)
    requires
        0 <= i <= s.len(),
        all_digits(s),
    ensures
        dec_value(s) >= dec_value(s.subrange(0, i)),
        dec_value(s.subrange(0, i)) >= 0,
    decreases s.len() - i,
{
    lemma_dec_value_nonneg(s.subrange(0, i));
    if i < s.len() {
        lemma_dec_value_monotone(s, i + 1);
        assert(s.subrange(0, i + 1).drop_last() =~= s.subrange(0, i));
        assert(dec_value(s.subrange(0, i + 1)) == dec_value(s.subrange(0, i)) * 10 + digit_val(
            s[i + 1 - 1],
        ));
        assert(dec_value(s.subrange(0, i)) * 10 >= dec_value(s.subrange(0, i))) by (nonlinear_arith)
            requires
                dec_value(s.subrange(0, i)) >= 0,
        ;
    } else {
        assert(s.subrange(0, i) =~= s);
    }
}

proof fn lemma_dec_value_nonneg(s: Seq<char>)
    requires
        all_digits(s),
    ensures
        dec_value(s) >= 0,
    decreases s.len(),
{
    if s.len() > 0 {
        assert(all_digits(s.drop_last())) by {
            assert(forall|i: int|
                0 <= i < s.len() - 1 ==> s.drop_last()[i] == #[trigger] s[i]);
        }
        lemma_dec_value_nonneg(s.drop_last());
        assert(dec_value(s.drop_last()) * 10 >= 0) by (nonlinear_arith)
            requires
                dec_value(s.drop_last()) >= 0,
        ;
    }
}


/// Whether `sub` occurs in `s` at position `i`.
pub fn matches_at(s: &[char], sub: &[char], i: usize) -> (r: bool)
    requires
        i <= s@.len(),
    ensures
        r == occurs_at(s@, sub@, i as int),
{
    let slen = s.len();
    if sub.len() > slen - i {
        assert(!occurs_at(s@, sub@, i as int));
        return false;
    }
    assert(i + sub@.len() <= slen);
    let mut k: usize = 0;
    while k < sub.len()
        invariant
            0 <= k <= sub@.len(),
            i + sub@.len() <= slen == s@.len(),
            forall|j: int| 0 <= j < k ==> s@[i + j] == sub@[j],
        decreases sub@.len() - k,
    {
        assert(i + k < slen);
        if s[i + k] != sub[k] {
            assert(s@.subrange(i as int, i + sub@.len()) != sub@) by {
                assert(s@.subrange(i as int, i + sub@.len())[k as int] == s@[i + k]);
            }
            return false;
        }
        k = k + 1;
    }
    assert(s@.subrange(i as int, i + sub@.len()) =~= sub@);
    true
}

/// `s` with every non-overlapping occurrence of `pat` replaced by `rep`,
/// scanning left to right.
pub open spec fn replace_all(s: Seq<char>, pat: Seq<char>, rep: Seq<char>) -> Seq<char>
    decreases s.len(),
{
    if s.len() == 0 {
        Seq::empty()
    } else if pat.len() > 0 && occurs_at(s, pat, 0) {
        rep + replace_all(s.skip(pat.len() as int), pat, rep)
    } else {
        seq![s[0]] + replace_all(s.drop_first(), pat, rep)
    }
}

/// Replace every occurrence of `pat` in `s` by `rep`.
pub fn replace_all_chars(s: &[char], pat: &[char], rep: &[char]) -> (r: Vec<char>)
    ensures
        r@ == replace_all(s@, pat@, rep@),
{
    let mut out: Vec<char> = Vec::new();
    let mut i: usize = 0;
    proof {
        assert(s@.skip(0) =~= s@);
    }
    while i < s.len()
        invariant
            0 <= i <= s@.len(),
            replace_all(s@, pat@, rep@) == out@ + replace_all(s@.skip(i as int), pat@, rep@),
        decreases s@.len() - i,
    {
        let ghost suffix = s@.skip(i as int);
        proof {
            assert(suffix.len() == s@.len() - i);
            assert(suffix[0] == s@[i as int]);
        }
        if pat.len() > 0 && matches_at(s, pat, i) {
            proof {
                assert(suffix.subrange(0, pat@.len() as int) =~= s@.subrange(
                    i as int,
                    i + pat@.len(),
                ));
                assert(occurs_at(suffix, pat@, 0));
                assert(suffix.skip(pat@.len() as int) =~= s@.skip(i + pat@.len()));
            }
            let mut rchars: Vec<char> = Vec::new();
            let mut k: usize = 0;
            while k < rep.len()
                invariant
                    0 <= k <= rep@.len(),
                    rchars@ == rep@.subrange(0, k as int),
                decreases rep@.len() - k,
            {
                rchars.push(rep[k]);
                assert(rchars@ =~= rep@.subrange(0, k as int + 1));
                k = k + 1;
            }
            assert(rchars@ =~= rep@);
            let ghost prev = out@;
            out.append(&mut rchars);
            assert(out@ == prev + rep@);
            i = i + pat.len();
        } else {
            proof {
                if pat@.len() > 0 && occurs_at(suffix, pat@, 0) {
                    assert(suffix.subrange(0, pat@.len() as int) =~= s@.subrange(
                        i as int,
                        i + pat@.len(),
                    ));
                    assert(occurs_at(s@, pat@, i as int));
                }
                assert(suffix.drop_first() =~= s@.skip(i as int + 1));
            }
            out.push(s[i]);
            i = i + 1;
        }
    }
    proof {
        assert(s@.skip(i as int) =~= Seq::<char>::empty());
        assert(out@ =~= replace_all(s@, pat@, rep@));
    }
    out
}


/// Whether `sub` occurs anywhere in `s`.
pub open spec fn occurs_somewhere(s: Seq<char>, sub: Seq<char>) -> bool {
    exists|i: int| occurs_at(s, sub, i)
}

/// Whether `sub` occurs anywhere in `s`.
pub fn occurs_in(s: &[char], sub: &[char]) -> (r: bool)
    ensures
        r == occurs_somewhere(s@, sub@),
{
    let slen = s.len();
    if sub.len() > slen {
        assert forall|i: int| !occurs_at(s@, sub@, i) by {}
        return false;
    }
    if sub.len() == 0 {
        assert(s@.subrange(0, 0) =~= sub@);
        assert(occurs_at(s@, sub@, 0));
        return true;
    }
    let mut i: usize = 0;
    while i <= slen - sub.len()
        invariant
            0 <= i <= s@.len() - sub@.len() + 1,
            1 <= sub@.len() <= slen == s@.len(),
            forall|j: int| 0 <= j < i ==> !occurs_at(s@, sub@, j),
        decreases slen - sub@.len() - i + 1,
    {
        if matches_at(s, sub, i) {
            return true;
        }
        i = i + 1;
    }
    assert forall|j: int| !occurs_at(s@, sub@, j) by {
        if 0 <= j && j + sub@.len() <= s@.len() {
            assert(j < i);
        }
    }
    false
}

/// Replacing a pattern that does not occur leaves the string unchanged.
pub proof fn lemma_replace_absent(s: Seq<char>, pat: Seq<char>, rep: Seq<char>)
    requires
        !occurs_somewhere(s, pat),
    ensures
        replace_all(s, pat, rep) == s,
    decreases s.len(),
{
    if s.len() == 0 {
        assert(replace_all(s, pat, rep) =~= s);
    } else {
        assert(!occurs_at(s, pat, 0));
        assert forall|i: int| !occurs_at(s.drop_first(), pat, i) by {
            if 0 <= i && i + pat.len() <= s.drop_first().len() {
                assert(s.drop_first().subrange(i, i + pat.len()) =~= s.subrange(
                    i + 1,
                    i + 1 + pat.len(),
                ));
                if s.drop_first().subrange(i, i + pat.len()) == pat {
                    assert(occurs_at(s, pat, i + 1));
                }
            }
        }
        lemma_replace_absent(s.drop_first(), pat, rep);
        assert(replace_all(s, pat, rep) =~= s);
    }
}


/// The pieces of `s` between occurrences of `sep`, empty pieces kept,
/// scanning from `i` with the partially accumulated piece `cur`. There is
/// always at least one piece.
pub open spec fn split_char_acc(s: Seq<char>, i: int, cur: Seq<char>, sep: char) -> Seq<Seq<char>>
    decreases s.len() - i,
{
    if i < 0 || i >= s.len() {
        seq![cur]
    } else if s[i] == sep {
        seq![cur] + split_char_acc(s, i + 1, Seq::empty(), sep)
    } else {
        split_char_acc(s, i + 1, cur.push(s[i]), sep)
    }
}

/// The pieces of `s` between occurrences of `sep`, empty pieces kept.
pub open spec fn spec_split_char(s: Seq<char>, sep: char) -> Seq<Seq<char>> {
    split_char_acc(s, 0, Seq::empty(), sep)
}

/// Split `s` at every occurrence of `sep`, keeping empty pieces.
pub fn split_on_char(s: &[char], sep: char) -> (r: Vec<String>)
    ensures
        r.deep_view() == spec_split_char(s@, sep),
{
    let mut r: Vec<String> = Vec::new();
    let mut cur: Vec<char> = Vec::new();
    let mut i: usize = 0;
    let ghost mut done: Seq<Seq<char>> = Seq::empty();
    proof {
        assert(r.deep_view() =~~= done);
    }
    while i < s.len()
        invariant
            0 <= i <= s@.len(),
            spec_split_char(s@, sep) == done + split_char_acc(s@, i as int, cur@, sep),
            r.deep_view() == done,
        decreases s@.len() - i,
    {
        let c = s[i];
        if c == sep {
            proof {
                assert(split_char_acc(s@, i as int, cur@, sep) == seq![cur@] + split_char_acc(
                    s@,
                    i as int + 1,
                    Seq::empty(),
                    sep,
                ));
                vstd::seq_lib::lemma_concat_associative(
                    done,
                    seq![cur@],
                    split_char_acc(s@, i as int + 1, Seq::empty(), sep),
                );
            }
            let ghost old_done = done;
            let ghost old_cur = cur@;
            let piece = string_from_chars(cur.as_slice());
            r.push(piece);
            cur = Vec::new();
            proof {
                done = old_done + seq![old_cur];
                assert(r.deep_view() =~~= done);
            }
        } else {
            cur.push(c);
        }
        i = i + 1;
    }
    proof {
        assert(split_char_acc(s@, i as int, cur@, sep) == seq![cur@]);
    }
    let ghost old_done = done;
    let ghost old_cur = cur@;
    let piece = string_from_chars(cur.as_slice());
    r.push(piece);
    proof {
        done = old_done + seq![old_cur];
        assert(r.deep_view() =~~= done);
        assert(r.deep_view() == spec_split_char(s@, sep));
    }
    r
}

/// The decimal rendering of a signed value.
pub open spec fn spec_i32_dec(v: int) -> Seq<char> {
    if v < 0 {
        seq!['-'] + spec_dec(-v)
    } else {
        spec_dec(v)
    }
}

/// The decimal rendering of `n` as a string, with a leading `-` when
/// negative.
pub fn i32_to_string(n: i32) -> (r: String)
    ensures
        r@ == spec_i32_dec(n as int),
{
    if n < 0 {
        let magnitude: u64 = ((-(n as i64)) as u64);
        let digits = u64_dec_chars(magnitude);
        let mut v: Vec<char> = Vec::new();
        v.push('-');
        let mut d = digits;
        v.append(&mut d);
        assert(v@ =~= seq!['-'] + spec_dec(-(n as int)));
        string_from_chars(v.as_slice())
    } else {
        u64_to_string(n as u64)
    }
}

/// The signed value denoted by `s`: an optional `-` followed by digits,
/// within the 32-bit range.
pub open spec fn spec_parse_i32(s: Seq<char>) -> Option<int> {
    if s.len() > 0 && s[0] == '-' {
        let m = s.drop_first();
        if m.len() > 0 && all_digits(m) && dec_value(m) <= 0x8000_0000 {
            Some(-dec_value(m))
        } else {
            None
        }
    } else if s.len() > 0 && all_digits(s) && dec_value(s) <= 0x7fff_ffff {
        Some(dec_value(s))
    } else {
        None
    }
}

/// Parse a signed decimal number within the 32-bit range.
pub fn parse_i32(s: &[char]) -> (r: Option<i32>)
    ensures
        match r {
            Some(n) => spec_parse_i32(s@) == Some(n as int),
            None => spec_parse_i32(s@) is None,
        },
{
    if s.len() == 0 {
        return None;
    }
    if s[0] == '-' {
        let mut m: Vec<char> = Vec::new();
        let mut i: usize = 1;
        while i < s.len()
            invariant
                1 <= i <= s@.len(),
                m@ == s@.subrange(1, i as int),
            decreases s@.len() - i,
        {
            m.push(s[i]);
            assert(m@ =~= s@.subrange(1, i as int + 1));
            i = i + 1;
        }
        assert(m@ =~= s@.drop_first());
        match parse_u64(m.as_slice()) {
            Some(v) => {
                if v <= 0x8000_0000 {
                    Some((-(v as i64)) as i32)
                } else {
                    None
                }
            },
            None => None,
        }
    } else {
        match parse_u64(s) {
            Some(v) => {
                if v <= 0x7fff_ffff {
                    Some(v as i32)
                } else {
                    None
                }
            },
            None => None,
        }
    }
}


/// Index of the first occurrence of `c` at or after `i`, or the length.
pub open spec fn find_char_from(s: Seq<char>, c: char, i: int) -> int
    decreases s.len() - i,
{
    if i < 0 || i >= s.len() {
        s.len() as int
    } else if s[i] == c {
        i
    } else {
        find_char_from(s, c, i + 1)
    }
}

/// The index of the first occurrence of `c` in `s`, if any.
pub fn find_char(s: &[char], c: char) -> (r: Option<usize>)
    ensures
        match r {
            Some(i) => i == find_char_from(s@, c, 0) && i < s@.len() && s@[i as int] == c,
            None => find_char_from(s@, c, 0) == s@.len(),
        },
{
    let mut i: usize = 0;
    while i < s.len()
        invariant
            0 <= i <= s@.len(),
            find_char_from(s@, c, 0) == find_char_from(s@, c, i as int),
        decreases s@.len() - i,
    {
        if s[i] == c {
            return Some(i);
        }
        i = i + 1;
    }
    None
}

/// The decimal rendering of `n` padded to two digits.
pub open spec fn spec_two_digits(n: int) -> Seq<char> {
    if n < 10 {
        seq!['0'] + spec_dec(n)
    } else {
        spec_dec(n)
    }
}

/// Render `n` with at least two digits.
pub fn two_digits(n: u64) -> (r: Vec<char>)
    ensures
        r@ == spec_two_digits(n as int),
{
    if n < 10 {
        let mut v: Vec<char> = Vec::new();
        v.push('0');
        let mut d = u64_dec_chars(n);
        v.append(&mut d);
        assert(v@ =~= seq!['0'] + spec_dec(n as int));
        v
    } else {
        u64_dec_chars(n)
    }
}


/// `s` with every leading repetition of `p` removed.
pub open spec fn strip_prefix_all(s: Seq<char>, p: Seq<char>) -> Seq<char>
    decreases s.len(),
{
    if p.len() == 0 {
        s
    } else if occurs_at(s, p, 0) {
        strip_prefix_all(s.skip(p.len() as int), p)
    } else {
        s
    }
}

/// `s` with every trailing repetition of `p` removed.
pub open spec fn strip_suffix_all(s: Seq<char>, p: Seq<char>) -> Seq<char>
    decreases s.len(),
{
    if p.len() == 0 {
        s
    } else if occurs_at(s, p, s.len() - p.len()) {
        strip_suffix_all(s.take(s.len() - p.len()), p)
    } else {
        s
    }
}

/// Index of the first character at or after `i` that is not `c`.
pub open spec fn first_not_char(s: Seq<char>, c: char, i: int) -> int
    decreases s.len() - i,
{
    if i < 0 || i >= s.len() {
        s.len() as int
    } else if s[i] == c {
        first_not_char(s, c, i + 1)
    } else {
        i
    }
}

/// End (exclusive) of `s` with trailing `c` characters removed.
pub open spec fn last_not_char(s: Seq<char>, c: char, j: int) -> int
    decreases j,
{
    if j <= 0 || j > s.len() {
        0
    } else if s[j - 1] == c {
        last_not_char(s, c, j - 1)
    } else {
        j
    }
}

/// `s` with every leading and trailing `c` removed.
pub open spec fn trim_char_all(s: Seq<char>, c: char) -> Seq<char> {
    let a = first_not_char(s, c, 0);
    let b = last_not_char(s, c, s.len() as int);
    if a < b {
        s.subrange(a, b)
    } else {
        Seq::empty()
    }
}

/// Remove every leading repetition of `p` from `s`.
pub fn strip_prefix_all_chars(s: &[char], p: &[char]) -> (r: Vec<char>)
    ensures
        r@ == strip_prefix_all(s@, p@),
    decreases s@.len(),
{
    if p.len() == 0 || !matches_at(s, p, 0) {
        let mut out: Vec<char> = Vec::new();
        let mut i: usize = 0;
        while i < s.len()
            invariant
                0 <= i <= s@.len(),
                out@ == s@.subrange(0, i as int),
            decreases s@.len() - i,
        {
            out.push(s[i]);
            assert(out@ =~= s@.subrange(0, i as int + 1));
            i = i + 1;
        }
        proof {
            assert(out@ =~= s@);
        }
        out
    } else {
        let mut rest: Vec<char> = Vec::new();
        let mut i: usize = p.len();
        while i < s.len()
            invariant
                p@.len() <= i <= s@.len(),
                rest@ == s@.subrange(p@.len() as int, i as int),
            decreases s@.len() - i,
        {
            rest.push(s[i]);
            assert(rest@ =~= s@.subrange(p@.len() as int, i as int + 1));
            i = i + 1;
        }
        proof {
            assert(rest@ =~= s@.skip(p@.len() as int));
        }
        strip_prefix_all_chars(rest.as_slice(), p)
    }
}

/// Remove every trailing repetition of `p` from `s`.
pub fn strip_suffix_all_chars(s: &[char], p: &[char]) -> (r: Vec<char>)
    ensures
        r@ == strip_suffix_all(s@, p@),
    decreases s@.len(),
{
    let matches_end = p.len() > 0 && s.len() >= p.len() && matches_at(s, p, s.len() - p.len());
    if !matches_end {
        let mut out: Vec<char> = Vec::new();
        let mut i: usize = 0;
        while i < s.len()
            invariant
                0 <= i <= s@.len(),
                out@ == s@.subrange(0, i as int),
            decreases s@.len() - i,
        {
            out.push(s[i]);
            assert(out@ =~= s@.subrange(0, i as int + 1));
            i = i + 1;
        }
        proof {
            assert(out@ =~= s@);
            if p@.len() > 0 && s@.len() < p@.len() {
                assert(!occurs_at(s@, p@, s@.len() - p@.len()));
            }
        }
        out
    } else {
        let mut head: Vec<char> = Vec::new();
        let mut i: usize = 0;
        let end = s.len() - p.len();
        while i < end
            invariant
                0 <= i <= end <= s@.len(),
                head@ == s@.subrange(0, i as int),
            decreases end - i,
        {
            head.push(s[i]);
            assert(head@ =~= s@.subrange(0, i as int + 1));
            i = i + 1;
        }
        proof {
            assert(head@ =~= s@.take(s@.len() - p@.len()));
        }
        strip_suffix_all_chars(head.as_slice(), p)
    }
}

/// Remove every leading and trailing `c` from `s`.
pub fn trim_char_all_chars(s: &[char], c: char) -> (r: Vec<char>)
    ensures
        r@ == trim_char_all(s@, c),
{
    proof {
        lemma_first_not_char_bounds(s@, c, 0);
        lemma_last_not_char_bounds(s@, c, s@.len() as int);
    }
    let mut a: usize = 0;
    while a < s.len() && s[a] == c
        invariant
            0 <= a <= s@.len(),
            first_not_char(s@, c, 0) == first_not_char(s@, c, a as int),
        decreases s@.len() - a,
    {
        a = a + 1;
    }
    assert(first_not_char(s@, c, 0) == a as int);
    let mut b: usize = s.len();
    while b > a && s[b - 1] == c
        invariant
            a <= b <= s@.len(),
            last_not_char(s@, c, s@.len() as int) == last_not_char(s@, c, b as int),
            a as int == first_not_char(s@, c, 0),
        decreases b,
    {
        b = b - 1;
    }
    assert(b as int == last_not_char(s@, c, s@.len() as int) || (b == a && last_not_char(
        s@,
        c,
        b as int,
    ) <= a)) by {
        lemma_last_not_char_bounds(s@, c, b as int);
    }
    let mut r: Vec<char> = Vec::new();
    let mut i = a;
    while i < b
        invariant
            a <= i <= b <= s@.len(),
            r@ == s@.subrange(a as int, i as int),
        decreases b - i,
    {
        r.push(s[i]);
        assert(r@ == s@.subrange(a as int, i + 1 as int));
        i = i + 1;
    }
    proof {
        let fa = first_not_char(s@, c, 0);
        let fb = last_not_char(s@, c, s@.len() as int);
        if fa < fb {
            assert(a as int == fa);
            assert(b as int == fb) by {
                lemma_last_not_char_bounds(s@, c, b as int);
            }
            assert(r@ =~= trim_char_all(s@, c));
        } else {
            assert(a == b);
            assert(r@ =~= Seq::<char>::empty());
        }
    }
    r
}

proof fn lemma_first_not_char_bounds(s: Seq<char>, c: char, i: int)
    requires
        0 <= i <= s.len(),
    ensures
        i <= first_not_char(s, c, i) <= s.len(),
    decreases s.len() - i,
{
    if i < s.len() && s[i] == c {
        lemma_first_not_char_bounds(s, c, i + 1);
    }
}

proof fn lemma_last_not_char_bounds(s: Seq<char>, c: char, j: int)
    requires
        0 <= j <= s.len(),
    ensures
        0 <= last_not_char(s, c, j) <= j,
    decreases j,
{
    if j > 0 && s[j - 1] == c {
        lemma_last_not_char_bounds(s, c, j - 1);
    }
}


/// Strict lexicographic order on character sequences by scalar value.
pub open spec fn lex_lt(a: Seq<char>, b: Seq<char>) -> bool
    decreases a.len(),
{
    if b.len() == 0 {
        false
    } else if a.len() == 0 {
        true
    } else if a[0] != b[0] {
        a[0] < b[0]
    } else {
        lex_lt(a.drop_first(), b.drop_first())
    }
}

/// Lexicographic order, equality allowed.
pub open spec fn lex_le(a: Seq<char>, b: Seq<char>) -> bool {
    a == b || lex_lt(a, b)
}

/// Two different names are lexicographically ordered one way or the other.
pub proof fn lemma_lex_lt_total(a: Seq<char>, b: Seq<char>)
    ensures
        a == b || lex_lt(a, b) || lex_lt(b, a),
    decreases a.len(),
{
    if a.len() == 0 && b.len() == 0 {
        assert(a =~= b);
    } else if a.len() > 0 && b.len() > 0 && a[0] == b[0] {
        lemma_lex_lt_total(a.drop_first(), b.drop_first());
        if a.drop_first() == b.drop_first() {
            assert forall|j: int| 0 <= j < a.len() implies a[j] == b[j] by {
                if j > 0 {
                    assert(a[j] == a.drop_first()[j - 1]);
                    assert(b[j] == b.drop_first()[j - 1]);
                }
            }
            assert(a =~= b);
        }
    }
}

/// Lexicographic order is transitive.
pub proof fn lemma_lex_lt_trans(a: Seq<char>, b: Seq<char>, c: Seq<char>)
    requires
        lex_lt(a, b),
        lex_lt(b, c),
    ensures
        lex_lt(a, c),
    decreases a.len(),
{
    if a.len() > 0 && b.len() > 0 && c.len() > 0 && a[0] == b[0] && b[0] == c[0] {
        lemma_lex_lt_trans(a.drop_first(), b.drop_first(), c.drop_first());
    }
}

/// Non-strict lexicographic order is transitive.
pub proof fn lemma_lex_le_trans(a: Seq<char>, b: Seq<char>, c: Seq<char>)
    requires
        lex_le(a, b),
        lex_le(b, c),
    ensures
        lex_le(a, c),
{
    if a != b && b != c {
        lemma_lex_lt_trans(a, b, c);
    }
}

/// Whether `a` is lexicographically smaller than `b` by character value.
pub fn lex_less(a: &String, b: &String) -> (r: bool)
    ensures
        r == lex_lt(a@, b@),
{
    let ac = chars_of(a.as_str());
    let bc = chars_of(b.as_str());
    let mut i: usize = 0;
    proof {
        assert(ac@.skip(0) =~= ac@);
        assert(bc@.skip(0) =~= bc@);
    }
    loop
        invariant
            0 <= i <= ac@.len(),
            0 <= i <= bc@.len(),
            ac@ == a@,
            bc@ == b@,
            lex_lt(a@, b@) == lex_lt(ac@.skip(i as int), bc@.skip(i as int)),
        decreases ac@.len() - i,
    {
        let ghost sa = ac@.skip(i as int);
        let ghost sb = bc@.skip(i as int);
        if i >= ac.len() {
            proof {
                assert(sa.len() == 0);
            }
            return i < bc.len();
        }
        if i >= bc.len() {
            proof {
                assert(sb.len() == 0);
            }
            return false;
        }
        proof {
            assert(sa[0] == ac@[i as int]);
            assert(sb[0] == bc@[i as int]);
        }
        if ac[i] != bc[i] {
            return ac[i] < bc[i];
        }
        proof {
            assert(sa.drop_first() =~= ac@.skip(i as int + 1));
            assert(sb.drop_first() =~= bc@.skip(i as int + 1));
        }
        i = i + 1;
    }
}

} // verus!

//! Identity envelope codec.
//!
//! The envelope travels between services as a single header whose value is
//! a compact JSON object with a fixed field order:
//! `{"id":<integer>,"accountId":"<string>","role":"<role>"}`.
//! The serializer emits exactly this canonical form; the parser accepts
//! exactly the canonical form and rejects everything else, so decoding
//! fails closed and is the exact inverse of encoding.

use vstd::prelude::*;

use crate::identity::Role;
use crate::text::lit_at;
use crate::text::match_lit;
use crate::text::push_char;

verus! {

// ---------------------------------------------------------------------
// Decimal numerals
// ---------------------------------------------------------------------

/// The character for one decimal digit.
pub open spec fn digit_char(d: int) -> char {
    if d == 0 {
        '0'
    } else if d == 1 {
        '1'
    } else if d == 2 {
        '2'
    } else if d == 3 {
        '3'
    } else if d == 4 {
        '4'
    } else if d == 5 {
        '5'
    } else if d == 6 {
        '6'
    } else if d == 7 {
        '7'
    } else if d == 8 {
        '8'
    } else {
        '9'
    }
}

pub open spec fn is_digit(c: char) -> bool {
    '0' <= c && c <= '9'
}

/// Numeric value of a digit character.
pub open spec fn digit_val(c: char) -> int {
    c as int - '0' as int
}

/// Canonical decimal numeral of a natural number (no leading zeros).
pub open spec fn dec_nat(n: nat) -> Seq<char>
    decreases n,
{
    if n < 10 {
        seq![digit_char(n as int)]
    } else {
        dec_nat(n / 10).push(digit_char((n % 10) as int))
    }
}

/// Canonical decimal numeral of an integer: a minus sign for negative
/// values, no sign otherwise.
pub open spec fn dec_int(i: int) -> Seq<char> {
    if i < 0 {
        seq!['-'] + dec_nat((-i) as nat)
    } else {
        dec_nat(i as nat)
    }
}

/// Value of a run of digit characters, most significant first.
pub open spec fn digits_val(s: Seq<char>) -> int
    decreases s.len(),
{
    if s.len() == 0 {
        0
    } else {
        digits_val(s.drop_last()) * 10 + digit_val(s.last())
    }
}

pub open spec fn all_digits(s: Seq<char>) -> bool {
    forall|j: int| 0 <= j < s.len() ==> is_digit(s[j])
}

/// A canonical numeral: at least one digit, and no leading zero unless the
/// numeral is exactly "0".
pub open spec fn canonical_digits(s: Seq<char>) -> bool {
    &&& s.len() >= 1
    &&& all_digits(s)
    &&& (s.len() == 1 || s[0] != '0')
}

/// The canonical numeral of `n` evaluates back to `n`, consists of digits
/// only, and carries no leading zero.
pub proof fn lemma_dec_nat_canonical(n: nat)
    ensures
        canonical_digits(dec_nat(n)),
        digits_val(dec_nat(n)) == n,
        n < 10 ==> dec_nat(n).len() == 1,
        n >= 10 ==> dec_nat(n).len() >= 2,
    decreases n,
{
    if n < 10 {
        assert(dec_nat(n) =~= seq![digit_char(n as int)]);
        assert(dec_nat(n).drop_last() =~= Seq::<char>::empty());
        assert(digits_val(Seq::<char>::empty()) == 0);
        assert(dec_nat(n).last() == digit_char(n as int));
        assert(digit_val(digit_char(n as int)) == n);
    } else {
        lemma_dec_nat_canonical(n / 10);
        let s = dec_nat(n);
        let p = dec_nat(n / 10);
        assert(s =~= p.push(digit_char((n % 10) as int)));
        assert(s.drop_last() =~= p);
        assert(s.last() == digit_char((n % 10) as int));
        assert(digit_val(digit_char((n % 10) as int)) == n % 10);
        assert(digits_val(s) == digits_val(p) * 10 + n % 10);
        assert(digits_val(p) == n / 10);
        assert(n / 10 * 10 + n % 10 == n) by {
            vstd::arithmetic::div_mod::lemma_fundamental_div_mod(n as int, 10);
        }
        assert(s[0] == p[0]);
        assert(p[0] != '0') by {
            if p.len() == 1 {
                assert(digits_val(p) == digit_val(p[0])) by {
                    assert(p.drop_last() =~= Seq::<char>::empty());
                    assert(p.last() == p[0]);
                }
                assert(digits_val(p) == n / 10 >= 1);
            }
        }
    }
}

/// Appending further digits never decreases the value of a numeral.
pub proof fn lemma_digits_val_monotonic(s: Seq<char>, k: int)
    requires
        all_digits(s),
        0 <= k <= s.len(),
    ensures
        0 <= digits_val(s.subrange(0, k)) <= digits_val(s),
        digits_val(s) >= 0,
    decreases s.len() - k,
{
    if k == s.len() {
        assert(s.subrange(0, k) =~= s);
        lemma_digits_val_nonneg(s);
    } else {
        lemma_digits_val_monotonic(s, k + 1);
        let a = s.subrange(0, k);
        let b = s.subrange(0, k + 1);
        assert(b.drop_last() =~= a);
        assert(digits_val(b) == digits_val(a) * 10 + digit_val(b.last()));
        lemma_digits_val_nonneg(a);
        assert(digits_val(a) * 10 >= digits_val(a)) by (nonlinear_arith)
            requires
                digits_val(a) >= 0,
        ;
        assert(0 <= digit_val(b.last()) <= 9);
    }
}

/// The value of a digit run is never negative.
pub proof fn lemma_digits_val_nonneg(s: Seq<char>)
    requires
        all_digits(s),
    ensures
        digits_val(s) >= 0,
    decreases s.len(),
{
    if s.len() > 0 {
        assert(all_digits(s.drop_last())) by {
            assert(forall|j: int| 0 <= j < s.len() - 1 ==> s.drop_last()[j] == s[j]);
        }
        lemma_digits_val_nonneg(s.drop_last());
        assert(digits_val(s.drop_last()) * 10 >= 0) by (nonlinear_arith)
            requires
                digits_val(s.drop_last()) >= 0,
        ;
    }
}

/// The digit character for a machine-integer digit.
fn digit_to_char(d: u32) -> (c: char)
    requires
        d < 10,
    ensures
        c == digit_char(d as int),
{
    match d {
        0 => '0',
        1 => '1',
        2 => '2',
        3 => '3',
        4 => '4',
        5 => '5',
        6 => '6',
        7 => '7',
        8 => '8',
        _ => '9',
    }
}

/// The numeric value of a digit character, or `None` for any other
/// character.
fn char_to_digit(c: char) -> (r: Option<u32>)
    ensures
        r is Some <==> is_digit(c),
        r is Some ==> r->0 == digit_val(c) && r->0 < 10,
{
    match c {
        '0' => Some(0),
        '1' => Some(1),
        '2' => Some(2),
        '3' => Some(3),
        '4' => Some(4),
        '5' => Some(5),
        '6' => Some(6),
        '7' => Some(7),
        '8' => Some(8),
        '9' => Some(9),
        _ => None,
    }
}

/// Appends the canonical decimal numeral of `n` to `out`.
fn push_u32_dec(out: &mut String, n: u32)
    ensures
        final(out)@ == old(out)@ + dec_nat(n as nat),
    decreases n,
{
    if n < 10 {
        push_char(out, digit_to_char(n));
        proof {
            assert(old(out)@.push(digit_char(n as int)) =~= old(out)@ + dec_nat(n as nat));
        }
    } else {
        push_u32_dec(out, n / 10);
        push_char(out, digit_to_char(n % 10));
        proof {
            assert((old(out)@ + dec_nat((n / 10) as nat)).push(digit_char((n % 10) as int))
                =~= old(out)@ + dec_nat(n as nat));
        }
    }
}

// ---------------------------------------------------------------------
// String escaping
// ---------------------------------------------------------------------

/// JSON escape of one character: quote and backslash get a backslash,
/// every other character stands for itself.
pub open spec fn esc_char(c: char) -> Seq<char> {
    if c == '"' {
        seq!['\\', '"']
    } else if c == '\\' {
        seq!['\\', '\\']
    } else {
        seq![c]
    }
}

/// JSON escape of a whole string.
pub open spec fn esc(s: Seq<char>) -> Seq<char>
    decreases s.len(),
{
    if s.len() == 0 {
        Seq::empty()
    } else {
        esc_char(s[0]) + esc(s.drop_first())
    }
}

/// Escaping distributes over concatenation.
pub proof fn lemma_esc_append(a: Seq<char>, b: Seq<char>)
    ensures
        esc(a + b) == esc(a) + esc(b),
    decreases a.len(),
{
    if a.len() == 0 {
        assert(a + b =~= b);
        assert(esc(a) =~= Seq::<char>::empty());
        assert(esc(a) + esc(b) =~= esc(b));
    } else {
        assert((a + b).drop_first() =~= a.drop_first() + b);
        assert((a + b)[0] == a[0]);
        lemma_esc_append(a.drop_first(), b);
        assert(esc_char(a[0]) + (esc(a.drop_first()) + esc(b))
            =~= (esc_char(a[0]) + esc(a.drop_first())) + esc(b));
    }
}

/// Appends the JSON escape of `s` to `out`.
pub fn push_escaped(out: &mut String, s: &str)
    ensures
        final(out)@ == old(out)@ + esc(s@),
{
    let n = s.unicode_len();
    let mut i: usize = 0;
    proof {
        assert(s@.subrange(0, 0) =~= Seq::<char>::empty());
        assert(out@ + esc(s@.subrange(0, 0)) =~= out@);
    }
    while i < n
        invariant
            n == s@.len(),
            i <= n,
            out@ == old(out)@ + esc(s@.subrange(0, i as int)),
        decreases n - i,
    {
        let c = s.get_char(i);
        let ghost pre = s@.subrange(0, i as int);
        if c == '"' {
            push_char(out, '\\');
            push_char(out, '"');
        } else if c == '\\' {
            push_char(out, '\\');
            push_char(out, '\\');
        } else {
            push_char(out, c);
        }
        proof {
            assert(s@.subrange(0, i + 1 as int) =~= pre + seq![c]);
            lemma_esc_append(pre, seq![c]);
            assert(esc(seq![c]) =~= esc_char(c)) by {
                assert(seq![c].drop_first() =~= Seq::<char>::empty());
                assert(esc(Seq::<char>::empty()) =~= Seq::<char>::empty());
                assert(esc(seq![c]) =~= esc_char(seq![c][0]) + esc(Seq::<char>::empty()));
                assert(seq![c][0] == c);
            }
            assert(out@ =~= old(out)@ + esc(s@.subrange(0, i + 1 as int)));
        }
        i = i + 1;
    }
    proof {
        assert(s@.subrange(0, n as int) =~= s@);
    }
}

/// Appends the canonical decimal numeral of `i` to `out`.
pub fn push_i32_dec(out: &mut String, i: i32)
    ensures
        final(out)@ == old(out)@ + dec_int(i as int),
{
    if i >= 0 {
        push_u32_dec(out, i as u32);
    } else {
        push_char(out, '-');
        let wide: i64 = i as i64;
        let m: u32 = (-wide) as u32;
        assert(m == -(i as int));
        push_u32_dec(out, m);
        proof {
            assert(old(out)@.push('-') + dec_nat(m as nat)
                =~= old(out)@ + (seq!['-'] + dec_nat((-(i as int)) as nat)));
        }
    }
}

// ---------------------------------------------------------------------
// Parsing: maximal digit runs
// ---------------------------------------------------------------------

/// Index just past the maximal run of digit characters starting at `i`.
pub open spec fn digits_end(s: Seq<char>, i: int) -> int
    decreases s.len() - i,
    when 0 <= i <= s.len()
{
    if i < s.len() && is_digit(s[i]) {
        digits_end(s, i + 1)
    } else {
        i
    }
}

/// The run found by `digits_end` starts at `i`, stays inside the string,
/// consists of digits, and is maximal.
pub proof fn lemma_digits_end_props(s: Seq<char>, i: int)
    requires
        0 <= i <= s.len(),
    ensures
        i <= digits_end(s, i) <= s.len(),
        forall|m: int| i <= m < digits_end(s, i) ==> is_digit(s[m]),
        digits_end(s, i) == s.len() || !is_digit(s[digits_end(s, i)]),
    decreases s.len() - i,
{
    if i < s.len() && is_digit(s[i]) {
        lemma_digits_end_props(s, i + 1);
    }
}

/// A run of digits bounded by a non-digit (or the end of the string) is
/// exactly what `digits_end` finds.
pub proof fn lemma_digits_end_exact(s: Seq<char>, i: int, k: int)
    requires
        0 <= i <= k <= s.len(),
        forall|m: int| i <= m < k ==> is_digit(s[m]),
        k == s.len() || !is_digit(s[k]),
    ensures
        digits_end(s, i) == k,
    decreases k - i,
{
    if i < k {
        lemma_digits_end_exact(s, i + 1, k);
    }
}

// ---------------------------------------------------------------------
// Parsing: one canonical integer
// ---------------------------------------------------------------------

/// Reads a canonical integer starting at `i`: an optional minus sign,
/// then digits without a redundant leading zero, the value within the
/// 32-bit signed range.  Returns the value and the index just past it.
pub open spec fn parse_int_at(s: Seq<char>, i: int) -> Option<(int, int)>
    recommends
        0 <= i <= s.len(),
{
    let neg = i < s.len() && s[i] == '-';
    let j = if neg {
        i + 1
    } else {
        i
    };
    let k = digits_end(s, j);
    if k == j {
        None
    } else if s[j] == '0' && k > j + 1 {
        None
    } else {
        let m = digits_val(s.subrange(j, k));
        let v = if neg {
            -m
        } else {
            m
        };
        if neg && m == 0 {
            None
        } else if -0x8000_0000 <= v < 0x8000_0000 {
            Some((v, k))
        } else {
            None
        }
    }
}

/// Reads a canonical integer, as `parse_int_at` describes.
fn parse_int(v: &Vec<char>, i: usize) -> (r: Option<(i32, usize)>)
    requires
        i <= v@.len(),
    ensures
        (match r {
            Some(p) => parse_int_at(v@, i as int) == Some((p.0 as int, p.1 as int)) && i < p.1
                <= v@.len(),
            None => parse_int_at(v@, i as int) is None,
        }),
{
    let ghost s = v@;
    let mut j = i;
    let mut neg = false;
    if j < v.len() && v[j] == '-' {
        neg = true;
        j = j + 1;
    }
    let start = j;
    let ghost kk = digits_end(s, start as int);
    proof {
        lemma_digits_end_props(s, start as int);
    }
    let mut acc: u64 = 0;
    while j < v.len() && char_to_digit(v[j]).is_some()
        invariant
            start <= j <= v@.len(),
            s == v@,
            neg == (i < s.len() && s[i as int] == '-'),
            start as int == (if neg {
                i + 1
            } else {
                i as int
            }),
            kk == digits_end(s, start as int),
            start <= kk <= s.len(),
            forall|m: int| start <= m < kk ==> is_digit(s[m]),
            kk == s.len() || !is_digit(s[kk]),
            j <= kk,
            acc == digits_val(s.subrange(start as int, j as int)),
            acc <= 0x8000_0000,
        decreases v@.len() - j,
    {
        let d = char_to_digit(v[j]).unwrap();
        proof {
            assert(is_digit(s[j as int]));
            // j is inside the maximal run
            if j as int == kk {
                assert(!is_digit(s[kk]));
            }
            assert(s.subrange(start as int, j + 1 as int).drop_last()
                =~= s.subrange(start as int, j as int));
            assert(s.subrange(start as int, j + 1 as int).last() == s[j as int]);
        }
        acc = acc * 10 + d as u64;
        j = j + 1;
        if acc > 0x8000_0000 {
            // the full run can only be larger, so the value is out of range
            proof {
                let run = s.subrange(start as int, kk);
                assert(all_digits(run));
                lemma_digits_val_monotonic(run, j - start);
                assert(run.subrange(0, j - start) =~= s.subrange(start as int, j as int));
                assert(digits_val(s.subrange(start as int, kk)) >= acc);
                let sneg = i < s.len() && s[i as int] == '-';
                assert(sneg == neg);
                let sj: int = if sneg {
                    i + 1
                } else {
                    i as int
                };
                assert(sj == start as int);
                assert(sj < j <= kk);
                let m = digits_val(s.subrange(sj, kk));
                assert(m >= acc);
                assert(m > 0x8000_0000);
                assert(!(-0x8000_0000 <= -m));
                assert(!(m < 0x8000_0000));
                assert(parse_int_at(s, i as int) is None);
            }
            return None;
        }
    }
    proof {
        // the loop stopped at the end of the maximal digit run
        if j < v@.len() {
            assert(!is_digit(s[j as int]));
        }
        lemma_digits_end_exact(s, start as int, j as int);
        assert(kk == j);
    }
    if j == start {
        // no digits at all
        return None;
    }
    let first = v[start];
    if first == '0' && j > start + 1 {
        // redundant leading zero
        return None;
    }
    if neg {
        if acc == 0 {
            return None;
        }
        let val: i64 = -(acc as i64);
        assert(-0x8000_0000 <= val < 0);
        return Some((val as i32, j));
    }
    if acc > 0x7fff_ffff {
        return None;
    }
    Some((acc as i32, j))
}

// ---------------------------------------------------------------------
// Parsing: one quoted string body
// ---------------------------------------------------------------------

/// Reads the body of a quoted JSON string starting at `i` (just after the
/// opening quote): plain characters, `\"` and `\\` escapes, up to and
/// including the closing quote.  Any other escape fails.  Returns the
/// unescaped text and the index just past the closing quote.
pub open spec fn parse_str_at(s: Seq<char>, i: int) -> Option<(Seq<char>, int)>
    decreases s.len() - i,
    when 0 <= i <= s.len()
{
    if i >= s.len() {
        None
    } else if s[i] == '"' {
        Some((Seq::empty(), i + 1))
    } else if s[i] == '\\' {
        if i + 1 < s.len() && (s[i + 1] == '"' || s[i + 1] == '\\') {
            match parse_str_at(s, i + 2) {
                Some(t) => Some((seq![s[i + 1]] + t.0, t.1)),
                None => None,
            }
        } else {
            None
        }
    } else {
        match parse_str_at(s, i + 1) {
            Some(t) => Some((seq![s[i]] + t.0, t.1)),
            None => None,
        }
    }
}

/// Whatever a successful string parse returns lies within the input.
pub proof fn lemma_parse_str_at_bounds(s: Seq<char>, i: int)
    requires
        0 <= i <= s.len(),
        parse_str_at(s, i) is Some,
    ensures
        i < (parse_str_at(s, i)->0).1 <= s.len(),
    decreases s.len() - i,
{
    if i >= s.len() {
    } else if s[i] == '"' {
    } else if s[i] == '\\' {
        if i + 1 < s.len() && (s[i + 1] == '"' || s[i + 1] == '\\') {
            lemma_parse_str_at_bounds(s, i + 2);
        }
    } else {
        lemma_parse_str_at_bounds(s, i + 1);
    }
}

/// Reads a quoted string body, as `parse_str_at` describes.
fn parse_string(v: &Vec<char>, i: usize) -> (r: Option<(String, usize)>)
    requires
        i <= v@.len(),
    ensures
        (match r {
            Some(p) => parse_str_at(v@, i as int) == Some((p.0@, p.1 as int)) && i < p.1
                <= v@.len(),
            None => parse_str_at(v@, i as int) is None,
        }),
{
    let ghost s = v@;
    let mut acc = String::new();
    let mut cur = i;
    loop
        invariant
            i <= cur <= v@.len(),
            s == v@,
            parse_str_at(s, i as int) == (match parse_str_at(s, cur as int) {
                Some(t) => Some((acc@ + t.0, t.1)),
                None => None,
            }),
        decreases v@.len() - cur,
    {
        if cur >= v.len() {
            return None;
        }
        let c = v[cur];
        if c == '"' {
            proof {
                assert(parse_str_at(s, cur as int) == Some((Seq::<char>::empty(), cur + 1 as int)));
                assert(acc@ + Seq::<char>::empty() =~= acc@);
                lemma_parse_str_at_bounds(s, i as int);
            }
            return Some((acc, cur + 1));
        }
        if c == '\\' {
            if cur + 1 < v.len() {
                let e = v[cur + 1];
                if e == '"' || e == '\\' {
                    proof {
                        if parse_str_at(s, cur + 2 as int) is Some {
                            let t = parse_str_at(s, cur + 2 as int)->0;
                            assert(acc@ + (seq![s[cur + 1 as int]] + t.0)
                                =~= acc@.push(e) + t.0);
                        }
                    }
                    push_char(&mut acc, e);
                    cur = cur + 2;
                    continue;
                }
            }
            return None;
        }
        proof {
            if parse_str_at(s, cur + 1 as int) is Some {
                let t = parse_str_at(s, cur + 1 as int)->0;
                assert(acc@ + (seq![s[cur as int]] + t.0) =~= acc@.push(c) + t.0);
            }
        }
        push_char(&mut acc, c);
        cur = cur + 1;
    }
}

// ---------------------------------------------------------------------
// Parsing: fixed literals and role names
// ---------------------------------------------------------------------

/// The wire name of a role.
pub open spec fn role_name(role: Role) -> Seq<char> {
    match role {
        Role::Owner => "owner"@,
        Role::Admin => "admin"@,
        Role::Moderator => "moderator"@,
        Role::User => "user"@,
    }
}

/// The wire name of a role, as a string slice.
pub fn role_as_str(role: Role) -> (r: &'static str)
    ensures
        r@ == role_name(role),
{
    match role {
        Role::Owner => "owner",
        Role::Admin => "admin",
        Role::Moderator => "moderator",
        Role::User => "user",
    }
}

/// Reads a role name starting at `i`.  The four names start with four
/// distinct characters, so the order of the attempts does not matter.
pub open spec fn parse_role_at(s: Seq<char>, i: int) -> Option<(Role, int)> {
    if lit_at(s, i, "owner"@) {
        Some((Role::Owner, i + "owner"@.len()))
    } else if lit_at(s, i, "admin"@) {
        Some((Role::Admin, i + "admin"@.len()))
    } else if lit_at(s, i, "moderator"@) {
        Some((Role::Moderator, i + "moderator"@.len()))
    } else if lit_at(s, i, "user"@) {
        Some((Role::User, i + "user"@.len()))
    } else {
        None
    }
}

/// Reads a role name, as `parse_role_at` describes.
fn parse_role(v: &Vec<char>, i: usize) -> (r: Option<(Role, usize)>)
    requires
        i <= v@.len(),
    ensures
        (match r {
            Some(p) => parse_role_at(v@, i as int) == Some((p.0, p.1 as int)) && i < p.1
                <= v@.len(),
            None => parse_role_at(v@, i as int) is None,
        }),
{
    proof {
        reveal_strlit("owner");
        reveal_strlit("admin");
        reveal_strlit("moderator");
        reveal_strlit("user");
    }
    let _vn = v.len();
    if match_lit(v, i, "owner") {
        Some((Role::Owner, i + 5))
    } else if match_lit(v, i, "admin") {
        Some((Role::Admin, i + 5))
    } else if match_lit(v, i, "moderator") {
        Some((Role::Moderator, i + 9))
    } else if match_lit(v, i, "user") {
        Some((Role::User, i + 4))
    } else {
        None
    }
}

// ---------------------------------------------------------------------
// The envelope as a whole
// ---------------------------------------------------------------------

/// Serialized form of an identity envelope with the given fields:
/// `{"id":<id>,"accountId":"<account, escaped>","role":"<role>"}`.
pub open spec fn ser_identity(id: int, account: Seq<char>, role: Role) -> Seq<char> {
    "{\"id\":"@ + dec_int(id) + ",\"accountId\":\""@ + esc(account) + "\",\"role\":\""@
        + role_name(role) + "\"}"@
}

/// Reads a whole serialized envelope: every field in its fixed order, and
/// nothing after the closing brace.
pub open spec fn parse_identity(s: Seq<char>) -> Option<(int, Seq<char>, Role)> {
    if !lit_at(s, 0, "{\"id\":"@) {
        None
    } else {
        match parse_int_at(s, "{\"id\":"@.len() as int) {
            None => None,
            Some(p1) => {
                if !lit_at(s, p1.1, ",\"accountId\":\""@) {
                    None
                } else {
                    match parse_str_at(s, p1.1 + ",\"accountId\":\""@.len()) {
                        None => None,
                        Some(p2) => {
                            if !lit_at(s, p2.1, ",\"role\":\""@) {
                                None
                            } else {
                                match parse_role_at(s, p2.1 + ",\"role\":\""@.len()) {
                                    None => None,
                                    Some(p3) => {
                                        if lit_at(s, p3.1, "\"}"@) && p3.1 + "\"}"@.len()
                                            == s.len() {
                                            Some((p1.0, p2.0, p3.0))
                                        } else {
                                            None
                                        }
                                    },
                                }
                            }
                        },
                    }
                }
            },
        }
    }
}

/// Serializes an envelope from its fields.
pub fn write_identity(id: i32, account: &str, role: Role) -> (r: String)
    ensures
        r@ == ser_identity(id as int, account@, role),
{
    let mut out = String::new();
    out.append("{\"id\":");
    push_i32_dec(&mut out, id);
    out.append(",\"accountId\":\"");
    push_escaped(&mut out, account);
    out.append("\",\"role\":\"");
    out.append(role_as_str(role));
    out.append("\"}");
    proof {
        assert(out@ =~= ser_identity(id as int, account@, role));
    }
    out
}

/// Reads an envelope, as `parse_identity` describes.
pub fn read_identity(v: &Vec<char>) -> (r: Option<(i32, String, Role)>)
    ensures
        (match r {
            Some(p) => parse_identity(v@) == Some((p.0 as int, p.1@, p.2)),
            None => parse_identity(v@) is None,
        }),
{
    proof {
        reveal_strlit("{\"id\":");
        reveal_strlit(",\"accountId\":\"");
        reveal_strlit(",\"role\":\"");
        reveal_strlit("\"}");
    }
    let _vn = v.len();
    if !match_lit(v, 0, "{\"id\":") {
        return None;
    }
    let p1 = match parse_int(v, 6) {
        Some(p) => p,
        None => {
            return None;
        },
    };
    if !match_lit(v, p1.1, ",\"accountId\":\"") {
        return None;
    }
    let p2 = match parse_string(v, p1.1 + 14) {
        Some(p) => p,
        None => {
            return None;
        },
    };
    if !match_lit(v, p2.1, ",\"role\":\"") {
        return None;
    }
    let p3 = match parse_role(v, p2.1 + 9) {
        Some(p) => p,
        None => {
            return None;
        },
    };
    if match_lit(v, p3.1, "\"}") && p3.1 + 2 == v.len() {
        Some((p1.0, p2.0, p3.0))
    } else {
        None
    }
}

// ---------------------------------------------------------------------
// Round trip: parsing is the inverse of serializing
// ---------------------------------------------------------------------

/// A canonical numeral placed in a larger string, bounded on the right by
/// a non-digit, reads back as the number it was printed from.
pub proof fn lemma_parse_int_at_of_dec(s: Seq<char>, i: int, id: int)
    requires
        -0x8000_0000 <= id < 0x8000_0000,
        0 <= i,
        i + dec_int(id).len() <= s.len(),
        s.subrange(i, i + dec_int(id).len()) == dec_int(id),
        i + dec_int(id).len() == s.len() || !is_digit(s[i + dec_int(id).len()]),
    ensures
        parse_int_at(s, i) == Some((id, i + dec_int(id).len())),
{
    let d = dec_int(id);
    let k = i + d.len();
    if id >= 0 {
        lemma_dec_nat_canonical(id as nat);
        assert(d == dec_nat(id as nat));
        assert(d.len() >= 1);
        assert(s[i] == d[0]);
        assert(is_digit(s[i]));
        assert(s[i] != '-');
        assert(forall|m: int| i <= m < k ==> s[m] == d[m - i] && is_digit(s[m]));
        lemma_digits_end_exact(s, i, k);
        assert(s.subrange(i, k) =~= d);
        assert(digits_val(s.subrange(i, k)) == id);
        if s[i] == '0' {
            assert(d[0] == '0');
            assert(d.len() == 1);
        }
    } else {
        let m = -id;
        lemma_dec_nat_canonical(m as nat);
        let dm = dec_nat(m as nat);
        assert(d =~= seq!['-'] + dm);
        assert(d.len() == 1 + dm.len());
        assert(s[i] == '-') by {
            assert(s.subrange(i, i + d.len())[0] == s[i]);
            assert(d[0] == '-');
        }
        let j = i + 1;
        assert forall|n: int| j <= n < k implies s[n] == dm[n - j] && is_digit(s[n]) by {
            assert(s.subrange(i, i + d.len())[n - i] == s[n]);
            assert(d[n - i] == dm[n - j]);
        }
        lemma_digits_end_exact(s, j, k);
        assert(s.subrange(j, k) =~= dm);
        assert(digits_val(s.subrange(j, k)) == m);
        assert(m >= 1);
        if s[j] == '0' {
            assert(dm[0] == '0');
            assert(dm.len() == 1);
        }
    }
}

/// An escaped string placed in a larger string and closed by a quote reads
/// back as the text it was printed from.
pub proof fn lemma_parse_str_at_of_esc(s: Seq<char>, i: int, t: Seq<char>)
    requires
        0 <= i,
        i + esc(t).len() < s.len(),
        s.subrange(i, i + esc(t).len()) == esc(t),
        s[i + esc(t).len()] == '"',
    ensures
        parse_str_at(s, i) == Some((t, i + esc(t).len() + 1)),
    decreases t.len(),
{
    let e = esc(t);
    if t.len() == 0 {
        assert(e =~= Seq::<char>::empty());
        assert(s[i] == '"');
    } else {
        let c = t[0];
        let rest = t.drop_first();
        assert(e == esc_char(c) + esc(rest));
        let ec = esc_char(c);
        assert forall|m: int| 0 <= m < e.len() implies s[i + m] == e[m] by {
            assert(s.subrange(i, i + e.len())[m] == s[i + m]);
        }
        if c == '"' || c == '\\' {
            assert(ec.len() == 2);
            assert(ec[0] == '\\' && ec[1] == c);
            assert(e[0] == '\\' && e[1] == c);
            assert(s[i] == '\\');
            assert(s[i + 1] == c);
            assert forall|m: int| 0 <= m < esc(rest).len() implies s.subrange(
                i + 2,
                i + 2 + esc(rest).len(),
            )[m] == esc(rest)[m] by {
                assert(s[i + (2 + m)] == e[2 + m]);
                assert(e[2 + m] == esc(rest)[m]);
            }
            assert(s.subrange(i + 2, i + 2 + esc(rest).len()) =~= esc(rest));
            lemma_parse_str_at_of_esc(s, i + 2, rest);
            assert(seq![s[i + 1]] + rest =~= t);
        } else {
            assert(ec.len() == 1);
            assert(ec[0] == c);
            assert(e[0] == c);
            assert(s[i] == c);
            assert(s[i] != '"' && s[i] != '\\');
            assert forall|m: int| 0 <= m < esc(rest).len() implies s.subrange(
                i + 1,
                i + 1 + esc(rest).len(),
            )[m] == esc(rest)[m] by {
                assert(s[i + (1 + m)] == e[1 + m]);
                assert(e[1 + m] == esc(rest)[m]);
            }
            assert(s.subrange(i + 1, i + 1 + esc(rest).len()) =~= esc(rest));
            lemma_parse_str_at_of_esc(s, i + 1, rest);
            assert(seq![s[i]] + rest =~= t);
        }
    }
}

/// Round trip: reading a serialized envelope yields exactly the fields it
/// was written from.  Every identifier in the 32-bit signed range, every
/// account string and every role round-trips.
pub proof fn lemma_identity_round_trip(id: int, account: Seq<char>, role: Role)
    requires
        -0x8000_0000 <= id < 0x8000_0000,
    ensures
        parse_identity(ser_identity(id, account, role)) == Some((id, account, role)),
{
    reveal_strlit("{\"id\":");
    reveal_strlit(",\"accountId\":\"");
    reveal_strlit("\",\"role\":\"");
    reveal_strlit(",\"role\":\"");
    reveal_strlit("\"}");
    reveal_strlit("owner");
    reveal_strlit("admin");
    reveal_strlit("moderator");
    reveal_strlit("user");
    let l1 = "{\"id\":"@;
    let l2 = ",\"accountId\":\""@;
    let l3a = "\",\"role\":\""@;
    let l3 = ",\"role\":\""@;
    let l4 = "\"}"@;
    let d = dec_int(id);
    let e = esc(account);
    let rn = role_name(role);
    let s = ser_identity(id, account, role);
    assert(l1.len() == 6);
    assert(l2.len() == 14);
    assert(l3a.len() == 10);
    assert(l3.len() == 9);
    assert(l4.len() == 2);
    assert(rn.len() >= 4);
    // the serialized string, with the named pieces at their offsets
    assert(s =~= l1 + d + l2 + e + l3a + rn + l4);
    assert(s.len() == 6 + d.len() + 14 + e.len() + 10 + rn.len() + 2);

    // the opening literal
    assert(s.subrange(0, 6) =~= l1);
    assert(lit_at(s, 0, l1));

    // the identifier
    let k: int = 6 + d.len() as int;
    assert(s.subrange(6, k) =~= d);
    assert(s[k] == l2[0]);
    assert(!is_digit(','));
    lemma_parse_int_at_of_dec(s, 6, id);
    assert(parse_int_at(s, 6) == Some((id, k)));

    // the literal before the account
    assert(s.subrange(k, k + 14) =~= l2);
    assert(lit_at(s, k, l2));

    // the account string, closed by the first character of l3a
    let estart: int = k + 14;
    assert(s.subrange(estart, estart + e.len()) =~= e);
    assert(s[estart + e.len()] == l3a[0]);
    assert(l3a[0] == '"');
    lemma_parse_str_at_of_esc(s, estart, account);
    let q: int = estart + e.len() as int + 1;
    assert(parse_str_at(s, estart) == Some((account, q)));

    // the rest of l3a is the literal before the role
    assert(s.subrange(q, q + 9) =~= l3);
    assert(lit_at(s, q, l3));

    // the role name
    let rstart: int = q + 9;
    assert(s.subrange(rstart, rstart + rn.len()) =~= rn);
    assert(lit_at(s, rstart, rn));
    assert(s[rstart] == rn[0]);
    let p3: int = rstart + rn.len() as int;
    assert(parse_role_at(s, rstart) == Some((role, p3))) by {
        match role {
            Role::Owner => {
                assert(lit_at(s, rstart, "owner"@));
            },
            Role::Admin => {
                assert(s[rstart] == 'a');
                assert(!lit_at(s, rstart, "owner"@));
                assert(lit_at(s, rstart, "admin"@));
            },
            Role::Moderator => {
                assert(s[rstart] == 'm');
                assert(!lit_at(s, rstart, "owner"@));
                assert(!lit_at(s, rstart, "admin"@));
                assert(lit_at(s, rstart, "moderator"@));
            },
            Role::User => {
                assert(s[rstart] == 'u');
                assert(!lit_at(s, rstart, "owner"@));
                assert(!lit_at(s, rstart, "admin"@));
                assert(!lit_at(s, rstart, "moderator"@));
                assert(lit_at(s, rstart, "user"@));
            },
        }
    }

    // the closing literal ends the string
    assert(s.subrange(p3, p3 + 2) =~= l4);
    assert(lit_at(s, p3, l4));
    assert(p3 + 2 == s.len());
}

} // verus!

//! Character-level text utilities.
//!
//! The external tools talk in line-oriented text, so the library does its own
//! splitting, trimming and number parsing over `Seq<char>`, with a spec
//! function giving the meaning of each operation.

use vstd::prelude::*;

verus! {

use vstd::std_specs::iter::IteratorSpec;

/// Whether a character has the Unicode `White_Space` property.
/// The meaning is fixed by `char::is_whitespace`.
pub uninterp spec fn is_space(c: char) -> bool;

/// Whether a character is Unicode alphabetic or numeric.
/// The meaning is fixed by `char::is_alphanumeric`.
pub uninterp spec fn is_alnum(c: char) -> bool;

/// Relies on char::is_whitespace: the result depends on the character alone.
#[verifier::external_body]
pub(crate) fn char_is_whitespace(c: char) -> (r: bool)
    ensures
        r == is_space(c),
{
    c.is_whitespace()
}

/// Relies on char::is_alphanumeric: the result depends on the character alone.
#[verifier::external_body]
pub(crate) fn char_is_alphanumeric(c: char) -> (r: bool)
    ensures
        r == is_alnum(c),
{
    c.is_alphanumeric()
}

/// Relies on String::push: appends exactly one character.
#[verifier::external_body]
pub(crate) fn push_char(s: &mut String, c: char)
    ensures
        final(s)@ == old(s)@.push(c),
{
    s.push(c);
}

/// The characters of a string, as a vector.
pub fn chars_of(s: &str) -> (r: Vec<char>)
    ensures
        r@ == s@,
{
    broadcast use vstd::string::next_postcondition, vstd::string::axiom_spec_iter;

    let mut it = s.chars();
    let mut v: Vec<char> = Vec::new();
    loop
        invariant
            v@ + it.remaining() == s@,
            IteratorSpec::decrease(&it) is Some,
        ensures
            v@ == s@,
        decreases IteratorSpec::decrease(&it)->0,
    {
        match it.next() {
            Some(c) => {
                v.push(c);
                proof {
                    assert(v@ + it.remaining() =~= s@);
                }
            },
            None => {
                proof {
                    assert(v@ =~= s@);
                }
                break ;
            },
        }
    }
    v
}

/// A string holding exactly the characters `v[from..to]`.
pub fn string_of_range(v: &Vec<char>, from: usize, to: usize) -> (r: String)
    requires
        from <= to <= v@.len(),
    ensures
        r@ == v@.subrange(from as int, to as int),
{
    let mut s = String::new();
    let mut i: usize = from;
    while i < to
        invariant
            from <= i <= to <= v@.len(),
            s@ == v@.subrange(from as int, i as int),
        decreases to - i,
    {
        push_char(&mut s, v[i]);
        i = i + 1;
        proof {
            assert(s@ =~= v@.subrange(from as int, i as int));
        }
    }
    s
}

/// A string holding exactly the characters of `v`.
pub fn string_of_chars(v: &Vec<char>) -> (r: String)
    ensures
        r@ == v@,
{
    let r = string_of_range(v, 0, v.len());
    proof {
        assert(v@.subrange(0, v@.len() as int) =~= v@);
    }
    r
}

// ---------------------------------------------------------------------------
// Views of a vector of strings

/// The character sequences of a sequence of strings.
pub open spec fn views_of(v: Seq<String>) -> Seq<Seq<char>> {
    v.map_values(|s: String| s@)
}

// ---------------------------------------------------------------------------
// Splitting on a separator character

/// Index of the first occurrence of `c` in `s`, or `s.len()` if absent.
pub open spec fn upto(s: Seq<char>, c: char) -> nat
    decreases s.len(),
{
    if s.len() == 0 {
        0
    } else if s[0] == c {
        0
    } else {
        1 + upto(s.drop_first(), c)
    }
}

proof fn lemma_upto_le(s: Seq<char>, c: char)
    ensures
        upto(s, c) <= s.len(),
    decreases s.len(),
{
    if s.len() > 0 && s[0] != c {
        lemma_upto_le(s.drop_first(), c);
    }
}

/// `upto` is the unique index with no occurrence before it and one (or the
/// end of the sequence) at it.
proof fn lemma_upto_is(s: Seq<char>, c: char, k: nat)
    requires
        k <= s.len(),
        forall|m: int| 0 <= m < k ==> s[m] != c,
        k == s.len() || s[k as int] == c,
    ensures
        upto(s, c) == k,
    decreases s.len(),
{
    if k == 0 {
    } else {
        assert(s[0] != c);
        lemma_upto_is(s.drop_first(), c, (k - 1) as nat);
    }
}

/// The parts of `s` between occurrences of `c`, occurrences excluded; empty
/// parts are kept, as `str::split` keeps them.
pub open spec fn split_parts(s: Seq<char>, c: char) -> Seq<Seq<char>>
    decreases s.len(),
    via split_parts_decreases
{
    if upto(s, c) == s.len() {
        seq![s]
    } else {
        seq![s.take(upto(s, c) as int)] + split_parts(s.skip(upto(s, c) as int + 1), c)
    }
}

#[via_fn]
proof fn split_parts_decreases(s: Seq<char>, c: char) {
    lemma_upto_le(s, c);
}

/// The parts of `v[from..]`, each as a `String`.
fn split_from(v: &Vec<char>, from: usize, c: char) -> (r: Vec<String>)
    requires
        from <= v@.len(),
    ensures
        views_of(r@) == split_parts(v@.skip(from as int), c),
    decreases v@.len() - from,
{
    let ghost tail = v@.skip(from as int);
    let mut j: usize = from;
    while j < v.len() && v[j] != c
        invariant
            from <= j <= v@.len(),
            tail == v@.skip(from as int),
            forall|m: int| from <= m < j ==> v@[m] != c,
        decreases v@.len() - j,
    {
        j = j + 1;
    }
    proof {
        assert(forall|m: int| 0 <= m < j - from ==> tail[m] == v@[m + from]);
        lemma_upto_is(tail, c, (j - from) as nat);
    }
    let part = string_of_range(v, from, j);
    proof {
        assert(part@ =~= tail.take(j - from));
    }
    if j == v.len() {
        let mut r: Vec<String> = Vec::new();
        r.push(part);
        proof {
            assert(views_of(r@) =~= split_parts(tail, c));
        }
        r
    } else {
        let mut r = split_from(v, j + 1, c);
        r.insert(0, part);
        proof {
            assert(v@.skip(j + 1) =~= tail.skip(j - from + 1));
            assert(views_of(r@) =~= seq![tail.take(j - from)] + split_parts(
                tail.skip(j - from + 1),
                c,
            ));
        }
        r
    }
}

/// The parts of `s` around each occurrence of `c`, as `str::split` yields
/// them: occurrences removed, empty parts kept.
pub fn split_on(s: &str, c: char) -> (r: Vec<String>)
    ensures
        views_of(r@) == split_parts(s@, c),
{
    let v = chars_of(s);
    let r = split_from(&v, 0, c);
    proof {
        assert(v@.skip(0) =~= s@);
    }
    r
}

// ---------------------------------------------------------------------------
// Lines

/// One trailing carriage return removed, if present.
pub open spec fn strip_cr(p: Seq<char>) -> Seq<char> {
    if p.len() > 0 && p.last() == '\r' {
        p.drop_last()
    } else {
        p
    }
}

/// The lines of `s`, as `str::lines` yields them: split at `'\n'`, a carriage
/// return before the newline removed, a final empty line after a trailing
/// newline omitted, and a last line without a newline kept as it stands.
pub open spec fn lines_of(s: Seq<char>) -> Seq<Seq<char>> {
    if s.len() == 0 {
        seq![]
    } else {
        let parts = split_parts(s, '\n');
        if s.last() == '\n' {
            parts.drop_last().map_values(|p: Seq<char>| strip_cr(p))
        } else {
            parts.drop_last().map_values(|p: Seq<char>| strip_cr(p)).push(parts.last())
        }
    }
}

/// The lines of `s`.
pub fn split_lines(s: &str) -> (r: Vec<String>)
    ensures
        views_of(r@) == lines_of(s@),
{
    let v = chars_of(s);
    let mut parts = split_from(&v, 0, '\n');
    proof {
        assert(v@.skip(0) =~= s@);
    }
    let mut r: Vec<String> = Vec::new();
    if v.len() == 0 {
        proof {
            assert(views_of(r@) =~= lines_of(s@));
        }
        return r;
    }
    let ghost spec_parts = split_parts(s@, '\n');
    let n = parts.len();
    proof {
        assert(spec_parts.len() > 0) by {
            split_parts_positive(s@, '\n');
        }
        assert(views_of(parts@).len() == n);
    }
    let mut i: usize = 0;
    while i < n - 1
        invariant
            0 < n == parts@.len(),
            views_of(parts@) == spec_parts,
            i <= n - 1,
            r@.len() == i,
            forall|m: int| 0 <= m < i ==> #[trigger] r@[m]@ == strip_cr(spec_parts[m]),
        decreases n - 1 - i,
    {
        let p = chars_of(parts[i].as_str());
        proof {
            assert(views_of(parts@)[i as int] == parts@[i as int]@);
        }
        if p.len() > 0 && p[p.len() - 1] == '\r' {
            r.push(string_of_range(&p, 0, p.len() - 1));
            proof {
                assert(p@.subrange(0, p@.len() - 1) =~= p@.drop_last());
            }
        } else {
            r.push(string_of_chars(&p));
        }
        i = i + 1;
    }
    let ghost mapped = spec_parts.drop_last().map_values(|p: Seq<char>| strip_cr(p));
    proof {
        assert(forall|m: int| 0 <= m < n - 1 ==> #[trigger] mapped[m] == strip_cr(
            spec_parts.drop_last()[m],
        ));
        assert(views_of(r@) =~= mapped);
    }
    if v[v.len() - 1] != '\n' {
        let ghost parts_snap = parts@;
        let last = parts.pop().unwrap();
        proof {
            assert(views_of(parts_snap)[n - 1] == parts_snap[n - 1]@);
            assert(last@ == spec_parts.last());
        }
        r.push(last);
        proof {
            assert(views_of(r@) =~= mapped.push(spec_parts.last()));
        }
    } else {
        proof {
            assert(views_of(r@) =~= mapped);
        }
    }
    r
}

/// A split yields at least one part.
proof fn split_parts_positive(s: Seq<char>, c: char)
    ensures
        split_parts(s, c).len() > 0,
{
    lemma_upto_le(s, c);
}

// ---------------------------------------------------------------------------
// Whitespace: tokens and trimming

/// Length of the maximal non-whitespace prefix of `s`.
pub open spec fn word_len(s: Seq<char>) -> nat
    decreases s.len(),
{
    if s.len() == 0 || is_space(s[0]) {
        0
    } else {
        1 + word_len(s.drop_first())
    }
}

proof fn lemma_word_len_le(s: Seq<char>)
    ensures
        word_len(s) <= s.len(),
    decreases s.len(),
{
    if s.len() > 0 && !is_space(s[0]) {
        lemma_word_len_le(s.drop_first());
    }
}

proof fn lemma_word_len_is(s: Seq<char>, k: nat)
    requires
        k <= s.len(),
        forall|m: int| 0 <= m < k ==> !is_space(s[m]),
        k == s.len() || is_space(s[k as int]),
    ensures
        word_len(s) == k,
    decreases s.len(),
{
    if k == 0 {
    } else {
        assert(!is_space(s[0]));
        lemma_word_len_is(s.drop_first(), (k - 1) as nat);
    }
}

/// The whitespace-separated tokens of `s`, as `str::split_whitespace` yields
/// them: maximal runs of non-whitespace characters, in order.
pub open spec fn ws_tokens(s: Seq<char>) -> Seq<Seq<char>>
    decreases s.len(),
    via ws_tokens_decreases
{
    if s.len() == 0 {
        seq![]
    } else if is_space(s[0]) {
        ws_tokens(s.drop_first())
    } else {
        seq![s.take(word_len(s) as int)] + ws_tokens(s.skip(word_len(s) as int))
    }
}

#[via_fn]
proof fn ws_tokens_decreases(s: Seq<char>) {
    lemma_word_len_le(s);
}

/// The tokens of `v[from..]`.
fn ws_tokens_from(v: &Vec<char>, from: usize) -> (r: Vec<String>)
    requires
        from <= v@.len(),
    ensures
        views_of(r@) == ws_tokens(v@.skip(from as int)),
    decreases v@.len() - from,
{
    let ghost tail = v@.skip(from as int);
    if from == v.len() {
        let r: Vec<String> = Vec::new();
        proof {
            assert(tail =~= Seq::<char>::empty());
            assert(views_of(r@) =~= ws_tokens(tail));
        }
        r
    } else if char_is_whitespace(v[from]) {
        let r = ws_tokens_from(v, from + 1);
        proof {
            assert(tail.drop_first() =~= v@.skip(from as int + 1));
        }
        r
    } else {
        let mut j: usize = from + 1;
        while j < v.len() && !char_is_whitespace(v[j])
            invariant
                from < j <= v@.len(),
                tail == v@.skip(from as int),
                forall|m: int| from <= m < j ==> !is_space(v@[m]),
            decreases v@.len() - j,
        {
            j = j + 1;
        }
        proof {
            assert(forall|m: int| 0 <= m < j - from ==> tail[m] == v@[m + from]);
            lemma_word_len_is(tail, (j - from) as nat);
        }
        let part = string_of_range(v, from, j);
        let mut r = ws_tokens_from(v, j);
        r.insert(0, part);
        proof {
            assert(part@ =~= tail.take(j - from));
            assert(v@.skip(j as int) =~= tail.skip(j - from));
            assert(views_of(r@) =~= seq![tail.take(j - from)] + ws_tokens(tail.skip(j - from)));
        }
        r
    }
}

/// The whitespace-separated tokens of `s`.
pub fn split_whitespace(s: &str) -> (r: Vec<String>)
    ensures
        views_of(r@) == ws_tokens(s@),
{
    let v = chars_of(s);
    let r = ws_tokens_from(&v, 0);
    proof {
        assert(v@.skip(0) =~= s@);
    }
    r
}

/// Count of leading whitespace characters.
pub open spec fn lead_ws(s: Seq<char>) -> nat
    decreases s.len(),
{
    if s.len() == 0 || !is_space(s[0]) {
        0
    } else {
        1 + lead_ws(s.drop_first())
    }
}

/// Count of trailing whitespace characters.
pub open spec fn trail_ws(s: Seq<char>) -> nat
    decreases s.len(),
{
    if s.len() == 0 || !is_space(s.last()) {
        0
    } else {
        1 + trail_ws(s.drop_last())
    }
}

/// `s` with leading and trailing whitespace removed, as `str::trim`.
pub open spec fn trim_of(s: Seq<char>) -> Seq<char> {
    if lead_ws(s) == s.len() {
        Seq::empty()
    } else {
        s.subrange(lead_ws(s) as int, s.len() - trail_ws(s) as int)
    }
}

proof fn lemma_lead_ws_is(s: Seq<char>, k: nat)
    requires
        k <= s.len(),
        forall|m: int| 0 <= m < k ==> is_space(s[m]),
        k == s.len() || !is_space(s[k as int]),
    ensures
        lead_ws(s) == k,
    decreases s.len(),
{
    if k == 0 {
    } else {
        assert(is_space(s[0]));
        lemma_lead_ws_is(s.drop_first(), (k - 1) as nat);
    }
}

proof fn lemma_trail_ws_is(s: Seq<char>, e: nat)
    requires
        e <= s.len(),
        forall|m: int| s.len() - e <= m < s.len() ==> is_space(s[m]),
        e == s.len() || !is_space(s[s.len() - e - 1]),
    ensures
        trail_ws(s) == e,
    decreases s.len(),
{
    if e == 0 {
    } else {
        assert(is_space(s.last()));
        lemma_trail_ws_is(s.drop_last(), (e - 1) as nat);
    }
}

/// The characters of `v` with surrounding whitespace removed.
pub fn trim_chars(v: &Vec<char>) -> (r: Vec<char>)
    ensures
        r@ == trim_of(v@),
{
    let mut a: usize = 0;
    while a < v.len() && char_is_whitespace(v[a])
        invariant
            a <= v@.len(),
            forall|m: int| 0 <= m < a ==> is_space(v@[m]),
        decreases v@.len() - a,
    {
        a = a + 1;
    }
    proof {
        lemma_lead_ws_is(v@, a as nat);
    }
    if a == v.len() {
        let r: Vec<char> = Vec::new();
        proof {
            assert(r@ =~= trim_of(v@));
        }
        return r;
    }
    let mut b: usize = v.len();
    while b > a && char_is_whitespace(v[b - 1])
        invariant
            a <= b <= v@.len(),
            forall|m: int| b <= m < v@.len() ==> is_space(v@[m]),
        decreases b,
    {
        b = b - 1;
    }
    proof {
        if b == a {
            assert(is_space(v@[a as int]));
            assert(false);
        }
        lemma_trail_ws_is(v@, (v@.len() - b) as nat);
    }
    let mut r: Vec<char> = Vec::new();
    let mut i: usize = a;
    while i < b
        invariant
            a <= i <= b <= v@.len(),
            r@ == v@.subrange(a as int, i as int),
        decreases b - i,
    {
        r.push(v[i]);
        i = i + 1;
        proof {
            assert(r@ =~= v@.subrange(a as int, i as int));
        }
    }
    r
}

/// `s` without surrounding whitespace.
pub fn trim_str(s: &str) -> (r: String)
    ensures
        r@ == trim_of(s@),
{
    let v = chars_of(s);
    let t = trim_chars(&v);
    string_of_chars(&t)
}

// ---------------------------------------------------------------------------
// Decimal numbers

/// Whether `c` is an ASCII decimal digit.
pub open spec fn is_digit(c: char) -> bool {
    48 <= c as u32 <= 57
}

/// The value of a digit; zero for any other character.
pub open spec fn digit_of(c: char) -> nat {
    if is_digit(c) {
        (c as u32 - 48) as nat
    } else {
        0
    }
}

pub open spec fn all_digits(s: Seq<char>) -> bool {
    forall|i: int| 0 <= i < s.len() ==> is_digit(#[trigger] s[i])
}

/// The number a digit string denotes, most significant digit first.
pub open spec fn digits_val(s: Seq<char>) -> nat
    decreases s.len(),
{
    if s.len() == 0 {
        0
    } else {
        digits_val(s.drop_last()) * 10 + digit_of(s.last())
    }
}

/// A longer digit string never denotes a smaller number.
proof fn lemma_digits_val_prefix(s: Seq<char>, k: int)
    requires
        0 <= k <= s.len(),
    ensures
        digits_val(s.take(k)) <= digits_val(s),
    decreases s.len() - k,
{
    if k == s.len() {
        assert(s.take(k) =~= s);
    } else {
        lemma_digits_val_prefix(s.drop_last(), k);
        assert(s.drop_last().take(k) =~= s.take(k));
    }
}

/// The digit part of an unsigned decimal string: an optional leading plus
/// sign removed.
pub open spec fn unsigned_digits(s: Seq<char>) -> Seq<char> {
    if s.len() > 0 && s[0] == '+' {
        s.drop_first()
    } else {
        s
    }
}

/// What it means for a digit string to parse under a bound, as Rust's
/// unsigned `str::parse` accepts it: non-empty, digits only, value in range.
pub open spec fn digits_ok(s: Seq<char>, bound: nat) -> bool {
    s.len() > 0 && all_digits(s) && digits_val(s) <= bound
}

/// Parses `v[from..]` as a plain run of decimal digits with value at most
/// `bound`.
fn parse_digits_bounded(v: &Vec<char>, from: usize, bound: u64) -> (r: Option<u64>)
    requires
        from <= v@.len(),
    ensures
        r is Some <==> digits_ok(v@.skip(from as int), bound as nat),
        r is Some ==> r->0 as nat == digits_val(v@.skip(from as int)),
{
    let ghost d = v@.skip(from as int);
    if from == v.len() {
        return None;
    }
    let mut acc: u64 = 0;
    let mut i: usize = from;
    while i < v.len()
        invariant
            from <= i <= v@.len(),
            d == v@.skip(from as int),
            forall|m: int| 0 <= m < i - from ==> is_digit(#[trigger] d[m]),
            acc as nat == digits_val(d.take(i - from)),
            acc <= bound,
        decreases v@.len() - i,
    {
        let u = v[i] as u32;
        proof {
            assert(d[i - from] == v@[i as int]);
        }
        if !(48 <= u && u <= 57) {
            proof {
                assert(!is_digit(d[i - from]));
            }
            return None;
        }
        let digit = (u - 48) as u64;
        let next = match acc.checked_mul(10) {
            Some(m) => m.checked_add(digit),
            None => None,
        };
        proof {
            assert(is_digit(d[i - from]));
            assert(digit as nat == digit_of(d[i - from]));
            assert(d.take(i - from + 1).drop_last() =~= d.take(i - from));
            assert(d.take(i - from + 1).last() == d[i - from]);
            assert(digits_val(d.take(i - from + 1)) == digits_val(d.take(i - from)) * 10
                + digit_of(d[i - from]));
        }
        match next {
            Some(n) => {
                if n > bound {
                    proof {
                        lemma_digits_val_prefix(d, i - from + 1);
                    }
                    return None;
                }
                acc = n;
            },
            None => {
                proof {
                    lemma_digits_val_prefix(d, i - from + 1);
                }
                return None;
            },
        }
        i = i + 1;
    }
    proof {
        assert(d.take(v@.len() - from) =~= d);
    }
    Some(acc)
}

/// Parses as `str::parse::<u32>`: an optional `+`, then decimal digits.
pub fn parse_u32(s: &str) -> (r: Option<u32>)
    ensures
        r is Some <==> digits_ok(unsigned_digits(s@), u32::MAX as nat),
        r is Some ==> r->0 as nat == digits_val(unsigned_digits(s@)),
{
    let v = chars_of(s);
    parse_u32_chars(&v)
}

/// `parse_u32` on an already split-out character vector.
pub fn parse_u32_chars(v: &Vec<char>) -> (r: Option<u32>)
    ensures
        r is Some <==> digits_ok(unsigned_digits(v@), u32::MAX as nat),
        r is Some ==> r->0 as nat == digits_val(unsigned_digits(v@)),
{
    let from: usize = if v.len() > 0 && v[0] == '+' {
        1
    } else {
        0
    };
    proof {
        if from == 1 {
            assert(v@.skip(1) =~= unsigned_digits(v@));
        } else {
            assert(v@.skip(0) =~= unsigned_digits(v@));
        }
    }
    match parse_digits_bounded(v, from, 0xffff_ffff) {
        Some(n) => Some(n as u32),
        None => None,
    }
}

/// Parses as `str::parse::<u16>`.
pub fn parse_u16(s: &str) -> (r: Option<u16>)
    ensures
        r is Some <==> digits_ok(unsigned_digits(s@), u16::MAX as nat),
        r is Some ==> r->0 as nat == digits_val(unsigned_digits(s@)),
{
    let v = chars_of(s);
    let from: usize = if v.len() > 0 && v[0] == '+' {
        1
    } else {
        0
    };
    proof {
        if from == 1 {
            assert(v@.skip(1) =~= unsigned_digits(s@));
        } else {
            assert(v@.skip(0) =~= unsigned_digits(s@));
        }
    }
    match parse_digits_bounded(&v, from, 0xffff) {
        Some(n) => Some(n as u16),
        None => None,
    }
}

/// The digit part and sign of a signed decimal string.
pub open spec fn signed_digits(s: Seq<char>) -> Seq<char> {
    if s.len() > 0 && (s[0] == '+' || s[0] == '-') {
        s.drop_first()
    } else {
        s
    }
}

pub open spec fn signed_negative(s: Seq<char>) -> bool {
    s.len() > 0 && s[0] == '-'
}

/// The signed value a decimal string denotes.
pub open spec fn signed_val(s: Seq<char>) -> int {
    if signed_negative(s) {
        -(digits_val(signed_digits(s)) as int)
    } else {
        digits_val(signed_digits(s)) as int
    }
}

/// Parses as `str::parse::<i32>`: an optional sign, then decimal digits.
pub fn parse_i32(s: &str) -> (r: Option<i32>)
    ensures
        r is Some <==> (signed_digits(s@).len() > 0 && all_digits(signed_digits(s@))
            && i32::MIN <= signed_val(s@) <= i32::MAX),
        r is Some ==> r->0 as int == signed_val(s@),
{
    let v = chars_of(s);
    let negative = v.len() > 0 && v[0] == '-';
    let from: usize = if v.len() > 0 && (v[0] == '+' || v[0] == '-') {
        1
    } else {
        0
    };
    proof {
        if from == 1 {
            assert(v@.skip(1) =~= signed_digits(s@));
        } else {
            assert(v@.skip(0) =~= signed_digits(s@));
        }
    }
    let bound: u64 = if negative {
        0x8000_0000
    } else {
        0x7fff_ffff
    };
    match parse_digits_bounded(&v, from, bound) {
        Some(n) => {
            if negative {
                Some((-(n as i64)) as i32)
            } else {
                Some(n as i32)
            }
        },
        None => None,
    }
}

/// The decimal digit characters of `n`, most significant first, no sign and
/// no leading zero.
pub open spec fn dec_digits(n: nat) -> Seq<char>
    decreases n,
{
    if n < 10 {
        seq![digit_char(n)]
    } else {
        dec_digits(n / 10).push(digit_char(n % 10))
    }
}

/// The digit character for a value below ten.
pub open spec fn digit_char(d: nat) -> char {
    if d == 0 {
        '0'
    } else if d == 1 {
        '1'
    } else if d == 2 {
        '2'
    } else if d == 3 {
        '3'
    } else if d == 4 {
        '4'
    } else if d == 5 {
        '5'
    } else if d == 6 {
        '6'
    } else if d == 7 {
        '7'
    } else if d == 8 {
        '8'
    } else {
        '9'
    }
}

pub(crate) fn digit_char_of(d: u64) -> (r: char)
    requires
        d < 10,
    ensures
        r == digit_char(d as nat),
{
    if d == 0 {
        '0'
    } else if d == 1 {
        '1'
    } else if d == 2 {
        '2'
    } else if d == 3 {
        '3'
    } else if d == 4 {
        '4'
    } else if d == 5 {
        '5'
    } else if d == 6 {
        '6'
    } else if d == 7 {
        '7'
    } else if d == 8 {
        '8'
    } else {
        '9'
    }
}

/// `n` written in decimal, as `u64`'s `Display` writes it.
pub fn u64_to_string(n: u64) -> (r: String)
    ensures
        r@ == dec_digits(n as nat),
    decreases n,
{
    if n < 10 {
        let mut s = String::new();
        push_char(&mut s, digit_char_of(n));
        proof {
            assert(s@ =~= dec_digits(n as nat));
        }
        s
    } else {
        let mut s = u64_to_string(n / 10);
        push_char(&mut s, digit_char_of(n % 10));
        s
    }
}

/// `n` written in decimal.
pub fn u32_to_string(n: u32) -> (r: String)
    ensures
        r@ == dec_digits(n as nat),
{
    u64_to_string(n as u64)
}

// ---------------------------------------------------------------------------
// Searching

/// Whether `pat` occurs at position `i` of `v`.
fn matches_at(v: &Vec<char>, i: usize, pat: &Vec<char>) -> (r: bool)
    requires
        i + pat@.len() <= v@.len(),
    ensures
        r == (v@.subrange(i as int, i + pat@.len()) == pat@),
{
    let n = v.len();
    let mut k: usize = 0;
    while k < pat.len()
        invariant
            0 <= k <= pat@.len(),
            i + pat@.len() <= v@.len(),
            n == v@.len(),
            forall|m: int| 0 <= m < k ==> v@[i + m] == pat@[m],
        decreases pat@.len() - k,
    {
        if v[i + k] != pat[k] {
            proof {
                assert(v@.subrange(i as int, i + pat@.len())[k as int] != pat@[k as int]);
            }
            return false;
        }
        k = k + 1;
    }
    proof {
        assert(v@.subrange(i as int, i + pat@.len()) =~= pat@);
    }
    true
}

/// Whether `needle` occurs somewhere in `hay`, as `str::contains`.
pub open spec fn contains_seq(hay: Seq<char>, needle: Seq<char>) -> bool {
    exists|i: int|
        0 <= i <= hay.len() - needle.len() && #[trigger] hay.subrange(i, i + needle.len())
            == needle
}

/// Whether `needle` occurs in `hay`.
pub fn contains_str(hay: &str, needle: &str) -> (r: bool)
    ensures
        r == contains_seq(hay@, needle@),
{
    let hv = chars_of(hay);
    let nv = chars_of(needle);
    contains_chars(&hv, &nv)
}

/// `contains_str` on already split-out character vectors.
pub fn contains_chars(hay: &Vec<char>, needle: &Vec<char>) -> (r: bool)
    ensures
        r == contains_seq(hay@, needle@),
{
    if needle.len() > hay.len() {
        return false;
    }
    if needle.len() == 0 {
        proof {
            assert(hay@.subrange(0, 0 + needle@.len() as int) =~= needle@);
        }
        return true;
    }
    let last = hay.len() - needle.len();
    let mut i: usize = 0;
    while i <= last
        invariant
            0 <= i <= last + 1,
            last == hay@.len() - needle@.len(),
            needle@.len() > 0,
            hay@.len() <= usize::MAX,
            forall|j: int|
                0 <= j < i ==> #[trigger] hay@.subrange(j, j + needle@.len()) != needle@,
        decreases last + 1 - i,
    {
        if matches_at(hay, i, needle) {
            return true;
        }
        i = i + 1;
    }
    false
}

/// Whether `v` begins with `pat`, as `str::starts_with`.
pub open spec fn begins_with_seq(s: Seq<char>, pat: Seq<char>) -> bool {
    pat.len() <= s.len() && s.take(pat.len() as int) == pat
}

/// Whether `v` begins with `pat`.
pub fn begins_with(v: &Vec<char>, pat: &Vec<char>) -> (r: bool)
    ensures
        r == begins_with_seq(v@, pat@),
{
    if pat.len() > v.len() {
        return false;
    }
    let r = matches_at(v, 0, pat);
    proof {
        assert(v@.subrange(0, pat@.len() as int) =~= v@.take(pat@.len() as int));
    }
    r
}

// ---------------------------------------------------------------------------
// Removing every occurrence of a pattern

/// `s` with every occurrence of `pat` removed, leftmost first and without
/// overlap, as `str::replace(pat, "")` removes them.
pub open spec fn without_pat(s: Seq<char>, pat: Seq<char>) -> Seq<char>
    decreases s.len(),
    when pat.len() > 0
{
    if s.len() < pat.len() {
        s
    } else if s.take(pat.len() as int) == pat {
        without_pat(s.skip(pat.len() as int), pat)
    } else {
        seq![s[0]] + without_pat(s.drop_first(), pat)
    }
}

/// The characters of `v` with every occurrence of `pat` removed.
pub fn remove_pat(v: &Vec<char>, pat: &Vec<char>) -> (r: Vec<char>)
    requires
        pat@.len() > 0,
    ensures
        r@ == without_pat(v@, pat@),
{
    let mut r: Vec<char> = Vec::new();
    let mut i: usize = 0;
    proof {
        assert(v@.skip(0) =~= v@);
        assert(r@ + without_pat(v@, pat@) =~= without_pat(v@, pat@));
    }
    while i < v.len()
        invariant
            0 <= i <= v@.len(),
            pat@.len() > 0,
            r@ + without_pat(v@.skip(i as int), pat@) == without_pat(v@, pat@),
        decreases v@.len() - i,
    {
        let ghost rest = v@.skip(i as int);
        if pat.len() <= v.len() - i && matches_at(v, i, pat) {
            proof {
                assert(rest.take(pat@.len() as int) =~= v@.subrange(i as int, i + pat@.len()));
                assert(rest.skip(pat@.len() as int) =~= v@.skip(i + pat@.len()));
            }
            i = i + pat.len();
        } else {
            proof {
                if pat@.len() <= rest.len() {
                    assert(rest.take(pat@.len() as int) =~= v@.subrange(
                        i as int,
                        i + pat@.len(),
                    ));
                } else {
                    assert(without_pat(rest, pat@) == rest);
                    assert(without_pat(rest.drop_first(), pat@) == rest.drop_first());
                    assert(rest =~= seq![rest[0]] + rest.drop_first());
                }
                assert(rest.drop_first() =~= v@.skip(i as int + 1));
                assert(rest[0] == v@[i as int]);
            }
            r.push(v[i]);
            i = i + 1;
            proof {
                assert(r@ + without_pat(v@.skip(i as int), pat@) =~= without_pat(v@, pat@));
            }
        }
    }
    proof {
        assert(v@.skip(v@.len() as int) =~= Seq::<char>::empty());
        assert(r@ + Seq::<char>::empty() =~= r@);
    }
    r
}

// ---------------------------------------------------------------------------
// Equality

/// Whether two character vectors hold the same characters.
pub fn chars_eq(x: &Vec<char>, y: &Vec<char>) -> (r: bool)
    ensures
        r == (x@ == y@),
{
    if x.len() != y.len() {
        return false;
    }
    let mut i: usize = 0;
    while i < x.len()
        invariant
            0 <= i <= x@.len(),
            x@.len() == y@.len(),
            forall|m: int| 0 <= m < i ==> x@[m] == y@[m],
        decreases x@.len() - i,
    {
        if x[i] != y[i] {
            return false;
        }
        i = i + 1;
    }
    proof {
        assert(x@ =~= y@);
    }
    true
}

/// Whether two strings hold the same characters.
pub fn str_eq(a: &str, b: &str) -> (r: bool)
    ensures
        r == (a@ == b@),
{
    let va = chars_of(a);
    let vb = chars_of(b);
    chars_eq(&va, &vb)
}

// ---------------------------------------------------------------------------
// Case folding

/// The Unicode lowercase form of a character sequence.
/// The meaning is fixed by `str::to_lowercase`.
pub uninterp spec fn lower_of(s: Seq<char>) -> Seq<char>;

/// The Unicode uppercase form of a character sequence.
/// The meaning is fixed by `str::to_uppercase`.
pub uninterp spec fn upper_of(s: Seq<char>) -> Seq<char>;

/// Relies on str::to_lowercase: the result depends on the characters alone.
#[verifier::external_body]
pub(crate) fn to_lower(s: &str) -> (r: String)
    ensures
        r@ == lower_of(s@),
{
    s.to_lowercase()
}

/// Relies on str::to_uppercase: the result depends on the characters alone.
#[verifier::external_body]
pub(crate) fn to_upper(s: &str) -> (r: String)
    ensures
        r@ == upper_of(s@),
{
    s.to_uppercase()
}

} // verus!

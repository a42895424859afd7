use vstd::prelude::*;
use vstd::arithmetic::div_mod::{lemma_div_denominator, lemma_fundamental_div_mod};
use vstd::arithmetic::div_mod::lemma_div_is_ordered;
use vstd::std_specs::cmp::PartialOrdSpec;
use crate::text::is_space_char;

verus! {

/// A byte count together with its pre-rendered human-readable form
/// (for example `"512.00 MB"`).  Ordered by the numeric byte count alone,
/// never by the display string.  Immutable once constructed.
#[derive(Debug, Clone)]
pub struct Size {
    pub(crate) size: u64,
    pub(crate) format: String,
}

/// `1024^k`.
pub open spec fn pow1024(k: nat) -> nat
    decreases k,
{
    if k == 0 {
        1
    } else {
        1024 * pow1024((k - 1) as nat)
    }
}

/// `10^k`.
pub open spec fn pow10(k: nat) -> nat
    decreases k,
{
    if k == 0 {
        1
    } else {
        10 * pow10((k - 1) as nat)
    }
}

/// The unit tier a byte count is displayed in: the number of times it can
/// be divided by 1024 before falling below 1024.
pub open spec fn size_tier(b: nat) -> nat
    decreases b,
{
    if b < 1024 {
        0
    } else {
        1 + size_tier(b / 1024)
    }
}

/// The display value of a byte count at its tier, in hundredths,
/// rounded half-up.
pub open spec fn size_hundredths(b: nat) -> nat {
    (b * 100 + pow1024(size_tier(b)) / 2) / pow1024(size_tier(b))
}

/// The character for a decimal digit.
pub open spec fn digit_char(d: nat) -> char {
    if d == 0 { '0' }
    else if d == 1 { '1' }
    else if d == 2 { '2' }
    else if d == 3 { '3' }
    else if d == 4 { '4' }
    else if d == 5 { '5' }
    else if d == 6 { '6' }
    else if d == 7 { '7' }
    else if d == 8 { '8' }
    else if d == 9 { '9' }
    else { '?' }
}

/// The decimal rendering of a natural number, most significant digit first.
pub open spec fn dec_chars(n: nat) -> Seq<char>
    decreases n,
{
    if n < 10 {
        seq![digit_char(n)]
    } else {
        dec_chars(n / 10) + seq![digit_char(n % 10)]
    }
}

/// The unit label of a tier.  Tiers past TB keep the last label, as very
/// large counts are still shown rather than rejected.
pub open spec fn unit_chars(t: nat) -> Seq<char> {
    if t == 0 { seq!['B'] }
    else if t == 1 { seq!['K', 'B'] }
    else if t == 2 { seq!['M', 'B'] }
    else if t == 3 { seq!['G', 'B'] }
    else if t == 4 { seq!['T', 'B'] }
    else { seq!['P', 'B'] }
}

/// The display string of a byte count: the value at its tier with two
/// decimal places, a space, and the tier's unit label.
pub open spec fn spec_render(b: nat) -> Seq<char> {
    let h = size_hundredths(b);
    dec_chars(h / 100) + seq!['.', digit_char((h / 10) % 10), digit_char(h % 10), ' ']
        + unit_chars(size_tier(b))
}

/// What [`size_to_string`] returns: zero and negative counts collapse to
/// `"0 B"`, every other count renders as [`spec_render`].
pub open spec fn spec_size_to_string(s: int) -> Seq<char> {
    if s <= 0 {
        seq!['0', ' ', 'B']
    } else {
        spec_render(s as nat)
    }
}

/// The value of `pow1024` at every tier a `u64` can reach, and one past it.
proof fn lemma_pow1024_values()
    ensures
        pow1024(0) == 1,
        pow1024(1) == 1024,
        pow1024(2) == 1048576,
        pow1024(3) == 1073741824,
        pow1024(4) == 1099511627776,
        pow1024(5) == 1125899906842624,
        pow1024(6) == 1152921504606846976,
        pow1024(7) == 1180591620717411303424,
{
    reveal_with_fuel(pow1024, 8);
}

proof fn lemma_pow1024_positive(k: nat)
    ensures
        pow1024(k) >= 1,
    decreases k,
{
    if k > 0 {
        lemma_pow1024_positive((k - 1) as nat);
    }
}

proof fn lemma_pow10_positive(k: nat)
    ensures
        pow10(k) >= 1,
    decreases k,
{
    if k > 0 {
        lemma_pow10_positive((k - 1) as nat);
    }
}

/// A tier is pinned down by the two sides of the defining division chain:
/// if `b` divided by `1024^t` has fallen below 1024 and `1024^t` still
/// fits into `b` (unless `t` is zero), then `t` is the tier of `b`.
proof fn lemma_size_tier_unique(b: nat, t: nat)
    requires
        b / pow1024(t) < 1024,
        t == 0 ==> b < 1024,
        t > 0 ==> pow1024(t) <= b,
    ensures
        size_tier(b) == t,
    decreases t,
{
    lemma_pow1024_positive(t);
    if t == 0 {
    } else {
        lemma_pow1024_positive((t - 1) as nat);
        assert(pow1024(t) == 1024 * pow1024((t - 1) as nat));
        assert(b >= 1024) by {
            assert(pow1024(t) >= 1024) by (nonlinear_arith)
                requires pow1024(t) == 1024 * pow1024((t - 1) as nat), pow1024((t - 1) as nat) >= 1;
        }
        let b1 = b / 1024;
        assert(size_tier(b) == 1 + size_tier(b1));
        lemma_div_denominator(b as int, 1024, pow1024((t - 1) as nat) as int);
        assert(b1 / pow1024((t - 1) as nat) == b / pow1024(t));
        if t - 1 > 0 {
            assert(pow1024((t - 1) as nat) <= b1) by {
                lemma_div_is_ordered(pow1024(t) as int, b as int, 1024);
                assert(pow1024(t) / 1024 == pow1024((t - 1) as nat)) by (nonlinear_arith)
                    requires pow1024(t) == 1024 * pow1024((t - 1) as nat);
            }
        } else {
            assert(b1 >= 1);
        }
        lemma_size_tier_unique(b1, (t - 1) as nat);
    }
}

/// The exec table of `pow1024` for every tier a `u64` can reach.
fn pow1024_u64(t: usize) -> (r: u64)
    requires
        t <= 6,
    ensures
        r as nat == pow1024(t as nat),
        r >= 1,
{
    proof {
        lemma_pow1024_values();
    }
    if t == 0 { 1 }
    else if t == 1 { 1024 }
    else if t == 2 { 1048576 }
    else if t == 3 { 1073741824 }
    else if t == 4 { 1099511627776 }
    else if t == 5 { 1125899906842624 }
    else { 1152921504606846976 }
}

/// A single decimal digit as a string slice.
fn digit_str(d: u64) -> (r: &'static str)
    requires
        d < 10,
    ensures
        r@ == seq![digit_char(d as nat)],
{
    proof {
        reveal_strlit("0");
        reveal_strlit("1");
        reveal_strlit("2");
        reveal_strlit("3");
        reveal_strlit("4");
        reveal_strlit("5");
        reveal_strlit("6");
        reveal_strlit("7");
        reveal_strlit("8");
        reveal_strlit("9");
    }
    let r: &'static str = if d == 0 { "0" }
    else if d == 1 { "1" }
    else if d == 2 { "2" }
    else if d == 3 { "3" }
    else if d == 4 { "4" }
    else if d == 5 { "5" }
    else if d == 6 { "6" }
    else if d == 7 { "7" }
    else if d == 8 { "8" }
    else { "9" };
    proof {
        assert(r@ =~= seq![digit_char(d as nat)]);
    }
    r
}

/// Renders a natural number in decimal.
fn u64_to_string(n: u64) -> (s: String)
    ensures
        s@ == dec_chars(n as nat),
    decreases n,
{
    if n < 10 {
        digit_str(n).to_owned()
    } else {
        let mut s = u64_to_string(n / 10);
        s.append(digit_str(n % 10));
        proof {
            assert(s@ =~= dec_chars(n as nat));
        }
        s
    }
}

/// The unit label of a tier.
fn unit_str(t: usize) -> (r: &'static str)
    ensures
        r@ == unit_chars(t as nat),
{
    proof {
        reveal_strlit("B");
        reveal_strlit("KB");
        reveal_strlit("MB");
        reveal_strlit("GB");
        reveal_strlit("TB");
        reveal_strlit("PB");
    }
    let r: &'static str = if t == 0 { "B" }
    else if t == 1 { "KB" }
    else if t == 2 { "MB" }
    else if t == 3 { "GB" }
    else if t == 4 { "TB" }
    else { "PB" };
    proof {
        assert(r@ =~= unit_chars(t as nat));
    }
    r
}

/// Renders a byte count at its tier with two decimal places and the
/// tier's unit label, as [`spec_render`] states.
fn render_size(b: u64) -> (s: String)
    ensures
        s@ == spec_render(b as nat),
{
    let mut v: u64 = b;
    let mut t: usize = 0;
    proof {
        assert(pow1024(0) == 1);
    }
    while v >= 1024
        invariant
            t <= 6,
            pow1024(t as nat) >= 1,
            v as nat == (b as nat) / pow1024(t as nat),
            t > 0 ==> pow1024(t as nat) <= b as nat,
        decreases v,
    {
        proof {
            let tn = t as nat;
            let p = pow1024(tn);
            lemma_pow1024_positive(tn);
            // v >= 1024 means b >= 1024 * 1024^t = 1024^(t+1)
            lemma_fundamental_div_mod(b as int, p as int);
            assert(b as nat >= 1024 * p) by (nonlinear_arith)
                requires
                    b as int == p as int * ((b as nat) / p) as int + ((b as nat) % p) as int,
                    (b as nat) % p >= 0,
                    ((b as nat) / p) >= 1024,
                    p >= 1;
            assert(pow1024(tn + 1) == 1024 * p);
            // the tier cannot pass 6 because 1024^7 exceeds u64::MAX
            lemma_pow1024_values();
            assert(pow1024(7) > u64::MAX as nat);
            if tn + 1 > 6 {
                assert(pow1024(7) <= b as nat);
                assert(false);
            }
            lemma_div_denominator(b as int, p as int, 1024);
            assert((b as nat) / p / 1024 == (b as nat) / (p * 1024));
            assert(p * 1024 == 1024 * p) by (nonlinear_arith);
        }
        v = v / 1024;
        t = t + 1;
        proof {
            assert(v as nat == (b as nat) / pow1024(t as nat));
        }
    }
    proof {
        lemma_size_tier_unique(b as nat, t as nat);
    }
    let d = pow1024_u64(t);
    let h128: u128 = ((b as u128) * 100 + (d as u128) / 2) / (d as u128);
    proof {
        // b / d < 1024, so b < 1024 * d and the hundredths stay small
        lemma_fundamental_div_mod(b as int, d as int);
        assert((b as nat) < 1024 * (d as nat)) by (nonlinear_arith)
            requires
                b as int == d as int * ((b as nat) / (d as nat)) as int
                    + ((b as nat) % (d as nat)) as int,
                ((b as nat) % (d as nat)) < d as nat,
                ((b as nat) / (d as nat)) < 1024,
                d as nat >= 1;
        assert((b as nat) * 100 + (d as nat) / 2 < 102401 * (d as nat)) by (nonlinear_arith)
            requires (b as nat) < 1024 * (d as nat), d as nat >= 1;
        lemma_div_is_ordered((b as int) * 100 + (d as int) / 2, 102401 * (d as int) - 1, d as int);
        assert((102401 * (d as int) - 1) / (d as int) <= 102401) by (nonlinear_arith)
            requires d as int >= 1;
        assert(h128 as nat == size_hundredths(b as nat));
    }
    let h: u64 = h128 as u64;
    let mut s = u64_to_string(h / 100);
    proof {
        reveal_strlit(".");
        reveal_strlit(" ");
    }
    s.append(".");
    s.append(digit_str((h / 10) % 10));
    s.append(digit_str(h % 10));
    s.append(" ");
    s.append(unit_str(t));
    proof {
        assert("."@ =~= seq!['.']);
        assert(" "@ =~= seq![' ']);
        assert(s@ =~= spec_render(b as nat));
    }
    s
}

impl Size {
    /// The byte count.
    pub closed spec fn spec_size(self) -> u64 {
        self.size
    }

    /// The display string.
    pub closed spec fn spec_format(self) -> Seq<char> {
        self.format@
    }

    /// A well-formed `Size` displays exactly its byte count.
    pub open spec fn wf(self) -> bool {
        self.spec_format() == spec_render(self.spec_size() as nat)
    }

    /// Builds a size from a byte count, pre-rendering the display string.
    pub fn new(size: u64) -> (r: Self)
        ensures
            r.spec_size() == size,
            r.wf(),
    {
        Size { size, format: render_size(size) }
    }

    /// The byte count.
    pub fn size(&self) -> (r: u64)
        ensures
            r == self.spec_size(),
    {
        self.size
    }

    /// The pre-rendered display string.
    pub fn format(&self) -> (r: &String)
        ensures
            r@ == self.spec_format(),
    {
        &self.format
    }
}

impl PartialEq for Size {
    /// Sizes are compared by byte count alone.
    fn eq(&self, other: &Self) -> (r: bool) {
        self.size == other.size
    }
}

impl vstd::std_specs::cmp::PartialEqSpecImpl for Size {
    open spec fn obeys_eq_spec() -> bool {
        true
    }

    open spec fn eq_spec(&self, other: &Self) -> bool {
        self.spec_size() == other.spec_size()
    }
}

impl Eq for Size {}

impl PartialOrd for Size {
    /// Sizes are ordered by byte count alone, never by display string.
    fn partial_cmp(&self, other: &Self) -> (r: Option<core::cmp::Ordering>) {
        if self.size < other.size {
            Some(core::cmp::Ordering::Less)
        } else if self.size == other.size {
            Some(core::cmp::Ordering::Equal)
        } else {
            Some(core::cmp::Ordering::Greater)
        }
    }
}

impl vstd::std_specs::cmp::PartialOrdSpecImpl for Size {
    open spec fn obeys_partial_cmp_spec() -> bool {
        true
    }

    open spec fn partial_cmp_spec(&self, other: &Self) -> Option<core::cmp::Ordering> {
        if self.spec_size() < other.spec_size() {
            Some(core::cmp::Ordering::Less)
        } else if self.spec_size() == other.spec_size() {
            Some(core::cmp::Ordering::Equal)
        } else {
            Some(core::cmp::Ordering::Greater)
        }
    }
}

/// For all sizes, a smaller byte count orders below a larger one under the
/// type's ordering, whatever the display strings hold.
pub proof fn lemma_size_ordering(a: Size, b: Size)
    requires
        a.spec_size() < b.spec_size(),
    ensures
        a.partial_cmp_spec(&b) == Some(core::cmp::Ordering::Less),
{
}

/// Renders a byte count for humans: at its unit tier with two decimal
/// places; zero or negative counts collapse to `"0 B"`.
pub fn size_to_string(size: i64) -> (s: String)
    ensures
        s@ == spec_size_to_string(size as int),
{
    if size <= 0 {
        proof {
            reveal_strlit("0 B");
        }
        let s = "0 B".to_owned();
        proof {
            assert(s@ =~= seq!['0', ' ', 'B']);
        }
        s
    } else {
        render_size(size as u64)
    }
}

/// [`size_to_string`], for a quantity of bytes.
pub fn human_read_size(size: i64) -> (s: String)
    ensures
        s@ == spec_size_to_string(size as int),
{
    size_to_string(size)
}

/// [`size_to_string`] with a `/s` suffix, for a transfer rate.
pub fn human_read_speed(size: i64) -> (s: String)
    ensures
        s@ == spec_size_to_string(size as int) + "/s"@,
{
    let mut s = size_to_string(size);
    s.append("/s");
    s
}

// ---------------------------------------------------------------------------
// Parsing human-readable sizes
// ---------------------------------------------------------------------------

/// A decimal digit.
pub open spec fn is_digit(c: char) -> bool {
    '0' <= c && c <= '9'
}

/// The value of a decimal digit character.
pub open spec fn digit_val(c: char) -> nat {
    (c as int - '0' as int) as nat
}

/// A character of the leading numeric run: a digit or a decimal point.
pub open spec fn is_num_char(c: char) -> bool {
    is_digit(c) || c == '.'
}

/// A character of the trailing unit run: neither numeric nor whitespace.
pub open spec fn is_unit_char(c: char) -> bool {
    !is_digit(c) && c != '.' && !is_space_char(c)
}

/// The length of the longest leading run of numeric characters.
pub open spec fn num_prefix_len(s: Seq<char>) -> nat
    decreases s.len(),
{
    if s.len() == 0 || !is_num_char(s[0]) {
        0
    } else {
        1 + num_prefix_len(s.drop_first())
    }
}

/// The length of the longest trailing run of unit characters.
pub open spec fn unit_suffix_len(s: Seq<char>) -> nat
    decreases s.len(),
{
    if s.len() == 0 || !is_unit_char(s.last()) {
        0
    } else {
        1 + unit_suffix_len(s.drop_last())
    }
}

/// The index of the first decimal point, or the length if there is none.
pub open spec fn dot_pos(p: Seq<char>) -> nat
    decreases p.len(),
{
    if p.len() == 0 {
        0
    } else if p[0] == '.' {
        0
    } else {
        1 + dot_pos(p.drop_first())
    }
}

/// The digits before the decimal point of a numeric run.
pub open spec fn int_digits(p: Seq<char>) -> Seq<char> {
    p.take(dot_pos(p) as int)
}

/// The digits after the decimal point of a numeric run.
pub open spec fn frac_digits(p: Seq<char>) -> Seq<char> {
    if dot_pos(p) < p.len() {
        p.subrange(dot_pos(p) as int + 1, p.len() as int)
    } else {
        Seq::empty()
    }
}

/// A numeric run denotes a number when it holds at most one decimal point
/// and at least one digit.
pub open spec fn mantissa_valid(p: Seq<char>) -> bool {
    &&& forall|i: int| 0 <= i < p.len() ==> is_num_char(#[trigger] p[i])
    &&& forall|i: int| 0 <= i < frac_digits(p).len() ==> is_digit(#[trigger] frac_digits(p)[i])
    &&& int_digits(p).len() + frac_digits(p).len() > 0
}

/// The value of a run of decimal digits, most significant first.
pub open spec fn digits_val(ds: Seq<char>) -> nat
    decreases ds.len(),
{
    if ds.len() == 0 {
        0
    } else {
        digits_val(ds.drop_last()) * 10 + digit_val(ds.last())
    }
}

/// How many fractional digits contribute to a parsed byte count; further
/// digits are below the resolution of any supported tier and are ignored.
pub open spec fn frac_precision() -> nat {
    12
}

/// The fractional digits that contribute to the value.
pub open spec fn frac_taken(p: Seq<char>) -> Seq<char> {
    let f = frac_digits(p);
    if f.len() <= frac_precision() {
        f
    } else {
        f.take(frac_precision() as int)
    }
}

/// The byte count denoted by a valid numeric run at a unit tier:
/// the whole part scaled by `1024^t`, plus the scaled fractional part
/// rounded down, clamped to the largest representable count.
pub open spec fn mantissa_bytes(p: Seq<char>, t: nat) -> nat {
    let f = frac_taken(p);
    let v = digits_val(int_digits(p)) * pow1024(t)
        + digits_val(f) * pow1024(t) / pow10(f.len());
    if v > u64::MAX { u64::MAX as nat } else { v }
}

/// The tier of a unit run, matched case-insensitively; `None` for any
/// unknown unit.
pub open spec fn tier_of_unit(u: Seq<char>) -> Option<nat> {
    if u.len() == 1 && (u[0] == 'B' || u[0] == 'b') {
        Some(0 as nat)
    } else if u.len() == 2 && (u[1] == 'B' || u[1] == 'b') {
        if u[0] == 'K' || u[0] == 'k' {
            Some(1 as nat)
        } else if u[0] == 'M' || u[0] == 'm' {
            Some(2 as nat)
        } else if u[0] == 'G' || u[0] == 'g' {
            Some(3 as nat)
        } else if u[0] == 'T' || u[0] == 't' {
            Some(4 as nat)
        } else {
            None
        }
    } else {
        None
    }
}

/// The byte count a size string parses to: the leading numeric run scaled
/// by the trailing unit's tier; an unknown or missing unit, or a malformed
/// number, gives zero.
pub open spec fn spec_parse_size(s: Seq<char>) -> nat {
    let p = s.take(num_prefix_len(s) as int);
    let u = s.skip(s.len() - unit_suffix_len(s));
    match tier_of_unit(u) {
        Option::None => 0,
        Option::Some(t) => if mantissa_valid(p) {
            mantissa_bytes(p, t)
        } else {
            0
        },
    }
}

/// Every character of the numeric prefix is numeric.
proof fn lemma_num_prefix_chars(s: Seq<char>)
    ensures
        num_prefix_len(s) <= s.len(),
        forall|i: int| 0 <= i < num_prefix_len(s) ==> is_num_char(#[trigger] s[i]),
    decreases s.len(),
{
    if s.len() > 0 && is_num_char(s[0]) {
        lemma_num_prefix_chars(s.drop_first());
        assert forall|i: int| 0 <= i < num_prefix_len(s) implies is_num_char(#[trigger] s[i]) by {
            if i > 0 {
                assert(s.drop_first()[i - 1] == s[i]);
            }
        }
    }
}

/// A scan that stops at the first non-numeric character has found the
/// numeric prefix.
proof fn lemma_num_prefix_scan(s: Seq<char>, j: nat)
    requires
        j <= s.len(),
        forall|k: int| 0 <= k < j ==> is_num_char(#[trigger] s[k]),
        j < s.len() ==> !is_num_char(s[j as int]),
    ensures
        num_prefix_len(s) == j,
    decreases j, s.len(),
{
    if j == 0 {
    } else {
        assert(is_num_char(s[0]));
        let s1 = s.drop_first();
        assert(forall|k: int| 0 <= k < j - 1 ==> s1[k] == s[k + 1] && is_num_char(#[trigger] s1[k]));
        lemma_num_prefix_scan(s1, (j - 1) as nat);
    }
}

/// A scan from the end that stops at the first non-unit character has
/// found the unit suffix.
proof fn lemma_unit_suffix_scan(s: Seq<char>, j: nat)
    requires
        j <= s.len(),
        forall|k: int| s.len() - j <= k < s.len() ==> is_unit_char(#[trigger] s[k]),
        j < s.len() ==> !is_unit_char(s[s.len() - j - 1]),
    ensures
        unit_suffix_len(s) == j,
    decreases j, s.len(),
{
    if j == 0 {
    } else {
        assert(is_unit_char(s.last()));
        let s1 = s.drop_last();
        lemma_unit_suffix_scan(s1, (j - 1) as nat);
    }
}

/// A scan that stops at the first decimal point has found `dot_pos`.
proof fn lemma_dot_pos_scan(p: Seq<char>, j: nat)
    requires
        j <= p.len(),
        forall|k: int| 0 <= k < j ==> #[trigger] p[k] != '.',
        j < p.len() ==> p[j as int] == '.',
    ensures
        dot_pos(p) == j,
    decreases j, p.len(),
{
    if j == 0 {
    } else {
        let p1 = p.drop_first();
        lemma_dot_pos_scan(p1, (j - 1) as nat);
    }
}

/// Reading one more digit multiplies the accumulated value by ten and adds
/// the digit.
pub(crate) proof fn lemma_digits_val_step(ds: Seq<char>, k: int)
    requires
        0 <= k < ds.len(),
    ensures
        digits_val(ds.take(k + 1)) == digits_val(ds.take(k)) * 10 + digit_val(ds[k]),
{
    assert(ds.take(k + 1).drop_last() =~= ds.take(k));
    assert(ds.take(k + 1).last() == ds[k]);
}

/// Whether a character is numeric.
fn num_char(c: char) -> (r: bool)
    ensures
        r == is_num_char(c),
{
    (c >= '0' && c <= '9') || c == '.'
}

/// Whether a character belongs to a unit run.
fn unit_char(c: char) -> (r: bool)
    ensures
        r == is_unit_char(c),
{
    !(c >= '0' && c <= '9') && c != '.' && c != ' ' && c != '\t' && c != '\n' && c != '\r'
}

/// The length of the leading numeric run.
fn scan_num_prefix(text: &str) -> (i: usize)
    ensures
        i as nat == num_prefix_len(text@),
        i <= text@.len(),
{
    let n = text.unicode_len();
    let mut i: usize = 0;
    while i < n
        invariant
            i <= n,
            n as nat == text@.len(),
            forall|k: int| 0 <= k < i ==> is_num_char(#[trigger] text@[k]),
        ensures
            i <= n,
            n as nat == text@.len(),
            forall|k: int| 0 <= k < i ==> is_num_char(#[trigger] text@[k]),
            i < n ==> !is_num_char(text@[i as int]),
        decreases n - i,
    {
        let c = text.get_char(i);
        if !num_char(c) {
            break;
        }
        i = i + 1;
    }
    proof {
        lemma_num_prefix_scan(text@, i as nat);
    }
    i
}

/// The length of the trailing unit run.
fn scan_unit_suffix(text: &str) -> (j: usize)
    ensures
        j as nat == unit_suffix_len(text@),
        j <= text@.len(),
{
    let n = text.unicode_len();
    let mut j: usize = 0;
    while j < n
        invariant
            j <= n,
            n as nat == text@.len(),
            forall|k: int| n - j <= k < n ==> is_unit_char(#[trigger] text@[k]),
        ensures
            j <= n,
            n as nat == text@.len(),
            forall|k: int| n - j <= k < n ==> is_unit_char(#[trigger] text@[k]),
            j < n ==> !is_unit_char(text@[n - j - 1]),
        decreases n - j,
    {
        let c = text.get_char(n - 1 - j);
        if !unit_char(c) {
            break;
        }
        j = j + 1;
    }
    proof {
        lemma_unit_suffix_scan(text@, j as nat);
    }
    j
}

/// The exec table of `pow10` up to the supported fractional precision.
fn pow10_u64(k: usize) -> (r: u64)
    requires
        k <= 12,
    ensures
        r as nat == pow10(k as nat),
        r >= 1,
{
    proof {
        reveal_with_fuel(pow10, 13);
    }
    if k == 0 { 1 }
    else if k == 1 { 10 }
    else if k == 2 { 100 }
    else if k == 3 { 1000 }
    else if k == 4 { 10000 }
    else if k == 5 { 100000 }
    else if k == 6 { 1000000 }
    else if k == 7 { 10000000 }
    else if k == 8 { 100000000 }
    else if k == 9 { 1000000000 }
    else if k == 10 { 10000000000 }
    else if k == 11 { 100000000000 }
    else { 1000000000000 }
}

/// The value of a digit character.
fn digit_of(c: char) -> (d: u64)
    requires
        is_digit(c),
    ensures
        d as nat == digit_val(c),
        d < 10,
{
    (c as u32 - '0' as u32) as u64
}

/// Whether a further decimal point follows position `d` inside the
/// numeric run.
fn has_second_dot(text: &str, d: usize, plen: usize) -> (r: bool)
    requires
        d < plen,
        plen <= text@.len(),
    ensures
        r <==> exists|i: int| d < i < plen && #[trigger] text@[i] == '.',
{
    let mut k: usize = d + 1;
    let mut second_dot: bool = false;
    while k < plen
        invariant
            d + 1 <= k <= plen,
            plen <= text@.len(),
            second_dot <==> exists|i: int| d < i < k && #[trigger] text@[i] == '.',
        decreases plen - k,
    {
        let c = text.get_char(k);
        if c == '.' {
            second_dot = true;
        }
        k = k + 1;
    }
    second_dot
}

/// The byte count denoted by a size string, as [`spec_parse_size`]
/// states it.
fn parse_size_u64(text: &str) -> (r: u64)
    ensures
        r as nat == spec_parse_size(text@),
{
    let n = text.unicode_len();
    let plen = scan_num_prefix(text);
    let slen = scan_unit_suffix(text);
    let ghost s = text@;
    let ghost p = s.take(num_prefix_len(s) as int);
    let ghost u = s.skip(s.len() - unit_suffix_len(s));

    // The unit tier, matched case-insensitively.
    let tier: usize = if slen == 1 {
        let c = text.get_char(n - 1);
        proof {
            assert(u.len() == 1 && u[0] == s[s.len() - 1]);
        }
        if c == 'B' || c == 'b' { 0 } else { 5 }
    } else if slen == 2 {
        let c0 = text.get_char(n - 2);
        let c1 = text.get_char(n - 1);
        proof {
            assert(u.len() == 2 && u[0] == s[s.len() - 2] && u[1] == s[s.len() - 1]);
        }
        if c1 == 'B' || c1 == 'b' {
            if c0 == 'K' || c0 == 'k' { 1 }
            else if c0 == 'M' || c0 == 'm' { 2 }
            else if c0 == 'G' || c0 == 'g' { 3 }
            else if c0 == 'T' || c0 == 't' { 4 }
            else { 5 }
        } else {
            5
        }
    } else {
        5
    };
    if tier == 5 {
        proof {
            assert(tier_of_unit(u) is None);
        }
        return 0;
    }
    proof {
        assert(tier_of_unit(u) == Some(tier as nat));
    }

    // Locate the decimal point inside the numeric run.
    let mut d: usize = 0;
    while d < plen
        invariant
            d <= plen,
            plen as nat == num_prefix_len(s),
            plen <= s.len(),
            s == text@,
            forall|k: int| 0 <= k < d ==> #[trigger] s[k] != '.',
        ensures
            d <= plen,
            s == text@,
            forall|k: int| 0 <= k < d ==> #[trigger] s[k] != '.',
            d < plen ==> s[d as int] == '.',
        decreases plen - d,
    {
        let c = text.get_char(d);
        if c == '.' {
            break;
        }
        d = d + 1;
    }
    proof {
        assert(forall|k: int| 0 <= k < p.len() ==> p[k] == s[k]);
        lemma_dot_pos_scan(p, d as nat);
    }

    // Reject a second decimal point or a run with no digit at all.
    if plen == 0 || (d == 0 && plen == 1) {
        proof {
            assert(!mantissa_valid(p));
        }
        return 0;
    }
    let ghost fd = frac_digits(p);
    if d < plen && has_second_dot(text, d, plen) {
        proof {
            let i = choose|i: int| d < i < plen && #[trigger] s[i] == '.';
            assert(fd[i - d - 1] == s[i]);
            assert(!is_digit(fd[i - d - 1]));
            assert(!mantissa_valid(p));
        }
        return 0;
    }
    proof {
        lemma_num_prefix_chars(s);
        assert(forall|i: int| 0 <= i < p.len() ==> is_num_char(#[trigger] p[i]));
        assert forall|i: int| 0 <= i < fd.len() implies is_digit(#[trigger] fd[i]) by {
            assert(fd[i] == s[d + 1 + i]);
            assert(is_num_char(p[d + 1 + i]));
            assert(!(exists|q: int| d < q < plen && #[trigger] s[q] == '.'));
            assert(s[d + 1 + i] != '.');
        }
        assert(int_digits(p).len() == d);
        assert(mantissa_valid(p));
    }

    // Accumulate the whole part, noting when it can no longer fit.
    let ghost ids = int_digits(p);
    let mut iv: u64 = 0;
    let mut big: bool = false;
    let mut k2: usize = 0;
    while k2 < d
        invariant
            k2 <= d,
            d <= plen,
            plen <= s.len(),
            s == text@,
            p == s.take(plen as int),
            ids == int_digits(p),
            ids.len() == d,
            dot_pos(p) == d,
            forall|i: int| 0 <= i < p.len() ==> is_num_char(#[trigger] p[i]),
            forall|i: int| 0 <= i < ids.len() ==> is_digit(#[trigger] ids[i]),
            !big ==> iv as nat == digits_val(ids.take(k2 as int)),
            big ==> digits_val(ids.take(k2 as int)) > u64::MAX,
        decreases d - k2,
    {
        let c = text.get_char(k2);
        proof {
            assert(ids[k2 as int] == s[k2 as int]);
            lemma_digits_val_step(ids, k2 as int);
        }
        if !big {
            let dv = digit_of(c);
            if iv > (u64::MAX - dv) / 10 {
                big = true;
                proof {
                    let v = iv as nat;
                    let dn = dv as nat;
                    assert(v * 10 + dn > u64::MAX) by (nonlinear_arith)
                        requires
                            v > ((u64::MAX - dn) as nat) / 10,
                            dn < 10;
                }
            } else {
                proof {
                    let v = iv as nat;
                    let dn = dv as nat;
                    assert(v * 10 + dn <= u64::MAX) by (nonlinear_arith)
                        requires
                            v <= ((u64::MAX - dn) as nat) / 10,
                            dn < 10;
                }
                iv = iv * 10 + dv;
            }
        } else {
            proof {
                let v = digits_val(ids.take(k2 as int));
                let dn = digit_val(ids[k2 as int]);
                assert(v * 10 + dn > u64::MAX) by (nonlinear_arith)
                    requires v > u64::MAX, dn >= 0;
            }
        }
        k2 = k2 + 1;
    }
    proof {
        assert(ids.take(d as int) =~= ids);
    }

    // Accumulate the contributing fractional digits.
    let flen: usize = if d >= plen {
        0
    } else if plen - d - 1 > 12 {
        12
    } else {
        plen - d - 1
    };
    let ghost ft = frac_taken(p);
    proof {
        if d < plen {
            assert(fd.take(flen as int) =~= frac_taken(p));
        } else {
            assert(fd =~= frac_taken(p));
        }
    }
    let mut fv: u64 = 0;
    let mut k3: usize = 0;
    while k3 < flen
        invariant
            k3 <= flen,
            flen <= 12,
            d < plen || flen == 0,
            d <= plen,
            d < plen ==> d + 1 + flen <= plen,
            plen <= s.len(),
            s == text@,
            p == s.take(plen as int),
            ft == frac_taken(p),
            flen as nat == ft.len(),
            forall|i: int| 0 <= i < ft.len() ==> is_digit(#[trigger] ft[i]),
            forall|i: int| 0 <= i < ft.len() ==> #[trigger] ft[i] == s[d + 1 + i],
            fv as nat == digits_val(ft.take(k3 as int)),
            fv < pow10(k3 as nat),
        decreases flen - k3,
    {
        let c = text.get_char(d + 1 + k3);
        proof {
            lemma_digits_val_step(ft, k3 as int);
            reveal_with_fuel(pow10, 13);
            let v = fv as nat;
            let dn = digit_val(ft[k3 as int]);
            assert(v * 10 + dn < pow10(k3 as nat) * 10) by (nonlinear_arith)
                requires v < pow10(k3 as nat), dn < 10;
            assert(pow10(k3 as nat + 1) == 10 * pow10(k3 as nat));
            assert(pow10(k3 as nat) * 10 <= pow10(12)) by {
                lemma_pow10_grows(k3 as nat + 1, 12);
            }
        }
        let dv = digit_of(c);
        fv = fv * 10 + dv;
        k3 = k3 + 1;
    }
    proof {
        assert(ft.take(flen as int) =~= ft);
    }

    // Combine: scale each part by the tier and clamp.
    if big {
        proof {
            let ipart = digits_val(ids);
            let t = tier as nat;
            lemma_pow1024_positive(t);
            assert(ipart * pow1024(t) >= ipart) by (nonlinear_arith)
                requires pow1024(t) >= 1, ipart >= 0;
        }
        return u64::MAX;
    }
    let scale = pow1024_u64(tier);
    let den = pow10_u64(flen);
    proof {
        let ipart = iv as nat;
        let fpart = fv as nat;
        let sc = scale as nat;
        lemma_pow1024_values();
        assert(sc <= 0x100_0000_0000);
        assert(ipart * sc <= 0xffff_ffff_ffff_ffff * 0x100_0000_0000) by (nonlinear_arith)
            requires ipart <= 0xffff_ffff_ffff_ffff, sc <= 0x100_0000_0000;
        assert(fpart * sc <= 0xffff_ffff_ffff_ffff * 0x100_0000_0000) by (nonlinear_arith)
            requires fpart <= 0xffff_ffff_ffff_ffff, sc <= 0x100_0000_0000;
        lemma_div_is_ordered(0, (fpart * sc) as int, den as int);
        lemma_div_is_ordered(
            (fpart * sc) as int,
            0xffff_ffff_ffff_ffff * (0x100_0000_0000 as int),
            den as int,
        );
    }
    let total: u128 = (iv as u128) * (scale as u128)
        + (fv as u128) * (scale as u128) / (den as u128);
    proof {
        assert(total as nat == (iv as nat) * (scale as nat)
            + (fv as nat) * (scale as nat) / (den as nat));
    }
    if total > u64::MAX as u128 {
        u64::MAX
    } else {
        total as u64
    }
}

/// `pow10` is monotone in its exponent.
proof fn lemma_pow10_grows(a: nat, b: nat)
    requires
        a <= b,
    ensures
        pow10(a) <= pow10(b),
    decreases b - a,
{
    if a < b {
        lemma_pow10_grows(a, (b - 1) as nat);
        lemma_pow10_positive((b - 1) as nat);
        assert(pow10(b) == 10 * pow10((b - 1) as nat));
        assert(10 * pow10((b - 1) as nat) >= pow10((b - 1) as nat)) by (nonlinear_arith)
            requires pow10((b - 1) as nat) >= 1;
    }
}

impl Size {
    /// Parses a human-readable size such as `"1.5 GB"`: the leading
    /// numeric run scaled by the trailing unit suffix (base 1024).
    /// An unknown or missing unit, or a malformed number, yields zero
    /// bytes rather than an error.
    pub fn parse(text: &str) -> (r: Size)
        ensures
            r.spec_size() as nat == spec_parse_size(text@),
            r.wf(),
    {
        Size::new(parse_size_u64(text))
    }
}

/// Size parsing round trip: for every supported unit tier, one unit at
/// that tier renders as `"1.00 <unit>"`, and parsing that rendering gives
/// back exactly `1024^tier` bytes.
pub proof fn lemma_size_round_trip(k: nat)
    requires
        k <= 4,
    ensures
        spec_render(pow1024(k)) == seq!['1', '.', '0', '0', ' '] + unit_chars(k),
        spec_parse_size(spec_render(pow1024(k))) == pow1024(k),
{
    let b = pow1024(k);
    lemma_pow1024_values();
    lemma_pow1024_positive(k);

    // the tier of 1024^k is k
    vstd::arithmetic::div_mod::lemma_div_by_self(b as int);
    lemma_size_tier_unique(b, k);

    // the hundredths value is exactly 100
    assert(b * 100 + b / 2 == 100 * (b as int) + b / 2) by (nonlinear_arith);
    vstd::arithmetic::div_mod::lemma_fundamental_div_mod_converse(
        (b * 100 + b / 2) as int,
        b as int,
        100,
        (b / 2) as int,
    );
    assert(size_hundredths(b) == 100);

    // hence the rendering is "1.00 <unit>"
    reveal_with_fuel(dec_chars, 2);
    assert(dec_chars(1) =~= seq!['1']);
    let r = spec_render(b);
    assert(r =~= seq!['1', '.', '0', '0', ' '] + unit_chars(k));
    let ulen = unit_chars(k).len() as int;
    assert(r.len() == 5 + ulen);

    // the numeric prefix of the rendering is "1.00"
    assert(r[0] == '1' && r[1] == '.' && r[2] == '0' && r[3] == '0' && r[4] == ' ');
    assert(forall|i: int| 0 <= i < 4 ==> is_num_char(#[trigger] r[i]));
    assert(!is_num_char(r[4]));
    lemma_num_prefix_scan(r, 4);

    // the unit suffix of the rendering is the unit label
    assert(forall|i: int| 5 <= i < r.len() ==> #[trigger] r[i] == unit_chars(k)[i - 5]);
    assert(forall|i: int| r.len() - ulen <= i < r.len() ==> is_unit_char(#[trigger] r[i]));
    assert(!is_unit_char(r[r.len() - ulen - 1]));
    lemma_unit_suffix_scan(r, ulen as nat);
    let u = r.skip(r.len() - ulen);
    assert(u =~= unit_chars(k));
    assert(tier_of_unit(u) == Some(k));

    // the numeric run denotes exactly one unit
    let p = r.take(4);
    assert(p =~= seq!['1', '.', '0', '0']);
    lemma_dot_pos_scan(p, 1);
    let ids = int_digits(p);
    let fds = frac_digits(p);
    assert(ids =~= seq!['1']);
    assert(fds =~= seq!['0', '0']);
    assert(mantissa_valid(p));
    reveal_with_fuel(digits_val, 3);
    assert(digits_val(seq!['1']) == 1) by {
        assert(seq!['1'].drop_last() =~= Seq::<char>::empty());
    }
    assert(digits_val(seq!['0', '0']) == 0) by {
        assert(seq!['0', '0'].drop_last() =~= seq!['0']);
        assert(seq!['0'].drop_last() =~= Seq::<char>::empty());
    }
    let ft = frac_taken(p);
    assert(ft == fds);
    reveal_with_fuel(pow10, 3);
    assert(mantissa_bytes(p, k) == b) by {
        assert(1 * b == b) by (nonlinear_arith);
        assert(0 * b == 0) by (nonlinear_arith);
        vstd::arithmetic::div_mod::lemma_div_of0(100);
    }
}

} // verus!

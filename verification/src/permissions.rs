//! Conversion of unix file permissions between their octal form (`"640"`)
//! and their symbolic form (`"-rw-r-----"`).

use vstd::prelude::*;

verus! {

/// Positional weight of a symbol within an rwx triplet: the read slot counts
/// 4, the write slot 2, the execute slot 1.
pub open spec fn rwx_weight(i: int) -> int {
    if i == 0 {
        4
    } else if i == 1 {
        2
    } else {
        1
    }
}

/// Contribution of one character of a triplet: `'-'` contributes nothing,
/// any other character contributes the full weight of its slot.
pub open spec fn char_weight(c: char, i: int) -> int {
    if c == '-' {
        0
    } else {
        rwx_weight(i)
    }
}

/// The digit encoded by a 3-character rwx triplet, as the weighted sum of
/// its characters; always within `[0, 7]`.
pub open spec fn triplet_value(s: Seq<char>) -> int
    recommends
        s.len() == 3,
{
    char_weight(s[0], 0) + char_weight(s[1], 1) + char_weight(s[2], 2)
}

/// The symbolic triplet for a digit: index 4 gives `r--`, 6 gives `rw-`, ...
pub open spec fn symbol_seq(d: int) -> Seq<char>
    recommends
        0 <= d <= 7,
{
    if d == 0 {
        seq!['-', '-', '-']
    } else if d == 1 {
        seq!['-', '-', 'x']
    } else if d == 2 {
        seq!['-', 'w', '-']
    } else if d == 3 {
        seq!['-', 'w', 'x']
    } else if d == 4 {
        seq!['r', '-', '-']
    } else if d == 5 {
        seq!['r', '-', 'x']
    } else if d == 6 {
        seq!['r', 'w', '-']
    } else {
        seq!['r', 'w', 'x']
    }
}

/// The decimal character for a digit in `[0, 9]`.
pub open spec fn digit_char(d: int) -> char
    recommends
        0 <= d <= 9,
{
    if d == 0 {
        '0'
    } else if d == 1 {
        '1'
    } else if d == 2 {
        '2'
    } else if d == 3 {
        '3'
    } else if d == 4 {
        '4'
    } else if d == 5 {
        '5'
    } else if d == 6 {
        '6'
    } else if d == 7 {
        '7'
    } else if d == 8 {
        '8'
    } else {
        '9'
    }
}

/// The decimal rendering of a natural number, without leading zeros
/// (`0` renders as `"0"`).
pub open spec fn dec_string(n: nat) -> Seq<char>
    decreases n,
{
    if n < 10 {
        seq![digit_char(n as int)]
    } else {
        dec_string(n / 10).push(digit_char((n % 10) as int))
    }
}

/// An octal permission value is acceptable when the whole number is at most
/// 777 and each of its decimal digits is at most 7. The bound on the whole
/// value alone would let numbers such as 80 through, whose tens digit 8 is
/// no permission digit, so each digit is checked on its own as well.
pub open spec fn octal_in_range(n: int) -> bool {
    0 <= n <= 777 && (n / 10) % 10 <= 7 && n % 10 <= 7
}

/// The three permission digits concatenated in owner-group-other order.
pub open spec fn octal_seq(owner: int, group: int, other: int) -> Seq<char> {
    seq![digit_char(owner), digit_char(group), digit_char(other)]
}

/// The 10-character symbolic rendering: the type flag followed by the
/// owner, group and other triplets.
pub open spec fn symbolic_seq(is_dir: bool, owner: int, group: int, other: int) -> Seq<char> {
    (if is_dir {
        seq!['d']
    } else {
        seq!['-']
    }) + symbol_seq(owner) + symbol_seq(group) + symbol_seq(other)
}

/// Errors during permission conversions, each carrying the offending input.
#[derive(Debug, PartialEq)]
pub enum PermissionError {
    InvalidSymbolic(String),
    InvalidOctal(String),
}

/// A unix file permission. The `is_dir` flag is set only when the value was
/// read from a symbolic string starting with `d`; each of the three digits
/// is always within `[0, 7]`.
#[derive(Debug)]
pub struct Permission {
    is_dir: bool,
    owner: u8,
    group: u8,
    other: u8,
}

/// What a successful octal parse of the value `n` returns.
pub open spec fn octal_ok_outcome(r: Result<Permission, PermissionError>, n: int) -> bool {
    &&& r matches Ok(p)
    &&& !p.spec_is_dir()
    &&& p.spec_owner() == n / 100
    &&& p.spec_group() == (n / 10) % 10
    &&& p.spec_other() == n % 10
}

/// What a failed octal parse of the value `n` returns: the error carries the
/// decimal rendering of the offending value.
pub open spec fn octal_err_outcome(r: Result<Permission, PermissionError>, n: int) -> bool {
    &&& r matches Err(e)
    &&& e matches PermissionError::InvalidOctal(s) && s@ == dec_string(n as nat)
}

/// What a successful symbolic parse of the string `s` returns.
pub open spec fn symbolic_ok_outcome(r: Result<Permission, PermissionError>, s: Seq<char>) -> bool {
    &&& r matches Ok(p)
    &&& p.spec_is_dir() == (s[0] == 'd')
    &&& p.spec_owner() == triplet_value(s.subrange(1, 4))
    &&& p.spec_group() == triplet_value(s.subrange(4, 7))
    &&& p.spec_other() == triplet_value(s.subrange(7, 10))
}

/// What a failed symbolic parse of the string `s` returns: the error carries
/// the offending string unchanged.
pub open spec fn symbolic_err_outcome(
    r: Result<Permission, PermissionError>,
    s: Seq<char>,
) -> bool {
    &&& r matches Err(e)
    &&& e matches PermissionError::InvalidSymbolic(t) && t@ == s
}

/// A decimal digit character.
pub open spec fn is_dec_digit(c: char) -> bool {
    48 <= (c as int) && (c as int) <= 57
}

/// The numeric value of a decimal digit character.
pub open spec fn dec_digit_val(c: char) -> int {
    (c as int) - 48
}

/// Every character is a decimal digit.
pub open spec fn all_dec_digits(s: Seq<char>) -> bool {
    forall|i: int| 0 <= i < s.len() ==> is_dec_digit(#[trigger] s[i])
}

/// The number written by a sequence of decimal digit characters.
pub open spec fn dec_value(s: Seq<char>) -> int
    decreases s.len(),
{
    if s.len() == 0 {
        0
    } else {
        dec_value(s.drop_last()) * 10 + dec_digit_val(s.last())
    }
}

/// The digit part of a decimal integer literal as std reads one: an
/// optional leading `'+'` sign is dropped, the rest must be digits.
pub open spec fn int_digits(s: Seq<char>) -> Seq<char> {
    if s.len() > 0 && s[0] == '+' {
        s.subrange(1, s.len() as int)
    } else {
        s
    }
}

/// Whether std's `str::parse::<u16>` accepts the string: an optional
/// leading `'+'`, then at least one digit, and a value that fits.
pub open spec fn parses_as_u16(s: Seq<char>) -> bool {
    let d = int_digits(s);
    d.len() > 0 && all_dec_digits(d) && dec_value(d) <= 65535
}

/// A sequence of digit characters writes a non-negative number.
proof fn lemma_dec_value_nonneg(s: Seq<char>)
    requires
        all_dec_digits(s),
    ensures
        dec_value(s) >= 0,
    decreases s.len(),
{
    if s.len() > 0 {
        assert forall|i: int| 0 <= i < s.drop_last().len() implies is_dec_digit(
            #[trigger] s.drop_last()[i],
        ) by {
            assert(s.drop_last()[i] == s[i]);
        }
        lemma_dec_value_nonneg(s.drop_last());
    }
}

/// Extending a sequence of digit characters never shrinks its value.
proof fn lemma_dec_value_prefix(s: Seq<char>, k: int)
    requires
        all_dec_digits(s),
        0 <= k <= s.len(),
    ensures
        dec_value(s.subrange(0, k)) <= dec_value(s),
    decreases s.len() - k,
{
    if k == s.len() {
        assert(s.subrange(0, k) =~= s);
    } else {
        lemma_dec_value_prefix(s, k + 1);
        let p = s.subrange(0, k + 1);
        assert(p.drop_last() =~= s.subrange(0, k));
        assert forall|i: int| 0 <= i < k implies is_dec_digit(
            #[trigger] s.subrange(0, k)[i],
        ) by {
            assert(s.subrange(0, k)[i] == s[i]);
        }
        lemma_dec_value_nonneg(s.subrange(0, k));
        assert(dec_value(p) == dec_value(s.subrange(0, k)) * 10 + dec_digit_val(s[k]));
        assert(is_dec_digit(s[k]));
    }
}

/// Read a 16-bit value from decimal text exactly as std's
/// `str::parse::<u16>` would: an optional leading `'+'`, then digits; any
/// other character, an empty digit part, or a value over 65535 is refused.
fn parse_u16(s: &str) -> (r: Option<u16>)
    ensures
        parses_as_u16(s@) ==> (r matches Some(v) && v as int == dec_value(int_digits(s@))),
        !parses_as_u16(s@) ==> r is None,
{
    let ghost d = int_digits(s@);
    let len = s.unicode_len();
    if len == 0 {
        return None;
    }
    let first = s.get_char(0);
    let start: usize = if first == '+' {
        1
    } else {
        0
    };
    if start == len {
        proof {
            assert(d.len() == 0);
        }
        return None;
    }
    proof {
        assert(d =~= s@.subrange(start as int, len as int));
        assert(s@.subrange(start as int, start as int) =~= Seq::<char>::empty());
    }
    let mut i: usize = start;
    let mut acc: u32 = 0;
    while i < len
        invariant
            start <= i <= len,
            start < len,
            len == s@.len(),
            acc <= 65535,
            d == int_digits(s@),
            d == s@.subrange(start as int, len as int),
            all_dec_digits(s@.subrange(start as int, i as int)),
            acc as int == dec_value(s@.subrange(start as int, i as int)),
        decreases len - i,
    {
        let ghost pre = s@.subrange(start as int, i as int);
        let c = s.get_char(i);
        let v = c as u32;
        if v < 48 || v > 57 {
            proof {
                assert(d[i - start] == s@[i as int]);
                assert(!is_dec_digit(s@[i as int]));
            }
            return None;
        }
        acc = acc * 10 + (v - 48);
        proof {
            let ext = s@.subrange(start as int, i as int + 1);
            assert(ext.drop_last() =~= pre);
            assert(ext.last() == s@[i as int]);
            assert(is_dec_digit(s@[i as int]));
            assert forall|j: int| 0 <= j < ext.len() implies is_dec_digit(#[trigger] ext[j]) by {
                if j < pre.len() {
                    assert(ext[j] == pre[j]);
                } else {
                    assert(ext[j] == s@[i as int]);
                }
            }
            assert(acc as int == dec_value(ext));
        }
        if acc > 65535 {
            proof {
                if all_dec_digits(d) {
                    assert(s@.subrange(start as int, i as int + 1) =~= d.subrange(
                        0,
                        i as int + 1 - start,
                    ));
                    lemma_dec_value_prefix(d, i as int + 1 - start);
                }
            }
            return None;
        }
        i = i + 1;
    }
    proof {
        assert(s@.subrange(start as int, len as int) == d);
    }
    Some(acc as u16)
}

/// The decimal character for a digit, as a one-character string slice.
fn digit_str(d: u8) -> (r: &'static str)
    requires
        d <= 9,
    ensures
        r@ == seq![digit_char(d as int)],
{
    proof {
        reveal_strlit("0");
        reveal_strlit("1");
        reveal_strlit("2");
        reveal_strlit("3");
        reveal_strlit("4");
        reveal_strlit("5");
        reveal_strlit("6");
        reveal_strlit("7");
        reveal_strlit("8");
        reveal_strlit("9");
    }
    if d == 0 {
        proof {
            assert("0"@ =~= seq![digit_char(0)]);
        }
        "0"
    } else if d == 1 {
        proof {
            assert("1"@ =~= seq![digit_char(1)]);
        }
        "1"
    } else if d == 2 {
        proof {
            assert("2"@ =~= seq![digit_char(2)]);
        }
        "2"
    } else if d == 3 {
        proof {
            assert("3"@ =~= seq![digit_char(3)]);
        }
        "3"
    } else if d == 4 {
        proof {
            assert("4"@ =~= seq![digit_char(4)]);
        }
        "4"
    } else if d == 5 {
        proof {
            assert("5"@ =~= seq![digit_char(5)]);
        }
        "5"
    } else if d == 6 {
        proof {
            assert("6"@ =~= seq![digit_char(6)]);
        }
        "6"
    } else if d == 7 {
        proof {
            assert("7"@ =~= seq![digit_char(7)]);
        }
        "7"
    } else if d == 8 {
        proof {
            assert("8"@ =~= seq![digit_char(8)]);
        }
        "8"
    } else {
        proof {
            assert("9"@ =~= seq![digit_char(9)]);
        }
        "9"
    }
}

/// The symbolic triplet for a digit, as a three-character string slice.
fn symbol_str(d: u8) -> (r: &'static str)
    requires
        d <= 7,
    ensures
        r@ == symbol_seq(d as int),
{
    proof {
        reveal_strlit("---");
        reveal_strlit("--x");
        reveal_strlit("-w-");
        reveal_strlit("-wx");
        reveal_strlit("r--");
        reveal_strlit("r-x");
        reveal_strlit("rw-");
        reveal_strlit("rwx");
    }
    if d == 0 {
        proof {
            assert("---"@ =~= symbol_seq(0));
        }
        "---"
    } else if d == 1 {
        proof {
            assert("--x"@ =~= symbol_seq(1));
        }
        "--x"
    } else if d == 2 {
        proof {
            assert("-w-"@ =~= symbol_seq(2));
        }
        "-w-"
    } else if d == 3 {
        proof {
            assert("-wx"@ =~= symbol_seq(3));
        }
        "-wx"
    } else if d == 4 {
        proof {
            assert("r--"@ =~= symbol_seq(4));
        }
        "r--"
    } else if d == 5 {
        proof {
            assert("r-x"@ =~= symbol_seq(5));
        }
        "r-x"
    } else if d == 6 {
        proof {
            assert("rw-"@ =~= symbol_seq(6));
        }
        "rw-"
    } else {
        proof {
            assert("rwx"@ =~= symbol_seq(7));
        }
        "rwx"
    }
}

/// The decimal rendering of a 16-bit value, digit by digit.
fn u16_dec_string(n: u16) -> (r: String)
    ensures
        r@ == dec_string(n as nat),
    decreases n,
{
    let d = (n % 10) as u8;
    if n < 10 {
        String::from_str(digit_str(d))
    } else {
        let mut s = u16_dec_string(n / 10);
        s.append(digit_str(d));
        s
    }
}

impl Permission {
    /// Every digit of a permission stays within `[0, 7]`.
    #[verifier::type_invariant]
    spec fn wf(self) -> bool {
        self.owner <= 7 && self.group <= 7 && self.other <= 7
    }

    /// Whether the permission was read from a symbolic string starting with `d`.
    pub closed spec fn spec_is_dir(self) -> bool {
        self.is_dir
    }

    /// The owner digit.
    pub closed spec fn spec_owner(self) -> int {
        self.owner as int
    }

    /// The group digit.
    pub closed spec fn spec_group(self) -> int {
        self.group as int
    }

    /// The other digit.
    pub closed spec fn spec_other(self) -> int {
        self.other as int
    }

    /// Reduce one rwx triplet to its digit: `'-'` counts 0, any other
    /// character counts the full weight of its slot (4, 2, 1 in order).
    pub fn convert_rwx(rwx: &str) -> (r: u8)
        requires
            rwx@.len() == 3,
        ensures
            r as int == triplet_value(rwx@),
            r <= 7,
    {
        let c0 = rwx.get_char(0);
        let c1 = rwx.get_char(1);
        let c2 = rwx.get_char(2);
        let w0: u8 = if c0 == '-' {
            0
        } else {
            4
        };
        let w1: u8 = if c1 == '-' {
            0
        } else {
            2
        };
        let w2: u8 = if c2 == '-' {
            0
        } else {
            1
        };
        w0 + w1 + w2
    }

    /// Read a permission from its 10-character symbolic form. Character 0
    /// sets the directory flag (`d` and nothing else), characters 1-3, 4-6
    /// and 7-9 form the owner, group and other triplets. A string of any
    /// other length is rejected; within a triplet every character other
    /// than `'-'` counts as a set bit, whichever letter it is.
    pub fn from_symbolic(input: String) -> (r: Result<Permission, PermissionError>)
        ensures
            input@.len() == 10 ==> symbolic_ok_outcome(r, input@),
            input@.len() != 10 ==> symbolic_err_outcome(r, input@),
    {
        if input.as_str().unicode_len() != 10 {
            return Err(PermissionError::InvalidSymbolic(input));
        }
        let s = input.as_str();
        let dir = s.get_char(0);
        let owner = Permission::convert_rwx(s.substring_char(1, 4));
        let group = Permission::convert_rwx(s.substring_char(4, 7));
        let other = Permission::convert_rwx(s.substring_char(7, 10));
        Ok(Permission { is_dir: dir == 'd', owner, group, other })
    }

    /// Read a permission from an octal value such as 640. The whole value
    /// must be at most 777 and each decimal digit at most 7: a value such
    /// as 80, in range as a whole but with a tens digit of 8, is rejected
    /// rather than let an out-of-range digit into the permission. The
    /// directory flag is always false on this path.
    pub fn from_octal(input: u16) -> (r: Result<Permission, PermissionError>)
        ensures
            octal_in_range(input as int) ==> octal_ok_outcome(r, input as int),
            !octal_in_range(input as int) ==> octal_err_outcome(r, input as int),
    {
        if input > 777 {
            return Err(PermissionError::InvalidOctal(u16_dec_string(input)));
        }
        let mut i = input;
        let other = (i % 10) as u8;
        i = i / 10;
        let group = (i % 10) as u8;
        i = i / 10;
        let owner = (i % 10) as u8;
        proof {
            vstd::arithmetic::div_mod::lemma_div_denominator(input as int, 10, 10);
            vstd::arithmetic::div_mod::lemma_div_is_ordered(input as int, 777, 100);
            vstd::arithmetic::div_mod::lemma_small_mod((input / 100) as nat, 10);
        }
        if group > 7 || other > 7 {
            return Err(PermissionError::InvalidOctal(u16_dec_string(input)));
        }
        Ok(Permission { is_dir: false, owner, group, other })
    }

    /// Read a permission from raw text: text that std's `str::parse::<u16>`
    /// accepts as a number takes the octal path, everything else the
    /// symbolic path.
    pub fn parse(input: String) -> (r: Result<Permission, PermissionError>)
        ensures
            parses_as_u16(input@) ==> ({
                let n = dec_value(int_digits(input@));
                &&& octal_in_range(n) ==> octal_ok_outcome(r, n)
                &&& !octal_in_range(n) ==> octal_err_outcome(r, n)
            }),
            !parses_as_u16(input@) ==> ({
                &&& input@.len() == 10 ==> symbolic_ok_outcome(r, input@)
                &&& input@.len() != 10 ==> symbolic_err_outcome(r, input@)
            }),
    {
        match parse_u16(input.as_str()) {
            Some(v) => Permission::from_octal(v),
            None => Permission::from_symbolic(input),
        }
    }

    /// Render the three digits in owner-group-other order, as in `"640"`.
    pub fn to_octal(&self) -> (r: String)
        ensures
            r@ == octal_seq(self.spec_owner(), self.spec_group(), self.spec_other()),
    {
        proof {
            use_type_invariant(&*self);
        }
        let mut r = String::new();
        r.append(digit_str(self.owner));
        r.append(digit_str(self.group));
        r.append(digit_str(self.other));
        proof {
            assert(r@ =~= octal_seq(self.spec_owner(), self.spec_group(), self.spec_other()));
        }
        r
    }

    /// Render the 10-character symbolic form, as in `"-rw-r-----"`.
    pub fn to_symbolic(&self) -> (r: String)
        ensures
            r@ == symbolic_seq(
                self.spec_is_dir(),
                self.spec_owner(),
                self.spec_group(),
                self.spec_other(),
            ),
    {
        proof {
            use_type_invariant(&*self);
            reveal_strlit("d");
            reveal_strlit("-");
        }
        let dir = if self.is_dir {
            "d"
        } else {
            "-"
        };
        let mut r = String::from_str(dir);
        r.append(symbol_str(self.owner));
        r.append(symbol_str(self.group));
        r.append(symbol_str(self.other));
        proof {
            assert(r@ =~= symbolic_seq(
                self.spec_is_dir(),
                self.spec_owner(),
                self.spec_group(),
                self.spec_other(),
            ));
        }
        r
    }
}

impl Default for Permission {
    /// The all-zero permission: no flags, no bits set.
    fn default() -> (r: Self)
        ensures
            !r.spec_is_dir(),
            r.spec_owner() == 0,
            r.spec_group() == 0,
            r.spec_other() == 0,
    {
        Permission { is_dir: false, owner: 0, group: 0, other: 0 }
    }
}

/// Looking up the symbolic triplet for a digit and re-deriving the digit
/// from that triplet by the weighted-sum rule gives the digit back.
pub proof fn lemma_digit_round_trip(d: int)
    requires
        0 <= d <= 7,
    ensures
        triplet_value(symbol_seq(d)) == d,
{
}

/// The zero-padded 3-digit decimal rendering of a value below 1000.
pub open spec fn dec3_string(n: int) -> Seq<char>
    recommends
        0 <= n <= 999,
{
    seq![digit_char(n / 100), digit_char((n / 10) % 10), digit_char(n % 10)]
}

/// Packing three permission digits into a decimal number keeps the number
/// acceptable for the octal path, the digits come back out of it by the
/// octal parse rule, and rendering them in octal form gives the number's
/// zero-padded 3-digit decimal rendering.
pub proof fn lemma_octal_round_trip(owner: int, group: int, other: int)
    requires
        0 <= owner <= 7,
        0 <= group <= 7,
        0 <= other <= 7,
    ensures
        octal_in_range(100 * owner + 10 * group + other),
        (100 * owner + 10 * group + other) / 100 == owner,
        ((100 * owner + 10 * group + other) / 10) % 10 == group,
        (100 * owner + 10 * group + other) % 10 == other,
        octal_seq(owner, group, other) == dec3_string(100 * owner + 10 * group + other),
{
    let n = 100 * owner + 10 * group + other;
    vstd::arithmetic::div_mod::lemma_fundamental_div_mod_converse(
        n,
        10,
        10 * owner + group,
        other,
    );
    vstd::arithmetic::div_mod::lemma_fundamental_div_mod_converse(
        n,
        100,
        owner,
        10 * group + other,
    );
    vstd::arithmetic::div_mod::lemma_fundamental_div_mod_converse(
        10 * owner + group,
        10,
        owner,
        group,
    );
    assert(octal_seq(owner, group, other) =~= dec3_string(n));
}

/// A triplet written with the canonical letters: each slot holds its own
/// letter or `'-'`.
pub open spec fn canonical_triplet(s: Seq<char>) -> bool
    recommends
        s.len() == 3,
{
    (s[0] == 'r' || s[0] == '-') && (s[1] == 'w' || s[1] == '-') && (s[2] == 'x' || s[2] == '-')
}

/// A 10-character symbolic string in canonical form: the type flag is `d`
/// or `-`, and each triplet holds its own letters.
pub open spec fn canonical_symbolic(s: Seq<char>) -> bool {
    &&& s.len() == 10
    &&& (s[0] == 'd' || s[0] == '-')
    &&& canonical_triplet(s.subrange(1, 4))
    &&& canonical_triplet(s.subrange(4, 7))
    &&& canonical_triplet(s.subrange(7, 10))
}

/// On a canonical triplet, rendering the digit derived from it gives the
/// triplet back.
pub proof fn lemma_triplet_round_trip(s: Seq<char>)
    requires
        s.len() == 3,
        canonical_triplet(s),
    ensures
        symbol_seq(triplet_value(s)) == s,
{
    assert(symbol_seq(triplet_value(s)) =~= s);
}

/// Parsing a canonical 10-character symbolic string by the symbolic rule
/// and rendering the parts symbolically gives the string back.
pub proof fn lemma_symbolic_round_trip(s: Seq<char>)
    requires
        canonical_symbolic(s),
    ensures
        symbolic_seq(
            s[0] == 'd',
            triplet_value(s.subrange(1, 4)),
            triplet_value(s.subrange(4, 7)),
            triplet_value(s.subrange(7, 10)),
        ) == s,
{
    lemma_triplet_round_trip(s.subrange(1, 4));
    lemma_triplet_round_trip(s.subrange(4, 7));
    lemma_triplet_round_trip(s.subrange(7, 10));
    assert(symbolic_seq(
        s[0] == 'd',
        triplet_value(s.subrange(1, 4)),
        triplet_value(s.subrange(4, 7)),
        triplet_value(s.subrange(7, 10)),
    ) =~= s);
}

} // verus!

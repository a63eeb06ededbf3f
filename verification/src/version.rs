//! Semantic versions (major.minor.patch) with standard precedence ordering.
//!
//! Migrations are identified by a version of this form; the migration
//! history is keyed by the rendered version string, so the rendering is
//! proved injective (two distinct versions never collide on one key).

use vstd::prelude::*;

verus! {

/// A semantic version: major.minor.patch.
#[derive(Clone, Copy, Debug, PartialEq, Eq, Structural, Hash, PartialOrd, Ord)]
pub struct Version {
    pub major: u64,
    pub minor: u64,
    pub patch: u64,
}

impl Version {
    /// Standard semantic-version precedence: compare major, then minor,
    /// then patch.
    pub open spec fn spec_lt(self, other: Version) -> bool {
        ||| self.major < other.major
        ||| (self.major == other.major && self.minor < other.minor)
        ||| (self.major == other.major && self.minor == other.minor && self.patch < other.patch)
    }

    pub open spec fn spec_le(self, other: Version) -> bool {
        self.spec_lt(other) || self == other
    }

    /// Build a version from its three components.
    pub fn new(major: u64, minor: u64, patch: u64) -> (v: Version)
        ensures
            v == (Version { major, minor, patch }),
    {
        Version { major, minor, patch }
    }

    /// Precedence test used when sorting the migration history.
    pub fn lt(&self, other: &Version) -> (r: bool)
        ensures
            r == self.spec_lt(*other),
    {
        if self.major != other.major {
            self.major < other.major
        } else if self.minor != other.minor {
            self.minor < other.minor
        } else {
            self.patch < other.patch
        }
    }

    /// Equality on all three components.
    pub fn eq_version(&self, other: &Version) -> (r: bool)
        ensures
            r == (*self == *other),
    {
        self.major == other.major && self.minor == other.minor && self.patch == other.patch
    }
}

/// The decimal digit character for `d` (0 to 9).
pub open spec fn digit_char(d: int) -> char {
    if d == 0 {
        '0'
    } else if d == 1 {
        '1'
    } else if d == 2 {
        '2'
    } else if d == 3 {
        '3'
    } else if d == 4 {
        '4'
    } else if d == 5 {
        '5'
    } else if d == 6 {
        '6'
    } else if d == 7 {
        '7'
    } else if d == 8 {
        '8'
    } else {
        '9'
    }
}

/// The value of a decimal digit character, if it is one.
pub open spec fn char_digit(c: char) -> Option<nat> {
    if c == '0' {
        Some(0)
    } else if c == '1' {
        Some(1)
    } else if c == '2' {
        Some(2)
    } else if c == '3' {
        Some(3)
    } else if c == '4' {
        Some(4)
    } else if c == '5' {
        Some(5)
    } else if c == '6' {
        Some(6)
    } else if c == '7' {
        Some(7)
    } else if c == '8' {
        Some(8)
    } else if c == '9' {
        Some(9)
    } else {
        None
    }
}

/// The decimal rendering of a number, most significant digit first.
pub open spec fn u64_digits(n: nat) -> Seq<char>
    decreases n,
{
    if n < 10 {
        seq![digit_char(n as int)]
    } else {
        u64_digits(n / 10).push(digit_char((n % 10) as int))
    }
}

/// The number a digit string denotes, or nothing if some character is
/// not a digit (the empty string denotes zero).
pub open spec fn digits_val(s: Seq<char>) -> Option<nat>
    decreases s.len(),
{
    if s.len() == 0 {
        Some(0)
    } else {
        match (digits_val(s.drop_last()), char_digit(s.last())) {
            (Some(v), Some(d)) => Some(v * 10 + d),
            _ => None,
        }
    }
}

/// Every character of a rendering is a digit (in particular, none is a
/// separator).
pub open spec fn all_digits(s: Seq<char>) -> bool {
    forall|i: int| 0 <= i < s.len() ==> char_digit(#[trigger] s[i]) is Some
}

/// A rendering is non-empty and consists of digits.
pub proof fn lemma_digits_shape(n: nat)
    ensures
        u64_digits(n).len() >= 1,
        all_digits(u64_digits(n)),
    decreases n,
{
    if n < 10 {
        assert(char_digit(digit_char(n as int)) is Some);
    } else {
        lemma_digits_shape(n / 10);
        let s = u64_digits(n);
        assert(char_digit(digit_char((n % 10) as int)) is Some);
        assert forall|i: int| 0 <= i < s.len() implies char_digit(#[trigger] s[i]) is Some by {
            if i < s.len() - 1 {
                assert(s[i] == u64_digits(n / 10)[i]);
            }
        }
    }
}

/// Reading a rendering back gives the number rendered.
pub proof fn lemma_digits_roundtrip(n: nat)
    ensures
        digits_val(u64_digits(n)) == Some(n),
    decreases n,
{
    reveal_with_fuel(digits_val, 3);
    if n < 10 {
        let s = u64_digits(n);
        assert(s.drop_last() =~= Seq::<char>::empty());
        assert(digits_val(Seq::<char>::empty()) == Some(0nat));
        assert(char_digit(digit_char(n as int)) == Some(n));
    } else {
        lemma_digits_roundtrip(n / 10);
        let s = u64_digits(n);
        assert(s.drop_last() =~= u64_digits(n / 10));
        assert(s.last() == digit_char((n % 10) as int));
        assert(char_digit(digit_char((n % 10) as int)) == Some((n % 10) as nat));
        assert((n / 10) * 10 + n % 10 == n) by {
            vstd::arithmetic::div_mod::lemma_fundamental_div_mod(n as int, 10);
        }
    }
}

/// Two distinct numbers never render alike.
pub proof fn lemma_digits_injective(a: nat, b: nat)
    requires
        u64_digits(a) == u64_digits(b),
    ensures
        a == b,
{
    lemma_digits_roundtrip(a);
    lemma_digits_roundtrip(b);
}

/// The rendered form of a version: "major.minor.patch" in decimal.
pub open spec fn version_string_model(v: Version) -> Seq<char> {
    u64_digits(v.major as nat) + seq!['.'] + u64_digits(v.minor as nat) + seq!['.'] + u64_digits(
        v.patch as nat,
    )
}

/// If two dot-terminated digit prefixes open the same string, the
/// numbers and the remainders agree.
proof fn lemma_digit_prefix_unique(x: nat, y: nat, rest_x: Seq<char>, rest_y: Seq<char>)
    requires
        u64_digits(x) + seq!['.'] + rest_x == u64_digits(y) + seq!['.'] + rest_y,
    ensures
        x == y,
        rest_x == rest_y,
{
    let dx = u64_digits(x);
    let dy = u64_digits(y);
    let s = dx + seq!['.'] + rest_x;
    lemma_digits_shape(x);
    lemma_digits_shape(y);
    assert(char_digit('.') is None);
    if dx.len() < dy.len() {
        assert(s[dx.len() as int] == '.');
        assert(s[dx.len() as int] == dy[dx.len() as int]);
        assert(char_digit(dy[dx.len() as int]) is Some);
        assert(false);
    }
    if dy.len() < dx.len() {
        assert(s[dy.len() as int] == '.');
        assert(s[dy.len() as int] == dx[dy.len() as int]);
        assert(char_digit(dx[dy.len() as int]) is Some);
        assert(false);
    }
    assert(dx =~= dy) by {
        assert forall|i: int| 0 <= i < dx.len() implies dx[i] == dy[i] by {
            assert(dx[i] == s[i]);
            assert(dy[i] == s[i]);
        }
    }
    lemma_digits_injective(x, y);
    assert(s == dy + seq!['.'] + rest_y);
    assert(s.len() == dx.len() + 1 + rest_x.len());
    assert(s.len() == dy.len() + 1 + rest_y.len());
    assert(rest_x.len() == rest_y.len());
    assert(rest_x =~= rest_y) by {
        assert forall|i: int| 0 <= i < rest_x.len() implies rest_x[i] == rest_y[i] by {
            assert(rest_x[i] == (dx + seq!['.'] + rest_x)[dx.len() + 1 + i]);
            assert(rest_y[i] == (dy + seq!['.'] + rest_y)[dy.len() + 1 + i]);
        }
    }
}

/// LAW: version rendering is injective — two distinct versions never
/// collide on one rendered key.
pub proof fn lemma_version_string_injective(a: Version, b: Version)
    requires
        version_string_model(a) == version_string_model(b),
    ensures
        a == b,
{
    let ra = u64_digits(a.minor as nat) + seq!['.'] + u64_digits(a.patch as nat);
    let rb = u64_digits(b.minor as nat) + seq!['.'] + u64_digits(b.patch as nat);
    assert(version_string_model(a) =~= u64_digits(a.major as nat) + seq!['.'] + ra);
    assert(version_string_model(b) =~= u64_digits(b.major as nat) + seq!['.'] + rb);
    lemma_digit_prefix_unique(a.major as nat, b.major as nat, ra, rb);
    lemma_digit_prefix_unique(a.minor as nat, b.minor as nat, u64_digits(a.patch as nat), u64_digits(b.patch as nat));
    lemma_digits_injective(a.patch as nat, b.patch as nat);
}

/// The string slice holding one digit.
fn digit_str(d: u64) -> (r: &'static str)
    requires
        d < 10,
    ensures
        r@ == seq![digit_char(d as int)],
{
    proof {
        reveal_strlit("0");
        reveal_strlit("1");
        reveal_strlit("2");
        reveal_strlit("3");
        reveal_strlit("4");
        reveal_strlit("5");
        reveal_strlit("6");
        reveal_strlit("7");
        reveal_strlit("8");
        reveal_strlit("9");
    }
    if d == 0 {
        proof {
            assert("0"@ =~= seq![digit_char(0)]);
        }
        "0"
    } else if d == 1 {
        proof {
            assert("1"@ =~= seq![digit_char(1)]);
        }
        "1"
    } else if d == 2 {
        proof {
            assert("2"@ =~= seq![digit_char(2)]);
        }
        "2"
    } else if d == 3 {
        proof {
            assert("3"@ =~= seq![digit_char(3)]);
        }
        "3"
    } else if d == 4 {
        proof {
            assert("4"@ =~= seq![digit_char(4)]);
        }
        "4"
    } else if d == 5 {
        proof {
            assert("5"@ =~= seq![digit_char(5)]);
        }
        "5"
    } else if d == 6 {
        proof {
            assert("6"@ =~= seq![digit_char(6)]);
        }
        "6"
    } else if d == 7 {
        proof {
            assert("7"@ =~= seq![digit_char(7)]);
        }
        "7"
    } else if d == 8 {
        proof {
            assert("8"@ =~= seq![digit_char(8)]);
        }
        "8"
    } else {
        proof {
            assert("9"@ =~= seq![digit_char(9)]);
        }
        "9"
    }
}

/// Render a number in decimal.
pub fn u64_to_string(n: u64) -> (s: String)
    ensures
        s@ == u64_digits(n as nat),
    decreases n,
{
    if n < 10 {
        digit_str(n).to_owned()
    } else {
        let mut s = u64_to_string(n / 10);
        s.append(digit_str(n % 10));
        proof {
            assert(u64_digits((n / 10) as nat) + seq![digit_char((n % 10) as int)] =~= u64_digits(
                (n / 10) as nat,
            ).push(digit_char((n % 10) as int)));
        }
        s
    }
}

impl Version {
    /// Render the version as "major.minor.patch".
    pub fn render(&self) -> (s: String)
        ensures
            s@ == version_string_model(*self),
    {
        proof {
            reveal_strlit(".");
        }
        let mut s = u64_to_string(self.major);
        s.append(".");
        let minor = u64_to_string(self.minor);
        s.append(minor.as_str());
        s.append(".");
        let patch = u64_to_string(self.patch);
        s.append(patch.as_str());
        proof {
            assert("."@ =~= seq!['.']);
        }
        s
    }
}

} // verus!

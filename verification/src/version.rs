//! Versions of the program, as the two sides of a connection exchange them.
use vstd::prelude::*;
use vstd::string::StringExecFns;

verus! {

/// A version: three numbers, and where the build came from.
#[derive(PartialEq, Eq, Debug)]
pub struct Version {
    pub major: u32,
    pub minor: u32,
    pub patch: u32,
    pub branch: String,
    pub commit: String,
    pub target: String,
}

/// The numbers `(a, b, c)` come after `(x, y, z)`: the first that differs
/// is the larger.
pub open spec fn comes_after(a: u32, b: u32, c: u32, x: u32, y: u32, z: u32) -> bool {
    a > x || (a == x && b > y) || (a == x && b == y && c > z)
}

/// The character of a decimal digit.
pub open spec fn digit(d: nat) -> char {
    if d == 0 {
        '0'
    } else if d == 1 {
        '1'
    } else if d == 2 {
        '2'
    } else if d == 3 {
        '3'
    } else if d == 4 {
        '4'
    } else if d == 5 {
        '5'
    } else if d == 6 {
        '6'
    } else if d == 7 {
        '7'
    } else if d == 8 {
        '8'
    } else {
        '9'
    }
}

/// A number in decimal digits, without leading zeros.
pub open spec fn decimal(n: nat) -> Seq<char>
    decreases n,
{
    if n < 10 {
        seq![digit(n)]
    } else {
        decimal(n / 10).push(digit(n % 10))
    }
}

/// A version as text: the three numbers with dots between them, a space,
/// and the target.
pub open spec fn version_text(v: Version) -> Seq<char> {
    decimal(v.major as nat) + seq!['.'] + decimal(v.minor as nat) + seq!['.'] + decimal(
        v.patch as nat,
    ) + seq![' '] + v.target@
}

/// The text of a decimal digit.
fn digit_text(d: u32) -> (text: &'static str)
    requires
        d < 10,
    ensures
        text@ == seq![digit(d as nat)],
{
    proof {
        reveal_strlit("0");
        reveal_strlit("1");
        reveal_strlit("2");
        reveal_strlit("3");
        reveal_strlit("4");
        reveal_strlit("5");
        reveal_strlit("6");
        reveal_strlit("7");
        reveal_strlit("8");
        reveal_strlit("9");
    }
    let text = if d == 0 {
        "0"
    } else if d == 1 {
        "1"
    } else if d == 2 {
        "2"
    } else if d == 3 {
        "3"
    } else if d == 4 {
        "4"
    } else if d == 5 {
        "5"
    } else if d == 6 {
        "6"
    } else if d == 7 {
        "7"
    } else if d == 8 {
        "8"
    } else {
        "9"
    };
    text
}

/// A number in decimal digits.
pub fn decimal_text(n: u32) -> (text: String)
    ensures
        text@ == decimal(n as nat),
    decreases n,
{
    if n < 10 {
        String::from_str(digit_text(n))
    } else {
        let mut text = decimal_text(n / 10);
        text.append(digit_text(n % 10));
        text
    }
}

impl Version {
    /// The three numbers of this version come after those of `o`.
    pub open spec fn is_higher(&self, o: &Version) -> bool {
        comes_after(self.major, self.minor, self.patch, o.major, o.minor, o.patch)
    }

    /// The version as text: the three numbers with dots between them, a
    /// space, and the target.
    pub fn to_text(&self) -> (text: String)
        ensures
            text@ == version_text(*self),
    {
        proof {
            reveal_strlit(".");
            reveal_strlit(" ");
        }
        let mut text = decimal_text(self.major);
        text.append(".");
        text.append(decimal_text(self.minor).as_str());
        text.append(".");
        text.append(decimal_text(self.patch).as_str());
        text.append(" ");
        text.append(self.target.as_str());
        text
    }

    /// Whether this version is higher than `o`: major before minor before
    /// patch. Branch, commit and target do not count.
    pub fn higher(&self, o: &Version) -> (r: bool)
        ensures
            r == self.is_higher(o),
    {
        self.major > o.major || self.major == o.major && self.minor > o.minor || self.major
            == o.major && self.minor == o.minor && self.patch > o.patch
    }
}

/// "Higher" is a strict order on the three numbers, and of two versions
/// whose numbers differ one is the higher.
pub proof fn lemma_higher_orders(a: Version, b: Version, c: Version)
    ensures
        !a.is_higher(&a),
        a.is_higher(&b) ==> !b.is_higher(&a),
        a.is_higher(&b) && b.is_higher(&c) ==> a.is_higher(&c),
        a.is_higher(&b) || b.is_higher(&a) || (a.major == b.major && a.minor == b.minor
            && a.patch == b.patch),
{
}

} // verus!

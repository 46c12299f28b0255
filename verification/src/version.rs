//! Version numbers as the records carry them.

use vstd::prelude::*;
use vstd::string::StringExecFns;

verus! {

/// A full game version: four 16-bit components.
#[derive(Clone, Copy, Debug, PartialEq, Eq)]
pub struct Version {
    pub main: u16,
    pub major: u16,
    pub minor: u16,
    pub developer: u16,
}

/// A compact version of three components, as mods carry it.
#[derive(Clone, Copy, Debug, PartialEq, Eq)]
pub struct Version48 {
    pub main: u16,
    pub major: u16,
    pub minor: u16,
}

/// A build number, whose width the format version of the record decides.
#[derive(Clone, Copy, Debug, PartialEq, Eq)]
pub enum BuildNumber {
    Build16(u16),
    Build32(u32),
}

impl Version {
    /// The version as one 64-bit number: `main` in the highest 16 bits,
    /// `developer` in the lowest.
    pub open spec fn packed(self) -> u64 {
        (self.main as int * 0x1_0000_0000_0000 + self.major as int * 0x1_0000_0000
            + self.minor as int * 0x1_0000 + self.developer as int) as u64
    }

    /// The version whose packed form is `packed`.
    pub open spec fn unpacked(packed: u64) -> Version {
        Version {
            main: (packed / 0x1_0000_0000_0000) as u16,
            major: ((packed / 0x1_0000_0000) % 0x1_0000) as u16,
            minor: ((packed / 0x1_0000) % 0x1_0000) as u16,
            developer: (packed % 0x1_0000) as u16,
        }
    }

    /// Unpacking is the inverse of packing.
    pub proof fn lemma_unpacked_packed(self)
        ensures
            Version::unpacked(self.packed()) == self,
    {
        let a = self.main as u64;
        let b = self.major as u64;
        let c = self.minor as u64;
        let d = self.developer as u64;
        let p = (a * 0x1_0000_0000_0000 + b * 0x1_0000_0000 + c * 0x1_0000 + d) as u64;
        assert(p == a * 0x1_0000_0000_0000 + b * 0x1_0000_0000 + c * 0x1_0000 + d);
        assert(p / 0x1_0000_0000_0000 == a && (p / 0x1_0000_0000) % 0x1_0000 == b && (p / 0x1_0000)
            % 0x1_0000 == c && p % 0x1_0000 == d) by (bit_vector)
            requires
                a < 0x1_0000,
                b < 0x1_0000,
                c < 0x1_0000,
                d < 0x1_0000,
                p == a * 0x1_0000_0000_0000 + b * 0x1_0000_0000 + c * 0x1_0000 + d,
        ;
    }

    /// Packing is the inverse of unpacking.
    pub proof fn lemma_packed_unpacked(packed: u64)
        ensures
            Version::unpacked(packed).packed() == packed,
    {
        let a = packed / 0x1_0000_0000_0000;
        let b = (packed / 0x1_0000_0000) % 0x1_0000;
        let c = (packed / 0x1_0000) % 0x1_0000;
        let d = packed % 0x1_0000;
        assert(a < 0x1_0000 && b < 0x1_0000 && c < 0x1_0000 && d < 0x1_0000 && packed == a
            * 0x1_0000_0000_0000 + b * 0x1_0000_0000 + c * 0x1_0000 + d) by (bit_vector)
            requires
                a == packed / 0x1_0000_0000_0000,
                b == (packed / 0x1_0000_0000) % 0x1_0000,
                c == (packed / 0x1_0000) % 0x1_0000,
                d == packed % 0x1_0000,
        ;
    }
}

impl From<Version> for u64 {
    /// The version in its packed form.
    fn from(value: Version) -> (ret: u64) {
        let developer = value.developer as u64;
        let minor = value.minor as u64;
        let major = value.major as u64;
        let main = value.main as u64;
        assert((developer | minor << 16 | major << 32 | main << 48) == main * 0x1_0000_0000_0000
            + major * 0x1_0000_0000 + minor * 0x1_0000 + developer) by (bit_vector)
            requires
                developer < 0x1_0000,
                minor < 0x1_0000,
                major < 0x1_0000,
                main < 0x1_0000,
        ;
        developer | minor << 16 | major << 32 | main << 48
    }
}

impl vstd::std_specs::convert::FromSpecImpl<Version> for u64 {
    open spec fn obeys_from_spec() -> bool {
        true
    }

    open spec fn from_spec(value: Version) -> u64 {
        value.packed()
    }
}

/// The character of one decimal digit.
pub open spec fn digit(d: nat) -> char {
    if d == 0 {
        '0'
    } else if d == 1 {
        '1'
    } else if d == 2 {
        '2'
    } else if d == 3 {
        '3'
    } else if d == 4 {
        '4'
    } else if d == 5 {
        '5'
    } else if d == 6 {
        '6'
    } else if d == 7 {
        '7'
    } else if d == 8 {
        '8'
    } else {
        '9'
    }
}

/// A number in decimal digits, without leading zeros.
pub open spec fn decimal(n: nat) -> Seq<char>
    decreases n,
{
    if n < 10 {
        seq![digit(n)]
    } else {
        decimal(n / 10).push(digit(n % 10))
    }
}

/// One decimal digit as a string.
fn digit_str(d: u32) -> (s: &'static str)
    requires
        d < 10,
    ensures
        s@ == seq![digit(d as nat)],
{
    proof {
        reveal_strlit("0");
        reveal_strlit("1");
        reveal_strlit("2");
        reveal_strlit("3");
        reveal_strlit("4");
        reveal_strlit("5");
        reveal_strlit("6");
        reveal_strlit("7");
        reveal_strlit("8");
        reveal_strlit("9");
    }
    let s = if d == 0 {
        "0"
    } else if d == 1 {
        "1"
    } else if d == 2 {
        "2"
    } else if d == 3 {
        "3"
    } else if d == 4 {
        "4"
    } else if d == 5 {
        "5"
    } else if d == 6 {
        "6"
    } else if d == 7 {
        "7"
    } else if d == 8 {
        "8"
    } else {
        "9"
    };
    assert(s@ =~= seq![digit(d as nat)]);
    s
}

/// A number in decimal digits.
pub fn decimal_string(n: u32) -> (s: String)
    ensures
        s@ == decimal(n as nat),
    decreases n,
{
    let last = digit_str(n % 10);
    if n < 10 {
        String::from_str(last)
    } else {
        let s = decimal_string(n / 10).concat(last);
        assert(s@ =~= decimal(n as nat));
        s
    }
}

impl Version {
    /// The four components in decimal, with dots between them.
    pub open spec fn text(self) -> Seq<char> {
        decimal(self.main as nat) + seq!['.'] + decimal(self.major as nat) + seq!['.'] + decimal(
            self.minor as nat,
        ) + seq!['.'] + decimal(self.developer as nat)
    }

    /// The version as text, such as `1.1.110.0`.
    pub fn to_string(&self) -> (s: String)
        ensures
            s@ == self.text(),
    {
        proof {
            reveal_strlit(".");
        }
        let s = decimal_string(self.main as u32).concat(".").concat(
            decimal_string(self.major as u32).as_str(),
        ).concat(".").concat(decimal_string(self.minor as u32).as_str()).concat(".").concat(
            decimal_string(self.developer as u32).as_str(),
        );
        assert(s@ =~= self.text());
        s
    }
}

impl Version48 {
    /// The three components in decimal, with dots between them.
    pub open spec fn text(self) -> Seq<char> {
        decimal(self.main as nat) + seq!['.'] + decimal(self.major as nat) + seq!['.'] + decimal(
            self.minor as nat,
        )
    }

    /// The version as text, such as `2.0.28`.
    pub fn to_string(&self) -> (s: String)
        ensures
            s@ == self.text(),
    {
        proof {
            reveal_strlit(".");
        }
        let s = decimal_string(self.main as u32).concat(".").concat(
            decimal_string(self.major as u32).as_str(),
        ).concat(".").concat(decimal_string(self.minor as u32).as_str());
        assert(s@ =~= self.text());
        s
    }
}

impl BuildNumber {
    /// The number, whatever its width.
    pub open spec fn number(self) -> nat {
        match self {
            BuildNumber::Build16(x) => x as nat,
            BuildNumber::Build32(x) => x as nat,
        }
    }

    /// The build number in decimal.
    pub fn to_string(&self) -> (s: String)
        ensures
            s@ == decimal(self.number()),
    {
        match self {
            BuildNumber::Build16(x) => decimal_string(*x as u32),
            BuildNumber::Build32(x) => decimal_string(*x),
        }
    }
}

} // verus!

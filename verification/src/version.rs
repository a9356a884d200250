//! Symbol versions.

use vstd::prelude::*;

verus! {

/// Version of a symbol, from 1 to 40. A symbol of version `v` has
/// `4 * v + 17` modules on each side.
#[derive(Copy, Clone, Debug, PartialEq, Eq, Structural)]
pub enum Version {
    /// Version 1, 21 modules wide
    V01,
    /// Version 2, 25 modules wide
    V02,
    /// Version 3, 29 modules wide
    V03,
    /// Version 4, 33 modules wide
    V04,
    /// Version 5, 37 modules wide
    V05,
    /// Version 6, 41 modules wide
    V06,
    /// Version 7, 45 modules wide
    V07,
    /// Version 8, 49 modules wide
    V08,
    /// Version 9, 53 modules wide
    V09,
    /// Version 10, 57 modules wide
    V10,
    /// Version 11, 61 modules wide
    V11,
    /// Version 12, 65 modules wide
    V12,
    /// Version 13, 69 modules wide
    V13,
    /// Version 14, 73 modules wide
    V14,
    /// Version 15, 77 modules wide
    V15,
    /// Version 16, 81 modules wide
    V16,
    /// Version 17, 85 modules wide
    V17,
    /// Version 18, 89 modules wide
    V18,
    /// Version 19, 93 modules wide
    V19,
    /// Version 20, 97 modules wide
    V20,
    /// Version 21, 101 modules wide
    V21,
    /// Version 22, 105 modules wide
    V22,
    /// Version 23, 109 modules wide
    V23,
    /// Version 24, 113 modules wide
    V24,
    /// Version 25, 117 modules wide
    V25,
    /// Version 26, 121 modules wide
    V26,
    /// Version 27, 125 modules wide
    V27,
    /// Version 28, 129 modules wide
    V28,
    /// Version 29, 133 modules wide
    V29,
    /// Version 30, 137 modules wide
    V30,
    /// Version 31, 141 modules wide
    V31,
    /// Version 32, 145 modules wide
    V32,
    /// Version 33, 149 modules wide
    V33,
    /// Version 34, 153 modules wide
    V34,
    /// Version 35, 157 modules wide
    V35,
    /// Version 36, 161 modules wide
    V36,
    /// Version 37, 165 modules wide
    V37,
    /// Version 38, 169 modules wide
    V38,
    /// Version 39, 173 modules wide
    V39,
    /// Version 40, 177 modules wide
    V40,
}

impl Version {
    /// The number of a version, from 1 to 40.
    pub open spec fn spec_number(self) -> int {
        match self {
            Version::V01 => 1,
            Version::V02 => 2,
            Version::V03 => 3,
            Version::V04 => 4,
            Version::V05 => 5,
            Version::V06 => 6,
            Version::V07 => 7,
            Version::V08 => 8,
            Version::V09 => 9,
            Version::V10 => 10,
            Version::V11 => 11,
            Version::V12 => 12,
            Version::V13 => 13,
            Version::V14 => 14,
            Version::V15 => 15,
            Version::V16 => 16,
            Version::V17 => 17,
            Version::V18 => 18,
            Version::V19 => 19,
            Version::V20 => 20,
            Version::V21 => 21,
            Version::V22 => 22,
            Version::V23 => 23,
            Version::V24 => 24,
            Version::V25 => 25,
            Version::V26 => 26,
            Version::V27 => 27,
            Version::V28 => 28,
            Version::V29 => 29,
            Version::V30 => 30,
            Version::V31 => 31,
            Version::V32 => 32,
            Version::V33 => 33,
            Version::V34 => 34,
            Version::V35 => 35,
            Version::V36 => 36,
            Version::V37 => 37,
            Version::V38 => 38,
            Version::V39 => 39,
            Version::V40 => 40,
        }
    }

    /// The side length of a symbol of this version, in modules.
    pub open spec fn spec_size(self) -> int {
        4 * self.spec_number() + 17
    }

    /// Every version has a number from 1 to 40.
    pub proof fn lemma_number_range(self)
        ensures
            1 <= self.spec_number() <= 40,
    {
    }

    /// The number of this version, from 1 to 40.
    pub fn number(self) -> (n: u8)
        ensures
            n == self.spec_number(),
            1 <= n <= 40,
    {
        match self {
            Version::V01 => 1,
            Version::V02 => 2,
            Version::V03 => 3,
            Version::V04 => 4,
            Version::V05 => 5,
            Version::V06 => 6,
            Version::V07 => 7,
            Version::V08 => 8,
            Version::V09 => 9,
            Version::V10 => 10,
            Version::V11 => 11,
            Version::V12 => 12,
            Version::V13 => 13,
            Version::V14 => 14,
            Version::V15 => 15,
            Version::V16 => 16,
            Version::V17 => 17,
            Version::V18 => 18,
            Version::V19 => 19,
            Version::V20 => 20,
            Version::V21 => 21,
            Version::V22 => 22,
            Version::V23 => 23,
            Version::V24 => 24,
            Version::V25 => 25,
            Version::V26 => 26,
            Version::V27 => 27,
            Version::V28 => 28,
            Version::V29 => 29,
            Version::V30 => 30,
            Version::V31 => 31,
            Version::V32 => 32,
            Version::V33 => 33,
            Version::V34 => 34,
            Version::V35 => 35,
            Version::V36 => 36,
            Version::V37 => 37,
            Version::V38 => 38,
            Version::V39 => 39,
            Version::V40 => 40,
        }
    }

    /// The version with the given number, if it is one from 1 to 40.
    pub fn from_number(n: u8) -> (version: Option<Version>)
        ensures
            version is Some <==> 1 <= n <= 40,
            version matches Some(v) ==> v.spec_number() == n,
    {
        match n {
            1 => Some(Version::V01),
            2 => Some(Version::V02),
            3 => Some(Version::V03),
            4 => Some(Version::V04),
            5 => Some(Version::V05),
            6 => Some(Version::V06),
            7 => Some(Version::V07),
            8 => Some(Version::V08),
            9 => Some(Version::V09),
            10 => Some(Version::V10),
            11 => Some(Version::V11),
            12 => Some(Version::V12),
            13 => Some(Version::V13),
            14 => Some(Version::V14),
            15 => Some(Version::V15),
            16 => Some(Version::V16),
            17 => Some(Version::V17),
            18 => Some(Version::V18),
            19 => Some(Version::V19),
            20 => Some(Version::V20),
            21 => Some(Version::V21),
            22 => Some(Version::V22),
            23 => Some(Version::V23),
            24 => Some(Version::V24),
            25 => Some(Version::V25),
            26 => Some(Version::V26),
            27 => Some(Version::V27),
            28 => Some(Version::V28),
            29 => Some(Version::V29),
            30 => Some(Version::V30),
            31 => Some(Version::V31),
            32 => Some(Version::V32),
            33 => Some(Version::V33),
            34 => Some(Version::V34),
            35 => Some(Version::V35),
            36 => Some(Version::V36),
            37 => Some(Version::V37),
            38 => Some(Version::V38),
            39 => Some(Version::V39),
            40 => Some(Version::V40),
            _ => None,
        }
    }

    /// The side length of a symbol of this version, in modules.
    pub fn size(self) -> (n: usize)
        ensures
            n == self.spec_size(),
            21 <= n <= 177,
    {
        let v: usize = self.number() as usize;
        4 * v + 17
    }

    /// The version of a symbol with `n` modules on each side, if there is one.
    pub fn from_n(n: usize) -> (version: Option<Version>)
        ensures
            version is Some <==> (21 <= n <= 177 && (n - 17) % 4 == 0),
            version matches Some(v) ==> v.spec_size() == n,
    {
        if n < 21 || n > 177 || (n - 17) % 4 != 0 {
            None
        } else {
            let v: u8 = ((n - 17) / 4) as u8;
            Version::from_number(v)
        }
    }
}

} // verus!

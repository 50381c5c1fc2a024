//! Path helpers and the human-readable size formatter, including decimal
//! rendering of whole numbers.

use vstd::prelude::*;

use crate::Config;
use crate::paths::FilePath;
use crate::paths::PathModel;
use crate::paths::path_join;
use crate::paths::path_starts_with;
use crate::paths::spec_parse_path;

verus! {

/// The character for one decimal digit.
pub open spec fn digit_char(d: nat) -> char {
    if d == 0 {
        '0'
    } else if d == 1 {
        '1'
    } else if d == 2 {
        '2'
    } else if d == 3 {
        '3'
    } else if d == 4 {
        '4'
    } else if d == 5 {
        '5'
    } else if d == 6 {
        '6'
    } else if d == 7 {
        '7'
    } else if d == 8 {
        '8'
    } else {
        '9'
    }
}

/// The decimal digits of `n`, most significant first.
pub open spec fn dec_chars(n: nat) -> Seq<char>
    decreases n,
{
    if n < 10 {
        seq![digit_char(n)]
    } else {
        dec_chars(n / 10) + seq![digit_char(n % 10)]
    }
}

fn digit_to_str(d: u64) -> (r: &'static str)
    requires
        d < 10,
    ensures
        r@ == seq![digit_char(d as nat)],
{
    proof {
        reveal_strlit("0");
        reveal_strlit("1");
        reveal_strlit("2");
        reveal_strlit("3");
        reveal_strlit("4");
        reveal_strlit("5");
        reveal_strlit("6");
        reveal_strlit("7");
        reveal_strlit("8");
        reveal_strlit("9");
    }
    match d {
        0 => "0",
        1 => "1",
        2 => "2",
        3 => "3",
        4 => "4",
        5 => "5",
        6 => "6",
        7 => "7",
        8 => "8",
        _ => "9",
    }
}

/// Render a whole number in decimal.
pub fn u64_to_string(n: u64) -> (r: String)
    ensures
        r@ == dec_chars(n as nat),
    decreases n,
{
    if n < 10 {
        String::from_str(digit_to_str(n))
    } else {
        let mut s = u64_to_string(n / 10);
        s.append(digit_to_str(n % 10));
        s
    }
}

/// The unit a size is shown in: how many times it can be scaled down by 1024,
/// capped at the largest named unit.
pub open spec fn size_unit(n: nat) -> nat {
    if n < 1024 {
        0
    } else if n < 1048576 {
        1
    } else if n < 1073741824 {
        2
    } else if n < 1099511627776 {
        3
    } else if n < 1125899906842624 {
        4
    } else {
        5
    }
}

/// The divisor belonging to a unit.
pub open spec fn size_divisor(k: nat) -> nat {
    if k == 0 {
        1
    } else if k == 1 {
        1024
    } else if k == 2 {
        1048576
    } else if k == 3 {
        1073741824
    } else if k == 4 {
        1099511627776
    } else {
        1125899906842624
    }
}

/// The unit's name.
pub open spec fn unit_chars(k: nat) -> Seq<char> {
    if k == 0 {
        seq!['B']
    } else if k == 1 {
        seq!['K', 'B']
    } else if k == 2 {
        seq!['M', 'B']
    } else if k == 3 {
        seq!['G', 'B']
    } else if k == 4 {
        seq!['T', 'B']
    } else {
        seq!['P', 'B']
    }
}

/// A size shown for people: scaled into its unit, with two decimal places
/// rounded half up, and the unit's name.
pub open spec fn spec_human_size(n: nat) -> Seq<char> {
    let k = size_unit(n);
    let d = size_divisor(k);
    let w0 = n / d;
    let rem = n % d;
    let h0 = (rem * 100 + d / 2) / d;
    let w = if h0 == 100 {
        w0 + 1
    } else {
        w0
    };
    let h: nat = if h0 == 100 {
        0
    } else {
        h0
    };
    dec_chars(w) + seq!['.'] + seq![digit_char(h / 10), digit_char(h % 10)] + seq![' ']
        + unit_chars(k)
}

fn unit_to_str(k: usize) -> (r: &'static str)
    requires
        k <= 5,
    ensures
        r@ == unit_chars(k as nat),
{
    proof {
        reveal_strlit("B");
        reveal_strlit("KB");
        reveal_strlit("MB");
        reveal_strlit("GB");
        reveal_strlit("TB");
        reveal_strlit("PB");
    }
    match k {
        0 => "B",
        1 => "KB",
        2 => "MB",
        3 => "GB",
        4 => "TB",
        _ => "PB",
    }
}

/// Render a size for people: scaled into the largest fitting unit, with two
/// decimal places.
pub fn human_readable_size(size: u64) -> (r: String)
    ensures
        r@ == spec_human_size(size as nat),
{
    let mut div: u64 = 1;
    let mut unit: usize = 0;
    while size / div >= 1024 && unit < 5
        invariant
            unit <= 5,
            div == size_divisor(unit as nat),
            unit > 0 ==> size as nat >= size_divisor(unit as nat),
        decreases 5 - unit,
    {
        div = div * 1024;
        unit = unit + 1;
    }
    proof {
        assert(unit as nat == size_unit(size as nat));
    }
    let whole0 = size / div;
    let rem = size % div;
    let hund0 = (rem * 100 + div / 2) / div;
    proof {
        let remi = rem as int;
        let divi = div as int;
        assert(remi < divi);
        assert(remi * 100 + divi / 2 < 101 * divi) by (nonlinear_arith)
            requires
                remi < divi,
                0 < divi,
        ;
        assert((remi * 100 + divi / 2) / divi <= 100) by (nonlinear_arith)
            requires
                remi * 100 + divi / 2 < 101 * divi,
                0 <= remi,
                0 < divi,
        ;
        assert(hund0 as int == (remi * 100 + divi / 2) / divi);
        if div == 1 {
            assert(rem == 0);
            assert(hund0 == 0);
        }
    }
    let (whole, hund) = if hund0 == 100 {
        (whole0 + 1, 0u64)
    } else {
        (whole0, hund0)
    };
    let mut s = u64_to_string(whole);
    proof {
        reveal_strlit(".");
        reveal_strlit(" ");
    }
    s.append(".");
    s.append(digit_to_str(hund / 10));
    s.append(digit_to_str(hund % 10));
    s.append(" ");
    s.append(unit_to_str(unit));
    proof {
        assert(s@ =~= spec_human_size(size as nat));
    }
    s
}

/// What tilde expansion yields: the home root for a lone tilde, the remainder
/// joined onto the home root for a leading tilde-and-separator, and the path
/// as written otherwise.
pub open spec fn spec_expand_tilde(s: Seq<char>, home: PathModel) -> PathModel {
    if s =~= seq!['~'] {
        home
    } else if s.len() >= 2 && s[0] == '~' && s[1] == '/' {
        path_join(home, spec_parse_path(s.skip(2)))
    } else {
        spec_parse_path(s)
    }
}

/// Expand a leading tilde in a path to the home root.
pub fn expand_tilde(path: &str, home: &FilePath) -> (r: FilePath)
    ensures
        r@ == spec_expand_tilde(path@, home@),
{
    let n = path.unicode_len();
    if n == 1 && path.get_char(0) == '~' {
        proof {
            assert(path@ =~= seq!['~']);
        }
        return home.dup();
    }
    if n >= 2 && path.get_char(0) == '~' && path.get_char(1) == '/' {
        let rest = path.substring_char(2, n);
        proof {
            assert(rest@ =~= path@.skip(2));
            assert(!(path@ =~= seq!['~']));
        }
        return home.join(&FilePath::parse(rest));
    }
    proof {
        assert(!(path@ =~= seq!['~']));
    }
    FilePath::parse(path)
}

/// What normalization yields: the tilde-expanded path, taken relative to the
/// home root unless absolute.
pub open spec fn spec_normalize_path(s: Seq<char>, home: PathModel) -> PathModel {
    let t = spec_expand_tilde(s, home);
    if t.absolute {
        t
    } else {
        path_join(home, t)
    }
}

/// Normalize a textual path for consistent handling: tilde-expanded, then
/// made absolute against the home root when relative.
pub fn normalize_path(path: &str, config: &Config) -> (r: FilePath)
    ensures
        r@ == spec_normalize_path(path@, config.home_dir@),
{
    let t = expand_tilde(path, &config.home_dir);
    if t.absolute {
        t
    } else {
        config.home_dir.join(&t)
    }
}

/// Whether a path lies inside the home directory.
pub fn is_in_home_dir(path: &FilePath, config: &Config) -> (b: bool)
    ensures
        b == path_starts_with(path@, config.home_dir@),
{
    path.starts_with(&config.home_dir)
}

} // verus!

//! Verified text helpers for the report: decimal rendering of counters,
//! human-readable byte and duration formatting, and truncation of long
//! paths for table cells.

use vstd::prelude::*;
use vstd::string::*;

verus! {

/// The character for a single decimal digit.
pub open spec fn digit_char(d: int) -> char {
    if d == 0 {
        '0'
    } else if d == 1 {
        '1'
    } else if d == 2 {
        '2'
    } else if d == 3 {
        '3'
    } else if d == 4 {
        '4'
    } else if d == 5 {
        '5'
    } else if d == 6 {
        '6'
    } else if d == 7 {
        '7'
    } else if d == 8 {
        '8'
    } else {
        '9'
    }
}

/// The usual decimal representation of a non-negative integer, most
/// significant digit first and without leading zeros (`0` is `"0"`).
pub open spec fn dec_rep(n: int) -> Seq<char>
    decreases n,
{
    if n < 10 {
        seq![digit_char(n)]
    } else {
        dec_rep(n / 10).push(digit_char(n % 10))
    }
}

fn digit_str(d: u64) -> (r: &'static str)
    requires
        d < 10,
    ensures
        r@ == seq![digit_char(d as int)],
{
    if d == 0 {
        proof {
            reveal_strlit("0");
            assert("0"@ =~= seq![digit_char(0)]);
        }
        "0"
    } else if d == 1 {
        proof {
            reveal_strlit("1");
            assert("1"@ =~= seq![digit_char(1)]);
        }
        "1"
    } else if d == 2 {
        proof {
            reveal_strlit("2");
            assert("2"@ =~= seq![digit_char(2)]);
        }
        "2"
    } else if d == 3 {
        proof {
            reveal_strlit("3");
            assert("3"@ =~= seq![digit_char(3)]);
        }
        "3"
    } else if d == 4 {
        proof {
            reveal_strlit("4");
            assert("4"@ =~= seq![digit_char(4)]);
        }
        "4"
    } else if d == 5 {
        proof {
            reveal_strlit("5");
            assert("5"@ =~= seq![digit_char(5)]);
        }
        "5"
    } else if d == 6 {
        proof {
            reveal_strlit("6");
            assert("6"@ =~= seq![digit_char(6)]);
        }
        "6"
    } else if d == 7 {
        proof {
            reveal_strlit("7");
            assert("7"@ =~= seq![digit_char(7)]);
        }
        "7"
    } else if d == 8 {
        proof {
            reveal_strlit("8");
            assert("8"@ =~= seq![digit_char(8)]);
        }
        "8"
    } else {
        proof {
            reveal_strlit("9");
            assert("9"@ =~= seq![digit_char(9)]);
        }
        "9"
    }
}

/// Renders `n` in decimal.
pub fn dec_u64(n: u64) -> (s: String)
    ensures
        s@ == dec_rep(n as int),
    decreases n,
{
    if n < 10 {
        digit_str(n).to_owned()
    } else {
        dec_u64(n / 10).concat(digit_str(n % 10))
    }
}

/// The value shown by [`humanize_bytes`]: the byte count divided down
/// by 1024 until it falls under 1024 or the unit ladder ends at TiB.
pub open spec fn scaled_bytes(b: int) -> int {
    let k = if b >= 1024 {
        b / 1024
    } else {
        b
    };
    let m = if k >= 1024 {
        k / 1024
    } else {
        k
    };
    let g = if m >= 1024 {
        m / 1024
    } else {
        m
    };
    if g >= 1024 {
        g / 1024
    } else {
        g
    }
}

/// The unit shown by [`humanize_bytes`] next to [`scaled_bytes`].
pub open spec fn bytes_unit(b: int) -> Seq<char> {
    if b < 1024 {
        "B"@
    } else if b / 1024 < 1024 {
        "KiB"@
    } else if b / 1024 / 1024 < 1024 {
        "MiB"@
    } else if b / 1024 / 1024 / 1024 < 1024 {
        "GiB"@
    } else {
        "TiB"@
    }
}

/// What [`humanize_bytes`] prints: the scaled value, a space, and the
/// unit.
pub open spec fn humanize_rep(b: int) -> Seq<char> {
    dec_rep(scaled_bytes(b)) + " "@ + bytes_unit(b)
}

/// Renders a byte count with a binary unit, e.g. `1024` as `"1 KiB"`.
pub fn humanize_bytes(bytes: u64) -> (r: String)
    ensures
        r@ == humanize_rep(bytes as int),
{
    let mut b = bytes;
    let mut unit: &'static str = "B";
    if b >= 1024 {
        b = b / 1024;
        unit = "KiB";
    }
    if b >= 1024 {
        b = b / 1024;
        unit = "MiB";
    }
    if b >= 1024 {
        b = b / 1024;
        unit = "GiB";
    }
    if b >= 1024 {
        b = b / 1024;
        unit = "TiB";
    }
    proof {
        assert(b as int == scaled_bytes(bytes as int));
        assert(unit@ == bytes_unit(bytes as int));
    }
    dec_u64(b).concat(" ").concat(unit)
}

/// What [`time_human`] prints for a duration of `t` milliseconds:
/// below one second only milliseconds; otherwise hours, minutes and
/// seconds, each omitted when zero.
pub open spec fn time_rep(t: int) -> Seq<char> {
    if t < 1000 {
        dec_rep(t) + "ms"@
    } else {
        let secs_total = t / 1000;
        let s = secs_total % 60;
        let mins_total = secs_total / 60;
        let m = mins_total % 60;
        let hrs_total = mins_total / 60;
        let h = hrs_total % 60;
        (if h != 0 {
            dec_rep(h) + "h"@
        } else {
            Seq::<char>::empty()
        }) + (if m != 0 {
            dec_rep(m) + "m"@
        } else {
            Seq::<char>::empty()
        }) + (if s != 0 {
            dec_rep(s) + "s"@
        } else {
            Seq::<char>::empty()
        })
    }
}

/// Renders a duration given in milliseconds, as [`time_rep`] says.
pub fn time_human(t: u128) -> (r: String)
    ensures
        r@ == time_rep(t as int),
{
    if t < 1000 {
        return dec_u64(t as u64).concat("ms");
    }
    let secs_total = t / 1000;
    let s = (secs_total % 60) as u64;
    let mins_total = secs_total / 60;
    let m = (mins_total % 60) as u64;
    let hrs_total = mins_total / 60;
    let h = (hrs_total % 60) as u64;
    let ghost hp: Seq<char> = if h != 0 {
        dec_rep(h as int) + "h"@
    } else {
        Seq::<char>::empty()
    };
    let ghost mp: Seq<char> = if m != 0 {
        dec_rep(m as int) + "m"@
    } else {
        Seq::<char>::empty()
    };
    let ghost sp: Seq<char> = if s != 0 {
        dec_rep(s as int) + "s"@
    } else {
        Seq::<char>::empty()
    };
    let mut res = String::new();
    if h != 0 {
        let piece = dec_u64(h).concat("h");
        res.append(piece.as_str());
    }
    proof {
        assert(res@ =~= hp);
    }
    if m != 0 {
        let piece = dec_u64(m).concat("m");
        res.append(piece.as_str());
    }
    proof {
        assert(res@ =~= hp + mp);
    }
    if s != 0 {
        let piece = dec_u64(s).concat("s");
        res.append(piece.as_str());
    }
    proof {
        assert(res@ =~= hp + mp + sp);
        assert(time_rep(t as int) == hp + mp + sp);
    }
    res
}

/// Decides whether two string slices hold the same characters.
pub fn eq_str(a: &str, b: &str) -> (r: bool)
    ensures
        r == (a@ == b@),
{
    let n = a.unicode_len();
    let m = b.unicode_len();
    if n != m {
        return false;
    }
    let mut j: usize = 0;
    while j < n
        invariant
            j <= n,
            n == a@.len(),
            n == b@.len(),
            forall|k: int| 0 <= k < j ==> a@[k] == b@[k],
        decreases n - j,
    {
        if a.get_char(j) != b.get_char(j) {
            return false;
        }
        j += 1;
    }
    proof {
        assert(a@ =~= b@);
    }
    true
}

/// Shortens `s` to at most `max` characters, marking a cut with an
/// ellipsis; lengths are counted in characters.
pub fn truncate(s: &str, max: usize) -> (r: String)
    ensures
        max == 0 ==> r@ == "..."@,
        max != 0 && s@.len() > max ==> r@ == s@.subrange(0, max as int) + "..."@,
        max != 0 && s@.len() <= max ==> r@ == s@,
{
    if max == 0 {
        return "...".to_owned();
    }
    let n = s.unicode_len();
    if n > max {
        s.substring_char(0, max).to_owned().concat("...")
    } else {
        s.to_owned()
    }
}

} // verus!

use vstd::prelude::*;
use crate::decimal::{read_u32, reads_unsigned};

verus! {

/// `s` reads as a 16-bit unsigned number in decimal.
pub open spec fn is_port(s: Seq<char>) -> bool {
    reads_unsigned(s, 65535)
}

/// `i` is the position of the first `:` in `s`.
pub open spec fn first_colon_at(s: Seq<char>, i: int) -> bool {
    &&& 0 <= i < s.len()
    &&& s[i] == ':'
    &&& forall|j: int| 0 <= j < i ==> s[j] != ':'
}

/// `s` has the shape `host:port`: split at its first `:`, the host is not
/// empty and the port reads as a 16-bit number.
pub open spec fn pov_formatted(s: Seq<char>) -> bool {
    exists|i: int| first_colon_at(s, i) && i > 0 && is_port(s.skip(i + 1))
}

/// Whether `port` reads as a 16-bit unsigned number in decimal.
pub fn parse_port(port: &str) -> (r: bool)
    ensures
        r == is_port(port@),
{
    match read_u32(port) {
        Some(value) => value <= 65535,
        None => false,
    }
}

/// Whether a demo's server field looks like `host:port`, the shape it takes
/// when a player recorded the demo from their own point of view.
pub fn is_pov_formatted(s: &str) -> (r: bool)
    ensures
        r == pov_formatted(s@),
{
    let n = s.unicode_len();
    let mut i: usize = 0;
    while i < n
        invariant
            i <= n,
            n == s@.len(),
            forall|j: int| 0 <= j < i ==> s@[j] != ':',
        decreases n - i,
    {
        if s.get_char(i) == ':' {
            assert(first_colon_at(s@, i as int));
            if i == 0 {
                assert forall|m: int| first_colon_at(s@, m) implies m == 0 by {
                    if m > 0 {
                        assert(s@[0] != ':');
                    }
                }
                return false;
            }
            let port = s.substring_char(i + 1, n);
            assert(port@ =~= s@.skip(i + 1));
            let ok = parse_port(port);
            proof {
                assert forall|m: int| first_colon_at(s@, m) implies m == i by {
                    if m < i {
                    } else if m > i {
                        assert(s@[i as int] == ':');
                    }
                }
            }
            return ok;
        }
        i += 1;
    }
    false
}

} // verus!

use vstd::prelude::*;

verus! {

pub open spec fn is_digit(c: char) -> bool {
    '0' <= c && c <= '9'
}

pub open spec fn all_digits(s: Seq<char>) -> bool {
    forall|i: int| 0 <= i < s.len() ==> is_digit(#[trigger] s[i])
}

/// The number that a run of decimal digits writes.
pub open spec fn digits_value(s: Seq<char>) -> int
    decreases s.len(),
{
    if s.len() == 0 {
        0
    } else {
        digits_value(s.drop_last()) * 10 + (s.last() as int - '0' as int)
    }
}

/// The digits of an unsigned number written in decimal: `s` without a
/// leading `+`.
pub open spec fn unsigned_digits(s: Seq<char>) -> Seq<char> {
    if s.len() > 0 && s[0] == '+' {
        s.skip(1)
    } else {
        s
    }
}

/// `s` reads as an unsigned number in decimal, as std reads one: an optional
/// `+`, then at least one digit, with a value of at most `max`.
pub open spec fn reads_unsigned(s: Seq<char>, max: int) -> bool {
    let d = unsigned_digits(s);
    d.len() > 0 && all_digits(d) && digits_value(d) <= max
}

proof fn lemma_value_grows(s: Seq<char>, k: int)
    requires
        all_digits(s),
        0 <= k <= s.len(),
    ensures
        0 <= digits_value(s.take(k)) <= digits_value(s),
    decreases s.len(),
{
    if s.len() > 0 {
        let t = s.drop_last();
        assert(all_digits(t)) by {
            assert forall|i: int| 0 <= i < t.len() implies is_digit(#[trigger] t[i]) by {
                assert(t[i] == s[i]);
            }
        }
        if k == s.len() {
            assert(s.take(k) =~= s);
            lemma_value_grows(t, t.len() as int);
            assert(t.take(t.len() as int) =~= t);
            assert(is_digit(s[s.len() - 1]));
        } else {
            lemma_value_grows(t, k);
            assert(t.take(k) =~= s.take(k));
            lemma_value_grows(t, t.len() as int);
            assert(t.take(t.len() as int) =~= t);
            assert(is_digit(s[s.len() - 1]));
        }
    } else {
        assert(s.take(k) =~= s);
    }
}

/// The value of `s` read as a 32-bit unsigned number in decimal, if it
/// reads as one.
pub fn read_u32(s: &str) -> (r: Option<u32>)
    ensures
        r is Some <==> reads_unsigned(s@, 4294967295),
        r is Some ==> r->Some_0 == digits_value(unsigned_digits(s@)),
{
    let n = s.unicode_len();
    let start: usize = if n > 0 && s.get_char(0) == '+' { 1 } else { 0 };
    let ghost d = unsigned_digits(s@);
    assert(d =~= s@.subrange(start as int, n as int));
    if start == n {
        return None;
    }
    let mut value: u64 = 0;
    let mut k: usize = start;
    while k < n
        invariant
            start <= k <= n,
            n == s@.len(),
            d == s@.subrange(start as int, n as int),
            d == unsigned_digits(s@),
            all_digits(d.take(k - start)),
            value == digits_value(d.take(k - start)),
            value <= 4294967295,
        decreases n - k,
    {
        let c = s.get_char(k);
        let ghost before = d.take(k - start);
        assert(d.take(k + 1 - start).drop_last() =~= before);
        assert(d.take(k + 1 - start).last() == c);
        if c < '0' || c > '9' {
            assert(d[k - start] == c);
            assert(!is_digit(d[k - start]));
            return None;
        }
        assert(all_digits(d.take(k + 1 - start))) by {
            assert forall|i: int| 0 <= i < k + 1 - start implies is_digit(#[trigger] d.take(k + 1 - start)[i]) by {
                if i < k - start {
                    assert(d.take(k + 1 - start)[i] == before[i]);
                }
            }
        }
        let digit = (c as u64) - ('0' as u64);
        value = value * 10 + digit;
        if value > 4294967295 {
            proof {
                if all_digits(d) {
                    lemma_value_grows(d, k + 1 - start);
                }
            }
            return None;
        }
        k += 1;
    }
    assert(d.take(n - start) =~= d);
    Some(value as u32)
}

} // verus!

use vstd::prelude::*;

verus! {

pub open spec fn ascii_upper(c: char) -> char {
    if 'a' <= c && c <= 'z' {
        (((c as u32) - 32) as u8) as char
    } else {
        c
    }
}

/// The string with its ASCII letters in upper case.
pub open spec fn upper(s: Seq<char>) -> Seq<char> {
    s.map_values(|c: char| ascii_upper(c))
}

pub fn ascii_upper_exec(c: char) -> (r: char)
    ensures
        r == ascii_upper(c),
{
    if 'a' <= c && c <= 'z' {
        (((c as u32) - 32) as u8) as char
    } else {
        c
    }
}

/// Whether `s`, with its ASCII letters in upper case, is `lit`.
pub fn eq_upper(s: &str, lit: &str) -> (r: bool)
    ensures
        r == (upper(s@) == lit@),
{
    let n = s.unicode_len();
    if n != lit.unicode_len() {
        proof {
            assert(upper(s@).len() != lit@.len());
        }
        return false;
    }
    let mut i: usize = 0;
    while i < n
        invariant
            n == s@.len(),
            n == lit@.len(),
            i <= n,
            forall|j: int| 0 <= j < i ==> ascii_upper(s@[j]) == lit@[j],
        decreases n - i,
    {
        if ascii_upper_exec(s.get_char(i)) != lit.get_char(i) {
            proof {
                assert(upper(s@)[i as int] != lit@[i as int]);
            }
            return false;
        }
        i = i + 1;
    }
    assert(upper(s@) =~= lit@);
    true
}

} // verus!

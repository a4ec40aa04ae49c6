//! Character-level helpers shared by the configuration loader: equality,
//! lowercasing, decimal formatting and parsing, and whitespace trimming.

use vstd::prelude::*;
use vstd::string::*;

verus! {

/// Relies on String::push: appends the given character to the end of the string.
#[verifier::external_body]
pub fn push_char(s: &mut String, c: char)
    ensures
        final(s)@ == old(s)@.push(c),
{
    s.push(c);
}

pub fn str_eq(a: &str, b: &str) -> (r: bool)
    ensures
        r == (a@ == b@),
{
    let alen: usize = a.unicode_len();
    let blen: usize = b.unicode_len();
    if alen != blen {
        return false;
    }
    let mut i: usize = 0;
    while i < alen
        invariant
            alen == a@.len(),
            blen == b@.len(),
            alen == blen,
            i <= alen,
            forall|j: int| 0 <= j < i ==> a@[j] == b@[j],
        decreases alen - i,
    {
        if a.get_char(i) != b.get_char(i) {
            return false;
        }
        i = i + 1;
    }
    proof {
        assert(a@ =~= b@);
    }
    true
}

/// The Unicode lowercase mapping of a character sequence: what
/// `str::to_lowercase` returns, a function of the characters alone.
pub uninterp spec fn lower_of(s: Seq<char>) -> Seq<char>;

/// Relies on str::to_lowercase: the result depends on the characters alone,
/// and an empty string lowers to itself.
#[verifier::external_body]
pub fn lowercase(s: &str) -> (r: String)
    ensures
        r@ == lower_of(s@),
        s@.len() == 0 ==> r@.len() == 0,
{
    s.to_lowercase()
}

pub open spec fn is_digit(c: char) -> bool {
    '0' <= c && c <= '9'
}

pub open spec fn digit_val(c: char) -> int {
    (c as u32) - 48
}

pub open spec fn all_digits(s: Seq<char>) -> bool {
    forall|i: int| 0 <= i < s.len() ==> is_digit(#[trigger] s[i])
}

/// The number denoted by a sequence of decimal digits, most significant first.
pub open spec fn dec_val(s: Seq<char>) -> int
    decreases s.len(),
{
    if s.len() == 0 {
        0
    } else {
        dec_val(s.drop_last()) * 10 + digit_val(s.last())
    }
}

pub proof fn lemma_dec_val_nonneg(s: Seq<char>)
    requires
        all_digits(s),
    ensures
        dec_val(s) >= 0,
    decreases s.len(),
{
    if s.len() > 0 {
        assert(all_digits(s.drop_last()));
        lemma_dec_val_nonneg(s.drop_last());
    }
}

pub proof fn lemma_dec_val_prefix(s: Seq<char>, i: int)
    requires
        all_digits(s),
        0 <= i <= s.len(),
    ensures
        dec_val(s) >= dec_val(s.take(i)),
    decreases s.len() - i,
{
    if i < s.len() {
        lemma_dec_val_prefix(s, i + 1);
        assert(s.take(i + 1).drop_last() =~= s.take(i));
        assert(all_digits(s.take(i)));
        lemma_dec_val_nonneg(s.take(i));
        assert(dec_val(s.take(i + 1)) == dec_val(s.take(i)) * 10 + digit_val(s.take(i + 1).last()));
        assert(is_digit(s[i]));
    } else {
        assert(s.take(i) =~= s);
    }
}

/// Decimal digits of `n`, most significant first, no leading zeros.
pub open spec fn spec_dec(n: nat) -> Seq<char>
    decreases n,
{
    if n < 10 {
        seq![((n + 48) as u8) as char]
    } else {
        spec_dec(n / 10).push((((n % 10) + 48) as u8) as char)
    }
}

pub fn dec_u16(n: u16) -> (r: String)
    ensures
        r@ == spec_dec(n as nat),
    decreases n,
{
    if n < 10 {
        let mut s: String = String::new();
        push_char(&mut s, ((n as u8) + 48) as char);
        s
    } else {
        let mut s: String = dec_u16(n / 10);
        push_char(&mut s, (((n % 10) as u8) + 48) as char);
        s
    }
}

/// Reads a port-sized number written as plain decimal digits: no sign, no
/// surrounding space, value at most `u16::MAX`.
pub fn parse_u16(s: &str) -> (r: Option<u16>)
    ensures
        r is Some <==> (s@.len() > 0 && all_digits(s@) && dec_val(s@) <= u16::MAX),
        r matches Some(v) ==> v == dec_val(s@),
{
    let len: usize = s.unicode_len();
    if len == 0 {
        return None;
    }
    let mut acc: u32 = 0;
    let mut i: usize = 0;
    while i < len
        invariant
            len == s@.len(),
            0 < len,
            i <= len,
            all_digits(s@.take(i as int)),
            acc == dec_val(s@.take(i as int)),
            acc <= u16::MAX,
        decreases len - i,
    {
        let c: char = s.get_char(i);
        if c < '0' || c > '9' {
            return None;
        }
        let d: u32 = (c as u32) - 48;
        proof {
            assert(s@.take(i + 1).drop_last() =~= s@.take(i as int));
            assert(all_digits(s@.take(i + 1)));
        }
        if acc > 6553 || (acc == 6553 && d > 5) {
            proof {
                assert(dec_val(s@.take(i + 1)) == acc * 10 + d);
                assert(dec_val(s@.take(i + 1)) > u16::MAX);
                if all_digits(s@) {
                    lemma_dec_val_prefix(s@, i + 1);
                }
            }
            return None;
        }
        acc = acc * 10 + d;
        i = i + 1;
    }
    proof {
        assert(s@.take(len as int) =~= s@);
    }
    Some(acc as u16)
}

/// Number of leading space characters.
pub open spec fn lead_ws(s: Seq<char>) -> nat
    decreases s.len(),
{
    if s.len() > 0 && s[0] == ' ' {
        1 + lead_ws(s.drop_first())
    } else {
        0
    }
}

/// Number of trailing space characters.
pub open spec fn trail_ws(s: Seq<char>) -> nat
    decreases s.len(),
{
    if s.len() > 0 && s.last() == ' ' {
        1 + trail_ws(s.drop_last())
    } else {
        0
    }
}

pub proof fn lemma_lead_ws(s: Seq<char>)
    ensures
        lead_ws(s) <= s.len(),
        forall|j: int| 0 <= j < lead_ws(s) ==> s[j] == ' ',
        lead_ws(s) < s.len() ==> s[lead_ws(s) as int] != ' ',
    decreases s.len(),
{
    if s.len() > 0 && s[0] == ' ' {
        lemma_lead_ws(s.drop_first());
        assert forall|j: int| 0 <= j < lead_ws(s) implies s[j] == ' ' by {
            if j > 0 {
                assert(s.drop_first()[j - 1] == s[j]);
            }
        }
    }
}

pub proof fn lemma_trail_ws(s: Seq<char>)
    ensures
        trail_ws(s) <= s.len(),
        forall|j: int| s.len() - trail_ws(s) <= j < s.len() ==> s[j] == ' ',
        trail_ws(s) < s.len() ==> s[s.len() - trail_ws(s) - 1] != ' ',
    decreases s.len(),
{
    if s.len() > 0 && s.last() == ' ' {
        lemma_trail_ws(s.drop_last());
        assert forall|j: int| s.len() - trail_ws(s) <= j < s.len() implies s[j] == ' ' by {
            if j < s.len() - 1 {
                assert(s.drop_last()[j] == s[j]);
            }
        }
    }
}

/// `s` with leading and trailing spaces removed.
pub open spec fn trim_spec(s: Seq<char>) -> Seq<char> {
    let t = s.skip(lead_ws(s) as int);
    t.take(t.len() - trail_ws(t))
}

pub fn trim(s: &str) -> (r: String)
    ensures
        r@ == trim_spec(s@),
{
    let len: usize = s.unicode_len();
    let mut start: usize = 0;
    while start < len && s.get_char(start) == ' '
        invariant
            len == s@.len(),
            start <= len,
            forall|j: int| 0 <= j < start ==> s@[j] == ' ',
        decreases len - start,
    {
        start = start + 1;
    }
    proof {
        lemma_lead_ws(s@);
        assert(lead_ws(s@) == start);
    }
    let mut end: usize = len;
    while end > start && s.get_char(end - 1) == ' '
        invariant
            len == s@.len(),
            start <= end <= len,
            forall|j: int| end <= j < len ==> s@[j] == ' ',
        decreases end,
    {
        end = end - 1;
    }
    let ghost t = s@.skip(start as int);
    proof {
        lemma_trail_ws(t);
        assert(forall|j: int| end - start <= j < t.len() ==> t[j] == s@[j + start] && t[j] == ' ');
        if end > start {
            assert(t[end - start - 1] == s@[end - 1]);
        }
        assert(trail_ws(t) == t.len() - (end - start));
        assert(trim_spec(s@) =~= s@.subrange(start as int, end as int));
    }
    let r: &str = s.substring_char(start, end);
    String::from_str(r)
}

pub fn has_prefix(s: &str, p: &str) -> (r: bool)
    ensures
        r == (s@.len() >= p@.len() && s@.take(p@.len() as int) == p@),
{
    let slen: usize = s.unicode_len();
    let plen: usize = p.unicode_len();
    if slen < plen {
        return false;
    }
    let mut i: usize = 0;
    while i < plen
        invariant
            slen == s@.len(),
            plen == p@.len(),
            plen <= slen,
            i <= plen,
            forall|j: int| 0 <= j < i ==> s@[j] == p@[j],
        decreases plen - i,
    {
        if s.get_char(i) != p.get_char(i) {
            proof {
                assert(s@.take(plen as int)[i as int] != p@[i as int]);
            }
            return false;
        }
        i = i + 1;
    }
    proof {
        assert(s@.take(plen as int) =~= p@);
    }
    true
}

} // verus!

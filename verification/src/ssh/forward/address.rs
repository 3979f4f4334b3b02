//! Network addresses as text.
use vstd::prelude::*;
use vstd::slice::slice_subrange;

use crate::text::{decimal, push_decimal};

verus! {

/// A hexadecimal digit, in lower case.
pub open spec fn hex_digit(n: nat) -> char {
    if n < 10 {
        ('0' as u32 + n) as char
    } else {
        ('a' as u32 + (n - 10)) as char
    }
}

/// The hexadecimal digits of `n`, in lower case and without leading zeroes.
pub open spec fn hex(n: nat) -> Seq<char>
    decreases n,
{
    if n < 16 {
        seq![hex_digit(n)]
    } else {
        hex(n / 16).push(hex_digit(n % 16))
    }
}

/// Four octets with dots between them.
pub open spec fn ipv4_text(o: Seq<u8>) -> Seq<char> {
    decimal(o[0] as nat) + "."@ + decimal(o[1] as nat) + "."@ + decimal(o[2] as nat) + "."@ + decimal(o[3] as nat)
}

/// The eight groups of an IPv6 address.
pub open spec fn groups(o: Seq<u8>) -> Seq<u16> {
    Seq::new(8, |i: int| (256 * o[2 * i] + o[2 * i + 1]) as u16)
}

/// Groups with colons between them.
pub open spec fn group_text(g: Seq<u16>) -> Seq<char>
    decreases g.len(),
{
    if g.len() == 0 {
        Seq::empty()
    } else if g.len() == 1 {
        hex(g[0] as nat)
    } else {
        group_text(g.drop_last()) + ":"@ + hex(g.last() as nat)
    }
}

/// How many groups are zero from the place `i` on.
pub open spec fn zeroes_from(g: Seq<u16>, i: int) -> int
    decreases g.len() - i,
{
    if i < 0 || i >= g.len() || g[i] != 0 {
        0
    } else {
        1 + zeroes_from(g, i + 1)
    }
}

/// Among the first `k` places, the first from which most groups are zero.
pub open spec fn longest_start(g: Seq<u16>, k: int) -> int
    decreases k,
{
    if k <= 1 {
        0
    } else {
        let best = longest_start(g, k - 1);
        if zeroes_from(g, k - 1) > zeroes_from(g, best) {
            k - 1
        } else {
            best
        }
    }
}

/// An IPv6 address: the first of the longest runs of two or more zero groups
/// is shortened to `::`, and an IPv4 address mapped into it keeps its dots.
pub open spec fn ipv6_text(o: Seq<u8>) -> Seq<char> {
    let g = groups(o);
    let start = longest_start(g, 8);
    let len = zeroes_from(g, start);
    if g.take(5) == seq![0u16, 0, 0, 0, 0] && g[5] == 0xffff {
        "::ffff:"@ + ipv4_text(o.skip(12))
    } else if len > 1 {
        group_text(g.take(start)) + "::"@ + group_text(g.skip(start + len))
    } else {
        group_text(g)
    }
}

/// Appends the hexadecimal digits of `n`.
fn push_hex(s: &mut String, n: u16)
    ensures
        final(s)@ == old(s)@ + hex(n as nat),
    decreases n,
{
    if n >= 16 {
        push_hex(s, n / 16);
    }
    let low: u8 = (n % 16) as u8;
    let digit: u8 = if low < 10 {
        48 + low
    } else {
        97 + (low - 10)
    };
    s.push(digit as char);
    assert(s@ =~= old(s)@ + hex(n as nat));
}

/// Appends four octets with dots between them.
fn push_ipv4(s: &mut String, o: &[u8])
    requires
        o@.len() == 4,
    ensures
        final(s)@ == old(s)@ + ipv4_text(o@),
{
    push_decimal(s, o[0] as u64);
    s.push_str(".");
    push_decimal(s, o[1] as u64);
    s.push_str(".");
    push_decimal(s, o[2] as u64);
    s.push_str(".");
    push_decimal(s, o[3] as u64);
    assert(s@ =~= old(s)@ + ipv4_text(o@));
}

/// The text of an IPv4 address.
pub fn ipv4(o: &[u8]) -> (r: String)
    requires
        o@.len() == 4,
    ensures
        r@ == ipv4_text(o@),
{
    let mut s = String::new();
    push_ipv4(&mut s, o);
    assert(s@ =~= ipv4_text(o@));
    s
}

/// Appends groups with colons between them.
fn push_groups(s: &mut String, g: &[u16])
    ensures
        final(s)@ == old(s)@ + group_text(g@),
{
    let mut i: usize = 0;
    assert(old(s)@ + group_text(g@.take(0)) =~= old(s)@);
    while i < g.len()
        invariant
            i <= g@.len(),
            s@ == old(s)@ + group_text(g@.take(i as int)),
        decreases g@.len() - i,
    {
        let ghost now = g@.take(i + 1);
        assert(now.drop_last() =~= g@.take(i as int));
        assert(now.last() == g@[i as int]);
        if i > 0 {
            s.push_str(":");
        }
        push_hex(s, g[i]);
        assert(s@ =~= old(s)@ + group_text(now));
        i = i + 1;
    }
    assert(g@.take(g@.len() as int) =~= g@);
}

/// How many groups are zero from the place `i` on.
fn count_zeroes(g: &[u16], i: usize) -> (r: usize)
    requires
        i <= g@.len(),
    ensures
        r == zeroes_from(g@, i as int),
        i + r <= g@.len(),
    decreases g@.len() - i,
{
    if i >= g.len() || g[i] != 0 {
        0
    } else {
        1 + count_zeroes(g, i + 1)
    }
}

/// The text of an IPv6 address.
pub fn ipv6(o: &[u8]) -> (r: String)
    requires
        o@.len() == 16,
    ensures
        r@ == ipv6_text(o@),
{
    let mut g: Vec<u16> = Vec::new();
    let mut i: usize = 0;
    while i < 8
        invariant
            i <= 8,
            o@.len() == 16,
            g@.len() == i,
            forall|j: int| 0 <= j < i ==> g@[j] == groups(o@)[j],
        decreases 8 - i,
    {
        g.push(256 * o[2 * i] as u16 + o[2 * i + 1] as u16);
        i = i + 1;
    }
    assert(g@ =~= groups(o@));
    let mut out = String::new();
    if g[0] == 0 && g[1] == 0 && g[2] == 0 && g[3] == 0 && g[4] == 0 && g[5] == 0xffff {
        assert(g@.take(5) =~= seq![0u16, 0, 0, 0, 0]);
        out.push_str("::ffff:");
        let tail = slice_subrange(o, 12, 16);
        assert(tail@ =~= o@.skip(12));
        push_ipv4(&mut out, tail);
        assert(out@ =~= ipv6_text(o@));
        return out;
    }
    proof {
        if g@.take(5) == seq![0u16, 0, 0, 0, 0] {
            assert(g@[0] == g@.take(5)[0] && g@[1] == g@.take(5)[1] && g@[2] == g@.take(5)[2] && g@[3]
                == g@.take(5)[3] && g@[4] == g@.take(5)[4]);
        }
    }
    let mut start: usize = 0;
    let mut len: usize = count_zeroes(&g, 0);
    let mut k: usize = 1;
    while k < 8
        invariant
            1 <= k <= 8,
            g@.len() == 8,
            start < 8,
            start == longest_start(g@, k as int),
            len == zeroes_from(g@, start as int),
            start + len <= 8,
        decreases 8 - k,
    {
        let here: usize = count_zeroes(&g, k);
        if here > len {
            start = k;
            len = here;
        }
        k = k + 1;
    }
    if len > 1 {
        let head = slice_subrange(&g, 0, start);
        let tail = slice_subrange(&g, start + len, g.len());
        assert(head@ =~= g@.take(start as int));
        assert(tail@ =~= g@.skip(start + len));
        push_groups(&mut out, head);
        out.push_str("::");
        push_groups(&mut out, tail);
    } else {
        push_groups(&mut out, &g);
    }
    assert(out@ =~= ipv6_text(o@));
    out
}

/// The longest run of zero groups is the one that is shortened, and of equal ones
/// the first.
pub proof fn the_first_longest_run_is_shortened(g: Seq<u16>, k: int, i: int)
    requires
        0 <= i < k,
    ensures
        0 <= longest_start(g, k) < k,
        zeroes_from(g, i) <= zeroes_from(g, longest_start(g, k)),
        i < longest_start(g, k) ==> zeroes_from(g, i) < zeroes_from(g, longest_start(g, k)),
    decreases k,
{
    if k > 1 {
        if i < k - 1 {
            the_first_longest_run_is_shortened(g, k - 1, i);
        } else {
            the_first_longest_run_is_shortened(g, k - 1, 0);
        }
    }
}

/// A run of zero groups ends at the first that is not zero.
pub proof fn a_run_ends_at_a_group(g: Seq<u16>, i: int)
    requires
        0 <= i <= g.len(),
    ensures
        0 <= zeroes_from(g, i) <= g.len() - i,
        forall|j: int| i <= j < i + zeroes_from(g, i) ==> #[trigger] g[j] == 0,
        i + zeroes_from(g, i) < g.len() ==> g[i + zeroes_from(g, i)] != 0,
    decreases g.len() - i,
{
    if i < g.len() && g[i] == 0 {
        a_run_ends_at_a_group(g, i + 1);
    }
}

/// The value of hexadecimal digits.
pub open spec fn hex_value(s: Seq<char>) -> nat
    decreases s.len(),
{
    if s.len() == 0 {
        0
    } else {
        let c = s.last() as u32;
        16 * hex_value(s.drop_last()) + (if c >= 97 {
            (c - 87) as nat
        } else {
            (c - 48) as nat
        })
    }
}

/// A group that is written out reads back as itself.
pub proof fn a_written_group_reads_back(n: nat)
    ensures
        hex_value(hex(n)) == n,
        hex(n).len() > 0,
    decreases n,
{
    if n < 16 {
        assert(hex(n).drop_last() =~= Seq::empty());
        assert(hex_value(hex(n).drop_last()) == 0);
    } else {
        a_written_group_reads_back(n / 16);
        assert(hex(n).drop_last() =~= hex(n / 16));
    }
}

/// A group is its two octets, the high one first.
pub proof fn a_group_is_two_octets(o: Seq<u8>, i: int)
    requires
        o.len() == 16,
        0 <= i < 8,
    ensures
        groups(o).len() == 8,
        groups(o)[i] == 256 * o[2 * i] + o[2 * i + 1],
{
}

/// Groups are written in order, with a colon between them and nowhere else.
pub proof fn groups_stand_in_order(g: Seq<u16>, last: u16)
    ensures
        group_text(seq![last]) == hex(last as nat),
        g.len() > 0 ==> group_text(g.push(last)) == group_text(g) + ":"@ + hex(last as nat),
        group_text(Seq::empty()).len() == 0,
{
    assert(g.push(last).drop_last() =~= g);
}

/// An IPv6 address is its groups; the first of its longest runs of two or more
/// zero groups is left out, with two colons in its place. An IPv4 address that is
/// mapped into it keeps its dots.
pub proof fn an_ipv6_address_is_its_groups(o: Seq<u8>, start: int)
    requires
        o.len() == 16,
        0 <= start < 8,
        forall|j: int| 0 <= j < 8 ==> #[trigger] zeroes_from(groups(o), j) <= zeroes_from(groups(o), start),
        forall|j: int| 0 <= j < start ==> #[trigger] zeroes_from(groups(o), j) < zeroes_from(groups(o), start),
    ensures
        ({
            let g = groups(o);
            let n = zeroes_from(g, start);
            let mapped = (forall|j: int| 0 <= j < 5 ==> #[trigger] g[j] == 0) && g[5] == 0xffff;
            &&& mapped ==> ipv6_text(o) == "::ffff:"@ + decimal(o[12] as nat) + "."@ + decimal(o[13] as nat) + "."@
                + decimal(o[14] as nat) + "."@ + decimal(o[15] as nat)
            &&& !mapped && n > 1 ==> ipv6_text(o) == group_text(g.take(start)) + "::"@ + group_text(g.skip(start + n))
            &&& !mapped && n <= 1 ==> ipv6_text(o) == group_text(g)
        }),
{
    let g = groups(o);
    let best = longest_start(g, 8);
    the_first_longest_run_is_shortened(g, 8, start);
    assert(zeroes_from(g, best) <= zeroes_from(g, start));
    if best < start {
        assert(zeroes_from(g, best) < zeroes_from(g, start));
    }
    assert(best == start);
    let mapped = (forall|j: int| 0 <= j < 5 ==> #[trigger] g[j] == 0) && g[5] == 0xffff;
    let none = seq![0u16, 0, 0, 0, 0];
    if mapped {
        assert(g.take(5) =~= none);
        let rest = ipv4_text(o.skip(12));
        assert("::ffff:"@ + rest =~= "::ffff:"@ + decimal(o[12] as nat) + "."@ + decimal(o[13] as nat) + "."@ + decimal(
            o[14] as nat,
        ) + "."@ + decimal(o[15] as nat));
    } else if g.take(5) == none {
        assert forall|j: int| 0 <= j < 5 implies #[trigger] g[j] == 0 by {
            assert(g.take(5)[j] == none[j]);
        }
    }
}

} // verus!

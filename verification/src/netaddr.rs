//! Textual IP addresses and ports: the grammar of dotted-quad IPv4
//! addresses, of IPv6 addresses (with `::` compression and an optional
//! embedded IPv4 tail) and of decimal port numbers, with verified parsers.
use vstd::prelude::*;

verus! {

// ───────────────────────────── splitting ─────────────────────────────

/// Index of the first `c` in `s`.
pub open spec fn index_of(s: Seq<char>, c: char) -> Option<int> {
    if exists|i: int| 0 <= i < s.len() && s[i] == c {
        Some(choose|i: int| 0 <= i < s.len() && s[i] == c && forall|j: int| 0 <= j < i ==> s[j] != c)
    } else {
        None
    }
}

/// `s.split(c)`: the pieces between occurrences of `c` (always at least one).
#[verifier::opaque]
pub open spec fn split_char(s: Seq<char>, c: char) -> Seq<Seq<char>>
    decreases s.len(),
{
    match index_of(s, c) {
        Some(i) => if 0 <= i < s.len() {
            seq![s.take(i)] + split_char(s.skip(i + 1), c)
        } else {
            seq![s]
        },
        None => seq![s],
    }
}

proof fn lemma_index_of(s: Seq<char>, c: char, i: int)
    requires
        0 <= i < s.len(),
        s[i] == c,
        forall|j: int| 0 <= j < i ==> s[j] != c,
    ensures
        index_of(s, c) == Some(i),
{
    let k = choose|k: int| 0 <= k < s.len() && s[k] == c && forall|j: int| 0 <= j < k ==> s[j] != c;
    if k < i {
    } else if k > i {
        assert(s[i] != c);
    }
}

proof fn lemma_split_step(s: Seq<char>, c: char, start: int, i: int)
    requires
        0 <= start <= i < s.len(),
        s[i] == c,
        forall|j: int| start <= j < i ==> s[j] != c,
    ensures
        split_char(s.skip(start), c) == seq![s.subrange(start, i)] + split_char(s.skip(i + 1), c),
{
    let rest = s.skip(start);
    assert forall|j: int| 0 <= j < i - start implies rest[j] != c by {
        assert(rest[j] == s[start + j]);
    }
    assert(rest[i - start] == c);
    lemma_index_of(rest, c, i - start);
    assert(rest.take(i - start) =~= s.subrange(start, i));
    assert(rest.skip(i - start + 1) =~= s.skip(i + 1));
    reveal_with_fuel(split_char, 1);
}

proof fn lemma_split_last(s: Seq<char>, c: char, start: int)
    requires
        0 <= start <= s.len(),
        forall|j: int| start <= j < s.len() ==> s[j] != c,
    ensures
        split_char(s.skip(start), c) == seq![s.skip(start)],
{
    reveal_with_fuel(split_char, 1);
    let rest = s.skip(start);
    assert(!(exists|j: int| 0 <= j < rest.len() && rest[j] == c)) by {
        assert forall|j: int| 0 <= j < rest.len() implies rest[j] != c by {
            assert(rest[j] == s[start + j]);
        }
    }
}

/// `s.split(c)` as character vectors.
pub fn split_on(s: &Vec<char>, c: char) -> (parts: Vec<Vec<char>>)
    ensures
        parts@.map_values(|p: Vec<char>| p@) == split_char(s@, c),
{
    let mut parts: Vec<Vec<char>> = Vec::new();
    let ghost ps: Seq<Seq<char>> = Seq::empty();
    let mut cur: Vec<char> = Vec::new();
    let mut start: usize = 0;
    let mut i: usize = 0;
    assert(s@.skip(0) =~= s@);
    while i < s.len()
        invariant
            start <= i <= s.len(),
            cur@ == s@.subrange(start as int, i as int),
            forall|j: int| start <= j < i ==> s@[j] != c,
            parts@.len() == ps.len(),
            forall|k: int| 0 <= k < ps.len() ==> #[trigger] parts@[k]@ == ps[k],
            ps + split_char(s@.skip(start as int), c) == split_char(s@, c),
        decreases s.len() - i,
    {
        if s[i] == c {
            proof {
                lemma_split_step(s@, c, start as int, i as int);
                assert(ps.push(cur@) + split_char(s@.skip(i + 1), c) =~= ps + split_char(s@.skip(start as int), c));
                ps = ps.push(cur@);
            }
            parts.push(cur);
            cur = Vec::new();
            start = i + 1;
        } else {
            cur.push(s[i]);
        }
        i += 1;
    }
    proof {
        lemma_split_last(s@, c, start as int);
        assert(s@.skip(start as int) =~= cur@);
        ps = ps.push(cur@);
    }
    parts.push(cur);
    assert(parts@.map_values(|p: Vec<char>| p@) =~= ps);
    parts
}

// ───────────────────────────── digits and numbers ─────────────────────────────

pub open spec fn is_digit(c: char) -> bool {
    '0' <= c && c <= '9'
}

pub open spec fn is_hex(c: char) -> bool {
    ('0' <= c && c <= '9') || ('a' <= c && c <= 'f') || ('A' <= c && c <= 'F')
}

pub open spec fn digit_val(c: char) -> nat {
    ((c as int) - 48) as nat
}

pub open spec fn hex_val(c: char) -> nat {
    if '0' <= c && c <= '9' {
        ((c as int) - 48) as nat
    } else if 'a' <= c && c <= 'f' {
        ((c as int) - 87) as nat
    } else {
        ((c as int) - 55) as nat
    }
}

pub open spec fn all_digits(s: Seq<char>) -> bool {
    forall|i: int| 0 <= i < s.len() ==> is_digit(#[trigger] s[i])
}

pub open spec fn all_hex(s: Seq<char>) -> bool {
    forall|i: int| 0 <= i < s.len() ==> is_hex(#[trigger] s[i])
}

/// Value of a string of decimal digits.
pub open spec fn dec_value(s: Seq<char>) -> nat
    decreases s.len(),
{
    if s.len() == 0 {
        0
    } else {
        dec_value(s.drop_last()) * 10 + digit_val(s.last())
    }
}

/// Value of a string of hexadecimal digits.
pub open spec fn hex_value(s: Seq<char>) -> nat
    decreases s.len(),
{
    if s.len() == 0 {
        0
    } else {
        hex_value(s.drop_last()) * 16 + hex_val(s.last())
    }
}

proof fn lemma_dec_value_step(s: Seq<char>, k: int)
    requires
        0 <= k < s.len(),
    ensures
        dec_value(s.take(k + 1)) == dec_value(s.take(k)) * 10 + digit_val(s[k]),
{
    assert(s.take(k + 1).drop_last() =~= s.take(k));
}

proof fn lemma_hex_value_step(s: Seq<char>, k: int)
    requires
        0 <= k < s.len(),
    ensures
        hex_value(s.take(k + 1)) == hex_value(s.take(k)) * 16 + hex_val(s[k]),
{
    assert(s.take(k + 1).drop_last() =~= s.take(k));
}

/// A decimal value only grows as digits are appended.
proof fn lemma_dec_value_prefix(s: Seq<char>, k: int)
    requires
        0 <= k <= s.len(),
        all_digits(s),
    ensures
        dec_value(s.take(k)) <= dec_value(s),
    decreases s.len() - k,
{
    if k < s.len() {
        lemma_dec_value_step(s, k);
        lemma_dec_value_prefix(s, k + 1);
    } else {
        assert(s.take(k) =~= s);
    }
}

/// An IPv4 octet: 1–3 decimal digits, no leading zero, at most 255.
pub open spec fn octet_ok(s: Seq<char>) -> bool {
    1 <= s.len() <= 3 && all_digits(s) && (s.len() == 1 || s[0] != '0') && dec_value(s) <= 255
}

/// A dotted-quad IPv4 address (as `Ipv4Addr`'s `FromStr` accepts it) and
/// its 32-bit value.
pub open spec fn ipv4_spec(s: Seq<char>) -> Option<nat> {
    let p = split_char(s, '.');
    if p.len() == 4 && octet_ok(p[0]) && octet_ok(p[1]) && octet_ok(p[2]) && octet_ok(p[3]) {
        Some(((dec_value(p[0]) * 256 + dec_value(p[1])) * 256 + dec_value(p[2])) * 256 + dec_value(p[3]))
    } else {
        None
    }
}

/// An IPv6 group: 1–4 hexadecimal digits.
pub open spec fn group_ok(s: Seq<char>) -> bool {
    1 <= s.len() <= 4 && all_hex(s)
}

pub open spec fn groups_ok(ps: Seq<Seq<char>>) -> bool {
    forall|i: int| 0 <= i < ps.len() ==> group_ok(#[trigger] ps[i])
}

pub open spec fn group_vals(ps: Seq<Seq<char>>) -> Seq<nat> {
    ps.map_values(|p: Seq<char>| hex_value(p))
}

/// The two 16-bit groups of an embedded IPv4 address.
pub open spec fn v4_groups(v: nat) -> Seq<nat> {
    seq![v / 65536, v % 65536]
}

/// Groups of a `:`-separated run whose last piece may be an embedded IPv4 address.
pub open spec fn run_groups(ps: Seq<Seq<char>>) -> Option<Seq<nat>> {
    if groups_ok(ps) {
        Some(group_vals(ps))
    } else if ps.len() >= 1 && groups_ok(ps.drop_last()) && ipv4_spec(ps.last()) is Some {
        Some(group_vals(ps.drop_last()) + v4_groups(ipv4_spec(ps.last()).unwrap()))
    } else {
        None
    }
}

/// The pieces of a possibly empty `:`-separated run.
pub open spec fn run_pieces(s: Seq<char>) -> Seq<Seq<char>> {
    if s.len() == 0 { Seq::empty() } else { split_char(s, ':') }
}

/// The eight groups of an IPv6 address (as `Ipv6Addr`'s `FromStr` accepts it):
/// eight groups, or fewer around one `::` standing for at least one zero group.
pub open spec fn ipv6_groups(s: Seq<char>) -> Option<Seq<nat>> {
    match crate::text::first_occurrence(s, "::"@) {
        None => match run_groups(split_char(s, ':')) {
            Some(g) => if g.len() == 8 { Some(g) } else { None },
            None => None,
        },
        Some(i) => {
            let hp = run_pieces(s.take(i));
            match run_groups(run_pieces(s.skip(i + 2))) {
                Some(tg) => if groups_ok(hp) && hp.len() + tg.len() <= 7 {
                    Some(group_vals(hp) + Seq::new((8 - hp.len() - tg.len()) as nat, |k: int| 0nat) + tg)
                } else {
                    None
                },
                None => None,
            }
        },
    }
}

/// Big-endian value of 16-bit groups.
pub open spec fn groups_value(g: Seq<nat>) -> nat
    decreases g.len(),
{
    if g.len() == 0 {
        0
    } else {
        groups_value(g.drop_last()) * 65536 + g.last()
    }
}

/// The 128-bit value of an IPv6 address text.
pub open spec fn ipv6_spec(s: Seq<char>) -> Option<nat> {
    match ipv6_groups(s) {
        Some(g) => Some(groups_value(g)),
        None => None,
    }
}

/// A port as `u16`'s `FromStr` accepts it: an optional `+`, then decimal
/// digits worth at most 65535.
pub open spec fn u16_digits(s: Seq<char>) -> Seq<char> {
    if s.len() > 0 && s[0] == '+' { s.drop_first() } else { s }
}

pub open spec fn u16_spec(s: Seq<char>) -> Option<nat> {
    let d = u16_digits(s);
    if d.len() > 0 && all_digits(d) && dec_value(d) <= 65535 {
        Some(dec_value(d))
    } else {
        None
    }
}

// ───────────────────────────── parsers ─────────────────────────────

fn is_digit_exec(c: char) -> (b: bool)
    ensures
        b == is_digit(c),
{
    '0' <= c && c <= '9'
}

fn is_hex_exec(c: char) -> (b: bool)
    ensures
        b == is_hex(c),
{
    ('0' <= c && c <= '9') || ('a' <= c && c <= 'f') || ('A' <= c && c <= 'F')
}

fn hex_val_exec(c: char) -> (v: u32)
    requires
        is_hex(c),
    ensures
        v == hex_val(c),
        v < 16,
{
    let u = c as u32;
    if '0' <= c && c <= '9' {
        u - 48
    } else if 'a' <= c && c <= 'f' {
        u - 87
    } else {
        u - 55
    }
}

/// Parses an IPv4 octet.
pub fn parse_octet(p: &Vec<char>) -> (r: Option<u32>)
    ensures
        match r {
            Some(v) => octet_ok(p@) && v == dec_value(p@),
            None => !octet_ok(p@),
        },
{
    if p.len() < 1 || p.len() > 3 {
        return None;
    }
    if p.len() > 1 && p[0] == '0' {
        return None;
    }
    let mut v: u32 = 0;
    let mut k: usize = 0;
    assert(p@.take(0) =~= Seq::<char>::empty());
    while k < p.len()
        invariant
            1 <= p.len() <= 3,
            k <= p.len(),
            all_digits(p@.take(k as int)),
            v == dec_value(p@.take(k as int)),
            v < 1000,
            k == 0 ==> v == 0,
            k == 1 ==> v < 10,
            k == 2 ==> v < 100,
        decreases p.len() - k,
    {
        if !is_digit_exec(p[k]) {
            assert(!all_digits(p@));
            return None;
        }
        proof {
            lemma_dec_value_step(p@, k as int);
            assert(p@.take(k + 1)[k as int] == p@[k as int]);
        }
        v = v * 10 + (p[k] as u32 - 48);
        k += 1;
    }
    assert(p@.take(k as int) =~= p@);
    if v > 255 {
        return None;
    }
    Some(v)
}

/// Parses a dotted-quad IPv4 address into its 32-bit value.
pub fn parse_ipv4(s: &Vec<char>) -> (r: Option<u32>)
    ensures
        match r {
            Some(v) => ipv4_spec(s@) == Some(v as nat),
            None => ipv4_spec(s@) is None,
        },
{
    let parts = split_on(s, '.');
    let ghost ps = split_char(s@, '.');
    if parts.len() != 4 {
        return None;
    }
    assert(parts@[0]@ == ps[0] && parts@[1]@ == ps[1] && parts@[2]@ == ps[2] && parts@[3]@ == ps[3]);
    let a = match parse_octet(&parts[0]) { Some(v) => v, None => return None };
    let b = match parse_octet(&parts[1]) { Some(v) => v, None => return None };
    let c = match parse_octet(&parts[2]) { Some(v) => v, None => return None };
    let d = match parse_octet(&parts[3]) { Some(v) => v, None => return None };
    Some(((a * 256 + b) * 256 + c) * 256 + d)
}

/// Parses an IPv6 group.
pub fn parse_group(p: &Vec<char>) -> (r: Option<u32>)
    ensures
        match r {
            Some(v) => group_ok(p@) && v == hex_value(p@) && v < 65536,
            None => !group_ok(p@),
        },
{
    if p.len() < 1 || p.len() > 4 {
        return None;
    }
    let mut v: u32 = 0;
    let mut k: usize = 0;
    assert(p@.take(0) =~= Seq::<char>::empty());
    while k < p.len()
        invariant
            1 <= p.len() <= 4,
            k <= p.len(),
            all_hex(p@.take(k as int)),
            v == hex_value(p@.take(k as int)),
            k == 0 ==> v < 1,
            k == 1 ==> v < 16,
            k == 2 ==> v < 256,
            k == 3 ==> v < 4096,
            k == 4 ==> v < 65536,
        decreases p.len() - k,
    {
        if !is_hex_exec(p[k]) {
            assert(!all_hex(p@));
            return None;
        }
        proof {
            lemma_hex_value_step(p@, k as int);
            assert(p@.take(k + 1)[k as int] == p@[k as int]);
        }
        v = v * 16 + hex_val_exec(p[k]);
        k += 1;
    }
    assert(p@.take(k as int) =~= p@);
    Some(v)
}

/// `(r as nat)` view of a vector of groups.
pub open spec fn nat_groups(v: Seq<u32>) -> Seq<nat> {
    v.map_values(|x: u32| x as nat)
}

fn parse_run(pieces: &Vec<Vec<char>>) -> (r: Option<Vec<u32>>)
    ensures
        match r {
            Some(g) => run_groups(pieces@.map_values(|p: Vec<char>| p@)) == Some(nat_groups(g@))
                && forall|i: int| 0 <= i < g@.len() ==> #[trigger] g@[i] < 65536,
            None => run_groups(pieces@.map_values(|p: Vec<char>| p@)) is None,
        },
{
    let ghost ps = pieces@.map_values(|p: Vec<char>| p@);
    let mut g: Vec<u32> = Vec::new();
    let mut k: usize = 0;
    while k < pieces.len()
        invariant
            k <= pieces.len(),
            ps == pieces@.map_values(|p: Vec<char>| p@),
            groups_ok(ps.take(k as int)),
            nat_groups(g@) == group_vals(ps.take(k as int)),
            forall|i: int| 0 <= i < g@.len() ==> #[trigger] g@[i] < 65536,
        decreases pieces.len() - k,
    {
        assert(ps[k as int] == pieces@[k as int]@);
        match parse_group(&pieces[k]) {
            Some(v) => {
                let ghost old_g = g@;
                g.push(v);
                assert(ps.take(k + 1) =~= ps.take(k as int).push(ps[k as int]));
                assert(group_vals(ps.take(k + 1)) =~= group_vals(ps.take(k as int)).push(hex_value(ps[k as int])));
                assert(nat_groups(g@) =~= nat_groups(old_g).push(v as nat));
                assert(groups_ok(ps.take(k + 1))) by {
                    assert forall|i: int| 0 <= i < k + 1 implies group_ok(#[trigger] ps.take(k + 1)[i]) by {
                        if i < k {
                            assert(ps.take(k + 1)[i] == ps.take(k as int)[i]);
                        }
                    }
                }
            },
            None => {
                // not a group: only an embedded IPv4 address in last place is allowed
                assert(!groups_ok(ps));
                if k + 1 == pieces.len() {
                    assert(ps.drop_last() =~= ps.take(k as int));
                    match parse_ipv4(&pieces[k]) {
                        Some(v4) => {
                            g.push(v4 / 65536);
                            g.push(v4 % 65536);
                            assert(nat_groups(g@) =~= group_vals(ps.drop_last()) + v4_groups(v4 as nat));
                            return Some(g);
                        },
                        None => {
                            return None;
                        },
                    }
                } else {
                    assert(!groups_ok(ps.drop_last())) by {
                        assert(ps.drop_last()[k as int] == ps[k as int]);
                    }
                    return None;
                }
            },
        }
        k += 1;
    }
    assert(ps.take(k as int) =~= ps);
    Some(g)
}

/// `65536^k`.
pub open spec fn pow16(k: nat) -> nat
    decreases k,
{
    if k == 0 { 1 } else { pow16((k - 1) as nat) * 65536 }
}

proof fn lemma_pow16_mono(a: nat, b: nat)
    requires
        a <= b,
    ensures
        pow16(a) <= pow16(b),
    decreases b - a,
{
    if a < b {
        lemma_pow16_mono(a, (b - 1) as nat);
    }
}

/// Folds 16-bit groups into their big-endian value.
fn fold_groups(g: &Vec<u32>) -> (v: u128)
    requires
        g@.len() == 8,
        forall|i: int| 0 <= i < g@.len() ==> #[trigger] g@[i] < 65536,
    ensures
        v as nat == groups_value(nat_groups(g@)),
{
    let ghost ng = nat_groups(g@);
    proof {
        reveal_with_fuel(pow16, 9);
        assert(pow16(8) == 0x1_0000_0000_0000_0000_0000_0000_0000_0000nat);
    }
    let mut v: u128 = 0;
    let mut k: usize = 0;
    while k < 8
        invariant
            k <= 8,
            g@.len() == 8,
            ng == nat_groups(g@),
            forall|i: int| 0 <= i < g@.len() ==> #[trigger] g@[i] < 65536,
            v as nat == groups_value(ng.take(k as int)),
            (v as nat) < pow16(k as nat),
            pow16(8) == 0x1_0000_0000_0000_0000_0000_0000_0000_0000nat,
        decreases 8 - k,
    {
        assert(ng.take(k + 1).drop_last() =~= ng.take(k as int));
        proof {
            lemma_pow16_mono((k + 1) as nat, 8);
            let b = pow16(k as nat);
            let x = g@[k as int] as nat;
            assert((v as nat) * 65536 + x < b * 65536) by (nonlinear_arith)
                requires (v as nat) < b, x < 65536;
        }
        v = v * 65536 + g[k] as u128;
        k += 1;
    }
    assert(ng.take(8) =~= ng);
    v
}

fn copy_groups(g: &mut Vec<u32>, src: &Vec<u32>)
    ensures
        final(g)@ == old(g)@ + src@,
{
    let ghost g0 = g@;
    let mut t: usize = 0;
    while t < src.len()
        invariant
            t <= src.len(),
            g@ == g0 + src@.take(t as int),
        decreases src.len() - t,
    {
        g.push(src[t]);
        assert(g@ =~= g0 + src@.take(t + 1));
        t += 1;
    }
    assert(src@.take(t as int) =~= src@);
}

/// Head groups, then zeros, then tail groups: the expansion of `::`.
fn expand(hg: &Vec<u32>, tg: &Vec<u32>) -> (g: Vec<u32>)
    requires
        hg@.len() + tg@.len() <= 7,
        forall|i: int| 0 <= i < hg@.len() ==> #[trigger] hg@[i] < 65536,
        forall|i: int| 0 <= i < tg@.len() ==> #[trigger] tg@[i] < 65536,
    ensures
        g@.len() == 8,
        nat_groups(g@) == nat_groups(hg@) + Seq::new((8 - hg@.len() - tg@.len()) as nat, |j: int| 0nat) + nat_groups(tg@),
        forall|i: int| 0 <= i < g@.len() ==> #[trigger] g@[i] < 65536,
{
    let mut g: Vec<u32> = Vec::new();
    copy_groups(&mut g, hg);
    let zeros = 8 - hg.len() - tg.len();
    let mut z: usize = 0;
    while z < zeros
        invariant
            z <= zeros,
            g@ == hg@ + Seq::new(z as nat, |j: int| 0u32),
        decreases zeros - z,
    {
        g.push(0);
        assert(g@ =~= hg@ + Seq::new((z + 1) as nat, |j: int| 0u32));
        z += 1;
    }
    let ghost mid = g@;
    copy_groups(&mut g, tg);
    assert(nat_groups(g@) =~= nat_groups(hg@) + Seq::new(zeros as nat, |j: int| 0nat) + nat_groups(tg@));
    assert forall|j: int| 0 <= j < g@.len() implies #[trigger] g@[j] < 65536 by {
        if j < hg@.len() {
        } else if j < hg@.len() + zeros {
        } else {
            assert(g@[j] == tg@[j - hg@.len() - zeros]);
        }
    }
    g
}

/// The groups of an address written `head::tail`, given the pieces of both sides.
fn compressed_groups(hp: &Vec<Vec<char>>, tp: &Vec<Vec<char>>) -> (r: Option<Vec<u32>>)
    ensures
        ({
            let hps = hp@.map_values(|p: Vec<char>| p@);
            let tps = tp@.map_values(|p: Vec<char>| p@);
            match r {
                Some(g) => run_groups(tps) is Some && groups_ok(hps) && hps.len() + run_groups(tps).unwrap().len() <= 7
                    && nat_groups(g@) == group_vals(hps) + Seq::new((8 - hps.len() - run_groups(tps).unwrap().len()) as nat, |k: int| 0nat)
                    + run_groups(tps).unwrap()
                    && g@.len() == 8
                    && forall|i: int| 0 <= i < g@.len() ==> #[trigger] g@[i] < 65536,
                None => !(run_groups(tps) is Some && groups_ok(hps) && hps.len() + run_groups(tps).unwrap().len() <= 7),
            }
        }),
{
    let ghost hps = hp@.map_values(|p: Vec<char>| p@);
    let tg = match parse_run(tp) {
        Some(t) => t,
        None => return None,
    };
    let hg = match parse_run(hp) {
        Some(h) => h,
        None => return None,
    };
    if hg.len() != hp.len() {
        proof {
            if groups_ok(hps) {
                assert(group_vals(hps).len() == hps.len());
            }
        }
        return None;
    }
    proof {
        if !groups_ok(hps) {
            assert(group_vals(hps.drop_last()).len() + 2 == hps.len() + 1);
        }
        assert(nat_groups(hg@).len() == hg@.len());
        assert(nat_groups(tg@).len() == tg@.len());
    }
    if hp.len() > 7 || tg.len() > 7 - hp.len() {
        return None;
    }
    Some(expand(&hg, &tg))
}

fn uncompressed_groups(s: &Vec<char>) -> (r: Option<Vec<u32>>)
    requires
        crate::text::first_occurrence(s@, "::"@) is None,
    ensures
        match r {
            Some(g) => ipv6_groups(s@) == Some(nat_groups(g@)) && g@.len() == 8
                && forall|i: int| 0 <= i < g@.len() ==> #[trigger] g@[i] < 65536,
            None => ipv6_groups(s@) is None,
        },
{
    let pieces = split_on(s, ':');
    match parse_run(&pieces) {
        Some(g) => {
            assert(nat_groups(g@).len() == g@.len());
            if g.len() != 8 {
                return None;
            }
            Some(g)
        },
        None => None,
    }
}

#[verifier::rlimit(40)]
fn compressed_ipv6_groups(s: &Vec<char>, i: usize) -> (r: Option<Vec<u32>>)
    requires
        crate::text::first_occurrence(s@, "::"@) == Some(i as int),
        i + 2 <= s@.len(),
    ensures
        match r {
            Some(g) => ipv6_groups(s@) == Some(nat_groups(g@)) && g@.len() == 8
                && forall|i: int| 0 <= i < g@.len() ==> #[trigger] g@[i] < 65536,
            None => ipv6_groups(s@) is None,
        },
{
    assert(i + 2 <= s.len());
    let head = crate::text::slice_range(s, 0, i);
    let tail = crate::text::slice_range(s, i + 2, s.len());
    assert(head@ =~= s@.take(i as int));
    assert(tail@ =~= s@.skip(i + 2));
    let hp: Vec<Vec<char>> = if head.len() == 0 { Vec::new() } else { split_on(&head, ':') };
    let tp: Vec<Vec<char>> = if tail.len() == 0 { Vec::new() } else { split_on(&tail, ':') };
    assert(hp@.map_values(|p: Vec<char>| p@) =~= run_pieces(s@.take(i as int)));
    assert(tp@.map_values(|p: Vec<char>| p@) =~= run_pieces(s@.skip(i + 2)));
    compressed_groups(&hp, &tp)
}

/// Parses an IPv6 address into its 128-bit value.
#[verifier::rlimit(30)]
pub fn parse_ipv6(s: &Vec<char>) -> (r: Option<u128>)
    ensures
        match r {
            Some(v) => ipv6_spec(s@) == Some(v as nat),
            None => ipv6_spec(s@) is None,
        },
{
    let dc = crate::text::to_chars("::");
    proof {
        reveal_strlit("::");
    }
    let groups = match crate::text::find(s, &dc) {
        None => uncompressed_groups(s),
        Some(i) => {
            assert(dc@.len() == 2);
            assert(crate::text::occurs_at(s@, dc@, i as int));
            compressed_ipv6_groups(s, i)
        },
    };
    match groups {
        Some(g) => Some(fold_groups(&g)),
        None => None,
    }
}

/// Parses a port number as `u16`'s `FromStr` does.
pub fn parse_u16(s: &Vec<char>) -> (r: Option<u16>)
    ensures
        match r {
            Some(v) => u16_spec(s@) == Some(v as nat),
            None => u16_spec(s@) is None,
        },
{
    let start: usize = if s.len() > 0 && s[0] == '+' { 1 } else { 0 };
    let ghost d = u16_digits(s@);
    assert(d =~= s@.skip(start as int));
    if start >= s.len() {
        return None;
    }
    let mut v: u64 = 0;
    let mut k: usize = start;
    assert(d.take(0) =~= Seq::<char>::empty());
    while k < s.len()
        invariant
            start <= k <= s.len(),
            d == s@.skip(start as int),
            d == u16_digits(s@),
            all_digits(d.take(k - start)),
            v == dec_value(d.take(k - start)),
            v <= 65535,
        decreases s.len() - k,
    {
        if !is_digit_exec(s[k]) {
            assert(d[k - start] == s@[k as int]);
            assert(!all_digits(d));
            assert(u16_spec(s@) is None);
            return None;
        }
        proof {
            lemma_dec_value_step(d, k - start);
            assert(d.take(k - start + 1)[k - start] == s@[k as int]);
            assert(d[k - start] == s@[k as int]);
        }
        v = v * 10 + (s[k] as u64 - 48);
        if v > 65535 {
            proof {
                assert(all_digits(d.take(k - start + 1))) by {
                    assert forall|i: int| 0 <= i < k - start + 1 implies is_digit(#[trigger] d.take(k - start + 1)[i]) by {
                        if i < k - start {
                            assert(d.take(k - start + 1)[i] == d.take(k - start)[i]);
                        }
                    }
                }
                if all_digits(d) {
                    lemma_dec_value_prefix(d, k - start + 1);
                }
            }
            return None;
        }
        proof {
            assert(all_digits(d.take(k - start + 1))) by {
                assert forall|i: int| 0 <= i < k - start + 1 implies is_digit(#[trigger] d.take(k - start + 1)[i]) by {
                    if i < k - start {
                        assert(d.take(k - start + 1)[i] == d.take(k - start)[i]);
                    }
                }
            }
        }
        k += 1;
    }
    assert(d.take(k - start) =~= d);
    Some(v as u16)
}


/// The digits of an `i64` text after an optional sign.
pub open spec fn i64_digits(s: Seq<char>) -> Seq<char> {
    if s.len() > 0 && (s[0] == '+' || s[0] == '-') {
        s.skip(1)
    } else {
        s
    }
}

/// What `str::parse::<i64>` accepts: an optional `+` or `-`, then one or
/// more ASCII digits, with the value in range.
pub open spec fn i64_spec(s: Seq<char>) -> Option<int> {
    let d = i64_digits(s);
    let neg = s.len() > 0 && s[0] == '-';
    if d.len() > 0 && all_digits(d) {
        if neg && dec_value(d) <= 0x8000_0000_0000_0000 {
            Some(-dec_value(d))
        } else if !neg && dec_value(d) <= 0x7fff_ffff_ffff_ffff {
            Some(dec_value(d) as int)
        } else {
            None
        }
    } else {
        None
    }
}

/// `str::parse::<i64>` on characters.
pub fn parse_i64(s: &Vec<char>) -> (r: Option<i64>)
    ensures
        match r {
            Some(v) => i64_spec(s@) == Some(v as int),
            None => i64_spec(s@) is None,
        },
{
    let neg = s.len() > 0 && s[0] == '-';
    let start: usize = if s.len() > 0 && (s[0] == '+' || s[0] == '-') { 1 } else { 0 };
    let limit: u128 = if neg { 0x8000_0000_0000_0000 } else { 0x7fff_ffff_ffff_ffff };
    let ghost d = i64_digits(s@);
    assert(d =~= s@.skip(start as int));
    if start >= s.len() {
        return None;
    }
    let mut v: u128 = 0;
    let mut k: usize = start;
    assert(d.take(0) =~= Seq::<char>::empty());
    while k < s.len()
        invariant
            start <= k <= s.len(),
            d == s@.skip(start as int),
            d == i64_digits(s@),
            all_digits(d.take(k - start)),
            v == dec_value(d.take(k - start)),
            v <= limit,
            neg == (s@.len() > 0 && s@[0] == '-'),
            limit == (if neg { 0x8000_0000_0000_0000u128 } else { 0x7fff_ffff_ffff_ffffu128 }),
        decreases s.len() - k,
    {
        if !is_digit_exec(s[k]) {
            assert(d[k - start] == s@[k as int]);
            assert(!all_digits(d));
            return None;
        }
        proof {
            lemma_dec_value_step(d, k - start);
            assert(d.take(k - start + 1)[k - start] == s@[k as int]);
            assert(d[k - start] == s@[k as int]);
        }
        v = v * 10 + (s[k] as u128 - 48);
        proof {
            assert(all_digits(d.take(k - start + 1))) by {
                assert forall|i: int| 0 <= i < k - start + 1 implies is_digit(#[trigger] d.take(k - start + 1)[i]) by {
                    if i < k - start {
                        assert(d.take(k - start + 1)[i] == d.take(k - start)[i]);
                    }
                }
            }
        }
        if v > limit {
            proof {
                if all_digits(d) {
                    lemma_dec_value_prefix(d, k - start + 1);
                }
            }
            return None;
        }
        k += 1;
    }
    assert(d.take(k - start) =~= d);
    if neg {
        if v == 0x8000_0000_0000_0000 {
            Some(i64::MIN)
        } else {
            let w = v as i64;
            Some(-w)
        }
    } else {
        Some(v as i64)
    }
}
} // verus!

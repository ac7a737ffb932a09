//! The textual grammar of IP addresses that `IpAddr::from_str` accepts:
//! dotted-decimal IPv4 and colon-separated IPv6 with `::` compression and an
//! optional trailing embedded IPv4 address.

use vstd::prelude::*;
use crate::text::{chars_of, dec_val, is_dec_digit};

verus! {

pub open spec fn is_hex_digit(c: char) -> bool {
    ||| (48 <= (c as u32) && (c as u32) <= 57)
    ||| (97 <= (c as u32) && (c as u32) <= 102)
    ||| (65 <= (c as u32) && (c as u32) <= 70)
}

pub open spec fn hex_val(c: char) -> int {
    if (c as u32) <= 57 {
        (c as u32) - 48
    } else if (c as u32) <= 70 {
        (c as u32) - 55
    } else {
        (c as u32) - 87
    }
}

/// The value of a run of decimal digits.
pub open spec fn dec_value(s: Seq<char>) -> int
    decreases s.len(),
{
    if s.len() == 0 {
        0
    } else {
        dec_value(s.drop_last()) * 10 + dec_val(s.last())
    }
}

/// The value of a run of hexadecimal digits.
pub open spec fn hex_value(s: Seq<char>) -> int
    decreases s.len(),
{
    if s.len() == 0 {
        0
    } else {
        hex_value(s.drop_last()) * 16 + hex_val(s.last())
    }
}

/// `str::split` on one separator character: the pieces between separators, empty ones included.
pub open spec fn split(s: Seq<char>, sep: char) -> Seq<Seq<char>>
    decreases s.len(),
{
    if s.len() == 0 {
        seq![Seq::<char>::empty()]
    } else {
        let r = split(s.drop_last(), sep);
        if s.last() == sep {
            r.push(Seq::<char>::empty())
        } else {
            r.update(r.len() - 1, r.last().push(s.last()))
        }
    }
}

/// A decimal octet of an IPv4 address: one to three digits, no leading
/// zero unless it is the only digit, at most 255.
pub open spec fn is_octet(p: Seq<char>) -> bool {
    &&& 1 <= p.len() <= 3
    &&& forall|i: int| 0 <= i < p.len() ==> is_dec_digit(#[trigger] p[i])
    &&& (p.len() == 1 || p[0] != '0')
    &&& dec_value(p) <= 255
}

/// The four octets of a dotted-decimal IPv4 address.
pub open spec fn ipv4_octets(s: Seq<char>) -> Option<Seq<int>> {
    let ps = split(s, '.');
    if ps.len() == 4 && (forall|i: int| 0 <= i < 4 ==> is_octet(#[trigger] ps[i])) {
        Some(ps.map_values(|p: Seq<char>| dec_value(p)))
    } else {
        None
    }
}

/// A group of an IPv6 address: one to four hexadecimal digits.
pub open spec fn is_hex_group(p: Seq<char>) -> bool {
    &&& 1 <= p.len() <= 4
    &&& forall|i: int| 0 <= i < p.len() ==> is_hex_digit(#[trigger] p[i])
}

/// The 16-bit pieces of a list of groups; when `v4_last`, the last group may
/// instead be an embedded IPv4 address, which gives two pieces.
pub open spec fn pieces(ps: Seq<Seq<char>>, v4_last: bool) -> Option<Seq<int>>
    decreases ps.len(),
{
    if ps.len() == 0 {
        Some(Seq::<int>::empty())
    } else if ps.len() == 1 && v4_last && ipv4_octets(ps[0]) is Some {
        let o = ipv4_octets(ps[0])->Some_0;
        Some(seq![o[0] * 256 + o[1], o[2] * 256 + o[3]])
    } else if is_hex_group(ps[0]) {
        match pieces(ps.drop_first(), v4_last) {
            Some(r) => Some(seq![hex_value(ps[0])] + r),
            None => None,
        }
    } else {
        None
    }
}

/// The pieces of a possibly empty `:`-separated list of groups.
pub open spec fn list_pieces(s: Seq<char>, v4_last: bool) -> Option<Seq<int>> {
    if s.len() == 0 {
        Some(Seq::<int>::empty())
    } else {
        pieces(split(s, ':'), v4_last)
    }
}

/// Index of the first `::` at or after `i`, or -1.
pub open spec fn double_colon_from(s: Seq<char>, i: int) -> int
    decreases s.len() - i,
{
    if i < 0 || i + 1 >= s.len() {
        -1
    } else if s[i] == ':' && s[i + 1] == ':' {
        i
    } else {
        double_colon_from(s, i + 1)
    }
}

/// The eight 16-bit segments of an IPv6 address.
pub open spec fn ipv6_segments(s: Seq<char>) -> Option<Seq<int>> {
    let k = double_colon_from(s, 0);
    if k < 0 {
        match pieces(split(s, ':'), true) {
            Some(p) => if p.len() == 8 {
                Some(p)
            } else {
                None
            },
            None => None,
        }
    } else {
        match (list_pieces(s.take(k), false), list_pieces(s.skip(k + 2), true)) {
            (Some(h), Some(t)) => if h.len() + t.len() <= 7 {
                Some(h + Seq::new((8 - h.len() - t.len()) as nat, |i: int| 0int) + t)
            } else {
                None
            },
            _ => None,
        }
    }
}

/// A parsed address: its family and its octets (IPv4) or segments (IPv6).
pub struct IpValue {
    pub v6: bool,
    pub parts: Seq<int>,
}

/// `IpAddr::from_str`: an IPv4 address, or else an IPv6 address.
pub open spec fn parse_ip(s: Seq<char>) -> Option<IpValue> {
    match ipv4_octets(s) {
        Some(o) => Some(IpValue { v6: false, parts: o }),
        None => match ipv6_segments(s) {
            Some(g) => Some(IpValue { v6: true, parts: g }),
            None => None,
        },
    }
}

/// An address as `IpAddr::from_str` reads it.
pub struct IpAddr {
    pub v6: bool,
    pub parts: Vec<u16>,
}

impl View for IpAddr {
    type V = IpValue;

    open spec fn view(&self) -> IpValue {
        IpValue { v6: self.v6, parts: self.parts@.map_values(|x: u16| x as int) }
    }
}

/// Whether `s.parse::<IpAddr>()` succeeds.
pub open spec fn is_ip(s: Seq<char>) -> bool {
    parse_ip(s) is Some
}

// ---------------------------------------------------------------------------
// Executable parsing.
proof fn lemma_split_nonempty(s: Seq<char>, sep: char)
    ensures
        split(s, sep).len() >= 1,
    decreases s.len(),
{
    if s.len() > 0 {
        lemma_split_nonempty(s.drop_last(), sep);
    }
}

/// Splits on a separator, as `str::split`.
pub fn split_chars(s: &[char], sep: char) -> (r: Vec<Vec<char>>)
    ensures
        r@.len() == split(s@, sep).len(),
        forall|i: int| 0 <= i < r@.len() ==> (#[trigger] r@[i])@ == split(s@, sep)[i],
{
    let mut r: Vec<Vec<char>> = Vec::new();
    r.push(Vec::new());
    let mut i: usize = 0;
    assert(s@.subrange(0, 0) =~= Seq::<char>::empty());
    while i < s.len()
        invariant
            i <= s.len(),
            r@.len() == split(s@.subrange(0, i as int), sep).len(),
            r@.len() >= 1,
            forall|j: int|
                0 <= j < r@.len() ==> (#[trigger] r@[j])@ == split(
                    s@.subrange(0, i as int),
                    sep,
                )[j],
        decreases s.len() - i,
    {
        let ghost pre = s@.subrange(0, i as int);
        let ghost next = s@.subrange(0, i + 1);
        assert(next.drop_last() =~= pre);
        assert(next.last() == s@[i as int]);
        proof {
            lemma_split_nonempty(pre, sep);
        }
        let c = s[i];
        if c == sep {
            r.push(Vec::new());
        } else {
            let last = r.len() - 1;
            let mut piece = r.pop().unwrap();
            piece.push(c);
            r.push(piece);
        }
        i = i + 1;
        assert forall|j: int| 0 <= j < r@.len() implies (#[trigger] r@[j])@ == split(
            s@.subrange(0, i as int),
            sep,
        )[j] by {
            if c != sep && j == r@.len() - 1 {
                assert(r@[j]@ =~= split(pre, sep).last().push(c));
            }
        }
    }
    assert(s@.subrange(0, s@.len() as int) =~= s@);
    r
}

fn is_dec_digit_char(c: char) -> (r: bool)
    ensures
        r == is_dec_digit(c),
{
    let u = c as u32;
    48 <= u && u <= 57
}

fn is_hex_digit_char(c: char) -> (r: bool)
    ensures
        r == is_hex_digit(c),
{
    let u = c as u32;
    (48 <= u && u <= 57) || (97 <= u && u <= 102) || (65 <= u && u <= 70)
}

/// The value of a decimal octet, if the piece is one.
fn octet_value(p: &Vec<char>) -> (r: Option<u16>)
    ensures
        r is Some <==> is_octet(p@),
        r matches Some(v) ==> v as int == dec_value(p@),
{
    if p.len() < 1 || p.len() > 3 {
        return None;
    }
    if p.len() > 1 && p[0] == '0' {
        return None;
    }
    let mut v: u16 = 0;
    let mut i: usize = 0;
    while i < p.len()
        invariant
            1 <= p.len() <= 3,
            i <= p.len(),
            v as int == dec_value(p@.subrange(0, i as int)),
            v < 1000,
            forall|j: int| 0 <= j < i ==> is_dec_digit(#[trigger] p@[j]),
            i <= 3,
            v as int <= if i == 0 { 0int } else if i == 1 { 9int } else if i == 2 { 99int } else { 999int },
        decreases p.len() - i,
    {
        let c = p[i];
        if !is_dec_digit_char(c) {
            return None;
        }
        let ghost pre = p@.subrange(0, i as int);
        assert(p@.subrange(0, i + 1).drop_last() =~= pre);
        v = v * 10 + (c as u32 - 48) as u16;
        i = i + 1;
    }
    assert(p@.subrange(0, p@.len() as int) =~= p@);
    if v > 255 {
        return None;
    }
    Some(v)
}

/// The value of a hexadecimal group, if the piece is one.
fn hex_group_value(p: &Vec<char>) -> (r: Option<u16>)
    ensures
        r is Some <==> is_hex_group(p@),
        r matches Some(v) ==> v as int == hex_value(p@),
{
    if p.len() < 1 || p.len() > 4 {
        return None;
    }
    let mut v: u32 = 0;
    let mut i: usize = 0;
    while i < p.len()
        invariant
            1 <= p.len() <= 4,
            i <= p.len(),
            v as int == hex_value(p@.subrange(0, i as int)),
            forall|j: int| 0 <= j < i ==> is_hex_digit(#[trigger] p@[j]),
            v as int <= if i == 0 { 0int } else if i == 1 { 15int } else if i == 2 { 255int } else if i == 3 { 4095int } else { 65535int },
        decreases p.len() - i,
    {
        let c = p[i];
        if !is_hex_digit_char(c) {
            return None;
        }
        let ghost pre = p@.subrange(0, i as int);
        assert(p@.subrange(0, i + 1).drop_last() =~= pre);
        let u = c as u32;
        let d: u32 = if u <= 57 {
            u - 48
        } else if u <= 70 {
            u - 55
        } else {
            u - 87
        };
        v = v * 16 + d;
        i = i + 1;
    }
    assert(p@.subrange(0, p@.len() as int) =~= p@);
    Some(v as u16)
}

/// The octets of a dotted-decimal IPv4 address.
fn ipv4_of(s: &[char]) -> (r: Option<Vec<u16>>)
    ensures
        r is Some <==> ipv4_octets(s@) is Some,
        r matches Some(o) ==> o@.map_values(|x: u16| x as int) == ipv4_octets(s@)->Some_0,
        r matches Some(o) ==> o@.len() == 4 && forall|j: int| 0 <= j < 4 ==> #[trigger] o@[j] <= 255,
{
    let ps = split_chars(s, '.');
    let ghost sp = split(s@, '.');
    if ps.len() != 4 {
        return None;
    }
    let mut out: Vec<u16> = Vec::new();
    let mut i: usize = 0;
    while i < 4
        invariant
            ps@.len() == 4,
            sp == split(s@, '.'),
            sp.len() == 4,
            forall|j: int| 0 <= j < ps@.len() ==> (#[trigger] ps@[j])@ == sp[j],
            i <= 4,
            out@.len() == i,
            forall|j: int| 0 <= j < i ==> is_octet(#[trigger] sp[j]),
            forall|j: int| 0 <= j < i ==> (#[trigger] out@[j]) as int == dec_value(sp[j]),
            forall|j: int| 0 <= j < i ==> #[trigger] out@[j] <= 255,
        decreases 4 - i,
    {
        assert(ps@[i as int]@ == sp[i as int]);
        match octet_value(&ps[i]) {
            Some(v) => out.push(v),
            None => {
                return None;
            },
        }
        i = i + 1;
    }
    assert(out@.map_values(|x: u16| x as int) =~= sp.map_values(|p: Seq<char>| dec_value(p)));
    Some(out)
}

/// The pieces of `ps[from..]`, as `pieces` describes them.
fn pieces_of(ps: &Vec<Vec<char>>, from: usize, v4_last: bool) -> (r: Option<Vec<u16>>)
    requires
        from <= ps@.len(),
    ensures
        ({
            let sp = ps@.subrange(from as int, ps@.len() as int).map_values(|p: Vec<char>| p@);
            &&& r is Some <==> pieces(sp, v4_last) is Some
            &&& r matches Some(o) ==> o@.map_values(|x: u16| x as int) == pieces(sp, v4_last)->Some_0
        }),
    decreases ps@.len() - from,
{
    let ghost sp = ps@.subrange(from as int, ps@.len() as int).map_values(|p: Vec<char>| p@);
    if from == ps.len() {
        assert(sp.len() == 0);
        return Some(Vec::new());
    }
    assert(sp[0] == ps@[from as int]@);
    let ghost rest = ps@.subrange(from + 1, ps@.len() as int).map_values(|p: Vec<char>| p@);
    assert(sp.drop_first() =~= rest);
    if from + 1 == ps.len() && v4_last {
        let v4 = ipv4_of(ps[from].as_slice());
        match v4 {
            Some(o) => {
                let hi: u16 = o[0] * 256 + o[1];
                let lo: u16 = o[2] * 256 + o[3];
                let mut out: Vec<u16> = Vec::new();
                out.push(hi);
                out.push(lo);
                proof {
                    let oo = ipv4_octets(sp[0])->Some_0;
                    assert(oo[0] == o@[0] as int);
                    assert(oo[1] == o@[1] as int);
                    assert(oo[2] == o@[2] as int);
                    assert(oo[3] == o@[3] as int);
                    assert(out@.map_values(|x: u16| x as int) =~= seq![
                        oo[0] * 256 + oo[1],
                        oo[2] * 256 + oo[3],
                    ]);
                }
                return Some(out);
            },
            None => {},
        }
    }
    match hex_group_value(&ps[from]) {
        None => None,
        Some(g) => {
            match pieces_of(ps, from + 1, v4_last) {
                None => None,
                Some(rest_out) => {
                    let mut out: Vec<u16> = Vec::new();
                    out.push(g);
                    let mut j: usize = 0;
                    while j < rest_out.len()
                        invariant
                            j <= rest_out@.len(),
                            out@.len() == j + 1,
                            out@[0] == g,
                            forall|k: int| 0 <= k < j ==> out@[k + 1] == #[trigger] rest_out@[k],
                        decreases rest_out@.len() - j,
                    {
                        out.push(rest_out[j]);
                        j = j + 1;
                    }
                    assert(out@.map_values(|x: u16| x as int) =~= seq![g as int]
                        + rest_out@.map_values(|x: u16| x as int));
                    Some(out)
                },
            }
        },
    }
}

/// Index of the first `::`, as `double_colon_from` describes it.
fn find_double_colon(s: &[char]) -> (r: Option<usize>)
    ensures
        match r {
            Some(k) => double_colon_from(s@, 0) == k as int && k + 1 < s@.len(),
            None => double_colon_from(s@, 0) == -1,
        },
{
    let mut i: usize = 0;
    while i < s.len()
        invariant
            i <= s.len(),
            double_colon_from(s@, 0) == double_colon_from(s@, i as int),
        decreases s.len() - i,
    {
        if i + 1 < s.len() && s[i] == ':' && s[i + 1] == ':' {
            return Some(i);
        }
        i = i + 1;
    }
    None
}

fn list_pieces_of(s: &[char], v4_last: bool) -> (r: Option<Vec<u16>>)
    ensures
        r is Some <==> list_pieces(s@, v4_last) is Some,
        r matches Some(o) ==> o@.map_values(|x: u16| x as int) == list_pieces(s@, v4_last)->Some_0,
{
    if s.len() == 0 {
        let v: Vec<u16> = Vec::new();
        assert(v@.map_values(|x: u16| x as int) =~= Seq::<int>::empty());
        return Some(v);
    }
    let ps = split_chars(s, ':');
    let r = pieces_of(&ps, 0, v4_last);
    assert(ps@.subrange(0, ps@.len() as int).map_values(|p: Vec<char>| p@) =~= split(s@, ':'));
    r
}

/// Copies the characters `s[from..to]`.
fn slice_chars(s: &[char], from: usize, to: usize) -> (r: Vec<char>)
    requires
        from <= to <= s@.len(),
    ensures
        r@ == s@.subrange(from as int, to as int),
{
    let mut r: Vec<char> = Vec::new();
    let mut i = from;
    while i < to
        invariant
            from <= i <= to,
            to <= s@.len(),
            r@ == s@.subrange(from as int, i as int),
        decreases to - i,
    {
        r.push(s[i]);
        i = i + 1;
        assert(r@ =~= s@.subrange(from as int, i as int));
    }
    r
}

fn ipv6_of(s: &[char]) -> (r: Option<Vec<u16>>)
    ensures
        r is Some <==> ipv6_segments(s@) is Some,
        r matches Some(o) ==> o@.map_values(|x: u16| x as int) == ipv6_segments(s@)->Some_0,
{
    match find_double_colon(s) {
        None => {
            let ps = split_chars(s, ':');
            assert(ps@.subrange(0, ps@.len() as int).map_values(|p: Vec<char>| p@) =~= split(
                s@,
                ':',
            ));
            match pieces_of(&ps, 0, true) {
                Some(p) => {
                    if p.len() == 8 {
                        Some(p)
                    } else {
                        None
                    }
                },
                None => None,
            }
        },
        Some(k) => {
            let head = slice_chars(s, 0, k);
            let n = s.len();
            let tail = slice_chars(s, k + 2, n);
            assert(head@ =~= s@.take(k as int));
            assert(tail@ =~= s@.skip(k + 2));
            let h = list_pieces_of(head.as_slice(), false);
            let t = list_pieces_of(tail.as_slice(), true);
            match (h, t) {
                (Some(h), Some(t)) => {
                    if h.len() <= 7 && t.len() <= 7 - h.len() {
                        let mut out: Vec<u16> = Vec::new();
                        let mut j: usize = 0;
                        while j < h.len()
                            invariant
                                j <= h@.len(),
                                out@ == h@.subrange(0, j as int),
                            decreases h@.len() - j,
                        {
                            out.push(h[j]);
                            j = j + 1;
                            assert(out@ =~= h@.subrange(0, j as int));
                        }
                        let zeros = 8 - h.len() - t.len();
                        let mut z: usize = 0;
                        while z < zeros
                            invariant
                                z <= zeros,
                                zeros == 8 - h@.len() - t@.len(),
                                out@.len() == h@.len() + z,
                                forall|q: int| 0 <= q < h@.len() ==> out@[q] == h@[q],
                                forall|q: int| h@.len() <= q < out@.len() ==> out@[q] == 0,
                            decreases zeros - z,
                        {
                            out.push(0);
                            z = z + 1;
                        }
                        let mut j: usize = 0;
                        while j < t.len()
                            invariant
                                j <= t@.len(),
                                zeros == 8 - h@.len() - t@.len(),
                                out@.len() == h@.len() + zeros + j,
                                forall|q: int| 0 <= q < h@.len() ==> out@[q] == h@[q],
                                forall|q: int|
                                    h@.len() <= q < h@.len() + zeros ==> out@[q] == 0,
                                forall|q: int|
                                    0 <= q < j ==> out@[h@.len() + zeros + q] == t@[q],
                            decreases t@.len() - j,
                        {
                            out.push(t[j]);
                            j = j + 1;
                        }
                        let ghost hv = h@.map_values(|x: u16| x as int);
                        let ghost tv = t@.map_values(|x: u16| x as int);
                        assert(out@.map_values(|x: u16| x as int) =~= hv + Seq::new(
                            (8 - hv.len() - tv.len()) as nat,
                            |i: int| 0int,
                        ) + tv);
                        Some(out)
                    } else {
                        None
                    }
                },
                _ => None,
            }
        },
    }
}

/// `s.parse::<IpAddr>()`.
pub fn parse_ip_chars(s: &[char]) -> (r: Option<IpAddr>)
    ensures
        r is Some <==> parse_ip(s@) is Some,
        r matches Some(a) ==> a@ == parse_ip(s@)->Some_0,
{
    match ipv4_of(s) {
        Some(o) => Some(IpAddr { v6: false, parts: o }),
        None => match ipv6_of(s) {
            Some(g) => Some(IpAddr { v6: true, parts: g }),
            None => None,
        },
    }
}

/// `s.parse::<IpAddr>()` on a string.
pub fn parse_ip_str(s: &str) -> (r: Option<IpAddr>)
    ensures
        r is Some <==> parse_ip(s@) is Some,
        r matches Some(a) ==> a@ == parse_ip(s@)->Some_0,
{
    let cs = chars_of(s);
    parse_ip_chars(cs.as_slice())
}

/// Whether two parsed addresses are the same address.
pub fn same_address(a: &IpAddr, b: &IpAddr) -> (r: bool)
    ensures
        r == (a@ == b@),
{
    if a.v6 != b.v6 || a.parts.len() != b.parts.len() {
        proof {
            if a@ == b@ {
                assert(a@.parts.len() == b@.parts.len());
            }
        }
        return false;
    }
    let mut i: usize = 0;
    while i < a.parts.len()
        invariant
            a.parts@.len() == b.parts@.len(),
            i <= a.parts@.len(),
            forall|j: int| 0 <= j < i ==> a.parts@[j] == b.parts@[j],
        decreases a.parts@.len() - i,
    {
        if a.parts[i] != b.parts[i] {
            proof {
                if a@ == b@ {
                    assert(a@.parts[i as int] == b@.parts[i as int]);
                }
            }
            return false;
        }
        i = i + 1;
    }
    assert(a@.parts =~= b@.parts);
    true
}

} // verus!

//! Internet addresses and their text.

use vstd::prelude::*;

use crate::text;

verus! {

/// An internet address.
#[derive(Debug, Clone, Copy)]
pub enum IpAddr {
    /// The four octets of an IPv4 address.
    V4([u8; 4]),
    /// The eight segments of an IPv6 address.
    V6([u16; 8]),
}

/// An [`IpAddr`] with its parts as sequences.
pub enum IpView {
    V4(Seq<u8>),
    V6(Seq<u16>),
}

impl View for IpAddr {
    type V = IpView;

    open spec fn view(&self) -> IpView {
        match self {
            IpAddr::V4(o) => IpView::V4(o@),
            IpAddr::V6(s) => IpView::V6(s@),
        }
    }
}

/// An address and a port on it.
#[derive(Debug, Clone, Copy)]
pub struct SocketAddr {
    pub ip: IpAddr,
    pub port: u16,
}

// --- Text -------------------------------------------------------------------

/// An IPv4 address in dotted decimal.
pub open spec fn v4_text(o: Seq<u8>) -> Seq<char> {
    text::decimal_text(o[0] as nat) + "."@ + text::decimal_text(o[1] as nat) + "."@
        + text::decimal_text(o[2] as nat) + "."@ + text::decimal_text(o[3] as nat)
}

/// Segments in hexadecimal, separated by colons.
pub open spec fn groups_text(s: Seq<u16>) -> Seq<char>
    decreases s.len(),
{
    if s.len() == 0 {
        seq![]
    } else if s.len() == 1 {
        text::radix_text(s[0] as nat, 16)
    } else {
        groups_text(s.drop_last()) + ":"@ + text::radix_text(s.last() as nat, 16)
    }
}

/// Whether the `len` segments from `start` on are all zero.
pub open spec fn zero_run(s: Seq<u16>, start: int, len: int) -> bool {
    &&& 0 <= start
    &&& 0 <= len
    &&& start + len <= s.len()
    &&& forall|i: int| start <= i < start + len ==> s[i] == 0
}

/// Whether the `len` segments from `start` on are the longest run of zeros
/// that ends at or before `end`, and the first of that length.
pub open spec fn first_longest_run(s: Seq<u16>, end: int, start: int, len: int) -> bool {
    &&& zero_run(s, start, len)
    &&& start + len <= end
    &&& forall|a: int, n: int| #[trigger]
        zero_run(s, a, n) && 0 < n && a + n <= end ==> n <= len && (n == len ==> start <= a)
}

/// Whether the segments from `start` on are the ones that `::` stands for: the
/// first longest run of zeros, if that has two segments or more.
pub open spec fn elided(s: Seq<u16>, start: int, len: int) -> bool {
    len >= 2 && first_longest_run(s, s.len() as int, start, len)
}

/// The IPv4 address that is mapped into an IPv6 address (`::ffff:0:0/96`).
pub open spec fn mapped_v4(s: Seq<u16>) -> Option<Seq<u8>> {
    if s[0] == 0 && s[1] == 0 && s[2] == 0 && s[3] == 0 && s[4] == 0 && s[5] == 0xffff {
        Some(
            seq![(s[6] / 256) as u8, (s[6] % 256) as u8, (s[7] / 256) as u8, (s[7] % 256) as u8],
        )
    } else {
        None
    }
}

/// An IPv6 address in its canonical text.
pub open spec fn v6_text(s: Seq<u16>) -> Seq<char> {
    match mapped_v4(s) {
        Some(o) => "::ffff:"@ + v4_text(o),
        None => if exists|start: int, len: int| elided(s, start, len) {
            let (start, len) = choose|start: int, len: int| elided(s, start, len);
            groups_text(s.take(start)) + "::"@ + groups_text(s.skip(start + len))
        } else {
            groups_text(s)
        },
    }
}

/// The text of an address.
pub open spec fn ip_text(ip: IpView) -> Seq<char> {
    match ip {
        IpView::V4(o) => v4_text(o),
        IpView::V6(s) => v6_text(s),
    }
}

/// The text of an address with its port.
pub open spec fn socket_text(a: SocketAddr) -> Seq<char> {
    match a.ip {
        IpAddr::V4(o) => v4_text(o@) + ":"@ + text::decimal_text(a.port as nat),
        IpAddr::V6(s) => "["@ + v6_text(s@) + "]:"@ + text::decimal_text(a.port as nat),
    }
}

/// An IPv4 address has at most fifteen characters.
pub proof fn lemma_v4_len(o: Seq<u8>)
    ensures
        v4_text(o).len() <= 15,
{
    reveal_strlit(".");
    text::lemma_decimal_len(o[0]);
    text::lemma_decimal_len(o[1]);
    text::lemma_decimal_len(o[2]);
    text::lemma_decimal_len(o[3]);
}

proof fn lemma_groups_len(s: Seq<u16>)
    ensures
        groups_text(s).len() <= 5 * s.len(),
    decreases s.len(),
{
    reveal_strlit(":");
    if s.len() > 0 {
        text::lemma_hex_len(s.last());
        if s.len() > 1 {
            lemma_groups_len(s.drop_last());
        }
    }
}

/// An IPv6 address has at most forty-two characters.
pub proof fn lemma_v6_len(s: Seq<u16>)
    requires
        s.len() == 8,
    ensures
        v6_text(s).len() <= 42,
{
    reveal_strlit("::");
    reveal_strlit("::ffff:");
    match mapped_v4(s) {
        Some(o) => lemma_v4_len(o),
        None => {
            if exists|start: int, len: int| elided(s, start, len) {
                let (start, len) = choose|start: int, len: int| elided(s, start, len);
                assert(zero_run(s, start, len));
                lemma_groups_len(s.take(start));
                lemma_groups_len(s.skip(start + len));
            } else {
                lemma_groups_len(s);
            }
        },
    }
}

proof fn lemma_elided_unique(s: Seq<u16>, a: int, n: int, b: int, m: int)
    requires
        elided(s, a, n),
        elided(s, b, m),
    ensures
        a == b,
        n == m,
{
    assert(zero_run(s, a, n));
    assert(zero_run(s, b, m));
}

/// An IPv4 address in dotted decimal.
pub fn v4_string(o: &[u8; 4]) -> (r: String)
    ensures
        r@ == v4_text(o@),
{
    let a = text::decimal(o[0] as u64);
    let b = text::decimal(o[1] as u64);
    let c = text::decimal(o[2] as u64);
    let d = text::decimal(o[3] as u64);
    let mut s = text::cat5(&a, ".", &b, ".", &c);
    s.append(".");
    s.append(&d);
    s
}

/// The segments `s[from..to]` in hexadecimal, separated by colons.
fn groups_string(s: &[u16; 8], from: usize, to: usize) -> (r: String)
    requires
        from <= to <= 8,
    ensures
        r@ == groups_text(s@.subrange(from as int, to as int)),
{
    let mut out = String::new();
    let mut i: usize = from;
    assert(s@.subrange(from as int, from as int) =~= seq![]);
    while i < to
        invariant
            from <= i <= to <= 8,
            out@ == groups_text(s@.subrange(from as int, i as int)),
        decreases to - i,
    {
        let g = text::number_text(s[i] as u64, 16);
        proof {
            let done = s@.subrange(from as int, i + 1);
            assert(done.drop_last() =~= s@.subrange(from as int, i as int));
            assert(done.last() == s@[i as int]);
        }
        if i == from {
            out.append(&g);
            assert(out@ =~= text::radix_text(s@[i as int] as nat, 16));
        } else {
            out.append(":");
            out.append(&g);
        }
        i = i + 1;
    }
    out
}

/// The start and length of the longest run of zero segments; of several, the
/// first.
fn longest_zero_run(s: &[u16; 8]) -> (r: (usize, usize))
    ensures
        first_longest_run(s@, 8, r.0 as int, r.1 as int),
{
    let mut best_start: usize = 0;
    let mut best_len: usize = 0;
    let mut len: usize = 0;
    let mut i: usize = 0;
    while i < 8
        invariant
            i <= 8,
            s@.len() == 8,
            len <= i,
            best_start + best_len <= 8,
            zero_run(s@, i - len, len as int),
            i == len || s@[i - len - 1] != 0,
            first_longest_run(s@, i as int, best_start as int, best_len as int),
        decreases 8 - i,
    {
        if s[i] == 0 {
            len = len + 1;
            if len > best_len {
                best_start = i + 1 - len;
                best_len = len;
            }
        } else {
            len = 0;
        }
        i = i + 1;
        assert forall|a: int, n: int| #[trigger]
            zero_run(s@, a, n) && 0 < n && a + n <= i implies n <= best_len && (n == best_len
            ==> best_start <= a) by {
            if a + n == i {
                assert(s@[i - 1] == 0);
                assert(a >= i - len) by {
                    if a < i - len {
                        assert(s@[i - len - 1] != 0);
                    }
                }
            }
        }
    }
    (best_start, best_len)
}

/// The IPv4 address that is mapped into an IPv6 address, if one is.
pub fn to_ipv4_mapped(s: &[u16; 8]) -> (r: Option<[u8; 4]>)
    ensures
        match r {
            Some(o) => mapped_v4(s@) == Some(o@),
            None => mapped_v4(s@) is None,
        },
{
    if s[0] == 0 && s[1] == 0 && s[2] == 0 && s[3] == 0 && s[4] == 0 && s[5] == 0xffff {
        let o: [u8; 4] = [
            (s[6] / 256) as u8,
            (s[6] % 256) as u8,
            (s[7] / 256) as u8,
            (s[7] % 256) as u8,
        ];
        assert(o@ =~= mapped_v4(s@)->0);
        Some(o)
    } else {
        None
    }
}

/// An IPv6 address in its canonical text.
pub fn v6_string(s: &[u16; 8]) -> (r: String)
    ensures
        r@ == v6_text(s@),
{
    match to_ipv4_mapped(s) {
        Some(o) => {
            let t = v4_string(&o);
            text::cat2("::ffff:", &t)
        },
        None => {
            let (start, len) = longest_zero_run(s);
            if len >= 2 {
                let before = groups_string(s, 0, start);
                let after = groups_string(s, start + len, 8);
                proof {
                    assert(elided(s@, start as int, len as int));
                    let (a, n) = choose|a: int, n: int| elided(s@, a, n);
                    lemma_elided_unique(s@, a, n, start as int, len as int);
                    assert(s@.subrange(0, start as int) =~= s@.take(start as int));
                    assert(s@.subrange(start + len, 8) =~= s@.skip(start + len));
                }
                text::cat3(&before, "::", &after)
            } else {
                proof {
                    assert forall|a: int, n: int| !elided(s@, a, n) by {
                        if elided(s@, a, n) {
                            assert(zero_run(s@, a, n));
                        }
                    }
                    assert(s@.subrange(0, 8) =~= s@);
                }
                groups_string(s, 0, 8)
            }
        },
    }
}

impl IpAddr {
    /// The text of the address.
    pub fn to_text(&self) -> (r: String)
        ensures
            r@ == ip_text(self@),
    {
        match self {
            IpAddr::V4(o) => v4_string(o),
            IpAddr::V6(s) => v6_string(s),
        }
    }
}

impl SocketAddr {
    /// The text of the address with its port.
    pub fn to_text(&self) -> (r: String)
        ensures
            r@ == socket_text(*self),
    {
        let port = text::decimal(self.port as u64);
        match &self.ip {
            IpAddr::V4(o) => {
                let ip = v4_string(o);
                text::cat3(&ip, ":", &port)
            },
            IpAddr::V6(s) => {
                let ip = v6_string(s);
                text::cat4("[", &ip, "]:", &port)
            },
        }
    }
}

} // verus!

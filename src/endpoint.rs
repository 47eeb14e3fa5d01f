//! Network endpoints, always given explicitly by the caller.

use vstd::prelude::*;
use vstd::string::StrSliceExecFns;
use crate::text::{decimal, push_decimal};

verus! {

/// Characters that may appear in an IPv4 or IPv6 literal or a host name.
pub open spec fn is_host_char(c: char) -> bool {
    ||| 'a' <= c <= 'z'
    ||| 'A' <= c <= 'Z'
    ||| '0' <= c <= '9'
    ||| c == '.'
    ||| c == '-'
    ||| c == ':'
}

pub open spec fn valid_host(h: Seq<char>) -> bool {
    h.len() > 0 && forall|i: int| 0 <= i < h.len() ==> is_host_char(#[trigger] h[i])
}

/// The dotted form of an IPv4 address.
pub open spec fn dotted(o: Seq<u8>) -> Seq<char> {
    decimal(o[0] as nat) + seq!['.'] + decimal(o[1] as nat) + seq!['.'] + decimal(o[2] as nat)
        + seq!['.'] + decimal(o[3] as nat)
}

pub open spec fn is_digit(c: char) -> bool {
    '0' <= c <= '9'
}

/// The number written in decimal by the digits `s`.
pub open spec fn decimal_value(s: Seq<char>) -> nat
    decreases s.len(),
{
    if s.len() == 0 {
        0
    } else {
        decimal_value(s.drop_last()) * 10 + ((s.last() as u32) - ('0' as u32)) as nat
    }
}

/// One number of a dotted IPv4 address: one to three decimal digits with a
/// value of at most 255.
pub fn parse_octet(text: &str) -> (r: Option<u8>)
    ensures
        r is Some <==> (1 <= text@.len() <= 3 && (forall|i: int|
            0 <= i < text@.len() ==> is_digit(#[trigger] text@[i])) && decimal_value(text@) <= 255),
        r matches Some(v) ==> v == decimal_value(text@),
{
    let n = text.unicode_len();
    if n == 0 || n > 3 {
        return None;
    }
    let mut value: u32 = 0;
    let mut i: usize = 0;
    while i < n
        invariant
            n == text@.len(),
            1 <= n <= 3,
            i <= n,
            forall|k: int| 0 <= k < i ==> is_digit(#[trigger] text@[k]),
            value == decimal_value(text@.take(i as int)),
            value < 1000,
            i == 0 ==> value == 0,
            i == 1 ==> value < 10,
            i == 2 ==> value < 100,
        decreases n - i,
    {
        let c = text.get_char(i);
        if !(c >= '0' && c <= '9') {
            return None;
        }
        proof {
            assert(text@.take(i + 1).drop_last() =~= text@.take(i as int));
        }
        value = value * 10 + (c as u32 - '0' as u32);
        i = i + 1;
    }
    proof {
        assert(text@.take(n as int) =~= text@);
    }
    if value > 255 {
        None
    } else {
        Some(value as u8)
    }
}

#[derive(Clone, Copy, PartialEq, Eq, Debug, Structural)]
pub enum EndpointError {
    EmptyHost,
    /// The host holds a character that no address or host name has.
    InvalidHost,
}

pub struct EndpointView {
    pub host: Seq<char>,
    pub port: u16,
}

/// Where the sender sends to, or where the receiver listens.
#[derive(Clone, Debug)]
pub struct EndpointConfig {
    host: String,
    port: u16,
}

impl View for EndpointConfig {
    type V = EndpointView;

    closed spec fn view(&self) -> EndpointView {
        EndpointView { host: self.host@, port: self.port }
    }
}

impl EndpointConfig {
    /// An endpoint from a host (an address literal or a name) and a port.
    pub fn new(host: &str, port: u16) -> (r: Result<EndpointConfig, EndpointError>)
        ensures
            r matches Ok(e) ==> e@ == (EndpointView { host: host@, port }),
            r is Ok <==> valid_host(host@),
            r == Err::<EndpointConfig, _>(EndpointError::EmptyHost) <==> host@.len() == 0,
    {
        let n = host.unicode_len();
        if n == 0 {
            return Err(EndpointError::EmptyHost);
        }
        let mut i: usize = 0;
        while i < n
            invariant
                n == host@.len(),
                i <= n,
                forall|k: int| 0 <= k < i ==> is_host_char(#[trigger] host@[k]),
            decreases n - i,
        {
            let c = host.get_char(i);
            let ok = (c >= 'a' && c <= 'z') || (c >= 'A' && c <= 'Z') || (c >= '0' && c <= '9')
                || c == '.' || c == '-' || c == ':';
            if !ok {
                return Err(EndpointError::InvalidHost);
            }
            i = i + 1;
        }
        Ok(EndpointConfig { host: host.to_owned(), port })
    }

    /// The IPv4 address `a.b.c.d` given by its four octets.
    pub fn from_octets(octets: [u8; 4], port: u16) -> (r: EndpointConfig)
        ensures
            r@ == (EndpointView { host: dotted(octets@), port }),
            valid_host(r@.host),
    {
        let mut host = String::new();
        push_decimal(&mut host, octets[0] as u64);
        proof {
            reveal_strlit(".");
        }
        host.append(".");
        push_decimal(&mut host, octets[1] as u64);
        host.append(".");
        push_decimal(&mut host, octets[2] as u64);
        host.append(".");
        push_decimal(&mut host, octets[3] as u64);
        proof {
            assert(host@ =~= dotted(octets@));
            lemma_dotted_is_host(octets@);
        }
        EndpointConfig { host, port }
    }

    pub fn host(&self) -> (r: &str)
        ensures
            r@ == self@.host,
    {
        self.host.as_str()
    }

    pub fn port(&self) -> (r: u16)
        ensures
            r == self@.port,
    {
        self.port
    }
}

proof fn lemma_decimal_is_digits(n: nat)
    ensures
        decimal(n).len() > 0,
        forall|i: int| 0 <= i < decimal(n).len() ==> '0' <= #[trigger] decimal(n)[i] <= '9',
    decreases n,
{
    if n >= 10 {
        lemma_decimal_is_digits(n / 10);
    }
}

proof fn lemma_dotted_is_host(o: Seq<u8>)
    requires
        o.len() == 4,
    ensures
        valid_host(dotted(o)),
{
    lemma_decimal_is_digits(o[0] as nat);
    lemma_decimal_is_digits(o[1] as nat);
    lemma_decimal_is_digits(o[2] as nat);
    lemma_decimal_is_digits(o[3] as nat);
    let d = dotted(o);
    assert forall|i: int| 0 <= i < d.len() implies is_host_char(#[trigger] d[i]) by {
        let a = decimal(o[0] as nat);
        let b = decimal(o[1] as nat);
        let c = decimal(o[2] as nat);
        let e = decimal(o[3] as nat);
        if i < a.len() {
            assert(d[i] == a[i]);
        } else if i == a.len() {
        } else if i < a.len() + 1 + b.len() {
            assert(d[i] == b[i - a.len() - 1]);
        } else if i == a.len() + 1 + b.len() {
        } else if i < a.len() + 2 + b.len() + c.len() {
            assert(d[i] == c[i - a.len() - 2 - b.len()]);
        } else if i == a.len() + 2 + b.len() + c.len() {
        } else {
            assert(d[i] == e[i - a.len() - 3 - b.len() - c.len()]);
        }
    }
}

} // verus!

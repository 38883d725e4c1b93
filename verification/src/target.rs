use crate::text::{chars_of, decimal, digit_char};
use vstd::prelude::*;

verus! {

/// A host name or address with the port to reach it at.
#[derive(Clone, Debug, PartialEq, Eq)]
pub struct Endpoint {
    pub host: String,
    pub port: u16,
}

/// What an [`Endpoint`] holds, as plain values.
pub struct EndpointView {
    pub host: Seq<char>,
    pub port: u16,
}

impl View for Endpoint {
    type V = EndpointView;

    open spec fn view(&self) -> EndpointView {
        EndpointView { host: self.host@, port: self.port }
    }
}

/// Whether `c` is one of the ten decimal digits.
pub open spec fn is_digit(c: char) -> bool {
    '0' <= c && c <= '9'
}

/// Whether `s` holds decimal digits and nothing else.
pub open spec fn all_digits(s: Seq<char>) -> bool {
    forall|i: int| 0 <= i < s.len() ==> is_digit(#[trigger] s[i])
}

/// The number that a digit character writes.
pub open spec fn digit_value(c: char) -> nat
    recommends
        is_digit(c),
{
    (c as u32 - '0' as u32) as nat
}

/// The number that a run of decimal digits writes; leading zeros count for
/// nothing.
pub open spec fn digits_value(s: Seq<char>) -> nat
    decreases s.len(),
{
    if s.len() == 0 {
        0
    } else {
        digits_value(s.drop_last()) * 10 + digit_value(s.last())
    }
}

/// The number that `s` writes, if `s` is one or more decimal digits whose
/// value fits in sixteen bits.
pub open spec fn number_of(s: Seq<char>) -> Option<u16> {
    if s.len() > 0 && all_digits(s) && digits_value(s) <= u16::MAX {
        Some(digits_value(s) as u16)
    } else {
        None
    }
}

/// The port that `s` writes: a number of sixteen bits in decimal, before
/// which one plus sign may stand.
pub open spec fn port_of(s: Seq<char>) -> Option<u16> {
    if s.len() > 0 && s[0] == '+' {
        number_of(s.skip(1))
    } else {
        number_of(s)
    }
}

/// Whether `i` is the place of the last colon in `s`.
pub open spec fn is_last_colon(s: Seq<char>, i: int) -> bool {
    &&& 0 <= i < s.len()
    &&& s[i] == ':'
    &&& forall|j: int| i < j < s.len() ==> s[j] != ':'
}

/// The endpoint that a target of the form `host:port` names. The host is
/// what stands before the last colon and must not be empty; the port is what
/// follows it. A target of any other form names none.
pub open spec fn endpoint_of(s: Seq<char>) -> Option<EndpointView> {
    if exists|i: int| is_last_colon(s, i) {
        let i = choose|i: int| is_last_colon(s, i);
        match port_of(s.skip(i + 1)) {
            Some(port) if i > 0 => Some(EndpointView { host: s.take(i), port }),
            _ => None,
        }
    } else {
        None
    }
}

/// Whether `s` names an endpoint.
pub open spec fn well_formed_target(s: Seq<char>) -> bool {
    endpoint_of(s) is Some
}

/// The last colon of a sequence stands at one place only.
pub proof fn lemma_last_colon_unique(s: Seq<char>, i: int, j: int)
    requires
        is_last_colon(s, i),
        is_last_colon(s, j),
    ensures
        i == j,
{
}

/// The place of the last colon among `chars`, if there is one.
fn find_last_colon(chars: &Vec<char>) -> (found: Option<usize>)
    ensures
        match found {
            Some(i) => is_last_colon(chars@, i as int),
            None => forall|j: int| 0 <= j < chars@.len() ==> chars@[j] != ':',
        },
{
    let mut i: usize = chars.len();
    while i > 0
        invariant
            i <= chars.len(),
            forall|j: int| i <= j < chars@.len() ==> chars@[j] != ':',
        decreases i,
    {
        i -= 1;
        if chars[i] == ':' {
            return Some(i);
        }
    }
    None
}

/// Reads the port that `chars` writes from position `from` to the end.
fn read_port(chars: &Vec<char>, from: usize) -> (port: Option<u16>)
    requires
        from <= chars.len(),
    ensures
        port == port_of(chars@.skip(from as int)),
{
    if from < chars.len() && chars[from] == '+' {
        proof {
            assert(chars@.skip(from as int).skip(1) =~= chars@.skip(from + 1));
        }
        read_number(chars, from + 1)
    } else {
        read_number(chars, from)
    }
}

/// Reads the number that `chars` writes from position `from` to the end.
fn read_number(chars: &Vec<char>, from: usize) -> (number: Option<u16>)
    requires
        from <= chars.len(),
    ensures
        number == number_of(chars@.skip(from as int)),
{
    let ghost tail = chars@.skip(from as int);
    let mut value: u32 = 0;
    let mut i: usize = from;
    while i < chars.len()
        invariant
            from <= i <= chars.len(),
            tail == chars@.skip(from as int),
            all_digits(tail.take(i - from)),
            value == digits_value(tail.take(i - from)),
            value <= u16::MAX,
        decreases chars.len() - i,
    {
        let c = chars[i];
        let ghost before = tail.take(i - from);
        let ghost upto = tail.take(i - from + 1);
        proof {
            assert(tail[i - from] == c);
            assert(upto.drop_last() =~= before);
            assert(upto.last() == c);
        }
        if !(c >= '0' && c <= '9') {
            proof {
                assert(!is_digit(tail[i - from]));
            }
            return None;
        }
        let digit: u32 = c as u32 - '0' as u32;
        let next: u32 = value * 10 + digit;
        if next > 65535 {
            proof {
                lemma_digits_value_grows(tail, i - from + 1);
                assert(tail.take(tail.len() as int) =~= tail);
            }
            return None;
        }
        proof {
            assert forall|k: int| 0 <= k < upto.len() implies is_digit(#[trigger] upto[k]) by {
                if k < before.len() {
                    assert(upto[k] == before[k]);
                }
            }
        }
        value = next;
        i += 1;
    }
    proof {
        assert(tail.take(i - from) =~= tail);
    }
    if i == from {
        None
    } else {
        Some(value as u16)
    }
}

/// A longer run of digits writes no smaller number than its first `n`.
proof fn lemma_digits_value_grows(s: Seq<char>, n: int)
    requires
        0 <= n <= s.len(),
    ensures
        digits_value(s.take(n)) <= digits_value(s),
    decreases s.len(),
{
    if n == s.len() {
        assert(s.take(n) =~= s);
    } else {
        lemma_digits_value_grows(s.drop_last(), n);
        assert(s.drop_last().take(n) =~= s.take(n));
    }
}

/// Reads a target of the form `host:port`.
pub fn parse_target(target: &str) -> (endpoint: Option<Endpoint>)
    ensures
        match endpoint {
            Some(e) => endpoint_of(target@) == Some(e@),
            None => endpoint_of(target@) is None,
        },
{
    let chars = chars_of(target);
    match find_last_colon(&chars) {
        None => None,
        Some(i) => {
            proof {
                let j = choose|j: int| is_last_colon(chars@, j);
                lemma_last_colon_unique(chars@, i as int, j);
            }
            match read_port(&chars, i + 1) {
                Some(port) if i > 0 => {
                    let host = target.substring_char(0, i);
                    proof {
                        assert(target@.subrange(0, i as int) =~= target@.take(i as int));
                    }
                    Some(Endpoint { host: host.to_owned(), port })
                },
                _ => None,
            }
        },
    }
}

/// Whether a target names an endpoint.
pub fn is_well_formed_target(target: &str) -> (ok: bool)
    ensures
        ok == well_formed_target(target@),
{
    parse_target(target).is_some()
}

/// A decimal numeral is made of digits and writes the number it was made
/// from.
pub proof fn lemma_decimal_reads_back(n: nat)
    ensures
        decimal(n).len() > 0,
        all_digits(decimal(n)),
        digits_value(decimal(n)) == n,
    decreases n,
{
    let last = seq![digit_char(n % 10)];
    assert(is_digit(digit_char(n % 10)));
    assert(digit_value(digit_char(n % 10)) == n % 10);
    if n < 10 {
        assert(decimal(n).drop_last() =~= Seq::<char>::empty());
        assert(digits_value(decimal(n).drop_last()) == 0);
    } else {
        lemma_decimal_reads_back(n / 10);
        assert(decimal(n) == decimal(n / 10) + last);
        assert(decimal(n).drop_last() =~= decimal(n / 10));
        assert(decimal(n).last() == digit_char(n % 10));
        assert forall|i: int| 0 <= i < decimal(n).len() implies is_digit(
            #[trigger] decimal(n)[i],
        ) by {
            if i < decimal(n / 10).len() {
                assert(decimal(n)[i] == decimal(n / 10)[i]);
            }
        }
    }
}

/// A port written out in decimal after a host and a colon is read back as
/// that host and that port, whatever colons the host holds.
pub proof fn lemma_written_target_reads_back(host: Seq<char>, port: u16)
    requires
        host.len() > 0,
    ensures
        endpoint_of(host + seq![':'] + decimal(port as nat)) == Some(
            EndpointView { host, port },
        ),
{
    let numeral = decimal(port as nat);
    let target = host + seq![':'] + numeral;
    let at = host.len() as int;
    lemma_decimal_reads_back(port as nat);
    assert forall|j: int| at < j < target.len() implies target[j] != ':' by {
        assert(target[j] == numeral[j - at - 1]);
        assert(is_digit(numeral[j - at - 1]));
    }
    assert(is_last_colon(target, at));
    let i = choose|i: int| is_last_colon(target, i);
    lemma_last_colon_unique(target, i, at);
    assert(target.skip(at + 1) =~= numeral);
    assert(target.take(at) =~= host);
    assert(numeral[0] != '+') by {
        assert(is_digit(numeral[0]));
    }
}

} // verus!

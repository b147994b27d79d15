//! The address that a server binds: a host and a port, written `host:port`.
use vstd::prelude::*;
use vstd::string::StrSliceExecFns;
use crate::error::{JuntaError, JuntaErrorKind, JuntaResult};

verus! {

/// True for the ten decimal digits.
pub open spec fn is_digit(c: char) -> bool {
    '0' <= c && c <= '9'
}

/// The number that a run of decimal digits writes.
pub open spec fn number(digits: Seq<char>) -> int
    decreases digits.len(),
{
    if digits.len() == 0 {
        0
    } else {
        number(digits.drop_last()) * 10 + (digits.last() as u32 - '0' as u32)
    }
}

/// The text is a host, a colon at `colon`, and a port: the host is not
/// empty, and the port is one to five decimal digits that write a number of
/// at most 65535.
pub open spec fn splits_at(addr: Seq<char>, colon: int) -> bool {
    &&& 0 < colon < addr.len() - 1
    &&& addr.len() - 1 - colon <= 5
    &&& addr[colon] == ':'
    &&& forall|i: int| colon < i < addr.len() ==> is_digit(#[trigger] addr[i])
    &&& number(addr.subrange(colon + 1, addr.len() as int)) <= 65535
}

/// The text is a well-formed address.
pub open spec fn well_formed(addr: Seq<char>) -> bool {
    exists|colon: int| splits_at(addr, colon)
}

/// A text splits into host and port at one place at most.
pub proof fn lemma_splits_once(addr: Seq<char>, a: int, b: int)
    requires
        splits_at(addr, a),
        splits_at(addr, b),
    ensures
        a == b,
{
    if a < b {
        assert(is_digit(addr[b]));
    }
    if b < a {
        assert(is_digit(addr[a]));
    }
}

/// A host and a port.
#[derive(Debug, PartialEq, Eq)]
pub struct Address {
    pub host: String,
    pub port: u16,
}

impl Address {
    /// Reads an address. A text that is no host and port is refused with
    /// `InvalidAddress`.
    pub fn parse(addr: &str) -> (out: JuntaResult<Address>)
        ensures
            match out {
                Ok(address) => exists|colon: int|
                    {
                        &&& #[trigger] splits_at(addr@, colon)
                        &&& address.host@ == addr@.subrange(0, colon)
                        &&& address.port == number(addr@.subrange(colon + 1, addr@.len() as int))
                    },
                Err(error) => !well_formed(addr@) && error.kind is InvalidAddress,
            },
    {
        let len = addr.unicode_len();
        // The port: the digits at the end, six of them at most.
        let mut start: usize = len;
        let mut scanning = true;
        while scanning && start > 0 && len - start < 6
            invariant
                start <= len,
                len == addr@.len(),
                len - start <= 6,
                forall|i: int| start <= i < len ==> is_digit(#[trigger] addr@[i]),
                !scanning ==> start > 0 && !is_digit(addr@[start - 1]),
            decreases start + (if scanning { 1nat } else { 0nat }),
        {
            let c = addr.get_char(start - 1);
            if '0' <= c && c <= '9' {
                start -= 1;
            } else {
                scanning = false;
            }
        }
        let whole = start == len || len - start > 5 || start < 2;
        if whole || addr.get_char(start - 1) != ':' {
            proof {
                assert forall|colon: int| !splits_at(addr@, colon) by {
                    if splits_at(addr@, colon) {
                        if colon >= start {
                            assert(is_digit(addr@[colon]));
                        } else if colon < start - 1 {
                            assert(is_digit(addr@[start - 1]));
                        }
                    }
                }
            }
            return Err(JuntaError::new(JuntaErrorKind::InvalidAddress));
        }
        let colon = start - 1;
        let mut value: u32 = 0;
        let mut at: usize = start;
        assert(addr@.subrange(start as int, start as int) =~= Seq::<char>::empty());
        while at < len
            invariant
                start <= at <= len,
                len == addr@.len(),
                len - start <= 5,
                forall|i: int| start <= i < len ==> is_digit(#[trigger] addr@[i]),
                value == number(addr@.subrange(start as int, at as int)),
                value < pow10((at - start) as nat),
            decreases len - at,
        {
            let c = addr.get_char(at);
            assert(is_digit(addr@[at as int]));
            let ghost upto = addr@.subrange(start as int, at as int + 1);
            assert(upto.drop_last() =~= addr@.subrange(start as int, at as int));
            assert(upto.last() == c);
            proof {
                lemma_pow10((at - start) as nat);
            }
            value = value * 10 + (c as u32 - '0' as u32);
            at += 1;
        }
        if value > 65535 {
            proof {
                assert forall|other: int| !splits_at(addr@, other) by {
                    if splits_at(addr@, other) {
                        if other < colon {
                            assert(is_digit(addr@[colon as int]));
                        }
                        if colon < other {
                            assert(is_digit(addr@[other]));
                        }
                    }
                }
            }
            return Err(JuntaError::new(JuntaErrorKind::InvalidAddress));
        }
        let host = addr.substring_char(0, colon).to_owned();
        assert(splits_at(addr@, colon as int));
        Ok(Address { host, port: value as u16 })
    }
}

/// The power of ten.
pub open spec fn pow10(n: nat) -> int
    decreases n,
{
    if n == 0 {
        1
    } else {
        10 * pow10((n - 1) as nat)
    }
}

/// Powers of ten up to the fifth.
proof fn lemma_pow10(n: nat)
    ensures
        pow10(n) >= 1,
        pow10(n + 1) == 10 * pow10(n),
        n <= 5 ==> pow10(n) <= 100000,
    decreases n,
{
    reveal_with_fuel(pow10, 7);
    if n > 0 {
        lemma_pow10((n - 1) as nat);
    }
}

} // verus!

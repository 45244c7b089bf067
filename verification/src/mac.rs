//! The six-octet MAC address value type: bit accessors, parsing and
//! formatting. A pure value type with no concurrency or I/O.
use crate::text::lemma_ascii_valid_utf8;
use crate::text::string_from_utf8;
use vstd::prelude::*;
use vstd::string::StrSliceExecFns;
use vstd::string::StringSliceAdditionalSpecFns;
use vstd::utf8::encode_utf8;
use vstd::utf8::valid_utf8;

verus! {

broadcast use vstd::array::group_array_axioms;

/// A 48-bit MAC address, stored as its six octets.
#[derive(Copy, Clone, Eq, Hash, Debug)]
pub struct MacAddr6(pub [u8; 6]);

impl PartialEq for MacAddr6 {
    fn eq(&self, o: &MacAddr6) -> (r: bool) {
        let r = self.0[0] == o.0[0] && self.0[1] == o.0[1] && self.0[2] == o.0[2] && self.0[3]
            == o.0[3] && self.0[4] == o.0[4] && self.0[5] == o.0[5];
        proof {
            if r {
                assert(self.0@ =~= o.0@);
            }
        }
        r
    }
}

impl vstd::std_specs::cmp::PartialEqSpecImpl for MacAddr6 {
    open spec fn obeys_eq_spec() -> bool {
        true
    }

    open spec fn eq_spec(&self, o: &MacAddr6) -> bool {
        self@ == o@
    }
}

impl Default for MacAddr6 {
    /// The all-zero address.
    fn default() -> (r: Self)
        ensures
            r@ == Seq::new(6, |i: int| 0u8),
    {
        let r = MacAddr6([0u8; 6]);
        proof {
            assert(r@ =~= Seq::new(6, |i: int| 0u8));
        }
        r
    }
}

/// What parsing a MAC address can fail with.
#[derive(Eq, PartialEq, Structural, Debug, Clone, Copy)]
pub enum Error {
    InvalidMac,
}

impl View for MacAddr6 {
    type V = Seq<u8>;

    open spec fn view(&self) -> Seq<u8> {
        self.0@
    }
}

/// The numeric value of one ASCII hex digit, upper or lower case.
pub open spec fn spec_hex_val(b: u8) -> Option<u8> {
    if 48 <= b <= 57 {
        Some((b - 48) as u8)
    } else if 65 <= b <= 70 {
        Some((b - 55) as u8)
    } else if 97 <= b <= 102 {
        Some((b - 87) as u8)
    } else {
        None
    }
}

/// The octet written as the two ASCII hex digits `hi`, `lo`.
pub open spec fn spec_hex_pair(hi: u8, lo: u8) -> Option<u8> {
    match (spec_hex_val(hi), spec_hex_val(lo)) {
        (Some(h), Some(l)) => Some((16 * h + l) as u8),
        _ => None,
    }
}

/// Parses twelve plain hex digits, two per octet.
pub open spec fn spec_parse_plain(b: Seq<u8>) -> Option<Seq<u8>>
    recommends
        b.len() == 12,
{
    if forall|i: int| 0 <= i < 6 ==> #[trigger] spec_hex_pair(b[2 * i], b[2 * i + 1]) is Some {
        Some(Seq::new(6, |i: int| spec_hex_pair(b[2 * i], b[2 * i + 1]).unwrap()))
    } else {
        None
    }
}

/// Parses six hex pairs separated by a consistent `:` or `-`.
pub open spec fn spec_parse_delimited(b: Seq<u8>) -> Option<Seq<u8>>
    recommends
        b.len() == 17,
{
    let sep = b[2];
    if sep != 58 && sep != 45 {
        None
    } else if !(forall|k: int| 0 <= k < 5 ==> #[trigger] b[3 * k + 2] == sep) {
        None
    } else if forall|i: int| 0 <= i < 6 ==> #[trigger] spec_hex_pair(b[3 * i], b[3 * i + 1]) is Some {
        Some(Seq::new(6, |i: int| spec_hex_pair(b[3 * i], b[3 * i + 1]).unwrap()))
    } else {
        None
    }
}

/// What parsing the UTF-8 bytes of a MAC address string yields: twelve plain
/// hex digits, or six hex pairs with a consistent separator; anything else is
/// rejected.
pub open spec fn spec_parse_mac(b: Seq<u8>) -> Option<Seq<u8>> {
    if b.len() == 12 {
        spec_parse_plain(b)
    } else if b.len() == 17 {
        spec_parse_delimited(b)
    } else {
        None
    }
}

/// The ASCII byte of the uppercase hex digit for `v < 16`.
pub open spec fn spec_hex_char_upper(v: u8) -> u8
    recommends
        v < 16,
{
    if v < 10 {
        (48 + v) as u8
    } else {
        (55 + v) as u8
    }
}

/// One octet as two uppercase ASCII hex digits.
pub open spec fn spec_hex2(b: u8) -> Seq<u8> {
    seq![spec_hex_char_upper(b >> 4), spec_hex_char_upper(b & 0x0F)]
}

/// The first `n` octets formatted, separated by `sep`.
pub open spec fn spec_format_n(mac: Seq<u8>, sep: Seq<u8>, n: int) -> Seq<u8>
    decreases n,
{
    if n <= 0 {
        Seq::empty()
    } else if n == 1 {
        spec_hex2(mac[0])
    } else {
        spec_format_n(mac, sep, n - 1) + sep + spec_hex2(mac[n - 1])
    }
}

/// The UTF-8 bytes of the address written as six uppercase hex pairs
/// separated by `sep`.
pub open spec fn spec_format_bytes(mac: Seq<u8>, sep: Seq<u8>) -> Seq<u8>
    recommends
        mac.len() == 6,
{
    spec_format_n(mac, sep, 6)
}

/// See [`spec_hex_val`].
fn hex_val(b: u8) -> (r: Option<u8>)
    ensures
        r == spec_hex_val(b),
{
    if 48 <= b && b <= 57 {
        Some(b - 48)
    } else if 65 <= b && b <= 70 {
        Some(b - 55)
    } else if 97 <= b && b <= 102 {
        Some(b - 87)
    } else {
        None
    }
}

/// See [`spec_hex_char_upper`].
fn hex_char_upper(v: u8) -> (r: u8)
    requires
        v < 16,
    ensures
        r == spec_hex_char_upper(v),
        r < 128,
{
    if v < 10 {
        48 + v
    } else {
        55 + v
    }
}

impl MacAddr6 {
    /// Fills all six octets from the operating system's random source.
    ///
    /// Relies on `rand::rngs::OsRng`, whose `fill` puts random bytes in the
    /// buffer; nothing is promised of the value.
    #[verifier::external_body]
    pub fn random() -> Self {
        let mut octets = [0u8; 6];
        rand::Rng::fill(&mut rand::rngs::OsRng, octets.as_mut_slice());
        Self(octets)
    }

    /// The locally-administered bit: bit 1 of the first octet.
    pub open spec fn spec_is_local(self) -> bool {
        self@[0] & 0b0000_0010 != 0
    }

    /// The multicast bit: bit 0 of the first octet.
    pub open spec fn spec_is_multicast(self) -> bool {
        self@[0] & 0b0000_0001 != 0
    }

    /// Sets or clears the locally-administered bit; every other bit of the
    /// address is untouched, so the multicast bit keeps its prior state.
    pub fn set_local(&mut self, v: bool)
        ensures
            final(self)@ == old(self)@.update(
                0,
                if v {
                    old(self)@[0] | 0b0000_0010
                } else {
                    old(self)@[0] & !0b0000_0010
                },
            ),
            final(self).spec_is_local() == v,
            final(self).spec_is_multicast() == old(self).spec_is_multicast(),
    {
        let b = self.0[0];
        if v {
            self.0[0] = b | 0b0000_0010;
        } else {
            self.0[0] = b & !0b0000_0010;
        }
        proof {
            let nb = final(self)@[0];
            assert((v ==> nb == b | 0b0000_0010) && (!v ==> nb == b & !0b0000_0010u8) ==> (nb
                & 0b0000_0010 != 0) == v && (nb & 0b0000_0001 != 0) == (b & 0b0000_0001 != 0))
                by (bit_vector);
        }
    }

    /// See [`Self::spec_is_local`].
    pub fn is_local(&self) -> (r: bool)
        ensures
            r == self.spec_is_local(),
    {
        (self.0[0] & 0b0000_0010) != 0
    }

    /// Sets or clears the multicast bit; every other bit of the address is
    /// untouched, so the locally-administered bit keeps its prior state.
    pub fn set_multicast(&mut self, v: bool)
        ensures
            final(self)@ == old(self)@.update(
                0,
                if v {
                    old(self)@[0] | 0b0000_0001
                } else {
                    old(self)@[0] & !0b0000_0001
                },
            ),
            final(self).spec_is_multicast() == v,
            final(self).spec_is_local() == old(self).spec_is_local(),
    {
        let b = self.0[0];
        if v {
            self.0[0] = b | 0b0000_0001;
        } else {
            self.0[0] = b & !0b0000_0001;
        }
        proof {
            let nb = final(self)@[0];
            assert((v ==> nb == b | 0b0000_0001) && (!v ==> nb == b & !0b0000_0001u8) ==> (nb
                & 0b0000_0001 != 0) == v && (nb & 0b0000_0010 != 0) == (b & 0b0000_0010 != 0))
                by (bit_vector);
        }
    }

    /// See [`Self::spec_is_multicast`].
    pub fn is_multicast(&self) -> (r: bool)
        ensures
            r == self.spec_is_multicast(),
    {
        (self.0[0] & 0b0000_0001) != 0
    }

    /// Returns the organizationally unique identifier: the first three
    /// octets.
    pub fn oui(&self) -> (r: [u8; 3])
        ensures
            r@ == self@.subrange(0, 3),
    {
        let r = [self.0[0], self.0[1], self.0[2]];
        proof {
            assert(r@ =~= self@.subrange(0, 3));
        }
        r
    }

    /// Sets the organizationally unique identifier: the first three octets.
    pub fn set_oui(&mut self, oui: [u8; 3])
        ensures
            final(self)@ == oui@ + old(self)@.subrange(3, 6),
    {
        self.0[0] = oui[0];
        self.0[1] = oui[1];
        self.0[2] = oui[2];
        proof {
            assert(final(self)@ =~= oui@ + old(self)@.subrange(3, 6));
        }
    }

    /// The six octets as an array.
    pub fn as_array(&self) -> (r: [u8; 6])
        ensures
            r@ == self@,
    {
        self.0
    }

    /// The six octets as a slice.
    pub fn as_slice(&self) -> (r: &[u8])
        ensures
            r@ == self@,
    {
        self.0.as_slice()
    }

    /// Parses a MAC address string: twelve plain hex digits, or six hex
    /// pairs separated by a consistent `:` or `-`; everything else fails
    /// with `InvalidMac`.
    pub fn parse_str(s: &str) -> (r: Result<MacAddr6, Error>)
        ensures
            match r {
                Ok(m) => spec_parse_mac(s.spec_bytes()) == Some(m@),
                Err(e) => spec_parse_mac(s.spec_bytes()) is None && e == Error::InvalidMac,
            },
    {
        let b = s.as_bytes();
        if b.len() == 12 {
            let mut out = [0u8; 6];
            let mut i: usize = 0;
            while i < 6
                invariant
                    i <= 6,
                    b@ == s.spec_bytes(),
                    b@.len() == 12,
                    out@.len() == 6,
                    forall|j: int| 0 <= j < i ==> #[trigger] spec_hex_pair(b@[2 * j], b@[2 * j + 1])
                        == Some(out@[j]),
                decreases 6 - i,
            {
                let hi = hex_val(b[2 * i]);
                let lo = hex_val(b[2 * i + 1]);
                match (hi, lo) {
                    (Some(h), Some(l)) => {
                        out[i] = 16 * h + l;
                    },
                    _ => {
                        proof {
                            assert(spec_hex_pair(b@[2 * i as int], b@[2 * i as int + 1]) is None);
                        }
                        return Err(Error::InvalidMac);
                    },
                }
                i = i + 1;
            }
            proof {
                assert(forall|j: int| 0 <= j < 6 ==> #[trigger] spec_hex_pair(b@[2 * j], b@[2 * j
                    + 1]) is Some);
                assert(Seq::new(6, |j: int| spec_hex_pair(b@[2 * j], b@[2 * j + 1]).unwrap())
                    =~= out@);
            }
            Ok(MacAddr6(out))
        } else if b.len() == 17 {
            let sep = b[2];
            if sep != 58 && sep != 45 {
                return Err(Error::InvalidMac);
            }
            let mut k: usize = 0;
            while k < 5
                invariant
                    k <= 5,
                    b@ == s.spec_bytes(),
                    b@.len() == 17,
                    sep == b@[2],
                    forall|j: int| 0 <= j < k ==> #[trigger] b@[3 * j + 2] == sep,
                decreases 5 - k,
            {
                if b[3 * k + 2] != sep {
                    proof {
                        assert(b@[3 * k as int + 2] != sep);
                    }
                    return Err(Error::InvalidMac);
                }
                k = k + 1;
            }
            let mut out = [0u8; 6];
            let mut i: usize = 0;
            while i < 6
                invariant
                    i <= 6,
                    b@ == s.spec_bytes(),
                    b@.len() == 17,
                    out@.len() == 6,
                    forall|j: int| 0 <= j < i ==> #[trigger] spec_hex_pair(b@[3 * j], b@[3 * j + 1])
                        == Some(out@[j]),
                decreases 6 - i,
            {
                let hi = hex_val(b[3 * i]);
                let lo = hex_val(b[3 * i + 1]);
                match (hi, lo) {
                    (Some(h), Some(l)) => {
                        out[i] = 16 * h + l;
                    },
                    _ => {
                        proof {
                            assert(spec_hex_pair(b@[3 * i as int], b@[3 * i as int + 1]) is None);
                        }
                        return Err(Error::InvalidMac);
                    },
                }
                i = i + 1;
            }
            proof {
                assert(forall|j: int| 0 <= j < 6 ==> #[trigger] spec_hex_pair(b@[3 * j], b@[3 * j
                    + 1]) is Some);
                assert(Seq::new(6, |j: int| spec_hex_pair(b@[3 * j], b@[3 * j + 1]).unwrap())
                    =~= out@);
            }
            Ok(MacAddr6(out))
        } else {
            Err(Error::InvalidMac)
        }
    }

    /// Writes the address as six uppercase hex pairs separated by `sep`;
    /// the result's UTF-8 encoding is exactly [`spec_format_bytes`].
    pub fn format_delimited(&self, sep: &str) -> (r: String)
        ensures
            encode_utf8(r@) == spec_format_bytes(self@, sep.spec_bytes()),
    {
        let mut out: Vec<u8> = Vec::new();
        let mut i: usize = 0;
        proof {
            vstd::utf8::encode_utf8_valid_utf8(sep@);
        }
        while i < 6
            invariant
                i <= 6,
                out@ == spec_format_n(self@, sep.spec_bytes(), i as int),
                valid_utf8(out@),
                valid_utf8(sep.spec_bytes()),
            decreases 6 - i,
        {
            let ghost pre = out@;
            if i > 0 {
                let mut sv = sep.as_bytes_vec();
                out.append(&mut sv);
            }
            let b = self.0[i];
            proof {
                assert(b >> 4 < 16 && b & 0x0F < 16) by (bit_vector);
            }
            let hi = hex_char_upper(b >> 4);
            let lo = hex_char_upper(b & 0x0F);
            out.push(hi);
            out.push(lo);
            proof {
                let sb = sep.spec_bytes();
                let h2 = spec_hex2(self@[i as int]);
                assert(h2[0] < 128 && h2[1] < 128);
                lemma_ascii_valid_utf8(h2);
                if i > 0 {
                    assert(out@ =~= (pre + sb) + h2);
                    vstd::utf8::valid_utf8_concat(pre, sb);
                    vstd::utf8::valid_utf8_concat(pre + sb, h2);
                    assert(out@ =~= spec_format_n(self@, sb, i + 1));
                } else {
                    assert(pre =~= Seq::<u8>::empty());
                    assert(out@ =~= h2);
                    assert(out@ =~= spec_format_n(self@, sb, 1));
                }
            }
            i = i + 1;
        }
        let r = string_from_utf8(out);
        match r {
            Some(s) => s,
            None => {
                proof {
                    assert(false);
                }
                String::new()
            },
        }
    }
}

impl core::str::FromStr for MacAddr6 {
    type Err = Error;

    fn from_str(s: &str) -> Result<Self, Error> {
        MacAddr6::parse_str(s)
    }
}

impl From<[u8; 6]> for MacAddr6 {
    fn from(octets: [u8; 6]) -> (r: Self) {
        MacAddr6(octets)
    }
}

impl vstd::std_specs::convert::FromSpecImpl<[u8; 6]> for MacAddr6 {
    open spec fn obeys_from_spec() -> bool {
        true
    }

    open spec fn from_spec(octets: [u8; 6]) -> Self {
        MacAddr6(octets)
    }
}

} // verus!

//! Stable device identifiers derived from hardware identity bytes.
//!
//! A GUID is 32 lowercase hex characters (ASCII bytes).  When vendor,
//! product and version are all non-zero, it encodes `(bus, vendor, product,
//! version)` as little-endian 16-bit pairs, each followed by four `0`
//! characters, matching the widely used community convention so externally
//! authored mapping entries resolve.  Otherwise it falls back to encoding
//! the bus followed by the first eleven bytes of the device name,
//! zero-padded when the name is shorter.
use vstd::prelude::*;

verus! {

use vstd::arithmetic::div_mod::lemma_fundamental_div_mod;

/// Length of a GUID in hex characters.
pub const GUID_LEN: usize = 32;

/// The lowercase ASCII hex character for a nibble.
pub open spec fn hex_digit(n: int) -> u8 {
    if n < 10 {
        (48 + n) as u8
    } else {
        (87 + n) as u8
    }
}

/// The two hex characters of one byte, high nibble first.
pub open spec fn hex_byte(b: int) -> Seq<u8> {
    seq![hex_digit(b / 16), hex_digit(b % 16)]
}

/// One encoded 16-bit field: its low byte, its high byte, then four `0`
/// characters of padding.
pub open spec fn guid_group(v: int) -> Seq<u8> {
    seq![
        hex_digit(v % 256 / 16),
        hex_digit(v % 256 % 16),
        hex_digit(v / 256 / 16),
        hex_digit(v / 256 % 16),
        48u8, 48u8, 48u8, 48u8,
    ]
}

/// The GUID of a device whose vendor, product and version are all known.
pub open spec fn guid_primary(bus: int, vendor: int, product: int, version: int) -> Seq<u8> {
    guid_group(bus) + guid_group(vendor) + guid_group(product) + guid_group(version)
}

/// The `i`-th byte of the device name, or `0` past its end.
pub open spec fn padded_name_byte(name: Seq<u8>, i: int) -> int {
    if 0 <= i < name.len() {
        name[i] as int
    } else {
        0
    }
}

/// The 22 hex characters encoding the first eleven (zero-padded) name bytes.
pub open spec fn fallback_name_hex(name: Seq<u8>) -> Seq<u8> {
    Seq::new(22, |i: int|
        if i % 2 == 0 {
            hex_digit(padded_name_byte(name, i / 2) / 16)
        } else {
            hex_digit(padded_name_byte(name, i / 2) % 16)
        })
}

/// The GUID of a device with a zero vendor, product or version: the bus
/// followed by the start of the device name.
pub open spec fn guid_fallback(bus: int, name: Seq<u8>) -> Seq<u8> {
    guid_group(bus) + fallback_name_hex(name) + seq![48u8, 48u8]
}

/// The GUID derived from one device's identity.
pub open spec fn guid_of(
    bus: int,
    vendor: int,
    product: int,
    version: int,
    name: Seq<u8>,
) -> Seq<u8> {
    if vendor != 0 && product != 0 && version != 0 {
        guid_primary(bus, vendor, product, version)
    } else {
        guid_fallback(bus, name)
    }
}

/// Append the two hex characters of one byte.
fn push_hex_byte(out: &mut Vec<u8>, b: u8)
    ensures
        final(out)@ == old(out)@ + hex_byte(b as int),
{
    let hi: u8 = b / 16;
    let lo: u8 = b % 16;
    out.push(if hi < 10 { 48 + hi } else { 87 + hi });
    out.push(if lo < 10 { 48 + lo } else { 87 + lo });
    proof {
        assert(out@ =~= old(out)@ + hex_byte(b as int));
    }
}

/// Append one encoded 16-bit field: low byte, high byte, four `0`s.
fn push_guid_group(out: &mut Vec<u8>, v: u16)
    ensures
        final(out)@ == old(out)@ + guid_group(v as int),
{
    push_hex_byte(out, (v % 256) as u8);
    push_hex_byte(out, (v / 256) as u8);
    out.push(48);
    out.push(48);
    out.push(48);
    out.push(48);
    proof {
        assert(out@ =~= old(out)@ + guid_group(v as int));
    }
}

/// Derive the stable 32-character identifier of one device from its bus
/// type, vendor id, product id, version and raw name bytes.
///
/// Never fails, whatever the name's length: missing name bytes read as zero.
pub fn derive_guid(bus: u16, vendor: u16, product: u16, version: u16, name: &[u8]) -> (r: Vec<u8>)
    ensures
        r@ == guid_of(bus as int, vendor as int, product as int, version as int, name@),
        r@.len() == GUID_LEN,
{
    let mut out: Vec<u8> = Vec::new();
    push_guid_group(&mut out, bus);
    if vendor != 0 && product != 0 && version != 0 {
        push_guid_group(&mut out, vendor);
        push_guid_group(&mut out, product);
        push_guid_group(&mut out, version);
        proof {
            assert(out@ =~= guid_primary(bus as int, vendor as int, product as int,
                version as int));
        }
        out
    } else {
        let ghost name_seq = name@;
        let mut i: usize = 0;
        while i < 11
            invariant
                i <= 11,
                name_seq == name@,
                out@ == guid_group(bus as int)
                    + fallback_name_hex(name_seq).subrange(0, 2 * i as int),
            decreases 11 - i,
        {
            let b: u8 = if i < name.len() { name[i] } else { 0 };
            push_hex_byte(&mut out, b);
            proof {
                assert(fallback_name_hex(name_seq).subrange(0, 2 * (i + 1) as int)
                    =~= fallback_name_hex(name_seq).subrange(0, 2 * i as int)
                        + hex_byte(b as int));
                assert(out@ =~= guid_group(bus as int)
                    + fallback_name_hex(name_seq).subrange(0, 2 * (i + 1) as int));
            }
            i = i + 1;
        }
        out.push(48);
        out.push(48);
        proof {
            assert(fallback_name_hex(name_seq).subrange(0, 22)
                =~= fallback_name_hex(name_seq));
            assert(out@ =~= guid_fallback(bus as int, name@));
        }
        out
    }
}

/// Hex characters are distinct for distinct nibbles.
proof fn lemma_hex_digit_injective(a: int, b: int)
    requires
        0 <= a < 16,
        0 <= b < 16,
        hex_digit(a) == hex_digit(b),
    ensures
        a == b,
{
}

/// One encoded field determines its 16-bit value.
proof fn lemma_guid_group_injective(v1: int, v2: int)
    requires
        0 <= v1 < 65536,
        0 <= v2 < 65536,
        guid_group(v1) == guid_group(v2),
    ensures
        v1 == v2,
{
    assert(guid_group(v1)[0] == guid_group(v2)[0]);
    assert(guid_group(v1)[1] == guid_group(v2)[1]);
    assert(guid_group(v1)[2] == guid_group(v2)[2]);
    assert(guid_group(v1)[3] == guid_group(v2)[3]);
    lemma_hex_digit_injective(v1 % 256 / 16, v2 % 256 / 16);
    lemma_hex_digit_injective(v1 % 256 % 16, v2 % 256 % 16);
    lemma_hex_digit_injective(v1 / 256 / 16, v2 / 256 / 16);
    lemma_hex_digit_injective(v1 / 256 % 16, v2 / 256 % 16);
    lemma_fundamental_div_mod(v1 % 256, 16);
    lemma_fundamental_div_mod(v2 % 256, 16);
    lemma_fundamental_div_mod(v1 / 256, 16);
    lemma_fundamental_div_mod(v2 / 256, 16);
    lemma_fundamental_div_mod(v1, 256);
    lemma_fundamental_div_mod(v2, 256);
}

/// GUID determinism, stated both ways for devices whose vendor, product and
/// version are all non-zero: identical `(bus, vendor, product, version)`
/// always yield an identical GUID (the identifier is a function of those
/// fields), and changing any one field changes the GUID.
pub proof fn lemma_guid_determines_identity(
    bus1: u16, vendor1: u16, product1: u16, version1: u16, name1: Seq<u8>,
    bus2: u16, vendor2: u16, product2: u16, version2: u16, name2: Seq<u8>,
)
    requires
        vendor1 != 0 && product1 != 0 && version1 != 0,
        vendor2 != 0 && product2 != 0 && version2 != 0,
    ensures
        (guid_of(bus1 as int, vendor1 as int, product1 as int, version1 as int, name1)
            == guid_of(bus2 as int, vendor2 as int, product2 as int, version2 as int, name2))
        <==> (bus1 == bus2 && vendor1 == vendor2 && product1 == product2
            && version1 == version2),
{
    let g1 = guid_primary(bus1 as int, vendor1 as int, product1 as int, version1 as int);
    let g2 = guid_primary(bus2 as int, vendor2 as int, product2 as int, version2 as int);
    if g1 == g2 {
        assert forall|i: int| 0 <= i < 8 implies
            guid_group(bus1 as int)[i] == guid_group(bus2 as int)[i] by {
            assert(g1[i] == guid_group(bus1 as int)[i]);
            assert(g2[i] == guid_group(bus2 as int)[i]);
        }
        assert(guid_group(bus1 as int) =~= guid_group(bus2 as int));
        assert forall|i: int| 0 <= i < 8 implies
            guid_group(vendor1 as int)[i] == guid_group(vendor2 as int)[i] by {
            assert(g1[i + 8] == guid_group(vendor1 as int)[i]);
            assert(g2[i + 8] == guid_group(vendor2 as int)[i]);
        }
        assert(guid_group(vendor1 as int) =~= guid_group(vendor2 as int));
        assert forall|i: int| 0 <= i < 8 implies
            guid_group(product1 as int)[i] == guid_group(product2 as int)[i] by {
            assert(g1[i + 16] == guid_group(product1 as int)[i]);
            assert(g2[i + 16] == guid_group(product2 as int)[i]);
        }
        assert(guid_group(product1 as int) =~= guid_group(product2 as int));
        assert forall|i: int| 0 <= i < 8 implies
            guid_group(version1 as int)[i] == guid_group(version2 as int)[i] by {
            assert(g1[i + 24] == guid_group(version1 as int)[i]);
            assert(g2[i + 24] == guid_group(version2 as int)[i]);
        }
        assert(guid_group(version1 as int) =~= guid_group(version2 as int));
        lemma_guid_group_injective(bus1 as int, bus2 as int);
        lemma_guid_group_injective(vendor1 as int, vendor2 as int);
        lemma_guid_group_injective(product1 as int, product2 as int);
        lemma_guid_group_injective(version1 as int, version2 as int);
    }
}

} // verus!

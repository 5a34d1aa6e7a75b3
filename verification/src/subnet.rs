//! Addresses inside the virtual network: the netmask and a member's own address.

use crate::text::{dotted, dotted_quad, law_dotted, spells_quad};
use vstd::prelude::*;

verus! {

/// The octet whose `ones` leading bits are set and whose other bits are clear.
pub open spec fn leading_ones(ones: int) -> u8 {
    if ones <= 0 {
        0
    } else if ones == 1 {
        128
    } else if ones == 2 {
        192
    } else if ones == 3 {
        224
    } else if ones == 4 {
        240
    } else if ones == 5 {
        248
    } else if ones == 6 {
        252
    } else if ones == 7 {
        254
    } else {
        255
    }
}

/// The four octets of the netmask with `mask` leading bits set.
pub open spec fn mask_octets(mask: u8) -> Seq<u8> {
    Seq::new(4, |j: int| leading_ones(mask - 8 * j))
}

/// Setting the next bit of an octet of leading ones gives the next such octet.
proof fn lemma_next_one(ones: u8)
    requires
        ones < 8,
    ensures
        leading_ones(ones as int) | (1u8 << ((7 - ones) as u8)) == leading_ones(ones + 1),
{
    assert(0u8 | (1u8 << 7u8) == 128u8) by (bit_vector);
    assert(128u8 | (1u8 << 6u8) == 192u8) by (bit_vector);
    assert(192u8 | (1u8 << 5u8) == 224u8) by (bit_vector);
    assert(224u8 | (1u8 << 4u8) == 240u8) by (bit_vector);
    assert(240u8 | (1u8 << 3u8) == 248u8) by (bit_vector);
    assert(248u8 | (1u8 << 2u8) == 252u8) by (bit_vector);
    assert(252u8 | (1u8 << 1u8) == 254u8) by (bit_vector);
    assert(254u8 | (1u8 << 0u8) == 255u8) by (bit_vector);
}

/// The dotted notation of the netmask with `mask` leading bits set.
pub fn mask_to_string(mask: u8) -> (s: String)
    requires
        mask <= 32,
    ensures
        s@ == dotted(mask_octets(mask)),
{
    let mut octets: [u8; 4] = [0; 4];
    let mut i: u8 = 0;
    while i < mask
        invariant
            i <= mask <= 32,
            octets@ =~= mask_octets(i),
        decreases mask - i,
    {
        let j: usize = (i / 8) as usize;
        let octet: u8 = octets[j];
        proof {
            lemma_next_one(i % 8);
            assert(i - 8 * j == i % 8);
        }
        octets[j] = octet | (1u8 << (7 - (i % 8)));
        i += 1;
    }
    assert(octets@ =~= seq![octets[0], octets[1], octets[2], octets[3]]);
    dotted_quad(octets[0], octets[1], octets[2], octets[3])
}

/// Bit `i` of the netmask, counted from the most significant bit, is set if and
/// only if `i < mask`.
pub proof fn law_mask_bits(mask: u8, i: u8)
    requires
        mask <= 32,
        i < 32,
    ensures
        mask_octets(mask).len() == 4,
        ((mask_octets(mask)[(i / 8) as int] >> ((7 - i % 8) as u8)) & 1u8 == 1u8) <==> i < mask,
{
    let ones: int = mask - 8 * (i / 8);
    let k: u8 = if ones <= 0 {
        0
    } else if ones >= 8 {
        8
    } else {
        ones as u8
    };
    let b: u8 = i % 8;
    let o = leading_ones(k as int);
    let s: u8 = (7 - b) as u8;
    assert(mask_octets(mask)[(i / 8) as int] == o);
    assert((o >> s) & 1u8 == 1u8 <==> b < k) by (bit_vector)
        requires
            b < 8,
            s == 7 - b,
            k <= 8,
            (k == 0 && o == 0) || (k == 1 && o == 128) || (k == 2 && o == 192) || (k == 3 && o
                == 224) || (k == 4 && o == 240) || (k == 5 && o == 248) || (k == 6 && o == 252) || (k
                == 7 && o == 254) || (k == 8 && o == 255),
    ;
}

/// The host octet that a random byte selects.
pub open spec fn host_octet(byte: u8) -> u8 {
    (byte % 253 + 1) as u8
}

/// The address in the virtual network that a random byte selects.
pub open spec fn virtual_ip(byte: u8) -> Seq<char> {
    dotted(seq![10u8, 0u8, 0u8, host_octet(byte)])
}

/// The address in the virtual network that `byte` selects.
pub fn virtual_ip_from(byte: u8) -> (s: String)
    ensures
        s@ == virtual_ip(byte),
{
    dotted_quad(10, 0, 0, byte % 253 + 1)
}

/// A host octet is never 0, the address of the network itself, nor 254 or 255, the
/// last of which is the broadcast address. Each of the others is selected by the byte
/// one below it; three of them by a second byte as well.
pub proof fn law_host_octet(byte: u8)
    ensures
        1 <= host_octet(byte) <= 253,
        byte < 253 ==> host_octet(byte) == byte + 1,
        byte >= 253 ==> host_octet(byte) == byte - 252,
{
}

/// The address that a byte selects is 10.0.0 and a host octet, one more than the
/// remainder of the byte by 253.
pub proof fn law_virtual_ip(byte: u8, octets: Seq<u8>)
    requires
        octets.len() == 4,
        octets[0] == 10 && octets[1] == 0 && octets[2] == 0,
        1 <= octets[3] <= 253,
        (byte - (octets[3] - 1)) % 253 == 0,
    ensures
        exists|a: Seq<char>, b: Seq<char>, c: Seq<char>, d: Seq<char>|
            spells_quad(virtual_ip(byte), octets, a, b, c, d),
{
    assert(octets[3] == host_octet(byte)) by {
        law_host_octet(byte);
    }
    assert(virtual_ip(byte) == dotted(octets)) by {
        assert(octets =~= seq![10u8, 0u8, 0u8, host_octet(byte)]);
    }
    law_dotted(octets);
    let (a, b, c, d) = choose|a: Seq<char>, b: Seq<char>, c: Seq<char>, d: Seq<char>|
        spells_quad(dotted(octets), octets, a, b, c, d);
    assert(spells_quad(virtual_ip(byte), octets, a, b, c, d));
}

} // verus!

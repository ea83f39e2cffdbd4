use vstd::prelude::*;

verus! {

/// A wake packet: six bytes of `0xFF`, then the MAC address sixteen times.
pub open spec fn magic_layout(mac: Seq<u8>) -> Seq<u8> {
    Seq::new(102, |i: int| if i < 6 { 0xFFu8 } else { mac[(i - 6) % 6] })
}

/// Relies on wake_on_lan::MagicPacket::new and magic_bytes: the packet is a
/// header of six `0xFF` bytes followed by sixteen copies of the address.
#[verifier::external_body]
fn packet_bytes(mac: &[u8; 6]) -> (r: Vec<u8>)
    ensures
        r@ == magic_layout(mac@),
{
    wake_on_lan::MagicPacket::new(mac).magic_bytes().to_vec()
}

/// The bytes of the wake packet for `mac`.
pub fn magic_packet(mac: &[u8; 6]) -> (r: Vec<u8>)
    ensures
        r@ == magic_layout(mac@),
        r@.len() == 102,
{
    packet_bytes(mac)
}

} // verus!

//! Helpers: choosing the MAC address that names a site, and naming snapshot files.

use vstd::prelude::*;

verus! {

broadcast use vstd::string::group_string_axioms;

/// What is known of a network interface: whether it is up, whether it is the loopback
/// interface, and its MAC address, if it has one.
#[derive(Debug, Clone, Copy)]
pub struct InterfaceInfo {
    /// The interface is up.
    pub is_up: bool,
    /// The interface is the loopback one.
    pub is_loopback: bool,
    /// Its MAC address.
    pub mac: Option<[u8; 6]>,
}

/// A lower-case hexadecimal digit.
pub open spec fn hex_digit(d: int) -> char {
    seq!['0', '1', '2', '3', '4', '5', '6', '7', '8', '9', 'a', 'b', 'c', 'd', 'e', 'f'][d]
}

/// A byte as two lower-case hexadecimal digits.
pub open spec fn hex_pair(b: u8) -> Seq<char> {
    seq![hex_digit(b as int / 16), hex_digit(b as int % 16)]
}

/// A MAC address as six pairs of lower-case hexadecimal digits separated by colons.
pub open spec fn mac_text(o: Seq<u8>) -> Seq<char> {
    hex_pair(o[0]) + seq![':'] + hex_pair(o[1]) + seq![':'] + hex_pair(o[2]) + seq![':'] + hex_pair(
        o[3],
    ) + seq![':'] + hex_pair(o[4]) + seq![':'] + hex_pair(o[5])
}

/// The characters of a string but its colons.
pub open spec fn drop_colons(s: Seq<char>) -> Seq<char>
    decreases s.len(),
{
    if s.len() == 0 {
        s
    } else if s.last() == ':' {
        drop_colons(s.drop_last())
    } else {
        drop_colons(s.drop_last()).push(s.last())
    }
}

/// Formats a MAC address as `pnet`'s `MacAddr` displays it: each byte as two
/// lower-case hexadecimal digits (`{:02x}`), separated by colons.
#[verifier::external_body]
fn mac_to_string(octets: [u8; 6]) -> (s: String)
    ensures
        s@ == mac_text(octets@),
{
    pnet::datalink::MacAddr::new(octets[0], octets[1], octets[2], octets[3], octets[4], octets[5]).to_string()
}

/// The string without its colons.
fn remove_colons(s: &str) -> (r: String)
    ensures
        r@ == drop_colons(s@),
{
    let n = s.unicode_len();
    let mut r = String::new();
    let mut i: usize = 0;
    while i < n
        invariant
            n == s@.len(),
            i <= n,
            r@ == drop_colons(s@.take(i as int)),
        decreases n - i,
    {
        let c = s.get_char(i);
        proof {
            assert(s@.take(i as int + 1).drop_last() =~= s@.take(i as int));
            assert(s@.take(i as int + 1).last() == c);
        }
        if c != ':' {
            let piece = s.substring_char(i, i + 1);
            r.append(piece);
            assert(piece@ =~= seq![c]);
        }
        i += 1;
    }
    assert(s@.take(n as int) =~= s@);
    r
}

/// Whether an interface is the one that names the site: up, not the loopback, with a
/// MAC address that is not all zeros.
pub open spec fn names_site(i: InterfaceInfo) -> bool {
    i.is_up && !i.is_loopback && (i.mac matches Some(m) && m@ != seq![0u8, 0, 0, 0, 0, 0])
}

/// The MAC address of the first interface that names the site, as twelve hexadecimal
/// digits (its text without colons); `None` where no interface does.
pub fn select_mac_address(interfaces: &Vec<InterfaceInfo>) -> (r: Option<String>)
    ensures
        r is None <==> forall|i: int| 0 <= i < interfaces@.len() ==> !names_site(#[trigger] interfaces@[i]),
        r matches Some(s) ==> exists|i: int|
            0 <= i < interfaces@.len() && names_site(#[trigger] interfaces@[i]) && (forall|j: int|
                0 <= j < i ==> !names_site(#[trigger] interfaces@[j])) && s@ == drop_colons(
                mac_text(interfaces@[i].mac->0@),
            ),
{
    let mut k: usize = 0;
    while k < interfaces.len()
        invariant
            k <= interfaces.len(),
            forall|j: int| 0 <= j < k ==> !names_site(#[trigger] interfaces@[j]),
        decreases interfaces.len() - k,
    {
        let iface = interfaces[k];
        if iface.is_up && !iface.is_loopback {
            if let Some(mac) = iface.mac {
                let zero = mac[0] == 0 && mac[1] == 0 && mac[2] == 0 && mac[3] == 0 && mac[4] == 0
                    && mac[5] == 0;
                assert(zero == (mac@ =~= seq![0u8, 0, 0, 0, 0, 0]));
                if !zero {
                    let text = mac_to_string(mac);
                    let s = remove_colons(text.as_str());
                    assert(names_site(interfaces@[k as int]));
                    return Some(s);
                }
            }
        }
        k += 1;
    }
    None
}

/// The name of the file a global snapshot is saved to: `snapshot_`, the site
/// identifier, `_`, the time stamp and `.json`.
pub fn snapshot_file_name(site_id: &str, timestamp: &str) -> (name: String)
    ensures
        name@ == "snapshot_"@ + site_id@ + "_"@ + timestamp@ + ".json"@,
{
    let mut name = String::from_str("snapshot_");
    name.append(site_id);
    name.append("_");
    name.append(timestamp);
    name.append(".json");
    name
}

/// One step of the linear congruential generator that picks the greeting of the web
/// page: `seed * 6364136223846793005 + 1`, wrapping around at 2^64.
pub fn lcg(seed: u64) -> (r: u64)
    ensures
        r == vstd::wrapping::u64_specs::wrapping_add(
            vstd::wrapping::u64_specs::wrapping_mul(seed, 6364136223846793005u64),
            1u64,
        ),
{
    seed.wrapping_mul(6364136223846793005u64).wrapping_add(1u64)
}

} // verus!

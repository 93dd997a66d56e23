//! Seed peers: parsing inline seed strings and folding in DNS seed results.
//!
//! An inline seed string is `<public key hex>@<address>`: a non-empty,
//! even-length run of hex digits, one `@`, and a non-empty address. A
//! malformed entry is skipped — it never fails the whole batch; the caller
//! learns how many entries were skipped and decides its own policy.

use vstd::prelude::*;
use vstd::string::StrSliceExecFns;
use crate::peer::{Peer, PeerFeatures};
use crate::text::{char_index, lemma_char_index};

verus! {

/// The value of a hex digit, or `-1` when the character is none.
pub open spec fn hex_val(c: char) -> int {
    if '0' <= c <= '9' {
        c as int - '0' as int
    } else if 'a' <= c <= 'f' {
        c as int - 'a' as int + 10
    } else if 'A' <= c <= 'F' {
        c as int - 'A' as int + 10
    } else {
        -1
    }
}

/// Every character is a hex digit.
pub open spec fn is_hex_seq(s: Seq<char>) -> bool {
    forall|i: int| 0 <= i < s.len() ==> hex_val(#[trigger] s[i]) >= 0
}

/// The bytes an even-length run of hex digits decodes to, two digits a byte.
pub open spec fn hex_decode(s: Seq<char>) -> Seq<u8> {
    Seq::new((s.len() / 2) as nat, |i: int| (hex_val(s[2 * i]) * 16 + hex_val(s[2 * i + 1])) as u8)
}

/// A well-formed seed string: a non-empty even-length hex key, `@`, and a
/// non-empty address.
pub open spec fn valid_seed(s: Seq<char>) -> bool {
    let a = char_index(s, '@');
    &&& a >= 2
    &&& a % 2 == 0
    &&& is_hex_seq(s.take(a))
    &&& a + 1 < s.len()
}

/// The public key a seed string carries.
pub open spec fn seed_key(s: Seq<char>) -> Seq<u8> {
    hex_decode(s.take(char_index(s, '@')))
}

/// The address a seed string carries.
pub open spec fn seed_addr(s: Seq<char>) -> Seq<char> {
    s.skip(char_index(s, '@') + 1)
}

/// A parsed seed entry: the decoded public key and one address.
#[derive(Debug)]
pub struct SeedPeer {
    pub public_key: Vec<u8>,
    pub address: String,
}

impl SeedPeer {
    /// Turns a seed entry into a directory peer; a seed is a full
    /// communication node.
    pub fn into_peer(self) -> (r: Peer)
        requires
            self.public_key@.len() >= 1,
        ensures
            r.wf(),
            r.public_key == self.public_key,
            r.addresses@.len() == 1,
            r.addresses@[0] == self.address,
            r.features is CommunicationNode,
    {
        let mut addresses: Vec<String> = Vec::new();
        addresses.push(self.address);
        Peer::new(self.public_key, addresses, PeerFeatures::CommunicationNode)
    }
}

/// The value of one hex digit character, or `255` when it is none.
fn hex_digit_value(c: char) -> (v: u8)
    ensures
        hex_val(c) >= 0 ==> v == hex_val(c),
        hex_val(c) < 0 ==> v == 255,
{
    let u = c as u32;
    if 48 <= u && u <= 57 {
        (u - 48) as u8
    } else if 97 <= u && u <= 102 {
        (u - 97 + 10) as u8
    } else if 65 <= u && u <= 70 {
        (u - 65 + 10) as u8
    } else {
        255
    }
}

/// Parses one inline seed string. Returns the decoded key and address when
/// the string is well formed, and `None` — never a panic — otherwise.
pub fn parse_seed(s: &str) -> (r: Option<SeedPeer>)
    ensures
        r is Some <==> valid_seed(s@),
        r matches Some(sp) ==> {
            &&& sp.public_key@ == seed_key(s@)
            &&& sp.public_key@.len() >= 1
            &&& sp.address@ == seed_addr(s@)
        },
{
    proof {
        lemma_char_index(s@, '@');
    }
    let n = s.unicode_len();
    let mut at: usize = 0;
    while at < n && s.get_char(at) != '@'
        invariant
            at <= n,
            n == s@.len(),
            forall|j: int| 0 <= j < at ==> s@[j] != '@',
            char_index(s@, '@') >= 0 ==> char_index(s@, '@') < s@.len() && s@[char_index(s@, '@')] == '@',
            forall|j: int| 0 <= j < char_index(s@, '@') ==> s@[j] != '@',
            char_index(s@, '@') < 0 ==> forall|j: int| 0 <= j < s@.len() ==> s@[j] != '@',
        decreases n - at,
    {
        at = at + 1;
    }
    if at == n {
        assert(char_index(s@, '@') < 0);
        return None;
    }
    assert(s@[at as int] == '@');
    assert(at == char_index(s@, '@'));
    if at < 2 || at % 2 != 0 {
        return None;
    }
    if at + 1 >= n {
        return None;
    }
    // Decode the key digits, two to a byte.
    let mut key: Vec<u8> = Vec::new();
    let mut i: usize = 0;
    while i < at
        invariant
            i <= at,
            i % 2 == 0,
            at % 2 == 0,
            at == char_index(s@, '@'),
            0 <= at < n,
            n == s@.len(),
            forall|j: int| 0 <= j < i ==> hex_val(#[trigger] s@[j]) >= 0,
            key@.len() == i / 2,
            forall|k: int|
                0 <= k < key@.len() ==> key@[k] == (hex_val(s@[2 * k]) * 16 + hex_val(
                    s@[2 * k + 1],
                )) as u8,
        decreases at - i,
    {
        let hi = hex_digit_value(s.get_char(i));
        let lo = hex_digit_value(s.get_char(i + 1));
        if hi == 255 || lo == 255 {
            assert(hex_val(s@[i as int]) < 0 || hex_val(s@[i as int + 1]) < 0);
            assert(i + 1 < at);
            assert(s@.take(at as int)[i as int] == s@[i as int]);
            assert(s@.take(at as int)[i as int + 1] == s@[i as int + 1]);
            assert(!is_hex_seq(s@.take(at as int)));
            return None;
        }
        key.push(hi * 16 + lo);
        i = i + 2;
    }
    assert(is_hex_seq(s@.take(at as int))) by {
        assert(forall|j: int| 0 <= j < at ==> s@.take(at as int)[j] == s@[j]);
    }
    assert(valid_seed(s@));
    let address_str = s.substring_char(at + 1, n);
    let address = address_str.to_owned();
    proof {
        assert forall|k: int| 0 <= k < key@.len() implies key@[k] == seed_key(s@)[k] by {
            assert(s@.take(at as int)[2 * k] == s@[2 * k]);
            assert(s@.take(at as int)[2 * k + 1] == s@[2 * k + 1]);
        }
        assert(key@.len() == seed_key(s@).len());
        assert(key@ =~= seed_key(s@));
        assert(address@ =~= seed_addr(s@));
    }
    Some(SeedPeer { public_key: key, address })
}

/// The parsed form of every well-formed entry of a batch, in order: the
/// decoded key and the address characters.
pub open spec fn valid_seed_descrs(ss: Seq<Seq<char>>) -> Seq<(Seq<u8>, Seq<char>)>
    decreases ss.len(),
{
    if ss.len() == 0 {
        Seq::empty()
    } else {
        let rest = valid_seed_descrs(ss.drop_first());
        if valid_seed(ss[0]) {
            seq![(seed_key(ss[0]), seed_addr(ss[0]))] + rest
        } else {
            rest
        }
    }
}

/// Parses a batch of inline seed strings into peers. A malformed entry is
/// skipped, never fatal to the batch: the well-formed entries come back as
/// peers in order, with the count of skipped entries.
pub fn try_parse_seed_peers(seeds: &Vec<String>) -> (r: (Vec<Peer>, usize))
    ensures
        ({
            let descrs = valid_seed_descrs(seeds.deep_view());
            &&& r.0@.len() == descrs.len()
            &&& r.1 == seeds@.len() - descrs.len()
            &&& forall|k: int|
                0 <= k < descrs.len() ==> {
                    &&& (#[trigger] r.0@[k]).wf()
                    &&& r.0@[k].public_key@ == descrs[k].0
                    &&& r.0@[k].addresses@.len() == 1
                    &&& r.0@[k].addresses@[0]@ == descrs[k].1
                    &&& r.0@[k].features is CommunicationNode
                }
        }),
{
    let ghost all = seeds.deep_view();
    let mut out: Vec<Peer> = Vec::new();
    let mut skipped: usize = 0;
    let ghost mut done: Seq<(Seq<u8>, Seq<char>)> = Seq::empty();
    proof {
        assert(all.skip(0) =~= all);
        assert(done + valid_seed_descrs(all) =~= valid_seed_descrs(all));
    }
    let mut i: usize = 0;
    while i < seeds.len()
        invariant
            i <= seeds@.len(),
            all == seeds.deep_view(),
            all.len() == seeds@.len(),
            forall|j: int| 0 <= j < all.len() ==> all[j] == seeds@[j]@,
            out@.len() == done.len(),
            skipped == i - done.len(),
            done + valid_seed_descrs(all.skip(i as int)) == valid_seed_descrs(all),
            forall|k: int|
                0 <= k < done.len() ==> {
                    &&& (#[trigger] out@[k]).wf()
                    &&& out@[k].public_key@ == done[k].0
                    &&& out@[k].addresses@.len() == 1
                    &&& out@[k].addresses@[0]@ == done[k].1
                    &&& out@[k].features is CommunicationNode
                },
        decreases seeds@.len() - i,
    {
        proof {
            assert(all.skip(i as int)[0] == all[i as int]);
            assert(all.skip(i as int).drop_first() =~= all.skip(i as int + 1));
        }
        match parse_seed(seeds[i].as_str()) {
            Some(sp) => {
                let p = sp.into_peer();
                out.push(p);
                proof {
                    done = done + seq![(seed_key(all[i as int]), seed_addr(all[i as int]))];
                    assert(done + valid_seed_descrs(all.skip(i as int + 1)) =~= valid_seed_descrs(
                        all,
                    ));
                }
            },
            None => {
                skipped = skipped + 1;
            },
        }
        i = i + 1;
    }
    proof {
        assert(all.skip(all.len() as int) =~= Seq::<Seq<char>>::empty());
        assert(done + valid_seed_descrs(all.skip(all.len() as int)) =~= done);
    }
    (out, skipped)
}

/// Folds the per-host results of DNS seed resolution into one peer list.
/// A host that failed contributes nothing — a resolution failure is never
/// fatal to startup; the successful hosts' peers keep their order.
pub open spec fn flatten_present(rs: Seq<Option<Vec<Peer>>>) -> Seq<Peer>
    decreases rs.len(),
{
    if rs.len() == 0 {
        Seq::empty()
    } else {
        let rest = flatten_present(rs.drop_first());
        match rs[0] {
            Some(v) => v@ + rest,
            None => rest,
        }
    }
}

/// Collects what the DNS seed hosts resolved to: failed hosts are skipped,
/// the rest contribute their peers in order.
pub fn collect_dns_seed_results(results: Vec<Option<Vec<Peer>>>) -> (r: Vec<Peer>)
    ensures
        r@ == flatten_present(results@),
{
    let ghost all = results@;
    let mut rest = results;
    let mut out: Vec<Peer> = Vec::new();
    proof {
        assert(out@ + flatten_present(all) =~= flatten_present(all));
    }
    while rest.len() > 0
        invariant
            out@ + flatten_present(rest@) == flatten_present(all),
        decreases rest@.len(),
    {
        let ghost before = rest@;
        let entry = rest.remove(0);
        proof {
            assert(rest@ =~= before.drop_first());
        }
        match entry {
            Some(mut v) => {
                let ghost vv = v@;
                out.append(&mut v);
                proof {
                    assert(out@ + flatten_present(rest@) =~= flatten_present(all));
                }
            },
            None => {
                proof {
                    assert(out@ + flatten_present(rest@) =~= flatten_present(all));
                }
            },
        }
    }
    proof {
        assert(flatten_present(rest@) =~= Seq::<Peer>::empty());
        assert(out@ =~= out@ + flatten_present(rest@));
    }
    out
}

} // verus!

//! The node's choices that do not depend on the node's services: which chain
//! specification an identifier names, whether the node runs as a parachain,
//! the parachain identifier and its account on the relay chain, what the
//! genesis exports write, the relay chain's identifier and base path, and the
//! default ports.
use vstd::prelude::*;
use vstd::string::StringSliceAdditionalSpecFns;

verus! {

/// Where a chain specification comes from.
#[derive(Debug, PartialEq, Eq)]
pub enum ChainSpecSource {
    /// The development chain.
    Development,
    /// The local test network.
    LocalTestnet,
    /// The metaverse test network.
    MetaverseTestnet,
    /// The tewai test network.
    TewaiTestnet,
    /// The pioneer local test network, as the parachain with this identifier.
    PioneerLocalTestnet(u32),
    /// A JSON file at this path.
    JsonFile(String),
}

/// The runtimes the node was built with.
#[derive(Clone, Copy, Debug, PartialEq, Eq)]
pub struct RuntimeFeatures {
    pub metaverse: bool,
    pub tewai: bool,
    pub pioneer: bool,
}

/// The bytes of `dev`.
pub open spec fn dev_bytes() -> Seq<u8> {
    seq![100u8, 101, 118]
}

/// The bytes of `local`.
pub open spec fn local_bytes() -> Seq<u8> {
    seq![108u8, 111, 99, 97, 108]
}

/// The bytes of `metaverse`.
pub open spec fn metaverse_bytes() -> Seq<u8> {
    seq![109u8, 101, 116, 97, 118, 101, 114, 115, 101]
}

/// The bytes of `tewai`.
pub open spec fn tewai_bytes() -> Seq<u8> {
    seq![116u8, 101, 119, 97, 105]
}

/// The bytes of `pioneer`.
pub open spec fn pioneer_bytes() -> Seq<u8> {
    seq![112u8, 105, 111, 110, 101, 101, 114]
}

/// The chain specification that `id` names: `dev`; `local` or nothing; the
/// names of the runtimes the node was built with; anything else is a path.
pub open spec fn spec_source(id: Seq<u8>, para_id: u32, features: RuntimeFeatures) -> Option<
    ChainSpecSource,
> {
    if id == dev_bytes() {
        Some(ChainSpecSource::Development)
    } else if id.len() == 0 || id == local_bytes() {
        Some(ChainSpecSource::LocalTestnet)
    } else if features.metaverse && id == metaverse_bytes() {
        Some(ChainSpecSource::MetaverseTestnet)
    } else if features.tewai && id == tewai_bytes() {
        Some(ChainSpecSource::TewaiTestnet)
    } else if features.pioneer && id == pioneer_bytes() {
        Some(ChainSpecSource::PioneerLocalTestnet(para_id))
    } else {
        None
    }
}

/// Each runtime's name names that runtime's test network exactly when the
/// node was built with that runtime, whatever other runtimes it has;
/// otherwise the name is taken as a path.
pub proof fn law_runtime_names(para_id: u32, features: RuntimeFeatures)
    ensures
        spec_source(seq![109u8, 101, 116, 97, 118, 101, 114, 115, 101], para_id, features) == if features.metaverse {
            Some(ChainSpecSource::MetaverseTestnet)
        } else {
            None
        },
        spec_source(seq![116u8, 101, 119, 97, 105], para_id, features) == if features.tewai {
            Some(ChainSpecSource::TewaiTestnet)
        } else {
            None
        },
        spec_source(seq![112u8, 105, 111, 110, 101, 101, 114], para_id, features) == if features.pioneer {
            Some(ChainSpecSource::PioneerLocalTestnet(para_id))
        } else {
            None
        },
{
    let m = seq![109u8, 101, 116, 97, 118, 101, 114, 115, 101];
    let t = seq![116u8, 101, 119, 97, 105];
    let p = seq![112u8, 105, 111, 110, 101, 101, 114];
    assert(m != dev_bytes() && m != local_bytes() && m != tewai_bytes() && m != pioneer_bytes()) by {
        assert(m.len() != dev_bytes().len() && m.len() != local_bytes().len());
        assert(m.len() != tewai_bytes().len() && m.len() != pioneer_bytes().len());
    }
    assert(m =~= metaverse_bytes());
    assert(t != dev_bytes() && t != local_bytes() && t != metaverse_bytes() && t != pioneer_bytes()) by {
        assert(t.len() != dev_bytes().len() && t.len() != metaverse_bytes().len());
        assert(t.len() != pioneer_bytes().len());
        assert(t[0] != local_bytes()[0]);
    }
    assert(t =~= tewai_bytes());
    assert(p != dev_bytes() && p != local_bytes() && p != metaverse_bytes() && p != tewai_bytes()) by {
        assert(p.len() != dev_bytes().len() && p.len() != metaverse_bytes().len());
        assert(p.len() != tewai_bytes().len() && p.len() != local_bytes().len());
    }
    assert(p =~= pioneer_bytes());
}

/// Whether two byte strings are equal.
fn bytes_equal(a: &[u8], b: &[u8]) -> (r: bool)
    ensures
        r == (a@ == b@),
{
    if a.len() != b.len() {
        return false;
    }
    let mut i: usize = 0;
    while i < a.len()
        invariant
            i <= a@.len(),
            a@.len() == b@.len(),
            forall|j: int| 0 <= j < i ==> a@[j] == b@[j],
        decreases a@.len() - i,
    {
        if a[i] != b[i] {
            return false;
        }
        i = i + 1;
    }
    assert(a@ =~= b@);
    true
}

/// The chain specification that `id` names (see [`spec_source`]); an
/// identifier that names none is the path of a JSON file.
pub fn load_spec(id: &str, para_id: u32, features: RuntimeFeatures) -> (r: ChainSpecSource)
    ensures
        match spec_source(id.spec_bytes(), para_id, features) {
            Some(s) => r == s,
            None => r matches ChainSpecSource::JsonFile(path) && path@ == id@,
        },
        id.spec_bytes() == seq![109u8, 101, 116, 97, 118, 101, 114, 115, 101] ==> if features.metaverse {
            r == ChainSpecSource::MetaverseTestnet
        } else {
            r matches ChainSpecSource::JsonFile(path) && path@ == id@
        },
        id.spec_bytes() == seq![116u8, 101, 119, 97, 105] ==> if features.tewai {
            r == ChainSpecSource::TewaiTestnet
        } else {
            r matches ChainSpecSource::JsonFile(path) && path@ == id@
        },
        id.spec_bytes() == seq![112u8, 105, 111, 110, 101, 101, 114] ==> if features.pioneer {
            r == ChainSpecSource::PioneerLocalTestnet(para_id)
        } else {
            r matches ChainSpecSource::JsonFile(path) && path@ == id@
        },
{
    proof {
        law_runtime_names(para_id, features);
    }
    let b = id.as_bytes();
    let dev: [u8; 3] = [100u8, 101, 118];
    let local: [u8; 5] = [108u8, 111, 99, 97, 108];
    let metaverse: [u8; 9] = [109u8, 101, 116, 97, 118, 101, 114, 115, 101];
    let tewai: [u8; 5] = [116u8, 101, 119, 97, 105];
    let pioneer: [u8; 7] = [112u8, 105, 111, 110, 101, 101, 114];
    proof {
        assert(dev@ =~= dev_bytes());
        assert(local@ =~= local_bytes());
        assert(metaverse@ =~= metaverse_bytes());
        assert(tewai@ =~= tewai_bytes());
        assert(pioneer@ =~= pioneer_bytes());
    }
    if bytes_equal(b, dev.as_slice()) {
        ChainSpecSource::Development
    } else if b.len() == 0 || bytes_equal(b, local.as_slice()) {
        ChainSpecSource::LocalTestnet
    } else if features.metaverse && bytes_equal(b, metaverse.as_slice()) {
        ChainSpecSource::MetaverseTestnet
    } else if features.tewai && bytes_equal(b, tewai.as_slice()) {
        ChainSpecSource::TewaiTestnet
    } else if features.pioneer && bytes_equal(b, pioneer.as_slice()) {
        ChainSpecSource::PioneerLocalTestnet(para_id)
    } else {
        let path = id.to_string();
        ChainSpecSource::JsonFile(path)
    }
}

/// The parachain identifier: the one given, or 2000.
pub fn parachain_id(given: Option<u32>) -> (r: u32)
    ensures
        r == match given {
            Some(id) => id,
            None => 2000,
        },
{
    match given {
        Some(id) => id,
        None => 2000,
    }
}

/// The parachain identifier a collator runs as: the one given on its command
/// line, else the one its chain specification carries, else 2000.
pub fn collator_parachain_id(given: Option<u32>, from_chain_spec: Option<u32>) -> (r: u32)
    ensures
        r == match given {
            Some(id) => id,
            None => match from_chain_spec {
                Some(id) => id,
                None => 2000,
            },
        },
{
    match given {
        Some(id) => id,
        None => parachain_id(from_chain_spec),
    }
}

/// The bytes of parachain `id`'s account on the relay chain: `para`, the four
/// little-endian bytes of `id`, then zeros up to thirty-two bytes.
pub open spec fn para_account_bytes(id: u32) -> Seq<u8> {
    seq![112u8, 97, 114, 97, (id & 0xff) as u8, ((id >> 8) & 0xff) as u8, ((id >> 16) & 0xff) as u8, (id >> 24) as u8]
        + Seq::new(24, |i: int| 0u8)
}

/// Parachain `id`'s account on the relay chain.
pub fn parachain_account(id: u32) -> (r: [u8; 32])
    ensures
        r@ == para_account_bytes(id),
{
    let mut r: [u8; 32] = [0u8; 32];
    r[0] = 112;
    r[1] = 97;
    r[2] = 114;
    r[3] = 97;
    r[4] = (id & 0xff) as u8;
    r[5] = ((id >> 8) & 0xff) as u8;
    r[6] = ((id >> 16) & 0xff) as u8;
    r[7] = (id >> 24) as u8;
    assert(r@ =~= para_account_bytes(id));
    r
}

/// The relay chain's identifier: the one its own configuration gives, or,
/// where that is empty, the one given to the collator (empty if none).
pub fn relay_chain_id(base_chain_id: String, chain_id: Option<String>) -> (r: String)
    ensures
        base_chain_id@.len() != 0 ==> r@ == base_chain_id@,
        base_chain_id@.len() == 0 ==> r@ == match chain_id {
            Some(c) => c@,
            None => Seq::<char>::empty(),
        },
{
    if base_chain_id.as_str().is_empty() {
        match chain_id {
            Some(c) => c,
            None => String::new(),
        }
    } else {
        base_chain_id
    }
}

/// The chain that the genesis exports read: the one given, or `pioneer`.
pub fn genesis_chain(chain: Option<String>) -> (r: String)
    ensures
        r@ == match chain {
            Some(c) => c@,
            None => "pioneer"@,
        },
{
    match chain {
        Some(c) => c,
        None => "pioneer".to_string(),
    }
}

/// The lowercase hexadecimal digit for `n`, which is below 16.
pub open spec fn hex_digit(n: int) -> u8 {
    if n < 10 {
        (48 + n) as u8
    } else {
        (87 + n) as u8
    }
}

/// The bytes of `data` written as lowercase hexadecimal, two digits a byte.
pub open spec fn hex_bytes(data: Seq<u8>) -> Seq<u8> {
    Seq::new(
        2 * data.len(),
        |i: int|
            if i % 2 == 0 {
                hex_digit(data[i / 2] as int / 16)
            } else {
                hex_digit(data[i / 2] as int % 16)
            },
    )
}

/// The digit for `n`, which is below 16.
fn hex_digit_of(n: u8) -> (r: u8)
    requires
        n < 16,
    ensures
        r == hex_digit(n as int),
{
    if n < 10 {
        48 + n
    } else {
        87 + n
    }
}

/// What a genesis export writes: the bytes themselves when `raw`, else `0x`
/// and the bytes in lowercase hexadecimal.
pub fn genesis_output(data: Vec<u8>, raw: bool) -> (r: Vec<u8>)
    requires
        2 * data@.len() + 2 <= usize::MAX,
    ensures
        r@ == (if raw {
            data@
        } else {
            seq![48u8, 120u8] + hex_bytes(data@)
        }),
{
    if raw {
        return data;
    }
    let mut out: Vec<u8> = vec![48u8, 120u8];
    let mut i: usize = 0;
    while i < data.len()
        invariant
            i <= data@.len(),
            out@ == seq![48u8, 120u8] + hex_bytes(data@.take(i as int)),
        decreases data@.len() - i,
    {
        let b = data[i];
        let ghost before = out@;
        out.push(hex_digit_of(b / 16));
        out.push(hex_digit_of(b % 16));
        proof {
            let t = data@.take(i as int);
            let t2 = data@.take(i + 1);
            assert(t2[i as int] == b);
            assert forall|j: int| 0 <= j < 2 * t.len() implies hex_bytes(t2)[j] == hex_bytes(t)[j] by {
                assert(t2[j / 2] == t[j / 2]);
            }
            assert(hex_bytes(t2)[2 * i] == hex_digit(b as int / 16));
            assert(hex_bytes(t2)[2 * i + 1] == hex_digit(b as int % 16));
            assert(out@ =~= seq![48u8, 120u8] + hex_bytes(t2));
        }
        i = i + 1;
    }
    assert(data@.take(data@.len() as int) =~= data@);
    out
}

/// Whether the node runs as a parachain: it was built with the pioneer
/// runtime and the chain specification's identifier starts with `pioneer`.
pub fn runs_as_parachain(chain_spec_id: &str, features: RuntimeFeatures) -> (r: bool)
    ensures
        r == (features.pioneer && pioneer_bytes().is_prefix_of(chain_spec_id.spec_bytes())),
{
    if !features.pioneer {
        return false;
    }
    let b = chain_spec_id.as_bytes();
    let pioneer: [u8; 7] = [112u8, 105, 111, 110, 101, 101, 114];
    proof {
        assert(pioneer@ =~= pioneer_bytes());
    }
    if b.len() < 7 {
        return false;
    }
    let mut i: usize = 0;
    while i < 7
        invariant
            i <= 7,
            b@.len() >= 7,
            b@ == chain_spec_id.spec_bytes(),
            features.pioneer,
            pioneer@ == pioneer_bytes(),
            forall|j: int| 0 <= j < i ==> b@[j] == pioneer@[j],
        decreases 7 - i,
    {
        if b[i] != pioneer[i] {
            return false;
        }
        i = i + 1;
    }
    true
}

/// The relay chain's base path: the one its shared parameters give, else the
/// one given to the collator for it, if any.
pub fn relay_chain_base_path(shared: Option<String>, own: Option<String>) -> (r: Option<String>)
    ensures
        r == match shared {
            Some(p) => Some(p),
            None => own,
        },
{
    match shared {
        Some(p) => Some(p),
        None => own,
    }
}

/// The relay chain's default peer-to-peer port.
pub fn p2p_listen_port() -> (r: u16)
    ensures
        r == 30334,
{
    30334
}

/// The relay chain's default WebSocket RPC port.
pub fn rpc_ws_listen_port() -> (r: u16)
    ensures
        r == 9945,
{
    9945
}

/// The relay chain's default HTTP RPC port.
pub fn rpc_http_listen_port() -> (r: u16)
    ensures
        r == 9934,
{
    9934
}

/// The relay chain's default Prometheus port.
pub fn prometheus_listen_port() -> (r: u16)
    ensures
        r == 9616,
{
    9616
}

/// The first year of the node's copyright.
pub fn copyright_start_year() -> (r: i32)
    ensures
        r == 2017,
{
    2017
}

} // verus!

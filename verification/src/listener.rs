//! The miner-facing side of a listener: which entry points it opens, which
//! identity its TLS entry point presents, and the obfuscation of the third
//! entry point.

use crate::util::config::Settings;
use vstd::prelude::*;

verus! {

/// How miners reach an entry point.
#[derive(Debug, Clone, Copy, PartialEq, Eq, Structural)]
pub enum Transport {
    /// Plain TCP.
    Tcp,
    /// TLS.
    Tls,
    /// TCP with every byte XORed against a key.
    Encrypted,
}

/// One entry point of a listener.
#[derive(Debug, Clone, Copy, PartialEq, Eq, Structural)]
pub struct EntryPoint {
    pub transport: Transport,
    pub port: u32,
}

/// The entry points that the three ports open, in the order plain, TLS,
/// encrypted. A port of 0 opens none.
pub open spec fn entry_points_of(tcp: u32, ssl: u32, encrypt: u32) -> Seq<EntryPoint> {
    let a = if tcp != 0 {
        seq![EntryPoint { transport: Transport::Tcp, port: tcp }]
    } else {
        Seq::empty()
    };
    let b = if ssl != 0 {
        seq![EntryPoint { transport: Transport::Tls, port: ssl }]
    } else {
        Seq::empty()
    };
    let c = if encrypt != 0 {
        seq![EntryPoint { transport: Transport::Encrypted, port: encrypt }]
    } else {
        Seq::empty()
    };
    a + b + c
}

/// The entry points a listener opens.
pub fn entry_points(settings: &Settings) -> (points: Vec<EntryPoint>)
    ensures
        points@ == entry_points_of(settings.tcp_port, settings.ssl_port, settings.encrypt_port),
{
    let mut points: Vec<EntryPoint> = Vec::new();
    if settings.tcp_port != 0 {
        points.push(EntryPoint { transport: Transport::Tcp, port: settings.tcp_port });
    }
    if settings.ssl_port != 0 {
        points.push(EntryPoint { transport: Transport::Tls, port: settings.ssl_port });
    }
    if settings.encrypt_port != 0 {
        points.push(EntryPoint { transport: Transport::Encrypted, port: settings.encrypt_port });
    }
    proof {
        assert(points@ =~= entry_points_of(
            settings.tcp_port,
            settings.ssl_port,
            settings.encrypt_port,
        ));
    }
    points
}

/// The identity a TLS entry point presents.
#[derive(Debug, Clone, PartialEq)]
pub enum Identity {
    /// The identity found at the configured path, with its password.
    Configured { password: String },
    /// The identity that ships with the proxy, with its fixed password. Its
    /// use is worth a warning: the key is known to everybody.
    Bundled { password: String },
}

/// The password of the bundled identity.
pub open spec fn bundled_password() -> Seq<char> {
    "mypass"@
}

/// Chooses the identity of the TLS entry point: the configured one where
/// its file was found, the bundled one otherwise.
pub fn choose_identity(settings: &Settings, found: bool) -> (identity: Identity)
    ensures
        match identity {
            Identity::Configured { password } => found && password@ == settings.p12_pass@,
            Identity::Bundled { password } => !found && password@ == bundled_password(),
        },
{
    if found {
        Identity::Configured { password: settings.p12_pass.clone() }
    } else {
        Identity::Bundled { password: String::from_str("mypass") }
    }
}

/// `data` with each byte XORed against the key byte that falls to it, the
/// first against the one at `position`.
pub open spec fn xored(key: Seq<u8>, position: int, data: Seq<u8>) -> Seq<u8> {
    Seq::new(data.len(), |i: int| data[i] ^ key[(position + i) % (key.len() as int)])
}

/// XORing twice with the same key from the same position gives the data
/// back: the same stream decodes what it encoded.
pub proof fn lemma_xor_involution(key: Seq<u8>, position: int, data: Seq<u8>)
    requires
        key.len() > 0,
        0 <= position,
    ensures
        xored(key, position, xored(key, position, data)) == data,
{
    let once = xored(key, position, data);
    let twice = xored(key, position, once);
    assert forall|i: int| 0 <= i < data.len() implies twice[i] == data[i] by {
        let k = key[(position + i) % (key.len() as int)];
        let d = data[i];
        assert((d ^ k) ^ k == d) by (bit_vector);
    }
    assert(twice =~= data);
}

/// One direction of an obfuscated connection: a key and the place in it
/// that the next byte falls to.
#[derive(Debug, Clone)]
pub struct XorStream {
    key: Vec<u8>,
    position: usize,
}

impl XorStream {
    /// The key.
    pub closed spec fn key(&self) -> Seq<u8> {
        self.key@
    }

    /// The place in the key that the next byte falls to.
    pub closed spec fn position(&self) -> int {
        self.position as int
    }

    /// The key is not empty and the position is within it.
    pub closed spec fn wf(&self) -> bool {
        self.position < self.key@.len()
    }

    /// A stream at the start of `key`; `None` for an empty key.
    pub fn new(key: Vec<u8>) -> (r: Option<XorStream>)
        ensures
            match r {
                Some(s) => key@.len() > 0 && s.wf() && s.key() == key@ && s.position() == 0,
                None => key@.len() == 0,
            },
    {
        if key.len() == 0 {
            None
        } else {
            Some(XorStream { key, position: 0 })
        }
    }

    /// Encodes or decodes the next bytes of the stream in place.
    pub fn apply(&mut self, data: &mut Vec<u8>)
        requires
            old(self).wf(),
        ensures
            final(self).wf(),
            final(self).key() == old(self).key(),
            final(data)@ == xored(old(self).key(), old(self).position(), old(data)@),
            final(self).position() == (old(self).position() + old(data)@.len()) % (old(self).key().len() as int),
    {
        let n = data.len();
        let m = self.key.len();
        let ghost start = self.position as int;
        let ghost given = data@;
        let mut i: usize = 0;
        proof {
            vstd::arithmetic::div_mod::lemma_small_mod(start as nat, m as nat);
        }
        while i < n
            invariant
                i <= n,
                n == given.len(),
                data@.len() == n,
                m == self.key@.len(),
                self.key@ == old(self).key@,
                0 <= start < m,
                self.position < m,
                self.position as int == (start + i) % (m as int),
                forall|k: int|
                    0 <= k < i ==> data@[k] == given[k] ^ self.key@[(start + k) % (m as int)],
                forall|k: int| i <= k < n ==> data@[k] == given[k],
            decreases n - i,
        {
            let b = data[i] ^ self.key[self.position];
            data[i] = b;
            let next = if self.position + 1 == m {
                0
            } else {
                self.position + 1
            };
            proof {
                let p = self.position as int;
                let x = start + i;
                let d = m as int;
                let q = x / d;
                vstd::arithmetic::div_mod::lemma_fundamental_div_mod(x, d);
                assert(d * q == q * d) by (nonlinear_arith);
                if p + 1 == m {
                    assert((q + 1) * d == q * d + d) by (nonlinear_arith);
                    vstd::arithmetic::div_mod::lemma_fundamental_div_mod_converse(x + 1, d, q + 1, 0);
                } else {
                    vstd::arithmetic::div_mod::lemma_fundamental_div_mod_converse(x + 1, d, q, p + 1);
                }
            }
            self.position = next;
            i = i + 1;
        }
        proof {
            assert(data@ =~= xored(old(self).key(), old(self).position(), given));
        }
    }
}

} // verus!

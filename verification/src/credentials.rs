//! Which credentials a release offers to its remote, in which order, and how
//! often it lets the remote turn them down.
//!
//! Nothing here fetches a credential. The negotiation says which source to
//! try next; whoever talks to the remote tries it and comes back if the
//! source had nothing or the remote was not satisfied.

use vstd::prelude::*;

verus! {

/// How often a remote may ask for credentials during one operation.
pub const MAX_ATTEMPTS: u32 = 5;

/// A private key file in the `.ssh` directory of the user's home.
#[derive(Debug, Copy, Clone, PartialEq, Eq, Structural)]
pub enum KeyFile {
    Ed25519,
    Rsa,
    Ecdsa,
}

/// Where a credential may come from.
#[derive(Debug, Copy, Clone, PartialEq, Eq, Structural)]
pub enum CredentialSource {
    /// An identity that the SSH agent holds.
    SshAgent,
    /// A private key file in a conventional place.
    Key(KeyFile),
    /// The credential helper that git is configured with.
    Helper,
    /// The default credential of the platform.
    Default,
}

/// The kinds of credential that the remote accepts.
#[derive(Debug, Copy, Clone, PartialEq, Eq, Structural)]
pub struct AllowedTypes {
    pub ssh_key: bool,
    pub user_pass_plaintext: bool,
    pub default: bool,
}

/// What to do with the certificate that a remote presents.
#[derive(Debug, Copy, Clone, PartialEq, Eq, Structural)]
pub enum CertificateDecision {
    /// Accept it unseen.
    Accept,
    /// Let the transport validate it as it always does.
    Validate,
}

/// The remote asked for credentials more often than [`MAX_ATTEMPTS`] times.
#[derive(Debug, Copy, Clone, PartialEq, Eq, Structural)]
pub struct AuthenticationExhausted {
    /// How many attempts were made.
    pub attempts: u32,
}

/// The number of sources.
pub open spec fn source_count() -> int {
    6
}

/// The sources in the order in which they are tried: the SSH agent, the key
/// files `id_ed25519`, `id_rsa` and `id_ecdsa`, the credential helper, the
/// default credential.
pub open spec fn source_at(rank: int) -> CredentialSource {
    if rank <= 0 {
        CredentialSource::SshAgent
    } else if rank == 1 {
        CredentialSource::Key(KeyFile::Ed25519)
    } else if rank == 2 {
        CredentialSource::Key(KeyFile::Rsa)
    } else if rank == 3 {
        CredentialSource::Key(KeyFile::Ecdsa)
    } else if rank == 4 {
        CredentialSource::Helper
    } else {
        CredentialSource::Default
    }
}

/// The place of a source in the order of [`source_at`].
pub open spec fn rank_of(source: CredentialSource) -> int {
    match source {
        CredentialSource::SshAgent => 0,
        CredentialSource::Key(KeyFile::Ed25519) => 1,
        CredentialSource::Key(KeyFile::Rsa) => 2,
        CredentialSource::Key(KeyFile::Ecdsa) => 3,
        CredentialSource::Helper => 4,
        CredentialSource::Default => 5,
    }
}

/// Whether a source gives a kind of credential that the remote accepts: the
/// agent and the key files give SSH keys, the helper gives a user name and a
/// password.
pub open spec fn offers(allowed: AllowedTypes, source: CredentialSource) -> bool {
    match source {
        CredentialSource::SshAgent => allowed.ssh_key,
        CredentialSource::Key(_) => allowed.ssh_key,
        CredentialSource::Helper => allowed.user_pass_plaintext,
        CredentialSource::Default => allowed.default,
    }
}

/// The first source of rank `from` or later that the remote accepts.
pub open spec fn first_source_from(allowed: AllowedTypes, from: int) -> Option<CredentialSource>
    decreases source_count() - from,
{
    if from < 0 || from >= source_count() {
        None
    } else if offers(allowed, source_at(from)) {
        Some(source_at(from))
    } else {
        first_source_from(allowed, from + 1)
    }
}

/// The source to try after `last` has given nothing (the first one to try
/// where `last` is `None`); `None` where no source is left.
pub open spec fn source_after(allowed: AllowedTypes, last: Option<CredentialSource>) -> Option<
    CredentialSource,
> {
    match last {
        None => first_source_from(allowed, 0),
        Some(source) => first_source_from(allowed, rank_of(source) + 1),
    }
}

/// What [`source_after`] gives is accepted by the remote and comes later in
/// the order than `last`, and every source between the two is one that the
/// remote does not accept: no accepted source is passed over, and none is
/// tried twice.
pub proof fn lemma_source_after(allowed: AllowedTypes, last: Option<CredentialSource>)
    ensures
        match source_after(allowed, last) {
            Some(next) => {
                &&& offers(allowed, next)
                &&& last matches Some(l) ==> rank_of(l) < rank_of(next)
                &&& forall|r: int|
                    (match last {
                        Some(l) => rank_of(l),
                        None => -1,
                    }) < r < rank_of(next) ==> !offers(allowed, #[trigger] source_at(r))
            },
            None => forall|r: int|
                (match last {
                    Some(l) => rank_of(l),
                    None => -1,
                }) < r < source_count() ==> !offers(allowed, #[trigger] source_at(r)),
        },
{
    reveal_with_fuel(first_source_from, 8);
}

/// The source at place `rank` of the order.
fn source_of_rank(rank: u8) -> (source: CredentialSource)
    ensures
        source == source_at(rank as int),
{
    if rank == 0 {
        CredentialSource::SshAgent
    } else if rank == 1 {
        CredentialSource::Key(KeyFile::Ed25519)
    } else if rank == 2 {
        CredentialSource::Key(KeyFile::Rsa)
    } else if rank == 3 {
        CredentialSource::Key(KeyFile::Ecdsa)
    } else if rank == 4 {
        CredentialSource::Helper
    } else {
        CredentialSource::Default
    }
}

impl CredentialSource {
    /// The place of this source in the order in which sources are tried.
    pub fn rank(self) -> (rank: u8)
        ensures
            rank == rank_of(self),
    {
        match self {
            CredentialSource::SshAgent => 0,
            CredentialSource::Key(KeyFile::Ed25519) => 1,
            CredentialSource::Key(KeyFile::Rsa) => 2,
            CredentialSource::Key(KeyFile::Ecdsa) => 3,
            CredentialSource::Helper => 4,
            CredentialSource::Default => 5,
        }
    }
}

impl AllowedTypes {
    /// Whether `source` gives a kind of credential that the remote accepts.
    pub fn accepts(&self, source: CredentialSource) -> (b: bool)
        ensures
            b == offers(*self, source),
    {
        match source {
            CredentialSource::SshAgent => self.ssh_key,
            CredentialSource::Key(_) => self.ssh_key,
            CredentialSource::Helper => self.user_pass_plaintext,
            CredentialSource::Default => self.default,
        }
    }
}

/// The source to try next, after `last` has given nothing; the first one
/// where `last` is `None`. `None` means that no suitable credential is left.
pub fn next_source(allowed: &AllowedTypes, last: Option<CredentialSource>) -> (next: Option<
    CredentialSource,
>)
    ensures
        next == source_after(*allowed, last),
{
    let mut rank: u8 = match last {
        None => 0,
        Some(source) => source.rank() + 1,
    };
    while rank < 6
        invariant
            rank <= 6,
            first_source_from(*allowed, rank as int) == source_after(*allowed, last),
        decreases 6 - rank,
    {
        let source = source_of_rank(rank);
        if allowed.accepts(source) {
            return Some(source);
        }
        rank += 1;
    }
    None
}

impl KeyFile {
    /// The name of the private key file.
    pub fn file_name(self) -> (name: &'static str)
        ensures
            name@ == match self {
                KeyFile::Ed25519 => "id_ed25519"@,
                KeyFile::Rsa => "id_rsa"@,
                KeyFile::Ecdsa => "id_ecdsa"@,
            },
    {
        match self {
            KeyFile::Ed25519 => "id_ed25519",
            KeyFile::Rsa => "id_rsa",
            KeyFile::Ecdsa => "id_ecdsa",
        }
    }

    /// The name of the public key file that goes with it.
    pub fn public_file_name(self) -> (name: &'static str)
        ensures
            name@ == match self {
                KeyFile::Ed25519 => "id_ed25519.pub"@,
                KeyFile::Rsa => "id_rsa.pub"@,
                KeyFile::Ecdsa => "id_ecdsa.pub"@,
            },
    {
        match self {
            KeyFile::Ed25519 => "id_ed25519.pub",
            KeyFile::Rsa => "id_rsa.pub",
            KeyFile::Ecdsa => "id_ecdsa.pub",
        }
    }
}

/// The user name to present: the one in the URL of the remote, or `git`.
pub fn user_name(from_url: Option<&str>) -> (name: String)
    ensures
        name@ == match from_url {
            Some(given) => given@,
            None => "git"@,
        },
{
    match from_url {
        Some(given) => given.to_owned(),
        None => "git".to_owned(),
    }
}

/// What to do with the certificate of the remote: accept it unseen only
/// where the caller asked for that.
pub fn certificate_decision(allow_insecure: bool) -> (decision: CertificateDecision)
    ensures
        decision == if allow_insecure {
            CertificateDecision::Accept
        } else {
            CertificateDecision::Validate
        },
{
    if allow_insecure {
        CertificateDecision::Accept
    } else {
        CertificateDecision::Validate
    }
}

/// Counts how often the remote has asked for credentials during one
/// operation, and ends the negotiation when it has asked too often.
#[derive(Debug)]
pub struct CredentialNegotiator {
    attempts: u32,
}

impl CredentialNegotiator {
    /// The number of attempts begun so far.
    pub closed spec fn attempts_made(&self) -> nat {
        self.attempts as nat
    }

    /// A negotiation in which the remote has not asked yet.
    pub fn new() -> (negotiator: CredentialNegotiator)
        ensures
            negotiator.attempts_made() == 0,
    {
        CredentialNegotiator { attempts: 0 }
    }

    /// The number of attempts begun so far.
    pub fn attempts(&self) -> (n: u32)
        ensures
            n == self.attempts_made(),
    {
        self.attempts
    }

    /// Begins the next attempt and gives its number, from 1 on. After
    /// [`MAX_ATTEMPTS`] attempts no further one is begun: the call fails and
    /// the count stays.
    pub fn begin_attempt(&mut self) -> (r: Result<u32, AuthenticationExhausted>)
        ensures
            old(self).attempts_made() < MAX_ATTEMPTS ==> r == Ok::<u32, AuthenticationExhausted>(
                (old(self).attempts_made() + 1) as u32,
            ) && final(self).attempts_made() == old(self).attempts_made() + 1,
            old(self).attempts_made() >= MAX_ATTEMPTS ==> r == Err::<u32, AuthenticationExhausted>(
                AuthenticationExhausted { attempts: old(self).attempts_made() as u32 },
            ) && final(self).attempts_made() == old(self).attempts_made(),
    {
        if self.attempts < MAX_ATTEMPTS {
            self.attempts = self.attempts + 1;
            Ok(self.attempts)
        } else {
            Err(AuthenticationExhausted { attempts: self.attempts })
        }
    }
}

} // verus!

//! Signing: what a request may ask of the backend, and what its answers mean.

use crate::error::{Error, ErrorView};
use crate::types::{
    AccessPolicy, BackendKind, Host, KeyInfo, KeyInfoView, KeyType, Platform, PresenceMode,
    PresenceOptions,
};
use vstd::prelude::*;

verus! {

/// Handle to a signing backend.
#[derive(Debug)]
pub struct SignerHandle {
    backend_kind: BackendKind,
}

/// A request to the backend for a new key.
#[derive(Debug)]
pub struct GenerateRequest {
    pub label: String,
    pub key_type: KeyType,
    pub policy: AccessPolicy,
}

/// A request to the backend for a signature.
#[derive(Debug)]
pub enum SignRequest {
    /// A plain signature.
    Plain { label: String },
    /// A signature with user presence.
    Presence { label: String, mode: PresenceMode, cache_ttl_secs: u64, reason: String },
}

/// The mathematical content of a [`SignRequest`].
pub enum SignView {
    Plain { label: Seq<char> },
    Presence { label: Seq<char>, mode: PresenceMode, cache_ttl_secs: u64, reason: Seq<char> },
}

impl View for SignRequest {
    type V = SignView;

    open spec fn view(&self) -> SignView {
        match self {
            SignRequest::Plain { label } => SignView::Plain { label: label@ },
            SignRequest::Presence { label, mode, cache_ttl_secs, reason } => SignView::Presence {
                label: label@,
                mode: *mode,
                cache_ttl_secs: *cache_ttl_secs,
                reason: reason@,
            },
        }
    }
}

/// The platform can enforce the policy in hardware.
pub open spec fn enforceable(host: Host, policy: AccessPolicy) -> bool {
    host.platform == Platform::MacOs || policy == AccessPolicy::Unrestricted || policy
        == AccessPolicy::Any
}

/// The name of a policy that only macOS can enforce.
pub open spec fn policy_name(policy: AccessPolicy) -> Seq<char> {
    match policy {
        AccessPolicy::BiometricOnly => "BiometricOnly"@,
        _ => "PasswordOnly"@,
    }
}

/// The platform can ask for the user's presence.
pub open spec fn can_prompt(host: Host) -> bool {
    host.platform == Platform::MacOs && host.touch_id
}

/// The keys that are listed: those of the first `n` labels whose public key
/// could be read, in the order of the labels, each with its own policy.
pub open spec fn listed(
    labels: Seq<String>,
    keys: Seq<Result<Vec<u8>, Error>>,
    policies: Seq<AccessPolicy>,
    n: int,
) -> Seq<KeyInfoView>
    decreases n,
{
    if n <= 0 {
        Seq::empty()
    } else {
        match keys[n - 1] {
            Ok(key) => listed(labels, keys, policies, n - 1).push(
                KeyInfoView {
                    label: labels[n - 1]@,
                    key_type: KeyType::Signing,
                    access_policy: policies[n - 1],
                    public_key: key@,
                },
            ),
            Err(_) => listed(labels, keys, policies, n - 1),
        }
    }
}

impl SignerHandle {
    pub closed spec fn spec_backend_kind(&self) -> BackendKind {
        self.backend_kind
    }

    /// A handle for a backend.
    pub fn new(backend_kind: BackendKind) -> (r: SignerHandle)
        ensures
            r.spec_backend_kind() == backend_kind,
    {
        SignerHandle { backend_kind }
    }

    /// Ask for a new signing key. A policy that the platform cannot enforce is
    /// refused.
    pub fn generate_key(&self, host: &Host, label: &str, policy: AccessPolicy) -> (r: Result<
        GenerateRequest,
        Error,
    >)
        ensures
            r is Ok <==> enforceable(*host, policy),
            r is Err <==> host.platform != Platform::MacOs && (policy
                == AccessPolicy::BiometricOnly || policy == AccessPolicy::PasswordOnly),
            r matches Ok(q) ==> q.label@ == label@ && q.key_type == KeyType::Signing && q.policy
                == policy,
            r matches Err(e) ==> e@ == (ErrorView::PolicyNotSupported {
                policy: policy_name(policy),
            }),
    {
        if host.platform != Platform::MacOs {
            match policy {
                AccessPolicy::BiometricOnly => {
                    return Err(Error::PolicyNotSupported { policy: "BiometricOnly".to_owned() });
                },
                AccessPolicy::PasswordOnly => {
                    return Err(Error::PolicyNotSupported { policy: "PasswordOnly".to_owned() });
                },
                _ => {},
            }
        }
        Ok(GenerateRequest { label: label.to_owned(), key_type: KeyType::Signing, policy })
    }

    /// Ask for a signature with user presence. Strict presence is refused where
    /// the platform cannot ask for it. In the other modes a platform without
    /// presence support signs plainly; on macOS the options go to the backend as
    /// they are. `host` is what is known of the machine now.
    pub fn sign_with_presence(&self, host: &Host, label: &str, opts: &PresenceOptions) -> (r:
        Result<SignRequest, Error>)
        ensures
            r is Err <==> opts.mode == PresenceMode::Strict && !can_prompt(*host),
            r is Err <==> opts.mode == PresenceMode::Strict && !(host.platform == Platform::MacOs
                && host.touch_id),
            r matches Ok(q) ==> q@ == if host.platform == Platform::MacOs {
                SignView::Presence {
                    label: label@,
                    mode: opts.mode,
                    cache_ttl_secs: opts.cache_ttl_secs,
                    reason: opts.reason@,
                }
            } else {
                SignView::Plain { label: label@ }
            },
            r matches Err(e) ==> e@ == ErrorView::PresenceNotAvailable,
    {
        if opts.mode == PresenceMode::Strict && !self.presence_available(host) {
            return Err(Error::PresenceNotAvailable);
        }
        if host.platform != Platform::MacOs {
            return Ok(SignRequest::Plain { label: label.to_owned() });
        }
        Ok(
            SignRequest::Presence {
                label: label.to_owned(),
                mode: opts.mode,
                cache_ttl_secs: opts.cache_ttl_secs,
                reason: opts.reason.as_str().to_owned(),
            },
        )
    }

    /// Whether the platform can ask for the user's presence. `host` is what is
    /// known of the machine now.
    pub fn presence_available(&self, host: &Host) -> (r: bool)
        ensures
            r == can_prompt(*host),
            r <==> host.platform == Platform::MacOs && host.touch_id,
    {
        host.platform == Platform::MacOs && host.touch_id
    }

    /// The keys behind `labels`, what the backend returned as its labels. `keys`
    /// holds what reading the public key of each returned, `policies` the policy
    /// in the metadata of each. A key that could not be read is left out.
    pub fn list_keys(
        &self,
        labels: Result<Vec<String>, Error>,
        keys: &Vec<Result<Vec<u8>, Error>>,
        policies: &Vec<AccessPolicy>,
    ) -> (r: Result<Vec<KeyInfo>, Error>)
        requires
            labels matches Ok(l) ==> l@.len() == keys@.len() && l@.len() == policies@.len(),
        ensures
            r is Ok <==> labels is Ok,
            r matches Ok(infos) ==> infos@.map_values(|k: KeyInfo| k@) == listed(
                labels->Ok_0@,
                keys@,
                policies@,
                keys@.len() as int,
            ),
            r matches Err(e) ==> e == labels->Err_0,
    {
        let labels = match labels {
            Ok(labels) => labels,
            Err(e) => {
                return Err(e);
            },
        };
        let mut infos: Vec<KeyInfo> = Vec::new();
        let mut i: usize = 0;
        assert(infos@.map_values(|k: KeyInfo| k@) =~= Seq::<KeyInfoView>::empty());
        while i < labels.len()
            invariant
                i <= labels@.len(),
                labels@.len() == keys@.len(),
                labels@.len() == policies@.len(),
                infos@.map_values(|k: KeyInfo| k@) == listed(
                    labels@,
                    keys@,
                    policies@,
                    i as int,
                ),
            decreases labels@.len() - i,
        {
            let ghost before = infos@;
            if let Ok(key) = &keys[i] {
                let info = KeyInfo {
                    label: labels[i].as_str().to_owned(),
                    key_type: KeyType::Signing,
                    access_policy: policies[i],
                    public_key: key.clone(),
                };
                infos.push(info);
                assert(infos@.map_values(|k: KeyInfo| k@) =~= before.map_values(
                    |k: KeyInfo| k@,
                ).push(info@));
            }
            i += 1;
        }
        Ok(infos)
    }

    /// The backend behind the handle.
    pub fn backend_kind(&self) -> (r: BackendKind)
        ensures
            r == self.spec_backend_kind(),
    {
        self.backend_kind
    }
}

/// Every key whose public key could be read is listed, with its label, its policy
/// and its public key; nothing else is listed.
pub proof fn law_listing(
    labels: Seq<String>,
    keys: Seq<Result<Vec<u8>, Error>>,
    policies: Seq<AccessPolicy>,
    n: int,
)
    requires
        0 <= n <= labels.len(),
        labels.len() == keys.len(),
        labels.len() == policies.len(),
    ensures
        forall|i: int|
            0 <= i < n && (#[trigger] keys[i]) is Ok ==> listed(labels, keys, policies, n).contains(
                key_info(labels, keys, policies, i),
            ),
        forall|j: int|
            0 <= j < listed(labels, keys, policies, n).len() ==> exists|i: int|
                0 <= i < n && (#[trigger] keys[i]) is Ok && #[trigger] listed(
                    labels,
                    keys,
                    policies,
                    n,
                )[j] == key_info(labels, keys, policies, i),
        listed(labels, keys, policies, n).len() <= n,
    decreases n,
{
    if n > 0 {
        law_listing(labels, keys, policies, n - 1);
        let before = listed(labels, keys, policies, n - 1);
        let all = listed(labels, keys, policies, n);
        assert forall|i: int| 0 <= i < n && (#[trigger] keys[i]) is Ok implies all.contains(
            key_info(labels, keys, policies, i),
        ) by {
            if i == n - 1 {
                assert(all[all.len() - 1] == key_info(labels, keys, policies, i));
            } else {
                assert(before.contains(key_info(labels, keys, policies, i)));
                let k = choose|k: int|
                    0 <= k < before.len() && before[k] == key_info(labels, keys, policies, i);
                assert(all[k] == before[k]);
            }
        }
        assert forall|j: int| 0 <= j < all.len() implies exists|i: int|
            0 <= i < n && (#[trigger] keys[i]) is Ok && #[trigger] all[j] == key_info(
                labels,
                keys,
                policies,
                i,
            ) by {
            if j < before.len() {
                assert(all[j] == before[j]);
                let i = choose|i: int|
                    0 <= i < n - 1 && (#[trigger] keys[i]) is Ok && before[j] == key_info(
                        labels,
                        keys,
                        policies,
                        i,
                    );
                assert(keys[i] is Ok);
            } else {
                assert(keys[n - 1] is Ok);
            }
        }
    }
}

/// The entry of one label.
pub open spec fn key_info(
    labels: Seq<String>,
    keys: Seq<Result<Vec<u8>, Error>>,
    policies: Seq<AccessPolicy>,
    i: int,
) -> KeyInfoView {
    KeyInfoView {
        label: labels[i]@,
        key_type: KeyType::Signing,
        access_policy: policies[i],
        public_key: keys[i]->Ok_0@,
    }
}

/// Presence can be asked for exactly on a Mac whose Touch ID can be used: never where
/// Touch ID cannot be used, never on another platform, and always where both hold.
/// Nothing else of the host matters.
pub proof fn law_presence_needs_touch_id(host: Host, other: Host)
    ensures
        !host.touch_id ==> !can_prompt(host),
        host.platform != Platform::MacOs ==> !can_prompt(host),
        host.platform == Platform::MacOs && host.touch_id ==> can_prompt(host),
        host.platform == other.platform && host.touch_id == other.touch_id ==> can_prompt(host)
            == can_prompt(other),
{
}

/// A policy that only macOS enforces is refused everywhere else and nowhere there; the
/// other two are accepted everywhere. The error names the policy that was asked for.
pub proof fn law_policies(host: Host)
    ensures
        enforceable(host, AccessPolicy::Unrestricted),
        enforceable(host, AccessPolicy::Any),
        enforceable(host, AccessPolicy::BiometricOnly) <==> host.platform == Platform::MacOs,
        enforceable(host, AccessPolicy::PasswordOnly) <==> host.platform == Platform::MacOs,
        policy_name(AccessPolicy::BiometricOnly) == "BiometricOnly"@,
        policy_name(AccessPolicy::PasswordOnly) == "PasswordOnly"@,
{
}

/// How many of the first `n` keys could be read.
pub open spec fn readable(keys: Seq<Result<Vec<u8>, Error>>, n: int) -> int
    decreases n,
{
    if n <= 0 {
        0
    } else {
        readable(keys, n - 1) + if keys[n - 1] is Ok {
            1int
        } else {
            0
        }
    }
}

proof fn lemma_readable(keys: Seq<Result<Vec<u8>, Error>>, i: int, n: int)
    requires
        0 <= i < n <= keys.len(),
        keys[i] is Ok,
    ensures
        0 <= readable(keys, i) < readable(keys, n),
    decreases n,
{
    lemma_readable_up(keys, i);
    if n > i + 1 {
        lemma_readable(keys, i, n - 1);
    }
}

proof fn lemma_readable_up(keys: Seq<Result<Vec<u8>, Error>>, n: int)
    ensures
        0 <= readable(keys, n),
    decreases n,
{
    if n > 0 {
        lemma_readable_up(keys, n - 1);
    }
}

/// The order of a listing: there are as many entries as keys that could be read, and
/// the key of the label at `i` stands behind as many entries as there are readable keys
/// before it, with that label, that key's policy and that public key.
pub proof fn law_listing_order(
    labels: Seq<String>,
    keys: Seq<Result<Vec<u8>, Error>>,
    policies: Seq<AccessPolicy>,
    i: int,
    n: int,
)
    requires
        0 <= n <= labels.len(),
        labels.len() == keys.len(),
        labels.len() == policies.len(),
    ensures
        listed(labels, keys, policies, n).len() == readable(keys, n),
        0 <= i < n && keys[i] is Ok ==> ({
            let entry = listed(labels, keys, policies, n)[readable(keys, i)];
            &&& 0 <= readable(keys, i) < readable(keys, n)
            &&& entry.label == labels[i]@
            &&& entry.key_type == KeyType::Signing
            &&& entry.access_policy == policies[i]
            &&& entry.public_key == keys[i]->Ok_0@
        }),
    decreases n,
{
    if n > 0 {
        law_listing_order(labels, keys, policies, i, n - 1);
        if 0 <= i < n && keys[i] is Ok {
            lemma_readable(keys, i, n);
        }
    }
}

/// The view of a request keeps its kind and what it asks for.
pub proof fn law_requests_are_shown_as_they_are(q: SignRequest)
    ensures
        q matches SignRequest::Plain { label } ==> q@ == (SignView::Plain { label: label@ }),
        q matches SignRequest::Presence { label, mode, cache_ttl_secs, reason } ==> q@ == (
        SignView::Presence { label: label@, mode, cache_ttl_secs, reason: reason@ }),
{
}

}

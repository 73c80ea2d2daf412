//! What security the running binary gets on its machine.

use crate::plist::{self, names_group};
use crate::text::{self, concat, contains, ends_with};
use crate::types::{AccessPolicy, BackendKind, Host, Platform};
use vstd::prelude::*;

verus! {

/// The answers about keychain entitlements that were found out so far, one per
/// group.
pub struct EntitlementCache {
    entries: Vec<(String, bool)>,
}

spec fn answers(s: Seq<(String, bool)>) -> Map<Seq<char>, bool>
    decreases s.len(),
{
    if s.len() == 0 {
        Map::empty()
    } else {
        answers(s.drop_last()).insert(s.last().0@, s.last().1)
    }
}

impl View for EntitlementCache {
    type V = Map<Seq<char>, bool>;

    closed spec fn view(&self) -> Map<Seq<char>, bool> {
        answers(self.entries@)
    }
}

fn same_text(a: &str, b: &str) -> (r: bool)
    ensures
        r == (a@ == b@),
{
    let x = text::chars_of(a);
    let y = text::chars_of(b);
    text::equal_without_early_exit(&x, &y)
}

impl EntitlementCache {
    /// A cache without answers.
    pub fn new() -> (r: EntitlementCache)
        ensures
            r@ == Map::<Seq<char>, bool>::empty(),
    {
        EntitlementCache { entries: Vec::new() }
    }

    /// The answer for `group`, where it is known.
    fn find(&self, group: &str) -> (r: Option<bool>)
        ensures
            match r {
                Some(b) => self@.contains_key(group@) && self@[group@] == b,
                None => !self@.contains_key(group@),
            },
    {
        let mut i: usize = self.entries.len();
        assert(self.entries@.subrange(0, i as int) =~= self.entries@);
        while i > 0
            invariant
                i <= self.entries@.len(),
                self@.contains_key(group@) == answers(
                    self.entries@.subrange(0, i as int),
                ).contains_key(group@),
                self@[group@] == answers(self.entries@.subrange(0, i as int))[group@],
            decreases i,
        {
            let ghost seen = self.entries@.subrange(0, i as int);
            i -= 1;
            assert(seen.drop_last() =~= self.entries@.subrange(0, i as int));
            if same_text(self.entries[i].0.as_str(), group) {
                return Some(self.entries[i].1);
            }
        }
        None
    }

    /// Record what a look at the binary's entitlements found for `group`: the
    /// output of the tool, or nothing where it could not be run.
    pub fn record(&mut self, group: &str, output: Option<(&str, &str)>) -> (r: bool)
        ensures
            r == entitled(group@, match output {
                Some((out, err)) => Some((out@, err@)),
                None => None,
            }),
            final(self)@ == old(self)@.insert(group@, r),
    {
        let result: bool = check_entitlement_macos(group, output);
        self.entries.push((group.to_owned(), result));
        assert(self.entries@.drop_last() =~= old(self).entries@);
        result
    }
}

/// The group is one of the binary's keychain access groups: the property list
/// that the signing tool prints, on either stream, names it as one.
pub open spec fn entitled(group: Seq<char>, output: Option<(Seq<char>, Seq<char>)>) -> bool {
    match output {
        Some((out, err)) => plist::access_groups(out).contains(group) || plist::access_groups(
            err,
        ).contains(group),
        None => false,
    }
}

/// Whether the property list that the signing tool prints names the group as a
/// keychain access group. Older systems print it to the error stream.
pub fn check_entitlement_macos(group: &str, output: Option<(&str, &str)>) -> (r: bool)
    ensures
        r == entitled(group@, match output {
            Some((out, err)) => Some((out@, err@)),
            None => None,
        }),
{
    match output {
        Some((out, err)) => names_group(out, group) || names_group(err, group),
        None => false,
    }
}

/// Whether the binary has the named keychain access group, as far as that is
/// known without a look at the binary: there are no such groups outside macOS,
/// and answers are cached. Nothing comes back where the binary has to be looked
/// at, see [`EntitlementCache::record`].
pub fn has_keychain_entitlement(cache: &EntitlementCache, host: &Host, group: &str) -> (r: Option<
    bool,
>)
    ensures
        r == known_entitlement(cache@, *host, group@),
{
    if host.platform != Platform::MacOs {
        return Some(false);
    }
    cache.find(group)
}

/// The path of a binary in a build tree.
pub open spec fn in_build_tree(exe: Seq<char>) -> bool {
    text::occurs_in("/target/"@, exe) || text::occurs_in("\\target\\"@, exe)
}

/// The binary at `exe` counts as signed.
pub open spec fn counts_as_signed(
    platform: Platform,
    exe: Seq<char>,
    codesign_accepts: bool,
) -> bool {
    !in_build_tree(exe) && (platform == Platform::MacOs ==> codesign_accepts)
}

/// Whether the binary counts as signed: one in a build tree never does; on
/// macOS the system's verdict decides, elsewhere there is none to ask for.
pub fn is_binary_signed(platform: Platform, exe: &str, codesign_accepts: bool) -> (r: bool)
    ensures
        r == (!in_build_tree(exe@) && (platform == Platform::MacOs ==> codesign_accepts)),
        r == counts_as_signed(platform, exe@, codesign_accepts),
{
    if contains(exe, "/target/") || contains(exe, "\\target\\") {
        return false;
    }
    if platform == Platform::MacOs {
        return codesign_accepts;
    }
    true
}

/// The name under which an application stores its keys. Binaries that are not
/// signed have names of their own.
pub open spec fn safe_app_name(app_name: Seq<char>, signed: bool) -> Seq<char> {
    if signed || text::has_suffix(app_name, "-unsigned"@) {
        app_name
    } else {
        app_name + "-unsigned"@
    }
}

/// The name under which an application stores its keys: `-unsigned` is
/// appended for a binary that is not signed, unless it is there already.
pub fn ensure_safe_app_name(app_name: &str, signed: bool) -> (r: String)
    ensures
        r@ == safe_app_name(app_name@, signed),
{
    if signed || ends_with(app_name, "-unsigned") {
        return app_name.to_owned();
    }
    concat(app_name, "-unsigned")
}

/// The backend of a machine.
pub open spec fn backend_of(host: Host) -> BackendKind {
    match host.platform {
        Platform::MacOs => BackendKind::SecureEnclave,
        Platform::Windows => BackendKind::Tpm,
        Platform::Linux => if host.wsl {
            BackendKind::TpmBridge
        } else {
            BackendKind::Keyring
        },
        Platform::Other => BackendKind::Keyring,
    }
}

/// The backend of a machine.
pub fn detect_backend(host: &Host) -> (r: BackendKind)
    ensures
        r == backend_of(*host),
{
    match host.platform {
        Platform::MacOs => BackendKind::SecureEnclave,
        Platform::Windows => BackendKind::Tpm,
        Platform::Linux => if host.wsl {
            BackendKind::TpmBridge
        } else {
            BackendKind::Keyring
        },
        Platform::Other => BackendKind::Keyring,
    }
}

/// Full description of the security that the running binary gets.
#[derive(Clone, Debug)]
pub struct SecurityCapabilities {
    /// The binary is signed. When it is not, its application name ends in
    /// `-unsigned`.
    pub binary_signed: bool,
    pub backend: BackendKind,
    /// Effective keychain access group, if any.
    pub effective_keychain_group: Option<String>,
    /// Keychain items are bound to the binary's signature.
    pub code_signature_binding: bool,
    /// User presence gates the wrapping key.
    pub keychain_user_presence: bool,
    /// The platform can enforce user presence.
    pub hardware_presence: bool,
    /// Presence prompts can be reused for a while.
    pub presence_caching: bool,
    pub effective_app_name: String,
    /// Features that were asked for and are not to be had.
    pub downgraded_features: Vec<String>,
    /// The policy to give new keys.
    pub recommended_access_policy: AccessPolicy,
}

/// The mathematical content of [`SecurityCapabilities`].
pub struct SecurityView {
    pub binary_signed: bool,
    pub backend: BackendKind,
    pub has_keychain_group: bool,
    pub code_signature_binding: bool,
    pub keychain_user_presence: bool,
    pub hardware_presence: bool,
    pub presence_caching: bool,
    pub effective_app_name: Seq<char>,
    pub downgraded_features: nat,
    pub recommended_access_policy: AccessPolicy,
}

impl View for SecurityCapabilities {
    type V = SecurityView;

    open spec fn view(&self) -> SecurityView {
        SecurityView {
            binary_signed: self.binary_signed,
            backend: self.backend,
            has_keychain_group: self.effective_keychain_group is Some,
            code_signature_binding: self.code_signature_binding,
            keychain_user_presence: self.keychain_user_presence,
            hardware_presence: self.hardware_presence,
            presence_caching: self.presence_caching,
            effective_app_name: self.effective_app_name@,
            downgraded_features: self.downgraded_features@.len(),
            recommended_access_policy: self.recommended_access_policy,
        }
    }
}

/// The security that a binary gets before any handle exists. Without a
/// signature the key's own policy is the only barrier, so new keys should have
/// one.
pub open spec fn security_of(app_name: Seq<char>, host: Host) -> SecurityView {
    SecurityView {
        binary_signed: host.signed,
        backend: backend_of(host),
        has_keychain_group: false,
        code_signature_binding: false,
        keychain_user_presence: false,
        hardware_presence: match host.platform {
            Platform::MacOs => host.touch_id,
            Platform::Windows => true,
            _ => false,
        },
        presence_caching: host.platform == Platform::MacOs,
        effective_app_name: safe_app_name(app_name, host.signed),
        downgraded_features: 0,
        recommended_access_policy: if host.signed {
            AccessPolicy::Unrestricted
        } else {
            AccessPolicy::Any
        },
    }
}

/// The security that the binary gets, without creating any handle.
pub fn security_capabilities(app_name: &str, host: &Host) -> (r: SecurityCapabilities)
    ensures
        r@ == security_of(app_name@, *host),
{
    let hardware_presence: bool = match host.platform {
        Platform::MacOs => host.touch_id,
        Platform::Windows => true,
        _ => false,
    };
    let recommended_access_policy = if host.signed {
        AccessPolicy::Unrestricted
    } else {
        AccessPolicy::Any
    };
    SecurityCapabilities {
        binary_signed: host.signed,
        backend: detect_backend(host),
        effective_keychain_group: None,
        code_signature_binding: false,
        keychain_user_presence: false,
        hardware_presence,
        presence_caching: host.platform == Platform::MacOs,
        effective_app_name: ensure_safe_app_name(app_name, host.signed),
        downgraded_features: Vec::new(),
        recommended_access_policy,
    }
}

proof fn lemma_suffix_of_concat(a: Seq<char>, b: Seq<char>)
    ensures
        text::has_suffix(a + b, b),
{
    assert((a + b).subrange(a.len() as int, (a + b).len() as int) =~= b);
}

/// Making a name safe twice is making it safe once.
pub proof fn law_safe_name_is_idempotent(app_name: Seq<char>, signed: bool)
    ensures
        safe_app_name(safe_app_name(app_name, signed), signed) == safe_app_name(app_name, signed),
{
    lemma_suffix_of_concat(app_name, "-unsigned"@);
}

/// A binary that is not signed never stores under the name of a signed one,
/// unless that one took such a name itself.
pub proof fn law_unsigned_names_are_apart(app_name: Seq<char>, production: Seq<char>)
    requires
        !text::has_suffix(production, "-unsigned"@),
    ensures
        safe_app_name(app_name, false) != safe_app_name(production, true),
        text::has_suffix(safe_app_name(app_name, false), "-unsigned"@),
{
    lemma_suffix_of_concat(app_name, "-unsigned"@);
}

/// What the keychain answer for `group` is, as far as it is known without a look
/// at the binary.
pub open spec fn known_entitlement(
    cache: Map<Seq<char>, bool>,
    host: Host,
    group: Seq<char>,
) -> Option<bool> {
    if host.platform != Platform::MacOs {
        Some(false)
    } else if cache.contains_key(group) {
        Some(cache[group])
    } else {
        None
    }
}

/// Once recorded, an answer is given again without another look, and recording
/// it changes no other answer.
pub proof fn law_entitlements_are_cached(
    cache: Map<Seq<char>, bool>,
    host: Host,
    group: Seq<char>,
    answer: bool,
    other: Seq<char>,
)
    requires
        host.platform == Platform::MacOs,
    ensures
        known_entitlement(cache.insert(group, answer), host, group) == Some(answer),
        other != group ==> known_entitlement(cache.insert(group, answer), host, other)
            == known_entitlement(cache, host, other),
{
}

/// The backend of each platform.
pub proof fn law_backends(host: Host)
    ensures
        backend_of(host) == BackendKind::SecureEnclave <==> host.platform == Platform::MacOs,
        backend_of(host) == BackendKind::Tpm <==> host.platform == Platform::Windows,
        backend_of(host) == BackendKind::TpmBridge <==> host.platform == Platform::Linux
            && host.wsl,
        backend_of(host) == BackendKind::Keyring <==> host.platform == Platform::Other || (
        host.platform == Platform::Linux && !host.wsl),
{
}

/// The name under which keys are stored: a signed binary has its own; any other has a
/// name that ends in `-unsigned`, its own with that behind it unless it ended so
/// already.
pub proof fn law_safe_names(app_name: Seq<char>, stem: Seq<char>)
    ensures
        safe_app_name(app_name, true) == app_name,
        safe_app_name(stem + "-unsigned"@, false) == stem + "-unsigned"@,
        (forall|s: Seq<char>| app_name != #[trigger] (s + "-unsigned"@)) ==> safe_app_name(
            app_name,
            false,
        ) == app_name + "-unsigned"@,
        exists|s: Seq<char>| safe_app_name(app_name, false) == #[trigger] (s + "-unsigned"@),
{
    let tail = "-unsigned"@;
    lemma_suffix_of_concat(stem, tail);
    if text::has_suffix(app_name, tail) {
        let s = app_name.subrange(0, app_name.len() - tail.len());
        assert(app_name =~= s + tail);
        assert(safe_app_name(app_name, false) == s + tail);
    } else {
        assert(safe_app_name(app_name, false) == app_name + tail);
    }
}

/// A binary is in a build tree exactly where its path has a directory named `target`,
/// with either separator around it.
pub proof fn law_build_tree(a: Seq<char>, b: Seq<char>, exe: Seq<char>)
    ensures
        in_build_tree(a + "/target/"@ + b),
        in_build_tree(a + "\\target\\"@ + b),
        (forall|x: Seq<char>, y: Seq<char>| exe != #[trigger] (x + "/target/"@ + y)) && (forall|
            x: Seq<char>,
            y: Seq<char>,
        |
            exe != #[trigger] (x + "\\target\\"@ + y)) ==> !in_build_tree(exe),
{
    text::law_occurs("/target/"@, a, b, exe);
    text::law_occurs("\\target\\"@, a, b, exe);
}

/// What is reported of a binary's security, field by field.
pub proof fn law_security(app_name: Seq<char>, host: Host)
    ensures
        ({
            let r = security_of(app_name, host);
            &&& r.binary_signed == host.signed
            &&& r.backend == backend_of(host)
            &&& !r.has_keychain_group && !r.code_signature_binding && !r.keychain_user_presence
            &&& r.hardware_presence <==> host.platform == Platform::Windows || (host.platform
                == Platform::MacOs && host.touch_id)
            &&& r.presence_caching <==> host.platform == Platform::MacOs
            &&& host.signed ==> r.effective_app_name == app_name
            &&& !host.signed ==> text::has_suffix(r.effective_app_name, "-unsigned"@)
            &&& r.downgraded_features == 0
            &&& host.signed ==> r.recommended_access_policy == AccessPolicy::Unrestricted
            &&& !host.signed ==> r.recommended_access_policy == AccessPolicy::Any
        }),
{
    lemma_suffix_of_concat(app_name, "-unsigned"@);
}

/// Outside macOS no binary has a keychain group, whatever was recorded; on macOS the
/// answer is the recorded one, and there is none before one was recorded.
pub proof fn law_known_entitlements(cache: Map<Seq<char>, bool>, host: Host, group: Seq<char>)
    ensures
        host.platform != Platform::MacOs ==> known_entitlement(cache, host, group) == Some(false),
        host.platform == Platform::MacOs && cache.contains_key(group) ==> known_entitlement(
            cache,
            host,
            group,
        ) == Some(cache[group]),
        host.platform == Platform::MacOs && !cache.contains_key(group) ==> known_entitlement(
            cache,
            host,
            group,
        ) is None,
{
}

/// A binary is entitled to a group exactly where the property list on one of the two
/// streams names it; where the tool could not be run, to none.
pub proof fn law_entitled(
    group: Seq<char>,
    before: Seq<char>,
    groups: Seq<Seq<char>>,
    gap: Seq<char>,
    space: Seq<char>,
    after: Seq<char>,
    other: Seq<char>,
)
    requires
        plist::all_blank(gap),
        plist::plain(space),
        plist::find(before + "<key>keychain-access-groups</key>"@, "<key>keychain-access-groups</key>"@)
            == Some(before.len() as int),
        forall|i: int| 0 <= i < groups.len() ==> plist::plain(#[trigger] groups[i]),
        plist::find(other, "<key>keychain-access-groups</key>"@) is None,
    ensures
        ({
            let list = before + "<key>keychain-access-groups</key>"@ + gap + plist::rendered(
                groups,
                space,
            ) + after;
            &&& entitled(group, Some((list, other))) <==> groups.contains(group)
            &&& entitled(group, Some((other, list))) <==> groups.contains(group)
            &&& !entitled(group, Some((other, other)))
            &&& !entitled(group, None)
        }),
{
    plist::law_list_names_its_groups(before, gap, groups, space, after);
    assert(plist::access_groups(other) =~= Seq::empty());
}

/// The view of the security keeps every field, texts that are not there included.
pub proof fn law_security_is_shown_as_it_is(c: SecurityCapabilities)
    ensures
        c@.binary_signed == c.binary_signed,
        c@.backend == c.backend,
        c@.has_keychain_group <==> c.effective_keychain_group is Some,
        c@.code_signature_binding == c.code_signature_binding,
        c@.keychain_user_presence == c.keychain_user_presence,
        c@.hardware_presence == c.hardware_presence,
        c@.presence_caching == c.presence_caching,
        c@.effective_app_name == c.effective_app_name@,
        c@.downgraded_features == c.downgraded_features@.len(),
        c@.recommended_access_policy == c.recommended_access_policy,
{
}

/// Which binaries count as signed: none in a build tree, on any platform; on macOS exactly
/// those others that the system accepts; elsewhere every other one, whatever the system
/// says.
pub proof fn law_signed_binaries(
    platform: Platform,
    a: Seq<char>,
    b: Seq<char>,
    exe: Seq<char>,
    accepts: bool,
)
    ensures
        !counts_as_signed(platform, a + "/target/"@ + b, accepts),
        !counts_as_signed(platform, a + "\\target\\"@ + b, accepts),
        platform == Platform::MacOs && !accepts ==> !counts_as_signed(platform, exe, accepts),
        (forall|x: Seq<char>, y: Seq<char>| exe != #[trigger] (x + "/target/"@ + y)) && (forall|
            x: Seq<char>,
            y: Seq<char>,
        |
            exe != #[trigger] (x + "\\target\\"@ + y)) ==> counts_as_signed(
            platform,
            exe,
            accepts,
        ) == (platform != Platform::MacOs || accepts),
{
    law_build_tree(a, b, exe);
}

}

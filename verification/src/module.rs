//! The outcome of checking a peer.

use vstd::prelude::*;
use crate::i18n::TranslationComponent;
use crate::text::{str_eq, texts};

verus! {

/// What is to be done about a peer.
#[derive(Clone, Copy, PartialEq, Eq, Structural, Debug)]
pub enum PeerAction {
    Ban,
    /// A short ban that only breaks the connection.
    BanForDisconnect,
    /// The peer is exempt.
    Skip,
    NoAction,
}

impl PeerAction {
    /// The rank of an action: the higher one wins.
    pub open spec fn rank(self) -> u8 {
        match self {
            PeerAction::NoAction => 0,
            PeerAction::BanForDisconnect => 1,
            PeerAction::Ban => 2,
            PeerAction::Skip => 3,
        }
    }

    /// The rank of the action: the higher one wins.
    pub fn ordinal(&self) -> (rank: u8)
        ensures
            rank == self.rank(),
    {
        match self {
            PeerAction::NoAction => 0,
            PeerAction::BanForDisconnect => 1,
            PeerAction::Ban => 2,
            PeerAction::Skip => 3,
        }
    }

    /// Whether the downloader has to ban the peer.
    pub fn is_ban(&self) -> (yes: bool)
        ensures
            yes == (*self == PeerAction::Ban || *self == PeerAction::BanForDisconnect),
            yes == (1 <= self.rank() <= 2),
    {
        matches!(self, PeerAction::Ban | PeerAction::BanForDisconnect)
    }
}

/// Different actions have different ranks.
pub proof fn ranks_are_distinct(a: PeerAction, b: PeerAction)
    ensures
        a.rank() == b.rank() ==> a == b,
{
}

/// Structured data that goes with an outcome.
#[derive(Debug)]
pub enum CheckData {
    /// The object with the single member `status`.
    Status(String),
    /// Any JSON document, by its text.
    Json(String),
}

/// The outcome of one module's check of a peer.
#[derive(Debug)]
pub struct CheckResult {
    /// The name of the module's configuration section.
    pub module: String,
    pub action: PeerAction,
    /// How long a ban lasts, in milliseconds; 0 stands for the global duration.
    pub ban_duration_ms: i64,
    pub rule: String,
    pub reason: String,
    pub data: CheckData,
    pub rule_key: Option<TranslationComponent>,
    pub reason_key: Option<TranslationComponent>,
}

/// Whether a translatable text is a bare key.
pub open spec fn is_bare_key(c: Option<TranslationComponent>, key: Seq<char>) -> bool {
    c matches Some(t) && t.key@ == key && t.params@.len() == 0
}

/// Whether an outcome leaves the peer alone, with the given status and reason.
pub open spec fn leaves_alone(
    r: CheckResult,
    module: Seq<char>,
    status: Seq<char>,
    reason_key: Seq<char>,
) -> bool {
    &&& r.module@ == module
    &&& r.action == PeerAction::NoAction
    &&& r.ban_duration_ms == 0
    &&& r.rule@ == "N/A"@
    &&& r.reason@ == status
    &&& (r.data matches CheckData::Status(s) && s@ == status)
    &&& is_bare_key(r.rule_key, "N/A"@)
    &&& is_bare_key(r.reason_key, reason_key)
}

impl CheckResult {
    /// Nothing is to be done, for the given reason.
    pub fn no_action(module: &str, status: &str) -> (r: Self)
        ensures
            leaves_alone(r, module@, status@, status@),
    {
        CheckResult {
            module: module.to_string(),
            action: PeerAction::NoAction,
            ban_duration_ms: 0,
            rule: "N/A".to_string(),
            reason: status.to_string(),
            data: CheckData::Status(status.to_string()),
            rule_key: Some(TranslationComponent::new("N/A")),
            reason_key: Some(TranslationComponent::new(status)),
        }
    }

    /// Nothing is to be done while the peer is shaking hands.
    pub fn handshaking(module: &str) -> (r: Self)
        ensures
            leaves_alone(r, module@, "handshaking"@, "Peer handshaking"@),
    {
        let mut r = Self::no_action(module, "handshaking");
        r.reason_key = Some(TranslationComponent::new("Peer handshaking"));
        r
    }

    /// The peer passed the check.
    pub fn pass(module: &str) -> (r: Self)
        ensures
            leaves_alone(r, module@, "pass"@, "Check passed"@),
    {
        let mut r = Self::no_action(module, "pass");
        r.reason_key = Some(TranslationComponent::new("Check passed"));
        r
    }

    /// The peer is to be banned.
    pub fn ban(module: &str, duration_ms: i64, rule: &str, reason: &str, data: CheckData) -> (r:
        Self)
        ensures
            r.module@ == module@,
            r.action == PeerAction::Ban,
            r.ban_duration_ms == duration_ms,
            r.rule@ == rule@,
            r.reason@ == reason@,
            r.data == data,
            r.rule_key is None,
            r.reason_key is None,
    {
        CheckResult {
            module: module.to_string(),
            action: PeerAction::Ban,
            ban_duration_ms: duration_ms,
            rule: rule.to_string(),
            reason: reason.to_string(),
            data,
            rule_key: None,
            reason_key: None,
        }
    }

    /// The outcome with translatable forms of its rule and reason.
    pub fn with_keys(
        self,
        rule_key: TranslationComponent,
        reason_key: TranslationComponent,
    ) -> (r: Self)
        ensures
            r == (CheckResult {
                rule_key: Some(rule_key),
                reason_key: Some(reason_key),
                ..self
            }),
    {
        CheckResult { rule_key: Some(rule_key), reason_key: Some(reason_key), ..self }
    }
}

/// What a check knows besides the peer: the time and what the downloader can do.
#[derive(Debug)]
pub struct CheckContext {
    pub now_ms: i64,
    pub features: Vec<String>,
}

impl Default for CheckContext {
    fn default() -> (v: Self)
        ensures
            v.now_ms == 0,
            v.features@.len() == 0,
    {
        CheckContext {
            now_ms: 0,
            features: Vec::new(),
        }
    }
}

impl CheckContext {
    /// Whether the downloader has a feature.
    pub fn has_feature(&self, f: &str) -> (yes: bool)
        ensures
            yes == texts(self.features@).contains(f@),
    {
        let mut i: usize = 0;
        while i < self.features.len()
            invariant
                i <= self.features@.len(),
                forall|k: int| 0 <= k < i ==> (#[trigger] self.features@[k])@ != f@,
            decreases self.features@.len() - i,
        {
            if str_eq(self.features[i].as_str(), f) {
                assert(texts(self.features@)[i as int] == f@);
                return true;
            }
            i += 1;
        }
        proof {
            if texts(self.features@).contains(f@) {
                let k = choose|k: int|
                    0 <= k < texts(self.features@).len() && texts(self.features@)[k] == f@;
                assert(self.features@[k]@ == f@);
            }
        }
        false
    }
}

/// An exemption comes before a ban, a ban before a break of the connection and that before nothing.
pub proof fn actions_are_ranked(a: PeerAction)
    ensures
        PeerAction::Skip.rank() > PeerAction::Ban.rank(),
        PeerAction::Ban.rank() > PeerAction::BanForDisconnect.rank(),
        PeerAction::BanForDisconnect.rank() > PeerAction::NoAction.rank(),
        PeerAction::NoAction.rank() <= a.rank() <= PeerAction::Skip.rank(),
{
}

/// A check that leaves a peer alone asks for nothing, for no time and by no rule, and tells its
/// status as the reason.
pub proof fn leaving_alone_asks_for_nothing(
    r: CheckResult,
    module: Seq<char>,
    status: Seq<char>,
    reason: Seq<char>,
)
    requires
        leaves_alone(r, module, status, reason),
    ensures
        r.action == PeerAction::NoAction,
        r.ban_duration_ms == 0,
        r.module@ == module,
        r.reason@ == status,
        r.rule@ == "N/A"@,
        r.reason_key matches Some(k) && k.key@ == reason && k.params@.len() == 0,
        r.rule_key matches Some(k) && k.key@ == "N/A"@ && k.params@.len() == 0,
{
}

} // verus!

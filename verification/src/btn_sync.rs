//! Running the abilities of the BTN client that are due.

use vstd::prelude::*;
use crate::btn_exchange::{list_kind, none_of, reads_any, with_list, BtnIpAbility};
use crate::btn_report::{
    BtnBanPing, BtnSwarmPeerPing, LegacyBtnBanPing, LegacyBtnPeerHistoryPing, LegacyBtnPeerPing,
};
use crate::btn_rounds::{
    bans_submitted, histories_submitted, legacy_bans_submitted, legacy_peers_submitted,
    swarms_submitted, BtnSubmitSource,
};
use crate::btn_schedule::{
    due_abilities_of, due_views, heartbeats_sent, list_fetched, reconfigured, recorded,
    ruleset_fetched, ruleset_rev, AbilityOutcome, DueAbility,
};
use crate::btn_transport::{
    cached_change, change_views, BtnAbilityKind, BtnAbilitySync, BtnConfigResponse, BtnHttpClient,
    BtnMetadataStore, BtnNetwork, ChangeView, ModuleChange, PowCaptchaData,
    CACHE_KEY_IP_ALLOWLIST_VALUE, CACHE_KEY_IP_ALLOWLIST_VERSION, CACHE_KEY_IP_DENYLIST_VALUE,
    CACHE_KEY_IP_DENYLIST_VERSION, CACHE_KEY_RULES, INITIAL_REV,
};

verus! {

/// How the texts of a server are read, what is reported is written, and changes are taken over.
pub struct BtnHooks<P, C, V, R, A, B, W, Y, L, D> {
    /// Reads a challenge.
    pub captcha: P,
    /// Reads a configuration.
    pub config: C,
    /// What is wrong with a set of rules, if anything is.
    pub rules: V,
    /// The version in force of what an ability brings.
    pub revision: R,
    /// Takes over a change: whether that was done.
    pub apply: A,
    pub bans: B,
    pub swarms: W,
    pub histories: Y,
    pub peers: L,
    pub legacy_bans: D,
}

/// Whether the hooks work on anything.
pub open spec fn hooks_ready<
    P: Fn(&String) -> Option<PowCaptchaData>,
    C: Fn(&String) -> Result<BtnConfigResponse, String>,
    V: Fn(&String) -> Option<String>,
    R: Fn(BtnAbilityKind) -> Option<String>,
    A: Fn(&ModuleChange) -> bool,
    B: Fn(&BtnBanPing) -> Option<Vec<u8>>,
    W: Fn(&BtnSwarmPeerPing) -> Option<Vec<u8>>,
    Y: Fn(&LegacyBtnPeerHistoryPing) -> Option<Vec<u8>>,
    L: Fn(&LegacyBtnPeerPing) -> Option<Vec<u8>>,
    D: Fn(&LegacyBtnBanPing) -> Option<Vec<u8>>,
>(hooks: BtnHooks<P, C, V, R, A, B, W, Y, L, D>) -> bool {
    &&& reads_any(hooks.captcha)
    &&& reads_any(hooks.config)
    &&& reads_any(hooks.rules)
    &&& forall|kind: BtnAbilityKind| hooks.revision.requires((kind,))
    &&& forall|change: &ModuleChange| hooks.apply.requires((change,))
    &&& forall|ping: &BtnBanPing| hooks.bans.requires((ping,))
    &&& forall|ping: &BtnSwarmPeerPing| hooks.swarms.requires((ping,))
    &&& forall|ping: &LegacyBtnPeerHistoryPing| hooks.histories.requires((ping,))
    &&& forall|ping: &LegacyBtnPeerPing| hooks.peers.requires((ping,))
    &&& forall|ping: &LegacyBtnBanPing| hooks.legacy_bans.requires((ping,))
}

/// Whether a change may be taken over so.
pub open spec fn applied<A: Fn(&ModuleChange) -> bool>(
    apply: A,
    change: ChangeView,
    done: bool,
) -> bool {
    exists|c: ModuleChange| c@ == change && #[trigger] apply.ensures((&c,), done)
}

/// Whether a change was handed on, however that ended.
pub open spec fn handed_on<A: Fn(&ModuleChange) -> bool>(apply: A, change: ChangeView) -> bool {
    exists|done: bool| #[trigger] applied(apply, change, done)
}

/// Whether all the changes were handed on.
pub open spec fn all_applied<A: Fn(&ModuleChange) -> bool>(
    apply: A,
    changes: Seq<ChangeView>,
) -> bool {
    forall|i: int| 0 <= i < changes.len() ==> handed_on(apply, #[trigger] changes[i])
}

/// What updating the rules may make of a client: `updated` tells whether new ones were taken over.
pub open spec fn rules_updated<
    H: BtnHttpClient,
    M: BtnMetadataStore,
    P: Fn(&String) -> Option<PowCaptchaData>,
    V: Fn(&String) -> Option<String>,
    A: Fn(&ModuleChange) -> bool,
>(
    before: BtnNetwork<H, M>,
    rev: Seq<char>,
    parse: P,
    check: V,
    apply: A,
    after: BtnNetwork<H, M>,
    updated: bool,
) -> bool {
    exists|r: Result<Option<String>, String>|
        {
            &&& #[trigger] ruleset_fetched(before, rev, parse, check, after, r)
            &&& match r {
                Ok(Some(text)) => applied(apply, ChangeView::Ruleset(text@), updated),
                _ => !updated,
            }
        }
}

/// The change that brings in a list of addresses.
pub open spec fn list_change(list: BtnIpAbility, text: Seq<char>, version: Seq<char>) -> ChangeView {
    match list {
        BtnIpAbility::AllowList => ChangeView::AllowList(text, version),
        BtnIpAbility::DenyList => ChangeView::DenyList(text, version),
    }
}

/// What updating a list of addresses may make of a client: `updated` tells whether a new one came.
pub open spec fn list_updated<
    H: BtnHttpClient,
    M: BtnMetadataStore,
    P: Fn(&String) -> Option<PowCaptchaData>,
    A: Fn(&ModuleChange) -> bool,
>(
    before: BtnNetwork<H, M>,
    list: BtnIpAbility,
    rev: Seq<char>,
    parse: P,
    apply: A,
    after: BtnNetwork<H, M>,
    updated: bool,
) -> bool {
    exists|r: Result<Option<(String, String)>, String>|
        {
            &&& #[trigger] list_fetched(before, list, rev, parse, after, r)
            &&& match r {
                Ok(Some(found)) => updated && handed_on(
                    apply,
                    list_change(list, found.0@, found.1@),
                ),
                _ => !updated,
            }
        }
}

/// The version to name for some version in force.
pub open spec fn rev_of(version: Option<String>) -> Seq<char> {
    match version {
        Some(v) => v@,
        None => INITIAL_REV@,
    }
}

/// What running the ability at a place may make of a client, and how that may end.
pub open spec fn ability_ran<
    H: BtnHttpClient,
    M: BtnMetadataStore,
    S: BtnSubmitSource,
    P: Fn(&String) -> Option<PowCaptchaData>,
    C: Fn(&String) -> Result<BtnConfigResponse, String>,
    V: Fn(&String) -> Option<String>,
    R: Fn(BtnAbilityKind) -> Option<String>,
    A: Fn(&ModuleChange) -> bool,
    B: Fn(&BtnBanPing) -> Option<Vec<u8>>,
    W: Fn(&BtnSwarmPeerPing) -> Option<Vec<u8>>,
    Y: Fn(&LegacyBtnPeerHistoryPing) -> Option<Vec<u8>>,
    L: Fn(&LegacyBtnPeerPing) -> Option<Vec<u8>>,
    D: Fn(&LegacyBtnBanPing) -> Option<Vec<u8>>,
>(
    before: BtnNetwork<H, M>,
    kind: BtnAbilityKind,
    index: int,
    hooks: BtnHooks<P, C, V, R, A, B, W, Y, L, D>,
    source: Option<&S>,
    ips: Seq<String>,
    under_way: bool,
    now_ms: i64,
    after: BtnNetwork<H, M>,
    outcome: AbilityOutcome,
) -> bool {
    match kind {
        BtnAbilityKind::Rules => exists|version: Option<String>, updated: bool|
            {
                &&& #[trigger] hooks.revision.ensures((kind,), version)
                &&& #[trigger] rules_updated(
                    before,
                    rev_of(version),
                    hooks.captcha,
                    hooks.rules,
                    hooks.apply,
                    after,
                    updated,
                )
                &&& outcome == (AbilityOutcome::Reported { updated, status: true })
            },
        BtnAbilityKind::IpAllowList => exists|version: Option<String>, updated: bool|
            {
                &&& #[trigger] hooks.revision.ensures((kind,), version)
                &&& #[trigger] list_updated(
                    before,
                    BtnIpAbility::AllowList,
                    rev_of(version),
                    hooks.captcha,
                    hooks.apply,
                    after,
                    updated,
                )
                &&& outcome == (AbilityOutcome::Reported { updated, status: true })
            },
        BtnAbilityKind::IpDenyList => exists|version: Option<String>, updated: bool|
            {
                &&& #[trigger] hooks.revision.ensures((kind,), version)
                &&& #[trigger] list_updated(
                    before,
                    BtnIpAbility::DenyList,
                    rev_of(version),
                    hooks.captcha,
                    hooks.apply,
                    after,
                    updated,
                )
                &&& outcome == (AbilityOutcome::Reported { updated, status: true })
            },
        BtnAbilityKind::SubmitBans => bans_submitted(
            before,
            index,
            source,
            hooks.bans,
            hooks.captcha,
            after,
            outcome,
        ),
        BtnAbilityKind::SubmitSwarm => swarms_submitted(
            before,
            index,
            source,
            hooks.swarms,
            hooks.captcha,
            after,
            outcome,
        ),
        BtnAbilityKind::SubmitHistories => histories_submitted(
            before,
            index,
            under_way,
            source,
            hooks.histories,
            hooks.captcha,
            after,
            outcome,
        ),
        BtnAbilityKind::LegacySubmitPeers => legacy_peers_submitted(
            before,
            index,
            source,
            hooks.peers,
            hooks.captcha,
            after,
            outcome,
        ),
        BtnAbilityKind::LegacySubmitBans => legacy_bans_submitted(
            before,
            index,
            source,
            hooks.legacy_bans,
            hooks.captcha,
            after,
            outcome,
        ),
        BtnAbilityKind::Heartbeat => exists|ok: bool|
            {
                &&& #[trigger] heartbeats_sent(
                    before,
                    index,
                    ips,
                    hooks.captcha,
                    now_ms,
                    after,
                    ok,
                )
                &&& outcome == (AbilityOutcome::Reported { updated: false, status: ok })
            },
        BtnAbilityKind::Reconfigure => exists|ok: bool, changes: Seq<ChangeView>|
            {
                &&& #[trigger] reconfigured(
                    before,
                    index,
                    hooks.config,
                    now_ms,
                    after,
                    ok,
                    changes,
                )
                &&& all_applied(hooks.apply, changes)
                &&& outcome == (AbilityOutcome::Reported { updated: false, status: ok })
            },
        BtnAbilityKind::IpQuery | BtnAbilityKind::Other => {
            &&& after == before
            &&& outcome == (AbilityOutcome::Reported { updated: false, status: true })
        },
    }
}

impl<H: BtnHttpClient, M: BtnMetadataStore> BtnNetwork<H, M> {
    /// Updates the rules: whether new ones were taken over.
    pub fn update_rules<
        P: Fn(&String) -> Option<PowCaptchaData>,
        V: Fn(&String) -> Option<String>,
        A: Fn(&ModuleChange) -> bool,
    >(&mut self, version: &Option<String>, parse: P, check: V, apply: A) -> (updated: bool)
        requires
            reads_any(parse),
            reads_any(check),
            forall|change: &ModuleChange| apply.requires((change,)),
        ensures
            rules_updated(
                *old(self),
                rev_of(*version),
                parse,
                check,
                apply,
                *final(self),
                updated,
            ),
    {
        let rev = ruleset_rev(version);
        let r = self.fetch_ruleset(rev.as_str(), parse, check);
        let ghost r_ = r;
        match r {
            Ok(Some(text)) => {
                let change = ModuleChange::Ruleset(text);
                let updated = apply(&change);
                proof {
                    assert(apply.ensures((&change,), updated));
                    assert(applied(apply, change@, updated));
                    assert(ruleset_fetched(*old(self), rev_of(*version), parse, check, *self, r_));
                }
                updated
            },
            _ => {
                assert(ruleset_fetched(*old(self), rev_of(*version), parse, check, *self, r_));
                false
            },
        }
    }

    /// Updates a list of addresses: whether a new one came.
    pub fn update_ip_list<
        P: Fn(&String) -> Option<PowCaptchaData>,
        A: Fn(&ModuleChange) -> bool,
    >(&mut self, list: BtnIpAbility, version: &Option<String>, parse: P, apply: A) -> (updated: bool)
        requires
            reads_any(parse),
            forall|change: &ModuleChange| apply.requires((change,)),
        ensures
            list_updated(
                *old(self),
                list,
                rev_of(*version),
                parse,
                apply,
                *final(self),
                updated,
            ),
    {
        let rev = ruleset_rev(version);
        let r = self.fetch_ip_list(list, rev.as_str(), parse);
        let ghost r_ = r;
        assert(list_fetched(*old(self), list, rev_of(*version), parse, *self, r_));
        match r {
            Ok(Some((text, version))) => {
                let change = match list {
                    BtnIpAbility::AllowList => ModuleChange::AllowList { text, version },
                    BtnIpAbility::DenyList => ModuleChange::DenyList { text, version },
                };
                let done = apply(&change);
                proof {
                    assert(apply.ensures((&change,), done));
                    assert(applied(apply, change@, done));
                }
                true
            },
            _ => false,
        }
    }

    /// Runs the ability at a place, by its kind.
    pub fn run_ability<
        S: BtnSubmitSource,
        P: Fn(&String) -> Option<PowCaptchaData> + Copy,
        C: Fn(&String) -> Result<BtnConfigResponse, String> + Copy,
        V: Fn(&String) -> Option<String> + Copy,
        R: Fn(BtnAbilityKind) -> Option<String> + Copy,
        A: Fn(&ModuleChange) -> bool + Copy,
        B: Fn(&BtnBanPing) -> Option<Vec<u8>> + Copy,
        W: Fn(&BtnSwarmPeerPing) -> Option<Vec<u8>> + Copy,
        Y: Fn(&LegacyBtnPeerHistoryPing) -> Option<Vec<u8>> + Copy,
        L: Fn(&LegacyBtnPeerPing) -> Option<Vec<u8>> + Copy,
        D: Fn(&LegacyBtnBanPing) -> Option<Vec<u8>> + Copy,
    >(
        &mut self,
        kind: BtnAbilityKind,
        index: usize,
        hooks: &BtnHooks<P, C, V, R, A, B, W, Y, L, D>,
        source: Option<&S>,
        ips: &Vec<String>,
        under_way: bool,
        now_ms: i64,
    ) -> (outcome: AbilityOutcome)
        requires
            hooks_ready(*hooks),
        ensures
            ability_ran(
                *old(self),
                kind,
                index as int,
                *hooks,
                source,
                ips@,
                under_way,
                now_ms,
                *final(self),
                outcome,
            ),
    {
        match kind {
            BtnAbilityKind::Rules => {
                let revision = hooks.revision;
                let version = revision(kind);
                let updated = self.update_rules(&version, hooks.captcha, hooks.rules, hooks.apply);
                AbilityOutcome::Reported { updated, status: true }
            },
            BtnAbilityKind::IpAllowList => {
                let revision = hooks.revision;
                let version = revision(kind);
                let updated = self.update_ip_list(
                    BtnIpAbility::AllowList,
                    &version,
                    hooks.captcha,
                    hooks.apply,
                );
                AbilityOutcome::Reported { updated, status: true }
            },
            BtnAbilityKind::IpDenyList => {
                let revision = hooks.revision;
                let version = revision(kind);
                let updated = self.update_ip_list(
                    BtnIpAbility::DenyList,
                    &version,
                    hooks.captcha,
                    hooks.apply,
                );
                AbilityOutcome::Reported { updated, status: true }
            },
            BtnAbilityKind::SubmitBans => self.run_submit_bans(
                index,
                source,
                hooks.bans,
                hooks.captcha,
            ),
            BtnAbilityKind::SubmitSwarm => self.run_submit_swarm(
                index,
                source,
                hooks.swarms,
                hooks.captcha,
            ),
            BtnAbilityKind::SubmitHistories => self.run_submit_histories(
                index,
                under_way,
                source,
                hooks.histories,
                hooks.captcha,
            ),
            BtnAbilityKind::LegacySubmitPeers => self.run_legacy_submit_peers(
                index,
                source,
                hooks.peers,
                hooks.captcha,
            ),
            BtnAbilityKind::LegacySubmitBans => self.run_legacy_submit_bans(
                index,
                source,
                hooks.legacy_bans,
                hooks.captcha,
            ),
            BtnAbilityKind::Heartbeat => {
                let status = self.run_heartbeat(index, ips, hooks.captcha, now_ms);
                AbilityOutcome::Reported { updated: false, status }
            },
            BtnAbilityKind::Reconfigure => {
                let (status, changes) = self.run_reconfigure(index, hooks.config, now_ms);
                apply_all(hooks.apply, &changes);
                AbilityOutcome::Reported { updated: false, status }
            },
            BtnAbilityKind::IpQuery | BtnAbilityKind::Other => AbilityOutcome::Reported {
                updated: false,
                status: true,
            },
        }
    }
}

// ---------------------------------------------------------------------- rounds
/// Whether an ability that was due was run and its outcome noted.
pub open spec fn ability_step<
    H: BtnHttpClient,
    M: BtnMetadataStore,
    S: BtnSubmitSource,
    P: Fn(&String) -> Option<PowCaptchaData>,
    C: Fn(&String) -> Result<BtnConfigResponse, String>,
    V: Fn(&String) -> Option<String>,
    R: Fn(BtnAbilityKind) -> Option<String>,
    A: Fn(&ModuleChange) -> bool,
    B: Fn(&BtnBanPing) -> Option<Vec<u8>>,
    W: Fn(&BtnSwarmPeerPing) -> Option<Vec<u8>>,
    Y: Fn(&LegacyBtnPeerHistoryPing) -> Option<Vec<u8>>,
    L: Fn(&LegacyBtnPeerPing) -> Option<Vec<u8>>,
    D: Fn(&LegacyBtnBanPing) -> Option<Vec<u8>>,
>(
    before: BtnNetwork<H, M>,
    index: int,
    kind: BtnAbilityKind,
    interval_ms: i64,
    hooks: BtnHooks<P, C, V, R, A, B, W, Y, L, D>,
    source: Option<&S>,
    ips: Seq<String>,
    under_way: bool,
    now_ms: i64,
    after: BtnNetwork<H, M>,
    said: BtnAbilitySync,
) -> bool {
    exists|mid: BtnNetwork<H, M>, outcome: AbilityOutcome|
        {
            &&& #[trigger] ability_ran(
                before,
                kind,
                index,
                hooks,
                source,
                ips,
                under_way,
                now_ms,
                mid,
                outcome,
            )
            &&& recorded(mid, index, kind, interval_ms, outcome, now_ms, after, said)
        }
}

/// Whether the abilities that were due were run one after the other, which led a client through
/// the given states.
pub open spec fn abilities_ran<
    H: BtnHttpClient,
    M: BtnMetadataStore,
    S: BtnSubmitSource,
    P: Fn(&String) -> Option<PowCaptchaData>,
    C: Fn(&String) -> Result<BtnConfigResponse, String>,
    V: Fn(&String) -> Option<String>,
    R: Fn(BtnAbilityKind) -> Option<String>,
    A: Fn(&ModuleChange) -> bool,
    B: Fn(&BtnBanPing) -> Option<Vec<u8>>,
    W: Fn(&BtnSwarmPeerPing) -> Option<Vec<u8>>,
    Y: Fn(&LegacyBtnPeerHistoryPing) -> Option<Vec<u8>>,
    L: Fn(&LegacyBtnPeerPing) -> Option<Vec<u8>>,
    D: Fn(&LegacyBtnBanPing) -> Option<Vec<u8>>,
>(
    states: Seq<BtnNetwork<H, M>>,
    due: Seq<(int, BtnAbilityKind, i64)>,
    hooks: BtnHooks<P, C, V, R, A, B, W, Y, L, D>,
    source: Option<&S>,
    ips: Seq<String>,
    under_way: bool,
    now_ms: i64,
    report: Seq<BtnAbilitySync>,
) -> bool {
    &&& states.len() == report.len() + 1
    &&& report.len() <= due.len()
    &&& forall|k: int|
        0 <= k < report.len() ==> ability_step(
            states[k],
            due[k].0,
            due[k].1,
            due[k].2,
            hooks,
            source,
            ips,
            under_way,
            now_ms,
            states[k + 1],
            #[trigger] report[k],
        )
}

/// What updating everything may make of a client, up to the release of allowed addresses: the rules,
/// the list of allowed addresses and that of banned ones are updated in turn. `updated` tells
/// whether any of them changed.
pub open spec fn everything_updated<
    H: BtnHttpClient,
    M: BtnMetadataStore,
    P: Fn(&String) -> Option<PowCaptchaData>,
    C: Fn(&String) -> Result<BtnConfigResponse, String>,
    V: Fn(&String) -> Option<String>,
    R: Fn(BtnAbilityKind) -> Option<String>,
    A: Fn(&ModuleChange) -> bool,
    B: Fn(&BtnBanPing) -> Option<Vec<u8>>,
    W: Fn(&BtnSwarmPeerPing) -> Option<Vec<u8>>,
    Y: Fn(&LegacyBtnPeerHistoryPing) -> Option<Vec<u8>>,
    L: Fn(&LegacyBtnPeerPing) -> Option<Vec<u8>>,
    D: Fn(&LegacyBtnBanPing) -> Option<Vec<u8>>,
>(
    before: BtnNetwork<H, M>,
    hooks: BtnHooks<P, C, V, R, A, B, W, Y, L, D>,
    after: BtnNetwork<H, M>,
    updated: bool,
) -> bool {
    exists|
        mid: BtnNetwork<H, M>,
        late: BtnNetwork<H, M>,
        rules: Option<String>,
        allow: Option<String>,
        deny: Option<String>,
        a: bool,
        b: bool,
        c: bool,
    |
        {
            &&& hooks.revision.ensures((BtnAbilityKind::Rules,), rules)
            &&& hooks.revision.ensures((BtnAbilityKind::IpAllowList,), allow)
            &&& hooks.revision.ensures((BtnAbilityKind::IpDenyList,), deny)
            &&& #[trigger] rules_updated(
                before,
                rev_of(rules),
                hooks.captcha,
                hooks.rules,
                hooks.apply,
                mid,
                a,
            )
            &&& #[trigger] list_updated(
                mid,
                BtnIpAbility::AllowList,
                rev_of(allow),
                hooks.captcha,
                hooks.apply,
                late,
                b,
            )
            &&& #[trigger] list_updated(
                late,
                BtnIpAbility::DenyList,
                rev_of(deny),
                hooks.captcha,
                hooks.apply,
                after,
                c,
            )
            &&& updated == (a || b || c)
        }
}

impl<H: BtnHttpClient, M: BtnMetadataStore> BtnNetwork<H, M> {
    /// Updates the rules and both lists of addresses: whether any of them changed. Afterwards
    /// allowed addresses are to be released from their bans where their list changed. A client that
    /// is switched off does nothing.
    pub fn sync<
        P: Fn(&String) -> Option<PowCaptchaData> + Copy,
        C: Fn(&String) -> Result<BtnConfigResponse, String> + Copy,
        V: Fn(&String) -> Option<String> + Copy,
        R: Fn(BtnAbilityKind) -> Option<String> + Copy,
        A: Fn(&ModuleChange) -> bool + Copy,
        B: Fn(&BtnBanPing) -> Option<Vec<u8>> + Copy,
        W: Fn(&BtnSwarmPeerPing) -> Option<Vec<u8>> + Copy,
        Y: Fn(&LegacyBtnPeerHistoryPing) -> Option<Vec<u8>> + Copy,
        L: Fn(&LegacyBtnPeerPing) -> Option<Vec<u8>> + Copy,
        D: Fn(&LegacyBtnBanPing) -> Option<Vec<u8>> + Copy,
    >(&mut self, hooks: &BtnHooks<P, C, V, R, A, B, W, Y, L, D>) -> (updated: bool)
        requires
            hooks_ready(*hooks),
        ensures
            !old(self).config.active() ==> !updated && *final(self) == *old(self),
            old(self).config.active() ==> exists|first: BtnNetwork<H, M>, last: BtnNetwork<H, M>|
                {
                    &&& first == (BtnNetwork { allowlist_changed: false, ..*old(self) })
                    &&& #[trigger] everything_updated(first, *hooks, last, updated)
                    &&& *final(self) == (BtnNetwork { allowlist_changed: false, ..last })
                    &&& last.allowlist_changed ==> handed_on(hooks.apply, ChangeView::Unban)
                },
    {
        if !self.begin_sync() {
            return false;
        }
        let ghost first = *self;
        let revision = hooks.revision;
        let rules = revision(BtnAbilityKind::Rules);
        let a = self.update_rules(&rules, hooks.captcha, hooks.rules, hooks.apply);
        let ghost mid = *self;
        let allow = revision(BtnAbilityKind::IpAllowList);
        let b = self.update_ip_list(BtnIpAbility::AllowList, &allow, hooks.captcha, hooks.apply);
        let ghost late = *self;
        let deny = revision(BtnAbilityKind::IpDenyList);
        let c = self.update_ip_list(BtnIpAbility::DenyList, &deny, hooks.captcha, hooks.apply);
        let ghost last = *self;
        let updated = a || b || c;
        proof {
            assert(rules_updated(
                first,
                rev_of(rules),
                hooks.captcha,
                hooks.rules,
                hooks.apply,
                mid,
                a,
            ));
            assert(list_updated(
                mid,
                BtnIpAbility::AllowList,
                rev_of(allow),
                hooks.captcha,
                hooks.apply,
                late,
                b,
            ));
            assert(list_updated(
                late,
                BtnIpAbility::DenyList,
                rev_of(deny),
                hooks.captcha,
                hooks.apply,
                last,
                c,
            ));
            assert(everything_updated(first, *hooks, last, updated));
        }
        self.release_allowed(hooks.apply);
        updated
    }

    /// Has allowed addresses released from their bans where their list changed.
    fn release_allowed<A: Fn(&ModuleChange) -> bool>(&mut self, apply: A)
        requires
            forall|change: &ModuleChange| apply.requires((change,)),
        ensures
            *final(self) == (BtnNetwork { allowlist_changed: false, ..*old(self) }),
            old(self).allowlist_changed ==> handed_on(apply, ChangeView::Unban),
    {
        if self.take_allowlist_change() {
            let change = ModuleChange::Unban;
            let done = apply(&change);
            proof {
                assert(apply.ensures((&change,), done));
                assert(applied(apply, change@, done));
            }
        }
    }

    /// Runs the abilities that are due, in their order, and tells what became of each. Afterwards
    /// allowed addresses are to be released from their bans where their list changed. A client that
    /// is switched off does nothing.
    pub fn sync_due<
        S: BtnSubmitSource,
        P: Fn(&String) -> Option<PowCaptchaData> + Copy,
        C: Fn(&String) -> Result<BtnConfigResponse, String> + Copy,
        V: Fn(&String) -> Option<String> + Copy,
        R: Fn(BtnAbilityKind) -> Option<String> + Copy,
        A: Fn(&ModuleChange) -> bool + Copy,
        B: Fn(&BtnBanPing) -> Option<Vec<u8>> + Copy,
        W: Fn(&BtnSwarmPeerPing) -> Option<Vec<u8>> + Copy,
        Y: Fn(&LegacyBtnPeerHistoryPing) -> Option<Vec<u8>> + Copy,
        L: Fn(&LegacyBtnPeerPing) -> Option<Vec<u8>> + Copy,
        D: Fn(&LegacyBtnBanPing) -> Option<Vec<u8>> + Copy,
    >(
        &mut self,
        hooks: &BtnHooks<P, C, V, R, A, B, W, Y, L, D>,
        source: Option<&S>,
        ips: &Vec<String>,
        under_way: bool,
        now_ms: i64,
    ) -> (report: Vec<BtnAbilitySync>)
        requires
            hooks_ready(*hooks),
        ensures
            !old(self).config.active() ==> report@.len() == 0 && *final(self) == *old(self),
            old(self).config.active() ==> {
                let due = due_abilities_of(old(self).abilities@, now_ms);
                &&& report@.len() == due.len()
                &&& exists|states: Seq<BtnNetwork<H, M>>|
                    {
                        &&& #[trigger] abilities_ran(
                            states,
                            due,
                            *hooks,
                            source,
                            ips@,
                            under_way,
                            now_ms,
                            report@,
                        )
                        &&& states[0] == (BtnNetwork { allowlist_changed: false, ..*old(self) })
                        &&& *final(self) == (BtnNetwork {
                            allowlist_changed: false,
                            ..states.last()
                        })
                        &&& states.last().allowlist_changed ==> handed_on(
                            hooks.apply,
                            ChangeView::Unban,
                        )
                    }
            },
    {
        let due = self.due_abilities(now_ms);
        let mut report: Vec<BtnAbilitySync> = Vec::new();
        if !self.config.is_active() {
            return report;
        }
        let ghost first = *self;
        let ghost views = due_views(due@);
        let ghost mut states: Seq<BtnNetwork<H, M>> = seq![*self];
        let mut i: usize = 0;
        while i < due.len()
            invariant
                hooks_ready(*hooks),
                i <= due.len(),
                report@.len() == i,
                views == due_views(due@),
                states.last() == *self,
                states[0] == first,
                abilities_ran(
                    states,
                    views,
                    *hooks,
                    source,
                    ips@,
                    under_way,
                    now_ms,
                    report@,
                ),
            decreases due.len() - i,
        {
            let one: DueAbility = due[i];
            let ghost before = *self;
            let outcome = self.run_ability(
                one.kind,
                one.index,
                hooks,
                source,
                ips,
                under_way,
                now_ms,
            );
            let ghost mid = *self;
            let said = self.record_outcome(one, outcome, now_ms);
            let ghost said_ = said;
            let ghost old_report = report@;
            report.push(said);
            proof {
                assert(views[i as int] == (one.index as int, one.kind, one.interval_ms));
                assert(ability_ran(
                    before,
                    one.kind,
                    one.index as int,
                    *hooks,
                    source,
                    ips@,
                    under_way,
                    now_ms,
                    mid,
                    outcome,
                ));
                assert(recorded(
                    mid,
                    one.index as int,
                    one.kind,
                    one.interval_ms,
                    outcome,
                    now_ms,
                    *self,
                    said_,
                ));
                assert(ability_step(
                    before,
                    one.index as int,
                    one.kind,
                    one.interval_ms,
                    *hooks,
                    source,
                    ips@,
                    under_way,
                    now_ms,
                    *self,
                    said_,
                ));
                let old_states = states;
                states = states.push(*self);
                assert forall|k: int| 0 <= k < report@.len() implies ability_step(
                    states[k],
                    views[k].0,
                    views[k].1,
                    views[k].2,
                    *hooks,
                    source,
                    ips@,
                    under_way,
                    now_ms,
                    states[k + 1],
                    #[trigger] report@[k],
                ) by {
                    if k < i {
                        assert(old_report[k] == report@[k]);
                        assert(old_states[k] == states[k]);
                        assert(old_states[k + 1] == states[k + 1]);
                    }
                }
            }
            i += 1;
        }
        self.release_allowed(hooks.apply);
        report
    }
}

/// Rules and lists that were taken from the server are those that are loaded at the next
/// handshake.
pub proof fn kept_rules_are_loaded_again(
    data: Map<Seq<char>, Seq<char>>,
    list: BtnIpAbility,
    text: Seq<char>,
    version: Seq<char>,
)
    ensures
        cached_change(BtnAbilityKind::Rules, data.insert(CACHE_KEY_RULES@, text)) == Some(
            ChangeView::Ruleset(text),
        ),
        cached_change(list_kind(list), with_list(data, list, text, version)) == Some(
            list_change(list, text, version),
        ),
{
    reveal_strlit("btn.ability.ip_allowlist.cache.version");
    reveal_strlit("btn.ability.ip_allowlist.cache.value");
    reveal_strlit("btn.ability.ip_denylist.cache.version");
    reveal_strlit("btn.ability.ip_denylist.cache.value");
    assert(CACHE_KEY_IP_ALLOWLIST_VERSION@.len() == 38);
    assert(CACHE_KEY_IP_ALLOWLIST_VALUE@.len() == 36);
    assert(CACHE_KEY_IP_DENYLIST_VERSION@.len() == 37);
    assert(CACHE_KEY_IP_DENYLIST_VALUE@.len() == 35);
}

/// Hands on changes, in their order.
pub fn apply_all<A: Fn(&ModuleChange) -> bool>(apply: A, changes: &Vec<ModuleChange>)
    requires
        forall|change: &ModuleChange| apply.requires((change,)),
    ensures
        all_applied(apply, change_views(changes@)),
{
    let mut i: usize = 0;
    while i < changes.len()
        invariant
            i <= changes.len(),
            forall|change: &ModuleChange| apply.requires((change,)),
            forall|k: int| 0 <= k < i ==> handed_on(apply, #[trigger] change_views(changes@)[k]),
        decreases changes.len() - i,
    {
        let done = apply(&changes[i]);
        proof {
            assert(apply.ensures((&changes@[i as int],), done));
            assert(applied(apply, change_views(changes@)[i as int], done));
        }
        i += 1;
    }
}

/// A list is handed on as a change of its own kind, and asks from its known revision on or from the
/// first.
pub proof fn lists_change_their_own_kind(text: Seq<char>, version: Seq<char>, rev: String)
    ensures
        list_change(BtnIpAbility::AllowList, text, version) == ChangeView::AllowList(text, version),
        list_change(BtnIpAbility::DenyList, text, version) == ChangeView::DenyList(text, version),
        rev_of(Some(rev)) == rev@,
        rev_of(None) == "initial"@,
{
}

/// Rules that were fetched are handed on, and count as new where they were taken over; without any
/// there is nothing new.
pub proof fn fetched_rules_are_handed_on<
    H: BtnHttpClient,
    M: BtnMetadataStore,
    P: Fn(&String) -> Option<PowCaptchaData>,
    V: Fn(&String) -> Option<String>,
    A: Fn(&ModuleChange) -> bool,
>(
    before: BtnNetwork<H, M>,
    rev: Seq<char>,
    parse: P,
    check: V,
    apply: A,
    after: BtnNetwork<H, M>,
    updated: bool,
)
    requires
        rules_updated(before, rev, parse, check, apply, after, updated),
    ensures
        updated ==> exists|text: String| {
            &&& #[trigger] ruleset_fetched(before, rev, parse, check, after, Ok(Some(text)))
            &&& applied(apply, ChangeView::Ruleset(text@), true)
        },
        none_of(before.abilities@, BtnAbilityKind::Rules) ==> !updated,
{
    let r = choose|r: Result<Option<String>, String>|
        {
            &&& #[trigger] ruleset_fetched(before, rev, parse, check, after, r)
            &&& match r {
                Ok(Some(text)) => applied(apply, ChangeView::Ruleset(text@), updated),
                _ => !updated,
            }
        };
    if updated {
        let text = r->Ok_0->0;
        assert(ruleset_fetched(before, rev, parse, check, after, Ok(Some(text))));
    }
}

} // verus!

//! Which abilities of the BTN client are due, what becomes of them, and the pages they report.

use vstd::prelude::*;
use crate::btn_exchange::{
    authorised, beats, configured, exchanged, first_ability, get_view, is_first, list_kind, none_of,
    reads_any, rev_url, update_of, version_of, with_list, body_of, BtnIpAbility,
    content_version, expect_success, expect_update,
};
use crate::btn_json::read_json_text;
use crate::btn_query::IpQueryResult;
use crate::btn_transport::{
    append_url, change_views, json_text_at, query_bytes, url_encode_query, with_param,
    BtnAbility, BtnAbilityKind, BtnAbilitySync, BtnConfigResponse, BtnHttpClient, BtnHttpResponse,
    BtnMetadataStore, BtnNetwork, ChangeView, ModuleChange, PowCaptchaData,
    CACHE_KEY_IP_ALLOWLIST_VALUE, CACHE_KEY_IP_ALLOWLIST_VERSION, CACHE_KEY_IP_DENYLIST_VALUE,
    CACHE_KEY_IP_DENYLIST_VERSION, CACHE_KEY_RULES, INITIAL_REV,
};
use crate::text::str_eq;

verus! {

// ------------------------------------------------------------------------- due
/// An ability that is due: where it stands, its kind and its interval.
#[derive(Clone, Copy, PartialEq, Eq, Structural, Debug)]
pub struct DueAbility {
    pub index: usize,
    pub kind: BtnAbilityKind,
    pub interval_ms: i64,
}

/// What became of an ability that was run.
#[derive(Clone, Copy, PartialEq, Eq, Structural, Debug)]
pub enum AbilityOutcome {
    /// It ran: whether anything changed, and whether it went well.
    Reported { updated: bool, status: bool },
    /// It did not run.
    Skipped,
}

/// Whether an ability is due at some time.
pub open spec fn is_due(ability: BtnAbility, now_ms: i64) -> bool {
    ability.kind.scheduled() && now_ms >= ability.next_due_ms
}

/// The abilities that are due at some time, in order.
pub open spec fn due_abilities_of(abilities: Seq<BtnAbility>, now_ms: i64) -> Seq<
    (int, BtnAbilityKind, i64),
>
    decreases abilities.len(),
{
    if abilities.len() == 0 {
        Seq::empty()
    } else {
        let rest = due_abilities_of(abilities.drop_last(), now_ms);
        if is_due(abilities.last(), now_ms) {
            rest.push(
                (abilities.len() - 1, abilities.last().kind, abilities.last().interval_ms),
            )
        } else {
            rest
        }
    }
}

/// Abilities that are due, as values.
pub open spec fn due_views(v: Seq<DueAbility>) -> Seq<(int, BtnAbilityKind, i64)> {
    Seq::new(v.len(), |i: int| (v[i].index as int, v[i].kind, v[i].interval_ms))
}

/// An ability with the status of a run.
pub open spec fn with_status(ability: BtnAbility, status: bool, now_ms: i64) -> BtnAbility {
    BtnAbility { last_status: status, last_status_at_ms: now_ms, ..ability }
}

/// Whether the ability at a place got the status of a run, where there is one.
pub open spec fn status_set<H, M>(
    before: BtnNetwork<H, M>,
    index: int,
    status: bool,
    now_ms: i64,
    after: BtnNetwork<H, M>,
) -> bool {
    &&& after == (BtnNetwork { abilities: after.abilities, ..before })
    &&& after.abilities@ == (if 0 <= index < before.abilities@.len() {
        before.abilities@.update(index, with_status(before.abilities@[index], status, now_ms))
    } else {
        before.abilities@
    })
}

/// An ability after a run: its status, unless it was skipped, and when it is due again.
pub open spec fn after_run(
    ability: BtnAbility,
    outcome: AbilityOutcome,
    interval_ms: i64,
    now_ms: i64,
) -> BtnAbility {
    let next = BtnAbility { next_due_ms: now_ms.wrapping_add(interval_ms), ..ability };
    match outcome {
        AbilityOutcome::Reported { updated, status } => with_status(next, status, now_ms),
        AbilityOutcome::Skipped => next,
    }
}

/// What noting the outcome of an ability makes of a client, and what is said of it. Of an ability
/// that is gone only that is said.
pub open spec fn recorded<H, M>(
    before: BtnNetwork<H, M>,
    index: int,
    kind: BtnAbilityKind,
    interval_ms: i64,
    outcome: AbilityOutcome,
    now_ms: i64,
    after: BtnNetwork<H, M>,
    said: BtnAbilitySync,
) -> bool {
    &&& after == (BtnNetwork { abilities: after.abilities, ..before })
    &&& after.abilities@ == if index < before.abilities@.len() {
        before.abilities@.update(
            index,
            after_run(before.abilities@[index], outcome, interval_ms, now_ms),
        )
    } else {
        before.abilities@
    }
    &&& said.key@ == kind.key_text()
    &&& said.kind == kind
    &&& said.updated == (outcome matches AbilityOutcome::Reported { updated, status } && updated)
    &&& said.last_status == (index < before.abilities@.len()
        ==> after.abilities@[index].last_status)
}

impl<H: BtnHttpClient, M: BtnMetadataStore> BtnNetwork<H, M> {
    /// Starts a round of updates: whether the client is switched on.
    pub fn begin_sync(&mut self) -> (active: bool)
        ensures
            active == old(self).config.active(),
            *final(self) == (BtnNetwork {
                allowlist_changed: old(self).allowlist_changed && !active,
                ..*old(self)
            }),
    {
        if !self.config.is_active() {
            return false;
        }
        self.allowlist_changed = false;
        true
    }

    /// Starts a round at some time: the abilities that are due. A client that is switched off has
    /// none.
    pub fn due_abilities(&mut self, now_ms: i64) -> (due: Vec<DueAbility>)
        ensures
            due_views(due@) == (if old(self).config.active() {
                due_abilities_of(old(self).abilities@, now_ms)
            } else {
                Seq::empty()
            }),
            *final(self) == (BtnNetwork {
                allowlist_changed: old(self).allowlist_changed && !old(self).config.active(),
                ..*old(self)
            }),
    {
        let mut due: Vec<DueAbility> = Vec::new();
        assert(due_views(due@) =~= Seq::empty());
        if !self.begin_sync() {
            return due;
        }
        let ghost all = self.abilities@;
        let mut i: usize = 0;
        assert(all.take(0) =~= Seq::empty());
        while i < self.abilities.len()
            invariant
                i <= self.abilities.len(),
                all == self.abilities@,
                due_views(due@) == due_abilities_of(all.take(i as int), now_ms),
            decreases self.abilities.len() - i,
        {
            let ghost before = due_views(due@);
            assert(all.take(i + 1).drop_last() =~= all.take(i as int));
            let kind = self.abilities[i].kind;
            let interval_ms = self.abilities[i].interval_ms;
            if kind.is_scheduled() && now_ms >= self.abilities[i].next_due_ms {
                due.push(DueAbility { index: i, kind, interval_ms });
                assert(due_views(due@) =~= before.push((i as int, kind, interval_ms)));
            }
            i += 1;
        }
        assert(all.take(i as int) =~= all);
        due
    }

    /// Notes what became of an ability that was due.
    pub fn record_outcome(&mut self, due: DueAbility, outcome: AbilityOutcome, now_ms: i64) -> (r:
        BtnAbilitySync)
        ensures
            recorded(
                *old(self),
                due.index as int,
                due.kind,
                due.interval_ms,
                outcome,
                now_ms,
                *final(self),
                r,
            ),
    {
        let updated = match outcome {
            AbilityOutcome::Reported { updated, status } => updated,
            AbilityOutcome::Skipped => false,
        };
        let mut last_status: bool = true;
        if due.index < self.abilities.len() {
            if let AbilityOutcome::Reported { updated, status } = outcome {
                self.set_last_status(due.index, status, now_ms);
            }
            self.abilities[due.index].next_due_ms = now_ms.wrapping_add(due.interval_ms);
            last_status = self.abilities[due.index].last_status;
            assert(self.abilities@ =~= old(self).abilities@.update(
                due.index as int,
                after_run(
                    old(self).abilities@[due.index as int],
                    outcome,
                    due.interval_ms,
                    now_ms,
                ),
            ));
        }
        BtnAbilitySync {
            key: due.kind.json_key().to_string(),
            kind: due.kind,
            updated,
            last_status,
        }
    }

    /// Notes the status of the ability at a place.
    pub fn set_last_status(&mut self, index: usize, status: bool, now_ms: i64)
        ensures
            status_set(*old(self), index as int, status, now_ms, *final(self)),
    {
        if index < self.abilities.len() {
            self.abilities[index].last_status = status;
            self.abilities[index].last_status_at_ms = now_ms;
            assert(self.abilities@ =~= old(self).abilities@.update(
                index as int,
                with_status(old(self).abilities@[index as int], status, now_ms),
            ));
        }
    }

    /// The ability at a place.
    pub fn ability_at(&self, index: usize) -> (r: Option<&BtnAbility>)
        ensures
            match r {
                Some(a) => index < self.abilities@.len() && *a == self.abilities@[index as int],
                None => index >= self.abilities@.len(),
            },
    {
        if index < self.abilities.len() {
            Some(&self.abilities[index])
        } else {
            None
        }
    }
}

/// An ability that was run is not due again before its interval has passed, and is due then.
pub proof fn interval_passes_between_runs(
    ability: BtnAbility,
    outcome: AbilityOutcome,
    now_ms: i64,
    later_ms: i64,
)
    requires
        ability.kind.scheduled(),
        i64::MIN <= now_ms + ability.interval_ms <= i64::MAX,
    ensures
        is_due(after_run(ability, outcome, ability.interval_ms, now_ms), later_ms) == (later_ms
            >= now_ms + ability.interval_ms),
{
}

/// Queries are never due: they are made only on request.
pub proof fn queries_are_never_due(ability: BtnAbility, now_ms: i64)
    requires
        ability.kind == BtnAbilityKind::IpQuery,
    ensures
        !is_due(ability, now_ms),
{
}

/// A run that was skipped leaves the status of the ability as it was.
pub proof fn skipped_run_keeps_the_status(ability: BtnAbility, interval_ms: i64, now_ms: i64)
    ensures
        after_run(ability, AbilityOutcome::Skipped, interval_ms, now_ms).last_status
            == ability.last_status,
        after_run(ability, AbilityOutcome::Skipped, interval_ms, now_ms).last_status_at_ms
            == ability.last_status_at_ms,
{
}

// --------------------------------------------------------------------- updates
/// Whether `r` is what a reply to the request for rules comes to, and `after` what is kept of it:
/// rules that can be read are kept, anything else changes nothing.
pub open spec fn ruleset_taken<V: Fn(&String) -> Option<String>>(
    check: V,
    reply: Result<BtnHttpResponse, String>,
    before: Map<Seq<char>, Seq<char>>,
    after: Map<Seq<char>, Seq<char>>,
    r: Result<Option<String>, String>,
) -> bool {
    exists|update: Result<Option<BtnHttpResponse>, String>| #[trigger]
        update_of(reply, update) && match update {
            Err(e) => r == Err::<Option<String>, String>(e) && after == before,
            Ok(None) => r == Ok::<Option<String>, String>(None) && after == before,
            Ok(Some(response)) => match r {
                Ok(Some(text)) => {
                    &&& text == response.body
                    &&& check.ensures((&response.body,), None::<String>)
                    &&& after == before.insert(CACHE_KEY_RULES@, text@)
                },
                Ok(None) => false,
                Err(e) => check.ensures((&response.body,), Some(e)) && after == before,
            },
        }
}

/// Whether `r` is what a reply to the request for a list of addresses comes to, and `after` what is
/// kept of it.
pub open spec fn list_taken(
    list: BtnIpAbility,
    reply: Result<BtnHttpResponse, String>,
    before: Map<Seq<char>, Seq<char>>,
    after: Map<Seq<char>, Seq<char>>,
    r: Result<Option<(String, String)>, String>,
) -> bool {
    exists|update: Result<Option<BtnHttpResponse>, String>| #[trigger]
        update_of(reply, update) && match update {
            Err(e) => r == Err::<Option<(String, String)>, String>(e) && after == before,
            Ok(None) => r == Ok::<Option<(String, String)>, String>(None) && after == before,
            Ok(Some(response)) => r matches Ok(Some(found)) && {
                let (text, version) = found;
                &&& text == response.body
                &&& version_of(response, version@)
                &&& after == with_list(before, list, text@, version@)
            },
        }
}

/// What a reply to the request for the configuration says about a newer one.
#[derive(Clone, Copy, PartialEq, Eq, Structural, Debug)]
pub enum ReconfigureStep {
    /// The request failed or its reply cannot be read.
    Failed,
    /// There is none, or the server no longer tells.
    Stay,
    /// There is one.
    Renew,
}

/// What a reply to the request for the configuration says about a newer one.
pub open spec fn reconfigure_of(reply: Result<BtnHttpResponse, String>, version: Seq<char>) -> ReconfigureStep {
    match reply {
        Err(_) => ReconfigureStep::Failed,
        Ok(response) => if !response.successful() {
            ReconfigureStep::Failed
        } else {
            match json_text_at(response.body@, "/ability/reconfigure/version"@) {
                None => ReconfigureStep::Failed,
                Some(None) => ReconfigureStep::Stay,
                Some(Some(remote)) => if remote == version {
                    ReconfigureStep::Stay
                } else {
                    ReconfigureStep::Renew
                },
            }
        },
    }
}

/// What a version that the server names, if any, says about a newer configuration.
pub fn compare_versions(remote: &Option<Option<String>>, version: &str) -> (step: ReconfigureStep)
    ensures
        step == (match remote {
            None => ReconfigureStep::Failed,
            Some(None) => ReconfigureStep::Stay,
            Some(Some(remote)) => if remote@ == version@ {
                ReconfigureStep::Stay
            } else {
                ReconfigureStep::Renew
            },
        }),
{
    match remote {
        None => ReconfigureStep::Failed,
        Some(None) => ReconfigureStep::Stay,
        Some(Some(remote)) => if str_eq(remote.as_str(), version) {
            ReconfigureStep::Stay
        } else {
            ReconfigureStep::Renew
        },
    }
}

/// What a reply to the request for the configuration says about a newer one.
pub fn reconfigure_step(reply: &Result<BtnHttpResponse, String>, version: &str) -> (step:
    ReconfigureStep)
    ensures
        step == reconfigure_of(*reply, version@),
{
    match reply {
        Err(_) => ReconfigureStep::Failed,
        Ok(response) => if !response.is_successful() {
            ReconfigureStep::Failed
        } else {
            let remote = read_json_text(response.body.as_str(), "/ability/reconfigure/version");
            compare_versions(&remote, version)
        },
    }
}

/// What a look for a newer configuration may make of a client: where there is one, the handshake is
/// made anew; a failure is noted at the ability.
pub open spec fn reconfigured<
    H: BtnHttpClient,
    M: BtnMetadataStore,
    C: Fn(&String) -> Result<BtnConfigResponse, String>,
>(
    before: BtnNetwork<H, M>,
    index: int,
    parse: C,
    now_ms: i64,
    after: BtnNetwork<H, M>,
    ok: bool,
    changes: Seq<ChangeView>,
) -> bool {
    if !(0 <= index < before.abilities@.len()) {
        !ok && after == before && changes.len() == 0
    } else if before.abilities@[index].reconfigure_version is None {
        ok && after == before && changes.len() == 0
    } else {
        exists|answer: Result<BtnHttpResponse, String>|
            {
                &&& #[trigger] before.http.answers(
                    authorised(before.config, get_view(before.config.config_url@)),
                    answer,
                )
                &&& match reconfigure_of(
                    answer,
                    before.abilities@[index].reconfigure_version->0@,
                ) {
                    ReconfigureStep::Failed => !ok && changes.len() == 0 && status_set(
                        before,
                        index,
                        false,
                        now_ms,
                        after,
                    ),
                    ReconfigureStep::Stay => ok && changes.len() == 0 && after == before,
                    ReconfigureStep::Renew => exists|mid: BtnNetwork<H, M>|
                        {
                            &&& #[trigger] configured(before, parse, now_ms, mid, ok, changes)
                            &&& if ok {
                                after == mid
                            } else {
                                status_set(mid, index, false, now_ms, after)
                            }
                        },
                }
            }
    }
}

/// What asking for the rules since some version may make of a client, and what it gives.
pub open spec fn ruleset_fetched<
    H: BtnHttpClient,
    M: BtnMetadataStore,
    P: Fn(&String) -> Option<PowCaptchaData>,
    V: Fn(&String) -> Option<String>,
>(
    before: BtnNetwork<H, M>,
    rev: Seq<char>,
    parse: P,
    check: V,
    after: BtnNetwork<H, M>,
    r: Result<Option<String>, String>,
) -> bool {
    &&& after == (BtnNetwork { metadata: after.metadata, ..before })
    &&& none_of(before.abilities@, BtnAbilityKind::Rules) ==> r == Ok::<Option<String>, String>(
        None,
    ) && after.metadata == before.metadata
    &&& forall|i: int| #[trigger]
        is_first(before.abilities@, BtnAbilityKind::Rules, i) ==> exists|
            reply: Result<BtnHttpResponse, String>,
        |
            {
                &&& #[trigger] asked(
                    before,
                    parse,
                    before.abilities@[i],
                    BtnAbilityKind::Rules.pow_text(),
                    rev_url(before.abilities@[i].endpoint@, rev),
                    reply,
                )
                &&& ruleset_taken(check, reply, before.metadata.data(), after.metadata.data(), r)
            }
}

/// What asking for a list of addresses since some version may make of a client, and what it gives.
pub open spec fn list_fetched<
    H: BtnHttpClient,
    M: BtnMetadataStore,
    P: Fn(&String) -> Option<PowCaptchaData>,
>(
    before: BtnNetwork<H, M>,
    list: BtnIpAbility,
    rev: Seq<char>,
    parse: P,
    after: BtnNetwork<H, M>,
    r: Result<Option<(String, String)>, String>,
) -> bool {
    &&& after == (BtnNetwork {
        metadata: after.metadata,
        allowlist_changed: before.allowlist_changed || (list == BtnIpAbility::AllowList
            && r matches Ok(Some(_))),
        ..before
    })
    &&& none_of(before.abilities@, list_kind(list)) ==> r == Ok::<
        Option<(String, String)>,
        String,
    >(None) && after.metadata == before.metadata
    &&& forall|i: int| #[trigger]
        is_first(before.abilities@, list_kind(list), i) ==> exists|
            reply: Result<BtnHttpResponse, String>,
        |
            {
                &&& #[trigger] asked(
                    before,
                    parse,
                    before.abilities@[i],
                    list_kind(list).pow_text(),
                    rev_url(before.abilities@[i].endpoint@, rev),
                    reply,
                )
                &&& list_taken(list, reply, before.metadata.data(), after.metadata.data(), r)
            }
}

/// What the heartbeats of the ability at a place may make of a client.
pub open spec fn heartbeats_sent<
    H: BtnHttpClient,
    M: BtnMetadataStore,
    P: Fn(&String) -> Option<PowCaptchaData>,
>(
    before: BtnNetwork<H, M>,
    index: int,
    ips: Seq<String>,
    parse: P,
    now_ms: i64,
    after: BtnNetwork<H, M>,
    ok: bool,
) -> bool {
    if index >= before.abilities@.len() || (before.abilities@[index].multi_if && ips.len() == 0) {
        !ok && after == before
    } else {
        &&& status_set(before, index, ok, now_ms, after)
        &&& if before.abilities@[index].multi_if {
            exists|oks: Seq<bool>|
                {
                    &&& oks.len() == ips.len()
                    &&& ok == oks.contains(true)
                    &&& forall|i: int|
                        0 <= i < ips.len() ==> beats(
                            before,
                            parse,
                            before.abilities@[index],
                            ips[i]@,
                            #[trigger] oks[i],
                        )
                }
        } else {
            beats(before, parse, before.abilities@[index], "default"@, ok)
        }
    }
}

/// Whether a reply may come to the request of an ability for a document.
pub open spec fn asked<H: BtnHttpClient, M, P: Fn(&String) -> Option<PowCaptchaData>>(
    n: BtnNetwork<H, M>,
    parse: P,
    ability: BtnAbility,
    pow_type: Seq<char>,
    url: Seq<char>,
    reply: Result<BtnHttpResponse, String>,
) -> bool {
    exchanged(n, parse, ability.pow_captcha, pow_type, authorised(n.config, get_view(url)), reply)
}

impl<H: BtnHttpClient, M: BtnMetadataStore> BtnNetwork<H, M> {
    /// Asks for the rules since some version: `None` if they did not change or there is no such
    /// ability. Rules of which the check does not complain are kept.
    pub fn fetch_ruleset<
        P: Fn(&String) -> Option<PowCaptchaData>,
        V: Fn(&String) -> Option<String>,
    >(&mut self, rev: &str, parse: P, check: V) -> (r: Result<Option<String>, String>)
        requires
            reads_any(parse),
            reads_any(check),
        ensures
            ruleset_fetched(*old(self), rev@, parse, check, *final(self), r),
    {
        let index = match first_ability(&self.abilities, BtnAbilityKind::Rules) {
            Some(index) => index,
            None => return Ok(None),
        };
        assert(is_first(self.abilities@, BtnAbilityKind::Rules, index as int));
        let ghost start = *self;
        let ability = &self.abilities[index];
        let url = crate::btn_codec::append_param(ability.endpoint.as_str(), "rev", rev);
        let request = self.request(url.as_str());
        let reply = self.exchange(request, ability.pow_captcha, ability.kind.pow_type(), parse);
        let ghost reply_ = reply;
        let update = expect_update(reply);
        let ghost update_ = update;
        assert(update_of(reply_, update_));
        let r = match update {
            Err(e) => Err(e),
            Ok(None) => Ok(None),
            Ok(Some(response)) => match check(&response.body) {
                None => {
                    self.metadata.set(CACHE_KEY_RULES, response.body.as_str());
                    Ok(Some(response.body))
                },
                Some(e) => Err(e),
            },
        };
        proof {
            assert(asked(
                start,
                parse,
                start.abilities@[index as int],
                BtnAbilityKind::Rules.pow_text(),
                rev_url(start.abilities@[index as int].endpoint@, rev@),
                reply_,
            ));
            assert(ruleset_taken(check, reply_, start.metadata.data(), self.metadata.data(), r));
            assert forall|i: int| #[trigger]
                is_first(start.abilities@, BtnAbilityKind::Rules, i) implies i == index by {
                if i < index {
                    assert(start.abilities@[i].kind != BtnAbilityKind::Rules);
                } else if index < i {
                    assert(start.abilities@[index as int].kind != BtnAbilityKind::Rules);
                }
            }
        }
        r
    }

    /// Asks for a list of addresses since some version: the list with its version, which are kept,
    /// or `None` if it did not change or there is no such ability.
    pub fn fetch_ip_list<P: Fn(&String) -> Option<PowCaptchaData>>(
        &mut self,
        list: BtnIpAbility,
        rev: &str,
        parse: P,
    ) -> (r: Result<Option<(String, String)>, String>)
        requires
            reads_any(parse),
        ensures
            list_fetched(*old(self), list, rev@, parse, *final(self), r),
    {
        let kind = match list {
            BtnIpAbility::AllowList => BtnAbilityKind::IpAllowList,
            BtnIpAbility::DenyList => BtnAbilityKind::IpDenyList,
        };
        let index = match first_ability(&self.abilities, kind) {
            Some(index) => index,
            None => return Ok(None),
        };
        assert(is_first(self.abilities@, list_kind(list), index as int));
        let ghost start = *self;
        let ability = &self.abilities[index];
        let url = crate::btn_codec::append_param(ability.endpoint.as_str(), "rev", rev);
        let request = self.request(url.as_str());
        let reply = self.exchange(request, ability.pow_captcha, kind.pow_type(), parse);
        let ghost reply_ = reply;
        let update = expect_update(reply);
        let ghost update_ = update;
        assert(update_of(reply_, update_));
        let r = match update {
            Err(e) => Err(e),
            Ok(None) => Ok(None),
            Ok(Some(response)) => {
                let version = content_version(&response);
                match list {
                    BtnIpAbility::AllowList => {
                        self.metadata.set(CACHE_KEY_IP_ALLOWLIST_VERSION, version.as_str());
                        self.metadata.set(CACHE_KEY_IP_ALLOWLIST_VALUE, response.body.as_str());
                        self.allowlist_changed = true;
                    },
                    BtnIpAbility::DenyList => {
                        self.metadata.set(CACHE_KEY_IP_DENYLIST_VERSION, version.as_str());
                        self.metadata.set(CACHE_KEY_IP_DENYLIST_VALUE, response.body.as_str());
                    },
                }
                Ok(Some((response.body, version)))
            },
        };
        proof {
            assert(asked(
                start,
                parse,
                start.abilities@[index as int],
                list_kind(list).pow_text(),
                rev_url(start.abilities@[index as int].endpoint@, rev@),
                reply_,
            ));
            assert(list_taken(list, reply_, start.metadata.data(), self.metadata.data(), r));
            assert forall|i: int| #[trigger]
                is_first(start.abilities@, list_kind(list), i) implies i == index by {
                if i < index {
                    assert(start.abilities@[i].kind != list_kind(list));
                } else if index < i {
                    assert(start.abilities@[index as int].kind != list_kind(list));
                }
            }
        }
        r
    }

    /// Asks what the server knows of an address: `None` if there is no such ability.
    pub fn query_ip<
        P: Fn(&String) -> Option<PowCaptchaData>,
        Q: Fn(&String) -> Result<IpQueryResult, String>,
    >(&self, address: &str, parse: P, read: Q) -> (r: Result<Option<IpQueryResult>, String>)
        requires
            reads_any(parse),
            reads_any(read),
        ensures
            none_of(self.abilities@, BtnAbilityKind::IpQuery) ==> r == Ok::<
                Option<IpQueryResult>,
                String,
            >(None),
            forall|i: int| #[trigger]
                is_first(self.abilities@, BtnAbilityKind::IpQuery, i) ==> exists|
                    reply: Result<BtnHttpResponse, String>,
                |
                    {
                        &&& #[trigger] asked(
                            *self,
                            parse,
                            self.abilities@[i],
                            "ip_query"@,
                            with_param(
                                self.abilities@[i].endpoint@,
                                "ip"@,
                                query_bytes(vstd::utf8::encode_utf8(address@)),
                            ),
                            reply,
                        )
                        &&& query_answer(read, reply, r)
                    },
    {
        let index = match first_ability(&self.abilities, BtnAbilityKind::IpQuery) {
            Some(index) => index,
            None => return Ok(None),
        };
        let ability = &self.abilities[index];
        let encoded = url_encode_query(address);
        let url = append_url(ability.endpoint.as_str(), &[("ip", encoded.as_str())]);
        proof {
            reveal_with_fuel(crate::btn_codec::with_params, 2);
        }
        let request = self.request(url.as_str());
        let reply = self.exchange(request, ability.pow_captcha, "ip_query", parse);
        let ghost reply_ = reply;
        let body = expect_success(reply);
        let ghost body_ = body;
        assert(body_of(reply_, body_));
        let r = match body {
            Err(e) => Err(e),
            Ok(response) => match read(&response.body) {
                Ok(found) => Ok(Some(found)),
                Err(e) => Err(e),
            },
        };
        proof {
            assert(asked(
                *self,
                parse,
                *ability,
                "ip_query"@,
                with_param(
                    ability.endpoint@,
                    "ip"@,
                    query_bytes(vstd::utf8::encode_utf8(address@)),
                ),
                reply_,
            ));
            assert(query_answer(read, reply_, r));
            assert forall|i: int| #[trigger]
                is_first(self.abilities@, BtnAbilityKind::IpQuery, i) implies i == index by {
                if i < index {
                    assert(self.abilities@[i].kind != BtnAbilityKind::IpQuery);
                } else if index < i {
                    assert(self.abilities@[index as int].kind != BtnAbilityKind::IpQuery);
                }
            }
        }
        r
    }

    /// Sends the heartbeats of the ability at a place: one for each interface address where it asks
    /// for that, or one for the default interface. One success is enough. Without any address
    /// nothing is sent.
    pub fn run_heartbeat<P: Fn(&String) -> Option<PowCaptchaData> + Copy>(
        &mut self,
        index: usize,
        ips: &Vec<String>,
        parse: P,
        now_ms: i64,
    ) -> (ok: bool)
        requires
            reads_any(parse),
        ensures
            heartbeats_sent(*old(self), index as int, ips@, parse, now_ms, *final(self), ok),
    {
        if index >= self.abilities.len() {
            return false;
        }
        let ability = &self.abilities[index];
        let ok = if ability.multi_if {
            if ips.len() == 0 {
                return false;
            }
            let mut any = false;
            let ghost mut oks: Seq<bool> = Seq::empty();
            let mut i: usize = 0;
            while i < ips.len()
                invariant
                    i <= ips.len(),
                    reads_any(parse),
                    oks.len() == i,
                    any == oks.contains(true),
                    forall|k: int|
                        0 <= k < i ==> beats(*self, parse, *ability, ips@[k]@, #[trigger] oks[k]),
                decreases ips.len() - i,
            {
                let one = self.send_heartbeat(ability, ips[i].as_str(), parse);
                let ghost before = oks;
                proof {
                    oks = oks.push(one);
                    assert(oks[i as int] == one);
                    if before.contains(true) {
                        let k = choose|k: int| 0 <= k < before.len() && before[k] == true;
                        assert(oks[k] == true);
                    }
                    if oks.contains(true) && !one {
                        let k = choose|k: int| 0 <= k < oks.len() && oks[k] == true;
                        assert(before[k] == true);
                    }
                }
                if one {
                    any = true;
                }
                i += 1;
            }
            any
        } else {
            self.send_heartbeat(ability, "default", parse)
        };
        self.set_last_status(index, ok, now_ms);
        ok
    }

    /// Looks for a newer configuration and takes it over: whether that went well, and the changes
    /// it calls for.
    pub fn run_reconfigure<C: Fn(&String) -> Result<BtnConfigResponse, String>>(
        &mut self,
        index: usize,
        parse: C,
        now_ms: i64,
    ) -> (r: (bool, Vec<ModuleChange>))
        requires
            reads_any(parse),
        ensures
            reconfigured(
                *old(self),
                index as int,
                parse,
                now_ms,
                *final(self),
                r.0,
                change_views(r.1@),
            ),
    {
        if index >= self.abilities.len() {
            return (false, Vec::new());
        }
        let step = match &self.abilities[index].reconfigure_version {
            None => return (true, Vec::new()),
            Some(version) => {
                let request = self.request(self.config.config_url.as_str());
                let reply = self.http.execute(request);
                reconfigure_step(&reply, version.as_str())
            },
        };
        match step {
            ReconfigureStep::Failed => {
                self.set_last_status(index, false, now_ms);
                (false, Vec::new())
            },
            ReconfigureStep::Stay => (true, Vec::new()),
            ReconfigureStep::Renew => {
                let (ok, changes) = self.config_btn_network_at(parse, now_ms);
                if !ok {
                    self.set_last_status(index, false, now_ms);
                }
                (ok, changes)
            },
        }
    }
}

/// Whether `r` is what a reply to a query comes to.
pub open spec fn query_answer<Q: Fn(&String) -> Result<IpQueryResult, String>>(
    read: Q,
    reply: Result<BtnHttpResponse, String>,
    r: Result<Option<IpQueryResult>, String>,
) -> bool {
    exists|body: Result<BtnHttpResponse, String>| #[trigger]
        body_of(reply, body) && match body {
            Err(e) => r == Err::<Option<IpQueryResult>, String>(e),
            Ok(response) => match r {
                Ok(Some(found)) => read.ensures(
                    (&response.body,),
                    Ok::<IpQueryResult, String>(found),
                ),
                Ok(None) => false,
                Err(e) => read.ensures((&response.body,), Err::<IpQueryResult, String>(e)),
            },
        }
}

/// The version to name when rules are asked for: that of the rules in force, or that of none.
pub fn ruleset_rev(version: &Option<String>) -> (rev: String)
    ensures
        rev@ == (match version {
            Some(v) => v@,
            None => INITIAL_REV@,
        }),
{
    match version {
        Some(v) => v.clone(),
        None => INITIAL_REV.to_string(),
    }
}

// ------------------------------------------------------------------ laws of the schedule
/// Abilities are due in their order, each once its time has come; queries never are.
pub proof fn abilities_are_due_in_order(abilities: Seq<BtnAbility>, a: BtnAbility, now_ms: i64)
    ensures
        a.kind.scheduled() && now_ms >= a.next_due_ms ==> due_abilities_of(
            abilities.push(a),
            now_ms,
        ) == due_abilities_of(abilities, now_ms).push(
            (abilities.len() as int, a.kind, a.interval_ms),
        ),
        !a.kind.scheduled() || now_ms < a.next_due_ms ==> due_abilities_of(
            abilities.push(a),
            now_ms,
        ) == due_abilities_of(abilities, now_ms),
{
    assert(abilities.push(a).drop_last() =~= abilities);
}

/// A run puts the next one off by the interval; the status and its time are those of the run, or
/// stay where it was skipped, and nothing else of the ability changes.
pub proof fn runs_put_off_the_next(
    ability: BtnAbility,
    updated: bool,
    status: bool,
    interval_ms: i64,
    now_ms: i64,
)
    requires
        0 <= now_ms,
        0 <= interval_ms,
        now_ms + interval_ms <= i64::MAX,
    ensures
        ({
            let a = after_run(
                ability,
                AbilityOutcome::Reported { updated, status },
                interval_ms,
                now_ms,
            );
            let b = after_run(ability, AbilityOutcome::Skipped, interval_ms, now_ms);
            &&& a.next_due_ms - now_ms == interval_ms && b.next_due_ms - now_ms == interval_ms
            &&& a.last_status == status && a.last_status_at_ms == now_ms
            &&& b.last_status == ability.last_status && b.last_status_at_ms
                == ability.last_status_at_ms
            &&& a.kind == ability.kind && a.key == ability.key && a.endpoint == ability.endpoint
                && a.interval_ms == ability.interval_ms
        }),
{
}

/// A client is set up anew exactly where the server tells another version than the known one; it
/// fails where the server does not answer well or sends no document.
pub proof fn other_versions_are_set_up_anew(
    response: BtnHttpResponse,
    e: String,
    version: Seq<char>,
    remote: Seq<char>,
)
    ensures
        200 <= response.status <= 299 && json_text_at(
            response.body@,
            "/ability/reconfigure/version"@,
        ) == Some(Some(remote)) ==> {
            &&& remote != version ==> reconfigure_of(Ok(response), version)
                == ReconfigureStep::Renew
            &&& remote == version ==> reconfigure_of(Ok(response), version) == ReconfigureStep::Stay
        },
        200 <= response.status <= 299 && json_text_at(
            response.body@,
            "/ability/reconfigure/version"@,
        ) == Some(None::<Seq<char>>) ==> reconfigure_of(Ok(response), version)
            == ReconfigureStep::Stay,
        !(200 <= response.status <= 299) ==> reconfigure_of(Ok(response), version)
            == ReconfigureStep::Failed,
        reconfigure_of(Err(e), version) == ReconfigureStep::Failed,
{
}

/// Setting a status changes the status and its time of one ability and nothing else.
pub proof fn statuses_are_set_alone<H, M>(
    before: BtnNetwork<H, M>,
    index: int,
    status: bool,
    now_ms: i64,
    after: BtnNetwork<H, M>,
    other: int,
)
    requires
        0 <= index < before.abilities@.len(),
        0 <= other < before.abilities@.len(),
        other != index,
        status_set(before, index, status, now_ms, after),
    ensures
        after.abilities@.len() == before.abilities@.len(),
        after.abilities@[index].last_status == status,
        after.abilities@[index].last_status_at_ms == now_ms,
        after.abilities@[index].next_due_ms == before.abilities@[index].next_due_ms,
        after.abilities@[index].kind == before.abilities@[index].kind,
        after.abilities@[index].endpoint == before.abilities@[index].endpoint,
        after.abilities@[other] == before.abilities@[other],
        after.metadata == before.metadata,
        after.config == before.config,
        after.config_success == before.config_success,
{
}

/// Fetched rules that are found good are kept and told; a reply 204, a failure and rules that are
/// found bad change nothing.
pub proof fn rules_are_kept_when_good<V: Fn(&String) -> Option<String>>(
    check: V,
    response: BtnHttpResponse,
    before: Map<Seq<char>, Seq<char>>,
    after: Map<Seq<char>, Seq<char>>,
    r: Result<Option<String>, String>,
)
    requires
        ruleset_taken(check, Ok(response), before, after, r),
    ensures
        response.status == 204 ==> r == Ok::<Option<String>, String>(None) && after == before,
        !(200 <= response.status <= 299) ==> r is Err && after == before,
        r is Err ==> after == before,
        r matches Ok(Some(text)) ==> text == response.body && check.ensures(
            (&response.body,),
            None::<String>,
        ) && after == before.insert("btn.ability.rules.cache"@, response.body@),
{
}

/// A fetched list is kept under its own keys with its revision, and told; a reply 204 and a failure
/// change nothing.
pub proof fn lists_are_kept_with_their_revision(
    list: BtnIpAbility,
    response: BtnHttpResponse,
    before: Map<Seq<char>, Seq<char>>,
    after: Map<Seq<char>, Seq<char>>,
    r: Result<Option<(String, String)>, String>,
)
    requires
        list_taken(list, Ok(response), before, after, r),
    ensures
        response.status == 204 ==> r == Ok::<Option<(String, String)>, String>(None) && after
            == before,
        !(200 <= response.status <= 299) ==> r is Err && after == before,
        200 <= response.status <= 299 && response.status != 204 ==> (r matches Ok(Some((text, version)))
            && text == response.body && version_of(response, version@) && after == with_list(
            before,
            list,
            response.body@,
            version@,
        )),
{
}

/// Without a known revision there is nothing to set up anew; an ability that is not there fails.
pub proof fn nothing_is_set_up_without_a_revision<
    H: BtnHttpClient,
    M: BtnMetadataStore,
    C: Fn(&String) -> Result<BtnConfigResponse, String>,
>(
    before: BtnNetwork<H, M>,
    index: int,
    parse: C,
    now_ms: i64,
    after: BtnNetwork<H, M>,
    ok: bool,
    changes: Seq<ChangeView>,
)
    requires
        reconfigured(before, index, parse, now_ms, after, ok, changes),
    ensures
        0 <= index < before.abilities@.len() && before.abilities@[index].reconfigure_version is None
            ==> ok && after == before && changes.len() == 0,
        !(0 <= index < before.abilities@.len()) ==> !ok && after == before && changes.len() == 0,
{
}

/// A heartbeat of all interfaces succeeds where that of one does, and fails without any; the status
/// is set to what came out.
pub proof fn one_heartbeat_is_enough<
    H: BtnHttpClient,
    M: BtnMetadataStore,
    P: Fn(&String) -> Option<PowCaptchaData>,
>(
    before: BtnNetwork<H, M>,
    index: int,
    ips: Seq<String>,
    parse: P,
    now_ms: i64,
    after: BtnNetwork<H, M>,
    ok: bool,
)
    requires
        0 <= index < before.abilities@.len(),
        heartbeats_sent(before, index, ips, parse, now_ms, after, ok),
    ensures
        before.abilities@[index].multi_if && ips.len() == 0 ==> !ok && after == before,
        before.abilities@[index].multi_if && ok ==> exists|i: int|
            0 <= i < ips.len() && beats(
                before,
                parse,
                before.abilities@[index],
                (#[trigger] ips[i])@,
                true,
            ),
        !before.abilities@[index].multi_if ==> beats(
            before,
            parse,
            before.abilities@[index],
            "default"@,
            ok,
        ),
        !(before.abilities@[index].multi_if && ips.len() == 0) ==> after.abilities@[index].last_status
            == ok && after.abilities@[index].last_status_at_ms == now_ms,
{
    if before.abilities@[index].multi_if && ok {
        let oks = choose|oks: Seq<bool>|
            {
                &&& oks.len() == ips.len()
                &&& ok == oks.contains(true)
                &&& forall|i: int|
                    0 <= i < ips.len() ==> beats(
                        before,
                        parse,
                        before.abilities@[index],
                        ips[i]@,
                        #[trigger] oks[i],
                    )
            };
        let k = choose|k: int| 0 <= k < oks.len() && oks[k] == true;
        assert(beats(before, parse, before.abilities@[index], ips[k]@, oks[k]));
    }
}

/// What a run says is its key, its kind, whether it brought something new and how it stands.
pub proof fn runs_say_how_they_went<H, M>(
    before: BtnNetwork<H, M>,
    index: int,
    kind: BtnAbilityKind,
    interval_ms: i64,
    news: bool,
    good: bool,
    now_ms: i64,
    after: BtnNetwork<H, M>,
    said: BtnAbilitySync,
    idle: BtnAbilitySync,
)
    requires
        0 <= index < before.abilities@.len(),
        recorded(
            before,
            index,
            kind,
            interval_ms,
            AbilityOutcome::Reported { updated: news, status: good },
            now_ms,
            after,
            said,
        ),
    ensures
        said.kind == kind,
        said.key@ == kind.key_text(),
        said.updated == news,
        said.last_status == good,
        after.abilities@[index].last_status == good,
        recorded(
            before,
            index,
            kind,
            interval_ms,
            AbilityOutcome::Skipped,
            now_ms,
            after,
            idle,
        ) ==> !idle.updated && idle.last_status == before.abilities@[index].last_status,
{
}

/// A client that was set up anew is as the handshake left it; one for which there was no need is as
/// it was.
pub proof fn setting_up_anew_is_a_handshake<
    H: BtnHttpClient,
    M: BtnMetadataStore,
    C: Fn(&String) -> Result<BtnConfigResponse, String>,
>(
    before: BtnNetwork<H, M>,
    index: int,
    parse: C,
    now_ms: i64,
    after: BtnNetwork<H, M>,
    changes: Seq<ChangeView>,
)
    requires
        reconfigured(before, index, parse, now_ms, after, true, changes),
    ensures
        (after == before && changes.len() == 0) || configured(
            before,
            parse,
            now_ms,
            after,
            true,
            changes,
        ),
{
}

} // verus!

//! Reporting to a BTN server, page by page. What was reported is noted only once the server took
//! it.

use vstd::prelude::*;
use crate::btn_exchange::{exchanged, reads_any, report_view};
use crate::btn_report::{
    bans_since, latest_ban, legacy_ban_page, legacy_peer_page, max_ban_id, next_submit_time,
    reports_ban, reports_history, reports_legacy_ban, reports_legacy_peer, reports_swarm,
    swarm_cursor_text, BanSubmission, BtnBanHistoryRow, BtnBanPing, BtnLegacyBanRow,
    BtnLegacyPeerRow, BtnPeerHistoryRow, BtnSwarmHistoryRow, BtnSwarmPeerPing, HistorySubmission,
    LegacyBtnBanPing, LegacyBtnPeerHistoryPing, LegacyBtnPeerPing, SwarmSubmission, BAN_PAGE_SIZE,
    HISTORY_PAGE_SIZE, METADATA_KEY_BANS_CURSOR, METADATA_KEY_HISTORY_TIMESTAMP,
    METADATA_KEY_SWARM_CURSOR, SWARM_PAGE_SIZE,
};
use crate::btn_schedule::{status_set, AbilityOutcome};
use crate::btn_transport::{
    gzip, BtnAbility, BtnHttpClient, BtnHttpResponse, BtnMetadataStore, BtnNetwork, PowCaptchaData,
};
use crate::text::decimal_int;
use crate::wire::now_millis;

verus! {

/// What became of a page.
#[derive(Clone, Copy, PartialEq, Eq, Structural, Debug)]
pub enum PageStep {
    /// There was nothing to report.
    Empty,
    /// The server took it; there may be another page or not.
    Posted { more: bool },
    /// The server did not take it.
    Failed,
}

/// The body of a report: its text, if it could be written, compressed.
pub open spec fn report_body(json: Option<Vec<u8>>) -> Option<Seq<u8>> {
    match json {
        Some(bytes) => gzip(bytes@),
        None => None,
    }
}

/// Whether the report of bytes by an ability may end so: `ok` says whether the server took them.
/// Without bytes nothing is sent.
pub open spec fn posted<H: BtnHttpClient, M, P: Fn(&String) -> Option<PowCaptchaData>>(
    n: BtnNetwork<H, M>,
    parse: P,
    ability: BtnAbility,
    json: Option<Vec<u8>>,
    ok: bool,
) -> bool {
    match report_body(json) {
        None => !ok,
        Some(body) => exists|reply: Result<BtnHttpResponse, String>|
            {
                &&& #[trigger] exchanged(
                    n,
                    parse,
                    ability.pow_captcha,
                    ability.kind.pow_text(),
                    report_view(n.config, ability.endpoint@, body),
                    reply,
                )
                &&& ok == (reply is Ok && reply->Ok_0.successful())
            },
    }
}

/// Whether a failed report left a client as it was, but for the status of the ability.
pub open spec fn only_failed<H, M>(
    before: BtnNetwork<H, M>,
    index: int,
    after: BtnNetwork<H, M>,
) -> bool {
    exists|clock_ms: i64| #[trigger] status_set(before, index, false, clock_ms, after)
}

/// Two counts together, at most the largest that can be held.
pub open spec fn counted(total: usize, count: nat) -> usize {
    if total + count <= usize::MAX {
        (total + count) as usize
    } else {
        usize::MAX
    }
}

/// Whether bytes may be the JSON text, if it could be written, of bans that report the rows.
pub open spec fn ban_bytes<J: Fn(&BtnBanPing) -> Option<Vec<u8>>>(
    json: J,
    rows: Seq<BtnBanHistoryRow>,
    bytes: Option<Vec<u8>>,
) -> bool {
    exists|ping: BtnBanPing|
        {
            &&& #[trigger] json.ensures((&ping,), bytes)
            &&& ping.bans@.len() == rows.len()
            &&& forall|i: int| 0 <= i < rows.len() ==> reports_ban(#[trigger] ping.bans@[i], rows[i])
        }
}

/// Whether bytes may be the JSON text, if it could be written, of swarms that report the rows.
pub open spec fn swarm_bytes<J: Fn(&BtnSwarmPeerPing) -> Option<Vec<u8>>>(
    json: J,
    rows: Seq<BtnSwarmHistoryRow>,
    bytes: Option<Vec<u8>>,
) -> bool {
    exists|ping: BtnSwarmPeerPing|
        {
            &&& #[trigger] json.ensures((&ping,), bytes)
            &&& ping.swarms@.len() == rows.len()
            &&& forall|i: int|
                0 <= i < rows.len() ==> reports_swarm(#[trigger] ping.swarms@[i], rows[i])
        }
}

/// Whether bytes may be the JSON text, if it could be written, of peers that report the rows at some time.
pub open spec fn history_bytes<J: Fn(&LegacyBtnPeerHistoryPing) -> Option<Vec<u8>>>(
    json: J,
    rows: Seq<BtnPeerHistoryRow>,
    now_ms: i64,
    bytes: Option<Vec<u8>>,
) -> bool {
    exists|ping: LegacyBtnPeerHistoryPing|
        {
            &&& #[trigger] json.ensures((&ping,), bytes)
            &&& ping.populate_time == now_ms
            &&& ping.peers@.len() == rows.len()
            &&& forall|i: int|
                0 <= i < rows.len() ==> reports_history(#[trigger] ping.peers@[i], rows[i])
        }
}

/// Whether bytes may be the JSON text, if it could be written, of connected peers that report the rows at some time.
pub open spec fn legacy_peer_bytes<J: Fn(&LegacyBtnPeerPing) -> Option<Vec<u8>>>(
    json: J,
    rows: Seq<BtnLegacyPeerRow>,
    now_ms: i64,
    bytes: Option<Vec<u8>>,
) -> bool {
    exists|ping: LegacyBtnPeerPing|
        {
            &&& #[trigger] json.ensures((&ping,), bytes)
            &&& ping.populate_time == now_ms
            &&& ping.peers@.len() == rows.len()
            &&& forall|i: int|
                0 <= i < rows.len() ==> reports_legacy_peer(#[trigger] ping.peers@[i], rows[i])
        }
}

/// Whether bytes may be the JSON text, if it could be written, of bans in force that report the rows at some time.
pub open spec fn legacy_ban_bytes<J: Fn(&LegacyBtnBanPing) -> Option<Vec<u8>>>(
    json: J,
    rows: Seq<BtnLegacyBanRow>,
    now_ms: i64,
    bytes: Option<Vec<u8>>,
) -> bool {
    exists|ping: LegacyBtnBanPing|
        {
            &&& #[trigger] json.ensures((&ping,), bytes)
            &&& ping.populate_time == now_ms
            &&& ping.bans@.len() == rows.len()
            &&& forall|i: int|
                0 <= i < rows.len() ==> reports_legacy_ban(#[trigger] ping.bans@[i], rows[i])
        }
}

/// What reporting the connected peers may make of a client: nothing is sent where there are none.
pub open spec fn legacy_peers_reported<
    H: BtnHttpClient,
    M: BtnMetadataStore,
    J: Fn(&LegacyBtnPeerPing) -> Option<Vec<u8>>,
    P: Fn(&String) -> Option<PowCaptchaData>,
>(
    before: BtnNetwork<H, M>,
    index: int,
    rows: Seq<BtnLegacyPeerRow>,
    now_ms: i64,
    json: J,
    parse: P,
    after: BtnNetwork<H, M>,
    outcome: AbilityOutcome,
) -> bool {
    if rows.len() == 0 {
        after == before && outcome == (AbilityOutcome::Reported { updated: false, status: true })
    } else {
        &&& outcome matches AbilityOutcome::Reported { updated, status }
        &&& updated == status
        &&& exists|bytes: Option<Vec<u8>>| #[trigger]
            legacy_peer_bytes(json, rows, now_ms, bytes) && posted(
                before,
                parse,
                before.abilities@[index],
                bytes,
                status,
            )
        &&& if status {
            after == before
        } else {
            only_failed(before, index, after)
        }
    }
}

/// What reporting the bans in force may make of a client: only those that began since the last
/// report are sent, and where there are none, or the server took them, that time moves on.
pub open spec fn legacy_bans_reported<
    H: BtnHttpClient,
    M: BtnMetadataStore,
    J: Fn(&LegacyBtnBanPing) -> Option<Vec<u8>>,
    P: Fn(&String) -> Option<PowCaptchaData>,
>(
    before: BtnNetwork<H, M>,
    index: int,
    rows: Seq<BtnLegacyBanRow>,
    now_ms: i64,
    json: J,
    parse: P,
    after: BtnNetwork<H, M>,
    outcome: AbilityOutcome,
) -> bool {
    let fresh = bans_since(rows, before.legacy_bans_last_report_ms);
    if fresh.len() == 0 {
        &&& outcome == (AbilityOutcome::Reported { updated: false, status: true })
        &&& after == (BtnNetwork { legacy_bans_last_report_ms: now_ms, ..before })
    } else {
        &&& outcome matches AbilityOutcome::Reported { updated, status }
        &&& updated == status
        &&& exists|bytes: Option<Vec<u8>>| #[trigger]
            legacy_ban_bytes(json, fresh, now_ms, bytes) && posted(
                before,
                parse,
                before.abilities@[index],
                bytes,
                status,
            )
        &&& if status {
            after == (BtnNetwork { legacy_bans_last_report_ms: latest_ban(fresh), ..before })
        } else {
            only_failed(before, index, after)
        }
    }
}

impl<H: BtnHttpClient, M: BtnMetadataStore> BtnNetwork<H, M> {
    /// Reports bytes by the ability at a place: whether the server took them. A failure, also that
    /// there are none, is noted at the ability.
    pub fn post_page<P: Fn(&String) -> Option<PowCaptchaData>>(
        &mut self,
        index: usize,
        json: &Option<Vec<u8>>,
        parse: P,
    ) -> (ok: bool)
        requires
            reads_any(parse),
            index < old(self).abilities@.len(),
        ensures
            posted(*old(self), parse, old(self).abilities@[index as int], *json, ok),
            ok ==> *final(self) == *old(self),
            !ok ==> only_failed(*old(self), index as int, *final(self)),
    {
        let ability = &self.abilities[index];
        let ok = match json {
            Some(bytes) => self.post_gzip_report(ability, bytes.as_slice(), parse).is_ok(),
            None => false,
        };
        if !ok {
            let clock_ms = now_millis();
            self.set_last_status(index, false, clock_ms);
        }
        ok
    }

    /// Reports a page of bans. Where the server takes it the cursor moves behind it and is kept.
    pub fn submit_ban_page<
        J: Fn(&BtnBanPing) -> Option<Vec<u8>>,
        P: Fn(&String) -> Option<PowCaptchaData>,
    >(
        &mut self,
        index: usize,
        submission: &mut BanSubmission,
        rows: Vec<BtnBanHistoryRow>,
        json: J,
        parse: P,
    ) -> (step: PageStep)
        requires
            reads_any(parse),
            forall|ping: &BtnBanPing| json.requires((ping,)),
            index < old(self).abilities@.len(),
        ensures
            (step == PageStep::Empty) == (rows@.len() == 0),
            step == PageStep::Empty ==> *final(self) == *old(self) && *final(submission)
                == *old(submission),
            step != PageStep::Empty ==> exists|bytes: Option<Vec<u8>>| #[trigger]
                ban_bytes(json, rows@, bytes) && posted(
                    *old(self),
                    parse,
                    old(self).abilities@[index as int],
                    bytes,
                    step is Posted,
                ),
            step matches PageStep::Posted { more } ==> {
                &&& more == (rows@.len() >= BAN_PAGE_SIZE)
                &&& *final(submission) == (BanSubmission {
                    cursor: max_ban_id(rows@),
                    total: counted(old(submission).total, rows@.len()),
                })
                &&& *final(self) == (BtnNetwork { metadata: final(self).metadata, ..*old(self) })
                &&& final(self).metadata.data() == old(self).metadata.data().insert(
                    METADATA_KEY_BANS_CURSOR@,
                    decimal_int(max_ban_id(rows@) as int),
                )
            },
            step == PageStep::Failed ==> *final(submission) == *old(submission) && only_failed(
                *old(self),
                index as int,
                *final(self),
            ),
    {
        let page = match BanSubmission::page(rows) {
            Some(page) => page,
            None => return PageStep::Empty,
        };
        let bytes = json(&page.ping);
        assert(ban_bytes(json, rows@, bytes));
        if !self.post_page(index, &bytes, parse) {
            return PageStep::Failed;
        }
        let more = submission.on_posted(&page, &mut self.metadata);
        PageStep::Posted { more }
    }

    /// Reports a page of swarms. Where the server takes it the cursor moves to its last row and is
    /// kept.
    pub fn submit_swarm_page<
        J: Fn(&BtnSwarmPeerPing) -> Option<Vec<u8>>,
        P: Fn(&String) -> Option<PowCaptchaData>,
    >(
        &mut self,
        index: usize,
        submission: &mut SwarmSubmission,
        rows: Vec<BtnSwarmHistoryRow>,
        json: J,
        parse: P,
    ) -> (step: PageStep)
        requires
            reads_any(parse),
            forall|ping: &BtnSwarmPeerPing| json.requires((ping,)),
            index < old(self).abilities@.len(),
        ensures
            (step == PageStep::Empty) == (rows@.len() == 0),
            step == PageStep::Empty ==> *final(self) == *old(self) && *final(submission)
                == *old(submission),
            step != PageStep::Empty ==> exists|bytes: Option<Vec<u8>>| #[trigger]
                swarm_bytes(json, rows@, bytes) && posted(
                    *old(self),
                    parse,
                    old(self).abilities@[index as int],
                    bytes,
                    step is Posted,
                ),
            step matches PageStep::Posted { more } ==> {
                &&& more == (rows@.len() >= SWARM_PAGE_SIZE)
                &&& *final(submission) == (SwarmSubmission {
                    last_seen: rows@.last().last_time_seen_ms,
                    id: rows@.last().id,
                    total: counted(old(submission).total, rows@.len()),
                })
                &&& *final(self) == (BtnNetwork { metadata: final(self).metadata, ..*old(self) })
                &&& final(self).metadata.data() == old(self).metadata.data().insert(
                    METADATA_KEY_SWARM_CURSOR@,
                    swarm_cursor_text(rows@.last().last_time_seen_ms, rows@.last().id),
                )
            },
            step == PageStep::Failed ==> *final(submission) == *old(submission) && only_failed(
                *old(self),
                index as int,
                *final(self),
            ),
    {
        let page = match SwarmSubmission::page(rows) {
            Some(page) => page,
            None => return PageStep::Empty,
        };
        let bytes = json(&page.ping);
        assert(swarm_bytes(json, rows@, bytes));
        if !self.post_page(index, &bytes, parse) {
            return PageStep::Failed;
        }
        let more = submission.on_posted(&page, &mut self.metadata);
        PageStep::Posted { more }
    }

    /// Reports a page of peers. Where the server takes it the reported time moves on and is kept.
    pub fn submit_history_page<
        J: Fn(&LegacyBtnPeerHistoryPing) -> Option<Vec<u8>>,
        P: Fn(&String) -> Option<PowCaptchaData>,
    >(
        &mut self,
        index: usize,
        submission: &mut HistorySubmission,
        rows: Vec<BtnPeerHistoryRow>,
        now_ms: i64,
        json: J,
        parse: P,
    ) -> (step: PageStep)
        requires
            reads_any(parse),
            forall|ping: &LegacyBtnPeerHistoryPing| json.requires((ping,)),
            index < old(self).abilities@.len(),
        ensures
            (step == PageStep::Empty) == (rows@.len() == 0),
            step == PageStep::Empty ==> *final(self) == *old(self) && *final(submission)
                == *old(submission),
            step != PageStep::Empty ==> exists|bytes: Option<Vec<u8>>| #[trigger]
                history_bytes(json, rows@, now_ms, bytes) && posted(
                    *old(self),
                    parse,
                    old(self).abilities@[index as int],
                    bytes,
                    step is Posted,
                ),
            step matches PageStep::Posted { more } ==> {
                &&& more == (rows@.len() >= HISTORY_PAGE_SIZE)
                &&& exists|clock_ms: i64|
                    final(submission).last_submit_at == #[trigger] next_submit_time(
                        old(submission).last_submit_at,
                        rows@.last().last_time_seen_ms,
                        clock_ms,
                    )
                &&& final(submission).total == counted(old(submission).total, rows@.len())
                &&& *final(self) == (BtnNetwork { metadata: final(self).metadata, ..*old(self) })
                &&& final(self).metadata.data() == old(self).metadata.data().insert(
                    METADATA_KEY_HISTORY_TIMESTAMP@,
                    decimal_int(final(submission).last_submit_at as int),
                )
            },
            step == PageStep::Failed ==> *final(submission) == *old(submission) && only_failed(
                *old(self),
                index as int,
                *final(self),
            ),
    {
        let page = match HistorySubmission::page(rows, now_ms) {
            Some(page) => page,
            None => return PageStep::Empty,
        };
        let bytes = json(&page.ping);
        assert(history_bytes(json, rows@, now_ms, bytes));
        if !self.post_page(index, &bytes, parse) {
            return PageStep::Failed;
        }
        let clock_ms = now_millis();
        let more = submission.on_posted(&page, clock_ms, &mut self.metadata);
        PageStep::Posted { more }
    }

    /// Reports the connected peers to an older server.
    pub fn submit_legacy_peers<
        J: Fn(&LegacyBtnPeerPing) -> Option<Vec<u8>>,
        P: Fn(&String) -> Option<PowCaptchaData>,
    >(
        &mut self,
        index: usize,
        rows: Vec<BtnLegacyPeerRow>,
        now_ms: i64,
        json: J,
        parse: P,
    ) -> (outcome: AbilityOutcome)
        requires
            reads_any(parse),
            forall|ping: &LegacyBtnPeerPing| json.requires((ping,)),
            index < old(self).abilities@.len(),
        ensures
            legacy_peers_reported(
                *old(self),
                index as int,
                rows@,
                now_ms,
                json,
                parse,
                *final(self),
                outcome,
            ),
    {
        let ping = match legacy_peer_page(rows, now_ms) {
            Some(ping) => ping,
            None => return AbilityOutcome::Reported { updated: false, status: true },
        };
        let bytes = json(&ping);
        assert(legacy_peer_bytes(json, rows@, now_ms, bytes));
        let ok = self.post_page(index, &bytes, parse);
        AbilityOutcome::Reported { updated: ok, status: ok }
    }

    /// Reports to an older server the bans that began since the last report. Where the server takes
    /// them, or there are none, the time of the last report moves on.
    pub fn submit_legacy_bans<
        J: Fn(&LegacyBtnBanPing) -> Option<Vec<u8>>,
        P: Fn(&String) -> Option<PowCaptchaData>,
    >(
        &mut self,
        index: usize,
        rows: Vec<BtnLegacyBanRow>,
        now_ms: i64,
        json: J,
        parse: P,
    ) -> (outcome: AbilityOutcome)
        requires
            reads_any(parse),
            forall|ping: &LegacyBtnBanPing| json.requires((ping,)),
            index < old(self).abilities@.len(),
        ensures
            legacy_bans_reported(
                *old(self),
                index as int,
                rows@,
                now_ms,
                json,
                parse,
                *final(self),
                outcome,
            ),
    {
        let ghost fresh = bans_since(rows@, self.legacy_bans_last_report_ms);
        let page = match legacy_ban_page(rows, self.legacy_bans_last_report_ms, now_ms) {
            Some(page) => page,
            None => {
                self.legacy_bans_last_report_ms = now_ms;
                return AbilityOutcome::Reported { updated: false, status: true };
            },
        };
        let bytes = json(&page.ping);
        assert(legacy_ban_bytes(json, fresh, now_ms, bytes));
        let ok = self.post_page(index, &bytes, parse);
        if ok {
            self.legacy_bans_last_report_ms = page.last_ban_at;
        }
        AbilityOutcome::Reported { updated: ok, status: ok }
    }
}

/// What becomes of an ability that reports before any page is made: it fails where it is gone, and
/// has nothing to report where there is no source; otherwise it goes on.
pub fn submission_start(known: bool, has_source: bool) -> (r: Option<AbilityOutcome>)
    ensures
        r == (if !known {
            Some(AbilityOutcome::Reported { updated: false, status: false })
        } else if !has_source {
            Some(AbilityOutcome::Reported { updated: false, status: true })
        } else {
            None
        }),
{
    if !known {
        Some(AbilityOutcome::Reported { updated: false, status: false })
    } else if !has_source {
        Some(AbilityOutcome::Reported { updated: false, status: true })
    } else {
        None
    }
}

/// What becomes of an ability after its last page: it failed, or it changed something where
/// anything was reported.
pub fn submission_end(last: PageStep, total: usize) -> (outcome: AbilityOutcome)
    ensures
        outcome == (AbilityOutcome::Reported {
            updated: last != PageStep::Failed && total > 0,
            status: last != PageStep::Failed,
        }),
{
    match last {
        PageStep::Failed => AbilityOutcome::Reported { updated: false, status: false },
        _ => AbilityOutcome::Reported { updated: total > 0, status: true },
    }
}

/// A report that failed leaves what is kept as it was, so the next round starts where this one did.
pub proof fn failed_report_is_repeated<H: BtnHttpClient, M: BtnMetadataStore>(
    before: BtnNetwork<H, M>,
    index: int,
    after: BtnNetwork<H, M>,
)
    requires
        only_failed(before, index, after),
    ensures
        after.metadata == before.metadata,
        after.legacy_bans_last_report_ms == before.legacy_bans_last_report_ms,
        after.abilities@.len() == before.abilities@.len(),
{
}

/// The count of what was reported stops at the greatest number.
pub proof fn counts_stop_at_the_greatest(total: usize, count: nat)
    ensures
        total + count <= usize::MAX ==> counted(total, count) == total + count,
        total + count > usize::MAX ==> counted(total, count) == usize::MAX,
        counted(total, 0) == total,
{
}

/// A report that cannot be written fails; one that can is posted compressed, under the name of its
/// ability, and succeeds with a reply 200 to 299.
pub proof fn reports_succeed_with_a_good_reply<
    H: BtnHttpClient,
    M,
    P: Fn(&String) -> Option<PowCaptchaData>,
>(n: BtnNetwork<H, M>, parse: P, ability: BtnAbility, json: Option<Vec<u8>>, ok: bool)
    requires
        posted(n, parse, ability, json, ok),
    ensures
        json is None ==> !ok,
        (json matches Some(bytes) && gzip(bytes@) is None) ==> !ok,
        ok ==> exists|reply: BtnHttpResponse| {
            &&& 200 <= reply.status <= 299
            &&& #[trigger] exchanged(
                n,
                parse,
                ability.pow_captcha,
                ability.kind.pow_text(),
                report_view(n.config, ability.endpoint@, gzip(json->0@)->0),
                Ok(reply),
            )
        },
{
    if ok {
        let body = gzip(json->0@)->0;
        let reply = choose|reply: Result<BtnHttpResponse, String>|
            {
                &&& #[trigger] exchanged(
                    n,
                    parse,
                    ability.pow_captcha,
                    ability.kind.pow_text(),
                    report_view(n.config, ability.endpoint@, body),
                    reply,
                )
                &&& ok == (reply is Ok && reply->Ok_0.successful())
            };
        assert(exchanged(
            n,
            parse,
            ability.pow_captcha,
            ability.kind.pow_text(),
            report_view(n.config, ability.endpoint@, body),
            Ok(reply->Ok_0),
        ));
    }
}

/// A list of bans with nothing new succeeds and counts as reported now; one that was reported counts
/// as reported up to its latest ban; one that failed is reported again.
pub proof fn bans_are_reported_up_to_the_latest<
    H: BtnHttpClient,
    M: BtnMetadataStore,
    J: Fn(&LegacyBtnBanPing) -> Option<Vec<u8>>,
    P: Fn(&String) -> Option<PowCaptchaData>,
>(
    before: BtnNetwork<H, M>,
    index: int,
    rows: Seq<BtnLegacyBanRow>,
    now_ms: i64,
    json: J,
    parse: P,
    after: BtnNetwork<H, M>,
    outcome: AbilityOutcome,
)
    requires
        legacy_bans_reported(before, index, rows, now_ms, json, parse, after, outcome),
    ensures
        ({
            let fresh = bans_since(rows, before.legacy_bans_last_report_ms);
            &&& fresh.len() == 0 ==> outcome == (AbilityOutcome::Reported {
                updated: false,
                status: true,
            }) && after.legacy_bans_last_report_ms == now_ms
            &&& fresh.len() > 0 ==> (outcome matches AbilityOutcome::Reported { updated, status }
                && updated == status && (status ==> after.legacy_bans_last_report_ms == latest_ban(
                fresh,
            )) && (!status ==> after.legacy_bans_last_report_ms
                == before.legacy_bans_last_report_ms))
        }),
        after.metadata == before.metadata,
{
}

/// A page is written with one entry for each row, in the rows' order, and the histories and the
/// reports of the older protocol with the time.
pub proof fn pages_are_written_row_by_row<
    B: Fn(&BtnBanPing) -> Option<Vec<u8>>,
    W: Fn(&BtnSwarmPeerPing) -> Option<Vec<u8>>,
    Y: Fn(&LegacyBtnPeerHistoryPing) -> Option<Vec<u8>>,
    L: Fn(&LegacyBtnPeerPing) -> Option<Vec<u8>>,
    D: Fn(&LegacyBtnBanPing) -> Option<Vec<u8>>,
>(
    bans: B,
    swarms: W,
    histories: Y,
    peers: L,
    legacy: D,
    a: Seq<BtnBanHistoryRow>,
    b: Seq<BtnSwarmHistoryRow>,
    c: Seq<BtnPeerHistoryRow>,
    d: Seq<BtnLegacyPeerRow>,
    e: Seq<BtnLegacyBanRow>,
    now_ms: i64,
    bytes: Option<Vec<u8>>,
    i: int,
)
    ensures
        ban_bytes(bans, a, bytes) && 0 <= i < a.len() ==> exists|ping: BtnBanPing| {
            &&& #[trigger] bans.ensures((&ping,), bytes)
            &&& ping.bans@.len() == a.len()
            &&& ping.bans@[i].peer_ip == a[i].peer_ip
            &&& ping.bans@[i].ban_at == a[i].ban_at_ms
        },
        swarm_bytes(swarms, b, bytes) && 0 <= i < b.len() ==> exists|ping: BtnSwarmPeerPing| {
            &&& #[trigger] swarms.ensures((&ping,), bytes)
            &&& ping.swarms@.len() == b.len()
            &&& ping.swarms@[i].peer_ip == b[i].peer_ip
            &&& ping.swarms@[i].last_time_seen == b[i].last_time_seen_ms
        },
        history_bytes(histories, c, now_ms, bytes) && 0 <= i < c.len() ==> exists|
            ping: LegacyBtnPeerHistoryPing,
        | {
            &&& #[trigger] histories.ensures((&ping,), bytes)
            &&& ping.populate_time == now_ms
            &&& ping.peers@.len() == c.len()
            &&& ping.peers@[i].ip_address == c[i].ip_address
        },
        legacy_peer_bytes(peers, d, now_ms, bytes) && 0 <= i < d.len() ==> exists|
            ping: LegacyBtnPeerPing,
        | {
            &&& #[trigger] peers.ensures((&ping,), bytes)
            &&& ping.populate_time == now_ms
            &&& ping.peers@.len() == d.len()
            &&& ping.peers@[i].ip_address == d[i].ip_address
        },
        legacy_ban_bytes(legacy, e, now_ms, bytes) && 0 <= i < e.len() ==> exists|
            ping: LegacyBtnBanPing,
        | {
            &&& #[trigger] legacy.ensures((&ping,), bytes)
            &&& ping.populate_time == now_ms
            &&& ping.bans@.len() == e.len()
            &&& ping.bans@[i].ban_unique_id == e[i].ban_unique_id
        },
{
    if ban_bytes(bans, a, bytes) && 0 <= i < a.len() {
        let ping = choose|ping: BtnBanPing|
            {
                &&& #[trigger] bans.ensures((&ping,), bytes)
                &&& ping.bans@.len() == a.len()
                &&& forall|i: int| 0 <= i < a.len() ==> reports_ban(#[trigger] ping.bans@[i], a[i])
            };
        assert(reports_ban(ping.bans@[i], a[i]));
    }
    if swarm_bytes(swarms, b, bytes) && 0 <= i < b.len() {
        let ping = choose|ping: BtnSwarmPeerPing|
            {
                &&& #[trigger] swarms.ensures((&ping,), bytes)
                &&& ping.swarms@.len() == b.len()
                &&& forall|i: int|
                    0 <= i < b.len() ==> reports_swarm(#[trigger] ping.swarms@[i], b[i])
            };
        assert(reports_swarm(ping.swarms@[i], b[i]));
    }
    if history_bytes(histories, c, now_ms, bytes) && 0 <= i < c.len() {
        let ping = choose|ping: LegacyBtnPeerHistoryPing|
            {
                &&& #[trigger] histories.ensures((&ping,), bytes)
                &&& ping.populate_time == now_ms
                &&& ping.peers@.len() == c.len()
                &&& forall|i: int|
                    0 <= i < c.len() ==> reports_history(#[trigger] ping.peers@[i], c[i])
            };
        assert(reports_history(ping.peers@[i], c[i]));
    }
    if legacy_peer_bytes(peers, d, now_ms, bytes) && 0 <= i < d.len() {
        let ping = choose|ping: LegacyBtnPeerPing|
            {
                &&& #[trigger] peers.ensures((&ping,), bytes)
                &&& ping.populate_time == now_ms
                &&& ping.peers@.len() == d.len()
                &&& forall|i: int|
                    0 <= i < d.len() ==> reports_legacy_peer(#[trigger] ping.peers@[i], d[i])
            };
        assert(reports_legacy_peer(ping.peers@[i], d[i]));
    }
    if legacy_ban_bytes(legacy, e, now_ms, bytes) && 0 <= i < e.len() {
        let ping = choose|ping: LegacyBtnBanPing|
            {
                &&& #[trigger] legacy.ensures((&ping,), bytes)
                &&& ping.populate_time == now_ms
                &&& ping.bans@.len() == e.len()
                &&& forall|i: int|
                    0 <= i < e.len() ==> reports_legacy_ban(#[trigger] ping.bans@[i], e[i])
            };
        assert(reports_legacy_ban(ping.bans@[i], e[i]));
    }
}

/// A report of peers without any succeeds with nothing new; else it is new where it succeeded, and
/// nothing but the status changes.
pub proof fn peers_are_reported_whole<
    H: BtnHttpClient,
    M: BtnMetadataStore,
    J: Fn(&LegacyBtnPeerPing) -> Option<Vec<u8>>,
    P: Fn(&String) -> Option<PowCaptchaData>,
>(
    before: BtnNetwork<H, M>,
    index: int,
    rows: Seq<BtnLegacyPeerRow>,
    now_ms: i64,
    json: J,
    parse: P,
    after: BtnNetwork<H, M>,
    outcome: AbilityOutcome,
)
    requires
        legacy_peers_reported(before, index, rows, now_ms, json, parse, after, outcome),
    ensures
        rows.len() == 0 ==> after == before && outcome == (AbilityOutcome::Reported {
            updated: false,
            status: true,
        }),
        rows.len() > 0 ==> (outcome matches AbilityOutcome::Reported { updated, status } && updated
            == status && (status ==> after == before)),
        after.metadata == before.metadata,
{
}

} // verus!

//! Rounds of reports to a BTN server: page after page, until there is nothing more to report.

use vstd::prelude::*;
use crate::btn_exchange::{exchanged, proven, reads_any, report_view};
use crate::btn_http::RequestView;
use crate::btn_report::{
    kept_number_is_read_back, kept_swarm_cursor_is_read_back, max_ban_id, next_ban_round_goes_on,
    next_submit_time, stored_history_time, stored_i64, stored_swarm_cursor,
    swarm_cursor_text, BanSubmission, BtnBanHistoryRow, BtnBanPing, BtnLegacyBanRow,
    BtnLegacyPeerRow, BtnPeerHistoryRow, BtnSwarmHistoryRow, BtnSwarmPeerPing, HistorySubmission,
    LegacyBtnBanPing, LegacyBtnPeerHistoryPing, LegacyBtnPeerPing, SwarmSubmission, BAN_PAGE_SIZE,
    HISTORY_MAX_AGE_MS, HISTORY_PAGE_SIZE,
    METADATA_KEY_BANS_CURSOR, METADATA_KEY_HISTORY_TIMESTAMP, METADATA_KEY_SWARM_CURSOR,
    SWARM_PAGE_SIZE,
};
use crate::btn_schedule::AbilityOutcome;
use crate::btn_submit::{
    ban_bytes, history_bytes, legacy_bans_reported, legacy_peers_reported, only_failed, posted,
    report_body, submission_end, submission_start, swarm_bytes, PageStep,
};
use crate::btn_transport::{
    gzip, BtnAbility, BtnHttpClient, BtnHttpResponse, BtnMetadataStore, BtnNetwork, PowCaptchaData,
};
use crate::text::decimal_int;
use crate::wire::now_millis;

verus! {

/// Whatever keeps the rows that are reported. Where nothing else is said it may give any rows.
pub trait BtnSubmitSource {
    /// Whether the source may give these rows for the bans behind a cursor.
    open spec fn gives_bans(&self, cursor_id: i64, limit: usize, rows: Seq<BtnBanHistoryRow>) -> bool {
        true
    }

    /// Whether the source may give these rows for the swarms behind a cursor.
    open spec fn gives_swarms(
        &self,
        last_time_seen_ms: i64,
        id_after: i64,
        limit: usize,
        rows: Seq<BtnSwarmHistoryRow>,
    ) -> bool {
        true
    }

    /// Whether the source may give these rows for the peers seen since some time.
    open spec fn gives_histories(
        &self,
        last_time_seen_ms: i64,
        limit: usize,
        rows: Seq<BtnPeerHistoryRow>,
    ) -> bool {
        true
    }

    /// Whether the source may give these rows for the connected peers.
    open spec fn gives_peers(&self, rows: Seq<BtnLegacyPeerRow>) -> bool {
        true
    }

    /// Whether the source may give these rows for the bans in force.
    open spec fn gives_legacy_bans(&self, rows: Seq<BtnLegacyBanRow>) -> bool {
        true
    }

    /// At most `limit` bans with larger identifiers than the cursor.
    fn batch_ban_history(&self, cursor_id: i64, limit: usize) -> (rows: Vec<BtnBanHistoryRow>)
        ensures
            self.gives_bans(cursor_id, limit, rows@),
    ;

    /// At most `limit` swarms seen at or after some time and with larger identifiers than some
    /// identifier, in that order.
    fn batch_swarm_history(&self, last_time_seen_ms: i64, id_after: i64, limit: usize) -> (rows: Vec<
        BtnSwarmHistoryRow,
    >)
        ensures
            self.gives_swarms(last_time_seen_ms, id_after, limit, rows@),
    ;

    /// At most `limit` peers seen at or after some time.
    fn batch_peer_history(&self, last_time_seen_ms: i64, limit: usize) -> (rows: Vec<
        BtnPeerHistoryRow,
    >)
        ensures
            self.gives_histories(last_time_seen_ms, limit, rows@),
    ;

    /// The connected peers.
    fn legacy_peer_snapshot(&self) -> (rows: Vec<BtnLegacyPeerRow>)
        ensures
            self.gives_peers(rows@),
    ;

    /// The bans in force.
    fn legacy_ban_snapshot(&self) -> (rows: Vec<BtnLegacyBanRow>)
        ensures
            self.gives_legacy_bans(rows@),
    ;
}

/// How many rows the pages hold together.
pub open spec fn rows_in<T>(pages: Seq<Seq<T>>) -> nat
    decreases pages.len(),
{
    if pages.len() == 0 {
        0
    } else {
        rows_in(pages.drop_last()) + pages.last().len()
    }
}

/// What becomes of an ability that cannot report: it fails where it is gone, and has nothing to
/// report where there is no source.
pub open spec fn nothing_to_report(known: bool) -> AbilityOutcome {
    AbilityOutcome::Reported { updated: false, status: known }
}

// ------------------------------------------------------------------------ bans
/// The cursor behind the first `k` pages of bans.
pub open spec fn ban_cursor_at(start: i64, pages: Seq<Seq<BtnBanHistoryRow>>, k: int) -> i64 {
    if k <= 0 {
        start
    } else {
        max_ban_id(pages[k - 1])
    }
}

/// Whether the report of a page of bans may end so.
pub open spec fn ban_page_ends<
    H: BtnHttpClient,
    M,
    J: Fn(&BtnBanPing) -> Option<Vec<u8>>,
    P: Fn(&String) -> Option<PowCaptchaData>,
>(
    n: BtnNetwork<H, M>,
    ability: BtnAbility,
    json: J,
    parse: P,
    rows: Seq<BtnBanHistoryRow>,
    ok: bool,
) -> bool {
    exists|bytes: Option<Vec<u8>>| #[trigger]
        ban_bytes(json, rows, bytes) && posted(n, parse, ability, bytes, ok)
}

/// Whether pages of bans, each read behind the one before, were taken by the server; all but the
/// last are full.
pub open spec fn ban_pages_taken<
    H: BtnHttpClient,
    M,
    S: BtnSubmitSource,
    J: Fn(&BtnBanPing) -> Option<Vec<u8>>,
    P: Fn(&String) -> Option<PowCaptchaData>,
>(
    n: BtnNetwork<H, M>,
    ability: BtnAbility,
    source: S,
    json: J,
    parse: P,
    start: i64,
    pages: Seq<Seq<BtnBanHistoryRow>>,
) -> bool {
    forall|k: int|
        0 <= k < pages.len() ==> {
            &&& (#[trigger] pages[k]).len() > 0
            &&& source.gives_bans(ban_cursor_at(start, pages, k), BAN_PAGE_SIZE, pages[k])
            &&& ban_page_ends(n, ability, json, parse, pages[k], true)
            &&& k + 1 < pages.len() ==> pages[k].len() >= BAN_PAGE_SIZE
        }
}

/// What a round of reports about bans may make of a client. The pages that the server took are
/// noted by the cursor, whatever comes after them. A round goes well where it ends with a page that
/// is not full, with no rows, or with as many rows as can be counted.
pub open spec fn ban_round<
    H: BtnHttpClient,
    M: BtnMetadataStore,
    S: BtnSubmitSource,
    J: Fn(&BtnBanPing) -> Option<Vec<u8>>,
    P: Fn(&String) -> Option<PowCaptchaData>,
>(
    before: BtnNetwork<H, M>,
    index: int,
    source: S,
    json: J,
    parse: P,
    pages: Seq<Seq<BtnBanHistoryRow>>,
    after: BtnNetwork<H, M>,
    outcome: AbilityOutcome,
) -> bool {
    let start = stored_i64(before.metadata.data(), METADATA_KEY_BANS_CURSOR@, 0);
    let cursor = ban_cursor_at(start, pages, pages.len() as int);
    &&& ban_pages_taken(before, before.abilities@[index], source, json, parse, start, pages)
    &&& after.metadata.data() == if pages.len() > 0 {
        before.metadata.data().insert(METADATA_KEY_BANS_CURSOR@, decimal_int(cursor as int))
    } else {
        before.metadata.data()
    }
    &&& match outcome {
        AbilityOutcome::Reported { updated, status: true } => {
            &&& updated == (pages.len() > 0)
            &&& after == (BtnNetwork { metadata: after.metadata, ..before })
            &&& {
                ||| pages.len() > 0 && pages.last().len() < BAN_PAGE_SIZE
                ||| source.gives_bans(cursor, BAN_PAGE_SIZE, Seq::empty())
                ||| rows_in(pages) >= usize::MAX
            }
        },
        AbilityOutcome::Reported { updated, status: false } => {
            &&& !updated
            &&& only_failed(BtnNetwork { metadata: after.metadata, ..before }, index, after)
            &&& exists|rows: Seq<BtnBanHistoryRow>|
                {
                    &&& rows.len() > 0
                    &&& #[trigger] source.gives_bans(cursor, BAN_PAGE_SIZE, rows)
                    &&& ban_page_ends(before, before.abilities@[index], json, parse, rows, false)
                }
        },
        AbilityOutcome::Skipped => false,
    }
}

/// What reporting bans may make of a client: nothing where the ability is gone or there is no
/// source.
pub open spec fn bans_submitted<
    H: BtnHttpClient,
    M: BtnMetadataStore,
    S: BtnSubmitSource,
    J: Fn(&BtnBanPing) -> Option<Vec<u8>>,
    P: Fn(&String) -> Option<PowCaptchaData>,
>(
    before: BtnNetwork<H, M>,
    index: int,
    source: Option<&S>,
    json: J,
    parse: P,
    after: BtnNetwork<H, M>,
    outcome: AbilityOutcome,
) -> bool {
    if index >= before.abilities@.len() || source is None {
        after == before && outcome == nothing_to_report(index < before.abilities@.len())
    } else {
        exists|pages: Seq<Seq<BtnBanHistoryRow>>| #[trigger]
            ban_round(before, index, *source->0, json, parse, pages, after, outcome)
    }
}

impl<H: BtnHttpClient, M: BtnMetadataStore> BtnNetwork<H, M> {
    /// Reports the bans behind the kept cursor, page by page. The cursor moves with each page that
    /// the server took.
    #[verifier::loop_isolation(false)]
    pub fn run_submit_bans<
        S: BtnSubmitSource,
        J: Fn(&BtnBanPing) -> Option<Vec<u8>> + Copy,
        P: Fn(&String) -> Option<PowCaptchaData> + Copy,
    >(&mut self, index: usize, source: Option<&S>, json: J, parse: P) -> (outcome: AbilityOutcome)
        requires
            reads_any(parse),
            forall|ping: &BtnBanPing| json.requires((ping,)),
        ensures
            bans_submitted(
                *old(self),
                index as int,
                source,
                json,
                parse,
                *final(self),
                outcome,
            ),
    {
        if let Some(outcome) = submission_start(index < self.abilities.len(), source.is_some()) {
            return outcome;
        }
        let rows_of = source.unwrap();
        let ghost before = *self;
        let ghost start = stored_i64(before.metadata.data(), METADATA_KEY_BANS_CURSOR@, 0);
        let ghost ability = before.abilities@[index as int];
        let ghost mut pages: Seq<Seq<BtnBanHistoryRow>> = Seq::empty();
        let mut submission = BanSubmission::start(&self.metadata);
        loop
            invariant
                reads_any(parse),
                forall|ping: &BtnBanPing| json.requires((ping,)),
                index < before.abilities@.len(),
                ability == before.abilities@[index as int],
                start == stored_i64(before.metadata.data(), METADATA_KEY_BANS_CURSOR@, 0),
                *self == (BtnNetwork { metadata: self.metadata, ..before }),
                ban_pages_taken(before, ability, *rows_of, json, parse, start, pages),
                pages.len() > 0 ==> pages.last().len() >= BAN_PAGE_SIZE,
                submission.cursor == ban_cursor_at(start, pages, pages.len() as int),
                submission.total == rows_in(pages),
                pages.len() > 0 <==> submission.total > 0,
                self.metadata.data() == (if pages.len() > 0 {
                    before.metadata.data().insert(
                        METADATA_KEY_BANS_CURSOR@,
                        decimal_int(submission.cursor as int),
                    )
                } else {
                    before.metadata.data()
                }),
            decreases usize::MAX - submission.total,
        {
            let ghost mid = *self;
            let ghost cursor = submission.cursor;
            let ghost total = submission.total;
            let rows = rows_of.batch_ban_history(submission.cursor, BAN_PAGE_SIZE);
            let ghost given = rows@;
            let step = self.submit_ban_page(index, &mut submission, rows, json, parse);
            proof {
                if step != PageStep::Empty {
                    let bytes = choose|bytes: Option<Vec<u8>>| #[trigger]
                        ban_bytes(json, given, bytes) && posted(
                            mid,
                            parse,
                            ability,
                            bytes,
                            step is Posted,
                        );
                    lemma_posted_alike(mid, before, parse, ability, bytes, step is Posted);
                    assert(ban_page_ends(before, ability, json, parse, given, step is Posted));
                }
            }
            if let PageStep::Posted { more } = step {
                proof {
                    let old_pages = pages;
                    pages = pages.push(given);
                    assert(pages.drop_last() =~= old_pages);
                    assert forall|k: int| 0 <= k < pages.len() implies {
                        &&& (#[trigger] pages[k]).len() > 0
                        &&& rows_of.gives_bans(
                            ban_cursor_at(start, pages, k),
                            BAN_PAGE_SIZE,
                            pages[k],
                        )
                        &&& ban_page_ends(before, ability, json, parse, pages[k], true)
                        &&& k + 1 < pages.len() ==> pages[k].len() >= BAN_PAGE_SIZE
                    } by {
                        if k < old_pages.len() {
                            assert(old_pages[k] == pages[k]);
                            assert(ban_cursor_at(start, pages, k) == ban_cursor_at(
                                start,
                                old_pages,
                                k,
                            ));
                        }
                    }
                }
                if more && submission.total < usize::MAX {
                    continue;
                }
            }
            proof {
                match step {
                    PageStep::Empty => {
                        assert(given =~= Seq::empty());
                    },
                    PageStep::Posted { more } => {
                        assert(pages.last() == given);
                        assert(self.metadata.data() =~= before.metadata.data().insert(
                            METADATA_KEY_BANS_CURSOR@,
                            decimal_int(submission.cursor as int),
                        ));
                        assert(submission.total > 0);
                    },
                    PageStep::Failed => {
                        assert(only_failed(mid, index as int, *self));
                        assert(mid == (BtnNetwork { metadata: self.metadata, ..before }));
                        assert(rows_of.gives_bans(cursor, BAN_PAGE_SIZE, given));
                    },
                }
            }
            let outcome = submission_end(step, submission.total);
            assert(ban_round(before, index as int, *rows_of, json, parse, pages, *self, outcome));
            return outcome;
        }
    }
}

// ---------------------------------------------------------------------- swarms
/// The cursor behind the first `k` pages of swarms.
pub open spec fn swarm_cursor_at(
    start: (i64, i64),
    pages: Seq<Seq<BtnSwarmHistoryRow>>,
    k: int,
) -> (i64, i64) {
    if k <= 0 {
        start
    } else {
        (pages[k - 1].last().last_time_seen_ms, pages[k - 1].last().id)
    }
}

/// Whether the report of a page of swarms may end so.
pub open spec fn swarm_page_ends<
    H: BtnHttpClient,
    M,
    J: Fn(&BtnSwarmPeerPing) -> Option<Vec<u8>>,
    P: Fn(&String) -> Option<PowCaptchaData>,
>(
    n: BtnNetwork<H, M>,
    ability: BtnAbility,
    json: J,
    parse: P,
    rows: Seq<BtnSwarmHistoryRow>,
    ok: bool,
) -> bool {
    exists|bytes: Option<Vec<u8>>| #[trigger]
        swarm_bytes(json, rows, bytes) && posted(n, parse, ability, bytes, ok)
}

/// Whether pages of swarms, each read behind the one before, were taken by the server; all but the
/// last are full.
pub open spec fn swarm_pages_taken<
    H: BtnHttpClient,
    M,
    S: BtnSubmitSource,
    J: Fn(&BtnSwarmPeerPing) -> Option<Vec<u8>>,
    P: Fn(&String) -> Option<PowCaptchaData>,
>(
    n: BtnNetwork<H, M>,
    ability: BtnAbility,
    source: S,
    json: J,
    parse: P,
    start: (i64, i64),
    pages: Seq<Seq<BtnSwarmHistoryRow>>,
) -> bool {
    forall|k: int|
        0 <= k < pages.len() ==> {
            &&& (#[trigger] pages[k]).len() > 0
            &&& source.gives_swarms(
                swarm_cursor_at(start, pages, k).0,
                swarm_cursor_at(start, pages, k).1,
                SWARM_PAGE_SIZE,
                pages[k],
            )
            &&& swarm_page_ends(n, ability, json, parse, pages[k], true)
            &&& k + 1 < pages.len() ==> pages[k].len() >= SWARM_PAGE_SIZE
        }
}

/// What a round of reports about swarms may make of a client. The pages that the server took are
/// noted by the cursor, whatever comes after them. A round goes well where it ends with a page that
/// is not full, with no rows, or with as many rows as can be counted.
pub open spec fn swarm_round<
    H: BtnHttpClient,
    M: BtnMetadataStore,
    S: BtnSubmitSource,
    J: Fn(&BtnSwarmPeerPing) -> Option<Vec<u8>>,
    P: Fn(&String) -> Option<PowCaptchaData>,
>(
    before: BtnNetwork<H, M>,
    index: int,
    source: S,
    json: J,
    parse: P,
    pages: Seq<Seq<BtnSwarmHistoryRow>>,
    after: BtnNetwork<H, M>,
    outcome: AbilityOutcome,
) -> bool {
    let start = stored_swarm_cursor(before.metadata.data());
    let cursor = swarm_cursor_at(start, pages, pages.len() as int);
    &&& swarm_pages_taken(before, before.abilities@[index], source, json, parse, start, pages)
    &&& after.metadata.data() == if pages.len() > 0 {
        before.metadata.data().insert(
            METADATA_KEY_SWARM_CURSOR@,
            swarm_cursor_text(cursor.0, cursor.1),
        )
    } else {
        before.metadata.data()
    }
    &&& match outcome {
        AbilityOutcome::Reported { updated, status: true } => {
            &&& updated == (pages.len() > 0)
            &&& after == (BtnNetwork { metadata: after.metadata, ..before })
            &&& {
                ||| pages.len() > 0 && pages.last().len() < SWARM_PAGE_SIZE
                ||| source.gives_swarms(cursor.0, cursor.1, SWARM_PAGE_SIZE, Seq::empty())
                ||| rows_in(pages) >= usize::MAX
            }
        },
        AbilityOutcome::Reported { updated, status: false } => {
            &&& !updated
            &&& only_failed(BtnNetwork { metadata: after.metadata, ..before }, index, after)
            &&& exists|rows: Seq<BtnSwarmHistoryRow>|
                {
                    &&& rows.len() > 0
                    &&& #[trigger] source.gives_swarms(cursor.0, cursor.1, SWARM_PAGE_SIZE, rows)
                    &&& swarm_page_ends(before, before.abilities@[index], json, parse, rows, false)
                }
        },
        AbilityOutcome::Skipped => false,
    }
}

/// What reporting swarms may make of a client: nothing where the ability is gone or there is no
/// source.
pub open spec fn swarms_submitted<
    H: BtnHttpClient,
    M: BtnMetadataStore,
    S: BtnSubmitSource,
    J: Fn(&BtnSwarmPeerPing) -> Option<Vec<u8>>,
    P: Fn(&String) -> Option<PowCaptchaData>,
>(
    before: BtnNetwork<H, M>,
    index: int,
    source: Option<&S>,
    json: J,
    parse: P,
    after: BtnNetwork<H, M>,
    outcome: AbilityOutcome,
) -> bool {
    if index >= before.abilities@.len() || source is None {
        after == before && outcome == nothing_to_report(index < before.abilities@.len())
    } else {
        exists|pages: Seq<Seq<BtnSwarmHistoryRow>>| #[trigger]
            swarm_round(before, index, *source->0, json, parse, pages, after, outcome)
    }
}

impl<H: BtnHttpClient, M: BtnMetadataStore> BtnNetwork<H, M> {
    /// Reports the swarms behind the kept cursor, page by page. The cursor moves with each page
    /// that the server took.
    #[verifier::loop_isolation(false)]
    pub fn run_submit_swarm<
        S: BtnSubmitSource,
        J: Fn(&BtnSwarmPeerPing) -> Option<Vec<u8>> + Copy,
        P: Fn(&String) -> Option<PowCaptchaData> + Copy,
    >(&mut self, index: usize, source: Option<&S>, json: J, parse: P) -> (outcome: AbilityOutcome)
        requires
            reads_any(parse),
            forall|ping: &BtnSwarmPeerPing| json.requires((ping,)),
        ensures
            swarms_submitted(
                *old(self),
                index as int,
                source,
                json,
                parse,
                *final(self),
                outcome,
            ),
    {
        if let Some(outcome) = submission_start(index < self.abilities.len(), source.is_some()) {
            return outcome;
        }
        let rows_of = source.unwrap();
        let ghost before = *self;
        let ghost start = stored_swarm_cursor(before.metadata.data());
        let ghost ability = before.abilities@[index as int];
        let ghost mut pages: Seq<Seq<BtnSwarmHistoryRow>> = Seq::empty();
        let mut submission = SwarmSubmission::start(&self.metadata);
        loop
            invariant
                *self == (BtnNetwork { metadata: self.metadata, ..before }),
                swarm_pages_taken(before, ability, *rows_of, json, parse, start, pages),
                pages.len() > 0 ==> pages.last().len() >= SWARM_PAGE_SIZE,
                (submission.last_seen, submission.id) == swarm_cursor_at(
                    start,
                    pages,
                    pages.len() as int,
                ),
                submission.total == rows_in(pages),
                pages.len() > 0 <==> submission.total > 0,
                self.metadata.data() == (if pages.len() > 0 {
                    before.metadata.data().insert(
                        METADATA_KEY_SWARM_CURSOR@,
                        swarm_cursor_text(submission.last_seen, submission.id),
                    )
                } else {
                    before.metadata.data()
                }),
            decreases usize::MAX - submission.total,
        {
            let ghost mid = *self;
            let ghost last_seen = submission.last_seen;
            let ghost id = submission.id;
            let rows = rows_of.batch_swarm_history(
                submission.last_seen,
                submission.id,
                SWARM_PAGE_SIZE,
            );
            let ghost given = rows@;
            let step = self.submit_swarm_page(index, &mut submission, rows, json, parse);
            proof {
                if step != PageStep::Empty {
                    let bytes = choose|bytes: Option<Vec<u8>>| #[trigger]
                        swarm_bytes(json, given, bytes) && posted(
                            mid,
                            parse,
                            ability,
                            bytes,
                            step is Posted,
                        );
                    lemma_posted_alike(mid, before, parse, ability, bytes, step is Posted);
                    assert(swarm_page_ends(before, ability, json, parse, given, step is Posted));
                }
            }
            if let PageStep::Posted { more } = step {
                proof {
                    let old_pages = pages;
                    pages = pages.push(given);
                    assert(pages.drop_last() =~= old_pages);
                    assert forall|k: int| 0 <= k < pages.len() implies {
                        &&& (#[trigger] pages[k]).len() > 0
                        &&& rows_of.gives_swarms(
                            swarm_cursor_at(start, pages, k).0,
                            swarm_cursor_at(start, pages, k).1,
                            SWARM_PAGE_SIZE,
                            pages[k],
                        )
                        &&& swarm_page_ends(before, ability, json, parse, pages[k], true)
                        &&& k + 1 < pages.len() ==> pages[k].len() >= SWARM_PAGE_SIZE
                    } by {
                        if k < old_pages.len() {
                            assert(old_pages[k] == pages[k]);
                            assert(swarm_cursor_at(start, pages, k) == swarm_cursor_at(
                                start,
                                old_pages,
                                k,
                            ));
                        }
                    }
                }
                if more && submission.total < usize::MAX {
                    continue;
                }
            }
            proof {
                match step {
                    PageStep::Empty => {
                        assert(given =~= Seq::empty());
                    },
                    PageStep::Posted { more } => {
                        assert(pages.last() == given);
                        assert(self.metadata.data() =~= before.metadata.data().insert(
                            METADATA_KEY_SWARM_CURSOR@,
                            swarm_cursor_text(submission.last_seen, submission.id),
                        ));
                        assert(submission.total > 0);
                    },
                    PageStep::Failed => {
                        assert(only_failed(mid, index as int, *self));
                        assert(mid == (BtnNetwork { metadata: self.metadata, ..before }));
                        assert(rows_of.gives_swarms(last_seen, id, SWARM_PAGE_SIZE, given));
                    },
                }
                let cursor = swarm_cursor_at(start, pages, pages.len() as int);
                assert(cursor.0 == submission.last_seen && cursor.1 == submission.id);
            }
            let outcome = submission_end(step, submission.total);
            assert(swarm_round(before, index as int, *rows_of, json, parse, pages, *self, outcome));
            return outcome;
        }
    }
}

// ------------------------------------------------------------------- histories
/// Whether the report of a page of peers may end so.
pub open spec fn history_page_ends<
    H: BtnHttpClient,
    M,
    J: Fn(&LegacyBtnPeerHistoryPing) -> Option<Vec<u8>>,
    P: Fn(&String) -> Option<PowCaptchaData>,
>(
    n: BtnNetwork<H, M>,
    ability: BtnAbility,
    json: J,
    parse: P,
    rows: Seq<BtnPeerHistoryRow>,
    now_ms: i64,
    ok: bool,
) -> bool {
    exists|bytes: Option<Vec<u8>>| #[trigger]
        history_bytes(json, rows, now_ms, bytes) && posted(n, parse, ability, bytes, ok)
}

/// Whether reporting may go on at `next` after a page that was read from `since` on.
pub open spec fn time_follows(since: i64, rows: Seq<BtnPeerHistoryRow>, next: i64) -> bool {
    exists|clock_ms: i64|
        next == #[trigger] next_submit_time(since, rows.last().last_time_seen_ms, clock_ms)
}

/// Whether pages of peers were taken by the server, page `k` of them read from `times[k]` on; all
/// but the last are full. One more time tells where reporting goes on.
pub open spec fn history_pages_taken<
    H: BtnHttpClient,
    M,
    S: BtnSubmitSource,
    J: Fn(&LegacyBtnPeerHistoryPing) -> Option<Vec<u8>>,
    P: Fn(&String) -> Option<PowCaptchaData>,
>(
    n: BtnNetwork<H, M>,
    ability: BtnAbility,
    source: S,
    json: J,
    parse: P,
    now_ms: i64,
    times: Seq<i64>,
    pages: Seq<Seq<BtnPeerHistoryRow>>,
) -> bool {
    &&& times.len() == pages.len() + 1
    &&& forall|k: int|
        0 <= k < pages.len() ==> {
            &&& (#[trigger] pages[k]).len() > 0
            &&& source.gives_histories(times[k], HISTORY_PAGE_SIZE, pages[k])
            &&& history_page_ends(n, ability, json, parse, pages[k], now_ms, true)
            &&& time_follows(times[k], pages[k], times[k + 1])
            &&& k + 1 < pages.len() ==> pages[k].len() >= HISTORY_PAGE_SIZE
        }
}

/// Where reporting of peers starts at some time, and what is kept then: the kept time, or this time
/// where none is kept or it is too old.
pub open spec fn history_start(data: Map<Seq<char>, Seq<char>>, clock_ms: i64) -> (
    i64,
    Map<Seq<char>, Seq<char>>,
) {
    match stored_history_time(data, clock_ms) {
        Some(v) => (v, data),
        None => (
            clock_ms,
            data.insert(METADATA_KEY_HISTORY_TIMESTAMP@, decimal_int(clock_ms as int)),
        ),
    }
}

/// What a round of reports about peers may make of a client, if it starts at `clock_ms` and its
/// pages are marked with `now_ms`. The pages that the server took are noted by the kept time,
/// whatever comes after them. A round goes well where it ends with a page that is not full, with no
/// rows, or with as many rows as can be counted.
pub open spec fn history_round<
    H: BtnHttpClient,
    M: BtnMetadataStore,
    S: BtnSubmitSource,
    J: Fn(&LegacyBtnPeerHistoryPing) -> Option<Vec<u8>>,
    P: Fn(&String) -> Option<PowCaptchaData>,
>(
    before: BtnNetwork<H, M>,
    index: int,
    source: S,
    json: J,
    parse: P,
    now_ms: i64,
    clock_ms: i64,
    times: Seq<i64>,
    pages: Seq<Seq<BtnPeerHistoryRow>>,
    after: BtnNetwork<H, M>,
    outcome: AbilityOutcome,
) -> bool {
    let (start, kept) = history_start(before.metadata.data(), clock_ms);
    let ability = before.abilities@[index];
    &&& history_pages_taken(before, ability, source, json, parse, now_ms, times, pages)
    &&& times[0] == start
    &&& after.metadata.data() == if pages.len() > 0 {
        kept.insert(METADATA_KEY_HISTORY_TIMESTAMP@, decimal_int(times.last() as int))
    } else {
        kept
    }
    &&& match outcome {
        AbilityOutcome::Reported { updated, status: true } => {
            &&& updated == (pages.len() > 0)
            &&& after == (BtnNetwork { metadata: after.metadata, ..before })
            &&& {
                ||| pages.len() > 0 && pages.last().len() < HISTORY_PAGE_SIZE
                ||| source.gives_histories(times.last(), HISTORY_PAGE_SIZE, Seq::empty())
                ||| rows_in(pages) >= usize::MAX
            }
        },
        AbilityOutcome::Reported { updated, status: false } => {
            &&& !updated
            &&& only_failed(BtnNetwork { metadata: after.metadata, ..before }, index, after)
            &&& exists|rows: Seq<BtnPeerHistoryRow>|
                {
                    &&& rows.len() > 0
                    &&& #[trigger] source.gives_histories(times.last(), HISTORY_PAGE_SIZE, rows)
                    &&& history_page_ends(before, ability, json, parse, rows, now_ms, false)
                }
        },
        AbilityOutcome::Skipped => false,
    }
}

/// What reporting peers may make of a client: nothing where another round is still under way, the
/// ability is gone or there is no source.
pub open spec fn histories_submitted<
    H: BtnHttpClient,
    M: BtnMetadataStore,
    S: BtnSubmitSource,
    J: Fn(&LegacyBtnPeerHistoryPing) -> Option<Vec<u8>>,
    P: Fn(&String) -> Option<PowCaptchaData>,
>(
    before: BtnNetwork<H, M>,
    index: int,
    under_way: bool,
    source: Option<&S>,
    json: J,
    parse: P,
    after: BtnNetwork<H, M>,
    outcome: AbilityOutcome,
) -> bool {
    if under_way {
        after == before && outcome == AbilityOutcome::Skipped
    } else if index >= before.abilities@.len() || source is None {
        after == before && outcome == nothing_to_report(index < before.abilities@.len())
    } else {
        exists|
            now_ms: i64,
            clock_ms: i64,
            times: Seq<i64>,
            pages: Seq<Seq<BtnPeerHistoryRow>>,
        | #[trigger]
            history_round(
                before,
                index,
                *source->0,
                json,
                parse,
                now_ms,
                clock_ms,
                times,
                pages,
                after,
                outcome,
            )
    }
}

impl<H: BtnHttpClient, M: BtnMetadataStore> BtnNetwork<H, M> {
    /// Reports the peers seen since the kept time, page by page. The kept time moves on with each
    /// page that the server took. A round is skipped where another one is still under way.
    #[verifier::loop_isolation(false)]
    pub fn run_submit_histories<
        S: BtnSubmitSource,
        J: Fn(&LegacyBtnPeerHistoryPing) -> Option<Vec<u8>> + Copy,
        P: Fn(&String) -> Option<PowCaptchaData> + Copy,
    >(&mut self, index: usize, under_way: bool, source: Option<&S>, json: J, parse: P) -> (outcome:
        AbilityOutcome)
        requires
            reads_any(parse),
            forall|ping: &LegacyBtnPeerHistoryPing| json.requires((ping,)),
        ensures
            histories_submitted(
                *old(self),
                index as int,
                under_way,
                source,
                json,
                parse,
                *final(self),
                outcome,
            ),
    {
        if under_way {
            return AbilityOutcome::Skipped;
        }
        if let Some(outcome) = submission_start(index < self.abilities.len(), source.is_some()) {
            return outcome;
        }
        let rows_of = source.unwrap();
        let ghost before = *self;
        let ghost ability = before.abilities@[index as int];
        let ghost mut pages: Seq<Seq<BtnPeerHistoryRow>> = Seq::empty();
        let now_ms = now_millis();
        let clock_ms = now_millis();
        let mut submission = HistorySubmission::start(&mut self.metadata, clock_ms);
        let ghost kept = self.metadata.data();
        let ghost mut times: Seq<i64> = seq![submission.last_submit_at];
        loop
            invariant
                *self == (BtnNetwork { metadata: self.metadata, ..before }),
                history_pages_taken(
                    before,
                    ability,
                    *rows_of,
                    json,
                    parse,
                    now_ms,
                    times,
                    pages,
                ),
                (times[0], kept) == history_start(before.metadata.data(), clock_ms),
                times.last() == submission.last_submit_at,
                pages.len() > 0 ==> pages.last().len() >= HISTORY_PAGE_SIZE,
                submission.total == rows_in(pages),
                pages.len() > 0 <==> submission.total > 0,
                self.metadata.data() == (if pages.len() > 0 {
                    kept.insert(
                        METADATA_KEY_HISTORY_TIMESTAMP@,
                        decimal_int(submission.last_submit_at as int),
                    )
                } else {
                    kept
                }),
            decreases usize::MAX - submission.total,
        {
            let ghost mid = *self;
            let ghost since = submission.last_submit_at;
            let rows = rows_of.batch_peer_history(submission.last_submit_at, HISTORY_PAGE_SIZE);
            let ghost given = rows@;
            let step = self.submit_history_page(
                index,
                &mut submission,
                rows,
                now_ms,
                json,
                parse,
            );
            proof {
                if step != PageStep::Empty {
                    let bytes = choose|bytes: Option<Vec<u8>>| #[trigger]
                        history_bytes(json, given, now_ms, bytes) && posted(
                            mid,
                            parse,
                            ability,
                            bytes,
                            step is Posted,
                        );
                    lemma_posted_alike(mid, before, parse, ability, bytes, step is Posted);
                    assert(history_page_ends(
                        before,
                        ability,
                        json,
                        parse,
                        given,
                        now_ms,
                        step is Posted,
                    ));
                }
            }
            if let PageStep::Posted { more } = step {
                proof {
                    let old_pages = pages;
                    let old_times = times;
                    pages = pages.push(given);
                    times = times.push(submission.last_submit_at);
                    assert(pages.drop_last() =~= old_pages);
                    assert(time_follows(since, given, submission.last_submit_at));
                    assert forall|k: int| 0 <= k < pages.len() implies {
                        &&& (#[trigger] pages[k]).len() > 0
                        &&& rows_of.gives_histories(times[k], HISTORY_PAGE_SIZE, pages[k])
                        &&& history_page_ends(before, ability, json, parse, pages[k], now_ms, true)
                        &&& time_follows(times[k], pages[k], times[k + 1])
                        &&& k + 1 < pages.len() ==> pages[k].len() >= HISTORY_PAGE_SIZE
                    } by {
                        if k < old_pages.len() {
                            assert(old_pages[k] == pages[k]);
                            assert(old_times[k] == times[k]);
                            assert(old_times[k + 1] == times[k + 1]);
                        }
                    }
                }
                if more && submission.total < usize::MAX {
                    continue;
                }
            }
            proof {
                match step {
                    PageStep::Empty => {
                        assert(given =~= Seq::empty());
                    },
                    PageStep::Posted { more } => {
                        assert(pages.last() == given);
                        assert(self.metadata.data() =~= kept.insert(
                            METADATA_KEY_HISTORY_TIMESTAMP@,
                            decimal_int(submission.last_submit_at as int),
                        ));
                        assert(submission.total > 0);
                    },
                    PageStep::Failed => {
                        assert(only_failed(mid, index as int, *self));
                        assert(mid == (BtnNetwork { metadata: self.metadata, ..before }));
                        assert(rows_of.gives_histories(since, HISTORY_PAGE_SIZE, given));
                    },
                }
            }
            let outcome = submission_end(step, submission.total);
            assert(history_round(
                before,
                index as int,
                *rows_of,
                json,
                parse,
                now_ms,
                clock_ms,
                times,
                pages,
                *self,
                outcome,
            ));
            return outcome;
        }
    }
}

// ---------------------------------------------------------------- older servers
/// What reporting connected peers may make of a client: nothing where the ability is gone or there is no
/// source.
pub open spec fn legacy_peers_submitted<
    H: BtnHttpClient,
    M: BtnMetadataStore,
    S: BtnSubmitSource,
    J: Fn(&LegacyBtnPeerPing) -> Option<Vec<u8>>,
    P: Fn(&String) -> Option<PowCaptchaData>,
>(
    before: BtnNetwork<H, M>,
    index: int,
    source: Option<&S>,
    json: J,
    parse: P,
    after: BtnNetwork<H, M>,
    outcome: AbilityOutcome,
) -> bool {
    if index >= before.abilities@.len() || source is None {
        after == before && outcome == nothing_to_report(index < before.abilities@.len())
    } else {
        exists|rows: Seq<BtnLegacyPeerRow>, now_ms: i64|
            {
                &&& #[trigger] source->0.gives_peers(rows)
                &&& #[trigger] legacy_peers_reported(
                    before,
                    index,
                    rows,
                    now_ms,
                    json,
                    parse,
                    after,
                    outcome,
                )
            }
    }
}

/// What reporting bans in force may make of a client: nothing where the ability is gone or there is no
/// source.
pub open spec fn legacy_bans_submitted<
    H: BtnHttpClient,
    M: BtnMetadataStore,
    S: BtnSubmitSource,
    J: Fn(&LegacyBtnBanPing) -> Option<Vec<u8>>,
    P: Fn(&String) -> Option<PowCaptchaData>,
>(
    before: BtnNetwork<H, M>,
    index: int,
    source: Option<&S>,
    json: J,
    parse: P,
    after: BtnNetwork<H, M>,
    outcome: AbilityOutcome,
) -> bool {
    if index >= before.abilities@.len() || source is None {
        after == before && outcome == nothing_to_report(index < before.abilities@.len())
    } else {
        exists|rows: Seq<BtnLegacyBanRow>, now_ms: i64|
            {
                &&& #[trigger] source->0.gives_legacy_bans(rows)
                &&& #[trigger] legacy_bans_reported(
                    before,
                    index,
                    rows,
                    now_ms,
                    json,
                    parse,
                    after,
                    outcome,
                )
            }
    }
}

impl<H: BtnHttpClient, M: BtnMetadataStore> BtnNetwork<H, M> {
    /// Reports the connected peers to an older server.
    pub fn run_legacy_submit_peers<
        S: BtnSubmitSource,
        J: Fn(&LegacyBtnPeerPing) -> Option<Vec<u8>>,
        P: Fn(&String) -> Option<PowCaptchaData>,
    >(&mut self, index: usize, source: Option<&S>, json: J, parse: P) -> (outcome: AbilityOutcome)
        requires
            reads_any(parse),
            forall|ping: &LegacyBtnPeerPing| json.requires((ping,)),
        ensures
            legacy_peers_submitted(
                *old(self),
                index as int,
                source,
                json,
                parse,
                *final(self),
                outcome,
            ),
    {
        if let Some(outcome) = submission_start(index < self.abilities.len(), source.is_some()) {
            return outcome;
        }
        let rows = source.unwrap().legacy_peer_snapshot();
        let now_ms = now_millis();
        self.submit_legacy_peers(index, rows, now_ms, json, parse)
    }

    /// Reports to an older server the bans that began since the last report.
    pub fn run_legacy_submit_bans<
        S: BtnSubmitSource,
        J: Fn(&LegacyBtnBanPing) -> Option<Vec<u8>>,
        P: Fn(&String) -> Option<PowCaptchaData>,
    >(&mut self, index: usize, source: Option<&S>, json: J, parse: P) -> (outcome: AbilityOutcome)
        requires
            reads_any(parse),
            forall|ping: &LegacyBtnBanPing| json.requires((ping,)),
        ensures
            legacy_bans_submitted(
                *old(self),
                index as int,
                source,
                json,
                parse,
                *final(self),
                outcome,
            ),
    {
        if let Some(outcome) = submission_start(index < self.abilities.len(), source.is_some()) {
            return outcome;
        }
        let rows = source.unwrap().legacy_ban_snapshot();
        let now_ms = now_millis();
        self.submit_legacy_bans(index, rows, now_ms, json, parse)
    }
}

// ------------------------------------------------------------------------ laws
/// The next round of reports about bans starts behind the last page that the server took, however
/// this round ended; where it took none, it starts where this one did.
pub proof fn ban_rounds_join<
    H: BtnHttpClient,
    M: BtnMetadataStore,
    S: BtnSubmitSource,
    J: Fn(&BtnBanPing) -> Option<Vec<u8>>,
    P: Fn(&String) -> Option<PowCaptchaData>,
>(
    before: BtnNetwork<H, M>,
    index: int,
    source: S,
    json: J,
    parse: P,
    pages: Seq<Seq<BtnBanHistoryRow>>,
    after: BtnNetwork<H, M>,
    outcome: AbilityOutcome,
)
    requires
        ban_round(before, index, source, json, parse, pages, after, outcome),
    ensures
        stored_i64(after.metadata.data(), METADATA_KEY_BANS_CURSOR@, 0) == (if pages.len() > 0 {
            max_ban_id(pages.last())
        } else {
            stored_i64(before.metadata.data(), METADATA_KEY_BANS_CURSOR@, 0)
        }),
{
    if pages.len() > 0 {
        next_ban_round_goes_on(before.metadata.data(), max_ban_id(pages.last()));
    }
}

/// The next round of reports about swarms starts behind the last row that the server took.
pub proof fn swarm_rounds_join<
    H: BtnHttpClient,
    M: BtnMetadataStore,
    S: BtnSubmitSource,
    J: Fn(&BtnSwarmPeerPing) -> Option<Vec<u8>>,
    P: Fn(&String) -> Option<PowCaptchaData>,
>(
    before: BtnNetwork<H, M>,
    index: int,
    source: S,
    json: J,
    parse: P,
    pages: Seq<Seq<BtnSwarmHistoryRow>>,
    after: BtnNetwork<H, M>,
    outcome: AbilityOutcome,
)
    requires
        swarm_round(before, index, source, json, parse, pages, after, outcome),
    ensures
        stored_swarm_cursor(after.metadata.data()) == (if pages.len() > 0 {
            (pages.last().last().last_time_seen_ms, pages.last().last().id)
        } else {
            stored_swarm_cursor(before.metadata.data())
        }),
{
    if pages.len() > 0 {
        let row = pages.last().last();
        kept_swarm_cursor_is_read_back(row.last_time_seen_ms, row.id);
    }
}

/// The next round of reports about peers goes on at the time that this one reached, unless that is
/// too old by then.
pub proof fn history_rounds_join<
    H: BtnHttpClient,
    M: BtnMetadataStore,
    S: BtnSubmitSource,
    J: Fn(&LegacyBtnPeerHistoryPing) -> Option<Vec<u8>>,
    P: Fn(&String) -> Option<PowCaptchaData>,
>(
    before: BtnNetwork<H, M>,
    index: int,
    source: S,
    json: J,
    parse: P,
    now_ms: i64,
    clock_ms: i64,
    times: Seq<i64>,
    pages: Seq<Seq<BtnPeerHistoryRow>>,
    after: BtnNetwork<H, M>,
    outcome: AbilityOutcome,
    later_ms: i64,
)
    requires
        history_round(
            before,
            index,
            source,
            json,
            parse,
            now_ms,
            clock_ms,
            times,
            pages,
            after,
            outcome,
        ),
        times.last() >= later_ms - HISTORY_MAX_AGE_MS,
    ensures
        history_start(after.metadata.data(), later_ms).0 == times.last(),
{
    if pages.len() > 0 {
        let kept = history_start(before.metadata.data(), clock_ms).1;
        kept_number_is_read_back(kept, METADATA_KEY_HISTORY_TIMESTAMP@, times.last());
    } else {
        assert(times.last() == times[0]);
        kept_number_is_read_back(
            before.metadata.data(),
            METADATA_KEY_HISTORY_TIMESTAMP@,
            clock_ms,
        );
    }
}

/// What may come of a report depends on how a client reaches its server alone.
proof fn lemma_posted_alike<
    H: BtnHttpClient,
    M,
    P: Fn(&String) -> Option<PowCaptchaData>,
>(
    a: BtnNetwork<H, M>,
    b: BtnNetwork<H, M>,
    parse: P,
    ability: BtnAbility,
    json: Option<Vec<u8>>,
    ok: bool,
)
    requires
        a.http == b.http,
        a.config == b.config,
        a.pow_endpoint == b.pow_endpoint,
        posted(a, parse, ability, json, ok),
    ensures
        posted(b, parse, ability, json, ok),
{
    if let Some(body) = report_body(json) {
        let r = report_view(a.config, ability.endpoint@, body);
        let kind = ability.kind.pow_text();
        let reply = choose|reply: Result<BtnHttpResponse, String>|
            {
                &&& #[trigger] exchanged(a, parse, ability.pow_captcha, kind, r, reply)
                &&& ok == (reply is Ok && reply->Ok_0.successful())
            };
        let sent = choose|sent: RequestView|
            {
                &&& if ability.pow_captcha {
                    proven(a, parse, kind, r, sent)
                } else {
                    sent == r
                }
                &&& #[trigger] a.http.answers(sent, reply)
            };
        assert(b.http.answers(sent, reply));
        if ability.pow_captcha {
            assert(proven(b, parse, kind, r, sent));
        }
        assert(exchanged(b, parse, ability.pow_captcha, kind, r, reply));
    }
}

/// Without a source nothing is reported: an ability that is there succeeds and one that is not fails.
pub proof fn nothing_is_reported_without_a_source<
    H: BtnHttpClient,
    M: BtnMetadataStore,
    S: BtnSubmitSource,
    J: Fn(&BtnBanPing) -> Option<Vec<u8>>,
    W: Fn(&BtnSwarmPeerPing) -> Option<Vec<u8>>,
    P: Fn(&String) -> Option<PowCaptchaData>,
>(
    before: BtnNetwork<H, M>,
    index: int,
    json: J,
    swarms: W,
    parse: P,
    after: BtnNetwork<H, M>,
    outcome: AbilityOutcome,
)
    requires
        0 <= index,
        bans_submitted::<H, M, S, J, P>(before, index, None, json, parse, after, outcome)
            || swarms_submitted::<H, M, S, W, P>(before, index, None, swarms, parse, after, outcome),
    ensures
        after == before,
        outcome == (AbilityOutcome::Reported {
            updated: false,
            status: index < before.abilities@.len(),
        }),
{
}

/// Pages hold up to 100 bans, 1000 peers of swarms and 5000 histories; each but the last is full,
/// the next begins behind the last row of the one before, and what was reported is kept as the
/// place to go on from.
pub proof fn pages_follow_one_another<
    H: BtnHttpClient,
    M: BtnMetadataStore,
    S: BtnSubmitSource,
    J: Fn(&BtnBanPing) -> Option<Vec<u8>>,
    P: Fn(&String) -> Option<PowCaptchaData>,
>(
    before: BtnNetwork<H, M>,
    index: int,
    source: S,
    json: J,
    parse: P,
    pages: Seq<Seq<BtnBanHistoryRow>>,
    after: BtnNetwork<H, M>,
    outcome: AbilityOutcome,
    k: int,
)
    requires
        ban_round(before, index, source, json, parse, pages, after, outcome),
        0 <= k < pages.len(),
    ensures
        pages[k].len() > 0,
        k + 1 < pages.len() ==> pages[k].len() >= 100 && source.gives_bans(
            max_ban_id(pages[k]),
            100,
            pages[k + 1],
        ),
        k == 0 ==> source.gives_bans(
            stored_i64(before.metadata.data(), "BtnAbilitySubmitBans.cursor"@, 0),
            100,
            pages[0],
        ),
        after.metadata.data() == before.metadata.data().insert(
            "BtnAbilitySubmitBans.cursor"@,
            decimal_int(max_ban_id(pages.last()) as int),
        ),
        outcome matches AbilityOutcome::Reported { updated, status } && updated == status,
{
    assert(pages[k].len() > 0);
    if k + 1 < pages.len() {
        assert(pages[k + 1].len() > 0);
    }
}

/// Swarms are reported by the time and id of the last row of each page, 1000 at a time.
pub proof fn swarm_pages_follow_one_another<
    H: BtnHttpClient,
    M: BtnMetadataStore,
    S: BtnSubmitSource,
    J: Fn(&BtnSwarmPeerPing) -> Option<Vec<u8>>,
    P: Fn(&String) -> Option<PowCaptchaData>,
>(
    before: BtnNetwork<H, M>,
    index: int,
    source: S,
    json: J,
    parse: P,
    pages: Seq<Seq<BtnSwarmHistoryRow>>,
    after: BtnNetwork<H, M>,
    outcome: AbilityOutcome,
    k: int,
)
    requires
        swarm_round(before, index, source, json, parse, pages, after, outcome),
        0 <= k < pages.len(),
    ensures
        pages[k].len() > 0,
        k + 1 < pages.len() ==> pages[k].len() >= 1000 && source.gives_swarms(
            pages[k].last().last_time_seen_ms,
            pages[k].last().id,
            1000,
            pages[k + 1],
        ),
        after.metadata.data() == before.metadata.data().insert(
            "BtnAbilitySubmitSwarm.cursor"@,
            decimal_int(pages.last().last().last_time_seen_ms as int) + ","@ + decimal_int(
                pages.last().last().id as int,
            ),
        ),
        outcome matches AbilityOutcome::Reported { updated, status } && updated == status,
{
    assert(pages[k].len() > 0);
    if k + 1 < pages.len() {
        assert(pages[k + 1].len() > 0);
    }
}

/// Histories are reported 5000 at a time from the kept time on, or from now on where none is kept,
/// and the time reached is kept; while a round is under way no other begins.
pub proof fn histories_go_on_from_the_kept_time<
    H: BtnHttpClient,
    M: BtnMetadataStore,
    S: BtnSubmitSource,
    J: Fn(&LegacyBtnPeerHistoryPing) -> Option<Vec<u8>>,
    P: Fn(&String) -> Option<PowCaptchaData>,
>(
    before: BtnNetwork<H, M>,
    index: int,
    source: S,
    json: J,
    parse: P,
    now_ms: i64,
    clock_ms: i64,
    times: Seq<i64>,
    pages: Seq<Seq<BtnPeerHistoryRow>>,
    after: BtnNetwork<H, M>,
    outcome: AbilityOutcome,
    k: int,
)
    requires
        history_round(
            before,
            index,
            source,
            json,
            parse,
            now_ms,
            clock_ms,
            times,
            pages,
            after,
            outcome,
        ),
        0 <= k < pages.len(),
    ensures
        stored_history_time(before.metadata.data(), clock_ms) matches Some(t) ==> times[0] == t,
        stored_history_time(before.metadata.data(), clock_ms) is None ==> times[0] == clock_ms,
        source.gives_histories(times[k], 5000, pages[k]),
        k + 1 < pages.len() ==> pages[k].len() >= 5000,
        after.metadata.data().contains_key("btn.submithistory.timestamp"@),
        after.metadata.data()["btn.submithistory.timestamp"@] == decimal_int(times.last() as int),
        outcome matches AbilityOutcome::Reported { updated, status } && updated == status,
        histories_submitted::<H, M, S, J, P>(
            before,
            index,
            true,
            Some(&source),
            json,
            parse,
            after,
            outcome,
        ) ==> after == before && outcome == AbilityOutcome::Skipped,
{
    assert(pages[k].len() > 0);
}

} // verus!

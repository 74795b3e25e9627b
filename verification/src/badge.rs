//! The badge of a report: a mint of its own, one unit of it in the
//! reporter's holding, a description of the mint, and the mint's address on
//! the report.
//!
//! The steps come in a fixed order. The mint is created first; the holding
//! is opened and the unit issued into it, and the description recorded,
//! only then; the report is marked last. They take effect together or not
//! at all: whatever could refuse a later step is looked at before the first
//! is taken.

use vstd::prelude::*;
use crate::address::Address;
use crate::error::RegistryError;
use crate::ledger::{
    create_metadata_step, create_mint_step, mint_to_step, open_holding_step, went, AccountView,
    Ledger, Metadata, MetadataView, RecordView, State,
};
use crate::report::{
    lemma_parse_record_bytes, lemma_record_len, lemma_record_of_parse, new_report, record_bytes,
    Limits, ReportView,
};
use crate::store::{create_at, create_step, get_at, report_at, Config};

verus! {

/// The decimal places of a badge: none.
pub const BADGE_DECIMALS: u8 = 0;

/// The units of a badge: one.
pub const BADGE_SUPPLY: u64 = 1;

/// The description of the badge `mint`: the reporter is its mint authority
/// and its update authority; no royalty, no creators, no collection, no
/// counted use.
pub open spec fn badge_description(
    mint: Seq<u8>,
    reporter: Seq<u8>,
    title: Seq<char>,
    symbol: Seq<char>,
    content_uri: Seq<char>,
) -> MetadataView {
    MetadataView {
        mint,
        mint_authority: reporter,
        update_authority: reporter,
        name: title,
        symbol,
        uri: content_uri,
        seller_fee_basis_points: 0,
        creators: None,
        collection: None,
        uses: None,
    }
}

/// The report with `mint` as its badge.
pub open spec fn badged_report(report: ReportView, mint: Seq<u8>) -> ReportView {
    ReportView {
        repository_id: report.repository_id,
        report_url: report.report_url,
        reporter: report.reporter,
        timestamp: report.timestamp,
        badge_reference: mint,
    }
}

/// The state in which the record at `address` is that of `report`; the
/// record's owner and space stay.
pub open spec fn marked(state: State, address: Seq<u8>, report: ReportView) -> State {
    match state[address] {
        AccountView::Record(record) => state.insert(
            address,
            AccountView::Record(
                RecordView { owner: record.owner, space: record.space, data: record_bytes(report) },
            ),
        ),
        _ => state,
    }
}

/// Issuing the badge of the report at `report_address`.
///
/// Refused with `NotFound` where no report is kept there; else with
/// `AlreadyExists` where the mint's address is in use; else with
/// `DependencyFailure` where the token service refuses to open the holding
/// or to issue the unit, or the metadata registry to record the
/// description. Where nothing is refused, the mint exists with the reporter
/// as its authority, the holding has the one unit, the description is
/// recorded, and the report names the mint.
pub open spec fn issue_badge_step(
    state: State,
    program_id: Seq<u8>,
    report_address: Seq<u8>,
    mint: Seq<u8>,
    holding: Seq<u8>,
    metadata: Seq<u8>,
    title: Seq<char>,
    symbol: Seq<char>,
    content_uri: Seq<char>,
) -> Result<State, RegistryError> {
    match report_at(state, program_id, report_address) {
        None => Err(RegistryError::NotFound),
        Some(report) => match create_mint_step(state, mint, BADGE_DECIMALS, report.reporter) {
            Err(error) => Err(error),
            Ok(minted) => match open_holding_step(minted, holding, mint, report.reporter) {
                Err(_) => Err(RegistryError::DependencyFailure),
                Ok(opened) => match mint_to_step(
                    opened,
                    mint,
                    holding,
                    BADGE_SUPPLY,
                    report.reporter,
                ) {
                    Err(_) => Err(RegistryError::DependencyFailure),
                    Ok(issued) => match create_metadata_step(
                        issued,
                        metadata,
                        badge_description(mint, report.reporter, title, symbol, content_uri),
                    ) {
                        Err(_) => Err(RegistryError::DependencyFailure),
                        Ok(described) => Ok(
                            marked(described, report_address, badged_report(report, mint)),
                        ),
                    },
                },
            },
        },
    }
}

/// Storing a report at `report_address` and issuing its badge at once:
/// refused where either is, and then neither has taken place.
pub open spec fn create_and_issue_step(
    state: State,
    program_id: Seq<u8>,
    limits: Limits,
    report_address: Seq<u8>,
    report: ReportView,
    mint: Seq<u8>,
    holding: Seq<u8>,
    metadata: Seq<u8>,
    title: Seq<char>,
    symbol: Seq<char>,
    content_uri: Seq<char>,
) -> Result<State, RegistryError> {
    match create_step(state, program_id, limits, report_address, report) {
        Err(error) => Err(error),
        Ok(created) => issue_badge_step(
            created,
            program_id,
            report_address,
            mint,
            holding,
            metadata,
            title,
            symbol,
            content_uri,
        ),
    }
}

/// What stands in the way of a badge at these addresses, the report's own
/// address being in use or about to be: the mint's address in use
/// (`AlreadyExists`), or the holding's or the description's address in use
/// or the same as another of the four (`DependencyFailure`).
pub open spec fn badge_obstacle(
    state: State,
    report_address: Seq<u8>,
    mint: Seq<u8>,
    holding: Seq<u8>,
    metadata: Seq<u8>,
) -> Option<RegistryError> {
    if state.dom().contains(mint) || mint == report_address {
        Some(RegistryError::AlreadyExists)
    } else if state.dom().contains(holding) || holding == report_address || holding == mint {
        Some(RegistryError::DependencyFailure)
    } else if state.dom().contains(metadata) || metadata == report_address || metadata == mint
        || metadata == holding {
        Some(RegistryError::DependencyFailure)
    } else {
        None
    }
}

/// Looks for what stands in the way of a badge at these addresses.
pub fn find_badge_obstacle(
    ledger: &Ledger,
    report_address: &Address,
    mint: &Address,
    holding: &Address,
    metadata: &Address,
) -> (obstacle: Option<RegistryError>)
    ensures
        obstacle == badge_obstacle(ledger@, report_address@, mint@, holding@, metadata@),
{
    if ledger.contains(mint) || *mint == *report_address {
        Some(RegistryError::AlreadyExists)
    } else if ledger.contains(holding) || *holding == *report_address || *holding == *mint {
        Some(RegistryError::DependencyFailure)
    } else if ledger.contains(metadata) || *metadata == *report_address || *metadata == *mint
        || *metadata == *holding {
        Some(RegistryError::DependencyFailure)
    } else {
        None
    }
}

/// Issues the badge of the report kept at `report_address`: creates the
/// mint at `mint`, issues one unit of it into the reporter's holding at
/// `holding`, records at `metadata` the description with the given title,
/// symbol and content location, and writes the mint's address on the
/// report. A report that has a badge already is not told apart: with
/// another mint the badge is issued and takes the place of the first.
pub fn issue_badge_at(
    ledger: &mut Ledger,
    program_id: &Address,
    report_address: &Address,
    mint: Address,
    holding: Address,
    metadata: Address,
    title: String,
    symbol: String,
    content_uri: String,
) -> (result: Result<(), RegistryError>)
    ensures
        went(
            issue_badge_step(
                old(ledger)@,
                program_id@,
                report_address@,
                mint@,
                holding@,
                metadata@,
                title@,
                symbol@,
                content_uri@,
            ),
            result,
            old(ledger)@,
            final(ledger)@,
        ),
{
    let mut report = match get_at(ledger, program_id, report_address) {
        Some(report) => report,
        None => { return Err(RegistryError::NotFound); },
    };
    if let Some(obstacle) = find_badge_obstacle(ledger, report_address, &mint, &holding, &metadata) {
        return Err(obstacle);
    }
    let ghost before = report@;
    let ghost data = old(ledger)@[report_address@]->Record_0.data;
    proof {
        lemma_record_of_parse(data);
        lemma_record_len(before);
        lemma_record_len(badged_report(before, mint@));
    }
    report.badge_reference = mint;
    let bytes = match report.encode() {
        Some(bytes) => bytes,
        None => { return Err(RegistryError::DependencyFailure); },
    };
    let reporter = report.reporter;
    let description = Metadata {
        mint,
        mint_authority: reporter,
        update_authority: reporter,
        name: title,
        symbol,
        uri: content_uri,
        seller_fee_basis_points: 0,
        creators: None,
        collection: None,
        uses: None,
    };
    // Nothing stands in the way, so that none of the steps can be refused.
    if let Err(error) = ledger.create_mint(mint, BADGE_DECIMALS, reporter) {
        return Err(error);
    }
    if ledger.open_holding(holding, mint, reporter).is_err() {
        return Err(RegistryError::DependencyFailure);
    }
    if ledger.mint_to(&mint, &holding, BADGE_SUPPLY, &reporter).is_err() {
        return Err(RegistryError::DependencyFailure);
    }
    if ledger.create_metadata(metadata, description).is_err() {
        return Err(RegistryError::DependencyFailure);
    }
    if ledger.write(report_address, bytes).is_err() {
        return Err(RegistryError::DependencyFailure);
    }
    Ok(())
}

/// Stores at `report_address` the report of `reporter` on `repository_id`,
/// made at the time `now`, and issues its badge, as one: where the badge
/// cannot be issued, no report is stored.
pub fn create_and_issue_at(
    ledger: &mut Ledger,
    config: &Config,
    report_address: Address,
    reporter: Address,
    repository_id: String,
    report_url: String,
    now: i64,
    mint: Address,
    holding: Address,
    metadata: Address,
    title: String,
    symbol: String,
    content_uri: String,
) -> (result: Result<(), RegistryError>)
    ensures
        went(
            create_and_issue_step(
                old(ledger)@,
                config.program_id@,
                config.limits,
                report_address@,
                new_report(reporter@, repository_id@, report_url@, now),
                mint@,
                holding@,
                metadata@,
                title@,
                symbol@,
                content_uri@,
            ),
            result,
            old(ledger)@,
            final(ledger)@,
        ),
{
    if ledger.contains(&report_address) {
        return Err(RegistryError::AlreadyExists);
    }
    if !config.limits.allow(repository_id.as_str(), report_url.as_str()) {
        return Err(RegistryError::CapacityExceeded);
    }
    proof {
        lemma_parse_record_bytes(
            new_report(reporter@, repository_id@, report_url@, now),
            Seq::empty(),
        );
        assert(record_bytes(new_report(reporter@, repository_id@, report_url@, now))
            + Seq::<u8>::empty() =~= record_bytes(
            new_report(reporter@, repository_id@, report_url@, now),
        ));
    }
    if let Some(obstacle) = find_badge_obstacle(ledger, &report_address, &mint, &holding, &metadata) {
        return Err(obstacle);
    }
    // The report can be stored and nothing stands in the way of the badge,
    // so that neither call can be refused.
    if let Err(error) = create_at(
        ledger,
        config,
        report_address,
        reporter,
        repository_id,
        report_url,
        now,
    ) {
        return Err(error);
    }
    issue_badge_at(
        ledger,
        &config.program_id,
        &report_address,
        mint,
        holding,
        metadata,
        title,
        symbol,
        content_uri,
    )
}

} // verus!

//! The operations that callers reach: storing a report, issuing its badge,
//! and both at once.
//!
//! Each runs to its end as one unit: it either takes effect in full or is
//! refused with one error and changes nothing. The caller hands in who
//! signs, what the clock reads and, for a badge, where the holding and the
//! description are to be kept; the addresses of the report and of the mint
//! are derived here.

use vstd::prelude::*;
use crate::address::Address;
use crate::badge::{
    create_and_issue_at, create_and_issue_step, issue_badge_at, issue_badge_step,
};
use crate::derive::{
    badge_mint_address, derive_badge_mint_address, derive_report_address, report_address,
};
use crate::error::RegistryError;
use crate::ledger::{went, Ledger, State};
use crate::report::{new_report, Limits};
use crate::store::{create, create_outcome, get_at, report_at, Config};

verus! {

/// The bytes that the deployed program reserves for a repository identifier.
pub const MAX_REPOSITORY_ID_LEN: u32 = 200;

/// The bytes that the deployed program reserves for a report location.
pub const MAX_REPORT_URL_LEN: u32 = 1000;

/// The identity of the deployed program, as bytes.
pub open spec fn program_id_bytes() -> Seq<u8> {
    seq![
        10u8, 18u8, 32u8, 175u8, 203u8, 119u8, 39u8, 189u8, 9u8, 222u8, 233u8, 151u8, 79u8,
        104u8, 145u8, 36u8, 77u8, 172u8, 61u8, 240u8, 79u8, 72u8, 85u8, 193u8, 42u8, 82u8, 99u8,
        249u8, 12u8, 207u8, 63u8, 141u8,
    ]
}

/// The identity of the deployed program.
pub fn program_id() -> (id: Address)
    ensures
        id@ == program_id_bytes(),
{
    let id = Address {
        bytes: [
            10, 18, 32, 175, 203, 119, 39, 189, 9, 222, 233, 151, 79, 104, 145, 36, 77, 172, 61,
            240, 79, 72, 85, 193, 42, 82, 99, 249, 12, 207, 63, 141,
        ],
    };
    assert(id@ =~= program_id_bytes());
    id
}

/// The configuration of the deployed program.
pub fn deployed() -> (config: Config)
    ensures
        config.program_id@ == program_id_bytes(),
        config.limits == (Limits {
            max_repository_id_len: MAX_REPOSITORY_ID_LEN,
            max_report_url_len: MAX_REPORT_URL_LEN,
        }),
{
    Config {
        program_id: program_id(),
        limits: Limits {
            max_repository_id_len: MAX_REPOSITORY_ID_LEN,
            max_report_url_len: MAX_REPORT_URL_LEN,
        },
    }
}

/// What a call of `initialize` runs against: nothing.
#[derive(Clone, Copy, Debug)]
pub struct Initialize {}

/// What a call of `store_vulnerability_report` runs against.
#[derive(Clone, Copy, Debug)]
pub struct StoreVulnerabilityReport {
    /// Who signs the call: the reporter.
    pub reporter: Address,
    /// What the clock reads.
    pub timestamp: i64,
}

/// What a call of `issue_badge` runs against.
#[derive(Clone, Copy, Debug)]
pub struct IssueBadge {
    /// Who signs the call: the reporter.
    pub reporter: Address,
    /// Where the reporter's holding of the badge is to be kept.
    pub holding: Address,
    /// Where the description of the badge is to be kept.
    pub metadata: Address,
}

/// What a call of `store_report_and_issue_badge` runs against.
#[derive(Clone, Copy, Debug)]
pub struct StoreReportAndIssueBadge {
    /// Who signs the call: the reporter.
    pub reporter: Address,
    /// What the clock reads.
    pub timestamp: i64,
    /// Where the reporter's holding of the badge is to be kept.
    pub holding: Address,
    /// Where the description of the badge is to be kept.
    pub metadata: Address,
}

/// Issuing the badge for the report of `reporter` on `repository_id`:
/// refused with `NotFound` where no such report is stored; else with
/// `DependencyFailure` where no address can be derived for the mint; else
/// as `issue_badge_step` says of the derived addresses.
pub open spec fn issue_badge_outcome(
    state: State,
    program_id: Seq<u8>,
    reporter: Seq<u8>,
    repository_id: Seq<char>,
    holding: Seq<u8>,
    metadata: Seq<u8>,
    title: Seq<char>,
    symbol: Seq<char>,
    content_uri: Seq<char>,
) -> Result<State, RegistryError> {
    match report_address(program_id, reporter, repository_id) {
        None => Err(RegistryError::NotFound),
        Some(report) => if report_at(state, program_id, report) is None {
            Err(RegistryError::NotFound)
        } else {
            match badge_mint_address(program_id, reporter, repository_id) {
                None => Err(RegistryError::DependencyFailure),
                Some(mint) => issue_badge_step(
                    state,
                    program_id,
                    report,
                    mint,
                    holding,
                    metadata,
                    title,
                    symbol,
                    content_uri,
                ),
            }
        },
    }
}

/// Storing the report of `reporter` on `repository_id` and issuing its
/// badge: refused with `DependencyFailure` where an address cannot be
/// derived for the report or for the mint; else as `create_and_issue_step`
/// says of the derived addresses.
pub open spec fn store_and_issue_outcome(
    state: State,
    program_id: Seq<u8>,
    limits: Limits,
    reporter: Seq<u8>,
    repository_id: Seq<char>,
    report_url: Seq<char>,
    now: i64,
    holding: Seq<u8>,
    metadata: Seq<u8>,
    title: Seq<char>,
    symbol: Seq<char>,
    content_uri: Seq<char>,
) -> Result<State, RegistryError> {
    match (
        report_address(program_id, reporter, repository_id),
        badge_mint_address(program_id, reporter, repository_id),
    ) {
        (Some(report), Some(mint)) => create_and_issue_step(
            state,
            program_id,
            limits,
            report,
            new_report(reporter, repository_id, report_url, now),
            mint,
            holding,
            metadata,
            title,
            symbol,
            content_uri,
        ),
        _ => Err(RegistryError::DependencyFailure),
    }
}

/// Greets the caller: always accepted, and nothing changes.
pub fn initialize(ctx: &Initialize) -> (result: Result<(), RegistryError>)
    ensures
        result is Ok,
{
    Ok(())
}

/// Stores the report of `ctx.reporter` on `repository_id`, to be read at
/// `report_url`, with the clock's reading as its time and no badge.
pub fn store_vulnerability_report(
    ledger: &mut Ledger,
    config: &Config,
    ctx: &StoreVulnerabilityReport,
    repository_id: String,
    report_url: String,
) -> (result: Result<(), RegistryError>)
    ensures
        went(
            create_outcome(
                old(ledger)@,
                config.program_id@,
                config.limits,
                ctx.reporter@,
                repository_id@,
                report_url@,
                ctx.timestamp,
            ),
            result,
            old(ledger)@,
            final(ledger)@,
        ),
{
    match create(ledger, config, ctx.reporter, repository_id, report_url, ctx.timestamp) {
        Ok(_) => Ok(()),
        Err(error) => Err(error),
    }
}

/// Issues the badge for the report of `ctx.reporter` on `repository_id`,
/// described by `title`, `symbol` and `content_uri`.
pub fn issue_badge(
    ledger: &mut Ledger,
    config: &Config,
    ctx: &IssueBadge,
    repository_id: String,
    title: String,
    symbol: String,
    content_uri: String,
) -> (result: Result<(), RegistryError>)
    ensures
        went(
            issue_badge_outcome(
                old(ledger)@,
                config.program_id@,
                ctx.reporter@,
                repository_id@,
                ctx.holding@,
                ctx.metadata@,
                title@,
                symbol@,
                content_uri@,
            ),
            result,
            old(ledger)@,
            final(ledger)@,
        ),
{
    let report = match derive_report_address(
        &config.program_id,
        &ctx.reporter,
        repository_id.as_str(),
    ) {
        Some(report) => report,
        None => { return Err(RegistryError::NotFound); },
    };
    if get_at(ledger, &config.program_id, &report).is_none() {
        return Err(RegistryError::NotFound);
    }
    let mint = match derive_badge_mint_address(
        &config.program_id,
        &ctx.reporter,
        repository_id.as_str(),
    ) {
        Some(mint) => mint,
        None => { return Err(RegistryError::DependencyFailure); },
    };
    issue_badge_at(
        ledger,
        &config.program_id,
        &report,
        mint,
        ctx.holding,
        ctx.metadata,
        title,
        symbol,
        content_uri,
    )
}

/// Stores the report of `ctx.reporter` on `repository_id` and issues its
/// badge, as one.
pub fn store_report_and_issue_badge(
    ledger: &mut Ledger,
    config: &Config,
    ctx: &StoreReportAndIssueBadge,
    repository_id: String,
    report_url: String,
    title: String,
    symbol: String,
    content_uri: String,
) -> (result: Result<(), RegistryError>)
    ensures
        went(
            store_and_issue_outcome(
                old(ledger)@,
                config.program_id@,
                config.limits,
                ctx.reporter@,
                repository_id@,
                report_url@,
                ctx.timestamp,
                ctx.holding@,
                ctx.metadata@,
                title@,
                symbol@,
                content_uri@,
            ),
            result,
            old(ledger)@,
            final(ledger)@,
        ),
{
    let report = derive_report_address(&config.program_id, &ctx.reporter, repository_id.as_str());
    let mint = derive_badge_mint_address(&config.program_id, &ctx.reporter, repository_id.as_str());
    match (report, mint) {
        (Some(report), Some(mint)) => create_and_issue_at(
            ledger,
            config,
            report,
            ctx.reporter,
            repository_id,
            report_url,
            ctx.timestamp,
            mint,
            ctx.holding,
            ctx.metadata,
            title,
            symbol,
            content_uri,
        ),
        _ => Err(RegistryError::DependencyFailure),
    }
}

} // verus!

//! The report store: a report is created where none is yet, and read.
//!
//! Nothing but the address guards against a second report of the same
//! reporter on the same repository: the address is derived from the two, and
//! the ledger gives an address out once.

use vstd::prelude::*;
use crate::address::Address;
use crate::derive::{derive_report_address, report_address};
use crate::error::RegistryError;
use crate::ledger::{went, Account, AccountView, Ledger, RecordView, State};
use crate::report::{
    lemma_record_len, new_report, parse_record, record_bytes, record_space, report_view, Limits,
    ReportView, VulnerabilityReport, FIXED_LEN,
};

verus! {

/// What is fixed when the registry is deployed: the program's identity,
/// under which every address is derived and which owns every record, and
/// the room that a record reserves for its strings.
#[derive(Clone, Copy, Debug)]
pub struct Config {
    pub program_id: Address,
    pub limits: Limits,
}

/// The report kept at `address`: what the record there reads as, where
/// there is a record and it is the program's.
pub open spec fn report_at(state: State, program_id: Seq<u8>, address: Seq<u8>) -> Option<
    ReportView,
> {
    if state.dom().contains(address) {
        match state[address] {
            AccountView::Record(record) => if record.owner == program_id {
                parse_record(record.data)
            } else {
                None
            },
            _ => None,
        }
    } else {
        None
    }
}

/// How far a report has come: not stored, stored, or stored with a badge.
/// A report only ever moves forward through these.
#[derive(Clone, Copy, Debug, PartialEq, Eq, Structural)]
pub enum Status {
    Unreported,
    Reported,
    Badged,
}

/// How far the report kept at `address` has come.
pub open spec fn status_at(state: State, program_id: Seq<u8>, address: Seq<u8>) -> Status {
    match report_at(state, program_id, address) {
        None => Status::Unreported,
        Some(report) => if report.badged() {
            Status::Badged
        } else {
            Status::Reported
        },
    }
}

/// The state in which `address` holds the record of `report`.
pub open spec fn with_report(
    state: State,
    program_id: Seq<u8>,
    space: u64,
    address: Seq<u8>,
    report: ReportView,
) -> State {
    state.insert(
        address,
        AccountView::Record(
            RecordView { owner: program_id, space, data: record_bytes(report) },
        ),
    )
}

/// Creating the record of `report` at `address`: refused with
/// `AlreadyExists` where the address is in use, whatever it holds; else
/// with `CapacityExceeded` where one of the two strings has more bytes than
/// the record reserves for it.
pub open spec fn create_step(
    state: State,
    program_id: Seq<u8>,
    limits: Limits,
    address: Seq<u8>,
    report: ReportView,
) -> Result<State, RegistryError> {
    if state.dom().contains(address) {
        Err(RegistryError::AlreadyExists)
    } else if !report.within(limits) {
        Err(RegistryError::CapacityExceeded)
    } else {
        Ok(with_report(state, program_id, record_space(limits) as u64, address, report))
    }
}

/// Creating the report of `owner` on `repository_id`: refused with
/// `DependencyFailure` where no address can be derived for it, else as
/// `create_step` says of the derived address.
pub open spec fn create_outcome(
    state: State,
    program_id: Seq<u8>,
    limits: Limits,
    owner: Seq<u8>,
    repository_id: Seq<char>,
    report_url: Seq<char>,
    now: i64,
) -> Result<State, RegistryError> {
    match report_address(program_id, owner, repository_id) {
        None => Err(RegistryError::DependencyFailure),
        Some(address) => create_step(
            state,
            program_id,
            limits,
            address,
            new_report(owner, repository_id, report_url, now),
        ),
    }
}

/// The report of `owner` on `repository_id`, if one is stored.
pub open spec fn get_outcome(
    state: State,
    program_id: Seq<u8>,
    owner: Seq<u8>,
    repository_id: Seq<char>,
) -> Option<ReportView> {
    match report_address(program_id, owner, repository_id) {
        None => None,
        Some(address) => report_at(state, program_id, address),
    }
}

/// The bytes that a record reserves under `limits`.
pub fn space_for(limits: &Limits) -> (space: u64)
    ensures
        space == record_space(*limits),
{
    FIXED_LEN + limits.max_repository_id_len as u64 + limits.max_report_url_len as u64
}

/// Stores at `address` the report of `reporter` on `repository_id`, made at
/// the time `now`, and returns it.
pub fn create_at(
    ledger: &mut Ledger,
    config: &Config,
    address: Address,
    reporter: Address,
    repository_id: String,
    report_url: String,
    now: i64,
) -> (result: Result<VulnerabilityReport, RegistryError>)
    ensures
        went(
            create_step(
                old(ledger)@,
                config.program_id@,
                config.limits,
                address@,
                new_report(reporter@, repository_id@, report_url@, now),
            ),
            result,
            old(ledger)@,
            final(ledger)@,
        ),
        result matches Ok(report) ==> report@ == new_report(
            reporter@,
            repository_id@,
            report_url@,
            now,
        ),
{
    if ledger.contains(&address) {
        return Err(RegistryError::AlreadyExists);
    }
    let report = match VulnerabilityReport::new(
        &config.limits,
        reporter,
        repository_id,
        report_url,
        now,
    ) {
        Ok(report) => report,
        Err(error) => { return Err(error); },
    };
    proof {
        lemma_record_len(report@);
    }
    let bytes = match report.encode() {
        Some(bytes) => bytes,
        None => { return Err(RegistryError::CapacityExceeded); },
    };
    // The address is free and the record keeps within its space, so that
    // neither call can be refused.
    if let Err(error) = ledger.allocate(address, space_for(&config.limits), config.program_id) {
        return Err(error);
    }
    if let Err(error) = ledger.write(&address, bytes) {
        return Err(error);
    }
    assert(ledger@ =~= with_report(
        old(ledger)@,
        config.program_id@,
        record_space(config.limits) as u64,
        address@,
        report@,
    ));
    Ok(report)
}

/// The report kept at `address`.
pub fn get_at(ledger: &Ledger, program_id: &Address, address: &Address) -> (report: Option<
    VulnerabilityReport,
>)
    ensures
        report_view(report) == report_at(ledger@, program_id@, address@),
        report is Some ==> ledger@[address@].fits(),
{
    match ledger.account(address) {
        Some(Account::Record(record)) => {
            if record.owner == *program_id {
                VulnerabilityReport::decode(record.data.as_slice())
            } else {
                None
            }
        },
        _ => None,
    }
}

/// How far the report kept at `address` has come.
pub fn status_of(ledger: &Ledger, program_id: &Address, address: &Address) -> (status: Status)
    ensures
        status == status_at(ledger@, program_id@, address@),
{
    match get_at(ledger, program_id, address) {
        None => Status::Unreported,
        Some(report) => if report.has_badge() {
            Status::Badged
        } else {
            Status::Reported
        },
    }
}

/// Stores the report of `owner` on `repository_id`, made at the time `now`,
/// and returns it.
pub fn create(
    ledger: &mut Ledger,
    config: &Config,
    owner: Address,
    repository_id: String,
    report_url: String,
    now: i64,
) -> (result: Result<VulnerabilityReport, RegistryError>)
    ensures
        went(
            create_outcome(
                old(ledger)@,
                config.program_id@,
                config.limits,
                owner@,
                repository_id@,
                report_url@,
                now,
            ),
            result,
            old(ledger)@,
            final(ledger)@,
        ),
        result matches Ok(report) ==> report@ == new_report(
            owner@,
            repository_id@,
            report_url@,
            now,
        ),
{
    match derive_report_address(&config.program_id, &owner, repository_id.as_str()) {
        None => Err(RegistryError::DependencyFailure),
        Some(address) => create_at(ledger, config, address, owner, repository_id, report_url, now),
    }
}

/// The report of `owner` on `repository_id`; none where none is stored.
pub fn get(ledger: &Ledger, config: &Config, owner: &Address, repository_id: &str) -> (report:
    Option<VulnerabilityReport>)
    ensures
        report_view(report) == get_outcome(ledger@, config.program_id@, owner@, repository_id@),
{
    match derive_report_address(&config.program_id, owner, repository_id) {
        None => None,
        Some(address) => get_at(ledger, &config.program_id, &address),
    }
}

} // verus!

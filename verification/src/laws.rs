//! What holds of the registry whatever the ledger holds, stated over the
//! steps that the operations are specified by.

use vstd::prelude::*;
use vstd::utf8::encode_utf8;
use crate::address::Address;
use crate::badge::{badge_description, badged_report, issue_badge_step, BADGE_DECIMALS, BADGE_SUPPLY};
use crate::derive::{derived_address, report_address, seeds_of};
use crate::error::RegistryError;
use crate::ledger::{
    create_metadata_step, create_mint_step, holding_at, metadata_at, mint_at, mint_to_step,
    open_holding_step, AccountView, HoldingView, MintView, State,
};
use crate::program::issue_badge_outcome;
use crate::report::{
    lemma_parse_record_bytes, lemma_record_of_parse, new_report, parse_record, record_bytes,
    Limits, ReportView,
};
use crate::store::{
    create_outcome, create_step, get_outcome, report_at, status_at, Status,
};

verus! {

/// Reading `data` as a record, with nothing behind it.
proof fn lemma_read_back(report: ReportView)
    requires
        report.well_formed(),
    ensures
        parse_record(record_bytes(report)) == Some(report),
{
    lemma_parse_record_bytes(report, Seq::empty());
    assert(record_bytes(report) + Seq::<u8>::empty() =~= record_bytes(report));
}

/// The same tag, owner, identifier and program give the same address.
pub proof fn law_derivation_is_a_function(
    tag: Seq<u8>,
    owner: Seq<u8>,
    repository_id: Seq<char>,
    program_id: Seq<u8>,
    other_tag: Seq<u8>,
    other_owner: Seq<u8>,
    other_repository_id: Seq<char>,
    other_program_id: Seq<u8>,
)
    requires
        tag == other_tag,
        owner == other_owner,
        repository_id == other_repository_id,
        program_id == other_program_id,
    ensures
        derived_address(tag, owner, repository_id, program_id) == derived_address(
            other_tag,
            other_owner,
            other_repository_id,
            other_program_id,
        ),
{
}

/// Another owner, or an identifier with another digest, gives other seeds
/// to derive from. That the addresses then differ rests on the derivation
/// itself, and is not claimed.
pub proof fn law_seeds_tell_apart(
    tag: Seq<u8>,
    owner: Seq<u8>,
    digest: Seq<u8>,
    other_owner: Seq<u8>,
    other_digest: Seq<u8>,
)
    requires
        owner != other_owner || digest != other_digest,
    ensures
        seeds_of(tag, owner, digest) != seeds_of(tag, other_owner, other_digest),
{
    let seeds = seeds_of(tag, owner, digest);
    let other = seeds_of(tag, other_owner, other_digest);
    assert(seeds[1] == owner && seeds[2] == digest);
    assert(other[1] == other_owner && other[2] == other_digest);
}

/// Once a report is stored, a second one of the same reporter on the same
/// repository is refused as already existing, whatever it says, and the
/// first is what is read.
pub proof fn law_second_report_is_refused(
    state: State,
    program_id: Seq<u8>,
    limits: Limits,
    owner: Seq<u8>,
    repository_id: Seq<char>,
    report_url: Seq<char>,
    now: i64,
    second_url: Seq<char>,
    later: i64,
)
    requires
        owner.len() == 32,
        create_outcome(state, program_id, limits, owner, repository_id, report_url, now) is Ok,
    ensures
        ({
            let stored = create_outcome(
                state,
                program_id,
                limits,
                owner,
                repository_id,
                report_url,
                now,
            )->Ok_0;
            &&& create_outcome(stored, program_id, limits, owner, repository_id, second_url, later)
                == Err::<State, RegistryError>(RegistryError::AlreadyExists)
            &&& get_outcome(stored, program_id, owner, repository_id) == Some(
                new_report(owner, repository_id, report_url, now),
            )
        }),
{
    lemma_read_back(new_report(owner, repository_id, report_url, now));
}

/// A report stored at one address leaves what is kept at every other
/// address as it was: reports of different reporters, or on different
/// repositories, do not stand in each other's way as long as their
/// addresses differ.
pub proof fn law_reports_are_independent(
    state: State,
    program_id: Seq<u8>,
    limits: Limits,
    address: Seq<u8>,
    report: ReportView,
    other_address: Seq<u8>,
    other_report: ReportView,
)
    requires
        address != other_address,
        create_step(state, program_id, limits, address, report) is Ok,
    ensures
        ({
            let stored = create_step(state, program_id, limits, address, report)->Ok_0;
            &&& report_at(stored, program_id, other_address) == report_at(
                state,
                program_id,
                other_address,
            )
            &&& create_step(stored, program_id, limits, other_address, other_report) is Ok
                <==> create_step(state, program_id, limits, other_address, other_report) is Ok
        }),
{
}

/// A report whose strings keep within the limits, the identifier at its
/// limit included, is stored at a free address and read back as it was
/// given, to the byte.
pub proof fn law_report_within_limits_persists(
    state: State,
    program_id: Seq<u8>,
    limits: Limits,
    address: Seq<u8>,
    report: ReportView,
)
    requires
        report.reporter.len() == 32,
        report.badge_reference.len() == 32,
        !state.dom().contains(address),
        encode_utf8(report.repository_id).len() <= limits.max_repository_id_len,
        encode_utf8(report.report_url).len() <= limits.max_report_url_len,
    ensures
        create_step(state, program_id, limits, address, report) is Ok,
        report_at(
            create_step(state, program_id, limits, address, report)->Ok_0,
            program_id,
            address,
        ) == Some(report),
{
    lemma_read_back(report);
}

/// A report with a string over its limit, be it by one byte, is refused at
/// a free address as exceeding the capacity.
pub proof fn law_report_over_limits_is_refused(
    state: State,
    program_id: Seq<u8>,
    limits: Limits,
    address: Seq<u8>,
    report: ReportView,
)
    requires
        !state.dom().contains(address),
        encode_utf8(report.repository_id).len() > limits.max_repository_id_len || encode_utf8(
            report.report_url,
        ).len() > limits.max_report_url_len,
    ensures
        create_step(state, program_id, limits, address, report) == Err::<State, RegistryError>(
            RegistryError::CapacityExceeded,
        ),
{
}

/// After a badge is issued, the report names the mint and is otherwise as
/// before; the mint has no decimal places, the reporter as its authority
/// and a supply of one; the reporter's holding has that one unit; and the
/// description names the mint with the given title, symbol and content
/// location.
pub proof fn law_badge_is_attached(
    state: State,
    program_id: Seq<u8>,
    report_address: Seq<u8>,
    mint: Seq<u8>,
    holding: Seq<u8>,
    metadata: Seq<u8>,
    title: Seq<char>,
    symbol: Seq<char>,
    content_uri: Seq<char>,
)
    requires
        mint.len() == 32,
        issue_badge_step(
            state,
            program_id,
            report_address,
            mint,
            holding,
            metadata,
            title,
            symbol,
            content_uri,
        ) is Ok,
    ensures
        ({
            let before = report_at(state, program_id, report_address);
            let after = issue_badge_step(
                state,
                program_id,
                report_address,
                mint,
                holding,
                metadata,
                title,
                symbol,
                content_uri,
            )->Ok_0;
            &&& before is Some
            &&& report_at(after, program_id, report_address) == Some(
                badged_report(before->Some_0, mint),
            )
            &&& mint_at(after, mint) == Some(
                MintView {
                    decimals: BADGE_DECIMALS,
                    authority: before->Some_0.reporter,
                    supply: BADGE_SUPPLY,
                },
            )
            &&& holding_at(after, holding) == Some(
                HoldingView { mint, owner: before->Some_0.reporter, amount: BADGE_SUPPLY },
            )
            &&& metadata_at(after, metadata) == Some(
                badge_description(mint, before->Some_0.reporter, title, symbol, content_uri),
            )
        }),
{
    let before = report_at(state, program_id, report_address)->Some_0;
    let data = state[report_address]->Record_0.data;
    lemma_record_of_parse(data);
    lemma_read_back(badged_report(before, mint));
}

/// A badge for a report that was never stored is refused as not found.
pub proof fn law_no_badge_without_report(
    state: State,
    program_id: Seq<u8>,
    reporter: Seq<u8>,
    repository_id: Seq<char>,
    holding: Seq<u8>,
    metadata: Seq<u8>,
    title: Seq<char>,
    symbol: Seq<char>,
    content_uri: Seq<char>,
)
    requires
        get_outcome(state, program_id, reporter, repository_id) is None,
    ensures
        issue_badge_outcome(
            state,
            program_id,
            reporter,
            repository_id,
            holding,
            metadata,
            title,
            symbol,
            content_uri,
        ) == Err::<State, RegistryError>(RegistryError::NotFound),
{
}

/// Where a step of the issuance is refused, the issuance is: where the
/// token service refuses the mint, the holding or the unit, or the metadata
/// registry the description, no state comes out of it, so that the ledger
/// stays as it was.
pub proof fn law_refused_step_refuses_the_badge(
    state: State,
    program_id: Seq<u8>,
    report_address: Seq<u8>,
    mint: Seq<u8>,
    holding: Seq<u8>,
    metadata: Seq<u8>,
    title: Seq<char>,
    symbol: Seq<char>,
    content_uri: Seq<char>,
)
    requires
        report_at(state, program_id, report_address) is Some,
    ensures
        ({
            let reporter = report_at(state, program_id, report_address)->Some_0.reporter;
            let outcome = issue_badge_step(
                state,
                program_id,
                report_address,
                mint,
                holding,
                metadata,
                title,
                symbol,
                content_uri,
            );
            let minted = create_mint_step(state, mint, BADGE_DECIMALS, reporter);
            &&& minted is Err ==> outcome is Err
            &&& minted matches Ok(s1) ==> {
                let opened = open_holding_step(s1, holding, mint, reporter);
                &&& opened is Err ==> outcome is Err
                &&& opened matches Ok(s2) ==> {
                    let issued = mint_to_step(s2, mint, holding, BADGE_SUPPLY, reporter);
                    &&& issued is Err ==> outcome is Err
                    &&& issued matches Ok(s3) ==> (create_metadata_step(
                        s3,
                        metadata,
                        badge_description(mint, reporter, title, symbol, content_uri),
                    ) is Err ==> outcome == Err::<State, RegistryError>(
                        RegistryError::DependencyFailure,
                    ))
                }
            }
        }),
{
}

/// How far a report has come, as a number.
pub open spec fn rank(status: Status) -> int {
    match status {
        Status::Unreported => 0,
        Status::Reported => 1,
        Status::Badged => 2,
    }
}

/// Storing a report takes its address from unreported to reported.
pub proof fn law_create_reports(
    state: State,
    program_id: Seq<u8>,
    limits: Limits,
    address: Seq<u8>,
    report: ReportView,
)
    requires
        report.reporter.len() == 32,
        report.badge_reference == Address::sentinel_view(),
        create_step(state, program_id, limits, address, report) is Ok,
    ensures
        status_at(state, program_id, address) == Status::Unreported,
        status_at(
            create_step(state, program_id, limits, address, report)->Ok_0,
            program_id,
            address,
        ) == Status::Reported,
{
    lemma_read_back(report);
}

/// Issuing a badge takes a report, be it reported or badged before, to
/// badged: the mint being another address than the all-zero one, which
/// stands for no badge.
pub proof fn law_issue_badges(
    state: State,
    program_id: Seq<u8>,
    report_address: Seq<u8>,
    mint: Seq<u8>,
    holding: Seq<u8>,
    metadata: Seq<u8>,
    title: Seq<char>,
    symbol: Seq<char>,
    content_uri: Seq<char>,
)
    requires
        mint.len() == 32,
        mint != Address::sentinel_view(),
        issue_badge_step(
            state,
            program_id,
            report_address,
            mint,
            holding,
            metadata,
            title,
            symbol,
            content_uri,
        ) is Ok,
    ensures
        status_at(state, program_id, report_address) != Status::Unreported,
        status_at(
            issue_badge_step(
                state,
                program_id,
                report_address,
                mint,
                holding,
                metadata,
                title,
                symbol,
                content_uri,
            )->Ok_0,
            program_id,
            report_address,
        ) == Status::Badged,
{
    law_badge_is_attached(
        state,
        program_id,
        report_address,
        mint,
        holding,
        metadata,
        title,
        symbol,
        content_uri,
    );
}

/// A report, once stored, stays: storing another report leaves it as it
/// is, and issuing a badge, for it or for another, leaves it what it says
/// of the repository, the location, the reporter and the time. No report
/// falls back: none that was stored becomes unreported, and none that had a
/// badge is without one after.
pub proof fn law_reports_stay(
    state: State,
    program_id: Seq<u8>,
    limits: Limits,
    kept_at: Seq<u8>,
    address: Seq<u8>,
    report: ReportView,
    mint: Seq<u8>,
    holding: Seq<u8>,
    metadata: Seq<u8>,
    title: Seq<char>,
    symbol: Seq<char>,
    content_uri: Seq<char>,
)
    requires
        mint.len() == 32,
        mint != Address::sentinel_view(),
    ensures
        create_step(state, program_id, limits, address, report) matches Ok(after) ==> (report_at(
            state,
            program_id,
            kept_at,
        ) is Some ==> report_at(after, program_id, kept_at) == report_at(
            state,
            program_id,
            kept_at,
        )),
        issue_badge_step(
            state,
            program_id,
            address,
            mint,
            holding,
            metadata,
            title,
            symbol,
            content_uri,
        ) matches Ok(after) ==> {
            &&& rank(status_at(after, program_id, kept_at)) >= rank(
                status_at(state, program_id, kept_at),
            )
            &&& report_at(state, program_id, kept_at) matches Some(kept) ==> {
                &&& report_at(after, program_id, kept_at) matches Some(found)
                &&& found.repository_id == kept.repository_id
                &&& found.report_url == kept.report_url
                &&& found.reporter == kept.reporter
                &&& found.timestamp == kept.timestamp
            }
        },
{
    if issue_badge_step(
        state,
        program_id,
        address,
        mint,
        holding,
        metadata,
        title,
        symbol,
        content_uri,
    ) is Ok {
        let marked_report = report_at(state, program_id, address)->Some_0;
        let data = state[address]->Record_0.data;
        lemma_record_of_parse(data);
        lemma_read_back(badged_report(marked_report, mint));
    }
}

/// Whether every badge that a report names exists: whether, wherever a
/// report of the program names a mint, there is a mint at that address.
pub open spec fn badges_are_backed(state: State, program_id: Seq<u8>) -> bool {
    forall|address: Seq<u8>|
        (#[trigger] report_at(state, program_id, address)) matches Some(report) ==> (
        report.badged() ==> mint_at(state, report.badge_reference) is Some)
}

/// In a ledger with no account every badge named exists, there being none;
/// and storing a report or issuing a badge keeps it so.
pub proof fn law_badges_stay_backed(
    state: State,
    program_id: Seq<u8>,
    limits: Limits,
    address: Seq<u8>,
    reporter: Seq<u8>,
    repository_id: Seq<char>,
    report_url: Seq<char>,
    now: i64,
    mint: Seq<u8>,
    holding: Seq<u8>,
    metadata: Seq<u8>,
    title: Seq<char>,
    symbol: Seq<char>,
    content_uri: Seq<char>,
)
    requires
        reporter.len() == 32,
        mint.len() == 32,
        badges_are_backed(state, program_id),
    ensures
        badges_are_backed(Map::<Seq<u8>, AccountView>::empty(), program_id),
        create_step(
            state,
            program_id,
            limits,
            address,
            new_report(reporter, repository_id, report_url, now),
        ) matches Ok(after) ==> badges_are_backed(after, program_id),
        issue_badge_step(
            state,
            program_id,
            address,
            mint,
            holding,
            metadata,
            title,
            symbol,
            content_uri,
        ) matches Ok(after) ==> badges_are_backed(after, program_id),
{
    let report = new_report(reporter, repository_id, report_url, now);
    if let Ok(after) = create_step(state, program_id, limits, address, report) {
        lemma_read_back(report);
        assert forall|other: Seq<u8>|
            (#[trigger] report_at(after, program_id, other)) is Some && report_at(
                after,
                program_id,
                other,
            )->Some_0.badged() implies mint_at(
            after,
            report_at(after, program_id, other)->Some_0.badge_reference,
        ) is Some by {
            let found = report_at(after, program_id, other)->Some_0;
            assert(other != address);
            assert(report_at(state, program_id, other) == Some(found));
        }
    }
    if let Ok(after) = issue_badge_step(
        state,
        program_id,
        address,
        mint,
        holding,
        metadata,
        title,
        symbol,
        content_uri,
    ) {
        law_badge_is_attached(
            state,
            program_id,
            address,
            mint,
            holding,
            metadata,
            title,
            symbol,
            content_uri,
        );
        assert forall|other: Seq<u8>|
            (#[trigger] report_at(after, program_id, other)) is Some && report_at(
                after,
                program_id,
                other,
            )->Some_0.badged() implies mint_at(
            after,
            report_at(after, program_id, other)->Some_0.badge_reference,
        ) is Some by {
            let found = report_at(after, program_id, other)->Some_0;
            if other != address {
                assert(report_at(state, program_id, other) == Some(found));
                assert(mint_at(state, found.badge_reference) is Some);
            }
        }
    }
}

} // verus!

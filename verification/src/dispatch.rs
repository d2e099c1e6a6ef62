//! The dual dispatch surface's decisions and shared pipeline steps: what
//! each inbound command asks for, the check-then-notify step for one
//! location, and the batch walk over every configured location in which one
//! failure never aborts the rest. The surrounding triggers — the cron
//! scheduler and the chat front-end — live outside the library and only
//! perform what is decided here.

use vstd::prelude::*;
use crate::check_air_quality::{AirQualityRepository, CheckAirQuality, reading_consistent};
use crate::models::{AirQualityData, Location, LookupFailed, SendFailed};
use crate::notify_air_quality::{NotificationGateway, NotifyAirQuality};
use crate::resolve::{parse_location_input, resolved_location};
use crate::text::{trim_spec, trim_spaces};

verus! {

/// The three commands the interactive surface understands.
pub enum Command {
    /// Show the command summary.
    Help,
    /// Check every configured location.
    Pm25,
    /// Check one free-text location.
    Check(String),
}

/// What an inbound command asks the surface to do.
pub enum CommandPlan {
    /// Reply with the static command summary.
    ShowHelp,
    /// Run the pipeline over every configured location.
    CheckAllLocations,
    /// Reply with guidance: the check command came without a location.
    AskForLocation,
    /// Run the pipeline for this resolved location.
    CheckLocation(Location),
}

/// Decides what a command asks for. A check with only whitespace yields
/// guidance and never invokes the pipeline; any other text is resolved,
/// trimmed, under the given defaults.
pub fn plan_command(cmd: &Command, default_state: &str, default_country: &str) -> (p: CommandPlan)
    ensures
        (match cmd {
            Command::Help => p is ShowHelp,
            Command::Pm25 => p is CheckAllLocations,
            Command::Check(text) => {
                if trim_spec(text@).len() == 0 {
                    p is AskForLocation
                } else {
                    p matches CommandPlan::CheckLocation(l) && l.wf() && resolved_location(
                        l,
                        trim_spec(text@),
                        default_state@,
                        default_country@,
                    )
                }
            },
        }),
{
    match cmd {
        Command::Help => CommandPlan::ShowHelp,
        Command::Pm25 => CommandPlan::CheckAllLocations,
        Command::Check(text) => {
            let trimmed = trim_spaces(text.as_str());
            if trimmed.unicode_len() == 0 {
                CommandPlan::AskForLocation
            } else {
                CommandPlan::CheckLocation(
                    parse_location_input(trimmed, default_state, default_country),
                )
            }
        },
    }
}

/// The guidance reply for a check command without a location.
pub fn guidance_text() -> (r: &'static str)
    ensures
        r@ == "กรุณาระบุชื่อเมือง เช่น /check Ban Suan หรือ /check 13.46,101.09"@,
{
    "กรุณาระบุชื่อเมือง เช่น /check Ban Suan หรือ /check 13.46,101.09"
}

/// The reply sent when a location's check fails: the location's display
/// name and the failure's description.
pub fn format_check_failure(location_name: &str, detail: &str) -> (r: String)
    ensures
        r@ == "❌ ไม่สามารถดึงข้อมูล "@ + location_name@ + " ได้: "@ + detail@,
{
    let mut out = String::from_str("❌ ไม่สามารถดึงข้อมูล ");
    out.append(location_name);
    out.append(" ได้: ");
    out.append(detail);
    proof {
        assert(out@ =~= "❌ ไม่สามารถดึงข้อมูล "@ + location_name@ + " ได้: "@ + detail@);
    }
    out
}

/// The interactive reply for one check outcome: the alert message for a
/// reading, or the failure reply naming the location and the cause. The
/// selection itself carries the contract, so the chat front-end only sends
/// what this returns.
pub fn format_check_reply<N: NotificationGateway>(
    notifier: &NotifyAirQuality<N>,
    location: &Location,
    outcome: &Result<AirQualityData, LookupFailed>,
) -> (r: String)
    ensures
        (match *outcome {
            Ok(d) => r@ == crate::notify_air_quality::spec_message(d),
            Err(e) => r@ == "❌ ไม่สามารถดึงข้อมูล "@ + location.name@ + " ได้: "@ + e.status@,
        }),
{
    match outcome {
        Ok(data) => notifier.format_message(data),
        Err(e) => {
            let detail = e.describe();
            format_check_failure(location.name.as_str(), detail.as_str())
        },
    }
}

/// Why one pipeline pass failed: the measurement could not be produced, or
/// the notification could not be delivered.
pub enum PipelineError {
    Lookup(LookupFailed),
    Send(SendFailed),
}

/// Holds exactly of the outcomes `checker.execute(location)` can return.
pub open spec fn check_outcome<R: AirQualityRepository>(
    checker: &CheckAirQuality<R>,
    location: Location,
    r: Result<AirQualityData, LookupFailed>,
) -> bool {
    call_ensures(CheckAirQuality::<R>::execute, (checker, location), r)
}

/// Holds exactly of the outcomes `notifier.execute` can return for this
/// channel and this reading.
pub open spec fn notify_outcome<N: NotificationGateway>(
    notifier: &NotifyAirQuality<N>,
    channel_id: Seq<char>,
    data: AirQualityData,
    r: Result<(), SendFailed>,
) -> bool {
    exists|ch: &str, d: &AirQualityData|
        ch@ == channel_id && *d == data && #[trigger] call_ensures(
            NotifyAirQuality::<N>::execute,
            (notifier, ch, d),
            r,
        )
}

/// What one pipeline pass reports: success means some reading came out of
/// the check and its notification was delivered; a lookup error is a check
/// outcome; a send error is a delivery outcome for a reading the check
/// produced.
pub open spec fn pipeline_outcome<R: AirQualityRepository, N: NotificationGateway>(
    checker: &CheckAirQuality<R>,
    notifier: &NotifyAirQuality<N>,
    channel_id: Seq<char>,
    location: Location,
    r: Result<(), PipelineError>,
) -> bool {
    match r {
        Ok(_) => exists|d: AirQualityData|
            #[trigger] check_outcome(checker, location, Ok(d)) && notify_outcome(
                notifier,
                channel_id,
                d,
                Ok(()),
            ),
        Err(PipelineError::Lookup(e)) => check_outcome(checker, location, Err(e)),
        Err(PipelineError::Send(e)) => exists|d: AirQualityData|
            #[trigger] check_outcome(checker, location, Ok(d)) && notify_outcome(
                notifier,
                channel_id,
                d,
                Err(e),
            ),
    }
}

/// Holds exactly of the outcomes `notifier.execute_broadcast` can return
/// for this channel, this reading, and this timestamp text.
pub open spec fn notify_broadcast_outcome<N: NotificationGateway>(
    notifier: &NotifyAirQuality<N>,
    channel_id: Seq<char>,
    data: AirQualityData,
    timestamp: Seq<char>,
    r: Result<(), SendFailed>,
) -> bool {
    exists|ch: &str, d: &AirQualityData, ts: &str|
        ch@ == channel_id && *d == data && ts@ == timestamp && #[trigger] call_ensures(
            NotifyAirQuality::<N>::execute_broadcast,
            (notifier, ch, d, ts),
            r,
        )
}

/// What one timestamped broadcast pass reports, in the shape of
/// `pipeline_outcome`, with delivery through the broadcast template.
pub open spec fn broadcast_pipeline_outcome<R: AirQualityRepository, N: NotificationGateway>(
    checker: &CheckAirQuality<R>,
    notifier: &NotifyAirQuality<N>,
    channel_id: Seq<char>,
    location: Location,
    timestamp: Seq<char>,
    r: Result<(), PipelineError>,
) -> bool {
    match r {
        Ok(_) => exists|d: AirQualityData|
            #[trigger] check_outcome(checker, location, Ok(d)) && notify_broadcast_outcome(
                notifier,
                channel_id,
                d,
                timestamp,
                Ok(()),
            ),
        Err(PipelineError::Lookup(e)) => check_outcome(checker, location, Err(e)),
        Err(PipelineError::Send(e)) => exists|d: AirQualityData|
            #[trigger] check_outcome(checker, location, Ok(d)) && notify_broadcast_outcome(
                notifier,
                channel_id,
                d,
                timestamp,
                Err(e),
            ),
    }
}

/// One pipeline pass: check the location and notify the channel, each
/// failure propagated unchanged under its kind.
pub fn check_and_notify<R: AirQualityRepository, N: NotificationGateway>(
    checker: &CheckAirQuality<R>,
    notifier: &NotifyAirQuality<N>,
    channel_id: &str,
    location: &Location,
) -> (r: Result<(), PipelineError>)
    ensures
        pipeline_outcome(checker, notifier, channel_id@, *location, r),
{
    let queried = location.clone();
    let checked = checker.execute(queried);
    proof {
        assert(check_outcome(checker, *location, checked));
    }
    match checked {
        Ok(data) => {
            let sent = notifier.execute(channel_id, &data);
            proof {
                assert(check_outcome(checker, *location, Ok(data)));
                assert(notify_outcome(notifier, channel_id@, data, sent)) by {
                    assert(channel_id@ == channel_id@ && *(&data) == data && call_ensures(
                        NotifyAirQuality::<N>::execute,
                        (notifier, channel_id, &data),
                        sent,
                    ));
                }
            }
            match sent {
                Ok(u) => {
                    proof {
                        assert(u == ());
                        assert(pipeline_outcome(checker, notifier, channel_id@, *location, Ok(())));
                    }
                    Ok(u)
                },
                Err(e) => {
                    proof {
                        assert(pipeline_outcome(
                            checker,
                            notifier,
                            channel_id@,
                            *location,
                            Err(PipelineError::Send(e)),
                        ));
                    }
                    Err(PipelineError::Send(e))
                },
            }
        },
        Err(e) => Err(PipelineError::Lookup(e)),
    }
}

/// One timestamped pipeline pass: like `check_and_notify`, but delivering
/// the broadcast template, the given clock text appended.
pub fn check_and_notify_at<R: AirQualityRepository, N: NotificationGateway>(
    checker: &CheckAirQuality<R>,
    notifier: &NotifyAirQuality<N>,
    channel_id: &str,
    location: &Location,
    timestamp: &str,
) -> (r: Result<(), PipelineError>)
    ensures
        broadcast_pipeline_outcome(checker, notifier, channel_id@, *location, timestamp@, r),
{
    let queried = location.clone();
    let checked = checker.execute(queried);
    proof {
        assert(check_outcome(checker, *location, checked));
    }
    match checked {
        Ok(data) => {
            let sent = notifier.execute_broadcast(channel_id, &data, timestamp);
            proof {
                assert(check_outcome(checker, *location, Ok(data)));
                assert(notify_broadcast_outcome(notifier, channel_id@, data, timestamp@, sent))
                    by {
                    assert(channel_id@ == channel_id@ && *(&data) == data && timestamp@
                        == timestamp@ && call_ensures(
                        NotifyAirQuality::<N>::execute_broadcast,
                        (notifier, channel_id, &data, timestamp),
                        sent,
                    ));
                }
            }
            match sent {
                Ok(u) => {
                    proof {
                        assert(u == ());
                        assert(broadcast_pipeline_outcome(
                            checker,
                            notifier,
                            channel_id@,
                            *location,
                            timestamp@,
                            Ok(()),
                        ));
                    }
                    Ok(u)
                },
                Err(e) => Err(PipelineError::Send(e)),
            }
        },
        Err(e) => Err(PipelineError::Lookup(e)),
    }
}

/// One timestamped broadcast cycle: every configured location is processed
/// in its configured order, one failure aborting nothing, each delivery
/// carrying the broadcast template with the given clock text.
pub fn check_and_notify_all_at<R: AirQualityRepository, N: NotificationGateway>(
    checker: &CheckAirQuality<R>,
    notifier: &NotifyAirQuality<N>,
    channel_id: &str,
    locations: &Vec<Location>,
    timestamp: &str,
) -> (results: Vec<Result<(), PipelineError>>)
    ensures
        results@.len() == locations@.len(),
        forall|i: int|
            0 <= i < results@.len() ==> broadcast_pipeline_outcome(
                checker,
                notifier,
                channel_id@,
                locations@[i],
                timestamp@,
                #[trigger] results@[i],
            ),
{
    let mut results: Vec<Result<(), PipelineError>> = Vec::new();
    let mut i: usize = 0;
    while i < locations.len()
        invariant
            0 <= i <= locations@.len(),
            results@.len() == i,
            forall|k: int|
                0 <= k < i ==> broadcast_pipeline_outcome(
                    checker,
                    notifier,
                    channel_id@,
                    locations@[k],
                    timestamp@,
                    #[trigger] results@[k],
                ),
        decreases locations@.len() - i,
    {
        let outcome = check_and_notify_at(checker, notifier, channel_id, &locations[i], timestamp);
        results.push(outcome);
        i = i + 1;
    }
    results
}

/// One broadcast cycle: every configured location is processed, in its
/// configured order, and a failure for one location never aborts the rest —
/// the result carries, at each index, a pipeline outcome for the location
/// at that index.
pub fn check_and_notify_all<R: AirQualityRepository, N: NotificationGateway>(
    checker: &CheckAirQuality<R>,
    notifier: &NotifyAirQuality<N>,
    channel_id: &str,
    locations: &Vec<Location>,
) -> (results: Vec<Result<(), PipelineError>>)
    ensures
        results@.len() == locations@.len(),
        forall|i: int|
            0 <= i < results@.len() ==> pipeline_outcome(
                checker,
                notifier,
                channel_id@,
                locations@[i],
                #[trigger] results@[i],
            ),
{
    let mut results: Vec<Result<(), PipelineError>> = Vec::new();
    let mut i: usize = 0;
    while i < locations.len()
        invariant
            0 <= i <= locations@.len(),
            results@.len() == i,
            forall|k: int|
                0 <= k < i ==> pipeline_outcome(
                    checker,
                    notifier,
                    channel_id@,
                    locations@[k],
                    #[trigger] results@[k],
                ),
        decreases locations@.len() - i,
    {
        let outcome = check_and_notify(checker, notifier, channel_id, &locations[i]);
        results.push(outcome);
        i = i + 1;
    }
    results
}

} // verus!

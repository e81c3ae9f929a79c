//! What definitions mean.

use vstd::prelude::*;

use crate::codes::{ascending_codes, codes_ascend};
use crate::config::loader::{
    DirectoryEntry, FileContent, FileSnapshot, file_accepted, file_stem, is_definition_file,
    listed_files, listing_refusal, total_bytes, weight_refusal,
};
use crate::config::model::{
    LoggingPolicy, RetentionDuration, RetentionLimit, StopDefinition, WorkloadDefinition,
    WorkloadKind, name_refusal, texts,
};
use crate::config::raw::{
    RawBackoff, RawDefinition, RawEnvironment, RawLogging, RawRestart, RawRestartLimit,
    RawRestartPolicy, RawRetentionAge, RawStop, RawStopMethod, Refusal, RawKind, arguments_refusal,
    backoff_of, binary_size, executable_refusal, logging_of, restart_of, set_map, set_refusal, unit_factor,
    stop_of, unset_map, unset_refusal,
};
use crate::ids::WorkloadId;
use crate::num::NonZeroU32;
use crate::paths::{extension, last_dot};
use crate::restart::{
    BackoffPolicy, ExecutionRestartPolicy, JobRestartPolicy, JobRetryPolicy, ServiceRestartPolicy,
    ServiceRetryLimit, ServiceRetryPolicy,
};
use crate::runner::retries;
use crate::snapshot::{snapshot_of, whole_millis};
use crate::text::{ascii_lower, upper_form};
use crate::time::{Duration, NonZeroDuration};

verus! {

/// The retries that a service's policy grants, if it grants any.
pub open spec fn service_retry(policy: ExecutionRestartPolicy) -> Option<ServiceRetryPolicy> {
    match policy {
        ExecutionRestartPolicy::Service(ServiceRestartPolicy::OnFailure(retry)) => Some(retry),
        ExecutionRestartPolicy::Service(ServiceRestartPolicy::Always(retry)) => Some(retry),
        _ => None,
    }
}

/// A service is granted the number of restarts in a row that its definition says: retry `k` is
/// admitted exactly where `k` is at most that number, which is ten where nothing is said. Only the
/// word `unlimited` admits every retry, and the number zero admits none.
pub proof fn law_services_get_the_restarts_they_ask_for(raw: RawRestart)
    requires
        restart_of(WorkloadKind::Service, Some(raw)) is Ok,
        raw.policy != Some(RawRestartPolicy::Never),
    ensures
        ({
            let policy = restart_of(WorkloadKind::Service, Some(raw))->Ok_0;
            &&& raw.max_restarts matches Some(RawRestartLimit::Finite(n)) ==> {
                &&& n == 0 ==> policy == ExecutionRestartPolicy::Service(ServiceRestartPolicy::Never)
                &&& n > 0 ==> (service_retry(policy) matches Some(retry) && forall|k: nat| #[trigger]
                    retry.limit.admits(k) <==> k <= n)
                &&& n > 0 ==> (service_retry(policy) matches Some(retry) && retry.limit
                    matches ServiceRetryLimit::Finite(limit) && limit@ == n)
            }
            &&& raw.max_restarts is None ==> (service_retry(policy) matches Some(retry)
                && retry.limit matches ServiceRetryLimit::Finite(limit) && limit@ == 10)
            &&& raw.max_restarts matches Some(RawRestartLimit::Keyword(word)) ==> word@
                == "unlimited"@ && (service_retry(policy) matches Some(retry) && retry.limit
                is Unlimited)
            &&& (service_retry(policy) matches Some(retry) && retry.limit is Unlimited)
                ==> (raw.max_restarts matches Some(RawRestartLimit::Keyword(word)) && word@
                == "unlimited"@)
        }),
{
    broadcast use NonZeroU32::lemma_view_of;

}

/// When a service is restarted: after every end where its definition says `always`, after failures
/// where it says `on-failure` or nothing, and never where it says `never`. What is said of the span
/// after which restarts are forgotten is kept, and is five minutes where nothing is said.
pub proof fn law_services_restart_when_they_ask_for_it(raw: RawRestart)
    requires
        restart_of(WorkloadKind::Service, Some(raw)) is Ok,
    ensures
        ({
            let policy = restart_of(WorkloadKind::Service, Some(raw))->Ok_0;
            let none = raw.max_restarts == Some(RawRestartLimit::Finite(0));
            &&& policy is Service
            &&& policy->Service_0 is Always <==> raw.policy == Some(RawRestartPolicy::Always)
                && !none
            &&& policy->Service_0 is OnFailure <==> (raw.policy is None || raw.policy == Some(
                RawRestartPolicy::OnFailure,
            )) && !none
            &&& policy->Service_0 is Never <==> raw.policy == Some(RawRestartPolicy::Never) || none
            &&& service_retry(policy) matches Some(retry) ==> {
                &&& retry.reset_after@ == match raw.reset_after {
                    Some(span) => span@,
                    None => 300_000_000_000,
                }
                &&& Ok::<BackoffPolicy, Refusal>(retry.backoff) == backoff_of(
                    raw.backoff.unwrap_or(RawBackoff { initial: None, multiplier: None, maximum: None }),
                )
            }
        }),
{
    broadcast use {NonZeroDuration::lemma_span_of, Duration::lemma_view_of};

}

/// Which restart policies of services are refused: one that never restarts and yet speaks of
/// retries; an unknown word for their number; and otherwise an empty span or a wrong backoff, where
/// there are retries at all.
pub proof fn law_restart_policies_of_services_are_judged(raw: RawRestart)
    ensures
        restart_of(WorkloadKind::Service, Some(raw)) is Ok <==> if raw.policy == Some(
            RawRestartPolicy::Never,
        ) {
            raw.max_restarts is None && raw.reset_after is None && raw.backoff is None
        } else {
            raw.max_restarts == Some(RawRestartLimit::Finite(0)) || {
                &&& raw.max_restarts matches Some(RawRestartLimit::Keyword(word)) ==> word@
                    == "unlimited"@
                &&& raw.reset_after matches Some(span) ==> span@ > 0
                &&& raw.backoff matches Some(backoff) ==> backoff_of(backoff) is Ok
            }
        },
{
    broadcast use {NonZeroDuration::lemma_span_of, Duration::lemma_view_of};

    law_backoffs_are_kept(RawBackoff { initial: None, multiplier: None, maximum: None });
}

/// A job is restarted only where its definition says so, only after failures, and only a number of
/// times that it says; otherwise it is not accepted.
pub proof fn law_jobs_restart_as_often_as_they_say(raw: RawRestart)
    ensures
        ({
            let policy = restart_of(WorkloadKind::Job, Some(raw));
            &&& policy is Ok <==> match raw.policy {
                None | Some(RawRestartPolicy::Never) => raw.max_restarts is None && raw.reset_after
                    is None && raw.backoff is None,
                Some(RawRestartPolicy::Always) => false,
                Some(RawRestartPolicy::OnFailure) => raw.reset_after is None && (raw.max_restarts
                    matches Some(RawRestartLimit::Finite(n)) && (n == 0 || (raw.backoff matches Some(
                    backoff,
                ) ==> backoff_of(backoff) is Ok))),
            }
            &&& policy matches Ok(ExecutionRestartPolicy::Job(JobRestartPolicy::OnFailure(retry)))
                ==> raw.policy == Some(RawRestartPolicy::OnFailure) && (raw.max_restarts
                matches Some(RawRestartLimit::Finite(n)) && n > 0 && retry.max_restarts@ == n)
            &&& raw.policy == Some(RawRestartPolicy::OnFailure) && policy is Ok && raw.max_restarts
                != Some(RawRestartLimit::Finite(0)) ==> (policy->Ok_0
                matches ExecutionRestartPolicy::Job(JobRestartPolicy::OnFailure(retry)) && Ok::<
                BackoffPolicy,
                Refusal,
            >(retry.backoff) == backoff_of(
                raw.backoff.unwrap_or(RawBackoff { initial: None, multiplier: None, maximum: None }),
            ))
            &&& policy is Ok ==> policy->Ok_0 is Job
        }),
{
    broadcast use {
        NonZeroU32::lemma_view_of,
        NonZeroDuration::lemma_span_of,
        Duration::lemma_view_of,
    };

    law_backoffs_are_kept(RawBackoff { initial: None, multiplier: None, maximum: None });
}

/// A backoff is taken as it is written, with a quarter of a second, a factor of two and half a minute
/// where nothing is said. It is accepted exactly where none of the three is zero and the maximum is
/// not below the initial delay.
pub proof fn law_backoffs_are_kept(raw: RawBackoff)
    ensures
        ({
            let initial: nat = match raw.initial {
                Some(span) => span@,
                None => 250_000_000,
            };
            let multiplier: nat = match raw.multiplier {
                Some(factor) => factor as nat,
                None => 2,
            };
            let maximum: nat = match raw.maximum {
                Some(span) => span@,
                None => 30_000_000_000,
            };
            &&& backoff_of(raw) is Ok <==> initial > 0 && multiplier > 0 && maximum > 0 && initial
                <= maximum
            &&& backoff_of(raw) matches Ok(policy) ==> policy.initial_delay()@ == initial
                && policy.factor()@ == multiplier && policy.maximum_delay()@ == maximum
        }),
{
    broadcast use {
        NonZeroU32::lemma_view_of,
        NonZeroDuration::lemma_span_of,
        Duration::lemma_view_of,
        BackoffPolicy::lemma_parts_of,
    };

}

/// A workload is stopped as its definition says, within the time that it says. A break is sent and
/// ten seconds are given where nothing is said; a command needs both the command and the time, and
/// killing allows neither.
pub proof fn law_stops_are_as_defined(raw: RawStop)
    ensures
        ({
            let stop = stop_of(Some(raw));
            &&& stop is Ok <==> match raw.method {
                None | Some(RawStopMethod::CtrlBreak) => raw.command is None && (raw.timeout
                    matches Some(span) ==> span@ > 0),
                Some(RawStopMethod::Command) => (raw.timeout matches Some(span) && span@ > 0) && (
                raw.command matches Some(command) && executable_refusal(
                    "stop.command.executable"@,
                    command.executable@,
                ) is None && arguments_refusal(
                    "stop.command.arguments"@,
                    texts(command.arguments@),
                ) is None),
                Some(RawStopMethod::Kill) => raw.timeout is None && raw.command is None,
            }
            &&& stop matches Ok(StopDefinition::CtrlBreak { timeout }) ==> (raw.method is None
                || raw.method == Some(RawStopMethod::CtrlBreak)) && timeout@ == match raw.timeout {
                Some(span) => span@,
                None => 10_000_000_000,
            }
            &&& stop matches Ok(StopDefinition::Command { timeout, command }) ==> raw.method == Some(
                RawStopMethod::Command,
            ) && raw.timeout == Some(timeout) && raw.command->0.executable == command.executable
                && raw.command->0.arguments == command.arguments
            &&& stop matches Ok(StopDefinition::Kill) ==> raw.method == Some(RawStopMethod::Kill)
        }),
{
    broadcast use {NonZeroDuration::lemma_span_of, Duration::lemma_view_of};

}

/// Output is captured unless the definition says otherwise, with the sizes and spans that it says.
/// Only the word `unlimited` keeps everything. A definition that captures nothing says nothing else
/// about it.
pub proof fn law_logging_is_as_defined(raw: RawLogging)
    requires
        logging_of(Some(raw)) is Ok,
    ensures
        ({
            let policy = logging_of(Some(raw))->Ok_0;
            &&& policy is Disabled <==> raw.capture == Some(false)
            &&& policy is Disabled ==> raw.segment_size is None && raw.segment_age is None
                && raw.retention_size is None && raw.retention_age is None
            &&& policy matches LoggingPolicy::Capture {
                segment_size,
                segment_age,
                retention_size,
                retention_age,
            } ==> {
                &&& segment_size > 0
                &&& raw.segment_size is None ==> binary_size("16MiB"@) == Ok::<u64, Seq<char>>(
                    segment_size,
                )
                &&& raw.retention_size is None ==> (retention_size matches RetentionLimit::Limited(
                    bytes,
                ) && binary_size("1GiB"@) == Ok::<u64, Seq<char>>(bytes))
                &&& raw.segment_size matches Some(text) ==> binary_size(text@) == Ok::<u64, Seq<char>>(
                    segment_size,
                )
                &&& segment_age@ == match raw.segment_age {
                    Some(span) => span@,
                    None => 3_600_000_000_000,
                }
                &&& retention_size is Unlimited <==> (raw.retention_size matches Some(text) && text@
                    == "unlimited"@)
                &&& retention_size matches RetentionLimit::Limited(bytes) ==> bytes > 0 && (
                raw.retention_size matches Some(text) ==> binary_size(text@) == Ok::<u64, Seq<char>>(
                    bytes,
                ))
                &&& retention_age is Unlimited <==> (raw.retention_age matches Some(
                    RawRetentionAge::Keyword(word),
                ) && word@ == "unlimited"@)
                &&& raw.retention_age matches Some(RawRetentionAge::Value(span)) ==> retention_age
                    == RetentionDuration::Limited(span) && span@ > 0
                &&& raw.retention_age is None ==> (retention_age matches RetentionDuration::Limited(
                    span,
                ) && span@ == 2_592_000_000_000_000)
            }
        }),
{
    broadcast use {NonZeroDuration::lemma_span_of, Duration::lemma_view_of};

}

/// A text can name an executable exactly where it is not empty, holds no null character and has no
/// extension of a script that needs a shell, in whatever case that is written.
pub proof fn law_executables_are_no_scripts(field: Seq<char>, value: Seq<char>)
    ensures
        executable_refusal(field, value) is None <==> {
            &&& value.len() > 0
            &&& !value.contains('\0')
            &&& extension(value) matches Some(found) ==> {
                let lower = found.map_values(|c: char| ascii_lower(c));
                lower != "cmd"@ && lower != "bat"@ && lower != "ps1"@
            }
        },
{
    reveal_strlit("cmd");
    reveal_strlit("bat");
    reveal_strlit("ps1");
    assert("cmd"@.map_values(|c: char| ascii_lower(c)) =~= "cmd"@);
    assert("bat"@.map_values(|c: char| ascii_lower(c)) =~= "bat"@);
    assert("ps1"@.map_values(|c: char| ascii_lower(c)) =~= "ps1"@);
}

/// Arguments are refused exactly where one of them holds a null character.
pub proof fn law_arguments_hold_no_null(field: Seq<char>, values: Seq<Seq<char>>)
    ensures
        arguments_refusal(field, values) is None <==> forall|i: int, j: int|
            0 <= i < values.len() && 0 <= j < values[i].len() ==> #[trigger] values[i][j] != '\0',
{
    if arguments_refusal(field, values) is None {
        assert forall|i: int, j: int|
            0 <= i < values.len() && 0 <= j < values[i].len() implies #[trigger] values[i][j]
            != '\0' by {
            assert(!values[i].contains('\0'));
        }
    } else {
        let i = choose|i: int| 0 <= i < values.len() && (#[trigger] values[i]).contains('\0');
        let j = choose|j: int| 0 <= j < values[i].len() && values[i][j] == '\0';
        assert(values[i][j] == '\0');
    }
}

proof fn lemma_first_refusals(environment: RawEnvironment, n: int, m: int)
    requires
        0 <= n <= environment.set@.len(),
        0 <= m <= environment.unset@.len(),
    ensures
        set_refusal(environment.set@, n) is None <==> {
            &&& forall|i: int|
                0 <= i < n ==> name_refusal((#[trigger] environment.set@[i]).0@) is None
                    && !environment.set@[i].1@.contains('\0')
            &&& forall|i: int, j: int|
                0 <= i < j < n ==> upper_form((#[trigger] environment.set@[i]).0@) != upper_form(
                    (#[trigger] environment.set@[j]).0@,
                )
        },
        forall|set: Map<Seq<char>, String>|
            #[trigger] unset_refusal(set, environment.unset@, m) is None <==> {
                &&& forall|i: int|
                    0 <= i < m ==> name_refusal((#[trigger] environment.unset@[i])@) is None
                        && !set.contains_key(upper_form(environment.unset@[i]@))
                &&& forall|i: int, j: int|
                    0 <= i < j < m ==> upper_form((#[trigger] environment.unset@[i])@)
                        != upper_form((#[trigger] environment.unset@[j])@)
            },
    decreases n + m,
{
    if n > 0 {
        lemma_first_refusals(environment, n - 1, m);
        let set = environment.set@;
        if set_refusal(set, n) is None {
            assert forall|i: int, j: int| 0 <= i < j < n implies upper_form(
                (#[trigger] set[i]).0@,
            ) != upper_form((#[trigger] set[j]).0@) by {}
        } else if set_refusal(set, n - 1) is None {
            assert(set[n - 1] == set[n - 1]);
            if exists|i: int|
                0 <= i < n - 1 && upper_form((#[trigger] set[i]).0@) == upper_form(set[n - 1].0@) {
                let i = choose|i: int|
                    0 <= i < n - 1 && upper_form((#[trigger] set[i]).0@) == upper_form(
                        set[n - 1].0@,
                    );
                assert(set[i] == set[i] && set[n - 1] == set[n - 1]);
            }
        }
    } else if m > 0 {
        lemma_first_refusals(environment, n, m - 1);
        let unset = environment.unset@;
        assert forall|set: Map<Seq<char>, String>|
            #[trigger] unset_refusal(set, unset, m) is None <==> {
                &&& forall|i: int|
                    0 <= i < m ==> name_refusal((#[trigger] unset[i])@) is None
                        && !set.contains_key(upper_form(unset[i]@))
                &&& forall|i: int, j: int|
                    0 <= i < j < m ==> upper_form((#[trigger] unset[i])@) != upper_form(
                        (#[trigger] unset[j])@,
                    )
            } by {
            if unset_refusal(set, unset, m) is Some && unset_refusal(set, unset, m - 1) is None {
                if exists|i: int|
                    0 <= i < m - 1 && upper_form((#[trigger] unset[i])@) == upper_form(
                        unset[m - 1]@,
                    ) {
                    let i = choose|i: int|
                        0 <= i < m - 1 && upper_form((#[trigger] unset[i])@) == upper_form(
                            unset[m - 1]@,
                        );
                    assert(unset[i] == unset[i] && unset[m - 1] == unset[m - 1]);
                }
                assert(unset[m - 1] == unset[m - 1]);
            }
        }
    }
}

proof fn lemma_set_variables(set: Seq<(String, String)>, n: int)
    requires
        0 <= n <= set.len(),
    ensures
        forall|name: Seq<char>| #[trigger]
            set_map(set, n).contains_key(name) <==> exists|i: int|
                0 <= i < n && upper_form((#[trigger] set[i]).0@) == name,
        (forall|i: int, j: int|
            0 <= i < j < n ==> upper_form((#[trigger] set[i]).0@) != upper_form(
                (#[trigger] set[j]).0@,
            )) ==> forall|i: int|
            0 <= i < n ==> set_map(set, n)[upper_form((#[trigger] set[i]).0@)] == set[i].1,
    decreases n,
{
    if n > 0 {
        lemma_set_variables(set, n - 1);
        assert forall|name: Seq<char>| #[trigger] set_map(set, n).contains_key(name) implies exists|
            i: int,
        |
            0 <= i < n && upper_form((#[trigger] set[i]).0@) == name by {
            if set_map(set, n - 1).contains_key(name) {
                let i = choose|i: int| 0 <= i < n - 1 && upper_form((#[trigger] set[i]).0@) == name;
                assert(upper_form(set[i].0@) == name);
            } else {
                assert(upper_form(set[n - 1].0@) == name);
            }
        }
        assert forall|name: Seq<char>|
            exists|i: int| 0 <= i < n && upper_form((#[trigger] set[i]).0@) == name implies #[trigger] set_map(
            set,
            n,
        ).contains_key(name) by {
            let i = choose|i: int| 0 <= i < n && upper_form((#[trigger] set[i]).0@) == name;
            if i < n - 1 {
                assert(set_map(set, n - 1).contains_key(name));
            }
        }
    }
}

proof fn lemma_unset_variables(unset: Seq<String>, n: int)
    requires
        0 <= n <= unset.len(),
    ensures
        forall|name: Seq<char>| #[trigger]
            unset_map(unset, n).contains_key(name) <==> exists|i: int|
                0 <= i < n && upper_form((#[trigger] unset[i])@) == name,
    decreases n,
{
    if n > 0 {
        lemma_unset_variables(unset, n - 1);
        assert forall|name: Seq<char>| #[trigger] unset_map(unset, n).contains_key(name) implies exists|
            i: int,
        |
            0 <= i < n && upper_form((#[trigger] unset[i])@) == name by {
            if unset_map(unset, n - 1).contains_key(name) {
                let i = choose|i: int|
                    0 <= i < n - 1 && upper_form((#[trigger] unset[i])@) == name;
                assert(upper_form(unset[i]@) == name);
            } else {
                assert(upper_form(unset[n - 1]@) == name);
            }
        }
        assert forall|name: Seq<char>|
            exists|i: int| 0 <= i < n && upper_form((#[trigger] unset[i])@) == name implies #[trigger] unset_map(
            unset,
            n,
        ).contains_key(name) by {
            let i = choose|i: int| 0 <= i < n && upper_form((#[trigger] unset[i])@) == name;
            if i < n - 1 {
                assert(unset_map(unset, n - 1).contains_key(name));
            }
        }
    }
}

/// An environment is accepted exactly where every name can name a variable, no value holds a null
/// character, and no two names are the same but for their case, neither among those that are set,
/// nor among those that are taken away, nor between the two.
pub proof fn law_environments_name_each_variable_once(environment: RawEnvironment)
    ensures
        environment.refusal() is None <==> {
            let set = environment.set@;
            let unset = environment.unset@;
            &&& forall|i: int|
                0 <= i < set.len() ==> name_refusal((#[trigger] set[i]).0@) is None
                    && !set[i].1@.contains('\0')
            &&& forall|i: int, j: int|
                0 <= i < j < set.len() ==> upper_form((#[trigger] set[i]).0@) != upper_form(
                    (#[trigger] set[j]).0@,
                )
            &&& forall|i: int| 0 <= i < unset.len() ==> name_refusal((#[trigger] unset[i])@) is None
            &&& forall|i: int, j: int|
                0 <= i < j < unset.len() ==> upper_form((#[trigger] unset[i])@) != upper_form(
                    (#[trigger] unset[j])@,
                )
            &&& forall|i: int, j: int|
                0 <= i < set.len() && 0 <= j < unset.len() ==> upper_form((#[trigger] set[i]).0@)
                    != upper_form((#[trigger] unset[j])@)
        },
{
    let set = environment.set@;
    let unset = environment.unset@;
    let n = set.len() as int;
    let m = unset.len() as int;
    lemma_first_refusals(environment, n, m);
    lemma_set_variables(set, n);
    let map = set_map(set, n);
    assert((forall|j: int|
        0 <= j < m ==> !map.contains_key(upper_form((#[trigger] unset[j])@))) <==> forall|
        i: int,
        j: int,
    |
        0 <= i < n && 0 <= j < m ==> upper_form((#[trigger] set[i]).0@) != upper_form(
            (#[trigger] unset[j])@,
        )) by {
        if forall|j: int| 0 <= j < m ==> !map.contains_key(upper_form((#[trigger] unset[j])@)) {
            assert forall|i: int, j: int| 0 <= i < n && 0 <= j < m implies upper_form(
                (#[trigger] set[i]).0@,
            ) != upper_form((#[trigger] unset[j])@) by {
                assert(!map.contains_key(upper_form(unset[j]@)));
            }
        }
    }
}

/// What an accepted environment does: a variable is set to the value that is given beside its name,
/// and taken away where its name stands there, in whatever case; no other variable is touched.
pub proof fn law_environments_do_what_they_say(environment: RawEnvironment, name: Seq<char>)
    requires
        environment.refusal() is None,
    ensures
        ({
            let set = environment.set@;
            let unset = environment.unset@;
            let settings = set_map(set, set.len() as int);
            let removed = unset_map(unset, unset.len() as int);
            &&& settings.contains_key(name) <==> exists|i: int|
                0 <= i < set.len() && upper_form((#[trigger] set[i]).0@) == name
            &&& forall|i: int|
                0 <= i < set.len() && upper_form((#[trigger] set[i]).0@) == name ==> settings[name]@
                    == set[i].1@
            &&& removed.contains_key(name) <==> exists|i: int|
                0 <= i < unset.len() && upper_form((#[trigger] unset[i])@) == name
            &&& !(settings.contains_key(name) && removed.contains_key(name))
        }),
{
    law_environments_name_each_variable_once(environment);
    lemma_set_variables(environment.set@, environment.set@.len() as int);
    lemma_unset_variables(environment.unset@, environment.unset@.len() as int);
}

/// A definition is accepted exactly where each of its parts is.
pub proof fn law_definitions_are_judged_in_full(raw: RawDefinition)
    ensures
        raw.refusal() is None <==> {
            &&& executable_refusal("executable"@, raw.executable@) is None
            &&& arguments_refusal("arguments"@, texts(raw.arguments@)) is None
            &&& raw.working_directory matches Some(directory) ==> directory@.len() > 0
                && !directory@.contains('\0')
            &&& raw.environment.refusal() is None
            &&& restart_of(
                if raw.kind == RawKind::Job {
                    WorkloadKind::Job
                } else {
                    WorkloadKind::Service
                },
                raw.restart,
            ) is Ok
            &&& stop_of(raw.stop) is Ok
            &&& logging_of(raw.logging) is Ok
        },
{
    reveal_strlit("${USERPROFILE}");
    assert(!"${USERPROFILE}"@.contains('\0'));
    assert("${USERPROFILE}"@.len() > 0);
}

/// What becomes of a definition: the kind, the executable, the arguments and the directory are those
/// that are written, the directory being the user's profile where none is; and the exit codes that
/// count as success are those that are written, or zero alone.
pub proof fn law_definitions_keep_what_is_written(
    raw: RawDefinition,
    id: WorkloadId,
    definition: WorkloadDefinition,
    code: u32,
)
    requires
        raw.describes(id, definition),
    ensures
        definition.id == id,
        definition.kind == WorkloadKind::Job <==> raw.kind == RawKind::Job,
        definition.process.executable@ == raw.executable@,
        texts(definition.process.arguments@) == texts(raw.arguments@),
        raw.working_directory matches Some(directory) ==> definition.process.working_directory@
            == directory@,
        raw.working_directory is None ==> definition.process.working_directory@
            == "${USERPROFILE}"@,
        raw.success_exit_codes matches Some(codes) ==> (definition.success_exit_codes@.contains(code)
            <==> codes@.contains(code)),
        raw.success_exit_codes is None ==> (definition.success_exit_codes@.contains(code) <==> code
            == 0),
        definition.process.environment.set.map() == set_map(
            raw.environment.set@,
            raw.environment.set@.len() as int,
        ),
        definition.process.environment.unset.map() == unset_map(
            raw.environment.unset@,
            raw.environment.unset@.len() as int,
        ),
        Ok::<ExecutionRestartPolicy, Refusal>(definition.restart) == restart_of(
            definition.kind,
            raw.restart,
        ),
        Ok::<StopDefinition, Refusal>(definition.stop) == stop_of(raw.stop),
        Ok::<LoggingPolicy, Refusal>(definition.logging) == logging_of(raw.logging),
{
    if let Some(codes) = raw.success_exit_codes {
        assert(codes@.to_set().contains(code) <==> codes@.contains(code));
    }
}

/// From the file to the supervisor: a service that is granted `n` restarts in a row is tried again
/// after a failure exactly while fewer than `n` retries were made; after a success only where it
/// asks to be restarted always.
pub proof fn law_granted_restarts_are_made(
    raw: RawDefinition,
    id: WorkloadId,
    definition: WorkloadDefinition,
    tried: u32,
)
    requires
        raw.describes(id, definition),
        raw.kind == RawKind::Service,
        raw.restart matches Some(restart) && restart.policy != Some(RawRestartPolicy::Never),
    ensures
        ({
            let policy = snapshot_of(definition).policy;
            &&& raw.restart->0.max_restarts matches Some(RawRestartLimit::Finite(n)) ==> (retries(
                policy,
                false,
                tried,
            ) <==> tried < n)
            &&& raw.restart->0.max_restarts is None ==> (retries(policy, false, tried) <==> tried
                < 10)
            &&& raw.restart->0.max_restarts matches Some(RawRestartLimit::Keyword(_)) ==> retries(
                policy,
                false,
                tried,
            )
            &&& retries(policy, true, tried) <==> retries(policy, false, tried)
                && raw.restart->0.policy == Some(RawRestartPolicy::Always)
        }),
{
    broadcast use NonZeroU32::lemma_view_of;

    reveal_strlit("never");
    reveal_strlit("on-failure");
    reveal_strlit("always");
    assert("never"@.len() == 5 && "on-failure"@.len() == 10 && "always"@.len() == 6);
    law_services_get_the_restarts_they_ask_for(raw.restart->0);
    law_services_restart_when_they_ask_for_it(raw.restart->0);
}

/// A supervisor is configured with what the definition says: its program, its policy and the codes
/// that count as success, in whole milliseconds.
pub proof fn law_snapshots_keep_the_definition(definition: WorkloadDefinition, code: u32)
    requires
        exists|order: Seq<u32>|
            codes_ascend(order) && #[trigger] order.to_set() == definition.success_exit_codes@,
    ensures
        ({
            let snapshot = snapshot_of(definition);
            &&& snapshot.workload_id == definition.id@
            &&& snapshot.kind == "job"@ <==> definition.kind == WorkloadKind::Job
            &&& snapshot.kind == "service"@ <==> definition.kind == WorkloadKind::Service
            &&& snapshot.executable == definition.process.executable@
            &&& snapshot.arguments == texts(definition.process.arguments@)
            &&& snapshot.working_directory == definition.process.working_directory@
            &&& snapshot.policy.success_exit_codes.contains(code)
                <==> definition.success_exit_codes@.contains(code)
            &&& definition.stop matches StopDefinition::CtrlBreak { timeout }
                ==> snapshot.policy.stop.method == "ctrl-break"@ && snapshot.policy.stop.timeout_ms
                == whole_millis(timeout@)
            &&& definition.stop matches StopDefinition::Command { timeout, command }
                ==> snapshot.policy.stop.method == "command"@ && snapshot.policy.stop.timeout_ms
                == whole_millis(timeout@) && snapshot.policy.stop.executable == command.executable@
                && snapshot.policy.stop.arguments == texts(command.arguments@)
            &&& definition.stop is Kill ==> snapshot.policy.stop.method == "kill"@
            &&& definition.logging is Disabled ==> !snapshot.policy.logging.capture_logs
            &&& definition.logging matches LoggingPolicy::Capture {
                segment_size,
                segment_age,
                retention_size,
                retention_age,
            } ==> {
                let logging = snapshot.policy.logging;
                &&& logging.capture_logs && logging.segment_size == segment_size
                    && logging.segment_age_ms == whole_millis(segment_age@)
                &&& logging.retention_size_unlimited == (retention_size is Unlimited)
                &&& retention_size matches RetentionLimit::Limited(bytes) ==> logging.retention_size
                    == bytes
                &&& logging.retention_age_unlimited == (retention_age is Unlimited)
                &&& retention_age matches RetentionDuration::Limited(span)
                    ==> logging.retention_age_ms == whole_millis(span@)
            }
        }),
{
    reveal_strlit("job");
    reveal_strlit("service");
    assert("job"@.len() == 3 && "service"@.len() == 7);
    let codes = definition.success_exit_codes@;
    let order = ascending_codes(codes);
    assert(codes_ascend(order) && order.to_set() == codes);
    assert(order.to_set().contains(code) <==> order.contains(code));
}

/// Restart settings carry the delays and the span of the policy.
pub proof fn law_snapshots_keep_the_delays(
    definition: WorkloadDefinition,
    retry: ServiceRetryPolicy,
)
    requires
        service_retry(definition.restart) == Some(retry),
    ensures
        ({
            let restart = snapshot_of(definition).policy.restart;
            &&& restart.reset_after_ms == whole_millis(retry.reset_after@)
            &&& restart.backoff_initial_ms == whole_millis(retry.backoff.initial_delay()@)
            &&& restart.backoff_multiplier == retry.backoff.factor()@
            &&& restart.backoff_maximum_ms == whole_millis(retry.backoff.maximum_delay()@)
            &&& definition.restart->Service_0 is Always ==> restart.policy == "always"@
            &&& definition.restart->Service_0 is OnFailure ==> restart.policy == "on-failure"@
        }),
{
    retry.backoff.factor().lemma_view_bound();
}

/// The settings of a job carry the limit and the delays of its policy.
pub proof fn law_snapshots_keep_the_limits_of_jobs(
    definition: WorkloadDefinition,
    retry: JobRetryPolicy,
)
    requires
        definition.restart == ExecutionRestartPolicy::Job(JobRestartPolicy::OnFailure(retry)),
    ensures
        ({
            let restart = snapshot_of(definition).policy.restart;
            &&& restart.policy == "on-failure"@
            &&& restart.max_restarts == retry.max_restarts@ && !restart.max_restarts_unlimited
            &&& restart.backoff_initial_ms == whole_millis(retry.backoff.initial_delay()@)
            &&& restart.backoff_multiplier == retry.backoff.factor()@
            &&& restart.backoff_maximum_ms == whole_millis(retry.backoff.maximum_delay()@)
        }),
{
    retry.max_restarts.lemma_view_bound();
    retry.backoff.factor().lemma_view_bound();
}

/// A span is counted in the milliseconds that it holds in full.
pub proof fn law_spans_are_counted_in_whole_milliseconds(span: nat)
    requires
        span < 1_000_000 * u64::MAX,
    ensures
        whole_millis(span) * 1_000_000 <= span < (whole_millis(span) + 1) * 1_000_000,
{
}

/// Which entries of the directory count: the regular files with the extension `toml`, in whatever
/// case, each under its name and with its size; and a file of more than one mebibyte refuses all.
pub proof fn law_definition_files_are_listed(entries: Seq<DirectoryEntry>, n: int, name: Seq<char>)
    requires
        0 <= n <= entries.len(),
        listing_refusal(entries, n) is None,
    ensures
        forall|i: int|
            0 <= i < n && is_definition_file(#[trigger] entries[i]) ==> entries[i].regular
                && entries[i].size <= 1_048_576 && entries[i].file_name is Some,
        listed_files(entries, n).contains_key(name) <==> exists|i: int|
            0 <= i < n && is_definition_file(#[trigger] entries[i]) && entries[i].file_name->0@
                == name,
        forall|i: int|
            0 <= i < n && is_definition_file(#[trigger] entries[i]) ==> {
                let file = listed_files(entries, n)[entries[i].file_name->0@];
                file.path == entries[i].path && file.size == entries[i].size && file.modified
                    == entries[i].modified
            },
    decreases n,
{
    if n > 0 {
        law_definition_files_are_listed(entries, n - 1, name);
        assert forall|i: int|
            0 <= i < n && is_definition_file(#[trigger] entries[i]) implies {
            let file = listed_files(entries, n)[entries[i].file_name->0@];
            file.path == entries[i].path && file.size == entries[i].size && file.modified
                == entries[i].modified
        } by {
            if i < n - 1 && is_definition_file(entries[n - 1]) {
                assert(upper_form(entries[i].file_name->0@) != upper_form(
                    entries[n - 1].file_name->0@,
                ));
            }
        }
        if listed_files(entries, n).contains_key(name) {
            if listed_files(entries, n - 1).contains_key(name) {
                let i = choose|i: int|
                    0 <= i < n - 1 && is_definition_file(#[trigger] entries[i])
                        && entries[i].file_name->0@ == name;
                assert(is_definition_file(entries[i]));
            } else {
                assert(is_definition_file(entries[n - 1]));
            }
        }
    }
}

/// A file is a definition by its extension alone, in whatever case.
pub proof fn law_definition_files_end_in_toml(entry: DirectoryEntry)
    ensures
        is_definition_file(entry) <==> (entry.extension matches Some(found) && found@.map_values(
            |c: char| ascii_lower(c),
        ) == "toml"@),
{
    reveal_strlit("toml");
    assert("toml"@.map_values(|c: char| ascii_lower(c)) =~= "toml"@);
}

/// A directory is loaded only up to 4096 files and sixteen mebibytes together.
pub proof fn law_directories_are_bounded(files: Seq<(Seq<char>, FileSnapshot)>)
    ensures
        weight_refusal(files) is None <==> files.len() <= 4096 && total_bytes(
            files,
            files.len() as int,
        ) <= 16_777_216,
        files.len() > 0 ==> total_bytes(files, files.len() as int) == total_bytes(
            files,
            files.len() - 1,
        ) + files.last().1.size,
        total_bytes(files, 0) == 0,
{
}

/// The name of a workload is that of its file without the extension.
pub proof fn law_workloads_are_named_after_their_files(stem: Seq<char>, suffix: Seq<char>)
    requires
        stem.len() > 0,
        !suffix.contains('.'),
    ensures
        file_stem(stem + seq!['.'] + suffix) == stem,
    decreases suffix.len(),
{
    lemma_last_dot(stem, suffix);
    let name = stem + seq!['.'] + suffix;
    assert(name.take(stem.len() as int) =~= stem);
}

proof fn lemma_last_dot(stem: Seq<char>, suffix: Seq<char>)
    requires
        !suffix.contains('.'),
    ensures
        last_dot(stem + seq!['.'] + suffix) == stem.len(),
    decreases suffix.len(),
{
    let name = stem + seq!['.'] + suffix;
    if suffix.len() > 0 {
        let shorter = suffix.drop_last();
        assert(suffix.contains(suffix.last()));
        assert(name.last() == suffix.last());
        assert(!shorter.contains('.')) by {
            if shorter.contains('.') {
                let i = choose|i: int| 0 <= i < shorter.len() && shorter[i] == '.';
                assert(suffix[i] == '.');
            }
        }
        lemma_last_dot(stem, shorter);
        assert(name.drop_last() =~= stem + seq!['.'] + shorter);
    } else {
        assert(name.last() == '.');
    }
}

/// A file that was read makes a definition exactly where its name without the extension can name a
/// workload that no file before it names, it has the size that it was listed with, and its text is
/// a definition that is accepted.
pub proof fn law_files_are_accepted_whole(
    files: Seq<(Seq<char>, FileSnapshot)>,
    contents: Seq<FileContent>,
    at: int,
    raw: RawDefinition,
    bytes: Vec<u8>,
)
    requires
        contents[at] == (FileContent::Read { bytes, parsed: Ok(raw) }),
        vstd::utf8::valid_utf8(bytes@),
    ensures
        file_accepted(files, contents, at) <==> {
            &&& crate::ids::is_workload_id(vstd::utf8::encode_utf8(file_stem(files[at].0)))
            &&& forall|i: int|
                0 <= i < at ==> file_stem((#[trigger] files[i]).0) != file_stem(files[at].0)
            &&& bytes@.len() == files[at].1.size
            &&& raw.refusal() is None
        },
{
}

/// Each unit of a size is a thousand and twenty-four times the one before it, and there is no other.
pub proof fn law_units_are_binary(unit: Seq<char>)
    ensures
        unit_factor("B"@) == Some(1nat),
        unit_factor("KiB"@) == Some(1024 * unit_factor("B"@)->0),
        unit_factor("MiB"@) == Some(1024 * unit_factor("KiB"@)->0),
        unit_factor("GiB"@) == Some(1024 * unit_factor("MiB"@)->0),
        unit_factor(unit) is Some <==> unit == "B"@ || unit == "KiB"@ || unit == "MiB"@ || unit
            == "GiB"@,
{
    reveal_strlit("B");
    reveal_strlit("KiB");
    reveal_strlit("MiB");
    reveal_strlit("GiB");
    assert("B"@.len() == 1 && "KiB"@.len() == 3 && "MiB"@.len() == 3 && "GiB"@.len() == 3);
    assert("KiB"@[0] == 'K' && "MiB"@[0] == 'M' && "GiB"@[0] == 'G');
}

} // verus!

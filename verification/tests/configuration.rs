use susm::config::canonical::{config_generation, process_hash};
use susm::config::loader::{
    check_weight, enumerate, load_directory, DirectoryEntry, FileContent, FileSnapshot, LoadError,
};
use susm::config::model::{
    EnvironmentName, EnvironmentOverlay, InvalidEnvironmentName, LoggingPolicy, ProcessDefinition,
    RetentionDuration, RetentionLimit, StopDefinition, WorkloadDefinition, WorkloadKind,
};
use susm::config::raw::{
    accept_size, logging_policy, readable_size, restart_policy, stop_definition, DefinitionError,
    RawBackoff, RawDefinition, RawEnvironment, RawKind, RawLogging, RawRestart, RawRestartLimit,
    RawRestartPolicy, RawRetentionAge, RawStop, RawStopCommand, RawStopMethod,
};
use susm::ids::{InvalidWorkloadId, WorkloadId};
use susm::num::NonZeroU32;
use susm::ordered::TextMap;
use susm::restart::{
    BackoffPolicy, ExecutionRestartPolicy, JobRestartPolicy, JobRetryPolicy, ServiceRestartPolicy,
    ServiceRetryLimit, ServiceRetryPolicy,
};
use susm::text::hex;
use susm::time::{Duration, NonZeroDuration};

fn id(text: &str) -> WorkloadId {
    WorkloadId::parse(text.to_string()).unwrap()
}

fn silent(kind: RawKind) -> RawDefinition {
    RawDefinition {
        kind,
        executable: "agent.exe".to_string(),
        arguments: Vec::new(),
        working_directory: None,
        success_exit_codes: None,
        environment: RawEnvironment { set: Vec::new(), unset: Vec::new() },
        restart: None,
        stop: None,
        logging: None,
    }
}

fn definition(kind: RawKind, name: &str) -> WorkloadDefinition {
    silent(kind).into_definition(id(name)).unwrap()
}

fn invalid(field: &'static str, reason: &str) -> DefinitionError {
    DefinitionError::InvalidField { field, reason: reason.to_string() }
}

fn restart() -> RawRestart {
    RawRestart { policy: None, max_restarts: None, reset_after: None, backoff: None }
}

fn logging() -> RawLogging {
    RawLogging {
        capture: None,
        segment_size: None,
        segment_age: None,
        retention_size: None,
        retention_age: None,
    }
}

fn span(duration: Duration) -> NonZeroDuration {
    NonZeroDuration::new(duration).unwrap()
}

#[test]
fn silence_means_the_defaults() {
    let service = definition(RawKind::Service, "agent");
    assert_eq!(service.kind(), WorkloadKind::Service);
    assert_eq!(service.id().as_str(), "agent");
    assert_eq!(service.process().executable(), "agent.exe");
    assert_eq!(service.process().working_directory(), "${USERPROFILE}");
    assert!(service.process().arguments().is_empty());
    assert_eq!(service.success_exit_codes().iter().copied().collect::<Vec<u32>>(), vec![0]);
    assert_eq!(
        service.stop(),
        &StopDefinition::CtrlBreak { timeout: Duration::from_secs(10) }
    );
    assert_eq!(
        service.logging(),
        LoggingPolicy::Capture {
            segment_size: 16 * 1024 * 1024,
            segment_age: Duration::from_secs(3600),
            retention_size: RetentionLimit::Limited(1024 * 1024 * 1024),
            retention_age: RetentionDuration::Limited(Duration::from_secs(30 * 24 * 3600)),
        }
    );
    let policy = ServiceRetryPolicy::new(
        ServiceRetryLimit::Finite(NonZeroU32::new(10).unwrap()),
        span(Duration::from_secs(300)),
        BackoffPolicy::new(
            span(Duration::from_millis(250)),
            NonZeroU32::new(2).unwrap(),
            span(Duration::from_secs(30)),
        )
        .unwrap(),
    );
    assert_eq!(
        service.restart(),
        ExecutionRestartPolicy::Service(ServiceRestartPolicy::OnFailure(policy))
    );
    assert_eq!(
        definition(RawKind::Job, "backup").restart(),
        ExecutionRestartPolicy::Job(JobRestartPolicy::Never)
    );
}

#[test]
fn restart_settings_fit_the_kind_of_workload() {
    let service = WorkloadKind::Service;
    let job = WorkloadKind::Job;

    let mut never = restart();
    never.policy = Some(RawRestartPolicy::Never);
    assert_eq!(
        restart_policy(service, Some(never)),
        Ok(ExecutionRestartPolicy::Service(ServiceRestartPolicy::Never))
    );

    let mut limited = restart();
    limited.policy = Some(RawRestartPolicy::Never);
    limited.reset_after = Some(Duration::from_secs(1));
    let refused = restart_policy(service, Some(limited)).unwrap_err();
    assert_eq!(
        refused,
        DefinitionError::FieldNotAllowed {
            field: "restart.reset_after",
            context: "restart.policy is never",
        }
    );
    assert_eq!(
        refused.message(),
        "`restart.reset_after` is not allowed when restart.policy is never"
    );

    let mut unlimited = restart();
    unlimited.policy = Some(RawRestartPolicy::Always);
    unlimited.max_restarts = Some(RawRestartLimit::Keyword("unlimited".to_string()));
    match restart_policy(service, Some(unlimited)).unwrap() {
        ExecutionRestartPolicy::Service(ServiceRestartPolicy::Always(policy)) => {
            assert_eq!(policy.limit(), ServiceRetryLimit::Unlimited);
        }
        other => panic!("{other:?}"),
    }

    let mut unknown = restart();
    unknown.max_restarts = Some(RawRestartLimit::Keyword("ten".to_string()));
    assert_eq!(
        restart_policy(service, Some(unknown)),
        Err(invalid("restart.max_restarts", "unknown value \"ten\""))
    );

    let mut always = restart();
    always.policy = Some(RawRestartPolicy::Always);
    assert_eq!(
        restart_policy(job, Some(always)),
        Err(invalid("restart.policy", "jobs do not support always"))
    );

    let mut unsaid = restart();
    unsaid.policy = Some(RawRestartPolicy::OnFailure);
    let required = restart_policy(job, Some(unsaid)).unwrap_err();
    assert_eq!(
        required,
        DefinitionError::FieldRequired {
            field: "restart.max_restarts",
            context: "a job uses on-failure restart",
        }
    );
    assert_eq!(
        required.message(),
        "`restart.max_restarts` is required when a job uses on-failure restart"
    );

    let mut keyword = restart();
    keyword.policy = Some(RawRestartPolicy::OnFailure);
    keyword.max_restarts = Some(RawRestartLimit::Keyword("a\"b".to_string()));
    assert_eq!(
        restart_policy(job, Some(keyword)),
        Err(invalid("restart.max_restarts", "jobs require a finite integer, got \"a\\\"b\""))
    );

    let mut twice = restart();
    twice.policy = Some(RawRestartPolicy::OnFailure);
    twice.max_restarts = Some(RawRestartLimit::Finite(2));
    twice.backoff = Some(RawBackoff {
        initial: Some(Duration::from_millis(10)),
        multiplier: Some(3),
        maximum: Some(Duration::from_millis(50)),
    });
    let backoff = BackoffPolicy::new(
        span(Duration::from_millis(10)),
        NonZeroU32::new(3).unwrap(),
        span(Duration::from_millis(50)),
    )
    .unwrap();
    assert_eq!(
        restart_policy(job, Some(twice)),
        Ok(ExecutionRestartPolicy::Job(JobRestartPolicy::OnFailure(JobRetryPolicy::new(
            NonZeroU32::new(2).unwrap(),
            backoff,
        ))))
    );
}

#[test]
fn backoff_settings_are_positive_and_ordered() {
    let zero = RawBackoff { initial: Some(Duration::from_millis(0)), multiplier: None, maximum: None };
    assert_eq!(
        zero.into_policy(),
        Err(invalid("restart.backoff.initial", "must be positive"))
    );
    let flat = RawBackoff { initial: None, multiplier: Some(0), maximum: None };
    assert_eq!(
        flat.into_policy(),
        Err(invalid("restart.backoff.multiplier", "must be positive"))
    );
    let crossed = RawBackoff {
        initial: Some(Duration::from_secs(2)),
        multiplier: None,
        maximum: Some(Duration::from_secs(1)),
    };
    assert_eq!(
        crossed.into_policy(),
        Err(invalid("restart.backoff", "maximum backoff is less than initial backoff"))
    );
}

#[test]
fn stop_settings_fit_their_method() {
    let kill = RawStop { method: Some(RawStopMethod::Kill), timeout: None, command: None };
    assert_eq!(stop_definition(Some(kill)), Ok(StopDefinition::Kill));

    let timed = RawStop {
        method: Some(RawStopMethod::Kill),
        timeout: Some(Duration::from_secs(1)),
        command: None,
    };
    assert_eq!(
        stop_definition(Some(timed)),
        Err(DefinitionError::FieldNotAllowed {
            field: "stop.timeout",
            context: "stop.method is kill",
        })
    );

    let command = |timeout: Option<Duration>, executable: &str| RawStop {
        method: Some(RawStopMethod::Command),
        timeout,
        command: Some(RawStopCommand {
            executable: executable.to_string(),
            arguments: vec!["stop".to_string()],
        }),
    };
    match stop_definition(Some(command(Some(Duration::from_secs(3)), "agentctl.exe"))).unwrap() {
        StopDefinition::Command { timeout, command } => {
            assert_eq!(timeout, Duration::from_secs(3));
            assert_eq!(command.executable(), "agentctl.exe");
            assert_eq!(command.arguments(), &vec!["stop".to_string()]);
        }
        other => panic!("{other:?}"),
    }
    assert_eq!(
        stop_definition(Some(command(None, "agentctl.exe"))),
        Err(DefinitionError::FieldRequired {
            field: "stop.timeout",
            context: "stop.method is command",
        })
    );
    assert_eq!(
        stop_definition(Some(command(Some(Duration::from_secs(3)), "stop.PS1"))),
        Err(invalid("stop.command.executable", ".PS1 requires an explicit shell executable"))
    );
    assert_eq!(
        stop_definition(Some(command(Some(Duration::from_secs(0)), "agentctl.exe"))),
        Err(invalid("stop.timeout", "must be positive"))
    );
}

#[test]
fn logging_sizes_are_read_in_binary_units() {
    let mut sizes = logging();
    sizes.segment_size = Some("64KiB".to_string());
    sizes.retention_size = Some("2 MB".to_string());
    sizes.retention_age = Some(RawRetentionAge::Keyword("unlimited".to_string()));
    assert_eq!(
        logging_policy(Some(sizes)),
        Ok(LoggingPolicy::Capture {
            segment_size: 65536,
            segment_age: Duration::from_secs(3600),
            retention_size: RetentionLimit::Limited(2 * 1024 * 1024),
            retention_age: RetentionDuration::Unlimited,
        })
    );

    let mut bare = logging();
    bare.segment_size = Some("64".to_string());
    assert!(matches!(
        logging_policy(Some(bare)),
        Err(DefinitionError::InvalidField { field: "logging.segment_size", .. })
    ));

    let mut zero = logging();
    zero.segment_size = Some("0B".to_string());
    assert_eq!(
        logging_policy(Some(zero)),
        Err(invalid("logging.segment_size", "must be positive"))
    );
    assert_eq!(accept_size("size", Ok(7)), Ok(7));
    assert_eq!(accept_size("size", Ok(0)), Err(invalid("size", "must be positive")));
    assert_eq!(accept_size("size", Err("odd".to_string())), Err(invalid("size", "odd")));
    assert!(readable_size("18446744073709551615B"));
    assert!(!readable_size("184467440737095516155B"));
    assert!(!readable_size("18446744073709551615 5 KiB"));
    assert!(!readable_size("1.84467440737095516155MiB"));
    assert!(readable_size("184467440737095516154B"));
    assert!(readable_size("184467440737095516155"));
    assert!(readable_size("x184467440737095516155B"));
    assert!(readable_size("1e184467440737095516155B"));
    let mut unread = logging();
    unread.capture = Some(false);
    unread.segment_size = Some("184467440737095516155B".to_string());
    assert!(unread.has_readable_sizes());
    assert!(matches!(
        logging_policy(Some(unread)),
        Err(DefinitionError::FieldNotAllowed { field: "logging.segment_size", .. })
    ));
    let mut odd = logging();
    odd.segment_size = Some("x184467440737095516155B".to_string());
    assert!(matches!(
        logging_policy(Some(odd)),
        Err(DefinitionError::InvalidField { field: "logging.segment_size", .. })
    ));

    let mut unlimited = logging();
    unlimited.retention_size = Some("unlimited".to_string());
    unlimited.retention_age = Some(RawRetentionAge::Value(Duration::from_secs(60)));
    assert!(matches!(
        logging_policy(Some(unlimited)),
        Ok(LoggingPolicy::Capture {
            retention_size: RetentionLimit::Unlimited,
            retention_age: RetentionDuration::Limited(_),
            ..
        })
    ));

    let mut quiet = logging();
    quiet.capture = Some(false);
    assert_eq!(logging_policy(Some(quiet)), Ok(LoggingPolicy::Disabled));

    let mut contradiction = logging();
    contradiction.capture = Some(false);
    contradiction.segment_age = Some(Duration::from_secs(1));
    assert_eq!(
        logging_policy(Some(contradiction)),
        Err(DefinitionError::FieldNotAllowed {
            field: "logging.segment_age",
            context: "logging.capture is false",
        })
    );

    let mut unknown = logging();
    unknown.retention_age = Some(RawRetentionAge::Keyword("ever".to_string()));
    assert_eq!(
        logging_policy(Some(unknown)),
        Err(invalid("logging.retention_age", "unknown value \"ever\""))
    );
}

#[test]
fn environment_names_are_upper_case_and_distinct() {
    assert_eq!(EnvironmentName::parse("straße").unwrap().as_str(), "STRASSE");
    for text in ["a", "ŉ", "ǰ", "ﬃ", "≠", "\u{1}"] {
        let name = EnvironmentName::parse(text).unwrap();
        assert!(!name.as_str().is_empty());
        assert!(!name.as_str().contains('=') && !name.as_str().contains('\0'));
    }
    assert_eq!(EnvironmentName::parse(""), Err(InvalidEnvironmentName::Empty));
    assert_eq!(EnvironmentName::parse("a=b"), Err(InvalidEnvironmentName::ContainsEquals));
    assert_eq!(EnvironmentName::parse("a\0"), Err(InvalidEnvironmentName::ContainsNull));
    assert_eq!(InvalidEnvironmentName::Empty.message(), "environment variable name is empty");

    let overlay = RawEnvironment {
        set: vec![("path".to_string(), "x".to_string())],
        unset: vec!["Temp".to_string()],
    }
    .into_overlay()
    .unwrap();
    assert_eq!(overlay.set().get("PATH"), Some(&"x".to_string()));
    assert!(overlay.unset().contains_key("TEMP"));

    let twice = RawEnvironment {
        set: vec![("PATH".to_string(), "x".to_string()), ("path".to_string(), "y".to_string())],
        unset: Vec::new(),
    };
    assert_eq!(
        twice.into_overlay(),
        Err(invalid("environment.set", "duplicate Windows environment name \"path\""))
    );

    let unset_twice = RawEnvironment {
        set: Vec::new(),
        unset: vec!["a".to_string(), "A".to_string()],
    };
    assert_eq!(
        unset_twice.into_overlay(),
        Err(invalid("environment.unset", "duplicate Windows environment name \"A\""))
    );

    let both = RawEnvironment {
        set: vec![("home".to_string(), "x".to_string())],
        unset: vec!["Home".to_string()],
    };
    assert_eq!(
        both.into_overlay(),
        Err(invalid("environment", "HOME appears in both set and unset"))
    );

    let null = RawEnvironment {
        set: vec![("home".to_string(), "x\0".to_string())],
        unset: Vec::new(),
    };
    assert_eq!(
        null.into_overlay(),
        Err(invalid("environment.set", "must not contain a null character"))
    );
}

#[test]
fn executables_and_arguments_are_checked() {
    let mut empty = silent(RawKind::Service);
    empty.executable = String::new();
    assert_eq!(
        empty.into_definition(id("a")),
        Err(invalid("executable", "must not be empty"))
    );
    let mut script = silent(RawKind::Service);
    script.executable = "C:\\tools\\run.bat".to_string();
    assert_eq!(
        script.into_definition(id("a")),
        Err(invalid("executable", ".bat requires an explicit shell executable"))
    );
    let mut null = silent(RawKind::Service);
    null.arguments = vec![String::new(), "\0".to_string()];
    assert_eq!(
        null.into_definition(id("a")),
        Err(invalid("arguments", "must not contain a null character"))
    );
    let mut nowhere = silent(RawKind::Service);
    nowhere.working_directory = Some(String::new());
    assert_eq!(
        nowhere.into_definition(id("a")),
        Err(invalid("working_directory", "must not be empty"))
    );
    assert_eq!(invalid("executable", "odd").message(), "invalid `executable`: odd");
}

#[test]
fn processes_are_told_apart_by_their_hash() {
    let process = |arguments: Vec<&str>| ProcessDefinition {
        executable: "a".to_string(),
        arguments: arguments.into_iter().map(String::from).collect(),
        working_directory: "b".to_string(),
        environment: EnvironmentOverlay::default(),
    };
    let joined = process_hash(&process(vec!["xy"]));
    let split = process_hash(&process(vec!["x", "y"]));
    assert_ne!(joined, split);
    assert_eq!(joined, process_hash(&process(vec!["xy"])));
    assert_ne!(hex(joined.as_bytes()), hex(&[0; 32]));

    let mut one: TextMap<WorkloadDefinition> = TextMap::new();
    one.insert("agent".to_string(), definition(RawKind::Service, "agent"));
    let mut other: TextMap<WorkloadDefinition> = TextMap::new();
    other.insert("agent".to_string(), definition(RawKind::Job, "agent"));
    assert_ne!(config_generation(&one), config_generation(&other));
    assert_ne!(config_generation(&TextMap::new()), config_generation(&one));
}

fn entry(name: &str) -> DirectoryEntry {
    DirectoryEntry {
        path: format!("C:\\config\\{name}"),
        extension: name.rsplit_once('.').map(|(_, extension)| extension.to_string()),
        file_name: Some(name.to_string()),
        regular: true,
        size: 10,
        modified: 1,
    }
}

fn read(definition: RawDefinition) -> FileContent {
    FileContent::Read { bytes: vec![b' '; 10], parsed: Ok(definition) }
}

#[test]
fn directories_list_their_definition_files() {
    let files = enumerate(&vec![entry("b.TOML"), entry("notes.txt"), entry("a.toml")]).unwrap();
    assert_eq!(files.len(), 2);
    assert_eq!(files.key(0), "a.toml");
    assert_eq!(
        files.value(1),
        &FileSnapshot { path: "C:\\config\\b.TOML".to_string(), size: 10, modified: 1 }
    );

    let mut link = entry("a.toml");
    link.regular = false;
    assert_eq!(
        enumerate(&vec![link]),
        Err(LoadError::NotRegularFile("C:\\config\\a.toml".to_string()))
    );
    let mut large = entry("a.toml");
    large.size = 1024 * 1024 + 1;
    assert_eq!(
        enumerate(&vec![large]),
        Err(LoadError::FileTooLarge("C:\\config\\a.toml".to_string()))
    );
    let mut unnamed = entry("a.toml");
    unnamed.file_name = None;
    assert_eq!(
        enumerate(&vec![unnamed]),
        Err(LoadError::NonUnicodeFilename("C:\\config\\a.toml".to_string()))
    );
    assert_eq!(
        enumerate(&vec![entry("a.toml"), entry("A.toml")]),
        Err(LoadError::ChangedDuringRead)
    );
}

#[test]
fn directories_are_bounded_in_files_and_bytes() {
    let mut heavy: TextMap<FileSnapshot> = TextMap::new();
    for index in 0..17 {
        heavy.insert(
            format!("{index:04}.toml"),
            FileSnapshot { path: String::new(), size: 1024 * 1024, modified: 0 },
        );
    }
    assert_eq!(check_weight(&heavy), Err(LoadError::TooManyBytes));
    heavy.remove("0000.toml");
    assert_eq!(check_weight(&heavy), Ok(()));

    let mut many: TextMap<FileSnapshot> = TextMap::new();
    for index in 0..4097 {
        many.insert(
            format!("{index:04}.toml"),
            FileSnapshot { path: String::new(), size: 0, modified: 0 },
        );
    }
    assert_eq!(check_weight(&many), Err(LoadError::TooManyFiles));
}

#[test]
fn directories_load_as_a_whole() {
    let files = enumerate(&vec![entry("agent.toml"), entry("backup.toml")]).unwrap();
    let candidate = load_directory(
        &files,
        vec![read(silent(RawKind::Service)), read(silent(RawKind::Job))],
        enumerate(&vec![entry("agent.toml"), entry("backup.toml")]),
    )
    .unwrap();
    assert_eq!(candidate.definitions().len(), 2);
    assert_eq!(candidate.generation(), config_generation(candidate.definitions()));
    let definitions = candidate.into_definitions();
    assert_eq!(definitions.get("backup").unwrap().kind(), WorkloadKind::Job);

    assert_eq!(
        load_directory(
            &files,
            vec![read(silent(RawKind::Service)), read(silent(RawKind::Job))],
            enumerate(&vec![entry("agent.toml")]),
        ),
        Err(LoadError::ChangedDuringRead)
    );
    let gone = || Err(LoadError::MissingDirectory("x".to_string()));
    assert_eq!(
        load_directory(
            &files,
            vec![read(silent(RawKind::Service)), read(silent(RawKind::Job))],
            gone(),
        ),
        Err(LoadError::MissingDirectory("x".to_string()))
    );
    assert!(matches!(
        load_directory(
            &files,
            vec![FileContent::Unreadable("denied".to_string()), read(silent(RawKind::Job))],
            gone(),
        ),
        Err(LoadError::Io { .. })
    ));
}

#[test]
fn directories_are_refused_at_their_first_fault() {
    let one = enumerate(&vec![entry("agent.toml")]).unwrap();
    let path = "C:\\config\\agent.toml".to_string();
    let again = || enumerate(&vec![entry("agent.toml")]);
    let load = |content: FileContent| load_directory(&one, vec![content], again()).unwrap_err();

    assert_eq!(
        load(FileContent::Unreadable("denied".to_string())),
        LoadError::Io { path: path.clone(), source: "denied".to_string() }
    );
    let unread: Result<RawDefinition, String> = Err("no kind".to_string());
    assert_eq!(
        load(FileContent::Read { bytes: vec![0xff; 11], parsed: Err(String::new()) }),
        LoadError::ChangedDuringRead
    );
    let odd_bytes = load(FileContent::Read { bytes: vec![0xff; 10], parsed: Err(String::new()) });
    assert_eq!(
        odd_bytes.message(),
        "configuration file is not UTF-8: C:\\config\\agent.toml: invalid utf-8 sequence of 1 \
         bytes from index 0"
    );
    assert_eq!(
        load(FileContent::Read { bytes: vec![b' '; 10], parsed: unread }),
        LoadError::Toml { path: path.clone(), source: "no kind".to_string() }
    );
    let mut empty = silent(RawKind::Job);
    empty.executable = String::new();
    assert_eq!(
        load(read(empty)),
        LoadError::Definition {
            path: path.clone(),
            source: invalid("executable", "must not be empty"),
        }
    );

    let odd = enumerate(&vec![entry("-agent.toml")]).unwrap();
    assert_eq!(
        load_directory(
            &odd,
            vec![read(silent(RawKind::Job))],
            enumerate(&vec![entry("-agent.toml")]),
        ),
        Err(LoadError::InvalidWorkloadId {
            path: "C:\\config\\-agent.toml".to_string(),
            source: InvalidWorkloadId::InvalidBoundary,
        })
    );

    let repeated = || {
        let mut files: TextMap<FileSnapshot> = TextMap::new();
        for name in ["agent.TOML", "agent.toml"] {
            files.insert(
                name.to_string(),
                FileSnapshot { path: name.to_string(), size: 10, modified: 1 },
            );
        }
        files
    };
    let duplicate = load_directory(
        &repeated(),
        vec![read(silent(RawKind::Job)), read(silent(RawKind::Job))],
        Ok(repeated()),
    )
    .unwrap_err();
    assert_eq!(
        duplicate.message(),
        "duplicate workload ID \"agent\" from agent.TOML and agent.toml"
    );
}

#[test]
fn load_errors_say_what_is_wrong() {
    assert_eq!(
        LoadError::TooManyFiles.message(),
        "configuration contains more than 4,096 workload files"
    );
    assert_eq!(
        LoadError::TooManyBytes.message(),
        "configuration contains more than 16 MiB of TOML"
    );
    assert_eq!(
        LoadError::ChangedDuringRead.message(),
        "configuration changed while reload was reading it"
    );
    assert_eq!(
        LoadError::FileTooLarge("x".to_string()).message(),
        "configuration file exceeds 1 MiB: x"
    );
    assert_eq!(
        LoadError::MissingDirectory("x".to_string()).message(),
        "configuration directory does not exist: x"
    );
    assert_eq!(
        LoadError::Io { path: "x".to_string(), source: "denied".to_string() }.message(),
        "cannot access x: denied"
    );
}

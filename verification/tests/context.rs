use apix::logger::{Hue, LogLevel, PluginLogger};
use apix::plan::PlanState;
use apix::plugin_ctx::PluginCtx;
use apix::proposal::Proposal;
use apix::system::{command_found, describe_probe, version_flag, ProbeOutcome};

#[test]
fn level_names_are_read_whatever_their_case() {
    assert_eq!(LogLevel::parse("error"), LogLevel::Error);
    assert_eq!(LogLevel::parse("ERROR"), LogLevel::Error);
    assert_eq!(LogLevel::parse("Warn"), LogLevel::Warn);
    assert_eq!(LogLevel::parse("warning"), LogLevel::Warn);
    assert_eq!(LogLevel::parse("info"), LogLevel::Info);
    assert_eq!(LogLevel::parse("DeBuG"), LogLevel::Debug);
    assert_eq!(LogLevel::parse("trace"), LogLevel::Trace);
}

#[test]
fn an_unknown_level_counts_as_info() {
    assert_eq!(LogLevel::parse("verbose"), LogLevel::Info);
    assert_eq!(LogLevel::parse(""), LogLevel::Info);
}

#[test]
fn from_lower_takes_lower_case_names_only() {
    assert_eq!(LogLevel::from_lower("error"), LogLevel::Error);
    assert_eq!(LogLevel::from_lower("ERROR"), LogLevel::Info);
    assert_eq!(LogLevel::from_lower("warn"), LogLevel::Warn);
    assert_eq!(LogLevel::from_lower("warning"), LogLevel::Warn);
    assert_eq!(LogLevel::from_lower("debug"), LogLevel::Debug);
    assert_eq!(LogLevel::from_lower("trace"), LogLevel::Trace);
}

#[test]
fn labels_are_the_upper_case_names() {
    assert_eq!(LogLevel::Error.label(), "ERROR");
    assert_eq!(LogLevel::Warn.label(), "WARN");
    assert_eq!(LogLevel::Info.label(), "INFO");
    assert_eq!(LogLevel::Debug.label(), "DEBUG");
    assert_eq!(LogLevel::Trace.label(), "TRACE");
}

#[test]
fn a_line_holds_name_time_painted_level_and_message() {
    let logger = PluginLogger::new("demo");
    assert_eq!(
        logger.format_line(LogLevel::Info, "2024-05-01T10:00:00", "hello"),
        "[demo] [2024-05-01T10:00:00] [\u{1b}[32mINFO\u{1b}[0m] hello"
    );
    assert_eq!(
        logger.format_line(LogLevel::Error, "t", "bad"),
        "[demo] [t] [\u{1b}[1;31mERROR\u{1b}[0m] bad"
    );
    assert_eq!(
        logger.format_line(LogLevel::Warn, "t", "hm"),
        "[demo] [t] [\u{1b}[1;33mWARN\u{1b}[0m] hm"
    );
    assert_eq!(
        logger.format_line(LogLevel::Debug, "t", "d"),
        "[demo] [t] [\u{1b}[34mDEBUG\u{1b}[0m] d"
    );
    assert_eq!(
        logger.format_line(LogLevel::Trace, "t", "t"),
        "[demo] [t] [\u{1b}[35mTRACE\u{1b}[0m] t"
    );
}

#[test]
fn log_at_adds_the_line_to_the_log() {
    let mut logger = PluginLogger::new("demo");
    let first = logger.log_at("warn", "careful", "2024-05-01T10:00:00");
    let second = logger.log_at("INFO", "fine", "2024-05-01T10:00:01");
    assert_eq!(first, "[demo] [2024-05-01T10:00:00] [\u{1b}[1;33mWARN\u{1b}[0m] careful");
    assert_eq!(logger.logs, vec![first, second]);
    assert_eq!(logger.name, "demo");
}

#[test]
fn log_stamps_the_line_with_the_time_of_the_call() {
    let mut logger = PluginLogger::new("demo");
    let line = logger.log("info", "hello");
    assert!(line.starts_with("[demo] ["));
    assert!(line.ends_with("] [\u{1b}[32mINFO\u{1b}[0m] hello"));
    let stamp = &line["[demo] [".len()..line.len() - "] [\u{1b}[32mINFO\u{1b}[0m] hello".len()];
    assert_eq!(stamp.len(), 19);
    assert_eq!(&stamp[10..11], "T");
    assert_eq!(logger.logs, vec![line]);
}

#[test]
fn a_new_context_holds_nothing() {
    let ctx = PluginCtx::new("demo");
    assert!(ctx.logs.is_empty());
    assert!(ctx.proposals.is_empty());
    assert_eq!(ctx.logger.name, "demo");
    assert!(ctx.logger.logs.is_empty());
}

#[test]
fn file_requests_are_recorded_in_order() {
    let mut ctx = PluginCtx::new("demo");
    ctx.create_file("a.txt".to_string(), "one".to_string());
    ctx.modify_file("b.txt".to_string(), "two".to_string());
    ctx.delete_file("c.txt".to_string());
    assert_eq!(ctx.proposals.len(), 3);
    assert!(ctx.proposals[0]
        .same_as(&Proposal::CreateFile { path: "a.txt".to_string(), content: "one".to_string() }));
    assert!(ctx.proposals[1]
        .same_as(&Proposal::ModifyFile { path: "b.txt".to_string(), content: "two".to_string() }));
    assert!(ctx.proposals[2].same_as(&Proposal::DeleteFile { path: "c.txt".to_string() }));
    assert!(ctx.logs.is_empty());
    assert!(ctx.logger.logs.is_empty());
}

#[test]
fn a_command_is_recorded_and_logged_but_not_run() {
    let mut ctx = PluginCtx::new("demo");
    let line = ctx.run_command_at(
        "cargo".to_string(),
        vec!["build".to_string(), "--release".to_string()],
        "2024-05-01T10:00:00",
    );
    assert_eq!(
        line,
        "[demo] [2024-05-01T10:00:00] [\u{1b}[32mINFO\u{1b}[0m] Proposed system command: cargo [\"build\", \"--release\"]"
    );
    assert_eq!(ctx.logger.logs, vec![line]);
    assert_eq!(ctx.proposals.len(), 1);
    assert!(ctx.proposals[0].same_as(&Proposal::RunCommand {
        command: "cargo".to_string(),
        args: vec!["build".to_string(), "--release".to_string()],
    }));
}

#[test]
fn a_command_without_arguments_is_logged_with_an_empty_list() {
    let mut ctx = PluginCtx::new("demo");
    let line = ctx.run_command("make".to_string(), Vec::new());
    assert!(line.ends_with("Proposed system command: make []"));
    assert_eq!(ctx.proposals.len(), 1);
    assert_eq!(ctx.logger.logs.len(), 1);
}

#[test]
fn a_question_is_logged_and_its_answer_trimmed() {
    let mut ctx = PluginCtx::new("demo");
    let line = ctx.ask_at("Name of the project?", "2024-05-01T10:00:00");
    assert_eq!(
        line,
        "[demo] [2024-05-01T10:00:00] [\u{1b}[32mINFO\u{1b}[0m] > Name of the project?"
    );
    let answer = ctx.answer("  my project \n");
    assert_eq!(answer, "my project");
    assert_eq!(ctx.logs, vec!["[ask] my project".to_string()]);
    assert_eq!(ctx.logger.logs, vec![line]);
    assert!(ctx.proposals.is_empty());
}

#[test]
fn ask_logs_at_the_time_of_the_call() {
    let mut ctx = PluginCtx::new("demo");
    let line = ctx.ask("Go on?");
    assert!(line.starts_with("[demo] ["));
    assert!(line.ends_with("> Go on?"));
    assert_eq!(ctx.logger.logs.len(), 1);
}

#[test]
fn the_context_logs_for_the_extension() {
    let mut ctx = PluginCtx::new("demo");
    let line = ctx.log("ERROR", "broken");
    assert!(line.ends_with("[\u{1b}[1;31mERROR\u{1b}[0m] broken"));
    assert_eq!(ctx.logger.logs, vec![line]);
    assert!(ctx.logs.is_empty());
}

#[test]
fn take_plan_hands_the_proposals_over() {
    let mut ctx = PluginCtx::new("demo");
    assert_eq!(ctx.take_plan().current_state(), PlanState::Empty);
    ctx.create_file("a.txt".to_string(), "one".to_string());
    ctx.delete_file("b.txt".to_string());
    let plan = ctx.take_plan();
    assert_eq!(plan.current_state(), PlanState::Populated);
    assert_eq!(plan.render(), "+ create a.txt\n- delete b.txt\n");
    assert!(ctx.proposals.is_empty());
}

#[test]
fn the_version_flag_has_a_default() {
    assert_eq!(version_flag(None), "--version");
    assert_eq!(version_flag(Some("-V".to_string())), "-V");
}

#[test]
fn a_command_is_found_where_the_lookup_ended_well() {
    assert!(command_found(Some(true)));
    assert!(!command_found(Some(false)));
    assert!(!command_found(None));
}

#[test]
fn a_version_probe_is_worded_for_the_extension() {
    let ok = ProbeOutcome::Succeeded { stdout: "  git version 2.40.0\n".to_string() };
    assert_eq!(describe_probe("git", "--version", &ok), "git version 2.40.0");
    let bad = ProbeOutcome::Failed { stderr: "unknown option\n".to_string() };
    assert_eq!(describe_probe("git", "--versio", &bad), "(error) unknown option");
    let none = ProbeOutcome::NotStarted { error: "No such file or directory".to_string() };
    assert_eq!(
        describe_probe("gti", "--version", &none),
        "(failed to run 'gti --version': No such file or directory)"
    );
}

#[test]
fn each_level_has_its_colour() {
    assert_eq!(LogLevel::Error.hue(), Hue::Red);
    assert_eq!(LogLevel::Warn.hue(), Hue::Yellow);
    assert_eq!(LogLevel::Info.hue(), Hue::Green);
    assert_eq!(LogLevel::Debug.hue(), Hue::Blue);
    assert_eq!(LogLevel::Trace.hue(), Hue::Purple);
}

#[test]
fn errors_and_warnings_are_bold() {
    assert!(LogLevel::Error.is_bold());
    assert!(LogLevel::Warn.is_bold());
    assert!(!LogLevel::Info.is_bold());
    assert!(!LogLevel::Debug.is_bold());
    assert!(!LogLevel::Trace.is_bold());
}

#[test]
fn a_label_is_painted_in_the_style_of_its_level() {
    assert_eq!(LogLevel::Error.painted_label(), "\u{1b}[1;31mERROR\u{1b}[0m");
    assert_eq!(LogLevel::Warn.painted_label(), "\u{1b}[1;33mWARN\u{1b}[0m");
    assert_eq!(LogLevel::Info.painted_label(), "\u{1b}[32mINFO\u{1b}[0m");
    assert_eq!(LogLevel::Debug.painted_label(), "\u{1b}[34mDEBUG\u{1b}[0m");
    assert_eq!(LogLevel::Trace.painted_label(), "\u{1b}[35mTRACE\u{1b}[0m");
}

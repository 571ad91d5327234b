//! Whether an agent can be started.
use vstd::prelude::*;
use crate::acp::{ConnectView, TryConnectCustomAgentResponse};
use crate::launch::{CommandSpec, CommandSpecView, EnvVar, EnvVarView};
use crate::models::{
    attach_model_context_windows, attach_model_reasoning_efforts, with_contexts, with_efforts, AgentHandshake,
    AgentHandshakeView, ContextCatalog, EffortCatalog, QoderModelContextConfigView,
};
use crate::text::{
    append_texts, copy_texts, decimal, decimal_text, has_prefix, has_suffix, is_space, law_words_are_parted_by_space,
    opt_view, same, split_words, text_after, trim, trimmed, views, words,
};

verus! {

// ---------------------------------------------------------------------
// Starting the agent
// ---------------------------------------------------------------------

/// The first word of a command, or the command itself where it has none.
pub open spec fn first_word(command: Seq<char>) -> Seq<char> {
    if words(command).len() > 0 {
        words(command)[0]
    } else {
        command
    }
}

/// The first word of a command.
pub fn first_token(command: &str) -> (r: String)
    ensures
        r@ == first_word(command@),
{
    let all = split_words(command);
    if all.len() > 0 {
        assert(views(all@)[0] == all@[0]@);
        all[0].clone()
    } else {
        assert(views(all@).len() == 0);
        command.to_owned()
    }
}

/// Variables made of pairs.
pub open spec fn vars_of(pairs: Seq<(String, String)>) -> Seq<EnvVarView> {
    Seq::new(pairs.len(), |i: int| EnvVarView { name: pairs[i].0@, value: pairs[i].1@ })
}

fn push_vars(env: &mut Vec<EnvVar>, pairs: &Vec<(String, String)>)
    ensures
        views(final(env)@) == views(old(env)@) + vars_of(pairs@),
{
    let ghost start = views(env@);
    let mut i: usize = 0;
    while i < pairs.len()
        invariant
            i <= pairs@.len(),
            views(env@) == start + vars_of(pairs@).take(i as int),
        decreases pairs@.len() - i,
    {
        let ghost before = views(env@);
        env.push(EnvVar { name: pairs[i].0.clone(), value: pairs[i].1.clone() });
        assert(views(env@) =~= before.push(vars_of(pairs@)[i as int]));
        i += 1;
        assert(views(env@) =~= start + vars_of(pairs@).take(i as int));
    }
    assert(vars_of(pairs@).take(i as int) =~= vars_of(pairs@));
}

/// The command that starts an agent's program to see whether it can be talked to.
pub open spec fn probe_command(
    program: Seq<char>,
    args_prefix: Seq<Seq<char>>,
    args: Seq<Seq<char>>,
    env: Seq<EnvVarView>,
    runtime_env: Seq<EnvVarView>,
    temp_dir: Seq<char>,
) -> CommandSpecView {
    CommandSpecView { command: program, args: args_prefix + args, env: env + runtime_env, cwd: Some(temp_dir) }
}

/// How the agent is started: with the arguments that its runtime puts in front, and the
/// variables of its runtime behind its own.
pub fn spawn_probe_process(
    program: &str,
    args_prefix: &Vec<String>,
    args: &Vec<String>,
    env: &Vec<(String, String)>,
    runtime_env: &Vec<(String, String)>,
    temp_dir: &str,
) -> (r: CommandSpec)
    ensures
        r@ == (CommandSpecView {
            command: program@,
            args: views(args_prefix@) + views(args@),
            env: vars_of(env@) + vars_of(runtime_env@),
            cwd: Some(temp_dir@),
        }),
        r@ == probe_command(
            program@,
            views(args_prefix@),
            views(args@),
            vars_of(env@),
            vars_of(runtime_env@),
            temp_dir@,
        ),
{
    let mut all = copy_texts(args_prefix);
    append_texts(&mut all, args);
    let mut vars: Vec<EnvVar> = Vec::new();
    assert(views(vars@) =~= Seq::empty());
    push_vars(&mut vars, env);
    assert(views(vars@) =~= vars_of(env@));
    push_vars(&mut vars, runtime_env);
    CommandSpec { command: program.to_owned(), args: all, env: vars, cwd: Some(temp_dir.to_owned()) }
}

/// The arguments other than the one that selects the protocol.
pub open spec fn without_acp(args: Seq<Seq<char>>) -> Seq<Seq<char>>
    decreases args.len(),
{
    if args.len() == 0 {
        Seq::empty()
    } else if args.last() == "--acp"@ {
        without_acp(args.drop_last())
    } else {
        without_acp(args.drop_last()).push(args.last())
    }
}

/// The arguments that have the agent answer one request and leave nothing behind.
pub open spec fn catalog_args() -> Seq<Seq<char>> {
    seq![
        "-p"@,
        "--input-format"@,
        "stream-json"@,
        "--output-format"@,
        "stream-json"@,
        "--no-session-persistence"@,
        "--strict-mcp-config"@,
        "--mcp-config"@,
        "{\"mcpServers\":{}}"@,
        "--setting-sources"@,
        ""@,
    ]
}

/// The command that asks an agent's program for its catalogue.
pub open spec fn catalog_command(
    program: Seq<char>,
    args_prefix: Seq<Seq<char>>,
    args: Seq<Seq<char>>,
    env: Seq<EnvVarView>,
    runtime_env: Seq<EnvVarView>,
    temp_dir: Seq<char>,
) -> CommandSpecView {
    CommandSpecView {
        command: program,
        args: args_prefix + (without_acp(args) + catalog_args()),
        env: env + runtime_env,
        cwd: Some(temp_dir),
    }
}

/// How the agent is started to be asked for its models.
pub fn native_catalog_command(
    program: &str,
    args_prefix: &Vec<String>,
    args: &Vec<String>,
    env: &Vec<(String, String)>,
    runtime_env: &Vec<(String, String)>,
    temp_dir: &str,
) -> (r: CommandSpec)
    ensures
        r@ == (CommandSpecView {
            command: program@,
            args: views(args_prefix@) + (without_acp(views(args@)) + catalog_args()),
            env: vars_of(env@) + vars_of(runtime_env@),
            cwd: Some(temp_dir@),
        }),
        r@ == catalog_command(
            program@,
            views(args_prefix@),
            views(args@),
            vars_of(env@),
            vars_of(runtime_env@),
            temp_dir@,
        ),
{
    let ghost all = views(args@);
    let mut kept: Vec<String> = Vec::new();
    let mut i: usize = 0;
    assert(all.take(0) =~= Seq::empty());
    while i < args.len()
        invariant
            i <= args@.len(),
            all == views(args@),
            views(kept@) == without_acp(all.take(i as int)),
        decreases args@.len() - i,
    {
        let ghost before = views(kept@);
        proof {
            assert(all.take(i + 1).drop_last() =~= all.take(i as int));
            assert(all.take(i + 1).last() == args@[i as int]@);
        }
        if !same(args[i].as_str(), "--acp") {
            kept.push(args[i].clone());
            assert(views(kept@) =~= before.push(kept@.last()@));
        }
        i += 1;
    }
    assert(all.take(i as int) =~= all);
    let mut more: Vec<String> = Vec::new();
    more.push("-p".to_owned());
    more.push("--input-format".to_owned());
    more.push("stream-json".to_owned());
    more.push("--output-format".to_owned());
    more.push("stream-json".to_owned());
    more.push("--no-session-persistence".to_owned());
    more.push("--strict-mcp-config".to_owned());
    more.push("--mcp-config".to_owned());
    more.push("{\"mcpServers\":{}}".to_owned());
    more.push("--setting-sources".to_owned());
    more.push("".to_owned());
    assert(views(more@) =~= catalog_args());
    append_texts(&mut kept, &more);
    spawn_probe_process(program, args_prefix, &kept, env, runtime_env, temp_dir)
}

// ---------------------------------------------------------------------
// What the agent answered
// ---------------------------------------------------------------------

/// What came of the exchange with an agent that was started.
#[derive(Debug, Clone)]
pub enum ProbeOutcome {
    /// A session could be opened; the agent told this of itself.
    Ready(Option<AgentHandshake>),
    /// The agent answers, but wants a login.
    Auth(String),
    Fail(String),
}

/// The model of [`ProbeOutcome`].
#[verifier::ext_equal]
pub enum ProbeOutcomeView {
    Ready(Option<AgentHandshakeView>),
    Auth(Seq<char>),
    Fail(Seq<char>),
}

impl View for ProbeOutcome {
    type V = ProbeOutcomeView;

    open spec fn view(&self) -> ProbeOutcomeView {
        match *self {
            ProbeOutcome::Ready(h) => ProbeOutcomeView::Ready(opt_view(h)),
            ProbeOutcome::Auth(e) => ProbeOutcomeView::Auth(e@),
            ProbeOutcome::Fail(e) => ProbeOutcomeView::Fail(e@),
        }
    }
}

/// The response to an attempt that ended like this.
pub open spec fn response_of(o: ProbeOutcomeView) -> ConnectView {
    match o {
        ProbeOutcomeView::Ready(_) => ConnectView::Success,
        ProbeOutcomeView::Auth(error) => ConnectView::FailAuth { error },
        ProbeOutcomeView::Fail(error) => ConnectView::FailAcp { error },
    }
}

/// What is kept of an attempt that ended like this.
pub open spec fn handshake_of(o: ProbeOutcomeView) -> Option<AgentHandshakeView> {
    match o {
        ProbeOutcomeView::Ready(h) => h,
        _ => None,
    }
}

impl ProbeOutcome {
    /// The response, and what the agent told of itself.
    pub fn into_response(self) -> (r: (TryConnectCustomAgentResponse, Option<AgentHandshake>))
        ensures
            r.0@ == response_of(self@),
            opt_view(r.1) == handshake_of(self@),
    {
        match self {
            ProbeOutcome::Ready(h) => (TryConnectCustomAgentResponse::Success, h),
            ProbeOutcome::Auth(error) => (TryConnectCustomAgentResponse::FailAuth { error }, None),
            ProbeOutcome::Fail(error) => (TryConnectCustomAgentResponse::FailAcp { error }, None),
        }
    }
}

/// How far the exchange with an agent came.
#[derive(Debug, Clone)]
pub enum HandshakeEvent {
    NoStdio,
    InitializeFailed(String),
    /// The program ended; what it wrote to its error output.
    Exited { status: Option<String>, stderr: String },
    AuthRequired,
    SessionFailed(String),
    /// A session was opened: what the agent told of itself, and how hard its models can think.
    SessionOpened { partial: Option<AgentHandshake>, efforts: EffortCatalog },
}

/// The message about a program that ended early.
pub open spec fn exit_message(status: Option<Seq<char>>, stderr: Seq<char>) -> Seq<char> {
    let head = "CLI exited before ACP initialize completed (status="@ + (match status {
        Some(s) => s,
        None => "unknown"@,
    });
    if trimmed(stderr).len() == 0 {
        head + ")"@
    } else {
        head + "): "@ + trimmed(stderr)
    }
}

/// What comes of the exchange.
pub open spec fn outcome_of(event: HandshakeEvent) -> ProbeOutcomeView {
    match event {
        HandshakeEvent::NoStdio => ProbeOutcomeView::Fail("stdio not available after spawn_for_sdk"@),
        HandshakeEvent::InitializeFailed(e) => ProbeOutcomeView::Fail("ACP initialize failed: "@ + e@),
        HandshakeEvent::Exited { status, stderr } => ProbeOutcomeView::Fail(
            exit_message(opt_view(status), stderr@),
        ),
        HandshakeEvent::AuthRequired => ProbeOutcomeView::Auth(
            "Agent reachable but requires login/authorization"@,
        ),
        HandshakeEvent::SessionFailed(e) => ProbeOutcomeView::Fail("ACP session/new failed: "@ + e@),
        HandshakeEvent::SessionOpened { partial, efforts } => ProbeOutcomeView::Ready(
            match partial {
                Some(h) => Some(
                    if efforts@ == Map::<Seq<char>, Seq<Seq<char>>>::empty() {
                        h@
                    } else {
                        with_efforts(h@, efforts@)
                    },
                ),
                None => None,
            },
        ),
    }
}

/// Concludes the exchange with an agent.
pub fn run_handshake(event: HandshakeEvent) -> (r: ProbeOutcome)
    ensures
        r@ == outcome_of(event),
{
    match event {
        HandshakeEvent::NoStdio => ProbeOutcome::Fail("stdio not available after spawn_for_sdk".to_owned()),
        HandshakeEvent::InitializeFailed(e) => ProbeOutcome::Fail(
            text_after("ACP initialize failed: ", e.as_str()),
        ),
        HandshakeEvent::Exited { status, stderr } => {
            let said = trim(stderr.as_str());
            let mut m = "CLI exited before ACP initialize completed (status=".to_owned();
            match &status {
                Some(s) => {
                    m.append(s.as_str());
                },
                None => {
                    m.append("unknown");
                },
            }
            if said.is_empty() {
                m.append(")");
            } else {
                m.append("): ");
                m.append(said);
            }
            ProbeOutcome::Fail(m)
        },
        HandshakeEvent::AuthRequired => ProbeOutcome::Auth(
            "Agent reachable but requires login/authorization".to_owned(),
        ),
        HandshakeEvent::SessionFailed(e) => ProbeOutcome::Fail(
            text_after("ACP session/new failed: ", e.as_str()),
        ),
        HandshakeEvent::SessionOpened { partial, efforts } => match partial {
            Some(h) => {
                let mut told = h;
                if !efforts.is_empty() {
                    attach_model_reasoning_efforts(&mut told, &efforts);
                }
                ProbeOutcome::Ready(Some(told))
            },
            None => ProbeOutcome::Ready(None),
        },
    }
}

/// How many seconds the agent has for an answer.
pub open spec fn step_seconds(probe_model_reasoning: bool) -> u64 {
    if probe_model_reasoning {
        120
    } else {
        35
    }
}

/// For how many seconds an agent may take: longer where each of its models is tried.
pub fn step_timeout(probe_model_reasoning: bool) -> (r: u64)
    ensures
        r == if probe_model_reasoning {
            120u64
        } else {
            35u64
        },
        r == step_seconds(probe_model_reasoning),
{
    if probe_model_reasoning {
        120
    } else {
        35
    }
}

/// How an attempt to start an agent went.
#[derive(Debug, Clone)]
pub enum ProbeEvent {
    CommandMissing(String),
    SpawnFailed(String),
    TimedOut,
    Concluded(ProbeOutcome),
}

/// The response to an attempt, and what is kept of it.
pub open spec fn connect_result(event: ProbeEvent, probe_model_reasoning: bool) -> (
    ConnectView,
    Option<AgentHandshakeView>,
) {
    match event {
        ProbeEvent::CommandMissing(e) => (ConnectView::FailCli { error: e@ }, None),
        ProbeEvent::SpawnFailed(e) => (ConnectView::FailAcp { error: "spawn failed: "@ + e@ }, None),
        ProbeEvent::TimedOut => (
            ConnectView::FailAcp {
                error: "ACP handshake did not complete within "@ + decimal(
                    if probe_model_reasoning {
                        120
                    } else {
                        35
                    },
                ) + "s"@,
            },
            None,
        ),
        ProbeEvent::Concluded(o) => (response_of(o@), handshake_of(o@)),
    }
}

/// Answers an attempt to start an agent.
pub fn try_connect_custom_agent_with_catalog(event: ProbeEvent, probe_model_reasoning: bool) -> (r: (
    TryConnectCustomAgentResponse,
    Option<AgentHandshake>,
))
    ensures
        (r.0@, opt_view(r.1)) == connect_result(event, probe_model_reasoning),
{
    match event {
        ProbeEvent::CommandMissing(e) => (TryConnectCustomAgentResponse::FailCli { error: e }, None),
        ProbeEvent::SpawnFailed(e) => (
            TryConnectCustomAgentResponse::FailAcp { error: text_after("spawn failed: ", e.as_str()) },
            None,
        ),
        ProbeEvent::TimedOut => {
            let mut m = text_after(
                "ACP handshake did not complete within ",
                decimal_text(step_timeout(probe_model_reasoning)).as_str(),
            );
            m.append("s");
            (TryConnectCustomAgentResponse::FailAcp { error: m }, None)
        },
        ProbeEvent::Concluded(o) => o.into_response(),
    }
}

/// Answers an attempt to start an agent, without what the agent told of itself.
pub fn try_connect_custom_agent(event: ProbeEvent) -> (r: TryConnectCustomAgentResponse)
    ensures
        r@ == connect_result(event, false).0,
{
    try_connect_custom_agent_with_catalog(event, false).0
}

/// Whether the program is asked for its catalogue after this answer.
pub open spec fn asks_for_catalog(probe_model_reasoning: bool, response: ConnectView) -> bool {
    probe_model_reasoning && response == ConnectView::Success
}

/// Whether the agent is asked for its models afterwards: only where each of them was to be
/// tried, and the attempt went well.
pub fn wants_native_catalog(probe_model_reasoning: bool, response: &TryConnectCustomAgentResponse) -> (r: bool)
    ensures
        r == (probe_model_reasoning && response@ == ConnectView::Success),
        r == asks_for_catalog(probe_model_reasoning, response@),
{
    match response {
        TryConnectCustomAgentResponse::Success => probe_model_reasoning,
        _ => false,
    }
}

/// The handshake with what the catalogue told, where there is a handshake and it told
/// anything.
pub open spec fn handshake_told(
    handshake: Option<AgentHandshakeView>,
    told: Option<Map<Seq<char>, QoderModelContextConfigView>>,
) -> Option<AgentHandshakeView> {
    match (handshake, told) {
        (Some(h), Some(c)) => Some(with_contexts(h, c)),
        (Some(h), None) => Some(h),
        (None, _) => None,
    }
}

/// What is kept once the agent was asked for its models: what it told of itself, with the
/// sizes of the models where it answered. An agent that did not answer stays as it was.
pub fn try_connect_custom_agent_with_model_reasoning_catalog(
    handshake: Option<AgentHandshake>,
    answer: &Result<ContextCatalog, String>,
) -> (r: Option<AgentHandshake>)
    ensures
        opt_view(r) == match (handshake, *answer) {
            (Some(h), Ok(c)) => Some(with_contexts(h@, c@)),
            (Some(h), Err(_)) => Some(h@),
            (None, _) => None,
        },
        opt_view(r) == handshake_told(
            opt_view(handshake),
            match *answer {
                Ok(c) => Some(c@),
                Err(_) => None,
            },
        ),
{
    match handshake {
        Some(h) => {
            let mut told = h;
            if let Ok(c) = answer {
                attach_model_context_windows(&mut told, c);
            }
            Some(told)
        },
        None => None,
    }
}

/// What an agent told of itself is kept only of an attempt that went well.
pub proof fn law_only_success_is_kept(event: ProbeEvent, probe_model_reasoning: bool)
    ensures
        connect_result(event, probe_model_reasoning).1 is Some ==> connect_result(event, probe_model_reasoning).0
            == ConnectView::Success,
{
}

// ---------------------------------------------------------------------
// What a probe comes to
// ---------------------------------------------------------------------

/// The program that a command starts is its first word.
pub proof fn law_a_command_starts_with_its_program(word: Seq<char>, gap: char, rest: Seq<char>)
    requires
        word.len() > 0,
        forall|i: int| 0 <= i < word.len() ==> !is_space(#[trigger] word[i]),
        is_space(gap),
    ensures
        first_word(word) == word,
        first_word(word + seq![gap] + rest) == word,
{
    law_words_are_parted_by_space(word, gap, rest);
}

/// For the catalogue an agent is started without `--acp` and with all its other arguments, in
/// their order.
pub proof fn law_the_catalogue_is_asked_for_without_the_protocol(args: Seq<Seq<char>>, arg: Seq<char>)
    ensures
        without_acp(args).contains(arg) <==> args.contains(arg) && arg != "--acp"@,
        without_acp(args.push("--acp"@)) == without_acp(args),
        arg != "--acp"@ ==> without_acp(args.push(arg)) == without_acp(args).push(arg),
    decreases args.len(),
{
    assert(args.push("--acp"@).drop_last() =~= args);
    assert(args.push(arg).drop_last() =~= args);
    if args.len() > 0 {
        let init = args.drop_last();
        let last = args.last();
        law_the_catalogue_is_asked_for_without_the_protocol(init, arg);
        let before = without_acp(init);
        let after = without_acp(args);
        assert(args[args.len() - 1] == last);
        if args.contains(arg) && arg != last {
            let k = args.index_of(arg);
            assert(init[k] == arg);
        }
        if init.contains(arg) {
            let k = init.index_of(arg);
            assert(args[k] == arg);
        }
        if before.contains(arg) {
            let k = before.index_of(arg);
            assert(after[k] == arg);
        }
        if last != "--acp"@ {
            assert(after[after.len() - 1] == last);
        }
        if after.contains(arg) && !before.contains(arg) {
            let k = after.index_of(arg);
            if k < before.len() {
                assert(before[k] == arg);
            }
        }
    }
}

/// An agent that opened a session is ready, one that asks for a login is reachable and is
/// told apart from what failed, and whatever failed is told with its own words.
pub proof fn law_a_handshake_ends_in_what_happened(event: HandshakeEvent)
    ensures
        event is SessionOpened <==> outcome_of(event) is Ready,
        event is AuthRequired <==> outcome_of(event) is Auth,
        event is NoStdio || event is InitializeFailed || event is Exited || event is SessionFailed
            <==> outcome_of(event) is Fail,
        event matches HandshakeEvent::InitializeFailed(e) ==> has_suffix(outcome_of(event)->Fail_0, e@),
        event matches HandshakeEvent::SessionFailed(e) ==> has_suffix(outcome_of(event)->Fail_0, e@),
        event matches HandshakeEvent::Exited { status, stderr } ==> (trimmed(stderr@).len() > 0 ==> has_suffix(
            outcome_of(event)->Fail_0,
            trimmed(stderr@),
        )),
        event matches HandshakeEvent::Exited { status, stderr } ==> (status matches Some(s) ==> has_prefix(
            outcome_of(event)->Fail_0,
            "CLI exited before ACP initialize completed (status="@ + s@,
        )),
        event matches HandshakeEvent::SessionOpened { partial, efforts } ==> {
            &&& partial is None ==> outcome_of(event) == ProbeOutcomeView::Ready(None)
            &&& partial matches Some(h) ==> outcome_of(event)->Ready_0 is Some
            &&& efforts@ == Map::<Seq<char>, Seq<Seq<char>>>::empty() ==> outcome_of(event) == ProbeOutcomeView::Ready(
                opt_view(partial),
            )
            &&& efforts@ != Map::<Seq<char>, Seq<Seq<char>>>::empty() ==> (partial matches Some(h) ==> outcome_of(event)
                == ProbeOutcomeView::Ready(Some(with_efforts(h@, efforts@))))
        },
{
    match event {
        HandshakeEvent::InitializeFailed(e) => {
            let text = "ACP initialize failed: "@ + e@;
            assert(text.skip(text.len() - e@.len()) =~= e@);
        },
        HandshakeEvent::SessionFailed(e) => {
            let text = "ACP session/new failed: "@ + e@;
            assert(text.skip(text.len() - e@.len()) =~= e@);
        },
        HandshakeEvent::Exited { status, stderr } => {
            let text = exit_message(opt_view(status), stderr@);
            let said = trimmed(stderr@);
            assert(said.len() > 0 ==> text.skip(text.len() - said.len()) =~= said);
            if let Some(s) = status {
                let head = "CLI exited before ACP initialize completed (status="@ + s@;
                assert(text.take(head.len() as int) =~= head);
            }
        },
        _ => {},
    }
}

/// A connection succeeds exactly if the agent is ready; a command that is missing is told
/// from an agent that does not answer, and that from one that wants a login.
pub proof fn law_a_connection_tells_what_is_wrong(event: ProbeEvent, probe_model_reasoning: bool)
    ensures
        connect_result(event, probe_model_reasoning).0 == ConnectView::Success <==> (event matches ProbeEvent::Concluded(
            o,
        ) && o@ is Ready),
        event matches ProbeEvent::CommandMissing(e) ==> connect_result(event, probe_model_reasoning).0
            == (ConnectView::FailCli { error: e@ }),
        event matches ProbeEvent::SpawnFailed(e) ==> connect_result(event, probe_model_reasoning).0 is FailAcp
            && has_suffix(connect_result(event, probe_model_reasoning).0->FailAcp_error, e@),
        event is TimedOut && probe_model_reasoning ==> connect_result(event, probe_model_reasoning).0
            == (ConnectView::FailAcp {
            error: "ACP handshake did not complete within "@ + decimal(120) + "s"@,
        }),
        event is TimedOut && !probe_model_reasoning ==> connect_result(event, probe_model_reasoning).0
            == (ConnectView::FailAcp {
            error: "ACP handshake did not complete within "@ + decimal(35) + "s"@,
        }),
        event matches ProbeEvent::Concluded(o) ==> {
            &&& o@ matches ProbeOutcomeView::Auth(e) ==> connect_result(event, probe_model_reasoning).0
                == (ConnectView::FailAuth { error: e })
            &&& o@ matches ProbeOutcomeView::Fail(e) ==> connect_result(event, probe_model_reasoning).0
                == (ConnectView::FailAcp { error: e })
            &&& o@ matches ProbeOutcomeView::Ready(h) ==> connect_result(event, probe_model_reasoning).1 == h
        },
{
    if let ProbeEvent::SpawnFailed(e) = event {
        let text = "spawn failed: "@ + e@;
        assert(text.skip(text.len() - e@.len()) =~= e@);
    }
}

/// An agent's program is asked for its catalogue with its own arguments, all but the one for
/// the protocol, behind those that come before and in front of those that ask; its variables
/// come before those of the runtime; and it runs in the given directory.
pub proof fn law_the_program_is_asked_with_its_own_arguments(
    program: Seq<char>,
    args_prefix: Seq<Seq<char>>,
    args: Seq<Seq<char>>,
    env: Seq<EnvVarView>,
    runtime_env: Seq<EnvVarView>,
    temp_dir: Seq<char>,
)
    ensures
        ({
            let c = catalog_command(program, args_prefix, args, env, runtime_env, temp_dir);
            let n = catalog_args().len();
            &&& c.command == program && c.cwd == Some(temp_dir)
            &&& c.args.len() >= args_prefix.len() + n
            &&& c.args.subrange(0, args_prefix.len() as int) == args_prefix
            &&& c.args.subrange(c.args.len() - n, c.args.len() as int) == catalog_args()
            &&& !args.contains("--acp"@) ==> c.args == args_prefix + args + catalog_args()
            &&& c.env.len() == env.len() + runtime_env.len()
            &&& c.env.subrange(0, env.len() as int) == env
            &&& c.env.subrange(env.len() as int, c.env.len() as int) == runtime_env
        }),
{
    let c = catalog_command(program, args_prefix, args, env, runtime_env, temp_dir);
    let n = catalog_args().len();
    assert(c.args.subrange(0, args_prefix.len() as int) =~= args_prefix);
    assert(c.args.subrange(c.args.len() - n, c.args.len() as int) =~= catalog_args());
    assert(c.env.subrange(0, env.len() as int) =~= env);
    assert(c.env.subrange(env.len() as int, c.env.len() as int) =~= runtime_env);
    if !args.contains("--acp"@) {
        lemma_nothing_to_leave_out(args);
        assert(c.args =~= args_prefix + args + catalog_args());
    }
}

proof fn lemma_nothing_to_leave_out(args: Seq<Seq<char>>)
    requires
        !args.contains("--acp"@),
    ensures
        without_acp(args) == args,
    decreases args.len(),
{
    if args.len() > 0 {
        assert(args.contains(args.last()));
        assert(!args.drop_last().contains("--acp"@)) by {
            assert(forall|i: int| 0 <= i < args.drop_last().len() ==> args.drop_last()[i] == args[i]);
        }
        lemma_nothing_to_leave_out(args.drop_last());
        assert(args.drop_last().push(args.last()) =~= args);
    } else {
        assert(without_acp(args) =~= args);
    }
}

/// The catalogue is read and answered as a stream of JSON, nothing of the session is kept,
/// and no server and no setting of the user is taken along.
pub proof fn law_asking_for_the_catalogue_leaves_no_trace()
    ensures
        catalog_args().contains("--no-session-persistence"@),
        catalog_args().contains("--strict-mcp-config"@),
        catalog_args()[0] == "-p"@,
        exists|i: int|
            0 <= i < catalog_args().len() - 1 && #[trigger] catalog_args()[i] == "--input-format"@ && catalog_args()[i
                + 1] == "stream-json"@,
        exists|i: int|
            0 <= i < catalog_args().len() - 1 && #[trigger] catalog_args()[i] == "--output-format"@ && catalog_args()[i
                + 1] == "stream-json"@,
        exists|i: int|
            0 <= i < catalog_args().len() - 1 && #[trigger] catalog_args()[i] == "--mcp-config"@ && catalog_args()[i
                + 1] == "{\"mcpServers\":{}}"@,
        exists|i: int|
            0 <= i < catalog_args().len() - 1 && #[trigger] catalog_args()[i] == "--setting-sources"@
                && catalog_args()[i + 1].len() == 0,
{
    reveal_strlit("");
    let a = catalog_args();
    assert(a[1] == "--input-format"@ && a[2] == "stream-json"@);
    assert(a[3] == "--output-format"@ && a[4] == "stream-json"@);
    assert(a[5] == "--no-session-persistence"@);
    assert(a[6] == "--strict-mcp-config"@);
    assert(a[7] == "--mcp-config"@ && a[8] == "{\"mcpServers\":{}}"@);
    assert(a[9] == "--setting-sources"@ && a[10] == ""@);
}

/// A catalogue that cannot be had takes nothing from a handshake, one that can only adds the
/// sizes that it tells, and without a handshake there is none.
pub proof fn law_a_catalogue_only_adds(
    h: AgentHandshakeView,
    told: Option<Map<Seq<char>, QoderModelContextConfigView>>,
)
    ensures
        handshake_told(Some(h), None) == Some(h),
        handshake_told(Some(h), told) is Some,
        handshake_told(None, told) is None,
        told is Some ==> handshake_told(Some(h), told) == Some(with_contexts(h, told.unwrap())),
{
}

/// A program is started with its own arguments behind those that come before them, in the
/// same place and with the same variables in the same order as when it is asked for its
/// catalogue.
pub proof fn law_a_probe_runs_where_the_catalogue_is_asked_for(
    program: Seq<char>,
    args_prefix: Seq<Seq<char>>,
    args: Seq<Seq<char>>,
    env: Seq<EnvVarView>,
    runtime_env: Seq<EnvVarView>,
    temp_dir: Seq<char>,
)
    ensures
        ({
            let c = probe_command(program, args_prefix, args, env, runtime_env, temp_dir);
            let asked = catalog_command(program, args_prefix, args, env, runtime_env, temp_dir);
            &&& c.command == program && c.command == asked.command
            &&& c.cwd == asked.cwd && c.env == asked.env
            &&& c.args.take(args_prefix.len() as int) == args_prefix
            &&& c.args.skip(args_prefix.len() as int) == args
        }),
{
    let c = probe_command(program, args_prefix, args, env, runtime_env, temp_dir);
    assert(c.args.take(args_prefix.len() as int) =~= args_prefix);
    assert(c.args.skip(args_prefix.len() as int) =~= args);
}

/// Two minutes are given where the models are tried, and thirty-five seconds otherwise; the
/// program is asked for its catalogue only where the models are to be tried and the agent
/// could be talked to.
pub proof fn law_trying_the_models_takes_longer(response: ConnectView)
    ensures
        step_seconds(true) == 2 * 60,
        step_seconds(false) == 35,
        asks_for_catalog(true, response) <==> response is Success,
        !asks_for_catalog(false, response),
{
}

} // verus!

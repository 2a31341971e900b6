//! Command routing of the `aes67` front end: `send file|queue` and
//! `receive discover|listen|devices`, with help and version requests at every level.
//! Arguments are given as their text, or nothing for an argument that is not UTF-8.

use vstd::prelude::*;

verus! {

/// Help pages.
#[derive(Debug, Clone, Copy, PartialEq, Eq, Structural)]
pub enum HelpTopic {
    Root,
    Send,
    SendFile,
    SendQueue,
    Receive,
    ReceiveDiscover,
    ReceiveListen,
    ReceiveDevices,
}

/// Workflows that a command runs.
#[derive(Debug, Clone, Copy, PartialEq, Eq, Structural)]
pub enum Workflow {
    SendFile,
    SendQueue,
    ReceiveDiscover,
    ReceiveListen,
    ReceiveDevices,
}

/// Where a command is looked up.
#[derive(Debug, Clone, Copy, PartialEq, Eq, Structural)]
pub enum CommandScope {
    Root,
    Send,
    Receive,
}

/// What the command line asks for. `Dispatch` names the workflow and the index of its
/// first own argument; the workflow takes the arguments from there on.
#[derive(Debug, Clone, Copy, PartialEq, Eq, Structural)]
pub enum Route {
    Help(HelpTopic),
    Version,
    Dispatch { workflow: Workflow, first_arg: usize },
}

/// Refused command lines.
#[derive(Debug, Clone, PartialEq, Eq)]
pub enum RouteError {
    /// A command name that is not UTF-8.
    CommandNotUtf8,
    /// A command that the scope does not have.
    UnknownCommand { scope: CommandScope, command: String },
    /// `receive devices` takes no options.
    DevicesTakesNoOptions,
}

/// The argument is the text `w`.
pub open spec fn arg_is(a: Option<Seq<char>>, w: Seq<char>) -> bool {
    a == Some(w)
}

pub open spec fn w_help_short() -> Seq<char> { seq!['-', 'h'] }
pub open spec fn w_help_long() -> Seq<char> { seq!['-', '-', 'h', 'e', 'l', 'p'] }
pub open spec fn w_version_short() -> Seq<char> { seq!['-', 'V'] }
pub open spec fn w_version_long() -> Seq<char> { seq!['-', '-', 'v', 'e', 'r', 's', 'i', 'o', 'n'] }
pub open spec fn w_send() -> Seq<char> { seq!['s', 'e', 'n', 'd'] }
pub open spec fn w_receive() -> Seq<char> { seq!['r', 'e', 'c', 'e', 'i', 'v', 'e'] }
pub open spec fn w_file() -> Seq<char> { seq!['f', 'i', 'l', 'e'] }
pub open spec fn w_queue() -> Seq<char> { seq!['q', 'u', 'e', 'u', 'e'] }
pub open spec fn w_discover() -> Seq<char> { seq!['d', 'i', 's', 'c', 'o', 'v', 'e', 'r'] }
pub open spec fn w_listen() -> Seq<char> { seq!['l', 'i', 's', 't', 'e', 'n'] }
pub open spec fn w_devices() -> Seq<char> { seq!['d', 'e', 'v', 'i', 'c', 'e', 's'] }

/// `-h` or `--help`.
pub open spec fn is_help(a: Option<Seq<char>>) -> bool {
    arg_is(a, w_help_short()) || arg_is(a, w_help_long())
}

/// `-V` or `--version`.
pub open spec fn is_version(a: Option<Seq<char>>) -> bool {
    arg_is(a, w_version_short()) || arg_is(a, w_version_long())
}

/// Some argument from `start` on asks for help.
pub open spec fn has_help_from(args: Seq<Option<Seq<char>>>, start: int) -> bool {
    exists|i: int| start <= i < args.len() && is_help(args[i])
}

/// The only argument from `start` on asks for the version.
pub open spec fn is_version_request_from(args: Seq<Option<Seq<char>>>, start: int) -> bool {
    args.len() == start + 1 && is_version(args[start])
}

/// The route of a workflow whose arguments start at `start`.
pub open spec fn leaf_route(args: Seq<Option<Seq<char>>>, start: int, topic: HelpTopic, w: Workflow) -> Route {
    if has_help_from(args, start) {
        Route::Help(topic)
    } else if is_version_request_from(args, start) {
        Route::Version
    } else {
        Route::Dispatch { workflow: w, first_arg: start as usize }
    }
}

/// Outcome of routing: the route, or an error with the text of the unknown command.
pub enum RouteOutcome {
    Routed(Route),
    NotUtf8,
    Unknown(CommandScope, Seq<char>),
    DevicesOptions,
}

/// How the front end routes `args` (without the program name).
pub open spec fn route_of(args: Seq<Option<Seq<char>>>) -> RouteOutcome {
    if args.len() == 0 {
        RouteOutcome::Routed(Route::Help(HelpTopic::Root))
    } else if args[0].is_none() {
        RouteOutcome::NotUtf8
    } else if is_help(args[0]) {
        RouteOutcome::Routed(Route::Help(HelpTopic::Root))
    } else if is_version(args[0]) {
        RouteOutcome::Routed(Route::Version)
    } else if arg_is(args[0], w_send()) {
        if args.len() == 1 {
            RouteOutcome::Routed(Route::Help(HelpTopic::Send))
        } else if args[1].is_none() {
            RouteOutcome::NotUtf8
        } else if is_help(args[1]) {
            RouteOutcome::Routed(Route::Help(HelpTopic::Send))
        } else if arg_is(args[1], w_file()) {
            RouteOutcome::Routed(leaf_route(args, 2, HelpTopic::SendFile, Workflow::SendFile))
        } else if arg_is(args[1], w_queue()) {
            RouteOutcome::Routed(leaf_route(args, 2, HelpTopic::SendQueue, Workflow::SendQueue))
        } else {
            RouteOutcome::Unknown(CommandScope::Send, args[1].unwrap())
        }
    } else if arg_is(args[0], w_receive()) {
        if args.len() == 1 {
            RouteOutcome::Routed(Route::Help(HelpTopic::Receive))
        } else if args[1].is_none() {
            RouteOutcome::NotUtf8
        } else if is_help(args[1]) {
            RouteOutcome::Routed(Route::Help(HelpTopic::Receive))
        } else if arg_is(args[1], w_discover()) {
            RouteOutcome::Routed(leaf_route(args, 2, HelpTopic::ReceiveDiscover, Workflow::ReceiveDiscover))
        } else if arg_is(args[1], w_listen()) {
            RouteOutcome::Routed(leaf_route(args, 2, HelpTopic::ReceiveListen, Workflow::ReceiveListen))
        } else if arg_is(args[1], w_devices()) {
            if has_help_from(args, 2) {
                RouteOutcome::Routed(Route::Help(HelpTopic::ReceiveDevices))
            } else if is_version_request_from(args, 2) {
                RouteOutcome::Routed(Route::Version)
            } else if args.len() > 2 {
                RouteOutcome::DevicesOptions
            } else {
                RouteOutcome::Routed(Route::Dispatch { workflow: Workflow::ReceiveDevices, first_arg: 2 })
            }
        } else {
            RouteOutcome::Unknown(CommandScope::Receive, args[1].unwrap())
        }
    } else {
        RouteOutcome::Unknown(CommandScope::Root, args[0].unwrap())
    }
}

/// The texts of the arguments.
pub open spec fn args_view(args: Seq<Option<String>>) -> Seq<Option<Seq<char>>> {
    args.map_values(|a: Option<String>| crate::sdp::opt_text(a))
}

/// `r` is the outcome `o`.
pub open spec fn route_matches(r: Result<Route, RouteError>, o: RouteOutcome) -> bool {
    match o {
        RouteOutcome::Routed(route) => r == Ok::<Route, RouteError>(route),
        RouteOutcome::NotUtf8 => r == Err::<Route, RouteError>(RouteError::CommandNotUtf8),
        RouteOutcome::Unknown(scope, c) => r matches Err(RouteError::UnknownCommand { scope: s, command }) && s == scope && command@ == c,
        RouteOutcome::DevicesOptions => r == Err::<Route, RouteError>(RouteError::DevicesTakesNoOptions),
    }
}

fn word_is(a: &Option<String>, w: &[char]) -> (r: bool)
    ensures
        r == arg_is(crate::sdp::opt_text(*a), w@),
{
    match a {
        Some(s) => {
            let c = crate::sdp::chars_of(s.as_str());
            if c.len() != w.len() {
                return false;
            }
            let r = crate::text::starts_with(c.as_slice(), w);
            assert(c@.take(w@.len() as int) =~= c@);
            r
        },
        None => false,
    }
}

fn help_arg(a: &Option<String>) -> (r: bool)
    ensures
        r == is_help(crate::sdp::opt_text(*a)),
{
    let s = ['-', 'h'];
    let l = ['-', '-', 'h', 'e', 'l', 'p'];
    assert(s@ =~= w_help_short());
    assert(l@ =~= w_help_long());
    word_is(a, &s) || word_is(a, &l)
}

fn version_arg(a: &Option<String>) -> (r: bool)
    ensures
        r == is_version(crate::sdp::opt_text(*a)),
{
    let s = ['-', 'V'];
    let l = ['-', '-', 'v', 'e', 'r', 's', 'i', 'o', 'n'];
    assert(s@ =~= w_version_short());
    assert(l@ =~= w_version_long());
    word_is(a, &s) || word_is(a, &l)
}

fn has_help(args: &Vec<Option<String>>, start: usize) -> (r: bool)
    requires
        start <= args@.len(),
    ensures
        r == has_help_from(args_view(args@), start as int),
{
    let mut i = start;
    while i < args.len()
        invariant
            start <= i <= args@.len(),
            forall|j: int| start <= j < i ==> !is_help(#[trigger] args_view(args@)[j]),
        decreases args@.len() - i,
    {
        if help_arg(&args[i]) {
            assert(is_help(args_view(args@)[i as int]));
            return true;
        }
        i = i + 1;
    }
    false
}

fn leaf(args: &Vec<Option<String>>, start: usize, topic: HelpTopic, w: Workflow) -> (r: Route)
    requires
        start <= args@.len(),
    ensures
        r == leaf_route(args_view(args@), start as int, topic, w),
{
    if has_help(args, start) {
        return Route::Help(topic);
    }
    if args.len() > start && args.len() - start == 1 && version_arg(&args[start]) {
        return Route::Version;
    }
    Route::Dispatch { workflow: w, first_arg: start }
}

fn scope_error(scope: CommandScope, a: &Option<String>) -> (r: RouteError)
    requires
        a.is_some(),
    ensures
        r matches RouteError::UnknownCommand { scope: s, command } && s == scope && command@ == a.unwrap()@,
{
    RouteError::UnknownCommand { scope, command: a.as_ref().unwrap().clone() }
}

/// Route a command line (without the program name).
pub fn route(args: &Vec<Option<String>>) -> (r: Result<Route, RouteError>)
    ensures
        route_matches(r, route_of(args_view(args@))),
{
    let ghost v = args_view(args@);
    if args.len() == 0 {
        return Ok(Route::Help(HelpTopic::Root));
    }
    assert(v[0] == crate::sdp::opt_text(args@[0]));
    if args[0].is_none() {
        return Err(RouteError::CommandNotUtf8);
    }
    if help_arg(&args[0]) {
        return Ok(Route::Help(HelpTopic::Root));
    }
    if version_arg(&args[0]) {
        return Ok(Route::Version);
    }
    let send = ['s', 'e', 'n', 'd'];
    let receive = ['r', 'e', 'c', 'e', 'i', 'v', 'e'];
    assert(send@ =~= w_send());
    assert(receive@ =~= w_receive());
    let is_send = word_is(&args[0], &send);
    let is_receive = word_is(&args[0], &receive);
    if !is_send && !is_receive {
        return Err(scope_error(CommandScope::Root, &args[0]));
    }
    let scope = if is_send { CommandScope::Send } else { CommandScope::Receive };
    if args.len() == 1 {
        return Ok(Route::Help(if is_send { HelpTopic::Send } else { HelpTopic::Receive }));
    }
    assert(v[1] == crate::sdp::opt_text(args@[1]));
    if args[1].is_none() {
        return Err(RouteError::CommandNotUtf8);
    }
    if help_arg(&args[1]) {
        return Ok(Route::Help(if is_send { HelpTopic::Send } else { HelpTopic::Receive }));
    }
    if is_send {
        let file = ['f', 'i', 'l', 'e'];
        let queue = ['q', 'u', 'e', 'u', 'e'];
        assert(file@ =~= w_file());
        assert(queue@ =~= w_queue());
        if word_is(&args[1], &file) {
            return Ok(leaf(args, 2, HelpTopic::SendFile, Workflow::SendFile));
        }
        if word_is(&args[1], &queue) {
            return Ok(leaf(args, 2, HelpTopic::SendQueue, Workflow::SendQueue));
        }
        return Err(scope_error(scope, &args[1]));
    }
    let discover = ['d', 'i', 's', 'c', 'o', 'v', 'e', 'r'];
    let listen = ['l', 'i', 's', 't', 'e', 'n'];
    let devices = ['d', 'e', 'v', 'i', 'c', 'e', 's'];
    assert(discover@ =~= w_discover());
    assert(listen@ =~= w_listen());
    assert(devices@ =~= w_devices());
    if word_is(&args[1], &discover) {
        return Ok(leaf(args, 2, HelpTopic::ReceiveDiscover, Workflow::ReceiveDiscover));
    }
    if word_is(&args[1], &listen) {
        return Ok(leaf(args, 2, HelpTopic::ReceiveListen, Workflow::ReceiveListen));
    }
    if word_is(&args[1], &devices) {
        if has_help(args, 2) {
            return Ok(Route::Help(HelpTopic::ReceiveDevices));
        }
        if args.len() == 3 && version_arg(&args[2]) {
            return Ok(Route::Version);
        }
        if args.len() > 2 {
            return Err(RouteError::DevicesTakesNoOptions);
        }
        return Ok(Route::Dispatch { workflow: Workflow::ReceiveDevices, first_arg: 2 });
    }
    Err(scope_error(scope, &args[1]))
}


/// What std's `Debug` formatting of a string gives for the text `s` (the text in double
/// quotes, with quotes, backslashes and control characters escaped).
pub uninterp spec fn debug_quoted(s: Seq<char>) -> Seq<char>;

/// The `Debug` text of a string (std's `format!("{:?}", s)`).
#[verifier::external_body]
fn quoted(s: &str) -> (r: String)
    ensures
        r@ == debug_quoted(s@),
{
    format!("{:?}", s)
}

/// The error text for a command that `parent` does not have.
pub fn unknown_command(parent: &str, command: &str) -> (s: String)
    ensures
        s@ == "unknown command "@ + debug_quoted(command@) + " for "@ + parent@ + "; run `"@ + parent@ + " --help`"@,
{
    let q = quoted(command);
    unknown_command_text(parent, q.as_str())
}

/// The unknown-command message for a command already in its quoted form.
pub fn unknown_command_text(parent: &str, quoted_command: &str) -> (s: String)
    ensures
        s@ == "unknown command "@ + quoted_command@ + " for "@ + parent@ + "; run `"@ + parent@ + " --help`"@,
{
    let mut s = "unknown command ".to_owned();
    s.append(quoted_command);
    s.append(" for ");
    s.append(parent);
    s.append("; run `");
    s.append(parent);
    s.append(" --help`");
    s
}

} // verus!

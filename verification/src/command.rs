//! The command capability model: the polymorphic contract every command
//! implements (identity, aliasing, help, and one of two invocation shapes),
//! the tagged invocation outcome, and the built-in behaviors.
//!
//! Behaviors form a tagged union: adding a command kind is a new variant, so
//! every dispatch site is a compile-time-checked exhaustive match. Commands
//! whose work is owned by the embedding host (process control, file access)
//! live outside this core and plug into the same interpreter loop as external
//! collaborators.

use vstd::prelude::*;
use vstd::string::*;

use crate::alias::{
    alias_run_result, arg_count_error, substitute, AliasScript, AliasView,
};
use crate::encoding::{base64_decode_text, base64_decoded, base64_encode_bytes, base64_of};
use crate::registry::Registry;
use crate::store::{key_text, HandleError, HandleStore};
use crate::strmap::StringMap;
use crate::value::{Value, ValueView};

verus! {

/// The outcome of one command invocation. The enumeration is open ended:
/// further control outcomes are added as variants, and every consumer matches
/// exhaustively.
pub enum CommandResult {
    /// Execution proceeds; the text, when present, is bound to the
    /// instruction's output variable by the interpreter.
    Continue(Option<String>),
    /// This instruction failed with a human-readable message; the interpreter
    /// decides whether the run aborts.
    Error(String),
    /// The interpreter must execute the given nested script against the same
    /// registry and scope, and treat its propagated outcome as this command's
    /// result.
    Expand(String),
}

/// The mathematical shape of a [`CommandResult`].
pub enum CommandResultView {
    Continue(Option<Seq<char>>),
    Error(Seq<char>),
    Expand(Seq<char>),
}

pub open spec fn option_text_view(o: Option<String>) -> Option<Seq<char>> {
    match o {
        Some(s) => Some(s@),
        None => None,
    }
}

impl View for CommandResult {
    type V = CommandResultView;

    open spec fn view(&self) -> CommandResultView {
        match self {
            CommandResult::Continue(o) => CommandResultView::Continue(option_text_view(*o)),
            CommandResult::Error(m) => CommandResultView::Error(m@),
            CommandResult::Expand(s) => CommandResultView::Expand(s@),
        }
    }
}

/// One instruction of the surrounding script, as the external interpreter
/// represents it to context-aware commands: enough for lookahead over the
/// instruction stream. The parsing that produces it is owned by the
/// interpreter, not by this core.
pub struct Instruction {
    /// The command lookup name, absent for empty lines.
    pub command: Option<String>,
    /// The raw argument texts.
    pub arguments: Vec<String>,
}

/// The behavior a command executes when invoked.
pub enum CommandBehavior {
    /// Stateless: joins its arguments with single spaces and continues with
    /// the joined text.
    Echo,
    /// Context aware: reads the byte array stored under the handle given as
    /// the first argument and continues with its base64 text.
    Base64Encode,
    /// Context aware: decodes the base64 text given as the first argument,
    /// stores the bytes under a fresh handle, and continues with the handle
    /// key.
    Base64Decode,
    /// Declared, not coded: expands a template script and asks the
    /// interpreter to run the expansion.
    Alias(AliasScript),
}

/// The mathematical shape of a [`CommandBehavior`].
pub enum BehaviorView {
    Echo,
    Base64Encode,
    Base64Decode,
    Alias(AliasView),
}

impl View for CommandBehavior {
    type V = BehaviorView;

    open spec fn view(&self) -> BehaviorView {
        match self {
            CommandBehavior::Echo => BehaviorView::Echo,
            CommandBehavior::Base64Encode => BehaviorView::Base64Encode,
            CommandBehavior::Base64Decode => BehaviorView::Base64Decode,
            CommandBehavior::Alias(a) => BehaviorView::Alias(a@),
        }
    }
}

impl Clone for CommandBehavior {
    fn clone(&self) -> (r: Self)
        ensures
            r@ == self@,
    {
        match self {
            CommandBehavior::Echo => CommandBehavior::Echo,
            CommandBehavior::Base64Encode => CommandBehavior::Base64Encode,
            CommandBehavior::Base64Decode => CommandBehavior::Base64Decode,
            CommandBehavior::Alias(a) => CommandBehavior::Alias(a.clone()),
        }
    }
}

/// A command: a named, versionless implementation bound at registration time.
/// Logically an immutable value object; the registry hands each dispatch a
/// fresh clone, so no invocation can disturb another's view of the command.
pub struct Command {
    name: String,
    aliases: Vec<String>,
    help: String,
    behavior: CommandBehavior,
}

/// The mathematical shape of a [`Command`]: its identity, documentation and
/// behavior.
pub struct CommandView {
    pub name: Seq<char>,
    pub aliases: Seq<Seq<char>>,
    pub help: Seq<char>,
    pub behavior: BehaviorView,
}

impl View for Command {
    type V = CommandView;

    closed spec fn view(&self) -> CommandView {
        CommandView {
            name: self.name@,
            aliases: self.aliases.deep_view(),
            help: self.help@,
            behavior: self.behavior@,
        }
    }
}

impl DeepView for Command {
    type V = CommandView;

    open spec fn deep_view(&self) -> CommandView {
        self.view()
    }
}

impl Clone for Command {
    /// The cloning operation of the capability contract: an independent,
    /// behaviorally identical instance.
    fn clone(&self) -> (r: Self)
        ensures
            r@ == self@,
    {
        let aliases = self.aliases.clone();
        proof {
            assert forall|i: int| 0 <= i < self.aliases@.len() implies aliases@[i]
                == self.aliases@[i] by {
                assert(cloned::<String>(self.aliases[i], aliases[i]));
            }
            assert(aliases@ =~= self.aliases@);
        }
        Command {
            name: self.name.clone(),
            aliases,
            help: self.help.clone(),
            behavior: self.behavior.clone(),
        }
    }
}

/// The message of an invocation of a context-requiring command through the
/// stateless path.
pub open spec fn requires_context_error() -> Seq<char> {
    "Command requires execution context."@
}

/// The message of a byte-array command invoked without its handle argument.
pub open spec fn no_handle_error() -> Seq<char> {
    "Array handle not provided."@
}

/// The message of a handle that is live but holds a value of another kind.
pub open spec fn invalid_handle_error() -> Seq<char> {
    "Invalid handle provided."@
}

/// The message of a handle under which nothing is live.
pub open spec fn not_found_error(key: Seq<char>) -> Seq<char> {
    "Array for handle: "@ + key + " not found."@
}

/// The message of a byte array too large for the encoder's output size to be
/// computed on this machine.
pub open spec fn oversized_payload_error() -> Seq<char> {
    "Array too large to encode."@
}

/// The message of a decode command invoked without its text argument.
pub open spec fn no_input_error() -> Seq<char> {
    "Input not provided."@
}

/// The message of a text the base64 decoder does not accept.
pub open spec fn invalid_base64_error() -> Seq<char> {
    "Invalid base64 input provided."@
}

/// The arguments joined with single spaces.
pub open spec fn join_spaces(args: Seq<Seq<char>>) -> Seq<char>
    decreases args.len(),
{
    if args.len() == 0 {
        Seq::empty()
    } else if args.len() == 1 {
        args[0]
    } else {
        join_spaces(args.drop_last()) + seq![' '] + args.last()
    }
}

/// The result of the stateless echo behavior.
pub open spec fn echo_result(args: Seq<Seq<char>>) -> CommandResultView {
    CommandResultView::Continue(Some(join_spaces(args)))
}

/// The result of the encode behavior against a given auxiliary state.
pub open spec fn encode_result(
    state: Map<Seq<char>, ValueView>,
    args: Seq<Seq<char>>,
) -> CommandResultView {
    if args.len() == 0 {
        CommandResultView::Error(no_handle_error())
    } else if !state.dom().contains(args[0]) {
        CommandResultView::Error(not_found_error(args[0]))
    } else {
        match state[args[0]] {
            ValueView::ByteArray(b) => if b.len() <= usize::MAX as nat / 4 {
                CommandResultView::Continue(Some(base64_of(b)))
            } else {
                CommandResultView::Error(oversized_payload_error())
            },
            _ => CommandResultView::Error(invalid_handle_error()),
        }
    }
}

fn join_with_spaces(args: &Vec<String>) -> (r: String)
    ensures
        r@ == join_spaces(args.deep_view()),
{
    let ghost argsv = args.deep_view();
    let mut out = String::new();
    let mut i: usize = 0;
    while i < args.len()
        invariant
            i <= args@.len(),
            argsv == args.deep_view(),
            argsv.len() == args@.len(),
            out@ == join_spaces(argsv.subrange(0, i as int)),
        decreases args@.len() - i,
    {
        let ghost out0 = out@;
        if i > 0 {
            out.append(" ");
        }
        out.append(args[i].as_str());
        proof {
            reveal_strlit(" ");
            assert(argsv[i as int] == args@[i as int]@);
            let pre = argsv.subrange(0, i as int);
            let cur = argsv.subrange(0, i as int + 1);
            assert(cur.drop_last() =~= pre);
            assert(cur.last() == argsv[i as int]);
            if i == 0 {
                assert(cur.len() == 1 && cur[0] == argsv[0]);
                assert(out@ =~= join_spaces(cur));
            } else {
                assert(" "@ =~= seq![' ']);
                assert(out@ =~= join_spaces(pre) + seq![' '] + argsv[i as int]);
            }
        }
        i = i + 1;
    }
    proof {
        assert(argsv.subrange(0, argsv.len() as int) =~= argsv);
    }
    out
}

fn not_found_message(key: &String) -> (r: String)
    ensures
        r@ == not_found_error(key@),
{
    let mut r = String::from_str("Array for handle: ");
    r.append(key.as_str());
    r.append(" not found.");
    r
}

impl Command {
    /// Builds a command from its identity, documentation and behavior.
    pub fn new(name: String, aliases: Vec<String>, help: String, behavior: CommandBehavior) -> (r:
        Command)
        ensures
            r@ == (CommandView {
                name: name@,
                aliases: aliases.deep_view(),
                help: help@,
                behavior: behavior@,
            }),
    {
        Command { name, aliases, help, behavior }
    }

    /// The same command under another primary name, used when a package is
    /// registered under a namespace prefix.
    pub fn with_name(&self, name: String) -> (r: Command)
        ensures
            r@ == (CommandView { name: name@, ..self@ }),
    {
        let c = self.clone();
        Command { name, aliases: c.aliases, help: c.help, behavior: c.behavior }
    }

    /// The canonical name.
    pub fn name(&self) -> (r: String)
        ensures
            r@ == self@.name,
    {
        self.name.clone()
    }

    /// The alternate lookup names.
    pub fn aliases(&self) -> (r: Vec<String>)
        ensures
            r.deep_view() == self@.aliases,
    {
        let r = self.aliases.clone();
        proof {
            assert forall|i: int| 0 <= i < self.aliases@.len() implies r@[i] == self.aliases@[i] by {
                assert(cloned::<String>(self.aliases[i], r[i]));
            }
            assert(r@ =~= self.aliases@);
        }
        r
    }

    /// The human-readable help text.
    pub fn help(&self) -> (r: String)
        ensures
            r@ == self@.help,
    {
        self.help.clone()
    }

    /// Whether invocation must go through the context-aware path.
    pub fn requires_context(&self) -> (r: bool)
        ensures
            r == !(self@.behavior is Echo),
    {
        match &self.behavior {
            CommandBehavior::Echo => false,
            _ => true,
        }
    }

    /// The stateless invocation path: a pure function of the arguments. A
    /// command that requires context fails here instead of assuming any
    /// interpreter state.
    pub fn run(&self, arguments: &Vec<String>) -> (r: CommandResult)
        ensures
            self@.behavior is Echo ==> r@ == echo_result(arguments.deep_view()),
            !(self@.behavior is Echo) ==> r@ == CommandResultView::Error(requires_context_error()),
    {
        match &self.behavior {
            CommandBehavior::Echo => CommandResult::Continue(Some(join_with_spaces(arguments))),
            _ => CommandResult::Error(String::from_str("Command requires execution context.")),
        }
    }

    /// The context-aware invocation path: the command is granted read/write
    /// access to the variable scope, the auxiliary handle store, the
    /// instruction stream, the registry itself, and the current line for
    /// diagnostics. Internal failures become `CommandResult::Error`; a
    /// verified command never aborts the host.
    pub fn run_with_context(
        &self,
        arguments: &Vec<String>,
        variables: &mut StringMap<String>,
        state: &mut HandleStore,
        output_variable: &Option<String>,
        instructions: &Vec<Instruction>,
        registry: &mut Registry,
        line: usize,
    ) -> (r: CommandResult)
        requires
            old(state).wf(),
            old(state).can_issue(),
        ensures
            final(state).wf(),
            *final(variables) == *old(variables),
            *final(registry) == *old(registry),
            self@.behavior is Echo ==> r@ == echo_result(arguments.deep_view()) && *final(state)
                == *old(state),
            self@.behavior is Base64Encode ==> r@ == encode_result(
                old(state)@,
                arguments.deep_view(),
            ) && *final(state) == *old(state),
            self@.behavior matches BehaviorView::Alias(a) ==> r@ == alias_run_result(
                a,
                arguments.deep_view(),
            ) && *final(state) == *old(state),
            self@.behavior is Base64Decode ==> {
                if arguments.deep_view().len() == 0 {
                    r@ == CommandResultView::Error(no_input_error()) && *final(state) == *old(state)
                } else {
                    match base64_decoded(arguments.deep_view()[0]) {
                        Option::None => r@ == CommandResultView::Error(invalid_base64_error())
                            && *final(state) == *old(state),
                        Option::Some(b) => {
                            &&& r@ == CommandResultView::Continue(
                                Some(key_text(old(state).issued())),
                            )
                            &&& final(state)@ == old(state)@.insert(
                                key_text(old(state).issued()),
                                ValueView::ByteArray(b),
                            )
                        },
                    }
                }
            },
    {
        match &self.behavior {
            CommandBehavior::Echo => CommandResult::Continue(Some(join_with_spaces(arguments))),
            CommandBehavior::Base64Encode => {
                if arguments.len() == 0 {
                    CommandResult::Error(String::from_str("Array handle not provided."))
                } else {
                    let key = &arguments[0];
                    proof {
                        assert(arguments.deep_view()[0] == arguments@[0]@);
                    }
                    match state.get_byte_array(key) {
                        Ok(bytes) => {
                            if bytes.len() <= usize::MAX / 4 {
                                CommandResult::Continue(Some(base64_encode_bytes(bytes)))
                            } else {
                                CommandResult::Error(String::from_str("Array too large to encode."))
                            }
                        },
                        Err(HandleError::NotFound) => CommandResult::Error(not_found_message(key)),
                        Err(HandleError::WrongKind) => CommandResult::Error(
                            String::from_str("Invalid handle provided."),
                        ),
                    }
                }
            },
            CommandBehavior::Base64Decode => {
                if arguments.len() == 0 {
                    CommandResult::Error(String::from_str("Input not provided."))
                } else {
                    proof {
                        assert(arguments.deep_view()[0] == arguments@[0]@);
                    }
                    match base64_decode_text(&arguments[0]) {
                        None => CommandResult::Error(
                            String::from_str("Invalid base64 input provided."),
                        ),
                        Some(bytes) => {
                            let key = state.put(Value::ByteArray(bytes));
                            CommandResult::Continue(Some(key))
                        },
                    }
                }
            },
            CommandBehavior::Alias(a) => {
                match a.expand(arguments) {
                    Ok(script) => CommandResult::Expand(script),
                    Err(message) => CommandResult::Error(message),
                }
            },
        }
    }
}

/// Builds an alias command: identity and documentation as any command, and a
/// declared behavior — a template script with two required parameters, the
/// delegate lookup name and the minimum argument count, validated eagerly.
/// Construction fails, before any script runs, when the template is blank or
/// references an argument position the minimum count does not guarantee.
pub fn create_alias_command(
    name: String,
    aliases: Vec<String>,
    help: String,
    delegate: String,
    template: &String,
    min_args: usize,
) -> (r: Result<Command, String>)
    ensures
        match r {
            Ok(c) => {
                &&& !crate::alias::all_blank(template@)
                &&& crate::alias::template_consistent(template@, min_args as nat)
                &&& c@ == (CommandView {
                    name: name@,
                    aliases: aliases.deep_view(),
                    help: help@,
                    behavior: BehaviorView::Alias(
                        AliasView {
                            template: template@,
                            min_args: min_args as nat,
                            delegate: delegate@,
                        },
                    ),
                })
            },
            Err(m) => {
                &&& crate::alias::all_blank(template@) || !crate::alias::template_consistent(
                    template@,
                    min_args as nat,
                )
                &&& m@ == if crate::alias::all_blank(template@) {
                    crate::alias::empty_script_error()
                } else {
                    crate::alias::inconsistent_template_error()
                }
            },
        },
{
    match AliasScript::create(delegate, template, min_args) {
        Ok(a) => Ok(Command::new(name, aliases, help, CommandBehavior::Alias(a))),
        Err(m) => Err(m),
    }
}

/// The propagation of a nested execution's outcome: a final value continues,
/// an error is forwarded with its message unchanged.
pub open spec fn spec_propagate(nested: Result<Option<Seq<char>>, Seq<char>>) -> CommandResultView {
    match nested {
        Ok(v) => CommandResultView::Continue(v),
        Err(e) => CommandResultView::Error(e),
    }
}

pub open spec fn nested_view(r: Result<Option<String>, String>) -> Result<
    Option<Seq<char>>,
    Seq<char>,
> {
    match r {
        Ok(v) => Ok(option_text_view(v)),
        Err(e) => Err(e@),
    }
}

/// Turns the result of the interpreter's script-execution entry point into
/// this command's own result, preserving the nested error message unchanged.
pub fn nested_outcome(r: Result<Option<String>, String>) -> (c: CommandResult)
    ensures
        c@ == spec_propagate(nested_view(r)),
{
    match r {
        Ok(v) => CommandResult::Continue(v),
        Err(e) => CommandResult::Error(e),
    }
}

/// The final outcome of one alias invocation whose nested execution, when it
/// happens, ends as `nested`: too few arguments fail up front, otherwise the
/// nested outcome is propagated.
pub open spec fn alias_invocation_outcome(
    a: AliasView,
    args: Seq<Seq<char>>,
    nested: Result<Option<Seq<char>>, Seq<char>>,
) -> CommandResultView {
    if args.len() < a.min_args {
        CommandResultView::Error(arg_count_error())
    } else {
        spec_propagate(nested)
    }
}

/// Law: an alias invocation with enough arguments asks the interpreter to run
/// exactly the text obtained by substituting the arguments into its template,
/// and its final outcome equals the propagated outcome of executing that text
/// directly through the same entry point; in particular a nested error
/// message is forwarded unchanged.
pub proof fn lemma_alias_equals_manual_expansion(
    a: AliasView,
    args: Seq<Seq<char>>,
    nested: Result<Option<Seq<char>>, Seq<char>>,
)
    requires
        args.len() >= a.min_args,
    ensures
        alias_run_result(a, args) == CommandResultView::Expand(substitute(a.template, args)),
        alias_invocation_outcome(a, args, nested) == spec_propagate(nested),
        nested matches Err(e) ==> alias_invocation_outcome(a, args, nested)
            == CommandResultView::Error(e),
{
}

/// Law: a command that stores a byte sequence in the auxiliary state and
/// continues with the generated key (as the decode behavior does) leaves the
/// state mapping that key to exactly those bytes, so any later command
/// holding the key retrieves the identical byte sequence.
pub proof fn lemma_stored_bytes_retrievable(m: Map<Seq<char>, ValueView>, k: Seq<char>, b: Seq<u8>)
    ensures
        m.insert(k, ValueView::ByteArray(b)).dom().contains(k),
        m.insert(k, ValueView::ByteArray(b))[k] == ValueView::ByteArray(b),
{
}

} // verus!

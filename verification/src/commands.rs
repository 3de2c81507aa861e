use vstd::prelude::*;

verus! {

/// An order sent from the conversation side to the motion loop.
#[derive(Clone, Copy, Debug, PartialEq, Eq, Structural)]
pub enum Action {
    Circle,
    Exit,
}

impl Action {
    /// Whether the motion loop stops on receiving this action.
    pub fn ends_run(&self) -> (stop: bool)
        ensures
            stop == (self is Exit),
    {
        match self {
            Action::Exit => true,
            Action::Circle => false,
        }
    }
}

/// What the prompt produced.
#[derive(Debug)]
pub enum CmdRes {
    /// A line to hand to the language model.
    Line(String),
    /// Nothing to do; prompt again.
    Nothing,
    /// The user closed the input; shut down.
    Exit,
}

/// Why reading a line from the prompt failed.
#[derive(Clone, Copy, Debug, PartialEq, Eq, Structural)]
pub enum ReadFailure {
    /// The user pressed Ctrl-C.
    Interrupted,
    /// The input ended (Ctrl-D).
    Eof,
    /// Any other failure of the line editor.
    Other,
}

/// Classifies the outcome of reading a prompt line: a line is a command, an
/// interruption or another failure means prompting again, and the end of
/// input means exiting.
pub fn command_from_read(read: Result<String, ReadFailure>) -> (cmd: CmdRes)
    ensures
        read is Ok ==> cmd == CmdRes::Line(read->Ok_0),
        read is Err && read->Err_0 is Eof ==> cmd is Exit,
        read is Err && !(read->Err_0 is Eof) ==> cmd is Nothing,
{
    match read {
        Ok(line) => CmdRes::Line(line),
        Err(ReadFailure::Eof) => CmdRes::Exit,
        Err(ReadFailure::Interrupted) => CmdRes::Nothing,
        Err(ReadFailure::Other) => CmdRes::Nothing,
    }
}

/// What woke the conversational core up: a voice message `F` from the
/// microphone topic, a failure of that topic, the outcome of the prompt, or a
/// failure of the prompt task.
pub enum CoreEvent<F> {
    Voice(F),
    VoiceFailed,
    Prompt(CmdRes),
    PromptFailed,
}

/// What the conversational core does next.
pub enum CoreAction<F> {
    /// Hand the voice message to the language model, keep the prompt open.
    AskVoice(F),
    /// Hand the line to the language model, then prompt again.
    AskLine(String),
    /// Prompt again.
    Reprompt,
    /// Tell the motion loop to exit, then stop.
    SendExit,
    /// Stop.
    Stop,
}

/// The conversational core's decision on one event: voice goes to the model;
/// a prompt line goes to the model and the prompt reopens; an empty outcome
/// reopens the prompt; the end of input stops the motion loop and the core;
/// a failure of either source stops the core.
pub fn core_step<F>(event: CoreEvent<F>) -> (a: CoreAction<F>)
    ensures
        event matches CoreEvent::Voice(f) ==> a == CoreAction::AskVoice(f),
        event is VoiceFailed ==> a is Stop,
        event matches CoreEvent::Prompt(CmdRes::Line(s)) ==> a == CoreAction::<F>::AskLine(s),
        event matches CoreEvent::Prompt(CmdRes::Nothing) ==> a is Reprompt,
        event matches CoreEvent::Prompt(CmdRes::Exit) ==> a is SendExit,
        event is PromptFailed ==> a is Stop,
{
    match event {
        CoreEvent::Voice(f) => CoreAction::AskVoice(f),
        CoreEvent::VoiceFailed => CoreAction::Stop,
        CoreEvent::Prompt(CmdRes::Line(s)) => CoreAction::AskLine(s),
        CoreEvent::Prompt(CmdRes::Nothing) => CoreAction::Reprompt,
        CoreEvent::Prompt(CmdRes::Exit) => CoreAction::SendExit,
        CoreEvent::PromptFailed => CoreAction::Stop,
    }
}

} // verus!

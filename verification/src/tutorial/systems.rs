use crate::player_state::state::PlayerState;
use crate::script::ScriptCreatedEvent;
use crate::tutorial::progression::TutorialProgression;
use vstd::prelude::*;

verus! {

/// What the tutorial window shows.
#[derive(Clone, Copy, PartialEq, Eq, Structural, Debug)]
pub enum TutorialPrompt {
    /// No window: the tutorial is over or was skipped.
    Hidden,
    /// The question whether to start the tutorial, with a yes and a no.
    AskStart,
    /// The message of a step, by its number, with a button to go on where the step
    /// waits for nothing else.
    Stage { number: u8, can_continue: bool },
}

/// What the player did that the tutorial may be waiting for.
#[derive(Clone, Copy, PartialEq, Eq, Structural, Debug)]
pub enum TutorialEvent {
    /// Yes to the question whether to start.
    Accepted,
    /// No to the question whether to start.
    Declined,
    /// The button to go on was pressed.
    Continued,
    ServerClicked,
    ScriptsTabClicked,
    MarketTabClicked,
    ExploitTabClicked,
    ScriptCreated,
    CreditsReceived,
}

/// Whether the step has a button to go on: it does where it waits for nothing that the
/// player has to do elsewhere.
pub open spec fn can_continue(progression: TutorialProgression) -> bool {
    progression == TutorialProgression::Start || progression == TutorialProgression::ServerClicked
        || progression == TutorialProgression::MarketTabClicked || progression
        == TutorialProgression::ExploitCreditsReceived
}

/// What the window shows at a step.
pub open spec fn prompt_of(progression: TutorialProgression) -> TutorialPrompt {
    if progression.stage() >= 11 {
        TutorialPrompt::Hidden
    } else if progression.stage() == 0 {
        TutorialPrompt::AskStart
    } else {
        TutorialPrompt::Stage {
            number: progression.stage() as u8,
            can_continue: can_continue(progression),
        }
    }
}

/// The step that the event is awaited at, if it is awaited at one only.
pub open spec fn awaited_at(event: TutorialEvent) -> Option<TutorialProgression> {
    match event {
        TutorialEvent::ServerClicked => Some(TutorialProgression::ServersTabIntroduced),
        TutorialEvent::ScriptsTabClicked => Some(TutorialProgression::DevelopScriptsIntroduced),
        TutorialEvent::MarketTabClicked => Some(TutorialProgression::MarketTabIntroduced),
        TutorialEvent::ExploitTabClicked => Some(TutorialProgression::ExploitTabIntroduced),
        TutorialEvent::ScriptCreated => Some(TutorialProgression::ScriptClicked),
        TutorialEvent::CreditsReceived => Some(TutorialProgression::ExploitServersShown),
        _ => None,
    }
}

/// Where the tutorial stands after an event. An event moves it on by one step if it is
/// what the step waits for; the answer to the opening question starts or skips it; any
/// other event changes nothing.
pub open spec fn after_event(
    progression: TutorialProgression,
    event: TutorialEvent,
) -> TutorialProgression {
    match event {
        TutorialEvent::Accepted => if progression == TutorialProgression::NotOffered {
            TutorialProgression::Start
        } else {
            progression
        },
        TutorialEvent::Declined => if progression == TutorialProgression::NotOffered {
            TutorialProgression::Skipped
        } else {
            progression
        },
        TutorialEvent::Continued => if can_continue(progression) {
            progression.next()
        } else {
            progression
        },
        _ => if awaited_at(event) == Some(progression) {
            progression.next()
        } else {
            progression
        },
    }
}

/// No event takes the tutorial back: it stays or moves to a later step.
pub proof fn lemma_event_never_goes_back(progression: TutorialProgression, event: TutorialEvent)
    ensures
        after_event(progression, event).stage() >= progression.stage(),
        after_event(progression, event) != progression ==> after_event(progression, event)
            == progression.next() || progression == TutorialProgression::NotOffered,
{
}

/// What the tutorial window shows at this step.
pub fn tutorial_prompt(progression: &TutorialProgression) -> (r: TutorialPrompt)
    ensures
        r == prompt_of(*progression),
{
    match progression {
        TutorialProgression::Skipped | TutorialProgression::Complete => TutorialPrompt::Hidden,
        TutorialProgression::NotOffered => TutorialPrompt::AskStart,
        TutorialProgression::Start => TutorialPrompt::Stage { number: 1, can_continue: true },
        TutorialProgression::ServersTabIntroduced => TutorialPrompt::Stage {
            number: 2,
            can_continue: false,
        },
        TutorialProgression::ServerClicked => TutorialPrompt::Stage {
            number: 3,
            can_continue: true,
        },
        TutorialProgression::DevelopScriptsIntroduced => TutorialPrompt::Stage {
            number: 4,
            can_continue: false,
        },
        TutorialProgression::ScriptClicked => TutorialPrompt::Stage {
            number: 5,
            can_continue: false,
        },
        TutorialProgression::MarketTabIntroduced => TutorialPrompt::Stage {
            number: 6,
            can_continue: false,
        },
        TutorialProgression::MarketTabClicked => TutorialPrompt::Stage {
            number: 7,
            can_continue: true,
        },
        TutorialProgression::ExploitTabIntroduced => TutorialPrompt::Stage {
            number: 8,
            can_continue: false,
        },
        TutorialProgression::ExploitServersShown => TutorialPrompt::Stage {
            number: 9,
            can_continue: false,
        },
        TutorialProgression::ExploitCreditsReceived => TutorialPrompt::Stage {
            number: 10,
            can_continue: true,
        },
    }
}

/// Moves the tutorial on if the event is what it waits for.
pub fn tutorial_on_event(progression: &mut TutorialProgression, event: TutorialEvent)
    ensures
        *final(progression) == after_event(*old(progression), event),
{
    let awaited = match event {
        TutorialEvent::Accepted => {
            if *progression == TutorialProgression::NotOffered {
                *progression = TutorialProgression::Start;
            }
            return ;
        },
        TutorialEvent::Declined => {
            if *progression == TutorialProgression::NotOffered {
                *progression = TutorialProgression::Skipped;
            }
            return ;
        },
        TutorialEvent::Continued => {
            match tutorial_prompt(progression) {
                TutorialPrompt::Stage { can_continue: true, .. } => {
                    progression.advance();
                },
                _ => {},
            }
            return ;
        },
        TutorialEvent::ServerClicked => TutorialProgression::ServersTabIntroduced,
        TutorialEvent::ScriptsTabClicked => TutorialProgression::DevelopScriptsIntroduced,
        TutorialEvent::MarketTabClicked => TutorialProgression::MarketTabIntroduced,
        TutorialEvent::ExploitTabClicked => TutorialProgression::ExploitTabIntroduced,
        TutorialEvent::ScriptCreated => TutorialProgression::ScriptClicked,
        TutorialEvent::CreditsReceived => TutorialProgression::ExploitServersShown,
    };
    if *progression == awaited {
        progression.advance();
    }
}

/// Moves the tutorial on when it waits for the player's first script.
pub fn tutorial_on_script_created(evt: &ScriptCreatedEvent, player_state: &mut PlayerState)
    ensures
        *final(player_state) == (PlayerState {
            progression: after_event(
                old(player_state).progression,
                TutorialEvent::ScriptCreated,
            ),
            ..*old(player_state)
        }),
{
    tutorial_on_event(&mut player_state.progression, TutorialEvent::ScriptCreated);
}

} // verus!

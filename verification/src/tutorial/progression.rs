use vstd::prelude::*;

verus! {

/// How far the player has come in the tutorial.
#[derive(Clone, Copy, PartialEq, Eq, Structural, Debug)]
pub enum TutorialProgression {
    /// The option to start with a tutorial hasn't been presented to the player yet.
    NotOffered,
    /// The player skipped the tutorial.
    Skipped,
    /// The player has completed the tutorial.
    Complete,
    /// The player has started the tutorial, but has not yet completed any steps.
    Start,
    /// The server section is added to the menu sidebar,
    /// and the user is prompted to click the only server tab within.
    ServersTabIntroduced,
    ServerClicked,
    /// The develop section and scripts tab is added to the menu sidebar,
    /// and the user is prompted to click the "scripts" tab within.
    DevelopScriptsIntroduced,
    ScriptClicked,
    /// The market tab is added to the menu sidebar.
    MarketTabIntroduced,
    MarketTabClicked,
    /// The exploit tab is added to the menu sidebar.
    ExploitTabIntroduced,
    ExploitServersShown,
    ExploitCreditsReceived,
}

impl TutorialProgression {
    /// The place of a step in the course of the tutorial. The steps that
    /// [`TutorialProgression::advance`] walks through are numbered 1 to 11 in their
    /// order; a skipped tutorial ranks with a completed one.
    pub open spec fn stage(self) -> int {
        match self {
            TutorialProgression::NotOffered => 0,
            TutorialProgression::Start => 1,
            TutorialProgression::ServersTabIntroduced => 2,
            TutorialProgression::ServerClicked => 3,
            TutorialProgression::DevelopScriptsIntroduced => 4,
            TutorialProgression::ScriptClicked => 5,
            TutorialProgression::MarketTabIntroduced => 6,
            TutorialProgression::MarketTabClicked => 7,
            TutorialProgression::ExploitTabIntroduced => 8,
            TutorialProgression::ExploitServersShown => 9,
            TutorialProgression::ExploitCreditsReceived => 10,
            TutorialProgression::Complete => 11,
            TutorialProgression::Skipped => 12,
        }
    }

    /// The step that follows: the next one in the course, and the same one where the
    /// tutorial has not begun or is over.
    pub open spec fn next(self) -> TutorialProgression {
        match self {
            TutorialProgression::NotOffered => TutorialProgression::NotOffered,
            TutorialProgression::Skipped => TutorialProgression::Skipped,
            TutorialProgression::Complete => TutorialProgression::Complete,
            TutorialProgression::Start => TutorialProgression::ServersTabIntroduced,
            TutorialProgression::ServersTabIntroduced => TutorialProgression::ServerClicked,
            TutorialProgression::ServerClicked => TutorialProgression::DevelopScriptsIntroduced,
            TutorialProgression::DevelopScriptsIntroduced => TutorialProgression::ScriptClicked,
            TutorialProgression::ScriptClicked => TutorialProgression::MarketTabIntroduced,
            TutorialProgression::MarketTabIntroduced => TutorialProgression::MarketTabClicked,
            TutorialProgression::MarketTabClicked => TutorialProgression::ExploitTabIntroduced,
            TutorialProgression::ExploitTabIntroduced => TutorialProgression::ExploitServersShown,
            TutorialProgression::ExploitServersShown => TutorialProgression::ExploitCreditsReceived,
            TutorialProgression::ExploitCreditsReceived => TutorialProgression::Complete,
        }
    }

    pub fn show_servers_tab(&self) -> (r: bool)
        ensures
            r == (self.stage() >= 2),
    {
        match self {
            TutorialProgression::NotOffered => false,
            TutorialProgression::Start => false,
            _ => true,
        }
    }

    pub fn show_develop_tab(&self) -> (r: bool)
        ensures
            r == (self.stage() >= 4),
    {
        self.show_servers_tab() && match self {
            TutorialProgression::ServersTabIntroduced => false,
            TutorialProgression::ServerClicked => false,
            _ => true,
        }
    }

    pub fn show_market_tab(&self) -> (r: bool)
        ensures
            r == (self.stage() >= 6),
    {
        self.show_develop_tab() && match self {
            TutorialProgression::DevelopScriptsIntroduced => false,
            TutorialProgression::ScriptClicked => false,
            _ => true,
        }
    }

    pub fn show_exploit_tab(&self) -> (r: bool)
        ensures
            r == (self.stage() >= 8),
    {
        self.show_market_tab() && match self {
            TutorialProgression::MarketTabIntroduced => false,
            TutorialProgression::MarketTabClicked => false,
            _ => true,
        }
    }

    pub fn is_complete(&self) -> (r: bool)
        ensures
            r == (self.stage() >= 11),
    {
        match self {
            TutorialProgression::Complete | TutorialProgression::Skipped => true,
            _ => false,
        }
    }

    /// Moves on to the next step. Nothing changes where the tutorial has not begun or
    /// is over.
    pub fn advance(&mut self)
        ensures
            *final(self) == old(self).next(),
    {
        match self {
            TutorialProgression::NotOffered => {},
            TutorialProgression::Skipped => {},
            TutorialProgression::Complete => {},
            TutorialProgression::Start => *self = TutorialProgression::ServersTabIntroduced,
            TutorialProgression::ServersTabIntroduced => *self = TutorialProgression::ServerClicked,
            TutorialProgression::ServerClicked => *self =
                TutorialProgression::DevelopScriptsIntroduced,
            TutorialProgression::DevelopScriptsIntroduced => *self =
                TutorialProgression::ScriptClicked,
            TutorialProgression::ScriptClicked => *self = TutorialProgression::MarketTabIntroduced,
            TutorialProgression::MarketTabIntroduced => *self =
                TutorialProgression::MarketTabClicked,
            TutorialProgression::MarketTabClicked => *self =
                TutorialProgression::ExploitTabIntroduced,
            TutorialProgression::ExploitTabIntroduced => *self =
                TutorialProgression::ExploitServersShown,
            TutorialProgression::ExploitServersShown => *self =
                TutorialProgression::ExploitCreditsReceived,
            TutorialProgression::ExploitCreditsReceived => *self = TutorialProgression::Complete,
        }
    }
}

/// Each step of the course leads to the one numbered next, and nothing else moves.
pub proof fn lemma_next_stage(step: TutorialProgression)
    ensures
        1 <= step.stage() <= 10 ==> step.next().stage() == step.stage() + 1,
        !(1 <= step.stage() <= 10) ==> step.next() == step,
{
}

} // verus!

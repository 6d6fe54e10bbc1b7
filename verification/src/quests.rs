//! Quests: a progress counter, a finishing threshold and a reward.

use crate::text::{decimal, decimal_string};
use vstd::prelude::*;
use vstd::string::*;

verus! {

/// The quests of the game.
#[derive(Clone, Copy, Debug, PartialEq, Eq, Hash, Structural)]
pub enum QuestID {
    CombatVictory,
    DatamineSuccess,
}

impl QuestID {
    /// What the quest asks for, in words.
    pub open spec fn label(&self) -> Seq<char> {
        match self {
            QuestID::CombatVictory => "Win in Combat"@,
            QuestID::DatamineSuccess => "Successfully datamine"@,
        }
    }

    /// What the quest asks for, in words.
    pub fn name(&self) -> (r: String)
        ensures
            r@ == self.label(),
    {
        match self {
            QuestID::CombatVictory => "Win in Combat".to_owned(),
            QuestID::DatamineSuccess => "Successfully datamine".to_owned(),
        }
    }
}

/// What finishing a quest pays.
#[derive(Clone, Copy, Debug, PartialEq, Eq, Structural)]
pub enum QuestReward {
    XP(i32),
}

/// A quest and its state.
#[derive(Clone, Copy, Debug, PartialEq, Eq, Structural)]
pub struct Quest {
    pub quest_id: QuestID,
    /// The quest is finished once `value` is at or above this.
    pub finish_threshold: u32,
    pub reward: QuestReward,
    /// The progress made so far.
    pub value: u32,
    /// Whether the quest may be shown and followed.
    pub visible: bool,
    /// Whether progress can be made.
    pub active: bool,
    /// Whether the player follows the quest on screen.
    pub is_tracked: bool,
}

/// The quests a new game starts with, each id once: four victories in
/// combat for 80 XP, ten successful datamines for 100 XP.
pub fn default_quests() -> (r: Vec<Quest>)
    ensures
        r@ == seq![
            Quest::fresh(QuestID::CombatVictory, 4, QuestReward::XP(80)),
            Quest::fresh(QuestID::DatamineSuccess, 10, QuestReward::XP(100)),
        ],
{
    let mut quests: Vec<Quest> = Vec::new();
    quests.push(Quest::new(QuestID::CombatVictory, 4, QuestReward::XP(80)));
    quests.push(Quest::new(QuestID::DatamineSuccess, 10, QuestReward::XP(100)));
    proof {
        assert(quests@ =~= seq![
            Quest::fresh(QuestID::CombatVictory, 4, QuestReward::XP(80)),
            Quest::fresh(QuestID::DatamineSuccess, 10, QuestReward::XP(100)),
        ]);
    }
    quests
}

impl Quest {
    /// A quest without progress: visible, active and followed.
    pub open spec fn fresh(quest_id: QuestID, finish_threshold: u32, reward: QuestReward) -> Quest {
        Quest {
            quest_id,
            finish_threshold,
            reward,
            value: 0,
            visible: true,
            active: true,
            is_tracked: true,
        }
    }

    /// The quest after one more step of progress: a step counts only while
    /// the quest is active and not yet finished.
    pub open spec fn incremented(&self) -> Quest {
        if self.active && self.value < self.finish_threshold {
            Quest { value: (self.value + 1) as u32, ..*self }
        } else {
            *self
        }
    }

    /// The progress has reached the threshold.
    pub open spec fn spec_is_finished(&self) -> bool {
        self.value >= self.finish_threshold
    }

    /// Steps still missing (zero once finished).
    pub open spec fn remaining(&self) -> nat {
        if self.value >= self.finish_threshold {
            0
        } else {
            (self.finish_threshold - self.value) as nat
        }
    }

    /// A quest without progress: visible, active and followed.
    pub fn new(quest_id: QuestID, finish_threshold: u32, reward: QuestReward) -> (r: Self)
        ensures
            r == Quest::fresh(quest_id, finish_threshold, reward),
    {
        Quest {
            quest_id,
            finish_threshold,
            reward,
            value: 0,
            visible: true,
            active: true,
            is_tracked: true,
        }
    }

    /// The line shown for the quest: the steps still missing, `x`, a space
    /// and the quest's label.
    pub fn name(&self) -> (r: String)
        ensures
            r@ == decimal(self.remaining()) + "x "@ + self.quest_id.label(),
    {
        let missing: u32 = if self.value >= self.finish_threshold {
            0
        } else {
            self.finish_threshold - self.value
        };
        let mut r = decimal_string(missing as u64);
        r.append("x ");
        let label = self.quest_id.name();
        r.append(label.as_str());
        r
    }

    /// One step of progress. Nothing changes when the quest is inactive or
    /// already finished.
    pub fn increment(&mut self)
        ensures
            *final(self) == old(self).incremented(),
    {
        if self.active && self.value < self.finish_threshold {
            self.value = self.value + 1;
        }
    }

    /// Whether the progress has reached the threshold.
    #[verifier::when_used_as_spec(spec_is_finished)]
    pub fn is_finished(&self) -> (r: bool)
        ensures
            r == self.spec_is_finished(),
    {
        self.value >= self.finish_threshold
    }

    /// Whether the quest can be followed: it is visible and not finished.
    pub fn trackable(&self) -> (r: bool)
        ensures
            r == (self.visible && !self.spec_is_finished()),
    {
        self.visible && !self.is_finished()
    }
}

/// `quest` after `n` steps of progress.
pub open spec fn after_increments(quest: Quest, n: nat) -> Quest
    decreases n,
{
    if n == 0 {
        quest
    } else {
        after_increments(quest, (n - 1) as nat).incremented()
    }
}

/// Progress never passes the threshold, then stays there: an active quest
/// that is not past its threshold has, after `n` steps, the progress
/// `min(progress + n, threshold)` and is otherwise unchanged, so it is
/// finished exactly when `progress + n >= threshold`.
pub proof fn lemma_increments_stop_at_threshold(quest: Quest, n: nat)
    requires
        quest.active,
        quest.value <= quest.finish_threshold,
    ensures
        after_increments(quest, n) == (Quest {
            value: if quest.value + n <= quest.finish_threshold {
                (quest.value + n) as u32
            } else {
                quest.finish_threshold
            },
            ..quest
        }),
        after_increments(quest, n).spec_is_finished() <==> quest.value + n
            >= quest.finish_threshold,
    decreases n,
{
    if n > 0 {
        lemma_increments_stop_at_threshold(quest, (n - 1) as nat);
    }
}

/// A step on a finished quest is no step: the quest stays as it is,
/// finished, whatever else its state.
pub proof fn lemma_finished_is_final(quest: Quest)
    requires
        quest.spec_is_finished(),
    ensures
        quest.incremented() == quest,
        quest.incremented().spec_is_finished(),
{
}

/// The step that finishes a quest is the only one that can: if a step
/// takes a quest from unfinished to finished, no later step changes it.
pub proof fn lemma_finishing_step_is_unique(quest: Quest, later: nat)
    requires
        !quest.spec_is_finished(),
        quest.incremented().spec_is_finished(),
    ensures
        after_increments(quest.incremented(), later) == quest.incremented(),
    decreases later,
{
    if later > 0 {
        lemma_finishing_step_is_unique(quest, (later - 1) as nat);
    }
}

} // verus!

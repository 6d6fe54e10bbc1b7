//! The session: the player, what the player is doing, and the log. Each
//! action of the game is a step from one state of the session to the next.

use crate::buffs::{after_turn, damage_tenths, BuffType};
use crate::combat::{
    damage_range, exchange_possible, lemma_pass_fits_prefix, lemma_range_bounds, pass_fits,
    pass_over, pass_step, rolls_possible, step_fits, Exchange, Pass, KILL_INTEL,
};
use crate::conversation::{Conversation, ConversationView};
use crate::lines::{
    xp_line, quest_done_line, overclock_line, need_ram_line, escape_line, shop_line, stumble_line,
    full_ram_line, recover_line, datamine_line, malware_line, search_line, regenerate_line,
    bought_line, write_deal_line, write_take_line, write_xp_line, write_quest_done_line,
    write_need_ram_line, write_shop_line, write_recover_line, write_datamine_line,
    write_malware_line, write_search_line, write_regenerate_line, write_bought_line,
};
use crate::pieces::{
    generated_contact, hostile_names, random_hostile_name, CappedValue, Contact, ContactView,
    Networks, Skills, BASE_SKILL_POINTS,
};
use crate::player::{
    default_names, is_first_quest, lemma_quest_found, new_player, quest_index, upgrade_index,
    Player, PlayerFlag,
    PlayerStats, PlayerUpgrade, PlayerUpgradeType, PlayerView, SkillKind, INTEL_UNIT,
};
use crate::quests::{Quest, QuestID, QuestReward};
use crate::utils::{encounter_succeeds, is_roll, passes, roll, uniform_draw, ROLL_SCALE};
use vstd::prelude::*;
use vstd::string::*;

verus! {

/// What the player can do while roaming.
#[derive(Clone, Copy, Debug, PartialEq, Eq, Structural)]
pub enum Tasks {
    Search,
    Datamine,
    Recover,
}

impl Tasks {
    /// What the task promises.
    pub open spec fn blurb(&self) -> Seq<char> {
        match self {
            Tasks::Search => "+ Credits, ???"@,
            Tasks::Datamine => "High risk, ++ Credits"@,
            Tasks::Recover => "Low risk, ++ RAM"@,
        }
    }

    /// What the task promises.
    pub fn description(&self) -> (r: String)
        ensures
            r@ == self.blurb(),
    {
        match self {
            Tasks::Search => "+ Credits, ???".to_owned(),
            Tasks::Datamine => "High risk, ++ Credits".to_owned(),
            Tasks::Recover => "Low risk, ++ RAM".to_owned(),
        }
    }
}

/// The places the player can deal with.
#[derive(Clone, Copy, Debug, PartialEq, Eq, Structural)]
pub enum InteractionType {
    BasicShop,
}

/// What the player is doing.
pub enum Activity {
    FreeRoam,
    Combat(Vec<Contact>),
    Interacting(InteractionType),
    Conversing(Conversation),
}

/// What the player is doing, as plain values.
pub enum ActivityView {
    FreeRoam,
    Combat(Seq<ContactView>),
    Interacting(InteractionType),
    Conversing(ConversationView),
}

/// The contacts of `contacts`, as plain values.
pub open spec fn contact_views(contacts: Seq<Contact>) -> Seq<ContactView> {
    Seq::new(contacts.len(), |i: int| contacts[i]@)
}

/// The lines of `lines`, as plain values.
pub open spec fn line_views(lines: Seq<String>) -> Seq<Seq<char>> {
    Seq::new(lines.len(), |i: int| lines[i]@)
}

impl View for Activity {
    type V = ActivityView;

    open spec fn view(&self) -> ActivityView {
        match self {
            Activity::FreeRoam => ActivityView::FreeRoam,
            Activity::Combat(contacts) => ActivityView::Combat(contact_views(contacts@)),
            Activity::Interacting(kind) => ActivityView::Interacting(*kind),
            Activity::Conversing(conversation) => ActivityView::Conversing(conversation@),
        }
    }
}

/// A session of the game.
pub struct NetrunnerGame {
    pub player: Player,
    pub terminal_lines: Vec<String>,
    pub activity: Activity,
    pub current_net: Networks,
    pub current_task: Tasks,
    pub turn: i32,
}

/// A session of the game, as plain values.
pub struct GameView {
    pub player: PlayerView,
    pub log: Seq<Seq<char>>,
    pub activity: ActivityView,
    pub current_net: Networks,
    pub current_task: Tasks,
    pub turn: int,
}

impl View for NetrunnerGame {
    type V = GameView;

    open spec fn view(&self) -> GameView {
        GameView {
            player: self.player@,
            log: line_views(self.terminal_lines@),
            activity: self.activity@,
            current_net: self.current_net,
            current_task: self.current_task,
            turn: self.turn as int,
        }
    }
}

/// The RAM that launching a hack takes.
pub const ATTACK_COST: i32 = 4;

/// The RAM that overclocking takes.
pub const OVERCLOCK_COST: i32 = 10;

/// Units of intel that a successful datamine brings.
pub const DATAMINE_INTEL: i64 = 3;

/// Units of intel that an escape from combat costs.
pub const ESCAPE_INTEL: i64 = 7;

/// What one level of `HPMaxUp` adds to the health and to its limit.
pub const HP_UPGRADE: i32 = 50;

/// The share of searches that succeed, in millionths.
pub const SEARCH_SUCCESS: i64 = 800_000;

/// The share of datamines that succeed, in millionths.
pub const DATAMINE_SUCCESS: i64 = 600_000;

/// The share of searches that find the shop, while it can be found, in
/// millionths.
pub const SHOP_CHANCE: i64 = 200_000;

/// The credits below which a search may find the shop.
pub const SHOP_THRESHOLD: i32 = 100;

/// Credits per unit of roll and difficulty that a search pays, in tenths.
pub const SEARCH_RATE: i64 = 65;

/// RAM per unit of roll that a fruitless search gives back, in tenths.
pub const REGENERATE_RATE: i64 = 75;

/// Credits per unit of roll and difficulty that a datamine pays, in
/// tenths.
pub const DATAMINE_RATE: i64 = 145;

/// The least RAM that recovering brings.
pub const RECOVER_LOW: i64 = 6;

/// The bound that the RAM recovered stays below.
pub const RECOVER_HIGH: i64 = 18;

/// `roll / ROLL_SCALE * difficulty * rate / 10`, rounded up: what a roll
/// earns at a rate given in tenths.
pub open spec fn earned(roll: int, difficulty: int, rate: int) -> int {
    (roll * difficulty * rate + (10 * ROLL_SCALE - 1)) / (10 * ROLL_SCALE)
}

/// The credits that a successful search with `roll` pays.
pub open spec fn search_reward(roll: int, net: Networks) -> int {
    earned(roll, net.spec_difficulty() as int, SEARCH_RATE as int)
}

/// The RAM that a fruitless search with `roll` gives back.
pub open spec fn regenerated(roll: int, net: Networks) -> int {
    earned(roll, 1, REGENERATE_RATE as int) + net.spec_difficulty()
}

/// The credits that a successful datamine with `roll` pays.
pub open spec fn datamine_reward(roll: int, net: Networks) -> int {
    earned(roll, net.spec_difficulty() as int, DATAMINE_RATE as int)
}

/// Computes what a roll earns.
pub fn earnings(roll: i64, difficulty: i64, rate: i64) -> (r: i64)
    requires
        is_roll(roll as int),
        0 <= difficulty <= 3,
        0 <= rate <= 1000,
    ensures
        r == earned(roll as int, difficulty as int, rate as int),
        0 <= r <= 300,
{
    assert(0 <= roll * difficulty <= 3_000_000) by (nonlinear_arith)
        requires
            0 <= roll < 1_000_000,
            0 <= difficulty <= 3,
    ;
    let scaled: i64 = roll * difficulty;
    assert(0 <= scaled * rate <= 3_000_000_000) by (nonlinear_arith)
        requires
            0 <= scaled <= 3_000_000,
            0 <= rate <= 1000,
    ;
    (scaled * rate + (10 * ROLL_SCALE - 1)) / (10 * ROLL_SCALE)
}

/// The session that a game starts with, for a player of the given name.
pub open spec fn new_game(name: Seq<char>) -> GameView {
    GameView {
        player: new_player(name),
        log: seq!["welcome to cybergame"@, "strap in, choomba"@],
        activity: ActivityView::FreeRoam,
        current_net: Networks::Internet,
        current_task: Tasks::Datamine,
        turn: 1,
    }
}

impl GameView {
    /// The session with `line` added to the log.
    pub open spec fn printed(self, line: Seq<char>) -> GameView {
        GameView { log: self.log.push(line), ..self }
    }

    /// The session with each of `lines` added to the log, in order.
    pub open spec fn printed_all(self, lines: Seq<Seq<char>>) -> GameView {
        GameView { log: self.log + lines, ..self }
    }

    /// The session one turn later: the turn counter moves on and the
    /// buffs age.
    pub open spec fn turn_passed(self) -> GameView {
        GameView {
            turn: self.turn + 1,
            player: PlayerView { buffs: after_turn(self.player.buffs), ..self.player },
            ..self
        }
    }

    /// The session after the quest `id` was triggered. An unfinished
    /// quest takes a step; if that step finishes it, its reward is paid
    /// and two lines tell of it. A finished quest, or one that the player
    /// does not have, changes nothing.
    pub open spec fn quest_triggered(self, id: QuestID) -> GameView {
        match quest_index(self.player.quests, id) {
            Some(i) => {
                let quest = self.player.quests[i];
                let stepped = quest.incremented();
                if quest.spec_is_finished() {
                    self
                } else if stepped.spec_is_finished() {
                    let QuestReward::XP(amount) = stepped.reward;
                    GameView {
                        player: PlayerView {
                            quests: self.player.quests.update(i, stepped),
                            xp: self.player.xp + amount,
                            ..self.player
                        },
                        ..self
                    }.printed(xp_line(amount as int)).printed(quest_done_line(id))
                } else {
                    GameView {
                        player: PlayerView {
                            quests: self.player.quests.update(i, stepped),
                            ..self.player
                        },
                        ..self
                    }
                }
            },
            None => self,
        }
    }

    /// The session after the player entered the shop.
    pub open spec fn shop_entered(self) -> GameView {
        GameView {
            activity: ActivityView::Interacting(InteractionType::BasicShop),
            ..self
        }.printed(shop_line(self.current_net))
    }

    /// Whether a search finds the shop: on the internet, while the shop is
    /// not yet known and the credits are below the threshold, when the shop
    /// roll passes its check, which one roll in five does.
    pub open spec fn finds_shop(self, shop_roll: int) -> bool {
        &&& self.current_net == Networks::Internet
        &&& !self.player.flags.contains(PlayerFlag::DiscoveredShopBasic)
        &&& self.player.credits < SHOP_THRESHOLD
        &&& passes(shop_roll, ROLL_SCALE - SHOP_CHANCE)
    }

    /// The session after a search with the given rolls. A turn passes.
    /// Then the shop is found, or the search succeeds and pays credits,
    /// or it fails and gives some RAM back.
    pub open spec fn searched(self, shop_roll: int, roll: int) -> GameView {
        let v = self.turn_passed();
        if v.finds_shop(shop_roll) {
            v.printed(stumble_line()).shop_entered()
        } else if passes(roll, ROLL_SCALE - SEARCH_SUCCESS) {
            let reward = search_reward(roll, v.current_net);
            GameView {
                player: PlayerView {
                    stats: PlayerStats {
                        search_success: (v.player.stats.search_success + 1) as u32,
                        ..v.player.stats
                    },
                    credits: v.player.credits + reward,
                    ..v.player
                },
                ..v
            }.printed(search_line(reward))
        } else {
            let amount = regenerated(roll, v.current_net);
            GameView {
                player: PlayerView { ram: v.player.ram.changed(amount), ..v.player },
                ..v
            }.printed(regenerate_line(amount))
        }
    }

    /// Whether the counters have room for a search with the given rolls.
    pub open spec fn search_fits(self, shop_roll: int, roll: int) -> bool {
        &&& self.turn < i32::MAX
        &&& !self.finds_shop(shop_roll) && passes(roll, ROLL_SCALE - SEARCH_SUCCESS) ==> {
            &&& self.player.stats.search_success < u32::MAX
            &&& self.player.credits + search_reward(roll, self.current_net) <= i32::MAX
        }
    }

    /// The session after a datamine with the given roll; `skill_roll` and
    /// `name` make the contact that a failure runs into. A turn passes.
    /// Then the datamine succeeds, pays credits and intel and counts for
    /// the datamining quest, or it fails and combat with a new contact of
    /// the network's difficulty begins.
    pub open spec fn datamined(self, roll: int, skill_roll: int, name: Seq<char>) -> GameView {
        let v = self.turn_passed();
        if passes(roll, ROLL_SCALE - DATAMINE_SUCCESS) {
            let reward = datamine_reward(roll, v.current_net);
            GameView {
                player: PlayerView {
                    stats: PlayerStats {
                        datamine_success: (v.player.stats.datamine_success + 1) as u32,
                        ..v.player.stats
                    },
                    credits: v.player.credits + reward,
                    net_stats: v.player.net_stats.with_intel(
                        v.current_net,
                        DATAMINE_INTEL * INTEL_UNIT,
                    ),
                    ..v.player
                },
                ..v
            }.printed(datamine_line(reward)).quest_triggered(QuestID::DatamineSuccess)
        } else {
            GameView {
                activity: ActivityView::Combat(
                    seq![generated_contact(v.current_net.spec_difficulty() as int, skill_roll, name)],
                ),
                ..v.printed(malware_line(name))
            }
        }
    }

    /// Whether the counters have room for a datamine with the given roll.
    pub open spec fn datamine_fits(self, roll: int) -> bool {
        &&& self.turn < i32::MAX
        &&& passes(roll, ROLL_SCALE - DATAMINE_SUCCESS) ==> {
            &&& self.player.stats.datamine_success < u32::MAX
            &&& self.player.credits + datamine_reward(roll, self.current_net) <= i32::MAX
            &&& self.player.net_stats.spec_get(self.current_net).total_intel + DATAMINE_INTEL
                * INTEL_UNIT <= i64::MAX
            &&& self.quest_fits(QuestID::DatamineSuccess)
        }
    }

    /// The session after recovering `amount` of RAM. With the RAM already
    /// full nothing happens but a line in the log; otherwise a turn
    /// passes and the RAM grows.
    pub open spec fn recovered(self, amount: int) -> GameView {
        if self.player.ram.upper_limit == self.player.ram.value {
            self.printed(full_ram_line())
        } else {
            let v = self.turn_passed();
            GameView {
                player: PlayerView { ram: v.player.ram.changed(amount), ..v.player },
                ..v
            }.printed(recover_line(amount))
        }
    }

    /// Whether the counters have room for recovering.
    pub open spec fn recover_fits(self) -> bool {
        self.player.ram.upper_limit != self.player.ram.value ==> self.turn < i32::MAX
    }

    /// The session after the quest `id` was triggered `n` times.
    pub open spec fn quest_triggered_times(self, id: QuestID, n: nat) -> GameView
        decreases n,
    {
        if n == 0 {
            self
        } else {
            self.quest_triggered_times(id, (n - 1) as nat).quest_triggered(id)
        }
    }

    /// Whether the experience has room for triggering the quest `id` `n`
    /// times.
    pub open spec fn quest_fits_times(self, id: QuestID, n: nat) -> bool
        decreases n,
    {
        if n == 0 {
            true
        } else {
            &&& self.quest_fits_times(id, (n - 1) as nat)
            &&& self.quest_triggered_times(id, (n - 1) as nat).quest_fits(id)
        }
    }

    /// The contacts that the player is in combat with; none outside
    /// combat.
    pub open spec fn contacts(self) -> Seq<ContactView> {
        match self.activity {
            ActivityView::Combat(contacts) => contacts,
            _ => Seq::empty(),
        }
    }

    /// Whether the player is in combat.
    pub open spec fn in_combat(self) -> bool {
        self.activity is Combat
    }

    /// The session after the pass over the contacts, before the quest
    /// hears of the kills and before the lines of the pass are written:
    /// the player as the pass leaves it, and combat with the survivors, or
    /// free roaming if there is none.
    pub open spec fn pass_made(self, rolls: Seq<Exchange>) -> GameView {
        let p = pass_over(self.player, self.current_net, self.contacts(), rolls);
        GameView {
            player: p.player,
            activity: if p.survivors.len() == 0 {
                ActivityView::FreeRoam
            } else {
                ActivityView::Combat(p.survivors)
            },
            ..self
        }
    }

    /// The kills of the pass over the contacts.
    pub open spec fn kills_made(self, rolls: Seq<Exchange>) -> nat {
        let p = pass_over(self.player, self.current_net, self.contacts(), rolls);
        (p.player.stats.kills - self.player.stats.kills) as nat
    }

    /// The session after an attack on every contact, with the exchange of
    /// the same index for each. After the pass the defeated contacts are
    /// gone, the combat quest is triggered once for each kill, and then
    /// the lines of the pass are written.
    pub open spec fn attacked(self, rolls: Seq<Exchange>) -> GameView {
        let p = pass_over(self.player, self.current_net, self.contacts(), rolls);
        self.pass_made(rolls).quest_triggered_times(
            QuestID::CombatVictory,
            self.kills_made(rolls),
        ).printed_all(p.lines)
    }

    /// Whether the counters have room for the attack.
    pub open spec fn attack_fits(self, rolls: Seq<Exchange>) -> bool {
        &&& pass_fits(self.player, self.current_net, self.contacts(), rolls)
        &&& self.pass_made(rolls).quest_fits_times(QuestID::CombatVictory, self.kills_made(rolls))
    }

    /// The session after the player launched a hack. In combat, with RAM
    /// for it, the RAM is paid, every contact is attacked, and a turn
    /// passes; short of RAM, a line says so. Outside combat nothing
    /// happens.
    pub open spec fn hack_launched(self, rolls: Seq<Exchange>) -> GameView {
        if !self.in_combat() {
            self
        } else if self.player.ram.value >= ATTACK_COST {
            self.ram_paid(ATTACK_COST as int).attacked(rolls).turn_passed()
        } else {
            self.printed(need_ram_line(ATTACK_COST as int))
        }
    }

    /// The session with `cost` taken from the RAM.
    pub open spec fn ram_paid(self, cost: int) -> GameView {
        GameView {
            player: PlayerView { ram: self.player.ram.changed(-cost), ..self.player },
            ..self
        }
    }

    /// Whether the counters have room for launching a hack.
    pub open spec fn hack_fits(self, rolls: Seq<Exchange>) -> bool {
        self.in_combat() && self.player.ram.value >= ATTACK_COST ==> {
            &&& self.turn < i32::MAX
            &&& self.ram_paid(ATTACK_COST as int).attack_fits(rolls)
        }
    }

    /// The buffs with one more turn of overclocking.
    pub open spec fn overclock_added(self) -> Map<BuffType, u32> {
        self.player.buffs.insert(
            BuffType::Overclock,
            if self.player.buffs.contains_key(BuffType::Overclock) {
                (self.player.buffs[BuffType::Overclock] + 1) as u32
            } else {
                1
            },
        )
    }

    /// The session after the overclock ability: a line in the log, and one
    /// turn of the overclock buff.
    pub open spec fn overclock_applied(self) -> GameView {
        GameView {
            player: PlayerView { buffs: self.overclock_added(), ..self.player },
            ..self.printed(overclock_line())
        }
    }

    /// Whether the overclock buff can take one more turn.
    pub open spec fn overclock_fits(self) -> bool {
        self.player.buffs.contains_key(BuffType::Overclock) ==> self.player.buffs[BuffType::Overclock]
            < u32::MAX
    }

    /// The session after the player asked to overclock. In combat, with
    /// RAM for it, the RAM is paid and the ability applies; short of RAM,
    /// a line says so. Outside combat nothing happens.
    pub open spec fn overclocked(self) -> GameView {
        if !self.in_combat() {
            self
        } else if self.player.ram.value >= OVERCLOCK_COST {
            self.ram_paid(OVERCLOCK_COST as int).overclock_applied()
        } else {
            self.printed(need_ram_line(OVERCLOCK_COST as int))
        }
    }

    /// The session after the player escaped from combat: free roaming, a
    /// line in the log, and intel lost on the current network. Outside
    /// combat nothing happens.
    pub open spec fn escaped(self) -> GameView {
        if !self.in_combat() {
            self
        } else {
            GameView {
                activity: ActivityView::FreeRoam,
                player: PlayerView {
                    net_stats: self.player.net_stats.with_intel(
                        self.current_net,
                        -(ESCAPE_INTEL * INTEL_UNIT),
                    ),
                    ..self.player
                },
                ..self.printed(escape_line())
            }
        }
    }

    /// Whether the counters have room for an escape.
    pub open spec fn escape_fits(self) -> bool {
        self.in_combat() ==> self.player.net_stats.spec_get(self.current_net).total_intel
            - ESCAPE_INTEL * INTEL_UNIT >= i64::MIN
    }

    /// The session after `kind` was bought, if it can be: in the shop, an
    /// upgrade that the player has, that is on sale, and that the credits
    /// pay for. The credits go down by the price and the upgrade takes
    /// effect. Otherwise nothing happens.
    pub open spec fn bought(self, kind: PlayerUpgradeType) -> GameView {
        if self.can_buy(kind) {
            let i = upgrade_index(self.player.upgrades, kind)->0;
            GameView {
                player: PlayerView {
                    credits: self.player.credits - self.player.upgrades[i].spec_cost(),
                    ..self.player
                },
                ..self
            }.upgraded(kind).printed(bought_line(kind))
        } else {
            self
        }
    }

    /// Whether `kind` can be bought now.
    pub open spec fn can_buy(self, kind: PlayerUpgradeType) -> bool {
        &&& self.activity is Interacting
        &&& upgrade_index(self.player.upgrades, kind) matches Some(i)
        &&& self.player.upgrades[i].available
        &&& self.player.credits >= self.player.upgrades[i].spec_cost()
    }

    /// The session after the upgrade `kind` took effect: its level is one
    /// higher, and `HPMaxUp` raises the health and its limit by
    /// `HP_UPGRADE` each. No effect is laid down for `SecurityUp`, which
    /// changes the level only. Nothing changes if the player has no such
    /// upgrade.
    pub open spec fn upgraded(self, kind: PlayerUpgradeType) -> GameView {
        match upgrade_index(self.player.upgrades, kind) {
            Some(i) => {
                let up = self.player.upgrades[i];
                let raised = PlayerUpgrade { level: (up.level + 1) as u32, ..up };
                GameView {
                    player: PlayerView {
                        upgrades: self.player.upgrades.update(i, raised),
                        hp: match kind {
                            PlayerUpgradeType::HPMaxUp => CappedValue {
                                upper_limit: (self.player.hp.upper_limit + HP_UPGRADE) as i32,
                                value: (self.player.hp.value + HP_UPGRADE) as i32,
                                ..self.player.hp
                            },
                            PlayerUpgradeType::SecurityUp => self.player.hp,
                        },
                        ..self.player
                    },
                    ..self
                }
            },
            None => self,
        }
    }

    /// Whether the counters have room for the effect of `kind`.
    pub open spec fn upgrade_fits(self, kind: PlayerUpgradeType) -> bool {
        upgrade_index(self.player.upgrades, kind) matches Some(i) ==> {
            &&& self.player.upgrades[i].level < u32::MAX
            &&& kind == PlayerUpgradeType::HPMaxUp ==> {
                &&& self.player.hp.upper_limit + HP_UPGRADE <= i32::MAX
                &&& self.player.hp.value + HP_UPGRADE <= i32::MAX
            }
        }
    }

    /// The session after the player asked to enter the shop: from free
    /// roaming, once the shop is known, the player is in the shop.
    /// Otherwise nothing happens.
    pub open spec fn shop_visited(self) -> GameView {
        if self.activity is FreeRoam && self.player.flags.contains(
            PlayerFlag::DiscoveredShopBasic,
        ) {
            self.shop_entered()
        } else {
            self
        }
    }

    /// The session after the player left the shop: free roaming, and the
    /// shop is known from now on. Outside a shop nothing happens.
    pub open spec fn shop_left(self) -> GameView {
        if self.activity is Interacting {
            GameView {
                activity: ActivityView::FreeRoam,
                player: PlayerView {
                    flags: self.player.flags.insert(PlayerFlag::DiscoveredShopBasic),
                    ..self.player
                },
                ..self
            }
        } else {
            self
        }
    }

    /// The session after the conversation moved on: at its last line the
    /// conversation ends and the player roams again; before that, the
    /// next line becomes the current one. Outside a conversation nothing
    /// happens.
    pub open spec fn conversation_advanced(self) -> GameView {
        match self.activity {
            ActivityView::Conversing(c) => {
                if c.at_end() {
                    GameView { activity: ActivityView::FreeRoam, ..self }
                } else {
                    GameView {
                        activity: ActivityView::Conversing(
                            ConversationView { index: c.index + 1, ..c },
                        ),
                        ..self
                    }
                }
            },
            _ => self,
        }
    }

    /// The session after `elapsed_millis` of wall-clock time: the intel
    /// on the current network has grown by one unit per second.
    pub open spec fn time_passed(self, elapsed_millis: int) -> GameView {
        GameView {
            player: PlayerView {
                net_stats: self.player.net_stats.with_intel(self.current_net, elapsed_millis),
                ..self.player
            },
            ..self
        }
    }

    /// The session after the chosen task was done with the given draws.
    /// Tasks are done from free roaming only; elsewhere nothing happens.
    pub open spec fn task_done(
        self,
        shop_roll: int,
        roll: int,
        skill_roll: int,
        name: Seq<char>,
        amount: int,
    ) -> GameView {
        if !(self.activity is FreeRoam) {
            self
        } else {
            match self.current_task {
                Tasks::Search => self.searched(shop_roll, roll),
                Tasks::Datamine => self.datamined(roll, skill_roll, name),
                Tasks::Recover => self.recovered(amount),
            }
        }
    }

    /// Whether the counters have room for the chosen task, whatever is
    /// drawn.
    pub open spec fn task_fits(self) -> bool {
        self.activity is FreeRoam ==> match self.current_task {
            Tasks::Search => forall|shop_roll: int, roll: int|
                is_roll(shop_roll) && is_roll(roll) ==> #[trigger] self.search_fits(
                    shop_roll,
                    roll,
                ),
            Tasks::Datamine => forall|roll: int| is_roll(roll) ==> #[trigger] self.datamine_fits(roll),
            Tasks::Recover => self.recover_fits(),
        }
    }

    /// The skill points that the player has not spent.
    pub open spec fn points_left(self) -> int {
        BASE_SKILL_POINTS - (self.player.skills.hacking + self.player.skills.firewall)
    }

    /// Whether a point can be moved now: skills are edited while roaming
    /// only; a point can always be taken back, and can be spent while
    /// there is one left.
    pub open spec fn can_move_point(self, raise: bool) -> bool {
        self.activity is FreeRoam && (raise ==> self.points_left() > 0)
    }

    /// The session after a point was spent on `kind` (or taken back from
    /// it), if that can be done now.
    pub open spec fn point_moved(self, kind: SkillKind, raise: bool) -> GameView {
        if self.can_move_point(raise) {
            let step: int = if raise { 1 } else { -1 };
            GameView {
                player: PlayerView {
                    skills: match kind {
                        SkillKind::Hacking => Skills {
                            hacking: (self.player.skills.hacking + step) as i32,
                            ..self.player.skills
                        },
                        SkillKind::Firewall => Skills {
                            firewall: (self.player.skills.firewall + step) as i32,
                            ..self.player.skills
                        },
                    },
                    ..self.player
                },
                ..self
            }
        } else {
            self
        }
    }

    /// The score of `kind`.
    pub open spec fn score(self, kind: SkillKind) -> int {
        match kind {
            SkillKind::Hacking => self.player.skills.hacking as int,
            SkillKind::Firewall => self.player.skills.firewall as int,
        }
    }

    /// Whether `net` can be chosen now: networks are changed while roaming
    /// only, and SIPRnet must have been unlocked.
    pub open spec fn can_select(self, net: Networks) -> bool {
        &&& self.activity is FreeRoam
        &&& net == Networks::SIPRnet ==> self.player.flags.contains(PlayerFlag::UnlockedNetworkSIPR)
    }

    /// Whether the experience has room for what triggering the quest `id`
    /// may pay.
    pub open spec fn quest_fits(self, id: QuestID) -> bool {
        match quest_index(self.player.quests, id) {
            Some(i) => {
                let quest = self.player.quests[i];
                let stepped = quest.incremented();
                let QuestReward::XP(amount) = stepped.reward;
                !quest.spec_is_finished() && stepped.spec_is_finished() ==> i32::MIN
                    <= self.player.xp + amount <= i32::MAX
            },
            None => true,
        }
    }
}

impl Default for NetrunnerGame {
    /// A new session: a new player who roams the internet, with datamining
    /// as the chosen task, at turn one, and two lines of welcome in the
    /// log.
    fn default() -> (r: Self)
        ensures
            default_names().contains(r.player.name@),
            r@ == new_game(r.player.name@),
    {
        let mut terminal_lines: Vec<String> = Vec::new();
        terminal_lines.push("welcome to cybergame".to_owned());
        terminal_lines.push("strap in, choomba".to_owned());
        let r = NetrunnerGame {
            player: Player::default(),
            terminal_lines,
            activity: Activity::FreeRoam,
            current_net: Networks::Internet,
            current_task: Tasks::Datamine,
            turn: 1,
        };
        proof {
            assert(r@.log =~= seq!["welcome to cybergame"@, "strap in, choomba"@]);
        }
        r
    }
}

impl NetrunnerGame {
    /// Adds a line to the log.
    pub fn terminal_print(&mut self, line: &str)
        ensures
            final(self)@ == old(self)@.printed(line@),
            final(self).activity == old(self).activity,
            final(self).player == old(self).player,
    {
        self.terminal_lines.push(line.to_owned());
        proof {
            assert(self@.log =~= old(self)@.log.push(line@));
        }
    }

    /// A turn passes: the turn counter moves on and the buffs age.
    pub fn do_turn(&mut self)
        requires
            old(self).turn < i32::MAX,
        ensures
            final(self)@ == old(self)@.turn_passed(),
            final(self).activity == old(self).activity,
    {
        self.turn = self.turn + 1;
        self.player.buffs.do_turn();
    }

    /// Reports progress on the quest `quest_id`. The reward of a quest is
    /// paid by the step that finishes it, and by no other.
    pub fn trigger_quest(&mut self, quest_id: QuestID)
        requires
            old(self)@.quest_fits(quest_id),
        ensures
            final(self)@ == old(self)@.quest_triggered(quest_id),
            final(self).activity == old(self).activity,
    {
        match self.player.find_quest(quest_id) {
            Some(i) => {
                let mut quest = self.player.quests[i];
                if quest.is_finished() {
                    return ;
                }
                quest.increment();
                self.player.quests.set(i, quest);
                if quest.is_finished() {
                    match quest.reward {
                        QuestReward::XP(amount) => {
                            self.player.add_xp(amount);
                            let gained = write_xp_line(amount);
                            self.terminal_print(gained.as_str());
                        },
                    }
                    let done = write_quest_done_line(quest_id);
                    self.terminal_print(done.as_str());
                }
            },
            None => {},
        }
    }

    /// Takes the player into the shop.
    pub fn go_shopping(&mut self)
        ensures
            final(self)@ == old(self)@.shop_entered(),
    {
        self.activity = Activity::Interacting(InteractionType::BasicShop);
        let line = write_shop_line(self.current_net);
        self.terminal_print(line.as_str());
    }

    /// Recovers `amount` of RAM, unless the RAM is full already.
    pub fn recover_with(&mut self, amount: i64)
        requires
            old(self)@.recover_fits(),
        ensures
            final(self)@ == old(self)@.recovered(amount as int),
            final(self).activity == old(self).activity,
    {
        if self.player.ram.upper_limit == self.player.ram.value {
            self.terminal_print("You are already at maximum RAM");
            return ;
        }
        self.do_turn();
        self.player.ram.shift(amount);
        let line = write_recover_line(amount);
        self.terminal_print(line.as_str());
    }

    /// The recovery task: recovers a random amount of RAM, at least
    /// `RECOVER_LOW` and below `RECOVER_HIGH`, unless the RAM is full
    /// already.
    pub fn do_task_recovery(&mut self)
        requires
            old(self)@.recover_fits(),
        ensures
            exists|amount: int|
                RECOVER_LOW <= amount < RECOVER_HIGH && final(self)@ == old(self)@.recovered(
                    amount,
                ),
            final(self).activity == old(self).activity,
    {
        if self.player.ram.upper_limit == self.player.ram.value {
            self.recover_with(RECOVER_LOW);
            proof {
                assert(self@ == old(self)@.recovered(RECOVER_LOW as int));
            }
        } else {
            let amount = uniform_draw(RECOVER_LOW, RECOVER_HIGH);
            self.recover_with(amount);
            proof {
                assert(self@ == old(self)@.recovered(amount as int));
            }
        }
    }

    /// The search task with rolls already made: `shop_roll` decides
    /// whether the shop is found, `roll` whether the search succeeds and
    /// what it brings.
    pub fn search_with(&mut self, shop_roll: i64, roll: i64)
        requires
            is_roll(roll as int),
            old(self)@.search_fits(shop_roll as int, roll as int),
        ensures
            final(self)@ == old(self)@.searched(shop_roll as int, roll as int),
    {
        self.do_turn();
        let difficulty = self.current_net.difficulty();
        match self.current_net {
            Networks::Internet => {
                if !self.player.has_flag(&PlayerFlag::DiscoveredShopBasic) && self.player.credits
                    < SHOP_THRESHOLD {
                    if encounter_succeeds(shop_roll, ROLL_SCALE - SHOP_CHANCE) {
                        self.terminal_print(
                            "You stumble across some sort of virtual server for secure transations.",
                        );
                        self.go_shopping();
                        return ;
                    }
                }
            },
            Networks::SIPRnet => {},
        }
        if encounter_succeeds(roll, ROLL_SCALE - SEARCH_SUCCESS) {
            self.player.stats.search_success = self.player.stats.search_success + 1;
            let reward_amount = earnings(roll, difficulty, SEARCH_RATE);
            self.player.credits = self.player.credits + reward_amount as i32;
            let line = write_search_line(reward_amount);
            self.terminal_print(line.as_str());
        } else {
            let reward_amount = earnings(roll, 1, REGENERATE_RATE) + difficulty;
            self.player.ram.shift(reward_amount);
            let line = write_regenerate_line(reward_amount);
            self.terminal_print(line.as_str());
        }
    }

    /// The search task: a turn passes; then the shop is found, or the
    /// search succeeds and pays credits, or it fails and gives some RAM
    /// back. Which of these, and how much, is rolled.
    pub fn do_task_search(&mut self)
        requires
            forall|shop_roll: int, roll: int|
                is_roll(shop_roll) && is_roll(roll) ==> #[trigger] old(self)@.search_fits(
                    shop_roll,
                    roll,
                ),
        ensures
            exists|shop_roll: int, roll: int|
                is_roll(shop_roll) && is_roll(roll) && final(self)@ == #[trigger] old(self)@.searched(shop_roll, roll),
    {
        let roll_success = roll();
        let shop_roll = roll();
        proof {
            assert(old(self)@.search_fits(shop_roll as int, roll_success as int));
        }
        self.search_with(shop_roll, roll_success);
    }

    /// The datamine task with rolls already made: `roll` decides whether
    /// the datamine succeeds and what it pays; `skill_roll` and `name`
    /// make the contact that a failure runs into.
    pub fn datamine_with(&mut self, roll: i64, skill_roll: i64, name: String)
        requires
            is_roll(roll as int),
            is_roll(skill_roll as int),
            old(self)@.datamine_fits(roll as int),
        ensures
            final(self)@ == old(self)@.datamined(roll as int, skill_roll as int, name@),
    {
        self.do_turn();
        let difficulty = self.current_net.difficulty();
        if encounter_succeeds(roll, ROLL_SCALE - DATAMINE_SUCCESS) {
            self.player.stats.datamine_success = self.player.stats.datamine_success + 1;
            let reward_amount = earnings(roll, difficulty, DATAMINE_RATE);
            self.player.credits = self.player.credits + reward_amount as i32;
            self.player.net_stats.add_intel(self.current_net, DATAMINE_INTEL * INTEL_UNIT);
            let line = write_datamine_line(reward_amount);
            self.terminal_print(line.as_str());
            self.trigger_quest(QuestID::DatamineSuccess);
        } else {
            let new_contact = Contact::from_roll(difficulty as i32, skill_roll, name);
            let line = write_malware_line(new_contact.name.as_str());
            self.terminal_print(line.as_str());
            let mut contacts: Vec<Contact> = Vec::new();
            contacts.push(new_contact);
            proof {
                assert(contact_views(contacts@) =~= seq![
                    generated_contact(
                        old(self)@.current_net.spec_difficulty() as int,
                        skill_roll as int,
                        name@,
                    ),
                ]);
            }
            self.activity = Activity::Combat(contacts);
        }
    }

    /// The datamine task: a turn passes; then the datamine succeeds, pays
    /// credits and intel and counts for the datamining quest, or it fails
    /// and combat with a new hostile contact begins. Which of these, how
    /// much, and who the contact is, is rolled.
    pub fn do_task_datamine(&mut self)
        requires
            forall|roll: int| is_roll(roll) ==> #[trigger] old(self)@.datamine_fits(roll),
        ensures
            exists|roll: int, skill_roll: int, name: Seq<char>|
                is_roll(roll) && is_roll(skill_roll) && hostile_names().contains(name) && final(self)@ == #[trigger] old(self)@.datamined(roll, skill_roll, name),
    {
        let roll_success = roll();
        let skill_roll = roll();
        let name = random_hostile_name();
        let ghost chosen = name@;
        proof {
            assert(old(self)@.datamine_fits(roll_success as int));
        }
        self.datamine_with(roll_success, skill_roll, name);
        proof {
            assert(self@ == old(self)@.datamined(roll_success as int, skill_roll as int, chosen));
        }
    }

    /// A copy of the contacts that the player is in combat with; none
    /// outside combat.
    pub fn contacts(&self) -> (r: Vec<Contact>)
        ensures
            contact_views(r@) == self@.contacts(),
            self.activity matches Activity::Combat(contacts) ==> r@ == contacts@,
    {
        let mut r: Vec<Contact> = Vec::new();
        match &self.activity {
            Activity::Combat(contacts) => {
                let mut i: usize = 0;
                while i < contacts.len()
                    invariant
                        i <= contacts@.len(),
                        r@ == contacts@.take(i as int),
                    decreases contacts@.len() - i,
                {
                    r.push(contacts[i].duplicate());
                    proof {
                        assert(r@ =~= contacts@.take(i + 1));
                    }
                    i = i + 1;
                }
                proof {
                    assert(r@ =~= contacts@);
                }
            },
            _ => {
                proof {
                    assert(contact_views(r@) =~= Seq::<ContactView>::empty());
                }
            },
        }
        r
    }

    /// Attacks every contact, with the draws of `rolls`: the exchange of
    /// the same index for each contact.
    pub fn attack_with(&mut self, rolls: &Vec<Exchange>)
        requires
            old(self)@.in_combat(),
            rolls_possible(old(self).player.skills, old(self)@.contacts(), rolls@),
            old(self)@.attack_fits(rolls@),
        ensures
            final(self)@ == old(self)@.attacked(rolls@),
            final(self).turn == old(self).turn,
    {
        let contacts = self.contacts();
        let ghost start = self@;
        let ghost views = start.contacts();
        let net = self.current_net;
        let mut survivors: Vec<Contact> = Vec::new();
        let mut print_lines: Vec<String> = Vec::new();
        let mut dead: usize = 0;
        let mut i: usize = 0;
        proof {
            assert(contact_views(survivors@) =~= Seq::<ContactView>::empty());
            assert(line_views(print_lines@) =~= Seq::<Seq<char>>::empty());
            assert(views.take(0) =~= Seq::<ContactView>::empty());
        }
        while i < contacts.len()
            invariant
                i <= contacts@.len(),
                contact_views(contacts@) == views,
                rolls@.len() == views.len(),
                rolls_possible(start.player.skills, views, rolls@),
                pass_fits(start.player, net, views, rolls@),
                self.activity == old(self).activity,
                self.terminal_lines == old(self).terminal_lines,
                self.current_net == net,
                self.current_task == old(self).current_task,
                self.turn == old(self).turn,
                start == old(self)@,
                dead <= i,
                dead == self.player.stats.kills - start.player.stats.kills,
                (Pass {
                    player: self.player@,
                    survivors: contact_views(survivors@),
                    lines: line_views(print_lines@),
                }) == pass_over(start.player, net, views.take(i as int), rolls@.take(i as int)),
            decreases contacts@.len() - i,
        {
            let ghost before = pass_over(
                start.player,
                net,
                views.take(i as int),
                rolls@.take(i as int),
            );
            proof {
                lemma_pass_fits_prefix(start.player, net, views, rolls@, i + 1);
                assert(views.take(i + 1).drop_last() =~= views.take(i as int));
                assert(rolls@.take(i + 1).drop_last() =~= rolls@.take(i as int));
                assert(views.take(i + 1).last() == contacts@[i as int]@);
                assert(rolls@.take(i + 1).last() == rolls@[i as int]);
                assert(exchange_possible(start.player.skills, views[i as int], rolls@[i as int]));
                assert(step_fits(before, net, views[i as int], rolls@[i as int]));
            }
            let x = rolls[i];
            let mut contact = contacts[i].duplicate();
            proof {
                lemma_range_bounds(start.player.skills.hacking, contact.skills.firewall);
                lemma_range_bounds(contact.skills.hacking, start.player.skills.firewall);
            }
            let buff_dmg = self.player.buffs.wide_buff_dmg(x.damage);
            let dealt = write_deal_line(x.damage, buff_dmg, contact.name.as_str());
            print_lines.push(dealt);
            assert(-0x300_0000_0000 <= x.damage + buff_dmg <= 0x300_0000_0000) by {
                let tenths = damage_tenths(self.player@.buffs);
                assert(-2 <= tenths <= 11);
                assert(buff_dmg == (x.damage * tenths + 9) / 10);
                assert(-2 * 0x4_0000_0000 <= x.damage * tenths <= 11 * 0x4_0000_0000)
                    by (nonlinear_arith)
                    requires
                        0 <= x.damage <= 0x4_0000_0000,
                        -2 <= tenths <= 11,
                ;
            }
            contact.hp.shift(-(x.damage + buff_dmg));
            if contact.hp.value <= 0 {
                print_lines.push("You are victorious!".to_owned());
                dead = dead + 1;
                self.player.stats.kills = self.player.stats.kills + 1;
                let reward = contact.reward();
                self.player.xp = (self.player.xp as i64 + reward) as i32;
                self.player.net_stats.add_intel(net, KILL_INTEL * INTEL_UNIT);
            } else {
                self.player.hp.shift(-x.counter);
                let taken = write_take_line(x.counter, contact.name.as_str());
                print_lines.push(taken);
                survivors.push(contact);
            }
            proof {
                let after = pass_step(before, net, views[i as int], rolls@[i as int]);
                assert(pass_over(start.player, net, views.take(i + 1), rolls@.take(i + 1))
                    == after);
                assert(line_views(print_lines@) =~= after.lines);
                assert(contact_views(survivors@) =~= after.survivors);
                assert(self.player@ == after.player);
            }
            i = i + 1;
        }
        proof {
            assert(views.take(i as int) =~= views);
            assert(rolls@.take(i as int) =~= rolls@);
        }
        let ghost pass = pass_over(start.player, net, views, rolls@);
        if survivors.len() == 0 {
            self.activity = Activity::FreeRoam;
        } else {
            self.activity = Activity::Combat(survivors);
        }
        let ghost mid = self@;
        proof {
            assert(mid == start.pass_made(rolls@));
            assert(dead == start.kills_made(rolls@));
        }
        let mut j: usize = 0;
        while j < dead
            invariant
                j <= dead,
                mid.quest_fits_times(QuestID::CombatVictory, dead as nat),
                self@ == mid.quest_triggered_times(QuestID::CombatVictory, j as nat),
                self.turn == old(self).turn,
            decreases dead - j,
        {
            proof {
                lemma_quest_fits_prefix(mid, QuestID::CombatVictory, dead as nat, (j + 1) as nat);
            }
            self.trigger_quest(QuestID::CombatVictory);
            j = j + 1;
        }
        let ghost told = self@;
        let mut k: usize = 0;
        while k < print_lines.len()
            invariant
                k <= print_lines@.len(),
                self@ == told.printed_all(line_views(print_lines@).take(k as int)),
                self.turn == old(self).turn,
            decreases print_lines@.len() - k,
        {
            self.terminal_print(print_lines[k].as_str());
            proof {
                assert(told.log + line_views(print_lines@).take(k as int + 1) =~= (told.log
                    + line_views(print_lines@).take(k as int)).push(print_lines@[k as int]@));
            }
            k = k + 1;
        }
        proof {
            assert(line_views(print_lines@).take(k as int) =~= line_views(print_lines@));
        }
    }

    /// Draws one exchange for each contact: the damage of the player's hit
    /// and the damage of the contact's hit back, each from the range that
    /// the skills give.
    pub fn draw_exchanges(&self) -> (r: Vec<Exchange>)
        ensures
            rolls_possible(self.player.skills, self@.contacts(), r@),
    {
        let contacts = self.contacts();
        let ghost views = self@.contacts();
        let mut rolls: Vec<Exchange> = Vec::new();
        let mut i: usize = 0;
        while i < contacts.len()
            invariant
                i <= contacts@.len(),
                contact_views(contacts@) == views,
                rolls@.len() == i,
                forall|j: int|
                    0 <= j < i ==> exchange_possible(
                        self.player.skills,
                        views[j],
                        #[trigger] rolls@[j],
                    ),
            decreases contacts@.len() - i,
        {
            let to_hostile = damage_range(self.player.skills.hacking, contacts[i].skills.firewall);
            let damage = uniform_draw(to_hostile.0, to_hostile.1);
            let to_player = damage_range(contacts[i].skills.hacking, self.player.skills.firewall);
            let counter = uniform_draw(to_player.0, to_player.1);
            proof {
                assert(views[i as int] == contacts@[i as int]@);
            }
            rolls.push(Exchange { damage, counter });
            i = i + 1;
        }
        rolls
    }

    /// Attacks every contact. The player hits each for a damage drawn
    /// from the range that the skills give, plus the bonus of the buffs;
    /// a contact that survives hits back. Defeated contacts are removed,
    /// and combat ends when none is left.
    pub fn combat_attack(&mut self)
        requires
            old(self)@.in_combat(),
            forall|rolls: Seq<Exchange>|
                rolls_possible(old(self).player.skills, old(self)@.contacts(), rolls)
                    ==> #[trigger] old(self)@.attack_fits(rolls),
        ensures
            exists|rolls: Seq<Exchange>|
                rolls_possible(old(self).player.skills, old(self)@.contacts(), rolls) && final(self)@ == #[trigger] old(self)@.attacked(rolls),
            final(self).turn == old(self).turn,
    {
        let rolls = self.draw_exchanges();
        proof {
            assert(old(self)@.attack_fits(rolls@));
        }
        self.attack_with(&rolls);
    }

    /// Launches a hack with draws already made.
    pub fn launch_hack_with(&mut self, rolls: &Vec<Exchange>)
        requires
            old(self)@.in_combat() ==> rolls_possible(
                old(self).player.skills,
                old(self)@.contacts(),
                rolls@,
            ),
            old(self)@.hack_fits(rolls@),
        ensures
            final(self)@ == old(self)@.hack_launched(rolls@),
    {
        if !self.is_in_combat() {
            return ;
        }
        if self.player.ram.value >= ATTACK_COST {
            self.player.ram.change_by(-ATTACK_COST);
            self.attack_with(rolls);
            self.do_turn();
        } else {
            let line = write_need_ram_line(ATTACK_COST);
            self.terminal_print(line.as_str());
        }
    }

    /// Launches a hack: in combat, with RAM for it, the RAM is paid, every
    /// contact is attacked, and a turn passes; short of RAM, a line says
    /// so. Outside combat nothing happens.
    pub fn launch_hack(&mut self)
        requires
            forall|rolls: Seq<Exchange>|
                rolls_possible(old(self).player.skills, old(self)@.contacts(), rolls)
                    ==> #[trigger] old(self)@.hack_fits(rolls),
        ensures
            exists|rolls: Seq<Exchange>|
                rolls_possible(old(self).player.skills, old(self)@.contacts(), rolls) && final(self)@ == #[trigger] old(self)@.hack_launched(rolls),
    {
        let rolls = self.draw_exchanges();
        proof {
            assert(old(self)@.hack_fits(rolls@));
        }
        self.launch_hack_with(&rolls);
    }

    /// Whether the player is in combat.
    pub fn is_in_combat(&self) -> (r: bool)
        ensures
            r == self@.in_combat(),
    {
        match &self.activity {
            Activity::Combat(_) => true,
            _ => false,
        }
    }

    /// The overclock ability: a line in the log, and one turn of the
    /// overclock buff, which adds to the bonus of the next hit.
    pub fn ability_overclock(&mut self)
        requires
            old(self)@.overclock_fits(),
        ensures
            final(self)@ == old(self)@.overclock_applied(),
            final(self).activity == old(self).activity,
    {
        self.terminal_print("You overclock your systems, empowering your next attack.");
        self.player.buffs.add_buff(BuffType::Overclock, 1);
    }

    /// Overclocks: in combat, with RAM for it, the RAM is paid and the
    /// ability applies; short of RAM, a line says so. Outside combat
    /// nothing happens.
    pub fn overclock(&mut self)
        requires
            old(self)@.overclock_fits(),
        ensures
            final(self)@ == old(self)@.overclocked(),
    {
        if !self.is_in_combat() {
            return ;
        }
        if self.player.ram.value >= OVERCLOCK_COST {
            self.player.ram.change_by(-OVERCLOCK_COST);
            self.ability_overclock();
        } else {
            let line = write_need_ram_line(OVERCLOCK_COST);
            self.terminal_print(line.as_str());
        }
    }

    /// Escapes from combat: the player roams again, and pays for the
    /// flight with intel on the current network. Outside combat nothing
    /// happens.
    pub fn escape_combat(&mut self)
        requires
            old(self)@.escape_fits(),
        ensures
            final(self)@ == old(self)@.escaped(),
    {
        if !self.is_in_combat() {
            return ;
        }
        self.activity = Activity::FreeRoam;
        self.terminal_print("You escape from combat.");
        self.player.net_stats.add_intel(self.current_net, -(ESCAPE_INTEL * INTEL_UNIT));
    }

    /// The effect of one more level of `upgrade`.
    pub fn do_upgrade_effect(&mut self, upgrade: &PlayerUpgradeType)
        requires
            old(self)@.upgrade_fits(*upgrade),
        ensures
            final(self)@ == old(self)@.upgraded(*upgrade),
            final(self).activity == old(self).activity,
    {
        match self.player.find_upgrade(*upgrade) {
            Some(i) => {
                let mut up = self.player.upgrades[i];
                up.level = up.level + 1;
                self.player.upgrades.set(i, up);
                match upgrade {
                    PlayerUpgradeType::HPMaxUp => {
                        self.player.hp.upper_limit = self.player.hp.upper_limit + HP_UPGRADE;
                        self.player.hp.value = self.player.hp.value + HP_UPGRADE;
                    },
                    PlayerUpgradeType::SecurityUp => {},
                }
            },
            None => {},
        }
    }

    /// Buys one level of `kind`, if the player is in the shop, has such an
    /// upgrade on sale, and has the credits for it. Says whether the
    /// purchase was made.
    pub fn buy_upgrade(&mut self, kind: PlayerUpgradeType) -> (r: bool)
        requires
            old(self)@.can_buy(kind) ==> old(self)@.upgrade_fits(kind),
        ensures
            r == old(self)@.can_buy(kind),
            final(self)@ == old(self)@.bought(kind),
    {
        let in_shop = match &self.activity {
            Activity::Interacting(_) => true,
            _ => false,
        };
        if !in_shop {
            return false;
        }
        match self.player.find_upgrade(kind) {
            Some(i) => {
                let up = self.player.upgrades[i];
                assert(0 <= up.level * up.cost_per_level <= 0xffff_ffff * 0xffff_ffff)
                    by (nonlinear_arith)
                    requires
                        0 <= up.level <= 0xffff_ffff,
                        0 <= up.cost_per_level <= 0xffff_ffff,
                ;
                let cost: u64 = up.base_cost as u64 + (up.level as u64) * (up.cost_per_level as u64);
                if up.available && self.player.credits >= 0 && (self.player.credits as u64)
                    >= cost {
                    self.player.credits = self.player.credits - cost as i32;
                    self.do_upgrade_effect(&kind);
                    let line = write_bought_line(kind);
                    self.terminal_print(line.as_str());
                    true
                } else {
                    false
                }
            },
            None => false,
        }
    }

    /// Enters the shop from free roaming, once the shop is known.
    pub fn enter_shop(&mut self)
        ensures
            final(self)@ == old(self)@.shop_visited(),
    {
        let roaming = match &self.activity {
            Activity::FreeRoam => true,
            _ => false,
        };
        if roaming && self.player.has_flag(&PlayerFlag::DiscoveredShopBasic) {
            self.go_shopping();
        }
    }

    /// Leaves the shop: the player roams again, and knows the shop from
    /// now on.
    pub fn exit_shop(&mut self)
        ensures
            final(self)@ == old(self)@.shop_left(),
    {
        let in_shop = match &self.activity {
            Activity::Interacting(_) => true,
            _ => false,
        };
        if in_shop {
            self.activity = Activity::FreeRoam;
            self.player.enable_flag(PlayerFlag::DiscoveredShopBasic);
        }
    }

    /// Moves the conversation on: at its last line the conversation ends
    /// and the player roams again; before that, the next line becomes the
    /// current one. Outside a conversation nothing happens.
    pub fn advance_conversation(&mut self)
        ensures
            final(self)@ == old(self)@.conversation_advanced(),
    {
        let finished = match &self.activity {
            Activity::Conversing(convo) => Some(convo.done()),
            _ => None,
        };
        match finished {
            Some(true) => {
                self.activity = Activity::FreeRoam;
            },
            Some(false) => {
                match &mut self.activity {
                    Activity::Conversing(convo) => {
                        convo.next_line();
                    },
                    _ => {},
                }
            },
            None => {},
        }
    }

    /// Spends a skill point on `kind`, or takes one back from it. Skills
    /// are edited while roaming only; a point can always be taken back, and
    /// can be spent while one is left. Says whether the point was moved.
    pub fn move_skill_point(&mut self, kind: SkillKind, raise: bool) -> (r: bool)
        requires
            old(self)@.can_move_point(raise) ==> i32::MIN < old(self)@.score(kind) < i32::MAX,
        ensures
            r == old(self)@.can_move_point(raise),
            final(self)@ == old(self)@.point_moved(kind, raise),
    {
        let roaming = match &self.activity {
            Activity::FreeRoam => true,
            _ => false,
        };
        let left: i64 = BASE_SKILL_POINTS as i64 - (self.player.skills.hacking as i64
            + self.player.skills.firewall as i64);
        if !roaming || (raise && left <= 0) {
            return false;
        }
        let step: i32 = if raise { 1 } else { -1 };
        match kind {
            SkillKind::Hacking => {
                self.player.skills.hacking = self.player.skills.hacking + step;
            },
            SkillKind::Firewall => {
                self.player.skills.firewall = self.player.skills.firewall + step;
            },
        }
        true
    }

    /// Chooses the network to browse. Networks are changed while roaming
    /// only, and SIPRnet must have been unlocked. Says whether the choice
    /// was taken.
    pub fn select_network(&mut self, net: Networks) -> (r: bool)
        ensures
            r == old(self)@.can_select(net),
            final(self)@ == if r {
                GameView { current_net: net, ..old(self)@ }
            } else {
                old(self)@
            },
    {
        let roaming = match &self.activity {
            Activity::FreeRoam => true,
            _ => false,
        };
        let open = match net {
            Networks::Internet => true,
            Networks::SIPRnet => self.player.has_flag(&PlayerFlag::UnlockedNetworkSIPR),
        };
        if roaming && open {
            self.current_net = net;
            true
        } else {
            false
        }
    }

    /// Chooses the task to do next. Tasks are chosen while roaming only.
    /// Says whether the choice was taken.
    pub fn select_task(&mut self, task: Tasks) -> (r: bool)
        ensures
            r == (old(self)@.activity is FreeRoam),
            final(self)@ == if r {
                GameView { current_task: task, ..old(self)@ }
            } else {
                old(self)@
            },
    {
        let roaming = match &self.activity {
            Activity::FreeRoam => true,
            _ => false,
        };
        if roaming {
            self.current_task = task;
        }
        roaming
    }

    /// Adds the intel that `elapsed_millis` of wall-clock time bring on
    /// the current network: one unit per second.
    pub fn accrue_intel(&mut self, elapsed_millis: u32)
        requires
            old(self).player.net_stats.spec_get(old(self).current_net).total_intel
                + elapsed_millis <= i64::MAX,
        ensures
            final(self)@ == old(self)@.time_passed(elapsed_millis as int),
    {
        self.player.net_stats.add_intel(self.current_net, elapsed_millis as i64);
    }

    /// Does the chosen task. Tasks are done from free roaming only;
    /// elsewhere nothing happens.
    pub fn do_task(&mut self)
        requires
            old(self)@.task_fits(),
        ensures
            exists|shop_roll: int, roll: int, skill_roll: int, name: Seq<char>, amount: int|
                is_roll(shop_roll) && is_roll(roll) && is_roll(skill_roll)
                    && hostile_names().contains(name) && RECOVER_LOW <= amount < RECOVER_HIGH
                    && final(self)@ == #[trigger] old(self)@.task_done(
                    shop_roll,
                    roll,
                    skill_roll,
                    name,
                    amount,
                ),
    {
        let roaming = match &self.activity {
            Activity::FreeRoam => true,
            _ => false,
        };
        let ghost some_name = hostile_names()[0];
        proof {
            assert(hostile_names().contains(some_name));
        }
        if !roaming {
            proof {
                assert(self@ == old(self)@.task_done(0, 0, 0, some_name, RECOVER_LOW as int));
            }
            return ;
        }
        match self.current_task {
            Tasks::Search => {
                self.do_task_search();
                proof {
                    let (a, b) = choose|a: int, b: int|
                        is_roll(a) && is_roll(b) && self@ == #[trigger] old(self)@.searched(a, b);
                    assert(self@ == old(self)@.task_done(a, b, 0, some_name, RECOVER_LOW as int));
                }
            },
            Tasks::Datamine => {
                self.do_task_datamine();
                proof {
                    let (a, b, n) = choose|a: int, b: int, n: Seq<char>|
                        is_roll(a) && is_roll(b) && hostile_names().contains(n) && self@
                            == #[trigger] old(self)@.datamined(a, b, n);
                    assert(self@ == old(self)@.task_done(0, a, b, n, RECOVER_LOW as int));
                }
            },
            Tasks::Recover => {
                self.do_task_recovery();
                proof {
                    let m = choose|m: int|
                        RECOVER_LOW <= m < RECOVER_HIGH && self@ == old(self)@.recovered(m);
                    assert(self@ == old(self)@.task_done(0, 0, 0, some_name, m));
                }
            },
        }
    }
}

/// Replacing the quest found for `id` by another quest of the same id
/// leaves it the quest found for `id`.
pub proof fn lemma_quest_index_kept(quests: Seq<Quest>, id: QuestID, i: int, quest: Quest)
    requires
        quest_index(quests, id) == Some(i),
        quest.quest_id == id,
    ensures
        0 <= i < quests.len(),
        quest_index(quests.update(i, quest), id) == Some(i),
{
    let found = choose|c: int| is_first_quest(quests, id, c);
    assert(is_first_quest(quests, id, found));
    let after = quests.update(i, quest);
    assert(is_first_quest(after, id, i)) by {
        assert forall|j: int| 0 <= j < i implies (#[trigger] after[j]).quest_id != id by {
            assert(quests[j].quest_id != id);
        }
    }
    lemma_quest_found(after, id, i);
}

/// A finished quest is deaf to further triggers: the session stays as it
/// is, with the same experience and the same log.
pub proof fn lemma_finished_quest_ignores_triggers(v: GameView, id: QuestID, n: nat)
    requires
        quest_index(v.player.quests, id) matches Some(i) && v.player.quests[i].spec_is_finished(),
    ensures
        v.quest_triggered_times(id, n) == v,
    decreases n,
{
    if n > 0 {
        lemma_finished_quest_ignores_triggers(v, id, (n - 1) as nat);
    }
}

/// The reward of a quest is paid once. If a trigger leaves the quest
/// finished (because it finished it, or because it was finished before),
/// then any number of further triggers changes nothing: no second reward,
/// no second line in the log, no further progress.
pub proof fn lemma_quest_pays_once(v: GameView, id: QuestID, n: nat)
    requires
        quest_index(v.player.quests, id) matches Some(i) && v.player.quests[i].incremented().spec_is_finished(),
    ensures
        v.quest_triggered(id).quest_triggered_times(id, n) == v.quest_triggered(id),
        v.quest_triggered(id).player.xp == v.quest_triggered_times(id, n + 1).player.xp,
        v.quest_triggered(id).log == v.quest_triggered_times(id, n + 1).log,
{
    let i = quest_index(v.player.quests, id)->0;
    let quest = v.player.quests[i];
    let w = v.quest_triggered(id);
    lemma_quest_index_kept(v.player.quests, id, i, quest.incremented());
    if quest.spec_is_finished() {
        assert(w == v);
    } else {
        assert(w.player.quests == v.player.quests.update(i, quest.incremented()));
    }
    assert(quest_index(w.player.quests, id) == Some(i));
    assert(w.player.quests[i].spec_is_finished());
    lemma_finished_quest_ignores_triggers(w, id, n);
    lemma_triggers_compose(v, id, n);
}

/// Triggering a quest once and then `n` times is triggering it `n + 1`
/// times.
pub proof fn lemma_triggers_compose(v: GameView, id: QuestID, n: nat)
    ensures
        v.quest_triggered(id).quest_triggered_times(id, n) == v.quest_triggered_times(id, n + 1),
    decreases n,
{
    if n == 0 {
        assert(v.quest_triggered_times(id, 1) == v.quest_triggered_times(id, 0).quest_triggered(
            id,
        ));
    } else {
        lemma_triggers_compose(v, id, (n - 1) as nat);
    }
}

/// Triggering a quest `n` times fits only if triggering it fewer times
/// does.
pub proof fn lemma_quest_fits_prefix(v: GameView, id: QuestID, n: nat, k: nat)
    requires
        k <= n,
        v.quest_fits_times(id, n),
    ensures
        v.quest_fits_times(id, k),
    decreases n - k,
{
    if k < n {
        lemma_quest_fits_prefix(v, id, n, k + 1);
    }
}

} // verus!

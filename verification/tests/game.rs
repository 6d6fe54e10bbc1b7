use cybergame::buffs::BuffType;
use cybergame::combat::{damage_range, Exchange};
use cybergame::conversation::Conversation;
use cybergame::game::{earnings, Activity, InteractionType, NetrunnerGame, Tasks};
use cybergame::pieces::{CappedValue, Contact, Disposition, Networks, Skills};
use cybergame::player::{PlayerFlag, PlayerUpgradeType, SkillKind};
use cybergame::quests::QuestID;

fn hostile(name: &str, hp: i32, hacking: i32, firewall: i32) -> Contact {
    Contact {
        name: name.to_string(),
        hp: CappedValue::new_health(hp),
        skills: Skills { hacking, firewall },
        disposition: Disposition::Hostile,
    }
}

fn in_combat_with(contacts: Vec<Contact>) -> NetrunnerGame {
    let mut g = NetrunnerGame::default();
    g.activity = Activity::Combat(contacts);
    g
}

fn contacts_of(g: &NetrunnerGame) -> Vec<(String, i32)> {
    match &g.activity {
        Activity::Combat(contacts) => {
            contacts.iter().map(|c| (c.name.clone(), c.hp.value)).collect()
        }
        _ => Vec::new(),
    }
}

fn new_lines(g: &NetrunnerGame, from: usize) -> Vec<String> {
    g.terminal_lines[from..].to_vec()
}

#[test]
fn a_new_session() {
    let g = NetrunnerGame::default();
    assert_eq!(g.terminal_lines, vec!["welcome to cybergame", "strap in, choomba"]);
    assert!(matches!(g.activity, Activity::FreeRoam));
    assert_eq!(g.current_net, Networks::Internet);
    assert_eq!(g.current_task, Tasks::Datamine);
    assert_eq!(g.turn, 1);
    assert_eq!(g.player.credits, 0);
}

#[test]
fn what_a_roll_earns() {
    assert_eq!(earnings(0, 1, 65), 0);
    assert_eq!(earnings(1, 1, 65), 1);
    assert_eq!(earnings(500_000, 1, 65), 4);
    assert_eq!(earnings(500_000, 3, 65), 10);
    assert_eq!(earnings(999_999, 3, 145), 44);
    assert_eq!(earnings(400_001, 1, 145), 6);
    assert_eq!(earnings(200_000, 1, 75), 2);
    assert_eq!(earnings(800_000, 1, 75), 6);
}

#[test]
fn a_search_that_succeeds_pays_credits() {
    let mut g = NetrunnerGame::default();
    g.search_with(0, 500_000);
    assert_eq!(g.turn, 2);
    assert_eq!(g.player.credits, 4);
    assert_eq!(g.player.stats.search_success, 1);
    assert_eq!(g.player.ram.value, 50);
    assert!(matches!(g.activity, Activity::FreeRoam));
    assert_eq!(
        new_lines(&g, 2),
        vec!["(0.8) You found some particularly interesting data worth 4 credits"]
    );
}

#[test]
fn a_search_pays_more_on_a_harder_network() {
    let mut g = NetrunnerGame::default();
    g.current_net = Networks::SIPRnet;
    g.search_with(0, 500_000);
    assert_eq!(g.player.credits, 10);
}

#[test]
fn a_search_succeeds_only_above_a_fifth() {
    let mut fails = NetrunnerGame::default();
    fails.search_with(0, 200_000);
    assert_eq!(fails.player.credits, 0);
    assert_eq!(fails.player.stats.search_success, 0);
    assert_eq!(fails.player.ram.value, 53);
    assert_eq!(
        new_lines(&fails, 2),
        vec!["(0.2) You don't find anything new, but regenerate 3 RAM"]
    );
    let mut succeeds = NetrunnerGame::default();
    succeeds.search_with(0, 200_001);
    assert_eq!(succeeds.player.credits, 2);
    assert_eq!(succeeds.player.stats.search_success, 1);
    assert_eq!(succeeds.player.ram.value, 50);
}

#[test]
fn a_fruitless_search_gives_more_ram_on_a_harder_network() {
    let mut g = NetrunnerGame::default();
    g.current_net = Networks::SIPRnet;
    g.search_with(0, 0);
    assert_eq!(g.player.ram.value, 53);
    let mut full = NetrunnerGame::default();
    full.player.ram = CappedValue::new_ram(99, 100);
    full.search_with(0, 100_000);
    assert_eq!(full.player.ram.value, 100);
}

#[test]
fn a_search_finds_the_shop_while_the_credits_are_short() {
    let mut g = NetrunnerGame::default();
    g.player.credits = 99;
    g.search_with(800_001, 999_999);
    assert!(matches!(g.activity, Activity::Interacting(InteractionType::BasicShop)));
    assert_eq!(g.player.credits, 99);
    assert_eq!(g.player.stats.search_success, 0);
    assert_eq!(g.player.ram.value, 50);
    assert_eq!(g.turn, 2);
    assert!(!g.player.has_flag(&PlayerFlag::DiscoveredShopBasic));
    assert_eq!(
        new_lines(&g, 2),
        vec![
            "You stumble across some sort of virtual server for secure transations.",
            "You see what's available for purchase on the internet.",
        ]
    );
}

#[test]
fn the_shop_is_found_by_a_roll_above_four_fifths_only() {
    let mut found = NetrunnerGame::default();
    found.search_with(800_001, 0);
    assert!(matches!(found.activity, Activity::Interacting(InteractionType::BasicShop)));

    let mut missed = NetrunnerGame::default();
    missed.search_with(800_000, 500_000);
    assert!(matches!(missed.activity, Activity::FreeRoam));
    assert_eq!(missed.player.credits, 4);
    assert_eq!(missed.player.stats.search_success, 1);
}

#[test]
fn a_search_does_not_find_the_shop_otherwise() {
    let mut rich = NetrunnerGame::default();
    rich.player.credits = 100;
    rich.search_with(999_999, 500_000);
    assert!(matches!(rich.activity, Activity::FreeRoam));
    assert_eq!(rich.player.credits, 104);

    let mut known = NetrunnerGame::default();
    known.player.enable_flag(PlayerFlag::DiscoveredShopBasic);
    known.search_with(999_999, 0);
    assert!(matches!(known.activity, Activity::FreeRoam));
    assert_eq!(known.player.ram.value, 51);

    let mut elsewhere = NetrunnerGame::default();
    elsewhere.current_net = Networks::SIPRnet;
    elsewhere.search_with(999_999, 0);
    assert!(matches!(elsewhere.activity, Activity::FreeRoam));
    assert_eq!(elsewhere.player.ram.value, 53);
}

#[test]
fn the_shop_is_found_about_once_in_five_searches() {
    let trials = 10_000;
    let mut found = 0;
    for _ in 0..trials {
        let mut g = NetrunnerGame::default();
        g.do_task_search();
        assert_eq!(g.turn, 2);
        if matches!(g.activity, Activity::Interacting(_)) {
            found += 1;
            assert_eq!(g.player.credits, 0);
            assert_eq!(g.player.ram.value, 50);
        }
    }
    let share = found as f64 / trials as f64;
    assert!((share - 0.2).abs() < 0.02, "share {}", share);
}

#[test]
fn a_datamine_that_succeeds_pays_credits_and_intel() {
    let mut g = NetrunnerGame::default();
    g.datamine_with(400_001, 0, "maniabot".to_string());
    assert_eq!(g.turn, 2);
    assert_eq!(g.player.credits, 6);
    assert_eq!(g.player.stats.datamine_success, 1);
    assert_eq!(g.player.net_stats.get(Networks::Internet).total_intel, 3000);
    assert_eq!(g.player.net_stats.get(Networks::SIPRnet).total_intel, 0);
    assert_eq!(g.player.quests[1].value, 1);
    assert_eq!(g.player.quests[0].value, 0);
    assert!(matches!(g.activity, Activity::FreeRoam));
    assert_eq!(
        new_lines(&g, 2),
        vec!["(0.6) You found some interesting data worth 6 credits"]
    );
}

#[test]
fn a_datamine_on_the_harder_network() {
    let mut g = NetrunnerGame::default();
    g.current_net = Networks::SIPRnet;
    g.datamine_with(999_999, 0, "maniabot".to_string());
    assert_eq!(g.player.credits, 44);
    assert_eq!(g.player.net_stats.get(Networks::SIPRnet).total_intel, 3000);
    assert_eq!(g.player.net_stats.get(Networks::Internet).total_intel, 0);
}

#[test]
fn a_datamine_that_fails_runs_into_a_contact() {
    let mut g = NetrunnerGame::default();
    g.datamine_with(400_000, 999_999, "SpamSpyder".to_string());
    assert_eq!(g.turn, 2);
    assert_eq!(g.player.credits, 0);
    assert_eq!(g.player.stats.datamine_success, 0);
    assert_eq!(g.player.quests[1].value, 0);
    match &g.activity {
        Activity::Combat(contacts) => {
            assert_eq!(contacts.len(), 1);
            assert_eq!(contacts[0].name, "SpamSpyder");
            assert_eq!(contacts[0].skills, Skills { hacking: 7, firewall: 3 });
            assert_eq!((contacts[0].hp.value, contacts[0].hp.upper_limit), (30, 30));
            assert_eq!(contacts[0].disposition, Disposition::Hostile);
        }
        _ => panic!("a failed datamine starts combat"),
    }
    assert_eq!(
        new_lines(&g, 2),
        vec!["(0.4) You run into a nasty piece of malware - SpamSpyder"]
    );
}

#[test]
fn a_failed_datamine_on_the_harder_network_meets_a_stronger_contact() {
    let mut g = NetrunnerGame::default();
    g.current_net = Networks::SIPRnet;
    g.datamine_with(0, 500_000, "maniabot".to_string());
    match &g.activity {
        Activity::Combat(contacts) => {
            assert_eq!(contacts[0].skills, Skills { hacking: 15, firewall: 15 });
            assert_eq!(contacts[0].hp.upper_limit, 40);
        }
        _ => panic!("a failed datamine starts combat"),
    }
}

#[test]
fn the_datamining_quest_pays_once() {
    let mut g = NetrunnerGame::default();
    for n in 1..=9 {
        g.datamine_with(999_999, 0, "maniabot".to_string());
        assert_eq!(g.player.quests[1].value, n);
        assert_eq!(g.player.xp, 0);
    }
    let before = g.terminal_lines.len();
    g.datamine_with(999_999, 0, "maniabot".to_string());
    assert_eq!(g.player.quests[1].value, 10);
    assert!(g.player.quests[1].is_finished());
    assert_eq!(g.player.xp, 100);
    assert_eq!(
        new_lines(&g, before),
        vec![
            "(0.6) You found some interesting data worth 15 credits",
            "You gained 100 XP.",
            "Successful in datamining, you finish a quest!",
        ]
    );
    let after = g.terminal_lines.len();
    g.datamine_with(999_999, 0, "maniabot".to_string());
    assert_eq!(g.player.quests[1].value, 10);
    assert_eq!(g.player.xp, 100);
    assert_eq!(
        new_lines(&g, after),
        vec!["(0.6) You found some interesting data worth 15 credits"]
    );
    assert_eq!(g.player.stats.datamine_success, 11);
}

#[test]
fn triggering_a_quest_pays_on_the_finishing_step_only() {
    let mut g = NetrunnerGame::default();
    for _ in 0..3 {
        g.trigger_quest(QuestID::CombatVictory);
    }
    assert_eq!(g.player.xp, 0);
    assert_eq!(g.terminal_lines.len(), 2);
    g.trigger_quest(QuestID::CombatVictory);
    assert_eq!(g.player.xp, 80);
    assert_eq!(
        new_lines(&g, 2),
        vec!["You gained 80 XP.", "Victorious in combat, you finish a quest!"]
    );
    for _ in 0..5 {
        g.trigger_quest(QuestID::CombatVictory);
    }
    assert_eq!(g.player.xp, 80);
    assert_eq!(g.player.quests[0].value, 4);
    assert_eq!(g.terminal_lines.len(), 4);
}

#[test]
fn triggering_a_quest_that_the_player_lacks_does_nothing() {
    let mut g = NetrunnerGame::default();
    g.player.quests.clear();
    g.trigger_quest(QuestID::CombatVictory);
    assert_eq!(g.player.xp, 0);
    assert_eq!(g.terminal_lines.len(), 2);
}

#[test]
fn recovering_brings_ram_and_takes_a_turn() {
    let mut g = NetrunnerGame::default();
    g.player.buffs.add_buff(BuffType::Overclock, 1);
    g.recover_with(12);
    assert_eq!(g.player.ram.value, 62);
    assert_eq!(g.turn, 2);
    assert_eq!(g.player.buffs.has_buff(BuffType::Overclock), None);
    assert_eq!(new_lines(&g, 2), vec!["You recover 12 RAM"]);
    g.recover_with(60);
    assert_eq!(g.player.ram.value, 100);
    assert_eq!(g.turn, 3);
}

#[test]
fn recovering_at_full_ram_does_nothing() {
    let mut g = NetrunnerGame::default();
    g.player.ram = CappedValue::new_ram(100, 100);
    g.player.buffs.add_buff(BuffType::Overclock, 1);
    g.recover_with(12);
    assert_eq!(g.player.ram.value, 100);
    assert_eq!(g.turn, 1);
    assert_eq!(g.player.buffs.has_buff(BuffType::Overclock), Some(1));
    assert_eq!(new_lines(&g, 2), vec!["You are already at maximum RAM"]);
}

#[test]
fn the_recovery_task_brings_six_to_seventeen() {
    let mut least = 100;
    let mut most = 0;
    for _ in 0..400 {
        let mut g = NetrunnerGame::default();
        g.player.ram = CappedValue::new_ram(0, 100);
        g.do_task_recovery();
        let got = g.player.ram.value;
        assert!(got >= 6 && got < 18);
        assert_eq!(g.turn, 2);
        least = least.min(got);
        most = most.max(got);
    }
    assert_eq!(least, 6);
    assert_eq!(most, 17);
}

#[test]
fn the_range_of_a_hit() {
    assert_eq!(damage_range(4, 4), (4, 14));
    assert_eq!(damage_range(4, 5), (3, 14));
    assert_eq!(damage_range(5, 4), (6, 18));
    assert_eq!(damage_range(0, 5), (0, 1));
    assert_eq!(damage_range(1, -10), (12, 13));
    assert_eq!(damage_range(1, -5), (7, 8));
    assert_eq!(damage_range(2, 9), (0, 4));
    assert_eq!(damage_range(-3, -3), (0, 1));
}

#[test]
fn an_exchange_with_a_contact_that_survives() {
    let mut g = in_combat_with(vec![hostile("maniabot", 30, 5, 5)]);
    g.attack_with(&vec![Exchange { damage: 10, counter: 7 }]);
    assert_eq!(contacts_of(&g), vec![("maniabot".to_string(), 20)]);
    assert_eq!(g.player.hp.value, 93);
    assert_eq!(g.player.stats.kills, 0);
    assert_eq!(g.player.xp, 0);
    assert_eq!(g.turn, 1);
    assert_eq!(
        new_lines(&g, 2),
        vec!["You deal 10 damage to maniabot.", "You take 7 damage from maniabot."]
    );
}

#[test]
fn an_exchange_with_a_contact_that_falls() {
    let mut g = in_combat_with(vec![hostile("maniabot", 10, 5, 5)]);
    g.attack_with(&vec![Exchange { damage: 10, counter: 7 }]);
    assert!(matches!(g.activity, Activity::FreeRoam));
    assert_eq!(g.player.hp.value, 100);
    assert_eq!(g.player.stats.kills, 1);
    assert_eq!(g.player.xp, 10);
    assert_eq!(g.player.net_stats.get(Networks::Internet).total_intel, 12_000);
    assert_eq!(g.player.quests[0].value, 1);
    assert_eq!(
        new_lines(&g, 2),
        vec!["You deal 10 damage to maniabot.", "You are victorious!"]
    );
}

#[test]
fn the_bonus_of_the_buffs_adds_to_the_hit() {
    let mut g = in_combat_with(vec![hostile("maniabot", 30, 5, 5)]);
    g.player.buffs.add_buff(BuffType::Overclock, 1);
    g.attack_with(&vec![Exchange { damage: 10, counter: 7 }]);
    assert_eq!(contacts_of(&g), vec![("maniabot".to_string(), 9)]);
    assert_eq!(
        new_lines(&g, 2),
        vec!["You deal 10 + 11 damage to maniabot.", "You take 7 damage from maniabot."]
    );
    let mut weak = in_combat_with(vec![hostile("maniabot", 30, 5, 5)]);
    weak.player.buffs.add_buff(BuffType::MalwareInjected, 1);
    weak.attack_with(&vec![Exchange { damage: 10, counter: 7 }]);
    assert_eq!(contacts_of(&weak), vec![("maniabot".to_string(), 22)]);
    assert_eq!(
        new_lines(&weak, 2),
        vec!["You deal 10 damage to maniabot.", "You take 7 damage from maniabot."]
    );
}

#[test]
fn the_dead_leave_and_the_living_stay_in_order() {
    let mut g = in_combat_with(vec![
        hostile("adware-imp", 30, 5, 5),
        hostile("maniabot", 5, 5, 5),
        hostile("SpamSpyder", 30, 6, 4),
        hostile("silent-strike", 4, 5, 5),
    ]);
    g.attack_with(&vec![
        Exchange { damage: 3, counter: 6 },
        Exchange { damage: 5, counter: 17 },
        Exchange { damage: 13, counter: 8 },
        Exchange { damage: 4, counter: 17 },
    ]);
    assert_eq!(
        contacts_of(&g),
        vec![("adware-imp".to_string(), 27), ("SpamSpyder".to_string(), 17)]
    );
    assert_eq!(g.player.hp.value, 86);
    assert_eq!(g.player.stats.kills, 2);
    assert_eq!(g.player.xp, 20);
    assert_eq!(g.player.net_stats.get(Networks::Internet).total_intel, 24_000);
    assert_eq!(g.player.quests[0].value, 2);
    assert_eq!(
        new_lines(&g, 2),
        vec![
            "You deal 3 damage to adware-imp.",
            "You take 6 damage from adware-imp.",
            "You deal 5 damage to maniabot.",
            "You are victorious!",
            "You deal 13 damage to SpamSpyder.",
            "You take 8 damage from SpamSpyder.",
            "You deal 4 damage to silent-strike.",
            "You are victorious!",
        ]
    );
}

#[test]
fn the_fourth_kill_finishes_the_combat_quest() {
    let mut g = in_combat_with(vec![
        hostile("a", 1, 5, 5),
        hostile("b", 1, 5, 5),
        hostile("c", 1, 5, 5),
        hostile("d", 1, 5, 5),
        hostile("e", 1, 5, 5),
    ]);
    let one = Exchange { damage: 3, counter: 6 };
    g.attack_with(&vec![one, one, one, one, one]);
    assert!(matches!(g.activity, Activity::FreeRoam));
    assert_eq!(g.player.stats.kills, 5);
    assert_eq!(g.player.quests[0].value, 4);
    assert_eq!(g.player.xp, 5 * 10 + 80);
    let lines = new_lines(&g, 2);
    assert_eq!(lines.len(), 12);
    assert_eq!(lines[0], "You gained 80 XP.");
    assert_eq!(lines[1], "Victorious in combat, you finish a quest!");
    assert_eq!(lines[2], "You deal 3 damage to a.");
    assert_eq!(lines[3], "You are victorious!");
    assert_eq!(lines[11], "You are victorious!");
}

#[test]
fn the_player_s_health_stops_at_zero() {
    let mut g = in_combat_with(vec![hostile("a", 100, 60, 0), hostile("b", 100, 60, 0)]);
    g.attack_with(&vec![
        Exchange { damage: 8, counter: 200 },
        Exchange { damage: 8, counter: 200 },
    ]);
    assert_eq!(g.player.hp.value, 0);
    assert!(g.player.hp.hit_zero());
    assert_eq!(contacts_of(&g), vec![("a".to_string(), 92), ("b".to_string(), 92)]);
}

#[test]
fn the_draws_of_an_attack_lie_in_their_ranges() {
    let g = in_combat_with(vec![hostile("a", 30, 5, 5), hostile("b", 30, 8, 2)]);
    let mut damages = std::collections::BTreeSet::new();
    for _ in 0..300 {
        let rolls = g.draw_exchanges();
        assert_eq!(rolls.len(), 2);
        assert!(rolls[0].damage >= 3 && rolls[0].damage < 14);
        assert!(rolls[0].counter >= 6 && rolls[0].counter < 18);
        assert!(rolls[1].damage >= 6 && rolls[1].damage < 15);
        assert!(rolls[1].counter >= 12 && rolls[1].counter < 30);
        damages.insert(rolls[0].damage);
    }
    assert!(damages.len() > 5);
    assert!(NetrunnerGame::default().draw_exchanges().is_empty());
}

#[test]
fn launching_a_hack_costs_ram_and_a_turn() {
    let mut g = in_combat_with(vec![hostile("maniabot", 30, 5, 5)]);
    g.player.buffs.add_buff(BuffType::Overclock, 1);
    g.launch_hack_with(&vec![Exchange { damage: 10, counter: 7 }]);
    assert_eq!(g.player.ram.value, 46);
    assert_eq!(g.turn, 2);
    assert_eq!(contacts_of(&g), vec![("maniabot".to_string(), 9)]);
    assert_eq!(g.player.buffs.has_buff(BuffType::Overclock), None);
    g.launch_hack_with(&vec![Exchange { damage: 3, counter: 6 }]);
    assert_eq!(contacts_of(&g), vec![("maniabot".to_string(), 6)]);
    assert_eq!(g.player.ram.value, 42);
    assert_eq!(g.turn, 3);
}

#[test]
fn launching_a_hack_without_ram_is_refused() {
    let mut g = in_combat_with(vec![hostile("maniabot", 30, 5, 5)]);
    g.player.ram = CappedValue::new_ram(3, 100);
    g.launch_hack_with(&vec![Exchange { damage: 10, counter: 7 }]);
    assert_eq!(g.player.ram.value, 3);
    assert_eq!(g.turn, 1);
    assert_eq!(g.player.hp.value, 100);
    assert_eq!(contacts_of(&g), vec![("maniabot".to_string(), 30)]);
    assert_eq!(new_lines(&g, 2), vec!["You need 4 RAM to use that ability."]);
    g.player.ram = CappedValue::new_ram(4, 100);
    g.launch_hack_with(&vec![Exchange { damage: 10, counter: 7 }]);
    assert_eq!(g.player.ram.value, 0);
    assert_eq!(contacts_of(&g), vec![("maniabot".to_string(), 20)]);
}

#[test]
fn launching_a_hack_outside_combat_does_nothing() {
    let mut g = NetrunnerGame::default();
    g.launch_hack_with(&Vec::new());
    g.launch_hack();
    assert_eq!(g.player.ram.value, 50);
    assert_eq!(g.turn, 1);
    assert_eq!(g.terminal_lines.len(), 2);
    assert!(matches!(g.activity, Activity::FreeRoam));
}

#[test]
fn combat_with_a_first_level_contact_ends_within_thirty_rounds() {
    for _ in 0..200 {
        let mut g = in_combat_with(vec![Contact::new_from_level(1)]);
        g.player.ram = CappedValue::new_ram(200, 200);
        let mut rounds = 0;
        while matches!(g.activity, Activity::Combat(_)) {
            let before = contacts_of(&g)[0].1;
            g.launch_hack();
            rounds += 1;
            assert!(rounds <= 30);
            if let Some((_, after)) = contacts_of(&g).first() {
                assert!(*after < before);
                assert_eq!(g.player.stats.kills, 0);
            }
        }
        assert_eq!(g.player.stats.kills, 1);
        assert_eq!(g.player.xp, 10);
        assert_eq!(g.player.quests[0].value, 1);
        assert_eq!(g.turn, 1 + rounds);
        assert_eq!(g.player.ram.value, 200 - 4 * rounds);
        g.launch_hack();
        assert_eq!(g.player.stats.kills, 1);
    }
}

#[test]
fn overclocking_costs_ram_and_empowers_the_next_hit() {
    let mut g = in_combat_with(vec![hostile("maniabot", 30, 5, 5)]);
    g.overclock();
    assert_eq!(g.player.ram.value, 40);
    assert_eq!(g.player.buffs.has_buff(BuffType::Overclock), Some(1));
    assert_eq!(g.turn, 1);
    assert_eq!(contacts_of(&g), vec![("maniabot".to_string(), 30)]);
    assert_eq!(
        new_lines(&g, 2),
        vec!["You overclock your systems, empowering your next attack."]
    );
    g.overclock();
    assert_eq!(g.player.buffs.has_buff(BuffType::Overclock), Some(2));
    assert_eq!(g.player.ram.value, 30);
}

#[test]
fn overclocking_without_ram_or_outside_combat_is_refused() {
    let mut g = in_combat_with(vec![hostile("maniabot", 30, 5, 5)]);
    g.player.ram = CappedValue::new_ram(9, 100);
    g.overclock();
    assert_eq!(g.player.ram.value, 9);
    assert_eq!(g.player.buffs.has_buff(BuffType::Overclock), None);
    assert_eq!(new_lines(&g, 2), vec!["You need 10 RAM to use that ability."]);
    let mut roaming = NetrunnerGame::default();
    roaming.overclock();
    assert_eq!(roaming.player.ram.value, 50);
    assert_eq!(roaming.player.buffs.has_buff(BuffType::Overclock), None);
    assert_eq!(roaming.terminal_lines.len(), 2);
}

#[test]
fn escaping_costs_intel() {
    let mut g = in_combat_with(vec![hostile("maniabot", 30, 5, 5)]);
    g.player.buffs.add_buff(BuffType::Overclock, 2);
    g.escape_combat();
    assert!(matches!(g.activity, Activity::FreeRoam));
    assert_eq!(g.player.net_stats.get(Networks::Internet).total_intel, -7000);
    assert_eq!(g.player.buffs.has_buff(BuffType::Overclock), Some(2));
    assert_eq!(new_lines(&g, 2), vec!["You escape from combat."]);
    g.escape_combat();
    assert_eq!(g.player.net_stats.get(Networks::Internet).total_intel, -7000);
    assert_eq!(g.terminal_lines.len(), 3);
}

#[test]
fn buying_an_upgrade_with_just_enough_credits() {
    let mut g = NetrunnerGame::default();
    g.player.credits = 100;
    g.go_shopping();
    let before = g.terminal_lines.len();
    assert!(g.buy_upgrade(PlayerUpgradeType::HPMaxUp));
    assert_eq!(g.player.credits, 0);
    assert_eq!(g.player.upgrades[0].level, 1);
    assert_eq!((g.player.hp.value, g.player.hp.upper_limit), (150, 150));
    assert_eq!(new_lines(&g, before), vec!["You bought HP Max +!"]);
    assert!(matches!(g.activity, Activity::Interacting(InteractionType::BasicShop)));
}

#[test]
fn an_upgrade_heals_what_it_adds() {
    let mut g = NetrunnerGame::default();
    g.player.credits = 400;
    g.player.hp.change_by(-40);
    g.go_shopping();
    assert!(g.buy_upgrade(PlayerUpgradeType::HPMaxUp));
    assert_eq!((g.player.hp.value, g.player.hp.upper_limit), (110, 150));
    assert_eq!(g.player.credits, 300);
    assert!(g.buy_upgrade(PlayerUpgradeType::HPMaxUp));
    assert_eq!((g.player.hp.value, g.player.hp.upper_limit), (160, 200));
    assert_eq!(g.player.credits, 150);
    assert_eq!(g.player.upgrades[0].level, 2);
    assert!(!g.buy_upgrade(PlayerUpgradeType::HPMaxUp));
    assert_eq!(g.player.credits, 150);
    assert_eq!(g.player.upgrades[0].level, 2);
}

#[test]
fn an_upgrade_is_not_sold_short_of_credits_locked_or_outside_the_shop() {
    let mut poor = NetrunnerGame::default();
    poor.player.credits = 99;
    poor.go_shopping();
    let before = poor.terminal_lines.len();
    assert!(!poor.buy_upgrade(PlayerUpgradeType::HPMaxUp));
    assert_eq!(poor.player.credits, 99);
    assert_eq!(poor.player.upgrades[0].level, 0);
    assert_eq!(poor.player.hp.upper_limit, 100);
    assert_eq!(poor.terminal_lines.len(), before);

    let mut locked = NetrunnerGame::default();
    locked.player.credits = 1000;
    locked.go_shopping();
    assert!(!locked.buy_upgrade(PlayerUpgradeType::SecurityUp));
    assert_eq!(locked.player.credits, 1000);
    assert_eq!(locked.player.upgrades[1].level, 0);

    let mut outside = NetrunnerGame::default();
    outside.player.credits = 1000;
    assert!(!outside.buy_upgrade(PlayerUpgradeType::HPMaxUp));
    assert_eq!(outside.player.credits, 1000);

    let mut in_debt = NetrunnerGame::default();
    in_debt.player.credits = -5;
    in_debt.player.upgrades[0].base_cost = 0;
    in_debt.go_shopping();
    assert!(!in_debt.buy_upgrade(PlayerUpgradeType::HPMaxUp));
}

#[test]
fn the_shop_is_known_after_leaving_it() {
    let mut g = NetrunnerGame::default();
    g.enter_shop();
    assert!(matches!(g.activity, Activity::FreeRoam));
    g.go_shopping();
    assert!(matches!(g.activity, Activity::Interacting(InteractionType::BasicShop)));
    assert!(!g.player.has_flag(&PlayerFlag::DiscoveredShopBasic));
    g.exit_shop();
    assert!(matches!(g.activity, Activity::FreeRoam));
    assert!(g.player.has_flag(&PlayerFlag::DiscoveredShopBasic));
    g.exit_shop();
    assert_eq!(g.player.flags.len(), 1);
    let before = g.terminal_lines.len();
    g.enter_shop();
    assert!(matches!(g.activity, Activity::Interacting(InteractionType::BasicShop)));
    assert_eq!(
        new_lines(&g, before),
        vec!["You see what's available for purchase on the internet."]
    );
}

#[test]
fn the_shop_is_not_entered_from_combat() {
    let mut g = in_combat_with(vec![hostile("maniabot", 30, 5, 5)]);
    g.player.enable_flag(PlayerFlag::DiscoveredShopBasic);
    g.enter_shop();
    assert!(matches!(g.activity, Activity::Combat(_)));
    g.exit_shop();
    assert!(matches!(g.activity, Activity::Combat(_)));
}

#[test]
fn a_conversation_moves_on_and_ends() {
    let mut g = NetrunnerGame::default();
    g.activity = Activity::Conversing(Conversation::new());
    g.advance_conversation();
    match &g.activity {
        Activity::Conversing(c) => {
            assert_eq!(c.show_line(), "World");
            assert!(c.done());
        }
        _ => panic!("the conversation has a second line"),
    }
    g.advance_conversation();
    assert!(matches!(g.activity, Activity::FreeRoam));
    g.advance_conversation();
    assert!(matches!(g.activity, Activity::FreeRoam));
}

#[test]
fn time_brings_intel_on_the_current_network() {
    let mut g = NetrunnerGame::default();
    g.accrue_intel(200);
    g.accrue_intel(1300);
    assert_eq!(g.player.net_stats.get(Networks::Internet).total_intel, 1500);
    g.current_net = Networks::SIPRnet;
    g.accrue_intel(40);
    assert_eq!(g.player.net_stats.get(Networks::SIPRnet).total_intel, 40);
    assert_eq!(g.player.net_stats.get(Networks::Internet).total_intel, 1500);
    assert_eq!(g.turn, 1);
}

#[test]
fn tasks_are_done_from_free_roaming_only() {
    let mut g = in_combat_with(vec![hostile("maniabot", 30, 5, 5)]);
    for task in [Tasks::Search, Tasks::Datamine, Tasks::Recover] {
        g.current_task = task;
        g.do_task();
        assert_eq!(g.turn, 1);
        assert_eq!(g.terminal_lines.len(), 2);
        assert_eq!(contacts_of(&g), vec![("maniabot".to_string(), 30)]);
    }
}

#[test]
fn the_chosen_task_is_the_one_done() {
    for _ in 0..200 {
        let mut s = NetrunnerGame::default();
        s.current_task = Tasks::Search;
        s.do_task();
        assert_eq!(s.turn, 2);
        match &s.activity {
            Activity::Interacting(InteractionType::BasicShop) => {
                assert_eq!(s.player.credits, 0);
                assert_eq!(s.player.stats.search_success, 0);
                assert_eq!(s.player.ram.value, 50);
            }
            Activity::FreeRoam => {
                assert!(
                    (s.player.stats.search_success == 1
                        && s.player.credits >= 2
                        && s.player.credits <= 7)
                        || (s.player.credits == 0
                            && s.player.ram.value >= 51
                            && s.player.ram.value <= 53)
                );
            }
            _ => panic!("a search ends roaming or in the shop"),
        }

        let mut d = NetrunnerGame::default();
        d.do_task();
        assert_eq!(d.turn, 2);
        match &d.activity {
            Activity::Combat(contacts) => {
                assert_eq!(contacts.len(), 1);
                assert_eq!(contacts[0].skills.total_points(), 10);
                assert_eq!(d.player.credits, 0);
            }
            Activity::FreeRoam => {
                assert_eq!(d.player.stats.datamine_success, 1);
                assert!(d.player.credits >= 6 && d.player.credits <= 15);
            }
            _ => panic!("a datamine ends roaming or in combat"),
        }

        let mut r = NetrunnerGame::default();
        r.current_task = Tasks::Recover;
        r.do_task();
        assert!(r.player.ram.value >= 56 && r.player.ram.value < 68);
    }
}

#[test]
fn a_turn_moves_the_counter_and_ages_the_buffs() {
    let mut g = NetrunnerGame::default();
    g.player.buffs.add_buff(BuffType::MalwareInjected, 2);
    g.do_turn();
    assert_eq!(g.turn, 2);
    assert_eq!(g.player.buffs.has_buff(BuffType::MalwareInjected), Some(1));
    g.do_turn();
    assert_eq!(g.turn, 3);
    assert_eq!(g.player.buffs.has_buff(BuffType::MalwareInjected), None);
}

#[test]
fn skill_points_are_spent_while_any_is_left() {
    let mut g = NetrunnerGame::default();
    assert!(g.move_skill_point(SkillKind::Hacking, true));
    assert!(g.move_skill_point(SkillKind::Firewall, true));
    assert_eq!(g.player.skills, Skills { hacking: 5, firewall: 5 });
    assert!(!g.move_skill_point(SkillKind::Hacking, true));
    assert_eq!(g.player.skills, Skills { hacking: 5, firewall: 5 });
    assert!(g.move_skill_point(SkillKind::Firewall, false));
    assert_eq!(g.player.skills, Skills { hacking: 5, firewall: 4 });
    assert!(g.move_skill_point(SkillKind::Hacking, true));
    assert_eq!(g.player.skills, Skills { hacking: 6, firewall: 4 });
}

#[test]
fn a_skill_can_be_lowered_below_zero() {
    let mut g = NetrunnerGame::default();
    for _ in 0..6 {
        assert!(g.move_skill_point(SkillKind::Firewall, false));
    }
    assert_eq!(g.player.skills, Skills { hacking: 4, firewall: -2 });
}

#[test]
fn skills_are_not_edited_in_combat() {
    let mut g = in_combat_with(vec![hostile("maniabot", 30, 5, 5)]);
    assert!(!g.move_skill_point(SkillKind::Hacking, true));
    assert!(!g.move_skill_point(SkillKind::Hacking, false));
    assert_eq!(g.player.skills, Skills { hacking: 4, firewall: 4 });
}

#[test]
fn the_classified_network_must_be_unlocked() {
    let mut g = NetrunnerGame::default();
    assert!(!g.select_network(Networks::SIPRnet));
    assert_eq!(g.current_net, Networks::Internet);
    g.player.enable_flag(PlayerFlag::UnlockedNetworkSIPR);
    assert!(g.select_network(Networks::SIPRnet));
    assert_eq!(g.current_net, Networks::SIPRnet);
    assert!(g.select_network(Networks::Internet));
    assert_eq!(g.current_net, Networks::Internet);
    g.activity = Activity::Combat(vec![hostile("maniabot", 30, 5, 5)]);
    assert!(!g.select_network(Networks::SIPRnet));
    assert_eq!(g.current_net, Networks::Internet);
}

#[test]
fn a_task_is_chosen_while_roaming() {
    let mut g = NetrunnerGame::default();
    assert!(g.select_task(Tasks::Recover));
    assert_eq!(g.current_task, Tasks::Recover);
    g.go_shopping();
    assert!(!g.select_task(Tasks::Search));
    assert_eq!(g.current_task, Tasks::Recover);
    assert_eq!(Tasks::Search.description(), "+ Credits, ???");
    assert_eq!(Tasks::Datamine.description(), "High risk, ++ Credits");
    assert_eq!(Tasks::Recover.description(), "Low risk, ++ RAM");
}

#[test]
fn the_log_only_grows() {
    let mut g = NetrunnerGame::default();
    g.terminal_print("first");
    g.search_with(0, 500_000);
    g.terminal_print("last");
    assert_eq!(g.terminal_lines.len(), 5);
    assert_eq!(g.terminal_lines[0], "welcome to cybergame");
    assert_eq!(g.terminal_lines[2], "first");
    assert_eq!(g.terminal_lines[4], "last");
}

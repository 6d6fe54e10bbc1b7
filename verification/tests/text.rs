use cybergame::lines::{
    write_bought_line, write_datamine_line, write_deal_line, write_malware_line,
    write_need_ram_line, write_quest_done_line, write_recover_line, write_regenerate_line,
    write_search_line, write_shop_line, write_take_line, write_xp_line,
};
use cybergame::pieces::Networks;
use cybergame::player::PlayerUpgradeType;
use cybergame::quests::QuestID;
use cybergame::text::{decimal_string, signed_decimal_string};

#[test]
fn decimal_of_small_and_large_numbers() {
    assert_eq!(decimal_string(0), "0");
    assert_eq!(decimal_string(7), "7");
    assert_eq!(decimal_string(10), "10");
    assert_eq!(decimal_string(1203), "1203");
    assert_eq!(decimal_string(u64::MAX), "18446744073709551615");
}

#[test]
fn decimal_agrees_with_the_standard_library() {
    for n in 0u64..2000 {
        assert_eq!(decimal_string(n), format!("{}", n));
    }
}

#[test]
fn signed_decimal_puts_a_minus_in_front() {
    assert_eq!(signed_decimal_string(0), "0");
    assert_eq!(signed_decimal_string(-1), "-1");
    assert_eq!(signed_decimal_string(42), "42");
    assert_eq!(signed_decimal_string(-120), "-120");
    assert_eq!(signed_decimal_string(i64::MAX), "9223372036854775807");
    assert_eq!(signed_decimal_string(i64::MIN), "-9223372036854775808");
}

#[test]
fn lines_of_combat() {
    assert_eq!(write_deal_line(7, 0, "maniabot"), "You deal 7 damage to maniabot.");
    assert_eq!(write_deal_line(7, 8, "maniabot"), "You deal 7 + 8 damage to maniabot.");
    assert_eq!(write_deal_line(7, -1, "maniabot"), "You deal 7 damage to maniabot.");
    assert_eq!(write_take_line(3, "adware-imp"), "You take 3 damage from adware-imp.");
    assert_eq!(write_need_ram_line(4), "You need 4 RAM to use that ability.");
}

#[test]
fn lines_of_quests() {
    assert_eq!(write_xp_line(80), "You gained 80 XP.");
    assert_eq!(
        write_quest_done_line(QuestID::CombatVictory),
        "Victorious in combat, you finish a quest!"
    );
    assert_eq!(
        write_quest_done_line(QuestID::DatamineSuccess),
        "Successful in datamining, you finish a quest!"
    );
}

#[test]
fn lines_of_tasks() {
    assert_eq!(write_recover_line(12), "You recover 12 RAM");
    assert_eq!(
        write_datamine_line(9),
        "(0.6) You found some interesting data worth 9 credits"
    );
    assert_eq!(
        write_malware_line("SpamSpyder"),
        "(0.4) You run into a nasty piece of malware - SpamSpyder"
    );
    assert_eq!(
        write_search_line(5),
        "(0.8) You found some particularly interesting data worth 5 credits"
    );
    assert_eq!(
        write_regenerate_line(4),
        "(0.2) You don't find anything new, but regenerate 4 RAM"
    );
}

#[test]
fn lines_of_the_shop() {
    assert_eq!(
        write_shop_line(Networks::Internet),
        "You see what's available for purchase on the internet."
    );
    assert_eq!(
        write_shop_line(Networks::SIPRnet),
        "You see what's available for purchase on SIPRnet."
    );
    assert_eq!(write_bought_line(PlayerUpgradeType::HPMaxUp), "You bought HP Max +!");
    assert_eq!(write_bought_line(PlayerUpgradeType::SecurityUp), "You bought Sec Max +!");
}

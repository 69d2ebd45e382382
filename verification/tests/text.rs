use blackjack::players::player::PlayerAction;
use blackjack::utils::text::{
    format_winnings, options_text, read_action_reply, read_bet_reply, read_insurance_reply,
    u64_to_decimal, ActionReply, BetReply, InsuranceReply,
};

#[test]
fn numbers_are_written_in_decimal() {
    assert_eq!(u64_to_decimal(0), "0");
    assert_eq!(u64_to_decimal(7), "7");
    assert_eq!(u64_to_decimal(1234567890), "1234567890");
    assert_eq!(format_winnings(30), "+30");
    assert_eq!(format_winnings(0), "+0");
    assert_eq!(format_winnings(-60), "-60");
    assert_eq!(format_winnings(i64::MIN), "-9223372036854775808");
    assert_eq!(options_text(), "10/50/100");
}

#[test]
fn bet_prompt_readings() {
    assert_eq!(read_bet_reply("q\n", 100), BetReply::Quit);
    assert_eq!(read_bet_reply("  QuIt ", 100), BetReply::Quit);
    assert_eq!(read_bet_reply("50\n", 100), BetReply::Bet(50));
    assert_eq!(read_bet_reply("+10", 100), BetReply::Bet(10));
    assert_eq!(read_bet_reply("010", 100), BetReply::Bet(10));
    assert_eq!(read_bet_reply("100", 60), BetReply::Unaffordable);
    assert_eq!(read_bet_reply("20", 100), BetReply::Invalid);
    assert_eq!(read_bet_reply("ten", 100), BetReply::Invalid);
    assert_eq!(read_bet_reply("", 100), BetReply::Invalid);
    assert_eq!(read_bet_reply("99999999999", 100), BetReply::Invalid);
    assert_eq!(read_bet_reply("-10", 100), BetReply::Invalid);
}

#[test]
fn insurance_prompt_readings() {
    assert_eq!(read_insurance_reply("y\n"), InsuranceReply::Buy);
    assert_eq!(read_insurance_reply("YES"), InsuranceReply::Buy);
    assert_eq!(read_insurance_reply(" no "), InsuranceReply::Decline);
    assert_eq!(read_insurance_reply("q"), InsuranceReply::Quit);
    assert_eq!(read_insurance_reply("maybe"), InsuranceReply::Invalid);
}

#[test]
fn action_prompt_readings() {
    assert_eq!(read_action_reply("h\n", true), ActionReply::Hit);
    assert_eq!(read_action_reply("Stand", false), ActionReply::Stand);
    assert_eq!(read_action_reply("r", true), ActionReply::Surrender);
    assert_eq!(read_action_reply("surrender", false), ActionReply::SurrenderRefused);
    assert_eq!(read_action_reply("quit", false), ActionReply::Quit);
    assert_eq!(read_action_reply("x", true), ActionReply::Invalid);
    let _ = PlayerAction::Hit;
}

use blackjack::models::card::{Card, Rank, Suit};
use blackjack::players::bot::BotPlayer;
use blackjack::players::dealer::Dealer;
use blackjack::players::human::HumanPlayer;
use blackjack::players::player::{Player, PlayerAction, PlayerType, BET_OPTIONS, MIN_BET};
use blackjack::models::deck::Deck;

fn c(rank: Rank) -> Card {
    Card::new(rank, Suit::Clubs)
}

#[test]
fn place_bet_checks_coins() {
    let mut p = Player::new("You", PlayerType::Human, 100);
    assert_eq!(p.place_bet(0), Err("the bet must be greater than zero".to_string()));
    assert_eq!(p.place_bet(150), Err("not enough coins: needs 150, has 100".to_string()));
    assert_eq!(p.coins, 100);
    assert_eq!(p.place_bet(50), Ok(()));
    assert_eq!(p.bet, 50);
    assert_eq!(p.coins, 50);
}

#[test]
fn insurance_costs_half_the_bet_and_pays_two_to_one() {
    let mut p = Player::new("You", PlayerType::Human, 100);
    assert_eq!(p.buy_insurance(), Err("insurance requires a placed bet".to_string()));
    p.place_bet(100).unwrap();
    assert_eq!(p.buy_insurance(), Err("not enough coins for insurance (needs 50)".to_string()));
    let mut q = Player::new("You", PlayerType::Human, 100);
    q.place_bet(50).unwrap();
    assert_eq!(q.buy_insurance(), Ok(()));
    assert_eq!(q.insurance_bet, 25);
    assert_eq!(q.coins, 25);
    assert!(q.has_insurance());
    q.win_insurance();
    assert_eq!(q.coins, 100);
    assert_eq!(q.insurance_bet, 0);
    q.lose_insurance();
    assert!(!q.has_insurance());
}

#[test]
fn payouts_and_points() {
    let mut p = Player::new("You", PlayerType::Human, 100);
    p.place_bet(10).unwrap();
    p.win_blackjack();
    assert_eq!(p.coins, 90 + 10 + 15);
    assert_eq!(p.points, 1);
    p.win();
    assert_eq!(p.coins, 115 + 20);
    assert_eq!(p.points, 2);
    p.push();
    assert_eq!(p.coins, 145);
    p.lose();
    assert_eq!(p.points, 1);
    p.surrender();
    assert!(p.has_surrendered);
    assert_eq!(p.coins, 150);
    assert_eq!(p.points, 0);
    p.subtract_point();
    assert_eq!(p.points, 0);
    p.add_prestige();
    assert_eq!(p.prestige, 1);
    p.reset_points();
    p.reset_coins(7);
    assert_eq!(p.coins, 7);
    p.clear_hand();
    assert_eq!(p.bet, 0);
    assert!(!p.has_surrendered);
    assert_eq!(p.prestige, 1);
}

#[test]
fn hand_description_of_a_player() {
    let mut p = Player::new("You", PlayerType::Human, 100);
    assert_eq!(p.get_hand_description(), "(no cards)");
    p.hand.add_card(Card::new(Rank::Ace, Suit::Spades));
    p.hand.add_card(Card::new(Rank::King, Suit::Hearts));
    assert_eq!(p.get_hand_description(), "A\u{2660}, K\u{2665} = 21");
}

#[test]
fn bots_match_or_go_all_in_or_sit_out() {
    let mut bot = BotPlayer::new(1);
    assert_eq!(bot.player.name, "Bot 1");
    assert_eq!(bot.match_bet(50), Some(50));
    assert_eq!(bot.player.coins, 50);
    let mut short = BotPlayer::new(2);
    short.player.coins = 30;
    assert_eq!(short.match_bet(100), Some(30));
    assert_eq!(short.player.coins, 0);
    assert_eq!(short.match_bet(10), None);
    assert!(!bot.wants_insurance());
}

#[test]
fn bot_strategy_decisions() {
    let mut bot = BotPlayer::new(1);
    let strong = c(Rank::Ten);
    let weak = c(Rank::Six);
    bot.player.hand.add_card(c(Rank::Ten));
    bot.player.hand.add_card(c(Rank::Six));
    assert_eq!(bot.decide_action(strong), PlayerAction::Surrender);
    assert_eq!(bot.decide_action(c(Rank::Seven)), PlayerAction::Hit);
    assert_eq!(bot.decide_action(weak), PlayerAction::Stand);
    bot.player.hand.clear();
    bot.player.hand.add_card(c(Rank::Ace));
    bot.player.hand.add_card(c(Rank::Six));
    assert_eq!(bot.decide_action(weak), PlayerAction::Hit);
    bot.player.hand.add_card(c(Rank::Ace));
    assert_eq!(bot.decide_action(weak), PlayerAction::Stand);
    bot.player.hand.clear();
    bot.player.hand.add_card(c(Rank::Five));
    bot.player.hand.add_card(c(Rank::Six));
    assert_eq!(bot.decide_action(strong), PlayerAction::Hit);
    bot.player.hand.clear();
    bot.player.hand.add_card(c(Rank::Ace));
    bot.player.hand.add_card(c(Rank::King));
    assert_eq!(bot.decide_action(strong), PlayerAction::Stand);
}

#[test]
fn dealer_draws_to_hard_seventeen() {
    let mut dealer = Dealer::new();
    assert_eq!(dealer.upcard(), None);
    dealer.player.hand.add_card(c(Rank::Ace));
    dealer.player.hand.add_card(c(Rank::Six));
    assert_eq!(dealer.upcard(), Some(c(Rank::Ace)));
    let mut deck = Deck::new();
    let drawn = dealer.play_turn(&mut deck);
    assert!(!drawn.is_empty());
    let value = dealer.player.hand.get_value();
    assert!(value >= 17);
    assert!(!(value == 17 && dealer.player.hand.is_soft()));
    assert_eq!(deck.remaining(), 52 - drawn.len());

    let mut stands = Dealer::default();
    stands.player.hand.add_card(c(Rank::Ten));
    stands.player.hand.add_card(c(Rank::Seven));
    assert!(stands.play_turn(&mut deck).is_empty());
}

#[test]
fn human_first_affordable_bet() {
    let mut human = HumanPlayer::new("Ann");
    assert_eq!(human.player.name, "Ann");
    assert_eq!(human.first_affordable_bet(), 10);
    human.player.coins = 5;
    assert_eq!(human.first_affordable_bet(), MIN_BET);
    assert_eq!(BET_OPTIONS, [10, 50, 100]);
}

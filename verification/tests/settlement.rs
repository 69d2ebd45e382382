use blackjack::game::round::{
    play_round, HandResult, InsuranceResult, RoundEvent, RoundInput, RoundPhase,
};
use blackjack::game::state::BlackjackGame;
use blackjack::models::card::{Card, Rank, Suit};
use blackjack::models::hand::Hand;
use blackjack::players::player::PlayerAction;

fn hand_of(ranks: &[Rank]) -> Hand {
    let mut hand = Hand::new();
    for rank in ranks {
        hand.add_card(Card::new(*rank, Suit::Diamonds));
    }
    hand
}

/// Starts a round, bets `bet`, and deals; returns the game ready to offer insurance.
fn dealt_game(bet: u32) -> BlackjackGame {
    let mut game = BlackjackGame::new("Ann");
    let (p, _) = play_round(&mut game, RoundPhase::Start, RoundInput::Proceed);
    let (p, _) = play_round(&mut game, p, RoundInput::Bet(Some(bet)));
    let (p, _) = play_round(&mut game, p, RoundInput::Proceed);
    assert_eq!(p, RoundPhase::OfferInsurance { coins_before: 100 });
    game
}

#[test]
fn dealer_natural_pays_insurance_and_pushes_naturals() {
    let mut game = dealt_game(50);
    game.dealer.player.hand = hand_of(&[Rank::Ace, Rank::King]);
    game.human.player.hand = hand_of(&[Rank::Ten, Rank::Nine]);
    game.bots[0].player.hand = hand_of(&[Rank::Ace, Rank::Queen]);
    game.bots[1].player.hand = hand_of(&[Rank::Five, Rank::Five]);
    let (p, event) = play_round(&mut game, RoundPhase::OfferInsurance { coins_before: 100 }, RoundInput::Proceed);
    assert!(matches!(event, RoundEvent::Insurance(_)));
    assert_eq!(p, RoundPhase::AwaitInsurance { coins_before: 100 });
    let (p, event) = play_round(&mut game, p, RoundInput::Insurance(Some(true)));
    assert!(matches!(event, RoundEvent::InsuranceBought));
    assert_eq!(game.human.player.insurance_bet, 25);
    assert_eq!(game.human.player.coins, 25);
    let (p, event) = play_round(&mut game, p, RoundInput::Proceed);
    assert_eq!(p, RoundPhase::Finish { coins_before: 100 });
    match event {
        RoundEvent::DealerBlackjack(report) => {
            assert_eq!(report.insurance, InsuranceResult::Won { payout: 75 });
            assert_eq!(report.human, HandResult::Loss);
            assert_eq!(report.bots[0], HandResult::Push);
            assert_eq!(report.bots[1], HandResult::Loss);
        }
        _ => panic!("expected the dealer's natural"),
    }
    // Insurance paid 75; the bet of 50 was lost: back to 100.
    assert_eq!(game.human.player.coins, 100);
    assert_eq!(game.bots[0].player.coins, 100);
    assert_eq!(game.bots[1].player.coins, 50);
    // Dealer: -50 insurance winnings, +50 human bet, +50 bot bet.
    assert_eq!(game.dealer.player.coins, 550);
    let (p, event) = play_round(&mut game, p, RoundInput::Proceed);
    assert!(matches!(event, RoundEvent::Finished { reset: false }));
    assert_eq!(p, RoundPhase::Done);
    assert_eq!(game.winnings, 0);
}

#[test]
fn normal_settlement_pays_each_hand() {
    let mut game = dealt_game(10);
    game.dealer.player.hand = hand_of(&[Rank::Ten, Rank::Eight]);
    game.human.player.hand = hand_of(&[Rank::Ten, Rank::Queen]);
    game.bots[0].player.hand = hand_of(&[Rank::Ace, Rank::Jack]);
    game.bots[1].player.hand = hand_of(&[Rank::Ten, Rank::Eight]);
    let mut phase = RoundPhase::OfferInsurance { coins_before: 100 };
    let mut settled = None;
    while phase != RoundPhase::Done {
        let input = match phase {
            RoundPhase::AwaitAction { .. } => RoundInput::Action(Some(PlayerAction::Stand)),
            _ => RoundInput::Proceed,
        };
        let (next, event) = play_round(&mut game, phase, input);
        if let RoundEvent::Settled(report) = event {
            settled = Some(report);
            // Results are visible before the clean-up.
            assert_eq!(game.human.player.coins, 90 + 20);
            assert_eq!(game.bots[0].player.coins, 90 + 10 + 15);
            assert_eq!(game.bots[1].player.coins, 100);
            assert_eq!(game.dealer.player.coins, 500 - 10 - 15);
            assert_eq!(game.human.player.points, 1);
        }
        phase = next;
    }
    let report = settled.expect("the round was settled");
    assert_eq!(report.human, HandResult::Win);
    assert_eq!(report.bots[0], HandResult::Blackjack);
    assert_eq!(report.bots[1], HandResult::Push);
    assert!(!report.insurance_lost);
    assert!(!report.dealer_wiped_out);
    assert_eq!(game.winnings, 10);
}

#[test]
fn wiping_out_the_dealer_earns_prestige_and_resets() {
    let mut game = dealt_game(100);
    game.dealer.player.coins = 60;
    game.dealer.player.hand = hand_of(&[Rank::Ten, Rank::Seven]);
    game.human.player.hand = hand_of(&[Rank::Ten, Rank::Nine]);
    game.bots[0].player.hand = hand_of(&[Rank::Ten, Rank::Six]);
    game.bots[1].player.hand = hand_of(&[Rank::Ten, Rank::Ten]);
    let mut phase = RoundPhase::OfferInsurance { coins_before: 100 };
    let mut reset_seen = false;
    while phase != RoundPhase::Done {
        let input = match phase {
            RoundPhase::AwaitAction { .. } => RoundInput::Action(Some(PlayerAction::Stand)),
            _ => RoundInput::Proceed,
        };
        let (next, event) = play_round(&mut game, phase, input);
        match event {
            RoundEvent::Bot(report) if report.index == 0 => {
                // A hard 16 against a 10 surrenders.
                assert_eq!(report.end, blackjack::game::round::BotTurnEnd::Surrendered);
            }
            RoundEvent::Settled(report) => {
                assert_eq!(report.human, HandResult::Win);
                assert_eq!(report.bots[0], HandResult::Surrendered);
                assert_eq!(report.bots[1], HandResult::Win);
                assert!(report.dealer_wiped_out);
                assert_eq!(game.dealer.player.coins, 0);
                assert_eq!(game.human.player.prestige, 1);
                assert_eq!(game.bots[0].player.prestige, 0);
                assert_eq!(game.bots[1].player.prestige, 1);
            }
            RoundEvent::Finished { reset } => reset_seen = reset,
            _ => {}
        }
        phase = next;
    }
    assert!(reset_seen);
    assert_eq!(game.human.player.coins, 100);
    assert_eq!(game.dealer.player.coins, 500);
    assert_eq!(game.human.player.prestige, 1);
    assert_eq!(game.human.player.points, 0);
    assert_eq!(game.winnings, 0);
}

#[test]
fn surrender_returns_half_the_bet() {
    let mut game = dealt_game(50);
    game.dealer.player.hand = hand_of(&[Rank::Ten, Rank::Nine]);
    game.human.player.hand = hand_of(&[Rank::Ten, Rank::Six]);
    let mut phase = RoundPhase::OfferInsurance { coins_before: 100 };
    while phase != RoundPhase::Done {
        let input = match phase {
            RoundPhase::AwaitAction { .. } => RoundInput::Action(Some(PlayerAction::Surrender)),
            _ => RoundInput::Proceed,
        };
        let (next, event) = play_round(&mut game, phase, input);
        if let RoundEvent::Settled(report) = event {
            assert_eq!(report.human, HandResult::Surrendered);
            assert_eq!(game.human.player.coins, 75);
        }
        phase = next;
    }
    assert_eq!(game.winnings, -25);
}

#[test]
fn hitting_to_a_bust_loses_the_bet() {
    let mut game = dealt_game(10);
    game.dealer.player.hand = hand_of(&[Rank::Ten, Rank::Seven]);
    game.human.player.hand = hand_of(&[Rank::Ten, Rank::Ten]);
    let mut phase = RoundPhase::OfferInsurance { coins_before: 100 };
    let mut drew = 0;
    while phase != RoundPhase::Done {
        let input = match phase {
            RoundPhase::AwaitAction { .. } => RoundInput::Action(Some(PlayerAction::Hit)),
            _ => RoundInput::Proceed,
        };
        let (next, event) = play_round(&mut game, phase, input);
        if let RoundEvent::Human(_) = event {
            drew += 1;
        }
        if let RoundEvent::Settled(report) = event {
            assert!(report.human == HandResult::Loss || report.human == HandResult::Win || report.human == HandResult::Push);
        }
        phase = next;
    }
    assert!(drew >= 1);
    assert_eq!(game.winnings, game.human.player.coins as i64 - 100);
}

#[test]
fn bot_hits_a_drawn_hard_sixteen_instead_of_surrendering() {
    let mut passed_sixteen = false;
    for _ in 0..300 {
        let mut game = dealt_game(10);
        game.dealer.player.hand = hand_of(&[Rank::Nine, Rank::Seven]);
        game.bots[0].player.hand = hand_of(&[Rank::Ten, Rank::Two]);
        let (_, event) = play_round(
            &mut game,
            RoundPhase::BotTurn { coins_before: 100, index: 0 },
            RoundInput::Proceed,
        );
        match event {
            RoundEvent::Bot(report) => {
                assert_ne!(report.end, blackjack::game::round::BotTurnEnd::Surrendered);
                assert!(!game.bots[0].player.has_surrendered);
                let mut hand = hand_of(&[Rank::Ten, Rank::Two]);
                for (k, card) in report.drawn.iter().enumerate() {
                    hand.add_card(*card);
                    if hand.get_value() == 16 && !hand.is_soft() && k + 1 < report.drawn.len() {
                        passed_sixteen = true;
                    }
                }
            }
            _ => panic!("expected the bot's turn"),
        }
    }
    assert!(passed_sixteen);
}

#[test]
fn bot_surrenders_a_dealt_hard_sixteen() {
    let mut game = dealt_game(10);
    game.dealer.player.hand = hand_of(&[Rank::Nine, Rank::Seven]);
    game.bots[0].player.hand = hand_of(&[Rank::Ten, Rank::Six]);
    let (_, event) = play_round(
        &mut game,
        RoundPhase::BotTurn { coins_before: 100, index: 0 },
        RoundInput::Proceed,
    );
    match event {
        RoundEvent::Bot(report) => {
            assert_eq!(report.end, blackjack::game::round::BotTurnEnd::Surrendered);
            assert!(report.drawn.is_empty());
            assert_eq!(game.bots[0].player.hand.len(), 2);
        }
        _ => panic!("expected the bot's turn"),
    }
}

#[test]
fn a_sat_out_bot_does_not_make_the_dealer_play() {
    let mut game = BlackjackGame::new("Ann");
    game.bots[0].player.coins = 0;
    let (p, _) = play_round(&mut game, RoundPhase::Start, RoundInput::Proceed);
    let (p, _) = play_round(&mut game, p, RoundInput::Bet(Some(10)));
    let (_, _) = play_round(&mut game, p, RoundInput::Proceed);
    assert_eq!(game.bots[0].player.bet, 0);
    assert!(game.bots[0].player.hand.is_empty());
    game.dealer.player.hand = hand_of(&[Rank::Ten, Rank::Six]);
    game.human.player.hand = hand_of(&[Rank::Ten, Rank::Ten, Rank::Five]);
    game.bots[1].player.hand = hand_of(&[Rank::Ten, Rank::Nine, Rank::Five]);
    let (p, event) = play_round(
        &mut game,
        RoundPhase::DealerTurn { coins_before: 100 },
        RoundInput::Proceed,
    );
    assert!(matches!(event, RoundEvent::DealerSkipped));
    assert_eq!(p, RoundPhase::Settle { coins_before: 100 });
    assert_eq!(game.dealer.player.hand.len(), 2);
    // A live wagered hand does make the dealer play.
    game.bots[1].player.hand = hand_of(&[Rank::Ten, Rank::Nine]);
    let (_, event) = play_round(
        &mut game,
        RoundPhase::DealerTurn { coins_before: 100 },
        RoundInput::Proceed,
    );
    assert!(matches!(event, RoundEvent::DealerPlayed(_)));
}

#[test]
fn an_odd_surrendered_bet_moves_every_coin() {
    let mut game = BlackjackGame::new("Ann");
    game.bots[0].player.coins = 15;
    let (p, _) = play_round(&mut game, RoundPhase::Start, RoundInput::Proceed);
    let (p, _) = play_round(&mut game, p, RoundInput::Bet(Some(50)));
    let (p, _) = play_round(&mut game, p, RoundInput::Proceed);
    assert_eq!(p, RoundPhase::OfferInsurance { coins_before: 100 });
    assert_eq!(game.bots[0].player.bet, 15);
    game.dealer.player.hand = hand_of(&[Rank::Nine, Rank::Seven]);
    game.human.player.hand = hand_of(&[Rank::Ten, Rank::Six]);
    game.bots[0].player.hand = hand_of(&[Rank::Ten, Rank::Six]);
    game.bots[1].player.hand = hand_of(&[Rank::Ten, Rank::Six]);
    let mut phase = p;
    let mut settled = false;
    while phase != RoundPhase::Done {
        let input = match phase {
            RoundPhase::AwaitAction { .. } => RoundInput::Action(Some(PlayerAction::Surrender)),
            _ => RoundInput::Proceed,
        };
        let (next, event) = play_round(&mut game, phase, input);
        assert!(!matches!(event, RoundEvent::DealerPlayed(_)));
        if let RoundEvent::Settled(report) = event {
            assert_eq!(report.human, HandResult::Surrendered);
            assert_eq!(report.bots[0], HandResult::Surrendered);
            assert_eq!(report.bots[1], HandResult::Surrendered);
            // Half of each bet (rounded down) comes back; the dealer keeps the rest.
            assert_eq!(game.human.player.coins, 75);
            assert_eq!(game.bots[0].player.coins, 7);
            assert_eq!(game.bots[1].player.coins, 75);
            assert_eq!(game.dealer.player.coins, 500 + 25 + 8 + 25);
            settled = true;
        }
        phase = next;
    }
    assert!(settled);
    let total = game.human.player.coins
        + game.dealer.player.coins
        + game.bots[0].player.coins
        + game.bots[1].player.coins;
    assert_eq!(total, 100 + 15 + 100 + 500);
}

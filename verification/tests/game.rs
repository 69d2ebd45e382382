use blackjack::game::round::{play_round, RoundEvent, RoundInput, RoundPhase};
use blackjack::game::state::BlackjackGame;
use blackjack::models::card::{Card, Rank, Suit};
use blackjack::players::player::PlayerAction;

fn table_coins(game: &BlackjackGame) -> u32 {
    game.human.player.coins
        + game.dealer.player.coins
        + game.bots.iter().map(|b| b.player.coins).sum::<u32>()
}

/// Plays one round, answering every prompt with the given choices.
fn run_round(
    game: &mut BlackjackGame,
    bet: Option<u32>,
    insurance: Option<bool>,
    action: Option<PlayerAction>,
) -> Vec<RoundEvent> {
    let mut phase = RoundPhase::Start;
    let mut events = Vec::new();
    let mut steps = 0;
    while phase != RoundPhase::Done {
        let input = match phase {
            RoundPhase::AwaitBet { .. } => RoundInput::Bet(bet),
            RoundPhase::AwaitInsurance { .. } => RoundInput::Insurance(insurance),
            RoundPhase::AwaitAction { .. } => RoundInput::Action(action),
            _ => RoundInput::Proceed,
        };
        let (next, event) = play_round(game, phase, input);
        events.push(event);
        phase = next;
        steps += 1;
        assert!(steps < 200);
    }
    events
}

#[test]
fn new_table_setup() {
    let game = BlackjackGame::new("Ann");
    assert_eq!(game.human.player.name, "Ann");
    assert_eq!(game.human.player.coins, 100);
    assert_eq!(game.dealer.player.coins, 500);
    assert_eq!(game.bots.len(), 2);
    assert_eq!(game.bots[0].player.name, "Bot 1");
    assert_eq!(game.bots[1].player.name, "Bot 2");
    assert_eq!(game.deck.remaining(), 52);
    assert_eq!(game.round_number, 0);
    assert_eq!(game.winnings, 0);
    assert!(!game.is_quit());
    assert!(!game.is_game_over());
    assert!(!game.dealer_is_broke());
    assert!(!game.needs_reshuffle());
}

#[test]
fn state_queries_and_reset() {
    let mut game = BlackjackGame::new("Ann");
    game.human.player.coins = 5;
    assert!(game.is_game_over());
    game.dealer.player.coins = 9;
    assert!(game.dealer_is_broke());
    game.human.player.coins = 180;
    game.human.player.points = 4;
    game.bots[0].player.coins = 0;
    game.winnings = 80;
    game.reset_game();
    assert_eq!(game.human.player.coins, 100);
    assert_eq!(game.human.player.points, 0);
    assert_eq!(game.dealer.player.coins, 500);
    assert_eq!(game.bots[0].player.coins, 100);
    assert_eq!(game.winnings, 0);
    game.request_quit();
    assert!(game.is_quit());
    while game.deck.remaining() >= 15 {
        game.deck.draw();
    }
    assert!(game.needs_reshuffle());
    game.reshuffle_deck();
    assert_eq!(game.deck.remaining(), 52);
}

#[test]
fn quitting_at_the_bet_changes_nothing_but_the_quit_flag() {
    let mut game = BlackjackGame::new("Ann");
    let events = run_round(&mut game, None, None, None);
    assert!(matches!(events[0], RoundEvent::Begun { reshuffled: false }));
    assert!(matches!(events[1], RoundEvent::QuitAtBet));
    assert!(matches!(events[2], RoundEvent::Finished { reset: false }));
    assert!(game.is_quit());
    assert_eq!(game.round_number, 0);
    assert_eq!(game.human.player.coins, 100);
    assert_eq!(game.winnings, 0);
}

#[test]
fn quitting_mid_round_refunds_every_bet() {
    for _ in 0..20 {
        let mut game = BlackjackGame::new("Ann");
        let events = run_round(&mut game, Some(50), None, None);
        // Either the dealer had a natural (round settled) or the round was voided.
        if events.iter().any(|e| matches!(e, RoundEvent::Voided)) {
            assert_eq!(game.human.player.coins, 100);
            assert_eq!(game.bots[0].player.coins, 100);
            assert_eq!(game.round_number, 0);
            assert_eq!(game.winnings, 0);
        } else {
            assert_eq!(game.round_number, 1);
        }
        assert!(game.human.player.hand.is_empty());
        assert_eq!(game.human.player.bet, 0);
    }
}

#[test]
fn standing_rounds_keep_the_books() {
    let mut game = BlackjackGame::new("Ann");
    let mut rounds = 0;
    while !game.is_game_over() && rounds < 300 {
        let coins = game.human.player.coins;
        let bet = if coins >= 50 { 50 } else { 10 };
        run_round(&mut game, Some(bet), Some(false), Some(PlayerAction::Stand));
        rounds += 1;
        assert_eq!(game.winnings, game.human.player.coins as i64 - 100);
        assert!(table_coins(&game) <= 2400);
        assert!(game.human.player.hand.is_empty());
        assert!(game.dealer.player.hand.is_empty());
        assert_eq!(game.human.player.bet, 0);
        assert!(game.human.player.points <= game.round_number);
        assert!(game.human.player.prestige <= game.round_number);
        if !game.is_game_over() {
            assert!(table_coins(&game) <= 800);
        }
    }
}

#[test]
fn a_round_deals_two_cards_and_plays_out() {
    let mut game = BlackjackGame::new("Ann");
    let mut phase = RoundPhase::Start;
    let (next, _) = play_round(&mut game, phase, RoundInput::Proceed);
    phase = next;
    assert_eq!(phase, RoundPhase::AwaitBet { coins_before: 100 });
    let (next, event) = play_round(&mut game, phase, RoundInput::Bet(Some(100)));
    assert!(matches!(event, RoundEvent::BetsTaken));
    assert_eq!(game.human.player.coins, 0);
    assert_eq!(game.bots[0].player.bet, 100);
    let (next, event) = play_round(&mut game, next, RoundInput::Proceed);
    assert!(matches!(event, RoundEvent::Dealt));
    assert_eq!(next, RoundPhase::OfferInsurance { coins_before: 100 });
    assert_eq!(game.human.player.hand.len(), 2);
    assert_eq!(game.dealer.player.hand.len(), 2);
    assert_eq!(game.bots[1].player.hand.len(), 2);
    assert_eq!(game.deck.remaining(), 52 - 8);
    let (next, event) = play_round(&mut game, next, RoundInput::Proceed);
    // With no coins left the human can never afford insurance.
    match event {
        RoundEvent::Insurance(offer) => {
            let ace = game.dealer.upcard().unwrap().is_ace();
            assert_eq!(
                offer,
                if ace {
                    blackjack::game::round::InsuranceOffer::Unaffordable { cost: 50 }
                } else {
                    blackjack::game::round::InsuranceOffer::NotOffered
                }
            );
        }
        _ => panic!("expected the insurance offer"),
    }
    assert_eq!(next, RoundPhase::Peek { coins_before: 100 });
    let mut phase = next;
    let mut steps = 0;
    while phase != RoundPhase::Done {
        let input = match phase {
            RoundPhase::AwaitAction { .. } => RoundInput::Action(Some(PlayerAction::Stand)),
            _ => RoundInput::Proceed,
        };
        let (n, _) = play_round(&mut game, phase, input);
        phase = n;
        steps += 1;
        assert!(steps < 50);
    }
    assert_eq!(game.round_number, 1);
    assert_eq!(game.winnings, game.human.player.coins as i64 - 100);
}

#[test]
fn upcard_is_the_first_dealer_card() {
    let mut game = BlackjackGame::new("Ann");
    game.dealer.player.hand.add_card(Card::new(Rank::Ace, Suit::Hearts));
    game.dealer.player.hand.add_card(Card::new(Rank::Two, Suit::Hearts));
    assert_eq!(game.dealer.upcard(), Some(Card::new(Rank::Ace, Suit::Hearts)));
}

#[test]
fn a_rich_table_plays_and_keeps_the_books() {
    let mut game = BlackjackGame::new("Ann");
    game.human.player.coins = 300;
    game.winnings = 200;
    game.human.player.points = 40;
    game.bots[0].player.coins = 900;
    for _ in 0..20 {
        if game.is_game_over() {
            break;
        }
        run_round(&mut game, Some(10), Some(false), Some(PlayerAction::Stand));
        assert_eq!(game.winnings, game.human.player.coins as i64 - 100);
        assert!(game.human.player.hand.is_empty());
        assert_eq!(game.human.player.bet, 0);
        assert_eq!(game.human.player.insurance_bet, 0);
        assert!(!game.human.player.has_surrendered);
    }
}

#[test]
fn room_for_bet_guards_the_counters() {
    let mut game = BlackjackGame::new("Ann");
    assert!(game.has_room_for_bet(100));
    game.human.player.coins = u32::MAX - 100;
    assert!(!game.has_room_for_bet(50));
    assert!(game.has_room_for_bet(10));
    game.human.player.coins = 100;
    game.bots[1].player.coins = u32::MAX - 150;
    assert!(!game.has_room_for_bet(100));
    assert!(game.has_room_for_bet(50));
    game.bots[1].player.coins = 100;
    game.human.player.points = u32::MAX;
    assert!(!game.has_room_for_bet(10));
}

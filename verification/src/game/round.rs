//! Round execution as a state machine: betting, dealing, insurance, turns,
//! and settlement. The caller performs the prompts and the printing; each
//! call of [`play_round`] performs one step of the round's logic.
use vstd::prelude::*;

use crate::game::rules::{
    check_dealer_blackjack, check_insurance_payout, determine_winner, outcome, RoundOutcome,
};
use crate::game::state::{
    scores_below_max, table_coins, BlackjackGame, BOT_COUNT, DEALER_RESET_MULTIPLIER,
    RESHUFFLE_THRESHOLD,
};
use crate::models::card::{Card, Rank};
use crate::models::deck::{
    deck_step, draws_from, lemma_draws_concat, lemma_draws_extend, lemma_draws_none,
    lemma_draws_one, standard_deck,
};
use crate::models::hand::{
    hand_is_blackjack, hand_is_busted, hand_value, lemma_push, lemma_value_at_least_len, Hand,
};
use crate::players::bot::{bot_action, BotPlayer};
use crate::players::dealer::dealer_hits;
use crate::players::player::{is_bet_option, Player, PlayerAction, MIN_BET, PLAYER_START_COINS};

verus! {

/// The bet a bot places against the human's bet `human_bet`: all-in when it
/// holds less, nothing when it is broke.
pub open spec fn matched(p: Player, human_bet: u32) -> Player {
    if p.coins == 0 {
        p
    } else {
        let amount = if human_bet < p.coins { human_bet } else { p.coins };
        Player { bet: amount, coins: (p.coins - amount) as u32, ..p }
    }
}

/// The card each bot with a bet receives in pass `k` of the deal, in seat order.
pub open spec fn bots_cards(bots: Seq<BotPlayer>, k: int) -> Seq<Card>
    decreases bots.len(),
{
    if bots.len() == 0 {
        Seq::empty()
    } else {
        bots_cards(bots.drop_last(), k) + if bots.last().player.bet > 0 {
            seq![bots.last().player.hand@[k]]
        } else {
            Seq::<Card>::empty()
        }
    }
}

/// The cards of pass `k` of the deal: the human's, each betting bot's, then the dealer's.
pub open spec fn deal_pass_cards(g: BlackjackGame, k: int) -> Seq<Card> {
    seq![g.human.player.hand@[k]] + bots_cards(g.bots@, k) + seq![g.dealer.player.hand@[k]]
}

/// All cards of the initial deal, in the order they left the deck.
pub open spec fn deal_sequence(g: BlackjackGame) -> Seq<Card> {
    deal_pass_cards(g, 0) + deal_pass_cards(g, 1)
}

/// Collecting the bets: a quit (`None`) only raises the quit flag; a bet is placed by the human and
/// matched by every bot.
pub open spec fn taken(
    pre: BlackjackGame,
    post: BlackjackGame,
    human_bet: Option<u32>,
    placed: bool,
) -> bool {
    &&& placed == (human_bet is Some)
    &&& human_bet is None ==> post == (BlackjackGame { quit_requested: true, ..pre })
    &&& human_bet matches Some(b) ==> {
        &&& post.human.player == (Player {
            bet: b,
            coins: (pre.human.player.coins - b) as u32,
            ..pre.human.player
        })
        &&& post.bots@.len() == pre.bots@.len()
        &&& forall|i: int|
            0 <= i < pre.bots@.len() ==> (#[trigger] post.bots@[i]).player
                == matched(pre.bots@[i].player, b)
        &&& post.dealer == pre.dealer
        &&& post.deck == pre.deck
        &&& post.round_number == pre.round_number
        &&& post.winnings == pre.winnings
        &&& post.quit_requested == pre.quit_requested
    }
}

/// Collects the human's bet, then has the bots match it. Returns `false`
/// when the human quits instead of betting (`None`).
fn take_bets(game: &mut BlackjackGame, human_bet: Option<u32>) -> (placed: bool)
    requires
        human_bet matches Some(b) ==> is_bet_option(b) && b <= old(game).human.player.coins,
    ensures
        taken(*old(game), *final(game), human_bet, placed),
{
    let human_bet = match human_bet {
        Some(bet) => bet,
        None => {
            game.request_quit();
            return false;
        },
    };
    match game.human.player.place_bet(human_bet) {
        Ok(()) => {},
        Err(_) => {
            assert(false);
        },
    }
    let ghost mid = *game;
    let mut i: usize = 0;
    while i < game.bots.len()
        invariant
            i <= game.bots@.len(),
            game.bots@.len() == mid.bots@.len(),
            forall|j: int|
                0 <= j < i ==> (#[trigger] game.bots@[j]).player == matched(
                    mid.bots@[j].player,
                    human_bet,
                ),
            forall|j: int| i <= j < game.bots@.len() ==> #[trigger] game.bots@[j] == mid.bots@[j],
            game.human == mid.human,
            game.dealer == mid.dealer,
            game.deck == mid.deck,
            game.round_number == mid.round_number,
            game.winnings == mid.winnings,
            game.quit_requested == mid.quit_requested,
            human_bet > 0,
        decreases game.bots@.len() - i,
    {
        let _ = game.bots[i].match_bet(human_bet);
        i = i + 1;
    }
    true
}

/// Deals one pass: a card to the human, to every bot with a bet, then to the dealer.
fn deal_pass(game: &mut BlackjackGame, Ghost(k): Ghost<int>)
    requires
        old(game).human.player.hand@.len() == k,
        old(game).dealer.player.hand@.len() == k,
        forall|i: int|
            0 <= i < old(game).bots@.len() ==> (#[trigger] old(game).bots@[i]).player.hand@.len()
                == if old(game).bots@[i].player.bet > 0 { k } else { 0 },
    ensures
        final(game).human.player == (Player {
            hand: final(game).human.player.hand,
            ..old(game).human.player
        }),
        final(game).human.player.hand@ == old(game).human.player.hand@.push(
            final(game).human.player.hand@[k],
        ),
        final(game).dealer.player == (Player {
            hand: final(game).dealer.player.hand,
            ..old(game).dealer.player
        }),
        final(game).dealer.player.hand@ == old(game).dealer.player.hand@.push(
            final(game).dealer.player.hand@[k],
        ),
        final(game).bots@.len() == old(game).bots@.len(),
        forall|i: int|
            0 <= i < old(game).bots@.len() ==> {
                let b0 = old(game).bots@[i].player;
                let b1 = (#[trigger] final(game).bots@[i]).player;
                &&& b1 == (Player { hand: b1.hand, ..b0 })
                &&& b0.bet > 0 ==> b1.hand@ == b0.hand@.push(b1.hand@[k])
                &&& b0.bet == 0 ==> b1.hand@ == b0.hand@
            },
        draws_from(old(game).deck@, final(game).deck@, deal_pass_cards(*final(game), k)),
        final(game).round_number == old(game).round_number,
        final(game).winnings == old(game).winnings,
        final(game).quit_requested == old(game).quit_requested,
{
    let ghost d0 = game.deck@;
    let ghost h0 = game.human.player.hand@;
    let c = game.deck.draw_card();
    game.human.player.hand.add_card(c);
    proof {
        lemma_draws_one(d0, game.deck@, c);
    }
    let ghost mid = *game;
    let ghost mut drawn: Seq<Card> = seq![c];
    let mut i: usize = 0;
    proof {
        assert(mid.bots@.take(0) =~= Seq::<BotPlayer>::empty());
        assert(drawn =~= seq![c] + bots_cards(mid.bots@.take(0), k));
    }
    while i < game.bots.len()
        invariant
            i <= game.bots@.len(),
            game.bots@.len() == mid.bots@.len(),
            forall|j: int|
                0 <= j < i ==> {
                    let b0 = mid.bots@[j].player;
                    let b1 = (#[trigger] game.bots@[j]).player;
                    &&& b1 == (Player { hand: b1.hand, ..b0 })
                    &&& b0.bet > 0 ==> b1.hand@ == b0.hand@.push(b1.hand@[k])
                    &&& b0.bet == 0 ==> b1.hand@ == b0.hand@
                    &&& b1.hand@.len() == if b0.bet > 0 { k + 1 } else { 0 }
                },
            forall|j: int| i <= j < game.bots@.len() ==> #[trigger] game.bots@[j] == mid.bots@[j],
            forall|j: int|
                0 <= j < mid.bots@.len() ==> (#[trigger] mid.bots@[j]).player.hand@.len()
                    == if mid.bots@[j].player.bet > 0 { k } else { 0 },
            drawn == seq![c] + bots_cards(game.bots@.take(i as int), k),
            draws_from(d0, game.deck@, drawn),
            game.human == mid.human,
            game.dealer == mid.dealer,
            game.round_number == mid.round_number,
            game.winnings == mid.winnings,
            game.quit_requested == mid.quit_requested,
            k >= 0,
        decreases game.bots@.len() - i,
    {
        let ghost before_bots = game.bots@;
        let ghost before_deck = game.deck@;
        if game.bots[i].player.bet > 0 {
            let card = game.deck.draw_card();
            game.bots[i].player.hand.add_card(card);
            proof {
                lemma_draws_extend(d0, before_deck, game.deck@, drawn, card);
                drawn = drawn.push(card);
            }
        }
        proof {
            let t1 = game.bots@.take(i + 1);
            assert(t1.drop_last() =~= before_bots.take(i as int));
            assert(t1.last() == game.bots@[i as int]);
            assert(bots_cards(t1, k) == bots_cards(t1.drop_last(), k) + if t1.last().player.bet
                > 0 {
                seq![t1.last().player.hand@[k]]
            } else {
                Seq::<Card>::empty()
            });
            assert(drawn =~= seq![c] + bots_cards(t1, k));
        }
        i = i + 1;
    }
    proof {
        assert(game.bots@.take(i as int) =~= game.bots@);
    }
    let ghost before_deck = game.deck@;
    let dc = game.deck.draw_card();
    game.dealer.player.hand.add_card(dc);
    proof {
        lemma_draws_extend(d0, before_deck, game.deck@, drawn, dc);
        assert(drawn.push(dc) =~= deal_pass_cards(*game, k));
    }
}


/// Two seatings whose bots agree on their bets and on the cards at position
/// `k` of every betting bot's hand give the same pass cards.
proof fn lemma_bots_cards_same(a: Seq<BotPlayer>, b: Seq<BotPlayer>, k: int)
    requires
        a.len() == b.len(),
        forall|j: int|
            0 <= j < a.len() ==> (#[trigger] a[j]).player.bet == b[j].player.bet && (a[j].player.bet
                > 0 ==> a[j].player.hand@[k] == b[j].player.hand@[k]),
    ensures
        bots_cards(a, k) == bots_cards(b, k),
    decreases a.len(),
{
    if a.len() > 0 {
        lemma_bots_cards_same(a.drop_last(), b.drop_last(), k);
        assert(a[a.len() - 1].player.bet == b[b.len() - 1].player.bet);
    }
}

/// The initial deal: two cards each to the human, every betting bot, and the dealer, drawn from the
/// deck in seat order, pass by pass.
pub open spec fn dealt(pre: BlackjackGame, post: BlackjackGame) -> bool {
    &&& post.human.player == (Player {
        hand: post.human.player.hand,
        ..pre.human.player
    })
    &&& post.human.player.hand@.len() == 2
    &&& post.dealer.player == (Player {
        hand: post.dealer.player.hand,
        ..pre.dealer.player
    })
    &&& post.dealer.player.hand@.len() == 2
    &&& post.bots@.len() == pre.bots@.len()
    &&& forall|i: int|
        0 <= i < pre.bots@.len() ==> {
            let b0 = pre.bots@[i].player;
            let b1 = (#[trigger] post.bots@[i]).player;
            &&& b1 == (Player { hand: b1.hand, ..b0 })
            &&& b1.hand@.len() == if b0.bet > 0 { 2int } else { 0int }
        }
    &&& draws_from(pre.deck@, post.deck@, deal_sequence(post))
    &&& post.round_number == pre.round_number
    &&& post.winnings == pre.winnings
    &&& post.quit_requested == pre.quit_requested
}

/// Deals two cards to every player with a bet, then two to the dealer.
fn deal_initial_cards(game: &mut BlackjackGame)
    requires
        old(game).human.player.hand@.len() == 0,
        old(game).dealer.player.hand@.len() == 0,
        forall|i: int|
            0 <= i < old(game).bots@.len() ==> (#[trigger] old(game).bots@[i]).player.hand@.len()
                == 0,
    ensures
        dealt(*old(game), *final(game)),
{
    let ghost g0 = *game;
    deal_pass(game, Ghost(0));
    let ghost g1 = *game;
    deal_pass(game, Ghost(1));
    proof {
        assert forall|j: int| 0 <= j < g1.bots@.len() implies (#[trigger] g1.bots@[j]).player.bet
            == game.bots@[j].player.bet && (g1.bots@[j].player.bet > 0
            ==> g1.bots@[j].player.hand@[0] == game.bots@[j].player.hand@[0]) by {
            assert(game.bots@[j].player == (Player {
                hand: game.bots@[j].player.hand,
                ..g1.bots@[j].player
            }));
        }
        lemma_bots_cards_same(g1.bots@, game.bots@, 0);
        assert(deal_pass_cards(g1, 0) == deal_pass_cards(*game, 0));
        lemma_draws_concat(
            g0.deck@,
            g1.deck@,
            game.deck@,
            deal_pass_cards(g1, 0),
            deal_pass_cards(*game, 1),
        );
    }
}


/// What the table offers the human when the dealer's upcard is dealt.
#[derive(Debug, Clone, Copy, PartialEq, Eq, Structural)]
pub enum InsuranceOffer {
    /// The dealer does not show an ace: no insurance.
    NotOffered,
    /// The dealer shows an ace but the human cannot pay half the bet.
    Unaffordable { cost: u32 },
    /// The dealer shows an ace and the human may insure for `cost` coins.
    Offered { cost: u32 },
}

/// The insurance offer for the current table: none unless the dealer's
/// upcard is an ace; then half the human's bet, if the human can pay it.
pub open spec fn insurance_offer_spec(g: BlackjackGame) -> InsuranceOffer {
    let cost = g.human.player.bet / 2;
    if g.dealer.player.hand@[0].rank != Rank::Ace {
        InsuranceOffer::NotOffered
    } else if g.human.player.coins < cost {
        InsuranceOffer::Unaffordable { cost: cost }
    } else {
        InsuranceOffer::Offered { cost: cost }
    }
}

/// Decides what insurance the human is offered once the cards are dealt.
fn insurance_offer(game: &BlackjackGame) -> (o: InsuranceOffer)
    requires
        game.dealer.player.hand@.len() > 0,
    ensures
        o == insurance_offer_spec(*game),
{
    let upcard = match game.dealer.upcard() {
        Some(c) => c,
        None => {
            assert(false);
            Card::new(Rank::Two, crate::models::card::Suit::Hearts)
        },
    };
    if !upcard.is_ace() {
        return InsuranceOffer::NotOffered;
    }
    let cost = game.human.player.bet / 2;
    if game.human.player.coins < cost {
        InsuranceOffer::Unaffordable { cost }
    } else {
        InsuranceOffer::Offered { cost }
    }
}

/// The human's insurance answer: buying moves half the bet into the insurance stake, declining
/// changes nothing, quitting raises the quit flag.
pub open spec fn insurance_resolved(
    pre: BlackjackGame,
    post: BlackjackGame,
    answer: Option<bool>,
) -> bool {
    &&& answer == Some(true) ==> post == (BlackjackGame {
        human: post.human,
        ..pre
    }) && post.human.player == (Player {
        coins: (pre.human.player.coins - pre.human.player.bet / 2) as u32,
        insurance_bet: pre.human.player.bet / 2,
        ..pre.human.player
    })
    &&& answer == Some(false) ==> post == pre
    &&& answer is None ==> post == (BlackjackGame { quit_requested: true, ..pre })
}

/// Applies the human's answer to the insurance offer: buy (`Some(true)`),
/// decline (`Some(false)`), or quit the session (`None`).
fn resolve_insurance(game: &mut BlackjackGame, answer: Option<bool>)
    requires
        old(game).human.player.bet > 0,
        old(game).human.player.coins >= old(game).human.player.bet / 2,
    ensures
        insurance_resolved(*old(game), *final(game), answer),
{
    match answer {
        Some(true) => {
            match game.human.player.buy_insurance() {
                Ok(()) => {},
                Err(_) => {
                    assert(false);
                },
            }
        },
        Some(false) => {},
        None => game.request_quit(),
    }
}

/// Where the human's turn stands before a decision.
#[derive(Debug, Clone, Copy, PartialEq, Eq, Structural)]
pub enum HumanTurnStatus {
    /// A natural: the turn is over.
    Blackjack,
    /// The hand is worth 21: the human stands automatically.
    TwentyOne,
    /// The human must choose an action.
    Decide,
}

/// The status of the human's turn for a hand.
pub open spec fn human_status_spec(h: Seq<Card>) -> HumanTurnStatus {
    if hand_is_blackjack(h) {
        HumanTurnStatus::Blackjack
    } else if hand_value(h) == 21 {
        HumanTurnStatus::TwentyOne
    } else {
        HumanTurnStatus::Decide
    }
}

fn human_turn_status(game: &BlackjackGame) -> (s: HumanTurnStatus)
    requires
        game.human.player.hand.fits(),
    ensures
        s == human_status_spec(game.human.player.hand@),
{
    if game.human.player.hand.is_blackjack() {
        HumanTurnStatus::Blackjack
    } else if game.human.player.hand.get_value() == 21 {
        HumanTurnStatus::TwentyOne
    } else {
        HumanTurnStatus::Decide
    }
}

/// What one human decision did.
#[derive(Debug, Clone, Copy, PartialEq, Eq, Structural)]
pub enum HumanStep {
    /// The human hit and drew `card`; `busted` tells whether the hand went over 21.
    Drew { card: Card, busted: bool },
    /// The human stood.
    Stood,
    /// The human surrendered.
    Surrendered,
    /// The human quit the session.
    Quit,
}

/// One decision of the human: a hit draws a card into the hand, a stand changes nothing, a
/// surrender marks the hand, a quit raises the quit flag.
pub open spec fn human_acted(
    pre: BlackjackGame,
    post: BlackjackGame,
    action: Option<PlayerAction>,
    step: HumanStep,
) -> bool {
    &&& action == Some(PlayerAction::Hit) ==> (step matches HumanStep::Drew { card, busted } && {
        &&& deck_step(pre.deck@, post.deck@, card)
        &&& post.human.player == (Player {
            hand: post.human.player.hand,
            ..pre.human.player
        })
        &&& post.human.player.hand@ == pre.human.player.hand@.push(card)
        &&& post.human.player.hand.fits()
        &&& busted == hand_is_busted(post.human.player.hand@)
        &&& post == (BlackjackGame {
            human: post.human,
            deck: post.deck,
            ..pre
        })
    })
    &&& action == Some(PlayerAction::Stand) ==> step == HumanStep::Stood && post == pre
    &&& action == Some(PlayerAction::Surrender) ==> step == HumanStep::Surrendered
        && post == (BlackjackGame { human: post.human, ..pre })
        && post.human.player == (Player { has_surrendered: true, ..pre.human.player })
    &&& action is None ==> step == HumanStep::Quit && post == (BlackjackGame {
        quit_requested: true,
        ..pre
    })
}

/// Applies one decision of the human: hit, stand, surrender, or quit (`None`).
fn apply_human_action(game: &mut BlackjackGame, action: Option<PlayerAction>) -> (step: HumanStep)
    requires
        old(game).human.player.hand.fits(),
        hand_value(old(game).human.player.hand@) < 21,
    ensures
        human_acted(*old(game), *final(game), action, step),
{
    match action {
        Some(PlayerAction::Hit) => {
            proof {
                lemma_value_at_least_len(game.human.player.hand@);
            }
            let card = game.deck.draw_card();
            let ghost before = game.human.player.hand@;
            game.human.player.hand.add_card(card);
            proof {
                lemma_push(before, card);
            }
            let busted = game.human.player.hand.is_busted();
            HumanStep::Drew { card, busted }
        },
        Some(PlayerAction::Stand) => HumanStep::Stood,
        Some(PlayerAction::Surrender) => {
            game.human.player.has_surrendered = true;
            HumanStep::Surrendered
        },
        None => {
            game.request_quit();
            HumanStep::Quit
        },
    }
}

/// How a bot's turn ended.
#[derive(Debug, Clone, Copy, PartialEq, Eq, Structural)]
pub enum BotTurnEnd {
    /// The bot had no bet this round.
    SatOut,
    /// The bot was dealt a natural.
    Blackjack,
    /// The bot reached 21 and stood.
    StandsOn21,
    /// The bot chose to stand.
    Stood,
    /// The bot's last card took it over 21.
    Busted,
    /// The bot surrendered.
    Surrendered,
}

/// What a bot did on its turn: the cards it drew, in order, and how the turn ended.
#[derive(Debug, Clone)]
pub struct BotTurnReport {
    /// The seat of the bot.
    pub index: usize,
    /// The cards the bot drew, in order.
    pub drawn: Vec<Card>,
    /// How the turn ended.
    pub end: BotTurnEnd,
}

/// The bot's move at hand `h` during its turn: its strategy, except that a
/// surrender is only open on the first decision (before the bot has drawn);
/// a later hard 16 that the strategy would give up is played by its rule for
/// a hard 12-16 against a strong upcard, a hit.
pub open spec fn bot_turn_action(h: Seq<Card>, drew: bool, up: Card) -> PlayerAction {
    if drew && bot_action(h, up) == PlayerAction::Surrender {
        PlayerAction::Hit
    } else {
        bot_action(h, up)
    }
}

/// How a bot turn that stopped at hand `h` ends: a bust after drawing, a
/// 21, or the bot's own decision to stand or surrender.
pub open spec fn bot_turn_end(h: Seq<Card>, drew: bool, up: Card) -> BotTurnEnd {
    if drew && hand_is_busted(h) {
        BotTurnEnd::Busted
    } else if hand_value(h) == 21 {
        BotTurnEnd::StandsOn21
    } else if bot_turn_action(h, drew, up) == PlayerAction::Surrender {
        BotTurnEnd::Surrendered
    } else {
        BotTurnEnd::Stood
    }
}

/// Whether a bot turn stops at hand `h`: after a bust, on 21, or when the
/// bot does not hit.
pub open spec fn bot_stops(h: Seq<Card>, drew: bool, up: Card) -> bool {
    (drew && hand_is_busted(h)) || hand_value(h) == 21 || bot_turn_action(h, drew, up)
        != PlayerAction::Hit
}

/// A hit is only chosen below 18.
proof fn lemma_bot_hits_low(h: Seq<Card>, drew: bool, up: Card)
    requires
        bot_turn_action(h, drew, up) == PlayerAction::Hit,
    ensures
        hand_value(h) < 18,
{
}

/// The bot's move during its turn: its strategy, with a surrender turned
/// into a hit once the bot has drawn.
fn bot_turn_choice(bot: &BotPlayer, drew: bool, dealer_upcard: Card) -> (a: PlayerAction)
    requires
        bot.player.hand.fits(),
    ensures
        a == bot_turn_action(bot.player.hand@, drew, dealer_upcard),
{
    match bot.decide_action(dealer_upcard) {
        PlayerAction::Surrender => if drew {
            PlayerAction::Hit
        } else {
            PlayerAction::Surrender
        },
        a => a,
    }
}

/// A bot's turn: it draws while its strategy says hit, stopping on a bust, on 21, or on a stand or
/// (on its first decision only) a surrender; a bot without a bet sits out and a natural stands.
pub open spec fn bot_turn_done(
    pre: BlackjackGame,
    post: BlackjackGame,
    index: usize,
    r: BotTurnReport,
) -> bool {
    &&& r.index == index
    &&& post.bots@.len() == pre.bots@.len()
    &&& forall|j: int|
        0 <= j < pre.bots@.len() && j != index ==> #[trigger] post.bots@[j]
            == pre.bots@[j]
    &&& post == (BlackjackGame {
        bots: post.bots,
        deck: post.deck,
        ..pre
    })
    &&& ({
        let b0 = pre.bots@[index as int].player;
        let b1 = post.bots@[index as int].player;
        let up = pre.dealer.player.hand@[0];
        &&& b1 == (Player {
            hand: b1.hand,
            has_surrendered: b0.has_surrendered || r.end == BotTurnEnd::Surrendered,
            ..b0
        })
        &&& b1.hand@ == b0.hand@ + r.drawn@
        &&& b1.hand.fits()
        &&& draws_from(pre.deck@, post.deck@, r.drawn@)
        &&& b0.bet == 0 ==> r.end == BotTurnEnd::SatOut && r.drawn@.len() == 0
        &&& b0.bet > 0 && hand_is_blackjack(b0.hand@) ==> r.end == BotTurnEnd::Blackjack
            && r.drawn@.len() == 0
        &&& b0.bet > 0 && !hand_is_blackjack(b0.hand@) ==> {
            &&& forall|k: int|
                0 <= k < r.drawn@.len() ==> !bot_stops(
                    #[trigger] (b0.hand@ + r.drawn@.take(k)),
                    k > 0,
                    up,
                )
            &&& bot_stops(b1.hand@, r.drawn@.len() > 0, up)
            &&& r.end == bot_turn_end(b1.hand@, r.drawn@.len() > 0, up)
        }
    })
}

/// Runs one bot's turn with its AI decisions.
fn play_bot_turn(game: &mut BlackjackGame, index: usize) -> (r: BotTurnReport)
    requires
        index < old(game).bots@.len(),
        old(game).bots@[index as int].player.hand.fits(),
        old(game).dealer.player.hand@.len() > 0,
    ensures
        bot_turn_done(*old(game), *final(game), index, r),
{
    let mut drawn: Vec<Card> = Vec::new();
    if game.bots[index].player.bet == 0 {
        proof {
            lemma_draws_none(game.deck@);
            assert(game.bots@[index as int].player.hand@ + drawn@ =~= game.bots@[index as int].player.hand@);
        }
        return BotTurnReport { index, drawn, end: BotTurnEnd::SatOut };
    }
    if game.bots[index].player.hand.is_blackjack() {
        proof {
            lemma_draws_none(game.deck@);
            assert(game.bots@[index as int].player.hand@ + drawn@ =~= game.bots@[index as int].player.hand@);
        }
        return BotTurnReport { index, drawn, end: BotTurnEnd::Blackjack };
    }
    let dealer_upcard = match game.dealer.upcard() {
        Some(c) => c,
        None => {
            assert(false);
            Card::new(Rank::Two, crate::models::card::Suit::Hearts)
        },
    };
    let ghost g0 = *game;
    let ghost b0 = game.bots@[index as int].player;
    let ghost d0 = game.deck@;
    proof {
        lemma_draws_none(d0);
        assert(b0.hand@ + drawn@ =~= b0.hand@);
    }
    let end;
    loop
        invariant_except_break
            game.bots@[index as int].player == (Player { hand: game.bots@[index as int].player.hand, ..b0 }),
        invariant
            game.bots@.len() == g0.bots@.len(),
            forall|j: int| 0 <= j < g0.bots@.len() && j != index ==> #[trigger] game.bots@[j] == g0.bots@[j],
            *game == (BlackjackGame { bots: game.bots, deck: game.deck, ..g0 }),
            game.bots@[index as int].player.hand@ == b0.hand@ + drawn@,
            game.bots@[index as int].player.hand.fits(),
            draws_from(d0, game.deck@, drawn@),
            forall|k: int|
                0 <= k < drawn@.len() ==> !bot_stops(
                    #[trigger] (b0.hand@ + drawn@.take(k)),
                    k > 0,
                    dealer_upcard,
                ),
            index < g0.bots@.len(),
            dealer_upcard == g0.dealer.player.hand@[0],
        ensures
            game.bots@.len() == g0.bots@.len(),
            forall|j: int| 0 <= j < g0.bots@.len() && j != index ==> #[trigger] game.bots@[j] == g0.bots@[j],
            *game == (BlackjackGame { bots: game.bots, deck: game.deck, ..g0 }),
            game.bots@[index as int].player == (Player {
                hand: game.bots@[index as int].player.hand,
                has_surrendered: b0.has_surrendered || end == BotTurnEnd::Surrendered,
                ..b0
            }),
            game.bots@[index as int].player.hand@ == b0.hand@ + drawn@,
            game.bots@[index as int].player.hand.fits(),
            draws_from(d0, game.deck@, drawn@),
            forall|k: int|
                0 <= k < drawn@.len() ==> !bot_stops(
                    #[trigger] (b0.hand@ + drawn@.take(k)),
                    k > 0,
                    dealer_upcard,
                ),
            bot_stops(game.bots@[index as int].player.hand@, drawn@.len() > 0, dealer_upcard),
            end == bot_turn_end(game.bots@[index as int].player.hand@, drawn@.len() > 0, dealer_upcard),
        decreases if game.bots@[index as int].player.hand@.len() <= 18 {
            18 - game.bots@[index as int].player.hand@.len()
        } else {
            0
        },
    {
        let ghost h = game.bots@[index as int].player.hand@;
        if drawn.len() > 0 && game.bots[index].player.hand.is_busted() {
            end = BotTurnEnd::Busted;
            break;
        }
        if game.bots[index].player.hand.get_value() == 21 {
            end = BotTurnEnd::StandsOn21;
            break;
        }
        match bot_turn_choice(&game.bots[index], drawn.len() > 0, dealer_upcard) {
            PlayerAction::Hit => {
                proof {
                    lemma_bot_hits_low(h, drawn@.len() > 0, dealer_upcard);
                    lemma_value_at_least_len(h);
                    assert(!bot_stops(h, drawn@.len() > 0, dealer_upcard));
                }
                let ghost before_deck = game.deck@;
                let ghost drawn_before = drawn@;
                let card = game.deck.draw_card();
                game.bots[index].player.hand.add_card(card);
                proof {
                    lemma_push(h, card);
                    lemma_draws_extend(d0, before_deck, game.deck@, drawn@, card);
                }
                drawn.push(card);
                proof {
                    assert forall|k: int| 0 <= k < drawn@.len() implies !bot_stops(
                        #[trigger] (b0.hand@ + drawn@.take(k)),
                        k > 0,
                        dealer_upcard,
                    ) by {
                        if k == drawn@.len() - 1 {
                            assert(b0.hand@ + drawn@.take(k) =~= h);
                        } else {
                            assert(drawn@.take(k) =~= drawn_before.take(k));
                            assert(!bot_stops(b0.hand@ + drawn_before.take(k), k > 0, dealer_upcard));
                        }
                    }
                    assert(b0.hand@ + drawn@ =~= h.push(card));
                }
            },
            PlayerAction::Stand => {
                end = BotTurnEnd::Stood;
                break;
            },
            PlayerAction::Surrender => {
                game.bots[index].player.has_surrendered = true;
                end = BotTurnEnd::Surrendered;
                break;
            },
        }
    }
    BotTurnReport { index, drawn, end }
}


/// A wagered hand that can still beat the dealer: a bet rides on it and it
/// is not surrendered, busted, or a natural.
pub open spec fn live(p: Player) -> bool {
    p.bet > 0 && !p.has_surrendered && !hand_is_busted(p.hand@) && !hand_is_blackjack(p.hand@)
}

/// Whether the hand has a bet and can still beat the dealer (not
/// busted/surrendered/natural).
fn is_live(player: &Player) -> (b: bool)
    requires
        player.hand.fits(),
    ensures
        b == live(*player),
{
    player.bet > 0 && !player.has_surrendered && !player.hand.is_busted()
        && !player.hand.is_blackjack()
}

/// The dealer plays out its hand when the human's or some bot's wagered hand is live.
pub open spec fn dealer_must_play_spec(g: BlackjackGame) -> bool {
    live(g.human.player) || exists|i: int| 0 <= i < g.bots@.len() && live(#[trigger] g.bots@[i].player)
}

/// Whether the dealer must take a turn.
fn dealer_must_play(game: &BlackjackGame) -> (b: bool)
    requires
        game.human.player.hand.fits(),
        forall|i: int| 0 <= i < game.bots@.len() ==> (#[trigger] game.bots@[i]).player.hand.fits(),
    ensures
        b == dealer_must_play_spec(*game),
{
    if is_live(&game.human.player) {
        return true;
    }
    let mut i: usize = 0;
    while i < game.bots.len()
        invariant
            i <= game.bots@.len(),
            forall|j: int| 0 <= j < i ==> !live(#[trigger] game.bots@[j].player),
            forall|j: int| 0 <= j < game.bots@.len() ==> (#[trigger] game.bots@[j]).player.hand.fits(),
        decreases game.bots@.len() - i,
    {
        if is_live(&game.bots[i].player) {
            assert(live(game.bots@[i as int].player));
            return true;
        }
        i = i + 1;
    }
    false
}

/// How one hand was settled.
#[derive(Debug, Clone, Copy, PartialEq, Eq, Structural)]
pub enum HandResult {
    /// No bet was riding on the hand.
    NoBet,
    /// The hand was surrendered: half the bet came back.
    Surrendered,
    /// A natural paid 3:2.
    Blackjack,
    /// The hand won at even money.
    Win,
    /// The stake came back.
    Push,
    /// The stake was lost.
    Loss,
}

/// The points after a loss: one fewer, never below zero.
pub open spec fn dec_points(n: u32) -> u32 {
    if n > 0 { (n - 1) as u32 } else { 0 }
}

/// How a finished hand settles against the dealer's final hand.
pub open spec fn hand_result(p: Player, dealer: Seq<Card>) -> HandResult {
    if p.bet == 0 {
        HandResult::NoBet
    } else if p.has_surrendered {
        HandResult::Surrendered
    } else {
        match outcome(p.hand@, dealer) {
            RoundOutcome::PlayerBlackjack => HandResult::Blackjack,
            RoundOutcome::PlayerWin => HandResult::Win,
            RoundOutcome::Push => HandResult::Push,
            RoundOutcome::DealerWin => HandResult::Loss,
        }
    }
}

/// Whether a settled hand counts as won.
pub open spec fn result_won(r: HandResult) -> bool {
    r == HandResult::Blackjack || r == HandResult::Win
}

/// The player after settling a finished hand: half the bet back and a lost
/// point for a surrender, stake plus 3:2 and a point for a natural, double
/// the stake and a point for a win, the stake for a push, a lost point for
/// a loss.
pub open spec fn settled_player(p: Player, dealer: Seq<Card>) -> Player {
    match hand_result(p, dealer) {
        HandResult::NoBet => p,
        HandResult::Surrendered => Player {
            has_surrendered: true,
            coins: (p.coins + p.bet / 2) as u32,
            points: dec_points(p.points),
            ..p
        },
        HandResult::Blackjack => Player {
            coins: (p.coins + p.bet + 3 * p.bet / 2) as u32,
            points: (p.points + 1) as u32,
            ..p
        },
        HandResult::Win => Player {
            coins: (p.coins + 2 * p.bet) as u32,
            points: (p.points + 1) as u32,
            ..p
        },
        HandResult::Push => Player { coins: (p.coins + p.bet) as u32, ..p },
        HandResult::Loss => Player { points: dec_points(p.points), ..p },
    }
}

/// The dealer's coin change from settling one hand (positive: the dealer collects).
pub open spec fn settle_delta(p: Player, dealer: Seq<Card>) -> int {
    match hand_result(p, dealer) {
        HandResult::NoBet => 0,
        HandResult::Surrendered => p.bet - p.bet / 2,
        HandResult::Blackjack => -(3 * p.bet / 2),
        HandResult::Win => -p.bet,
        HandResult::Push => 0,
        HandResult::Loss => p.bet as int,
    }
}

/// Coins a player may hold and stake without any payout overflowing.
pub open spec fn payout_safe(p: Player) -> bool {
    p.coins + 3 * p.bet + 3 * p.insurance_bet <= u32::MAX && p.points < u32::MAX && p.prestige
        < u32::MAX
}

/// Resolves one player's hand and returns the dealer's coin delta
/// (negative = the dealer pays, positive = the dealer collects) together
/// with how the hand settled.
fn settle_hand(player: &mut Player, dealer_hand: &Hand) -> (r: (i64, HandResult))
    requires
        old(player).hand.fits(),
        dealer_hand.fits(),
        payout_safe(*old(player)),
    ensures
        r.0 == settle_delta(*old(player), dealer_hand@),
        r.1 == hand_result(*old(player), dealer_hand@),
        *final(player) == settled_player(*old(player), dealer_hand@),
{
    if player.bet == 0 {
        return (0, HandResult::NoBet);
    }
    if player.has_surrendered {
        let bet = player.bet;
        player.surrender();
        return ((bet - bet / 2) as i64, HandResult::Surrendered);
    }
    let bet = player.bet;
    match determine_winner(&player.hand, dealer_hand) {
        RoundOutcome::PlayerBlackjack => {
            player.win_blackjack();
            (-(bet as i64 * 3 / 2), HandResult::Blackjack)
        },
        RoundOutcome::PlayerWin => {
            player.win();
            (-(bet as i64), HandResult::Win)
        },
        RoundOutcome::Push => {
            player.push();
            (0, HandResult::Push)
        },
        RoundOutcome::DealerWin => {
            player.lose();
            (bet as i64, HandResult::Loss)
        },
    }
}

/// How a hand settles when the dealer has a natural: a natural pushes,
/// every other hand with a bet loses.
pub open spec fn natural_result(p: Player) -> HandResult {
    if p.bet == 0 {
        HandResult::NoBet
    } else if hand_is_blackjack(p.hand@) {
        HandResult::Push
    } else {
        HandResult::Loss
    }
}

/// The player after settling against a dealer natural.
pub open spec fn settled_vs_natural(p: Player) -> Player {
    match natural_result(p) {
        HandResult::Push => Player { coins: (p.coins + p.bet) as u32, ..p },
        HandResult::Loss => Player { points: dec_points(p.points), ..p },
        _ => p,
    }
}

/// The dealer's coin change from one hand against its natural.
pub open spec fn natural_delta(p: Player) -> int {
    match natural_result(p) {
        HandResult::Loss => p.bet as int,
        _ => 0,
    }
}

/// One player's outcome when the dealer has blackjack (naturals push).
/// Returns the dealer's coin delta (positive = the dealer collects).
fn settle_against_dealer_blackjack(player: &mut Player) -> (r: (i64, HandResult))
    requires
        old(player).hand.fits(),
        payout_safe(*old(player)),
    ensures
        r.0 == natural_delta(*old(player)),
        r.1 == natural_result(*old(player)),
        *final(player) == settled_vs_natural(*old(player)),
{
    if player.bet == 0 {
        return (0, HandResult::NoBet);
    }
    if player.hand.is_blackjack() {
        player.push();
        (0, HandResult::Push)
    } else {
        let bet = player.bet;
        player.lose();
        (bet as i64, HandResult::Loss)
    }
}

/// The dealer's coins after a net change: never below zero.
pub open spec fn clamp_coins(x: int) -> u32 {
    if x < 0 { 0 } else { x as u32 }
}

/// Applies the round's net coin flow to the dealer, clamped at zero
/// (a dry dealer triggers the reset check before the next round).
fn apply_dealer_delta(game: &mut BlackjackGame, delta: i64)
    requires
        i64::MIN <= old(game).dealer.player.coins + delta <= i64::MAX,
    ensures
        *final(game) == (BlackjackGame { dealer: final(game).dealer, ..*old(game) }),
        final(game).dealer.player == (Player {
            coins: clamp_coins(old(game).dealer.player.coins + delta),
            ..old(game).dealer.player
        }),
{
    let coins = game.dealer.player.coins as i64 + delta;
    let clamped = if coins < 0 {
        0
    } else {
        coins
    };
    game.dealer.player.coins = clamped as u32;
}


/// The dealer's coin change from settling every bot's hand.
pub open spec fn bots_settle_delta(bots: Seq<BotPlayer>, dealer: Seq<Card>) -> int
    decreases bots.len(),
{
    if bots.len() == 0 {
        0
    } else {
        bots_settle_delta(bots.drop_last(), dealer) + settle_delta(bots.last().player, dealer)
    }
}

/// The dealer's coin change from every bot's hand against its natural.
pub open spec fn bots_natural_delta(bots: Seq<BotPlayer>) -> int
    decreases bots.len(),
{
    if bots.len() == 0 {
        0
    } else {
        bots_natural_delta(bots.drop_last()) + natural_delta(bots.last().player)
    }
}

/// The player with one more prestige when `award` holds.
pub open spec fn awarded(p: Player, award: bool) -> Player {
    if award { Player { prestige: (p.prestige + 1) as u32, ..p } } else { p }
}

/// How the round was settled against the dealer's final hand.
#[derive(Debug, Clone)]
pub struct SettleReport {
    /// The human's hand.
    pub human: HandResult,
    /// Whether an insurance stake was lost (the dealer had no natural).
    pub insurance_lost: bool,
    /// Each bot's hand, in seat order.
    pub bots: Vec<HandResult>,
    /// Whether the round left the dealer below the minimum bet; the winning
    /// hands then earned a prestige.
    pub dealer_wiped_out: bool,
}

/// The dealer's total coin change from a normal settlement: every hand's
/// delta plus any insurance stake, which the house keeps.
pub open spec fn round_settle_delta(g: BlackjackGame) -> int {
    let d = g.dealer.player.hand@;
    settle_delta(g.human.player, d) + g.human.player.insurance_bet + bots_settle_delta(g.bots@, d)
}

/// Whether the settlement leaves the dealer below the minimum bet.
pub open spec fn settle_wipes_dealer(g: BlackjackGame) -> bool {
    clamp_coins(g.dealer.player.coins + round_settle_delta(g)) < MIN_BET
}

/// Every hand of the table fits and every payout stays within `u32`.
pub open spec fn settle_safe(g: BlackjackGame) -> bool {
    &&& g.bots@.len() == BOT_COUNT
    &&& g.human.player.hand.fits()
    &&& g.dealer.player.hand.fits()
    &&& payout_safe(g.human.player)
    &&& g.dealer.player.coins <= u32::MAX
    &&& forall|i: int|
        0 <= i < g.bots@.len() ==> (#[trigger] g.bots@[i]).player.hand.fits() && payout_safe(
            g.bots@[i].player,
        )
}

/// A normal settlement: every hand paid against the dealer's final hand, an outstanding insurance
/// stake kept by the house, the dealer's coins changed by the net flow (never below zero), and a
/// prestige for each winning hand when the dealer is wiped out.
pub open spec fn round_settled(pre: BlackjackGame, post: BlackjackGame, r: SettleReport) -> bool {
    &&& ({
        let g = pre;
        let d = g.dealer.player.hand@;
        let wiped = settle_wipes_dealer(g);
        &&& r.human == hand_result(g.human.player, d)
        &&& r.insurance_lost == (g.human.player.insurance_bet > 0)
        &&& r.dealer_wiped_out == wiped
        &&& r.bots@.len() == g.bots@.len()
        &&& forall|i: int|
            0 <= i < g.bots@.len() ==> #[trigger] r.bots@[i] == hand_result(
                g.bots@[i].player,
                d,
            )
        &&& post.human.player == awarded(
            Player { insurance_bet: 0, ..settled_player(g.human.player, d) },
            wiped && result_won(hand_result(g.human.player, d)),
        )
        &&& post.dealer.player == (Player {
            coins: clamp_coins(g.dealer.player.coins + round_settle_delta(g)),
            ..g.dealer.player
        })
        &&& post.bots@.len() == g.bots@.len()
        &&& forall|i: int|
            0 <= i < g.bots@.len() ==> (#[trigger] post.bots@[i]).player == awarded(
                settled_player(g.bots@[i].player, d),
                wiped && result_won(hand_result(g.bots@[i].player, d)),
            )
        &&& post.deck == g.deck
        &&& post.round_number == g.round_number
        &&& post.winnings == g.winnings
        &&& post.quit_requested == g.quit_requested
    })
}

/// Pays out every hand against the dealer's final hand. If the round drains
/// the dealer's bankroll below the minimum bet, every player with a winning
/// hand earns +1 prestige.
fn settle_round(game: &mut BlackjackGame) -> (r: SettleReport)
    requires
        settle_safe(*old(game)),
    ensures
        round_settled(*old(game), *final(game), r),
{
    let ghost g = *game;
    let ghost d = game.dealer.player.hand@;
    let (human_delta, human_result) = settle_hand(&mut game.human.player, &game.dealer.player.hand);
    let mut dealer_delta: i64 = human_delta;
    let insurance_lost = game.human.player.has_insurance();
    if insurance_lost {
        dealer_delta = dealer_delta + game.human.player.insurance_bet as i64;
        game.human.player.lose_insurance();
    }
    let ghost mid = *game;
    let mut results: Vec<HandResult> = Vec::new();
    let mut won: Vec<bool> = Vec::new();
    let mut i: usize = 0;
    proof {
        assert(g.bots@.take(0) =~= Seq::<BotPlayer>::empty());
    }
    while i < game.bots.len()
        invariant
            i <= game.bots@.len(),
            game.bots@.len() == g.bots@.len(),
            g.bots@.len() == BOT_COUNT,
            forall|j: int|
                0 <= j < i ==> (#[trigger] game.bots@[j]).player == settled_player(
                    g.bots@[j].player,
                    d,
                ),
            forall|j: int| i <= j < game.bots@.len() ==> #[trigger] game.bots@[j] == g.bots@[j],
            forall|j: int|
                0 <= j < g.bots@.len() ==> (#[trigger] g.bots@[j]).player.hand.fits()
                    && payout_safe(g.bots@[j].player),
            results@.len() == i,
            won@.len() == i,
            forall|j: int|
                0 <= j < i ==> #[trigger] results@[j] == hand_result(g.bots@[j].player, d),
            forall|j: int|
                0 <= j < i ==> #[trigger] won@[j] == result_won(hand_result(g.bots@[j].player, d)),
            dealer_delta == settle_delta(g.human.player, d) + g.human.player.insurance_bet
                + bots_settle_delta(g.bots@.take(i as int), d),
            -0x1_0000_0000 * (i + 2) <= dealer_delta <= 0x1_0000_0000 * (i + 2),
            game.human == mid.human,
            game.dealer == g.dealer,
            d == g.dealer.player.hand@,
            game.dealer.player.hand.fits(),
            game.deck == g.deck,
            game.round_number == g.round_number,
            game.winnings == g.winnings,
            game.quit_requested == g.quit_requested,
        decreases game.bots@.len() - i,
    {
        let (delta, result) = settle_hand(&mut game.bots[i].player, &game.dealer.player.hand);
        proof {
            assert(g.bots@.take(i + 1).drop_last() =~= g.bots@.take(i as int));
        }
        dealer_delta = dealer_delta + delta;
        results.push(result);
        won.push(result == HandResult::Blackjack || result == HandResult::Win);
        i = i + 1;
    }
    proof {
        assert(g.bots@.take(i as int) =~= g.bots@);
    }
    apply_dealer_delta(game, dealer_delta);
    let wiped = game.dealer_is_broke();
    if wiped {
        if human_result == HandResult::Blackjack || human_result == HandResult::Win {
            game.human.player.add_prestige();
        }
        let ghost before = *game;
        let mut j: usize = 0;
        while j < game.bots.len()
            invariant
                j <= game.bots@.len(),
                game.bots@.len() == g.bots@.len(),
                won@.len() == g.bots@.len(),
                forall|k: int|
                    0 <= k < j ==> (#[trigger] game.bots@[k]).player == awarded(
                        before.bots@[k].player,
                        won@[k],
                    ),
                forall|k: int| j <= k < game.bots@.len() ==> #[trigger] game.bots@[k] == before.bots@[k],
                forall|k: int|
                    0 <= k < g.bots@.len() ==> (#[trigger] before.bots@[k]).player.prestige
                        < u32::MAX,
                game.human == before.human,
                game.dealer == before.dealer,
                game.deck == before.deck,
                game.round_number == before.round_number,
                game.winnings == before.winnings,
                game.quit_requested == before.quit_requested,
            decreases game.bots@.len() - j,
        {
            if won[j] {
                game.bots[j].player.add_prestige();
            }
            j = j + 1;
        }
    }
    SettleReport { human: human_result, insurance_lost, bots: results, dealer_wiped_out: wiped }
}


/// What became of the human's insurance stake.
#[derive(Debug, Clone, Copy, PartialEq, Eq, Structural)]
pub enum InsuranceResult {
    /// No insurance was bought.
    NoInsurance,
    /// The stake paid 2:1; `payout` coins (stake plus winnings) came back.
    Won { payout: u32 },
    /// The stake was lost.
    Lost,
}

/// How the round was settled after the dealer peeked a natural.
#[derive(Debug, Clone)]
pub struct DealerBlackjackReport {
    /// The human's insurance.
    pub insurance: InsuranceResult,
    /// The human's hand.
    pub human: HandResult,
    /// Each bot's hand, in seat order.
    pub bots: Vec<HandResult>,
}

/// The human after the insurance stake is resolved: paid 2:1 (stake plus
/// twice the stake) on a dealer natural, forfeited otherwise.
pub open spec fn insured(p: Player, dealer: Seq<Card>) -> Player {
    if p.insurance_bet == 0 {
        p
    } else if hand_is_blackjack(dealer) {
        Player { coins: (p.coins + 3 * p.insurance_bet) as u32, insurance_bet: 0, ..p }
    } else {
        Player { insurance_bet: 0, ..p }
    }
}

/// The dealer's coin change from the insurance stake.
pub open spec fn insurance_delta(p: Player, dealer: Seq<Card>) -> int {
    if p.insurance_bet == 0 {
        0
    } else if hand_is_blackjack(dealer) {
        -2 * p.insurance_bet
    } else {
        p.insurance_bet as int
    }
}

/// What the insurance report says of the stake.
pub open spec fn insurance_result(p: Player, dealer: Seq<Card>) -> InsuranceResult {
    if p.insurance_bet == 0 {
        InsuranceResult::NoInsurance
    } else if hand_is_blackjack(dealer) {
        InsuranceResult::Won { payout: (3 * p.insurance_bet) as u32 }
    } else {
        InsuranceResult::Lost
    }
}

/// The dealer's total coin change when it has a natural.
pub open spec fn natural_settle_delta(g: BlackjackGame) -> int {
    let d = g.dealer.player.hand@;
    let h = insured(g.human.player, d);
    insurance_delta(g.human.player, d) + natural_delta(h) + bots_natural_delta(g.bots@)
}

/// The settlement against a dealer natural: insurance pays 2:1, naturals push, every other hand
/// with a bet loses, and the dealer's coins change by the net flow (never below zero).
pub open spec fn natural_settled(
    pre: BlackjackGame,
    post: BlackjackGame,
    r: DealerBlackjackReport,
) -> bool {
    &&& ({
        let g = pre;
        let d = g.dealer.player.hand@;
        let h = insured(g.human.player, d);
        &&& r.insurance == insurance_result(g.human.player, d)
        &&& r.human == natural_result(h)
        &&& r.bots@.len() == g.bots@.len()
        &&& forall|i: int|
            0 <= i < g.bots@.len() ==> #[trigger] r.bots@[i] == natural_result(
                g.bots@[i].player,
            )
        &&& post.human.player == settled_vs_natural(h)
        &&& post.dealer.player == (Player {
            coins: clamp_coins(g.dealer.player.coins + natural_settle_delta(g)),
            ..g.dealer.player
        })
        &&& post.bots@.len() == g.bots@.len()
        &&& forall|i: int|
            0 <= i < g.bots@.len() ==> (#[trigger] post.bots@[i]).player
                == settled_vs_natural(g.bots@[i].player)
        &&& post.deck == g.deck
        &&& post.round_number == g.round_number
        &&& post.winnings == g.winnings
        &&& post.quit_requested == g.quit_requested
    })
}

/// Resolves the round when the dealer peeked a natural blackjack:
/// insurance pays 2:1, naturals push, everything else loses.
fn settle_dealer_blackjack(game: &mut BlackjackGame) -> (r: DealerBlackjackReport)
    requires
        settle_safe(*old(game)),
    ensures
        natural_settled(*old(game), *final(game), r),
{
    let ghost g = *game;
    let ghost d = game.dealer.player.hand@;
    let mut dealer_delta: i64 = 0;
    let mut insurance = InsuranceResult::NoInsurance;
    if game.human.player.has_insurance() {
        let stake = game.human.player.insurance_bet;
        if check_insurance_payout(&game.dealer.player.hand) {
            game.human.player.win_insurance();
            dealer_delta = dealer_delta - 2 * stake as i64;
            insurance = InsuranceResult::Won { payout: stake * 3 };
        } else {
            game.human.player.lose_insurance();
            dealer_delta = dealer_delta + stake as i64;
            insurance = InsuranceResult::Lost;
        }
    }
    let (human_delta, human_result) = settle_against_dealer_blackjack(&mut game.human.player);
    dealer_delta = dealer_delta + human_delta;
    let ghost mid = *game;
    let mut results: Vec<HandResult> = Vec::new();
    let mut i: usize = 0;
    proof {
        assert(g.bots@.take(0) =~= Seq::<BotPlayer>::empty());
    }
    while i < game.bots.len()
        invariant
            i <= game.bots@.len(),
            game.bots@.len() == g.bots@.len(),
            g.bots@.len() == BOT_COUNT,
            forall|j: int|
                0 <= j < i ==> (#[trigger] game.bots@[j]).player == settled_vs_natural(
                    g.bots@[j].player,
                ),
            forall|j: int| i <= j < game.bots@.len() ==> #[trigger] game.bots@[j] == g.bots@[j],
            forall|j: int|
                0 <= j < g.bots@.len() ==> (#[trigger] g.bots@[j]).player.hand.fits()
                    && payout_safe(g.bots@[j].player),
            results@.len() == i,
            forall|j: int| 0 <= j < i ==> #[trigger] results@[j] == natural_result(g.bots@[j].player),
            dealer_delta == insurance_delta(g.human.player, d) + natural_delta(
                insured(g.human.player, d),
            ) + bots_natural_delta(g.bots@.take(i as int)),
            -0x1_0000_0000 * (i + 3) <= dealer_delta <= 0x1_0000_0000 * (i + 3),
            game.human == mid.human,
            game.dealer == g.dealer,
            game.deck == g.deck,
            game.round_number == g.round_number,
            game.winnings == g.winnings,
            game.quit_requested == g.quit_requested,
        decreases game.bots@.len() - i,
    {
        let (delta, result) = settle_against_dealer_blackjack(&mut game.bots[i].player);
        proof {
            assert(g.bots@.take(i + 1).drop_last() =~= g.bots@.take(i as int));
        }
        dealer_delta = dealer_delta + delta;
        results.push(result);
        i = i + 1;
    }
    proof {
        assert(g.bots@.take(i as int) =~= g.bots@);
    }
    apply_dealer_delta(game, dealer_delta);
    DealerBlackjackReport { insurance, human: human_result, bots: results }
}

/// Voiding the hand: every bet and insurance stake goes back to its owner.
pub open spec fn refunded(pre: BlackjackGame, post: BlackjackGame) -> bool {
    &&& post.human.player == (Player {
        coins: (pre.human.player.coins + pre.human.player.bet
            + pre.human.player.insurance_bet) as u32,
        ..pre.human.player
    })
    &&& post.bots@.len() == pre.bots@.len()
    &&& forall|i: int|
        0 <= i < pre.bots@.len() ==> (#[trigger] post.bots@[i]).player == (Player {
            coins: (pre.bots@[i].player.coins + pre.bots@[i].player.bet) as u32,
            ..pre.bots@[i].player
        })
    &&& post == (BlackjackGame { human: post.human, bots: post.bots, ..pre })
}

/// Voids the hand in progress: every wagered coin (bets and insurance)
/// goes back to its owner. The dealer has not collected or paid anything
/// before settlement, so it needs no refund.
fn refund_bets(game: &mut BlackjackGame)
    requires
        old(game).human.player.coins + old(game).human.player.bet
            + old(game).human.player.insurance_bet <= u32::MAX,
        forall|i: int|
            0 <= i < old(game).bots@.len() ==> (#[trigger] old(game).bots@[i]).player.coins
                + old(game).bots@[i].player.bet <= u32::MAX,
    ensures
        refunded(*old(game), *final(game)),
{
    game.human.player.coins = game.human.player.coins + game.human.player.bet
        + game.human.player.insurance_bet;
    let ghost mid = *game;
    let mut i: usize = 0;
    while i < game.bots.len()
        invariant
            i <= game.bots@.len(),
            game.bots@.len() == mid.bots@.len(),
            forall|j: int|
                0 <= j < i ==> (#[trigger] game.bots@[j]).player == (Player {
                    coins: (mid.bots@[j].player.coins + mid.bots@[j].player.bet) as u32,
                    ..mid.bots@[j].player
                }),
            forall|j: int| i <= j < game.bots@.len() ==> #[trigger] game.bots@[j] == mid.bots@[j],
            forall|j: int|
                0 <= j < mid.bots@.len() ==> (#[trigger] mid.bots@[j]).player.coins
                    + mid.bots@[j].player.bet <= u32::MAX,
            *game == (BlackjackGame { bots: game.bots, ..mid }),
        decreases game.bots@.len() - i,
    {
        let coins = game.bots[i].player.coins + game.bots[i].player.bet;
        game.bots[i].player.coins = coins;
        i = i + 1;
    }
}

/// Clears a player's per-round state.
pub open spec fn cleared(p: Player) -> Player {
    Player {
        hand: p.hand,
        bet: 0,
        insurance_bet: 0,
        has_surrendered: false,
        ..p
    }
}

/// Whether `p` is `before` with its hand emptied and its per-round state cleared.
pub open spec fn is_cleared(before: Player, p: Player) -> bool {
    p == Player { hand: p.hand, ..cleared(before) } && p.hand@ == Seq::<Card>::empty()
}

/// The end of a round: hands and per-round state cleared, the human's coin change banked in the
/// winnings, and the table reset when the dealer ran dry while the human can still play.
pub open spec fn round_finished(
    pre: BlackjackGame,
    post: BlackjackGame,
    coins_before: u32,
    reset: bool,
) -> bool {
    &&& reset == (!pre.game_over() && pre.dealer_broke())
    &&& post.winnings == if reset {
        pre.winnings + PLAYER_START_COINS - coins_before
    } else {
        pre.winnings + pre.human.player.coins - coins_before
    }
    &&& is_cleared(
        if reset {
            Player { coins: PLAYER_START_COINS, points: 0, ..pre.human.player }
        } else {
            pre.human.player
        },
        post.human.player,
    )
    &&& is_cleared(
        if reset {
            Player {
                coins: (PLAYER_START_COINS * DEALER_RESET_MULTIPLIER) as u32,
                points: 0,
                ..pre.dealer.player
            }
        } else {
            pre.dealer.player
        },
        post.dealer.player,
    )
    &&& post.bots@.len() == pre.bots@.len()
    &&& forall|i: int|
        0 <= i < pre.bots@.len() ==> is_cleared(
            if reset {
                Player { coins: PLAYER_START_COINS, points: 0, ..pre.bots@[i].player }
            } else {
                pre.bots@[i].player
            },
            (#[trigger] post.bots@[i]).player,
        )
    &&& post.deck == pre.deck
    &&& post.round_number == pre.round_number
    &&& post.quit_requested == pre.quit_requested
}

/// Cleans up hands, banks the round's net winnings, and resets the table
/// when the dealer ran dry while the human can still play. Returns whether
/// the table was reset.
fn finish_round(game: &mut BlackjackGame, coins_before: u32) -> (reset: bool)
    requires
        i64::MIN <= old(game).winnings + old(game).human.player.coins - coins_before <= i64::MAX,
        i64::MIN <= old(game).winnings + PLAYER_START_COINS - coins_before <= i64::MAX,
    ensures
        round_finished(*old(game), *final(game), coins_before, reset),
{
    game.human.player.clear_hand();
    let ghost mid = *game;
    let mut i: usize = 0;
    while i < game.bots.len()
        invariant
            i <= game.bots@.len(),
            game.bots@.len() == mid.bots@.len(),
            forall|j: int|
                0 <= j < i ==> is_cleared(mid.bots@[j].player, (#[trigger] game.bots@[j]).player),
            forall|j: int| i <= j < game.bots@.len() ==> #[trigger] game.bots@[j] == mid.bots@[j],
            *game == (BlackjackGame { bots: game.bots, ..mid }),
        decreases game.bots@.len() - i,
    {
        game.bots[i].player.clear_hand();
        i = i + 1;
    }
    game.dealer.player.clear_hand();
    game.winnings = game.winnings + (game.human.player.coins as i64 - coins_before as i64);
    if !game.is_game_over() && game.dealer_is_broke() {
        game.reset_game();
        true
    } else {
        false
    }
}


/// The dealer's turn as seen from the table: only the dealer's hand and the
/// deck change; the dealer draws `drawn`, hitting at every step before the
/// last card and standing afterwards (hits below 17 and on soft 17).
pub open spec fn dealer_played(pre: BlackjackGame, post: BlackjackGame, drawn: Seq<Card>) -> bool {
    &&& post == (BlackjackGame { dealer: post.dealer, deck: post.deck, ..pre })
    &&& post.dealer.player == (Player { hand: post.dealer.player.hand, ..pre.dealer.player })
    &&& post.dealer.player.hand@ == pre.dealer.player.hand@ + drawn
    &&& post.dealer.player.hand.fits()
    &&& !dealer_hits(post.dealer.player.hand@)
    &&& forall|k: int|
        0 <= k < drawn.len() ==> dealer_hits(#[trigger] (pre.dealer.player.hand@ + drawn.take(k)))
    &&& draws_from(pre.deck@, post.deck@, drawn)
}

/// The start of a round: the round count goes up, and a deck below the
/// reshuffle threshold is replaced by a freshly shuffled standard deck.
pub open spec fn begun(pre: BlackjackGame, post: BlackjackGame, reshuffled: bool) -> bool {
    &&& post == (BlackjackGame {
        round_number: (pre.round_number + 1) as u32,
        deck: post.deck,
        ..pre
    })
    &&& reshuffled == (pre.deck@.len() < RESHUFFLE_THRESHOLD)
    &&& reshuffled ==> post.deck@.len() == 52 && post.deck@.to_multiset()
        == standard_deck().to_multiset()
    &&& !reshuffled ==> post.deck == pre.deck
}

/// Voiding a round after a quit: every wager refunded and the round uncounted.
pub open spec fn voided(pre: BlackjackGame, post: BlackjackGame) -> bool {
    &&& post.round_number == pre.round_number - 1
    &&& refunded(pre, BlackjackGame { round_number: pre.round_number, ..post })
}

/// The shared bookkeeping of a round in progress whose round count was raised.
pub open spec fn in_round(g: BlackjackGame, coins_before: u32) -> bool {
    &&& g.structure_ok()
    &&& g.round_number >= 1
    &&& g.winnings == coins_before - PLAYER_START_COINS
}

/// Bets are out: the human's coins and stakes add up to what it held when
/// the round began, an insurance stake is at most half the bet, and every
/// payout of the stakes still fits the `u32` counters.
pub open spec fn bets_out(g: BlackjackGame, coins_before: u32) -> bool {
    &&& g.human.player.bet > 0
    &&& g.human.player.coins + g.human.player.bet + g.human.player.insurance_bet == coins_before
    &&& g.human.player.insurance_bet <= g.human.player.bet / 2
    &&& coins_before + 3 * g.human.player.bet <= u32::MAX
    &&& g.bot(0).coins + 3 * g.bot(0).bet <= u32::MAX
    &&& g.bot(1).coins + 3 * g.bot(1).bet <= u32::MAX
    &&& scores_below_max(g.human.player)
    &&& scores_below_max(g.bot(0))
    &&& scores_below_max(g.bot(1))
}

/// Nobody holds a card yet.
pub open spec fn hands_empty(g: BlackjackGame) -> bool {
    &&& g.human.player.hand@.len() == 0
    &&& g.dealer.player.hand@.len() == 0
    &&& forall|i: int| 0 <= i < g.bots@.len() ==> (#[trigger] g.bots@[i]).player.hand@.len() == 0
}

/// A round about to be finished: the table's shape, and the winnings as
/// when the round began.
pub open spec fn finishing(g: BlackjackGame, coins_before: u32) -> bool {
    &&& g.structure_ok()
    &&& g.winnings == coins_before - PLAYER_START_COINS
}

/// Where a round stands between two steps.
#[derive(Debug, Clone, Copy, PartialEq, Eq, Structural)]
pub enum RoundPhase {
    /// A new round is about to begin.
    Start,
    /// Waiting for the human's bet; `coins_before` are the human's coins at the start of the round.
    AwaitBet { coins_before: u32 },
    /// Bets are placed; the cards are to be dealt.
    Deal { coins_before: u32 },
    /// The cards are dealt; insurance is to be offered if the dealer shows an ace.
    OfferInsurance { coins_before: u32 },
    /// Waiting for the human's insurance answer.
    AwaitInsurance { coins_before: u32 },
    /// The dealer peeks for a natural (or the round is voided after a quit).
    Peek { coins_before: u32 },
    /// The human's turn continues.
    HumanTurn { coins_before: u32, first_decision: bool },
    /// Waiting for the human's decision.
    AwaitAction { coins_before: u32, first_decision: bool },
    /// Bot `index` plays its turn.
    BotTurn { coins_before: u32, index: usize },
    /// The dealer reveals and plays.
    DealerTurn { coins_before: u32 },
    /// Every hand is paid out.
    Settle { coins_before: u32 },
    /// The round is voided after a quit.
    Void { coins_before: u32 },
    /// Hands are cleared and the table is reset if the dealer ran dry.
    Finish { coins_before: u32 },
    /// The round is over.
    Done,
}

/// What the caller hands to a step: the human's answer to the pending prompt.
#[derive(Debug, Clone, Copy, PartialEq, Eq, Structural)]
pub enum RoundInput {
    /// No answer is needed.
    Proceed,
    /// The chosen bet, or `None` to quit.
    Bet(Option<u32>),
    /// The insurance answer, or `None` to quit.
    Insurance(Option<bool>),
    /// The chosen action, or `None` to quit.
    Action(Option<PlayerAction>),
}

/// What a step did, for the caller to show.
#[derive(Debug, Clone)]
pub enum RoundEvent {
    /// The round began; the deck was replaced when `reshuffled`.
    Begun { reshuffled: bool },
    /// The human quit instead of betting.
    QuitAtBet,
    /// The human bet and the bots matched.
    BetsTaken,
    /// The cards were dealt.
    Dealt,
    /// The insurance offer for this round.
    Insurance(InsuranceOffer),
    /// The human bought insurance.
    InsuranceBought,
    /// The human declined insurance.
    InsuranceDeclined,
    /// The human quit at the insurance prompt.
    QuitAtInsurance,
    /// A quit is pending: the round will be voided.
    Voiding,
    /// The dealer had a natural and the round was settled.
    DealerBlackjack(DealerBlackjackReport),
    /// The dealer has no natural.
    NoDealerBlackjack,
    /// The human's turn status before a decision.
    HumanStatus(HumanTurnStatus),
    /// The human's decision and its effect.
    Human(HumanStep),
    /// A bot's turn.
    Bot(BotTurnReport),
    /// The dealer played and drew these cards.
    DealerPlayed(Vec<Card>),
    /// No hand was live: the dealer did not play.
    DealerSkipped,
    /// The round was settled.
    Settled(SettleReport),
    /// The round was voided and the bets refunded.
    Voided,
    /// The round is finished; the table was reset when `reset`.
    Finished { reset: bool },
    /// Nothing happened: the round is over.
    Idle,
}

/// What the table must satisfy in each phase of a round.
pub open spec fn round_ok(g: BlackjackGame, phase: RoundPhase) -> bool {
    match phase {
        RoundPhase::Start => g.at_rest(),
        RoundPhase::Done => g.at_rest(),
        RoundPhase::AwaitBet { coins_before } => {
            &&& in_round(g, coins_before)
            &&& g.idle()
            &&& g.human.player.coins == coins_before
        },
        RoundPhase::Deal { coins_before } => {
            &&& in_round(g, coins_before)
            &&& bets_out(g, coins_before)
            &&& hands_empty(g)
            &&& g.human.player.insurance_bet == 0
        },
        RoundPhase::OfferInsurance { coins_before } => {
            &&& in_round(g, coins_before)
            &&& bets_out(g, coins_before)
            &&& g.dealer.player.hand@.len() == 2
            &&& g.human.player.hand@.len() == 2
            &&& g.human.player.insurance_bet == 0
        },
        RoundPhase::AwaitInsurance { coins_before } => {
            &&& in_round(g, coins_before)
            &&& bets_out(g, coins_before)
            &&& g.dealer.player.hand@.len() == 2
            &&& g.human.player.coins >= g.human.player.bet / 2
            &&& g.human.player.insurance_bet == 0
            &&& g.human.player.hand@.len() == 2
        },
        RoundPhase::Peek { coins_before } => {
            &&& in_round(g, coins_before)
            &&& bets_out(g, coins_before)
            &&& g.dealer.player.hand@.len() == 2
            &&& g.human.player.hand@.len() == 2
        },
        RoundPhase::HumanTurn { coins_before, first_decision } => {
            &&& in_round(g, coins_before)
            &&& bets_out(g, coins_before)
            &&& g.dealer.player.hand@.len() == 2
            &&& !hand_is_busted(g.human.player.hand@)
        },
        RoundPhase::AwaitAction { coins_before, first_decision } => {
            &&& in_round(g, coins_before)
            &&& bets_out(g, coins_before)
            &&& g.dealer.player.hand@.len() == 2
            &&& hand_value(g.human.player.hand@) < 21
        },
        RoundPhase::BotTurn { coins_before, index } => {
            &&& in_round(g, coins_before)
            &&& bets_out(g, coins_before)
            &&& g.dealer.player.hand@.len() == 2
            &&& index < g.bots@.len()
        },
        RoundPhase::DealerTurn { coins_before } => {
            &&& in_round(g, coins_before)
            &&& bets_out(g, coins_before)
        },
        RoundPhase::Settle { coins_before } => {
            &&& in_round(g, coins_before)
            &&& bets_out(g, coins_before)
        },
        RoundPhase::Void { coins_before } => {
            &&& in_round(g, coins_before)
            &&& bets_out(g, coins_before)
        },
        RoundPhase::Finish { coins_before } => finishing(g, coins_before),
    }
}

/// The answer a phase needs: a bet the human can pay (or a quit) while
/// betting, with room in the counters for its payouts; an insurance answer;
/// an action, a surrender only on the first decision; and room to count one
/// more round.
pub open spec fn input_ok(g: BlackjackGame, phase: RoundPhase, input: RoundInput) -> bool {
    match phase {
        RoundPhase::Start => g.round_number < u32::MAX,
        RoundPhase::AwaitBet { .. } => input matches RoundInput::Bet(b) && (b matches Some(x)
            ==> is_bet_option(x) && x <= g.human.player.coins && g.room_for_bet(x)),
        RoundPhase::AwaitInsurance { .. } => input is Insurance,
        RoundPhase::AwaitAction { first_decision, .. } => input matches RoundInput::Action(a) && (
        !first_decision ==> a != Some(PlayerAction::Surrender)),
        _ => true,
    }
}

/// One step of a round: how the table changes, which phase comes next, and
/// what the step reports.
pub open spec fn round_step(
    pre: BlackjackGame,
    phase: RoundPhase,
    input: RoundInput,
    post: BlackjackGame,
    next: RoundPhase,
    event: RoundEvent,
) -> bool {
    match phase {
        RoundPhase::Start => {
            &&& next == RoundPhase::AwaitBet { coins_before: pre.human.player.coins }
            &&& event matches RoundEvent::Begun { reshuffled } && begun(pre, post, reshuffled)
        },
        RoundPhase::AwaitBet { coins_before } => match input {
            RoundInput::Bet(None) => {
                &&& next == RoundPhase::Finish { coins_before }
                &&& event matches RoundEvent::QuitAtBet
                &&& post == (BlackjackGame {
                    quit_requested: true,
                    round_number: (pre.round_number - 1) as u32,
                    ..pre
                })
            },
            RoundInput::Bet(Some(b)) => {
                &&& next == RoundPhase::Deal { coins_before }
                &&& event matches RoundEvent::BetsTaken
                &&& taken(pre, post, Some(b), true)
            },
            _ => false,
        },
        RoundPhase::Deal { coins_before } => {
            &&& next == RoundPhase::OfferInsurance { coins_before }
            &&& event matches RoundEvent::Dealt
            &&& dealt(pre, post)
        },
        RoundPhase::OfferInsurance { coins_before } => {
            let offer = insurance_offer_spec(pre);
            &&& post == pre
            &&& event matches RoundEvent::Insurance(o) && o == offer
            &&& next == if offer is Offered {
                RoundPhase::AwaitInsurance { coins_before }
            } else {
                RoundPhase::Peek { coins_before }
            }
        },
        RoundPhase::AwaitInsurance { coins_before } => match input {
            RoundInput::Insurance(answer) => {
                &&& next == RoundPhase::Peek { coins_before }
                &&& insurance_resolved(pre, post, answer)
                &&& answer == Some(true) ==> (event matches RoundEvent::InsuranceBought)
                &&& answer == Some(false) ==> (event matches RoundEvent::InsuranceDeclined)
                &&& answer is None ==> (event matches RoundEvent::QuitAtInsurance)
            },
            _ => false,
        },
        RoundPhase::Peek { coins_before } => {
            if pre.quit_requested {
                &&& post == pre
                &&& next == RoundPhase::Void { coins_before }
                &&& event matches RoundEvent::Voiding
            } else if hand_is_blackjack(pre.dealer.player.hand@) {
                &&& next == RoundPhase::Finish { coins_before }
                &&& event matches RoundEvent::DealerBlackjack(r) && natural_settled(pre, post, r)
            } else {
                &&& post == pre
                &&& next == RoundPhase::HumanTurn { coins_before, first_decision: true }
                &&& event matches RoundEvent::NoDealerBlackjack
            }
        },
        RoundPhase::HumanTurn { coins_before, first_decision } => {
            let status = human_status_spec(pre.human.player.hand@);
            &&& post == pre
            &&& event matches RoundEvent::HumanStatus(s) && s == status
            &&& next == if status == HumanTurnStatus::Decide {
                RoundPhase::AwaitAction { coins_before, first_decision }
            } else {
                RoundPhase::BotTurn { coins_before, index: 0 }
            }
        },
        RoundPhase::AwaitAction { coins_before, first_decision } => match input {
            RoundInput::Action(action) => event matches RoundEvent::Human(step) && human_acted(
                pre,
                post,
                action,
                step,
            ) && next == match step {
                HumanStep::Drew { card, busted } => if busted {
                    RoundPhase::BotTurn { coins_before, index: 0 }
                } else {
                    RoundPhase::HumanTurn { coins_before, first_decision: false }
                },
                HumanStep::Quit => RoundPhase::Void { coins_before },
                _ => RoundPhase::BotTurn { coins_before, index: 0 },
            },
            _ => false,
        },
        RoundPhase::BotTurn { coins_before, index } => {
            &&& event matches RoundEvent::Bot(r) && bot_turn_done(pre, post, index, r)
            &&& next == if index + 1 < pre.bots@.len() {
                RoundPhase::BotTurn { coins_before, index: (index + 1) as usize }
            } else {
                RoundPhase::DealerTurn { coins_before }
            }
        },
        RoundPhase::DealerTurn { coins_before } => {
            &&& next == RoundPhase::Settle { coins_before }
            &&& if dealer_must_play_spec(pre) {
                event matches RoundEvent::DealerPlayed(drawn) && dealer_played(pre, post, drawn@)
            } else {
                post == pre && event matches RoundEvent::DealerSkipped
            }
        },
        RoundPhase::Settle { coins_before } => {
            &&& next == RoundPhase::Finish { coins_before }
            &&& event matches RoundEvent::Settled(r) && round_settled(pre, post, r)
        },
        RoundPhase::Void { coins_before } => {
            &&& next == RoundPhase::Finish { coins_before }
            &&& event matches RoundEvent::Voided
            &&& voided(pre, post)
        },
        RoundPhase::Finish { coins_before } => {
            &&& next == RoundPhase::Done
            &&& event matches RoundEvent::Finished { reset } && round_finished(
                pre,
                post,
                coins_before,
                reset,
            )
        },
        RoundPhase::Done => {
            &&& next == RoundPhase::Done
            &&& event matches RoundEvent::Idle
            &&& post == pre
        },
    }
}

/// A hand of at most two cards fits.
proof fn lemma_short_hand_fits(h: Hand)
    requires
        h@.len() <= 2,
    ensures
        h.fits(),
{
    crate::models::hand::lemma_total_bounds(h@);
}

/// Two cards are never a bust: even two aces count 12.
proof fn lemma_two_cards_not_busted(h: Seq<Card>)
    requires
        h.len() == 2,
    ensures
        !hand_is_busted(h),
{
    reveal_with_fuel(crate::models::hand::cards_total, 3);
    reveal_with_fuel(crate::models::hand::ace_count, 3);
    let h1 = h.drop_last();
    assert(h1.drop_last() =~= Seq::<Card>::empty());
}

/// Begins a round: counts it and reshuffles a fresh deck when the deck runs low.
fn step_start(game: &mut BlackjackGame) -> (r: (RoundPhase, RoundEvent))
    requires
        round_ok(*old(game), RoundPhase::Start),
        input_ok(*old(game), RoundPhase::Start, RoundInput::Proceed),
    ensures
        round_ok(*final(game), r.0),
        round_step(*old(game), RoundPhase::Start, RoundInput::Proceed, *final(game), r.0, r.1),
{
    game.round_number = game.round_number + 1;
    let reshuffled = game.needs_reshuffle();
    if reshuffled {
        game.reshuffle_deck();
    }
    let coins_before = game.human.player.coins;
    (RoundPhase::AwaitBet { coins_before }, RoundEvent::Begun { reshuffled })
}

/// Takes the human's bet (the bots match it), or ends the round uncounted on a quit.
fn step_bet(game: &mut BlackjackGame, coins_before: u32, input: RoundInput) -> (r: (
    RoundPhase,
    RoundEvent,
))
    requires
        round_ok(*old(game), RoundPhase::AwaitBet { coins_before }),
        input_ok(*old(game), RoundPhase::AwaitBet { coins_before }, input),
    ensures
        round_ok(*final(game), r.0),
        round_step(
            *old(game),
            RoundPhase::AwaitBet { coins_before },
            input,
            *final(game),
            r.0,
            r.1,
        ),
{
    let bet = match input {
        RoundInput::Bet(b) => b,
        _ => None,
    };
    if take_bets(game, bet) {
        (RoundPhase::Deal { coins_before }, RoundEvent::BetsTaken)
    } else {
        game.round_number = game.round_number - 1;
        (RoundPhase::Finish { coins_before }, RoundEvent::QuitAtBet)
    }
}

/// Deals the initial cards.
fn step_deal(game: &mut BlackjackGame, coins_before: u32) -> (r: (RoundPhase, RoundEvent))
    requires
        round_ok(*old(game), RoundPhase::Deal { coins_before }),
    ensures
        round_ok(*final(game), r.0),
        round_step(
            *old(game),
            RoundPhase::Deal { coins_before },
            RoundInput::Proceed,
            *final(game),
            r.0,
            r.1,
        ),
{
    deal_initial_cards(game);
    proof {
        lemma_short_hand_fits(game.human.player.hand);
        lemma_short_hand_fits(game.dealer.player.hand);
        lemma_short_hand_fits(game.bots@[0].player.hand);
        lemma_short_hand_fits(game.bots@[1].player.hand);
    }
    (RoundPhase::OfferInsurance { coins_before }, RoundEvent::Dealt)
}

/// Decides whether insurance is offered: only when the dealer shows an ace.
fn step_offer_insurance(game: &mut BlackjackGame, coins_before: u32) -> (r: (RoundPhase, RoundEvent))
    requires
        round_ok(*old(game), RoundPhase::OfferInsurance { coins_before }),
    ensures
        round_ok(*final(game), r.0),
        round_step(
            *old(game),
            RoundPhase::OfferInsurance { coins_before },
            RoundInput::Proceed,
            *final(game),
            r.0,
            r.1,
        ),
{
    let offer = insurance_offer(game);
    let next = match offer {
        InsuranceOffer::Offered { .. } => RoundPhase::AwaitInsurance { coins_before },
        _ => RoundPhase::Peek { coins_before },
    };
    (next, RoundEvent::Insurance(offer))
}

/// Applies the human's insurance answer.
fn step_insurance(game: &mut BlackjackGame, coins_before: u32, input: RoundInput) -> (r: (
    RoundPhase,
    RoundEvent,
))
    requires
        round_ok(*old(game), RoundPhase::AwaitInsurance { coins_before }),
        input_ok(*old(game), RoundPhase::AwaitInsurance { coins_before }, input),
    ensures
        round_ok(*final(game), r.0),
        round_step(
            *old(game),
            RoundPhase::AwaitInsurance { coins_before },
            input,
            *final(game),
            r.0,
            r.1,
        ),
{
    let answer = match input {
        RoundInput::Insurance(a) => a,
        _ => None,
    };
    resolve_insurance(game, answer);
    let event = match answer {
        Some(true) => RoundEvent::InsuranceBought,
        Some(false) => RoundEvent::InsuranceDeclined,
        None => RoundEvent::QuitAtInsurance,
    };
    (RoundPhase::Peek { coins_before }, event)
}

/// Voids the round after a quit, settles a dealer natural, or opens the human's turn.
fn step_peek(game: &mut BlackjackGame, coins_before: u32) -> (r: (RoundPhase, RoundEvent))
    requires
        round_ok(*old(game), RoundPhase::Peek { coins_before }),
    ensures
        round_ok(*final(game), r.0),
        round_step(
            *old(game),
            RoundPhase::Peek { coins_before },
            RoundInput::Proceed,
            *final(game),
            r.0,
            r.1,
        ),
{
    if game.is_quit() {
        (RoundPhase::Void { coins_before }, RoundEvent::Voiding)
    } else if check_dealer_blackjack(&game.dealer.player.hand) {
        let report = settle_dealer_blackjack(game);
        (RoundPhase::Finish { coins_before }, RoundEvent::DealerBlackjack(report))
    } else {
        proof {
            lemma_two_cards_not_busted(game.human.player.hand@);
        }
        (RoundPhase::HumanTurn { coins_before, first_decision: true }, RoundEvent::NoDealerBlackjack)
    }
}

/// Continues the human's turn: a natural or a 21 ends it, otherwise a decision is needed.
fn step_human_turn(game: &mut BlackjackGame, coins_before: u32, first_decision: bool) -> (r: (
    RoundPhase,
    RoundEvent,
))
    requires
        round_ok(*old(game), RoundPhase::HumanTurn { coins_before, first_decision }),
    ensures
        round_ok(*final(game), r.0),
        round_step(
            *old(game),
            RoundPhase::HumanTurn { coins_before, first_decision },
            RoundInput::Proceed,
            *final(game),
            r.0,
            r.1,
        ),
{
    let status = human_turn_status(game);
    let next = match status {
        HumanTurnStatus::Decide => RoundPhase::AwaitAction { coins_before, first_decision },
        _ => RoundPhase::BotTurn { coins_before, index: 0 },
    };
    (next, RoundEvent::HumanStatus(status))
}

/// Applies the human's decision: hit, stand, surrender, or quit.
fn step_human_action(
    game: &mut BlackjackGame,
    coins_before: u32,
    first_decision: bool,
    input: RoundInput,
) -> (r: (RoundPhase, RoundEvent))
    requires
        round_ok(*old(game), RoundPhase::AwaitAction { coins_before, first_decision }),
        input_ok(*old(game), RoundPhase::AwaitAction { coins_before, first_decision }, input),
    ensures
        round_ok(*final(game), r.0),
        round_step(
            *old(game),
            RoundPhase::AwaitAction { coins_before, first_decision },
            input,
            *final(game),
            r.0,
            r.1,
        ),
{
    let action = match input {
        RoundInput::Action(a) => a,
        _ => None,
    };
    let step = apply_human_action(game, action);
    proof {
        match action {
            Some(PlayerAction::Hit) => {
                assert(in_round(*game, coins_before));
                assert(bets_out(*game, coins_before));
            },
            Some(PlayerAction::Stand) => {},
            Some(PlayerAction::Surrender) => {
                assert(in_round(*game, coins_before));
                assert(bets_out(*game, coins_before));
            },
            None => {
                assert(in_round(*game, coins_before));
                assert(bets_out(*game, coins_before));
            },
        }
    }
    let next = match step {
        HumanStep::Drew { card, busted } => if busted {
            RoundPhase::BotTurn { coins_before, index: 0 }
        } else {
            RoundPhase::HumanTurn { coins_before, first_decision: false }
        },
        HumanStep::Quit => RoundPhase::Void { coins_before },
        _ => RoundPhase::BotTurn { coins_before, index: 0 },
    };
    (next, RoundEvent::Human(step))
}

/// Plays one bot's turn.
fn step_bot(game: &mut BlackjackGame, coins_before: u32, index: usize) -> (r: (RoundPhase, RoundEvent))
    requires
        round_ok(*old(game), RoundPhase::BotTurn { coins_before, index }),
    ensures
        round_ok(*final(game), r.0),
        round_step(
            *old(game),
            RoundPhase::BotTurn { coins_before, index },
            RoundInput::Proceed,
            *final(game),
            r.0,
            r.1,
        ),
{
    let report = play_bot_turn(game, index);
    let next = if index + 1 < game.bots.len() {
        RoundPhase::BotTurn { coins_before, index: index + 1 }
    } else {
        RoundPhase::DealerTurn { coins_before }
    };
    (next, RoundEvent::Bot(report))
}

/// Plays the dealer's turn when some hand is still live.
fn step_dealer(game: &mut BlackjackGame, coins_before: u32) -> (r: (RoundPhase, RoundEvent))
    requires
        round_ok(*old(game), RoundPhase::DealerTurn { coins_before }),
    ensures
        round_ok(*final(game), r.0),
        round_step(
            *old(game),
            RoundPhase::DealerTurn { coins_before },
            RoundInput::Proceed,
            *final(game),
            r.0,
            r.1,
        ),
{
    if dealer_must_play(game) {
        let drawn = game.dealer.play_turn(&mut game.deck);
        (RoundPhase::Settle { coins_before }, RoundEvent::DealerPlayed(drawn))
    } else {
        (RoundPhase::Settle { coins_before }, RoundEvent::DealerSkipped)
    }
}

/// Pays out every hand against the dealer's final hand.
fn step_settle(game: &mut BlackjackGame, coins_before: u32) -> (r: (RoundPhase, RoundEvent))
    requires
        round_ok(*old(game), RoundPhase::Settle { coins_before }),
    ensures
        round_ok(*final(game), r.0),
        round_step(
            *old(game),
            RoundPhase::Settle { coins_before },
            RoundInput::Proceed,
            *final(game),
            r.0,
            r.1,
        ),
{
    let report = settle_round(game);
    (RoundPhase::Finish { coins_before }, RoundEvent::Settled(report))
}

/// Voids the hand in progress after an early quit: refunds every wager and
/// unwinds the round count.
fn void_round_on_quit(game: &mut BlackjackGame, coins_before: u32) -> (r: (RoundPhase, RoundEvent))
    requires
        round_ok(*old(game), RoundPhase::Void { coins_before }),
    ensures
        round_ok(*final(game), r.0),
        round_step(
            *old(game),
            RoundPhase::Void { coins_before },
            RoundInput::Proceed,
            *final(game),
            r.0,
            r.1,
        ),
{
    refund_bets(game);
    game.round_number = game.round_number - 1;
    (RoundPhase::Finish { coins_before }, RoundEvent::Voided)
}

/// Cleans up the hands, banks the winnings, and resets the table if the dealer ran dry.
fn step_finish(game: &mut BlackjackGame, coins_before: u32) -> (r: (RoundPhase, RoundEvent))
    requires
        round_ok(*old(game), RoundPhase::Finish { coins_before }),
    ensures
        round_ok(*final(game), r.0),
        round_step(
            *old(game),
            RoundPhase::Finish { coins_before },
            RoundInput::Proceed,
            *final(game),
            r.0,
            r.1,
        ),
{
    let reset = finish_round(game, coins_before);
    (RoundPhase::Done, RoundEvent::Finished { reset })
}

/// Runs one step of a round: bets, deal, insurance, the human's decisions,
/// the bots' and the dealer's turns, settlement, and clean-up. Start with
/// [`RoundPhase::Start`] and call again with the returned phase (and, where
/// a prompt is pending, the human's answer) until [`RoundPhase::Done`].
/// An early quit voids the round, refunds the bets, and ends the session.
pub fn play_round(
    game: &mut BlackjackGame,
    phase: RoundPhase,
    input: RoundInput,
) -> (r: (RoundPhase, RoundEvent))
    requires
        round_ok(*old(game), phase),
        input_ok(*old(game), phase, input),
    ensures
        round_ok(*final(game), r.0),
        round_step(*old(game), phase, input, *final(game), r.0, r.1),
{
    match phase {
        RoundPhase::Start => step_start(game),
        RoundPhase::AwaitBet { coins_before } => step_bet(game, coins_before, input),
        RoundPhase::Deal { coins_before } => step_deal(game, coins_before),
        RoundPhase::OfferInsurance { coins_before } => step_offer_insurance(game, coins_before),
        RoundPhase::AwaitInsurance { coins_before } => step_insurance(game, coins_before, input),
        RoundPhase::Peek { coins_before } => step_peek(game, coins_before),
        RoundPhase::HumanTurn { coins_before, first_decision } => step_human_turn(
            game,
            coins_before,
            first_decision,
        ),
        RoundPhase::AwaitAction { coins_before, first_decision } => step_human_action(
            game,
            coins_before,
            first_decision,
            input,
        ),
        RoundPhase::BotTurn { coins_before, index } => step_bot(game, coins_before, index),
        RoundPhase::DealerTurn { coins_before } => step_dealer(game, coins_before),
        RoundPhase::Settle { coins_before } => step_settle(game, coins_before),
        RoundPhase::Void { coins_before } => void_round_on_quit(game, coins_before),
        RoundPhase::Finish { coins_before } => step_finish(game, coins_before),
        RoundPhase::Done => (RoundPhase::Done, RoundEvent::Idle),
    }
}

/// Settling a hand moves exactly the stake: what the player gets back plus
/// what the dealer collects equals the bet (a surrender returns half the bet,
/// rounded down, and the dealer collects the rest), and a hand without a bet
/// moves nothing.
pub proof fn law_settlement_moves_the_stake(p: Player, d: Seq<Card>)
    requires
        p.coins + 3 * p.bet <= u32::MAX,
        p.points < u32::MAX,
    ensures
        settled_player(p, d).coins - p.coins + settle_delta(p, d) == p.bet,
{
}

/// A normal settlement creates and loses no coin: when the dealer's coins
/// neither go below zero nor past `u32::MAX`, the coins held afterwards by
/// the human, the bots and the dealer are those held before plus every
/// stake that was out (the bets and the human's insurance).
pub proof fn law_settlement_conserves_coins(pre: BlackjackGame, post: BlackjackGame, r: SettleReport)
    requires
        settle_safe(pre),
        pre.human.player.points < u32::MAX,
        round_settled(pre, post, r),
        0 <= pre.dealer.player.coins + round_settle_delta(pre) <= u32::MAX,
    ensures
        post.coins_total() == pre.coins_total() + pre.human.player.bet
            + pre.human.player.insurance_bet + pre.bot(0).bet + pre.bot(1).bet,
        post.human.player.insurance_bet == 0,
{
    let d = pre.dealer.player.hand@;
    let bs = pre.bots@;
    reveal_with_fuel(bots_settle_delta, 3);
    let b1 = bs.drop_last();
    assert(b1.drop_last() =~= Seq::<BotPlayer>::empty());
    assert(b1.last() == bs[0]);
    assert(bots_settle_delta(bs, d) == settle_delta(bs[0].player, d) + settle_delta(
        bs[1].player,
        d,
    ));
    law_settlement_moves_the_stake(pre.human.player, d);
    law_settlement_moves_the_stake(bs[0].player, d);
    law_settlement_moves_the_stake(bs[1].player, d);
    assert(post.bots@[0].player.coins == settled_player(bs[0].player, d).coins);
    assert(post.bots@[1].player.coins == settled_player(bs[1].player, d).coins);
}

/// Against a dealer natural the stakes move exactly too: the bet and the
/// insurance stake end up with the player or the dealer, none created or lost.
pub proof fn law_natural_settlement_moves_the_stakes(p: Player, d: Seq<Card>)
    requires
        p.coins + 3 * p.bet + 3 * p.insurance_bet <= u32::MAX,
    ensures
        settled_vs_natural(insured(p, d)).coins - p.coins + insurance_delta(p, d) + natural_delta(
            insured(p, d),
        ) == if p.bet == 0 { 0 } else { p.bet as int } + p.insurance_bet,
{
}

/// Quitting in the middle of a round gives the human back every coin
/// wagered in it: after the void the human holds the coins it started the
/// round with, and the round is not counted.
pub proof fn law_quit_refunds_the_round(pre: BlackjackGame, post: BlackjackGame, coins_before: u32)
    requires
        round_ok(pre, RoundPhase::Void { coins_before }),
        voided(pre, post),
    ensures
        post.human.player.coins == coins_before,
        post.round_number == pre.round_number - 1,
{
}

/// When the dealer runs dry and the human can still play, the table starts
/// over: the human and bots with 100 coins, the dealer with 500, all points
/// cleared, the winnings back at zero, and the table's coins those of a fresh table.
pub proof fn law_reset_restores_the_table(
    pre: BlackjackGame,
    post: BlackjackGame,
    coins_before: u32,
)
    requires
        finishing(pre, coins_before),
        round_finished(pre, post, coins_before, true),
    ensures
        post.human.player.coins == PLAYER_START_COINS,
        post.dealer.player.coins == PLAYER_START_COINS * DEALER_RESET_MULTIPLIER,
        post.bots@[0].player.coins == PLAYER_START_COINS,
        post.bots@[1].player.coins == PLAYER_START_COINS,
        post.human.player.points == 0,
        post.coins_total() == table_coins(),
        post.winnings == 0,
{
    assert(post.bots@[0].player.coins == PLAYER_START_COINS);
    assert(post.bots@[1].player.coins == PLAYER_START_COINS);
}

/// Between rounds the net winnings are the human's coins minus the starting
/// coins, and nobody holds cards or has a wager out.
pub proof fn law_rest_winnings(g: BlackjackGame)
    requires
        g.at_rest(),
    ensures
        g.winnings == g.human.player.coins - PLAYER_START_COINS,
        g.human.player.bet == 0 && g.human.player.insurance_bet == 0,
        g.human.player.hand@.len() == 0 && g.dealer.player.hand@.len() == 0,
        g.bot(0).bet == 0 && g.bot(1).bet == 0,
{
}

/// A finished round leaves the table at rest, ready for the next round.
pub proof fn law_finished_round_is_at_rest(
    pre: BlackjackGame,
    post: BlackjackGame,
    coins_before: u32,
    reset: bool,
)
    requires
        finishing(pre, coins_before),
        round_finished(pre, post, coins_before, reset),
    ensures
        post.at_rest(),
{
    assert(post.bots@[0].player.hand@ == Seq::<Card>::empty());
    assert(post.bots@[1].player.hand@ == Seq::<Card>::empty());
    lemma_short_hand_fits(post.human.player.hand);
    lemma_short_hand_fits(post.dealer.player.hand);
    lemma_short_hand_fits(post.bots@[0].player.hand);
    lemma_short_hand_fits(post.bots@[1].player.hand);
}

/// A bot surrenders only on its first decision: a turn that ends in a
/// surrender drew no card, so the bot still holds the hand it was dealt.
pub proof fn law_bot_surrenders_only_first(
    pre: BlackjackGame,
    post: BlackjackGame,
    index: usize,
    r: BotTurnReport,
)
    requires
        index < pre.bots@.len(),
        bot_turn_done(pre, post, index, r),
    ensures
        r.end == BotTurnEnd::Surrendered ==> r.drawn@.len() == 0
            && post.bots@[index as int].player.hand@ == pre.bots@[index as int].player.hand@,
{
    if r.end == BotTurnEnd::Surrendered {
        assert(r.drawn@ =~= Seq::<Card>::empty());
        assert(pre.bots@[index as int].player.hand@ + r.drawn@ =~= pre.bots@[index as int].player.hand@);
    }
}

/// A bot's step of a round: a bot that holds its two dealt cards and has
/// not surrendered surrenders, if at all, without drawing, so a surrendered
/// bot still holds two cards; its old hand is the start of its new one; and
/// the human, the dealer and every other bot are unchanged.
pub proof fn law_bot_step(
    pre: BlackjackGame,
    post: BlackjackGame,
    coins_before: u32,
    index: usize,
    input: RoundInput,
    next: RoundPhase,
    event: RoundEvent,
)
    requires
        round_ok(pre, RoundPhase::BotTurn { coins_before, index }),
        round_step(pre, RoundPhase::BotTurn { coins_before, index }, input, post, next, event),
        pre.bot(index as int).hand@.len() == 2,
        !pre.bot(index as int).has_surrendered,
    ensures
        post.bot(index as int).has_surrendered ==> post.bot(index as int).hand@.len() == 2,
        pre.bot(index as int).hand@.is_prefix_of(post.bot(index as int).hand@),
        post.human == pre.human,
        post.dealer == pre.dealer,
        post.bots@.len() == pre.bots@.len(),
        forall|j: int| 0 <= j < pre.bots@.len() && j != index ==> #[trigger] post.bots@[j] == pre.bots@[j],
{
    let r = event->Bot_0;
    law_bot_surrenders_only_first(pre, post, index, r);
    let h0 = pre.bot(index as int).hand@;
    assert(post.bot(index as int).hand@ == h0 + r.drawn@);
    assert((h0 + r.drawn@).subrange(0, h0.len() as int) =~= h0);
}

/// Where a human decision leads: a hit that does not bust continues the
/// human's turn with surrender closed (not the first decision any more); a
/// hit that busts, a stand or a surrender passes play to the first bot; a
/// quit voids the round. So the human's turn never reopens the first decision.
pub proof fn law_human_decision_leads_on(
    pre: BlackjackGame,
    post: BlackjackGame,
    coins_before: u32,
    first_decision: bool,
    action: Option<PlayerAction>,
    next: RoundPhase,
    event: RoundEvent,
)
    requires
        round_step(
            pre,
            RoundPhase::AwaitAction { coins_before, first_decision },
            RoundInput::Action(action),
            post,
            next,
            event,
        ),
    ensures
        action == Some(PlayerAction::Hit) && !hand_is_busted(post.human.player.hand@) ==> next
            == (RoundPhase::HumanTurn { coins_before, first_decision: false }),
        action == Some(PlayerAction::Hit) && hand_is_busted(post.human.player.hand@) ==> next
            == (RoundPhase::BotTurn { coins_before, index: 0 }),
        action == Some(PlayerAction::Stand) || action == Some(PlayerAction::Surrender) ==> next
            == (RoundPhase::BotTurn { coins_before, index: 0 }),
        action is None ==> next == (RoundPhase::Void { coins_before }),
        next matches RoundPhase::HumanTurn { first_decision: f, .. } ==> !f,
{
}

/// A normal settlement (the dealer has no natural) forfeits the human's
/// insurance stake to the house: the human's coins grow by exactly what the
/// hand itself pays (half the bet on a surrender, stake plus 3:2 on a
/// natural, twice the stake on a win, the stake on a push, nothing on a
/// loss or without a bet) and the insurance stake is gone; the dealer's
/// coins change by the insurance stake plus, for each hand, the part of its
/// bet not paid back to the player (negative when the dealer pays), and
/// never go below zero.
pub proof fn law_normal_settlement_forfeits_insurance(
    pre: BlackjackGame,
    post: BlackjackGame,
    r: SettleReport,
)
    requires
        settle_safe(pre),
        pre.human.player.points < u32::MAX,
        round_settled(pre, post, r),
        pre.dealer.player.coins + round_settle_delta(pre) <= u32::MAX,
    ensures
        ({
            let p = pre.human.player;
            let b = p.bet as int;
            post.human.player.coins == p.coins + match hand_result(p, pre.dealer.player.hand@) {
                HandResult::NoBet => 0,
                HandResult::Surrendered => b / 2,
                HandResult::Blackjack => b + 3 * b / 2,
                HandResult::Win => 2 * b,
                HandResult::Push => b,
                HandResult::Loss => 0,
            }
        }),
        post.human.player.insurance_bet == 0,
        ({
            let net = pre.human.player.insurance_bet + (pre.human.player.bet - (
            post.human.player.coins - pre.human.player.coins)) + (pre.bot(0).bet - (
            post.bot(0).coins - pre.bot(0).coins)) + (pre.bot(1).bet - (post.bot(1).coins
                - pre.bot(1).coins));
            post.dealer.player.coins == if pre.dealer.player.coins + net < 0 {
                0
            } else {
                pre.dealer.player.coins + net
            }
        }),
{
    let d = pre.dealer.player.hand@;
    let bs = pre.bots@;
    reveal_with_fuel(bots_settle_delta, 3);
    let b1 = bs.drop_last();
    assert(b1.drop_last() =~= Seq::<BotPlayer>::empty());
    assert(b1.last() == bs[0]);
    assert(bots_settle_delta(bs, d) == settle_delta(bs[0].player, d) + settle_delta(
        bs[1].player,
        d,
    ));
    law_settlement_moves_the_stake(pre.human.player, d);
    law_settlement_moves_the_stake(bs[0].player, d);
    law_settlement_moves_the_stake(bs[1].player, d);
    assert(post.bots@[0].player.coins == settled_player(bs[0].player, d).coins);
    assert(post.bots@[1].player.coins == settled_player(bs[1].player, d).coins);
}

/// A settlement against a dealer natural pays an insurance stake 2:1 and
/// pushes naturals: the human's coins grow by three times the insurance
/// stake, plus the bet back when a natural rides on the hand; a bot's coins
/// grow by its bet when it holds a natural and stay put otherwise; the
/// dealer's coins change by every stake (bets and insurance) minus what the
/// players got back, and never go below zero.
pub proof fn law_natural_settlement_pays_insurance(
    pre: BlackjackGame,
    post: BlackjackGame,
    r: DealerBlackjackReport,
)
    requires
        settle_safe(pre),
        pre.bot(0).insurance_bet == 0,
        pre.bot(1).insurance_bet == 0,
        hand_is_blackjack(pre.dealer.player.hand@),
        natural_settled(pre, post, r),
        pre.dealer.player.coins + natural_settle_delta(pre) <= u32::MAX,
    ensures
        ({
            let p = pre.human.player;
            post.human.player.coins == p.coins + 3 * p.insurance_bet + if p.bet > 0
                && hand_is_blackjack(p.hand@) {
                p.bet as int
            } else {
                0
            }
        }),
        post.human.player.insurance_bet == 0,
        forall|i: int|
            0 <= i < 2 ==> (#[trigger] post.bot(i)).coins == pre.bot(i).coins + if pre.bot(i).bet
                > 0 && hand_is_blackjack(pre.bot(i).hand@) {
                pre.bot(i).bet as int
            } else {
                0
            },
        ({
            let net = (pre.human.player.bet + pre.human.player.insurance_bet - (
            post.human.player.coins - pre.human.player.coins)) + (pre.bot(0).bet - (
            post.bot(0).coins - pre.bot(0).coins)) + (pre.bot(1).bet - (post.bot(1).coins
                - pre.bot(1).coins));
            post.dealer.player.coins == if pre.dealer.player.coins + net < 0 {
                0
            } else {
                pre.dealer.player.coins + net
            }
        }),
{
    let d = pre.dealer.player.hand@;
    let bs = pre.bots@;
    reveal_with_fuel(bots_natural_delta, 3);
    let b1 = bs.drop_last();
    assert(b1.drop_last() =~= Seq::<BotPlayer>::empty());
    assert(b1.last() == bs[0]);
    assert(bots_natural_delta(bs) == natural_delta(bs[0].player) + natural_delta(bs[1].player));
    assert(post.bots@[0].player == settled_vs_natural(bs[0].player));
    assert(post.bots@[1].player == settled_vs_natural(bs[1].player));
}

/// Once the human cannot afford the minimum bet, no bet is accepted: the
/// only answer a betting step takes is a quit.
pub proof fn law_no_bet_after_game_over(g: BlackjackGame, coins_before: u32, bet: u32)
    requires
        g.game_over(),
    ensures
        !input_ok(g, RoundPhase::AwaitBet { coins_before }, RoundInput::Bet(Some(bet))),
        input_ok(g, RoundPhase::AwaitBet { coins_before }, RoundInput::Bet(None)),
{
}

} // verus!

# blackjack

A CLI Blackjack table — you and two bots against the dealer — whose game
logic is a Verus-verified library.

- `src/models` — cards, the 52-card deck (refilled with a fresh shuffled
  deck when it runs out), and hands with their ace-downgrading value.
- `src/players` — the shared player bookkeeping (bets, insurance, payouts,
  points, prestige), the bots' strategy, and the dealer's hit-soft-17 turn.
- `src/game` — the table state with its between-rounds invariant, the
  settlement rules, and a round as a state machine: each call of
  `play_round` performs one step (bets, deal, insurance, a human decision,
  a bot's turn, the dealer's turn, settlement, clean-up) and tells the
  caller what happened and which prompt, if any, comes next.
- `src/utils/text.rs` — decimal formatting and the reading of what the
  player types at each prompt.
- `app/` — the terminal program: prompts, printing, and the loop that
  drives the state machine.

The deck is shuffled with `rand`; the only trusted item is the call of
`SliceRandom::shuffle`, stated to permute the cards.

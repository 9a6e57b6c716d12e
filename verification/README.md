# twisted_fish

The rules and the computer players of Twisted Fish, a Go Fish variant with
zingers (cards that twist the usual rules), as a library whose functions are
proved correct against their contracts with Verus.

Layout of `src/`:

- `platform_types`: buttons, input, sound requests, screen coordinates in
  pixels and their clipped command form, and text split into lines.
- `models`: cards, ranks, suits and zingers, hands of up to 73 cards, the ids of
  the four hands, and the questions players ask.
- `memories`: what each computer player remembers of where the cards are, and
  the questions it derives from that.
- `game`: the piles, animations of cards moving between them, the zingers'
  effects, the computer players' decisions, the state of a whole game and what
  happens to it frame by frame, the player's menus, and the reflowing of text.
- `gfx` and `render`: drawing commands and the per-frame hash that tells when the
  screen needs redrawing.
- `common`: a standard fifty-two card deck and its drawing commands.
- `english`: sentence lists and ordinal numbers.

`app/` holds the frame loop that a platform layer drives: it keeps the source
of random numbers and the input, and calls the library's steps in order.
`tests/` holds the tests, run against the compiled library.

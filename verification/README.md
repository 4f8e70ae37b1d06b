# ttyaskpass

A passphrase prompt for terminals, and a pinentry for gpg-agent, whose echo
is a row of coloured stars: from eight typed bytes on, the colours are derived
from the SHA3-256 hash of what was typed, so that a user can tell at a glance
whether the passphrase is the usual one without it being shown.

- `src/` is the library, verified with Verus:
  - `askpass.rs`: the passphrase editor (a fixed buffer edited key by key,
    always holding the UTF-8 encoding of the typed text); the buffer is a
    `Vec<u8>`, as in `AskPass::new(vec![0; 32])`;
  - `colorhash.rs`: the star colours and their terminal escape codes;
  - `keys.rs`: decoding raw terminal bytes into key events, used by
    `raw_askpass` and by the pinentry's dialogs;
  - `prompt.rs`: the prompt line and a whole prompt run over raw input;
  - `pinentry.rs`: the Assuan requests of the pinentry protocol;
  - `dialog.rs`: what the pinentry's PIN and confirmation dialogs show and decide;
  - `encoding.rs`: UTF-8 encoding helpers; `utils.rs`: the status texts;
  - `laws.rs`: properties of the library as a whole.
- `app/` is the terminal and process glue: reading keys, writing to the
  terminal and to the agent, and the two programs.
- `tests/` holds the tests.

# dagashi

Dagashi counts keystrokes (counts only, never what is typed or in which
order; nothing while deaf mode is on) and every hour turns the day's counts
into a gacha pull: a character from a popular anime, rendered as animated
ASCII art. The pull sends the day's counts to the language model that picks
the character, and searches GIF services for the character's name.

## Layout

- `src/` is the library, written in Verus: every function carries a
  contract and is proved against it, except the eight small wrappers
  marked `#[verifier::external_body]` whose contracts are trusted: the
  calls of `str::to_lowercase`, `char::is_alphanumeric` and `String::push`
  (`text`), of chrono's date parsing (`anime_db::day_number`), of regex
  (`tenor::thumbnail_pairs`), of sha2 (`ipfs::sha256`) and of the image
  crate's decoders (`image_pipeline::decode_gif_frames`,
  `decode_still_image`).
  - `stats`, `daemon`, `keylogger`: the daily counters, how one key press
    changes them, key names, and deaf mode.
  - `anime_db`, `gacha`: the popularity list, tiers by rank, the anime a
    pull picks, and the page-by-page fetch of the list.
  - `pull`: the decisions of one pull (which anime and model question
    next, which result to keep) and the record written for it.
  - `image_pipeline`, `giphy`, `klipy`, `tenor`, `jikan`, `wiki`: the
    search for a pull's frames (`FrameSearch`), search queries, relevance
    of results, GIF decoding and frame sampling, and service addresses.
  - `llm`: the prompt and the environment handed to the model's command.
  - `storage`, `config`, `ipfs`: the collection of pulls, file paths,
    settings and the pull receipt.
  - `text`: character-level text operations shared by the above.
- `app/` is the program around the library: command dispatch, files,
  network requests, the model process, scaling frames to a pixel grid and
  the random rolls (floating point).
- `tests/` runs the library on concrete values.

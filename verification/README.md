# spot_ui

The screen of a terminal music player, as a library whose behaviour is stated in
contracts and proved with Verus.

A frame is a `Scene`: the text, pictures and lists to draw, in order, and the
cells that answer a click. Every drawing function says exactly what it adds to
the scene, as a function of the state it draws; what holds across functions
(columns never spend more than their pane, a control answers inside its own row,
typing moves nothing below the prompt) stands in proof functions beside them.

## Layout

| Directory | What is in it |
| --- | --- |
| `src/` | the library: layout, tables, pages, the deck, the boxes over them |
| `app/` | a terminal around it: painting with `ratatui`, the clock, the colours mixed in floating point |
| `tests/` | the screens drawn on a buffer and read back |

In `src/`:

| Module | What it holds |
| --- | --- |
| `text`, `geometry`, `theme`, `scene` | cells and strings, blocks of cells, styles, and what a frame is made of |
| `state` | what a frame is drawn from |
| `columns`, `rows`, `tables`, `table` | tables: how columns share a pane, what a row prints, where it answers |
| `deck`, `now_playing`, `player`, `spectrum`, `play_state` | what is playing, in the bar and on the full screen |
| `top_row`, `trail` | the header: the mark, the prompt, the path, the status |
| `main_pane`, `home`, `band`, `search_page`, `artist_page`, `artist_body`, `tabs`, `message` | the browse pages |
| `playlist_picker`, `playlist_edit`, `bio`, `art_zoom`, `help` | what lies over a page |
| `screen` | a whole frame |

## Keys

| Key | Action |
| --- | --- |
| `Space` | play / pause |
| `n` / `p` | next / previous track or station |
| `h` / `l` | seek -5s / +5s |
| `-` / `=` | volume down / up |
| `s` | toggle shuffle |
| `j` / `k` | move down / up |
| `g` / `G` | jump to top / bottom |
| `Ctrl-d/u` | half page down / up |
| `H` | go home |
| `v` | toggle player view (Esc closes) |
| `V` | cycle the visualizer (in the player view) |
| `←` / `→` | switch search, artist or radio tab |
| `Backspace` | back to previous view |
| `Esc` | back / close overlay |
| `Enter` | open item / play selection |
| `x` | play without opening |
| `a` | play the selected track next |
| `L` | like the track, or save the station |
| `F` | save the playlist you are on |
| `E` | edit a playlist of your own |
| `b` / `B` | open track's album / artist |
| `o` / `O` | cycle sort / flip direction |
| `/` | search Spotify and radio |
| `R` | refresh view & playlists |
| `?` | toggle this help |
| `q` | quit |
| `Ctrl-c` | quit |

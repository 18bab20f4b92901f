# game_of_life

Conway's Game of Life on a fixed grid, with a verified core.

- `src/` is the library, verified with Verus:
  - `cell.rs`: a cell, its square on the screen and the rule of life;
  - `grid.rs`: the grid, its neighbour count (edges are clamped, not wrapped),
    one generation, clicks, saving and reading grids;
  - `format.rs`: the text format grids are saved in (`'0'`/`'1'` per cell,
    one line per row) and what reading it checks;
  - `text.rs`: cutting a text into lines and choosing `.txt` files;
  - `import_modal.rs`: the layout and selection of the file chooser;
  - `controller.rs`: what each key does in each state, the speed, and the
    click cooldown;
  - `random.rs`: the calls into `rand` that random grids are drawn with.
- `app/` is the SDL2 program around it: the window, events, fonts, drawing
  and files.
- `tests/` runs the library on concrete grids and key sequences.

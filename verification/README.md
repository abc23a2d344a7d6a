# rustedex_gen

Generates a static Pokédex site from the PokéAPI.

- `src/` is the verified library: which Pokémon are listed and in which
  order (`species`), picking localized names (`translation`), the index cards
  (`index`), the detail page built request by request (`pokemon`), the export
  directory plan (`export`), error messages (`error`, `text`) and the settings
  (`args`). Every function there carries a contract that Verus proves.
- `app/` is the program around it: command-line parsing, HTTP requests to the
  PokéAPI, template rendering, file-system work, progress bars and the
  development web server.
- `tests/` runs the library on concrete values.

# wallpaper-downloader

A command-line tool that downloads wallpapers from Basic Apple Guy and organizes
them by device type. Its decisions are a library verified with Verus.

- `src/` is the library. Every function has a contract, and the properties that
  span several functions are stated as proof functions whose names begin with
  `law_`.
  - `settings`, `paths`, `expansion`, `lookup`: the command line over the
    configuration file over the defaults; `~` and variables in the output
    directory; where the configuration file is looked for.
  - `site`, `links`, `discovery`: the links on a page, each kept once, and paging
    through the category listing.
  - `device`, `article`, `download`: the folder of an image, what is skipped
    because it is on disk, and what is tried again.
  - `report`: the totals and what the user is told.
  - `text`: searching, splitting and building strings.
- `app/` is the program: argument parsing, HTTP, the disk and progress bars.
- `tests/` runs the library on concrete values.

A few functions of other crates and of the standard library are called from the
library with a contract that is believed, not proved: `shellexpand::full`, the
HTML queries of `scraper`, and `str::to_lowercase`. The doc comment of each says
what is claimed.

An image that fails to download is tried again once, after all other images of
its article are through.

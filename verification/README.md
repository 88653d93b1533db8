# slater

A static site generator whose rules are proved with Verus.

`src/` is the library.  Everything that decides something is there, with a
contract:

- `content/` — splitting a source file into its front matter block and body
  (`split_front_matter`), the rules of front matter (`FrontMatter::validate`),
  and building a post from its front matter and body (`parse_post`: title,
  slug, HTML).
- `config.rs` — the site configuration, its defaults, how its directories are
  resolved against the directory of `slater.toml`, and the rules it must
  satisfy.
- `render/` — where templates come from (project first, then the built-in
  theme), rendering post and index pages with `minijinja`, which posts are
  published and in what order, and the pages a build writes.
- `cmd/` — the command-line options, how `serve` overrides the
  configuration, and the plan `init` makes for a new site (its title,
  configuration file and starter files) and the checks made before writing it.
- `fs.rs`, `dev/` — the order in which found files are taken, the directory a
  written file needs, and the set of watched paths.
- `text.rs`, `paths.rs`, `order.rs` — character-level text operations, paths
  held as text, and the orders and the stable sort used above.

`app/` is the `slater` program: command-line parsing with `clap`, reading
and writing files, deserializing TOML with `serde`, and the HTTP server.  It
reads what the library needs, calls the library, and writes what the library
returns.

`tests/` exercises the library on concrete values.

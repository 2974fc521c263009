# ducko

A static site generator: Markdown pages with YAML front matter are rendered
through Tera templates into `public/`, with a sitemap, a development server
that rebuilds and reloads on change, and commands to start a site and add
pages.

- `src/` is the library, verified with Verus: text and path handling
  (`text`, `path`), the site's configuration and its builder (`config`), the
  front matter (`metadata`), and the rules of the build (`site`: where each
  page and image is written, the url of each page, the template that renders
  it, the front matter split, the order of the posts, the sitemap, and what a
  change of a watched file causes), of the setup (`new`), of adding a page
  (`add_page`) and of serving (`serve`).  Markdown is rendered by
  pulldown-cmark behind one trusted wrapper (`site::page`).
- `app/` is the program: command line, files, prompts, templates, the web
  server and the file watcher.  It converts paths to their components and
  hands every decision to the library.
- `tests/` runs the library on concrete inputs, including the examples that
  the user documentation gives.

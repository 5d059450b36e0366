# TorrentManager

A web interface to manage torrent archives: uploaded magnets and torrent
files are stored, checked against the torrent client (qBittorrent), and
added to it with their place in a collection.

## Layout

- `src/`: the library, verified with Verus. It holds the rules of the
  application: upload ids and paths (no path traversal, content-addressed
  save paths), the two upload forms and the pages answering them, error
  messages, internal redirects in Base64-URL, the writable-directory
  verdict, directory listings, collections, the template context and menu,
  series/season/episode names, restart requests, mount selection for free
  space, and the generation-time marker of HTML pages.
- `app/`: the program around it: command line, configuration file, disk
  and network I/O, the torrent client, the HTTP server and HTML pages.
- `tests/`: tests of the library on concrete values.

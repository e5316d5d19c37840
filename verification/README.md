# Hydra TNC

A TNC for the Mercury modem. The library, under `src/`, is verified with Verus:

- `modem`, `message`, `wire` and `text`: the commands that go out on Mercury's control port, and
  what its reports mean;
- `handshake`: how a connection to Mercury is opened;
- `bandwidth`: the channel bandwidths;
- `config`: the config, and when it is fit for use;
- `tab`, `layout` and `panel`: which tabs the window shows, and what the user's actions lead to.

The program under `app/` does what the library asks for: sockets, the config file and drawing.

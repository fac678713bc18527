# imap_responses

Interprets the responses of an IMAP server: which of them answer the running command, what the
command is to make of them, when it is complete or refused, and what is to be reported of the
responses that nobody asked for.

- `src/` is the library, verified with Verus. Each command is a function from the state of the
  command and the next item of the response stream to the way it goes on (`command.rs`,
  `listing.rs`). Its contract says so for every item; the functions named `law_..` say what follows
  over all the responses to a command.
- `app/` runs the commands over an asynchronous stream and converts what `imap-proto` parses.
- `tests/` runs the library on responses as servers send them.

Three things are taken on trust: comparison and rendering of text by the standard library
(`text.rs`), the sending of a message into an `async-channel` (`channel.rs`), and `std::io::Error`
as a type that is only carried along (`error.rs`).

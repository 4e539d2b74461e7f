# wRPC host transport

A wRPC transport over channels that the host of a program provides, for environments such
as browsers that have no transport of their own. A client asks its host for a new channel
for every invocation; a server takes incoming channels off its host's queue.

`src/` is the transport's logic in Verus, with a contract on every function:

- what is written is buffered until a flush, which hands all of it to the channel as one
  chunk; writes are made one after the other;
- a channel is closed only after a successful flush; the request to close it is kept from
  one poll to the next until it has ended;
- what a channel gives is passed to the reader in order, up to the first empty chunk, which
  ends the stream;
- the calls made on a channel are recorded, and contracts say which were made and that there
  were no others: opening a channel reads it, a flush writes to it at most once, a shutdown
  asks it to close at most once until that has ended, and nothing else calls it. What is
  shared between channels (the transport, or an interface that all calls go through) keeps
  no such record: of its calls, contracts say what came out of which;
- the laws over whole runs: among them, that the calls made carry every byte written, in
  order and once, that none of them writes an empty chunk, that a channel is asked to close
  only when all was written, and that a reader gets exactly the bytes written where the host
  carries them in order.

`app/` runs it on futures and streams with tokio, and implements the traits of
`wrpc_transport`. `tests/` run the library on hosts within the process.

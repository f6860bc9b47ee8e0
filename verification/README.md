# qqbot

The verified core of a group-chat bot for small devices: the wire framing of
its connection to the chat server, the message elements it sends and reads,
the bridge that relays group messages to an MQTT broker, and the small
runtime pieces (clock, random source, cells, cache) it runs on.

Everything under `src/` is verified with Verus; `app/` holds the programs and
the glue that do I/O.

## Layout

- `src/codec.rs`: frames delimited by a length head (`LengthDelimitedCodec`,
  `Builder`), with laws on reading back what was written.
- `src/framed.rs`: a transport framed by a codec: its buffers, and the read
  and write state machines that the caller drives with the transport's
  answers.
- `src/processor.rs`: where an incoming packet goes, the client's wire
  format and server address, and when the connection loop stops.
- `src/reconnect.rs`: credentials, the order of login attempts, and the
  reconnect counter.
- `src/handler.rs`: packing group messages for the broker, reading send
  commands from it, and the chat commands the bot answers.
- `src/msg/`, `src/pb/`: light-app cards, store stickers, dice and
  rock-paper-scissors, and the elements that carry them.
- `src/crypto.rs`: framing of enciphered login packets, and the ECDH key
  agreement with the server.
- `src/hex.rs`, `src/text.rs`, `src/timestamp.rs`, `src/buf.rs`: hex,
  decimal and UTF-8 text, eight-byte timestamps, and the byte buffers.
- `src/provider.rs`, `src/random.rs`, `src/atomic.rs`, `src/lazy.rs`,
  `src/cache.rs`, `src/task.rs`, `src/config.rs`: the clock, the random
  source, single-threaded cells, a bounded cache, yielding, and the settings.
- `app/`: the time server and clock sync, the configuration file, the
  secret drawn for the key agreement, the reconnect loop, wakers, timers
  and the main poll loop, and the reply glue.

# sansrpc

Remote procedure calls between two peers over any byte stream: oneshot messages, requests
with responses, and streams of items. The core performs no input or output. It takes bytes
and messages, and decides what is to be read, written and handed out next.

The core is written in Verus, which proves that each function meets its contract.

- `src/` is the core.
  - `message`, `service_message`: what travels, and what a service is handed.
  - `frame`, `encoder`, `buffer`: the layout of bytes, what a coder has to offer, and what
    is relied on of the `bytes` crate without proof.
  - `connection_state`: received bytes to messages, messages to bytes.
  - `tcp`: the next step of a connection over a reader and a writer.
  - `sans_service`, `service`: routing of answers and stream items, and what a running
    service does about each message.
  - `laws`: what holds of several operations together. Among others, messages arrive once,
    unchanged and in the order in which they were sent, whatever pieces the bytes come in,
    provided that the coder announces the true length of each message and reads back
    nothing but what it wrote. Polling a connection gives all of them and then the end,
    provided also that each frame fits the receive buffer.
- `app/` puts the core to work: JSON and bincode coders, connections over tokio and compio
  sockets, services over channels.
- `tests/` runs the core on concrete values.

A frame is a length of eight bytes, least significant byte first, followed by that many
bytes.

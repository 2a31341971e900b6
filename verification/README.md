# aes67-tools

Tools for sending and receiving AES67 audio streams (48 kHz, 24-bit L24 over RTP,
PTP clock references, SAP/SDP discovery), with their core written in Verus.

- `src/` is the verified library: RTP headers, L24 payloads and the packetizer; PTP
  messages, master selection and the client's reaction to each message and timer; SDP
  building and parsing; SAP packets and the stream registry; the send schedule, the
  receive playout bookkeeping, the command router, configuration merging, output device
  selection and the state machine of the interactive queue sender. `sdp_readback.rs`
  proves that the SDP a sender builds reads back as the stream it describes.
- `app/` is the `aes67` command around it: sockets, timers, files, audio decoding and
  resampling, and the terminal interface.
- `tests/` exercises the library on concrete values.

# airplay

An AirPlay 2 audio sender whose protocol logic is verified with Verus.

- `src/` is the verified library: device records from mDNS TXT data, the RTSP
  requests, responses and session state machine, transient pair-setup (SRP-6a,
  HKDF, TLV8), the ChaCha20-Poly1305 framing of the control channel and of audio
  packets, RTP packets, sync and retransmission, the audio buffer and streamer,
  the sender's pacing loop, NTP and PTP timing messages, and the client's
  decisions (timing plan, SETUP handling, group configuration, statistics).
  Calls into outside crates (ChaCha20-Poly1305, HKDF, SHA-512, big integers, the
  random source, UUIDs) go through small trusted wrappers whose contracts say
  what the library relies on.
- `app/` is the runtime around it, not verified: sockets, TCP, tasks and
  threads, mDNS browsing, the ALAC codec and resampling (floating point), the
  binary-plist bodies, the errors with their display texts, and the public
  client.
- `tests/` run the library on concrete values, including known answers of the
  cryptographic exchanges.

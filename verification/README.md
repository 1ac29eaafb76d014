# sanzu

The verified core of Sanzu, a remote desktop: a server grabs the screen of
an X11 or Windows session, encodes it and streams it, with sound, the
clipboard, the cursor and the windows' shapes, to a client that sends back
the user's input.

`src/` is the library, checked by Verus: each public function states what it
returns or changes, and the properties that span functions are public proof
functions (`lemma_*`) next to the functions they speak of.

- `proto`, `byte_order`: message framing and fixed width integers.
- `yuv`, `yuv_laws`, `video_encoder`, `video_decoder`, `frame_chunks`, `osd`,
  `win_cursor`: images, colour conversions, codec settings, how frames reach
  the window, and the cursor image of the Windows client.
- `session`, `client_events`, `client_poll`, `client_round`, `win_events`,
  `client_input`, `win_input`, `keycodes`, `key_codes`: the rounds of the
  server and client loops, their input and key code translations.
- `areas`, `area_table`, `video_modes`, `notifications`, `sound`, `clipboard`, `text`,
  `utils`: windows shown in seamless mode, X11 video modes, desktop
  notifications, sound buffers, the clipboard watch, the text of X11
  properties, limits on what a peer sends.
- `auth`, `certs`, `broker`, `config`, `keyed`, `printing`: authentication
  decisions, the user of a client certificate, the broker, configuration,
  the check of a print request.

`app/` holds what Verus does not check: configuration files read with serde,
command line arguments, logging, the drawing of the statistics text, the
parallel colour conversion, and the protobuf messages on the wire.

`tests/` runs the library on concrete values.
